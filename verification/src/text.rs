//! String helpers: comparison, estimated width and number formatting.

use vstd::prelude::*;
use vstd::string::*;

verus! {

/// Compares two string slices by the characters they hold.
pub fn str_eq(a: &str, b: &str) -> (equal: bool)
    ensures
        equal == (a@ == b@),
{
    let left = a.as_bytes();
    let right = b.as_bytes();
    proof {
        vstd::utf8::encode_utf8_decode_utf8(a@);
        vstd::utf8::encode_utf8_decode_utf8(b@);
        assert(left@ == right@ ==> a@ == b@);
    }
    if left.len() != right.len() {
        return false;
    }
    let n: usize = left.len();
    for i in 0..n
        invariant
            n == left@.len(),
            n == right@.len(),
            left@ == a.spec_bytes(),
            right@ == b.spec_bytes(),
            forall|j: int| 0 <= j < i ==> left@[j] == right@[j],
    {
        if left[i] != right[i] {
            assert(left@ != right@);
            return false;
        }
    }
    assert(left@ =~= right@);
    true
}

/// Characters that take no room of their own: combining marks, variation
/// selectors, the keycap mark and emoji skin tones.
pub open spec fn is_zero_width(c: char) -> bool {
    let code = c as u32;
    ||| 0x0300 <= code <= 0x036F
    ||| 0xFE00 <= code <= 0xFE0F
    ||| code == 0x20E3
    ||| 0x1F3FB <= code <= 0x1F3FF
}

/// Estimated width of one character at a font size of 16 pixels.
pub open spec fn char_width(c: char) -> nat {
    if is_zero_width(c) {
        0
    } else if (c as u32) < 0x80 {
        10
    } else {
        17
    }
}

/// Estimated width of a text: the sum over its characters.
pub open spec fn text_width(s: Seq<char>) -> nat
    decreases s.len(),
{
    if s.len() == 0 {
        0
    } else {
        text_width(s.drop_last()) + char_width(s.last())
    }
}

/// Width of one character, as [`char_width`] gives it.
pub(crate) fn width_of_char(c: char) -> (width: u32)
    ensures
        width == char_width(c),
        width <= 17,
{
    let code: u32 = c as u32;
    if (0x0300 <= code && code <= 0x036F) || (0xFE00 <= code && code <= 0xFE0F) || code == 0x20E3
        || (0x1F3FB <= code && code <= 0x1F3FF) {
        0
    } else if code < 0x80 {
        10
    } else {
        17
    }
}

/// The width of a text is the sum of the widths of its parts.
pub proof fn law_text_width_concat(a: Seq<char>, b: Seq<char>)
    ensures
        text_width(a + b) == text_width(a) + text_width(b),
    decreases b.len(),
{
    if b.len() == 0 {
        assert(a + b =~= a);
    } else {
        assert((a + b).drop_last() =~= a + b.drop_last());
        law_text_width_concat(a, b.drop_last());
    }
}

/// A prefix is never wider than the whole.
pub proof fn law_text_width_prefix(s: Seq<char>, n: int)
    requires
        0 <= n <= s.len(),
    ensures
        text_width(s.take(n)) <= text_width(s),
{
    assert(s =~= s.take(n) + s.skip(n));
    law_text_width_concat(s.take(n), s.skip(n));
}

/// No character is wider than 17 pixels, so the length of a text bounds its width.
pub proof fn law_text_width_is_bounded(s: Seq<char>)
    ensures
        text_width(s) <= 17 * s.len(),
    decreases s.len(),
{
    if s.len() > 0 {
        law_text_width_is_bounded(s.drop_last());
    }
}

/// Taking one character more adds that character's width.
pub(crate) proof fn lemma_width_take_step(s: Seq<char>, n: int)
    requires
        0 <= n < s.len(),
    ensures
        text_width(s.take(n + 1)) == text_width(s.take(n)) + char_width(s[n]),
{
    assert(s.take(n + 1).drop_last() =~= s.take(n));
}

/// Measures a text, unless its width does not fit.
pub fn measured_width(text: &str) -> (width: Option<u32>)
    ensures
        match width {
            Some(width) => width == text_width(text@),
            None => text_width(text@) > u32::MAX,
        },
{
    let mut width: u32 = 0;
    for c in it: text.chars()
        invariant
            it.seq() == text@,
            width == text_width(text@.take(it.index())),
    {
        proof {
            lemma_width_take_step(text@, it.index());
            law_text_width_prefix(text@, it.index() + 1);
        }
        match width.checked_add(width_of_char(c)) {
            Some(sum) => {
                width = sum;
            },
            None => {
                return None;
            },
        }
    }
    assert(text@.take(text@.len() as int) =~= text@);
    Some(width)
}

/// The ten decimal digits.
pub open spec fn digit_char(d: nat) -> char {
    (0x30 + d) as u8 as char
}

/// The decimal notation of a number, without leading zeros.
pub open spec fn decimal_notation(n: nat) -> Seq<char>
    decreases n,
{
    if n < 10 {
        seq![digit_char(n)]
    } else {
        decimal_notation(n / 10).push(digit_char(n % 10))
    }
}

/// One decimal digit as text.
fn digit_text(d: u8) -> (digit: &'static str)
    requires
        d < 10,
    ensures
        digit@ == seq![digit_char(d as nat)],
{
    proof {
        reveal_strlit("0");
        reveal_strlit("1");
        reveal_strlit("2");
        reveal_strlit("3");
        reveal_strlit("4");
        reveal_strlit("5");
        reveal_strlit("6");
        reveal_strlit("7");
        reveal_strlit("8");
        reveal_strlit("9");
    }
    let digit = match d {
        0 => "0",
        1 => "1",
        2 => "2",
        3 => "3",
        4 => "4",
        5 => "5",
        6 => "6",
        7 => "7",
        8 => "8",
        _ => "9",
    };
    assert(digit@ =~= seq![digit_char(d as nat)]);
    digit
}

/// Writes a number in decimal notation.
pub fn decimal(n: usize) -> (digits: String)
    ensures
        digits@ == decimal_notation(n as nat),
    decreases n,
{
    if n < 10 {
        let mut digits = String::new();
        digits.append(digit_text(n as u8));
        assert(digits@ =~= decimal_notation(n as nat));
        digits
    } else {
        let mut digits = decimal(n / 10);
        let last: usize = n % 10;
        digits.append(digit_text(last as u8));
        assert(digits@ =~= decimal_notation(n as nat));
        digits
    }
}

/// The sixteen hexadecimal digits, in lower case.
pub open spec fn hex_digit(d: nat) -> char {
    if d < 10 {
        digit_char(d)
    } else {
        (0x61 + (d - 10)) as u8 as char
    }
}

/// The hexadecimal notation of bytes: two digits each, the high one first.
pub open spec fn hex_notation(bytes: Seq<u8>) -> Seq<char> {
    Seq::new(
        2 * bytes.len(),
        |i: int|
            if i % 2 == 0 {
                hex_digit(bytes[i / 2] as nat / 16)
            } else {
                hex_digit(bytes[i / 2] as nat % 16)
            },
    )
}

/// One hexadecimal digit as text.
fn hex_digit_text(d: u8) -> (digit: &'static str)
    requires
        d < 16,
    ensures
        digit@ == seq![hex_digit(d as nat)],
{
    if d < 10 {
        return digit_text(d);
    }
    proof {
        reveal_strlit("a");
        reveal_strlit("b");
        reveal_strlit("c");
        reveal_strlit("d");
        reveal_strlit("e");
        reveal_strlit("f");
    }
    let digit = match d {
        10 => "a",
        11 => "b",
        12 => "c",
        13 => "d",
        14 => "e",
        _ => "f",
    };
    assert(digit@ =~= seq![hex_digit(d as nat)]);
    digit
}

/// Writes bytes in hexadecimal notation, in lower case.
pub fn hex_lower(bytes: &[u8]) -> (digits: String)
    ensures
        digits@ == hex_notation(bytes@),
{
    let mut digits = String::new();
    let n: usize = bytes.len();
    for i in 0..n
        invariant
            n == bytes@.len(),
            digits@ == hex_notation(bytes@.take(i as int)),
    {
        let byte: u8 = bytes[i];
        digits.append(hex_digit_text(byte / 16));
        digits.append(hex_digit_text(byte % 16));
        proof {
            let before = bytes@.take(i as int);
            let after = bytes@.take(i + 1);
            assert forall|k: int| 0 <= k < 2 * i implies before[k / 2] == #[trigger] after[k
                / 2] by {}
            assert(digits@ =~= hex_notation(after));
        }
    }
    assert(bytes@.take(n as int) =~= bytes@);
    digits
}

/// Different bytes have different hexadecimal notations.
pub proof fn law_hex_notation_is_injective(a: Seq<u8>, b: Seq<u8>)
    requires
        hex_notation(a) == hex_notation(b),
    ensures
        a == b,
{
    assert(hex_notation(a).len() == 2 * a.len());
    assert(hex_notation(b).len() == 2 * b.len());
    assert forall|i: int| 0 <= i < a.len() implies a[i] == b[i] by {
        lemma_hex_notation_at(a, i);
        lemma_hex_notation_at(b, i);
        lemma_hex_digit_is_injective(a[i] as nat / 16, b[i] as nat / 16);
        lemma_hex_digit_is_injective(a[i] as nat % 16, b[i] as nat % 16);
    }
    assert(a =~= b);
}

/// The two digits of one byte.
proof fn lemma_hex_notation_at(bytes: Seq<u8>, i: int)
    requires
        0 <= i < bytes.len(),
    ensures
        hex_notation(bytes)[2 * i] == hex_digit(bytes[i] as nat / 16),
        hex_notation(bytes)[2 * i + 1] == hex_digit(bytes[i] as nat % 16),
{
    let high: int = 2 * i;
    let low: int = 2 * i + 1;
    assert(high % 2 == 0 && high / 2 == i);
    assert(low % 2 == 1 && low / 2 == i);
}

proof fn lemma_hex_digit_is_injective(a: nat, b: nat)
    requires
        a < 16,
        b < 16,
        hex_digit(a) == hex_digit(b),
    ensures
        a == b,
{
}

/// What a digit of a hexadecimal notation stands for.
pub open spec fn hex_value(c: char) -> int {
    if '0' <= c <= '9' {
        c as int - '0' as int
    } else if 'a' <= c <= 'f' {
        c as int - 'a' as int + 10
    } else {
        -1
    }
}

/// Reading a hexadecimal notation two digits at a time gives the bytes back, and the
/// digits are decimal digits and the letters a to f in lower case.
pub proof fn law_hex_notation_reads_back(bytes: Seq<u8>, i: int)
    requires
        0 <= i < bytes.len(),
    ensures
        hex_notation(bytes).len() == 2 * bytes.len(),
        0 <= hex_value(hex_notation(bytes)[2 * i]) < 16,
        0 <= hex_value(hex_notation(bytes)[2 * i + 1]) < 16,
        16 * hex_value(hex_notation(bytes)[2 * i]) + hex_value(hex_notation(bytes)[2 * i + 1])
            == bytes[i],
{
    lemma_hex_notation_at(bytes, i);
}

/// The number that decimal digits stand for.
pub open spec fn decimal_value(digits: Seq<char>) -> int
    decreases digits.len(),
{
    if digits.len() == 0 {
        0
    } else {
        10 * decimal_value(digits.drop_last()) + (digits.last() as int - '0' as int)
    }
}

/// Reading a decimal notation gives the number back; it is made of decimal digits and
/// begins with a zero only where that is all of it.
pub proof fn law_decimal_notation_reads_back(n: nat, i: int)
    ensures
        decimal_value(decimal_notation(n)) == n,
        decimal_notation(n).len() >= 1,
        0 <= i < decimal_notation(n).len() ==> '0' <= decimal_notation(n)[i] <= '9',
        decimal_notation(n)[0] == '0' ==> n == 0,
    decreases n,
{
    if n < 10 {
        let one = seq![digit_char(n)];
        assert(one.drop_last() =~= Seq::<char>::empty());
        reveal_with_fuel(decimal_value, 2);
    } else {
        law_decimal_notation_reads_back(n / 10, i);
        let before = decimal_notation(n / 10);
        assert(before.push(digit_char(n % 10)).drop_last() =~= before);
    }
}

/// A combining mark, a variation selector, the keycap mark and a skin tone take no
/// room, other ASCII characters take ten pixels, all others seventeen.
pub proof fn law_character_widths(c: char)
    ensures
        text_width(seq![c]) == if 0x0300 <= c as u32 <= 0x036F || 0xFE00 <= c as u32 <= 0xFE0F
            || c as u32 == 0x20E3 || 0x1F3FB <= c as u32 <= 0x1F3FF {
            0nat
        } else if (c as u32) < 0x80 {
            10
        } else {
            17
        },
        text_width(Seq::empty()) == 0,
{
    assert(seq![c].drop_last() =~= Seq::<char>::empty());
    reveal_with_fuel(text_width, 2);
}

} // verus!
