//! Clipboard watching: which offers are read, and which texts are captured.
//!
//! The compositor announces offers, then their MIME types one by one, then which
//! offer is the new selection. The text of a selection is read, and captured
//! unless it is what was captured last.

use std::collections::HashMap;

use vstd::prelude::*;
use vstd::string::*;

use crate::text::str_eq;

verus! {

broadcast use vstd::std_specs::hash::group_hash_axioms;

/// The MIME type of UTF-8 text, which is preferred.
pub const MIME_UTF8: &'static str = "text/plain;charset=utf-8";

/// The MIME type of plain text.
pub const MIME_PLAIN: &'static str = "text/plain";

/// How many bytes of a selection are read at most.
pub const MAX_READ_BYTES: u64 = 1024 * 1024;

// ── MIME types ─────────────────────────────────────────────────────────────

/// The MIME type to read a text with: UTF-8 text where it is offered, else plain
/// text.
pub open spec fn preferred_mime(mimes: Seq<Seq<char>>) -> Option<Seq<char>> {
    if mimes.contains(MIME_UTF8@) {
        Some(MIME_UTF8@)
    } else if mimes.contains(MIME_PLAIN@) {
        Some(MIME_PLAIN@)
    } else {
        None
    }
}

/// Looks for a MIME type among others.
fn offers(mimes: &[String], wanted: &str) -> (found: bool)
    ensures
        found == crate::sync::string_views(mimes@).contains(wanted@),
{
    let n: usize = mimes.len();
    for i in 0..n
        invariant
            n == mimes@.len(),
            forall|j: int| 0 <= j < i ==> mimes@[j]@ != wanted@,
    {
        if str_eq(mimes[i].as_str(), wanted) {
            assert(crate::sync::string_views(mimes@)[i as int] == wanted@);
            return true;
        }
    }
    false
}

/// Picks the MIME type to read a text with.
pub fn pick_text_mime(mimes: &[String]) -> (mime: Option<&'static str>)
    ensures
        match mime {
            Some(mime) => preferred_mime(crate::sync::string_views(mimes@)) == Some(mime@),
            None => preferred_mime(crate::sync::string_views(mimes@)) is None,
        },
        mime is None <==> forall|i: int|
            0 <= i < mimes@.len() ==> (#[trigger] mimes@[i])@ != MIME_UTF8@ && mimes@[i]@
                != MIME_PLAIN@,
        forall|i: int|
            0 <= i < mimes@.len() && (#[trigger] mimes@[i])@ == MIME_UTF8@ ==> (mime matches Some(
                mime,
            ) && mime@ == MIME_UTF8@),
{
    proof {
        let views = crate::sync::string_views(mimes@);
        assert forall|i: int| 0 <= i < mimes@.len() implies views.contains(
            (#[trigger] mimes@[i])@,
        ) by {
            assert(views[i] == mimes@[i]@);
        }
        if views.contains(MIME_UTF8@) {
            let i = choose|i: int| 0 <= i < views.len() && views[i] == MIME_UTF8@;
            assert(mimes@[i]@ == MIME_UTF8@);
        }
        if views.contains(MIME_PLAIN@) {
            let i = choose|i: int| 0 <= i < views.len() && views[i] == MIME_PLAIN@;
            assert(mimes@[i]@ == MIME_PLAIN@);
        }
    }
    if offers(mimes, MIME_UTF8) {
        Some(MIME_UTF8)
    } else if offers(mimes, MIME_PLAIN) {
        Some(MIME_PLAIN)
    } else {
        None
    }
}

// ── Reading ────────────────────────────────────────────────────────────────

/// Calls `String::from_utf8`, which returns the text that bytes encode where they
/// are valid UTF-8, and an error otherwise.
#[verifier::external_body]
fn decode(bytes: Vec<u8>) -> (text: Option<String>)
    ensures
        match text {
            Some(text) => vstd::utf8::encode_utf8(text@) == bytes@,
            None => !vstd::utf8::valid_utf8(bytes@),
        },
{
    String::from_utf8(bytes).ok()
}

/// The part of what a selection offers that is read.
pub open spec fn read_part(bytes: Seq<u8>) -> Seq<u8> {
    if bytes.len() > MAX_READ_BYTES {
        bytes.take(MAX_READ_BYTES as int)
    } else {
        bytes
    }
}

/// Turns the bytes of a selection into a text. There is none where the bytes that
/// are read are not valid UTF-8, or where there are none.
pub fn offer_text(bytes: Vec<u8>) -> (text: Option<String>)
    ensures
        text is Some <==> bytes@.len() > 0 && vstd::utf8::valid_utf8(read_part(bytes@)),
        text matches Some(text) ==> text@ == vstd::utf8::decode_utf8(read_part(bytes@)),
{
    let mut bytes = bytes;
    let ghost all = bytes@;
    bytes.truncate(MAX_READ_BYTES as usize);
    assert(bytes@ =~= read_part(all));
    match decode(bytes) {
        Some(text) => {
            proof {
                vstd::utf8::encode_utf8_valid_utf8(text@);
                vstd::utf8::encode_utf8_decode_utf8(text@);
                vstd::utf8::decode_utf8_encode_utf8(read_part(all));
                if text@.len() > 0 {
                    assert(read_part(all).len() > 0) by {
                        if read_part(all).len() == 0 {
                            assert(vstd::utf8::decode_utf8(read_part(all)).len() == 0);
                        }
                    }
                }
            }
            if text.as_str().is_empty() {
                None
            } else {
                Some(text)
            }
        },
        None => None,
    }
}

// ── The watcher state ──────────────────────────────────────────────────────

/// The protocols that give access to the clipboard.
#[derive(Debug, Clone, Copy, PartialEq, Eq, Structural)]
pub enum DataControl {
    /// `ext-data-control-v1`
    Ext,
    /// `zwlr-data-control-v1`
    Wlr,
}

/// Chooses a protocol among those that the compositor has: the standard one where
/// there is a choice.
pub fn choose_protocol(has_ext: bool, has_wlr: bool) -> (protocol: Option<DataControl>)
    ensures
        protocol == (if has_ext {
            Some(DataControl::Ext)
        } else if has_wlr {
            Some(DataControl::Wlr)
        } else {
            None::<DataControl>
        }),
{
    if has_ext {
        Some(DataControl::Ext)
    } else if has_wlr {
        Some(DataControl::Wlr)
    } else {
        None
    }
}

/// What the compositor says about offers, which are known by a number.
#[derive(Debug, Clone, PartialEq, Eq)]
pub enum OfferEvent {
    /// There is a new offer.
    DataOffer(u64),
    /// An offer has a MIME type.
    MimeType(u64, String),
    /// An offer is the new selection, or nothing is selected any more.
    Selection(Option<u64>),
}

/// What watching remembers: the MIME types of the offers, and the text that was
/// captured last.
pub struct WatcherState {
    mimes: HashMap<u64, Vec<String>>,
    last_text: Option<String>,
}

/// The mathematical content of a [`WatcherState`].
#[verifier::ext_equal]
pub struct WatcherView {
    pub mimes: Map<u64, Seq<Seq<char>>>,
    pub last_text: Option<Seq<char>>,
}

impl WatcherView {
    /// The MIME types of an offer. An offer that was not announced has none.
    pub open spec fn mimes_of(self, id: u64) -> Seq<Seq<char>> {
        if self.mimes.contains_key(id) {
            self.mimes[id]
        } else {
            Seq::empty()
        }
    }

    /// The state after an event.
    pub open spec fn after(self, event: OfferEvent) -> WatcherView {
        match event {
            OfferEvent::DataOffer(id) => WatcherView {
                mimes: self.mimes.insert(id, Seq::empty()),
                ..self
            },
            OfferEvent::MimeType(id, mime) => WatcherView {
                mimes: self.mimes.insert(id, self.mimes_of(id).push(mime@)),
                ..self
            },
            OfferEvent::Selection(Some(id)) => WatcherView {
                mimes: self.mimes.remove(id),
                ..self
            },
            OfferEvent::Selection(None) => self,
        }
    }

    /// The MIME type to read an event's selection with, where it is to be read.
    pub open spec fn reads(self, event: OfferEvent) -> Option<Seq<char>> {
        match event {
            OfferEvent::Selection(Some(id)) => preferred_mime(self.mimes_of(id)),
            _ => None,
        }
    }

    /// The state after a text was handed to the store.
    pub open spec fn captured(self, text: Seq<char>, stored: bool) -> WatcherView {
        if stored {
            WatcherView { last_text: Some(text), ..self }
        } else {
            self
        }
    }
}

impl View for WatcherState {
    type V = WatcherView;

    closed spec fn view(&self) -> WatcherView {
        WatcherView {
            mimes: self.mimes@.map_values(|mimes: Vec<String>| crate::sync::string_views(mimes@)),
            last_text: match self.last_text {
                Some(text) => Some(text@),
                None => None,
            },
        }
    }
}

impl WatcherState {
    /// The state of a watcher that has just started.
    pub fn new() -> (state: WatcherState)
        ensures
            state@.mimes == Map::<u64, Seq<Seq<char>>>::empty(),
            state@.last_text is None,
    {
        let state = WatcherState { mimes: HashMap::new(), last_text: None };
        assert(state@.mimes =~= Map::<u64, Seq<Seq<char>>>::empty());
        state
    }

    /// Takes note of an event. For a selection that has a text, the result is the
    /// MIME type to read it with.
    pub fn on_event(&mut self, event: OfferEvent) -> (mime: Option<&'static str>)
        ensures
            final(self)@ == old(self)@.after(event),
            match mime {
                Some(mime) => old(self)@.reads(event) == Some(mime@),
                None => old(self)@.reads(event) is None,
            },
    {
        match event {
            OfferEvent::DataOffer(id) => {
                let none: Vec<String> = Vec::new();
                assert(crate::sync::string_views(none@) =~= Seq::<Seq<char>>::empty());
                self.mimes.insert(id, none);
                assert(self@ =~= old(self)@.after(event));
                None
            },
            OfferEvent::MimeType(id, mime) => {
                let mut mimes = self.take_mimes(id);
                let ghost others = self@.mimes;
                let ghost before = crate::sync::string_views(mimes@);
                mimes.push(mime);
                assert(crate::sync::string_views(mimes@) =~= before.push(mime@));
                self.mimes.insert(id, mimes);
                assert(self@.mimes =~= others.insert(id, before.push(mime@)));
                assert(self@.mimes =~= old(self)@.mimes.insert(id, before.push(mime@)));
                assert(self@ =~= old(self)@.after(event));
                None
            },
            OfferEvent::Selection(Some(id)) => {
                let mimes = self.take_mimes(id);
                pick_text_mime(mimes.as_slice())
            },
            OfferEvent::Selection(None) => None,
        }
    }

    /// Takes an offer's MIME types out of the state.
    fn take_mimes(&mut self, id: u64) -> (mimes: Vec<String>)
        ensures
            crate::sync::string_views(mimes@) == old(self)@.mimes_of(id),
            final(self)@ == (WatcherView { mimes: old(self)@.mimes.remove(id), ..old(self)@ }),
    {
        let taken = self.mimes.remove(&id);
        assert(self@.mimes =~= old(self)@.mimes.remove(id));
        match taken {
            Some(mimes) => mimes,
            None => {
                let none: Vec<String> = Vec::new();
                assert(crate::sync::string_views(none@) =~= Seq::<Seq<char>>::empty());
                none
            },
        }
    }

    /// Whether a text that was read goes to the store.
    pub fn wants_capture(&self, text: &str) -> (wanted: bool)
        ensures
            wanted == (self@.last_text != Some(text@)),
    {
        match &self.last_text {
            Some(last) => !str_eq(last.as_str(), text),
            None => true,
        }
    }

    /// Takes note of whether the store took a text. The result says whether the
    /// capture is to be reported.
    pub fn finish_capture(&mut self, text: String, stored: bool) -> (report: bool)
        ensures
            final(self)@ == old(self)@.captured(text@, stored),
            report == stored,
    {
        if stored {
            self.last_text = Some(text);
        }
        assert(self@ =~= old(self)@.captured(text@, stored));
        stored
    }
}

// ── Laws ───────────────────────────────────────────────────────────────────

/// UTF-8 text is preferred wherever it is offered, whatever else is, in whatever
/// order.
pub proof fn law_utf8_is_preferred(mimes: Seq<Seq<char>>, more: Seq<Seq<char>>)
    ensures
        preferred_mime(mimes + seq![MIME_UTF8@] + more) == Some(MIME_UTF8@),
{
    let all = mimes + seq![MIME_UTF8@] + more;
    assert(all[mimes.len() as int] == MIME_UTF8@);
}

/// Plain text is chosen wherever it is offered and UTF-8 text is not, whatever else is
/// offered before or behind it.
pub proof fn law_plain_text_is_second(mimes: Seq<Seq<char>>, more: Seq<Seq<char>>)
    requires
        !mimes.contains(MIME_UTF8@),
        !more.contains(MIME_UTF8@),
    ensures
        preferred_mime(mimes + seq![MIME_PLAIN@] + more) == Some(MIME_PLAIN@),
{
    let all = mimes + seq![MIME_PLAIN@] + more;
    assert(all[mimes.len() as int] == MIME_PLAIN@);
    if all.contains(MIME_UTF8@) {
        let i = choose|i: int| 0 <= i < all.len() && all[i] == MIME_UTF8@;
        lemma_mimes_differ();
        if i < mimes.len() {
            assert(mimes[i] == MIME_UTF8@);
        } else if i > mimes.len() {
            assert(more[i - mimes.len() - 1] == MIME_UTF8@);
        }
    }
}

/// The two types are two.
proof fn lemma_mimes_differ()
    ensures
        MIME_UTF8@ != MIME_PLAIN@,
{
    reveal_strlit("text/plain;charset=utf-8");
    reveal_strlit("text/plain");
    assert(MIME_UTF8@.len() != MIME_PLAIN@.len());
}

/// No type is chosen exactly where neither of the two is offered at any place, and
/// what is chosen was offered.
pub proof fn law_chosen_types_are_offered(mimes: Seq<Seq<char>>)
    ensures
        preferred_mime(mimes) is None <==> forall|i: int|
            0 <= i < mimes.len() ==> #[trigger] mimes[i] != MIME_UTF8@ && mimes[i] != MIME_PLAIN@,
        preferred_mime(mimes) matches Some(mime) ==> mimes.contains(mime),
{
    if mimes.contains(MIME_UTF8@) {
        let i = choose|i: int| 0 <= i < mimes.len() && mimes[i] == MIME_UTF8@;
        assert(mimes[i] == MIME_UTF8@);
    }
    if mimes.contains(MIME_PLAIN@) {
        let i = choose|i: int| 0 <= i < mimes.len() && mimes[i] == MIME_PLAIN@;
        assert(mimes[i] == MIME_PLAIN@);
    }
    assert forall|i: int| 0 <= i < mimes.len() implies mimes.contains(#[trigger] mimes[i]) by {}
}

/// The order in which types are offered, and how often, does not matter.
pub proof fn law_the_order_of_offers_does_not_matter(a: Seq<Seq<char>>, b: Seq<Seq<char>>)
    requires
        forall|mime: Seq<char>| #[trigger] a.contains(mime) == b.contains(mime),
    ensures
        preferred_mime(a) == preferred_mime(b),
{
    assert(a.contains(MIME_UTF8@) == b.contains(MIME_UTF8@));
    assert(a.contains(MIME_PLAIN@) == b.contains(MIME_PLAIN@));
}

/// The types can be permuted.
pub proof fn law_types_can_be_permuted(a: Seq<Seq<char>>, b: Seq<Seq<char>>)
    requires
        a.to_multiset() == b.to_multiset(),
    ensures
        preferred_mime(a) == preferred_mime(b),
{
    broadcast use vstd::seq_lib::group_to_multiset_ensures;

    assert forall|mime: Seq<char>| #[trigger] a.contains(mime) == b.contains(mime) by {
        assert(a.contains(mime) <==> a.to_multiset().count(mime) > 0);
        assert(b.contains(mime) <==> b.to_multiset().count(mime) > 0);
    }
    law_the_order_of_offers_does_not_matter(a, b);
}

/// What is read of a selection is all of it up to the limit, from its beginning.
pub proof fn law_selections_are_read_from_the_beginning(bytes: Seq<u8>, i: int)
    ensures
        bytes.len() <= MAX_READ_BYTES ==> read_part(bytes) == bytes,
        bytes.len() > MAX_READ_BYTES ==> read_part(bytes).len() == MAX_READ_BYTES,
        0 <= i < read_part(bytes).len() ==> read_part(bytes)[i] == bytes[i],
{
}

/// A text that fits within the limit comes out as it was put in.
pub proof fn law_texts_come_through(text: Seq<char>)
    requires
        vstd::utf8::encode_utf8(text).len() <= MAX_READ_BYTES,
    ensures
        vstd::utf8::valid_utf8(read_part(vstd::utf8::encode_utf8(text))),
        vstd::utf8::decode_utf8(read_part(vstd::utf8::encode_utf8(text))) == text,
{
    vstd::utf8::encode_utf8_valid_utf8(text);
    vstd::utf8::encode_utf8_decode_utf8(text);
}

/// An event is about its own offer: a new offer has no types, a type joins those that
/// the offer has, a selection uses the offer up. Other offers, and the text that was
/// captured last, stay as they are.
pub proof fn law_events_are_about_their_offer(
    state: WatcherView,
    id: u64,
    other: u64,
    mime: String,
)
    requires
        other != id,
    ensures
        state.after(OfferEvent::DataOffer(id)).mimes_of(id).len() == 0,
        state.after(OfferEvent::MimeType(id, mime)).mimes_of(id) == state.mimes_of(id).push(
            mime@,
        ),
        state.after(OfferEvent::Selection(Some(id))).mimes_of(id).len() == 0,
        state.after(OfferEvent::DataOffer(id)).mimes_of(other) == state.mimes_of(other),
        state.after(OfferEvent::MimeType(id, mime)).mimes_of(other) == state.mimes_of(other),
        state.after(OfferEvent::Selection(Some(id))).mimes_of(other) == state.mimes_of(other),
        state.after(OfferEvent::Selection(None)) == state,
        state.after(OfferEvent::DataOffer(id)).last_text == state.last_text,
        state.after(OfferEvent::MimeType(id, mime)).last_text == state.last_text,
        state.after(OfferEvent::Selection(Some(id))).last_text == state.last_text,
{
}

/// Only a selection of an offer is read, with UTF-8 text where one of its types is
/// that, else with plain text where one of them is that.
pub proof fn law_what_is_read(state: WatcherView, id: u64, mime: String, i: int)
    ensures
        state.mimes.contains_key(id) ==> state.mimes_of(id) == state.mimes[id],
        !state.mimes.contains_key(id) ==> state.reads(OfferEvent::Selection(Some(id))) is None,
        state.mimes.contains_key(id) && 0 <= i < state.mimes[id].len() && state.mimes[id][i]
            == MIME_UTF8@ ==> state.reads(OfferEvent::Selection(Some(id))) == Some(MIME_UTF8@),
        state.mimes.contains_key(id) && 0 <= i < state.mimes[id].len() && state.mimes[id][i]
            == MIME_PLAIN@ ==> state.reads(OfferEvent::Selection(Some(id))) is Some,
        state.reads(OfferEvent::DataOffer(id)) is None,
        state.reads(OfferEvent::MimeType(id, mime)) is None,
        state.reads(OfferEvent::Selection(None)) is None,
{
    if state.mimes.contains_key(id) && 0 <= i < state.mimes[id].len() {
        assert(state.mimes[id].contains(state.mimes[id][i]));
    }
}

/// The state after several events.
pub open spec fn after_all(state: WatcherView, events: Seq<OfferEvent>) -> WatcherView
    decreases events.len(),
{
    if events.len() == 0 {
        state
    } else {
        after_all(state, events.drop_last()).after(events.last())
    }
}

/// The MIME types that events announce for one offer, in order.
pub open spec fn announced(events: Seq<OfferEvent>, id: u64) -> Seq<Seq<char>>
    decreases events.len(),
{
    if events.len() == 0 {
        Seq::empty()
    } else {
        let mimes = announced(events.drop_last(), id);
        match events.last() {
            OfferEvent::MimeType(of, mime) => if of == id {
                mimes.push(mime@)
            } else {
                mimes
            },
            _ => mimes,
        }
    }
}

/// A selection is read by the MIME types that were announced for its own offer,
/// whatever happened to other offers in between.
pub proof fn law_selection_goes_by_its_own_offer(
    state: WatcherView,
    id: u64,
    events: Seq<OfferEvent>,
)
    requires
        forall|i: int|
            0 <= i < events.len() ==> match #[trigger] events[i] {
                OfferEvent::DataOffer(of) => of != id,
                OfferEvent::Selection(Some(of)) => of != id,
                _ => true,
            },
    ensures
        after_all(state.after(OfferEvent::DataOffer(id)), events).mimes_of(id) == announced(
            events,
            id,
        ),
        after_all(state.after(OfferEvent::DataOffer(id)), events).reads(
            OfferEvent::Selection(Some(id)),
        ) == preferred_mime(announced(events, id)),
    decreases events.len(),
{
    if events.len() > 0 {
        let rest = events.drop_last();
        assert forall|i: int| 0 <= i < rest.len() implies match #[trigger] rest[i] {
            OfferEvent::DataOffer(of) => of != id,
            OfferEvent::Selection(Some(of)) => of != id,
            _ => true,
        } by {
            assert(events[i] == rest[i]);
        }
        law_selection_goes_by_its_own_offer(state, id, rest);
        assert(events[events.len() - 1] == events.last());
    }
}

/// An offer is read once: a second selection of it finds nothing.
pub proof fn law_offers_are_read_once(state: WatcherView, id: u64)
    ensures
        state.after(OfferEvent::Selection(Some(id))).reads(OfferEvent::Selection(Some(id)))
            is None,
{
}

/// A text that was stored is not captured a second time in a row; a text that the
/// store refused is tried again.
pub proof fn law_repeated_texts(state: WatcherView, text: Seq<char>)
    ensures
        state.captured(text, true).last_text == Some(text),
        state.captured(text, true).mimes == state.mimes,
        state.captured(text, false) == state,
{
}

} // verus!
