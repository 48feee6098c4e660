//! What each operation of the store changes, and what it leaves alone.
//!
//! The laws here speak of the rows themselves: which rows are there afterwards,
//! with which fields, and how many.

use vstd::prelude::*;

use crate::table::{RowClass, MAX_CLIPBOARD_ITEMS, MAX_QUICK_SEND_ITEMS};

verus! {

/// The rows stand by ascending id, up to the highest id given out.
pub open spec fn ids_are_in_order(store: crate::table::StoreView) -> bool {
    &&& forall|i: int, j: int|
        0 <= i < j < store.rows.len() ==> (#[trigger] store.rows[i]).id < (
        #[trigger] store.rows[j]).id
    &&& forall|i: int|
        0 <= i < store.rows.len() ==> (#[trigger] store.rows[i]).id <= store.last_id
}

/// Some clipboard row, or some quick-send row, holds a text.
pub open spec fn is_held(
    store: crate::table::StoreView,
    text: Seq<char>,
    is_quick_send: bool,
) -> bool {
    exists|i: int|
        0 <= i < store.rows.len() && (#[trigger] store.rows[i]).text == text
            && store.rows[i].is_quick_send == is_quick_send
}

/// Index `k` is the first one of a row of the kind that holds a text.
pub open spec fn is_first_holder(
    store: crate::table::StoreView,
    text: Seq<char>,
    is_quick_send: bool,
    k: int,
) -> bool {
    &&& 0 <= k < store.rows.len()
    &&& store.rows[k].text == text && store.rows[k].is_quick_send == is_quick_send
    &&& forall|j: int|
        0 <= j < k ==> !((#[trigger] store.rows[j]).text == text && store.rows[j].is_quick_send
            == is_quick_send)
}

/// A row that has just been added.
pub open spec fn new_row(
    store: crate::table::StoreView,
    text: Seq<char>,
    code: Seq<char>,
    now: i64,
    is_quick_send: bool,
) -> crate::table::EntryView {
    crate::table::EntryView {
        id: (store.last_id + 1) as i64,
        text,
        code,
        timestamp: now,
        is_pinned: is_quick_send,
        is_quick_send,
        consumed: false,
    }
}

/// Adding a row to a table and dropping the oldest of a kind, the new row counted
/// in, until at most `limit` of that kind are left: nothing else is dropped, nothing
/// is changed, and nothing but the new row appears.
pub open spec fn is_added_within(
    before: crate::table::StoreView,
    after: crate::table::StoreView,
    added: crate::table::EntryView,
    counts: spec_fn(crate::table::EntryView) -> bool,
    limit: int,
) -> bool {
    let counted = before.rows.filter(counts).len() + 1;
    let excess = if counted > limit {
        counted - limit
    } else {
        0
    };
    &&& after.last_id == before.last_id + 1
    &&& after.rows.len() == before.rows.len() + 1 - excess
    &&& counted <= limit ==> after.rows == before.rows.push(added)
    &&& forall|i: int, j: int|
        0 <= i < j < after.rows.len() ==> (#[trigger] after.rows[i]).id < (
        #[trigger] after.rows[j]).id
    &&& forall|row: crate::table::EntryView| #[trigger]
        after.rows.contains(row) ==> before.rows.contains(row) || row == added
    &&& forall|row: crate::table::EntryView| #[trigger]
        before.rows.contains(row) && !counts(row) ==> after.rows.contains(row)
    &&& forall|kept: crate::table::EntryView, dropped: crate::table::EntryView|
        #![trigger after.rows.contains(kept), before.rows.contains(dropped)]
        after.rows.contains(kept) && counts(kept) && before.rows.contains(dropped)
            && !after.rows.contains(dropped) ==> kept.timestamp > dropped.timestamp || (
        kept.timestamp == dropped.timestamp && kept.id > dropped.id)
    &&& !after.rows.contains(added) ==> forall|kept: crate::table::EntryView| #[trigger]
        after.rows.contains(kept) && counts(kept) ==> kept.timestamp > added.timestamp
}

// ── Lemmas ─────────────────────────────────────────────────────────────────

proof fn lemma_filter_splits(
    rows: Seq<crate::table::EntryView>,
    p: spec_fn(crate::table::EntryView) -> bool,
)
    ensures
        rows.filter(p).len() + rows.filter(|row: crate::table::EntryView| !p(row)).len()
            == rows.len(),
    decreases rows.len(),
{
    reveal(Seq::filter);
    if rows.len() > 0 {
        lemma_filter_splits(rows.drop_last(), p);
    }
}

proof fn lemma_not_held(
    store: crate::table::StoreView,
    text: Seq<char>,
    is_quick_send: bool,
)
    ensures
        is_held(store, text, is_quick_send) <==> store.find(text, is_quick_send) is Some,
{
    let p = crate::table::holds_text(text, is_quick_send);
    crate::table::lemma_first_index(store.rows, p);
    let k = crate::table::first_index(store.rows, p);
    if k < store.rows.len() {
        assert(p(store.rows[k]));
        assert(store.rows[k].text == text);
    } else if is_held(store, text, is_quick_send) {
        let i = choose|i: int|
            0 <= i < store.rows.len() && (#[trigger] store.rows[i]).text == text
                && store.rows[i].is_quick_send == is_quick_send;
        assert(!p(store.rows[i]));
    }
}

proof fn lemma_holder(
    store: crate::table::StoreView,
    text: Seq<char>,
    is_quick_send: bool,
    k: int,
)
    requires
        is_first_holder(store, text, is_quick_send, k),
    ensures
        store.find(text, is_quick_send) == Some(store.rows[k].id),
{
    let p = crate::table::holds_text(text, is_quick_send);
    assert forall|j: int| 0 <= j < k implies !p(#[trigger] store.rows[j]) by {}
    crate::table::lemma_first_index_is(store.rows, p, k);
}

proof fn lemma_changed_at(
    store: crate::table::StoreView,
    k: int,
    f: spec_fn(crate::table::EntryView) -> crate::table::EntryView,
)
    requires
        ids_are_in_order(store),
        0 <= k < store.rows.len(),
    ensures
        store.changed(store.rows[k].id, f) == (crate::table::StoreView {
            rows: store.rows.update(k, f(store.rows[k])),
            ..store
        }),
{
    let after = store.changed(store.rows[k].id, f);
    assert forall|j: int| 0 <= j < store.rows.len() && j != k implies store.rows[j].id
        != store.rows[k].id by {
        if j < k {
            assert(store.rows[j].id < store.rows[k].id);
        } else {
            assert(store.rows[k].id < store.rows[j].id);
        }
    }
    assert(after.rows =~= store.rows.update(k, f(store.rows[k])));
}

proof fn lemma_added_within(
    store: crate::table::StoreView,
    text: Seq<char>,
    code: Seq<char>,
    now: i64,
    is_quick_send: bool,
    class: RowClass,
    limit: nat,
    counts: spec_fn(crate::table::EntryView) -> bool,
)
    requires
        ids_are_in_order(store),
        store.last_id < i64::MAX,
        forall|row: crate::table::EntryView| class.has(row) == #[trigger] counts(row),
        class.has(new_row(store, text, code, now, is_quick_send)),
        limit > 0,
    ensures
        is_added_within(
            store,
            store.inserted(text, code, now, is_quick_send).trimmed(class, limit),
            new_row(store, text, code, now, is_quick_send),
            counts,
            limit as int,
        ),
{
    let added = new_row(store, text, code, now, is_quick_send);
    let grown = store.rows.push(added);
    let keep = crate::table::survivors(grown, class, limit);
    let after = store.inserted(text, code, now, is_quick_send).trimmed(class, limit);
    let m = class.members();
    assert(after.rows == grown.filter(keep));
    assert(crate::table::ids_ascend(grown)) by {
        assert forall|i: int, j: int| 0 <= i < j < grown.len() implies grown[i].id
            < grown[j].id by {
            assert(store.rows[i].id <= store.last_id);
            if j < store.rows.len() {
                assert(store.rows[i].id < store.rows[j].id);
            }
        }
    }
    crate::table::lemma_filter(grown, keep);
    // How many count.
    crate::table::lemma_filter_same(store.rows, counts, m);
    store.rows.lemma_filter_push(added, m);
    let counted = store.rows.filter(counts).len() + 1;
    assert(grown.filter(m).len() == counted);
    assert(crate::table::select(grown, class).len() == counted);
    // How many are left.
    crate::store_laws::law_trim_leaves_the_limit(grown, class, limit);
    lemma_filter_splits(after.rows, m);
    lemma_filter_splits(grown, m);
    let others = |row: crate::table::EntryView| !m(row);
    crate::table::lemma_filter_filter(grown, keep, others);
    crate::table::lemma_filter_same(
        grown,
        |row: crate::table::EntryView| keep(row) && others(row),
        others,
    );
    if counted <= limit {
        crate::table::lemma_trim_noop(grown, class, limit);
    }
    assert forall|row: crate::table::EntryView| #[trigger] grown.contains(row) <==> (
    store.rows.contains(row) || row == added) by {
        lemma_push_contains(store.rows, added, row);
    }
    assert forall|kept: crate::table::EntryView, dropped: crate::table::EntryView|
        #![trigger after.rows.contains(kept), store.rows.contains(dropped)]
        after.rows.contains(kept) && counts(kept) && store.rows.contains(dropped)
            && !after.rows.contains(dropped) implies kept.timestamp > dropped.timestamp || (
    kept.timestamp == dropped.timestamp && kept.id > dropped.id) by {
        assert(grown.contains(dropped));
        crate::store_laws::law_trim_drops_the_oldest(grown, class, limit, kept, dropped);
    }
    if !after.rows.contains(added) {
        assert forall|kept: crate::table::EntryView| #[trigger]
            after.rows.contains(kept) && counts(kept) implies kept.timestamp
            > added.timestamp by {
            assert(grown.contains(added));
            crate::store_laws::law_trim_drops_the_oldest(grown, class, limit, kept, added);
            assert(grown.contains(kept));
            let i = choose|i: int| 0 <= i < store.rows.len() && store.rows[i] == kept;
            assert(store.rows[i].id <= store.last_id);
        }
    }
    assert forall|row: crate::table::EntryView| #[trigger]
        store.rows.contains(row) && !counts(row) implies after.rows.contains(row) by {
        assert(grown.contains(row));
        assert(keep(row));
    }
    assert forall|i: int, j: int| 0 <= i < j < after.rows.len() implies (
    #[trigger] after.rows[i]).id < (#[trigger] after.rows[j]).id by {
        assert(crate::table::ids_ascend(after.rows));
    }
}

proof fn lemma_push_contains(
    rows: Seq<crate::table::EntryView>,
    added: crate::table::EntryView,
    row: crate::table::EntryView,
)
    ensures
        rows.push(added).contains(row) <==> rows.contains(row) || row == added,
{
    let grown = rows.push(added);
    if rows.contains(row) {
        let i = choose|i: int| 0 <= i < rows.len() && rows[i] == row;
        assert(grown[i] == row);
    }
    if row == added {
        assert(grown[rows.len() as int] == row);
    }
    if grown.contains(row) {
        let i = choose|i: int| 0 <= i < grown.len() && grown[i] == row;
        if i < rows.len() {
            assert(rows[i] == row);
        }
    }
}

// ── Captures ───────────────────────────────────────────────────────────────

/// Capturing a text that no clipboard row holds adds one row and drops the oldest
/// rows that are not pinned, as many as are above the limit and no others. Every
/// other row stays as it was; below the limit that is every row, however old.
pub proof fn law_capturing_a_new_text(store: crate::table::StoreView, text: Seq<char>, now: i64)
    requires
        ids_are_in_order(store),
        store.last_id < i64::MAX,
        !is_held(store, text, false),
    ensures
        is_added_within(
            store,
            store.upserted(text, now),
            new_row(store, text, Seq::empty(), now, false),
            |row: crate::table::EntryView| !row.is_pinned,
            MAX_CLIPBOARD_ITEMS as int,
        ),
{
    lemma_not_held(store, text, false);
    lemma_added_within(
        store,
        text,
        Seq::empty(),
        now,
        false,
        RowClass::Unpinned,
        MAX_CLIPBOARD_ITEMS as nat,
        |row: crate::table::EntryView| !row.is_pinned,
    );
}

/// Capturing a text that a clipboard row holds sets that row's timestamp; every
/// other row and every other field stays as it was.
pub proof fn law_capturing_a_held_text(
    store: crate::table::StoreView,
    text: Seq<char>,
    now: i64,
    k: int,
)
    requires
        ids_are_in_order(store),
        is_first_holder(store, text, false, k),
    ensures
        store.upserted(text, now) == (crate::table::StoreView {
            rows: store.rows.update(
                k,
                crate::table::EntryView { timestamp: now, ..store.rows[k] },
            ),
            last_id: store.last_id,
        }),
{
    lemma_holder(store, text, false, k);
    lemma_changed_at(
        store,
        k,
        |row: crate::table::EntryView| crate::table::EntryView { timestamp: now, ..row },
    );
}

/// A capture leaves every row with another text as it was, as long as the rows that
/// are not pinned, the new one counted in, are within the limit.
pub proof fn law_captures_leave_other_texts_alone(
    store: crate::table::StoreView,
    text: Seq<char>,
    now: i64,
    row: crate::table::EntryView,
)
    requires
        ids_are_in_order(store),
        is_held(store, text, false) || store.last_id < i64::MAX,
        store.rows.contains(row),
        row.text != text,
        store.rows.filter(|r: crate::table::EntryView| !r.is_pinned).len() + 1
            <= MAX_CLIPBOARD_ITEMS,
    ensures
        store.upserted(text, now).rows.contains(row),
{
    let i = choose|i: int| 0 <= i < store.rows.len() && store.rows[i] == row;
    if is_held(store, text, false) {
        let p = crate::table::holds_text(text, false);
        lemma_not_held(store, text, false);
        crate::table::lemma_first_index(store.rows, p);
        let k = crate::table::first_index(store.rows, p);
        assert forall|j: int| 0 <= j < k implies !((#[trigger] store.rows[j]).text == text
            && store.rows[j].is_quick_send == false) by {
            assert(!p(store.rows[j]));
        }
        law_capturing_a_held_text(store, text, now, k);
        assert(store.upserted(text, now).rows[i] == row);
    } else {
        law_capturing_a_new_text(store, text, now);
        lemma_push_contains(
            store.rows,
            new_row(store, text, Seq::empty(), now, false),
            row,
        );
    }
}

// ── Quick send ─────────────────────────────────────────────────────────────

/// Entering a text that no quick-send row holds adds one pinned row with its code
/// and drops the oldest quick-send rows above the limit, and no others.
pub proof fn law_entering_a_new_quick_send(
    store: crate::table::StoreView,
    text: Seq<char>,
    code: Seq<char>,
    now: i64,
)
    requires
        ids_are_in_order(store),
        store.last_id < i64::MAX,
        !is_held(store, text, true),
    ensures
        is_added_within(
            store,
            store.quick_send_inserted(text, code, now),
            new_row(store, text, code, now, true),
            |row: crate::table::EntryView| row.is_quick_send,
            MAX_QUICK_SEND_ITEMS as int,
        ),
{
    lemma_not_held(store, text, true);
    lemma_added_within(
        store,
        text,
        code,
        now,
        true,
        RowClass::QuickSend,
        MAX_QUICK_SEND_ITEMS as nat,
        |row: crate::table::EntryView| row.is_quick_send,
    );
}

/// Entering a text that a quick-send row holds sets that row's code and timestamp,
/// and nothing else.
pub proof fn law_entering_a_held_quick_send(
    store: crate::table::StoreView,
    text: Seq<char>,
    code: Seq<char>,
    now: i64,
    k: int,
)
    requires
        ids_are_in_order(store),
        is_first_holder(store, text, true, k),
    ensures
        store.quick_send_inserted(text, code, now) == (crate::table::StoreView {
            rows: store.rows.update(
                k,
                crate::table::EntryView { code, timestamp: now, ..store.rows[k] },
            ),
            last_id: store.last_id,
        }),
{
    lemma_holder(store, text, true, k);
    lemma_changed_at(
        store,
        k,
        |row: crate::table::EntryView|
            crate::table::EntryView { text, code, timestamp: now, ..row },
    );
}

/// Copying a clipboard row to quick send does what entering its text does, but for
/// the code: a new row has none, and a row that holds the text keeps its own.
pub proof fn law_copying_to_quick_send(
    store: crate::table::StoreView,
    source: int,
    now: i64,
    k: int,
)
    requires
        ids_are_in_order(store),
        0 <= source < store.rows.len(),
        !store.rows[source].is_quick_send,
    ensures
        ({
            let text = store.rows[source].text;
            let after = store.quick_send_added(store.rows[source].id, now);
            &&& !is_held(store, text, true) && store.last_id < i64::MAX ==> is_added_within(
                store,
                after,
                new_row(store, text, Seq::empty(), now, true),
                |row: crate::table::EntryView| row.is_quick_send,
                MAX_QUICK_SEND_ITEMS as int,
            )
            &&& is_first_holder(store, text, true, k) ==> after == (crate::table::StoreView {
                rows: store.rows.update(
                    k,
                    crate::table::EntryView { timestamp: now, ..store.rows[k] },
                ),
                last_id: store.last_id,
            })
        }),
{
    let text = store.rows[source].text;
    lemma_row_at(store, source);
    lemma_not_held(store, text, true);
    if !is_held(store, text, true) && store.last_id < i64::MAX {
        lemma_added_within(
            store,
            text,
            Seq::empty(),
            now,
            true,
            RowClass::QuickSend,
            MAX_QUICK_SEND_ITEMS as nat,
            |row: crate::table::EntryView| row.is_quick_send,
        );
    }
    if is_first_holder(store, text, true, k) {
        lemma_holder(store, text, true, k);
        lemma_changed_at(
            store,
            k,
            |row: crate::table::EntryView| crate::table::EntryView { timestamp: now, ..row },
        );
    }
}

/// Copying what is no clipboard row changes nothing.
pub proof fn law_copying_nothing(store: crate::table::StoreView, id: i64, now: i64)
    requires
        ids_are_in_order(store),
        forall|i: int|
            0 <= i < store.rows.len() && (#[trigger] store.rows[i]).id == id
                ==> store.rows[i].is_quick_send,
    ensures
        store.quick_send_added(id, now) == store,
{
    crate::table::lemma_first_index(store.rows, |row: crate::table::EntryView| row.id == id);
}

proof fn lemma_row_at(store: crate::table::StoreView, i: int)
    requires
        ids_are_in_order(store),
        0 <= i < store.rows.len(),
    ensures
        store.row(store.rows[i].id) == Some(store.rows[i]),
{
    let p = |row: crate::table::EntryView| row.id == store.rows[i].id;
    assert forall|j: int| 0 <= j < i implies !p(#[trigger] store.rows[j]) by {
        assert(store.rows[j].id < store.rows[i].id);
    }
    crate::table::lemma_first_index_is(store.rows, p, i);
}

// ── Single rows ────────────────────────────────────────────────────────────

/// Looking an id up finds the row that has it, and nothing where none has.
pub proof fn law_rows_are_found_by_id(
    store: crate::table::StoreView,
    id: i64,
    row: crate::table::EntryView,
)
    requires
        ids_are_in_order(store),
    ensures
        store.row(id) == Some(row) <==> store.rows.contains(row) && row.id == id,
        store.row(id) is None <==> forall|i: int|
            0 <= i < store.rows.len() ==> (#[trigger] store.rows[i]).id != id,
{
    let p = |r: crate::table::EntryView| r.id == id;
    crate::table::lemma_first_index(store.rows, p);
    let k = crate::table::first_index(store.rows, p);
    if k < store.rows.len() {
        assert(p(store.rows[k]));
        assert(store.rows.contains(store.rows[k]));
    }
    if store.rows.contains(row) && row.id == id {
        let i = choose|i: int| 0 <= i < store.rows.len() && store.rows[i] == row;
        lemma_row_at(store, i);
    }
    assert forall|i: int| k == store.rows.len() && 0 <= i < store.rows.len() implies (
    #[trigger] store.rows[i]).id != id by {
        assert(!p(store.rows[i]));
    }
}

/// Refreshing, marking and editing change the one row that has the id, in the
/// fields that they are for; editing leaves clipboard rows alone.
pub proof fn law_single_rows_are_changed(
    store: crate::table::StoreView,
    id: i64,
    text: Seq<char>,
    code: Seq<char>,
    now: i64,
    i: int,
)
    requires
        0 <= i < store.rows.len(),
    ensures
        ({
            let row = store.rows[i];
            let touched = store.touched(id, now);
            let marked = store.consumed_marked(id);
            let edited = store.quick_send_edited(id, text, code, now);
            &&& touched.rows.len() == store.rows.len() && touched.last_id == store.last_id
            &&& marked.rows.len() == store.rows.len() && marked.last_id == store.last_id
            &&& edited.rows.len() == store.rows.len() && edited.last_id == store.last_id
            &&& row.id != id ==> touched.rows[i] == row && marked.rows[i] == row
                && edited.rows[i] == row
            &&& row.id == id ==> {
                &&& touched.rows[i] == (crate::table::EntryView { timestamp: now, ..row })
                &&& marked.rows[i] == (crate::table::EntryView { consumed: true, ..row })
                &&& edited.rows[i] == if row.is_quick_send {
                    crate::table::EntryView { text, code, timestamp: now, ..row }
                } else {
                    row
                }
            }
        }),
{
}

/// Deleting drops the row of the kind that has the id; clearing drops the rows of
/// the kind. The others stay, in their order.
pub proof fn law_what_is_deleted(
    store: crate::table::StoreView,
    id: i64,
    row: crate::table::EntryView,
)
    requires
        ids_are_in_order(store),
    ensures
        store.deleted(RowClass::Clipboard, id).rows.contains(row) <==> store.rows.contains(row)
            && !(row.id == id && !row.is_quick_send),
        store.deleted(RowClass::QuickSend, id).rows.contains(row) <==> store.rows.contains(row)
            && !(row.id == id && row.is_quick_send),
        store.cleared(RowClass::Clipboard).rows.contains(row) <==> store.rows.contains(row)
            && row.is_quick_send,
        store.cleared(RowClass::QuickSend).rows.contains(row) <==> store.rows.contains(row)
            && !row.is_quick_send,
        store.cleared(RowClass::All).rows.len() == 0,
        ids_are_in_order(store.deleted(RowClass::Clipboard, id)),
        ids_are_in_order(store.deleted(RowClass::QuickSend, id)),
        ids_are_in_order(store.cleared(RowClass::Clipboard)),
        ids_are_in_order(store.cleared(RowClass::QuickSend)),
        store.deleted(RowClass::Clipboard, id).last_id == store.last_id,
        store.deleted(RowClass::QuickSend, id).last_id == store.last_id,
        store.cleared(RowClass::Clipboard).last_id == store.last_id,
        store.cleared(RowClass::QuickSend).last_id == store.last_id,
        store.cleared(RowClass::All).last_id == store.last_id,
{
    lemma_filtered(store, |r: crate::table::EntryView| !(RowClass::Clipboard.has(r) && r.id == id));
    lemma_filtered(store, |r: crate::table::EntryView| !(RowClass::QuickSend.has(r) && r.id == id));
    lemma_filtered(store, |r: crate::table::EntryView| !RowClass::Clipboard.has(r));
    lemma_filtered(store, |r: crate::table::EntryView| !RowClass::QuickSend.has(r));
    lemma_filtered(store, |r: crate::table::EntryView| !RowClass::All.has(r));
    let none = store.cleared(RowClass::All).rows;
    if none.len() > 0 {
        assert(none.contains(none[0]));
    }
}

proof fn lemma_filtered(
    store: crate::table::StoreView,
    p: spec_fn(crate::table::EntryView) -> bool,
)
    requires
        ids_are_in_order(store),
    ensures
        forall|row: crate::table::EntryView| #[trigger]
            store.rows.filter(p).contains(row) <==> store.rows.contains(row) && p(row),
        ids_are_in_order(crate::table::StoreView { rows: store.rows.filter(p), ..store }),
{
    crate::table::lemma_filter(store.rows, p);
    let kept = store.rows.filter(p);
    assert(crate::table::ids_ascend(store.rows));
    assert(crate::table::ids_ascend(kept));
    assert forall|i: int| 0 <= i < kept.len() implies (#[trigger] kept[i]).id
        <= store.last_id by {
        assert(kept.contains(kept[i]));
        let j = choose|j: int| 0 <= j < store.rows.len() && store.rows[j] == kept[i];
        assert(store.rows[j].id <= store.last_id);
    }
}

// ── Listings and counts ────────────────────────────────────────────────────

/// A listing of clipboard or quick-send entries holds the rows of that kind and no
/// others, each once, the later timestamp first and of equal ones the higher id.
pub proof fn law_what_is_listed(
    store: crate::table::StoreView,
    row: crate::table::EntryView,
    i: int,
    j: int,
)
    requires
        ids_are_in_order(store),
        store.last_id >= 0,
    ensures
        crate::table::newest_first(store.rows, RowClass::Clipboard).contains(row)
            <==> store.rows.contains(row) && !row.is_quick_send,
        crate::table::newest_first(store.rows, RowClass::QuickSend).contains(row)
            <==> store.rows.contains(row) && row.is_quick_send,
        ({
            let list = crate::table::newest_first(store.rows, RowClass::Clipboard);
            0 <= i < j < list.len() ==> list[i].timestamp > list[j].timestamp || (
            list[i].timestamp == list[j].timestamp && list[i].id > list[j].id)
        }),
        ({
            let list = crate::table::newest_first(store.rows, RowClass::QuickSend);
            0 <= i < j < list.len() ==> list[i].timestamp > list[j].timestamp || (
            list[i].timestamp == list[j].timestamp && list[i].id > list[j].id)
        }),
{
    crate::store_laws::law_listings_are_newest_first(store, RowClass::Clipboard, Seq::empty());
    crate::store_laws::law_listings_are_newest_first(store, RowClass::QuickSend, Seq::empty());
    let clipboard = crate::table::newest_first(store.rows, RowClass::Clipboard);
    let quick_send = crate::table::newest_first(store.rows, RowClass::QuickSend);
    if 0 <= i < j < clipboard.len() {
        assert(crate::table::newer(clipboard[i], clipboard[j]));
    }
    if 0 <= i < j < quick_send.len() {
        assert(crate::table::newer(quick_send[i], quick_send[j]));
    }
}

/// A limit cuts a listing down to its beginning; a negative one does not.
pub proof fn law_limits_keep_the_beginning(
    list: Seq<crate::table::EntryView>,
    limit: int,
    i: int,
)
    ensures
        limit < 0 || limit >= list.len() ==> crate::table::limited(list, limit) == list,
        0 <= limit < list.len() ==> crate::table::limited(list, limit).len() == limit,
        0 <= i < crate::table::limited(list, limit).len() ==> crate::table::limited(
            list,
            limit,
        )[i] == list[i],
{
}

/// Every row counts once, for its own kind.
pub proof fn law_counts(
    rows: Seq<crate::table::EntryView>,
    row: crate::table::EntryView,
)
    ensures
        crate::table::select(rows, RowClass::Clipboard).len() + crate::table::select(
            rows,
            RowClass::QuickSend,
        ).len() == rows.len(),
        crate::table::select(rows.push(row), RowClass::Clipboard).len() == crate::table::select(
            rows,
            RowClass::Clipboard,
        ).len() + if row.is_quick_send {
            0nat
        } else {
            1
        },
        crate::table::select(rows.push(row), RowClass::QuickSend).len() == crate::table::select(
            rows,
            RowClass::QuickSend,
        ).len() + if row.is_quick_send {
            1nat
        } else {
            0
        },
{
    let p = RowClass::Clipboard.members();
    lemma_filter_splits(rows, p);
    crate::table::lemma_filter_same(
        rows,
        |r: crate::table::EntryView| !p(r),
        RowClass::QuickSend.members(),
    );
    rows.lemma_filter_push(row, p);
    rows.lemma_filter_push(row, RowClass::QuickSend.members());
}

// ── Row changes ────────────────────────────────────────────────────────────

/// What the changes of the store stand for: an insertion adds its row behind the
/// others, an update replaces the row that has its id, a deletion takes the row with
/// the id out. Several changes are carried out one after the other.
pub proof fn law_what_changes_do(
    store: crate::table::StoreView,
    row: crate::table::EntryView,
    other: crate::table::EntryView,
    id: i64,
    changes: Seq<crate::table::ChangeView>,
    change: crate::table::ChangeView,
    i: int,
)
    requires
        0 <= i < store.rows.len(),
    ensures
        crate::table::change_applied(store, crate::table::ChangeView::Insert(row)).rows
            == store.rows.push(row),
        crate::table::change_applied(store, crate::table::ChangeView::Insert(row)).last_id
            == vstd::math::max(store.last_id as int, row.id as int),
        crate::table::change_applied(store, crate::table::ChangeView::Update(row)).rows.len()
            == store.rows.len(),
        crate::table::change_applied(store, crate::table::ChangeView::Update(row)).rows[i]
            == if store.rows[i].id == row.id {
            row
        } else {
            store.rows[i]
        },
        crate::table::change_applied(store, crate::table::ChangeView::Update(row)).last_id
            == store.last_id,
        crate::table::change_applied(store, crate::table::ChangeView::Delete(id)).rows.contains(
            other,
        ) <==> store.rows.contains(other) && other.id != id,
        crate::table::change_applied(store, crate::table::ChangeView::Delete(id)).last_id
            == store.last_id,
        crate::table::changes_applied(store, Seq::empty()) == store,
        crate::table::changes_applied(store, changes.push(change))
            == crate::table::change_applied(
            crate::table::changes_applied(store, changes),
            change,
        ),
{
    crate::table::lemma_filter(store.rows, |r: crate::table::EntryView| r.id != id);
    assert(changes.push(change).drop_last() =~= changes);
}

} // verus!
