//! Laws of the clipboard store, stated over the table model.

use vstd::prelude::*;

use crate::table::{RowClass, MAX_CLIPBOARD_ITEMS, MAX_QUICK_SEND_ITEMS};

verus! {

/// No text occurs twice among the clipboard rows, nor among the quick-send rows.
pub open spec fn texts_are_unique(rows: Seq<crate::table::EntryView>) -> bool {
    forall|a: crate::table::EntryView, b: crate::table::EntryView|
        #![trigger rows.contains(a), rows.contains(b)]
        rows.contains(a) && rows.contains(b) && a.text == b.text && a.is_quick_send
            == b.is_quick_send ==> a == b
}

/// Every quick-send row is pinned.
pub open spec fn quick_sends_are_pinned(rows: Seq<crate::table::EntryView>) -> bool {
    forall|row: crate::table::EntryView| #[trigger]
        rows.contains(row) && row.is_quick_send ==> row.is_pinned
}

// ── Trimming ───────────────────────────────────────────────────────────────

/// In a non-empty set of rows with distinct ids some row is oldest.
proof fn lemma_oldest(rows: Seq<crate::table::EntryView>) -> (k: int)
    requires
        crate::table::ids_ascend(rows),
        rows.len() > 0,
    ensures
        0 <= k < rows.len(),
        forall|j: int| 0 <= j < rows.len() && j != k ==> crate::table::newer(
            #[trigger] rows[j],
            rows[k],
        ),
    decreases rows.len(),
{
    if rows.len() == 1 {
        0
    } else {
        let init = rows.drop_last();
        let k = lemma_oldest(init);
        let n = rows.len() - 1;
        assert(rows[k].id < rows[n].id);
        let r = if crate::table::newer(rows[k], rows[n]) {
            n
        } else {
            k
        };
        assert forall|j: int| 0 <= j < rows.len() && j != r implies crate::table::newer(
            #[trigger] rows[j],
            rows[r],
        ) by {
            if j < n {
                assert(init[j] == rows[j]);
            }
        }
        r
    }
}

/// In a non-empty set of rows with distinct ids some row is newest.
proof fn lemma_newest(rows: Seq<crate::table::EntryView>) -> (k: int)
    requires
        crate::table::ids_ascend(rows),
        rows.len() > 0,
    ensures
        0 <= k < rows.len(),
        forall|j: int| 0 <= j < rows.len() && j != k ==> crate::table::newer(
            rows[k],
            #[trigger] rows[j],
        ),
    decreases rows.len(),
{
    if rows.len() == 1 {
        0
    } else {
        let init = rows.drop_last();
        let k = lemma_newest(init);
        let n = rows.len() - 1;
        assert(rows[k].id < rows[n].id);
        let r = if crate::table::newer(rows[n], rows[k]) {
            n
        } else {
            k
        };
        assert forall|j: int| 0 <= j < rows.len() && j != r implies crate::table::newer(
            rows[r],
            #[trigger] rows[j],
        ) by {
            if j < n {
                assert(init[j] == rows[j]);
            }
        }
        r
    }
}

/// Trimming leaves exactly the limit, or all rows of the class where there are
/// fewer.
pub proof fn law_trim_leaves_the_limit(
    rows: Seq<crate::table::EntryView>,
    class: RowClass,
    limit: nat,
)
    requires
        crate::table::ids_ascend(rows),
    ensures
        crate::table::select(
            rows.filter(crate::table::survivors(rows, class, limit)),
            class,
        ).len() == vstd::math::min(
            crate::table::select(rows, class).len() as int,
            limit as int,
        ),
{
    let members = class.members();
    let keep = crate::table::survivors(rows, class, limit);
    let both = |row: crate::table::EntryView| keep(row) && members(row);
    let lost = |row: crate::table::EntryView| members(row) && !keep(row);
    crate::table::lemma_filter_filter(rows, keep, members);
    let kept = rows.filter(both);
    let gone = rows.filter(lost);
    assert(kept == crate::table::select(rows.filter(keep), class));
    crate::table::lemma_filter(rows, both);
    crate::table::lemma_filter(rows, lost);
    // Not more than the limit: everything else that is kept is newer than the
    // oldest row kept.
    assert(kept.len() <= limit) by {
        if kept.len() > 0 {
            let k = lemma_oldest(kept);
            let oldest = kept[k];
            assert(kept.contains(oldest));
            let q = crate::table::newer_members(class, oldest);
            let others = |row: crate::table::EntryView| both(row) && row != oldest;
            lemma_filter_but_one(rows, both, oldest);
            assert forall|i: int| 0 <= i < rows.len() && others(#[trigger] rows[i]) implies q(
                rows[i],
            ) by {
                assert(rows.contains(rows[i]));
                assert(kept.contains(rows[i]));
                let j = choose|j: int| 0 <= j < kept.len() && kept[j] == rows[i];
                assert(j != k);
            }
            crate::table::lemma_filter_len_monotone(rows, others, q);
        }
    }
    crate::table::lemma_filter_len_monotone(rows, both, members);
    // Not fewer: everything newer than the newest row dropped is kept.
    if gone.len() > 0 {
        let k = lemma_newest(gone);
        let newest = gone[k];
        assert(gone.contains(newest));
        let q = crate::table::newer_members(class, newest);
        assert forall|i: int| 0 <= i < rows.len() && q(#[trigger] rows[i]) implies both(
            rows[i],
        ) by {
            if !keep(rows[i]) {
                assert(rows.contains(rows[i]));
                assert(gone.contains(rows[i]));
                let j = choose|j: int| 0 <= j < gone.len() && gone[j] == rows[i];
                assert(j != k);
                assert(crate::table::newer(newest, rows[i]));
            }
        }
        crate::table::lemma_filter_len_monotone(rows, q, both);
    } else {
        assert forall|i: int| 0 <= i < rows.len() implies both(#[trigger] rows[i]) == members(
            rows[i],
        ) by {
            if members(rows[i]) && !keep(rows[i]) {
                assert(rows.contains(rows[i]));
                assert(gone.contains(rows[i]));
            }
        }
        crate::table::lemma_filter_same(rows, both, members);
    }
}

/// Leaving out one of the rows that pass leaves one fewer.
proof fn lemma_filter_but_one(
    rows: Seq<crate::table::EntryView>,
    p: spec_fn(crate::table::EntryView) -> bool,
    one: crate::table::EntryView,
)
    requires
        crate::table::ids_ascend(rows),
        rows.contains(one),
        p(one),
    ensures
        rows.filter(|row: crate::table::EntryView| p(row) && row != one).len() + 1 == rows.filter(
            p,
        ).len(),
    decreases rows.len(),
{
    reveal(Seq::filter);
    let q = |row: crate::table::EntryView| p(row) && row != one;
    let init = rows.drop_last();
    let i = choose|i: int| 0 <= i < rows.len() && rows[i] == one;
    if i == rows.len() - 1 {
        assert forall|j: int| 0 <= j < init.len() implies p(#[trigger] init[j]) == q(
            init[j],
        ) by {
            assert(rows[j].id < rows[i].id);
        }
        crate::table::lemma_filter_same(init, p, q);
    } else {
        assert(init[i] == one);
        lemma_filter_but_one(init, p, one);
        assert(rows[i].id < rows[rows.len() - 1].id);
    }
}

/// Trimming drops the oldest: whatever it drops is older than everything of the
/// class that it keeps.
pub proof fn law_trim_drops_the_oldest(
    rows: Seq<crate::table::EntryView>,
    class: RowClass,
    limit: nat,
    kept: crate::table::EntryView,
    dropped: crate::table::EntryView,
)
    requires
        crate::table::ids_ascend(rows),
        class.has(kept),
        rows.filter(crate::table::survivors(rows, class, limit)).contains(kept),
        rows.contains(dropped),
        !rows.filter(crate::table::survivors(rows, class, limit)).contains(dropped),
    ensures
        crate::table::newer(kept, dropped),
        class.has(dropped),
{
    let keep = crate::table::survivors(rows, class, limit);
    crate::table::lemma_filter(rows, keep);
    assert(rows.contains(kept));
    let i = choose|i: int| 0 <= i < rows.len() && rows[i] == kept;
    let j = choose|j: int| 0 <= j < rows.len() && rows[j] == dropped;
    if i < j {
        assert(rows[i].id < rows[j].id);
    } else if j < i {
        assert(rows[j].id < rows[i].id);
    }
    if !crate::table::newer(kept, dropped) {
        crate::table::lemma_newer_total(kept, dropped);
        let p = crate::table::newer_members(class, dropped);
        let q = crate::table::newer_members(class, kept);
        assert forall|k: int| 0 <= k < rows.len() && p(#[trigger] rows[k]) implies q(
            rows[k],
        ) by {
        }
        crate::table::lemma_filter_len_monotone(rows, p, q);
    }
}

// ── Membership after each kind of step ─────────────────────────────────────

/// What `find` finds.
proof fn lemma_find(store: crate::table::StoreView, text: Seq<char>, is_quick_send: bool)
    ensures
        store.find(text, is_quick_send) matches Some(id) ==> exists|i: int|
            0 <= i < store.rows.len() && (#[trigger] store.rows[i]).id == id && store.rows[i].text
                == text && store.rows[i].is_quick_send == is_quick_send,
        store.find(text, is_quick_send) is None ==> forall|row: crate::table::EntryView|
            #[trigger] store.rows.contains(row) ==> !(row.text == text && row.is_quick_send
                == is_quick_send),
{
    let p = crate::table::holds_text(text, is_quick_send);
    crate::table::lemma_first_index(store.rows, p);
    let i = crate::table::first_index(store.rows, p);
    if i < store.rows.len() {
        assert(p(store.rows[i]));
    } else {
        assert forall|row: crate::table::EntryView| #[trigger] store.rows.contains(row) implies !(
        row.text == text && row.is_quick_send == is_quick_send) by {
            let j = choose|j: int| 0 <= j < store.rows.len() && store.rows[j] == row;
            assert(!p(store.rows[j]));
        }
    }
}

/// Two rows of a table with one id are the same row.
proof fn lemma_id_is_unique(rows: Seq<crate::table::EntryView>, i: int, j: int)
    requires
        crate::table::ids_ascend(rows),
        0 <= i < rows.len(),
        0 <= j < rows.len(),
        rows[i].id == rows[j].id,
    ensures
        i == j,
{
    if i < j {
        assert(rows[i].id < rows[j].id);
    } else if j < i {
        assert(rows[j].id < rows[i].id);
    }
}

/// A row of the table is what `row` returns for its id.
proof fn lemma_row_of_member(store: crate::table::StoreView, row: crate::table::EntryView)
    requires
        crate::table::ids_ascend(store.rows),
        store.rows.contains(row),
    ensures
        store.row(row.id) == Some(row),
{
    let p = |r: crate::table::EntryView| r.id == row.id;
    crate::table::lemma_first_index(store.rows, p);
    let i = crate::table::first_index(store.rows, p);
    let j = choose|j: int| 0 <= j < store.rows.len() && store.rows[j] == row;
    if i > j {
        assert(!p(store.rows[j]));
    }
    lemma_id_is_unique(store.rows, i, j);
}

/// A changed table holds, for each row of the old one, the row or its change.
proof fn lemma_changed_members(
    store: crate::table::StoreView,
    id: i64,
    f: spec_fn(crate::table::EntryView) -> crate::table::EntryView,
    row: crate::table::EntryView,
)
    ensures
        store.changed(id, f).rows.contains(row) <==> exists|i: int|
            0 <= i < store.rows.len() && row == (if (#[trigger] store.rows[i]).id == id {
                f(store.rows[i])
            } else {
                store.rows[i]
            }),
{
    let after = store.changed(id, f).rows;
    if after.contains(row) {
        let i = choose|i: int| 0 <= i < after.len() && after[i] == row;
        assert(row == (if store.rows[i].id == id {
            f(store.rows[i])
        } else {
            store.rows[i]
        }));
    }
    if exists|i: int|
        0 <= i < store.rows.len() && row == (if (#[trigger] store.rows[i]).id == id {
            f(store.rows[i])
        } else {
            store.rows[i]
        }) {
        let i = choose|i: int|
            0 <= i < store.rows.len() && row == (if (#[trigger] store.rows[i]).id == id {
                f(store.rows[i])
            } else {
                store.rows[i]
            });
        assert(after[i] == row);
    }
}

/// A push adds one member.
proof fn lemma_push_members(
    rows: Seq<crate::table::EntryView>,
    new_row: crate::table::EntryView,
    row: crate::table::EntryView,
)
    ensures
        rows.push(new_row).contains(row) <==> rows.contains(row) || row == new_row,
{
    let after = rows.push(new_row);
    if rows.contains(row) {
        let i = choose|i: int| 0 <= i < rows.len() && rows[i] == row;
        assert(after[i] == row);
    }
    if row == new_row {
        assert(after[rows.len() as int] == row);
    }
    if after.contains(row) {
        let i = choose|i: int| 0 <= i < after.len() && after[i] == row;
        if i < rows.len() {
            assert(rows[i] == row);
        }
    }
}

/// An insertion keeps the table well formed.
proof fn lemma_inserted_wf(
    store: crate::table::StoreView,
    text: Seq<char>,
    code: Seq<char>,
    now: i64,
    is_quick_send: bool,
)
    requires
        store.wf(),
        store.has_room(),
    ensures
        store.inserted(text, code, now, is_quick_send).wf(),
{
    let after = store.inserted(text, code, now, is_quick_send);
    assert forall|i: int, j: int| 0 <= i < j < after.rows.len() implies after.rows[i].id
        < after.rows[j].id by {
        assert(store.rows[i].id <= store.last_id);
    }
    assert forall|i: int| 0 <= i < after.rows.len() implies (#[trigger] after.rows[i]).id
        <= after.last_id by {
        if i < store.rows.len() {
            assert(store.rows[i].id <= store.last_id);
        }
    }
}

// ── Limits ─────────────────────────────────────────────────────────────────

/// Setting timestamps moves no row in or out of a class.
proof fn lemma_touch_keeps_classes(
    store: crate::table::StoreView,
    id: i64,
    f: spec_fn(crate::table::EntryView) -> crate::table::EntryView,
    class: RowClass,
)
    requires
        forall|row: crate::table::EntryView|
            class.has(#[trigger] f(row)) == class.has(row),
    ensures
        crate::table::select(store.changed(id, f).rows, class).len() == crate::table::select(
            store.rows,
            class,
        ).len(),
    decreases store.rows.len(),
{
    reveal(Seq::filter);
    let after = store.changed(id, f).rows;
    if store.rows.len() > 0 {
        let shorter = crate::table::StoreView { rows: store.rows.drop_last(), ..store };
        lemma_touch_keeps_classes(shorter, id, f, class);
        assert(after.drop_last() =~= shorter.changed(id, f).rows);
        assert(class.has(after.last()) == class.has(store.rows.last()));
    }
}

/// Capturing a text never leaves more than [`MAX_CLIPBOARD_ITEMS`] rows that are
/// not pinned, unless there were more before; adding a row always comes down to
/// the limit.
pub proof fn law_captures_are_limited(store: crate::table::StoreView, text: Seq<char>, now: i64)
    requires
        store.wf(),
        store.find(text, false) is Some || store.has_room(),
    ensures
        crate::table::select(store.rows, RowClass::Unpinned).len() <= MAX_CLIPBOARD_ITEMS
            ==> crate::table::select(store.upserted(text, now).rows, RowClass::Unpinned).len()
            <= MAX_CLIPBOARD_ITEMS,
        store.find(text, false) is None ==> crate::table::select(
            store.upserted(text, now).rows,
            RowClass::Unpinned,
        ).len() <= MAX_CLIPBOARD_ITEMS,
{
    match store.find(text, false) {
        Some(id) => {
            lemma_touch_keeps_classes(
                store,
                id,
                |row: crate::table::EntryView| crate::table::EntryView { timestamp: now, ..row },
                RowClass::Unpinned,
            );
        },
        None => {
            lemma_inserted_wf(store, text, Seq::empty(), now, false);
            law_trim_leaves_the_limit(
                store.inserted(text, Seq::empty(), now, false).rows,
                RowClass::Unpinned,
                MAX_CLIPBOARD_ITEMS as nat,
            );
        },
    }
}

/// Adding to quick send never leaves more than [`MAX_QUICK_SEND_ITEMS`]
/// quick-send rows, unless there were more before.
pub proof fn law_quick_sends_are_limited(
    store: crate::table::StoreView,
    text: Seq<char>,
    code: Seq<char>,
    source_id: i64,
    now: i64,
)
    requires
        store.wf(),
        store.has_room(),
        crate::table::select(store.rows, RowClass::QuickSend).len() <= MAX_QUICK_SEND_ITEMS,
    ensures
        crate::table::select(
            store.quick_send_inserted(text, code, now).rows,
            RowClass::QuickSend,
        ).len() <= MAX_QUICK_SEND_ITEMS,
        crate::table::select(
            store.quick_send_added(source_id, now).rows,
            RowClass::QuickSend,
        ).len() <= MAX_QUICK_SEND_ITEMS,
{
    let limit = MAX_QUICK_SEND_ITEMS as nat;
    match store.find(text, true) {
        Some(id) => {
            lemma_touch_keeps_classes(
                store,
                id,
                |row: crate::table::EntryView|
                    crate::table::EntryView { text, code, timestamp: now, ..row },
                RowClass::QuickSend,
            );
        },
        None => {
            lemma_inserted_wf(store, text, code, now, true);
            law_trim_leaves_the_limit(
                store.inserted(text, code, now, true).rows,
                RowClass::QuickSend,
                limit,
            );
        },
    }
    if let Some(copied) = store.clipboard_text(source_id) {
        match store.find(copied, true) {
            Some(id) => {
                lemma_touch_keeps_classes(
                    store,
                    id,
                    |row: crate::table::EntryView|
                        crate::table::EntryView { timestamp: now, ..row },
                    RowClass::QuickSend,
                );
            },
            None => {
                lemma_inserted_wf(store, copied, Seq::empty(), now, true);
                law_trim_leaves_the_limit(
                    store.inserted(copied, Seq::empty(), now, true).rows,
                    RowClass::QuickSend,
                    limit,
                );
            },
        }
    }
}

// ── Pinned rows ────────────────────────────────────────────────────────────

/// Capturing a text drops no pinned row; at most its timestamp changes.
pub proof fn law_pinned_rows_survive_captures(
    store: crate::table::StoreView,
    text: Seq<char>,
    now: i64,
    row: crate::table::EntryView,
)
    requires
        store.wf(),
        store.rows.contains(row),
        row.is_pinned,
    ensures
        store.upserted(text, now).rows.contains(row) || store.upserted(text, now).rows.contains(
            crate::table::EntryView { timestamp: now, ..row },
        ),
{
    match store.find(text, false) {
        Some(id) => {
            let f = |r: crate::table::EntryView| crate::table::EntryView { timestamp: now, ..r };
            let i = choose|i: int| 0 <= i < store.rows.len() && store.rows[i] == row;
            let after = store.changed(id, f).rows;
            assert(after[i] == row || after[i] == crate::table::EntryView { timestamp: now, ..row });
            assert(after.contains(after[i]));
        },
        None => {
            let grown = store.inserted(text, Seq::empty(), now, false);
            let keep = crate::table::survivors(
                grown.rows,
                RowClass::Unpinned,
                MAX_CLIPBOARD_ITEMS as nat,
            );
            crate::table::lemma_filter(grown.rows, keep);
            lemma_push_members(
                store.rows,
                store.fresh_row(text, Seq::empty(), now, false),
                row,
            );
            assert(keep(row));
        },
    }
}

/// Entries added to quick send are pinned, so all quick-send rows stay pinned
/// through every operation.
pub proof fn law_quick_sends_stay_pinned(
    store: crate::table::StoreView,
    text: Seq<char>,
    code: Seq<char>,
    id: i64,
    now: i64,
    class: RowClass,
)
    requires
        quick_sends_are_pinned(store.rows),
    ensures
        quick_sends_are_pinned(store.upserted(text, now).rows),
        quick_sends_are_pinned(store.quick_send_added(id, now).rows),
        quick_sends_are_pinned(store.quick_send_inserted(text, code, now).rows),
        quick_sends_are_pinned(store.quick_send_edited(id, text, code, now).rows),
        quick_sends_are_pinned(store.touched(id, now).rows),
        quick_sends_are_pinned(store.consumed_marked(id).rows),
        quick_sends_are_pinned(store.deleted(class, id).rows),
        quick_sends_are_pinned(store.cleared(class).rows),
{
    let touch = |r: crate::table::EntryView| crate::table::EntryView { timestamp: now, ..r };
    let rewrite = |r: crate::table::EntryView|
        crate::table::EntryView { text, code, timestamp: now, ..r };
    let edit = |r: crate::table::EntryView|
        if r.is_quick_send {
            crate::table::EntryView { text, code, timestamp: now, ..r }
        } else {
            r
        };
    let consume = |r: crate::table::EntryView| crate::table::EntryView { consumed: true, ..r };
    lemma_change_keeps_pins(store, id, touch);
    lemma_change_keeps_pins(store, id, edit);
    lemma_change_keeps_pins(store, id, consume);
    match store.find(text, false) {
        Some(found) => {
            lemma_change_keeps_pins(store, found, touch);
        },
        None => {
            lemma_insert_keeps_pins(
                store,
                text,
                Seq::empty(),
                now,
                false,
                RowClass::Unpinned,
                MAX_CLIPBOARD_ITEMS as nat,
            );
        },
    }
    match store.find(text, true) {
        Some(found) => {
            lemma_change_keeps_pins(store, found, rewrite);
        },
        None => {
            lemma_insert_keeps_pins(
                store,
                text,
                code,
                now,
                true,
                RowClass::QuickSend,
                MAX_QUICK_SEND_ITEMS as nat,
            );
        },
    }
    if let Some(copied) = store.clipboard_text(id) {
        match store.find(copied, true) {
            Some(found) => {
                lemma_change_keeps_pins(store, found, touch);
            },
            None => {
                lemma_insert_keeps_pins(
                    store,
                    copied,
                    Seq::empty(),
                    now,
                    true,
                    RowClass::QuickSend,
                    MAX_QUICK_SEND_ITEMS as nat,
                );
            },
        }
    }
    crate::table::lemma_filter(
        store.rows,
        |row: crate::table::EntryView| !(class.has(row) && row.id == id),
    );
    crate::table::lemma_filter(store.rows, |row: crate::table::EntryView| !class.has(row));
}

proof fn lemma_change_keeps_pins(
    store: crate::table::StoreView,
    id: i64,
    f: spec_fn(crate::table::EntryView) -> crate::table::EntryView,
)
    requires
        quick_sends_are_pinned(store.rows),
        forall|row: crate::table::EntryView|
            (#[trigger] f(row)).is_pinned == row.is_pinned && f(row).is_quick_send
                == row.is_quick_send,
    ensures
        quick_sends_are_pinned(store.changed(id, f).rows),
{
    let after = store.changed(id, f).rows;
    assert forall|row: crate::table::EntryView| #[trigger]
        after.contains(row) && row.is_quick_send implies row.is_pinned by {
        let i = choose|i: int| 0 <= i < after.len() && after[i] == row;
        assert(store.rows.contains(store.rows[i]));
    }
}

proof fn lemma_insert_keeps_pins(
    store: crate::table::StoreView,
    text: Seq<char>,
    code: Seq<char>,
    now: i64,
    is_quick_send: bool,
    class: RowClass,
    limit: nat,
)
    requires
        quick_sends_are_pinned(store.rows),
    ensures
        quick_sends_are_pinned(
            store.inserted(text, code, now, is_quick_send).trimmed(class, limit).rows,
        ),
{
    let grown = store.inserted(text, code, now, is_quick_send);
    let keep = crate::table::survivors(grown.rows, class, limit);
    crate::table::lemma_filter(grown.rows, keep);
    assert forall|row: crate::table::EntryView| #[trigger]
        grown.rows.filter(keep).contains(row) && row.is_quick_send implies row.is_pinned by {
        lemma_push_members(store.rows, store.fresh_row(text, code, now, is_quick_send), row);
    }
}

// ── Deduplication ──────────────────────────────────────────────────────────

/// Capturing and adding keep every text once: no clipboard text and no quick-send
/// text ever occurs twice.
pub proof fn law_texts_stay_unique(
    store: crate::table::StoreView,
    text: Seq<char>,
    code: Seq<char>,
    id: i64,
    now: i64,
    class: RowClass,
)
    requires
        store.wf(),
        texts_are_unique(store.rows),
    ensures
        texts_are_unique(store.upserted(text, now).rows),
        texts_are_unique(store.quick_send_added(id, now).rows),
        texts_are_unique(store.quick_send_inserted(text, code, now).rows),
        texts_are_unique(store.touched(id, now).rows),
        texts_are_unique(store.consumed_marked(id).rows),
        texts_are_unique(store.deleted(class, id).rows),
        texts_are_unique(store.cleared(class).rows),
{
    let touch = |r: crate::table::EntryView| crate::table::EntryView { timestamp: now, ..r };
    let consume = |r: crate::table::EntryView| crate::table::EntryView { consumed: true, ..r };
    lemma_change_keeps_unique(store, id, touch);
    lemma_change_keeps_unique(store, id, consume);
    match store.find(text, false) {
        Some(found) => {
            lemma_change_keeps_unique(store, found, touch);
        },
        None => {
            lemma_insert_keeps_unique(
                store,
                text,
                Seq::empty(),
                now,
                false,
                RowClass::Unpinned,
                MAX_CLIPBOARD_ITEMS as nat,
            );
        },
    }
    match store.find(text, true) {
        Some(found) => {
            lemma_find(store, text, true);
            let rewrite = |r: crate::table::EntryView|
                crate::table::EntryView { text, code, timestamp: now, ..r };
            let recode = |r: crate::table::EntryView|
                crate::table::EntryView { code, timestamp: now, ..r };
            assert(store.changed(found, rewrite).rows =~= store.changed(found, recode).rows) by {
                let k = choose|i: int|
                    0 <= i < store.rows.len() && (#[trigger] store.rows[i]).id == found
                        && store.rows[i].text == text && store.rows[i].is_quick_send;
                assert forall|i: int| 0 <= i < store.rows.len() && store.rows[i].id
                    == found implies store.rows[i].text == text by {
                    lemma_id_is_unique(store.rows, i, k);
                }
            }
            lemma_change_keeps_unique(store, found, recode);
        },
        None => {
            lemma_insert_keeps_unique(
                store,
                text,
                code,
                now,
                true,
                RowClass::QuickSend,
                MAX_QUICK_SEND_ITEMS as nat,
            );
        },
    }
    if let Some(copied) = store.clipboard_text(id) {
        match store.find(copied, true) {
            Some(found) => {
                lemma_change_keeps_unique(store, found, touch);
            },
            None => {
                lemma_insert_keeps_unique(
                    store,
                    copied,
                    Seq::empty(),
                    now,
                    true,
                    RowClass::QuickSend,
                    MAX_QUICK_SEND_ITEMS as nat,
                );
            },
        }
    }
    lemma_filter_keeps_unique(
        store.rows,
        |row: crate::table::EntryView| !(class.has(row) && row.id == id),
    );
    lemma_filter_keeps_unique(store.rows, |row: crate::table::EntryView| !class.has(row));
}

proof fn lemma_filter_keeps_unique(
    rows: Seq<crate::table::EntryView>,
    p: spec_fn(crate::table::EntryView) -> bool,
)
    requires
        texts_are_unique(rows),
    ensures
        texts_are_unique(rows.filter(p)),
{
    crate::table::lemma_filter(rows, p);
    let kept = rows.filter(p);
    assert forall|a: crate::table::EntryView, b: crate::table::EntryView|
        #![trigger kept.contains(a), kept.contains(b)]
        kept.contains(a) && kept.contains(b) && a.text == b.text && a.is_quick_send
            == b.is_quick_send implies a == b by {
        assert(rows.contains(a) && rows.contains(b));
    }
}

proof fn lemma_change_keeps_unique(
    store: crate::table::StoreView,
    id: i64,
    f: spec_fn(crate::table::EntryView) -> crate::table::EntryView,
)
    requires
        store.wf(),
        texts_are_unique(store.rows),
        forall|row: crate::table::EntryView|
            (#[trigger] f(row)).text == row.text && f(row).is_quick_send == row.is_quick_send
                && f(row).id == row.id,
    ensures
        texts_are_unique(store.changed(id, f).rows),
{
    let after = store.changed(id, f).rows;
    assert forall|a: crate::table::EntryView, b: crate::table::EntryView|
        #![trigger after.contains(a), after.contains(b)]
        after.contains(a) && after.contains(b) && a.text == b.text && a.is_quick_send
            == b.is_quick_send implies a == b by {
        let i = choose|i: int| 0 <= i < after.len() && after[i] == a;
        let j = choose|j: int| 0 <= j < after.len() && after[j] == b;
        assert(store.rows.contains(store.rows[i]));
        assert(store.rows.contains(store.rows[j]));
        assert(store.rows[i] == store.rows[j]);
        lemma_id_is_unique(store.rows, i, j);
    }
}

proof fn lemma_insert_keeps_unique(
    store: crate::table::StoreView,
    text: Seq<char>,
    code: Seq<char>,
    now: i64,
    is_quick_send: bool,
    class: RowClass,
    limit: nat,
)
    requires
        texts_are_unique(store.rows),
        store.find(text, is_quick_send) is None,
    ensures
        texts_are_unique(
            store.inserted(text, code, now, is_quick_send).trimmed(class, limit).rows,
        ),
{
    lemma_find(store, text, is_quick_send);
    let fresh = store.fresh_row(text, code, now, is_quick_send);
    let grown = store.rows.push(fresh);
    assert forall|a: crate::table::EntryView, b: crate::table::EntryView|
        #![trigger grown.contains(a), grown.contains(b)]
        grown.contains(a) && grown.contains(b) && a.text == b.text && a.is_quick_send
            == b.is_quick_send implies a == b by {
        lemma_push_members(store.rows, fresh, a);
        lemma_push_members(store.rows, fresh, b);
    }
    lemma_filter_keeps_unique(grown, crate::table::survivors(grown, class, limit));
}

/// Capturing a text that is held already adds and drops nothing: only the
/// timestamp of its entry changes.
pub proof fn law_capturing_again_refreshes(
    store: crate::table::StoreView,
    text: Seq<char>,
    now: i64,
)
    requires
        store.wf(),
        store.find(text, false) is Some,
    ensures
        store.upserted(text, now) == store.touched(store.find(text, false)->0, now),
        store.upserted(text, now).rows.len() == store.rows.len(),
        store.upserted(text, now).find(text, false) == store.find(text, false),
        store.upserted(text, now).row(store.find(text, false)->0) matches Some(row) && row.text
            == text && row.timestamp == now && !row.is_quick_send,
{
    let id = store.find(text, false)->0;
    let p = crate::table::holds_text(text, false);
    let after = store.upserted(text, now);
    crate::table::lemma_first_index(store.rows, p);
    let i = crate::table::first_index(store.rows, p);
    assert forall|j: int| 0 <= j < i implies !p(#[trigger] after.rows[j]) by {
        assert(!p(store.rows[j]));
    }
    crate::table::lemma_first_index_is(after.rows, p, i);
    crate::table::lemma_changed_is_update(
        store,
        i,
        |r: crate::table::EntryView| crate::table::EntryView { timestamp: now, ..r },
    );
    assert(after.rows.contains(after.rows[i]));
    lemma_row_of_member(after, after.rows[i]);
}

/// A captured text is kept, with its time, as long as it is no older than the
/// rows that it competes with.
pub proof fn law_captured_text_is_kept(
    store: crate::table::StoreView,
    text: Seq<char>,
    now: i64,
)
    requires
        store.wf(),
        store.find(text, false) is Some || store.has_room(),
        forall|row: crate::table::EntryView| #[trigger]
            store.rows.contains(row) && !row.is_pinned ==> row.timestamp <= now,
    ensures
        store.upserted(text, now).find(text, false) is Some,
        exists|row: crate::table::EntryView| #[trigger]
            store.upserted(text, now).rows.contains(row) && row.text == text && row.timestamp
                == now && !row.is_quick_send,
{
    if store.find(text, false) is Some {
        law_capturing_again_refreshes(store, text, now);
        let id = store.find(text, false)->0;
        let after = store.upserted(text, now);
        let p = |r: crate::table::EntryView| r.id == id;
        crate::table::lemma_first_index(after.rows, p);
        let k = crate::table::first_index(after.rows, p);
        assert(after.rows.contains(after.rows[k]));
    } else {
        let fresh = store.fresh_row(text, Seq::empty(), now, false);
        let grown = store.inserted(text, Seq::empty(), now, false);
        let after = store.upserted(text, now);
        lemma_inserted_wf(store, text, Seq::empty(), now, false);
        let keep = crate::table::survivors(
            grown.rows,
            RowClass::Unpinned,
            MAX_CLIPBOARD_ITEMS as nat,
        );
        let q = crate::table::newer_members(RowClass::Unpinned, fresh);
        assert forall|i: int| 0 <= i < grown.rows.len() implies !q(#[trigger] grown.rows[i]) by {
            if i < store.rows.len() {
                assert(store.rows.contains(store.rows[i]));
                assert(store.rows[i].id <= store.last_id);
            }
        }
        lemma_filter_none(grown.rows, q);
        crate::table::lemma_filter(grown.rows, keep);
        lemma_push_members(store.rows, fresh, fresh);
        assert(keep(fresh));
        assert(after.rows.contains(fresh));
        lemma_find(after, text, false);
        crate::table::lemma_first_index(after.rows, crate::table::holds_text(text, false));
    }
}

/// A filter that no row passes leaves nothing.
proof fn lemma_filter_none(
    rows: Seq<crate::table::EntryView>,
    p: spec_fn(crate::table::EntryView) -> bool,
)
    requires
        forall|i: int| 0 <= i < rows.len() ==> !p(#[trigger] rows[i]),
    ensures
        rows.filter(p).len() == 0,
    decreases rows.len(),
{
    reveal(Seq::filter);
    if rows.len() > 0 {
        lemma_filter_none(rows.drop_last(), p);
    }
}

/// A captured text leads the clipboard listing when its time is later than that
/// of every row before.
pub proof fn law_captured_text_leads(
    store: crate::table::StoreView,
    text: Seq<char>,
    now: i64,
    list: Seq<crate::table::EntryView>,
)
    requires
        store.wf(),
        store.find(text, false) is Some || store.has_room(),
        forall|row: crate::table::EntryView| #[trigger]
            store.rows.contains(row) ==> row.timestamp < now,
        crate::table::is_newest_first(
            list,
            store.upserted(text, now).rows,
            RowClass::Clipboard,
        ),
    ensures
        list.len() > 0,
        list[0].text == text,
        list[0].timestamp == now,
        crate::table::newest_first(store.upserted(text, now).rows, RowClass::Clipboard) == list,
{
    let after = store.upserted(text, now);
    law_captured_text_is_kept(store, text, now);
    let row = choose|row: crate::table::EntryView| #[trigger]
        after.rows.contains(row) && row.text == text && row.timestamp == now
            && !row.is_quick_send;
    assert(list.contains(row));
    let k = choose|k: int| 0 <= k < list.len() && list[k] == row;
    crate::table::lemma_newest_first_is(list, after.rows, RowClass::Clipboard);
    assert(list.contains(list[0]));
    assert(after.rows.contains(list[0]));
    if k > 0 {
        assert(crate::table::newer(list[0], list[k]));
    }
    // Only the captured row can carry the new time.
    match store.find(text, false) {
        Some(id) => {
            let m = choose|m: int| 0 <= m < after.rows.len() && after.rows[m] == list[0];
            assert(store.rows.contains(store.rows[m]));
            lemma_find(store, text, false);
            let f = choose|i: int|
                0 <= i < store.rows.len() && (#[trigger] store.rows[i]).id == id
                    && store.rows[i].text == text && !store.rows[i].is_quick_send;
            if store.rows[m].id == id {
                lemma_id_is_unique(store.rows, m, f);
            }
        },
        None => {
            let fresh = store.fresh_row(text, Seq::empty(), now, false);
            let grown = store.rows.push(fresh);
            crate::table::lemma_filter(
                grown,
                crate::table::survivors(grown, RowClass::Unpinned, MAX_CLIPBOARD_ITEMS as nat),
            );
            lemma_push_members(store.rows, fresh, list[0]);
        },
    }
}

// ── Isolation of the two kinds ─────────────────────────────────────────────

/// Deleting or clearing one kind of entries leaves the other kind as it was, and
/// clearing a kind leaves none of it.
pub proof fn law_deletes_are_isolated(store: crate::table::StoreView, id: i64)
    ensures
        crate::table::select(
            store.deleted(RowClass::Clipboard, id).rows,
            RowClass::QuickSend,
        ) == crate::table::select(store.rows, RowClass::QuickSend),
        crate::table::select(
            store.deleted(RowClass::QuickSend, id).rows,
            RowClass::Clipboard,
        ) == crate::table::select(store.rows, RowClass::Clipboard),
        crate::table::select(store.cleared(RowClass::Clipboard).rows, RowClass::QuickSend)
            == crate::table::select(store.rows, RowClass::QuickSend),
        crate::table::select(store.cleared(RowClass::QuickSend).rows, RowClass::Clipboard)
            == crate::table::select(store.rows, RowClass::Clipboard),
        crate::table::select(
            store.cleared(RowClass::Clipboard).rows,
            RowClass::Clipboard,
        ).len() == 0,
        crate::table::select(
            store.cleared(RowClass::QuickSend).rows,
            RowClass::QuickSend,
        ).len() == 0,
        store.cleared(RowClass::All).rows.len() == 0,
{
    lemma_delete_isolated(store, RowClass::Clipboard, RowClass::QuickSend, id);
    lemma_delete_isolated(store, RowClass::QuickSend, RowClass::Clipboard, id);
    lemma_clear_leaves_none(store, RowClass::Clipboard);
    lemma_clear_leaves_none(store, RowClass::QuickSend);
    lemma_filter_none(store.rows, |row: crate::table::EntryView| !RowClass::All.has(row));
}

proof fn lemma_delete_isolated(
    store: crate::table::StoreView,
    class: RowClass,
    other: RowClass,
    id: i64,
)
    requires
        forall|row: crate::table::EntryView| !(#[trigger] class.has(row) && other.has(row)),
    ensures
        crate::table::select(store.deleted(class, id).rows, other) == crate::table::select(
            store.rows,
            other,
        ),
        crate::table::select(store.cleared(class).rows, other) == crate::table::select(
            store.rows,
            other,
        ),
{
    let p = |row: crate::table::EntryView| !(class.has(row) && row.id == id);
    let q = |row: crate::table::EntryView| !class.has(row);
    let m = other.members();
    crate::table::lemma_filter_filter(store.rows, p, m);
    crate::table::lemma_filter_filter(store.rows, q, m);
    crate::table::lemma_filter_same(
        store.rows,
        |row: crate::table::EntryView| p(row) && m(row),
        m,
    );
    crate::table::lemma_filter_same(
        store.rows,
        |row: crate::table::EntryView| q(row) && m(row),
        m,
    );
}

proof fn lemma_clear_leaves_none(store: crate::table::StoreView, class: RowClass)
    ensures
        crate::table::select(store.cleared(class).rows, class).len() == 0,
{
    let q = |row: crate::table::EntryView| !class.has(row);
    let m = class.members();
    crate::table::lemma_filter_filter(store.rows, q, m);
    lemma_filter_none(store.rows, |row: crate::table::EntryView| q(row) && m(row));
}

/// Adding to quick send leaves the clipboard entries as they were.
pub proof fn law_quick_send_leaves_clipboard_alone(
    store: crate::table::StoreView,
    text: Seq<char>,
    code: Seq<char>,
    id: i64,
    now: i64,
)
    requires
        store.wf(),
    ensures
        crate::table::select(store.quick_send_added(id, now).rows, RowClass::Clipboard)
            == crate::table::select(store.rows, RowClass::Clipboard),
        crate::table::select(
            store.quick_send_inserted(text, code, now).rows,
            RowClass::Clipboard,
        ) == crate::table::select(store.rows, RowClass::Clipboard),
        crate::table::select(
            store.quick_send_edited(id, text, code, now).rows,
            RowClass::Clipboard,
        ) == crate::table::select(store.rows, RowClass::Clipboard),
{
    let touch = |r: crate::table::EntryView| crate::table::EntryView { timestamp: now, ..r };
    let rewrite = |r: crate::table::EntryView|
        crate::table::EntryView { text, code, timestamp: now, ..r };
    let edit = |r: crate::table::EntryView|
        if r.is_quick_send {
            crate::table::EntryView { text, code, timestamp: now, ..r }
        } else {
            r
        };
    lemma_change_elsewhere(store, id, edit, RowClass::Clipboard);
    match store.find(text, true) {
        Some(found) => {
            lemma_found_is_quick_send(store, text, found);
            lemma_change_elsewhere(store, found, rewrite, RowClass::Clipboard);
        },
        None => {
            lemma_add_elsewhere(store, text, code, now);
        },
    }
    if let Some(copied) = store.clipboard_text(id) {
        match store.find(copied, true) {
            Some(found) => {
                lemma_found_is_quick_send(store, copied, found);
                lemma_change_elsewhere(store, found, touch, RowClass::Clipboard);
            },
            None => {
                lemma_add_elsewhere(store, copied, Seq::empty(), now);
            },
        }
    }
}

proof fn lemma_found_is_quick_send(store: crate::table::StoreView, text: Seq<char>, id: i64)
    requires
        store.wf(),
        store.find(text, true) == Some(id),
    ensures
        forall|i: int| 0 <= i < store.rows.len() && (#[trigger] store.rows[i]).id == id
            ==> store.rows[i].is_quick_send,
{
    lemma_find(store, text, true);
    let k = choose|i: int|
        0 <= i < store.rows.len() && (#[trigger] store.rows[i]).id == id && store.rows[i].text
            == text && store.rows[i].is_quick_send;
    assert forall|i: int| 0 <= i < store.rows.len() && (#[trigger] store.rows[i]).id
        == id implies store.rows[i].is_quick_send by {
        lemma_id_is_unique(store.rows, i, k);
    }
}

/// Changing a row outside a class, within its kind, leaves the class as it was.
proof fn lemma_change_elsewhere(
    store: crate::table::StoreView,
    id: i64,
    f: spec_fn(crate::table::EntryView) -> crate::table::EntryView,
    class: RowClass,
)
    requires
        forall|i: int| 0 <= i < store.rows.len() && (#[trigger] store.rows[i]).id == id ==> (
        class.has(store.rows[i]) ==> f(store.rows[i]) == store.rows[i]) && (!class.has(
            store.rows[i],
        ) ==> !class.has(f(store.rows[i]))),
    ensures
        crate::table::select(store.changed(id, f).rows, class) == crate::table::select(
            store.rows,
            class,
        ),
    decreases store.rows.len(),
{
    reveal(Seq::filter);
    let after = store.changed(id, f).rows;
    if store.rows.len() > 0 {
        let shorter = crate::table::StoreView { rows: store.rows.drop_last(), ..store };
        assert forall|i: int| 0 <= i < shorter.rows.len() && (#[trigger] shorter.rows[i]).id
            == id implies (class.has(shorter.rows[i]) ==> f(shorter.rows[i]) == shorter.rows[i])
            && (!class.has(shorter.rows[i]) ==> !class.has(f(shorter.rows[i]))) by {
            assert(store.rows[i] == shorter.rows[i]);
        }
        lemma_change_elsewhere(shorter, id, f, class);
        assert(after.drop_last() =~= shorter.changed(id, f).rows);
        let last = store.rows[store.rows.len() - 1];
        assert(after.last() == if last.id == id {
            f(last)
        } else {
            last
        });
    }
}

/// Adding and trimming quick-send rows leaves the clipboard rows as they were.
proof fn lemma_add_elsewhere(
    store: crate::table::StoreView,
    text: Seq<char>,
    code: Seq<char>,
    now: i64,
)
    ensures
        crate::table::select(
            store.inserted(text, code, now, true).trimmed(
                RowClass::QuickSend,
                MAX_QUICK_SEND_ITEMS as nat,
            ).rows,
            RowClass::Clipboard,
        ) == crate::table::select(store.rows, RowClass::Clipboard),
{
    let fresh = store.fresh_row(text, code, now, true);
    let grown = store.rows.push(fresh);
    let keep = crate::table::survivors(grown, RowClass::QuickSend, MAX_QUICK_SEND_ITEMS as nat);
    let m = RowClass::Clipboard.members();
    crate::table::lemma_filter_filter(grown, keep, m);
    crate::table::lemma_filter_same(
        grown,
        |row: crate::table::EntryView| keep(row) && m(row),
        m,
    );
    store.rows.lemma_filter_push(fresh, m);
}

/// Capturing a text leaves the quick-send entries as they were, as long as all of
/// them are pinned.
pub proof fn law_captures_leave_quick_send_alone(
    store: crate::table::StoreView,
    text: Seq<char>,
    now: i64,
)
    requires
        store.wf(),
        quick_sends_are_pinned(store.rows),
    ensures
        crate::table::select(store.upserted(text, now).rows, RowClass::QuickSend)
            == crate::table::select(store.rows, RowClass::QuickSend),
{
    match store.find(text, false) {
        Some(id) => {
            lemma_find(store, text, false);
            let k = choose|i: int|
                0 <= i < store.rows.len() && (#[trigger] store.rows[i]).id == id
                    && store.rows[i].text == text && !store.rows[i].is_quick_send;
            assert forall|i: int| 0 <= i < store.rows.len() && (#[trigger] store.rows[i]).id
                == id implies !store.rows[i].is_quick_send by {
                lemma_id_is_unique(store.rows, i, k);
            }
            lemma_change_elsewhere(
                store,
                id,
                |r: crate::table::EntryView| crate::table::EntryView { timestamp: now, ..r },
                RowClass::QuickSend,
            );
        },
        None => {
            let fresh = store.fresh_row(text, Seq::empty(), now, false);
            let grown = store.rows.push(fresh);
            let keep = crate::table::survivors(
                grown,
                RowClass::Unpinned,
                MAX_CLIPBOARD_ITEMS as nat,
            );
            let m = RowClass::QuickSend.members();
            crate::table::lemma_filter_filter(grown, keep, m);
            assert forall|i: int| 0 <= i < grown.len() && m(#[trigger] grown[i]) implies keep(
                grown[i],
            ) by {
                if i < store.rows.len() {
                    assert(store.rows.contains(store.rows[i]));
                }
            }
            crate::table::lemma_filter_same(
                grown,
                |row: crate::table::EntryView| keep(row) && m(row),
                m,
            );
            store.rows.lemma_filter_push(fresh, m);
        },
    }
}

// ── Ids ────────────────────────────────────────────────────────────────────

/// Ids are never given out twice: whatever appears in the table under an id that
/// was not there before has an id above all that were given out.
pub proof fn law_ids_are_never_reused(
    store: crate::table::StoreView,
    text: Seq<char>,
    code: Seq<char>,
    id: i64,
    now: i64,
    row: crate::table::EntryView,
)
    requires
        store.wf(),
        store.has_room(),
        store.upserted(text, now).rows.contains(row) || store.quick_send_added(
            id,
            now,
        ).rows.contains(row) || store.quick_send_inserted(text, code, now).rows.contains(row),
    ensures
        (exists|i: int| 0 <= i < store.rows.len() && (#[trigger] store.rows[i]).id == row.id)
            || row.id > store.last_id,
        store.upserted(text, now).last_id >= store.last_id,
        store.quick_send_added(id, now).last_id >= store.last_id,
        store.quick_send_inserted(text, code, now).last_id >= store.last_id,
{
    let touch = |r: crate::table::EntryView| crate::table::EntryView { timestamp: now, ..r };
    let rewrite = |r: crate::table::EntryView|
        crate::table::EntryView { text, code, timestamp: now, ..r };
    match store.find(text, false) {
        Some(found) => {
            lemma_changed_members(store, found, touch, row);
        },
        None => {
            lemma_insert_members(
                store,
                text,
                Seq::empty(),
                now,
                false,
                RowClass::Unpinned,
                MAX_CLIPBOARD_ITEMS as nat,
                row,
            );
        },
    }
    match store.find(text, true) {
        Some(found) => {
            lemma_changed_members(store, found, rewrite, row);
        },
        None => {
            lemma_insert_members(
                store,
                text,
                code,
                now,
                true,
                RowClass::QuickSend,
                MAX_QUICK_SEND_ITEMS as nat,
                row,
            );
        },
    }
    match store.clipboard_text(id) {
        Some(copied) => {
            match store.find(copied, true) {
                Some(found) => {
                    lemma_changed_members(store, found, touch, row);
                },
                None => {
                    lemma_insert_members(
                        store,
                        copied,
                        Seq::empty(),
                        now,
                        true,
                        RowClass::QuickSend,
                        MAX_QUICK_SEND_ITEMS as nat,
                        row,
                    );
                },
            }
        },
        None => {
            if store.rows.contains(row) {
                let i = choose|i: int| 0 <= i < store.rows.len() && store.rows[i] == row;
                assert(store.rows[i].id == row.id);
            }
        },
    }
}

proof fn lemma_insert_members(
    store: crate::table::StoreView,
    text: Seq<char>,
    code: Seq<char>,
    now: i64,
    is_quick_send: bool,
    class: RowClass,
    limit: nat,
    row: crate::table::EntryView,
)
    requires
        store.has_room(),
    ensures
        store.inserted(text, code, now, is_quick_send).trimmed(class, limit).rows.contains(row)
            ==> (exists|i: int| 0 <= i < store.rows.len() && (#[trigger] store.rows[i]).id
            == row.id) || row.id > store.last_id,
{
    let fresh = store.fresh_row(text, code, now, is_quick_send);
    let grown = store.rows.push(fresh);
    crate::table::lemma_filter(grown, crate::table::survivors(grown, class, limit));
    lemma_push_members(store.rows, fresh, row);
    if store.rows.contains(row) {
        let i = choose|i: int| 0 <= i < store.rows.len() && store.rows[i] == row;
        assert(store.rows[i].id == row.id);
    }
}

// ── Listings ───────────────────────────────────────────────────────────────

/// Every table can be listed, in exactly one way: the listing of a class holds its
/// rows and no others, each once, with a newer row before an older one.
pub proof fn law_listings_are_newest_first(
    store: crate::table::StoreView,
    class: RowClass,
    other: Seq<crate::table::EntryView>,
)
    requires
        store.wf(),
    ensures
        crate::table::is_newest_first(
            crate::table::newest_first(store.rows, class),
            store.rows,
            class,
        ),
        crate::table::newest_first(store.rows, class).no_duplicates(),
        crate::table::is_newest_first(other, store.rows, class) ==> other
            == crate::table::newest_first(store.rows, class),
{
    let n = store.rows.len() as int;
    let list = crate::table::lemma_listing(store, n, class);
    assert(store.rows.take(n) =~= store.rows);
    crate::table::lemma_newest_first_is(list, store.rows, class);
    if crate::table::is_newest_first(other, store.rows, class) {
        crate::table::lemma_newest_first_is(other, store.rows, class);
    }
    assert forall|i: int, j: int| 0 <= i < j < list.len() implies list[i] != list[j] by {
        assert(crate::table::newer(list[i], list[j]));
    }
}

} // verus!
