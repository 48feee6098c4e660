//! The mathematical model of the clipboard table and what each operation does
//! to it.
//!
//! A table is a sequence of rows in the order of their ids, with the highest id
//! that was ever given out. Ids are never given out twice.

use vstd::prelude::*;

verus! {

/// Most clipboard rows that are kept.
pub const MAX_CLIPBOARD_ITEMS: i64 = 1000;

/// Most quick-send rows that are kept.
pub const MAX_QUICK_SEND_ITEMS: i64 = 20;

/// One row of the table.
#[verifier::ext_equal]
pub struct EntryView {
    pub id: i64,
    pub text: Seq<char>,
    pub code: Seq<char>,
    pub timestamp: i64,
    pub is_pinned: bool,
    pub is_quick_send: bool,
    pub consumed: bool,
}

/// A table: its rows by ascending id and the highest id ever given out.
#[verifier::ext_equal]
pub struct StoreView {
    pub rows: Seq<EntryView>,
    pub last_id: i64,
}

/// A kind of rows that an operation is about.
#[derive(Debug, Clone, Copy, PartialEq, Eq, Structural)]
pub enum RowClass {
    /// Every row.
    All,
    /// Plain clipboard rows.
    Clipboard,
    /// Quick-send rows.
    QuickSend,
    /// Rows that are not pinned, of either kind.
    Unpinned,
}

impl RowClass {
    /// Whether a row belongs to the class.
    pub open spec fn has(self, row: EntryView) -> bool {
        match self {
            RowClass::All => true,
            RowClass::Clipboard => !row.is_quick_send,
            RowClass::QuickSend => row.is_quick_send,
            RowClass::Unpinned => !row.is_pinned,
        }
    }

    /// Membership as a predicate.
    pub open spec fn members(self) -> spec_fn(EntryView) -> bool {
        |row: EntryView| self.has(row)
    }
}

/// The order of all listings: the later timestamp first, and of two rows with
/// one timestamp the one with the higher id.
pub open spec fn newer(a: EntryView, b: EntryView) -> bool {
    a.timestamp > b.timestamp || (a.timestamp == b.timestamp && a.id > b.id)
}

/// Rows stand in the order of their ids, so no id occurs twice.
pub open spec fn ids_ascend(rows: Seq<EntryView>) -> bool {
    forall|i: int, j: int| 0 <= i < j < rows.len() ==> rows[i].id < rows[j].id
}

/// The rows of a class.
pub open spec fn select(rows: Seq<EntryView>, class: RowClass) -> Seq<EntryView> {
    rows.filter(class.members())
}

/// The members of a class that are newer than a row.
pub open spec fn newer_members(class: RowClass, than: EntryView) -> spec_fn(EntryView) -> bool {
    |row: EntryView| class.has(row) && newer(row, than)
}

/// How many rows of a class are newer than a row.
pub open spec fn newer_count(rows: Seq<EntryView>, class: RowClass, than: EntryView) -> nat {
    rows.filter(newer_members(class, than)).len()
}

/// What trimming a class to `limit` rows keeps: rows outside the class, and rows
/// of the class that are among its `limit` newest.
pub open spec fn survivors(rows: Seq<EntryView>, class: RowClass, limit: nat) -> spec_fn(
    EntryView,
) -> bool {
    |row: EntryView| class.has(row) ==> newer_count(rows, class, row) < limit
}

/// Whether a row holds a text, as a clipboard or as a quick-send row.
pub open spec fn holds_text(text: Seq<char>, is_quick_send: bool) -> spec_fn(EntryView) -> bool {
    |row: EntryView| row.text == text && row.is_quick_send == is_quick_send
}

/// The index of the first row that satisfies a predicate, or the number of rows.
pub open spec fn first_index(rows: Seq<EntryView>, p: spec_fn(EntryView) -> bool) -> int
    decreases rows.len(),
{
    if rows.len() == 0 {
        0
    } else if p(rows[0]) {
        0
    } else {
        1 + first_index(rows.drop_first(), p)
    }
}

/// The rows of a class, newest first.
pub open spec fn is_newest_first(
    list: Seq<EntryView>,
    rows: Seq<EntryView>,
    class: RowClass,
) -> bool {
    &&& forall|i: int, j: int| 0 <= i < j < list.len() ==> newer(list[i], list[j])
    &&& forall|row: EntryView|
        #![trigger list.contains(row)]
        list.contains(row) <==> rows.contains(row) && class.has(row)
}

/// The one sequence that holds the rows of a class, newest first.
pub open spec fn newest_first(rows: Seq<EntryView>, class: RowClass) -> Seq<EntryView> {
    choose|list: Seq<EntryView>| is_newest_first(list, rows, class)
}

/// The first `limit` elements; a negative limit means all.
pub open spec fn limited(list: Seq<EntryView>, limit: int) -> Seq<EntryView> {
    if 0 <= limit < list.len() {
        list.take(limit)
    } else {
        list
    }
}

impl StoreView {
    /// Ids ascend, none is above the highest id given out, and that one is not
    /// negative.
    pub open spec fn wf(self) -> bool {
        &&& ids_ascend(self.rows)
        &&& forall|i: int| 0 <= i < self.rows.len() ==> (#[trigger] self.rows[i]).id <= self.last_id
        &&& self.last_id >= 0
    }

    /// The id of the first row that holds a text.
    pub open spec fn find(self, text: Seq<char>, is_quick_send: bool) -> Option<i64> {
        let i = first_index(self.rows, holds_text(text, is_quick_send));
        if i < self.rows.len() {
            Some(self.rows[i].id)
        } else {
            None
        }
    }

    /// The row with an id.
    pub open spec fn row(self, id: i64) -> Option<EntryView> {
        let i = first_index(self.rows, |row: EntryView| row.id == id);
        if i < self.rows.len() {
            Some(self.rows[i])
        } else {
            None
        }
    }

    /// The table with a function applied to the row that has an id.
    pub open spec fn changed(self, id: i64, f: spec_fn(EntryView) -> EntryView) -> StoreView {
        StoreView {
            rows: self.rows.map_values(
                |row: EntryView|
                    if row.id == id {
                        f(row)
                    } else {
                        row
                    },
            ),
            ..self
        }
    }

    /// The table with one row's timestamp set.
    pub open spec fn touched(self, id: i64, now: i64) -> StoreView {
        self.changed(id, |row: EntryView| EntryView { timestamp: now, ..row })
    }

    /// The table with one row's text, code and timestamp set.
    pub open spec fn rewritten(
        self,
        id: i64,
        text: Seq<char>,
        code: Seq<char>,
        now: i64,
    ) -> StoreView {
        self.changed(id, |row: EntryView| EntryView { text, code, timestamp: now, ..row })
    }

    /// The table with one row marked as consumed.
    pub open spec fn consumed_marked(self, id: i64) -> StoreView {
        self.changed(id, |row: EntryView| EntryView { consumed: true, ..row })
    }

    /// The table without the rows of a class.
    pub open spec fn cleared(self, class: RowClass) -> StoreView {
        StoreView { rows: self.rows.filter(|row: EntryView| !class.has(row)), ..self }
    }

    /// The table without the row that has an id, if that row is of the class.
    pub open spec fn deleted(self, class: RowClass, id: i64) -> StoreView {
        StoreView {
            rows: self.rows.filter(|row: EntryView| !(class.has(row) && row.id == id)),
            ..self
        }
    }

    /// Whether another row can be added.
    pub open spec fn has_room(self) -> bool {
        self.last_id < i64::MAX
    }

    /// The row that an insertion adds.
    pub open spec fn fresh_row(
        self,
        text: Seq<char>,
        code: Seq<char>,
        now: i64,
        is_quick_send: bool,
    ) -> EntryView {
        EntryView {
            id: (self.last_id + 1) as i64,
            text,
            code,
            timestamp: now,
            is_pinned: is_quick_send,
            is_quick_send,
            consumed: false,
        }
    }

    /// The table with a row added under the next id. Quick-send rows are pinned,
    /// clipboard rows are not.
    pub open spec fn inserted(
        self,
        text: Seq<char>,
        code: Seq<char>,
        now: i64,
        is_quick_send: bool,
    ) -> StoreView {
        StoreView {
            rows: self.rows.push(self.fresh_row(text, code, now, is_quick_send)),
            last_id: (self.last_id + 1) as i64,
        }
    }

    /// The table with a class cut down to its `limit` newest rows.
    pub open spec fn trimmed(self, class: RowClass, limit: nat) -> StoreView {
        StoreView { rows: self.rows.filter(survivors(self.rows, class, limit)), ..self }
    }

    /// The table after a text was captured: a row that holds the text gets a new
    /// timestamp; else the text becomes a new row and the rows that are not
    /// pinned are trimmed.
    pub open spec fn upserted(self, text: Seq<char>, now: i64) -> StoreView {
        match self.find(text, false) {
            Some(id) => self.touched(id, now),
            None => self.inserted(text, Seq::empty(), now, false).trimmed(
                RowClass::Unpinned,
                MAX_CLIPBOARD_ITEMS as nat,
            ),
        }
    }

    /// The table after a clipboard row was copied to quick send: a quick-send
    /// row that holds the text gets a new timestamp; else a quick-send row is
    /// added and the quick-send rows are trimmed. Without such a clipboard row
    /// nothing happens.
    pub open spec fn quick_send_added(self, source_id: i64, now: i64) -> StoreView {
        match self.clipboard_text(source_id) {
            Some(text) => match self.find(text, true) {
                Some(id) => self.touched(id, now),
                None => self.inserted(text, Seq::empty(), now, true).trimmed(
                    RowClass::QuickSend,
                    MAX_QUICK_SEND_ITEMS as nat,
                ),
            },
            None => self,
        }
    }

    /// The table after a quick-send text was entered by hand: a quick-send row
    /// that holds the text gets the code and a new timestamp; else a quick-send
    /// row is added and the quick-send rows are trimmed.
    pub open spec fn quick_send_inserted(
        self,
        text: Seq<char>,
        code: Seq<char>,
        now: i64,
    ) -> StoreView {
        match self.find(text, true) {
            Some(id) => self.rewritten(id, text, code, now),
            None => self.inserted(text, code, now, true).trimmed(
                RowClass::QuickSend,
                MAX_QUICK_SEND_ITEMS as nat,
            ),
        }
    }

    /// The table after a quick-send row was edited; other rows are left alone.
    pub open spec fn quick_send_edited(
        self,
        id: i64,
        text: Seq<char>,
        code: Seq<char>,
        now: i64,
    ) -> StoreView {
        self.changed(
            id,
            |row: EntryView|
                if row.is_quick_send {
                    EntryView { text, code, timestamp: now, ..row }
                } else {
                    row
                },
        )
    }

    /// The text of the clipboard row with an id.
    pub open spec fn clipboard_text(self, id: i64) -> Option<Seq<char>> {
        match self.row(id) {
            Some(row) => if row.is_quick_send {
                None
            } else {
                Some(row.text)
            },
            None => None,
        }
    }
}

/// One change to the stored rows.
pub enum ChangeView {
    Insert(EntryView),
    Update(EntryView),
    Delete(i64),
}

/// The table after one change. A row that is added raises the highest id given
/// out, if its own is higher.
pub open spec fn change_applied(store: StoreView, change: ChangeView) -> StoreView {
    match change {
        ChangeView::Insert(row) => StoreView {
            rows: store.rows.push(row),
            last_id: if row.id > store.last_id {
                row.id
            } else {
                store.last_id
            },
        },
        ChangeView::Update(row) => StoreView {
            rows: store.rows.map_values(
                |old_row: EntryView|
                    if old_row.id == row.id {
                        row
                    } else {
                        old_row
                    },
            ),
            ..store
        },
        ChangeView::Delete(id) => StoreView {
            rows: store.rows.filter(|row: EntryView| row.id != id),
            ..store
        },
    }
}

/// The table after a sequence of changes.
pub open spec fn changes_applied(store: StoreView, changes: Seq<ChangeView>) -> StoreView
    decreases changes.len(),
{
    if changes.len() == 0 {
        store
    } else {
        change_applied(changes_applied(store, changes.drop_last()), changes.last())
    }
}

// ── Lemmas ─────────────────────────────────────────────────────────────────

/// What a filter keeps, and in what order.
pub proof fn lemma_filter(rows: Seq<EntryView>, p: spec_fn(EntryView) -> bool)
    ensures
        forall|row: EntryView|
            #![trigger rows.filter(p).contains(row)]
            rows.filter(p).contains(row) <==> rows.contains(row) && p(row),
        rows.filter(p).len() <= rows.len(),
        ids_ascend(rows) ==> ids_ascend(rows.filter(p)),
    decreases rows.len(),
{
    reveal(Seq::filter);
    if rows.len() > 0 {
        let init = rows.drop_last();
        lemma_filter(init, p);
        let kept = rows.filter(p);
        assert forall|row: EntryView| #![trigger kept.contains(row)] kept.contains(row) <==>
            rows.contains(row) && p(row) by {
            if kept.contains(row) {
                let j = choose|j: int| 0 <= j < kept.len() && kept[j] == row;
                if j < init.filter(p).len() {
                    assert(init.filter(p)[j] == row);
                    assert(init.filter(p).contains(row));
                    let k = choose|k: int| 0 <= k < init.len() && init[k] == row;
                    assert(rows[k] == row);
                } else {
                    assert(rows[rows.len() - 1] == row);
                }
            }
            if rows.contains(row) && p(row) {
                let k = choose|k: int| 0 <= k < rows.len() && rows[k] == row;
                if k < init.len() {
                    assert(init[k] == row);
                    assert(init.contains(row));
                    assert(init.filter(p).contains(row));
                    let j = choose|j: int| 0 <= j < init.filter(p).len() && init.filter(p)[j] == row;
                    assert(kept[j] == row);
                } else {
                    assert(kept[kept.len() - 1] == row);
                }
            }
        }
        if ids_ascend(rows) {
            assert(ids_ascend(init));
            assert forall|i: int, j: int| 0 <= i < j < kept.len() implies kept[i].id
                < kept[j].id by {
                if j == init.filter(p).len() {
                    assert(init.filter(p).contains(kept[i]));
                    let k = choose|k: int| 0 <= k < init.len() && init[k] == kept[i];
                    assert(rows[k].id < rows[rows.len() - 1].id);
                }
            }
        }
    }
}

/// A filter that every row passes changes nothing.
pub proof fn lemma_filter_all(rows: Seq<EntryView>, p: spec_fn(EntryView) -> bool)
    requires
        forall|i: int| 0 <= i < rows.len() ==> p(#[trigger] rows[i]),
    ensures
        rows.filter(p) == rows,
    decreases rows.len(),
{
    reveal(Seq::filter);
    if rows.len() > 0 {
        lemma_filter_all(rows.drop_last(), p);
        assert(rows.drop_last().push(rows.last()) =~= rows);
    }
}

/// Two predicates that agree on the rows filter alike.
pub proof fn lemma_filter_same(
    rows: Seq<EntryView>,
    p: spec_fn(EntryView) -> bool,
    q: spec_fn(EntryView) -> bool,
)
    requires
        forall|i: int| 0 <= i < rows.len() ==> p(#[trigger] rows[i]) == q(rows[i]),
    ensures
        rows.filter(p) == rows.filter(q),
    decreases rows.len(),
{
    reveal(Seq::filter);
    if rows.len() > 0 {
        lemma_filter_same(rows.drop_last(), p, q);
    }
}

/// A weaker predicate keeps at least as many rows, and more when some row
/// satisfies only the weaker one.
pub proof fn lemma_filter_len_monotone(
    rows: Seq<EntryView>,
    p: spec_fn(EntryView) -> bool,
    q: spec_fn(EntryView) -> bool,
)
    requires
        forall|i: int| 0 <= i < rows.len() && p(#[trigger] rows[i]) ==> q(rows[i]),
    ensures
        rows.filter(p).len() <= rows.filter(q).len(),
        (exists|i: int| 0 <= i < rows.len() && q(#[trigger] rows[i]) && !p(rows[i])) ==> rows.filter(
            p,
        ).len() < rows.filter(q).len(),
    decreases rows.len(),
{
    reveal(Seq::filter);
    if rows.len() > 0 {
        let init = rows.drop_last();
        lemma_filter_len_monotone(init, p, q);
        if exists|i: int| 0 <= i < rows.len() && q(#[trigger] rows[i]) && !p(rows[i]) {
            let i = choose|i: int| 0 <= i < rows.len() && q(#[trigger] rows[i]) && !p(rows[i]);
            if i < init.len() {
                assert(q(init[i]) && !p(init[i]));
            }
        }
    }
}

/// Filtering twice is filtering by both predicates.
pub proof fn lemma_filter_filter(
    rows: Seq<EntryView>,
    p: spec_fn(EntryView) -> bool,
    q: spec_fn(EntryView) -> bool,
)
    ensures
        rows.filter(p).filter(q) == rows.filter(|row: EntryView| p(row) && q(row)),
    decreases rows.len(),
{
    reveal(Seq::filter);
    if rows.len() > 0 {
        let init = rows.drop_last();
        lemma_filter_filter(init, p, q);
        if p(rows.last()) {
            init.filter(p).lemma_filter_push(rows.last(), q);
        }
    }
}

/// The first index is what its name says.
pub proof fn lemma_first_index(rows: Seq<EntryView>, p: spec_fn(EntryView) -> bool)
    ensures
        0 <= first_index(rows, p) <= rows.len(),
        first_index(rows, p) < rows.len() ==> p(rows[first_index(rows, p)]),
        forall|j: int| 0 <= j < first_index(rows, p) ==> !p(#[trigger] rows[j]),
    decreases rows.len(),
{
    if rows.len() > 0 && !p(rows[0]) {
        let rest = rows.drop_first();
        lemma_first_index(rest, p);
        assert forall|j: int| 0 <= j < first_index(rows, p) implies !p(#[trigger] rows[j]) by {
            if j > 0 {
                assert(rest[j - 1] == rows[j]);
            }
        }
    }
}

/// Any index with these properties is the first index.
pub proof fn lemma_first_index_is(rows: Seq<EntryView>, p: spec_fn(EntryView) -> bool, i: int)
    requires
        0 <= i <= rows.len(),
        i < rows.len() ==> p(rows[i]),
        forall|j: int| 0 <= j < i ==> !p(#[trigger] rows[j]),
    ensures
        first_index(rows, p) == i,
{
    lemma_first_index(rows, p);
    let k = first_index(rows, p);
    if k < i {
        assert(!p(rows[k]));
    }
    if i < k {
        assert(!p(rows[i]));
    }
}

/// Of two rows with different ids one is newer, and never both.
pub proof fn lemma_newer_total(a: EntryView, b: EntryView)
    ensures
        a.id != b.id ==> newer(a, b) || newer(b, a),
        !(newer(a, b) && newer(b, a)),
        !newer(a, a),
{
}

/// A listing is determined by the rows and the class.
pub proof fn lemma_newest_first_unique(
    a: Seq<EntryView>,
    b: Seq<EntryView>,
    rows: Seq<EntryView>,
    class: RowClass,
)
    requires
        is_newest_first(a, rows, class),
        is_newest_first(b, rows, class),
    ensures
        a == b,
{
    lemma_sorted_same_members(a, b);
}

/// Two strictly sorted sequences with the same members are equal.
pub proof fn lemma_sorted_same_members(a: Seq<EntryView>, b: Seq<EntryView>)
    requires
        forall|i: int, j: int| 0 <= i < j < a.len() ==> newer(a[i], a[j]),
        forall|i: int, j: int| 0 <= i < j < b.len() ==> newer(b[i], b[j]),
        forall|row: EntryView| #![trigger a.contains(row)] a.contains(row) <==> b.contains(row),
    ensures
        a == b,
    decreases a.len(),
{
    if a.len() == 0 {
        if b.len() > 0 {
            assert(b.contains(b[0]));
            assert(a.contains(b[0]));
        }
        assert(a =~= b);
    } else {
        assert(a.contains(a[0]));
        assert(b.contains(a[0]));
        let k = choose|k: int| 0 <= k < b.len() && b[k] == a[0];
        assert(b.contains(b[0]));
        assert(a.contains(b[0]));
        let m = choose|m: int| 0 <= m < a.len() && a[m] == b[0];
        assert(a[0] == b[0]) by {
            if k > 0 {
                assert(newer(b[0], b[k]));
                if m > 0 {
                    assert(newer(a[0], a[m]));
                }
            }
        }
        let ra = a.drop_first();
        let rb = b.drop_first();
        assert forall|row: EntryView| #![trigger ra.contains(row)] ra.contains(row) <==>
            rb.contains(row) by {
            if ra.contains(row) {
                let i = choose|i: int| 0 <= i < ra.len() && ra[i] == row;
                assert(a[i + 1] == row);
                assert(a.contains(row));
                assert(newer(a[0], a[i + 1]));
                assert(b.contains(row));
                let j = choose|j: int| 0 <= j < b.len() && b[j] == row;
                assert(j > 0);
                assert(rb[j - 1] == row);
            }
            if rb.contains(row) {
                let i = choose|i: int| 0 <= i < rb.len() && rb[i] == row;
                assert(b[i + 1] == row);
                assert(b.contains(row));
                assert(newer(b[0], b[i + 1]));
                assert(a.contains(row));
                let j = choose|j: int| 0 <= j < a.len() && a[j] == row;
                assert(j > 0);
                assert(ra[j - 1] == row);
            }
        }
        lemma_sorted_same_members(ra, rb);
        assert(a =~= seq![a[0]] + ra);
        assert(b =~= seq![b[0]] + rb);
    }
}

/// A listing that was built is the listing.
pub proof fn lemma_newest_first_is(list: Seq<EntryView>, rows: Seq<EntryView>, class: RowClass)
    requires
        is_newest_first(list, rows, class),
    ensures
        newest_first(rows, class) == list,
{
    lemma_newest_first_unique(list, newest_first(rows, class), rows, class);
}

/// Taking out the row at an index is filtering out its id.
pub proof fn lemma_remove_is_filter(rows: Seq<EntryView>, i: int)
    requires
        ids_ascend(rows),
        0 <= i < rows.len(),
    ensures
        rows.remove(i) == rows.filter(|row: EntryView| row.id != rows[i].id),
    decreases rows.len(),
{
    let id = rows[i].id;
    let p = |row: EntryView| row.id != id;
    assert(rows.filter(|row: EntryView| row.id != rows[i].id) == rows.filter(p)) by {
        lemma_filter_same(rows, |row: EntryView| row.id != rows[i].id, p);
    }
    reveal(Seq::filter);
    let init = rows.drop_last();
    if i == rows.len() - 1 {
        assert forall|j: int| 0 <= j < init.len() implies p(#[trigger] init[j]) by {
            assert(rows[j].id < rows[i].id);
        }
        lemma_filter_all(init, p);
        assert(rows.remove(i) =~= init);
    } else {
        lemma_remove_is_filter(init, i);
        lemma_filter_same(init, |row: EntryView| row.id != init[i].id, p);
        assert(rows[i].id < rows[rows.len() - 1].id);
        assert(rows.remove(i) =~= init.remove(i).push(rows.last()));
    }
}

/// Changing the row with an id is updating one index.
pub proof fn lemma_changed_is_update(
    store: StoreView,
    i: int,
    f: spec_fn(EntryView) -> EntryView,
)
    requires
        store.wf(),
        0 <= i < store.rows.len(),
    ensures
        store.changed(store.rows[i].id, f).rows == store.rows.update(i, f(store.rows[i])),
        store.changed(store.rows[i].id, f).last_id == store.last_id,
        f(store.rows[i]).id == store.rows[i].id ==> store.changed(store.rows[i].id, f).wf(),
        f(store.rows[i]).id == store.rows[i].id ==> change_applied(
            store,
            ChangeView::Update(f(store.rows[i])),
        ) == store.changed(store.rows[i].id, f),
{
    let id = store.rows[i].id;
    let after = store.changed(id, f);
    assert forall|j: int| 0 <= j < store.rows.len() && j != i implies store.rows[j].id != id by {
        if j < i {
            assert(store.rows[j].id < store.rows[i].id);
        } else {
            assert(store.rows[i].id < store.rows[j].id);
        }
    }
    assert(after.rows =~= store.rows.update(i, f(store.rows[i])));
    assert(change_applied(store, ChangeView::Update(f(store.rows[i]))) =~= after || f(
        store.rows[i],
    ).id != id);
}

/// Changing a row that does not exist changes nothing.
pub proof fn lemma_changed_noop(store: StoreView, id: i64, f: spec_fn(EntryView) -> EntryView)
    requires
        forall|j: int| 0 <= j < store.rows.len() ==> (#[trigger] store.rows[j]).id != id || f(
            store.rows[j],
        ) == store.rows[j],
    ensures
        store.changed(id, f) == store,
{
    assert(store.changed(id, f).rows =~= store.rows);
}

/// When a class is within its limit, trimming it changes nothing.
pub proof fn lemma_trim_noop(rows: Seq<EntryView>, class: RowClass, limit: nat)
    requires
        select(rows, class).len() <= limit,
    ensures
        rows.filter(survivors(rows, class, limit)) == rows,
{
    let p = survivors(rows, class, limit);
    assert forall|i: int| 0 <= i < rows.len() implies p(#[trigger] rows[i]) by {
        if class.has(rows[i]) {
            lemma_filter_len_monotone(rows, newer_members(class, rows[i]), class.members());
            assert(class.members()(rows[i]) && !newer_members(class, rows[i])(rows[i]));
        }
    }
    lemma_filter_all(rows, p);
}

/// Applying two batches of changes one after the other is applying them together.
pub proof fn lemma_changes_concat(store: StoreView, a: Seq<ChangeView>, b: Seq<ChangeView>)
    ensures
        changes_applied(store, a + b) == changes_applied(changes_applied(store, a), b),
    decreases b.len(),
{
    if b.len() == 0 {
        assert(a + b =~= a);
    } else {
        assert((a + b).drop_last() =~= a + b.drop_last());
        lemma_changes_concat(store, a, b.drop_last());
    }
}

/// Applying one change.
pub proof fn lemma_changes_one(store: StoreView, change: ChangeView)
    ensures
        changes_applied(store, seq![change]) == change_applied(store, change),
{
    assert(seq![change].drop_last() =~= Seq::<ChangeView>::empty());
    reveal_with_fuel(changes_applied, 2);
}

/// Filtering the rows from an index on.
pub proof fn lemma_filter_suffix(rows: Seq<EntryView>, p: spec_fn(EntryView) -> bool, i: int)
    requires
        0 < i <= rows.len(),
    ensures
        rows.skip(i - 1).filter(p) == if p(rows[i - 1]) {
            seq![rows[i - 1]] + rows.skip(i).filter(p)
        } else {
            rows.skip(i).filter(p)
        },
{
    assert(rows.skip(i - 1) =~= seq![rows[i - 1]] + rows.skip(i));
    rows.skip(i).lemma_filter_prepend(rows[i - 1], p);
    assert(Seq::<EntryView>::empty() + rows.skip(i).filter(p) =~= rows.skip(i).filter(p));
}

/// Putting the next row before the first older one keeps a listing sorted and
/// complete.
pub proof fn lemma_listing_step(
    store: StoreView,
    list: Seq<EntryView>,
    i: int,
    class: RowClass,
    at: int,
)
    requires
        store.wf(),
        0 <= i < store.rows.len(),
        class.has(store.rows[i]),
        is_newest_first(list, store.rows.take(i), class),
        0 <= at <= list.len(),
        forall|j: int| 0 <= j < at ==> !newer(store.rows[i], #[trigger] list[j]),
        at < list.len() ==> newer(store.rows[i], list[at]),
    ensures
        is_newest_first(
            list.insert(at, store.rows[i]),
            store.rows.take(i + 1),
            class,
        ),
{
    let row = store.rows[i];
    let longer = list.insert(at, row);
    let prefix = store.rows.take(i);
    assert forall|j: int| 0 <= j < at implies newer(
        #[trigger] list[j],
        row,
    ) by {
        assert(list.contains(list[j]));
        assert(prefix.contains(list[j]));
        let k = choose|k: int| 0 <= k < prefix.len() && prefix[k] == list[j];
        assert(store.rows[k].id < store.rows[i].id);
    }
    assert forall|a: int, b: int| 0 <= a < b < longer.len() implies newer(
        longer[a],
        longer[b],
    ) by {
        if a < at && b == at {
            assert(longer[a] == list[a]);
        } else if a < at && b > at {
            assert(longer[a] == list[a] && longer[b] == list[b - 1]);
        } else if a < at {
            assert(longer[a] == list[a] && longer[b] == list[b]);
        } else if a == at {
            assert(longer[b] == list[b - 1]);
            if b - 1 > at {
                assert(newer(list[at], list[b - 1]));
            }
        } else {
            assert(longer[a] == list[a - 1] && longer[b] == list[b - 1]);
        }
    }
    assert forall|r: EntryView| #![trigger longer.contains(r)] longer.contains(
        r,
    ) <==> store.rows.take(i + 1).contains(r) && class.has(r) by {
        let next = store.rows.take(i + 1);
        if longer.contains(r) {
            let j = choose|j: int| 0 <= j < longer.len() && longer[j] == r;
            if j == at {
                assert(next[i] == r);
            } else {
                let k = if j < at {
                    j
                } else {
                    j - 1
                };
                assert(list[k] == r);
                assert(list.contains(r));
                let m = choose|m: int| 0 <= m < prefix.len() && prefix[m] == r;
                assert(next[m] == r);
            }
        }
        if next.contains(r) && class.has(r) {
            let m = choose|m: int| 0 <= m < next.len() && next[m] == r;
            if m == i {
                assert(longer[at] == r);
            } else {
                assert(prefix[m] == r);
                assert(prefix.contains(r));
                assert(list.contains(r));
                let k = choose|k: int| 0 <= k < list.len() && list[k] == r;
                if k < at {
                    assert(longer[k] == r);
                } else {
                    assert(longer[k + 1] == r);
                }
            }
        }
    }
}

/// A row outside the class leaves the listing as it is.
pub proof fn lemma_listing_skip(
    store: StoreView,
    list: Seq<EntryView>,
    i: int,
    class: RowClass,
)
    requires
        0 <= i < store.rows.len(),
        !class.has(store.rows[i]),
        is_newest_first(list, store.rows.take(i), class),
    ensures
        is_newest_first(list, store.rows.take(i + 1), class),
{
    let prefix = store.rows.take(i);
    let next = store.rows.take(i + 1);
    assert forall|r: EntryView| #![trigger list.contains(r)] list.contains(r)
        <==> next.contains(r) && class.has(r) by {
        if prefix.contains(r) {
            let m = choose|m: int| 0 <= m < prefix.len() && prefix[m] == r;
            assert(next[m] == r);
        }
        if next.contains(r) && class.has(r) {
            let m = choose|m: int| 0 <= m < next.len() && next[m] == r;
            assert(prefix[m] == r);
        }
    }
}

/// The rows up to an index can be listed newest first.
pub proof fn lemma_listing(store: StoreView, i: int, class: RowClass) -> (list: Seq<EntryView>)
    requires
        store.wf(),
        0 <= i <= store.rows.len(),
    ensures
        is_newest_first(list, store.rows.take(i), class),
    decreases i,
{
    if i == 0 {
        Seq::empty()
    } else {
        let before = lemma_listing(store, i - 1, class);
        let row = store.rows[i - 1];
        if class.has(row) {
            let p = |other: EntryView| newer(row, other);
            let at = first_index(before, p);
            lemma_first_index(before, p);
            assert forall|j: int| 0 <= j < at implies !newer(row, #[trigger] before[j]) by {
                assert(!p(before[j]));
            }
            lemma_listing_step(store, before, i - 1, class, at);
            before.insert(at, row)
        } else {
            lemma_listing_skip(store, before, i - 1, class);
            before
        }
    }
}

} // verus!
