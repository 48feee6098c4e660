//! The clipboard and quick-send store.
//!
//! - Clipboard entries are kept once per text: capturing a text again refreshes
//!   its timestamp. At most [`MAX_CLIPBOARD_ITEMS`] entries that are not pinned
//!   are kept; the oldest go first.
//! - Quick-send entries are pinned from the start and kept once per text as
//!   well, at most [`MAX_QUICK_SEND_ITEMS`] of them.
//! - Capturing a text never drops a pinned entry.
//!
//! A [`ClipboardStore`] holds the rows of the table. Each operation that changes
//! it also says which stored rows have to change, so that a caller can carry the
//! same changes out on disk.

use vstd::prelude::*;
use vstd::string::*;

use crate::table::{RowClass, MAX_CLIPBOARD_ITEMS, MAX_QUICK_SEND_ITEMS};
use crate::text::str_eq;

verus! {

/// A clipboard or quick-send entry.
#[derive(Debug, Clone, PartialEq, Eq)]
pub struct ClipboardEntry {
    pub id: i64,
    pub text: String,
    /// Code that triggers a quick-send entry; empty for clipboard entries.
    pub code: String,
    /// Unix time in milliseconds.
    pub timestamp: i64,
    /// Pinned entries are not dropped when a text is captured.
    pub is_pinned: bool,
    /// Whether this is a quick-send entry rather than a clipboard entry.
    pub is_quick_send: bool,
    /// Whether the entry was already sent to an application.
    pub consumed: bool,
}

impl View for ClipboardEntry {
    type V = crate::table::EntryView;

    open spec fn view(&self) -> crate::table::EntryView {
        crate::table::EntryView {
            id: self.id,
            text: self.text@,
            code: self.code@,
            timestamp: self.timestamp,
            is_pinned: self.is_pinned,
            is_quick_send: self.is_quick_send,
            consumed: self.consumed,
        }
    }
}

impl ClipboardEntry {
    /// Whether this is a quick-send entry.
    pub fn is_quick_send(&self) -> (quick: bool)
        ensures
            quick == self@.is_quick_send,
    {
        self.is_quick_send
    }

    /// An equal entry.
    pub fn duplicate(&self) -> (entry: ClipboardEntry)
        ensures
            entry@ == self@,
    {
        ClipboardEntry {
            id: self.id,
            text: self.text.clone(),
            code: self.code.clone(),
            timestamp: self.timestamp,
            is_pinned: self.is_pinned,
            is_quick_send: self.is_quick_send,
            consumed: self.consumed,
        }
    }

    fn belongs_to(&self, class: RowClass) -> (belongs: bool)
        ensures
            belongs == class.has(self@),
    {
        match class {
            RowClass::All => true,
            RowClass::Clipboard => !self.is_quick_send,
            RowClass::QuickSend => self.is_quick_send,
            RowClass::Unpinned => !self.is_pinned,
        }
    }

    fn is_newer(&self, other: &ClipboardEntry) -> (is_newer: bool)
        ensures
            is_newer == crate::table::newer(self@, other@),
    {
        self.timestamp > other.timestamp || (self.timestamp == other.timestamp && self.id
            > other.id)
    }
}

/// The rows that a sequence of entries stands for.
pub open spec fn entry_views(entries: Seq<ClipboardEntry>) -> Seq<crate::table::EntryView> {
    Seq::new(entries.len(), |i: int| entries[i]@)
}

/// A change to carry out on the stored rows.
#[derive(Debug, Clone, PartialEq, Eq)]
pub enum RowChange {
    /// Add this row.
    Insert(ClipboardEntry),
    /// Replace the row that has this row's id.
    Update(ClipboardEntry),
    /// Remove the row with this id.
    Delete(i64),
}

impl View for RowChange {
    type V = crate::table::ChangeView;

    open spec fn view(&self) -> crate::table::ChangeView {
        match self {
            RowChange::Insert(entry) => crate::table::ChangeView::Insert(entry@),
            RowChange::Update(entry) => crate::table::ChangeView::Update(entry@),
            RowChange::Delete(id) => crate::table::ChangeView::Delete(*id),
        }
    }
}

/// The changes that a sequence of row changes stands for.
pub open spec fn change_views(changes: Seq<RowChange>) -> Seq<crate::table::ChangeView> {
    Seq::new(changes.len(), |i: int| changes[i]@)
}

/// Why an operation on the store fails.
#[derive(Debug, Clone, Copy, PartialEq, Eq, Structural)]
pub enum StoreError {
    /// The highest possible id was given out, so no row can be added.
    IdsExhausted,
}

/// The clipboard and quick-send entries.
#[derive(Debug)]
pub struct ClipboardStore {
    entries: Vec<ClipboardEntry>,
    last_id: i64,
}

impl View for ClipboardStore {
    type V = crate::table::StoreView;

    closed spec fn view(&self) -> crate::table::StoreView {
        crate::table::StoreView { rows: entry_views(self.entries@), last_id: self.last_id }
    }
}

impl ClipboardStore {
    /// A store without entries.
    pub fn new() -> (store: ClipboardStore)
        ensures
            store@.wf(),
            store@.rows == Seq::<crate::table::EntryView>::empty(),
            store@.last_id == 0,
    {
        let store = ClipboardStore { entries: Vec::new(), last_id: 0 };
        assert(store@.rows =~= Seq::<crate::table::EntryView>::empty());
        store
    }

    /// The store that holds these rows, whose table has given out ids up to
    /// `sequence`. The rows must come in the order of their ids; else there is no
    /// such store.
    pub fn open(rows: Vec<ClipboardEntry>, sequence: i64) -> (store: Option<ClipboardStore>)
        ensures
            store is Some <==> crate::table::ids_ascend(entry_views(rows@)),
            store matches Some(s) ==> {
                &&& s@.wf()
                &&& s@.rows == entry_views(rows@)
                &&& s@.last_id == vstd::math::max(
                    0,
                    vstd::math::max(
                        sequence as int,
                        if rows@.len() > 0 {
                            rows@.last().id as int
                        } else {
                            0
                        },
                    ),
                )
            },
    {
        let ghost views = entry_views(rows@);
        let n: usize = rows.len();
        let mut i: usize = 1;
        while i < n
            invariant
                1 <= i,
                i <= n || n == 0,
                n == rows@.len(),
                views == entry_views(rows@),
                forall|a: int, b: int| 0 <= a < b < i && b < n ==> views[a].id < views[b].id,
            decreases n - i,
        {
            if rows[i - 1].id >= rows[i].id {
                assert(views[i - 1].id >= views[i as int].id);
                return None;
            }
            assert(views[i - 1].id < views[i as int].id);
            i = i + 1;
        }
        let mut last_id: i64 = if sequence < 0 {
            0
        } else {
            sequence
        };
        if n > 0 && rows[n - 1].id > last_id {
            last_id = rows[n - 1].id;
        }
        let store = ClipboardStore { entries: rows, last_id };
        assert forall|j: int| 0 <= j < store@.rows.len() implies (#[trigger] store@.rows[j]).id
            <= store@.last_id by {
            if j < n - 1 {
                assert(views[j].id < views[n - 1].id);
            }
        }
        Some(store)
    }

    /// Index of the first row that holds a text.
    fn find_by_text(&self, text: &str, is_quick_send: bool) -> (found: Option<usize>)
        ensures
            found is Some <==> self@.find(text@, is_quick_send) is Some,
            found matches Some(i) ==> i < self@.rows.len() && self@.find(text@, is_quick_send)
                == Some(self@.rows[i as int].id) && self@.rows[i as int].text == text@
                && self@.rows[i as int].is_quick_send == is_quick_send,
    {
        let ghost p = crate::table::holds_text(text@, is_quick_send);
        let n: usize = self.entries.len();
        for i in 0..n
            invariant
                n == self.entries@.len(),
                p == crate::table::holds_text(text@, is_quick_send),
                forall|j: int| 0 <= j < i ==> !p(#[trigger] self@.rows[j]),
        {
            if self.entries[i].is_quick_send == is_quick_send && str_eq(
                self.entries[i].text.as_str(),
                text,
            ) {
                proof {
                    assert(p(self@.rows[i as int]));
                    crate::table::lemma_first_index_is(self@.rows, p, i as int);
                }
                return Some(i);
            }
            assert(!p(self@.rows[i as int]));
        }
        proof {
            crate::table::lemma_first_index_is(self@.rows, p, n as int);
        }
        None
    }

    /// Index of the row with an id.
    fn position(&self, id: i64) -> (found: Option<usize>)
        ensures
            found matches Some(i) ==> i < self@.rows.len() && self@.rows[i as int].id == id
                && self@.row(id) == Some(self@.rows[i as int]),
            found is None ==> self@.row(id) is None && forall|j: int|
                0 <= j < self@.rows.len() ==> (#[trigger] self@.rows[j]).id != id,
    {
        let ghost p = |row: crate::table::EntryView| row.id == id;
        let n: usize = self.entries.len();
        for i in 0..n
            invariant
                n == self.entries@.len(),
                p == (|row: crate::table::EntryView| row.id == id),
                forall|j: int| 0 <= j < i ==> !p(#[trigger] self@.rows[j]),
        {
            if self.entries[i].id == id {
                proof {
                    assert(p(self@.rows[i as int]));
                    crate::table::lemma_first_index_is(self@.rows, p, i as int);
                }
                return Some(i);
            }
            assert(!p(self@.rows[i as int]));
        }
        proof {
            crate::table::lemma_first_index_is(self@.rows, p, n as int);
            assert forall|j: int| 0 <= j < self@.rows.len() implies (#[trigger] self@.rows[j]).id
                != id by {
                assert(!p(self@.rows[j]));
            }
        }
        None
    }

    /// Sets the timestamp of the row at an index.
    fn touch_at(&mut self, i: usize, now: i64) -> (change: RowChange)
        requires
            old(self)@.wf(),
            i < old(self)@.rows.len(),
        ensures
            final(self)@ == old(self)@.touched(old(self)@.rows[i as int].id, now),
            final(self)@.wf(),
            crate::table::change_applied(old(self)@, change@) == final(self)@,
    {
        proof {
            crate::table::lemma_changed_is_update(
                self@,
                i as int,
                |row: crate::table::EntryView| crate::table::EntryView { timestamp: now, ..row },
            );
        }
        self.entries[i].timestamp = now;
        let change = RowChange::Update(self.entries[i].duplicate());
        assert(self@.rows =~= old(self)@.touched(old(self)@.rows[i as int].id, now).rows);
        change
    }

    /// Adds a row under the next id.
    fn insert_row(&mut self, text: &str, code: &str, now: i64, is_quick_send: bool) -> (change:
        RowChange)
        requires
            old(self)@.wf(),
            old(self)@.has_room(),
        ensures
            final(self)@ == old(self)@.inserted(text@, code@, now, is_quick_send),
            final(self)@.wf(),
            crate::table::change_applied(old(self)@, change@) == final(self)@,
    {
        let entry = ClipboardEntry {
            id: self.last_id + 1,
            text: text.to_string(),
            code: code.to_string(),
            timestamp: now,
            is_pinned: is_quick_send,
            is_quick_send,
            consumed: false,
        };
        let change = RowChange::Insert(entry.duplicate());
        self.last_id = self.last_id + 1;
        self.entries.push(entry);
        assert(self@.rows =~= old(self)@.inserted(text@, code@, now, is_quick_send).rows);
        change
    }

    /// How many rows belong to a class.
    fn count(&self, class: RowClass) -> (count: usize)
        ensures
            count == crate::table::select(self@.rows, class).len(),
    {
        let ghost p = class.members();
        let n: usize = self.entries.len();
        let mut count: usize = 0;
        for i in 0..n
            invariant
                n == self.entries@.len(),
                p == class.members(),
                count <= i,
                count == self@.rows.take(i as int).filter(p).len(),
        {
            proof {
                assert(self@.rows.take(i + 1) =~= self@.rows.take(i as int).push(
                    self@.rows[i as int],
                ));
                self@.rows.take(i as int).lemma_filter_len_push(p, self@.rows[i as int]);
            }
            if self.entries[i].belongs_to(class) {
                count = count + 1;
            }
        }
        assert(self@.rows.take(n as int) =~= self@.rows);
        count
    }

    /// How many rows of a class are newer than the row at an index.
    fn count_newer(&self, class: RowClass, than: usize) -> (count: usize)
        requires
            than < self@.rows.len(),
        ensures
            count == crate::table::newer_count(self@.rows, class, self@.rows[than as int]),
    {
        let ghost p = crate::table::newer_members(class, self@.rows[than as int]);
        let n: usize = self.entries.len();
        let mut count: usize = 0;
        for i in 0..n
            invariant
                n == self.entries@.len(),
                than < n,
                p == crate::table::newer_members(class, self@.rows[than as int]),
                count <= i,
                count == self@.rows.take(i as int).filter(p).len(),
        {
            proof {
                assert(self@.rows.take(i + 1) =~= self@.rows.take(i as int).push(
                    self@.rows[i as int],
                ));
                self@.rows.take(i as int).lemma_filter_len_push(p, self@.rows[i as int]);
            }
            if self.entries[i].belongs_to(class) && self.entries[i].is_newer(&self.entries[than]) {
                count = count + 1;
            }
        }
        assert(self@.rows.take(n as int) =~= self@.rows);
        count
    }

    /// Drops the rows for which `keep` is false.
    fn retain(&mut self, keep: &Vec<bool>, Ghost(p): Ghost<
        spec_fn(crate::table::EntryView) -> bool,
    >) -> (changes: Vec<RowChange>)
        requires
            old(self)@.wf(),
            keep@.len() == old(self)@.rows.len(),
            forall|i: int| 0 <= i < keep@.len() ==> keep@[i] == p(#[trigger] old(self)@.rows[i]),
        ensures
            final(self)@.rows == old(self)@.rows.filter(p),
            final(self)@.last_id == old(self)@.last_id,
            final(self)@.wf(),
            crate::table::changes_applied(old(self)@, change_views(changes@))
                == final(self)@,
    {
        let ghost before = self@.rows;
        let mut changes: Vec<RowChange> = Vec::new();
        let mut i: usize = self.entries.len();
        proof {
            reveal(Seq::filter);
            assert(before.skip(i as int) =~= Seq::<crate::table::EntryView>::empty());
            assert(self@.rows =~= before.take(i as int) + before.skip(i as int).filter(p));
            assert(change_views(changes@) =~= Seq::<crate::table::ChangeView>::empty());
        }
        while i > 0
            invariant
                i <= before.len(),
                before == old(self)@.rows,
                keep@.len() == before.len(),
                forall|j: int| 0 <= j < keep@.len() ==> keep@[j] == p(#[trigger] before[j]),
                crate::table::ids_ascend(before),
                crate::table::ids_ascend(self@.rows),
                self@.rows == before.take(i as int) + before.skip(i as int).filter(p),
                self@.last_id == old(self)@.last_id,
                crate::table::changes_applied(old(self)@, change_views(changes@)) == self@,
            decreases i,
        {
            let ghost rows_now = self@.rows;
            let ghost changes_now = change_views(changes@);
            i = i - 1;
            proof {
                crate::table::lemma_filter_suffix(before, p, i + 1);
                assert(rows_now[i as int] == before[i as int]);
            }
            if !keep[i] {
                let id: i64 = self.entries[i].id;
                self.entries.remove(i);
                changes.push(RowChange::Delete(id));
                proof {
                    assert(self@.rows =~= rows_now.remove(i as int));
                    crate::table::lemma_remove_is_filter(rows_now, i as int);
                    crate::table::lemma_filter(
                        rows_now,
                        |row: crate::table::EntryView| row.id != rows_now[i as int].id,
                    );
                    assert(id == rows_now[i as int].id);
                    crate::table::lemma_filter_same(
                        rows_now,
                        |row: crate::table::EntryView| row.id != rows_now[i as int].id,
                        |row: crate::table::EntryView| row.id != id,
                    );
                    assert(change_views(changes@).drop_last() =~= changes_now);
                    assert(change_views(changes@).last() == crate::table::ChangeView::Delete(id));
                    assert(self@.rows =~= before.take(i as int) + before.skip(i as int).filter(p));
                }
            } else {
                proof {
                    assert(before.take(i + 1) =~= before.take(i as int).push(before[i as int]));
                    assert(self@.rows =~= before.take(i as int) + before.skip(i as int).filter(p));
                }
            }
        }
        proof {
            assert(before.skip(0) =~= before);
            assert(before.take(0) + before.filter(p) =~= before.filter(p));
            crate::table::lemma_filter(before, p);
            assert forall|j: int| 0 <= j < self@.rows.len() implies (#[trigger] self@.rows[j]).id
                <= self@.last_id by {
                assert(before.filter(p).contains(self@.rows[j]));
                let k = choose|k: int| 0 <= k < before.len() && before[k] == self@.rows[j];
                assert(old(self)@.rows[k].id <= old(self)@.last_id);
            }
        }
        changes
    }

    /// Cuts a class down to its `limit` newest rows.
    fn trim(&mut self, class: RowClass, limit: usize) -> (changes: Vec<RowChange>)
        requires
            old(self)@.wf(),
        ensures
            final(self)@ == old(self)@.trimmed(class, limit as nat),
            final(self)@.wf(),
            crate::table::changes_applied(old(self)@, change_views(changes@))
                == final(self)@,
    {
        if self.count(class) <= limit {
            proof {
                crate::table::lemma_trim_noop(self@.rows, class, limit as nat);
            }
            let changes: Vec<RowChange> = Vec::new();
            assert(change_views(changes@) =~= Seq::<crate::table::ChangeView>::empty());
            return changes;
        }
        let ghost p = crate::table::survivors(self@.rows, class, limit as nat);
        let n: usize = self.entries.len();
        let mut keep: Vec<bool> = Vec::new();
        for i in 0..n
            invariant
                n == self.entries@.len(),
                p == crate::table::survivors(self@.rows, class, limit as nat),
                keep@.len() == i,
                forall|j: int| 0 <= j < i ==> keep@[j] == p(#[trigger] self@.rows[j]),
        {
            let kept: bool = !self.entries[i].belongs_to(class) || self.count_newer(class, i)
                < limit;
            assert(kept == p(self@.rows[i as int]));
            keep.push(kept);
        }
        self.retain(&keep, Ghost(p))
    }

    /// The rows of a class, newest first.
    fn list(&self, class: RowClass) -> (list: Vec<ClipboardEntry>)
        requires
            self@.wf(),
        ensures
            entry_views(list@) == crate::table::newest_first(self@.rows, class),
            crate::table::is_newest_first(entry_views(list@), self@.rows, class),
    {
        let n: usize = self.entries.len();
        let mut list: Vec<ClipboardEntry> = Vec::new();
        proof {
            assert(entry_views(list@) =~= Seq::<crate::table::EntryView>::empty());
        }
        for i in 0..n
            invariant
                n == self.entries@.len(),
                self@.wf(),
                list@.len() <= i,
                crate::table::is_newest_first(
                    entry_views(list@),
                    self@.rows.take(i as int),
                    class,
                ),
        {
            let ghost before = entry_views(list@);
            let ghost row = self@.rows[i as int];
            if self.entries[i].belongs_to(class) {
                let mut at: usize = 0;
                while at < list.len() && !self.entries[i].is_newer(&list[at])
                    invariant
                        i < n,
                        n == self.entries@.len(),
                        row == self@.rows[i as int],
                        before == entry_views(list@),
                        at <= list@.len(),
                        forall|j: int| 0 <= j < at ==> !crate::table::newer(row, #[trigger] before[j]),
                    decreases list@.len() - at,
                {
                    at = at + 1;
                }
                list.insert(at, self.entries[i].duplicate());
                proof {
                    assert(entry_views(list@) =~= before.insert(at as int, row));
                    crate::table::lemma_listing_step(self@, before, i as int, class, at as int);
                }
            } else {
                proof {
                    crate::table::lemma_listing_skip(self@, before, i as int, class);
                }
            }
        }
        proof {
            assert(self@.rows.take(n as int) =~= self@.rows);
            crate::table::lemma_newest_first_is(entry_views(list@), self@.rows, class);
        }
        list
    }

    /// Clipboard entries, newest first, at most `limit` of them; a negative limit
    /// means all.
    pub fn list_clipboard(&self, limit: i64) -> (list: Vec<ClipboardEntry>)
        requires
            self@.wf(),
        ensures
            crate::table::is_newest_first(
                crate::table::newest_first(self@.rows, RowClass::Clipboard),
                self@.rows,
                RowClass::Clipboard,
            ),
            entry_views(list@) == crate::table::limited(
                crate::table::newest_first(self@.rows, RowClass::Clipboard),
                limit as int,
            ),
    {
        let mut list = self.list(RowClass::Clipboard);
        let ghost all = entry_views(list@);
        if limit >= 0 && (limit as u64) < list.len() as u64 {
            list.truncate(limit as usize);
            assert(entry_views(list@) =~= all.take(limit as int));
        }
        list
    }

    /// Quick-send entries, newest first.
    pub fn list_quick_send(&self) -> (list: Vec<ClipboardEntry>)
        requires
            self@.wf(),
        ensures
            entry_views(list@) == crate::table::newest_first(self@.rows, RowClass::QuickSend),
            crate::table::is_newest_first(entry_views(list@), self@.rows, RowClass::QuickSend),
    {
        self.list(RowClass::QuickSend)
    }

    /// The entry with an id.
    pub fn find_by_id(&self, id: i64) -> (found: Option<ClipboardEntry>)
        ensures
            found is Some <==> self@.row(id) is Some,
            found matches Some(entry) ==> self@.row(id) == Some(entry@),
    {
        match self.position(id) {
            Some(i) => Some(self.entries[i].duplicate()),
            None => None,
        }
    }

    /// Captures a clipboard text: refreshes the entry that holds it, or adds an
    /// entry and trims the entries that are not pinned.
    pub fn upsert_and_trim(&mut self, text: &str, now: i64) -> (result: Result<
        Vec<RowChange>,
        StoreError,
    >)
        requires
            old(self)@.wf(),
        ensures
            final(self)@.wf(),
            result is Ok <==> old(self)@.find(text@, false) is Some || old(self)@.has_room(),
            match result {
                Ok(changes) => {
                    &&& final(self)@ == old(self)@.upserted(text@, now)
                    &&& crate::table::changes_applied(old(self)@, change_views(changes@))
                        == final(self)@
                },
                Err(error) => error is IdsExhausted && final(self)@ == old(self)@,
            },
    {
        match self.find_by_text(text, false) {
            Some(i) => Ok(self.touch_changes(i, now)),
            None => {
                if self.last_id == i64::MAX {
                    return Err(StoreError::IdsExhausted);
                }
                proof {
                    reveal_strlit("");
                    assert(""@ =~= Seq::<char>::empty());
                }
                Ok(
                    self.insert_and_trim(
                        text,
                        "",
                        now,
                        false,
                        RowClass::Unpinned,
                        MAX_CLIPBOARD_ITEMS as usize,
                    ),
                )
            },
        }
    }

    /// Sets the timestamp of the row at an index, as a batch of one change.
    fn touch_changes(&mut self, i: usize, now: i64) -> (changes: Vec<RowChange>)
        requires
            old(self)@.wf(),
            i < old(self)@.rows.len(),
        ensures
            final(self)@ == old(self)@.touched(old(self)@.rows[i as int].id, now),
            final(self)@.wf(),
            crate::table::changes_applied(old(self)@, change_views(changes@))
                == final(self)@,
    {
        let change = self.touch_at(i, now);
        Self::batch_of_one(change, Ghost(old(self)@))
    }

    /// A batch of one change.
    fn batch_of_one(change: RowChange, Ghost(store): Ghost<crate::table::StoreView>) -> (changes:
        Vec<RowChange>)
        ensures
            crate::table::changes_applied(store, change_views(changes@))
                == crate::table::change_applied(store, change@),
    {
        let mut changes: Vec<RowChange> = Vec::new();
        changes.push(change);
        proof {
            assert(change_views(changes@) =~= seq![change@]);
            crate::table::lemma_changes_one(store, change@);
        }
        changes
    }

    /// An empty batch of changes.
    fn empty_batch(Ghost(store): Ghost<crate::table::StoreView>) -> (changes: Vec<RowChange>)
        ensures
            changes@.len() == 0,
            crate::table::changes_applied(store, change_views(changes@)) == store,
    {
        let changes: Vec<RowChange> = Vec::new();
        assert(change_views(changes@) =~= Seq::<crate::table::ChangeView>::empty());
        changes
    }

    /// Adds a row and cuts a class down to its newest rows.
    fn insert_and_trim(
        &mut self,
        text: &str,
        code: &str,
        now: i64,
        is_quick_send: bool,
        class: RowClass,
        limit: usize,
    ) -> (changes: Vec<RowChange>)
        requires
            old(self)@.wf(),
            old(self)@.has_room(),
        ensures
            final(self)@.wf(),
            final(self)@ == old(self)@.inserted(text@, code@, now, is_quick_send).trimmed(
                class,
                limit as nat,
            ),
            crate::table::changes_applied(old(self)@, change_views(changes@))
                == final(self)@,
    {
        let ghost before = self@;
        let change = self.insert_row(text, code, now, is_quick_send);
        let mut changes = Self::batch_of_one(change, Ghost(before));
        let mut dropped = self.trim(class, limit);
        let ghost first = change_views(changes@);
        let ghost second = change_views(dropped@);
        changes.append(&mut dropped);
        proof {
            assert(change_views(changes@) =~= first + second);
            crate::table::lemma_changes_concat(before, first, second);
        }
        changes
    }

    /// Copies a clipboard entry to quick send, pinned; an entry that holds the
    /// text already is refreshed. Without such a clipboard entry nothing happens.
    pub fn add_to_quick_send(&mut self, source_id: i64, now: i64) -> (result: Result<
        Vec<RowChange>,
        StoreError,
    >)
        requires
            old(self)@.wf(),
        ensures
            final(self)@.wf(),
            result is Err <==> (old(self)@.clipboard_text(source_id) matches Some(text)
                && old(self)@.find(text, true) is None && !old(self)@.has_room()),
            match result {
                Ok(changes) => {
                    &&& final(self)@ == old(self)@.quick_send_added(source_id, now)
                    &&& crate::table::changes_applied(old(self)@, change_views(changes@))
                        == final(self)@
                },
                Err(error) => error is IdsExhausted && final(self)@ == old(self)@,
            },
    {
        let source: usize = match self.position(source_id) {
            Some(i) => i,
            None => {
                return Ok(Self::empty_batch(Ghost(self@)));
            },
        };
        if self.entries[source].is_quick_send {
            return Ok(Self::empty_batch(Ghost(self@)));
        }
        let text: String = self.entries[source].text.clone();
        match self.find_by_text(text.as_str(), true) {
            Some(i) => Ok(self.touch_changes(i, now)),
            None => {
                if self.last_id == i64::MAX {
                    return Err(StoreError::IdsExhausted);
                }
                proof {
                    reveal_strlit("");
                    assert(""@ =~= Seq::<char>::empty());
                }
                Ok(
                    self.insert_and_trim(
                        text.as_str(),
                        "",
                        now,
                        true,
                        RowClass::QuickSend,
                        MAX_QUICK_SEND_ITEMS as usize,
                    ),
                )
            },
        }
    }

    /// Enters a quick-send text with its code; an entry that holds the text
    /// already gets the code and a new timestamp.
    pub fn insert_quick_send(&mut self, text: &str, code: &str, now: i64) -> (result: Result<
        Vec<RowChange>,
        StoreError,
    >)
        requires
            old(self)@.wf(),
        ensures
            final(self)@.wf(),
            result is Ok <==> old(self)@.find(text@, true) is Some || old(self)@.has_room(),
            match result {
                Ok(changes) => {
                    &&& final(self)@ == old(self)@.quick_send_inserted(text@, code@, now)
                    &&& crate::table::changes_applied(old(self)@, change_views(changes@))
                        == final(self)@
                },
                Err(error) => error is IdsExhausted && final(self)@ == old(self)@,
            },
    {
        match self.find_by_text(text, true) {
            Some(i) => Ok(self.rewrite_at(i, text, code, now)),
            None => {
                if self.last_id == i64::MAX {
                    return Err(StoreError::IdsExhausted);
                }
                Ok(
                    self.insert_and_trim(
                        text,
                        code,
                        now,
                        true,
                        RowClass::QuickSend,
                        MAX_QUICK_SEND_ITEMS as usize,
                    ),
                )
            },
        }
    }

    /// Sets text, code and timestamp of the row at an index.
    fn rewrite_at(&mut self, i: usize, text: &str, code: &str, now: i64) -> (changes: Vec<RowChange>)
        requires
            old(self)@.wf(),
            i < old(self)@.rows.len(),
        ensures
            final(self)@ == old(self)@.rewritten(old(self)@.rows[i as int].id, text@, code@, now),
            final(self)@.wf(),
            crate::table::changes_applied(old(self)@, change_views(changes@))
                == final(self)@,
    {
        let ghost before = self@;
        proof {
            crate::table::lemma_changed_is_update(
                before,
                i as int,
                |row: crate::table::EntryView|
                    crate::table::EntryView { text: text@, code: code@, timestamp: now, ..row },
            );
        }
        self.entries[i].text = text.to_string();
        self.entries[i].code = code.to_string();
        self.entries[i].timestamp = now;
        let change = RowChange::Update(self.entries[i].duplicate());
        assert(self@.rows =~= before.rewritten(before.rows[i as int].id, text@, code@, now).rows);
        Self::batch_of_one(change, Ghost(before))
    }

    /// Edits text and code of a quick-send entry.
    pub fn update_quick_send_item(&mut self, id: i64, text: &str, code: &str, now: i64) -> (changes:
        Vec<RowChange>)
        requires
            old(self)@.wf(),
        ensures
            final(self)@.wf(),
            final(self)@ == old(self)@.quick_send_edited(id, text@, code@, now),
            crate::table::changes_applied(old(self)@, change_views(changes@))
                == final(self)@,
    {
        let ghost before = self@;
        let ghost f = |row: crate::table::EntryView|
            if row.is_quick_send {
                crate::table::EntryView { text: text@, code: code@, timestamp: now, ..row }
            } else {
                row
            };
        match self.position(id) {
            Some(i) => {
                proof {
                    crate::table::lemma_changed_is_update(before, i as int, f);
                }
                if self.entries[i].is_quick_send {
                    proof {
                        crate::table::lemma_changed_is_update(
                            before,
                            i as int,
                            |row: crate::table::EntryView|
                                crate::table::EntryView {
                                    text: text@,
                                    code: code@,
                                    timestamp: now,
                                    ..row
                                },
                        );
                    }
                    self.rewrite_at(i, text, code, now)
                } else {
                    assert(before.rows.update(i as int, before.rows[i as int]) =~= before.rows);
                    Self::empty_batch(Ghost(before))
                }
            },
            None => {
                proof {
                    crate::table::lemma_changed_noop(before, id, f);
                }
                Self::empty_batch(Ghost(before))
            },
        }
    }

    /// Refreshes the timestamp of an entry, which moves it up in the listings.
    pub fn update_timestamp(&mut self, id: i64, now: i64) -> (changes: Vec<RowChange>)
        requires
            old(self)@.wf(),
        ensures
            final(self)@.wf(),
            final(self)@ == old(self)@.touched(id, now),
            crate::table::changes_applied(old(self)@, change_views(changes@))
                == final(self)@,
    {
        match self.position(id) {
            Some(i) => self.touch_changes(i, now),
            None => {
                proof {
                    crate::table::lemma_changed_noop(
                        self@,
                        id,
                        |row: crate::table::EntryView|
                            crate::table::EntryView { timestamp: now, ..row },
                    );
                }
                Self::empty_batch(Ghost(self@))
            },
        }
    }

    /// Marks an entry as consumed.
    pub fn mark_consumed(&mut self, id: i64) -> (changes: Vec<RowChange>)
        requires
            old(self)@.wf(),
        ensures
            final(self)@.wf(),
            final(self)@ == old(self)@.consumed_marked(id),
            crate::table::changes_applied(old(self)@, change_views(changes@))
                == final(self)@,
    {
        let ghost before = self@;
        let ghost f = |row: crate::table::EntryView|
            crate::table::EntryView { consumed: true, ..row };
        match self.position(id) {
            Some(i) => {
                proof {
                    crate::table::lemma_changed_is_update(before, i as int, f);
                }
                self.entries[i].consumed = true;
                let change = RowChange::Update(self.entries[i].duplicate());
                assert(self@.rows =~= before.consumed_marked(id).rows);
                Self::batch_of_one(change, Ghost(before))
            },
            None => {
                proof {
                    crate::table::lemma_changed_noop(before, id, f);
                }
                Self::empty_batch(Ghost(before))
            },
        }
    }

    /// Drops the row with an id if it belongs to a class.
    fn delete(&mut self, class: RowClass, id: i64) -> (changes: Vec<RowChange>)
        requires
            old(self)@.wf(),
        ensures
            final(self)@.wf(),
            final(self)@ == old(self)@.deleted(class, id),
            crate::table::changes_applied(old(self)@, change_views(changes@))
                == final(self)@,
    {
        let ghost before = self@;
        let ghost p = |row: crate::table::EntryView| !(class.has(row) && row.id == id);
        match self.position(id) {
            Some(i) => {
                if self.entries[i].belongs_to(class) {
                    self.entries.remove(i);
                    proof {
                        assert(self@.rows =~= before.rows.remove(i as int));
                        crate::table::lemma_remove_is_filter(before.rows, i as int);
                        assert forall|j: int| 0 <= j < before.rows.len() implies p(
                            #[trigger] before.rows[j],
                        ) == (before.rows[j].id != before.rows[i as int].id) by {
                            if before.rows[j].id == id && j != i {
                                if j < i {
                                    assert(before.rows[j].id < before.rows[i as int].id);
                                } else {
                                    assert(before.rows[i as int].id < before.rows[j].id);
                                }
                            }
                        }
                        crate::table::lemma_filter_same(
                            before.rows,
                            p,
                            |row: crate::table::EntryView| row.id != before.rows[i as int].id,
                        );
                        crate::table::lemma_filter_same(
                            before.rows,
                            p,
                            |row: crate::table::EntryView| row.id != id,
                        );
                    }
                    Self::batch_of_one(RowChange::Delete(id), Ghost(before))
                } else {
                    proof {
                        assert forall|j: int| 0 <= j < before.rows.len() implies p(
                            #[trigger] before.rows[j],
                        ) by {
                            if before.rows[j].id == id && j != i {
                                if j < i {
                                    assert(before.rows[j].id < before.rows[i as int].id);
                                } else {
                                    assert(before.rows[i as int].id < before.rows[j].id);
                                }
                            }
                        }
                        crate::table::lemma_filter_all(before.rows, p);
                    }
                    Self::empty_batch(Ghost(before))
                }
            },
            None => {
                proof {
                    crate::table::lemma_filter_all(before.rows, p);
                }
                Self::empty_batch(Ghost(before))
            },
        }
    }

    /// Deletes a clipboard entry; quick-send entries are left alone.
    pub fn delete_clipboard(&mut self, id: i64) -> (changes: Vec<RowChange>)
        requires
            old(self)@.wf(),
        ensures
            final(self)@.wf(),
            final(self)@ == old(self)@.deleted(RowClass::Clipboard, id),
            crate::table::changes_applied(old(self)@, change_views(changes@))
                == final(self)@,
    {
        self.delete(RowClass::Clipboard, id)
    }

    /// Deletes a quick-send entry; clipboard entries are left alone.
    pub fn delete_quick_send(&mut self, id: i64) -> (changes: Vec<RowChange>)
        requires
            old(self)@.wf(),
        ensures
            final(self)@.wf(),
            final(self)@ == old(self)@.deleted(RowClass::QuickSend, id),
            crate::table::changes_applied(old(self)@, change_views(changes@))
                == final(self)@,
    {
        self.delete(RowClass::QuickSend, id)
    }

    /// Drops the rows of a class.
    fn clear(&mut self, class: RowClass) -> (changes: Vec<RowChange>)
        requires
            old(self)@.wf(),
        ensures
            final(self)@.wf(),
            final(self)@ == old(self)@.cleared(class),
            crate::table::changes_applied(old(self)@, change_views(changes@))
                == final(self)@,
    {
        let ghost p = |row: crate::table::EntryView| !class.has(row);
        let n: usize = self.entries.len();
        let mut keep: Vec<bool> = Vec::new();
        for i in 0..n
            invariant
                n == self.entries@.len(),
                p == (|row: crate::table::EntryView| !class.has(row)),
                keep@.len() == i,
                forall|j: int| 0 <= j < i ==> keep@[j] == p(#[trigger] self@.rows[j]),
        {
            let kept: bool = !self.entries[i].belongs_to(class);
            assert(kept == p(self@.rows[i as int]));
            keep.push(kept);
        }
        self.retain(&keep, Ghost(p))
    }

    /// Deletes all clipboard entries; quick-send entries stay.
    pub fn clear_clipboard(&mut self) -> (changes: Vec<RowChange>)
        requires
            old(self)@.wf(),
        ensures
            final(self)@.wf(),
            final(self)@ == old(self)@.cleared(RowClass::Clipboard),
            crate::table::changes_applied(old(self)@, change_views(changes@))
                == final(self)@,
    {
        self.clear(RowClass::Clipboard)
    }

    /// Deletes all quick-send entries; clipboard entries stay.
    pub fn clear_quick_send(&mut self) -> (changes: Vec<RowChange>)
        requires
            old(self)@.wf(),
        ensures
            final(self)@.wf(),
            final(self)@ == old(self)@.cleared(RowClass::QuickSend),
            crate::table::changes_applied(old(self)@, change_views(changes@))
                == final(self)@,
    {
        self.clear(RowClass::QuickSend)
    }

    /// Deletes all entries.
    pub fn clear_all(&mut self) -> (changes: Vec<RowChange>)
        requires
            old(self)@.wf(),
        ensures
            final(self)@.wf(),
            final(self)@ == old(self)@.cleared(RowClass::All),
            crate::table::changes_applied(old(self)@, change_views(changes@))
                == final(self)@,
    {
        self.clear(RowClass::All)
    }

    /// Number of clipboard entries.
    pub fn count_clipboard(&self) -> (count: u64)
        ensures
            count == crate::table::select(self@.rows, RowClass::Clipboard).len(),
    {
        self.count(RowClass::Clipboard) as u64
    }

    /// Number of quick-send entries.
    pub fn count_quick_send(&self) -> (count: u64)
        ensures
            count == crate::table::select(self@.rows, RowClass::QuickSend).len(),
    {
        self.count(RowClass::QuickSend) as u64
    }
}

/// The model of entries and changes leaves nothing out: one row for each entry, one
/// change for each change, every field as it is.
pub proof fn law_views_are_faithful(
    entries: Seq<ClipboardEntry>,
    changes: Seq<RowChange>,
    i: int,
)
    ensures
        entry_views(entries).len() == entries.len(),
        change_views(changes).len() == changes.len(),
        0 <= i < entries.len() ==> entry_views(entries)[i] == (crate::table::EntryView {
            id: entries[i].id,
            text: entries[i].text@,
            code: entries[i].code@,
            timestamp: entries[i].timestamp,
            is_pinned: entries[i].is_pinned,
            is_quick_send: entries[i].is_quick_send,
            consumed: entries[i].consumed,
        }),
        0 <= i < changes.len() ==> change_views(changes)[i] == match changes[i] {
            RowChange::Insert(entry) => crate::table::ChangeView::Insert(
                entry_views(seq![entry])[0],
            ),
            RowChange::Update(entry) => crate::table::ChangeView::Update(
                entry_views(seq![entry])[0],
            ),
            RowChange::Delete(id) => crate::table::ChangeView::Delete(id),
        },
{
}

} // verus!
