use xime::clock::{epoch_millis, now_millis};
use xime::store::{ClipboardEntry, ClipboardStore, RowChange, StoreError};
use xime::table::{MAX_CLIPBOARD_ITEMS, MAX_QUICK_SEND_ITEMS};

fn entry(id: i64, text: &str, timestamp: i64, pinned: bool, quick: bool) -> ClipboardEntry {
    ClipboardEntry {
        id,
        text: text.to_string(),
        code: String::new(),
        timestamp,
        is_pinned: pinned,
        is_quick_send: quick,
        consumed: false,
    }
}

fn texts(list: &[ClipboardEntry]) -> Vec<&str> {
    list.iter().map(|e| e.text.as_str()).collect()
}

#[test]
fn upsert_dedup_and_refresh_timestamp() {
    let mut store = ClipboardStore::new();
    store.upsert_and_trim("hello", 100).unwrap();
    store.upsert_and_trim("hello", 200).unwrap();
    let items = store.list_clipboard(10);
    assert_eq!(items.len(), 1);
    assert_eq!(items[0].text, "hello");
    assert_eq!(items[0].timestamp, 200, "相同文本应刷新时间戳而非新增");
}

#[test]
fn upsert_trims_oldest_unpinned() {
    let mut store = ClipboardStore::new();
    for i in 0..1001 {
        store.upsert_and_trim(&format!("text{i:04}"), i).unwrap();
    }
    let items = store.list_clipboard(2000);
    assert_eq!(items.len() as i64, MAX_CLIPBOARD_ITEMS);
    assert_eq!(items[0].text, "text1000");
    assert!(!items.iter().any(|e| e.text == "text0000"));
}

#[test]
fn trim_keeps_pinned_entries() {
    let mut store = ClipboardStore::open(vec![entry(1, "pinned", 0, true, false)], 1).unwrap();
    for i in 0..1000 {
        store.upsert_and_trim(&format!("t{i:04}"), 1000 + i).unwrap();
    }
    let pinned = store
        .list_clipboard(2000)
        .iter()
        .filter(|e| e.is_pinned)
        .count();
    assert!(pinned >= 1, "置顶条目必须保留");
    store.upsert_and_trim("one more", 5000).unwrap();
    let list = store.list_clipboard(-1);
    assert_eq!(list.len(), 1001);
    assert!(list.iter().any(|e| e.text == "pinned"));
    assert!(!list.iter().any(|e| e.text == "t0000"));
}

#[test]
fn add_to_quick_send_copies_and_dedups() {
    let mut store = ClipboardStore::new();
    store.upsert_and_trim("共享文本", 10).unwrap();
    let id = store.list_clipboard(10)[0].id;

    store.add_to_quick_send(id, 100).unwrap();
    store.add_to_quick_send(id, 200).unwrap();
    let qs = store.list_quick_send();
    assert_eq!(qs.len(), 1, "快捷发送按文本去重");
    assert_eq!(qs[0].timestamp, 200);
    assert!(qs[0].is_pinned, "快捷发送默认置顶");
    assert_eq!(store.count_clipboard(), 1);
}

#[test]
fn insert_quick_send_updates_existing() {
    let mut store = ClipboardStore::new();
    store.insert_quick_send("地址", "dz", 100).unwrap();
    store.insert_quick_send("地址", "dz2", 200).unwrap();
    let qs = store.list_quick_send();
    assert_eq!(qs.len(), 1);
    assert_eq!(qs[0].code, "dz2", "已存在条目应更新文本/编码/时间戳");
    assert_eq!(qs[0].timestamp, 200);
}

#[test]
fn quick_send_trims_over_limit() {
    let mut store = ClipboardStore::new();
    for i in 0..(MAX_QUICK_SEND_ITEMS + 5) {
        store
            .insert_quick_send(&format!("qs{i}"), &format!("c{i}"), i)
            .unwrap();
    }
    assert_eq!(store.count_quick_send() as i64, MAX_QUICK_SEND_ITEMS);
    let qs = store.list_quick_send();
    assert!(!qs.iter().any(|e| e.text == "qs0"), "最旧条目应被裁剪");
}

#[test]
fn deletes_are_type_isolated() {
    let mut store = ClipboardStore::new();
    store.upsert_and_trim("普通", 1).unwrap();
    let clip_id = store.list_clipboard(10)[0].id;
    store.insert_quick_send("快捷", "q", 2).unwrap();
    let qs_id = store.list_quick_send()[0].id;

    store.delete_clipboard(qs_id);
    assert_eq!(
        store.count_quick_send(),
        1,
        "删除普通条目接口不应误删快捷发送"
    );
    store.delete_quick_send(clip_id);
    assert_eq!(
        store.count_clipboard(),
        1,
        "删除快捷发送接口不应误删普通条目"
    );

    store.clear_clipboard();
    assert_eq!(store.count_clipboard(), 0);
    assert_eq!(store.count_quick_send(), 1, "清空普通剪贴板保留快捷发送");
    store.clear_quick_send();
    assert_eq!(store.count_quick_send(), 0);
    store.insert_quick_send("再一个", "z", 3).unwrap();
    store.clear_all();
    assert_eq!(store.count_clipboard(), 0);
    assert_eq!(store.count_quick_send(), 0);
}

#[test]
fn mark_consumed_and_find_by_id() {
    let mut store = ClipboardStore::new();
    store.upsert_and_trim("上屏内容", 7).unwrap();
    let id = store.list_clipboard(10)[0].id;
    assert!(!store.find_by_id(id).unwrap().consumed);
    store.mark_consumed(id);
    assert!(store.find_by_id(id).unwrap().consumed);
    assert!(store.find_by_id(999_999).is_none());
}

#[test]
fn listings_run_from_new_to_old() {
    let mut store = ClipboardStore::new();
    for (text, time) in [("a", 5), ("b", 9), ("c", 5), ("d", 1)] {
        store.upsert_and_trim(text, time).unwrap();
    }
    assert_eq!(texts(&store.list_clipboard(10)), vec!["b", "c", "a", "d"]);
    assert_eq!(texts(&store.list_clipboard(2)), vec!["b", "c"]);
    assert!(store.list_clipboard(0).is_empty());
    assert_eq!(store.list_clipboard(-1).len(), 4);
}

#[test]
fn trimming_drops_the_oldest_quick_sends_with_ties_by_id() {
    let mut store = ClipboardStore::new();
    for i in 0..21 {
        store.insert_quick_send(&format!("q{i}"), "", 7).unwrap();
    }
    let list = store.list_quick_send();
    assert_eq!(list.len(), 20);
    assert_eq!(list[0].text, "q20");
    assert!(!list.iter().any(|e| e.text == "q0"));
}

#[test]
fn a_late_capture_of_an_old_time_is_dropped_at_once() {
    let mut store = ClipboardStore::new();
    for i in 0..1000 {
        store.upsert_and_trim(&format!("t{i}"), 100 + i).unwrap();
    }
    store.upsert_and_trim("old", 1).unwrap();
    assert_eq!(store.count_clipboard(), 1000);
    assert!(!store.list_clipboard(-1).iter().any(|e| e.text == "old"));
}

#[test]
fn captures_leave_quick_sends_alone() {
    let mut store = ClipboardStore::new();
    store.insert_quick_send("same", "s", 1).unwrap();
    store.upsert_and_trim("same", 2).unwrap();
    let qs = store.list_quick_send();
    assert_eq!(qs.len(), 1);
    assert_eq!(qs[0].timestamp, 1);
    assert_eq!(store.list_clipboard(10)[0].timestamp, 2);
    assert!(qs[0].is_quick_send());
    assert!(!store.list_clipboard(10)[0].is_quick_send());
}

#[test]
fn adding_an_unknown_or_quick_send_source_does_nothing() {
    let mut store = ClipboardStore::new();
    store.insert_quick_send("q", "c", 1).unwrap();
    let id = store.list_quick_send()[0].id;
    assert_eq!(store.add_to_quick_send(id, 9), Ok(vec![]));
    assert_eq!(store.add_to_quick_send(77, 9), Ok(vec![]));
    assert_eq!(store.list_quick_send()[0].timestamp, 1);
}

#[test]
fn quick_send_items_can_be_edited_into_duplicates() {
    let mut store = ClipboardStore::new();
    store.insert_quick_send("a", "1", 1).unwrap();
    store.insert_quick_send("b", "2", 2).unwrap();
    let id = store.list_quick_send()[0].id;
    store.update_quick_send_item(id, "a", "3", 5);
    assert_eq!(texts(&store.list_quick_send()), vec!["a", "a"]);
    store.upsert_and_trim("clip", 6).unwrap();
    let clip = store.list_clipboard(1)[0].id;
    assert_eq!(store.update_quick_send_item(clip, "x", "y", 9), vec![]);
    assert_eq!(store.list_clipboard(1)[0].text, "clip");
}

#[test]
fn timestamps_can_be_refreshed() {
    let mut store = ClipboardStore::new();
    store.upsert_and_trim("a", 1).unwrap();
    store.upsert_and_trim("b", 2).unwrap();
    let a = store.list_clipboard(10)[1].id;
    store.update_timestamp(a, 3);
    assert_eq!(texts(&store.list_clipboard(10)), vec!["a", "b"]);
    assert_eq!(store.update_timestamp(99, 4), vec![]);
}

#[test]
fn ids_are_not_given_out_twice() {
    let mut store = ClipboardStore::new();
    store.upsert_and_trim("a", 1).unwrap();
    let first = store.list_clipboard(1)[0].id;
    store.clear_all();
    store.upsert_and_trim("b", 2).unwrap();
    assert!(store.list_clipboard(1)[0].id > first);
}

#[test]
fn ids_can_run_out() {
    let mut store = ClipboardStore::open(vec![entry(i64::MAX, "last", 1, false, false)], 0).unwrap();
    assert_eq!(store.upsert_and_trim("new", 2), Err(StoreError::IdsExhausted));
    assert_eq!(
        store.insert_quick_send("new", "", 2),
        Err(StoreError::IdsExhausted)
    );
    assert_eq!(
        store.add_to_quick_send(i64::MAX, 2),
        Err(StoreError::IdsExhausted)
    );
    assert!(store.upsert_and_trim("last", 3).is_ok());
    assert_eq!(store.list_clipboard(1)[0].timestamp, 3);
}

#[test]
fn rows_out_of_order_are_refused() {
    let rows = vec![entry(2, "b", 1, false, false), entry(1, "a", 1, false, false)];
    assert!(ClipboardStore::open(rows, 2).is_none());
    let rows = vec![entry(1, "a", 1, false, false), entry(2, "b", 1, false, false)];
    assert!(ClipboardStore::open(rows, 0).is_some());
}

#[test]
fn changes_describe_what_happened() {
    let mut store = ClipboardStore::new();
    let changes = store.upsert_and_trim("a", 1).unwrap();
    assert_eq!(changes, vec![RowChange::Insert(entry(1, "a", 1, false, false))]);
    let changes = store.upsert_and_trim("a", 4).unwrap();
    assert_eq!(changes, vec![RowChange::Update(entry(1, "a", 4, false, false))]);
    assert_eq!(store.delete_clipboard(1), vec![RowChange::Delete(1)]);
    assert_eq!(store.delete_clipboard(1), vec![]);
}

#[test]
fn time_stamps_come_from_the_epoch() {
    assert_eq!(epoch_millis(Some(1_700_000_000_123)), 1_700_000_000_123);
    assert_eq!(epoch_millis(None), 0);
    assert_eq!(epoch_millis(Some(u128::MAX)), -1);
    let before = std::time::SystemTime::now()
        .duration_since(std::time::UNIX_EPOCH)
        .unwrap()
        .as_millis() as i64;
    let now = now_millis();
    assert!(now >= before && now < before + 60_000);
}
