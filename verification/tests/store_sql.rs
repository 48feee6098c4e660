//! Runs the same operations on the store and as statements on a database, and
//! compares the rows.

use rusqlite::{Connection, OptionalExtension};
use xime::schema::{migrate, SCHEMA_VERSION};
use xime::store::{ClipboardEntry, ClipboardStore, RowChange};
use xime::table::{MAX_CLIPBOARD_ITEMS, MAX_QUICK_SEND_ITEMS};

const COLUMNS: &str = "id, text, code, timestamp, isPinned, isQuickSend, consumed";

fn run_migration(conn: &Connection) {
    let version: i64 = conn
        .pragma_query_value(None, "user_version", |r| r.get(0))
        .unwrap();
    for step in migrate(version) {
        conn.execute_batch(step.sql()).unwrap();
    }
}

fn database() -> Connection {
    let conn = Connection::open_in_memory().unwrap();
    run_migration(&conn);
    conn
}

fn read_row(row: &rusqlite::Row) -> rusqlite::Result<ClipboardEntry> {
    Ok(ClipboardEntry {
        id: row.get("id")?,
        text: row.get("text")?,
        code: row.get("code")?,
        timestamp: row.get("timestamp")?,
        is_pinned: row.get("isPinned")?,
        is_quick_send: row.get("isQuickSend")?,
        consumed: row.get("consumed")?,
    })
}

fn rows(conn: &Connection, tail: &str) -> Vec<ClipboardEntry> {
    let mut stmt = conn
        .prepare(&format!("SELECT {COLUMNS} FROM clipboard_entries {tail}"))
        .unwrap();
    let found = stmt.query_map([], read_row).unwrap();
    found.collect::<Result<_, _>>().unwrap()
}

fn apply(conn: &Connection, changes: &[RowChange]) {
    for change in changes {
        match change {
            RowChange::Insert(e) => {
                conn.execute(
                    "INSERT INTO clipboard_entries
                     (id, text, code, timestamp, isPinned, isQuickSend, consumed)
                     VALUES (?1, ?2, ?3, ?4, ?5, ?6, ?7)",
                    (
                        e.id,
                        &e.text,
                        &e.code,
                        e.timestamp,
                        e.is_pinned,
                        e.is_quick_send,
                        e.consumed,
                    ),
                )
                .unwrap();
            }
            RowChange::Update(e) => {
                conn.execute(
                    "UPDATE clipboard_entries SET text = ?2, code = ?3, timestamp = ?4,
                     isPinned = ?5, isQuickSend = ?6, consumed = ?7 WHERE id = ?1",
                    (
                        e.id,
                        &e.text,
                        &e.code,
                        e.timestamp,
                        e.is_pinned,
                        e.is_quick_send,
                        e.consumed,
                    ),
                )
                .unwrap();
            }
            RowChange::Delete(id) => {
                conn.execute("DELETE FROM clipboard_entries WHERE id = ?1", (id,))
                    .unwrap();
            }
        }
    }
}

fn sql_find(conn: &Connection, text: &str, quick: bool) -> Option<i64> {
    conn.query_row(
        "SELECT id FROM clipboard_entries WHERE text = ?1 AND isQuickSend = ?2 LIMIT 1",
        (text, quick as i64),
        |r| r.get(0),
    )
    .optional()
    .unwrap()
}

fn sql_touch(conn: &Connection, id: i64, now: i64) {
    conn.execute(
        "UPDATE clipboard_entries SET timestamp = ?1 WHERE id = ?2",
        (now, id),
    )
    .unwrap();
}

fn sql_trim(conn: &Connection, condition: &str, limit: i64) {
    let count: i64 = conn
        .query_row(
            &format!("SELECT COUNT(*) FROM clipboard_entries WHERE {condition}"),
            [],
            |r| r.get(0),
        )
        .unwrap();
    if count > limit {
        conn.execute(
            &format!(
                "DELETE FROM clipboard_entries WHERE {condition} AND id IN (
                    SELECT id FROM clipboard_entries
                    WHERE {condition} ORDER BY timestamp ASC LIMIT ?1)"
            ),
            (count - limit,),
        )
        .unwrap();
    }
}

fn sql_upsert(conn: &Connection, text: &str, now: i64) {
    if let Some(id) = sql_find(conn, text, false) {
        sql_touch(conn, id, now);
    } else {
        conn.execute(
            "INSERT INTO clipboard_entries (text, code, timestamp, isPinned, isQuickSend, consumed)
             VALUES (?1, '', ?2, 0, 0, 0)",
            (text, now),
        )
        .unwrap();
        sql_trim(conn, "isPinned = 0", MAX_CLIPBOARD_ITEMS);
    }
}

fn sql_add_quick_send(conn: &Connection, source: i64, now: i64) {
    let text: Option<String> = conn
        .query_row(
            "SELECT text FROM clipboard_entries WHERE id = ?1 AND isQuickSend = 0",
            (source,),
            |r| r.get(0),
        )
        .optional()
        .unwrap();
    let Some(text) = text else {
        return;
    };
    if let Some(id) = sql_find(conn, &text, true) {
        sql_touch(conn, id, now);
    } else {
        sql_new_quick_send(conn, &text, "", now);
    }
}

fn sql_new_quick_send(conn: &Connection, text: &str, code: &str, now: i64) {
    conn.execute(
        "INSERT INTO clipboard_entries (text, code, timestamp, isPinned, isQuickSend, consumed)
         VALUES (?1, ?2, ?3, 1, 1, 0)",
        (text, code, now),
    )
    .unwrap();
    sql_trim(conn, "isQuickSend = 1", MAX_QUICK_SEND_ITEMS);
}

fn sql_insert_quick_send(conn: &Connection, text: &str, code: &str, now: i64) {
    if let Some(id) = sql_find(conn, text, true) {
        conn.execute(
            "UPDATE clipboard_entries SET text = ?1, code = ?2, timestamp = ?3 WHERE id = ?4",
            (text, code, now, id),
        )
        .unwrap();
    } else {
        sql_new_quick_send(conn, text, code, now);
    }
}

/// A small generator of reproducible numbers.
struct Numbers(u64);

impl Numbers {
    fn below(&mut self, n: u64) -> u64 {
        self.0 = self
            .0
            .wrapping_mul(6364136223846793005)
            .wrapping_add(1442695040888963407);
        (self.0 >> 33) % n
    }
}

#[test]
fn operations_match_their_statements() {
    let sql = database();
    let mirror = database();
    let mut store = ClipboardStore::new();
    let mut numbers = Numbers(7);
    for step in 0..1500 {
        let now = numbers.below(50) as i64;
        let id = 1 + numbers.below(60) as i64;
        let text = format!("t{}", numbers.below(40));
        let changes = match numbers.below(12) {
            0..=2 => {
                sql_upsert(&sql, &text, now);
                store.upsert_and_trim(&text, now).unwrap()
            }
            3 | 4 => {
                sql_add_quick_send(&sql, id, now);
                store.add_to_quick_send(id, now).unwrap()
            }
            5 | 6 => {
                let code = format!("c{step}");
                sql_insert_quick_send(&sql, &text, &code, now);
                store.insert_quick_send(&text, &code, now).unwrap()
            }
            7 => {
                sql.execute(
                    "UPDATE clipboard_entries SET text = ?1, code = ?2, timestamp = ?3
                     WHERE id = ?4 AND isQuickSend = 1",
                    (&text, "edited", now, id),
                )
                .unwrap();
                store.update_quick_send_item(id, &text, "edited", now)
            }
            8 => {
                sql_touch(&sql, id, now);
                store.update_timestamp(id, now)
            }
            9 => {
                sql.execute("UPDATE clipboard_entries SET consumed = 1 WHERE id = ?1", (id,))
                    .unwrap();
                store.mark_consumed(id)
            }
            10 => {
                sql.execute(
                    "DELETE FROM clipboard_entries WHERE isQuickSend = 0 AND id = ?1",
                    (id,),
                )
                .unwrap();
                store.delete_clipboard(id)
            }
            _ => {
                sql.execute(
                    "DELETE FROM clipboard_entries WHERE isQuickSend = 1 AND id = ?1",
                    (id,),
                )
                .unwrap();
                store.delete_quick_send(id)
            }
        };
        apply(&mirror, &changes);
        let expected = rows(&sql, "ORDER BY id");
        assert_eq!(rows(&mirror, "ORDER BY id"), expected, "step {step}");
        let order = "ORDER BY timestamp DESC, id DESC";
        assert_eq!(
            store.list_clipboard(5),
            rows(&sql, &format!("WHERE isQuickSend = 0 {order} LIMIT 5"))
        );
        assert_eq!(
            store.list_quick_send(),
            rows(&sql, &format!("WHERE isQuickSend = 1 {order}"))
        );
        assert_eq!(store.find_by_id(id), expected.into_iter().find(|e| e.id == id));
    }
}

#[test]
fn trimming_matches_its_statements() {
    let sql = database();
    let mut store = ClipboardStore::new();
    let mut numbers = Numbers(11);
    sql.execute_batch("BEGIN").unwrap();
    for i in 0..1200 {
        let text = format!("t{i}");
        let now = numbers.below(300) as i64;
        sql_upsert(&sql, &text, now);
        store.upsert_and_trim(&text, now).unwrap();
    }
    sql.execute_batch("COMMIT").unwrap();
    assert_eq!(store.count_clipboard(), 1000);
    assert_eq!(
        store.list_clipboard(-1),
        rows(&sql, "WHERE isQuickSend = 0 ORDER BY timestamp DESC, id DESC")
    );
}

#[test]
fn a_store_opened_on_rows_goes_on_where_they_ended() {
    let sql = database();
    sql_upsert(&sql, "a", 1);
    sql_insert_quick_send(&sql, "b", "c", 2);
    sql_upsert(&sql, "gone", 3);
    sql.execute("DELETE FROM clipboard_entries WHERE text = 'gone'", [])
        .unwrap();
    let sequence: i64 = sql
        .query_row(
            "SELECT seq FROM sqlite_sequence WHERE name = 'clipboard_entries'",
            [],
            |r| r.get(0),
        )
        .unwrap();
    let mut store = ClipboardStore::open(rows(&sql, "ORDER BY id"), sequence).unwrap();
    let changes = store.upsert_and_trim("next", 4).unwrap();
    apply(&sql, &changes);
    assert_eq!(sql_find(&sql, "next", false), Some(4));
    sql_upsert(&sql, "after", 5);
    assert_eq!(sql_find(&sql, "after", false), Some(5));
}

fn column_names(conn: &Connection) -> Vec<String> {
    let mut stmt = conn.prepare("PRAGMA table_info(clipboard_entries)").unwrap();
    let mut names: Vec<String> = stmt
        .query_map([], |r| r.get::<_, String>(1))
        .unwrap()
        .collect::<Result<_, _>>()
        .unwrap();
    names.sort();
    names
}

fn user_version(conn: &Connection) -> i64 {
    conn.pragma_query_value(None, "user_version", |r| r.get(0))
        .unwrap()
}

#[test]
fn open_creates_v3_schema() {
    let conn = database();
    assert_eq!(user_version(&conn), SCHEMA_VERSION);

    let mut expected = vec![
        "id",
        "text",
        "code",
        "timestamp",
        "isPinned",
        "isQuickSend",
        "consumed",
    ];
    expected.sort();
    assert_eq!(column_names(&conn), expected);

    let index_count: i64 = conn
        .query_row(
            "SELECT COUNT(*) FROM sqlite_master WHERE type = 'index' AND name = 'index_clipboard_entries_text'",
            [],
            |r| r.get(0),
        )
        .unwrap();
    assert_eq!(index_count, 1);
}

#[test]
fn migrate_v1_and_v2_dbs() {
    let conn = Connection::open_in_memory().unwrap();
    conn.execute_batch(
        "CREATE TABLE clipboard_entries (
            id          INTEGER PRIMARY KEY AUTOINCREMENT NOT NULL,
            text        TEXT NOT NULL,
            timestamp   INTEGER NOT NULL DEFAULT 0,
            isPinned    INTEGER NOT NULL DEFAULT 0,
            isQuickSend INTEGER NOT NULL DEFAULT 0
        );
        CREATE INDEX index_clipboard_entries_text ON clipboard_entries(text);
        INSERT INTO clipboard_entries (text, timestamp, isPinned, isQuickSend)
            VALUES ('老数据', 100, 0, 0);",
    )
    .unwrap();
    conn.pragma_update(None, "user_version", 1).unwrap();
    run_migration(&conn);
    let cols = column_names(&conn);
    for col in ["consumed", "code"] {
        assert!(cols.contains(&col.to_string()), "v1 -> v3 缺少列 {col}");
    }
    assert_eq!(user_version(&conn), 3);
    let item: ClipboardEntry = conn
        .query_row(
            "SELECT * FROM clipboard_entries WHERE text = '老数据'",
            [],
            read_row,
        )
        .unwrap();
    assert!(!item.consumed);
    assert_eq!(item.code, "");

    let conn = Connection::open_in_memory().unwrap();
    conn.execute_batch(
        "CREATE TABLE clipboard_entries (
            id          INTEGER PRIMARY KEY AUTOINCREMENT NOT NULL,
            text        TEXT NOT NULL,
            timestamp   INTEGER NOT NULL DEFAULT 0,
            isPinned    INTEGER NOT NULL DEFAULT 0,
            isQuickSend INTEGER NOT NULL DEFAULT 0,
            consumed    INTEGER NOT NULL DEFAULT 0
        );",
    )
    .unwrap();
    conn.pragma_update(None, "user_version", 2).unwrap();
    run_migration(&conn);
    assert!(column_names(&conn).contains(&"code".to_string()));
}

#[test]
fn migrations_keep_every_row() {
    let conn = Connection::open_in_memory().unwrap();
    conn.execute_batch(
        "CREATE TABLE clipboard_entries (
            id          INTEGER PRIMARY KEY AUTOINCREMENT NOT NULL,
            text        TEXT NOT NULL,
            timestamp   INTEGER NOT NULL DEFAULT 0,
            isPinned    INTEGER NOT NULL DEFAULT 0,
            isQuickSend INTEGER NOT NULL DEFAULT 0,
            consumed    INTEGER NOT NULL DEFAULT 0
        );
        INSERT INTO clipboard_entries (id, text, timestamp, isPinned, isQuickSend, consumed)
            VALUES (3, 'a', 10, 0, 0, 1), (8, 'b', 20, 1, 1, 0);",
    )
    .unwrap();
    conn.pragma_update(None, "user_version", 2).unwrap();
    run_migration(&conn);
    let expected = vec![
        ClipboardEntry {
            id: 3,
            text: "a".to_string(),
            code: String::new(),
            timestamp: 10,
            is_pinned: false,
            is_quick_send: false,
            consumed: true,
        },
        ClipboardEntry {
            id: 8,
            text: "b".to_string(),
            code: String::new(),
            timestamp: 20,
            is_pinned: true,
            is_quick_send: true,
            consumed: false,
        },
    ];
    assert_eq!(rows(&conn, "ORDER BY id"), expected);
    let columns = column_names(&conn);
    run_migration(&conn);
    assert_eq!(rows(&conn, "ORDER BY id"), expected);
    assert_eq!(column_names(&conn), columns);
    assert_eq!(user_version(&conn), 3);
}

#[test]
fn migrations_of_other_versions() {
    assert!(migrate(SCHEMA_VERSION).is_empty());
    assert_eq!(migrate(0).len(), 4);
    assert_eq!(migrate(7).len(), 1);
    let conn = database();
    conn.pragma_update(None, "user_version", 7).unwrap();
    run_migration(&conn);
    assert_eq!(user_version(&conn), 3);
}
