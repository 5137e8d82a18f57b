use floating_memo::note::{
    json_or_empty_list, tags_or_none,
    note_from_row, note_kind, pinned_column, require_updated, resolve_default_note, search_limit,
    tags_column, tags_from_column, DefaultNote, Note, DEFAULT_NOTE_ID,
};
use floating_memo::AppError;
use rusqlite::Connection;

const SCHEMA_SQL: &str = "CREATE TABLE IF NOT EXISTS notes (
    id          TEXT PRIMARY KEY,
    content     TEXT NOT NULL,
    created_at  INTEGER NOT NULL,
    updated_at  INTEGER NOT NULL,
    pinned      INTEGER NOT NULL DEFAULT 0,
    tags        TEXT NOT NULL DEFAULT '[]'
);";

const SELECT_NOTE: &str =
    "SELECT id, content, created_at, updated_at, pinned, tags FROM notes WHERE id = ?1";

fn row_to_note(row: &rusqlite::Row<'_>) -> rusqlite::Result<Note> {
    let tags_json: String = row.get("tags")?;
    Ok(note_from_row(
        row.get("id")?,
        row.get("content")?,
        row.get("created_at")?,
        row.get("updated_at")?,
        row.get("pinned")?,
        &tags_json,
    ))
}

fn make_store() -> (tempfile::TempDir, Connection) {
    let dir = tempfile::tempdir().unwrap();
    let conn = Connection::open(dir.path().join("test.db")).unwrap();
    conn.execute_batch(SCHEMA_SQL).unwrap();
    (dir, conn)
}

fn get_or_create_default(conn: &Connection) -> Note {
    let existing = conn.query_row(SELECT_NOTE, [DEFAULT_NOTE_ID], row_to_note).ok();
    match resolve_default_note(existing) {
        DefaultNote::Found(note) => note,
        DefaultNote::Missing => {
            let note = Note::new_default(chrono::Utc::now().timestamp_millis());
            conn.execute(
                "INSERT INTO notes (id, content, created_at, updated_at, pinned, tags)
                 VALUES (?1, ?2, ?3, ?4, ?5, ?6)",
                (
                    &note.id,
                    &note.content,
                    note.created_at,
                    note.updated_at,
                    pinned_column(note.pinned),
                    tags_column(&note.tags),
                ),
            )
            .unwrap();
            note
        }
    }
}

fn save_content(conn: &Connection, id: &str, content: &str) -> Result<Note, AppError> {
    let now = chrono::Utc::now().timestamp_millis();
    let updated = conn
        .execute(
            "UPDATE notes SET content = ?1, updated_at = ?2 WHERE id = ?3",
            (content, now, id),
        )
        .unwrap();
    require_updated(updated, id)?;
    Ok(conn.query_row(SELECT_NOTE, [id], row_to_note).unwrap())
}

#[test]
fn get_or_create_default_creates_then_returns_same() {
    let (_dir, conn) = make_store();
    let a = get_or_create_default(&conn);
    let b = get_or_create_default(&conn);
    assert_eq!(a.id, DEFAULT_NOTE_ID);
    assert_eq!(a.id, b.id);
    assert_eq!(a.created_at, b.created_at);
}

#[test]
fn save_content_updates_and_persists() {
    let (_dir, conn) = make_store();
    let _ = get_or_create_default(&conn);
    let saved = save_content(&conn, DEFAULT_NOTE_ID, "hello world").unwrap();
    assert_eq!(saved.content, "hello world");
    let again = get_or_create_default(&conn);
    assert_eq!(again.content, "hello world");
    assert!(again.updated_at >= again.created_at);
}

#[test]
fn save_content_unknown_id_returns_not_found() {
    let (_dir, conn) = make_store();
    let err = save_content(&conn, "nope", "x").unwrap_err();
    match err {
        AppError::NotFound(id) => assert_eq!(id, "nope"),
        other => panic!("unexpected error: {other:?}"),
    }
}

#[test]
fn new_default_note_is_empty() {
    let n = Note::new_default(1700000000000);
    assert_eq!(n.id, "default");
    assert_eq!(n.content, "");
    assert_eq!(n.created_at, 1700000000000);
    assert_eq!(n.updated_at, 1700000000000);
    assert!(!n.pinned);
    assert!(n.tags.is_empty());
    let m = Note::new_default(-5);
    assert_eq!(m.created_at, -5);
    assert_eq!(m.updated_at, -5);
}

#[test]
fn existing_default_note_is_returned_unchanged() {
    let stored = note_from_row(
        "default".to_string(),
        "memo".to_string(),
        5,
        9,
        1,
        "[\"a\",\"b\"]",
    );
    match resolve_default_note(Some(stored)) {
        DefaultNote::Found(n) => {
            assert_eq!(n.content, "memo");
            assert_eq!(n.created_at, 5);
            assert_eq!(n.updated_at, 9);
            assert!(n.pinned);
            assert_eq!(n.tags, vec!["a".to_string(), "b".to_string()]);
        }
        DefaultNote::Missing => panic!("stored note ignored"),
    }
    assert!(matches!(resolve_default_note(None), DefaultNote::Missing));
}

#[test]
fn tag_columns_encode_and_decode() {
    let tags = vec!["work".to_string(), "日本語".to_string()];
    let json = tags_column(&tags);
    assert_eq!(json, "[\"work\",\"日本語\"]");
    assert_eq!(tags_from_column(&json), tags);
    assert_eq!(tags_column(&Vec::new()), "[]");
    assert!(tags_from_column("not json").is_empty());
    assert!(tags_from_column("[1,2]").is_empty());
    assert_eq!(pinned_column(true), 1);
    assert_eq!(pinned_column(false), 0);
    assert!(!note_from_row("x".into(), "".into(), 0, 0, 0, "[]").pinned);
    assert!(note_from_row("x".into(), "".into(), 0, 0, -3, "[]").pinned);
}

#[test]
fn update_counts_decide_not_found() {
    assert!(require_updated(1, "a").is_ok());
    assert!(matches!(require_updated(0, "zz"), Err(AppError::NotFound(s)) if s == "zz"));
}

#[test]
fn search_limit_and_kind_defaults() {
    assert_eq!(search_limit(None), 50);
    assert_eq!(search_limit(Some(0)), 1);
    assert_eq!(search_limit(Some(7)), 7);
    assert_eq!(search_limit(Some(1000)), 200);
    assert_eq!(note_kind(None), "memo");
    assert_eq!(note_kind(Some("todo".to_string())), "todo");
}

#[test]
fn tag_fallbacks() {
    assert_eq!(tags_or_none(None), Vec::<String>::new());
    assert_eq!(tags_or_none(Some(vec!["x".to_string()])), vec!["x".to_string()]);
    assert_eq!(json_or_empty_list(None), "[]");
    assert_eq!(json_or_empty_list(Some("[\"a\"]".to_string())), "[\"a\"]");
}

#[test]
fn tag_columns_escape_and_read_back() {
    let tags = vec![
        "say \"hi\"".to_string(),
        "back\\slash".to_string(),
        "tab\tnew\nline\u{1}\u{8}\u{c}\r".to_string(),
        "".to_string(),
        "\u{7f}é".to_string(),
    ];
    let json = tags_column(&tags);
    assert_eq!(
        json,
        "[\"say \\\"hi\\\"\",\"back\\\\slash\",\"tab\\tnew\\nline\\u0001\\b\\f\\r\",\"\",\"\u{7f}é\"]"
    );
    assert_eq!(tags_from_column(&json), tags);
    let fresh = Note::new_default(0);
    assert_eq!(tags_column(&fresh.tags), "[]");
    assert!(tags_from_column(&tags_column(&fresh.tags)).is_empty());
}

#[test]
fn default_note_second_call_is_identical_and_writes_nothing() {
    let (_dir, conn) = make_store();
    let a = get_or_create_default(&conn);
    let count = |c: &Connection| -> i64 { c.query_row("SELECT COUNT(*) FROM notes", [], |r| r.get(0)).unwrap() };
    let before = count(&conn);
    let b = get_or_create_default(&conn);
    assert_eq!(count(&conn), before);
    assert_eq!((a.id, a.content, a.created_at, a.updated_at, a.pinned, a.tags), (b.id, b.content, b.created_at, b.updated_at, b.pinned, b.tags));
}
