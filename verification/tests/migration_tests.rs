use floating_memo::migrations::{
    change_sql, changes_for_step, columns_to_check, has_column, migration_steps, set_version_sql,
    table_info_sql, v2_changes, v3_changes, Migration, SchemaChange, LATEST_VERSION, NOTES_TABLE,
};
use rusqlite::Connection;

fn current_version(conn: &Connection) -> i64 {
    conn.query_row("PRAGMA user_version", [], |r| r.get(0)).unwrap()
}

fn column_exists(conn: &Connection, table: &str, column: &str) -> bool {
    let mut stmt = conn.prepare(&table_info_sql(table)).unwrap();
    let names: Vec<String> = stmt.query_map([], |row| row.get(1)).unwrap().map(|r| r.unwrap()).collect();
    has_column(&names, column)
}

fn run(conn: &Connection) {
    let current = current_version(conn);
    for step in migration_steps(current) {
        let mut present = Vec::new();
        for column in columns_to_check(&step) {
            present.push(column_exists(conn, NOTES_TABLE, column));
        }
        for change in changes_for_step(&step, &present) {
            conn.execute_batch(&change_sql(&change)).unwrap();
        }
    }
}

fn create_v1_db(path: &std::path::Path) {
    let conn = Connection::open(path).unwrap();
    conn.execute_batch(
        "CREATE TABLE notes (
            id          TEXT PRIMARY KEY,
            content     TEXT NOT NULL,
            created_at  INTEGER NOT NULL,
            updated_at  INTEGER NOT NULL,
            pinned      INTEGER NOT NULL DEFAULT 0,
            tags        TEXT NOT NULL DEFAULT '[]'
        );
        INSERT INTO notes (id, content, created_at, updated_at)
        VALUES ('default', 'legacy memo', 1700000000000, 1700000000000);
        PRAGMA user_version = 1;",
    )
    .unwrap();
}

#[test]
fn migrates_v1_to_latest_preserving_existing_rows() {
    let dir = tempfile::tempdir().unwrap();
    let db = dir.path().join("legacy.db");
    create_v1_db(&db);

    let conn = Connection::open(&db).unwrap();
    run(&conn);

    assert_eq!(current_version(&conn), LATEST_VERSION);
    assert!(column_exists(&conn, "notes", "title"));
    assert!(column_exists(&conn, "notes", "kind"));
    assert!(column_exists(&conn, "notes", "sort_order"));
    assert!(column_exists(&conn, "notes", "note_date"));

    let (id, content, kind): (String, String, String) = conn
        .query_row("SELECT id, content, kind FROM notes WHERE id = 'default'", [], |r| {
            Ok((r.get(0)?, r.get(1)?, r.get(2)?))
        })
        .unwrap();
    assert_eq!(id, "default");
    assert_eq!(content, "legacy memo");
    assert_eq!(kind, "memo");
}

#[test]
fn idempotent_when_already_at_latest() {
    let dir = tempfile::tempdir().unwrap();
    let db = dir.path().join("fresh.db");
    let conn = Connection::open(&db).unwrap();
    conn.execute_batch(
        "CREATE TABLE notes (
            id          TEXT PRIMARY KEY,
            content     TEXT NOT NULL,
            created_at  INTEGER NOT NULL,
            updated_at  INTEGER NOT NULL,
            pinned      INTEGER NOT NULL DEFAULT 0,
            tags        TEXT NOT NULL DEFAULT '[]',
            title       TEXT NOT NULL DEFAULT '',
            kind        TEXT NOT NULL DEFAULT 'memo',
            sort_order  INTEGER NOT NULL DEFAULT 0,
            note_date   TEXT NULL
        );",
    )
    .unwrap();
    conn.execute_batch(&format!("PRAGMA user_version = {LATEST_VERSION};")).unwrap();

    run(&conn);
    run(&conn);
    assert_eq!(current_version(&conn), LATEST_VERSION);
}

#[test]
fn migrating_twice_from_v1_is_harmless() {
    let dir = tempfile::tempdir().unwrap();
    let db = dir.path().join("twice.db");
    create_v1_db(&db);
    let conn = Connection::open(&db).unwrap();
    run(&conn);
    run(&conn);
    assert_eq!(current_version(&conn), LATEST_VERSION);
}

#[test]
fn version_two_database_only_gets_note_date() {
    let dir = tempfile::tempdir().unwrap();
    let db = dir.path().join("v2.db");
    let conn = Connection::open(&db).unwrap();
    conn.execute_batch(
        "CREATE TABLE notes (id TEXT PRIMARY KEY, content TEXT NOT NULL, created_at INTEGER NOT NULL,
            updated_at INTEGER NOT NULL, pinned INTEGER NOT NULL DEFAULT 0, tags TEXT NOT NULL DEFAULT '[]');
         PRAGMA user_version = 2;",
    )
    .unwrap();
    run(&conn);
    assert_eq!(current_version(&conn), 3);
    assert!(column_exists(&conn, "notes", "note_date"));
    assert!(!column_exists(&conn, "notes", "title"));
}

#[test]
fn steps_by_version() {
    assert_eq!(migration_steps(0).len(), 3);
    assert!(matches!(migration_steps(1)[0], Migration::ToV2));
    let two = migration_steps(2);
    assert_eq!(two.len(), 2);
    assert!(matches!(two[0], Migration::ToV3));
    assert!(matches!(two[1], Migration::RecordLatestVersion));
    assert!(migration_steps(3).is_empty());
    assert!(migration_steps(7).is_empty());
    assert!(migration_steps(i64::MIN).len() == 3);
}

#[test]
fn changes_skip_existing_columns() {
    assert_eq!(v2_changes(true, true, true).len(), 1);
    let all = v2_changes(false, false, false);
    assert_eq!(all.len(), 4);
    assert!(matches!(all[0], SchemaChange::AddTitle));
    assert!(matches!(all[3], SchemaChange::CreateKindIndexes));
    assert!(matches!(v2_changes(true, false, true)[0], SchemaChange::AddKind));
    assert_eq!(v3_changes(true).len(), 1);
    assert!(matches!(v3_changes(false)[0], SchemaChange::AddNoteDate));
    assert_eq!(columns_to_check(&Migration::ToV2), vec!["title", "kind", "sort_order"]);
    assert_eq!(columns_to_check(&Migration::ToV3), vec!["note_date"]);
    assert!(columns_to_check(&Migration::RecordLatestVersion).is_empty());
    let rec = changes_for_step(&Migration::RecordLatestVersion, &Vec::new());
    assert!(matches!(rec[0], SchemaChange::SetVersion(3)));
    assert_eq!(changes_for_step(&Migration::ToV2, &vec![false]).len(), 4);
}

#[test]
fn statement_texts() {
    assert_eq!(set_version_sql(3), "PRAGMA user_version = 3;");
    assert_eq!(set_version_sql(-1), "PRAGMA user_version = -1;");
    assert_eq!(table_info_sql("notes"), "PRAGMA table_info(notes)");
    assert_eq!(
        change_sql(&SchemaChange::AddTitle),
        "ALTER TABLE notes ADD COLUMN title TEXT NOT NULL DEFAULT ''"
    );
    assert_eq!(change_sql(&SchemaChange::SetVersion(3)), "PRAGMA user_version = 3;");
}

#[test]
fn column_lookup_in_listed_names() {
    let names = vec!["id".to_string(), "content".to_string(), "title".to_string()];
    assert!(has_column(&names, "title"));
    assert!(!has_column(&names, "kind"));
    assert!(!has_column(&Vec::new(), "id"));
}
