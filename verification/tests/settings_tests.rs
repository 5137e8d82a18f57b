use floating_memo::settings::{
    bool_text, parse_bool, read_flag, settings_from_stored, side_effect_for, toggled_always_on_top,
    SettingEffect, Settings, KEY_ALWAYS_ON_TOP, KEY_AUTOSTART,
};
use rusqlite::Connection;

const SCHEMA_SQL: &str = "
CREATE TABLE IF NOT EXISTS notes (
    id          TEXT PRIMARY KEY,
    content     TEXT NOT NULL,
    created_at  INTEGER NOT NULL,
    updated_at  INTEGER NOT NULL,
    pinned      INTEGER NOT NULL DEFAULT 0,
    tags        TEXT NOT NULL DEFAULT '[]'
);
CREATE TABLE IF NOT EXISTS settings (
    key   TEXT PRIMARY KEY,
    value TEXT NOT NULL
);";

fn fresh_db() -> (tempfile::TempDir, std::path::PathBuf) {
    let dir = tempfile::tempdir().unwrap();
    let db = dir.path().join("test.db");
    let conn = Connection::open(&db).unwrap();
    conn.execute_batch(SCHEMA_SQL).unwrap();
    (dir, db)
}

fn stored(conn: &Connection, key: &str) -> Option<String> {
    conn.query_row("SELECT value FROM settings WHERE key = ?1", [key], |row| row.get(0))
        .ok()
}

fn load(conn: &Connection) -> Settings {
    let a = stored(conn, KEY_ALWAYS_ON_TOP);
    let b = stored(conn, KEY_AUTOSTART);
    settings_from_stored(a.as_deref(), b.as_deref())
}

fn set_bool(conn: &Connection, key: &str, value: bool) {
    conn.execute(
        "INSERT INTO settings (key, value) VALUES (?1, ?2)
         ON CONFLICT(key) DO UPDATE SET value = excluded.value",
        (key, bool_text(value)),
    )
    .unwrap();
}

#[test]
fn load_returns_defaults_when_empty() {
    let (_dir, db) = fresh_db();
    let conn = Connection::open(&db).unwrap();
    let s = load(&conn);
    assert!(!s.always_on_top);
    assert!(!s.autostart);
}

#[test]
fn set_bool_round_trips() {
    let (_dir, db) = fresh_db();
    let conn = Connection::open(&db).unwrap();
    set_bool(&conn, KEY_ALWAYS_ON_TOP, true);
    set_bool(&conn, KEY_AUTOSTART, false);
    let s = load(&conn);
    assert!(s.always_on_top);
    assert!(!s.autostart);

    set_bool(&conn, KEY_ALWAYS_ON_TOP, false);
    let s = load(&conn);
    assert!(!s.always_on_top);
}

#[test]
fn parse_bool_accepts_true_one_yes_in_any_case_with_spaces() {
    assert!(parse_bool("true"));
    assert!(parse_bool("TRUE"));
    assert!(parse_bool("  Yes\n"));
    assert!(parse_bool("\t1 "));
    assert!(parse_bool("\u{3000}tRuE\u{a0}"));
    assert!(!parse_bool("false"));
    assert!(!parse_bool("0"));
    assert!(!parse_bool(""));
    assert!(!parse_bool("   "));
    assert!(!parse_bool("y"));
    assert!(!parse_bool("true!"));
    assert!(!parse_bool("t rue"));
    assert!(!parse_bool("ＴＲＵＥ"));
}

#[test]
fn stored_text_reads_back() {
    assert_eq!(bool_text(true), "true");
    assert_eq!(bool_text(false), "false");
    for v in [true, false] {
        for d in [true, false] {
            assert_eq!(read_flag(Some(bool_text(v)), d), v);
        }
    }
    assert!(read_flag(None, true));
    assert!(!read_flag(None, false));
}

#[test]
fn default_settings_are_off() {
    let s = Settings::default();
    assert!(!s.always_on_top);
    assert!(!s.autostart);
}

#[test]
fn side_effects_of_each_key() {
    assert!(matches!(side_effect_for("always_on_top", true), SettingEffect::SetAlwaysOnTop(true)));
    assert!(matches!(side_effect_for("always_on_top", false), SettingEffect::SetAlwaysOnTop(false)));
    assert!(matches!(side_effect_for("autostart", true), SettingEffect::EnableAutostart));
    assert!(matches!(side_effect_for("autostart", false), SettingEffect::DisableAutostart));
    assert!(matches!(side_effect_for("theme", true), SettingEffect::NoEffect));
    assert!(toggled_always_on_top(false));
    assert!(!toggled_always_on_top(true));
}

#[test]
fn parse_bool_ignores_ascii_case_and_surrounding_space() {
    for s in ["true", "TrUe", "yes", "YES", "1", "false", "no", "", "  ", "truth", "é", "ye s"] {
        let v = parse_bool(s);
        assert_eq!(parse_bool(&s.to_ascii_uppercase()), v);
        assert_eq!(parse_bool(&s.to_ascii_lowercase()), v);
        assert_eq!(parse_bool(&format!(" \t{s}\n")), v);
        assert_eq!(parse_bool(&format!("\u{2003}{s}\u{85}")), v);
    }
    assert!(parse_bool("true") && !parse_bool("false"));
}
