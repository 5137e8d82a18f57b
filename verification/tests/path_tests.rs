use floating_memo::paths::{backups_path, data_dir_from, data_dir_location, db_path, DataPath};
use floating_memo::AppError;
use std::path::PathBuf;

fn text(p: DataPath) -> String {
    match p {
        DataPath::Text(t) => t,
        DataPath::Native(n) => panic!("expected a text path, got {n:?}"),
    }
}

#[test]
fn files_in_the_data_directory() {
    let sep = std::path::MAIN_SEPARATOR;
    let dir = DataPath::Text("/data/memo".to_string());
    assert_eq!(text(db_path(&dir)), format!("/data/memo{sep}notes.db"));
    assert_eq!(text(db_path(&DataPath::Text("/data/memo/".to_string()))), "/data/memo/notes.db");
    assert_eq!(text(db_path(&DataPath::Text(String::new()))), "notes.db");
    assert_eq!(text(backups_path(&dir)), format!("/data/memo{sep}backups"));
}

#[test]
fn native_paths_stay_native() {
    let dir = DataPath::Native(PathBuf::from("/data/memo"));
    match db_path(&dir) {
        DataPath::Native(p) => assert_eq!(p, PathBuf::from("/data/memo").join("notes.db")),
        DataPath::Text(_) => panic!("native path turned into text"),
    }
    match backups_path(&dir) {
        DataPath::Native(p) => assert_eq!(p, PathBuf::from("/data/memo").join("backups")),
        DataPath::Text(_) => panic!("native path turned into text"),
    }
}

#[test]
fn data_directory_is_found_or_reported() {
    match data_dir_location() {
        Ok(DataPath::Text(dir)) => assert!(
            dir.ends_with("floatingmemo")
                || dir.ends_with("FloatingMemo\\FloatingMemo\\data")
                || dir.ends_with("com.FloatingMemo.FloatingMemo")
        ),
        Ok(DataPath::Native(_)) => {}
        Err(e) => assert!(matches!(e, AppError::DataDirUnavailable)),
    }
}

#[test]
fn data_directory_from_platform_answer() {
    let found = data_dir_from(Some(DataPath::Text("/home/a/.local/share/floatingmemo".to_string())));
    assert_eq!(text(found.unwrap()), "/home/a/.local/share/floatingmemo");
    let native = data_dir_from(Some(DataPath::Native(PathBuf::from("/x"))));
    assert!(matches!(native, Ok(DataPath::Native(p)) if p == PathBuf::from("/x")));
    assert!(matches!(data_dir_from(None), Err(AppError::DataDirUnavailable)));
}
