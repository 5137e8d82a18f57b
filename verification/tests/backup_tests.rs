use floating_memo::backup::{
    backup_file_name, backups_to_prune, is_backup_file, BackupFile, KEEP_BACKUPS,
};

fn file(name: &str, modified: i128) -> BackupFile {
    BackupFile { name: name.to_string(), modified }
}

#[test]
fn backup_names() {
    assert_eq!(backup_file_name(1700000000000), "notes-1700000000000.db");
    assert_eq!(backup_file_name(-5), "notes--5.db");
    assert!(is_backup_file(&backup_file_name(0)));
    assert!(is_backup_file(&backup_file_name(i64::MIN)));
    assert!(is_backup_file("notes-.db"));
    assert!(!is_backup_file("notes.db"));
    assert!(!is_backup_file("notes-1.db.tmp"));
    assert!(!is_backup_file("other-1.db"));
}

#[test]
fn seven_backups_keep_newest_five() {
    let files: Vec<BackupFile> =
        (0..7).map(|i| file(&format!("notes-{i}.db"), 100 + i as i128)).collect();
    let del = backups_to_prune(&files, KEEP_BACKUPS);
    assert_eq!(del, vec![true, true, false, false, false, false, false]);
    assert_eq!(del.iter().filter(|d| !**d).count(), KEEP_BACKUPS);
}

#[test]
fn other_files_are_never_pruned() {
    let files = vec![
        file("readme.txt", 1),
        file("notes-a.db", 5),
        file("notes.db", 0),
        file("notes-b.db", 9),
        file("notes-c.db", 7),
    ];
    let del = backups_to_prune(&files, 2);
    assert_eq!(del, vec![false, true, false, false, false]);
    let none = backups_to_prune(&files, 10);
    assert!(none.iter().all(|d| !d));
    let all = backups_to_prune(&files, 0);
    assert_eq!(all, vec![false, true, false, true, true]);
}

#[test]
fn equal_times_keep_directory_order() {
    let files = vec![file("notes-x.db", 3), file("notes-y.db", 3), file("notes-z.db", 3)];
    assert_eq!(backups_to_prune(&files, 2), vec![false, false, true]);
    assert_eq!(backups_to_prune(&files, 1), vec![false, true, true]);
    assert!(backups_to_prune(&Vec::new(), 5).is_empty());
}
