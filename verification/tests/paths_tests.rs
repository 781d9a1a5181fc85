use blitz_l10n::paths::{
    backup_dir, backup_file_name, backup_plan, backup_record, cache_dir, cache_files, join_path,
    path_extension, restore_plan, FileRestore,
};

#[test]
fn join_inserts_one_separator() {
    assert_eq!(join_path("C:/data", "cache"), "C:/data/cache");
    assert_eq!(join_path("C:/data/", "cache"), "C:/data/cache");
    assert_eq!(join_path("C:\\data\\", "cache"), "C:\\data\\cache");
    assert_eq!(join_path("", "cache"), "cache");
}

#[test]
fn backup_and_cache_dirs() {
    assert_eq!(backup_dir("C:/lbi", "f309f1211feffd82"), "C:/lbi/backups/f309f1211feffd82");
    assert_eq!(cache_dir("C:/lbi"), "C:/lbi/cache");
}

#[test]
fn extension_rules() {
    assert_eq!(path_extension("Strings/zh.yaml").as_deref(), Some("yaml"));
    assert_eq!(path_extension("a\\b.tar.gz").as_deref(), Some("gz"));
    assert_eq!(path_extension("config"), None);
    assert_eq!(path_extension("a/.hidden"), None);
    assert_eq!(path_extension("dir.d/file.").as_deref(), Some(""));
    assert_eq!(path_extension("dir.d/file"), None);
    assert_eq!(path_extension("a/b.txt/"), Some("txt".to_string()));
    assert_eq!(path_extension("a/b.txt/."), Some("txt".to_string()));
    assert_eq!(path_extension("a/.."), None);
    assert_eq!(path_extension(""), None);
}

#[test]
fn backup_names() {
    assert_eq!(backup_file_name("Strings/zh.yaml"), "b17417bba95c8b1ae21f9e73.yaml");
    assert_eq!(backup_file_name("Fonts/main.ttf"), "c715a4279481c7f3beea9c1f.ttf");
    assert_eq!(backup_file_name("config"), "b79606fb3afea5bd1609ed40.bak");
    assert_eq!(backup_file_name("a/.hidden"), "4688fa138cd0dcea72e85dd4.bak");
    assert_eq!(backup_file_name("dir.d/file."), "516ccf67a696a5fab6a338cf.bak");
}

#[test]
fn backup_record_empty_for_new_files() {
    assert_eq!(backup_record(false, "Strings/zh.yaml"), "");
    assert_eq!(backup_record(true, "Strings/zh.yaml"), "b17417bba95c8b1ae21f9e73.yaml");
}

#[test]
fn restore_undoes_backup_example() {
    let b = backup_plan("Strings/zh.yaml", "C:/lbi/backups/x");
    assert_eq!(b.name, "b17417bba95c8b1ae21f9e73.yaml");
    assert_eq!(b.to, "C:/lbi/backups/x/b17417bba95c8b1ae21f9e73.yaml");
    match restore_plan(&b.name, "C:/lbi/backups/x") {
        FileRestore::CopyBack { from } => assert_eq!(from, b.to),
        FileRestore::RemoveInstalled => panic!("expected a copy back"),
    }
}

#[test]
fn restore_removes_new_files() {
    match restore_plan("", "C:/lbi/backups/x") {
        FileRestore::RemoveInstalled => {}
        FileRestore::CopyBack { .. } => panic!("expected removal"),
    }
}

#[test]
fn cache_and_backups_are_siblings() {
    let cache = cache_dir("C:/lbi");
    let backups = backup_dir("C:/lbi", "0123456789abcdef");
    assert_eq!(cache, "C:/lbi/cache");
    assert_eq!(backups, "C:/lbi/backups/0123456789abcdef");
    assert!(!backups.starts_with(&cache));
    assert!(!cache.starts_with(&backups));
}
