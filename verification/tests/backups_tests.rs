use blitz_l10n::backups::latest_backup_list;

fn pairs(v: &[(&str, &str)]) -> Vec<(String, String)> {
    v.iter().map(|(a, b)| (a.to_string(), b.to_string())).collect()
}

#[test]
fn later_backup_of_a_file_replaces_earlier() {
    let taken = pairs(&[("A", "1"), ("B", "2"), ("A", "3"), ("C", ""), ("B", "4")]);
    assert_eq!(latest_backup_list(&taken), pairs(&[("A", "3"), ("C", ""), ("B", "4")]));
}

#[test]
fn distinct_files_are_kept_in_order() {
    let taken = pairs(&[("x", "1"), ("y", "2"), ("z", "")]);
    assert_eq!(latest_backup_list(&taken), taken);
    assert!(latest_backup_list(&Vec::new()).is_empty());
}
