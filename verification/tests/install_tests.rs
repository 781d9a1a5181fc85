use blitz_l10n::install::{check_package_compat, package_file_ops, select_language, FileOp};
use blitz_l10n::model::default_blitz_metadata;

#[test]
fn language_selection() {
    let items = default_blitz_metadata();
    assert_eq!(select_language(&items, "zh_CN"), Ok(0));
    assert_eq!(select_language(&items, "en"), Err("Language 'en' not found".to_string()));
    assert_eq!(select_language(&Vec::new(), "zh_CN"), Err("No localization metadata available.".to_string()));
}

#[test]
fn language_selection_takes_first_match() {
    let mut items = default_blitz_metadata();
    items.extend(default_blitz_metadata());
    items[0].id = "en".to_string();
    assert_eq!(select_language(&items, "zh_CN"), Ok(1));
    assert_eq!(select_language(&items, "en"), Ok(0));
}

#[test]
fn package_compatibility_message() {
    assert_eq!(check_package_compat("11.3", "11.3.0"), Ok(()));
    assert_eq!(check_package_compat("*", "9"), Ok(()));
    assert_eq!(
        check_package_compat("11.4", "11.3.0"),
        Err("No supported version: artifact requires game version 11.4, but you have 11.3.0".to_string())
    );
}

fn describe(ops: &[FileOp]) -> Vec<String> {
    ops.iter()
        .map(|o| match o {
            FileOp::Install { source, target } => format!("{}->{}", source, target),
            FileOp::Report { done, total } => format!("{}/{}", done, total),
        })
        .collect()
}

#[test]
fn copy_plan_skips_missing_sources() {
    let entries = vec![
        ("a.yaml".to_string(), vec!["Strings/a.yaml".to_string(), "Strings/a2.yaml".to_string()]),
        ("missing.yaml".to_string(), vec!["Strings/m.yaml".to_string()]),
        ("font.ttf".to_string(), vec![]),
        ("b.yaml".to_string(), vec!["Strings/b.yaml".to_string()]),
    ];
    let ops = package_file_ops(&entries, &vec![true, false, true, true]);
    assert_eq!(
        describe(&ops),
        vec!["a.yaml->Strings/a.yaml", "a.yaml->Strings/a2.yaml", "1/4", "2/4", "b.yaml->Strings/b.yaml", "3/4"]
    );
}

#[test]
fn copy_plan_of_empty_manifest() {
    assert!(package_file_ops(&Vec::new(), &Vec::new()).is_empty());
    let entries = vec![("x".to_string(), vec!["y".to_string()])];
    assert!(package_file_ops(&entries, &vec![false]).is_empty());
}
