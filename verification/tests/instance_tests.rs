use blitz_l10n::instance::{
    common_instance_dir, drive_letters, drive_probe_root, instance_infos, is_skipped_drive_type,
    lgc_exe_path, merge_instances, registry_instances, select_common_instances, usable_drive_roots,
    CommonCandidate, DriveProbe,
};

fn e(p: &str) -> (String, String) {
    (p.to_string(), "production".to_string())
}

#[test]
fn lgc_value_with_icon_index() {
    // Only surrounding quotes are trimmed, so a quoted path followed by an
    // icon index keeps its closing quote and is not cut.
    assert_eq!(lgc_exe_path("\"C:\\Program Files\\LGC\\lgc.exe\",0").as_deref(), Some("C:\\Program Files\\LGC\\lgc.exe\",0"));
    assert_eq!(lgc_exe_path("\"C:\\LGC\\LGC.EXE,1\"").as_deref(), Some("C:\\LGC\\LGC.EXE"));
    assert_eq!(lgc_exe_path("C:\\LGC\\icons.ico,3").as_deref(), Some("C:\\LGC\\icons.ico"));
}

#[test]
fn lgc_value_without_known_extension_keeps_comma() {
    assert_eq!(lgc_exe_path("\"C:\\a,b\\lgc\"").as_deref(), Some("C:\\a,b\\lgc"));
    assert_eq!(lgc_exe_path("C:\\LGC\\lgc.exe").as_deref(), Some("C:\\LGC\\lgc.exe"));
}

#[test]
fn lgc_empty_value() {
    assert_eq!(lgc_exe_path(""), None);
    assert_eq!(lgc_exe_path("\"\"").as_deref(), Some(""));
}

#[test]
fn drives() {
    let letters = drive_letters();
    assert_eq!(letters.len(), 26);
    assert_eq!(letters[0], 'A');
    assert_eq!(letters[25], 'Z');
    assert_eq!(drive_probe_root('C'), "C:\\");
    assert!(is_skipped_drive_type(1) && is_skipped_drive_type(5) && is_skipped_drive_type(6));
    assert!(!is_skipped_drive_type(3) && !is_skipped_drive_type(2) && !is_skipped_drive_type(4));
    let probes = vec![
        DriveProbe { letter: 'A', exists: false, drive_type: 0 },
        DriveProbe { letter: 'C', exists: true, drive_type: 3 },
        DriveProbe { letter: 'D', exists: true, drive_type: 5 },
        DriveProbe { letter: 'E', exists: true, drive_type: 2 },
        DriveProbe { letter: 'R', exists: true, drive_type: 6 },
    ];
    assert_eq!(usable_drive_roots(&probes), vec!["C:/".to_string(), "E:/".to_string()]);
}

#[test]
fn common_dir_on_drive() {
    assert_eq!(common_instance_dir("C:/"), "C:/Games/Tanks_Blitz");
    assert_eq!(common_instance_dir("C:\\"), "C:/Games/Tanks_Blitz");
}

#[test]
fn common_selection_first_directory_wins() {
    let c = |p: &str, d: bool, v: bool| CommonCandidate { path: p.to_string(), is_dir: d, valid: v };
    let found = select_common_instances(&vec![
        c("C:/Games/Tanks_Blitz", false, true),
        c("D:/Games/Tanks_Blitz", true, false),
        c("D:/Games/Tanks_Blitz", true, true),
        c("E:/Games/Tanks_Blitz", true, true),
        c("E:/Games/Tanks_Blitz", true, true),
        c("C:/Games/Tanks_Blitz", true, true),
    ]);
    assert_eq!(found, vec![e("E:/Games/Tanks_Blitz"), e("C:/Games/Tanks_Blitz")]);
}

#[test]
fn registry_paths_get_forward_slashes() {
    let r = registry_instances(&vec!["C:\\Games\\Tanks_Blitz".to_string(), "E:/Blitz".to_string()]);
    assert_eq!(r, vec![e("C:/Games/Tanks_Blitz"), e("E:/Blitz")]);
}

#[test]
fn merge_keeps_first_of_each_path() {
    let registry = vec![e("C:/A"), e("C:/B"), e("C:/A")];
    let common = vec![("C:/B".to_string(), "other".to_string()), e("D:/C")];
    let merged = merge_instances(registry, common);
    assert_eq!(merged, vec![e("C:/A"), e("C:/B"), e("D:/C")]);
}

#[test]
fn merge_of_nothing_is_nothing() {
    assert!(merge_instances(Vec::new(), Vec::new()).is_empty());
}

#[test]
fn infos_keep_order() {
    let infos = instance_infos(vec![e("C:/A"), ("D:/B".to_string(), "x".to_string())]);
    assert_eq!(infos.len(), 2);
    assert_eq!(infos[0].path, "C:/A");
    assert_eq!(infos[0].type_code, "production");
    assert_eq!(infos[1].path, "D:/B");
    assert_eq!(infos[1].type_code, "x");
}
