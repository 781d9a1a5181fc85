use blitz_l10n::digest::{instance_fingerprint, to_forward_slashes, uninstall_fingerprint};

#[test]
fn fingerprint_of_known_path() {
    assert_eq!(instance_fingerprint("C:/Games/Tanks_Blitz"), "f309f1211feffd82");
}

#[test]
fn fingerprint_ignores_case_and_slash_kind() {
    let a = instance_fingerprint("C:\\Games\\Tanks_Blitz");
    let b = instance_fingerprint("c:/games/tanks_blitz");
    assert_eq!(a, b);
    assert_eq!(a, "f309f1211feffd82");
}

#[test]
fn fingerprint_has_sixteen_hex_digits() {
    let f = instance_fingerprint("D:/WoT Blitz");
    assert_eq!(f, "e29d9bd52a441fc0");
    assert_eq!(f.len(), 16);
    assert!(f.chars().all(|c| c.is_ascii_hexdigit() && !c.is_ascii_uppercase()));
}

#[test]
fn uninstall_fingerprint_matches_install() {
    assert_eq!(uninstall_fingerprint("C:\\Games\\Tanks_Blitz"), instance_fingerprint("C:\\Games\\Tanks_Blitz"));
}

#[test]
fn forward_slashes_replace_backslashes() {
    assert_eq!(to_forward_slashes("a\\b/c\\"), "a/b/c/");
    assert_eq!(to_forward_slashes(""), "");
}

#[test]
fn slash_kind_never_changes_the_fingerprint() {
    let a = instance_fingerprint("D:\\Games\\ΣΑΣ\\Blitz");
    assert_eq!(instance_fingerprint("D:/Games/ΣΑΣ/Blitz"), a);
    assert_eq!(uninstall_fingerprint("D:\\Games\\ΣΑΣ\\Blitz"), a);
    assert_eq!(uninstall_fingerprint("D:/Games\\ΣΑΣ/Blitz"), a);
}
