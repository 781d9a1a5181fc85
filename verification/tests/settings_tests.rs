use blitz_l10n::settings::{
    initial_language, size_unit, theme_from_name, total_file_bytes, update_if_newer, CacheEntry, SizeUnit,
    UpdateInfo, WindowTheme,
};

#[test]
fn updates() {
    let info = UpdateInfo { version: "0.2.0".into(), path: "https://x/setup.exe".into() };
    let got = update_if_newer(info, "0.1.9").expect("newer");
    assert_eq!(got.version, "0.2.0");
    assert_eq!(got.path, "https://x/setup.exe");
    assert!(update_if_newer(UpdateInfo { version: "0.1.9".into(), path: String::new() }, "0.1.9").is_none());
    assert!(update_if_newer(UpdateInfo { version: "0.1".into(), path: String::new() }, "0.1.0").is_none());
    assert!(update_if_newer(UpdateInfo { version: "0.1.8".into(), path: String::new() }, "0.1.9").is_none());
}

#[test]
fn themes() {
    assert!(matches!(theme_from_name("dark"), WindowTheme::Dark));
    assert!(matches!(theme_from_name("Dark"), WindowTheme::Light));
    assert!(matches!(theme_from_name("light"), WindowTheme::Light));
    assert!(matches!(theme_from_name(""), WindowTheme::Light));
}

#[test]
fn start_language() {
    assert_eq!(initial_language(true, Some("en".into()), "ru".into()), "en");
    assert_eq!(initial_language(true, None, "ru".into()), "zh_CN");
    assert_eq!(initial_language(false, Some("en".into()), "ru".into()), "ru");
}

#[test]
fn cache_sizes() {
    assert!(matches!(size_unit(0), SizeUnit::Bytes));
    assert!(matches!(size_unit(1023), SizeUnit::Bytes));
    assert!(matches!(size_unit(1024), SizeUnit::Kilobytes));
    assert!(matches!(size_unit(1_048_575), SizeUnit::Kilobytes));
    assert!(matches!(size_unit(1_048_576), SizeUnit::Megabytes));
    assert!(matches!(size_unit(1_073_741_824), SizeUnit::Gigabytes));
    let entries = vec![
        CacheEntry { is_file: true, len: 100 },
        CacheEntry { is_file: false, len: 4096 },
        CacheEntry { is_file: true, len: 24 },
    ];
    assert_eq!(total_file_bytes(&entries), 124);
    assert_eq!(total_file_bytes(&Vec::new()), 0);
}
