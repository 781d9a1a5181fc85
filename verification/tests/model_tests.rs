use std::collections::HashMap;
use blitz_l10n::model::{check_blitz_status, default_blitz_metadata, progress_payload, InstInfo};

fn record(game: &str) -> InstInfo {
    InstInfo {
        language: "zh_CN".into(), date: "d".into(), loc_version: "1.2".into(), l10n_etag: "a".into(),
        font_version: "3".into(), font_etag: "b".into(), font_id: "srcwagon_mc".into(),
        installed_game_version: game.into(), app_version: "0.1.0".into(), backups: HashMap::new(),
    }
}

#[test]
fn metadata_on_offer() {
    let items = default_blitz_metadata();
    assert_eq!(items.len(), 1);
    assert_eq!(items[0].id, "zh_CN");
    assert_eq!(items[0].name, "简体中文");
    assert_eq!(items[0].l10n.path, "https://gitee.com/localizedblitz/blitz-l10n-chs/raw/main/l10n.7z");
    let font = items[0].font.as_ref().unwrap();
    assert_eq!(font.id, "srcwagon_mc");
    assert_eq!(font.name, "SrcWagon MainlandCN");
}

#[test]
fn status_with_record() {
    let s = check_blitz_status("C:/Games/Tanks_Blitz", "11.3.0.100", Some(&record("11.3")));
    assert!(s.loc_installed);
    assert!(s.is_compatible);
    assert_eq!(s.loc_version, "1.2");
    assert_eq!(s.font_version, "3");
    assert_eq!(s.loc_language, "zh_CN");
    let t = check_blitz_status("C:/Games/Tanks_Blitz", "11.4.0", Some(&record("11.3")));
    assert!(t.loc_installed && !t.is_compatible);
}

#[test]
fn status_without_record() {
    let s = check_blitz_status("C:/Games/Tanks_Blitz", "11.3.0", None);
    assert!(!s.loc_installed);
    assert!(!s.is_compatible);
    assert_eq!(s.path, "C:/Games/Tanks_Blitz");
    assert_eq!(s.version, "11.3.0");
    assert_eq!(s.loc_version, "");
    assert_eq!(s.loc_language, "");
}

#[test]
fn progress_report() {
    let p = progress_payload("C:/G", "download", 42, "l10n", 10, 20);
    assert_eq!(p.step, "download");
    assert_eq!(p.percent, 42);
    assert_eq!(p.message, "");
    assert!(p.message_params.is_empty());
    assert_eq!(p.instance, "C:/G");
    assert_eq!((p.downloaded_bytes, p.total_bytes), (10, 20));
}
