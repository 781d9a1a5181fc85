use std::collections::HashMap;
use blitz_l10n::install_flow::{
    InstallAction, InstallEvent, InstallRun, ManifestListing, Package, ProgressAmount, Stage,
};
use blitz_l10n::model::{default_blitz_metadata, InstInfo};

fn listing(version: &str, supported: &str, entries: &[(&str, &[&str])]) -> ManifestListing {
    ManifestListing {
        version: version.to_string(),
        supported_game_version: supported.to_string(),
        entries: entries
            .iter()
            .map(|(s, ts)| (s.to_string(), ts.iter().map(|t| t.to_string()).collect()))
            .collect(),
    }
}

fn previous() -> InstInfo {
    InstInfo {
        language: "zh_CN".into(), date: "d".into(), loc_version: "0.9".into(), l10n_etag: "old-l".into(),
        font_version: "0.8".into(), font_etag: "old-f".into(), font_id: "srcwagon_mc".into(),
        installed_game_version: "11.2".into(), app_version: "0.0.9".into(), backups: HashMap::new(),
    }
}

fn step(run: &mut InstallRun, e: InstallEvent) -> InstallAction {
    assert!(run.expects(&e), "unexpected event");
    run.next(e)
}

#[test]
fn full_install_records_backups() {
    let (mut run, a) = InstallRun::start("G:/Blitz", "zh_CN", "0.1.0");
    assert!(matches!(a, InstallAction::Progress { ref note } if note.step == "start" && matches!(note.amount, ProgressAmount::Percent(0))));
    assert!(matches!(step(&mut run, InstallEvent::Ack), InstallAction::FetchMetadata));
    assert!(matches!(step(&mut run, InstallEvent::Metadata(Ok(default_blitz_metadata()))), InstallAction::ReadGameState));
    match step(&mut run, InstallEvent::GameState { game_version: "11.3.0".into(), record: Some(previous()) }) {
        InstallAction::ObtainPackage { package, url, label, installed_etag } => {
            assert_eq!(package, Package::L10n);
            assert_eq!(url, "https://gitee.com/localizedblitz/blitz-l10n-chs/raw/main/l10n.7z");
            assert_eq!(label, "l10n");
            assert_eq!(installed_etag.as_deref(), Some("old-l"));
        }
        _ => panic!("expected the localization archive"),
    }
    assert!(matches!(step(&mut run, InstallEvent::Obtained(Ok("new-l".into()))), InstallAction::ReadManifest { package: Package::L10n }));
    match step(&mut run, InstallEvent::Manifest(Some(Ok(listing("1.0", "11.3", &[("a", &["A1", "A2"]), ("b", &["B"])]))))) {
        InstallAction::CheckSources { package, sources } => {
            assert_eq!(package, Package::L10n);
            assert_eq!(sources, vec!["a".to_string(), "b".to_string()]);
        }
        _ => panic!("expected a source check"),
    }
    match step(&mut run, InstallEvent::SourcesChecked(vec![true, false])) {
        InstallAction::InstallFile { source, target, .. } => assert_eq!((source.as_str(), target.as_str()), ("a", "A1")),
        _ => panic!("expected a copy"),
    }
    assert!(matches!(step(&mut run, InstallEvent::FileInstalled(Ok("n1".into()))), InstallAction::InstallFile { .. }));
    match step(&mut run, InstallEvent::FileInstalled(Ok(String::new()))) {
        InstallAction::Progress { note } => {
            assert_eq!(note.step, "install_l10n");
            assert_eq!(note.message_key, "installing_l10n");
            assert!(matches!(note.amount, ProgressAmount::Share { done: 1, total: 2 }));
        }
        _ => panic!("expected a report"),
    }
    assert!(matches!(step(&mut run, InstallEvent::Ack), InstallAction::DiscardPackage { package: Package::L10n }));
    match step(&mut run, InstallEvent::Ack) {
        InstallAction::ObtainPackage { package, label, installed_etag, .. } => {
            assert_eq!(package, Package::Font);
            assert_eq!(label, "font");
            assert_eq!(installed_etag.as_deref(), Some("old-f"));
        }
        _ => panic!("expected the font archive"),
    }
    assert!(matches!(step(&mut run, InstallEvent::Obtained(Ok("new-f".into()))), InstallAction::ReadManifest { package: Package::Font }));
    assert!(matches!(step(&mut run, InstallEvent::Manifest(None)), InstallAction::ReadClock));
    match step(&mut run, InstallEvent::Clock("2024-05-01 10:00:00".into())) {
        InstallAction::WriteRecord { record } => {
            assert_eq!(record.language, "zh_CN");
            assert_eq!(record.date, "2024-05-01 10:00:00");
            assert_eq!(record.loc_version, "1.0");
            assert_eq!(record.l10n_etag, "new-l");
            assert_eq!(record.font_version, "0.8");
            assert_eq!(record.font_etag, "new-f");
            assert_eq!(record.font_id, "srcwagon_mc");
            assert_eq!(record.installed_game_version, "11.3.0");
            assert_eq!(record.app_version, "0.1.0");
            assert_eq!(record.backups, vec![("A1".to_string(), "n1".to_string()), ("A2".to_string(), String::new())]);
        }
        _ => panic!("expected the record"),
    }
    match step(&mut run, InstallEvent::RecordWritten(Ok(()))) {
        InstallAction::Finish { result, cleanup, final_note } => {
            assert_eq!(result, Ok("zh_CN".to_string()));
            assert!(cleanup);
            let n = final_note.expect("a final report");
            assert_eq!(n.step, "done");
            assert!(matches!(n.amount, ProgressAmount::Percent(100)));
        }
        _ => panic!("expected the end"),
    }
    assert_eq!(run.stage, Stage::Finished);
    assert!(!run.expects(&InstallEvent::Ack));
}

fn to_game_state(lang: &str) -> InstallRun {
    let (mut run, _) = InstallRun::start("G:/Blitz", lang, "0.1.0");
    step(&mut run, InstallEvent::Ack);
    run
}

#[test]
fn unknown_language_fails() {
    let mut run = to_game_state("en");
    match step(&mut run, InstallEvent::Metadata(Ok(default_blitz_metadata()))) {
        InstallAction::Finish { result, cleanup, final_note } => {
            assert_eq!(result, Err("Language 'en' not found".to_string()));
            assert!(!cleanup && final_note.is_none());
        }
        _ => panic!("expected failure"),
    }
}

#[test]
fn no_metadata_fails() {
    let mut run = to_game_state("zh_CN");
    match step(&mut run, InstallEvent::Metadata(Err("offline".into()))) {
        InstallAction::Finish { result, .. } => assert_eq!(result, Err("No localization metadata available.".to_string())),
        _ => panic!("expected failure"),
    }
    let mut run = to_game_state("zh_CN");
    match step(&mut run, InstallEvent::Metadata(Ok(Vec::new()))) {
        InstallAction::Finish { result, .. } => assert_eq!(result, Err("No localization metadata available.".to_string())),
        _ => panic!("expected failure"),
    }
}

#[test]
fn incompatible_localization_is_discarded_then_fails() {
    let mut run = to_game_state("zh_CN");
    step(&mut run, InstallEvent::Metadata(Ok(default_blitz_metadata())));
    step(&mut run, InstallEvent::GameState { game_version: "11.3.0".into(), record: None });
    step(&mut run, InstallEvent::Obtained(Ok("e".into())));
    assert!(matches!(
        step(&mut run, InstallEvent::Manifest(Some(Ok(listing("1.0", "11.4", &[]))))),
        InstallAction::DiscardPackage { package: Package::L10n }
    ));
    match step(&mut run, InstallEvent::Ack) {
        InstallAction::Finish { result, cleanup, .. } => {
            assert_eq!(result, Err("No supported version: artifact requires game version 11.4, but you have 11.3.0".to_string()));
            assert!(!cleanup);
        }
        _ => panic!("expected failure"),
    }
}

#[test]
fn incompatible_font_is_skipped() {
    let mut run = to_game_state("zh_CN");
    step(&mut run, InstallEvent::Metadata(Ok(default_blitz_metadata())));
    step(&mut run, InstallEvent::GameState { game_version: "11.3.0".into(), record: None });
    step(&mut run, InstallEvent::Obtained(Ok("el".into())));
    assert!(matches!(step(&mut run, InstallEvent::Manifest(None)), InstallAction::DiscardPackage { package: Package::L10n }));
    step(&mut run, InstallEvent::Ack);
    step(&mut run, InstallEvent::Obtained(Ok("ef".into())));
    assert!(matches!(
        step(&mut run, InstallEvent::Manifest(Some(Ok(listing("2", "12", &[("f", &["F"])]))))),
        InstallAction::DiscardPackage { package: Package::Font }
    ));
    assert!(matches!(step(&mut run, InstallEvent::Ack), InstallAction::ReadClock));
    match step(&mut run, InstallEvent::Clock("d".into())) {
        InstallAction::WriteRecord { record } => {
            assert_eq!(record.loc_version, "");
            assert_eq!(record.font_version, "");
            assert_eq!(record.font_etag, "");
            assert!(record.backups.is_empty());
        }
        _ => panic!("expected the record"),
    }
}

#[test]
fn failed_download_and_copy_end_the_run() {
    let mut run = to_game_state("zh_CN");
    step(&mut run, InstallEvent::Metadata(Ok(default_blitz_metadata())));
    step(&mut run, InstallEvent::GameState { game_version: "1".into(), record: None });
    match step(&mut run, InstallEvent::Obtained(Err("Failed to download l10n: timeout".into()))) {
        InstallAction::Finish { result, .. } => assert_eq!(result, Err("Failed to download l10n: timeout".to_string())),
        _ => panic!("expected failure"),
    }
    let mut run = to_game_state("zh_CN");
    step(&mut run, InstallEvent::Metadata(Ok(default_blitz_metadata())));
    step(&mut run, InstallEvent::GameState { game_version: "1".into(), record: None });
    step(&mut run, InstallEvent::Obtained(Ok("e".into())));
    step(&mut run, InstallEvent::Manifest(Some(Ok(listing("1", "*", &[("a", &["A"])])))));
    step(&mut run, InstallEvent::SourcesChecked(vec![true]));
    match step(&mut run, InstallEvent::FileInstalled(Err("Failed to install A: denied".into()))) {
        InstallAction::Finish { result, .. } => assert_eq!(result, Err("Failed to install A: denied".to_string())),
        _ => panic!("expected failure"),
    }
}

#[test]
fn language_without_font_skips_font() {
    let mut items = default_blitz_metadata();
    items[0].font = None;
    let mut run = to_game_state("zh_CN");
    step(&mut run, InstallEvent::Metadata(Ok(items)));
    step(&mut run, InstallEvent::GameState { game_version: "1".into(), record: Some(previous()) });
    step(&mut run, InstallEvent::Obtained(Ok("e".into())));
    step(&mut run, InstallEvent::Manifest(None));
    assert!(matches!(step(&mut run, InstallEvent::Ack), InstallAction::ReadClock));
    match step(&mut run, InstallEvent::Clock("d".into())) {
        InstallAction::WriteRecord { record } => {
            assert_eq!(record.loc_version, "0.9");
            assert_eq!(record.font_version, "");
            assert_eq!(record.font_etag, "");
            assert_eq!(record.font_id, "");
        }
        _ => panic!("expected the record"),
    }
}
