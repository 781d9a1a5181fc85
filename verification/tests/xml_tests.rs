use blitz_l10n::xml::preferences_working_dirs;

const PREFS: &str = r#"<?xml version="1.0" encoding="utf-8"?>
<application>
  <games_manager>
    <games>
      <game>
        <game_id>WOTB.RU.PRODUCTION</game_id>
        <working_dir>C:\Games\Tanks_Blitz</working_dir>
      </game>
      <game>
        <game_id>WOT.RU.PRODUCTION</game_id>
        <working_dir>C:\Games\World_of_Tanks</working_dir>
      </game>
      <game>
        <working_dir>D:\Other</working_dir>
      </game>
      <game>
        <game_id>WOTB.RU.PRODUCTION</game_id>
      </game>
      <game>
        <game_id>WOTB.RU.PRODUCTION</game_id>
        <working_dir>E:\Blitz</working_dir>
        <nested><game><game_id>WOTB.RU.PRODUCTION</game_id><working_dir>F:\No</working_dir></game></nested>
      </game>
    </games>
  </games_manager>
</application>"#;

#[test]
fn lists_matching_games_in_order() {
    assert_eq!(
        preferences_working_dirs(PREFS),
        vec!["C:\\Games\\Tanks_Blitz".to_string(), "E:\\Blitz".to_string()]
    );
}

#[test]
fn not_xml_gives_nothing() {
    assert!(preferences_working_dirs("<application><games>").is_empty());
    assert!(preferences_working_dirs("").is_empty());
}

#[test]
fn no_games_element_gives_nothing() {
    assert!(preferences_working_dirs("<application><game><game_id>WOTB.RU.PRODUCTION</game_id><working_dir>C:/x</working_dir></game></application>").is_empty());
}

#[test]
fn only_first_games_element_counts() {
    let xml = "<a><games></games><games><game><game_id>WOTB.RU.PRODUCTION</game_id><working_dir>C:/x</working_dir></game></games></a>";
    assert!(preferences_working_dirs(xml).is_empty());
}

#[test]
fn namespaced_tags_match_by_local_name() {
    let xml = "<a xmlns:p='urn:x'><p:games><p:game><p:game_id>WOTB.RU.PRODUCTION</p:game_id><p:working_dir>C:/ns</p:working_dir></p:game></p:games></a>";
    assert_eq!(preferences_working_dirs(xml), vec!["C:/ns".to_string()]);
}

#[test]
fn first_game_id_decides() {
    let xml = "<games><game><game_id>OTHER</game_id><game_id>WOTB.RU.PRODUCTION</game_id><working_dir>C:/x</working_dir></game></games>";
    assert!(preferences_working_dirs(xml).is_empty());
}
