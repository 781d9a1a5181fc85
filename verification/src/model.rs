//! The records the installer reads and writes: localization metadata,
//! archive manifests, the installation record and the status shown per game.
use vstd::prelude::*;
use std::collections::HashMap;
use crate::version::{version_compatible, is_version_compatible};

verus! {

/// A downloadable localization archive.
#[derive(Debug)]
pub struct L10nPackage {
    pub path: String,
    pub version: String,
    pub supported_blitz_version: Option<String>,
}

/// A downloadable font archive.
#[derive(Debug)]
pub struct FontPackage {
    pub id: String,
    pub name: String,
    pub path: String,
    pub version: String,
}

/// One language offered for Tanks Blitz: its localization and optional font.
#[derive(Debug)]
pub struct BlitzMetadataItem {
    pub id: String,
    pub name: String,
    pub l10n: L10nPackage,
    pub font: Option<FontPackage>,
}

/// The `metadata.json` inside an extracted archive: its version, the game
/// version it supports, and for each file in the archive the game files
/// (relative to `Data`) it is copied to.
#[derive(Debug)]
pub struct ExtractManifest {
    pub version: String,
    pub supported_game_version: String,
    pub files: HashMap<String, Vec<String>>,
}

/// The installation record kept in a game's `Data` directory.
#[derive(Debug)]
pub struct InstInfo {
    pub language: String,
    pub date: String,
    pub loc_version: String,
    pub l10n_etag: String,
    pub font_version: String,
    pub font_etag: String,
    pub font_id: String,
    pub installed_game_version: String,
    pub app_version: String,
    /// For each game file written, the name of its backup (empty when the file was new).
    pub backups: HashMap<String, String>,
}

/// What the user interface shows about one game installation.
#[derive(Debug)]
pub struct BlitzStatus {
    pub path: String,
    pub version: String,
    pub loc_installed: bool,
    pub loc_version: String,
    pub font_version: String,
    pub loc_language: String,
    pub is_compatible: bool,
}

/// A progress report sent to the user interface during an installation.
#[derive(Debug)]
pub struct ProgressPayload {
    pub step: String,
    pub percent: u32,
    pub message: String,
    pub message_key: String,
    pub message_params: HashMap<String, String>,
    pub instance: String,
    pub downloaded_bytes: u64,
    pub total_bytes: u64,
}

/// The languages on offer: Simplified Chinese, with the SrcWagon MainlandCN font.
pub fn default_blitz_metadata() -> (r: Vec<BlitzMetadataItem>)
    ensures
        r@.len() == 1,
        r@[0].id@ == "zh_CN"@,
        r@[0].name@ == "简体中文"@,
        r@[0].l10n.path@ == "https://gitee.com/localizedblitz/blitz-l10n-chs/raw/main/l10n.7z"@,
        r@[0].l10n.version@.len() == 0,
        r@[0].l10n.supported_blitz_version is None,
        r@[0].font matches Some(f) && f.id@ == "srcwagon_mc"@ && f.name@ == "SrcWagon MainlandCN"@
            && f.path@ == "https://pub-e75a159ebad9491ea3597f0b48e69823.r2.dev/blitz/fonts/SrcWagon-MainlandCN.7z"@
            && f.version@.len() == 0,
{
    let item = BlitzMetadataItem {
        id: "zh_CN".to_owned(),
        name: "简体中文".to_owned(),
        l10n: L10nPackage {
            path: "https://gitee.com/localizedblitz/blitz-l10n-chs/raw/main/l10n.7z".to_owned(),
            version: String::new(),
            supported_blitz_version: None,
        },
        font: Some(FontPackage {
            id: "srcwagon_mc".to_owned(),
            name: "SrcWagon MainlandCN".to_owned(),
            path: "https://pub-e75a159ebad9491ea3597f0b48e69823.r2.dev/blitz/fonts/SrcWagon-MainlandCN.7z".to_owned(),
            version: String::new(),
        }),
    };
    let mut r: Vec<BlitzMetadataItem> = Vec::new();
    r.push(item);
    r
}

/// The status of the game at `blitz_path`, whose executable reports
/// `exe_version`, given its installation record when one could be read.
/// Without a record nothing is installed; with one, the localization counts
/// as compatible when the game version it was installed for fits `exe_version`.
pub fn check_blitz_status(blitz_path: &str, exe_version: &str, record: Option<&InstInfo>) -> (r: BlitzStatus)
    ensures
        r.path@ == blitz_path@,
        r.version@ == exe_version@,
        r.loc_installed == record is Some,
        match record {
            Some(info) => r.loc_version@ == info.loc_version@ && r.font_version@ == info.font_version@
                && r.loc_language@ == info.language@
                && r.is_compatible == version_compatible(info.installed_game_version@, exe_version@),
            None => r.loc_version@.len() == 0 && r.font_version@.len() == 0
                && r.loc_language@.len() == 0 && !r.is_compatible,
        },
{
    match record {
        Some(info) => {
            let is_compatible = is_version_compatible(info.installed_game_version.as_str(), exe_version);
            BlitzStatus {
                path: blitz_path.to_owned(),
                version: exe_version.to_owned(),
                loc_installed: true,
                loc_version: info.loc_version.clone(),
                font_version: info.font_version.clone(),
                loc_language: info.language.clone(),
                is_compatible,
            }
        },
        None => BlitzStatus {
            path: blitz_path.to_owned(),
            version: exe_version.to_owned(),
            loc_installed: false,
            loc_version: String::new(),
            font_version: String::new(),
            loc_language: String::new(),
            is_compatible: false,
        },
    }
}

/// A progress report for `instance` at `step`, `percent` done, with an empty
/// message and no message parameters.
pub fn progress_payload(instance: &str, step: &str, percent: u32, message_key: &str,
    downloaded_bytes: u64, total_bytes: u64) -> (r: ProgressPayload)
    ensures
        r.step@ == step@,
        r.percent == percent,
        r.message@.len() == 0,
        r.message_key@ == message_key@,
        r.message_params@ == Map::<String, String>::empty(),
        r.instance@ == instance@,
        r.downloaded_bytes == downloaded_bytes,
        r.total_bytes == total_bytes,
{
    ProgressPayload {
        step: step.to_owned(),
        percent,
        message: String::new(),
        message_key: message_key.to_owned(),
        message_params: HashMap::new(),
        instance: instance.to_owned(),
        downloaded_bytes,
        total_bytes,
    }
}

} // verus!
