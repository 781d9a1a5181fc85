//! Small application-level decisions: updates, theme, start-up language and
//! the size of the download cache.
use vstd::prelude::*;
use crate::version::{version_is_newer, version_newer};
use crate::text::same_chars;

verus! {

/// A newer release of the installer: its version and download location.
pub struct UpdateInfo {
    pub version: String,
    pub path: String,
}

/// The release `info`, if it is newer than the running version `current`.
pub fn update_if_newer(info: UpdateInfo, current: &str) -> (r: Option<UpdateInfo>)
    ensures
        version_is_newer(info.version@, current@) ==> r == Some(info),
        !version_is_newer(info.version@, current@) ==> r is None,
{
    if version_newer(info.version.as_str(), current) {
        Some(info)
    } else {
        None
    }
}

// ── Small settings ──

/// The window theme.
pub enum WindowTheme {
    Dark,
    Light,
}

/// The theme named `name`: dark for `dark`, light for anything else.
pub fn theme_from_name(name: &str) -> (r: WindowTheme)
    ensures
        (r is Dark) == (name@ == "dark"@),
{
    if same_chars(name, "dark") {
        WindowTheme::Dark
    } else {
        WindowTheme::Light
    }
}

/// The language the user interface starts in: the configured one when a
/// configuration file exists (Simplified Chinese when it cannot be read),
/// otherwise the one derived from the system locale.
pub fn initial_language(config_exists: bool, configured: Option<String>, system_language: String) -> (r: String)
    ensures
        config_exists && configured is Some ==> r == configured.unwrap(),
        config_exists && configured is None ==> r@ == "zh_CN"@,
        !config_exists ==> r == system_language,
{
    if config_exists {
        match configured {
            Some(l) => l,
            None => "zh_CN".to_owned(),
        }
    } else {
        system_language
    }
}

/// The unit in which a cache size is shown.
pub enum SizeUnit {
    Gigabytes,
    Megabytes,
    Kilobytes,
    Bytes,
}

/// The largest unit, among GiB, MiB and KiB, of which `bytes` holds at least
/// one; bytes otherwise.
pub fn size_unit(bytes: u64) -> (r: SizeUnit)
    ensures
        (r is Gigabytes) == (bytes >= 1_073_741_824),
        (r is Megabytes) == (1_048_576 <= bytes < 1_073_741_824),
        (r is Kilobytes) == (1024 <= bytes < 1_048_576),
        (r is Bytes) == (bytes < 1024),
{
    if bytes >= 1_073_741_824 {
        SizeUnit::Gigabytes
    } else if bytes >= 1_048_576 {
        SizeUnit::Megabytes
    } else if bytes >= 1024 {
        SizeUnit::Kilobytes
    } else {
        SizeUnit::Bytes
    }
}

/// One entry of the cache directory: whether it is a file, and its length.
pub struct CacheEntry {
    pub is_file: bool,
    pub len: u64,
}

/// The total length of the files among `entries`.
pub open spec fn files_total(entries: Seq<CacheEntry>) -> int
    decreases entries.len(),
{
    if entries.len() == 0 {
        0
    } else {
        files_total(entries.drop_last()) + if entries.last().is_file {
            entries.last().len as int
        } else {
            0
        }
    }
}

proof fn lemma_files_total_prefix(entries: Seq<CacheEntry>, i: int)
    requires
        0 <= i <= entries.len(),
    ensures
        0 <= files_total(entries.take(i)) <= files_total(entries),
    decreases entries.len() - i,
{
    if i < entries.len() {
        lemma_files_total_prefix(entries, i + 1);
        assert(entries.take(i + 1).drop_last() =~= entries.take(i));
        lemma_files_total_nonneg(entries.take(i));
    } else {
        assert(entries.take(i) =~= entries);
        lemma_files_total_nonneg(entries);
    }
}

proof fn lemma_files_total_nonneg(entries: Seq<CacheEntry>)
    ensures
        files_total(entries) >= 0,
    decreases entries.len(),
{
    if entries.len() > 0 {
        lemma_files_total_nonneg(entries.drop_last());
    }
}

/// The number of bytes the cache holds: the lengths of its files added up.
pub fn total_file_bytes(entries: &Vec<CacheEntry>) -> (r: u64)
    requires
        files_total(entries@) <= u64::MAX,
    ensures
        r == files_total(entries@),
{
    let mut total: u64 = 0;
    let mut i: usize = 0;
    while i < entries.len()
        invariant
            i <= entries@.len(),
            files_total(entries@) <= u64::MAX,
            total == files_total(entries@.take(i as int)),
        decreases entries@.len() - i,
    {
        assert(entries@.take(i + 1).drop_last() =~= entries@.take(i as int));
        proof {
            lemma_files_total_prefix(entries@, i + 1);
        }
        if entries[i].is_file {
            total = total + entries[i].len;
        }
        i += 1;
    }
    assert(entries@.take(entries@.len() as int) =~= entries@);
    total
}

} // verus!
