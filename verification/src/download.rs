//! Obtaining a package archive: whether the download cache or the installed
//! package can be used, and what a download reports.
use vstd::prelude::*;
use crate::text::{chars_of, string_of, trim_char_chars, trim_char, same_chars, trim_ws, trim_whitespace};

verus! {

/// How a package archive is obtained.
pub enum CacheAction {
    /// The cached archive carries the server's current tag: extract it.
    ExtractCached,
    /// The installed package already carries the server's current tag: keep
    /// it, re-extracting the cached archive when there is one.
    KeepInstalled { extract_cached: bool },
    /// Download the archive.
    Download,
}

/// The choice between the cache, the installed package and a download, given
/// whether a cached archive exists, the server's entity tag (empty when
/// unknown), the text of the cached tag file, and the tag recorded at the
/// last installation.
pub open spec fn cache_action_of(cached_exists: bool, remote_etag: Seq<char>, cached_etag_file: Seq<char>,
    installed_etag: Option<Seq<char>>) -> CacheAction {
    if cached_exists && remote_etag.len() > 0 && trim_ws(cached_etag_file) == remote_etag {
        CacheAction::ExtractCached
    } else if installed_etag matches Some(s) && s.len() > 0 && remote_etag.len() > 0 && s == remote_etag {
        CacheAction::KeepInstalled { extract_cached: cached_exists }
    } else {
        CacheAction::Download
    }
}

/// Decides how to obtain a package archive (see [`cache_action_of`]).
pub fn cache_action(cached_exists: bool, remote_etag: &str, cached_etag_file: &str,
    installed_etag: Option<&str>) -> (r: CacheAction)
    ensures
        r == cache_action_of(cached_exists, remote_etag@, cached_etag_file@,
            match installed_etag { Some(s) => Some(s@), None => None }),
{
    let cached = trim_whitespace(cached_etag_file);
    if cached_exists && !remote_etag.is_empty() && same_chars(cached.as_str(), remote_etag) {
        return CacheAction::ExtractCached;
    }
    match installed_etag {
        Some(s) => {
            if !s.is_empty() && !remote_etag.is_empty() && same_chars(s, remote_etag) {
                return CacheAction::KeepInstalled { extract_cached: cached_exists };
            }
        },
        None => {},
    }
    CacheAction::Download
}

/// A cached archive is extracted only when it exists and its tag file, trimmed,
/// is the server's (non-empty) tag; the installed package is kept only when
/// its recorded tag is the server's (non-empty) tag.
pub proof fn law_cache_used_only_on_matching_tag(cached_exists: bool, remote_etag: Seq<char>,
    cached_etag_file: Seq<char>, installed_etag: Option<Seq<char>>)
    ensures
        cache_action_of(cached_exists, remote_etag, cached_etag_file, installed_etag) is ExtractCached
            ==> cached_exists && remote_etag.len() > 0 && trim_ws(cached_etag_file) == remote_etag,
        cache_action_of(cached_exists, remote_etag, cached_etag_file, installed_etag) is KeepInstalled
            ==> remote_etag.len() > 0 && installed_etag == Some(remote_etag),
{
}

/// When neither the cached tag file (trimmed) nor the installed record carries
/// the server's tag, the archive is downloaded, whether or not there is an
/// installed record and whether or not the cache holds an archive.
pub proof fn law_stale_tags_download(cached_exists: bool, remote_etag: Seq<char>,
    cached_etag_file: Seq<char>, installed_etag: Option<Seq<char>>)
    requires
        trim_ws(cached_etag_file) != remote_etag,
        installed_etag != Some(remote_etag),
    ensures
        cache_action_of(cached_exists, remote_etag, cached_etag_file, installed_etag) is Download,
{
}

/// An unknown server tag (empty) always means a download.
pub proof fn law_unknown_tag_downloads(cached_exists: bool, cached_etag_file: Seq<char>,
    installed_etag: Option<Seq<char>>)
    ensures
        cache_action_of(cached_exists, Seq::<char>::empty(), cached_etag_file, installed_etag) is Download,
{
}

/// The entity tag carried by a response header value (`None` when absent or
/// not text): the value without surrounding double quotes, or empty.
pub fn etag_from_header(value: Option<&str>) -> (r: String)
    ensures
        r@ == match value {
            Some(v) => trim_char(v@, '"'),
            None => Seq::<char>::empty(),
        },
{
    match value {
        Some(v) => {
            let cs = chars_of(v);
            let t = trim_char_chars(cs.as_slice(), '"');
            string_of(t.as_slice())
        },
        None => String::new(),
    }
}

/// The entity tag kept for a downloaded archive: the one the first request
/// gave, or when that was empty the one the download response carries.
pub fn download_etag(head_etag: &str, response_header: Option<&str>) -> (r: String)
    ensures
        head_etag@.len() > 0 ==> r@ == head_etag@,
        head_etag@.len() == 0 ==> r@ == match response_header {
            Some(v) => trim_char(v@, '"'),
            None => Seq::<char>::empty(),
        },
{
    if head_etag.is_empty() {
        etag_from_header(response_header)
    } else {
        head_etag.to_owned()
    }
}

/// The size announced for a download: the one the first request gave, or when
/// that was zero the download response's length, or zero.
pub fn download_total(head_length: u64, response_length: Option<u64>) -> (r: u64)
    ensures
        r == if head_length > 0 {
            head_length
        } else {
            match response_length {
                Some(n) => n,
                None => 0,
            }
        },
{
    if head_length > 0 {
        head_length
    } else {
        match response_length {
            Some(n) => n,
            None => 0,
        }
    }
}

} // verus!
