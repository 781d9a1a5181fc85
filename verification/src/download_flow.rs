//! Obtaining one package archive, as a state machine: ask the server for the
//! archive's tag, use the cache or the installed package when the tag allows,
//! otherwise download, store and extract.
use vstd::prelude::*;
use crate::download::{cache_action, cache_action_of, etag_from_header, download_etag, download_total, CacheAction};
use crate::text::trim_char;

verus! {

/// What the host is asked to do while obtaining an archive.
pub enum FetchAction {
    /// Show a progress report, then answer `Ack`.
    Progress { step: String, percent: u32, message_key: String, downloaded: u64, total: u64 },
    /// Ask the server about the archive (a HEAD request); answer `Head`.
    Head,
    /// Look at the cached archive and its tag file; answer `CacheState`.
    ReadCache,
    /// Request the archive; answer `Response`.
    Get,
    /// Receive the archive into a temporary cache file, reporting progress
    /// against `total` bytes; answer `Streamed` with the bytes received.
    Stream { total: u64 },
    /// Put the received archive in the cache and write `etag` to its tag file; answer `Stored`.
    Store { etag: String },
    /// Extract the cached archive into the destination, creating the
    /// destination first when `create_dir`; answer `Extracted`.
    Extract { create_dir: bool },
    /// The archive is obtained (with its tag) or could not be.
    Finish { result: Result<String, String> },
}

/// What the host reports back.
pub enum FetchEvent {
    Ack,
    /// The server's answer: `None` when the request failed, otherwise the
    /// announced length (zero when none) and the tag header's text, if any.
    Head(Option<(u64, Option<String>)>),
    CacheState { archive_exists: bool, etag_file: String },
    /// The download response: its length and tag header's text, or why it failed.
    Response(Result<(Option<u64>, Option<String>), String>),
    Streamed(Result<u64, String>),
    Stored(Result<(), String>),
    Extracted(Result<(), String>),
}

/// Where a fetch stands.
#[derive(PartialEq, Eq, Structural, Clone, Copy, Debug)]
pub enum FetchStage {
    AwaitHead,
    AwaitCache,
    /// The download step is reported; extraction of the cached archive follows when `extract`.
    Reported { extract: bool },
    /// The start of extraction is reported.
    ExtractStarting,
    AwaitExtract,
    /// The end of extraction is reported.
    Extracted,
    AwaitResponse,
    AwaitStream,
    /// The end of the download is reported.
    Downloaded,
    AwaitStore,
    Finished,
}

/// One fetch of the archive `label`.
pub struct FetchRun {
    pub label: String,
    /// The tag recorded when this package was last installed.
    pub installed_etag: Option<String>,
    pub stage: FetchStage,
    pub head_total: u64,
    pub head_etag: String,
    /// The tag reported when the fetch succeeds.
    pub result_etag: String,
    pub total: u64,
    pub downloaded: u64,
    /// Whether the destination is created before extracting.
    pub create_dir: bool,
}

/// The plain content of an optional string.
pub open spec fn opt_chars(o: Option<String>) -> Option<Seq<char>> {
    match o {
        Some(s) => Some(s@),
        None => None,
    }
}

/// The tag carried by a header's text, as the library reads it.
pub open spec fn header_etag(h: Option<String>) -> Seq<char> {
    match h {
        Some(v) => trim_char(v@, '"'),
        None => Seq::<char>::empty(),
    }
}

fn opt_str(o: &Option<String>) -> (r: Option<&str>)
    ensures
        match r {
            Some(s) => o matches Some(t) && s@ == t@,
            None => o is None,
        },
{
    match o {
        Some(t) => Some(t.as_str()),
        None => None,
    }
}

/// Whether `a` reports `step` at `percent` with `key` and no byte counts.
pub open spec fn reports(a: FetchAction, step: Seq<char>, percent: u32, key: Seq<char>) -> bool {
    a matches FetchAction::Progress { step: s, percent: p, message_key: k, downloaded, total }
        && s@ == step && p == percent && k@ == key && downloaded == 0 && total == 0
}

/// Whether `a` ends the fetch with error `msg`.
pub open spec fn fetch_fails_with(a: FetchAction, msg: Seq<char>) -> bool {
    a matches FetchAction::Finish { result: Err(m) } && m@ == msg
}

impl FetchRun {
    /// Whether `e` is an answer the fetch is waiting for.
    pub open spec fn accepts(&self, e: FetchEvent) -> bool {
        match self.stage {
            FetchStage::AwaitHead => e is Head,
            FetchStage::AwaitCache => e is CacheState,
            FetchStage::Reported { .. } => e is Ack,
            FetchStage::ExtractStarting => e is Ack,
            FetchStage::AwaitExtract => e is Extracted,
            FetchStage::Extracted => e is Ack,
            FetchStage::AwaitResponse => e is Response,
            FetchStage::AwaitStream => e is Streamed,
            FetchStage::Downloaded => e is Ack,
            FetchStage::AwaitStore => e is Stored,
            FetchStage::Finished => false,
        }
    }

    /// Starts obtaining archive `label`, whose installed copy carries
    /// `installed_etag`: the first action asks the server about it.
    pub fn start(label: &str, installed_etag: Option<&str>) -> (r: (FetchRun, FetchAction))
        ensures
            r.0.stage == FetchStage::AwaitHead,
            r.0.label@ == label@,
            opt_chars(r.0.installed_etag) == match installed_etag {
                Some(s) => Some(s@),
                None => None,
            },
            r.0.head_total == 0 && r.0.head_etag@.len() == 0,
            r.0.result_etag@.len() == 0,
            r.0.total == 0 && r.0.downloaded == 0 && !r.0.create_dir,
            r.1 is Head,
    {
        let installed = match installed_etag {
            Some(s) => Some(s.to_owned()),
            None => None,
        };
        let run = FetchRun {
            label: label.to_owned(),
            installed_etag: installed,
            stage: FetchStage::AwaitHead,
            head_total: 0,
            head_etag: String::new(),
            result_etag: String::new(),
            total: 0,
            downloaded: 0,
            create_dir: false,
        };
        (run, FetchAction::Head)
    }

    /// Whether `e` is an answer the fetch is waiting for.
    pub fn expects(&self, e: &FetchEvent) -> (r: bool)
        ensures
            r == self.accepts(*e),
    {
        match self.stage {
            FetchStage::AwaitHead => matches!(e, FetchEvent::Head(_)),
            FetchStage::AwaitCache => matches!(e, FetchEvent::CacheState { .. }),
            FetchStage::Reported { .. } => matches!(e, FetchEvent::Ack),
            FetchStage::ExtractStarting => matches!(e, FetchEvent::Ack),
            FetchStage::AwaitExtract => matches!(e, FetchEvent::Extracted(_)),
            FetchStage::Extracted => matches!(e, FetchEvent::Ack),
            FetchStage::AwaitResponse => matches!(e, FetchEvent::Response(_)),
            FetchStage::AwaitStream => matches!(e, FetchEvent::Streamed(_)),
            FetchStage::Downloaded => matches!(e, FetchEvent::Ack),
            FetchStage::AwaitStore => matches!(e, FetchEvent::Stored(_)),
            FetchStage::Finished => false,
        }
    }

    fn fail(&mut self, msg: String) -> (a: FetchAction)
        ensures
            final(self).stage == FetchStage::Finished,
            final(self).label == old(self).label,
            final(self).result_etag == old(self).result_etag,
            final(self).create_dir == old(self).create_dir,
            final(self).installed_etag == old(self).installed_etag,
            final(self).head_total == old(self).head_total,
            final(self).head_etag == old(self).head_etag,
            final(self).total == old(self).total,
            final(self).downloaded == old(self).downloaded,
            fetch_fails_with(a, msg@),
    {
        self.stage = FetchStage::Finished;
        FetchAction::Finish { result: Err(msg) }
    }

    fn report(&mut self, stage: FetchStage, step: &str, percent: u32, key: &str) -> (a: FetchAction)
        ensures
            final(self).stage == stage,
            final(self).label == old(self).label,
            final(self).result_etag == old(self).result_etag,
            final(self).create_dir == old(self).create_dir,
            final(self).installed_etag == old(self).installed_etag,
            final(self).head_total == old(self).head_total,
            final(self).head_etag == old(self).head_etag,
            final(self).total == old(self).total,
            final(self).downloaded == old(self).downloaded,
            reports(a, step@, percent, key@),
    {
        self.stage = stage;
        FetchAction::Progress {
            step: step.to_owned(),
            percent,
            message_key: key.to_owned(),
            downloaded: 0,
            total: 0,
        }
    }

    /// Takes the host's answer `e` to the last action and returns the next action.
    pub fn next(&mut self, e: FetchEvent) -> (a: FetchAction)
        requires
            old(self).accepts(e),
        ensures
            final(self).label == old(self).label,
            (final(self).stage == FetchStage::Finished) == (a is Finish),
            // The server's answer: look at the cache.
            old(self).stage == FetchStage::AwaitHead ==> match e {
                FetchEvent::Head(h) => final(self).stage == FetchStage::AwaitCache && a is ReadCache
                    && match h {
                        Some((len, hdr)) => final(self).head_total == len
                            && final(self).head_etag@ == header_etag(hdr),
                        None => final(self).head_total == 0 && final(self).head_etag@.len() == 0,
                    },
                _ => false,
            },
            // The cache: extract the cached archive, keep the installed package, or download.
            old(self).stage == FetchStage::AwaitCache ==> match e {
                FetchEvent::CacheState { archive_exists, etag_file } => match cache_action_of(archive_exists,
                    old(self).head_etag@, etag_file@, opt_chars(old(self).installed_etag)) {
                    CacheAction::ExtractCached => final(self).result_etag == old(self).head_etag
                        && !final(self).create_dir
                        && final(self).stage == (FetchStage::Reported { extract: true })
                        && reports(a, "download"@, 100, old(self).label@),
                    CacheAction::KeepInstalled { extract_cached } => final(self).result_etag@
                        == opt_chars(old(self).installed_etag).unwrap_or(Seq::<char>::empty())
                        && !final(self).create_dir
                        && final(self).stage == (FetchStage::Reported { extract: extract_cached })
                        && reports(a, "download"@, 100, old(self).label@),
                    CacheAction::Download => final(self).stage == FetchStage::AwaitResponse && a is Get,
                },
                _ => false,
            },
            // After reporting the download step: extract, or finish with the kept tag.
            old(self).stage == (FetchStage::Reported { extract: true }) ==> final(self).stage == FetchStage::ExtractStarting
                && reports(a, "extract"@, 0, "extracting"@),
            old(self).stage == (FetchStage::Reported { extract: false }) ==> (a matches FetchAction::Finish { result: Ok(t) }
                && t == old(self).result_etag),
            old(self).stage == FetchStage::ExtractStarting ==> final(self).stage == FetchStage::AwaitExtract
                && a == (FetchAction::Extract { create_dir: old(self).create_dir }),
            old(self).stage == FetchStage::AwaitExtract ==> match e {
                FetchEvent::Extracted(Ok(())) => final(self).stage == FetchStage::Extracted
                    && reports(a, "extract"@, 100, "extracted"@),
                FetchEvent::Extracted(Err(m)) => fetch_fails_with(a, m@),
                _ => false,
            },
            old(self).stage == FetchStage::Extracted ==> (a matches FetchAction::Finish { result: Ok(t) }
                && t == old(self).result_etag),
            // The download response: receive it, expecting the announced size.
            old(self).stage == FetchStage::AwaitResponse ==> match e {
                FetchEvent::Response(Ok((len, hdr))) => final(self).stage == FetchStage::AwaitStream
                    && final(self).total == (if old(self).head_total > 0 { old(self).head_total } else {
                        match len { Some(n) => n, None => 0 } })
                    && final(self).result_etag@ == (if old(self).head_etag@.len() > 0 { old(self).head_etag@ } else {
                        header_etag(hdr) })
                    && a == (FetchAction::Stream { total: final(self).total }),
                FetchEvent::Response(Err(m)) => fetch_fails_with(a, m@),
                _ => false,
            },
            old(self).stage == FetchStage::AwaitStream ==> match e {
                FetchEvent::Streamed(Ok(n)) => final(self).stage == FetchStage::Downloaded
                    && (a matches FetchAction::Progress { step, percent, message_key, downloaded, total }
                        && step@ == "download"@ && percent == 100 && message_key@ == old(self).label@
                        && downloaded == n && total == old(self).total),
                FetchEvent::Streamed(Err(m)) => fetch_fails_with(a, m@),
                _ => false,
            },
            old(self).stage == FetchStage::Downloaded ==> final(self).stage == FetchStage::AwaitStore
                && (a matches FetchAction::Store { etag } && etag == old(self).result_etag),
            // Stored: extract into a freshly created destination.
            old(self).stage == FetchStage::AwaitStore ==> match e {
                FetchEvent::Stored(Ok(())) => final(self).stage == FetchStage::ExtractStarting
                    && final(self).create_dir && final(self).result_etag == old(self).result_etag
                    && reports(a, "extract"@, 0, "extracting"@),
                FetchEvent::Stored(Err(m)) => fetch_fails_with(a, m@),
                _ => false,
            },
            !(old(self).stage == FetchStage::AwaitCache || old(self).stage == FetchStage::AwaitResponse)
                ==> final(self).result_etag == old(self).result_etag,
            !(old(self).stage == FetchStage::AwaitCache || old(self).stage == FetchStage::AwaitStore)
                ==> final(self).create_dir == old(self).create_dir,
            // What a step does not learn, it keeps.
            final(self).installed_etag == old(self).installed_etag,
            old(self).stage != FetchStage::AwaitHead ==> final(self).head_etag == old(self).head_etag
                && final(self).head_total == old(self).head_total,
            old(self).stage != FetchStage::AwaitResponse ==> final(self).total == old(self).total,
            old(self).stage != FetchStage::AwaitStream ==> final(self).downloaded == old(self).downloaded,
    {
        match self.stage {
            FetchStage::AwaitHead => {
                match e {
                    FetchEvent::Head(Some((len, hdr))) => {
                        self.head_total = len;
                        self.head_etag = etag_from_header(opt_str(&hdr));
                    },
                    _ => {
                        self.head_total = 0;
                        self.head_etag = String::new();
                    },
                }
                self.stage = FetchStage::AwaitCache;
                FetchAction::ReadCache
            },
            FetchStage::AwaitCache => match e {
                FetchEvent::CacheState { archive_exists, etag_file } => {
                    match cache_action(archive_exists, self.head_etag.as_str(), etag_file.as_str(),
                        opt_str(&self.installed_etag)) {
                        CacheAction::ExtractCached => {
                            self.result_etag = self.head_etag.clone();
                            self.create_dir = false;
                            let label = self.label.clone();
                            self.report(FetchStage::Reported { extract: true }, "download", 100, label.as_str())
                        },
                        CacheAction::KeepInstalled { extract_cached } => {
                            self.result_etag = match &self.installed_etag {
                                Some(s) => s.clone(),
                                None => String::new(),
                            };
                            self.create_dir = false;
                            let label = self.label.clone();
                            self.report(FetchStage::Reported { extract: extract_cached }, "download", 100, label.as_str())
                        },
                        CacheAction::Download => {
                            self.stage = FetchStage::AwaitResponse;
                            FetchAction::Get
                        },
                    }
                },
                _ => self.fail(String::new()),
            },
            FetchStage::Reported { extract } => {
                if extract {
                    self.report(FetchStage::ExtractStarting, "extract", 0, "extracting")
                } else {
                    self.stage = FetchStage::Finished;
                    FetchAction::Finish { result: Ok(self.result_etag.clone()) }
                }
            },
            FetchStage::ExtractStarting => {
                self.stage = FetchStage::AwaitExtract;
                FetchAction::Extract { create_dir: self.create_dir }
            },
            FetchStage::AwaitExtract => match e {
                FetchEvent::Extracted(Ok(())) => self.report(FetchStage::Extracted, "extract", 100, "extracted"),
                FetchEvent::Extracted(Err(m)) => self.fail(m),
                _ => self.fail(String::new()),
            },
            FetchStage::Extracted => {
                self.stage = FetchStage::Finished;
                FetchAction::Finish { result: Ok(self.result_etag.clone()) }
            },
            FetchStage::AwaitResponse => match e {
                FetchEvent::Response(Ok((len, hdr))) => {
                    self.total = download_total(self.head_total, len);
                    self.result_etag = download_etag(self.head_etag.as_str(), opt_str(&hdr));
                    self.stage = FetchStage::AwaitStream;
                    FetchAction::Stream { total: self.total }
                },
                FetchEvent::Response(Err(m)) => self.fail(m),
                _ => self.fail(String::new()),
            },
            FetchStage::AwaitStream => match e {
                FetchEvent::Streamed(Ok(n)) => {
                    self.downloaded = n;
                    self.stage = FetchStage::Downloaded;
                    FetchAction::Progress {
                        step: "download".to_owned(),
                        percent: 100,
                        message_key: self.label.clone(),
                        downloaded: n,
                        total: self.total,
                    }
                },
                FetchEvent::Streamed(Err(m)) => self.fail(m),
                _ => self.fail(String::new()),
            },
            FetchStage::Downloaded => {
                self.stage = FetchStage::AwaitStore;
                FetchAction::Store { etag: self.result_etag.clone() }
            },
            FetchStage::AwaitStore => match e {
                FetchEvent::Stored(Ok(())) => {
                    self.create_dir = true;
                    self.report(FetchStage::ExtractStarting, "extract", 0, "extracting")
                },
                FetchEvent::Stored(Err(m)) => self.fail(m),
                _ => self.fail(String::new()),
            },
            FetchStage::Finished => self.fail(String::new()),
        }
    }
}

} // verus!
