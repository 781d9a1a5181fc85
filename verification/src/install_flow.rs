//! Installing a localization into one game, as a state machine: the host
//! performs each requested action (downloads, file copies, reports) and hands
//! back what happened; the machine decides what comes next.
use vstd::prelude::*;
use crate::model::{BlitzMetadataItem, InstInfo};
use crate::install::{first_with_id, no_metadata_message, language_missing_message, incompatible_message,
    select_language, check_package_compat, package_file_ops, planned_ops, entry_view, ops_view, FileOp};
use crate::version::{version_compatible, is_version_compatible};
use crate::backups::{latest_backups, latest_backup_list};

verus! {

/// The two archives a language may consist of.
#[derive(PartialEq, Eq, Structural, Clone, Copy, Debug)]
pub enum Package {
    L10n,
    Font,
}

/// How far along a progress report is.
pub enum ProgressAmount {
    /// A fixed percentage.
    Percent(u32),
    /// `done` of `total` items handled (the host turns this into a percentage).
    Share { done: u32, total: usize },
}

/// A progress report to show.
pub struct ProgressNote {
    pub step: String,
    pub amount: ProgressAmount,
    pub message_key: String,
}

/// An archive's manifest, with its file table listed in the order the host walked it.
pub struct ManifestListing {
    pub version: String,
    pub supported_game_version: String,
    pub entries: Vec<(String, Vec<String>)>,
}

/// The installation record to write, with one backup entry per game file (the
/// last one taken for it), in the order the backups were taken.
pub struct RecordDraft {
    pub language: String,
    pub date: String,
    pub loc_version: String,
    pub l10n_etag: String,
    pub font_version: String,
    pub font_etag: String,
    pub font_id: String,
    pub installed_game_version: String,
    pub app_version: String,
    pub backups: Vec<(String, String)>,
}

/// What the host is asked to do.
pub enum InstallAction {
    /// Show a progress report, then answer `Ack`.
    Progress { note: ProgressNote },
    /// Fetch the languages on offer; answer `Metadata`.
    FetchMetadata,
    /// Read the game's version and its installation record; answer `GameState`.
    ReadGameState,
    /// Download (or take from the cache) and extract an archive; answer `Obtained`
    /// with the archive's entity tag.
    ObtainPackage { package: Package, url: String, label: String, installed_etag: Option<String> },
    /// Read the extracted archive's manifest, if it has one; answer `Manifest`.
    ReadManifest { package: Package },
    /// Check which of the archive's files exist; answer `SourcesChecked`, one flag per file.
    CheckSources { package: Package, sources: Vec<String> },
    /// Back up game file `target` and copy archive file `source` over it;
    /// answer `FileInstalled` with the backup's recorded name.
    InstallFile { package: Package, source: String, target: String },
    /// Delete the extracted archive; answer `Ack`.
    DiscardPackage { package: Package },
    /// Read the local date and time; answer `Clock`.
    ReadClock,
    /// Write the installation record; answer `RecordWritten`.
    WriteRecord { record: RecordDraft },
    /// The run is over: when `cleanup`, delete all extracted archives; then
    /// show `final_note` if there is one; then report `result`.
    Finish { result: Result<String, String>, cleanup: bool, final_note: Option<ProgressNote> },
}

/// What the host reports back.
pub enum InstallEvent {
    Ack,
    Metadata(Result<Vec<BlitzMetadataItem>, String>),
    GameState { game_version: String, record: Option<InstInfo> },
    Obtained(Result<String, String>),
    Manifest(Option<Result<ManifestListing, String>>),
    SourcesChecked(Vec<bool>),
    FileInstalled(Result<String, String>),
    Clock(String),
    RecordWritten(Result<(), String>),
}

/// Where a run stands: what it is waiting for.
#[derive(PartialEq, Eq, Structural, Clone, Copy, Debug)]
pub enum Stage {
    Starting,
    AwaitMetadata,
    AwaitGameState,
    AwaitPackage(Package),
    AwaitManifest(Package),
    AwaitSources(Package),
    Copying(Package),
    AwaitDiscard(Package),
    AwaitFailDiscard,
    AwaitClock,
    AwaitWrite,
    Finished,
}

/// One installation run.
pub struct InstallRun {
    pub blitz_path: String,
    pub lang_id: String,
    pub app_version: String,
    pub stage: Stage,
    /// The language chosen.
    pub item: Option<BlitzMetadataItem>,
    pub game_version: String,
    /// The installation record found before this run.
    pub previous: Option<InstInfo>,
    pub l10n_etag: String,
    pub l10n_version: String,
    pub font_etag: String,
    pub font_version: String,
    /// The version in the manifest of the archive being installed.
    pub manifest_version: String,
    /// The file table of the archive being installed.
    pub entries: Vec<(String, Vec<String>)>,
    /// The copy steps of the archive being installed, and the next one to take.
    pub ops: Vec<FileOp>,
    pub pos: usize,
    /// The backups taken so far: game file and recorded backup name.
    pub backups: Vec<(String, String)>,
    /// The error to report once the archive being discarded is gone.
    pub failure: String,
}

/// The progress step name while copying files of `p`.
pub open spec fn copy_step(p: Package) -> Seq<char> {
    match p {
        Package::L10n => "install_l10n"@,
        Package::Font => "install_font"@,
    }
}

/// The progress message key while copying files of `p`.
pub open spec fn copy_key(p: Package) -> Seq<char> {
    match p {
        Package::L10n => "installing_l10n"@,
        Package::Font => "installing_font"@,
    }
}

/// The archive name used in the cache for `p`.
pub open spec fn package_label(p: Package) -> Seq<char> {
    match p {
        Package::L10n => "l10n"@,
        Package::Font => "font"@,
    }
}

/// The plain content of an optional string.
pub open spec fn opt_view(o: Option<String>) -> Option<Seq<char>> {
    match o {
        Some(s) => Some(s@),
        None => None,
    }
}

impl InstallRun {
    /// A run in a state the machine can continue from.
    pub open spec fn wf(&self) -> bool {
        &&& self.pos <= self.ops@.len()
        &&& self.stage is Copying ==> self.pos < self.ops@.len()
        &&& self.entries@.len() <= u32::MAX
        &&& chosen_stage(self.stage) ==> self.item is Some
    }

    /// Whether `e` is an answer the run is waiting for.
    pub open spec fn accepts(&self, e: InstallEvent) -> bool {
        match self.stage {
            Stage::Starting => e is Ack,
            Stage::AwaitMetadata => e is Metadata,
            Stage::AwaitGameState => e is GameState,
            Stage::AwaitPackage(_) => e is Obtained,
            Stage::AwaitManifest(_) => match e {
                InstallEvent::Manifest(Some(Ok(m))) => m.entries@.len() <= u32::MAX,
                InstallEvent::Manifest(_) => true,
                _ => false,
            },
            Stage::AwaitSources(_) => e matches InstallEvent::SourcesChecked(v) && v@.len() == self.entries@.len(),
            Stage::Copying(_) => match self.ops@[self.pos as int] {
                FileOp::Install { .. } => e is FileInstalled,
                FileOp::Report { .. } => e is Ack,
            },
            Stage::AwaitDiscard(_) => e is Ack,
            Stage::AwaitFailDiscard => e is Ack,
            Stage::AwaitClock => e is Clock,
            Stage::AwaitWrite => e is RecordWritten,
            Stage::Finished => false,
        }
    }

    /// `a` is the action that comes next for a run that has `self.pos` as its
    /// next copy step of package `p`: that step, or once the steps are all
    /// taken, discarding the archive.
    pub open spec fn continues_copying(&self, p: Package, a: InstallAction) -> bool {
        if self.pos < self.ops@.len() {
            &&& self.stage == Stage::Copying(p)
            &&& match self.ops@[self.pos as int] {
                FileOp::Install { source, target } => a matches InstallAction::InstallFile { package, source: s, target: t }
                    && package == p && s@ == source@ && t@ == target@,
                FileOp::Report { done, total } => a matches InstallAction::Progress { note }
                    && note.amount == (ProgressAmount::Share { done, total })
                    && note.step@ == copy_step(p) && note.message_key@ == copy_key(p),
            }
        } else {
            &&& self.stage == Stage::AwaitDiscard(p)
            &&& a == (InstallAction::DiscardPackage { package: p })
            &&& p == Package::L10n ==> self.l10n_version == self.manifest_version
            &&& p == Package::Font ==> self.font_version == self.manifest_version
        }
    }

    /// `a` is the action that follows a finished localization archive: the
    /// font archive when the language has one, otherwise reading the clock
    /// with no font recorded.
    pub open spec fn continues_after_l10n(&self, a: InstallAction) -> bool {
        match self.item {
            Some(item) => match item.font {
                Some(f) => self.stage == Stage::AwaitPackage(Package::Font)
                    && (a matches InstallAction::ObtainPackage { package, url, label, installed_etag }
                    && package == Package::Font && url@ == f.path@ && label@ == package_label(Package::Font)
                    && opt_view(installed_etag) == match self.previous {
                        Some(r) => Some(r.font_etag@),
                        None => None,
                    }),
                None => self.stage == Stage::AwaitClock && a is ReadClock
                    && self.font_version@.len() == 0 && self.font_etag@.len() == 0,
            },
            None => self.stage == Stage::AwaitClock && a is ReadClock
                && self.font_version@.len() == 0 && self.font_etag@.len() == 0,
        }
    }

    /// The record that a run in `self` writes, dated `date`.
    pub open spec fn drafts(&self, d: RecordDraft, date: Seq<char>) -> bool {
        &&& d.language@ == self.lang_id@
        &&& d.date@ == date
        &&& d.loc_version@ == self.l10n_version@
        &&& d.l10n_etag@ == self.l10n_etag@
        &&& d.font_version@ == self.font_version@
        &&& d.font_etag@ == self.font_etag@
        &&& d.font_id@ == match self.item {
            Some(item) => match item.font {
                Some(f) => f.id@,
                None => Seq::<char>::empty(),
            },
            None => Seq::<char>::empty(),
        }
        &&& d.installed_game_version@ == self.game_version@
        &&& d.app_version@ == self.app_version@
        &&& d.backups@ == latest_backups(self.backups@)
    }
}

/// Each copy step of package `p` copies from that package's own extracted
/// archive: an `InstallFile` that continues copying `p` names `p`, and the
/// source and target of the step taken.
pub proof fn law_copy_steps_name_their_package(s: InstallRun, p: Package, a: InstallAction)
    requires
        s.continues_copying(p, a),
        a is InstallFile,
    ensures
        a->InstallFile_package == p,
        s.pos < s.ops@.len(),
        s.ops@[s.pos as int] matches FileOp::Install { source, target }
            && a->InstallFile_source@ == source@ && a->InstallFile_target@ == target@,
{
}

/// After the localization archive, a language with a font fetches the font
/// archive from the font package's own path, labelled `font`, passing the
/// font tag of the previous record; a language without one goes on to the clock.
pub proof fn law_font_fetched_from_font_path(s: InstallRun, a: InstallAction)
    requires
        s.continues_after_l10n(a),
    ensures
        (s.item matches Some(item) && item.font is Some) ==> (a matches InstallAction::ObtainPackage {
            package, url, label, installed_etag }
            && package == Package::Font
            && url@ == s.item.unwrap().font.unwrap().path@
            && label@ == "font"@
            && opt_view(installed_etag) == match s.previous {
                Some(r) => Some(r.font_etag@),
                None => None,
            }),
        !(s.item matches Some(item) && item.font is Some) ==> a is ReadClock,
{
    reveal_strlit("font");
}

/// Two runs that differ at most in their stage.
pub open spec fn same_data(a: InstallRun, b: InstallRun) -> bool {
    &&& a.blitz_path == b.blitz_path
    &&& a.lang_id == b.lang_id
    &&& a.app_version == b.app_version
    &&& a.item == b.item
    &&& a.game_version == b.game_version
    &&& a.previous == b.previous
    &&& a.l10n_etag == b.l10n_etag
    &&& a.l10n_version == b.l10n_version
    &&& a.font_etag == b.font_etag
    &&& a.font_version == b.font_version
    &&& a.manifest_version == b.manifest_version
    &&& a.entries == b.entries
    &&& a.ops == b.ops
    &&& a.pos == b.pos
    &&& a.backups == b.backups
    &&& a.failure == b.failure
}

/// Whether a run at `stage` has chosen its language.
pub open spec fn chosen_stage(stage: Stage) -> bool {
    !(stage is Starting || stage is AwaitMetadata || stage is Finished)
}

/// Whether `a` ends the run with error `msg`, without cleanup or report.
pub open spec fn fails_with(a: InstallAction, msg: Seq<char>) -> bool {
    a matches InstallAction::Finish { result: Err(m), cleanup, final_note } && m@ == msg && !cleanup
        && final_note is None
}

fn copy_names(p: Package) -> (r: (String, String))
    ensures
        r.0@ == copy_step(p),
        r.1@ == copy_key(p),
{
    match p {
        Package::L10n => ("install_l10n".to_owned(), "installing_l10n".to_owned()),
        Package::Font => ("install_font".to_owned(), "installing_font".to_owned()),
    }
}

impl InstallRun {
    /// Starts installing language `lang_id` into the game at `blitz_path`:
    /// the first action reports the start.
    pub fn start(blitz_path: &str, lang_id: &str, app_version: &str) -> (r: (InstallRun, InstallAction))
        ensures
            r.0.wf(),
            r.0.stage == Stage::Starting,
            r.0.blitz_path@ == blitz_path@,
            r.0.lang_id@ == lang_id@,
            r.0.app_version@ == app_version@,
            r.0.backups@.len() == 0,
            r.1 matches InstallAction::Progress { note } && note.step@ == "start"@
                && note.amount == ProgressAmount::Percent(0) && note.message_key@ == "preparing"@,
    {
        let run = InstallRun {
            blitz_path: blitz_path.to_owned(),
            lang_id: lang_id.to_owned(),
            app_version: app_version.to_owned(),
            stage: Stage::Starting,
            item: None,
            game_version: String::new(),
            previous: None,
            l10n_etag: String::new(),
            l10n_version: String::new(),
            font_etag: String::new(),
            font_version: String::new(),
            manifest_version: String::new(),
            entries: Vec::new(),
            ops: Vec::new(),
            pos: 0,
            backups: Vec::new(),
            failure: String::new(),
        };
        let note = ProgressNote {
            step: "start".to_owned(),
            amount: ProgressAmount::Percent(0),
            message_key: "preparing".to_owned(),
        };
        (run, InstallAction::Progress { note })
    }

    /// Whether `e` is an answer the run is waiting for.
    pub fn expects(&self, e: &InstallEvent) -> (r: bool)
        requires
            self.wf(),
        ensures
            r == self.accepts(*e),
    {
        match self.stage {
            Stage::Starting => matches!(e, InstallEvent::Ack),
            Stage::AwaitMetadata => matches!(e, InstallEvent::Metadata(_)),
            Stage::AwaitGameState => matches!(e, InstallEvent::GameState { .. }),
            Stage::AwaitPackage(_) => matches!(e, InstallEvent::Obtained(_)),
            Stage::AwaitManifest(_) => match e {
                InstallEvent::Manifest(Some(Ok(m))) => m.entries.len() <= 0xffff_ffffusize,
                InstallEvent::Manifest(_) => true,
                _ => false,
            },
            Stage::AwaitSources(_) => match e {
                InstallEvent::SourcesChecked(v) => v.len() == self.entries.len(),
                _ => false,
            },
            Stage::Copying(_) => match &self.ops[self.pos] {
                FileOp::Install { .. } => matches!(e, InstallEvent::FileInstalled(_)),
                FileOp::Report { .. } => matches!(e, InstallEvent::Ack),
            },
            Stage::AwaitDiscard(_) => matches!(e, InstallEvent::Ack),
            Stage::AwaitFailDiscard => matches!(e, InstallEvent::Ack),
            Stage::AwaitClock => matches!(e, InstallEvent::Clock(_)),
            Stage::AwaitWrite => matches!(e, InstallEvent::RecordWritten(_)),
            Stage::Finished => false,
        }
    }

    fn finish_err(&mut self, msg: String) -> (a: InstallAction)
        requires
            old(self).wf(),
        ensures
            final(self).wf(),
            final(self).lang_id == old(self).lang_id,
            final(self).app_version == old(self).app_version,
            final(self).blitz_path == old(self).blitz_path,
            same_data(*old(self), *final(self)),
            final(self).stage == Stage::Finished,
            fails_with(a, msg@),
    {
        self.stage = Stage::Finished;
        InstallAction::Finish { result: Err(msg), cleanup: false, final_note: None }
    }

    /// The next copy step of package `p`, or discarding it once all are taken.
    fn continue_copying(&mut self, p: Package) -> (a: InstallAction)
        requires
            old(self).pos <= old(self).ops@.len(),
            old(self).entries@.len() <= u32::MAX,
            old(self).item is Some,
        ensures
            final(self).wf(),
            final(self).continues_copying(p, a),
            final(self).pos == old(self).pos,
            final(self).ops == old(self).ops,
            final(self).backups == old(self).backups,
            final(self).item == old(self).item,
            final(self).previous == old(self).previous,
            final(self).l10n_etag == old(self).l10n_etag,
            final(self).font_etag == old(self).font_etag,
            final(self).game_version == old(self).game_version,
            final(self).lang_id == old(self).lang_id,
            final(self).app_version == old(self).app_version,
            final(self).blitz_path == old(self).blitz_path,
            final(self).manifest_version == old(self).manifest_version,
            final(self).entries == old(self).entries,
            final(self).failure == old(self).failure,
            p == Package::L10n ==> final(self).font_version == old(self).font_version,
            p == Package::Font ==> final(self).l10n_version == old(self).l10n_version,
            final(self).pos < final(self).ops@.len() ==> final(self).l10n_version == old(self).l10n_version
                && final(self).font_version == old(self).font_version,
    {
        if self.pos < self.ops.len() {
            self.stage = Stage::Copying(p);
            match &self.ops[self.pos] {
                FileOp::Install { source, target } => InstallAction::InstallFile {
                    package: p,
                    source: source.clone(),
                    target: target.clone(),
                },
                FileOp::Report { done, total } => {
                    let (step, message_key) = copy_names(p);
                    InstallAction::Progress {
                        note: ProgressNote { step, amount: ProgressAmount::Share { done: *done, total: *total }, message_key },
                    }
                },
            }
        } else {
            match p {
                Package::L10n => self.l10n_version = self.manifest_version.clone(),
                Package::Font => self.font_version = self.manifest_version.clone(),
            }
            self.stage = Stage::AwaitDiscard(p);
            InstallAction::DiscardPackage { package: p }
        }
    }

    /// What follows the localization archive (see [`InstallRun::continues_after_l10n`]).
    fn continue_after_l10n(&mut self) -> (a: InstallAction)
        requires
            old(self).wf(),
            old(self).item is Some,
        ensures
            final(self).wf(),
            final(self).continues_after_l10n(a),
            final(self).item == old(self).item,
            final(self).previous == old(self).previous,
            final(self).backups == old(self).backups,
            final(self).l10n_version == old(self).l10n_version,
            final(self).l10n_etag == old(self).l10n_etag,
            final(self).game_version == old(self).game_version,
            final(self).lang_id == old(self).lang_id,
            final(self).app_version == old(self).app_version,
            final(self).blitz_path == old(self).blitz_path,
            final(self).manifest_version == old(self).manifest_version,
            final(self).entries == old(self).entries,
            final(self).ops == old(self).ops,
            final(self).pos == old(self).pos,
            final(self).failure == old(self).failure,
    {
        let font_url: Option<String> = match &self.item {
            Some(item) => match &item.font {
                Some(f) => Some(f.path.clone()),
                None => None,
            },
            None => None,
        };
        match font_url {
            Some(url) => {
                let installed_etag = match &self.previous {
                    Some(r) => Some(r.font_etag.clone()),
                    None => None,
                };
                self.stage = Stage::AwaitPackage(Package::Font);
                InstallAction::ObtainPackage {
                    package: Package::Font,
                    url,
                    label: "font".to_owned(),
                    installed_etag,
                }
            },
            None => {
                self.font_version = String::new();
                self.font_etag = String::new();
                self.stage = Stage::AwaitClock;
                InstallAction::ReadClock
            },
        }
    }
}

/// The previous record's value of a field, or empty text when there was no record.
pub open spec fn previous_or_empty(previous: Option<InstInfo>, field: spec_fn(InstInfo) -> Seq<char>) -> Seq<char> {
    match previous {
        Some(r) => field(r),
        None => Seq::<char>::empty(),
    }
}

impl InstallRun {
    /// Takes the host's answer `e` to the last action and returns the next action.
    pub fn next(&mut self, e: InstallEvent) -> (a: InstallAction)
        requires
            old(self).wf(),
            old(self).accepts(e),
        ensures
            final(self).wf(),
            final(self).lang_id == old(self).lang_id,
            final(self).app_version == old(self).app_version,
            final(self).blitz_path == old(self).blitz_path,
            (final(self).stage == Stage::Finished) == (a is Finish),
            // Only an answer to a file installation changes the backups, and it
            // adds exactly that file and its backup name.
            !(e is FileInstalled) ==> final(self).backups == old(self).backups,
            // Each part of the run's data changes only where the run learns it.
            old(self).stage != Stage::AwaitMetadata ==> final(self).item == old(self).item,
            old(self).stage != Stage::AwaitGameState ==> final(self).previous == old(self).previous
                && final(self).game_version == old(self).game_version,
            old(self).stage != Stage::AwaitPackage(Package::L10n) ==> final(self).l10n_etag == old(self).l10n_etag,
            !(old(self).stage == Stage::AwaitManifest(Package::L10n) || old(self).stage == Stage::AwaitSources(Package::L10n)
                || old(self).stage == Stage::Copying(Package::L10n))
                ==> final(self).l10n_version == old(self).l10n_version,
            !(old(self).stage == Stage::AwaitPackage(Package::Font) || old(self).stage == Stage::AwaitManifest(Package::Font)
                || old(self).stage == Stage::AwaitDiscard(Package::L10n))
                ==> final(self).font_etag == old(self).font_etag,
            !(old(self).stage == Stage::AwaitManifest(Package::Font) || old(self).stage == Stage::AwaitSources(Package::Font)
                || old(self).stage == Stage::Copying(Package::Font) || old(self).stage == Stage::AwaitDiscard(Package::L10n))
                ==> final(self).font_version == old(self).font_version,
            !(old(self).stage is AwaitManifest) ==> final(self).entries == old(self).entries
                && final(self).manifest_version == old(self).manifest_version
                && final(self).failure == old(self).failure,
            !(old(self).stage is AwaitSources || old(self).stage is Copying) ==> final(self).ops == old(self).ops
                && final(self).pos == old(self).pos,
            // Starting: fetch the languages.
            old(self).stage == Stage::Starting ==> final(self).stage == Stage::AwaitMetadata
                && a is FetchMetadata,
            // The languages: none on offer, or not the one asked for, ends the run.
            old(self).stage == Stage::AwaitMetadata ==> match e {
                InstallEvent::Metadata(Ok(items)) => if items@.len() == 0 {
                    fails_with(a, no_metadata_message())
                } else {
                    match first_with_id(items@, old(self).lang_id@, 0) {
                        Some(i) => final(self).item == Some(items@[i]) && final(self).stage == Stage::AwaitGameState
                            && a is ReadGameState,
                        None => fails_with(a, language_missing_message(old(self).lang_id@)),
                    }
                },
                _ => fails_with(a, no_metadata_message()),
            },
            // The game's state: obtain the localization archive.
            old(self).stage == Stage::AwaitGameState ==> match e {
                InstallEvent::GameState { game_version, record } => final(self).game_version == game_version
                    && final(self).previous == record && final(self).item == old(self).item
                    && final(self).stage == Stage::AwaitPackage(Package::L10n)
                    && (a matches InstallAction::ObtainPackage { package, url, label, installed_etag }
                        && package == Package::L10n && url@ == old(self).item.unwrap().l10n.path@
                        && label@ == package_label(Package::L10n)
                        && opt_view(installed_etag) == match record {
                            Some(r) => Some(r.l10n_etag@),
                            None => None,
                        }),
                _ => false,
            },
            // An archive obtained: read its manifest; a failed download ends the run.
            old(self).stage matches Stage::AwaitPackage(p) ==> match e {
                InstallEvent::Obtained(Ok(etag)) => final(self).stage == Stage::AwaitManifest(p)
                    && a == (InstallAction::ReadManifest { package: p })
                    && (p == Package::L10n ==> final(self).l10n_etag == etag)
                    && (p == Package::Font ==> final(self).font_etag == etag),
                InstallEvent::Obtained(Err(m)) => fails_with(a, m@),
                _ => false,
            },
            // A manifest read.
            old(self).stage matches Stage::AwaitManifest(p) ==> match e {
                InstallEvent::Manifest(None) => if p == Package::L10n {
                    final(self).l10n_version@ == previous_or_empty(old(self).previous, |r: InstInfo| r.loc_version@)
                        && final(self).stage == Stage::AwaitDiscard(Package::L10n)
                        && a == (InstallAction::DiscardPackage { package: Package::L10n })
                } else {
                    final(self).font_version@ == previous_or_empty(old(self).previous, |r: InstInfo| r.font_version@)
                        && final(self).font_etag == old(self).font_etag
                        && final(self).stage == Stage::AwaitClock && a is ReadClock
                },
                InstallEvent::Manifest(Some(Err(m))) => fails_with(a, m@),
                InstallEvent::Manifest(Some(Ok(listing))) => if !version_compatible(
                    listing.supported_game_version@, old(self).game_version@) {
                    if p == Package::L10n {
                        final(self).failure@ == incompatible_message(listing.supported_game_version@, old(self).game_version@)
                            && final(self).stage == Stage::AwaitFailDiscard
                            && a == (InstallAction::DiscardPackage { package: Package::L10n })
                    } else {
                        final(self).font_version@.len() == 0 && final(self).font_etag@.len() == 0
                            && final(self).stage == Stage::AwaitDiscard(Package::Font)
                            && a == (InstallAction::DiscardPackage { package: Package::Font })
                    }
                } else {
                    final(self).entries == listing.entries && final(self).manifest_version == listing.version
                        && final(self).stage == Stage::AwaitSources(p)
                        && (a matches InstallAction::CheckSources { package, sources } && package == p
                            && sources@.len() == listing.entries@.len()
                            && forall|i: int| 0 <= i < sources@.len() ==> (#[trigger] sources@[i])@ == listing.entries@[i].0@)
                },
                _ => false,
            },
            // Which archive files exist: plan the copies and take the first step.
            old(self).stage matches Stage::AwaitSources(p) ==> match e {
                InstallEvent::SourcesChecked(present) => ops_view(final(self).ops@) == planned_ops(
                    old(self).entries@.map_values(|x: (String, Vec<String>)| entry_view(x)), present@,
                    old(self).entries@.len() as int, old(self).entries@.len() as int)
                    && final(self).pos == 0 && final(self).continues_copying(p, a),
                _ => false,
            },
            // A copy step done: record the backup taken, and take the next step;
            // a failed copy ends the run.
            old(self).stage matches Stage::Copying(p) ==> match e {
                InstallEvent::FileInstalled(Ok(name)) => final(self).backups@ == old(self).backups@.push(
                    (old(self).ops@[old(self).pos as int]->target, name))
                    && final(self).pos == old(self).pos + 1 && final(self).continues_copying(p, a),
                InstallEvent::FileInstalled(Err(m)) => fails_with(a, m@),
                InstallEvent::Ack => final(self).pos == old(self).pos + 1 && final(self).continues_copying(p, a),
                _ => false,
            },
            // An archive discarded: the font follows the localization; then the clock.
            old(self).stage == Stage::AwaitDiscard(Package::L10n) ==> final(self).continues_after_l10n(a),
            old(self).stage == Stage::AwaitDiscard(Package::Font) ==> final(self).stage == Stage::AwaitClock
                && a is ReadClock,
            old(self).stage == Stage::AwaitFailDiscard ==> fails_with(a, old(self).failure@),
            // The date read: write the record.
            old(self).stage == Stage::AwaitClock ==> match e {
                InstallEvent::Clock(date) => final(self).stage == Stage::AwaitWrite
                    && (a matches InstallAction::WriteRecord { record } && old(self).drafts(record, date@)),
                _ => false,
            },
            // The record written: the run succeeds with the language installed.
            old(self).stage == Stage::AwaitWrite ==> match e {
                InstallEvent::RecordWritten(Ok(())) => a matches InstallAction::Finish { result: Ok(l), cleanup, final_note }
                    && l@ == old(self).lang_id@ && cleanup
                    && (final_note matches Some(n) && n.step@ == "done"@ && n.amount == ProgressAmount::Percent(100)
                        && n.message_key@ == "done"@),
                InstallEvent::RecordWritten(Err(m)) => fails_with(a, m@),
                _ => false,
            },
    {
        match self.stage {
            Stage::Starting => {
                self.stage = Stage::AwaitMetadata;
                InstallAction::FetchMetadata
            },
            Stage::AwaitMetadata => match e {
                InstallEvent::Metadata(Ok(mut items)) => {
                    if items.len() == 0 {
                        return self.finish_err("No localization metadata available.".to_owned());
                    }
                    match select_language(&items, self.lang_id.as_str()) {
                        Ok(i) => {
                            let item = items.remove(i);
                            self.item = Some(item);
                            self.stage = Stage::AwaitGameState;
                            InstallAction::ReadGameState
                        },
                        Err(msg) => self.finish_err(msg),
                    }
                },
                _ => self.finish_err("No localization metadata available.".to_owned()),
            },
            Stage::AwaitGameState => match e {
                InstallEvent::GameState { game_version, record } => {
                    let installed_etag = match &record {
                        Some(r) => Some(r.l10n_etag.clone()),
                        None => None,
                    };
                    self.game_version = game_version;
                    self.previous = record;
                    let url = match &self.item {
                        Some(item) => item.l10n.path.clone(),
                        None => String::new(),
                    };
                    self.stage = Stage::AwaitPackage(Package::L10n);
                    InstallAction::ObtainPackage { package: Package::L10n, url, label: "l10n".to_owned(), installed_etag }
                },
                _ => self.finish_err(String::new()),
            },
            Stage::AwaitPackage(p) => match e {
                InstallEvent::Obtained(Ok(etag)) => {
                    match p {
                        Package::L10n => self.l10n_etag = etag,
                        Package::Font => self.font_etag = etag,
                    }
                    self.stage = Stage::AwaitManifest(p);
                    InstallAction::ReadManifest { package: p }
                },
                InstallEvent::Obtained(Err(m)) => self.finish_err(m),
                _ => self.finish_err(String::new()),
            },
            Stage::AwaitManifest(p) => match e {
                InstallEvent::Manifest(None) => {
                    match p {
                        Package::L10n => {
                            self.l10n_version = match &self.previous {
                                Some(r) => r.loc_version.clone(),
                                None => String::new(),
                            };
                            self.stage = Stage::AwaitDiscard(Package::L10n);
                            InstallAction::DiscardPackage { package: Package::L10n }
                        },
                        Package::Font => {
                            self.font_version = match &self.previous {
                                Some(r) => r.font_version.clone(),
                                None => String::new(),
                            };
                            self.stage = Stage::AwaitClock;
                            InstallAction::ReadClock
                        },
                    }
                },
                InstallEvent::Manifest(Some(Err(m))) => self.finish_err(m),
                InstallEvent::Manifest(Some(Ok(listing))) => {
                    if !is_version_compatible(listing.supported_game_version.as_str(), self.game_version.as_str()) {
                        match p {
                            Package::L10n => {
                                match check_package_compat(listing.supported_game_version.as_str(), self.game_version.as_str()) {
                                    Err(msg) => self.failure = msg,
                                    Ok(()) => {},
                                }
                                self.stage = Stage::AwaitFailDiscard;
                                InstallAction::DiscardPackage { package: Package::L10n }
                            },
                            Package::Font => {
                                self.font_version = String::new();
                                self.font_etag = String::new();
                                self.stage = Stage::AwaitDiscard(Package::Font);
                                InstallAction::DiscardPackage { package: Package::Font }
                            },
                        }
                    } else {
                        let mut sources: Vec<String> = Vec::new();
                        let mut i: usize = 0;
                        while i < listing.entries.len()
                            invariant
                                i <= listing.entries@.len(),
                                sources@.len() == i,
                                forall|k: int| 0 <= k < i ==> (#[trigger] sources@[k])@ == listing.entries@[k].0@,
                            decreases listing.entries@.len() - i,
                        {
                            sources.push(listing.entries[i].0.clone());
                            i += 1;
                        }
                        self.entries = listing.entries;
                        self.manifest_version = listing.version;
                        self.stage = Stage::AwaitSources(p);
                        InstallAction::CheckSources { package: p, sources }
                    }
                },
                _ => self.finish_err(String::new()),
            },
            Stage::AwaitSources(p) => match e {
                InstallEvent::SourcesChecked(present) => {
                    self.ops = package_file_ops(&self.entries, &present);
                    self.pos = 0;
                    self.continue_copying(p)
                },
                _ => self.finish_err(String::new()),
            },
            Stage::Copying(p) => match e {
                InstallEvent::FileInstalled(Ok(name)) => {
                    let n = self.ops.len();
                    assert(self.pos < n);
                    let target = match &self.ops[self.pos] {
                        FileOp::Install { target, .. } => target.clone(),
                        FileOp::Report { .. } => String::new(),
                    };
                    self.backups.push((target, name));
                    self.pos = self.pos + 1;
                    self.continue_copying(p)
                },
                InstallEvent::FileInstalled(Err(m)) => self.finish_err(m),
                InstallEvent::Ack => {
                    let n = self.ops.len();
                    assert(self.pos < n);
                    self.pos = self.pos + 1;
                    self.continue_copying(p)
                },
                _ => self.finish_err(String::new()),
            },
            Stage::AwaitDiscard(Package::L10n) => self.continue_after_l10n(),
            Stage::AwaitDiscard(Package::Font) => {
                self.stage = Stage::AwaitClock;
                InstallAction::ReadClock
            },
            Stage::AwaitFailDiscard => {
                let msg = self.failure.clone();
                self.finish_err(msg)
            },
            Stage::AwaitClock => match e {
                InstallEvent::Clock(date) => {
                    let font_id = match &self.item {
                        Some(item) => match &item.font {
                            Some(f) => f.id.clone(),
                            None => String::new(),
                        },
                        None => String::new(),
                    };
                    let record = RecordDraft {
                        language: self.lang_id.clone(),
                        date,
                        loc_version: self.l10n_version.clone(),
                        l10n_etag: self.l10n_etag.clone(),
                        font_version: self.font_version.clone(),
                        font_etag: self.font_etag.clone(),
                        font_id,
                        installed_game_version: self.game_version.clone(),
                        app_version: self.app_version.clone(),
                        backups: latest_backup_list(&self.backups),
                    };
                    self.stage = Stage::AwaitWrite;
                    InstallAction::WriteRecord { record }
                },
                _ => self.finish_err(String::new()),
            },
            Stage::AwaitWrite => match e {
                InstallEvent::RecordWritten(Ok(())) => {
                    self.stage = Stage::Finished;
                    InstallAction::Finish {
                        result: Ok(self.lang_id.clone()),
                        cleanup: true,
                        final_note: Some(ProgressNote {
                            step: "done".to_owned(),
                            amount: ProgressAmount::Percent(100),
                            message_key: "done".to_owned(),
                        }),
                    }
                },
                InstallEvent::RecordWritten(Err(m)) => self.finish_err(m),
                _ => self.finish_err(String::new()),
            },
            Stage::Finished => self.finish_err(String::new()),
        }
    }
}

} // verus!
