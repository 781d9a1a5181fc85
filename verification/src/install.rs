//! The decisions taken while installing: which language to install, whether
//! a downloaded archive fits the game, and which files to copy.
use vstd::prelude::*;
use crate::text::concat_str;
use crate::version::{version_compatible, is_version_compatible};
use crate::model::BlitzMetadataItem;

verus! {

// ── Choosing the language ──

/// The position of the first offered language whose id is `lang_id`.
pub open spec fn first_with_id(items: Seq<BlitzMetadataItem>, lang_id: Seq<char>, from: int) -> Option<int>
    decreases items.len() - from,
{
    if from < 0 || from >= items.len() {
        None
    } else if items[from].id@ == lang_id {
        Some(from)
    } else {
        first_with_id(items, lang_id, from + 1)
    }
}

proof fn lemma_first_with_id_in_range(items: Seq<BlitzMetadataItem>, lang_id: Seq<char>, from: int)
    ensures
        first_with_id(items, lang_id, from) matches Some(k) ==> from <= k < items.len(),
    decreases items.len() - from,
{
    if 0 <= from < items.len() && items[from].id@ != lang_id {
        lemma_first_with_id_in_range(items, lang_id, from + 1);
    }
}

/// The message given when no language is on offer at all.
pub open spec fn no_metadata_message() -> Seq<char> {
    "No localization metadata available."@
}

/// The message given when language `lang_id` is not on offer.
pub open spec fn language_missing_message(lang_id: Seq<char>) -> Seq<char> {
    "Language '"@ + lang_id + "' not found"@
}

/// The position in `items` of the language to install: an error when nothing
/// is on offer, or when no language has id `lang_id`; otherwise the first one that has.
pub fn select_language(items: &Vec<BlitzMetadataItem>, lang_id: &str) -> (r: Result<usize, String>)
    ensures
        items@.len() == 0 ==> (r matches Err(e) && e@ == no_metadata_message()),
        items@.len() > 0 && first_with_id(items@, lang_id@, 0) is None
            ==> (r matches Err(e) && e@ == language_missing_message(lang_id@)),
        items@.len() > 0 && first_with_id(items@, lang_id@, 0) is Some
            ==> (r matches Ok(i) && i as int == first_with_id(items@, lang_id@, 0).unwrap()),
        r matches Ok(i) ==> i < items@.len(),
{
    if items.len() == 0 {
        return Err("No localization metadata available.".to_owned());
    }
    let wanted = lang_id.to_owned();
    let mut i: usize = 0;
    while i < items.len()
        invariant
            i <= items@.len(),
            wanted@ == lang_id@,
            first_with_id(items@, lang_id@, 0) == first_with_id(items@, lang_id@, i as int),
        decreases items@.len() - i,
    {
        if items[i].id == wanted {
            proof {
                lemma_first_with_id_in_range(items@, lang_id@, 0);
            }
            return Ok(i);
        }
        i += 1;
    }
    let head = concat_str("Language '", lang_id);
    Err(concat_str(head.as_str(), "' not found"))
}

// ── Whether an archive fits the game ──

/// The message given when an archive does not fit the installed game version.
pub open spec fn incompatible_message(supported: Seq<char>, game_version: Seq<char>) -> Seq<char> {
    "No supported version: artifact requires game version "@ + supported + ", but you have "@
        + game_version
}

/// Accepts a localization archive built for `supported` on game version
/// `game_version`, or says why not.
pub fn check_package_compat(supported: &str, game_version: &str) -> (r: Result<(), String>)
    ensures
        version_compatible(supported@, game_version@) ==> r is Ok,
        !version_compatible(supported@, game_version@)
            ==> (r matches Err(e) && e@ == incompatible_message(supported@, game_version@)),
{
    if is_version_compatible(supported, game_version) {
        Ok(())
    } else {
        let a = concat_str("No supported version: artifact requires game version ", supported);
        let b = concat_str(a.as_str(), ", but you have ");
        Err(concat_str(b.as_str(), game_version))
    }
}

// ── Copying a package's files into the game ──

/// One step of installing an extracted package into the game's `Data` directory.
pub enum FileOp {
    /// Back up the game file `target` (relative to `Data`) and copy the
    /// package file `source` over it.
    Install { source: String, target: String },
    /// Report progress: `done` of the package's `total` manifest entries handled.
    Report { done: u32, total: usize },
}

/// The plain content of a [`FileOp`].
pub enum FileOpView {
    Install { source: Seq<char>, target: Seq<char> },
    Report { done: int, total: int },
}

impl View for FileOp {
    type V = FileOpView;

    open spec fn view(&self) -> FileOpView {
        match self {
            FileOp::Install { source, target } => FileOpView::Install { source: source@, target: target@ },
            FileOp::Report { done, total } => FileOpView::Report { done: *done as int, total: *total as int },
        }
    }
}

/// The views of a list of steps.
pub open spec fn ops_view(ops: Seq<FileOp>) -> Seq<FileOpView> {
    ops.map_values(|o: FileOp| o@)
}

/// The plain content of a manifest entry: a package file and the game files it goes to.
pub open spec fn entry_view(e: (String, Vec<String>)) -> (Seq<char>, Seq<Seq<char>>) {
    (e.0@, e.1@.map_values(|t: String| t@))
}

/// How many of the first `k` package files are present.
pub open spec fn present_count(present: Seq<bool>, k: int) -> int
    decreases k,
{
    if k <= 0 {
        0
    } else {
        present_count(present, k - 1) + if present[k - 1] {
            1int
        } else {
            0int
        }
    }
}

/// Installing package file `source` to each of `targets`, in order.
pub open spec fn installs(source: Seq<char>, targets: Seq<Seq<char>>) -> Seq<FileOpView> {
    targets.map_values(|t: Seq<char>| FileOpView::Install { source, target: t })
}

/// The steps for the first `k` manifest entries: each entry whose package file
/// is present installs that file to each of its targets, then reports how many
/// present entries have been handled out of all `total` entries; an entry whose
/// file is missing is passed over.
pub open spec fn planned_ops(entries: Seq<(Seq<char>, Seq<Seq<char>>)>, present: Seq<bool>, k: int, total: int) -> Seq<FileOpView>
    decreases k,
{
    if k <= 0 {
        Seq::<FileOpView>::empty()
    } else {
        let rest = planned_ops(entries, present, k - 1, total);
        if present[k - 1] {
            rest + installs(entries[k - 1].0, entries[k - 1].1) + seq![
                FileOpView::Report { done: present_count(present, k), total },
            ]
        } else {
            rest
        }
    }
}

proof fn lemma_present_count_bounds(present: Seq<bool>, k: int)
    requires
        0 <= k <= present.len(),
    ensures
        0 <= present_count(present, k) <= k,
    decreases k,
{
    if k > 0 {
        lemma_present_count_bounds(present, k - 1);
    }
}

/// The steps that install a package whose manifest lists `entries` (each a
/// package file and the game files it is copied to), where `source_present[i]`
/// says whether the package file of entry `i` exists.
pub fn package_file_ops(entries: &Vec<(String, Vec<String>)>, source_present: &Vec<bool>) -> (r: Vec<FileOp>)
    requires
        source_present@.len() == entries@.len(),
        entries@.len() <= u32::MAX,
    ensures
        ops_view(r@) == planned_ops(entries@.map_values(|e: (String, Vec<String>)| entry_view(e)),
            source_present@, entries@.len() as int, entries@.len() as int),
{
    let ghost ev = entries@.map_values(|e: (String, Vec<String>)| entry_view(e));
    let total = entries.len();
    let mut ops: Vec<FileOp> = Vec::new();
    let mut done: u32 = 0;
    let mut i: usize = 0;
    while i < entries.len()
        invariant
            i <= entries@.len() == total,
            total <= u32::MAX,
            source_present@.len() == entries@.len(),
            ev == entries@.map_values(|e: (String, Vec<String>)| entry_view(e)),
            done == present_count(source_present@, i as int),
            ops_view(ops@) == planned_ops(ev, source_present@, i as int, total as int),
        decreases entries@.len() - i,
    {
        proof {
            lemma_present_count_bounds(source_present@, i + 1);
        }
        if source_present[i] {
            let source = &entries[i].0;
            let targets = &entries[i].1;
            let ghost base = ops_view(ops@);
            let ghost tv = targets@.map_values(|t: String| t@);
            assert(ev[i as int] == entry_view(entries@[i as int]));
            let mut j: usize = 0;
            while j < targets.len()
                invariant
                    j <= targets@.len(),
                    tv == targets@.map_values(|t: String| t@),
                    ops_view(ops@) == base + installs(source@, tv.take(j as int)),
                decreases targets@.len() - j,
            {
                let ghost before = ops_view(ops@);
                ops.push(FileOp::Install { source: source.clone(), target: targets[j].clone() });
                j += 1;
                assert(installs(source@, tv.take(j as int)) =~= installs(source@, tv.take((j - 1) as int)).push(
                    FileOpView::Install { source: source@, target: tv[j - 1] },
                ));
                assert(ops_view(ops@) =~= before.push(FileOpView::Install { source: source@, target: tv[j - 1] }));
            }
            assert(tv.take(targets@.len() as int) =~= tv);
            done = done + 1;
            let ghost mid = ops_view(ops@);
            ops.push(FileOp::Report { done, total });
            assert(ops_view(ops@) =~= mid.push(FileOpView::Report { done: done as int, total: total as int }));
        }
        i += 1;
    }
    ops
}

} // verus!
