//! Finding Tanks Blitz installations: reading the launcher's registry entry,
//! choosing drives to scan, and merging what the scans found.
use vstd::prelude::*;
use crate::text::{chars_of, string_of, ends_with_chars, trim_char_chars, rfind_char, take_chars,
    has_suffix, trim_char, last_index_of};
use crate::digest::{to_lowercase, lowercase_of, forward_slashes, to_forward_slashes};
use crate::paths::{joined, join_path};

verus! {

/// Type code given to every installation found (the live server).
pub const INSTANCE_TYPE: &'static str = "production";

/// Where installations are commonly put, relative to a drive root.
pub const COMMON_SUFFIX: &'static str = "Games/Tanks_Blitz";

/// Name of the game's main executable.
pub const GAME_EXE: &'static str = "tanksblitz.exe";

// ── The launcher's registry entry ──

/// The executable path inside the launcher's `DefaultIcon` registry value,
/// which typically reads `"C:\...\lgc.exe",0`: `None` for an empty value;
/// otherwise the value without surrounding quotes, cut before its last comma
/// when what precedes that comma names an `.exe`, `.dll` or `.ico` file
/// (compared in lowercase).
pub open spec fn lgc_exe_path_of(raw: Seq<char>) -> Option<Seq<char>> {
    if raw.len() == 0 {
        None
    } else {
        let p = trim_char(raw, '"');
        match last_index_of(p, ',') {
            Some(k) => {
                let candidate = p.take(k);
                let lower = lowercase_of(candidate);
                if has_suffix(lower, ".exe"@) || has_suffix(lower, ".dll"@) || has_suffix(lower, ".ico"@) {
                    Some(candidate)
                } else {
                    Some(p)
                }
            },
            None => Some(p),
        }
    }
}

/// The launcher executable named by the registry value `raw`.
pub fn lgc_exe_path(raw: &str) -> (r: Option<String>)
    ensures
        r is Some <==> lgc_exe_path_of(raw@) is Some,
        r matches Some(p) ==> lgc_exe_path_of(raw@) == Some(p@),
{
    let cs = chars_of(raw);
    if cs.len() == 0 {
        return None;
    }
    let p = trim_char_chars(cs.as_slice(), '"');
    match rfind_char(p.as_slice(), ',') {
        Some(k) => {
            let candidate = take_chars(p.as_slice(), k);
            let cand_str = string_of(candidate.as_slice());
            let lower_str = to_lowercase(cand_str.as_str());
            let lower = chars_of(lower_str.as_str());
            let exe = chars_of(".exe");
            let dll = chars_of(".dll");
            let ico = chars_of(".ico");
            if ends_with_chars(lower.as_slice(), exe.as_slice())
                || ends_with_chars(lower.as_slice(), dll.as_slice())
                || ends_with_chars(lower.as_slice(), ico.as_slice()) {
                Some(cand_str)
            } else {
                Some(string_of(p.as_slice()))
            }
        },
        None => Some(string_of(p.as_slice())),
    }
}

// ── Drives ──

/// Drive types that are not scanned: no root directory (1), CD-ROM (5) and RAM disk (6).
pub open spec fn drive_type_skipped(drive_type: u32) -> bool {
    drive_type == 1 || drive_type == 5 || drive_type == 6
}

/// Whether drives of `drive_type` are left out of the scan.
pub fn is_skipped_drive_type(drive_type: u32) -> (r: bool)
    ensures
        r == drive_type_skipped(drive_type),
{
    drive_type == 1 || drive_type == 5 || drive_type == 6
}

/// The drive letters that are probed, `A` to `Z` in order.
pub fn drive_letters() -> (r: Vec<char>)
    ensures
        r@.len() == 26,
        forall|i: int| 0 <= i < 26 ==> (#[trigger] r@[i]) as int == 'A' as int + i,
{
    let r = vec!['A', 'B', 'C', 'D', 'E', 'F', 'G', 'H', 'I', 'J', 'K', 'L', 'M',
        'N', 'O', 'P', 'Q', 'R', 'S', 'T', 'U', 'V', 'W', 'X', 'Y', 'Z'];
    assert(r@.len() == 26);
    r
}

/// The root that is probed for drive `letter`, such as `C:\`.
pub fn drive_probe_root(letter: char) -> (r: String)
    ensures
        r@ == seq![letter, ':', '\\'],
{
    let r = string_of(&[letter, ':', '\\']);
    r
}

/// What probing one drive letter found: whether its root exists, and (when it
/// does) the drive's type.
pub struct DriveProbe {
    pub letter: char,
    pub exists: bool,
    pub drive_type: u32,
}

/// The roots (such as `C:/`) of the probed drives that exist and are not of a skipped type.
pub open spec fn usable_roots(probes: Seq<DriveProbe>) -> Seq<Seq<char>>
    decreases probes.len(),
{
    if probes.len() == 0 {
        Seq::<Seq<char>>::empty()
    } else {
        let rest = usable_roots(probes.drop_last());
        let p = probes.last();
        if p.exists && !drive_type_skipped(p.drive_type) {
            rest.push(seq![p.letter, ':', '/'])
        } else {
            rest
        }
    }
}

/// Drive roots are found one probe at a time: the roots of two runs of probes
/// are the roots of the first run followed by those of the second.
pub proof fn law_usable_roots_concat(a: Seq<DriveProbe>, b: Seq<DriveProbe>)
    ensures
        usable_roots(a + b) == usable_roots(a) + usable_roots(b),
    decreases b.len(),
{
    if b.len() == 0 {
        assert(a + b =~= a);
        assert(usable_roots(a) + usable_roots(b) =~= usable_roots(a));
    } else {
        law_usable_roots_concat(a, b.drop_last());
        assert((a + b).drop_last() =~= a + b.drop_last());
        assert((a + b).last() == b.last());
        let x = usable_roots(a);
        let y = usable_roots(b.drop_last());
        let r = seq![b.last().letter, ':', '/'];
        assert((x + y).push(r) =~= x + y.push(r));
    }
}

/// One probe gives its root `X:/` exactly when the drive exists and its type
/// is not 1 (no root directory), 5 (CD-ROM) or 6 (RAM disk); every other type,
/// network and removable drives included, is scanned.
pub proof fn law_usable_root_of_one_probe(p: DriveProbe)
    ensures
        usable_roots(seq![p]) == if p.exists && p.drive_type != 1 && p.drive_type != 5 && p.drive_type != 6 {
            seq![seq![p.letter, ':', '/']]
        } else {
            Seq::<Seq<char>>::empty()
        },
{
    assert(seq![p].drop_last() =~= Seq::<DriveProbe>::empty());
    assert(seq![p].last() == p);
    assert(usable_roots(Seq::<DriveProbe>::empty()) =~= Seq::<Seq<char>>::empty());
    assert(usable_roots(seq![p]) == if p.exists && !drive_type_skipped(p.drive_type) {
        usable_roots(seq![p].drop_last()).push(seq![p.letter, ':', '/'])
    } else {
        usable_roots(seq![p].drop_last())
    });
    assert(Seq::<Seq<char>>::empty().push(seq![p.letter, ':', '/']) =~= seq![seq![p.letter, ':', '/']]);
}

/// Every probed drive that exists and is not of type 1, 5 or 6 has its root
/// among the drive roots scanned.
pub proof fn law_every_usable_drive_scanned(probes: Seq<DriveProbe>, i: int)
    requires
        0 <= i < probes.len(),
        probes[i].exists,
        probes[i].drive_type != 1 && probes[i].drive_type != 5 && probes[i].drive_type != 6,
    ensures
        usable_roots(probes).contains(seq![probes[i].letter, ':', '/']),
    decreases probes.len(),
{
    let root = seq![probes[i].letter, ':', '/'];
    if i == probes.len() - 1 {
        assert(usable_roots(probes).last() == root);
    } else {
        law_every_usable_drive_scanned(probes.drop_last(), i);
        let rest = usable_roots(probes.drop_last());
        let k = choose|k: int| 0 <= k < rest.len() && rest[k] == root;
        assert(usable_roots(probes)[k] == root);
    }
}

/// The views of a list of strings.
pub open spec fn views_of(v: Seq<String>) -> Seq<Seq<char>> {
    v.map_values(|s: String| s@)
}

/// The drive roots worth scanning, in probing order.
pub fn usable_drive_roots(probes: &Vec<DriveProbe>) -> (r: Vec<String>)
    ensures
        views_of(r@) == usable_roots(probes@),
{
    let mut r: Vec<String> = Vec::new();
    let mut i: usize = 0;
    while i < probes.len()
        invariant
            i <= probes@.len(),
            views_of(r@) == usable_roots(probes@.take(i as int)),
        decreases probes@.len() - i,
    {
        assert(probes@.take(i + 1).drop_last() =~= probes@.take(i as int));
        let p = &probes[i];
        if p.exists && !is_skipped_drive_type(p.drive_type) {
            let root = string_of(&[p.letter, ':', '/']);
            let ghost before = r@;
            r.push(root);
            assert(views_of(r@) =~= views_of(before).push(root@));
        }
        i += 1;
    }
    assert(probes@.take(probes@.len() as int) =~= probes@);
    r
}

// ── Scan results ──

/// The path (with forward slashes) and type code of one installation found.
pub open spec fn entry_view(e: (String, String)) -> (Seq<char>, Seq<char>) {
    (e.0@, e.1@)
}

/// The views of a list of installations found.
pub open spec fn entries_view(v: Seq<(String, String)>) -> Seq<(Seq<char>, Seq<char>)> {
    v.map_values(|e: (String, String)| entry_view(e))
}

/// The directory commonly holding an installation on the drive with root `drive_root`.
pub fn common_instance_dir(drive_root: &str) -> (r: String)
    ensures
        r@ == forward_slashes(joined(drive_root@, COMMON_SUFFIX@)),
{
    let p = join_path(drive_root, COMMON_SUFFIX);
    to_forward_slashes(p.as_str())
}

/// The installations that the launcher's records name, as `(path, type)`
/// with forward slashes in the paths, in the same order.
pub fn registry_instances(paths: &Vec<String>) -> (r: Vec<(String, String)>)
    ensures
        r@.len() == paths@.len(),
        forall|i: int| 0 <= i < paths@.len() ==> #[trigger] entry_view(r@[i])
            == (forward_slashes(paths@[i]@), INSTANCE_TYPE@),
{
    let mut r: Vec<(String, String)> = Vec::new();
    let mut i: usize = 0;
    while i < paths.len()
        invariant
            i <= paths@.len(),
            r@.len() == i,
            forall|k: int| 0 <= k < i ==> #[trigger] entry_view(r@[k])
                == (forward_slashes(paths@[k]@), INSTANCE_TYPE@),
        decreases paths@.len() - i,
    {
        r.push((to_forward_slashes(paths[i].as_str()), INSTANCE_TYPE.to_owned()));
        i += 1;
    }
    r
}

/// A candidate directory from the common-paths scan: its path with forward
/// slashes, whether it is a directory, and whether it holds a valid installation.
pub struct CommonCandidate {
    pub path: String,
    pub is_dir: bool,
    pub valid: bool,
}

/// Whether an earlier directory candidate than position `i` has the same path as candidate `i`.
pub open spec fn seen_before(c: Seq<CommonCandidate>, i: int) -> bool {
    exists|j: int| 0 <= j < i && (#[trigger] c[j]).is_dir && c[j].path@ == c[i].path@
}

/// The installations that the common-paths scan reports: each directory seen
/// for the first time that holds a valid installation, in scan order.
pub open spec fn common_found(c: Seq<CommonCandidate>) -> Seq<(Seq<char>, Seq<char>)>
    decreases c.len(),
{
    if c.len() == 0 {
        Seq::<(Seq<char>, Seq<char>)>::empty()
    } else {
        let rest = common_found(c.drop_last());
        let i = c.len() - 1;
        if c[i].is_dir && !seen_before(c, i) && c[i].valid {
            rest.push((c[i].path@, INSTANCE_TYPE@))
        } else {
            rest
        }
    }
}

proof fn lemma_seen_before_prefix(c: Seq<CommonCandidate>, n: int, i: int)
    requires
        0 <= i < n <= c.len(),
    ensures
        seen_before(c.take(n), i) == seen_before(c, i),
{
    if seen_before(c, i) {
        let j = choose|j: int| 0 <= j < i && (#[trigger] c[j]).is_dir && c[j].path@ == c[i].path@;
        assert(c.take(n)[j] == c[j]);
    }
    if seen_before(c.take(n), i) {
        let j = choose|j: int| 0 <= j < i && (#[trigger] c.take(n)[j]).is_dir && c.take(n)[j].path@ == c.take(n)[i].path@;
        assert(c.take(n)[j] == c[j]);
    }
}

/// The installations found by scanning the common directories `candidates`.
pub fn select_common_instances(candidates: &Vec<CommonCandidate>) -> (r: Vec<(String, String)>)
    ensures
        entries_view(r@) == common_found(candidates@),
{
    let ghost c = candidates@;
    let mut r: Vec<(String, String)> = Vec::new();
    let mut i: usize = 0;
    while i < candidates.len()
        invariant
            c == candidates@,
            i <= c.len(),
            entries_view(r@) == common_found(c.take(i as int)),
        decreases c.len() - i,
    {
        let cand = &candidates[i];
        let ghost t = c.take(i + 1);
        assert(t.drop_last() =~= c.take(i as int));
        assert(t[i as int] == c[i as int]);
        if cand.is_dir {
            // has an earlier directory candidate the same path?
            let mut seen = false;
            let mut j: usize = 0;
            while j < i
                invariant
                    c == candidates@,
                    j <= i < c.len(),
                    cand.path@ == c[i as int].path@,
                    seen == exists|k: int| 0 <= k < j && (#[trigger] c[k]).is_dir && c[k].path@ == c[i as int].path@,
                decreases i - j,
            {
                let earlier = &candidates[j];
                assert(c[j as int] == *earlier);
                if earlier.is_dir && earlier.path == cand.path {
                    seen = true;
                }
                j += 1;
                assert(seen == exists|k: int| 0 <= k < j && (#[trigger] c[k]).is_dir && c[k].path@ == c[i as int].path@) by {
                    if !seen {
                        assert forall|k: int| 0 <= k < j implies !((#[trigger] c[k]).is_dir && c[k].path@ == c[i as int].path@) by {
                            if k == j - 1 {
                                assert(c[k] == *earlier);
                            }
                        }
                    }
                }
            }
            proof {
                lemma_seen_before_prefix(c, i + 1, i as int);
            }
            assert(seen == seen_before(t, i as int));
            if !seen && cand.valid {
                let ghost before = r@;
                r.push((cand.path.clone(), INSTANCE_TYPE.to_owned()));
                assert(entries_view(r@) =~= entries_view(before).push((cand.path@, INSTANCE_TYPE@)));
            }
        }
        i += 1;
    }
    assert(c.take(c.len() as int) =~= c);
    r
}

proof fn lemma_common_found_origin(c: Seq<CommonCandidate>)
    ensures
        forall|k: int| 0 <= k < common_found(c).len() ==> exists|i: int| 0 <= i < c.len()
            && (#[trigger] c[i]).is_dir && !seen_before(c, i)
            && (#[trigger] common_found(c)[k]).0 == c[i].path@,
    decreases c.len(),
{
    if c.len() > 0 {
        let init = c.drop_last();
        lemma_common_found_origin(init);
        let f = common_found(c);
        let fi = common_found(init);
        assert forall|k: int| 0 <= k < f.len() implies exists|i: int| 0 <= i < c.len()
            && (#[trigger] c[i]).is_dir && !seen_before(c, i) && (#[trigger] f[k]).0 == c[i].path@ by {
            if k < fi.len() {
                assert(f[k] == fi[k]);
                let i = choose|i: int| 0 <= i < init.len() && (#[trigger] init[i]).is_dir && !seen_before(init, i)
                    && fi[k].0 == init[i].path@;
                assert(c[i] == init[i]);
                lemma_seen_before_prefix(c, c.len() - 1, i);
                assert(c.take(c.len() - 1) =~= init);
            } else {
                let i = c.len() - 1;
                assert(c[i].is_dir && !seen_before(c, i));
            }
        }
    }
}

/// The common-paths scan never reports one directory twice.
pub proof fn law_common_unique(c: Seq<CommonCandidate>)
    ensures
        forall|a: int, b: int| 0 <= a < b < common_found(c).len()
            ==> (#[trigger] common_found(c)[a]).0 != (#[trigger] common_found(c)[b]).0,
    decreases c.len(),
{
    if c.len() > 0 {
        let init = c.drop_last();
        law_common_unique(init);
        lemma_common_found_origin(init);
        let f = common_found(c);
        let fi = common_found(init);
        let n = c.len() - 1;
        assert(c.take(n) =~= init);
        assert forall|a: int, b: int| 0 <= a < b < f.len() implies (#[trigger] f[a]).0 != (#[trigger] f[b]).0 by {
            if b < fi.len() {
                assert(f[a] == fi[a] && f[b] == fi[b]);
            } else {
                assert(f[a] == fi[a]);
                assert(f[b].0 == c[n].path@);
                if f[a].0 == f[b].0 {
                    let i = choose|i: int| 0 <= i < init.len() && (#[trigger] init[i]).is_dir
                        && !seen_before(init, i) && fi[a].0 == init[i].path@;
                    assert(c[i] == init[i]);
                    assert(seen_before(c, n));
                }
            }
        }
    }
}

// ── Merging the scans ──

/// Whether an entry before position `i` has the same path as entry `i`.
pub open spec fn path_seen_before(s: Seq<(Seq<char>, Seq<char>)>, i: int) -> bool {
    exists|j: int| 0 <= j < i && (#[trigger] s[j]).0 == s[i].0
}

/// The entries of `s` whose path has not appeared earlier, in order.
pub open spec fn first_by_path(s: Seq<(Seq<char>, Seq<char>)>) -> Seq<(Seq<char>, Seq<char>)>
    decreases s.len(),
{
    if s.len() == 0 {
        s
    } else {
        let rest = first_by_path(s.drop_last());
        if path_seen_before(s, s.len() - 1) {
            rest
        } else {
            rest.push(s.last())
        }
    }
}

/// Whether some entry of `s` has path `p`.
pub open spec fn has_path(s: Seq<(Seq<char>, Seq<char>)>, p: Seq<char>) -> bool {
    exists|j: int| 0 <= j < s.len() && (#[trigger] s[j]).0 == p
}

proof fn lemma_first_by_path_paths(s: Seq<(Seq<char>, Seq<char>)>)
    ensures
        forall|p: Seq<char>| has_path(first_by_path(s), p) <==> has_path(s, p),
        forall|k: int| 0 <= k < first_by_path(s).len() ==> has_path(s, (#[trigger] first_by_path(s)[k]).0),
    decreases s.len(),
{
    if s.len() > 0 {
        let init = s.drop_last();
        lemma_first_by_path_paths(init);
        let f = first_by_path(s);
        let fi = first_by_path(init);
        assert forall|p: Seq<char>| has_path(f, p) <==> has_path(s, p) by {
            if has_path(s, p) {
                let j = choose|j: int| 0 <= j < s.len() && (#[trigger] s[j]).0 == p;
                if j < s.len() - 1 {
                    assert(init[j].0 == p);
                    assert(has_path(init, p));
                    let k = choose|k: int| 0 <= k < fi.len() && (#[trigger] fi[k]).0 == p;
                    assert(f[k] == fi[k]);
                } else if path_seen_before(s, s.len() - 1) {
                    let j2 = choose|j2: int| 0 <= j2 < s.len() - 1 && (#[trigger] s[j2]).0 == s[s.len() - 1].0;
                    assert(init[j2].0 == p);
                    assert(has_path(init, p));
                    let k = choose|k: int| 0 <= k < fi.len() && (#[trigger] fi[k]).0 == p;
                    assert(f[k] == fi[k]);
                } else {
                    assert(f[f.len() - 1] == s.last());
                }
            }
            if has_path(f, p) {
                let k = choose|k: int| 0 <= k < f.len() && (#[trigger] f[k]).0 == p;
                if k < fi.len() {
                    assert(f[k] == fi[k]);
                    assert(has_path(fi, p));
                    let j = choose|j: int| 0 <= j < init.len() && (#[trigger] init[j]).0 == p;
                    assert(s[j] == init[j]);
                } else {
                    assert(s[s.len() - 1].0 == p);
                }
            }
        }
        assert forall|k: int| 0 <= k < f.len() implies has_path(s, (#[trigger] f[k]).0) by {
            assert(has_path(f, f[k].0));
        }
    }
}

/// Registry results followed by common-path results, each path kept only at
/// its first appearance.
pub open spec fn merged(registry: Seq<(Seq<char>, Seq<char>)>, common: Seq<(Seq<char>, Seq<char>)>) -> Seq<(Seq<char>, Seq<char>)> {
    first_by_path(registry + common)
}

fn contains_path(found: &Vec<(String, String)>, path: &String) -> (r: bool)
    ensures
        r == has_path(entries_view(found@), path@),
{
    let ghost fv = entries_view(found@);
    let mut i: usize = 0;
    while i < found.len()
        invariant
            i <= found@.len(),
            fv == entries_view(found@),
            forall|k: int| 0 <= k < i ==> (#[trigger] fv[k]).0 != path@,
        decreases found@.len() - i,
    {
        if found[i].0 == *path {
            assert(fv[i as int].0 == path@);
            return true;
        }
        i += 1;
    }
    false
}

/// All installations found, registry results first, without repeating a path:
/// the first entry for each path is kept.
pub fn merge_instances(registry: Vec<(String, String)>, common: Vec<(String, String)>) -> (r: Vec<(String, String)>)
    ensures
        entries_view(r@) == merged(entries_view(registry@), entries_view(common@)),
{
    let ghost all = entries_view(registry@) + entries_view(common@);
    let mut inputs = registry;
    let mut rest = common;
    let ghost iv = inputs@;
    let ghost rv = rest@;
    inputs.append(&mut rest);
    assert(entries_view(inputs@) =~= all);
    let mut r: Vec<(String, String)> = Vec::new();
    let mut i: usize = 0;
    while i < inputs.len()
        invariant
            i <= inputs@.len(),
            all == entries_view(inputs@),
            entries_view(r@) == first_by_path(all.take(i as int)),
        decreases inputs@.len() - i,
    {
        let ghost t = all.take(i + 1);
        assert(t.drop_last() =~= all.take(i as int));
        proof {
            lemma_first_by_path_paths(all.take(i as int));
        }
        let dup = contains_path(&r, &inputs[i].0);
        assert(dup == path_seen_before(t, i as int)) by {
            if dup {
                let k = choose|k: int| 0 <= k < entries_view(r@).len() && (#[trigger] entries_view(r@)[k]).0 == inputs@[i as int].0@;
                assert(has_path(all.take(i as int), inputs@[i as int].0@));
                let j = choose|j: int| 0 <= j < all.take(i as int).len() && (#[trigger] all.take(i as int)[j]).0 == inputs@[i as int].0@;
                assert(t[j] == all[j]);
                assert(t[i as int] == all[i as int]);
            }
            if path_seen_before(t, i as int) {
                let j = choose|j: int| 0 <= j < i && (#[trigger] t[j]).0 == t[i as int].0;
                assert(all.take(i as int)[j] == t[j]);
                assert(has_path(all.take(i as int), t[i as int].0));
            }
        }
        if !dup {
            let e = (inputs[i].0.clone(), inputs[i].1.clone());
            let ghost before = r@;
            r.push(e);
            assert(entries_view(r@) =~= entries_view(before).push(t.last()));
        }
        i += 1;
    }
    assert(all.take(all.len() as int) =~= all);
    r
}

/// Merging never lists one path twice.
pub proof fn law_merge_unique(registry: Seq<(Seq<char>, Seq<char>)>, common: Seq<(Seq<char>, Seq<char>)>)
    ensures
        forall|a: int, b: int| 0 <= a < b < merged(registry, common).len()
            ==> (#[trigger] merged(registry, common)[a]).0 != (#[trigger] merged(registry, common)[b]).0,
{
    lemma_first_by_path_unique(registry + common);
}

proof fn lemma_first_by_path_unique(s: Seq<(Seq<char>, Seq<char>)>)
    ensures
        forall|a: int, b: int| 0 <= a < b < first_by_path(s).len()
            ==> (#[trigger] first_by_path(s)[a]).0 != (#[trigger] first_by_path(s)[b]).0,
    decreases s.len(),
{
    if s.len() > 0 {
        let init = s.drop_last();
        lemma_first_by_path_unique(init);
        lemma_first_by_path_paths(init);
        let f = first_by_path(s);
        let fi = first_by_path(init);
        if !path_seen_before(s, s.len() - 1) {
            assert forall|a: int, b: int| 0 <= a < b < f.len() implies (#[trigger] f[a]).0 != (#[trigger] f[b]).0 by {
                if b == f.len() - 1 {
                    assert(f[a] == fi[a]);
                    if f[a].0 == f[b].0 {
                        assert(has_path(fi, s.last().0));
                        assert(has_path(init, s.last().0));
                        let j = choose|j: int| 0 <= j < init.len() && (#[trigger] init[j]).0 == s.last().0;
                        assert(s[j] == init[j]);
                    }
                } else {
                    assert(f[a] == fi[a] && f[b] == fi[b]);
                }
            }
        }
    }
}

/// Merging keeps every path that either scan found, and invents none.
pub proof fn law_merge_keeps_every_path(registry: Seq<(Seq<char>, Seq<char>)>, common: Seq<(Seq<char>, Seq<char>)>, p: Seq<char>)
    ensures
        has_path(merged(registry, common), p) <==> (has_path(registry, p) || has_path(common, p)),
{
    let all = registry + common;
    lemma_first_by_path_paths(all);
    if has_path(registry, p) {
        let j = choose|j: int| 0 <= j < registry.len() && (#[trigger] registry[j]).0 == p;
        assert(all[j] == registry[j]);
    }
    if has_path(common, p) {
        let j = choose|j: int| 0 <= j < common.len() && (#[trigger] common[j]).0 == p;
        assert(all[registry.len() + j] == common[j]);
    }
    if has_path(all, p) {
        let j = choose|j: int| 0 <= j < all.len() && (#[trigger] all[j]).0 == p;
        if j < registry.len() {
            assert(registry[j] == all[j]);
        } else {
            assert(common[j - registry.len()] == all[j]);
        }
    }
}

/// One installation as the user interface lists it.
pub struct InstanceInfo {
    pub path: String,
    pub type_code: String,
}

/// The installations found, as the user interface lists them, in the same order.
pub fn instance_infos(found: Vec<(String, String)>) -> (r: Vec<InstanceInfo>)
    ensures
        r@.len() == found@.len(),
        forall|i: int| 0 <= i < found@.len() ==> (#[trigger] r@[i]).path == found@[i].0
            && r@[i].type_code == found@[i].1,
{
    let mut r: Vec<InstanceInfo> = Vec::new();
    let mut i: usize = 0;
    while i < found.len()
        invariant
            i <= found@.len(),
            r@.len() == i,
            forall|k: int| 0 <= k < i ==> (#[trigger] r@[k]).path == found@[k].0
                && r@[k].type_code == found@[k].1,
        decreases found@.len() - i,
    {
        r.push(InstanceInfo { path: found[i].0.clone(), type_code: found[i].1.clone() });
        i += 1;
    }
    r
}

} // verus!
