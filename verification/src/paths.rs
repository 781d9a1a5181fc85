//! Where the installer keeps its caches and backups, and how backed-up files are named.
use vstd::prelude::*;
use crate::text::{chars_of, string_of, concat_str, last_index_of, rfind_char};
use crate::digest::{short_hash, short_hash_of};

verus! {

/// Name of the installation record kept in a game's `Data` directory.
pub const INST_INFO_FILE: &'static str = "lbi_inst.json";

/// Name of the cached localization metadata file.
pub const METADATA_CACHE_FILE: &'static str = "blitz_metadata.json";

/// Whether `c` separates path components (Windows accepts both slashes).
pub open spec fn is_sep(c: char) -> bool {
    c == '/' || c == '\\'
}

/// `child` placed inside directory `base`: a `/` is put between them unless
/// `base` is empty or already ends with a separator. The children this library
/// joins are relative names (fixed directory names, hex fingerprints, backup
/// file names), for which this is where the platform's path join puts them too.
pub open spec fn joined(base: Seq<char>, child: Seq<char>) -> Seq<char> {
    if base.len() == 0 {
        child
    } else if is_sep(base.last()) {
        base + child
    } else {
        base + seq!['/'] + child
    }
}

/// The path of `child` (a relative path) inside directory `base`.
pub fn join_path(base: &str, child: &str) -> (r: String)
    ensures
        r@ == joined(base@, child@),
{
    let b = chars_of(base);
    if b.len() == 0 {
        return child.to_owned();
    }
    let last = b[b.len() - 1];
    assert(last == base@.last());
    if last == '/' || last == '\\' {
        concat_str(base, child)
    } else {
        let with_sep = concat_str(base, "/");
        proof {
            reveal_strlit("/");
        }
        assert("/"@ =~= seq!['/']);
        concat_str(with_sep.as_str(), child)
    }
}

/// The directory that holds the backups of one game installation.
pub open spec fn backup_dir_of(data_dir: Seq<char>, fingerprint: Seq<char>) -> Seq<char> {
    joined(joined(data_dir, "backups"@), fingerprint)
}

/// The directory holding the backups of the installation with `fingerprint`,
/// inside the application data directory `data_dir`.
pub fn backup_dir(data_dir: &str, fingerprint: &str) -> (r: String)
    ensures
        r@ == backup_dir_of(data_dir@, fingerprint@),
{
    let backups = join_path(data_dir, "backups");
    join_path(backups.as_str(), fingerprint)
}

/// The download cache directory inside the application data directory `data_dir`.
pub fn cache_dir(data_dir: &str) -> (r: String)
    ensures
        r@ == joined(data_dir@, "cache"@),
{
    join_path(data_dir, "cache")
}

/// `base` as a directory prefix: with a `/` added unless it is empty or
/// already ends with a separator.
pub open spec fn dir_prefix(base: Seq<char>) -> Seq<char> {
    if base.len() == 0 || is_sep(base.last()) {
        base
    } else {
        base + seq!['/']
    }
}

proof fn lemma_joined_is_prefix_plus_child(base: Seq<char>, child: Seq<char>)
    ensures
        joined(base, child) == dir_prefix(base) + child,
{
    if base.len() == 0 {
        assert(base + child =~= child);
    }
}

/// The download cache and the backups of any installation are siblings inside
/// the data directory, named `cache` and `backups`: neither path is a prefix of
/// the other, so clearing the cache never touches a backup, and the reverse.
pub proof fn law_cache_and_backups_apart(data_dir: Seq<char>, fingerprint: Seq<char>)
    ensures
        joined(data_dir, "cache"@) == dir_prefix(data_dir) + "cache"@,
        backup_dir_of(data_dir, fingerprint) == dir_prefix(data_dir) + "backups"@ + seq!['/'] + fingerprint,
        !joined(data_dir, "cache"@).is_prefix_of(backup_dir_of(data_dir, fingerprint)),
        !backup_dir_of(data_dir, fingerprint).is_prefix_of(joined(data_dir, "cache"@)),
{
    reveal_strlit("cache");
    reveal_strlit("backups");
    let d = dir_prefix(data_dir);
    let b = joined(data_dir, "backups"@);
    lemma_joined_is_prefix_plus_child(data_dir, "cache"@);
    lemma_joined_is_prefix_plus_child(data_dir, "backups"@);
    lemma_joined_is_prefix_plus_child(b, fingerprint);
    assert(b.len() > 0 && b.last() == 's');
    assert(dir_prefix(b) =~= d + "backups"@ + seq!['/']);
    let c = joined(data_dir, "cache"@);
    let k = backup_dir_of(data_dir, fingerprint);
    assert(c[d.len() as int] == 'c');
    assert(k[d.len() as int] == 'b');
    assert(c.len() > d.len() && k.len() > d.len());
}

/// The pieces of `s` between separators (there is always at least one piece).
pub open spec fn split_path(s: Seq<char>) -> Seq<Seq<char>>
    decreases s.len(),
{
    if s.len() == 0 {
        seq![Seq::<char>::empty()]
    } else {
        let rest = split_path(s.drop_last());
        if is_sep(s.last()) {
            rest.push(Seq::<char>::empty())
        } else {
            rest.update(rest.len() - 1, rest.last().push(s.last()))
        }
    }
}

/// The pieces that name something: empty pieces and `.` are dropped.
pub open spec fn named_parts(parts: Seq<Seq<char>>) -> Seq<Seq<char>>
    decreases parts.len(),
{
    if parts.len() == 0 {
        Seq::<Seq<char>>::empty()
    } else {
        let rest = named_parts(parts.drop_last());
        if parts.last().len() == 0 || parts.last() == seq!['.'] {
            rest
        } else {
            rest.push(parts.last())
        }
    }
}

/// The last component of a path, unless the path ends in `..` or has no components.
pub open spec fn file_name_of(p: Seq<char>) -> Option<Seq<char>> {
    let n = named_parts(split_path(p));
    if n.len() == 0 || n.last() == seq!['.', '.'] {
        None
    } else {
        Some(n.last())
    }
}

/// The extension of a path: what follows the last `.` of its file name,
/// unless the name has no `.` or its only `.` is the first character.
pub open spec fn extension_of(p: Seq<char>) -> Option<Seq<char>> {
    match file_name_of(p) {
        Some(f) => match last_index_of(f, '.') {
            Some(k) => if k > 0 {
                Some(f.subrange(k + 1, f.len() as int))
            } else {
                None
            },
            None => None,
        },
        None => None,
    }
}

/// The file name of path `p`.
fn file_name_chars(p: &[char]) -> (r: Option<Vec<char>>)
    ensures
        r is Some <==> file_name_of(p@) is Some,
        r matches Some(f) ==> file_name_of(p@) == Some(f@),
{
    let ghost whole = p@;
    // named components seen so far, and the component being read
    let mut named: Vec<Vec<char>> = Vec::new();
    let mut cur: Vec<char> = Vec::new();
    let mut i: usize = 0;
    while i < p.len()
        invariant
            i <= p@.len(),
            named@.len() == named_parts(split_path(p@.take(i as int)).drop_last()).len(),
            forall|k: int| 0 <= k < named@.len() ==> #[trigger] named@[k]@
                == named_parts(split_path(p@.take(i as int)).drop_last())[k],
            cur@ == split_path(p@.take(i as int)).last(),
            split_path(p@.take(i as int)).len() >= 1,
        decreases p@.len() - i,
    {
        let ghost before = split_path(p@.take(i as int));
        assert(p@.take(i + 1).drop_last() =~= p@.take(i as int));
        assert(p@.take(i + 1).last() == p@[i as int]);
        let c = p[i];
        if c == '/' || c == '\\' {
            let ghost after = split_path(p@.take(i + 1));
            assert(after.drop_last() =~= before);
            assert(before =~= before.drop_last().push(before.last()));
            let keep = !(cur.len() == 0 || (cur.len() == 1 && cur[0] == '.'));
            assert(keep == !(before.last().len() == 0 || before.last() == seq!['.'])) by {
                if cur@.len() == 1 && cur@[0] == '.' {
                    assert(cur@ =~= seq!['.']);
                }
            }
            if keep {
                named.push(cur);
            }
            cur = Vec::new();
        } else {
            cur.push(c);
            let ghost after = split_path(p@.take(i + 1));
            assert(after.drop_last() =~= before.drop_last());
        }
        i += 1;
        assert(forall|k: int| 0 <= k < named@.len() ==> #[trigger] named@[k]@
                == named_parts(split_path(p@.take(i as int)).drop_last())[k]);
    }
    assert(p@.take(p@.len() as int) =~= p@);
    let ghost parts = split_path(p@);
    assert(parts =~= parts.drop_last().push(parts.last()));
    let keep_last = !(cur.len() == 0 || (cur.len() == 1 && cur[0] == '.'));
    assert(keep_last == !(parts.last().len() == 0 || parts.last() == seq!['.'])) by {
        if cur@.len() == 1 && cur@[0] == '.' {
            assert(cur@ =~= seq!['.']);
        }
    }
    if keep_last {
        named.push(cur);
    }
    // `named` now holds every named component of the path
    let count = named.len();
    if count == 0 {
        return None;
    }
    let last = &named[count - 1];
    let is_parent = last.len() == 2 && last[0] == '.' && last[1] == '.';
    assert(is_parent == (last@ == seq!['.', '.'])) by {
        if last@.len() == 2 && last@[0] == '.' && last@[1] == '.' {
            assert(last@ =~= seq!['.', '.']);
        }
    }
    if is_parent {
        return None;
    }
    let mut f: Vec<char> = Vec::new();
    let mut j: usize = 0;
    while j < last.len()
        invariant
            j <= last@.len(),
            f@ == last@.take(j as int),
        decreases last@.len() - j,
    {
        f.push(last[j]);
        j += 1;
        assert(f@ =~= last@.take(j as int));
    }
    assert(f@ =~= last@);
    Some(f)
}

/// The extension of path `p`, if it has one.
pub fn path_extension(p: &str) -> (r: Option<String>)
    ensures
        r is Some <==> extension_of(p@) is Some,
        r matches Some(e) ==> extension_of(p@) == Some(e@),
{
    let cs = chars_of(p);
    let f = match file_name_chars(cs.as_slice()) {
        Some(f) => f,
        None => return None,
    };
    match rfind_char(f.as_slice(), '.') {
        Some(k) => {
            if k > 0 {
                let n = f.len();
                assert(k < n);
                let mut e: Vec<char> = Vec::new();
                let mut i: usize = k + 1;
                while i < f.len()
                    invariant
                        k + 1 <= i <= f@.len(),
                        e@ == f@.subrange(k + 1, i as int),
                    decreases f@.len() - i,
                {
                    e.push(f[i]);
                    i += 1;
                    assert(e@ =~= f@.subrange(k + 1, i as int));
                }
                Some(string_of(e.as_slice()))
            } else {
                None
            }
        },
        None => None,
    }
}

/// The name under which a game file at relative path `rel` is backed up: the
/// first 12 bytes of the SHA-256 of `rel` in lowercase hex, then `.` and the
/// file's extension, or `.bak` when it has none.
pub open spec fn backup_name_of(rel: Seq<char>) -> Seq<char> {
    let hash = short_hash(rel, 12);
    match extension_of(rel) {
        Some(e) => if e.len() > 0 {
            hash + seq!['.'] + e
        } else {
            hash + seq!['.', 'b', 'a', 'k']
        },
        None => hash + seq!['.', 'b', 'a', 'k'],
    }
}

/// The backup file name for the game file at relative path `rel`.
pub fn backup_file_name(rel: &str) -> (r: String)
    ensures
        r@ == backup_name_of(rel@),
        r@.len() > 0,
{
    let hash = short_hash_of(rel, 12);
    let ext = path_extension(rel);
    let dot = string_of(&['.']);
    let bak = string_of(&['.', 'b', 'a', 'k']);
    match ext {
        Some(e) => {
            if e.as_str().is_empty() {
                concat_str(hash.as_str(), bak.as_str())
            } else {
                let with_dot = concat_str(hash.as_str(), dot.as_str());
                concat_str(with_dot.as_str(), e.as_str())
            }
        },
        None => concat_str(hash.as_str(), bak.as_str()),
    }
}

/// Where one game file is backed up: the recorded `name` of the backup, and
/// the path `to` of the copy inside the backup directory. (The game file
/// itself is found by joining its manifest path onto the game's `Data`
/// directory with the platform's path rules.)
pub struct FileBackup {
    pub to: String,
    pub name: String,
}

/// How one game file is put back on uninstall.
pub enum FileRestore {
    /// The file did not exist before installing: the installed file is removed
    /// if it is a file.
    RemoveInstalled,
    /// The backup at `from` is copied over the game file.
    CopyBack { from: String },
}

/// Where backing up the game file `rel` writes to.
pub open spec fn backup_target(backups: Seq<char>, rel: Seq<char>) -> Seq<char> {
    joined(backups, backup_name_of(rel))
}

/// Whether restoring a file recorded under `backup_name` copies a backup back
/// (otherwise the file was new and is removed).
pub open spec fn restore_copies(backup_name: Seq<char>) -> bool {
    backup_name.len() > 0
}

/// Where restoring reads the backup recorded under `backup_name`.
pub open spec fn restore_source(backups: Seq<char>, backup_name: Seq<char>) -> Seq<char> {
    joined(backups, backup_name)
}

/// How the game file at relative path `rel` is backed up into `backups`.
pub fn backup_plan(rel: &str, backups: &str) -> (r: FileBackup)
    ensures
        r.name@ == backup_name_of(rel@),
        r.to@ == backup_target(backups@, rel@),
{
    let name = backup_file_name(rel);
    let to = join_path(backups, name.as_str());
    FileBackup { to, name }
}

/// The name recorded for a game file at install time: its backup name when it
/// existed as a file, otherwise the empty name.
pub fn backup_record(source_is_file: bool, rel: &str) -> (r: String)
    ensures
        r@ == (if source_is_file { backup_name_of(rel@) } else { Seq::<char>::empty() }),
{
    if source_is_file {
        backup_file_name(rel)
    } else {
        String::new()
    }
}

/// How a game file recorded with `backup_name` is restored from `backups`: an
/// empty name means the file was new and is removed, otherwise the backup is
/// copied back.
pub fn restore_plan(backup_name: &str, backups: &str) -> (r: FileRestore)
    ensures
        !restore_copies(backup_name@) ==> r == FileRestore::RemoveInstalled,
        restore_copies(backup_name@) ==> r == (FileRestore::CopyBack { from: r->from })
            && r->from@ == restore_source(backups@, backup_name@),
{
    if backup_name.is_empty() {
        FileRestore::RemoveInstalled
    } else {
        FileRestore::CopyBack { from: join_path(backups, backup_name) }
    }
}

/// Restoring undoes backing up: a file that existed is recorded under a
/// non-empty name, so its restore copies back, and it reads exactly the backup
/// that was written.
pub proof fn law_restore_undoes_backup(rel: Seq<char>, backups: Seq<char>)
    ensures
        restore_copies(backup_name_of(rel)),
        restore_source(backups, backup_name_of(rel)) == backup_target(backups, rel),
{
    let hash = short_hash(rel, 12);
    match extension_of(rel) {
        Some(e) => {
            if e.len() > 0 {
                assert((hash + seq!['.'] + e).len() > 0);
            } else {
                assert((hash + seq!['.', 'b', 'a', 'k']).len() > 0);
            }
        },
        None => assert((hash + seq!['.', 'b', 'a', 'k']).len() > 0),
    }
}

/// File names used inside the download cache for one package label.
pub struct CacheFiles {
    /// The cached archive, `<label>.7z`.
    pub archive: String,
    /// The entity tag of the cached archive, `<label>.etag`.
    pub etag: String,
    /// The archive while it downloads, `<label>.7z.dl`.
    pub partial: String,
}

/// The cache file names for package `label`.
pub fn cache_files(label: &str) -> (r: CacheFiles)
    ensures
        r.archive@ == label@ + ".7z"@,
        r.etag@ == label@ + ".etag"@,
        r.partial@ == label@ + ".7z.dl"@,
{
    CacheFiles {
        archive: concat_str(label, ".7z"),
        etag: concat_str(label, ".etag"),
        partial: concat_str(label, ".7z.dl"),
    }
}

} // verus!
