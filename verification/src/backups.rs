//! The backups an installation records: one entry per game file, the last
//! backup taken of a file replacing any earlier one.
use vstd::prelude::*;
use crate::text::same_chars;

verus! {

/// Whether some entry of `s` is for game file `target`.
pub open spec fn has_target(s: Seq<(String, String)>, target: Seq<char>) -> bool
    decreases s.len(),
{
    if s.len() == 0 {
        false
    } else {
        s[0].0@ == target || has_target(s.drop_first(), target)
    }
}

/// Whether no game file has two entries in `s`.
pub open spec fn unique_targets(s: Seq<(String, String)>) -> bool
    decreases s.len(),
{
    s.len() == 0 || (!has_target(s.drop_first(), s[0].0@) && unique_targets(s.drop_first()))
}

/// The entries of `s` that no later entry for the same game file replaces, in
/// their order in `s`.
pub open spec fn latest_backups(s: Seq<(String, String)>) -> Seq<(String, String)>
    decreases s.len(),
{
    if s.len() == 0 {
        s
    } else {
        let rest = latest_backups(s.drop_first());
        if has_target(s.drop_first(), s[0].0@) {
            rest
        } else {
            seq![s[0]] + rest
        }
    }
}

/// The backups of `s` read as a table from game file to backup name, a later
/// entry for a file replacing an earlier one.
pub open spec fn backup_table(s: Seq<(String, String)>) -> Map<Seq<char>, Seq<char>>
    decreases s.len(),
{
    if s.len() == 0 {
        Map::empty()
    } else {
        let rest = backup_table(s.drop_first());
        if rest.dom().contains(s[0].0@) {
            rest
        } else {
            rest.insert(s[0].0@, s[0].1@)
        }
    }
}

proof fn lemma_has_target_index(s: Seq<(String, String)>, target: Seq<char>)
    ensures
        has_target(s, target) <==> exists|i: int| 0 <= i < s.len() && (#[trigger] s[i]).0@ == target,
    decreases s.len(),
{
    if s.len() > 0 {
        lemma_has_target_index(s.drop_first(), target);
        if has_target(s.drop_first(), target) {
            let i = choose|i: int| 0 <= i < s.drop_first().len() && (#[trigger] s.drop_first()[i]).0@ == target;
            assert(s[i + 1] == s.drop_first()[i]);
        }
        if exists|i: int| 0 <= i < s.len() && (#[trigger] s[i]).0@ == target {
            let i = choose|i: int| 0 <= i < s.len() && (#[trigger] s[i]).0@ == target;
            if i > 0 {
                assert(s.drop_first()[i - 1] == s[i]);
            }
        }
    }
}

proof fn lemma_latest_targets(s: Seq<(String, String)>, target: Seq<char>)
    ensures
        has_target(latest_backups(s), target) == has_target(s, target),
    decreases s.len(),
{
    if s.len() > 0 {
        let t = s.drop_first();
        lemma_latest_targets(t, target);
        if !has_target(t, s[0].0@) {
            let r = seq![s[0]] + latest_backups(t);
            assert(r.drop_first() =~= latest_backups(t));
        }
    }
}

proof fn lemma_table_domain(s: Seq<(String, String)>, target: Seq<char>)
    ensures
        backup_table(s).dom().contains(target) == has_target(s, target),
    decreases s.len(),
{
    if s.len() > 0 {
        lemma_table_domain(s.drop_first(), target);
        lemma_table_domain(s.drop_first(), s[0].0@);
    }
}

/// Every game file has at most one entry in the recorded backups.
pub proof fn law_latest_backups_unique(s: Seq<(String, String)>)
    ensures
        unique_targets(latest_backups(s)),
    decreases s.len(),
{
    if s.len() > 0 {
        let t = s.drop_first();
        law_latest_backups_unique(t);
        if !has_target(t, s[0].0@) {
            let r = seq![s[0]] + latest_backups(t);
            assert(r.drop_first() =~= latest_backups(t));
            lemma_latest_targets(t, s[0].0@);
        }
    }
}

/// The recorded backups name every game file that was backed up, and nothing
/// else.
pub proof fn law_latest_backups_keep_every_file(s: Seq<(String, String)>, target: Seq<char>)
    ensures
        has_target(latest_backups(s), target) == has_target(s, target),
{
    lemma_latest_targets(s, target);
}

/// Read as a table, the recorded backups are the backups taken, each game file
/// mapped to the last backup name taken for it.
pub proof fn law_latest_backups_same_table(s: Seq<(String, String)>)
    ensures
        backup_table(latest_backups(s)) == backup_table(s),
    decreases s.len(),
{
    if s.len() > 0 {
        let t = s.drop_first();
        law_latest_backups_same_table(t);
        if !has_target(t, s[0].0@) {
            let r = seq![s[0]] + latest_backups(t);
            assert(r.drop_first() =~= latest_backups(t));
            assert(r[0] == s[0]);
            lemma_table_domain(latest_backups(t), s[0].0@);
            lemma_latest_targets(t, s[0].0@);
            lemma_table_domain(t, s[0].0@);
        } else {
            lemma_table_domain(t, s[0].0@);
        }
    }
}

/// The backups to record from the backups taken, in the order taken: an entry
/// is kept unless a later one is for the same game file.
pub fn latest_backup_list(taken: &Vec<(String, String)>) -> (r: Vec<(String, String)>)
    ensures
        r@ == latest_backups(taken@),
{
    let n = taken.len();
    let mut kept: Vec<(String, String)> = Vec::new();
    let mut i: usize = n;
    while i > 0
        invariant
            i <= n == taken@.len(),
            kept@ == latest_backups(taken@.subrange(i as int, n as int)),
        decreases i,
    {
        let ghost after = taken@.subrange(i as int, n as int);
        i -= 1;
        let ghost here = taken@.subrange(i as int, n as int);
        assert(here.drop_first() =~= after);
        assert(here[0] == taken@[i as int]);
        // is the game file of entry `i` backed up again later?
        let mut later = false;
        let mut k: usize = 0;
        while k < kept.len()
            invariant
                k <= kept@.len(),
                i < taken@.len(),
                later <==> exists|j: int| 0 <= j < k && (#[trigger] kept@[j]).0@ == taken@[i as int].0@,
            decreases kept@.len() - k,
        {
            if same_chars(kept[k].0.as_str(), taken[i].0.as_str()) {
                later = true;
            }
            k += 1;
        }
        proof {
            lemma_has_target_index(kept@, taken@[i as int].0@);
            lemma_latest_targets(after, taken@[i as int].0@);
        }
        if !later {
            let entry = (taken[i].0.clone(), taken[i].1.clone());
            kept.insert(0, entry);
            assert(kept@ =~= seq![taken@[i as int]] + latest_backups(after));
        }
    }
    assert(taken@.subrange(0, n as int) =~= taken@);
    kept
}

} // verus!
