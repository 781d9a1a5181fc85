//! Game-version compatibility and application-version ordering.
use vstd::prelude::*;
use crate::text::chars_of;

verus! {

// ── Compatibility of an artifact with an installed game version ──

/// An artifact built for `supported` fits the game version `actual` when
/// `supported` is the wildcard `*`, or when `actual` is `supported` itself or
/// `supported` followed by further dot-separated components.
pub open spec fn version_compatible(supported: Seq<char>, actual: Seq<char>) -> bool {
    ||| supported == seq!['*']
    ||| (supported.is_prefix_of(actual) && (actual.len() == supported.len()
        || actual[supported.len() as int] == '.'))
}

fn is_prefix_chars(p: &Vec<char>, s: &Vec<char>) -> (r: bool)
    ensures
        r == p@.is_prefix_of(s@),
{
    if p.len() > s.len() {
        return false;
    }
    let mut i: usize = 0;
    while i < p.len()
        invariant
            p@.len() <= s@.len(),
            i <= p@.len(),
            forall|j: int| 0 <= j < i ==> p@[j] == s@[j],
        decreases p@.len() - i,
    {
        if p[i] != s[i] {
            return false;
        }
        i += 1;
    }
    true
}

/// Whether an artifact that declares `supported` may be installed on game version `actual`.
pub fn is_version_compatible(supported: &str, actual: &str) -> (r: bool)
    ensures
        r == version_compatible(supported@, actual@),
{
    let sup = chars_of(supported);
    let act = chars_of(actual);
    if sup.len() == 1 && sup[0] == '*' {
        assert(sup@ == seq!['*']);
        return true;
    }
    assert(sup@ != seq!['*']);
    if !is_prefix_chars(&sup, &act) {
        return false;
    }
    act.len() == sup.len() || act[sup.len()] == '.'
}

/// Every game version is compatible with itself.
pub proof fn law_compatible_reflexive(v: Seq<char>)
    ensures
        version_compatible(v, v),
{
}

/// The wildcard `*` is compatible with every game version.
pub proof fn law_wildcard_accepts_all(actual: Seq<char>)
    ensures
        version_compatible(seq!['*'], actual),
{
}

/// Two versions compatible with each other in both directions are the same version.
pub proof fn law_compatible_antisymmetric(a: Seq<char>, b: Seq<char>)
    requires
        version_compatible(a, b),
        version_compatible(b, a),
    ensures
        a == b,
{
    if a == seq!['*'] && b != seq!['*'] {
        assert(b.is_prefix_of(a));
        assert(b.len() <= 1);
        if b.len() == 1 {
            assert(b[0] == a[0]);
            assert(b =~= a);
        } else {
            assert(a.len() == 1 && a[0] == '*');
        }
    } else if b == seq!['*'] && a != seq!['*'] {
        assert(a.is_prefix_of(b));
        if a.len() == 1 {
            assert(a[0] == b[0]);
            assert(a =~= b);
        } else {
            assert(a.len() == 0);
            assert(b[0] == '*');
        }
    } else if a != seq!['*'] && b != seq!['*'] {
        assert(a =~= b);
    }
}

/// Compatibility chains: an artifact for `a` that fits `b`, where `b` fits `c`, fits `c`.
pub proof fn law_compatible_transitive(a: Seq<char>, b: Seq<char>, c: Seq<char>)
    requires
        version_compatible(a, b),
        version_compatible(b, c),
    ensures
        version_compatible(a, c),
{
    if a != seq!['*'] {
        if b == seq!['*'] {
            // `a` is a proper-or-equal prefix of "*", which forces a == "*" or a == "".
            assert(a.is_prefix_of(b));
            if a.len() == 1 {
                assert(a[0] == b[0]);
                assert(a =~= b);
            } else {
                assert(a.len() == 0);
                assert(b[0] == '*');
            }
        } else {
            assert(a.is_prefix_of(c)) by {
                assert forall|j: int| 0 <= j < a.len() implies a[j] == c[j] by {
                    assert(a[j] == b[j]);
                    assert(b[j] == c[j]);
                }
            }
            if c.len() != a.len() {
                if b.len() == a.len() {
                    assert(c[a.len() as int] == '.');
                } else {
                    assert(b[a.len() as int] == '.');
                    assert(c[a.len() as int] == b[a.len() as int]);
                }
            }
        }
    }
}


// ── Decimal components of a dotted version string ──

/// Whether `c` is an ASCII decimal digit.
pub open spec fn is_digit(c: char) -> bool {
    '0' <= c && c <= '9'
}

/// The value of an ASCII decimal digit.
pub open spec fn digit_value(c: char) -> int {
    (c as int) - ('0' as int)
}

/// The number written by a string of decimal digits (most significant first).
pub open spec fn decimal_value(d: Seq<char>) -> int
    decreases d.len(),
{
    if d.len() == 0 {
        0
    } else {
        decimal_value(d.drop_last()) * 10 + digit_value(d.last())
    }
}

/// The digits that follow an optional leading `+`.
pub open spec fn unsigned_digits(s: Seq<char>) -> Seq<char> {
    if s.len() > 0 && s[0] == '+' {
        s.drop_first()
    } else {
        s
    }
}

/// How std reads a `u32` from text: an optional `+`, then one or more ASCII
/// digits, whose value must fit in 32 bits.
pub open spec fn parse_u32(s: Seq<char>) -> Option<u32> {
    let d = unsigned_digits(s);
    if d.len() > 0 && (forall|i: int| 0 <= i < d.len() ==> is_digit(#[trigger] d[i]))
        && decimal_value(d) <= u32::MAX {
        Some(decimal_value(d) as u32)
    } else {
        None
    }
}

/// The pieces of `s` between occurrences of `sep` (there is always at least one piece).
pub open spec fn split_on(s: Seq<char>, sep: char) -> Seq<Seq<char>>
    decreases s.len(),
{
    if s.len() == 0 {
        seq![Seq::<char>::empty()]
    } else {
        let rest = split_on(s.drop_last(), sep);
        if s.last() == sep {
            rest.push(Seq::<char>::empty())
        } else {
            rest.update(rest.len() - 1, rest.last().push(s.last()))
        }
    }
}

/// The pieces that read as `u32`, in order; the others are skipped.
pub open spec fn numeric_parts(parts: Seq<Seq<char>>) -> Seq<u32>
    decreases parts.len(),
{
    if parts.len() == 0 {
        Seq::<u32>::empty()
    } else {
        let rest = numeric_parts(parts.drop_last());
        match parse_u32(parts.last()) {
            Some(n) => rest.push(n),
            None => rest,
        }
    }
}

/// The numeric components of a dotted version string such as `1.4.2`.
pub open spec fn version_numbers(v: Seq<char>) -> Seq<u32> {
    numeric_parts(split_on(v, '.'))
}

/// Component `i` of a version, where missing components count as zero.
pub open spec fn component(v: Seq<u32>, i: int) -> u32 {
    if 0 <= i < v.len() {
        v[i]
    } else {
        0
    }
}

/// Comparing components from index `i` up to (not including) `n`: the first
/// component that differs decides whether `r` is greater.
pub open spec fn greater_from(r: Seq<u32>, l: Seq<u32>, i: int, n: int) -> bool
    decreases n - i,
{
    if i >= n {
        false
    } else if component(r, i) > component(l, i) {
        true
    } else if component(r, i) < component(l, i) {
        false
    } else {
        greater_from(r, l, i + 1, n)
    }
}

/// The longer of two lengths.
pub open spec fn max_len(a: Seq<u32>, b: Seq<u32>) -> int {
    if a.len() >= b.len() {
        a.len() as int
    } else {
        b.len() as int
    }
}

/// Whether version `remote` is newer than version `local`, component by component.
pub open spec fn version_is_newer(remote: Seq<char>, local: Seq<char>) -> bool {
    let r = version_numbers(remote);
    let l = version_numbers(local);
    greater_from(r, l, 0, max_len(r, l))
}

proof fn lemma_decimal_value_nonneg(d: Seq<char>)
    requires
        forall|i: int| 0 <= i < d.len() ==> is_digit(#[trigger] d[i]),
    ensures
        decimal_value(d) >= 0,
    decreases d.len(),
{
    if d.len() > 0 {
        lemma_decimal_value_nonneg(d.drop_last());
        assert(is_digit(d[d.len() - 1]));
    }
}

proof fn lemma_decimal_value_grows(d: Seq<char>, i: int)
    requires
        0 <= i <= d.len(),
        forall|j: int| 0 <= j < d.len() ==> is_digit(#[trigger] d[j]),
    ensures
        decimal_value(d) >= decimal_value(d.take(i)),
    decreases d.len() - i,
{
    if i < d.len() {
        lemma_decimal_value_grows(d, i + 1);
        assert(d.take(i + 1).drop_last() =~= d.take(i));
        assert(d.take(i + 1).last() == d[i]);
        assert(is_digit(d[i]));
        lemma_decimal_value_nonneg(d.take(i));
    } else {
        assert(d.take(i) =~= d);
    }
}

/// Reads a `u32` from characters `cs`, as std's `str::parse::<u32>` does.
pub fn parse_u32_chars(cs: &[char]) -> (r: Option<u32>)
    ensures
        r == parse_u32(cs@),
{
    let mut start: usize = 0;
    if cs.len() > 0 && cs[0] == '+' {
        start = 1;
    }
    let ghost d = unsigned_digits(cs@);
    assert(d =~= cs@.subrange(start as int, cs@.len() as int));
    if start >= cs.len() {
        return None;
    }
    let mut acc: u64 = 0;
    let mut i: usize = start;
    while i < cs.len()
        invariant
            start <= i <= cs@.len(),
            start < cs@.len(),
            d == unsigned_digits(cs@),
            d =~= cs@.subrange(start as int, cs@.len() as int),
            forall|j: int| 0 <= j < i - start ==> is_digit(#[trigger] d[j]),
            acc == decimal_value(d.take(i - start)),
            acc <= u32::MAX,
        decreases cs@.len() - i,
    {
        let c = cs[i];
        if !('0' <= c && c <= '9') {
            assert(d[i - start] == c);
            assert(!is_digit(d[i - start]));
            assert(!(forall|j: int| 0 <= j < d.len() ==> is_digit(#[trigger] d[j])));
            return None;
        }
        let ghost k: int = i - start;
        assert(d.take(k + 1).drop_last() =~= d.take(k));
        assert(d.take(k + 1).last() == c);
        acc = acc * 10 + ((c as u64) - ('0' as u64));
        i += 1;
        if acc > 0xffff_ffffu64 {
            proof {
                if forall|j: int| 0 <= j < d.len() ==> is_digit(#[trigger] d[j]) {
                    lemma_decimal_value_grows(d, k + 1);
                }
            }
            return None;
        }
    }
    assert(d.take(d.len() as int) =~= d);
    Some(acc as u32)
}

/// Splits characters `cs` at every `sep`.
pub fn split_chars(cs: &[char], sep: char) -> (r: Vec<Vec<char>>)
    ensures
        r@.len() == split_on(cs@, sep).len(),
        forall|k: int| 0 <= k < r@.len() ==> #[trigger] r@[k]@ == split_on(cs@, sep)[k],
{
    let mut done: Vec<Vec<char>> = Vec::new();
    let mut cur: Vec<char> = Vec::new();
    let mut i: usize = 0;
    while i < cs.len()
        invariant
            i <= cs@.len(),
            done@.len() + 1 == split_on(cs@.take(i as int), sep).len(),
            forall|k: int| 0 <= k < done@.len() ==> #[trigger] done@[k]@ == split_on(cs@.take(i as int), sep)[k],
            cur@ == split_on(cs@.take(i as int), sep).last(),
        decreases cs@.len() - i,
    {
        let ghost prev = split_on(cs@.take(i as int), sep);
        assert(cs@.take(i + 1).drop_last() =~= cs@.take(i as int));
        assert(cs@.take(i + 1).last() == cs@[i as int]);
        if cs[i] == sep {
            done.push(cur);
            cur = Vec::new();
        } else {
            cur.push(cs[i]);
        }
        i += 1;
        assert(forall|k: int| 0 <= k < done@.len() ==> #[trigger] done@[k]@ == split_on(cs@.take(i as int), sep)[k]);
    }
    assert(cs@.take(cs@.len() as int) =~= cs@);
    done.push(cur);
    done
}

/// The numeric components of version text `v`.
pub fn version_components(v: &str) -> (r: Vec<u32>)
    ensures
        r@ == version_numbers(v@),
{
    let cs = chars_of(v);
    let parts = split_chars(cs.as_slice(), '.');
    let ghost sp = split_on(cs@, '.');
    let mut r: Vec<u32> = Vec::new();
    let mut i: usize = 0;
    while i < parts.len()
        invariant
            i <= parts@.len(),
            parts@.len() == sp.len(),
            forall|k: int| 0 <= k < parts@.len() ==> #[trigger] parts@[k]@ == sp[k],
            r@ == numeric_parts(sp.take(i as int)),
        decreases parts@.len() - i,
    {
        assert(sp.take(i + 1).drop_last() =~= sp.take(i as int));
        assert(sp.take(i + 1).last() == sp[i as int]);
        match parse_u32_chars(parts[i].as_slice()) {
            Some(n) => r.push(n),
            None => {},
        }
        i += 1;
    }
    assert(sp.take(sp.len() as int) =~= sp);
    r
}

/// Whether version `remote` is newer than `local`: numeric components are
/// compared in order, a missing component counts as zero, and pieces that are
/// not numbers are skipped.
pub fn version_newer(remote: &str, local: &str) -> (r: bool)
    ensures
        r == version_is_newer(remote@, local@),
{
    let rv = version_components(remote);
    let lv = version_components(local);
    let n = if rv.len() >= lv.len() { rv.len() } else { lv.len() };
    let mut i: usize = 0;
    while i < n
        invariant
            i <= n,
            rv@ == version_numbers(remote@),
            lv@ == version_numbers(local@),
            n == max_len(rv@, lv@),
            greater_from(rv@, lv@, 0, n as int) == greater_from(rv@, lv@, i as int, n as int),
        decreases n - i,
    {
        let a = if i < rv.len() { rv[i] } else { 0 };
        let b = if i < lv.len() { lv[i] } else { 0 };
        assert(a == component(rv@, i as int) && b == component(lv@, i as int));
        if a > b {
            return true;
        }
        if a < b {
            return false;
        }
        i += 1;
    }
    false
}

// ── Laws of the version order ──

proof fn lemma_greater_from_irreflexive(a: Seq<u32>, i: int, n: int)
    ensures
        !greater_from(a, a, i, n),
    decreases n - i,
{
    if i < n {
        lemma_greater_from_irreflexive(a, i + 1, n);
    }
}

proof fn lemma_greater_from_asymmetric(a: Seq<u32>, b: Seq<u32>, i: int, n: int)
    requires
        greater_from(a, b, i, n),
    ensures
        !greater_from(b, a, i, n),
    decreases n - i,
{
    if i < n && component(a, i) == component(b, i) {
        lemma_greater_from_asymmetric(a, b, i + 1, n);
    }
}

/// Past the last component of both versions every comparison is between zeros.
proof fn lemma_greater_from_extend(a: Seq<u32>, b: Seq<u32>, i: int, n: int, m: int)
    requires
        max_len(a, b) <= n <= m,
    ensures
        greater_from(a, b, i, n) == greater_from(a, b, i, m),
    decreases m - i,
{
    if i < m {
        if i >= n {
            assert(component(a, i) == 0 && component(b, i) == 0);
            lemma_greater_from_extend(a, b, i + 1, n, m);
            lemma_greater_from_irreflexive_zero(a, b, i + 1, n);
        } else if component(a, i) == component(b, i) {
            lemma_greater_from_extend(a, b, i + 1, n, m);
        }
    }
}

proof fn lemma_greater_from_irreflexive_zero(a: Seq<u32>, b: Seq<u32>, i: int, n: int)
    requires
        i >= n,
    ensures
        !greater_from(a, b, i, n),
{
}

proof fn lemma_greater_from_transitive(a: Seq<u32>, b: Seq<u32>, c: Seq<u32>, i: int, n: int)
    requires
        greater_from(a, b, i, n),
        greater_from(b, c, i, n),
    ensures
        greater_from(a, c, i, n),
    decreases n - i,
{
    if i < n && component(a, i) == component(b, i) && component(b, i) == component(c, i) {
        lemma_greater_from_transitive(a, b, c, i + 1, n);
    }
}

/// No version is newer than itself.
pub proof fn law_newer_irreflexive(v: Seq<char>)
    ensures
        !version_is_newer(v, v),
{
    let n = version_numbers(v);
    lemma_greater_from_irreflexive(n, 0, max_len(n, n));
}

/// Of two versions at most one is newer than the other.
pub proof fn law_newer_asymmetric(a: Seq<char>, b: Seq<char>)
    requires
        version_is_newer(a, b),
    ensures
        !version_is_newer(b, a),
{
    let x = version_numbers(a);
    let y = version_numbers(b);
    assert(max_len(x, y) == max_len(y, x));
    lemma_greater_from_asymmetric(x, y, 0, max_len(x, y));
}

/// A version newer than one that is newer than a third is newer than the third.
pub proof fn law_newer_transitive(a: Seq<char>, b: Seq<char>, c: Seq<char>)
    requires
        version_is_newer(a, b),
        version_is_newer(b, c),
    ensures
        version_is_newer(a, c),
{
    let x = version_numbers(a);
    let y = version_numbers(b);
    let z = version_numbers(c);
    let m = if max_len(x, y) >= z.len() { max_len(x, y) } else { z.len() as int };
    lemma_greater_from_extend(x, y, 0, max_len(x, y), m);
    lemma_greater_from_extend(y, z, 0, max_len(y, z), m);
    lemma_greater_from_extend(x, z, 0, max_len(x, z), m);
    lemma_greater_from_transitive(x, y, z, 0, m);
}

proof fn lemma_split_append_piece(a: Seq<char>, p: Seq<char>)
    requires
        forall|i: int| 0 <= i < p.len() ==> p[i] != '.',
    ensures
        split_on(a + seq!['.'] + p, '.') == split_on(a, '.').push(p),
    decreases p.len(),
{
    let t = a + seq!['.'] + p;
    if p.len() == 0 {
        assert(p =~= Seq::<char>::empty());
        assert(t.drop_last() =~= a);
        assert(t.last() == '.');
        assert(split_on(t, '.') == split_on(t.drop_last(), '.').push(Seq::<char>::empty()));
    } else {
        let q = p.drop_last();
        assert forall|i: int| 0 <= i < q.len() implies q[i] != '.' by {
            assert(q[i] == p[i]);
        }
        lemma_split_append_piece(a, q);
        assert(t.drop_last() =~= a + seq!['.'] + q);
        assert(t.last() == p[p.len() - 1]);
        assert(t.last() != '.');
        let prev = split_on(a, '.').push(q);
        assert(split_on(t.drop_last(), '.') == prev);
        assert(split_on(t, '.') == prev.update(prev.len() - 1, prev.last().push(t.last())));
        assert(prev.last() == q);
        assert(q.push(t.last()) =~= p);
        assert(prev.update(prev.len() - 1, p) =~= split_on(a, '.').push(p));
    }
}

proof fn lemma_numbers_append_piece(a: Seq<char>, p: Seq<char>)
    requires
        forall|i: int| 0 <= i < p.len() ==> p[i] != '.',
    ensures
        version_numbers(a + seq!['.'] + p) == match parse_u32(p) {
            Some(n) => version_numbers(a).push(n),
            None => version_numbers(a),
        },
{
    lemma_split_append_piece(a, p);
    let parts = split_on(a, '.').push(p);
    assert(parts.drop_last() =~= split_on(a, '.'));
    assert(parts.last() == p);
}

proof fn lemma_greater_from_same_components(r: Seq<u32>, r2: Seq<u32>, l: Seq<u32>, i: int, n: int)
    requires
        forall|k: int| component(r, k) == component(r2, k),
    ensures
        greater_from(r, l, i, n) == greater_from(r2, l, i, n),
        greater_from(l, r, i, n) == greater_from(l, r2, i, n),
    decreases n - i,
{
    if i < n {
        assert(component(r, i) == component(r2, i));
        lemma_greater_from_same_components(r, r2, l, i + 1, n);
    }
}

/// Versions whose components agree everywhere (missing ones counting as
/// zero) compare alike against every other version.
proof fn lemma_newer_same_components(r: Seq<u32>, r2: Seq<u32>, l: Seq<u32>)
    requires
        forall|k: int| component(r, k) == component(r2, k),
    ensures
        greater_from(r, l, 0, max_len(r, l)) == greater_from(r2, l, 0, max_len(r2, l)),
        greater_from(l, r, 0, max_len(l, r)) == greater_from(l, r2, 0, max_len(l, r2)),
{
    let m = if max_len(r, l) >= max_len(r2, l) { max_len(r, l) } else { max_len(r2, l) };
    lemma_greater_from_extend(r, l, 0, max_len(r, l), m);
    lemma_greater_from_extend(r2, l, 0, max_len(r2, l), m);
    lemma_greater_from_extend(l, r, 0, max_len(l, r), m);
    lemma_greater_from_extend(l, r2, 0, max_len(l, r2), m);
    lemma_greater_from_same_components(r, r2, l, 0, m);
}

/// A trailing `.0` component never changes which of two versions is newer.
pub proof fn law_trailing_zero_ignored(a: Seq<char>, b: Seq<char>)
    ensures
        version_is_newer(a + seq!['.', '0'], b) == version_is_newer(a, b),
        version_is_newer(b, a + seq!['.', '0']) == version_is_newer(b, a),
{
    let zero = seq!['0'];
    assert(a + seq!['.', '0'] =~= a + seq!['.'] + zero);
    assert(unsigned_digits(zero) =~= zero);
    assert(zero.drop_last() =~= Seq::<char>::empty());
    assert(decimal_value(Seq::<char>::empty()) == 0);
    assert(zero.last() == '0');
    assert(decimal_value(zero) == decimal_value(zero.drop_last()) * 10 + digit_value(zero.last()));
    assert(decimal_value(zero) == 0);
    assert(forall|i: int| 0 <= i < zero.len() ==> is_digit(#[trigger] zero[i]));
    assert(parse_u32(zero) == Some(0u32));
    lemma_numbers_append_piece(a, zero);
    let r = version_numbers(a);
    let r2 = r.push(0u32);
    assert forall|k: int| component(r, k) == component(r2, k) by {
        if 0 <= k < r.len() {
            assert(r2[k] == r[k]);
        }
    }
    lemma_newer_same_components(r, r2, version_numbers(b));
}

proof fn lemma_split_nonempty(s: Seq<char>)
    ensures
        split_on(s, '.').len() >= 1,
    decreases s.len(),
{
    if s.len() > 0 {
        lemma_split_nonempty(s.drop_last());
    }
}

proof fn lemma_split_concat(x: Seq<char>, y: Seq<char>)
    ensures
        split_on(x + seq!['.'] + y, '.') == split_on(x, '.') + split_on(y, '.'),
    decreases y.len(),
{
    let t = x + seq!['.'] + y;
    if y.len() == 0 {
        assert(t.drop_last() =~= x);
        assert(split_on(y, '.') =~= seq![Seq::<char>::empty()]);
        assert(split_on(x, '.').push(Seq::<char>::empty()) =~= split_on(x, '.') + split_on(y, '.'));
    } else {
        let y2 = y.drop_last();
        lemma_split_concat(x, y2);
        lemma_split_nonempty(y2);
        assert(t.drop_last() =~= x + seq!['.'] + y2);
        assert(t.last() == y.last());
        let a = split_on(x, '.');
        let b = split_on(y2, '.');
        if y.last() == '.' {
            assert((a + b).push(Seq::<char>::empty()) =~= a + b.push(Seq::<char>::empty()));
        } else {
            assert((a + b).last() == b.last());
            assert((a + b).update((a + b).len() - 1, b.last().push(y.last()))
                =~= a + b.update(b.len() - 1, b.last().push(y.last())));
        }
    }
}

proof fn lemma_split_single(p: Seq<char>)
    requires
        forall|i: int| 0 <= i < p.len() ==> p[i] != '.',
    ensures
        split_on(p, '.') == seq![p],
    decreases p.len(),
{
    if p.len() == 0 {
        assert(p =~= Seq::<char>::empty());
    } else {
        let q = p.drop_last();
        assert forall|i: int| 0 <= i < q.len() implies q[i] != '.' by {
            assert(q[i] == p[i]);
        }
        lemma_split_single(q);
        assert(p.last() == p[p.len() - 1]);
        assert(q.push(p.last()) =~= p);
        assert(seq![q].update(0, q.push(p.last())) =~= seq![p]);
    }
}

proof fn lemma_numeric_parts_concat(a: Seq<Seq<char>>, b: Seq<Seq<char>>)
    ensures
        numeric_parts(a + b) == numeric_parts(a) + numeric_parts(b),
    decreases b.len(),
{
    if b.len() == 0 {
        assert(a + b =~= a);
        assert(numeric_parts(a) + numeric_parts(b) =~= numeric_parts(a));
    } else {
        lemma_numeric_parts_concat(a, b.drop_last());
        assert((a + b).drop_last() =~= a + b.drop_last());
        assert((a + b).last() == b.last());
        match parse_u32(b.last()) {
            Some(n) => {
                assert((numeric_parts(a) + numeric_parts(b.drop_last())).push(n)
                    =~= numeric_parts(a) + numeric_parts(b.drop_last()).push(n));
            },
            None => {},
        }
    }
}

/// A dot-separated piece that does not read as a `u32` (text, empty, or too
/// large) is skipped wherever it stands: at the end, in the middle, or first,
/// removing it never changes the components of a version, nor which of two
/// versions is newer. (`version_newer` has no precondition: it returns on
/// every pair of texts.)
pub proof fn law_non_numeric_piece_skipped(a: Seq<char>, p: Seq<char>, b: Seq<char>, other: Seq<char>)
    requires
        parse_u32(p) is None,
        forall|i: int| 0 <= i < p.len() ==> p[i] != '.',
    ensures
        version_numbers(a + seq!['.'] + p) == version_numbers(a),
        version_numbers(a + seq!['.'] + p + seq!['.'] + b) == version_numbers(a + seq!['.'] + b),
        version_numbers(p + seq!['.'] + b) == version_numbers(b),
        version_is_newer(a + seq!['.'] + p, other) == version_is_newer(a, other),
        version_is_newer(other, a + seq!['.'] + p) == version_is_newer(other, a),
        version_is_newer(a + seq!['.'] + p + seq!['.'] + b, other) == version_is_newer(a + seq!['.'] + b, other),
        version_is_newer(other, a + seq!['.'] + p + seq!['.'] + b) == version_is_newer(other, a + seq!['.'] + b),
        version_is_newer(p + seq!['.'] + b, other) == version_is_newer(b, other),
        version_is_newer(other, p + seq!['.'] + b) == version_is_newer(other, b),
{
    lemma_numbers_append_piece(a, p);
    let sa = split_on(a, '.');
    let sb = split_on(b, '.');
    // in the middle
    lemma_split_concat(a + seq!['.'] + p, b);
    lemma_split_append_piece(a, p);
    lemma_numeric_parts_concat(sa.push(p), sb);
    assert(sa.push(p).drop_last() =~= sa);
    assert(sa.push(p).last() == p);
    assert(numeric_parts(sa.push(p)) == numeric_parts(sa));
    lemma_split_concat(a, b);
    lemma_numeric_parts_concat(sa, sb);
    // first
    lemma_split_concat(p, b);
    lemma_split_single(p);
    lemma_numeric_parts_concat(seq![p], sb);
    assert(seq![p].drop_last() =~= Seq::<Seq<char>>::empty());
    assert(seq![p].last() == p);
    assert(numeric_parts(Seq::<Seq<char>>::empty()) =~= Seq::<u32>::empty());
    assert(numeric_parts(seq![p]) == numeric_parts(seq![p].drop_last()));
    assert(numeric_parts(seq![p]) =~= Seq::<u32>::empty());
    assert(Seq::<u32>::empty() + numeric_parts(sb) =~= numeric_parts(sb));
}

} // verus!
