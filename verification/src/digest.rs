//! Hashing, hex encoding and case folding used to name backups and instances.
use vstd::prelude::*;
use sha2::Digest;
use crate::text::{chars_of, string_of};

verus! {

/// The SHA-256 digest of a byte sequence.
pub uninterp spec fn sha256_of(data: Seq<u8>) -> Seq<u8>;

/// The lowercase form of a string, as std's `str::to_lowercase` computes it
/// (the Unicode `Lowercase` mapping).
pub uninterp spec fn lowercase_of(s: Seq<char>) -> Seq<char>;

/// The SHA-256 digest of `data`, by `sha2::Sha256::digest`.
/// Claimed: the result is the digest of `data` (named `sha256_of`) and has 32
/// bytes, the length of the `Sha256` output type. Nothing else about the
/// digest is stated.
#[verifier::external_body]
fn sha256(data: &[u8]) -> (r: Vec<u8>)
    ensures
        r@ == sha256_of(data@),
        r@.len() == 32,
{
    sha2::Sha256::digest(data).to_vec()
}

/// The lowercase form of `s`, by std's `str::to_lowercase`.
/// Claimed: the result is `lowercase_of(s@)`, a function of the text alone;
/// and texts that differ only in using `/` or `\` at the same places lowercase
/// to texts that differ only in the same way. Lowercasing follows Unicode:
/// both slashes map to themselves, and neither is cased nor case-ignorable, so
/// they play the same part in the one context-dependent rule (final sigma).
#[verifier::external_body]
pub(crate) fn to_lowercase(s: &str) -> (r: String)
    ensures
        r@ == lowercase_of(s@),
        forall|t: Seq<char>| forward_slashes(t) == forward_slashes(s@)
            ==> forward_slashes(#[trigger] lowercase_of(t)) == forward_slashes(r@),
{
    s.to_lowercase()
}

/// The lowercase hexadecimal digit for a value below 16.
pub open spec fn hex_digit(n: int) -> char {
    if n < 10 {
        (('0' as int) + n) as char
    } else {
        (('a' as int) + n - 10) as char
    }
}

/// Two lowercase hexadecimal digits per byte, high nibble first.
pub open spec fn hex_lower(bytes: Seq<u8>) -> Seq<char>
    decreases bytes.len(),
{
    if bytes.len() == 0 {
        Seq::<char>::empty()
    } else {
        hex_lower(bytes.drop_last()) + seq![
            hex_digit(bytes.last() as int / 16),
            hex_digit(bytes.last() as int % 16),
        ]
    }
}

/// Lowercase hex text of `data`, by `hex::encode`.
/// Claimed (as its source shows, with the table `0123456789abcdef`): each byte
/// becomes its high and then its low nibble's digit.
#[verifier::external_body]
fn hex_encode(data: &[u8]) -> (r: String)
    ensures
        r@ == hex_lower(data@),
{
    hex::encode(data)
}

/// Replaces every backslash by a forward slash.
pub open spec fn forward_slashes(s: Seq<char>) -> Seq<char> {
    s.map_values(|c: char| if c == '\\' { '/' } else { c })
}

/// `s` with every backslash turned into a forward slash.
pub fn to_forward_slashes(s: &str) -> (r: String)
    ensures
        r@ == forward_slashes(s@),
{
    let cs = chars_of(s);
    let mut out: Vec<char> = Vec::new();
    let mut i: usize = 0;
    while i < cs.len()
        invariant
            i <= cs@.len(),
            out@ == forward_slashes(cs@.take(i as int)),
        decreases cs@.len() - i,
    {
        let c = cs[i];
        out.push(if c == '\\' { '/' } else { c });
        i += 1;
        assert(forward_slashes(cs@.take(i as int)) =~= forward_slashes(cs@.take((i - 1) as int)).push(
            if c == '\\' { '/' } else { c },
        ));
    }
    assert(cs@.take(cs@.len() as int) =~= cs@);
    string_of(out.as_slice())
}

/// The first `n` bytes of the SHA-256 digest of `text`'s UTF-8 encoding, in lowercase hex.
pub open spec fn short_hash(text: Seq<char>, n: int) -> Seq<char> {
    hex_lower(sha256_of(vstd::utf8::encode_utf8(text)).take(n))
}

/// Lowercase hex of the first `n` bytes of the SHA-256 digest of `text`.
pub(crate) fn short_hash_of(text: &str, n: usize) -> (r: String)
    requires
        n <= 32,
    ensures
        r@ == short_hash(text@, n as int),
        r@.len() == 2 * n,
{
    let digest = sha256(text.as_bytes());
    let mut head: Vec<u8> = Vec::new();
    let mut i: usize = 0;
    while i < n
        invariant
            i <= n <= 32,
            digest@.len() == 32,
            head@ == digest@.take(i as int),
        decreases n - i,
    {
        head.push(digest[i]);
        i += 1;
        assert(digest@.take(i as int) =~= digest@.take((i - 1) as int).push(digest@[i - 1]));
    }
    proof {
        lemma_hex_lower_len(head@);
    }
    hex_encode(head.as_slice())
}

/// The identity of a game installation: its path lowercased with forward
/// slashes, hashed with SHA-256, first 8 bytes in lowercase hex.
pub open spec fn fingerprint_of(path: Seq<char>) -> Seq<char> {
    short_hash(forward_slashes(lowercase_of(path)), 8)
}

/// A short stable name for a game installation, derived from its path
/// without regard to letter case or the kind of slash.
pub fn instance_fingerprint(blitz_path: &str) -> (r: String)
    ensures
        r@ == fingerprint_of(blitz_path@),
        r@.len() == 16,
        // the kind of slash never matters
        forall|t: Seq<char>| forward_slashes(t) == forward_slashes(blitz_path@)
            ==> #[trigger] fingerprint_of(t) == r@,
{
    let lower = to_lowercase(blitz_path);
    let normalized = to_forward_slashes(lower.as_str());
    short_hash_of(normalized.as_str(), 8)
}

proof fn lemma_hex_lower_len(bytes: Seq<u8>)
    ensures
        hex_lower(bytes).len() == 2 * bytes.len(),
    decreases bytes.len(),
{
    if bytes.len() > 0 {
        lemma_hex_lower_len(bytes.drop_last());
    }
}

/// Paths that differ only in what lowercasing and turning backslashes into
/// slashes removes have the same fingerprint.
pub proof fn law_fingerprint_normalized(a: Seq<char>, b: Seq<char>)
    requires
        forward_slashes(lowercase_of(a)) == forward_slashes(lowercase_of(b)),
    ensures
        fingerprint_of(a) == fingerprint_of(b),
{
}

/// The fingerprint under which an installation found at `target_dir` (a path
/// as text) was backed up. The path is first given forward slashes, and the
/// result is the fingerprint that installing into the same path computed.
pub fn uninstall_fingerprint(target_dir: &str) -> (r: String)
    ensures
        r@ == fingerprint_of(forward_slashes(target_dir@)),
        r@ == fingerprint_of(target_dir@),
{
    let normalized = to_forward_slashes(target_dir);
    proof {
        lemma_forward_slashes_idempotent(target_dir@);
    }
    let r = instance_fingerprint(normalized.as_str());
    assert(fingerprint_of(target_dir@) == r@);
    r
}

proof fn lemma_forward_slashes_idempotent(s: Seq<char>)
    ensures
        forward_slashes(forward_slashes(s)) == forward_slashes(s),
{
    assert(forward_slashes(forward_slashes(s)) =~= forward_slashes(s));
}

} // verus!
