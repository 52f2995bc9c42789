//! The per-file content digest: lower-case hex, the stat identity a digest is memoised under,
//! the process memo, and the one-line sidecar format that carries memo entries across
//! processes, with its integrity tag.
//!
//! Sidecar line format, newline-terminated:
//!
//! ```text
//! v1 <dev> <ino> <mtime_s> <mtime_ns> <size> <sha256hex> <tag>
//! ```
//!
//! `<tag>` is the first 16 hex characters of `sha256` over the line's payload (everything
//! before the final space), so a damaged line fails its tag and is dropped.

use std::collections::HashMap;
use vstd::prelude::*;
use vstd::string::*;
use vstd::utf8::{encode_scalar, encode_utf8};
use crate::text::{
    char_is_white, chars_of, decimal, end_solid, first_index_in, first_index_of, is_white,
    last_index_below, last_index_of, lemma_end_solid, push_decimal, push_signed_decimal,
    signed_decimal, trim_end,
};

verus! {

/// What `sha2::Sha256` computes for a message: the 32-byte digest.
pub uninterp spec fn sha256_digest(data: Seq<u8>) -> [u8; 32];

/// The most bytes one SHA-256 message may hold here: `sha2` computes a message's bit length as
/// `8 * bytes` in a `u64`, which stays in range below this bound.
pub const SHA256_MAX_BYTES: u64 = 0x2000_0000_0000_0000;

/// Calls `sha2::Digest::digest` on `sha2::Sha256`. Claimed: the 32-byte result is
/// `sha256_digest` of exactly the bytes passed, so equal bytes give equal digests; nothing of
/// the SHA-256 algorithm itself is stated. The message is kept below [`SHA256_MAX_BYTES`],
/// where the crate's bit-length product cannot overflow.
#[verifier::external_body]
fn sha256(data: &[u8]) -> (r: [u8; 32])
    requires
        data@.len() < SHA256_MAX_BYTES,
    ensures
        r == sha256_digest(data@),
{
    let mut out = [0u8; 32];
    out.copy_from_slice(&<sha2::Sha256 as sha2::Digest>::digest(data));
    out
}

/// A `sha2::Sha256` hasher, held opaque: Verus refuses to declare the crate's `Sha256`, which
/// is an alias of a generic wrapper type. What it has absorbed is named by [`stream_bytes`].
#[verifier::external_body]
pub struct Sha256Stream {
    inner: sha2::Sha256,
}

/// The bytes a hasher has absorbed since it was created, in order.
pub uninterp spec fn stream_bytes(h: Sha256Stream) -> Seq<u8>;

/// Calls `sha2::Digest::new` for `sha2::Sha256`. Claimed: the new hasher has absorbed nothing.
#[verifier::external_body]
fn stream_new() -> (h: Sha256Stream)
    ensures
        stream_bytes(h) == Seq::<u8>::empty(),
{
    Sha256Stream { inner: <sha2::Sha256 as sha2::Digest>::new() }
}

/// Calls `sha2::Digest::update`. Claimed: the hasher has then absorbed `chunk` after what it
/// held. Kept below [`SHA256_MAX_BYTES`] in all.
#[verifier::external_body]
fn stream_update(h: &mut Sha256Stream, chunk: &[u8])
    requires
        stream_bytes(*old(h)).len() + chunk@.len() < SHA256_MAX_BYTES,
    ensures
        stream_bytes(*final(h)) == stream_bytes(*old(h)) + chunk@,
{
    sha2::Digest::update(&mut h.inner, chunk);
}

/// Calls `sha2::Digest::finalize`. Claimed: the result is `sha256_digest` of exactly the bytes
/// the hasher absorbed, the same name the one-shot [`sha256`] call answers with (the crate's
/// one-shot digest is `new`, one `update` and `finalize`).
#[verifier::external_body]
fn stream_finish(h: Sha256Stream) -> (r: [u8; 32])
    requires
        stream_bytes(h).len() < SHA256_MAX_BYTES,
    ensures
        r == sha256_digest(stream_bytes(h)),
{
    let mut out = [0u8; 32];
    out.copy_from_slice(&sha2::Digest::finalize(h.inner));
    out
}

/// A file's sha256 being streamed: the hasher and the count of bytes it has absorbed.
pub struct StreamedDigest {
    hasher: Sha256Stream,
    size: u64,
}

impl StreamedDigest {
    #[verifier::type_invariant]
    spec fn counted(self) -> bool {
        &&& self.size == stream_bytes(self.hasher).len()
        &&& self.size < SHA256_MAX_BYTES
    }

    /// The bytes absorbed so far, in order.
    pub closed spec fn bytes(self) -> Seq<u8> {
        stream_bytes(self.hasher)
    }

    /// A digest that has absorbed nothing.
    pub fn new() -> (r: StreamedDigest)
        ensures
            r.bytes() == Seq::<u8>::empty(),
    {
        StreamedDigest { hasher: stream_new(), size: 0 }
    }

    /// How many bytes were absorbed so far.
    pub fn len(&self) -> (r: u64)
        ensures
            r == self.bytes().len(),
            r < SHA256_MAX_BYTES,
    {
        proof {
            use_type_invariant(self);
        }
        self.size
    }

    /// Absorbs the next chunk of the file.
    pub fn update(self, chunk: &[u8]) -> (r: StreamedDigest)
        requires
            self.bytes().len() + chunk@.len() < SHA256_MAX_BYTES,
        ensures
            r.bytes() == self.bytes() + chunk@,
    {
        proof {
            use_type_invariant(&self);
        }
        let StreamedDigest { mut hasher, size } = self;
        stream_update(&mut hasher, chunk);
        StreamedDigest { hasher, size: size + chunk.len() as u64 }
    }

    /// The sha256 of the absorbed bytes and their count: the same digest the one-shot call
    /// gives for those bytes.
    pub fn finish(self) -> (r: ([u8; 32], u64))
        ensures
            r.0 == sha256_digest(self.bytes()),
            r.1 == self.bytes().len(),
    {
        proof {
            use_type_invariant(&self);
        }
        let StreamedDigest { hasher, size } = self;
        (stream_finish(hasher), size)
    }
}

/// The lower-case hex digit for `n` in `0..16`.
pub open spec fn hex_digit(n: int) -> char {
    seq!['0', '1', '2', '3', '4', '5', '6', '7', '8', '9', 'a', 'b', 'c', 'd', 'e', 'f'][n]
}

/// Lower-case hex of a byte string, two characters per byte, high nibble first.
pub open spec fn hex_of(bytes: Seq<u8>) -> Seq<char>
    decreases bytes.len(),
{
    if bytes.len() == 0 {
        seq![]
    } else {
        seq![hex_digit((bytes[0] / 16) as int), hex_digit((bytes[0] % 16) as int)] + hex_of(bytes.drop_first())
    }
}

fn hex_digit_str(n: u8) -> (r: &'static str)
    requires
        n < 16,
    ensures
        r@ == seq![hex_digit(n as int)],
{
    proof {
        reveal_strlit("0");
        reveal_strlit("1");
        reveal_strlit("2");
        reveal_strlit("3");
        reveal_strlit("4");
        reveal_strlit("5");
        reveal_strlit("6");
        reveal_strlit("7");
        reveal_strlit("8");
        reveal_strlit("9");
        reveal_strlit("a");
        reveal_strlit("b");
        reveal_strlit("c");
        reveal_strlit("d");
        reveal_strlit("e");
        reveal_strlit("f");
    }
    if n == 0 {
        "0"
    } else if n == 1 {
        "1"
    } else if n == 2 {
        "2"
    } else if n == 3 {
        "3"
    } else if n == 4 {
        "4"
    } else if n == 5 {
        "5"
    } else if n == 6 {
        "6"
    } else if n == 7 {
        "7"
    } else if n == 8 {
        "8"
    } else if n == 9 {
        "9"
    } else if n == 10 {
        "a"
    } else if n == 11 {
        "b"
    } else if n == 12 {
        "c"
    } else if n == 13 {
        "d"
    } else if n == 14 {
        "e"
    } else {
        "f"
    }
}

pub proof fn lemma_hex_of_push(bytes: Seq<u8>, b: u8)
    ensures
        hex_of(bytes.push(b)) == hex_of(bytes) + seq![hex_digit((b / 16) as int), hex_digit((b % 16) as int)],
    decreases bytes.len(),
{
    if bytes.len() == 0 {
        assert(bytes.push(b).drop_first() =~= seq![]);
        assert(hex_of(bytes.push(b).drop_first()) =~= seq![]);
        assert(hex_of(bytes) =~= seq![]);
        assert(bytes.push(b)[0] == b);
        assert(hex_of(bytes.push(b)) =~= hex_of(bytes) + seq![hex_digit((b / 16) as int), hex_digit((b % 16) as int)]);
    } else {
        assert(bytes.push(b).drop_first() =~= bytes.drop_first().push(b));
        lemma_hex_of_push(bytes.drop_first(), b);
        assert(hex_of(bytes.push(b)) =~= hex_of(bytes) + seq![hex_digit((b / 16) as int), hex_digit((b % 16) as int)]);
    }
}

pub proof fn lemma_hex_of_len(bytes: Seq<u8>)
    ensures
        hex_of(bytes).len() == 2 * bytes.len(),
    decreases bytes.len(),
{
    if bytes.len() > 0 {
        lemma_hex_of_len(bytes.drop_first());
    }
}

/// Appends the lower-case hex of `bytes`.
pub fn push_hex(out: &mut String, bytes: &[u8])
    ensures
        final(out)@ == old(out)@ + hex_of(bytes@),
{
    let mut i: usize = 0;
    let n = bytes.len();
    while i < n
        invariant
            n == bytes@.len(),
            i <= n,
            out@ == old(out)@ + hex_of(bytes@.subrange(0, i as int)),
        decreases n - i,
    {
        let b = bytes[i];
        out.append(hex_digit_str(b / 16));
        out.append(hex_digit_str(b % 16));
        proof {
            lemma_hex_of_push(bytes@.subrange(0, i as int), b);
            assert(bytes@.subrange(0, i as int).push(b) =~= bytes@.subrange(0, i + 1));
        }
        i = i + 1;
    }
    assert(bytes@.subrange(0, n as int) =~= bytes@);
}

/// Lower-case hex of `bytes`.
pub fn hex_lower(bytes: &[u8]) -> (r: String)
    ensures
        r@ == hex_of(bytes@),
{
    let mut s = String::new();
    push_hex(&mut s, bytes);
    s
}

/// Lower-case hex sha256 of `bytes`.
pub fn sha256_hex(bytes: &[u8]) -> (r: String)
    requires
        bytes@.len() < SHA256_MAX_BYTES,
    ensures
        r@ == hex_of(sha256_digest(bytes@)@),
{
    let d = sha256(bytes);
    hex_lower(&d)
}

/// The integrity tag a digest yields: its first 16 hex characters.
pub open spec fn tag_text(digest: Seq<u8>) -> Seq<char> {
    hex_of(digest).take(16)
}

/// The integrity tag of a payload whose sha256 is `payload_digest`: the first 16 lower-case
/// hex characters of that digest.
pub fn tag_of(payload_digest: &[u8; 32]) -> (r: String)
    ensures
        r@ == tag_text(payload_digest@),
{
    let mut s = String::new();
    push_hex(&mut s, &payload_digest[0..8]);
    proof {
        assert(payload_digest@.subrange(0, 8) == payload_digest@.take(8));
        lemma_hex_prefix(payload_digest@, 8);
    }
    s
}

pub proof fn lemma_hex_prefix(bytes: Seq<u8>, k: int)
    requires
        0 <= k <= bytes.len(),
    ensures
        hex_of(bytes.take(k)) == hex_of(bytes).take(2 * k),
    decreases bytes.len(),
{
    lemma_hex_of_len(bytes.take(k));
    if k > 0 {
        assert(bytes.take(k).drop_first() =~= bytes.drop_first().take(k - 1));
        lemma_hex_prefix(bytes.drop_first(), k - 1);
        lemma_hex_of_len(bytes.drop_first());
        assert(bytes.take(k)[0] == bytes[0]);
        assert(hex_of(bytes.take(k)) =~= hex_of(bytes).take(2 * k));
    } else {
        assert(hex_of(bytes.take(k)) =~= hex_of(bytes).take(2 * k));
    }
}

/// The integrity tag of a payload: the first 16 hex characters of its sha256.
pub fn line_tag(payload: &str) -> (r: String)
    requires
        encode_utf8(payload@).len() < SHA256_MAX_BYTES,
    ensures
        r@ == tag_text(sha256_digest(encode_utf8(payload@))@),
{
    let d = sha256(payload.as_bytes());
    tag_of(&d)
}


/// The most characters a sidecar line handed to [`parse_cache_line`] may hold: its payload
/// then stays below [`SHA256_MAX_BYTES`] bytes, at most four per character.
pub const MAX_LINE_CHARS: u64 = 0x0800_0000_0000_0000;

/// UTF-8 takes at most four bytes per character.
pub proof fn lemma_encode_utf8_len(s: Seq<char>)
    ensures
        encode_utf8(s).len() <= 4 * s.len(),
    decreases s.len(),
{
    if s.len() > 0 {
        lemma_encode_utf8_len(s.drop_first());
        assert(encode_scalar(s[0] as u32).len() <= 4);
    }
}

/// `10^k`.
pub open spec fn pow10(k: nat) -> nat
    decreases k,
{
    if k == 0 { 1 } else { 10 * pow10((k - 1) as nat) }
}

/// A number below `10^k` (`k >= 1`) has at most `k` decimal digits.
pub proof fn lemma_decimal_len(n: nat, k: nat)
    requires
        k >= 1,
        n < pow10(k),
    ensures
        decimal(n).len() <= k,
    decreases n,
{
    if n >= 10 {
        let p = pow10((k - 1) as nat);
        assert(k >= 2) by {
            if k == 1 {
                assert(pow10(0) == 1);
            }
        }
        assert(n / 10 < p) by (nonlinear_arith)
            requires
                n < 10 * p,
        ;
        lemma_decimal_len(n / 10, (k - 1) as nat);
    }
}

/// A payload is at most 174 characters.
pub proof fn lemma_payload_len(k: FileKey, d: Seq<u8>)
    requires
        d.len() == 32,
    ensures
        payload_text(k, d).len() <= 174,
{
    reveal_with_fuel(pow10, 21);
    assert(pow10(20) == 100000000000000000000nat);
    lemma_decimal_len(k.dev as nat, 20);
    lemma_decimal_len(k.ino as nat, 20);
    lemma_decimal_len(k.size as nat, 20);
    if k.mtime_s < 0 {
        lemma_decimal_len((-k.mtime_s) as nat, 20);
    } else {
        lemma_decimal_len(k.mtime_s as nat, 20);
    }
    if k.mtime_ns < 0 {
        lemma_decimal_len((-k.mtime_ns) as nat, 20);
    } else {
        lemma_decimal_len(k.mtime_ns as nat, 20);
    }
    lemma_hex_of_len(d);
}

/// The sidecar format tag every line starts with.
pub const CACHE_FORMAT: &'static str = "v1";

/// The stat identity a memoised digest is keyed by: device, inode, modification time
/// (seconds and nanoseconds) and length.
#[derive(Debug, Clone, Copy, PartialEq, Eq, Hash, Structural)]
pub struct FileKey {
    pub dev: u64,
    pub ino: u64,
    pub mtime_s: i64,
    pub mtime_ns: i64,
    pub size: u64,
}

impl FileKey {
    /// The key of a file from its stat fields.
    pub fn new(dev: u64, ino: u64, mtime_s: i64, mtime_ns: i64, size: u64) -> (r: FileKey)
        ensures
            r == (FileKey { dev, ino, mtime_s, mtime_ns, size }),
    {
        FileKey { dev, ino, mtime_s, mtime_ns, size }
    }

    /// The file's length as of the stat this key was taken from.
    pub fn size(&self) -> (r: u64)
        ensures
            r == self.size,
    {
        self.size
    }
}

/// The index of the last entry keyed by `k`, or `-1`.
pub open spec fn last_match(s: Seq<(FileKey, [u8; 32])>, k: FileKey) -> int
    decreases s.len(),
{
    if s.len() == 0 {
        -1
    } else if s.last().0 == k {
        s.len() - 1
    } else {
        last_match(s.drop_last(), k)
    }
}

pub proof fn lemma_last_match(s: Seq<(FileKey, [u8; 32])>, k: FileKey)
    ensures
        -1 <= last_match(s, k) < s.len(),
        last_match(s, k) >= 0 ==> s[last_match(s, k)].0 == k,
        forall|i: int| last_match(s, k) < i < s.len() ==> #[trigger] s[i].0 != k,
    decreases s.len(),
{
    if s.len() > 0 && s.last().0 != k {
        lemma_last_match(s.drop_last(), k);
        assert forall|i: int| last_match(s, k) < i < s.len() implies #[trigger] s[i].0 != k by {
            if i < s.len() - 1 {
                assert(s[i] == s.drop_last()[i]);
            }
        }
    }
}

pub proof fn lemma_last_match_keys(s1: Seq<(FileKey, [u8; 32])>, s2: Seq<(FileKey, [u8; 32])>, k: FileKey)
    requires
        s1.len() == s2.len(),
        forall|i: int| 0 <= i < s1.len() ==> #[trigger] s1[i].0 == s2[i].0,
    ensures
        last_match(s1, k) == last_match(s2, k),
    decreases s1.len(),
{
    if s1.len() > 0 {
        assert(s1.last().0 == s2[s2.len() - 1].0);
        assert forall|i: int| 0 <= i < s1.drop_last().len() implies #[trigger] s1.drop_last()[i].0 == s2.drop_last()[i].0 by {
            assert(s1[i].0 == s2[i].0);
        }
        lemma_last_match_keys(s1.drop_last(), s2.drop_last(), k);
    }
}

/// The digest the last entry keyed by `k` holds, if any.
pub open spec fn entry_lookup(s: Seq<(FileKey, [u8; 32])>, k: FileKey) -> Option<Seq<u8>> {
    let i = last_match(s, k);
    if i >= 0 {
        Some(s[i].1@)
    } else {
        None
    }
}

/// The index of the last entry of `bucket` keyed by `key`.
fn find_in(bucket: &Vec<(FileKey, [u8; 32])>, key: &FileKey) -> (r: Option<usize>)
    ensures
        last_match(bucket@, *key) == match r {
            Some(i) => i as int,
            None => -1,
        },
        r matches Some(i) ==> i < bucket@.len(),
{
    proof {
        lemma_last_match(bucket@, *key);
    }
    let mut i = bucket.len();
    while i > 0
        invariant
            i <= bucket@.len(),
            -1 <= last_match(bucket@, *key) < bucket@.len(),
            last_match(bucket@, *key) >= 0 ==> bucket@[last_match(bucket@, *key)].0 == *key,
            forall|j: int| last_match(bucket@, *key) < j < bucket@.len() ==> #[trigger] bucket@[j].0 != *key,
            last_match(bucket@, *key) < i,
        decreases i,
    {
        if bucket[i - 1].0 == *key {
            return Some(i - 1);
        }
        i = i - 1;
    }
    None
}

/// Records `key` -> `digest` in `bucket`, replacing an earlier digest for that key.
fn bucket_put(bucket: &mut Vec<(FileKey, [u8; 32])>, key: FileKey, digest: [u8; 32])
    ensures
        entry_lookup(final(bucket)@, key) == Some(digest@),
        forall|k: FileKey| k != key ==> #[trigger] entry_lookup(final(bucket)@, k) == entry_lookup(old(bucket)@, k),
{
    let ghost s0 = bucket@;
    match find_in(bucket, &key) {
        Some(i) => {
            proof {
                lemma_last_match(s0, key);
            }
            bucket.set(i, (key, digest));
            proof {
                let s1 = bucket@;
                assert forall|j: int| 0 <= j < s0.len() implies #[trigger] s0[j].0 == s1[j].0 by {}
                assert forall|k: FileKey| k != key implies #[trigger] entry_lookup(s1, k) == entry_lookup(s0, k) by {
                    lemma_last_match_keys(s0, s1, k);
                    lemma_last_match(s0, k);
                }
                lemma_last_match_keys(s0, s1, key);
            }
        },
        None => {
            bucket.push((key, digest));
            proof {
                let s1 = bucket@;
                assert(s1.drop_last() =~= s0);
                assert forall|k: FileKey| k != key implies #[trigger] entry_lookup(s1, k) == entry_lookup(s0, k) by {
                    lemma_last_match(s0, k);
                }
            }
        },
    }
}

/// The process-local memo of computed digests, keyed by stat identity. An optimisation only:
/// a miss is always answered by a full rehash. Entries are bucketed by inode, so a lookup
/// searches only the entries of one inode.
pub struct DigestMemo {
    buckets: HashMap<u64, Vec<(FileKey, [u8; 32])>>,
}

impl DigestMemo {
    /// The digest memoised under `k`, if any.
    pub closed spec fn lookup(&self, k: FileKey) -> Option<Seq<u8>> {
        if self.buckets@.contains_key(k.ino) {
            entry_lookup(self.buckets@[k.ino]@, k)
        } else {
            None
        }
    }

    /// An empty memo.
    pub fn new() -> (r: DigestMemo)
        ensures
            forall|k: FileKey| r.lookup(k) is None,
    {
        DigestMemo { buckets: HashMap::new() }
    }

    /// The memoised digest for `key`, if one was recorded.
    pub fn get(&self, key: &FileKey) -> (r: Option<[u8; 32]>)
        ensures
            match r {
                Some(d) => self.lookup(*key) == Some(d@),
                None => self.lookup(*key) is None,
            },
    {
        match self.buckets.get(&key.ino) {
            Some(bucket) => match find_in(bucket, key) {
                Some(i) => Some(bucket[i].1),
                None => None,
            },
            None => None,
        }
    }

    /// Memoises `digest` under `key`, replacing any earlier digest for that key.
    pub fn put(&mut self, key: FileKey, digest: [u8; 32])
        ensures
            final(self).lookup(key) == Some(digest@),
            forall|k: FileKey| k != key ==> #[trigger] final(self).lookup(k) == old(self).lookup(k),
    {
        let ghost m0 = self.buckets@;
        let mut bucket = match self.buckets.remove(&key.ino) {
            Some(b) => b,
            None => Vec::new(),
        };
        proof {
            if !m0.contains_key(key.ino) {
                assert forall|k: FileKey| entry_lookup(bucket@, k) is None by {
                    assert(bucket@.len() == 0);
                }
            }
        }
        let ghost b0 = bucket@;
        bucket_put(&mut bucket, key, digest);
        self.buckets.insert(key.ino, bucket);
        proof {
            assert forall|k: FileKey| k != key implies #[trigger] self.lookup(k) == old(self).lookup(k) by {
                if k.ino == key.ino {
                    assert(entry_lookup(bucket@, k) == entry_lookup(b0, k));
                } else {
                    assert(self.buckets@.contains_key(k.ino) == m0.contains_key(k.ino));
                }
            }
        }
    }

    /// Forgets every memoised digest.
    pub fn clear(&mut self)
        ensures
            forall|k: FileKey| final(self).lookup(k) is None,
    {
        self.buckets = HashMap::new();
    }
}

impl DigestMemo {
    /// Loads entries read back from the sidecar, in order: each key ends up answering with the
    /// last digest `entries` holds for it, and a key `entries` does not mention keeps its old
    /// answer.
    pub fn absorb(&mut self, entries: &Vec<(FileKey, [u8; 32])>)
        ensures
            forall|k: FileKey| #[trigger] final(self).lookup(k) == if last_match(entries@, k) >= 0 {
                Some(entries@[last_match(entries@, k)].1@)
            } else {
                old(self).lookup(k)
            },
    {
        let mut i: usize = 0;
        while i < entries.len()
            invariant
                i <= entries@.len(),
                forall|k: FileKey| #[trigger] self.lookup(k) == if last_match(entries@.take(i as int), k) >= 0 {
                    Some(entries@.take(i as int)[last_match(entries@.take(i as int), k)].1@)
                } else {
                    old(self).lookup(k)
                },
            decreases entries@.len() - i,
        {
            let (key, digest) = entries[i];
            self.put(key, digest);
            proof {
                let pre = entries@.take(i as int);
                let now = entries@.take(i + 1);
                assert(now.drop_last() =~= pre);
                assert(now.last() == entries@[i as int]);
                assert forall|k: FileKey| #[trigger] self.lookup(k) == if last_match(now, k) >= 0 {
                    Some(now[last_match(now, k)].1@)
                } else {
                    old(self).lookup(k)
                } by {
                    if k != key {
                        lemma_last_match(pre, k);
                        if last_match(pre, k) >= 0 {
                            assert(now[last_match(pre, k)] == pre[last_match(pre, k)]);
                        }
                    }
                }
            }
            i = i + 1;
        }
        assert(entries@.take(entries@.len() as int) =~= entries@);
    }
}

/// The payload of a sidecar line: `v1 <dev> <ino> <mtime_s> <mtime_ns> <size> <sha256hex>`.
pub open spec fn payload_text(k: FileKey, d: Seq<u8>) -> Seq<char> {
    seq!['v', '1', ' '] + decimal(k.dev as nat) + seq![' '] + decimal(k.ino as nat) + seq![' ']
        + signed_decimal(k.mtime_s as int) + seq![' '] + signed_decimal(k.mtime_ns as int)
        + seq![' '] + decimal(k.size as nat) + seq![' '] + hex_of(d)
}

/// One whole sidecar line: the payload, a space, the payload's tag, and a newline.
pub open spec fn line_text(k: FileKey, d: Seq<u8>) -> Seq<char> {
    let p = payload_text(k, d);
    p + seq![' '] + tag_text(sha256_digest(encode_utf8(p))@) + seq!['\n']
}

/// The payload of the sidecar line for `key` -> `digest`.
pub fn cache_payload(key: &FileKey, digest: &[u8; 32]) -> (r: String)
    ensures
        r@ == payload_text(*key, digest@),
{
    proof {
        reveal_strlit("v1 ");
        reveal_strlit(" ");
    }
    let mut m = String::from_str("v1 ");
    push_decimal(&mut m, key.dev);
    m.append(" ");
    push_decimal(&mut m, key.ino);
    m.append(" ");
    push_signed_decimal(&mut m, key.mtime_s);
    m.append(" ");
    push_signed_decimal(&mut m, key.mtime_ns);
    m.append(" ");
    push_decimal(&mut m, key.size);
    m.append(" ");
    push_hex(&mut m, digest);
    assert(m@ =~= payload_text(*key, digest@));
    m
}

/// One sidecar line for `key` -> `digest`, newline included.
pub fn cache_line(key: &FileKey, digest: &[u8; 32]) -> (r: String)
    ensures
        r@ == line_text(*key, digest@),
{
    proof {
        reveal_strlit(" ");
        reveal_strlit("\n");
    }
    let payload = cache_payload(key, digest);
    proof {
        lemma_payload_len(*key, digest@);
        lemma_encode_utf8_len(payload@);
    }
    let tag = line_tag(payload.as_str());
    let mut m = payload;
    m.append(" ");
    m.append(tag.as_str());
    m.append("\n");
    m
}

impl DigestMemo {
    /// Records a freshly computed digest in the memo and returns the sidecar line that
    /// carries it to the next process (written only while a sidecar session is open).
    pub fn record(&mut self, key: FileKey, digest: [u8; 32]) -> (line: String)
        ensures
            final(self).lookup(key) == Some(digest@),
            forall|k: FileKey| k != key ==> #[trigger] final(self).lookup(k) == old(self).lookup(k),
            line@ == line_text(key, digest@),
    {
        self.put(key, digest);
        cache_line(&key, &digest)
    }

    /// A memo hit for a file whose stat produced `key`: the memoised digest and the length the
    /// key records. No key (the stat failed) is a miss.
    pub fn recall(&self, key: Option<FileKey>) -> (r: Option<([u8; 32], u64)>)
        ensures
            match key {
                None => r is None,
                Some(k) => match self.lookup(k) {
                    Some(d) => r matches Some((got, size)) && got@ == d && size == k.size,
                    None => r is None,
                },
            },
    {
        match key {
            None => None,
            Some(k) => match self.get(&k) {
                Some(d) => Some((d, k.size())),
                None => None,
            },
        }
    }

    /// After a file was streamed and hashed: memoise the digest only when the length the stat
    /// promised is the length actually read (a file growing under the walk is not an identity
    /// the next consumer may reuse). Returns the sidecar line when it recorded one.
    pub fn remember(&mut self, key: Option<FileKey>, digest: [u8; 32], read_size: u64) -> (r: Option<String>)
        ensures
            match key {
                Some(k) if k.size == read_size => {
                    &&& final(self).lookup(k) == Some(digest@)
                    &&& forall|k2: FileKey| k2 != k ==> #[trigger] final(self).lookup(k2) == old(self).lookup(k2)
                    &&& r matches Some(line) && line@ == line_text(k, digest@)
                },
                _ => {
                    &&& forall|k2: FileKey| #[trigger] final(self).lookup(k2) == old(self).lookup(k2)
                    &&& r is None
                },
            },
    {
        match key {
            Some(k) => if k.size() == read_size {
                Some(self.record(k, digest))
            } else {
                None
            },
            None => None,
        }
    }
}

impl DigestMemo {
    /// A file hashed cold: finishes its streamed sha256 and memoises the digest under the stat
    /// identity taken from the open file, when the length that stat promised is the length
    /// read. Returns the digest, the length read, and the sidecar line when one was recorded.
    /// A later [`DigestMemo::recall`] of the same key answers with exactly this digest and
    /// length, and the sidecar line reads back as this key and digest.
    pub fn finish_file(&mut self, key: Option<FileKey>, stream: StreamedDigest) -> (r: ([u8; 32], u64, Option<String>))
        ensures
            r.0 == sha256_digest(stream.bytes()),
            r.1 == stream.bytes().len(),
            match key {
                Some(k) if k.size == r.1 => {
                    &&& final(self).lookup(k) == Some(r.0@)
                    &&& forall|k2: FileKey| k2 != k ==> #[trigger] final(self).lookup(k2) == old(self).lookup(k2)
                    &&& r.2 matches Some(line) && line@ == line_text(k, r.0@)
                },
                _ => {
                    &&& forall|k2: FileKey| #[trigger] final(self).lookup(k2) == old(self).lookup(k2)
                    &&& r.2 is None
                },
            },
    {
        let (digest, size) = stream.finish();
        let line = self.remember(key, digest, size);
        (digest, size, line)
    }
}

/// The most workers the parallel per-file hash runs.
pub const MAX_WORKERS: usize = 8;

/// `min(a, b)`.
pub open spec fn min_of(a: int, b: int) -> int {
    if a <= b { a } else { b }
}

/// `x.clamp(lo, hi)` for `lo <= hi`.
pub open spec fn clamp_of(x: int, lo: int, hi: int) -> int {
    if x < lo { lo } else if x > hi { hi } else { x }
}

/// The worker count of the parallel hash for `file_count` files on a host offering
/// `available` threads: `min(available, MAX_WORKERS)` clamped to `1..=max(file_count, 1)`.
pub fn workers_for(available: usize, file_count: usize) -> (r: usize)
    ensures
        r == clamp_of(min_of(available as int, MAX_WORKERS as int), 1, if file_count >= 1 { file_count as int } else { 1 }),
        1 <= r <= MAX_WORKERS,
{
    let capped = if available <= MAX_WORKERS { available } else { MAX_WORKERS };
    let hi = if file_count >= 1 { file_count } else { 1 };
    if capped < 1 {
        1
    } else if capped > hi {
        hi
    } else {
        capped
    }
}

/// A pinned worker count, clamped to `1..=max(file_count, 1)`.
pub fn forced_workers(forced: usize, file_count: usize) -> (r: usize)
    ensures
        r == clamp_of(forced as int, 1, if file_count >= 1 { file_count as int } else { 1 }),
{
    let hi = if file_count >= 1 { file_count } else { 1 };
    if forced < 1 {
        1
    } else if forced > hi {
        hi
    } else {
        forced
    }
}


// ---------------------------------------------------------------------------------------------
// Reading a sidecar line back.
// ---------------------------------------------------------------------------------------------

/// An ASCII decimal digit.
pub open spec fn is_dec_digit(c: char) -> bool {
    '0' <= c && c <= '9'
}

/// The value of a decimal digit string, most significant digit first.
pub open spec fn digits_value(s: Seq<char>) -> int
    decreases s.len(),
{
    if s.len() == 0 {
        0
    } else {
        digits_value(s.drop_last()) * 10 + (s.last() as int - '0' as int)
    }
}

/// One or more ASCII decimal digits.
pub open spec fn all_dec_digits(s: Seq<char>) -> bool {
    s.len() > 0 && forall|i: int| 0 <= i < s.len() ==> is_dec_digit(#[trigger] s[i])
}

/// `u64::from_str`: an optional `+`, then one or more digits, in range.
pub open spec fn parse_u64_text(s: Seq<char>) -> Option<u64> {
    let body = if s.len() > 0 && s[0] == '+' { s.drop_first() } else { s };
    if all_dec_digits(body) && digits_value(body) <= u64::MAX {
        Some(digits_value(body) as u64)
    } else {
        None
    }
}

/// `i64::from_str`: an optional `+` or `-`, then one or more digits, in range.
pub open spec fn parse_i64_text(s: Seq<char>) -> Option<i64> {
    if s.len() > 0 && s[0] == '-' {
        let body = s.drop_first();
        if all_dec_digits(body) && digits_value(body) <= 0x8000_0000_0000_0000 {
            Some((-digits_value(body)) as i64)
        } else {
            None
        }
    } else {
        let body = if s.len() > 0 && s[0] == '+' { s.drop_first() } else { s };
        if all_dec_digits(body) && digits_value(body) <= i64::MAX {
            Some(digits_value(body) as i64)
        } else {
            None
        }
    }
}

pub proof fn lemma_digits_prefix(s: Seq<char>, k: int)
    requires
        0 <= k <= s.len(),
        forall|i: int| 0 <= i < s.len() ==> is_dec_digit(#[trigger] s[i]),
    ensures
        digits_value(s.take(k)) <= digits_value(s),
        0 <= digits_value(s),
    decreases s.len(),
{
    if s.len() > 0 {
        assert forall|i: int| 0 <= i < s.drop_last().len() implies is_dec_digit(#[trigger] s.drop_last()[i]) by {
            assert(s.drop_last()[i] == s[i]);
        }
        assert(is_dec_digit(s[s.len() - 1]));
        if k == s.len() {
            assert(s.take(k) =~= s);
            lemma_digits_prefix(s.drop_last(), 0);
        } else {
            lemma_digits_prefix(s.drop_last(), k);
            assert(s.drop_last().take(k) =~= s.take(k));
        }
    } else {
        assert(s.take(k) =~= s);
    }
}

/// The value of the digits `v[start..stop]`, or `None` when one is not a digit or the value
/// passes `u64::MAX` (in which case the whole string's value does too).
fn digits_in(v: &Vec<char>, start: usize, stop: usize) -> (r: Option<u64>)
    requires
        start <= stop <= v.len(),
    ensures
        match r {
            Some(x) => (forall|i: int| start <= i < stop ==> is_dec_digit(#[trigger] v@[i]))
                && x == digits_value(v@.subrange(start as int, stop as int)),
            None => !(forall|i: int| start <= i < stop ==> is_dec_digit(#[trigger] v@[i]))
                || digits_value(v@.subrange(start as int, stop as int)) > u64::MAX,
        },
{
    let ghost s = v@.subrange(start as int, stop as int);
    let mut acc: u64 = 0;
    let mut i: usize = start;
    assert(s.take(0) =~= seq![]);
    while i < stop
        invariant
            start <= i <= stop <= v.len(),
            s == v@.subrange(start as int, stop as int),
            forall|k: int| start <= k < i ==> is_dec_digit(#[trigger] v@[k]),
            acc == digits_value(s.take(i - start)),
        decreases stop - i,
    {
        let c = v[i];
        if !('0' <= c && c <= '9') {
            return None;
        }
        let d = (c as u32 - '0' as u32) as u64;
        proof {
            assert(s.take(i + 1 - start).drop_last() =~= s.take(i - start));
            assert(s.take(i + 1 - start).last() == c);
        }
        if acc > 1844674407370955161 || (acc == 1844674407370955161 && d > 5) {
            proof {
                let pre = s.take(i + 1 - start);
                assert(digits_value(pre) > u64::MAX);
                if forall|k: int| start <= k < stop ==> is_dec_digit(#[trigger] v@[k]) {
                    assert forall|k: int| 0 <= k < s.len() implies is_dec_digit(#[trigger] s[k]) by {
                        assert(s[k] == v@[start + k]);
                    }
                    lemma_digits_prefix(s, i + 1 - start);
                }
            }
            return None;
        }
        acc = acc * 10 + d;
        i = i + 1;
    }
    assert(s.take(stop - start) =~= s);
    Some(acc)
}

/// `u64::from_str` on `v[start..stop]`.
fn parse_u64_in(v: &Vec<char>, start: usize, stop: usize) -> (r: Option<u64>)
    requires
        start <= stop <= v.len(),
    ensures
        r == parse_u64_text(v@.subrange(start as int, stop as int)),
{
    let ghost s = v@.subrange(start as int, stop as int);
    let mut from = start;
    if start < stop && v[start] == '+' {
        from = start + 1;
        assert(s.drop_first() =~= v@.subrange(from as int, stop as int));
    } else {
        assert(s =~= v@.subrange(from as int, stop as int));
    }
    if from >= stop {
        return None;
    }
    let got = digits_in(v, from, stop);
    proof {
        let body = v@.subrange(from as int, stop as int);
        assert forall|k: int| 0 <= k < body.len() implies #[trigger] body[k] == v@[from + k] by {}
        if forall|k: int| from <= k < stop ==> is_dec_digit(#[trigger] v@[k]) {
            assert(all_dec_digits(body));
        } else {
            let k = choose|k: int| from <= k < stop && !is_dec_digit(#[trigger] v@[k]);
            assert(body[k - from] == v@[k]);
        }
    }
    got
}

/// `i64::from_str` on `v[start..stop]`.
fn parse_i64_in(v: &Vec<char>, start: usize, stop: usize) -> (r: Option<i64>)
    requires
        start <= stop <= v.len(),
    ensures
        r == parse_i64_text(v@.subrange(start as int, stop as int)),
{
    let ghost s = v@.subrange(start as int, stop as int);
    let negative = start < stop && v[start] == '-';
    let mut from = start;
    if start < stop && (v[start] == '-' || v[start] == '+') {
        from = start + 1;
        assert(s.drop_first() =~= v@.subrange(from as int, stop as int));
    } else {
        assert(s =~= v@.subrange(from as int, stop as int));
    }
    if from >= stop {
        return None;
    }
    let got = digits_in(v, from, stop);
    proof {
        let body = v@.subrange(from as int, stop as int);
        assert forall|k: int| 0 <= k < body.len() implies #[trigger] body[k] == v@[from + k] by {}
        if forall|k: int| from <= k < stop ==> is_dec_digit(#[trigger] v@[k]) {
            assert(all_dec_digits(body));
        } else {
            let k = choose|k: int| from <= k < stop && !is_dec_digit(#[trigger] v@[k]);
            assert(body[k - from] == v@[k]);
        }
    }
    match got {
        None => None,
        Some(m) => if negative {
            if m <= 0x8000_0000_0000_0000 {
                if m == 0x8000_0000_0000_0000 {
                    Some(-9223372036854775807i64 - 1)
                } else {
                    Some(-(m as i64))
                }
            } else {
                None
            }
        } else {
            if m <= 0x7fff_ffff_ffff_ffff {
                Some(m as i64)
            } else {
                None
            }
        },
    }
}

/// A hex digit, either case (`char::to_digit(16)`).
pub open spec fn is_hex_digit(c: char) -> bool {
    ('0' <= c && c <= '9') || ('a' <= c && c <= 'f') || ('A' <= c && c <= 'F')
}

/// The value of a hex digit.
pub open spec fn hex_value(c: char) -> int {
    if '0' <= c && c <= '9' {
        c as int - '0' as int
    } else if 'a' <= c && c <= 'f' {
        c as int - 'a' as int + 10
    } else {
        c as int - 'A' as int + 10
    }
}

/// `u8::from_str_radix(pair, 16)` for a two-character pair: an optional `+` and one digit, or
/// two digits.
pub open spec fn pair_value(a: char, b: char) -> Option<u8> {
    if a == '+' && is_hex_digit(b) {
        Some(hex_value(b) as u8)
    } else if is_hex_digit(a) && is_hex_digit(b) {
        Some((hex_value(a) * 16 + hex_value(b)) as u8)
    } else {
        None
    }
}

/// The bytes a run of two-character hex pairs denotes, if every pair is valid.
pub open spec fn hex_pairs(h: Seq<char>) -> Option<Seq<u8>>
    decreases h.len(),
{
    if h.len() == 0 {
        Some(seq![])
    } else if h.len() == 1 {
        None
    } else {
        match (hex_pairs(h.take(h.len() - 2)), pair_value(h[h.len() - 2], h[h.len() - 1])) {
            (Some(pre), Some(b)) => Some(pre.push(b)),
            _ => None,
        }
    }
}

/// The 32-byte digest a 64-character hex field denotes, if it is one.
pub open spec fn digest_text(h: Seq<char>) -> Option<Seq<u8>> {
    if h.len() == 64 {
        hex_pairs(h)
    } else {
        None
    }
}

pub proof fn lemma_hex_pairs_even(h: Seq<char>)
    requires
        hex_pairs(h) is Some,
    ensures
        h.len() % 2 == 0,
    decreases h.len(),
{
    if h.len() >= 2 {
        lemma_hex_pairs_even(h.take(h.len() - 2));
    }
}

pub proof fn lemma_hex_pairs_prefix(h: Seq<char>, m: int)
    requires
        0 <= m,
        2 * m <= h.len(),
        hex_pairs(h) is Some,
    ensures
        hex_pairs(h.take(2 * m)) is Some,
    decreases h.len(),
{
    lemma_hex_pairs_even(h);
    if 2 * m < h.len() {
        assert(h.len() >= 2);
        let pre = h.take(h.len() - 2);
        assert(hex_pairs(pre) is Some);
        lemma_hex_pairs_prefix(pre, m);
        assert(pre.take(2 * m) =~= h.take(2 * m));
    } else {
        assert(h.take(2 * m) =~= h);
    }
}

fn hex_digit_value(c: char) -> (r: Option<u8>)
    ensures
        match r {
            Some(x) => is_hex_digit(c) && x == hex_value(c),
            None => !is_hex_digit(c),
        },
{
    if '0' <= c && c <= '9' {
        Some((c as u32 - '0' as u32) as u8)
    } else if 'a' <= c && c <= 'f' {
        Some((c as u32 - 'a' as u32 + 10) as u8)
    } else if 'A' <= c && c <= 'F' {
        Some((c as u32 - 'A' as u32 + 10) as u8)
    } else {
        None
    }
}

fn pair_in(a: char, b: char) -> (r: Option<u8>)
    ensures
        r == pair_value(a, b),
{
    match hex_digit_value(b) {
        None => None,
        Some(lo) => if a == '+' {
            Some(lo)
        } else {
            match hex_digit_value(a) {
                None => None,
                Some(hi) => Some(hi * 16 + lo),
            }
        },
    }
}

/// The digest the hex field `v[start..stop]` denotes.
fn digest_in(v: &Vec<char>, start: usize, stop: usize) -> (r: Option<[u8; 32]>)
    requires
        start <= stop <= v.len(),
    ensures
        match r {
            Some(d) => digest_text(v@.subrange(start as int, stop as int)) == Some(d@),
            None => digest_text(v@.subrange(start as int, stop as int)) is None,
        },
{
    let ghost h = v@.subrange(start as int, stop as int);
    if stop - start != 64 {
        return None;
    }
    let mut d = [0u8; 32];
    let mut i: usize = 0;
    assert(h.take(0) =~= seq![]);
    while i < 32
        invariant
            stop - start == 64,
            start <= stop <= v.len(),
            h == v@.subrange(start as int, stop as int),
            i <= 32,
            hex_pairs(h.take(2 * i)) == Some(d@.take(i as int)),
        decreases 32 - i,
    {
        let a = v[start + 2 * i];
        let b = v[start + 2 * i + 1];
        let ghost pre = h.take(2 * i + 2);
        proof {
            assert(pre.take(pre.len() - 2) =~= h.take(2 * i));
            assert(pre[pre.len() - 2] == a);
            assert(pre[pre.len() - 1] == b);
        }
        match pair_in(a, b) {
            None => {
                proof {
                    if hex_pairs(h) is Some {
                        lemma_hex_pairs_prefix(h, i + 1);
                    }
                }
                return None;
            },
            Some(x) => {
                d[i] = x;
                proof {
                    assert(d@.take(i + 1) =~= d@.take(i as int).push(x));
                }
            },
        }
        i = i + 1;
    }
    assert(h.take(64) =~= h);
    assert(d@.take(32) =~= d@);
    Some(d)
}

/// Exactly `n` `' '`-separated fields of `s`, or `None` when `s` has a different number.
pub open spec fn fields_of(s: Seq<char>, n: nat) -> Option<Seq<Seq<char>>>
    decreases n,
{
    if n == 0 {
        None
    } else if n == 1 {
        if first_index_of(s, ' ') < 0 {
            Some(seq![s])
        } else {
            None
        }
    } else {
        let i = first_index_of(s, ' ');
        if i < 0 {
            None
        } else {
            match fields_of(s.skip(i + 1), (n - 1) as nat) {
                Some(fs) => Some(seq![s.take(i)] + fs),
                None => None,
            }
        }
    }
}

/// `pre` followed by the fields of `o`, when there are any.
pub open spec fn prepend_fields(pre: Seq<Seq<char>>, o: Option<Seq<Seq<char>>>) -> Option<Seq<Seq<char>>> {
    match o {
        Some(fs) => Some(pre + fs),
        None => None,
    }
}

/// The entry a sidecar payload denotes: exactly seven `' '`-separated fields, the first `v1`,
/// then dev, ino (unsigned), mtime seconds and nanoseconds (signed), size (unsigned) and the
/// 64-character hex digest.
pub open spec fn parse_payload(p: Seq<char>) -> Option<(FileKey, Seq<u8>)> {
    match fields_of(p, 7) {
        None => None,
        Some(f) => if f[0] != seq!['v', '1'] {
            None
        } else {
            match (parse_u64_text(f[1]), parse_u64_text(f[2]), parse_i64_text(f[3]),
                parse_i64_text(f[4]), parse_u64_text(f[5]), digest_text(f[6])) {
                (Some(dev), Some(ino), Some(mtime_s), Some(mtime_ns), Some(size), Some(d)) =>
                    Some((FileKey { dev, ino, mtime_s, mtime_ns, size }, d)),
                _ => None,
            }
        },
    }
}

/// The entry a sidecar line denotes, if it is intact: trailing whitespace trimmed, split at the
/// last space into payload and tag, the tag equal to the payload's own tag, and the payload
/// well formed.
pub open spec fn parse_line(line: Seq<char>) -> Option<(FileKey, Seq<u8>)> {
    let l = trim_end(line);
    let j = last_index_of(l, ' ');
    if j < 0 {
        None
    } else {
        let payload = l.take(j);
        if tag_text(sha256_digest(encode_utf8(payload))@) != l.skip(j + 1) {
            None
        } else {
            parse_payload(payload)
        }
    }
}

/// The field boundaries of `v[0..end]` when it holds exactly seven `' '`-separated fields.
fn seven_fields(v: &Vec<char>, end: usize) -> (r: Option<Vec<(usize, usize)>>)
    requires
        end <= v.len(),
    ensures
        match r {
            None => fields_of(v@.subrange(0, end as int), 7) is None,
            Some(b) => b.len() == 7
                && (forall|k: int| 0 <= k < 7 ==> #[trigger] b[k].0 <= b[k].1 && b[k].1 <= end)
                && fields_of(v@.subrange(0, end as int), 7) == Some(
                    Seq::new(7, |k: int| v@.subrange(b[k].0 as int, b[k].1 as int))),
        },
{
    let mut bounds: Vec<(usize, usize)> = Vec::new();
    let mut pos: usize = 0;
    let mut k: usize = 0;
    let ghost whole = v@.subrange(0, end as int);
    assert(whole =~= v@.subrange(0, end as int));
    while k < 7
        invariant
            end <= v.len(),
            k <= 7,
            pos <= end,
            bounds.len() == k,
            whole == v@.subrange(0, end as int),
            forall|m: int| 0 <= m < k ==> #[trigger] bounds[m].0 <= bounds[m].1 && bounds[m].1 <= end,
            k < 7 ==> fields_of(whole, 7) == prepend_fields(
                Seq::new(k as nat, |m: int| v@.subrange(bounds[m].0 as int, bounds[m].1 as int)),
                fields_of(v@.subrange(pos as int, end as int), (7 - k) as nat)),
            k == 7 ==> fields_of(whole, 7) == Some(
                Seq::new(7, |m: int| v@.subrange(bounds[m].0 as int, bounds[m].1 as int))),
        decreases 7 - k,
    {
        let ghost rest = v@.subrange(pos as int, end as int);
        let ghost pre = Seq::new(k as nat, |m: int| v@.subrange(bounds[m].0 as int, bounds[m].1 as int));
        let found = first_index_in(v, pos, end, ' ');
        if k < 6 {
            match found {
                None => {
                    return None;
                },
                Some(q) => {
                    proof {
                        assert(rest.take(q - pos) =~= v@.subrange(pos as int, q as int));
                        assert(rest.skip(q - pos + 1) =~= v@.subrange(q + 1, end as int));
                    }
                    bounds.push((pos, q));
                    pos = q + 1;
                    proof {
                        let pre2 = Seq::new((k + 1) as nat, |m: int| v@.subrange(bounds[m].0 as int, bounds[m].1 as int));
                        assert(pre2 =~= pre + seq![v@.subrange(bounds[k as int].0 as int, q as int)]);
                        let tail = fields_of(v@.subrange(pos as int, end as int), (7 - k - 1) as nat);
                        match tail {
                            Some(fs) => {
                                assert(pre2 + fs =~= pre + (seq![v@.subrange(bounds[k as int].0 as int, q as int)] + fs));
                            },
                            None => {},
                        }
                    }
                },
            }
        } else {
            match found {
                Some(_) => {
                    return None;
                },
                None => {
                    bounds.push((pos, end));
                    proof {
                        let pre2 = Seq::new(7, |m: int| v@.subrange(bounds[m].0 as int, bounds[m].1 as int));
                        assert(pre2 =~= pre + seq![rest]);
                    }
                    pos = end;
                },
            }
        }
        k = k + 1;
    }
    Some(bounds)
}

/// The entry a payload `v[0..end]` denotes.
fn parse_payload_in(v: &Vec<char>, end: usize) -> (r: Option<(FileKey, [u8; 32])>)
    requires
        end <= v.len(),
    ensures
        match r {
            Some((k, d)) => parse_payload(v@.subrange(0, end as int)) == Some((k, d@)),
            None => parse_payload(v@.subrange(0, end as int)) is None,
        },
{
    let b = match seven_fields(v, end) {
        None => return None,
        Some(b) => b,
    };
    let ghost f = Seq::new(7, |k: int| v@.subrange(b[k].0 as int, b[k].1 as int));
    assert(f[0] == v@.subrange(b[0].0 as int, b[0].1 as int));
    let (s0, e0) = b[0];
    if e0 - s0 != 2 || v[s0] != 'v' || v[s0 + 1] != '1' {
        proof {
            if e0 - s0 == 2 {
                assert(f[0][0] == v@[s0 as int]);
                assert(f[0][1] == v@[s0 + 1]);
            }
        }
        return None;
    }
    assert(f[0] =~= seq!['v', '1']);
    let dev = parse_u64_in(v, b[1].0, b[1].1);
    let ino = parse_u64_in(v, b[2].0, b[2].1);
    let mtime_s = parse_i64_in(v, b[3].0, b[3].1);
    let mtime_ns = parse_i64_in(v, b[4].0, b[4].1);
    let size = parse_u64_in(v, b[5].0, b[5].1);
    let digest = digest_in(v, b[6].0, b[6].1);
    assert(f[1] == v@.subrange(b[1].0 as int, b[1].1 as int));
    assert(f[2] == v@.subrange(b[2].0 as int, b[2].1 as int));
    assert(f[3] == v@.subrange(b[3].0 as int, b[3].1 as int));
    assert(f[4] == v@.subrange(b[4].0 as int, b[4].1 as int));
    assert(f[5] == v@.subrange(b[5].0 as int, b[5].1 as int));
    assert(f[6] == v@.subrange(b[6].0 as int, b[6].1 as int));
    match (dev, ino, mtime_s, mtime_ns, size, digest) {
        (Some(dev), Some(ino), Some(mtime_s), Some(mtime_ns), Some(size), Some(d)) => {
            Some((FileKey { dev, ino, mtime_s, mtime_ns, size }, d))
        },
        _ => None,
    }
}

/// Reads one sidecar line back: `None` for any line that is not intact (wrong field count,
/// wrong format tag, a field that does not parse, a malformed digest, or a tag that does not
/// match the payload).
pub fn parse_cache_line(line: &str) -> (r: Option<(FileKey, [u8; 32])>)
    requires
        line@.len() < MAX_LINE_CHARS,
    ensures
        match r {
            Some((k, d)) => parse_line(line@) == Some((k, d@)),
            None => parse_line(line@) is None,
        },
{
    let v = chars_of(line);
    let n = v.len();
    let ghost ls = line@;
    proof {
        lemma_end_solid(ls);
    }
    let mut e: usize = n;
    while e > 0 && char_is_white(v[e - 1])
        invariant
            n == v@.len(),
            v@ == ls,
            e <= n,
            e >= end_solid(ls),
            forall|i: int| end_solid(ls) <= i < ls.len() ==> is_white(#[trigger] ls[i]),
            end_solid(ls) > 0 ==> !is_white(ls[end_solid(ls) - 1]),
        decreases e,
    {
        e = e - 1;
    }
    assert(e == end_solid(ls));
    let ghost l = trim_end(ls);
    assert(l =~= v@.subrange(0, e as int));
    let j = match last_index_below(&v, e, ' ') {
        None => return None,
        Some(j) => j,
    };
    let payload = line.substring_char(0, j);
    let tag = line.substring_char(j + 1, e);
    proof {
        assert(payload@ =~= l.take(j as int));
        assert(tag@ =~= l.skip(j + 1));
        assert(l.take(j as int) =~= v@.subrange(0, j as int));
    }
    proof {
        lemma_encode_utf8_len(payload@);
    }
    let expected = line_tag(payload);
    if String::from_str(tag) != expected {
        return None;
    }
    parse_payload_in(&v, j)
}

} // verus!
