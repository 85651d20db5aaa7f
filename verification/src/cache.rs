//! The on-disk cache: where entries live, how big it may grow and which
//! entry goes first when it is full; and the key of compiled Wasm modules.
//! Reading, writing and listing files are the application's business.

use vstd::prelude::*;
use std::sync::Arc;
use sha2::{Digest, Sha256};
use crate::config::{join_path, path_join};
use crate::error::GratError;
use crate::json::{chars_lt, lex_lt};
use crate::text::{append, chars_of, dec_nat, hex_of, hex_seq, push_dec};

verus! {

/// What a cache entry holds.
#[derive(Debug, Clone, Copy, PartialEq, Eq, Structural)]
pub enum CacheCategory {
    WasmBlob,
    ContractSpec,
    LedgerEntry,
    TransactionResult,
}

/// The directory name of a category.
pub open spec fn category_dir(c: CacheCategory) -> Seq<char> {
    match c {
        CacheCategory::WasmBlob => "wasm"@,
        CacheCategory::ContractSpec => "spec"@,
        CacheCategory::LedgerEntry => "ledger"@,
        CacheCategory::TransactionResult => "tx"@,
    }
}

impl CacheCategory {
    /// The directory name: `wasm`, `spec`, `ledger` or `tx`.
    pub fn as_str(self) -> (r: &'static str)
        ensures
            r@ == category_dir(self),
    {
        match self {
            CacheCategory::WasmBlob => "wasm",
            CacheCategory::ContractSpec => "spec",
            CacheCategory::LedgerEntry => "ledger",
            CacheCategory::TransactionResult => "tx",
        }
    }
}

/// A cache directory with a size limit in bytes.
#[derive(Debug, Clone, PartialEq, Eq)]
pub struct CacheStore {
    cache_dir: String,
    max_size: u64,
}

/// A file of the cache: when it was last accessed (nanoseconds since the
/// Unix epoch), the components of its path, and its size.
#[derive(Debug, Clone, PartialEq, Eq)]
pub struct CacheFileInfo {
    pub accessed_nanos: u128,
    pub path_components: Vec<String>,
    pub size: u64,
}

/// Lexicographic order of paths by their components.
pub open spec fn components_lt(a: Seq<Seq<char>>, b: Seq<Seq<char>>) -> bool
    decreases a.len(),
{
    if a.len() == 0 {
        b.len() > 0
    } else if b.len() == 0 {
        false
    } else if a[0] != b[0] {
        lex_lt(a[0], b[0])
    } else {
        components_lt(a.drop_first(), b.drop_first())
    }
}

/// File `a` goes before file `b`: accessed earlier, or at the same time
/// with a smaller path.
pub open spec fn file_before(a: CacheFileInfo, b: CacheFileInfo) -> bool {
    a.accessed_nanos < b.accessed_nanos || (a.accessed_nanos == b.accessed_nanos && components_lt(
        crate::events::views(a.path_components@),
        crate::events::views(b.path_components@),
    ))
}

/// Total of file sizes, saturating at `u64::MAX`.
pub open spec fn saturating_total(sizes: Seq<u64>) -> u64
    decreases sizes.len(),
{
    if sizes.len() == 0 {
        0
    } else {
        let t = saturating_total(sizes.drop_last()) + sizes.last();
        if t > u64::MAX {
            u64::MAX
        } else {
            t as u64
        }
    }
}

fn component_views_lt(a: &Vec<String>, b: &Vec<String>) -> (r: bool)
    ensures
        r == components_lt(crate::events::views(a@), crate::events::views(b@)),
{
    proof {
        crate::events::lemma_views(a@);
        crate::events::lemma_views(b@);
    }
    let ghost va = crate::events::views(a@);
    let ghost vb = crate::events::views(b@);
    let mut i: usize = 0;
    assert(va.skip(0) =~= va);
    assert(vb.skip(0) =~= vb);
    while i < a.len() && i < b.len()
        invariant
            i <= a.len(),
            i <= b.len(),
            va == crate::events::views(a@),
            vb == crate::events::views(b@),
            va.len() == a.len(),
            vb.len() == b.len(),
            forall|k: int| 0 <= k < a.len() ==> #[trigger] va[k] == a@[k]@,
            forall|k: int| 0 <= k < b.len() ==> #[trigger] vb[k] == b@[k]@,
            components_lt(va, vb) == components_lt(va.skip(i as int), vb.skip(i as int)),
        decreases a.len() - i,
    {
        assert(va.skip(i as int)[0] == va[i as int]);
        assert(vb.skip(i as int)[0] == vb[i as int]);
        let ca = chars_of(a[i].as_str());
        let cb = chars_of(b[i].as_str());
        if !crate::text::eq_chars(ca.as_slice(), cb.as_slice()) {
            return chars_lt(ca.as_slice(), cb.as_slice());
        }
        assert(va.skip(i as int).drop_first() =~= va.skip(i + 1));
        assert(vb.skip(i as int).drop_first() =~= vb.skip(i + 1));
        i = i + 1;
    }
    if i == a.len() {
        assert(va.skip(i as int).len() == 0);
        i < b.len()
    } else {
        false
    }
}

/// The order of files for eviction.
pub fn file_before_exec(a: &CacheFileInfo, b: &CacheFileInfo) -> (r: bool)
    ensures
        r == file_before(*a, *b),
{
    a.accessed_nanos < b.accessed_nanos || (a.accessed_nanos == b.accessed_nanos && component_views_lt(
        &a.path_components,
        &b.path_components,
    ))
}

impl CacheStore {
    /// The cache directory.
    pub closed spec fn dir_v(&self) -> Seq<char> {
        self.cache_dir@
    }

    /// The size limit in bytes.
    pub closed spec fn limit(&self) -> u64 {
        self.max_size
    }

    /// A cache in `cache_dir` holding at most `max_size_mb` mebibytes (the
    /// directory itself is created by the caller).
    pub fn new(cache_dir: String, max_size_mb: u64) -> (r: Self)
        requires
            max_size_mb * 1024 * 1024 <= u64::MAX,
        ensures
            r.dir_v() == cache_dir@,
            r.limit() == max_size_mb * 1024 * 1024,
    {
        CacheStore { cache_dir, max_size: max_size_mb * 1024 * 1024 }
    }

    /// The cache directory.
    pub fn cache_dir(&self) -> (r: &str)
        ensures
            r@ == self.dir_v(),
    {
        self.cache_dir.as_str()
    }

    /// The size limit in bytes.
    pub fn max_size(&self) -> (r: u64)
        ensures
            r == self.limit(),
    {
        self.max_size
    }

    /// The file of an entry: `<cache dir>/<category>/<key>`.
    pub fn entry_path(&self, category: CacheCategory, key: &str) -> (r: String)
        ensures
            r@ == path_join(path_join(self.dir_v(), category_dir(category)), key@),
    {
        let dir = join_path(self.cache_dir.as_str(), category.as_str());
        join_path(dir.as_str(), key)
    }

    /// Refuses an entry larger than the whole cache.
    pub fn check_entry_size(&self, new_size: u64) -> (r: Result<(), GratError>)
        ensures
            r is Ok <==> new_size <= self.limit(),
            r matches Err(GratError::CacheError(m)) ==> m@ == "Cache entry exceeds configured cache size limit of "@
                + dec_nat(self.limit() as nat) + " bytes"@,
            r is Err ==> r matches Err(GratError::CacheError(_)),
    {
        if new_size > self.max_size {
            let mut m = String::from_str("Cache entry exceeds configured cache size limit of ");
            push_dec(&mut m, self.max_size as u128);
            append(&mut m, " bytes");
            return Err(GratError::CacheError(m));
        }
        Ok(())
    }

    /// Whether a new entry only fits after evicting files.
    pub fn needs_eviction(&self, current_size: u64, new_size: u64) -> (r: bool)
        ensures
            r == (if current_size + new_size > u64::MAX { u64::MAX as int } else { current_size + new_size }
                > self.limit()),
    {
        let total = if current_size > u64::MAX - new_size { u64::MAX } else { current_size + new_size };
        total > self.max_size
    }

    /// The error when nothing is left to evict.
    pub fn eviction_impossible(&self) -> (r: GratError)
        ensures
            r matches GratError::CacheError(m) && m@ == "Cache max_size="@ + dec_nat(self.limit() as nat)
                + " too small or eviction impossible"@,
    {
        let mut m = String::from_str("Cache max_size=");
        push_dec(&mut m, self.max_size as u128);
        append(&mut m, " too small or eviction impossible");
        GratError::CacheError(m)
    }
}

/// The total size of cache files, saturating.
pub fn total_cache_size(sizes: &[u64]) -> (r: u64)
    ensures
        r == saturating_total(sizes@),
{
    let mut total: u64 = 0;
    let n = sizes.len();
    for i in 0..n
        invariant
            n == sizes.len(),
            total == saturating_total(sizes@.take(i as int)),
    {
        assert(sizes@.take(i + 1).drop_last() =~= sizes@.take(i as int));
        total = if total > u64::MAX - sizes[i] { u64::MAX } else { total + sizes[i] };
    }
    assert(sizes@.take(n as int) =~= sizes@);
    total
}

/// The file to evict first: the least recently accessed (ties broken by
/// path); `None` when there are no files.
pub fn eviction_victim(files: &[CacheFileInfo]) -> (r: Option<usize>)
    ensures
        r is None <==> files@.len() == 0,
        r matches Some(i) ==> i < files@.len() && forall|j: int| 0 <= j < files@.len() ==> !file_before(#[trigger] files@[j], files@[i as int]),
{
    if files.len() == 0 {
        return None;
    }
    let mut best: usize = 0;
    let n = files.len();
    proof { lemma_file_irreflexive(files@[0]); }
    for i in 1..n
        invariant
            n == files.len(),
            best < n,
            forall|j: int| 0 <= j < i ==> !file_before(#[trigger] files@[j], files@[best as int]),
    {
        if file_before_exec(&files[i], &files[best]) {
            proof { lemma_file_before_order(files@, best as int, i as int); }
            best = i;
        }
    }
    Some(best)
}

proof fn lemma_lex(a: Seq<char>, b: Seq<char>, c: Seq<char>)
    ensures
        lex_lt(a, b) && lex_lt(b, c) ==> lex_lt(a, c),
        lex_lt(a, b) ==> !lex_lt(b, a),
        !lex_lt(a, a),
    decreases a.len(),
{
    if a.len() > 0 && b.len() > 0 && c.len() > 0 {
        lemma_lex(a.drop_first(), b.drop_first(), c.drop_first());
    }
    if a.len() > 0 && b.len() > 0 {
        lemma_lex(a.drop_first(), b.drop_first(), a.drop_first());
    }
    if a.len() > 0 {
        lemma_lex(a.drop_first(), a.drop_first(), a.drop_first());
    }
}

proof fn lemma_components_total(a: Seq<Seq<char>>, b: Seq<Seq<char>>, c: Seq<Seq<char>>)
    ensures
        components_lt(a, b) && components_lt(b, c) ==> components_lt(a, c),
        components_lt(a, b) ==> !components_lt(b, a),
        !components_lt(a, a),
    decreases a.len(),
{
    if a.len() > 0 {
        lemma_lex(a[0], a[0], a[0]);
        lemma_components_total(a.drop_first(), a.drop_first(), a.drop_first());
    }
    if a.len() > 0 && b.len() > 0 {
        lemma_lex(a[0], b[0], a[0]);
        lemma_components_total(a.drop_first(), b.drop_first(), a.drop_first());
    }
    if a.len() > 0 && b.len() > 0 && c.len() > 0 {
        lemma_lex(a[0], b[0], c[0]);
        lemma_lex(a[0], c[0], b[0]);
        lemma_lex(b[0], a[0], c[0]);
        lemma_components_total(a.drop_first(), b.drop_first(), c.drop_first());
        if components_lt(a, b) && components_lt(b, c) {
            if a[0] != b[0] {
                if b[0] != c[0] {
                    assert(lex_lt(a[0], c[0]));
                    assert(a[0] != c[0]);
                } else {
                    assert(a[0] != c[0]);
                }
            } else if b[0] != c[0] {
                assert(a[0] != c[0]);
            }
        }
    }
}

proof fn lemma_file_before_order(files: Seq<CacheFileInfo>, best: int, i: int)
    requires
        0 <= best < files.len(),
        0 <= i < files.len(),
        file_before(files[i], files[best]),
    ensures
        forall|j: int| 0 <= j < files.len() && !file_before(files[j], files[best]) ==> !file_before(#[trigger] files[j], files[i]),
        !file_before(files[best], files[i]),
        !file_before(files[i], files[i]),
{
    let vi = crate::events::views(files[i].path_components@);
    let vb = crate::events::views(files[best].path_components@);
    lemma_components_total(vi, vb, vi);
    lemma_components_total(vb, vi, vb);
    assert forall|j: int| 0 <= j < files.len() && !file_before(files[j], files[best]) implies !file_before(#[trigger] files[j], files[i]) by {
        let vj = crate::events::views(files[j].path_components@);
        lemma_components_total(vj, vi, vb);
    }
}

proof fn lemma_file_irreflexive(f: CacheFileInfo)
    ensures
        !file_before(f, f),
{
    let v = crate::events::views(f.path_components@);
    lemma_components_total(v, v, v);
}

/// A cache of values behind shared pointers, keyed by `K`.
pub trait CacheProvider<K, V> {
    /// The value cached under `key`, if any.
    fn get(&self, key: &K) -> Option<Arc<V>>;
    /// Caches `value` under `key`.
    fn insert(&self, key: K, value: V);
    /// Removes and returns the value under `key`, if any.
    fn remove(&self, key: &K) -> Option<Arc<V>>;
    /// Removes every value.
    fn clear(&self);
}

/// The SHA-256 digest of some bytes.
pub uninterp spec fn sha256_of(bytes: Seq<u8>) -> Seq<u8>;

/// The SHA-256 digest of some bytes (`sha2::Sha256::digest`).
///
/// Trusted: the digest depends on the bytes alone and is 32 bytes long.
#[verifier::external_body]
pub(crate) fn sha256(bytes: &[u8]) -> (r: [u8; 32])
    ensures
        r@ == sha256_of(bytes@),
{
    Sha256::digest(bytes).into()
}

/// A cache of compiled Wasm modules, keyed by the SHA-256 of the source
/// bytecode.
pub struct WasmCache<P> {
    provider: P,
}

impl<P> WasmCache<P> {
    /// A Wasm cache over a cache provider.
    pub fn new(provider: P) -> (r: Self)
        ensures
            r.provider_v() == provider,
    {
        WasmCache { provider }
    }

    /// The provider behind this cache.
    pub closed spec fn provider_v(&self) -> P {
        self.provider
    }

    /// The provider behind this cache.
    pub fn provider(&self) -> (r: &P)
        ensures
            *r == self.provider_v(),
    {
        &self.provider
    }

    /// The cache key of some bytecode: the lower-case hex of its SHA-256.
    pub fn hash_bytecode(bytecode: &[u8]) -> (r: String)
        ensures
            r@ == hex_seq(sha256_of(bytecode@)),
    {
        let digest = sha256(bytecode);
        hex_of(&digest)
    }
}

} // verus!
