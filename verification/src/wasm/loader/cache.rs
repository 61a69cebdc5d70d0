//! The module loader's memory cache: two bounded LRU caches (`lru`), one
//! of module information and one of module bytes, and the count of cached
//! bytes that keeps the bytes under a limit.

use vstd::prelude::*;
use vstd::string::StringExecFns;
use crate::paths::{path_join, join_path, path_file_stem, spec_path_file_stem};
use crate::text::{lit, copy_bytes, texts_of, opt_text, contains_text};
use super::{ModuleCid, ModuleInfo, spec_blake3, spec_multibase_base32};

verus! {

/// The position of key `k` among LRU entries, or -1.
pub open spec fn key_pos<V>(e: Seq<(Seq<char>, V)>, k: Seq<char>) -> int
    decreases e.len(),
{
    if e.len() == 0 {
        -1
    } else if e.last().0 == k {
        e.len() - 1
    } else {
        key_pos(e.drop_last(), k)
    }
}

/// The keys of LRU entries, least recently used first.
pub open spec fn lru_keys<V>(e: Seq<(Seq<char>, V)>) -> Seq<Seq<char>> {
    e.map_values(|p: (Seq<char>, V)| p.0)
}

/// LRU entries as the cache keeps them: no key twice, no more than the
/// capacity, which is positive.
pub open spec fn lru_wf<V>(e: Seq<(Seq<char>, V)>, cap: nat) -> bool {
    lru_keys(e).no_duplicates() && e.len() <= cap && cap > 0
}

/// The entries after `put(k, v)`: an entry for `k` is replaced and becomes
/// the most recent; a new key is added as the most recent, the least
/// recent entry leaving first when the cache is full.
pub open spec fn lru_put<V>(e: Seq<(Seq<char>, V)>, cap: nat, k: Seq<char>, v: V) -> Seq<(Seq<char>, V)> {
    let i = key_pos(e, k);
    if i >= 0 {
        e.remove(i).push((k, v))
    } else if e.len() >= cap {
        e.drop_first().push((k, v))
    } else {
        e.push((k, v))
    }
}

/// The entries after a `get(k)`: an entry for `k` becomes the most recent.
pub open spec fn lru_touch<V>(e: Seq<(Seq<char>, V)>, k: Seq<char>) -> Seq<(Seq<char>, V)> {
    let i = key_pos(e, k);
    if i >= 0 {
        e.remove(i).push(e[i])
    } else {
        e
    }
}

/// The entries without the one for `k`.
pub open spec fn lru_without<V>(e: Seq<(Seq<char>, V)>, k: Seq<char>) -> Seq<(Seq<char>, V)> {
    let i = key_pos(e, k);
    if i >= 0 {
        e.remove(i)
    } else {
        e
    }
}

/// The values of a module's information.
pub type InfoView = (
    Seq<char>,
    Option<Seq<char>>,
    Option<Seq<char>>,
    usize,
    Seq<Seq<char>>,
    Option<Seq<char>>,
    Option<Seq<char>>,
);

/// The values a module's information holds.
pub open spec fn info_view(i: ModuleInfo) -> InfoView {
    (
        i.cid.0@,
        opt_text(i.name),
        opt_text(i.version),
        i.size,
        i.dependencies@.map_values(|c: ModuleCid| c.0@),
        opt_text(i.author),
        opt_text(i.description),
    )
}

/// A bounded LRU cache of module bytes by CID (`lru::LruCache`).
#[verifier::external_body]
pub struct BytesCache {
    cache: lru::LruCache<ModuleCid, Vec<u8>>,
}

/// What a bytes cache holds: CID and bytes, least recently used first.
pub uninterp spec fn bytes_entries(c: BytesCache) -> Seq<(Seq<char>, Seq<u8>)>;

/// The capacity a bytes cache was made with.
pub uninterp spec fn bytes_capacity(c: BytesCache) -> nat;

/// A bounded LRU cache of module information by CID (`lru::LruCache`).
#[verifier::external_body]
pub struct InfoCache {
    cache: lru::LruCache<ModuleCid, ModuleInfo>,
}

/// What an information cache holds: CID and information, least recently
/// used first.
pub uninterp spec fn info_entries(c: InfoCache) -> Seq<(Seq<char>, InfoView)>;

/// The capacity an information cache was made with.
pub uninterp spec fn info_capacity(c: InfoCache) -> nat;

impl BytesCache {
    /// An empty cache of `cap` entries (`LruCache::new`).
    #[verifier::external_body]
    pub(crate) fn new(cap: usize) -> (r: Self)
        requires
            cap > 0,
        ensures
            bytes_entries(r) == Seq::<(Seq<char>, Seq<u8>)>::empty(),
            bytes_capacity(r) == cap,
    {
        BytesCache { cache: lru::LruCache::new(std::num::NonZeroUsize::new(cap).unwrap()) }
    }

    /// The bytes of `cid`, made the most recent (`LruCache::get`, cloned).
    #[verifier::external_body]
    pub(crate) fn get(&mut self, cid: &ModuleCid) -> (r: Option<Vec<u8>>)
        ensures
            bytes_entries(*final(self)) == lru_touch(bytes_entries(*old(self)), cid.0@),
            bytes_capacity(*final(self)) == bytes_capacity(*old(self)),
            lru_wf(bytes_entries(*final(self)), bytes_capacity(*final(self))),
            r is Some <==> key_pos(bytes_entries(*old(self)), cid.0@) >= 0,
            r matches Some(b) ==> b@ == bytes_entries(*old(self))[key_pos(bytes_entries(*old(self)), cid.0@)].1,
    {
        self.cache.get(cid).cloned()
    }

    /// The bytes of `cid`, leaving the order as it is (`LruCache::peek`).
    #[verifier::external_body]
    pub(crate) fn peek(&self, cid: &ModuleCid) -> (r: Option<&Vec<u8>>)
        ensures
            r is Some <==> key_pos(bytes_entries(*self), cid.0@) >= 0,
            r matches Some(b) ==> b@ == bytes_entries(*self)[key_pos(bytes_entries(*self), cid.0@)].1,
    {
        self.cache.peek(cid)
    }

    /// Stores `bytes` under `cid` (`LruCache::put`; see `lru_put`).
    #[verifier::external_body]
    pub(crate) fn put(&mut self, cid: ModuleCid, bytes: Vec<u8>)
        ensures
            bytes_entries(*final(self)) == lru_put(bytes_entries(*old(self)), bytes_capacity(*old(self)), cid.0@, bytes@),
            bytes_capacity(*final(self)) == bytes_capacity(*old(self)),
            lru_wf(bytes_entries(*final(self)), bytes_capacity(*final(self))),
    {
        self.cache.put(cid, bytes);
    }

    /// Takes out the least recently used entry (`LruCache::pop_lru`).
    #[verifier::external_body]
    pub(crate) fn pop_lru(&mut self) -> (r: Option<(ModuleCid, Vec<u8>)>)
        ensures
            bytes_capacity(*final(self)) == bytes_capacity(*old(self)),
            lru_wf(bytes_entries(*final(self)), bytes_capacity(*final(self))),
            bytes_entries(*old(self)).len() == 0 ==> r is None && bytes_entries(*final(self)) == bytes_entries(*old(self)),
            bytes_entries(*old(self)).len() > 0 ==> (r matches Some(p) && p.0.0@ == bytes_entries(*old(self))[0].0
                && p.1@ == bytes_entries(*old(self))[0].1 && bytes_entries(*final(self)) == bytes_entries(
                *old(self),
            ).drop_first()),
    {
        self.cache.pop_lru()
    }

    /// The number of entries (`LruCache::len`).
    #[verifier::external_body]
    pub(crate) fn len(&self) -> (r: usize)
        ensures
            r == bytes_entries(*self).len(),
    {
        self.cache.len()
    }

    /// Empties the cache (`LruCache::clear`).
    #[verifier::external_body]
    pub(crate) fn clear(&mut self)
        ensures
            bytes_entries(*final(self)) == Seq::<(Seq<char>, Seq<u8>)>::empty(),
            bytes_capacity(*final(self)) == bytes_capacity(*old(self)),
            lru_wf(bytes_entries(*final(self)), bytes_capacity(*final(self))),
    {
        self.cache.clear()
    }
}

impl InfoCache {
    /// An empty cache of `cap` entries (`LruCache::new`).
    #[verifier::external_body]
    pub(crate) fn new(cap: usize) -> (r: Self)
        requires
            cap > 0,
        ensures
            info_entries(r) == Seq::<(Seq<char>, InfoView)>::empty(),
            info_capacity(r) == cap,
    {
        InfoCache { cache: lru::LruCache::new(std::num::NonZeroUsize::new(cap).unwrap()) }
    }

    /// The information of `cid`, made the most recent (`LruCache::get`,
    /// cloned).
    #[verifier::external_body]
    pub(crate) fn get(&mut self, cid: &ModuleCid) -> (r: Option<ModuleInfo>)
        ensures
            info_entries(*final(self)) == lru_touch(info_entries(*old(self)), cid.0@),
            info_capacity(*final(self)) == info_capacity(*old(self)),
            lru_wf(info_entries(*final(self)), info_capacity(*final(self))),
            r is Some <==> key_pos(info_entries(*old(self)), cid.0@) >= 0,
            r matches Some(i) ==> info_view(i) == info_entries(*old(self))[key_pos(info_entries(*old(self)), cid.0@)].1,
    {
        self.cache.get(cid).cloned()
    }

    /// Whether `cid` has an entry, leaving the order as it is
    /// (`LruCache::contains`).
    #[verifier::external_body]
    pub(crate) fn contains(&self, cid: &ModuleCid) -> (r: bool)
        ensures
            r == (key_pos(info_entries(*self), cid.0@) >= 0),
    {
        self.cache.contains(cid)
    }

    /// Stores `info` under `cid` (`LruCache::put`; see `lru_put`).
    #[verifier::external_body]
    pub(crate) fn put(&mut self, cid: ModuleCid, info: ModuleInfo)
        ensures
            info_entries(*final(self)) == lru_put(info_entries(*old(self)), info_capacity(*old(self)), cid.0@, info_view(info)),
            info_capacity(*final(self)) == info_capacity(*old(self)),
            lru_wf(info_entries(*final(self)), info_capacity(*final(self))),
    {
        self.cache.put(cid, info);
    }

    /// Removes the entry of `cid` (`LruCache::pop`).
    #[verifier::external_body]
    pub(crate) fn pop(&mut self, cid: &ModuleCid)
        ensures
            info_entries(*final(self)) == lru_without(info_entries(*old(self)), cid.0@),
            info_capacity(*final(self)) == info_capacity(*old(self)),
            lru_wf(info_entries(*final(self)), info_capacity(*final(self))),
    {
        self.cache.pop(cid);
    }

    /// The number of entries (`LruCache::len`).
    #[verifier::external_body]
    pub(crate) fn len(&self) -> (r: usize)
        ensures
            r == info_entries(*self).len(),
    {
        self.cache.len()
    }

    /// Empties the cache (`LruCache::clear`).
    #[verifier::external_body]
    pub(crate) fn clear(&mut self)
        ensures
            info_entries(*final(self)) == Seq::<(Seq<char>, InfoView)>::empty(),
            info_capacity(*final(self)) == info_capacity(*old(self)),
            lru_wf(info_entries(*final(self)), info_capacity(*final(self))),
    {
        self.cache.clear()
    }
}

/// The total size of the bytes cached.
pub open spec fn cached_size(e: Seq<(Seq<char>, Seq<u8>)>) -> nat
    decreases e.len(),
{
    if e.len() == 0 {
        0
    } else {
        cached_size(e.drop_last()) + e.last().1.len()
    }
}

/// The size cached for `k`, or 0.
pub open spec fn cached_len(e: Seq<(Seq<char>, Seq<u8>)>, k: Seq<char>) -> nat {
    let i = key_pos(e, k);
    if i >= 0 {
        e[i].1.len()
    } else {
        0
    }
}

/// The count of bytes after caching `n` bytes where `existing` were cached
/// for the key: the old count less `existing`, plus `n`, each step
/// saturating.
pub open spec fn count_after_put(current: nat, existing: nat, n: nat) -> nat {
    let less: nat = if current >= existing { (current - existing) as nat } else { 0 };
    if less + n > usize::MAX {
        usize::MAX as nat
    } else {
        less + n
    }
}

/// The entries left when those of `keys` are dropped, one after another.
pub open spec fn lru_without_all<V>(e: Seq<(Seq<char>, V)>, keys: Seq<Seq<char>>) -> Seq<(Seq<char>, V)>
    decreases keys.len(),
{
    if keys.len() == 0 {
        e
    } else {
        lru_without(lru_without_all(e, keys.drop_last()), keys.last())
    }
}

/// The count of bytes after the sizes of `dropped` are taken off `count`
/// one at a time, each step saturating at zero.
pub open spec fn count_after_drops(count: nat, dropped: Seq<(Seq<char>, Seq<u8>)>) -> nat
    decreases dropped.len(),
{
    if dropped.len() == 0 {
        count
    } else {
        let c = count_after_drops(count, dropped.drop_last());
        let n = dropped.last().1.len();
        if c >= n {
            (c - n) as nat
        } else {
            0
        }
    }
}

/// Eviction of the `k` least recently used bytes from bytes `b`,
/// information `i` and count `c` gives `b2`, `i2`, `c2`: the bytes lose
/// their first `k` entries, the information loses the entries of the same
/// keys, the count loses their sizes; `k` is the least number of drops
/// that brings the count within `max`, or all entries when none does.
pub open spec fn evicted_at(
    b: Seq<(Seq<char>, Seq<u8>)>,
    i: Seq<(Seq<char>, InfoView)>,
    c: nat,
    max: nat,
    b2: Seq<(Seq<char>, Seq<u8>)>,
    i2: Seq<(Seq<char>, InfoView)>,
    c2: nat,
    k: int,
) -> bool {
    &&& 0 <= k <= b.len()
    &&& b2 == b.skip(k)
    &&& i2 == lru_without_all(i, lru_keys(b.take(k)))
    &&& c2 == count_after_drops(c, b.take(k))
    &&& forall|j: int| 0 <= j < k ==> #[trigger] count_after_drops(c, b.take(j)) > max
    &&& c2 <= max || k == b.len()
}

/// Eviction under limit `max` turns `b`, `i`, `c` into `b2`, `i2`, `c2`
/// (see `evicted_at`).
pub open spec fn evicted(
    b: Seq<(Seq<char>, Seq<u8>)>,
    i: Seq<(Seq<char>, InfoView)>,
    c: nat,
    max: nat,
    b2: Seq<(Seq<char>, Seq<u8>)>,
    i2: Seq<(Seq<char>, InfoView)>,
    c2: nat,
) -> bool {
    exists|k: int| evicted_at(b, i, c, max, b2, i2, c2, k)
}

/// `after` is `before` with information `iv` and bytes `data` cached under
/// `k`: both put as the most recent entries, the count updated as in
/// `count_after_put`, then eviction done (see `evicted`).
pub open spec fn cache_put(before: ModuleLoader, after: ModuleLoader, k: Seq<char>, iv: InfoView, data: Seq<u8>) -> bool {
    evicted(
        lru_put(before.spec_bytes(), before.spec_capacities().1, k, data),
        lru_put(before.spec_infos(), before.spec_capacities().0, k, iv),
        count_after_put(before.spec_current_bytes(), cached_len(before.spec_bytes(), k), data.len()),
        before.spec_max_bytes(),
        after.spec_bytes(),
        after.spec_infos(),
        after.spec_current_bytes(),
    )
}

/// The loader's caches: module information and module bytes, at most 256
/// entries each, and a count of the bytes cached that eviction keeps
/// under `max_bytes`.
pub struct ModuleLoader {
    cache_dir: String,
    info_cache: InfoCache,
    bytes_cache: BytesCache,
    current_bytes: usize,
    max_bytes: usize,
}

impl ModuleLoader {
    /// The caches are well formed (see `lru_wf`).
    pub closed spec fn wf(&self) -> bool {
        &&& lru_wf(info_entries(self.info_cache), info_capacity(self.info_cache))
        &&& lru_wf(bytes_entries(self.bytes_cache), bytes_capacity(self.bytes_cache))
    }

    /// The directory modules are kept in on disk.
    pub closed spec fn spec_cache_dir(&self) -> Seq<char> {
        self.cache_dir@
    }

    /// The information cached, least recently used first.
    pub closed spec fn spec_infos(&self) -> Seq<(Seq<char>, InfoView)> {
        info_entries(self.info_cache)
    }

    /// The bytes cached, least recently used first.
    pub closed spec fn spec_bytes(&self) -> Seq<(Seq<char>, Seq<u8>)> {
        bytes_entries(self.bytes_cache)
    }

    /// The count of bytes cached the loader keeps.
    pub closed spec fn spec_current_bytes(&self) -> nat {
        self.current_bytes as nat
    }

    /// The limit on the bytes cached.
    pub closed spec fn spec_max_bytes(&self) -> nat {
        self.max_bytes as nat
    }

    /// The capacities of the two caches.
    pub closed spec fn spec_capacities(&self) -> (nat, nat) {
        (info_capacity(self.info_cache), bytes_capacity(self.bytes_cache))
    }

    /// A loader keeping modules in `cache_dir`, with empty caches of 256
    /// entries and a limit of 512 MiB of bytes.
    pub fn new(cache_dir: String) -> (r: Self)
        ensures
            r.spec_cache_dir() == cache_dir@,
            r.spec_infos().len() == 0,
            r.spec_bytes().len() == 0,
            r.spec_current_bytes() == 0,
            r.spec_max_bytes() == 512 * 1024 * 1024,
            r.spec_capacities() == (256nat, 256nat),
            r.wf(),
    {
        ModuleLoader {
            cache_dir,
            info_cache: InfoCache::new(256),
            bytes_cache: BytesCache::new(256),
            current_bytes: 0,
            max_bytes: 512 * 1024 * 1024,
        }
    }

    /// The file a module is kept in on disk: `<cid>.wasm` in the cache
    /// directory.
    pub fn module_file(&self, cid: &ModuleCid) -> (r: String)
        ensures
            r@ == path_join(self.spec_cache_dir(), cid.0@ + ".wasm"@),
    {
        let mut name = lit(cid.0.as_str());
        name.append(".wasm");
        join_path(self.cache_dir.as_str(), name.as_str())
    }

    /// The file a module's information is kept in on disk: `<cid>.json` in
    /// the cache directory.
    pub fn info_file(&self, cid: &ModuleCid) -> (r: String)
        ensures
            r@ == path_join(self.spec_cache_dir(), cid.0@ + ".json"@),
    {
        let mut name = lit(cid.0.as_str());
        name.append(".json");
        join_path(self.cache_dir.as_str(), name.as_str())
    }

    /// Drops least recently used bytes while more than `max_bytes` are
    /// counted, each with its information; afterwards the count is within
    /// the limit or no bytes are cached.
    fn evict_if_needed(&mut self)
        requires
            old(self).wf(),
        ensures
            final(self).wf(),
            final(self).spec_current_bytes() <= final(self).spec_max_bytes() || final(self).spec_bytes().len() == 0,
            final(self).spec_max_bytes() == old(self).spec_max_bytes(),
            final(self).spec_cache_dir() == old(self).spec_cache_dir(),
            final(self).spec_capacities() == old(self).spec_capacities(),
            final(self).spec_current_bytes() <= old(self).spec_current_bytes(),
            final(self).spec_bytes().len() <= old(self).spec_bytes().len(),
            old(self).spec_current_bytes() <= old(self).spec_max_bytes() ==> final(self).spec_bytes() == old(
                self,
            ).spec_bytes() && final(self).spec_infos() == old(self).spec_infos()
                && final(self).spec_current_bytes() == old(self).spec_current_bytes(),
            evicted(
                old(self).spec_bytes(),
                old(self).spec_infos(),
                old(self).spec_current_bytes(),
                old(self).spec_max_bytes(),
                final(self).spec_bytes(),
                final(self).spec_infos(),
                final(self).spec_current_bytes(),
            ),
    {
        let ghost b0 = bytes_entries(self.bytes_cache);
        let ghost i0 = info_entries(self.info_cache);
        let ghost c0 = self.current_bytes as nat;
        let ghost max = self.max_bytes as nat;
        let ghost mut k: int = 0;
        proof {
            assert(b0.skip(0) =~= b0);
            assert(b0.take(0) =~= Seq::<(Seq<char>, Seq<u8>)>::empty());
            assert(lru_keys(b0.take(0)) =~= Seq::<Seq<char>>::empty());
        }
        while self.current_bytes > self.max_bytes
            invariant
                lru_wf(info_entries(self.info_cache), info_capacity(self.info_cache)),
                lru_wf(bytes_entries(self.bytes_cache), bytes_capacity(self.bytes_cache)),
                self.max_bytes == old(self).max_bytes,
                self.cache_dir == old(self).cache_dir,
                info_capacity(self.info_cache) == info_capacity(old(self).info_cache),
                bytes_capacity(self.bytes_cache) == bytes_capacity(old(self).bytes_cache),
                self.current_bytes <= old(self).current_bytes,
                b0 == bytes_entries(old(self).bytes_cache),
                i0 == info_entries(old(self).info_cache),
                c0 == old(self).current_bytes,
                max == self.max_bytes,
                0 <= k <= b0.len(),
                bytes_entries(self.bytes_cache) == b0.skip(k),
                info_entries(self.info_cache) == lru_without_all(i0, lru_keys(b0.take(k))),
                self.current_bytes == count_after_drops(c0, b0.take(k)),
                forall|j: int| 0 <= j < k ==> #[trigger] count_after_drops(c0, b0.take(j)) > max,
            ensures
                self.current_bytes <= self.max_bytes || bytes_entries(self.bytes_cache).len() == 0,
                evicted_at(
                    b0,
                    i0,
                    c0,
                    max,
                    bytes_entries(self.bytes_cache),
                    info_entries(self.info_cache),
                    self.current_bytes as nat,
                    k,
                ),
            decreases bytes_entries(self.bytes_cache).len(),
        {
            let ghost before = self.current_bytes as nat;
            match self.bytes_cache.pop_lru() {
                Some((cid, bytes)) => {
                    proof {
                        assert(b0.skip(k)[0] == b0[k]);
                        assert(b0.skip(k).drop_first() =~= b0.skip(k + 1));
                        assert(b0.take(k + 1).drop_last() =~= b0.take(k));
                        assert(b0.take(k + 1).last() == b0[k]);
                        assert(lru_keys(b0.take(k + 1)).drop_last() =~= lru_keys(b0.take(k)));
                        assert(lru_keys(b0.take(k + 1)).last() == b0[k].0);
                        assert(count_after_drops(c0, b0.take(k)) > max);
                    }
                    self.info_cache.pop(&cid);
                    self.current_bytes = self.current_bytes.saturating_sub(bytes.len());
                    proof {
                        k = k + 1;
                    }
                },
                None => {
                    proof {
                        assert(b0.skip(k).len() == 0);
                    }
                    break;
                },
            }
        }
        proof {
            assert(evicted_at(
                b0,
                i0,
                c0,
                max,
                bytes_entries(self.bytes_cache),
                info_entries(self.info_cache),
                self.current_bytes as nat,
                k,
            ));
            if c0 <= max && k > 0 {
                assert(b0.take(0) =~= Seq::<(Seq<char>, Seq<u8>)>::empty());
                assert(count_after_drops(c0, b0.take(0)) > max);
            }
            if k == 0 {
                assert(b0.skip(0) =~= b0);
                assert(b0.take(0) =~= Seq::<(Seq<char>, Seq<u8>)>::empty());
                assert(lru_keys(b0.take(0)) =~= Seq::<Seq<char>>::empty());
            }
        }
    }

    /// Caches a module's information and bytes: the count of bytes loses
    /// what was cached for the CID and gains the new bytes (saturating),
    /// both entries become the most recent, and eviction then brings the
    /// count within the limit (see `evict_if_needed`).
    pub fn insert_into_cache(&mut self, cid: ModuleCid, info: ModuleInfo, bytes: Vec<u8>)
        requires
            old(self).wf(),
        ensures
            final(self).wf(),
            final(self).spec_current_bytes() <= final(self).spec_max_bytes() || final(self).spec_bytes().len() == 0,
            final(self).spec_max_bytes() == old(self).spec_max_bytes(),
            final(self).spec_cache_dir() == old(self).spec_cache_dir(),
            final(self).spec_capacities() == old(self).spec_capacities(),
            ({
                let count = count_after_put(old(self).spec_current_bytes(), cached_len(old(self).spec_bytes(), cid.0@), bytes@.len());
                count <= old(self).spec_max_bytes() ==> {
                    &&& final(self).spec_current_bytes() == count
                    &&& final(self).spec_bytes() == lru_put(old(self).spec_bytes(), old(self).spec_capacities().1, cid.0@, bytes@)
                    &&& final(self).spec_infos() == lru_put(old(self).spec_infos(), old(self).spec_capacities().0, cid.0@, info_view(info))
                }
            }),
            cache_put(*old(self), *final(self), cid.0@, info_view(info), bytes@),
    {
        let ghost key = cid.0@;
        let ghost data = bytes@;
        let existing: usize = match self.bytes_cache.peek(&cid) {
            Some(b) => b.len(),
            None => 0,
        };
        self.current_bytes = self.current_bytes.saturating_sub(existing);
        let n = bytes.len();
        self.info_cache.put(ModuleCid(lit(cid.0.as_str())), info);
        self.bytes_cache.put(cid, bytes);
        self.current_bytes = self.current_bytes.saturating_add(n);
        self.evict_if_needed();
    }

    /// The information and bytes cached for `cid`, both made the most
    /// recent; `None` unless both are cached.
    pub fn get_cached(&mut self, cid: &ModuleCid) -> (r: Option<(ModuleInfo, Vec<u8>)>)
        requires
            old(self).wf(),
        ensures
            final(self).wf(),
            final(self).spec_infos() == lru_touch(old(self).spec_infos(), cid.0@),
            final(self).spec_bytes() == lru_touch(old(self).spec_bytes(), cid.0@),
            final(self).spec_current_bytes() == old(self).spec_current_bytes(),
            final(self).spec_max_bytes() == old(self).spec_max_bytes(),
            final(self).spec_cache_dir() == old(self).spec_cache_dir(),
            final(self).spec_capacities() == old(self).spec_capacities(),
            r is Some <==> key_pos(old(self).spec_infos(), cid.0@) >= 0 && key_pos(old(self).spec_bytes(), cid.0@) >= 0,
            r matches Some(p) ==> info_view(p.0) == old(self).spec_infos()[key_pos(old(self).spec_infos(), cid.0@)].1
                && p.1@ == old(self).spec_bytes()[key_pos(old(self).spec_bytes(), cid.0@)].1,
    {
        let info = self.info_cache.get(cid);
        let bytes = self.bytes_cache.get(cid);
        match (info, bytes) {
            (Some(i), Some(b)) => Some((i, b)),
            _ => None,
        }
    }

    /// Caches a module read from disk, with only its CID and size known,
    /// and gives its information and bytes.
    pub fn admit_from_disk(&mut self, cid: &ModuleCid, bytes: Vec<u8>) -> (r: (ModuleInfo, Vec<u8>))
        requires
            old(self).wf(),
        ensures
            final(self).wf(),
            r.0.cid.0@ == cid.0@,
            r.0.name is None,
            r.0.version is None,
            r.0.size == bytes@.len(),
            r.0.dependencies@.len() == 0,
            r.0.author is None,
            r.0.description is None,
            r.1@ == bytes@,
            final(self).spec_current_bytes() <= final(self).spec_max_bytes() || final(self).spec_bytes().len() == 0,
            final(self).spec_max_bytes() == old(self).spec_max_bytes(),
            final(self).spec_cache_dir() == old(self).spec_cache_dir(),
            final(self).spec_capacities() == old(self).spec_capacities(),
            cache_put(*old(self), *final(self), cid.0@, info_view(r.0), bytes@),
    {
        let info = bare_info(cid, bytes.len());
        let kept_info = bare_info(cid, bytes.len());
        proof {
            assert(kept_info.dependencies@.map_values(|c: ModuleCid| c.0@) =~= info.dependencies@.map_values(
                |c: ModuleCid| c.0@,
            ));
            assert(info_view(kept_info) == info_view(info));
        }
        let kept = copy_bytes(bytes.as_slice());
        self.insert_into_cache(ModuleCid(lit(cid.0.as_str())), kept_info, kept);
        (info, bytes)
    }

    /// Caches module bytes under their CID, with the given name and only
    /// the size besides, and gives the information and bytes.
    pub fn load_from_bytes(&mut self, bytes: Vec<u8>, name: Option<String>) -> (r: (ModuleInfo, Vec<u8>))
        requires
            old(self).wf(),
        ensures
            final(self).wf(),
            r.0.cid.0@ == spec_multibase_base32(spec_blake3(bytes@)),
            opt_text(r.0.name) == opt_text(name),
            r.0.version is None,
            r.0.size == bytes@.len(),
            r.0.dependencies@.len() == 0,
            r.0.author is None,
            r.0.description is None,
            r.1@ == bytes@,
            final(self).spec_current_bytes() <= final(self).spec_max_bytes() || final(self).spec_bytes().len() == 0,
            final(self).spec_max_bytes() == old(self).spec_max_bytes(),
            final(self).spec_cache_dir() == old(self).spec_cache_dir(),
            final(self).spec_capacities() == old(self).spec_capacities(),
            cache_put(*old(self), *final(self), r.0.cid.0@, info_view(r.0), bytes@),
    {
        let cid = ModuleCid::from_bytes(bytes.as_slice());
        let mut info = bare_info(&cid, bytes.len());
        let mut kept_info = bare_info(&cid, bytes.len());
        match &name {
            Some(n) => {
                info.name = Some(lit(n.as_str()));
                kept_info.name = Some(lit(n.as_str()));
            },
            None => {},
        }
        proof {
            assert(kept_info.dependencies@.map_values(|c: ModuleCid| c.0@) =~= info.dependencies@.map_values(
                |c: ModuleCid| c.0@,
            ));
            assert(info_view(kept_info) == info_view(info));
        }
        let kept = copy_bytes(bytes.as_slice());
        self.insert_into_cache(cid, kept_info, kept);
        (info, bytes)
    }

    /// Caches the bytes of a module file at `path`, named by the file's
    /// stem (see `load_from_bytes`).
    pub fn load_file_bytes(&mut self, path: &str, bytes: Vec<u8>) -> (r: (ModuleInfo, Vec<u8>))
        requires
            old(self).wf(),
        ensures
            final(self).wf(),
            r.0.cid.0@ == spec_multibase_base32(spec_blake3(bytes@)),
            opt_text(r.0.name) == spec_path_file_stem(path@),
            r.0.version is None,
            r.0.size == bytes@.len(),
            r.0.dependencies@.len() == 0,
            r.0.author is None,
            r.0.description is None,
            r.1@ == bytes@,
            final(self).spec_max_bytes() == old(self).spec_max_bytes(),
            final(self).spec_cache_dir() == old(self).spec_cache_dir(),
            final(self).spec_capacities() == old(self).spec_capacities(),
            cache_put(*old(self), *final(self), r.0.cid.0@, info_view(r.0), bytes@),
    {
        let name = path_file_stem(path);
        self.load_from_bytes(bytes, name)
    }

    /// Caches a module given with its information (as when it is
    /// deployed).
    pub fn add_to_cache(&mut self, cid: &ModuleCid, info: ModuleInfo, bytes: Vec<u8>)
        requires
            old(self).wf(),
        ensures
            final(self).wf(),
            final(self).spec_current_bytes() <= final(self).spec_max_bytes() || final(self).spec_bytes().len() == 0,
            final(self).spec_max_bytes() == old(self).spec_max_bytes(),
            final(self).spec_cache_dir() == old(self).spec_cache_dir(),
            final(self).spec_capacities() == old(self).spec_capacities(),
            cache_put(*old(self), *final(self), cid.0@, info_view(info), bytes@),
    {
        self.insert_into_cache(ModuleCid(lit(cid.0.as_str())), info, bytes);
    }

    /// Whether information on `cid` is cached (the order is left as it is).
    pub fn is_cached(&self, cid: &ModuleCid) -> (r: bool)
        ensures
            r == (key_pos(self.spec_infos(), cid.0@) >= 0),
    {
        self.info_cache.contains(cid)
    }

    /// Empties both caches and the count.
    pub fn clear_memory_cache(&mut self)
        requires
            old(self).wf(),
        ensures
            final(self).wf(),
            final(self).spec_infos().len() == 0,
            final(self).spec_bytes().len() == 0,
            final(self).spec_current_bytes() == 0,
            final(self).spec_max_bytes() == old(self).spec_max_bytes(),
            final(self).spec_cache_dir() == old(self).spec_cache_dir(),
            final(self).spec_capacities() == old(self).spec_capacities(),
    {
        self.info_cache.clear();
        self.bytes_cache.clear();
        self.current_bytes = 0;
    }

    /// How many entries each cache holds: information, then bytes.
    pub fn cache_stats(&self) -> (r: (usize, usize))
        ensures
            r.0 == self.spec_infos().len(),
            r.1 == self.spec_bytes().len(),
    {
        (self.info_cache.len(), self.bytes_cache.len())
    }

    /// Caches new information on a module (after it was written to disk).
    pub fn update_module_info(&mut self, cid: &ModuleCid, info: ModuleInfo)
        requires
            old(self).wf(),
        ensures
            final(self).wf(),
            final(self).spec_infos() == lru_put(old(self).spec_infos(), old(self).spec_capacities().0, cid.0@, info_view(info)),
            final(self).spec_bytes() == old(self).spec_bytes(),
            final(self).spec_current_bytes() == old(self).spec_current_bytes(),
            final(self).spec_max_bytes() == old(self).spec_max_bytes(),
            final(self).spec_capacities() == old(self).spec_capacities(),
    {
        self.info_cache.put(ModuleCid(lit(cid.0.as_str())), info);
    }
}

/// Information with a CID and size and nothing else.
fn bare_info(cid: &ModuleCid, size: usize) -> (r: ModuleInfo)
    ensures
        r.cid.0@ == cid.0@,
        r.name is None,
        r.version is None,
        r.size == size,
        r.dependencies@.len() == 0,
        r.author is None,
        r.description is None,
{
    ModuleInfo {
        cid: ModuleCid(lit(cid.0.as_str())),
        name: None,
        version: None,
        size,
        dependencies: Vec::new(),
        author: None,
        description: None,
    }
}

proof fn lemma_key_pos<V>(e: Seq<(Seq<char>, V)>, k: Seq<char>)
    ensures
        -1 <= key_pos(e, k) < e.len(),
        key_pos(e, k) >= 0 ==> e[key_pos(e, k)].0 == k,
        key_pos(e, k) < 0 ==> !lru_keys(e).contains(k),
    decreases e.len(),
{
    if e.len() > 0 && e.last().0 != k {
        lemma_key_pos(e.drop_last(), k);
        if key_pos(e, k) < 0 && lru_keys(e).contains(k) {
            let j = choose|j: int| 0 <= j < lru_keys(e).len() && lru_keys(e)[j] == k;
            assert(j < e.len() - 1);
            assert(lru_keys(e.drop_last())[j] == k);
        }
    }
}

/// A cache entry just put is the most recent one and holds what was put,
/// and the entries stay well formed: a later `get` of the key finds the
/// value put.
pub proof fn lemma_cache_read_your_write<V>(e: Seq<(Seq<char>, V)>, cap: nat, k: Seq<char>, v: V)
    requires
        lru_wf(e, cap),
    ensures
        lru_wf(lru_put(e, cap, k, v), cap),
        key_pos(lru_put(e, cap, k, v), k) == lru_put(e, cap, k, v).len() - 1,
        lru_put(e, cap, k, v)[key_pos(lru_put(e, cap, k, v), k)].1 == v,
        lru_touch(lru_put(e, cap, k, v), k) == lru_put(e, cap, k, v),
{
    let p = lru_put(e, cap, k, v);
    let i = key_pos(e, k);
    lemma_key_pos(e, k);
    let ks = lru_keys(e);
    let base = if i >= 0 {
        e.remove(i)
    } else if e.len() >= cap {
        e.drop_first()
    } else {
        e
    };
    assert(p == base.push((k, v)));
    assert(!lru_keys(base).contains(k)) by {
        if lru_keys(base).contains(k) {
            let j = choose|j: int| 0 <= j < lru_keys(base).len() && lru_keys(base)[j] == k;
            if i >= 0 {
                if j < i {
                    assert(ks[j] == k && ks[i] == k);
                } else {
                    assert(ks[j + 1] == k && ks[i] == k);
                }
            } else if e.len() >= cap {
                assert(ks[j + 1] == k);
            } else {
                assert(ks[j] == k);
            }
        }
    }
    assert(lru_keys(base).no_duplicates()) by {
        assert forall|a: int, b: int| 0 <= a < b < lru_keys(base).len() implies lru_keys(base)[a]
            != lru_keys(base)[b] by {
            if i >= 0 {
                let a2 = if a < i { a } else { a + 1 };
                let b2 = if b < i { b } else { b + 1 };
                assert(lru_keys(base)[a] == ks[a2] && lru_keys(base)[b] == ks[b2]);
            } else if e.len() >= cap {
                assert(lru_keys(base)[a] == ks[a + 1] && lru_keys(base)[b] == ks[b + 1]);
            } else {
                assert(lru_keys(base)[a] == ks[a] && lru_keys(base)[b] == ks[b]);
            }
        }
    }
    assert(lru_keys(p) == lru_keys(base).push(k));
    assert(lru_keys(p).no_duplicates()) by {
        assert forall|a: int, b: int| 0 <= a < b < lru_keys(p).len() implies lru_keys(p)[a]
            != lru_keys(p)[b] by {
            if b == lru_keys(p).len() - 1 {
                assert(lru_keys(base)[a] == lru_keys(p)[a]);
            } else {
                assert(lru_keys(base)[a] == lru_keys(p)[a] && lru_keys(base)[b] == lru_keys(p)[b]);
            }
        }
    }
    assert(p.last().0 == k);
    assert(p.remove(p.len() - 1).push(p[p.len() - 1]) =~= p);
}

/// A module being loaded with its dependencies: its CID, information and
/// bytes, and how many of its dependencies were visited.
pub struct LoadFrame {
    pub cid: String,
    pub info: ModuleInfo,
    pub bytes: Vec<u8>,
    pub next_dependency: usize,
}

/// What a step of loading a module with its dependencies calls for.
#[derive(Debug)]
pub enum LoadStep {
    /// Step again.
    Continue,
    /// The module is not in memory: read it from disk and `supply` it.
    NeedDisk(ModuleCid),
    /// Every module, each after the dependencies it brought in.
    Done(Vec<(ModuleInfo, Vec<u8>)>),
}

/// Loading a module and, depth first, its dependencies: each module is
/// loaded once, and comes after the dependencies it was first to need.
pub struct DependencyLoad {
    pending: Option<String>,
    stack: Vec<LoadFrame>,
    loaded: Vec<String>,
    result: Vec<(ModuleInfo, Vec<u8>)>,
    result_cids: Vec<String>,
}

/// The CIDs of the frames.
pub open spec fn frame_cids(s: Seq<LoadFrame>) -> Seq<Seq<char>> {
    s.map_values(|f: LoadFrame| f.cid@)
}

/// Two lists share no element.
pub open spec fn disjoint(a: Seq<Seq<char>>, b: Seq<Seq<char>>) -> bool {
    forall|i: int, j: int| 0 <= i < a.len() && 0 <= j < b.len() ==> a[i] != b[j]
}

impl DependencyLoad {
    /// Every module loaded is on the stack or done, once.
    pub closed spec fn wf(&self) -> bool {
        &&& texts_of(self.result_cids@).no_duplicates()
        &&& frame_cids(self.stack@).no_duplicates()
        &&& disjoint(texts_of(self.result_cids@), frame_cids(self.stack@))
        &&& forall|c: Seq<char>| #[trigger] texts_of(self.result_cids@).contains(c) ==> texts_of(self.loaded@).contains(c)
        &&& forall|c: Seq<char>| #[trigger] frame_cids(self.stack@).contains(c) ==> texts_of(self.loaded@).contains(c)
        &&& self.result@.len() == self.result_cids@.len()
    }

    /// The CIDs of the modules done, in order.
    pub closed spec fn spec_done(&self) -> Seq<Seq<char>> {
        texts_of(self.result_cids@)
    }

    /// The CIDs of the modules being loaded, outermost first.
    pub closed spec fn spec_stack(&self) -> Seq<Seq<char>> {
        frame_cids(self.stack@)
    }

    /// The CIDs loaded so far.
    pub closed spec fn spec_loaded(&self) -> Seq<Seq<char>> {
        texts_of(self.loaded@)
    }

    /// The next dependency of the innermost module, if it has one left.
    pub closed spec fn spec_next_dependency(&self) -> Option<Seq<char>> {
        if self.stack@.len() == 0 {
            None
        } else {
            let top = self.stack@.last();
            if top.next_dependency < top.info.dependencies@.len() {
                Some(top.info.dependencies@[top.next_dependency as int].0@)
            } else {
                None
            }
        }
    }

    /// The CID to visit next, if any.
    pub closed spec fn spec_pending(&self) -> Option<Seq<char>> {
        match self.pending {
            Some(c) => Some(c@),
            None => None,
        }
    }

    /// Each module is loaded once: no CID is done twice, and none is both
    /// done and still being loaded.
    pub proof fn lemma_loaded_once(&self)
        requires
            self.wf(),
        ensures
            self.spec_done().no_duplicates(),
            self.spec_stack().no_duplicates(),
            disjoint(self.spec_done(), self.spec_stack()),
    {
    }

    /// Loading `root` and its dependencies, nothing done yet.
    pub fn new(root: &ModuleCid) -> (r: Self)
        ensures
            r.wf(),
            r.spec_pending() == Some(root.0@),
            r.spec_stack().len() == 0,
            r.spec_done().len() == 0,
            r.spec_loaded().len() == 0,
    {
        let r = DependencyLoad {
            pending: Some(lit(root.0.as_str())),
            stack: Vec::new(),
            loaded: Vec::new(),
            result: Vec::new(),
            result_cids: Vec::new(),
        };
        assert(texts_of(r.result_cids@) =~= Seq::<Seq<char>>::empty());
        assert(frame_cids(r.stack@) =~= Seq::<Seq<char>>::empty());
        assert(texts_of(r.loaded@) =~= Seq::<Seq<char>>::empty());
        r
    }

    fn push_frame(&mut self, cid: String, info: ModuleInfo, bytes: Vec<u8>)
        requires
            old(self).wf(),
            !old(self).spec_loaded().contains(cid@),
        ensures
            final(self).wf(),
            final(self).spec_loaded() == old(self).spec_loaded().push(cid@),
            final(self).spec_stack() == old(self).spec_stack().push(cid@),
            final(self).spec_done() == old(self).spec_done(),
            final(self).spec_pending() == old(self).spec_pending(),
    {
        let ghost s0 = self.spec_stack();
        let ghost l0 = self.spec_loaded();
        let ghost d0 = self.spec_done();
        self.loaded.push(lit(cid.as_str()));
        let ghost c = cid@;
        self.stack.push(LoadFrame { cid, info, bytes, next_dependency: 0 });
        proof {
            assert(self.spec_loaded() =~= l0.push(c));
            assert(self.spec_stack() =~= s0.push(c));
            assert(!s0.contains(c));
            assert(!d0.contains(c));
            assert forall|a: int, b: int| 0 <= a < b < s0.push(c).len() implies s0.push(c)[a] != s0.push(c)[b] by {
                if b == s0.len() {
                    assert(s0.contains(s0[a]));
                }
            }
            assert forall|x: Seq<char>| #[trigger] d0.contains(x) implies l0.push(c).contains(x) by {
                let i = choose|i: int| 0 <= i < l0.len() && l0[i] == x;
                assert(l0.push(c)[i] == x);
            }
            assert forall|x: Seq<char>| #[trigger] s0.push(c).contains(x) implies l0.push(c).contains(x) by {
                let i = choose|i: int| 0 <= i < s0.push(c).len() && s0.push(c)[i] == x;
                if i < s0.len() {
                    assert(s0.contains(x));
                    let k = choose|k: int| 0 <= k < l0.len() && l0[k] == x;
                    assert(l0.push(c)[k] == x);
                } else {
                    assert(l0.push(c)[l0.len() as int] == x);
                }
            }
            assert forall|a: int, b: int| 0 <= a < d0.len() && 0 <= b < s0.push(c).len() implies d0[a] != s0.push(c)[b] by {
                if b == s0.len() {
                    assert(d0.contains(d0[a]));
                }
            }
        }
    }

    /// Hands over the module read from disk for the pending CID (`None`
    /// when it could not be read): it is then loaded, or the load fails.
    pub fn supply(&mut self, found: Option<(ModuleInfo, Vec<u8>)>) -> (r: Option<String>)
        requires
            old(self).wf(),
        ensures
            final(self).wf(),
            final(self).spec_done() == old(self).spec_done(),
            match old(self).spec_pending() {
                None => r is None && final(self).spec_stack() == old(self).spec_stack() && final(self).spec_loaded()
                    == old(self).spec_loaded(),
                Some(c) => if old(self).spec_loaded().contains(c) {
                    r is None && final(self).spec_stack() == old(self).spec_stack() && final(self).spec_loaded() == old(self).spec_loaded()
                        && final(self).spec_pending() is None
                } else {
                    match found {
                        Some(_) => r is None && final(self).spec_stack() == old(self).spec_stack().push(c)
                            && final(self).spec_loaded() == old(self).spec_loaded().push(c) && final(self).spec_pending() is None,
                        None => (r matches Some(m) && m@ == "Module "@ + c + " not found in cache"@)
                            && final(self).spec_stack() == old(self).spec_stack() && final(self).spec_loaded() == old(self).spec_loaded(),
                    }
                },
            },
    {
        let pending = self.pending.take();
        match pending {
            None => None,
            Some(cid) => {
                if contains_text(&self.loaded, cid.as_str()) {
                    return None;
                }
                match found {
                    Some((info, bytes)) => {
                        self.push_frame(cid, info, bytes);
                        None
                    },
                    None => {
                        let mut m = lit("Module ");
                        m.append(cid.as_str());
                        m.append(" not found in cache");
                        Some(m)
                    },
                }
            },
        }
    }

    /// One step of the load: the pending CID is skipped when loaded, taken
    /// from memory when cached, or asked for from disk; with none pending,
    /// the innermost module's next dependency becomes pending, or, when it
    /// has none left, the module is done; with nothing left, the modules
    /// done are handed over.
    pub fn step(&mut self, loader: &mut ModuleLoader) -> (r: LoadStep)
        requires
            old(self).wf(),
            old(loader).wf(),
        ensures
            final(self).wf(),
            final(loader).wf(),
            match old(self).spec_pending() {
                Some(c) => if old(self).spec_loaded().contains(c) {
                    &&& r is Continue
                    &&& final(self).spec_pending() is None
                    &&& final(self).spec_stack() == old(self).spec_stack()
                    &&& final(self).spec_loaded() == old(self).spec_loaded()
                    &&& final(self).spec_done() == old(self).spec_done()
                } else if key_pos(old(loader).spec_infos(), c) >= 0 && key_pos(old(loader).spec_bytes(), c) >= 0 {
                    &&& r is Continue
                    &&& final(self).spec_pending() is None
                    &&& final(self).spec_stack() == old(self).spec_stack().push(c)
                    &&& final(self).spec_loaded() == old(self).spec_loaded().push(c)
                    &&& final(self).spec_done() == old(self).spec_done()
                } else {
                    &&& r matches LoadStep::NeedDisk(k) && k.0@ == c
                    &&& final(self).spec_pending() == Some(c)
                    &&& final(self).spec_stack() == old(self).spec_stack()
                    &&& final(self).spec_loaded() == old(self).spec_loaded()
                    &&& final(self).spec_done() == old(self).spec_done()
                },
                None => if old(self).spec_stack().len() == 0 {
                    &&& r matches LoadStep::Done(v) && v@.len() == old(self).spec_done().len()
                    &&& final(self).spec_done().len() == 0
                } else {
                    &&& r is Continue
                    &&& final(self).spec_loaded() == old(self).spec_loaded()
                    &&& match old(self).spec_next_dependency() {
                        Some(d) => {
                            &&& final(self).spec_pending() == Some(d)
                            &&& final(self).spec_stack() == old(self).spec_stack()
                            &&& final(self).spec_done() == old(self).spec_done()
                        },
                        None => {
                            &&& final(self).spec_pending() is None
                            &&& final(self).spec_stack() == old(self).spec_stack().drop_last()
                            &&& final(self).spec_done() == old(self).spec_done().push(old(self).spec_stack().last())
                        },
                    }
                },
            },
    {
        match self.pending.take() {
            Some(cid) => {
                if contains_text(&self.loaded, cid.as_str()) {
                    return LoadStep::Continue;
                }
                let key = ModuleCid(lit(cid.as_str()));
                match loader.get_cached(&key) {
                    Some((info, bytes)) => {
                        self.push_frame(cid, info, bytes);
                        LoadStep::Continue
                    },
                    None => {
                        let ask = ModuleCid(lit(cid.as_str()));
                        self.pending = Some(cid);
                        LoadStep::NeedDisk(ask)
                    },
                }
            },
            None => {
                let n = self.stack.len();
                if n == 0 {
                    let mut out: Vec<(ModuleInfo, Vec<u8>)> = Vec::new();
                    std::mem::swap(&mut out, &mut self.result);
                    let mut cids: Vec<String> = Vec::new();
                    std::mem::swap(&mut cids, &mut self.result_cids);
                    proof {
                        assert(texts_of(self.result_cids@) =~= Seq::<Seq<char>>::empty());
                    }
                    return LoadStep::Done(out);
                }
                let next = self.stack[n - 1].next_dependency;
                if next < self.stack[n - 1].info.dependencies.len() {
                    let dep = lit(self.stack[n - 1].info.dependencies[next].0.as_str());
                    let ghost s0 = self.stack@;
                    let mut frame = self.stack.pop().unwrap();
                    frame.next_dependency = next + 1;
                    self.stack.push(frame);
                    proof {
                        assert(frame_cids(self.stack@) =~= frame_cids(s0));
                    }
                    self.pending = Some(dep);
                    LoadStep::Continue
                } else {
                    let ghost s0 = frame_cids(self.stack@);
                    let ghost d0 = texts_of(self.result_cids@);
                    let frame = self.stack.pop().unwrap();
                    let ghost c = frame.cid@;
                    proof {
                        assert(frame_cids(self.stack@) =~= s0.drop_last());
                        assert(s0.last() == c);
                    }
                    self.result_cids.push(lit(frame.cid.as_str()));
                    self.result.push((frame.info, frame.bytes));
                    proof {
                        assert(texts_of(self.result_cids@) =~= d0.push(c));
                        assert(!d0.contains(c)) by {
                            if d0.contains(c) {
                                let i = choose|i: int| 0 <= i < d0.len() && d0[i] == c;
                                assert(d0[i] != s0[s0.len() - 1]);
                            }
                        }
                        assert forall|a: int, b: int| 0 <= a < b < d0.push(c).len() implies d0.push(c)[a] != d0.push(c)[b] by {
                            if b == d0.len() {
                                assert(d0.contains(d0[a]));
                            }
                        }
                        assert forall|a: int, b: int| 0 <= a < d0.push(c).len() && 0 <= b < s0.drop_last().len() implies d0.push(c)[a] != s0.drop_last()[b] by {
                            if a == d0.len() {
                                assert(s0[b] != s0[s0.len() - 1]);
                            } else {
                                assert(d0[a] != s0[b]);
                            }
                        }
                        assert forall|x: Seq<char>| #[trigger] d0.push(c).contains(x) implies texts_of(self.loaded@).contains(x) by {
                            let i = choose|i: int| 0 <= i < d0.push(c).len() && d0.push(c)[i] == x;
                            if i < d0.len() {
                                assert(d0.contains(x));
                            } else {
                                assert(s0.contains(x)) by {
                                    assert(s0[s0.len() - 1] == x);
                                }
                            }
                        }
                        assert forall|x: Seq<char>| #[trigger] s0.drop_last().contains(x) implies texts_of(self.loaded@).contains(x) by {
                            let i = choose|i: int| 0 <= i < s0.drop_last().len() && s0.drop_last()[i] == x;
                            assert(s0[i] == x);
                            assert(s0.contains(x));
                        }
                    }
                    LoadStep::Continue
                }
            },
        }
    }
}

} // verus!
