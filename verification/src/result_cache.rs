//! Bounded, time-boxed store of recent prediction results, and the
//! derivation of the cache key that identifies a request.
//!
//! A stored result is visible to readers only while its age is below the
//! configured time-to-live; an expired entry is treated as absent but is not
//! removed by a read. A `put` into a full store first evicts the entry whose
//! result carries the oldest generation timestamp (first such entry in
//! storage order on a tie) — eviction goes by when a result was generated,
//! not by when it was last read.
//!
//! The cache key is a pure function of the symbol, the horizon, and — when
//! the history holds at least ten points — the last ten values truncated to
//! whole units. Requests whose last ten points differ only in their
//! fractional parts therefore collide into the same entry; that is the
//! intended deduplication grain.

use vstd::prelude::*;
use vstd::pervasive::VecAdditionalExecFns;
use vstd::std_specs::hash::DefaultHasherAdditionalSpecFns;
use std::collections::hash_map::DefaultHasher;
use std::hash::Hasher;
use crate::PredictionResult;
use crate::PredictionResultView;
use crate::values::DataValue;

verus! {

/// Number of trailing history points that drive the cache key.
pub const KEY_SUFFIX_LEN: usize = 10;

/// Key under which a prediction result is cached: the request's symbol and
/// a code derived from the symbol, the horizon and the truncated tail of
/// the history.
#[derive(Debug)]
pub struct CacheKey {
    pub symbol: String,
    pub code: u64,
}

impl DeepView for CacheKey {
    type V = (Seq<char>, u64);

    open spec fn deep_view(&self) -> (Seq<char>, u64) {
        (self.symbol@, self.code)
    }
}

impl Clone for CacheKey {
    /// Cloning keeps the key's content.
    fn clone(&self) -> (r: Self)
        ensures
            r.deep_view() == self.deep_view(),
    {
        CacheKey { symbol: self.symbol.clone(), code: self.code }
    }
}

impl PartialEq for CacheKey {
    fn eq(&self, other: &CacheKey) -> (r: bool) {
        self.symbol == other.symbol && self.code == other.code
    }
}

impl vstd::std_specs::cmp::PartialEqSpecImpl for CacheKey {
    open spec fn obeys_eq_spec() -> bool {
        true
    }

    open spec fn eq_spec(&self, other: &CacheKey) -> bool {
        self.symbol@ == other.symbol@ && self.code == other.code
    }
}

/// Little-endian bytes of a 64-bit value.
pub open spec fn u64_le_bytes(x: u64) -> Seq<u8> {
    seq![
        (x % 256) as u8,
        ((x / 256) % 256) as u8,
        ((x / 65536) % 256) as u8,
        ((x / 16777216) % 256) as u8,
        ((x / 4294967296) % 256) as u8,
        ((x / 1099511627776) % 256) as u8,
        ((x / 281474976710656) % 256) as u8,
        ((x / 72057594037927936) % 256) as u8,
    ]
}

/// Little-endian bytes of a character's scalar value.
pub open spec fn char_le_bytes(c: char) -> Seq<u8> {
    seq![
        ((c as u32) % 256) as u8,
        (((c as u32) / 256) % 256) as u8,
        (((c as u32) / 65536) % 256) as u8,
        (((c as u32) / 16777216) % 256) as u8,
    ]
}

/// Byte encoding of a symbol, character by character.
pub open spec fn symbol_bytes(sym: Seq<char>) -> Seq<u8>
    decreases sym.len(),
{
    if sym.len() == 0 {
        Seq::empty()
    } else {
        symbol_bytes(sym.drop_last()) + char_le_bytes(sym.last())
    }
}

/// Byte encoding of a sequence of truncated values.
pub open spec fn values_bytes(vals: Seq<u64>) -> Seq<u8>
    decreases vals.len(),
{
    if vals.len() == 0 {
        Seq::empty()
    } else {
        values_bytes(vals.drop_last()) + u64_le_bytes(vals.last())
    }
}

/// The truncated tail of a history that drives the key: the last ten values
/// truncated to whole units when at least ten points exist, nothing
/// otherwise.
pub open spec fn spec_trunc_suffix(data: Seq<DataValue>) -> Seq<u64> {
    if data.len() >= KEY_SUFFIX_LEN {
        Seq::new(KEY_SUFFIX_LEN as nat, |k: int| data[data.len() - KEY_SUFFIX_LEN + k].spec_truncated())
    } else {
        Seq::empty()
    }
}

/// The byte message the key code is computed over.
pub open spec fn spec_key_message(sym: Seq<char>, horizon: u64, vals: Seq<u64>) -> Seq<u8> {
    symbol_bytes(sym) + u64_le_bytes(horizon) + values_bytes(vals)
}

/// The key code: the standard hasher's digest of the key message, written
/// in one piece.
pub open spec fn spec_key_code(sym: Seq<char>, horizon: u64, vals: Seq<u64>) -> u64 {
    DefaultHasher::spec_finish(seq![spec_key_message(sym, horizon, vals)])
}

/// The full key a request maps to.
pub open spec fn spec_cache_key(sym: Seq<char>, horizon: u64, data: Seq<DataValue>) -> (Seq<char>, u64) {
    (sym, spec_key_code(sym, horizon, spec_trunc_suffix(data)))
}

/// Append the little-endian bytes of `x`.
fn push_u64_le(out: &mut Vec<u8>, x: u64)
    ensures
        final(out)@ == old(out)@ + u64_le_bytes(x),
{
    out.push((x % 256) as u8);
    out.push(((x / 256) % 256) as u8);
    out.push(((x / 65536) % 256) as u8);
    out.push(((x / 16777216) % 256) as u8);
    out.push(((x / 4294967296) % 256) as u8);
    out.push(((x / 1099511627776) % 256) as u8);
    out.push(((x / 281474976710656) % 256) as u8);
    out.push(((x / 72057594037927936) % 256) as u8);
    proof {
        assert(out@ =~= old(out)@ + u64_le_bytes(x));
    }
}

/// Append the little-endian bytes of a character's scalar value.
fn push_char_le(out: &mut Vec<u8>, c: char)
    ensures
        final(out)@ == old(out)@ + char_le_bytes(c),
{
    let y = c as u32;
    out.push((y % 256) as u8);
    out.push(((y / 256) % 256) as u8);
    out.push(((y / 65536) % 256) as u8);
    out.push(((y / 16777216) % 256) as u8);
    proof {
        assert(out@ =~= old(out)@ + char_le_bytes(c));
    }
}

/// Derive the cache key for a request: a pure, deterministic function of
/// the symbol, the horizon, and the truncated last ten history values (the
/// whole history's length beyond that tail plays no part).
pub fn derive_cache_key(symbol: &str, horizon: usize, data: &Vec<DataValue>) -> (k: CacheKey)
    ensures
        k.deep_view() == spec_cache_key(symbol@, horizon as u64, data@),
{
    let mut msg: Vec<u8> = Vec::new();
    let sym_len = symbol.unicode_len();
    let mut i: usize = 0;
    while i < sym_len
        invariant
            sym_len == symbol@.len(),
            i <= sym_len,
            msg@ == symbol_bytes(symbol@.subrange(0, i as int)),
        decreases sym_len - i,
    {
        let c = symbol.get_char(i);
        push_char_le(&mut msg, c);
        proof {
            let sub1 = symbol@.subrange(0, i + 1);
            assert(sub1.drop_last() =~= symbol@.subrange(0, i as int));
            assert(sub1.last() == symbol@[i as int]);
        }
        i = i + 1;
    }
    proof {
        assert(symbol@.subrange(0, symbol@.len() as int) =~= symbol@);
    }
    push_u64_le(&mut msg, horizon as u64);
    let ghost tv = spec_trunc_suffix(data@);
    if data.len() >= KEY_SUFFIX_LEN {
        let start = data.len() - KEY_SUFFIX_LEN;
        let mut k: usize = 0;
        while k < KEY_SUFFIX_LEN
            invariant
                KEY_SUFFIX_LEN <= data@.len() <= usize::MAX,
                start == data@.len() - KEY_SUFFIX_LEN,
                tv == spec_trunc_suffix(data@),
                tv.len() == KEY_SUFFIX_LEN,
                k <= KEY_SUFFIX_LEN,
                msg@ == symbol_bytes(symbol@) + u64_le_bytes(horizon as u64)
                    + values_bytes(tv.subrange(0, k as int)),
            decreases KEY_SUFFIX_LEN - k,
        {
            proof {
                assert((start as int) + (k as int) < data@.len());
            }
            let v = data[start + k].truncated();
            proof {
                assert(tv[k as int] == data@[start + k].spec_truncated());
            }
            push_u64_le(&mut msg, v);
            proof {
                let sub1 = tv.subrange(0, k + 1);
                assert(sub1.drop_last() =~= tv.subrange(0, k as int));
                assert(sub1.last() == tv[k as int]);
                assert(msg@ =~= symbol_bytes(symbol@) + u64_le_bytes(horizon as u64)
                    + values_bytes(sub1));
            }
            k = k + 1;
        }
        proof {
            assert(tv.subrange(0, tv.len() as int) =~= tv);
        }
    } else {
        proof {
            assert(tv =~= Seq::<u64>::empty());
            assert(values_bytes(tv) =~= Seq::<u8>::empty());
        }
    }
    proof {
        assert(msg@ =~= spec_key_message(symbol@, horizon as u64, tv));
    }
    let mut hasher = DefaultHasher::new();
    hasher.write(msg.as_slice());
    let code = hasher.finish();
    proof {
        assert(hasher@ =~= seq![spec_key_message(symbol@, horizon as u64, tv)]);
    }
    CacheKey { symbol: symbol.to_owned(), code }
}

/// Two requests with the same symbol and horizon whose last ten history
/// values truncate to the same whole units map to the same key, whatever
/// the lengths of their full histories.
pub proof fn lemma_key_depends_on_truncated_suffix(
    sym: Seq<char>,
    horizon: u64,
    d1: Seq<DataValue>,
    d2: Seq<DataValue>,
)
    requires
        d1.len() >= KEY_SUFFIX_LEN,
        d2.len() >= KEY_SUFFIX_LEN,
        forall|k: int| 0 <= k < KEY_SUFFIX_LEN
            ==> #[trigger] d1[d1.len() - KEY_SUFFIX_LEN + k].spec_truncated()
                == d2[d2.len() - KEY_SUFFIX_LEN + k].spec_truncated(),
    ensures
        spec_cache_key(sym, horizon, d1) == spec_cache_key(sym, horizon, d2),
{
    assert(spec_trunc_suffix(d1) =~= spec_trunc_suffix(d2));
}

/// Whether some entry of `s` carries `key`.
pub open spec fn pc_has(s: Seq<((Seq<char>, u64), PredictionResultView)>, key: (Seq<char>, u64)) -> bool {
    exists|i: int| 0 <= i < s.len() && s[i].0 == key
}

/// Index of the entry carrying `key` (meaningful when [`pc_has`] holds;
/// unique under [`pc_distinct`]).
pub open spec fn pc_idx(s: Seq<((Seq<char>, u64), PredictionResultView)>, key: (Seq<char>, u64)) -> int {
    choose|i: int| 0 <= i < s.len() && s[i].0 == key
}

/// No two entries of `s` carry the same key.
pub open spec fn pc_distinct(s: Seq<((Seq<char>, u64), PredictionResultView)>) -> bool {
    forall|i: int, j: int| 0 <= i < j < s.len() ==> s[i].0 != s[j].0
}

/// `i` points at the entry whose result carries the globally oldest
/// generation timestamp, taking the first such entry in storage order on a
/// tie.
pub open spec fn oldest_stamp_first(s: Seq<((Seq<char>, u64), PredictionResultView)>, i: int) -> bool {
    &&& 0 <= i < s.len()
    &&& forall|j: int| 0 <= j < s.len() ==> s[i].1.timestamp <= s[j].1.timestamp
    &&& forall|j: int| 0 <= j < i ==> s[j].1.timestamp > s[i].1.timestamp
}

/// The index satisfying [`oldest_stamp_first`] (meaningful when one
/// exists, in which case it is unique).
pub open spec fn oldest_stamp_idx(s: Seq<((Seq<char>, u64), PredictionResultView)>) -> int {
    choose|i: int| oldest_stamp_first(s, i)
}

/// A stored result is fresh at `now` while its age is below the
/// time-to-live.
pub open spec fn pc_fresh(stamp: u64, ttl_seconds: u64, now: u64) -> bool {
    now < stamp + ttl_seconds * 1000
}

/// What a reader sees for `key` at `now`: the stored result if one is
/// present and fresh, nothing otherwise — an expired entry is invisible
/// even though it may still occupy its slot.
pub open spec fn pc_lookup(
    s: Seq<((Seq<char>, u64), PredictionResultView)>,
    key: (Seq<char>, u64),
    ttl_seconds: u64,
    now: u64,
) -> Option<PredictionResultView> {
    if pc_has(s, key) && pc_fresh(s[pc_idx(s, key)].1.timestamp, ttl_seconds, now) {
        Some(s[pc_idx(s, key)].1)
    } else {
        None
    }
}

/// Contents of the store after putting `(key, r)`: a full store first
/// loses the entry with the oldest generation timestamp; then an entry
/// already keyed `key` is replaced in place, or the new entry is appended.
pub open spec fn pc_after_put(
    s: Seq<((Seq<char>, u64), PredictionResultView)>,
    cap: nat,
    key: (Seq<char>, u64),
    r: PredictionResultView,
) -> Seq<((Seq<char>, u64), PredictionResultView)> {
    let s1 = if s.len() >= cap && s.len() > 0 {
        s.remove(oldest_stamp_idx(s))
    } else {
        s
    };
    if pc_has(s1, key) {
        s1.update(pc_idx(s1, key), (key, r))
    } else {
        s1.push((key, r))
    }
}

/// Removing an entry keeps keys distinct.
pub proof fn pc_distinct_after_remove(s: Seq<((Seq<char>, u64), PredictionResultView)>, v: int)
    requires
        pc_distinct(s),
        0 <= v < s.len(),
    ensures
        pc_distinct(s.remove(v)),
{
    let t = s.remove(v);
    assert forall|a: int, b: int| 0 <= a < b < t.len() implies t[a].0 != t[b].0 by {
        if a < v {
            assert(t[a] == s[a]);
        } else {
            assert(t[a] == s[a + 1]);
        }
        if b < v {
            assert(t[b] == s[b]);
        } else {
            assert(t[b] == s[b + 1]);
        }
    }
}

/// Some entry always attains the oldest generation timestamp.
pub proof fn lemma_oldest_stamp_exists(s: Seq<((Seq<char>, u64), PredictionResultView)>)
    requires
        s.len() > 0,
    ensures
        exists|i: int| oldest_stamp_first(s, i),
    decreases s.len(),
{
    if s.len() == 1 {
        assert(oldest_stamp_first(s, 0));
    } else {
        let sub = s.drop_last();
        lemma_oldest_stamp_exists(sub);
        let i = choose|i: int| oldest_stamp_first(sub, i);
        let last = s.len() - 1;
        if s[last].1.timestamp < sub[i].1.timestamp {
            assert(oldest_stamp_first(s, last)) by {
                assert(forall|j: int| 0 <= j < last ==> s[j] == sub[j]);
            }
        } else {
            assert(oldest_stamp_first(s, i)) by {
                assert(forall|j: int| 0 <= j < last ==> s[j] == sub[j]);
            }
        }
    }
}

/// At most one index satisfies [`oldest_stamp_first`].
pub proof fn lemma_oldest_stamp_unique(s: Seq<((Seq<char>, u64), PredictionResultView)>, i1: int, i2: int)
    requires
        oldest_stamp_first(s, i1),
        oldest_stamp_first(s, i2),
    ensures
        i1 == i2,
{
    if i1 < i2 {
        assert(s[i1].1.timestamp > s[i2].1.timestamp);
        assert(s[i2].1.timestamp <= s[i1].1.timestamp);
    } else if i2 < i1 {
        assert(s[i2].1.timestamp > s[i1].1.timestamp);
        assert(s[i1].1.timestamp <= s[i2].1.timestamp);
    }
}

/// Bounded, time-boxed store of recent prediction results.
pub struct PredictionCache {
    entries: Vec<(CacheKey, PredictionResult)>,
    max_entries: usize,
    ttl_seconds: u64,
}

impl View for PredictionCache {
    type V = Seq<((Seq<char>, u64), PredictionResultView)>;

    closed spec fn view(&self) -> Seq<((Seq<char>, u64), PredictionResultView)> {
        self.entries.deep_view()
    }
}

impl PredictionCache {
    /// Configured capacity, fixed at construction.
    pub closed spec fn capacity(&self) -> nat {
        self.max_entries as nat
    }

    /// Configured time-to-live, in seconds.
    pub closed spec fn ttl(&self) -> u64 {
        self.ttl_seconds
    }

    /// Well-formed store: keys are distinct, and the size respects the
    /// capacity (a capacity-zero store still momentarily holds the single
    /// entry of the latest put).
    pub open spec fn wf(&self) -> bool {
        &&& pc_distinct(self@)
        &&& self@.len() <= self.capacity() || self@.len() <= 1
    }

    /// Create an empty store with the given capacity and time-to-live.
    pub fn new(max_entries: usize, ttl_seconds: u64) -> (r: Self)
        ensures
            r.wf(),
            r@.len() == 0,
            r.capacity() == max_entries,
            r.ttl() == ttl_seconds,
    {
        PredictionCache { entries: Vec::new(), max_entries, ttl_seconds }
    }

    /// Index of the entry keyed by `key`, if any.
    fn index_of(&self, key: &CacheKey) -> (r: Option<usize>)
        ensures
            match r {
                Some(i) => i < self@.len() && self@[i as int].0 == key.deep_view(),
                None => !pc_has(self@, key.deep_view()),
            },
    {
        let n = self.entries.len();
        let mut i: usize = 0;
        while i < n
            invariant
                n == self@.len(),
                i <= n,
                forall|k: int| 0 <= k < i ==> self@[k].0 != key.deep_view(),
            decreases n - i,
        {
            if self.entries[i].0 == *key {
                return Some(i);
            }
            i = i + 1;
        }
        None
    }

    /// What a reader sees for `key` at `now_ms`: a copy of the stored
    /// result if present and fresh, nothing otherwise. A read never mutates
    /// the store; in particular an expired entry is not removed.
    pub fn get(&self, key: &CacheKey, now_ms: u64) -> (r: Option<PredictionResult>)
        requires
            self.wf(),
        ensures
            r.deep_view() == pc_lookup(self@, key.deep_view(), self.ttl(), now_ms),
    {
        match self.index_of(key) {
            None => None,
            Some(i) => {
                proof {
                    let w = pc_idx(self@, key.deep_view());
                    assert(0 <= w < self@.len() && self@[w].0 == key.deep_view());
                    assert(w == i as int);
                }
                let stamp = self.entries[i].1.timestamp;
                if (now_ms as u128) < (stamp as u128) + (self.ttl_seconds as u128) * 1000 {
                    Some(self.entries[i].1.clone())
                } else {
                    None
                }
            },
        }
    }

    /// Store `(key, result)`. A full store silently evicts the entry whose
    /// result has the oldest generation timestamp first; an entry already
    /// keyed `key` is replaced in place.
    pub fn put(&mut self, key: CacheKey, result: PredictionResult)
        requires
            old(self).wf(),
        ensures
            final(self).wf(),
            final(self).capacity() == old(self).capacity(),
            final(self).ttl() == old(self).ttl(),
            final(self)@ == pc_after_put(old(self)@, old(self).capacity(), key.deep_view(), result.deep_view()),
    {
        let ghost s0 = self@;
        let ghost cap = self.capacity();
        let ghost kview = key.deep_view();
        let ghost rview = result.deep_view();
        if self.entries.len() >= self.max_entries && self.entries.len() > 0 {
            let victim = self.oldest_index();
            proof {
                lemma_oldest_stamp_unique(s0, victim as int, oldest_stamp_idx(s0));
            }
            self.entries.remove(victim);
            proof {
                assert(self.entries.deep_view() =~= s0.remove(oldest_stamp_idx(s0)));
            }
        }
        let ghost s1 = self@;
        proof {
            if s0.len() >= cap && s0.len() > 0 {
                pc_distinct_after_remove(s0, oldest_stamp_idx(s0));
            }
            assert(pc_distinct(s1));
        }
        match self.index_of(&key) {
            Some(i) => {
                proof {
                    assert(pc_has(s1, kview));
                    let w = pc_idx(s1, kview);
                    assert(0 <= w < s1.len() && s1[w].0 == kview);
                    assert(w == i as int);
                }
                self.entries.set(i, (key, result));
                proof {
                    assert(self.entries.deep_view() =~= s1.update(pc_idx(s1, kview), (kview, rview)));
                    pc_distinct_after_update(s1, pc_idx(s1, kview), kview, rview);
                }
            },
            None => {
                self.entries.push((key, result));
                proof {
                    assert(self.entries.deep_view() =~= s1.push((kview, rview)));
                    assert(forall|k: int| 0 <= k < s1.len() ==> s1[k].0 != kview);
                }
            },
        }
    }

    /// Index of the entry with the oldest generation timestamp (first on
    /// ties).
    fn oldest_index(&self) -> (r: usize)
        requires
            self@.len() > 0,
        ensures
            oldest_stamp_first(self@, r as int),
    {
        let n = self.entries.len();
        let mut best: usize = 0;
        let mut j: usize = 1;
        while j < n
            invariant
                n == self@.len(),
                0 < n,
                best < j <= n,
                forall|k: int| 0 <= k < j ==> self@[best as int].1.timestamp <= self@[k].1.timestamp,
                forall|k: int| 0 <= k < best ==> self@[k].1.timestamp > self@[best as int].1.timestamp,
            decreases n - j,
        {
            if self.entries[j].1.timestamp < self.entries[best].1.timestamp {
                best = j;
            }
            j = j + 1;
        }
        best
    }

    /// Drop every entry. Capacity and time-to-live are unchanged.
    pub fn clear(&mut self)
        ensures
            final(self).wf(),
            final(self)@.len() == 0,
            final(self).capacity() == old(self).capacity(),
            final(self).ttl() == old(self).ttl(),
    {
        self.entries.clear();
    }

    /// Number of occupied slots, expired entries included.
    pub fn size(&self) -> (r: usize)
        ensures
            r == self@.len(),
    {
        self.entries.len()
    }
}

/// Updating an entry in place with a key no other entry carries keeps keys
/// distinct.
proof fn pc_distinct_after_update(
    s: Seq<((Seq<char>, u64), PredictionResultView)>,
    i: int,
    key: (Seq<char>, u64),
    r: PredictionResultView,
)
    requires
        pc_distinct(s),
        0 <= i < s.len(),
        s[i].0 == key,
    ensures
        pc_distinct(s.update(i, (key, r))),
{
}

/// After any put the store holds at most `cap` entries, and the entry a
/// full store loses is the one whose result carries the globally oldest
/// generation timestamp at that moment (first in storage order on a tie).
pub proof fn lemma_put_respects_capacity(
    s: Seq<((Seq<char>, u64), PredictionResultView)>,
    cap: nat,
    key: (Seq<char>, u64),
    r: PredictionResultView,
)
    requires
        cap >= 1,
        s.len() <= cap,
    ensures
        pc_after_put(s, cap, key, r).len() <= cap,
        s.len() >= cap ==> oldest_stamp_first(s, oldest_stamp_idx(s)),
{
    if s.len() >= cap {
        lemma_oldest_stamp_exists(s);
        let i = choose|i: int| oldest_stamp_first(s, i);
        assert(oldest_stamp_first(s, oldest_stamp_idx(s)));
    }
}

/// A put followed at once by a get with the same key returns the stored
/// result while the time-to-live has not elapsed; once it has, the get
/// sees nothing — even though the entry may still physically occupy its
/// slot.
pub proof fn lemma_put_then_get(
    s: Seq<((Seq<char>, u64), PredictionResultView)>,
    cap: nat,
    ttl_seconds: u64,
    key: (Seq<char>, u64),
    r: PredictionResultView,
    now: u64,
)
    requires
        pc_distinct(s),
    ensures
        pc_has(pc_after_put(s, cap, key, r), key),
        pc_fresh(r.timestamp, ttl_seconds, now)
            ==> pc_lookup(pc_after_put(s, cap, key, r), key, ttl_seconds, now) == Some(r),
        !pc_fresh(r.timestamp, ttl_seconds, now)
            ==> pc_lookup(pc_after_put(s, cap, key, r), key, ttl_seconds, now) is None,
{
    let s1 = if s.len() >= cap && s.len() > 0 {
        s.remove(oldest_stamp_idx(s))
    } else {
        s
    };
    let t = pc_after_put(s, cap, key, r);
    if s.len() >= cap && s.len() > 0 {
        lemma_oldest_stamp_exists(s);
        pc_distinct_after_remove(s, oldest_stamp_idx(s));
    }
    if pc_has(s1, key) {
        let w = pc_idx(s1, key);
        assert(t == s1.update(w, (key, r)));
        assert(t[w] == (key, r));
        assert forall|j: int| 0 <= j < t.len() && j != w implies t[j].0 != key by {
            assert(t[j] == s1[j]);
        }
        let w2 = pc_idx(t, key);
        assert(0 <= w2 < t.len() && t[w2].0 == key);
        assert(w2 == w);
    } else {
        let last = t.len() - 1;
        assert(t[last] == (key, r));
        assert forall|j: int| 0 <= j < t.len() && j != last implies t[j].0 != key by {
            assert(t[j] == s1[j]);
        }
        let w2 = pc_idx(t, key);
        assert(0 <= w2 < t.len() && t[w2].0 == key);
        assert(w2 == last);
    }
}

} // verus!
