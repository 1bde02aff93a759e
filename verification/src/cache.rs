//! Bounded store of loaded model handles with least-recently-used eviction.
//!
//! The cache holds at most its configured capacity of entries. An insert
//! into a full cache first evicts the entry whose `last_accessed` stamp is
//! oldest (first such entry in storage order on a tie), silently. A lookup
//! hit bumps the entry's recency stamp and access counter without changing
//! the handle's content.

use vstd::prelude::*;
use vstd::pervasive::VecAdditionalExecFns;
use crate::values::{MetaValue, MetaValueView, clone_meta_vec, clone_string_vec, sat_inc, saturating_inc};

verus! {

/// View of [`ModelMetadata`] for use in specifications.
pub ghost struct ModelMetadataView {
    pub name: Seq<char>,
    pub model_type: Seq<char>,
    pub version: Seq<char>,
    pub created_at: u64,
    pub trained_on: Seq<char>,
    pub features: Seq<Seq<char>>,
    pub hyperparameters: Seq<(Seq<char>, MetaValueView)>,
}

/// Descriptive record attached to a loaded model.
#[derive(Debug)]
pub struct ModelMetadata {
    pub name: String,
    pub model_type: String,
    pub version: String,
    /// Creation time, in milliseconds since the epoch.
    pub created_at: u64,
    pub trained_on: String,
    pub features: Vec<String>,
    pub hyperparameters: Vec<(String, MetaValue)>,
}

impl DeepView for ModelMetadata {
    type V = ModelMetadataView;

    open spec fn deep_view(&self) -> ModelMetadataView {
        ModelMetadataView {
            name: self.name@,
            model_type: self.model_type@,
            version: self.version@,
            created_at: self.created_at,
            trained_on: self.trained_on@,
            features: self.features.deep_view(),
            hyperparameters: self.hyperparameters.deep_view(),
        }
    }
}

impl Clone for ModelMetadata {
    /// Cloning keeps the record's content.
    fn clone(&self) -> (r: Self)
        ensures
            r.deep_view() == self.deep_view(),
    {
        ModelMetadata {
            name: self.name.clone(),
            model_type: self.model_type.clone(),
            version: self.version.clone(),
            created_at: self.created_at,
            trained_on: self.trained_on.clone(),
            features: clone_string_vec(&self.features),
            hyperparameters: clone_meta_vec(&self.hyperparameters),
        }
    }
}

/// View of a [`CachedModel`] for use in specifications.
pub ghost struct CachedModelView {
    pub name: Seq<char>,
    pub model_data: Seq<u8>,
    pub metadata: ModelMetadataView,
    pub last_accessed: u64,
    pub access_count: u64,
}

/// A loaded model handle as held by the cache: the serialized artifact, its
/// metadata, and the recency bookkeeping the eviction policy reads.
#[derive(Debug)]
pub struct CachedModel {
    pub name: String,
    pub model_data: Vec<u8>,
    pub metadata: ModelMetadata,
    /// Time of the last lookup hit, in milliseconds.
    pub last_accessed: u64,
    pub access_count: u64,
}

impl DeepView for CachedModel {
    type V = CachedModelView;

    open spec fn deep_view(&self) -> CachedModelView {
        CachedModelView {
            name: self.name@,
            model_data: self.model_data@,
            metadata: self.metadata.deep_view(),
            last_accessed: self.last_accessed,
            access_count: self.access_count,
        }
    }
}

impl Clone for CachedModel {
    /// Cloning keeps the handle's content.
    fn clone(&self) -> (r: Self)
        ensures
            r.deep_view() == self.deep_view(),
    {
        let data = self.model_data.clone();
        proof {
            assert(data@ =~= self.model_data@);
        }
        CachedModel {
            name: self.name.clone(),
            model_data: data,
            metadata: self.metadata.clone(),
            last_accessed: self.last_accessed,
            access_count: self.access_count,
        }
    }
}

/// Whether some entry of `s` carries the key `name`.
pub open spec fn mc_has(s: Seq<(Seq<char>, CachedModelView)>, name: Seq<char>) -> bool {
    exists|i: int| 0 <= i < s.len() && s[i].0 == name
}

/// Index of the entry carrying `name` (meaningful when [`mc_has`] holds;
/// unique under [`mc_distinct`]).
pub open spec fn mc_idx(s: Seq<(Seq<char>, CachedModelView)>, name: Seq<char>) -> int {
    choose|i: int| 0 <= i < s.len() && s[i].0 == name
}

/// No two entries of `s` carry the same key.
pub open spec fn mc_distinct(s: Seq<(Seq<char>, CachedModelView)>) -> bool {
    forall|i: int, j: int| 0 <= i < j < s.len() ==> s[i].0 != s[j].0
}

/// `i` points at the entry with the globally oldest `last_accessed`, taking
/// the first such entry in storage order on a tie.
pub open spec fn oldest_access_first(s: Seq<(Seq<char>, CachedModelView)>, i: int) -> bool {
    &&& 0 <= i < s.len()
    &&& forall|j: int| 0 <= j < s.len() ==> s[i].1.last_accessed <= s[j].1.last_accessed
    &&& forall|j: int| 0 <= j < i ==> s[j].1.last_accessed > s[i].1.last_accessed
}

/// The index satisfying [`oldest_access_first`] (meaningful when one exists,
/// in which case it is unique).
pub open spec fn oldest_access_idx(s: Seq<(Seq<char>, CachedModelView)>) -> int {
    choose|i: int| oldest_access_first(s, i)
}

/// Contents of the cache after inserting `(name, m)`: a full cache first
/// loses its oldest-accessed entry; then an entry keyed `name` is replaced
/// in place, or the new entry is appended.
pub open spec fn mc_after_insert(
    s: Seq<(Seq<char>, CachedModelView)>,
    cap: nat,
    name: Seq<char>,
    m: CachedModelView,
) -> Seq<(Seq<char>, CachedModelView)> {
    let s1 = if s.len() >= cap && s.len() > 0 {
        s.remove(oldest_access_idx(s))
    } else {
        s
    };
    if mc_has(s1, name) {
        s1.update(mc_idx(s1, name), (name, m))
    } else {
        s1.push((name, m))
    }
}

/// Contents of the cache after a lookup hit on the entry at `i`: its recency
/// stamp becomes `now`, its access counter grows by one, and nothing else
/// changes.
pub open spec fn mc_touched(
    s: Seq<(Seq<char>, CachedModelView)>,
    i: int,
    now: u64,
) -> Seq<(Seq<char>, CachedModelView)> {
    s.update(i, (s[i].0, CachedModelView {
        last_accessed: now,
        access_count: saturating_inc(s[i].1.access_count),
        ..s[i].1
    }))
}

/// Some entry always attains the oldest access stamp.
pub proof fn lemma_oldest_access_exists(s: Seq<(Seq<char>, CachedModelView)>)
    requires
        s.len() > 0,
    ensures
        exists|i: int| oldest_access_first(s, i),
    decreases s.len(),
{
    if s.len() == 1 {
        assert(oldest_access_first(s, 0));
    } else {
        let sub = s.drop_last();
        lemma_oldest_access_exists(sub);
        let i = choose|i: int| oldest_access_first(sub, i);
        let last = s.len() - 1;
        if s[last].1.last_accessed < sub[i].1.last_accessed {
            assert(oldest_access_first(s, last)) by {
                assert(forall|j: int| 0 <= j < last ==> s[j] == sub[j]);
            }
        } else {
            assert(oldest_access_first(s, i)) by {
                assert(forall|j: int| 0 <= j < last ==> s[j] == sub[j]);
            }
        }
    }
}

/// Removing an entry keeps keys distinct.
pub proof fn mc_distinct_after_remove(s: Seq<(Seq<char>, CachedModelView)>, v: int)
    requires
        mc_distinct(s),
        0 <= v < s.len(),
    ensures
        mc_distinct(s.remove(v)),
{
    let t = s.remove(v);
    assert forall|a: int, b: int| 0 <= a < b < t.len() implies t[a].0 != t[b].0 by {
        if a < v {
            assert(t[a] == s[a]);
        } else {
            assert(t[a] == s[a + 1]);
        }
        if b < v {
            assert(t[b] == s[b]);
        } else {
            assert(t[b] == s[b + 1]);
        }
    }
}

/// At most one index satisfies [`oldest_access_first`].
pub proof fn lemma_oldest_access_unique(s: Seq<(Seq<char>, CachedModelView)>, i1: int, i2: int)
    requires
        oldest_access_first(s, i1),
        oldest_access_first(s, i2),
    ensures
        i1 == i2,
{
    if i1 < i2 {
        assert(s[i1].1.last_accessed > s[i2].1.last_accessed);
        assert(s[i2].1.last_accessed <= s[i1].1.last_accessed);
    } else if i2 < i1 {
        assert(s[i2].1.last_accessed > s[i1].1.last_accessed);
        assert(s[i1].1.last_accessed <= s[i2].1.last_accessed);
    }
}

/// Model cache: a bounded association of model names to loaded handles.
pub struct ModelCache {
    entries: Vec<(String, CachedModel)>,
    max_size: usize,
}

impl View for ModelCache {
    type V = Seq<(Seq<char>, CachedModelView)>;

    closed spec fn view(&self) -> Seq<(Seq<char>, CachedModelView)> {
        self.entries.deep_view()
    }
}

impl ModelCache {
    /// Configured capacity, fixed at construction.
    pub closed spec fn capacity(&self) -> nat {
        self.max_size as nat
    }

    /// Well-formed cache: keys are distinct, and the size respects the
    /// capacity (a capacity-zero cache still momentarily holds the single
    /// entry of the latest insert).
    pub open spec fn wf(&self) -> bool {
        &&& mc_distinct(self@)
        &&& self@.len() <= self.capacity() || self@.len() <= 1
    }

    /// Create an empty cache with the given capacity.
    pub fn new(max_size: usize) -> (r: Self)
        ensures
            r.wf(),
            r@.len() == 0,
            r.capacity() == max_size,
    {
        ModelCache { entries: Vec::new(), max_size }
    }

    /// Index of the entry keyed by `name`, if any.
    fn index_of(&self, name: &String) -> (r: Option<usize>)
        ensures
            match r {
                Some(i) => i < self@.len() && self@[i as int].0 == name@,
                None => !mc_has(self@, name@),
            },
    {
        let n = self.entries.len();
        let mut i: usize = 0;
        while i < n
            invariant
                n == self@.len(),
                i <= n,
                forall|k: int| 0 <= k < i ==> self@[k].0 != name@,
            decreases n - i,
        {
            if self.entries[i].0 == *name {
                return Some(i);
            }
            i = i + 1;
        }
        None
    }

    /// Index of the entry with the oldest access stamp (first on ties).
    fn oldest_index(&self) -> (r: usize)
        requires
            self@.len() > 0,
        ensures
            oldest_access_first(self@, r as int),
    {
        let n = self.entries.len();
        let mut best: usize = 0;
        let mut j: usize = 1;
        while j < n
            invariant
                n == self@.len(),
                0 < n,
                best < j <= n,
                forall|k: int| 0 <= k < j ==> self@[best as int].1.last_accessed <= self@[k].1.last_accessed,
                forall|k: int| 0 <= k < best ==> self@[k].1.last_accessed > self@[best as int].1.last_accessed,
            decreases n - j,
        {
            if self.entries[j].1.last_accessed < self.entries[best].1.last_accessed {
                best = j;
            }
            j = j + 1;
        }
        best
    }

    /// Insert a loaded model under `name`. A full cache silently evicts the
    /// entry with the oldest `last_accessed` stamp first; an entry already
    /// keyed `name` is replaced in place.
    pub fn insert(&mut self, name: String, model: CachedModel)
        requires
            old(self).wf(),
        ensures
            final(self).wf(),
            final(self).capacity() == old(self).capacity(),
            final(self)@ == mc_after_insert(old(self)@, old(self).capacity(), name@, model.deep_view()),
    {
        let ghost s0 = self@;
        let ghost cap = self.capacity();
        let ghost mview = model.deep_view();
        if self.entries.len() >= self.max_size && self.entries.len() > 0 {
            let victim = self.oldest_index();
            proof {
                lemma_oldest_access_unique(s0, victim as int, oldest_access_idx(s0));
            }
            self.entries.remove(victim);
            proof {
                assert(self.entries.deep_view() =~= s0.remove(oldest_access_idx(s0)));
            }
        }
        let ghost s1 = self@;
        proof {
            assert(s1 == if s0.len() >= cap && s0.len() > 0 {
                s0.remove(oldest_access_idx(s0))
            } else {
                s0
            });
        }
        match self.index_of(&name) {
            Some(i) => {
                proof {
                    assert(mc_has(s1, name@));
                    assert(mc_distinct(s0));
                    if s0.len() >= cap && s0.len() > 0 {
                        mc_distinct_after_remove(s0, oldest_access_idx(s0));
                    }
                    assert(mc_distinct(s1));
                    let w = mc_idx(s1, name@);
                    assert(0 <= w < s1.len() && s1[w].0 == name@);
                    assert(w == i as int);
                }
                self.entries.set(i, (name, model));
                proof {
                    assert(self.entries.deep_view() =~= s1.update(mc_idx(s1, name@), (name@, mview)));
                    assert(final(self).wf()) by {
                        mc_distinct_after_update(s1, mc_idx(s1, name@), name@, mview);
                    }
                }
            },
            None => {
                self.entries.push((name, model));
                proof {
                    assert(self.entries.deep_view() =~= s1.push((name@, mview)));
                    if s0.len() >= cap && s0.len() > 0 {
                        mc_distinct_after_remove(s0, oldest_access_idx(s0));
                    }
                    assert(mc_distinct(s1));
                    assert(forall|k: int| 0 <= k < s1.len() ==> s1[k].0 != name@);
                    assert(final(self).wf());
                }
            },
        }
    }

    /// Look up a model by name. On a hit the entry's recency stamp becomes
    /// `now_ms`, its access counter grows by one, and a copy of the touched
    /// handle is returned; its content is otherwise unchanged.
    pub fn get(&mut self, name: &str, now_ms: u64) -> (r: Option<CachedModel>)
        requires
            old(self).wf(),
        ensures
            final(self).wf(),
            final(self).capacity() == old(self).capacity(),
            match r {
                Some(m) => {
                    &&& mc_has(old(self)@, name@)
                    &&& final(self)@ == mc_touched(old(self)@, mc_idx(old(self)@, name@), now_ms)
                    &&& m.deep_view() == final(self)@[mc_idx(old(self)@, name@)].1
                },
                None => {
                    &&& !mc_has(old(self)@, name@)
                    &&& final(self)@ == old(self)@
                },
            },
    {
        let ghost s0 = self@;
        let key: String = name.to_owned();
        match self.index_of(&key) {
            None => None,
            Some(i) => {
                proof {
                    assert(mc_has(s0, name@));
                    let w = mc_idx(s0, name@);
                    assert(0 <= w < s0.len() && s0[w].0 == name@);
                    assert(w == i as int);
                }
                let mut updated = self.entries[i].1.clone();
                updated.last_accessed = now_ms;
                updated.access_count = sat_inc(updated.access_count);
                let stored_name = self.entries[i].0.clone();
                let out = updated.clone();
                proof {
                    assert(updated.deep_view() == CachedModelView {
                        last_accessed: now_ms,
                        access_count: saturating_inc(s0[i as int].1.access_count),
                        ..s0[i as int].1
                    });
                }
                self.entries.set(i, (stored_name, updated));
                proof {
                    assert(self.entries.deep_view() =~= mc_touched(s0, i as int, now_ms));
                    mc_distinct_after_update(s0, i as int, s0[i as int].0, final(self)@[i as int].1);
                    assert(final(self)@ == mc_touched(s0, mc_idx(s0, name@), now_ms));
                }
                Some(out)
            },
        }
    }

    /// Whether a model with this name is resident. Does not touch recency.
    pub fn contains(&self, name: &str) -> (r: bool)
        ensures
            r == mc_has(self@, name@),
    {
        let key: String = name.to_owned();
        match self.index_of(&key) {
            Some(_) => true,
            None => false,
        }
    }

    /// Remove the entry keyed `name`, returning its handle.
    pub fn remove(&mut self, name: &str) -> (r: Option<CachedModel>)
        requires
            old(self).wf(),
        ensures
            final(self).wf(),
            final(self).capacity() == old(self).capacity(),
            match r {
                Some(m) => {
                    &&& mc_has(old(self)@, name@)
                    &&& m.deep_view() == old(self)@[mc_idx(old(self)@, name@)].1
                    &&& final(self)@ == old(self)@.remove(mc_idx(old(self)@, name@))
                },
                None => {
                    &&& !mc_has(old(self)@, name@)
                    &&& final(self)@ == old(self)@
                },
            },
    {
        let ghost s0 = self@;
        let key: String = name.to_owned();
        match self.index_of(&key) {
            None => None,
            Some(i) => {
                proof {
                    let w = mc_idx(s0, name@);
                    assert(0 <= w < s0.len() && s0[w].0 == name@);
                    assert(w == i as int);
                }
                let entry = self.entries.remove(i);
                proof {
                    assert(self.entries.deep_view() =~= s0.remove(i as int));
                    mc_distinct_after_remove(s0, i as int);
                }
                Some(entry.1)
            },
        }
    }

    /// Drop every entry. The capacity is unchanged.
    pub fn clear(&mut self)
        ensures
            final(self).wf(),
            final(self)@.len() == 0,
            final(self).capacity() == old(self).capacity(),
    {
        self.entries.clear();
    }

    /// Number of resident models.
    pub fn size(&self) -> (r: usize)
        ensures
            r == self@.len(),
    {
        self.entries.len()
    }

    /// Configured capacity.
    pub fn max_size(&self) -> (r: usize)
        ensures
            r == self.capacity(),
    {
        self.max_size
    }

    /// Names of all resident models, in storage order.
    pub fn list_models(&self) -> (r: Vec<String>)
        ensures
            r.deep_view().len() == self@.len(),
            forall|k: int| 0 <= k < self@.len() ==> r.deep_view()[k] == self@[k].0,
    {
        let n = self.entries.len();
        let mut out: Vec<String> = Vec::new();
        let mut i: usize = 0;
        while i < n
            invariant
                n == self@.len(),
                i <= n,
                out.deep_view().len() == i,
                forall|k: int| 0 <= k < i ==> out.deep_view()[k] == self@[k].0,
            decreases n - i,
        {
            let ghost prev = out.deep_view();
            out.push(self.entries[i].0.clone());
            proof {
                assert(out.deep_view() =~= prev.push(self@[i as int].0));
            }
            i = i + 1;
        }
        out
    }

    /// Aggregate statistics over the resident entries. Sums saturate at the
    /// largest representable value instead of wrapping.
    pub fn stats(&self) -> (r: CacheStats)
        ensures
            r.total_models == self@.len(),
            r.total_memory_bytes == sat_usize(spec_mem_total(self@, self@.len() as int)),
            r.total_accesses == sat_u64(spec_access_total(self@, self@.len() as int)),
    {
        let n = self.entries.len();
        let mut mem: usize = 0;
        let mut acc: u64 = 0;
        let mut i: usize = 0;
        while i < n
            invariant
                n == self@.len(),
                i <= n,
                mem == sat_usize(spec_mem_total(self@, i as int)),
                acc == sat_u64(spec_access_total(self@, i as int)),
            decreases n - i,
        {
            proof {
                lemma_mem_total_nonneg(self@, i as int);
                lemma_access_total_nonneg(self@, i as int);
            }
            let sz = self.entries[i].1.model_data.len();
            if mem <= usize::MAX - sz {
                mem = mem + sz;
            } else {
                mem = usize::MAX;
            }
            let cnt = self.entries[i].1.access_count;
            if acc <= u64::MAX - cnt {
                acc = acc + cnt;
            } else {
                acc = u64::MAX;
            }
            i = i + 1;
        }
        CacheStats { total_models: n, total_memory_bytes: mem, total_accesses: acc }
    }
}

/// Mathematical total of the serialized sizes of the first `k` entries.
pub open spec fn spec_mem_total(s: Seq<(Seq<char>, CachedModelView)>, k: int) -> int
    decreases k,
{
    if k <= 0 {
        0
    } else {
        spec_mem_total(s, k - 1) + s[k - 1].1.model_data.len()
    }
}

/// Mathematical total of the access counters of the first `k` entries.
pub open spec fn spec_access_total(s: Seq<(Seq<char>, CachedModelView)>, k: int) -> int
    decreases k,
{
    if k <= 0 {
        0
    } else {
        spec_access_total(s, k - 1) + s[k - 1].1.access_count
    }
}

/// Saturation of a mathematical total at the largest `usize`.
pub open spec fn sat_usize(x: int) -> usize {
    if x <= usize::MAX {
        x as usize
    } else {
        usize::MAX
    }
}

/// Saturation of a mathematical total at the largest `u64`.
pub open spec fn sat_u64(x: int) -> u64 {
    if x <= u64::MAX {
        x as u64
    } else {
        u64::MAX
    }
}

proof fn lemma_mem_total_nonneg(s: Seq<(Seq<char>, CachedModelView)>, k: int)
    ensures
        spec_mem_total(s, k) >= 0,
    decreases k,
{
    if k > 0 {
        lemma_mem_total_nonneg(s, k - 1);
    }
}

proof fn lemma_access_total_nonneg(s: Seq<(Seq<char>, CachedModelView)>, k: int)
    ensures
        spec_access_total(s, k) >= 0,
    decreases k,
{
    if k > 0 {
        lemma_access_total_nonneg(s, k - 1);
    }
}

/// Updating an entry with a key that no other entry carries keeps keys
/// distinct.
proof fn mc_distinct_after_update(
    s: Seq<(Seq<char>, CachedModelView)>,
    i: int,
    name: Seq<char>,
    m: CachedModelView,
)
    requires
        mc_distinct(s),
        0 <= i < s.len(),
        forall|k: int| 0 <= k < s.len() && k != i ==> s[k].0 != name,
    ensures
        mc_distinct(s.update(i, (name, m))),
{
}

/// Aggregate statistics of the model cache.
#[derive(Clone, Copy, Debug, PartialEq, Eq, Structural)]
pub struct CacheStats {
    pub total_models: usize,
    pub total_memory_bytes: usize,
    pub total_accesses: u64,
}

impl CacheStats {
    /// Resident memory rounded down to whole mebibytes.
    pub fn memory_usage_mb(&self) -> (r: usize)
        ensures
            r == self.total_memory_bytes as int / 0x100000,
    {
        self.total_memory_bytes / (1024 * 1024)
    }
}

/// After any insert the cache holds at most `cap` entries, and the entry a
/// full cache loses is the one with the globally oldest access stamp at that
/// moment (first in storage order on a tie).
pub proof fn lemma_insert_respects_capacity(
    s: Seq<(Seq<char>, CachedModelView)>,
    cap: nat,
    name: Seq<char>,
    m: CachedModelView,
)
    requires
        cap >= 1,
        s.len() <= cap,
    ensures
        mc_after_insert(s, cap, name, m).len() <= cap,
        s.len() >= cap ==> oldest_access_first(s, oldest_access_idx(s)),
{
    if s.len() >= cap {
        lemma_oldest_access_exists(s);
        let i = choose|i: int| oldest_access_first(s, i);
        assert(oldest_access_first(s, oldest_access_idx(s)));
    }
}

/// A lookup hit strictly advances the entry's recency stamp (the clock having
/// moved), increments its access counter by exactly one, and leaves the
/// handle's name, artifact and metadata untouched; every other entry is
/// unchanged.
pub proof fn lemma_get_touches_exactly_one(
    s: Seq<(Seq<char>, CachedModelView)>,
    name: Seq<char>,
    now: u64,
)
    requires
        mc_distinct(s),
        mc_has(s, name),
        now > s[mc_idx(s, name)].1.last_accessed,
        s[mc_idx(s, name)].1.access_count < u64::MAX,
    ensures
        ({
            let i = mc_idx(s, name);
            let t = mc_touched(s, i, now);
            &&& t.len() == s.len()
            &&& t[i].1.last_accessed > s[i].1.last_accessed
            &&& t[i].1.access_count == s[i].1.access_count + 1
            &&& t[i].0 == s[i].0
            &&& t[i].1.name == s[i].1.name
            &&& t[i].1.model_data == s[i].1.model_data
            &&& t[i].1.metadata == s[i].1.metadata
            &&& forall|j: int| 0 <= j < s.len() && j != i ==> t[j] == s[j]
        }),
{
}

} // verus!
