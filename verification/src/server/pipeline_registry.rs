//! Bounded cache of model pipelines, the least recently used one leaving first.

use crate::inference::options::text_view;
use crate::paths::{path_view, same_path};
use vstd::prelude::*;

verus! {

/// What a path stands for.
pub type PathView = (bool, Seq<Seq<char>>);

/// The models of a pipeline, by what their paths stand for.
pub type KeyView = (Option<PathView>, Option<PathView>, Option<PathView>);

/// What an optional path stands for.
pub open spec fn optional_path(path: Option<String>) -> Option<PathView> {
    match path {
        Some(p) => Some(path_view(p@)),
        None => None,
    }
}

/// The models of a pipeline.
#[derive(Debug)]
pub struct PipelineKey {
    pub gpt: Option<String>,
    pub sovits: Option<String>,
    pub bigvgan: Option<String>,
}

/// A path, or the canonical form of it where there is one.
pub fn normalize_model_path(path: Option<String>, canonical: Option<String>) -> (r: Option<String>)
    ensures
        text_view(r) == match path {
            Some(p) => match canonical {
                Some(c) => Some(c@),
                None => Some(p@),
            },
            None => None,
        },
{
    match path {
        Some(p) => match canonical {
            Some(c) => Some(c),
            None => Some(p),
        },
        None => None,
    }
}

/// The path of a model: the voice's own, else the default one.
fn own_or_default(own: &Option<String>, default: &Option<String>) -> (r: Option<String>)
    ensures
        text_view(r) == match text_view(*own) {
            Some(s) => Some(s),
            None => text_view(*default),
        },
{
    match own {
        Some(s) => Some(s.clone()),
        None => match default {
            Some(s) => Some(s.clone()),
            None => None,
        },
    }
}

/// Whether two optional paths are the same.
fn same_optional(a: &Option<String>, b: &Option<String>) -> (r: bool)
    ensures
        r == (optional_path(*a) == optional_path(*b)),
{
    match (a, b) {
        (Some(x), Some(y)) => same_path(x.as_str(), y.as_str()),
        (None, None) => true,
        _ => false,
    }
}

impl View for PipelineKey {
    type V = KeyView;

    open spec fn view(&self) -> KeyView {
        (optional_path(self.gpt), optional_path(self.sovits), optional_path(self.bigvgan))
    }
}

impl PipelineKey {
    /// Whether two keys name the same models.
    pub fn same_as(&self, other: &PipelineKey) -> (r: bool)
        ensures
            r == (self@ == other@),
    {
        same_optional(&self.gpt, &other.gpt) && same_optional(&self.sovits, &other.sovits)
            && same_optional(&self.bigvgan, &other.bigvgan)
    }

    /// The key with each path in its canonical form, where it has one.
    pub fn normalized(self, canonical: PipelineKey) -> (r: Self)
        ensures
            text_view(r.gpt) == match self.gpt {
                Some(p) => Some(
                    match canonical.gpt {
                        Some(c) => c@,
                        None => p@,
                    },
                ),
                None => None,
            },
            text_view(r.sovits) == match self.sovits {
                Some(p) => Some(
                    match canonical.sovits {
                        Some(c) => c@,
                        None => p@,
                    },
                ),
                None => None,
            },
            text_view(r.bigvgan) == match self.bigvgan {
                Some(p) => Some(
                    match canonical.bigvgan {
                        Some(c) => c@,
                        None => p@,
                    },
                ),
                None => None,
            },
    {
        PipelineKey {
            gpt: normalize_model_path(self.gpt, canonical.gpt),
            sovits: normalize_model_path(self.sovits, canonical.sovits),
            bigvgan: normalize_model_path(self.bigvgan, canonical.bigvgan),
        }
    }

    /// The models of a voice, the defaults where it has none of its own.
    pub fn key_for(voice: &PipelineKey, defaults: &PipelineKey) -> (r: PipelineKey)
        ensures
            text_view(r.gpt) == match text_view(voice.gpt) {
                Some(s) => Some(s),
                None => text_view(defaults.gpt),
            },
            text_view(r.sovits) == match text_view(voice.sovits) {
                Some(s) => Some(s),
                None => text_view(defaults.sovits),
            },
            text_view(r.bigvgan) == match text_view(voice.bigvgan) {
                Some(s) => Some(s),
                None => text_view(defaults.bigvgan),
            },
    {
        PipelineKey {
            gpt: own_or_default(&voice.gpt, &defaults.gpt),
            sovits: own_or_default(&voice.sovits, &defaults.sovits),
            bigvgan: own_or_default(&voice.bigvgan, &defaults.bigvgan),
        }
    }
}

/// Keys and pipelines, the least recently used one first.
pub open spec fn entries_view<V>(entries: Seq<(PipelineKey, V)>) -> Seq<
    (KeyView, V),
> {
    entries.map_values(|e: (PipelineKey, V)| (e.0@, e.1))
}

/// The place of a key, or -1.
pub open spec fn place_of<V>(
    entries: Seq<(KeyView, V)>,
    key: KeyView,
) -> int
    decreases entries.len(),
{
    if entries.len() == 0 {
        -1
    } else if entries.last().0 == key {
        entries.len() - 1
    } else {
        place_of(entries.drop_last(), key)
    }
}

proof fn lemma_place<V>(
    entries: Seq<(KeyView, V)>,
    key: KeyView,
)
    ensures
        -1 <= place_of(entries, key) < entries.len(),
        place_of(entries, key) >= 0 ==> entries[place_of(entries, key)].0 == key,
        place_of(entries, key) < 0 ==> forall|i: int|
            0 <= i < entries.len() ==> (#[trigger] entries[i]).0 != key,
    decreases entries.len(),
{
    if entries.len() > 0 && entries.last().0 != key {
        lemma_place(entries.drop_last(), key);
        assert forall|i: int|
            0 <= i < entries.len() && place_of(entries, key) < 0 implies (#[trigger] entries[i]).0
            != key by {
            if i < entries.len() - 1 {
                assert(entries.drop_last()[i] == entries[i]);
            }
        }
    }
}

/// Whether no two entries have one key.
pub open spec fn distinct_keys<V>(
    entries: Seq<(KeyView, V)>,
) -> bool {
    forall|i: int, j: int|
        0 <= i < j < entries.len() ==> (#[trigger] entries[i]).0 != (#[trigger] entries[j]).0
}

/// The entries after the one of `key` was used: it comes last.
pub open spec fn used<V>(
    entries: Seq<(KeyView, V)>,
    key: KeyView,
) -> Seq<(KeyView, V)> {
    let i = place_of(entries, key);
    if i >= 0 {
        entries.remove(i).push(entries[i])
    } else {
        entries
    }
}

/// The entries after `value` was put in under `key`: it comes last.
pub open spec fn stored<V>(
    entries: Seq<(KeyView, V)>,
    key: KeyView,
    value: V,
) -> Seq<(KeyView, V)> {
    let i = place_of(entries, key);
    if i >= 0 {
        entries.remove(i).push((key, value))
    } else {
        entries.push((key, value))
    }
}

/// Whether the least recently used entry must leave before one comes in under `key`.
pub open spec fn must_evict<V>(
    entries: Seq<(KeyView, V)>,
    key: KeyView,
    capacity: nat,
) -> bool {
    place_of(entries, key) < 0 && entries.len() >= capacity
}

/// A bounded cache of pipelines.
pub struct PipelineCache<V> {
    entries: Vec<(PipelineKey, V)>,
    capacity: usize,
}

impl<V> PipelineCache<V> {
    /// Keys and pipelines, the least recently used one first.
    pub closed spec fn content(&self) -> Seq<
        (KeyView, V),
    > {
        entries_view(self.entries@)
    }

    /// How many pipelines the cache is to hold at most.
    pub closed spec fn bound(&self) -> nat {
        self.capacity as nat
    }

    /// Whether each key occurs once and there is room for at least one.
    pub open spec fn wf(&self) -> bool {
        distinct_keys(self.content()) && self.bound() >= 1
    }

    /// A cache with one pipeline and room for `capacity`, at least one.
    pub fn new(capacity: usize, key: PipelineKey, pipeline: V) -> (r: Self)
        ensures
            r.wf(),
            r.content() == seq![(key@, pipeline)],
            r.bound() == if capacity > 1 {
                capacity as nat
            } else {
                1
            },
    {
        let mut entries: Vec<(PipelineKey, V)> = Vec::new();
        entries.push((key, pipeline));
        assert(entries_view(entries@) =~= seq![(key@, pipeline)]);
        PipelineCache {
            entries,
            capacity: if capacity > 1 {
                capacity
            } else {
                1
            },
        }
    }

    /// The place of a key.
    fn find(&self, key: &PipelineKey) -> (r: Option<usize>)
        ensures
            match r {
                Some(i) => place_of(self.content(), key@) == i && i < self.entries@.len(),
                None => place_of(self.content(), key@) == -1,
            },
    {
        let ghost all = entries_view(self.entries@);
        let mut i: usize = self.entries.len();
        assert(all.take(i as int) =~= all);
        while i > 0
            invariant
                i <= self.entries@.len(),
                all == entries_view(self.entries@),
                place_of(all.take(i as int), key@) == place_of(all, key@),
            decreases i,
        {
            assert(all.take(i as int).drop_last() =~= all.take(i - 1));
            assert(all.take(i as int).last() == (self.entries@[i - 1].0@, self.entries@[i - 1].1));
            if self.entries[i - 1].0.same_as(key) {
                return Some(i - 1);
            }
            i = i - 1;
        }
        None
    }

    /// Whether the cache holds a pipeline for a key.
    pub fn contains_key(&self, key: &PipelineKey) -> (r: bool)
        ensures
            r == (place_of(self.content(), key@) >= 0),
    {
        self.find(key).is_some()
    }

    /// How many pipelines the cache holds.
    pub fn len(&self) -> (r: usize)
        ensures
            r == self.content().len(),
    {
        self.entries.len()
    }

    /// The pipeline of a key, which is then the most recently used one.
    pub fn get(&mut self, key: &PipelineKey) -> (r: Option<&V>)
        requires
            old(self).wf(),
        ensures
            final(self).wf(),
            final(self).bound() == old(self).bound(),
            final(self).content() == used(old(self).content(), key@),
            match r {
                Some(v) => {
                    let i = place_of(old(self).content(), key@);
                    i >= 0 && *v == old(self).content()[i].1
                },
                None => place_of(old(self).content(), key@) < 0,
            },
    {
        let ghost before = entries_view(self.entries@);
        proof {
            lemma_place(before, key@);
        }
        match self.find(key) {
            Some(i) => {
                let entry = self.entries.remove(i);
                self.entries.push(entry);
                proof {
                    assert(entries_view(self.entries@) =~= used(before, key@));
                    lemma_used_distinct(before, key@);
                }
                Some(&self.entries[self.entries.len() - 1].1)
            },
            None => None,
        }
    }

    /// Makes room for a pipeline under `key`: the least recently used one leaves where the
    /// cache is full and does not hold the key.
    pub fn evict_before_insert(&mut self, key: &PipelineKey) -> (r: Option<(PipelineKey, V)>)
        requires
            old(self).wf(),
        ensures
            final(self).wf(),
            final(self).bound() == old(self).bound(),
            match r {
                Some(e) => {
                    &&& must_evict(old(self).content(), key@, old(self).bound())
                    &&& (e.0@, e.1) == old(self).content()[0]
                    &&& final(self).content() == old(self).content().skip(1)
                },
                None => {
                    &&& !must_evict(old(self).content(), key@, old(self).bound())
                    &&& final(self).content() == old(self).content()
                },
            },
    {
        if self.contains_key(key) || self.entries.len() < self.capacity {
            return None;
        }
        let ghost before = entries_view(self.entries@);
        let entry = self.entries.remove(0);
        assert(entries_view(self.entries@) =~= before.skip(1));
        assert(before[0] == (entry.0@, entry.1));
        Some(entry)
    }

    /// Puts a pipeline in under a key, as the most recently used one.
    pub fn insert(&mut self, key: PipelineKey, pipeline: V)
        requires
            old(self).wf(),
        ensures
            final(self).wf(),
            final(self).bound() == old(self).bound(),
            final(self).content() == stored(old(self).content(), key@, pipeline),
    {
        let ghost before = entries_view(self.entries@);
        proof {
            lemma_place(before, key@);
            lemma_stored_distinct(before, key@, pipeline);
        }
        match self.find(&key) {
            Some(i) => {
                let entry = self.entries.remove(i);
                self.entries.push((key, pipeline));
            },
            None => {
                self.entries.push((key, pipeline));
            },
        }
        assert(entries_view(self.entries@) =~= stored(before, key@, pipeline));
    }
}

proof fn lemma_used_distinct<V>(
    entries: Seq<(KeyView, V)>,
    key: KeyView,
)
    requires
        distinct_keys(entries),
    ensures
        distinct_keys(used(entries, key)),
{
    lemma_place(entries, key);
    let k = place_of(entries, key);
    if k >= 0 {
        lemma_moved_distinct(entries, k, entries[k]);
    }
}

proof fn lemma_stored_distinct<V>(
    entries: Seq<(KeyView, V)>,
    key: KeyView,
    value: V,
)
    requires
        distinct_keys(entries),
    ensures
        distinct_keys(stored(entries, key, value)),
{
    lemma_place(entries, key);
    let k = place_of(entries, key);
    if k >= 0 {
        lemma_moved_distinct(entries, k, (key, value));
    }
}

proof fn lemma_moved_distinct<V>(
    entries: Seq<(KeyView, V)>,
    k: int,
    entry: (KeyView, V),
)
    requires
        distinct_keys(entries),
        0 <= k < entries.len(),
        entry.0 == entries[k].0,
    ensures
        distinct_keys(entries.remove(k).push(entry)),
{
    let moved = entries.remove(k).push(entry);
    assert forall|i: int, j: int| 0 <= i < j < moved.len() implies (#[trigger] moved[i]).0 != (
    #[trigger] moved[j]).0 by {
        let from = |x: int|
            if x == moved.len() - 1 {
                k
            } else if x < k {
                x
            } else {
                x + 1
            };
        assert(moved[i].0 == entries[from(i)].0);
        assert(moved[j].0 == entries[from(j)].0);
        assert(from(i) != from(j));
        if from(i) < from(j) {
            assert(entries[from(i)].0 != entries[from(j)].0);
        } else {
            assert(entries[from(j)].0 != entries[from(i)].0);
        }
    }
}

/// What was put in is found again, as the most recently used entry.
pub proof fn stored_is_found<V>(
    entries: Seq<(KeyView, V)>,
    key: KeyView,
    value: V,
)
    ensures
        ({
            let after = stored(entries, key, value);
            let i = place_of(after, key);
            i == after.len() - 1 && after[i] == (key, value)
        }),
{
    lemma_place(entries, key);
}

/// Making room and then putting a pipeline in keeps the cache within its bound.
pub proof fn cache_stays_bounded<V>(
    entries: Seq<(KeyView, V)>,
    key: KeyView,
    value: V,
    capacity: nat,
)
    requires
        distinct_keys(entries),
        entries.len() <= capacity,
        capacity >= 1,
    ensures
        ({
            let room = if must_evict(entries, key, capacity) {
                entries.skip(1)
            } else {
                entries
            };
            stored(room, key, value).len() <= capacity
        }),
{
    lemma_place(entries, key);
    let room = if must_evict(entries, key, capacity) {
        entries.skip(1)
    } else {
        entries
    };
    lemma_place(room, key);
}

/// Making room for a new pipeline removes the one that was not used for longest, and no other.
pub proof fn eviction_takes_the_oldest<V>(
    entries: Seq<(KeyView, V)>,
    other: KeyView,
)
    requires
        distinct_keys(entries),
        entries.len() > 0,
        place_of(entries, other) > 0,
    ensures
        place_of(entries.skip(1), other) >= 0,
{
    lemma_place(entries, other);
    lemma_place(entries.skip(1), other);
    let k = place_of(entries, other);
    assert(entries.skip(1)[k - 1] == entries[k]);
}

proof fn lemma_place_is<V>(entries: Seq<(KeyView, V)>, key: KeyView, i: int)
    requires
        distinct_keys(entries),
        0 <= i < entries.len(),
        entries[i].0 == key,
    ensures
        place_of(entries, key) == i,
{
    lemma_place(entries, key);
    let j = place_of(entries, key);
    if j < i && j >= 0 {
        assert(entries[j].0 != entries[i].0);
    } else if i < j {
        assert(entries[i].0 != entries[j].0);
    }
}

/// A pipeline that is put in or used changes nothing of the others: each is still found, with
/// its value, and of two others the one that was used less recently stays so.
pub proof fn other_pipelines_stay<V>(
    entries: Seq<(KeyView, V)>,
    key: KeyView,
    value: V,
    i: int,
    j: int,
)
    requires
        distinct_keys(entries),
        0 <= i < j < entries.len(),
        entries[i].0 != key,
        entries[j].0 != key,
    ensures
        ({
            let after = stored(entries, key, value);
            let (a, b) = (place_of(after, entries[i].0), place_of(after, entries[j].0));
            0 <= a < b < after.len() - 1 && after[a] == entries[i] && after[b] == entries[j]
        }),
        ({
            let after = used(entries, key);
            let (a, b) = (place_of(after, entries[i].0), place_of(after, entries[j].0));
            0 <= a < b < after.len() && after[a] == entries[i] && after[b] == entries[j]
        }),
{
    lemma_place(entries, key);
    lemma_used_distinct(entries, key);
    lemma_stored_distinct(entries, key, value);
    let k = place_of(entries, key);
    let a = if k >= 0 && k < i {
        i - 1
    } else {
        i
    };
    let b = if k >= 0 && k < j {
        j - 1
    } else {
        j
    };
    assert(k != i && k != j);
    lemma_place_is(used(entries, key), entries[i].0, a);
    lemma_place_is(used(entries, key), entries[j].0, b);
    lemma_place_is(stored(entries, key, value), entries[i].0, a);
    lemma_place_is(stored(entries, key, value), entries[j].0, b);
}

/// A pipeline that is used becomes the most recently used one and keeps its value; using one that
/// is not there changes nothing.
pub proof fn used_pipelines_come_last<V>(entries: Seq<(KeyView, V)>, key: KeyView, i: int)
    requires
        distinct_keys(entries),
        0 <= i < entries.len(),
    ensures
        used(entries, entries[i].0).last() == entries[i],
        used(entries, key).len() == entries.len(),
        (forall|m: int| 0 <= m < entries.len() ==> (#[trigger] entries[m]).0 != key) ==> used(
            entries,
            key,
        ) == entries,
{
    lemma_place_is(entries, entries[i].0, i);
    lemma_place(entries, key);
}

/// Room is made if and only if the cache is full and does not hold the key.
pub proof fn room_is_made_for_new_keys<V>(
    entries: Seq<(KeyView, V)>,
    key: KeyView,
    capacity: nat,
    i: int,
)
    ensures
        0 <= i < entries.len() && entries[i].0 == key ==> !must_evict(entries, key, capacity),
        entries.len() < capacity ==> !must_evict(entries, key, capacity),
        entries.len() >= capacity && (forall|m: int|
            0 <= m < entries.len() ==> (#[trigger] entries[m]).0 != key) ==> must_evict(
            entries,
            key,
            capacity,
        ),
{
    lemma_place(entries, key);
}

} // verus!
