//! Block-scoped execution state.
//!
//! One block's worth of mapping invocations shares a [`BlockState`]: a
//! write-buffering entity cache layered over the committed store, and the
//! ordered list of dynamically requested data sources. Mutating store
//! operations additionally append to a causality-region-scoped
//! proof-of-indexing log, which is append-only and never rewritten.

use vstd::prelude::*;
use crate::value::{Entity, EntityKey, ValueView};

verus! {

broadcast use vstd::std_specs::vec::group_vec_axioms, vstd::seq::group_seq_axioms;

/// One append-only proof-of-indexing entry: a store mutation.
pub enum ProofOfIndexingEvent {
    /// An entity of `entity_type` with id `id` was written with `data`.
    SetEntity { entity_type: String, id: String, data: Entity },
    /// The entity of `entity_type` with id `id` was removed.
    RemoveEntity { entity_type: String, id: String },
}

/// The mathematical view of one proof-of-indexing entry.
pub enum PoiEventView {
    SetEntity(Seq<char>, Seq<char>, Map<Seq<char>, ValueView>),
    RemoveEntity(Seq<char>, Seq<char>),
}

/// The view of an event.
pub open spec fn poi_event_view(e: ProofOfIndexingEvent) -> PoiEventView {
    match e {
        ProofOfIndexingEvent::SetEntity { entity_type, id, data } => PoiEventView::SetEntity(
            entity_type@,
            id@,
            data.as_map(),
        ),
        ProofOfIndexingEvent::RemoveEntity { entity_type, id } => PoiEventView::RemoveEntity(
            entity_type@,
            id@,
        ),
    }
}

/// The per-block proof-of-indexing log: events tagged with the causality
/// region they belong to, appended in call order, never removed.
pub struct ProofOfIndexing {
    /// The entries, oldest first; the first component is the causality
    /// region (derived from the data source's network identifier).
    pub events: Vec<(String, ProofOfIndexingEvent)>,
}

impl ProofOfIndexing {
    /// An empty log for a fresh block.
    pub fn new() -> (r: ProofOfIndexing)
        ensures
            r.events@.len() == 0,
    {
        ProofOfIndexing { events: Vec::new() }
    }

    /// Appends one event under the given causality region; everything
    /// already logged is kept, in order.
    pub fn write(&mut self, causality_region: &String, event: ProofOfIndexingEvent)
        ensures
            final(self).events@.len() == old(self).events@.len() + 1,
            forall|j: int|
                0 <= j < old(self).events@.len() ==> final(self).events@[j] == old(
                    self,
                ).events@[j],
            final(self).events@.last().0@ == causality_region@,
            poi_event_view(final(self).events@.last().1) == poi_event_view(event),
    {
        self.events.push((causality_region.clone(), event));
    }
}

/// The view of a pending cache mutation: a new entity, or a tombstone.
pub open spec fn opt_entity_view(o: Option<Entity>) -> Option<Map<Seq<char>, ValueView>> {
    match o {
        Some(e) => Some(e.as_map()),
        None => None,
    }
}

/// The map a committed-store association sequence stands for; later
/// entries win.
pub open spec fn base_map(s: Seq<(EntityKey, Entity)>) -> Map<
    (Seq<char>, Seq<char>, Seq<char>),
    Map<Seq<char>, ValueView>,
>
    decreases s,
{
    if s.len() == 0 {
        Map::empty()
    } else {
        base_map(s.drop_last()).insert(s.last().0.view(), s.last().1.as_map())
    }
}

/// What the committed store answers for a key.
pub open spec fn base_lookup(s: Seq<(EntityKey, Entity)>, k: (Seq<char>, Seq<char>, Seq<char>)) -> Option<
    Map<Seq<char>, ValueView>,
> {
    if base_map(s).contains_key(k) {
        Some(base_map(s)[k])
    } else {
        None
    }
}

/// Applies the pending mutations for one key, oldest first, to what the
/// committed store answers: a tombstone erases, a written entity is laid
/// over what was visible before — its fields win, others are kept.
pub open spec fn apply_updates(
    s: Seq<(EntityKey, Option<Entity>)>,
    k: (Seq<char>, Seq<char>, Seq<char>),
    base: Option<Map<Seq<char>, ValueView>>,
) -> Option<Map<Seq<char>, ValueView>>
    decreases s,
{
    if s.len() == 0 {
        base
    } else {
        let prev = apply_updates(s.drop_last(), k, base);
        if s.last().0.view() == k {
            match s.last().1 {
                None => None,
                Some(e) => match prev {
                    None => Some(e.as_map()),
                    Some(m) => Some(m.union_prefer_right(e.as_map())),
                },
            }
        } else {
            prev
        }
    }
}

/// The write-buffering entity cache of one block: pending mutations
/// queried before falling back to the committed store.
pub struct EntityCache {
    /// A snapshot of what the committed store answers for this block.
    pub base: Vec<(EntityKey, Entity)>,
    /// The pending mutations of this block, oldest first.
    pub updates: Vec<(EntityKey, Option<Entity>)>,
}

impl EntityCache {
    /// Every entity held is well formed.
    pub open spec fn wf(self) -> bool {
        (forall|i: int| 0 <= i < self.base@.len() ==> (#[trigger] self.base@[i]).1.wf()) && (
        forall|i: int|
            0 <= i < self.updates@.len() ==> ((#[trigger] self.updates@[i]).1 matches Some(e)
                ==> e.wf()))
    }

    /// The merged view: the committed answer with every pending mutation
    /// for the key applied in order.
    pub open spec fn lookup(self, k: (Seq<char>, Seq<char>, Seq<char>)) -> Option<
        Map<Seq<char>, ValueView>,
    > {
        apply_updates(self.updates@, k, base_lookup(self.base@, k))
    }

    /// A cache over the given committed snapshot, with nothing pending.
    pub fn new(base: Vec<(EntityKey, Entity)>) -> (r: EntityCache)
        requires
            forall|i: int| 0 <= i < base@.len() ==> (#[trigger] base@[i]).1.wf(),
        ensures
            r.wf(),
            r.base@ == base@,
            r.updates@.len() == 0,
    {
        EntityCache { base, updates: Vec::new() }
    }

    /// Buffers a write: the fields of `e` overlay, for this key, whatever
    /// the block read before.
    pub fn set(&mut self, key: EntityKey, e: Entity)
        requires
            old(self).wf(),
            e.wf(),
        ensures
            final(self).wf(),
            final(self).base@ == old(self).base@,
            final(self).lookup(key.view()) == Some(
                match old(self).lookup(key.view()) {
                    None => e.as_map(),
                    Some(m) => m.union_prefer_right(e.as_map()),
                },
            ),
            forall|k: (Seq<char>, Seq<char>, Seq<char>)|
                k != key.view() ==> #[trigger] final(self).lookup(k) == old(self).lookup(k),
    {
        proof {
            let ghost u2 = self.updates@.push((key, Some(e)));
            assert(u2.drop_last() =~= self.updates@);
            assert(forall|k: (Seq<char>, Seq<char>, Seq<char>)|
                k != key.view() ==> #[trigger] apply_updates(u2, k, base_lookup(self.base@, k))
                    == apply_updates(self.updates@, k, base_lookup(self.base@, k)));
        }
        self.updates.push((key, Some(e)));
    }

    /// Buffers a removal: the key reads as absent for the rest of the
    /// block and tombstones the committed store at commit time.
    pub fn remove(&mut self, key: EntityKey)
        requires
            old(self).wf(),
        ensures
            final(self).wf(),
            final(self).base@ == old(self).base@,
            final(self).lookup(key.view()) is None,
            forall|k: (Seq<char>, Seq<char>, Seq<char>)|
                k != key.view() ==> #[trigger] final(self).lookup(k) == old(self).lookup(k),
    {
        proof {
            let ghost u2 = self.updates@.push((key, None));
            assert(u2.drop_last() =~= self.updates@);
            assert(forall|k: (Seq<char>, Seq<char>, Seq<char>)|
                k != key.view() ==> #[trigger] apply_updates(u2, k, base_lookup(self.base@, k))
                    == apply_updates(self.updates@, k, base_lookup(self.base@, k)));
        }
        self.updates.push((key, None));
    }

    /// The merged read: what the committed store answers, with every
    /// pending mutation of this block for the key applied in order.
    pub fn get(&self, key: &EntityKey) -> (r: Option<Entity>)
        requires
            self.wf(),
        ensures
            opt_entity_view(r) == self.lookup(key.view()),
            r matches Some(e) ==> e.wf(),
    {
        let m = self.base.len();
        let mut b: usize = m;
        let mut cur: Option<Entity> = None;
        let mut base_found = false;
        while b > 0 && !base_found
            invariant
                b <= m,
                m == self.base@.len(),
                self.wf(),
                !base_found ==> cur is None,
                !base_found ==> forall|j: int|
                    b as int <= j < m ==> (#[trigger] self.base@[j]).0.view() != key.view(),
                base_found ==> opt_entity_view(cur) == base_lookup(self.base@, key.view()),
                cur matches Some(e) ==> e.wf(),
            decreases b,
        {
            b = b - 1;
            if self.base[b].0.same_key(key) {
                proof {
                    lemma_base_map_index(self.base@, b as int);
                }
                cur = Some(self.base[b].1.duplicate());
                base_found = true;
            }
        }
        proof {
            if !base_found {
                assert(b == 0);
                lemma_base_map_keys(self.base@, key.view());
                assert(!base_map(self.base@).contains_key(key.view()));
                assert(base_lookup(self.base@, key.view()) is None);
            }
            assert(self.updates@.take(0).len() == 0);
            assert(apply_updates(
                self.updates@.take(0),
                key.view(),
                base_lookup(self.base@, key.view()),
            ) == base_lookup(self.base@, key.view()));
        }
        let n = self.updates.len();
        let mut i: usize = 0;
        while i < n
            invariant
                i <= n,
                n == self.updates@.len(),
                self.wf(),
                opt_entity_view(cur) == apply_updates(
                    self.updates@.take(i as int),
                    key.view(),
                    base_lookup(self.base@, key.view()),
                ),
                cur matches Some(e) ==> e.wf(),
            decreases n - i,
        {
            proof {
                assert(self.updates@.take(i as int + 1).drop_last() =~= self.updates@.take(
                    i as int,
                ));
                assert(self.updates@.take(i as int + 1).last() == self.updates@[i as int]);
            }
            if self.updates[i].0.same_key(key) {
                match &self.updates[i].1 {
                    None => {
                        cur = None;
                    },
                    Some(patch) => {
                        match cur {
                            None => {
                                cur = Some(patch.duplicate());
                            },
                            Some(prev) => {
                                cur = Some(crate::value::entity_merged(&prev, patch));
                            },
                        }
                    },
                }
            }
            i = i + 1;
        }
        proof {
            assert(self.updates@.take(n as int) =~= self.updates@);
        }
        cur
    }
}

/// Key membership of a committed-store sequence matches its map.
pub proof fn lemma_base_map_keys(s: Seq<(EntityKey, Entity)>, k: (Seq<char>, Seq<char>, Seq<char>))
    ensures
        base_map(s).contains_key(k) <==> exists|i: int| 0 <= i < s.len() && (#[trigger] s[i]).0.view()
            == k,
    decreases s.len(),
{
    if s.len() > 0 {
        lemma_base_map_keys(s.drop_last(), k);
        if s.last().0.view() == k {
            assert((s[s.len() - 1]).0.view() == k);
        } else {
            if exists|i: int| 0 <= i < s.len() - 1 && (#[trigger] s.drop_last()[i]).0.view() == k {
                let i = choose|i: int| 0 <= i < s.len() - 1 && (#[trigger] s.drop_last()[i]).0.view() == k;
                assert((s[i]).0.view() == k);
            }
            if exists|i: int| 0 <= i < s.len() && (#[trigger] s[i]).0.view() == k {
                let i = choose|i: int| 0 <= i < s.len() && (#[trigger] s[i]).0.view() == k;
                assert(i < s.len() - 1 ==> (s.drop_last()[i]).0.view() == k);
            }
        }
    }
}

/// The latest committed entry for a key decides the map.
pub proof fn lemma_base_map_index(s: Seq<(EntityKey, Entity)>, i: int)
    requires
        0 <= i < s.len(),
        forall|j: int| i < j < s.len() ==> (#[trigger] s[j]).0.view() != s[i].0.view(),
    ensures
        base_map(s).contains_key(s[i].0.view()),
        base_map(s)[s[i].0.view()] == s[i].1.as_map(),
    decreases s.len(),
{
    if i == s.len() - 1 {
    } else {
        assert(s.drop_last()[i] == s[i]);
        lemma_base_map_index(s.drop_last(), i);
    }
}

/// A blueprint reference from which new data sources are instantiated.
pub struct DataSourceTemplate {
    /// The template's name, unique within the parent data source.
    pub name: String,
}

/// One dynamically requested data source: produced only by the
/// data-source-creation operation, consumed once after the block by the
/// orchestrator that spawns new contexts.
pub struct DataSourceTemplateInfo {
    /// The template to instantiate.
    pub template: DataSourceTemplate,
    /// The instantiation parameters, in order.
    pub params: Vec<String>,
    /// An optional free-form context record.
    pub context: Option<Entity>,
    /// The number of the block during which creation was requested.
    pub creation_block: i32,
}

/// The per-block mutable context threaded through every host call.
pub struct BlockState {
    /// The write-buffering entity cache.
    pub entity_cache: EntityCache,
    /// The data sources requested during this block, in request order.
    pub created_data_sources: Vec<DataSourceTemplateInfo>,
}

impl BlockState {
    /// Every entity held is well formed.
    pub open spec fn wf(self) -> bool {
        self.entity_cache.wf()
    }

    /// A fresh state for one block, over the given committed snapshot.
    pub fn new(base: Vec<(EntityKey, Entity)>) -> (r: BlockState)
        requires
            forall|i: int| 0 <= i < base@.len() ==> (#[trigger] base@[i]).1.wf(),
        ensures
            r.wf(),
            r.entity_cache.base@ == base@,
            r.entity_cache.updates@.len() == 0,
            r.created_data_sources@.len() == 0,
    {
        BlockState { entity_cache: EntityCache::new(base), created_data_sources: Vec::new() }
    }

    /// Records that a data source must be created after this block.
    pub fn push_created_data_source(&mut self, info: DataSourceTemplateInfo)
        ensures
            final(self).entity_cache == old(self).entity_cache,
            final(self).created_data_sources@ == old(self).created_data_sources@.push(info),
    {
        self.created_data_sources.push(info);
    }
}

} // verus!
