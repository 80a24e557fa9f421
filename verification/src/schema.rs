//! A cache of structural schemas, keyed by the identity of the described type.
//!
//! Generating the schema of a type is expensive and the result can take a
//! decent amount of memory, so a schema is generated the first time it is
//! asked for and shared by reference from then on.

use core::any::TypeId;
use schemars::schema::RootSchema;
use std::sync::Arc;
use vstd::prelude::*;

verus! {

/// `schemars::schema::RootSchema`, the root object of a JSON Schema document.
/// Nothing is known of what it holds: the cache only stores and shares it.
#[verifier::external_type_specification]
#[verifier::external_body]
pub struct ExRootSchema(RootSchema);

/// `core::any::TypeId`, the globally unique identifier of a type.
#[verifier::external_type_specification]
#[verifier::external_body]
pub struct ExTypeId(TypeId);

/// `TypeId::of`: the identifier of the type `T`. Nothing is claimed of it.
#[verifier::external_body]
fn type_identity_of<T: 'static>() -> (id: TypeId) {
    TypeId::of::<T>()
}

/// `PartialEq::eq` on `TypeId`: two identifiers compare equal exactly when
/// they are the same identifier.
#[verifier::external_body]
fn same_identity(a: &TypeId, b: &TypeId) -> (same: bool)
    ensures
        same == (*a == *b),
{
    a == b
}

/// `SchemaGenerator::into_root_schema_for`, on a generator with the default
/// settings: the root schema of the type `T`. Nothing is claimed of what the
/// schema holds. The call runs `T`'s own implementation of `JsonSchema`, and
/// returns where that does.
#[verifier::external_body]
fn generate_root_schema<T: schemars::JsonSchema>() -> (schema: RootSchema) {
    schemars::SchemaGenerator::default().into_root_schema_for::<T>()
}

/// `Arc::clone`: another pointer to the same allocation, so the value seen
/// through the new pointer is the value seen through the old one.
#[verifier::external_body]
fn share(schema: &Arc<RootSchema>) -> (shared: Arc<RootSchema>)
    ensures
        shared == *schema,
{
    Arc::clone(schema)
}

/// What the cache holds after a request for `id`, when `fresh` is what the
/// generator would produce: an identity already known keeps the cache as it
/// is, a new one is added with the fresh schema.
pub open spec fn cache_after(
    before: Map<TypeId, Arc<RootSchema>>,
    id: TypeId,
    fresh: Arc<RootSchema>,
) -> Map<TypeId, Arc<RootSchema>> {
    if before.contains_key(id) {
        before
    } else {
        before.insert(id, fresh)
    }
}

/// The schema handed to the caller of a request for `id`: the cached one
/// where there is one, else the fresh one.
pub open spec fn schema_served(
    before: Map<TypeId, Arc<RootSchema>>,
    id: TypeId,
    fresh: Arc<RootSchema>,
) -> Arc<RootSchema> {
    if before.contains_key(id) {
        before[id]
    } else {
        fresh
    }
}

/// A request for some type identity took the cache from `before` to `after`
/// and handed `schema` to its caller.
pub open spec fn served(
    before: Map<TypeId, Arc<RootSchema>>,
    after: Map<TypeId, Arc<RootSchema>>,
    schema: Arc<RootSchema>,
) -> bool {
    exists|id: TypeId|
        #![trigger before.contains_key(id)]
        after == cache_after(before, id, schema) && schema == schema_served(before, id, schema)
}

/// A store of shared schemas, at most one per type identity.
pub struct SchemaCache {
    entries: Vec<(TypeId, Arc<RootSchema>)>,
}

impl View for SchemaCache {
    type V = Map<TypeId, Arc<RootSchema>>;

    closed spec fn view(&self) -> Map<TypeId, Arc<RootSchema>> {
        Map::new(
            |id: TypeId| Self::holds(self.entries@, id),
            |id: TypeId| self.entries@[Self::slot(self.entries@, id)].1,
        )
    }
}

impl SchemaCache {
    spec fn holds(entries: Seq<(TypeId, Arc<RootSchema>)>, id: TypeId) -> bool {
        exists|i: int| 0 <= i < entries.len() && (#[trigger] entries[i]).0 == id
    }

    spec fn slot(entries: Seq<(TypeId, Arc<RootSchema>)>, id: TypeId) -> int {
        choose|i: int| 0 <= i < entries.len() && (#[trigger] entries[i]).0 == id
    }

    spec fn distinct(entries: Seq<(TypeId, Arc<RootSchema>)>) -> bool {
        forall|i: int, j: int|
            0 <= i < j < entries.len() ==> (#[trigger] entries[i]).0 != (#[trigger] entries[j]).0
    }

    #[verifier::type_invariant]
    spec fn distinct_identities(&self) -> bool {
        Self::distinct(self.entries@)
    }

    proof fn lemma_slot(entries: Seq<(TypeId, Arc<RootSchema>)>, i: int)
        requires
            Self::distinct(entries),
            0 <= i < entries.len(),
        ensures
            Self::holds(entries, entries[i].0),
            Self::slot(entries, entries[i].0) == i,
    {
        let j = Self::slot(entries, entries[i].0);
        assert(0 <= j < entries.len() && entries[j].0 == entries[i].0);
    }

    proof fn lemma_push(entries: Seq<(TypeId, Arc<RootSchema>)>, id: TypeId, schema: Arc<RootSchema>)
        requires
            Self::distinct(entries),
            !Self::holds(entries, id),
        ensures
            Self::distinct(entries.push((id, schema))),
            forall|k: TypeId|
                Self::holds(entries.push((id, schema)), k) <==> k == id || Self::holds(entries, k),
            forall|k: TypeId|
                Self::holds(entries, k) ==> entries.push((id, schema))[Self::slot(
                    entries.push((id, schema)),
                    k,
                )].1 == entries[Self::slot(entries, k)].1,
            entries.push((id, schema))[Self::slot(entries.push((id, schema)), id)].1 == schema,
    {
        let grown = entries.push((id, schema));
        assert forall|i: int, j: int| 0 <= i < j < grown.len() implies (#[trigger] grown[i]).0 != (
        #[trigger] grown[j]).0 by {
            if j < entries.len() {
                assert(grown[i] == entries[i] && grown[j] == entries[j]);
            } else {
                assert(grown[i] == entries[i]);
            }
        }
        assert forall|k: TypeId| Self::holds(grown, k) <==> k == id || Self::holds(entries, k) by {
            if Self::holds(grown, k) {
                let i = Self::slot(grown, k);
                if i < entries.len() {
                    assert(entries[i].0 == k);
                }
            }
            if Self::holds(entries, k) {
                let i = Self::slot(entries, k);
                assert(grown[i].0 == k);
            }
            if k == id {
                assert(grown[entries.len() as int].0 == k);
            }
        }
        assert forall|k: TypeId| Self::holds(entries, k) implies grown[Self::slot(grown, k)].1
            == entries[Self::slot(entries, k)].1 by {
            let i = Self::slot(entries, k);
            assert(grown[i] == entries[i]);
            Self::lemma_slot(grown, i);
        }
        Self::lemma_slot(grown, entries.len() as int);
    }

    /// A cache that holds no schema yet.
    pub fn new() -> (cache: Self)
        ensures
            cache@ == Map::<TypeId, Arc<RootSchema>>::empty(),
    {
        let cache = SchemaCache { entries: Vec::new() };
        assert(cache@ =~= Map::<TypeId, Arc<RootSchema>>::empty());
        cache
    }

    fn position(&self, id: &TypeId) -> (found: Option<usize>)
        ensures
            match found {
                Some(i) => i < self.entries@.len() && self.entries@[i as int].0 == *id,
                None => !Self::holds(self.entries@, *id),
            },
    {
        let mut i: usize = 0;
        while i < self.entries.len()
            invariant
                i <= self.entries@.len(),
                forall|k: int| 0 <= k < i ==> (#[trigger] self.entries@[k]).0 != *id,
            decreases self.entries@.len() - i,
        {
            if same_identity(&self.entries[i].0, id) {
                return Some(i);
            }
            i += 1;
        }
        None
    }

    proof fn lemma_domain(entries: Seq<(TypeId, Arc<RootSchema>)>)
        requires
            Self::distinct(entries),
        ensures
            Set::new(|id: TypeId| Self::holds(entries, id)).finite(),
            Set::new(|id: TypeId| Self::holds(entries, id)).len() == entries.len(),
    {
        let ids = entries.map_values(|e: (TypeId, Arc<RootSchema>)| e.0);
        assert(ids.no_duplicates());
        assert forall|id: TypeId| Self::holds(entries, id) <==> ids.contains(id) by {
            if Self::holds(entries, id) {
                assert(ids[Self::slot(entries, id)] == id);
            }
            if ids.contains(id) {
                let i = choose|i: int| 0 <= i < ids.len() && ids[i] == id;
                assert(entries[i].0 == id);
            }
        }
        assert(Set::new(|id: TypeId| Self::holds(entries, id)) =~= ids.to_set());
        ids.unique_seq_to_set();
        vstd::seq_lib::seq_to_set_is_finite(ids);
    }

    /// The number of type identities for which a schema is cached.
    pub fn len(&self) -> (n: usize)
        ensures
            self@.dom().finite(),
            n == self@.len(),
    {
        proof {
            use_type_invariant(self);
            Self::lemma_domain(self.entries@);
            assert(self@.dom() =~= Set::new(|id: TypeId| Self::holds(self.entries@, id)));
        }
        self.entries.len()
    }

    /// Whether a schema is cached for `id`.
    pub fn contains(&self, id: TypeId) -> (cached: bool)
        ensures
            cached == self@.contains_key(id),
    {
        self.position(&id).is_some()
    }

    /// The schema cached for `id`, if one was generated before.
    pub fn lookup(&self, id: TypeId) -> (found: Option<Arc<RootSchema>>)
        ensures
            found == if self@.contains_key(id) {
                Some(self@[id])
            } else {
                None
            },
    {
        proof {
            use_type_invariant(self);
        }
        match self.position(&id) {
            Some(i) => Some(share(&self.entries[i].1)),
            None => None,
        }
    }

    /// Looks `id` up and, only where nothing is cached for it, runs `generate`
    /// and stores what it returns. The caller gets a shared handle on the
    /// cached schema.
    ///
    /// `generate` has to be callable only where `id` is new to the cache: for
    /// an identity that is cached already it is never run.
    pub fn get_or_insert_with<F: FnOnce() -> Arc<RootSchema>>(
        &mut self,
        id: TypeId,
        generate: F,
    ) -> (schema: Arc<RootSchema>)
        requires
            !old(self)@.contains_key(id) ==> generate.requires(()),
        ensures
            final(self)@ == cache_after(old(self)@, id, schema),
            schema == schema_served(old(self)@, id, schema),
            !old(self)@.contains_key(id) ==> generate.ensures((), schema),
    {
        proof {
            use_type_invariant(&*self);
        }
        match self.position(&id) {
            Some(i) => share(&self.entries[i].1),
            None => {
                let fresh = generate();
                let shared = share(&fresh);
                let mut taken = SchemaCache::new();
                core::mem::swap(self, &mut taken);
                let mut entries = taken.entries;
                proof {
                    Self::lemma_push(entries@, id, fresh);
                }
                entries.push((id, fresh));
                *self = SchemaCache { entries };
                assert(self@ =~= old(self)@.insert(id, shared));
                shared
            },
        }
    }
}

/// A shared schema for the type `T`, from `cache`. The schema is generated
/// the first time `T` is asked for; later requests get the cached schema and
/// leave the cache as it is.
pub fn get_schema_for<T: schemars::JsonSchema + 'static + Sized>(cache: &mut SchemaCache) -> (schema:
    Arc<RootSchema>)
    ensures
        served(old(cache)@, final(cache)@, schema),
{
    let id = type_identity_of::<T>();
    let generate = || -> (fresh: Arc<RootSchema>) { Arc::new(generate_root_schema::<T>()) };
    let schema = cache.get_or_insert_with(id, generate);
    assert(served(old(cache)@, cache@, schema)) by {
        assert(old(cache)@.contains_key(id) || !old(cache)@.contains_key(id));
    }
    schema
}

/// The schema under which a pathway that takes a `T` is described to the
/// outside: a shared schema for `T` where the pathway is exposed (`web`),
/// none where it is not, in which case the cache is not touched.
pub fn web_api<T: schemars::JsonSchema + 'static + Sized>(cache: &mut SchemaCache, web: bool) -> (api:
    Option<Arc<RootSchema>>)
    ensures
        web ==> api is Some && served(old(cache)@, final(cache)@, api->0),
        !web ==> api is None && final(cache)@ == old(cache)@,
{
    if web {
        Some(get_schema_for::<T>(cache))
    } else {
        None
    }
}

/// The cache as the `k`-th of a run of requests for `id` finds it, counting
/// from zero, when the run starts on `cache` and `fresh[i]` is what the
/// generator would produce for the `i`-th request.
pub open spec fn cache_before_request(
    cache: Map<TypeId, Arc<RootSchema>>,
    id: TypeId,
    fresh: Seq<Arc<RootSchema>>,
    k: nat,
) -> Map<TypeId, Arc<RootSchema>>
    decreases k,
{
    if k == 0 {
        cache
    } else {
        cache_after(cache_before_request(cache, id, fresh, (k - 1) as nat), id, fresh[k - 1])
    }
}

/// However many requests for one type identity follow one another, the
/// generator runs at most once, for the first of them and only if the identity
/// was new to the cache: every later request finds the identity cached. All
/// of them are served the same schema, and no other identity's entry changes.
///
/// Requests that several threads make under one lock follow one another in
/// some order, so this is what each of them observes.
pub proof fn lemma_generated_at_most_once(
    cache: Map<TypeId, Arc<RootSchema>>,
    id: TypeId,
    fresh: Seq<Arc<RootSchema>>,
    k: nat,
)
    requires
        k < fresh.len(),
    ensures
        k > 0 ==> cache_before_request(cache, id, fresh, k).contains_key(id),
        schema_served(cache_before_request(cache, id, fresh, k), id, fresh[k as int])
            == schema_served(cache, id, fresh[0]),
        cache_before_request(cache, id, fresh, k).remove(id) == cache.remove(id),
    decreases k,
{
    if k > 0 {
        let earlier = cache_before_request(cache, id, fresh, (k - 1) as nat);
        lemma_generated_at_most_once(cache, id, fresh, (k - 1) as nat);
        assert(cache_after(earlier, id, fresh[k - 1]).remove(id) =~= earlier.remove(id));
    }
}

} // verus!
