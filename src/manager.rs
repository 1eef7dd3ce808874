//! The asset manager: cache lookup, then the store chain, then the loader,
//! then publication into the cache.
use crate::asset::{Asset, AssetLoader};
use crate::handle::Handle;
use crate::store::{fetch_first, Store, StoreFailure};
use vstd::prelude::*;

verus! {

/// Why a load failed.
pub enum LoadError<SE, DE> {
    /// Every store of the chain failed; one failure per store, in chain
    /// order.
    NotFound { kind: &'static str, id: String, failures: Vec<StoreFailure<SE>> },
    /// No loader for the asset type is registered.
    LoaderNotRegistered { kind: &'static str },
    /// A store yielded the bytes but the loader could not decode them.
    Decode { kind: &'static str, id: String, cause: DE },
}

/// Store `i` of `stores` is the first that holds the bytes of `id`.
pub open spec fn first_holder<S: Store>(stores: Seq<S>, id: Seq<char>, i: int) -> bool {
    &&& 0 <= i < stores.len()
    &&& stores[i].answer(id) is Ok
    &&& forall|j: int| 0 <= j < i ==> #[trigger] stores[j].answer(id) is Err
}

/// The stores after the first that holds `id` are left as they were:
/// the chain never asks them.
pub open spec fn untouched_after_holder<S: Store>(before: Seq<S>, after: Seq<S>, id: Seq<char>) -> bool {
    forall|k: int, j: int|
        #[trigger] first_holder(before, id, k) && k < j < before.len() ==> #[trigger] after[j] == before[j]
}

/// `failures` holds, in chain order, each store's error for `id` with its
/// position and kind name: one for every store of `stores`.
pub open spec fn reports_every_failure<S: Store>(
    stores: Seq<S>,
    id: Seq<char>,
    failures: Seq<StoreFailure<S::Error>>,
) -> bool {
    &&& failures.len() == stores.len()
    &&& forall|j: int|
        0 <= j < stores.len() ==> {
            &&& #[trigger] failures[j].store == j
            &&& failures[j].kind == stores[j].kind_spec()
            &&& stores[j].answer(id) == Err::<Seq<u8>, S::Error>(failures[j].error)
        }
}

/// `r` is what a load of `id` that missed the cache yields, with the chain
/// `stores` and the loader `loader` as they stand, decoding with `format`:
/// the value decoded from the bytes of the first store that holds them; or
/// a decoding error of those bytes; or, when every store failed, each
/// store's error with its position and kind name, in chain order.
pub open spec fn miss_result<S: Store, A: Asset, F>(
    stores: Seq<S>,
    loader: A::Loader,
    format: F,
    id: Seq<char>,
    r: Result<Handle<A>, LoadError<S::Error, <A::Loader as AssetLoader<A, F>>::Error>>,
) -> bool where A::Loader: AssetLoader<A, F> {
    match r {
        Ok(h) => exists|i: int|
            #[trigger] first_holder(stores, id, i) && loader.decodes(format, stores[i].answer(id)->Ok_0) == Ok::<
                A,
                <A::Loader as AssetLoader<A, F>>::Error,
            >(h@),
        Err(LoadError::NotFound { kind, id: i, failures }) => {
            &&& kind == A::kind_spec()
            &&& i@ == id
            &&& reports_every_failure(stores, id, failures@)
        },
        Err(LoadError::Decode { kind, id: i, cause }) => {
            &&& kind == A::kind_spec()
            &&& i@ == id
            &&& exists|k: int|
                #[trigger] first_holder(stores, id, k) && loader.decodes(format, stores[k].answer(id)->Ok_0) == Err::<
                    A,
                    <A::Loader as AssetLoader<A, F>>::Error,
                >(cause)
        },
        Err(LoadError::LoaderNotRegistered { .. }) => false,
    }
}

struct CacheEntry<A> {
    id: String,
    value: Handle<A>,
}

/// Caches assets of type `A` by identifier, fetching their bytes from an
/// ordered chain of stores of type `S` and decoding them with the loader
/// that `A` declares. An identifier, once loaded, keeps its value for the
/// life of the manager.
#[verifier::reject_recursive_types(A)]
pub struct Assets<S, A: Asset> {
    stores: Vec<S>,
    loader: Option<A::Loader>,
    cache: Vec<CacheEntry<A>>,
    model: Ghost<Map<Seq<char>, A>>,
}

impl<S: Store, A: Asset> Assets<S, A> {
    /// The cached assets, by identifier.
    pub closed spec fn cached(&self) -> Map<Seq<char>, A> {
        self.model@
    }

    /// The stores, in the order in which they are tried.
    pub closed spec fn stores(&self) -> Seq<S> {
        self.stores@
    }

    /// The registered loader, if any.
    pub closed spec fn loader(&self) -> Option<A::Loader> {
        self.loader
    }

    /// The cache holds each identifier once, and the map of cached assets
    /// is what it holds.
    pub closed spec fn wf(&self) -> bool {
        &&& forall|i: int, j: int|
            0 <= i < j < self.cache@.len() ==> #[trigger] self.cache@[i].id@ != #[trigger] self.cache@[j].id@
        &&& forall|i: int|
            0 <= i < self.cache@.len() ==> {
                &&& #[trigger] self.model@.contains_key(self.cache@[i].id@)
                &&& self.model@[self.cache@[i].id@] == self.cache@[i].value@
            }
        &&& forall|k: Seq<char>| #[trigger]
            self.model@.contains_key(k) ==> exists|i: int|
                0 <= i < self.cache@.len() && #[trigger] self.cache@[i].id@ == k
    }

    /// A manager with no store, no loader and an empty cache.
    pub fn new() -> (r: Self)
        ensures
            r.wf(),
            r.cached() == Map::<Seq<char>, A>::empty(),
            r.stores() == Seq::<S>::empty(),
            r.loader() is None,
    {
        Assets { stores: Vec::new(), loader: None, cache: Vec::new(), model: Ghost(Map::empty()) }
    }

    /// Appends a store to the end of the chain.
    pub fn add_store(&mut self, store: S)
        requires
            old(self).wf(),
        ensures
            final(self).wf(),
            final(self).stores() == old(self).stores().push(store),
            final(self).cached() == old(self).cached(),
            final(self).loader() == old(self).loader(),
    {
        self.stores.push(store);
        assert(self.cache@ == old(self).cache@ && self.model@ == old(self).model@);
        assert(self.wf());
    }

    /// Appends a store to the end of the chain.
    pub fn with_store(self, store: S) -> (r: Self)
        requires
            self.wf(),
        ensures
            r.wf(),
            r.stores() == self.stores().push(store),
            r.cached() == self.cached(),
            r.loader() == self.loader(),
    {
        let mut r = self;
        r.add_store(store);
        r
    }

    /// Registers the loader of `A`, replacing one registered before.
    pub fn add_loader(&mut self, loader: A::Loader)
        requires
            old(self).wf(),
        ensures
            final(self).wf(),
            final(self).loader() == Some(loader),
            final(self).stores() == old(self).stores(),
            final(self).cached() == old(self).cached(),
    {
        self.loader = Some(loader);
        assert(self.cache@ == old(self).cache@ && self.model@ == old(self).model@);
        assert(self.wf());
    }

    /// Registers the loader of `A`, replacing one registered before.
    pub fn with_loader(self, loader: A::Loader) -> (r: Self)
        requires
            self.wf(),
        ensures
            r.wf(),
            r.loader() == Some(loader),
            r.stores() == self.stores(),
            r.cached() == self.cached(),
    {
        let mut r = self;
        r.add_loader(loader);
        r
    }

    /// What a load of `id` through the registered loader, decoding with
    /// `format`, leaves behind, from the manager `self` to the manager
    /// `after`, with result `r`. A cached `id` is answered from the cache,
    /// and nothing else changes: no store and no loader is asked. On a miss
    /// with no loader registered the load fails at once. Otherwise the
    /// result is that of the stores and the loader as they stood; a success
    /// caches what it returns, a failure leaves the cache as it was.
    pub open spec fn load_outcome<F>(
        self,
        after: Self,
        id: Seq<char>,
        format: F,
        r: Result<Handle<A>, LoadError<S::Error, <A::Loader as AssetLoader<A, F>>::Error>>,
    ) -> bool where A::Loader: AssetLoader<A, F> {
        &&& after.wf()
        &&& after.loader() is Some <==> self.loader() is Some
        &&& after.stores().len() == self.stores().len()
        &&& self.cached().contains_key(id) ==> {
            &&& r matches Ok(h) && h@ == self.cached()[id]
            &&& after.cached() == self.cached()
            &&& after.stores() == self.stores()
            &&& after.loader() == self.loader()
        }
        &&& !self.cached().contains_key(id) && self.loader() is None ==> {
            &&& r matches Err(LoadError::LoaderNotRegistered { kind }) && kind == A::kind_spec()
            &&& after.cached() == self.cached()
            &&& after.stores() == self.stores()
        }
        &&& !self.cached().contains_key(id) && self.loader() is Some ==> {
            &&& miss_result(self.stores(), self.loader()->0, format, id, r)
            &&& untouched_after_holder(self.stores(), after.stores(), id)
            &&& match r {
                Ok(h) => after.cached() == self.cached().insert(id, h@),
                Err(_) => after.cached() == self.cached(),
            }
        }
    }

    /// Settles a load of `id` whose bytes were decoded into `decoded`: a
    /// value is published into the cache and returned, unless `id` is
    /// already cached, in which case the cached value stays the one canonical
    /// entry and is returned instead; a decoding error leaves the cache as
    /// it was.
    pub fn insert_decoded<DE>(&mut self, id: &str, decoded: Result<A, DE>) -> (r: Result<
        Handle<A>,
        LoadError<S::Error, DE>,
    >)
        requires
            old(self).wf(),
        ensures
            final(self).wf(),
            final(self).stores() == old(self).stores(),
            final(self).loader() == old(self).loader(),
            old(self).cached().contains_key(id@) ==> {
                &&& r matches Ok(h) && h@ == old(self).cached()[id@]
                &&& final(self).cached() == old(self).cached()
            },
            !old(self).cached().contains_key(id@) ==> match decoded {
                Ok(v) => {
                    &&& r matches Ok(h) && h@ == v
                    &&& final(self).cached() == old(self).cached().insert(id@, v)
                },
                Err(e) => {
                    &&& r matches Err(LoadError::Decode { kind, id: i, cause }) && kind == A::kind_spec() && i@
                        == id@ && cause == e
                    &&& final(self).cached() == old(self).cached()
                },
            },
    {
        match self.lookup(id) {
            Some(h) => Ok(h),
            None => match decoded {
                Ok(value) => Ok(self.insert(id, value)),
                Err(cause) => Err(LoadError::Decode { kind: A::kind(), id: id.to_owned(), cause }),
            },
        }
    }

    /// Loads `id` with a loader that the caller supplies instead of the
    /// registered one. A cached value is returned at once, without asking a
    /// store or the loader. Otherwise the stores are tried in order, the
    /// bytes of the first that has them are decoded, and the value is cached
    /// and returned. A failed load caches nothing, so it may be retried.
    pub fn load_with<F>(&mut self, id: &str, format: F, loader: &mut A::Loader) -> (r: Result<
        Handle<A>,
        LoadError<S::Error, <A::Loader as AssetLoader<A, F>>::Error>,
    >) where A::Loader: AssetLoader<A, F>
        requires
            old(self).wf(),
        ensures
            final(self).wf(),
            final(self).loader() == old(self).loader(),
            final(self).stores().len() == old(self).stores().len(),
            old(self).cached().contains_key(id@) ==> {
                &&& r matches Ok(h) && h@ == old(self).cached()[id@]
                &&& final(self).cached() == old(self).cached()
                &&& final(self).stores() == old(self).stores()
                &&& *final(loader) == *old(loader)
            },
            !old(self).cached().contains_key(id@) ==> {
                &&& miss_result(old(self).stores(), *old(loader), format, id@, r)
                &&& untouched_after_holder(old(self).stores(), final(self).stores(), id@)
                &&& match r {
                    Ok(h) => final(self).cached() == old(self).cached().insert(id@, h@),
                    Err(_) => final(self).cached() == old(self).cached(),
                }
            },
    {
        if let Some(h) = self.lookup(id) {
            return Ok(h);
        }
        let fetched = fetch_first(&mut self.stores, id);
        assert(self.cache@ == old(self).cache@ && self.model@ == old(self).model@);
        assert(self.wf());
        proof {
            if let Some((i, _)) = fetched.found {
                assert forall|j: int| 0 <= j < i implies #[trigger] old(self).stores@[j].answer(id@) is Err by {
                    assert(fetched.failures@[j].store == j);
                }
                lemma_first_holder_unique(old(self).stores@, id@, i as int);
            } else {
                assert forall|k: int| !#[trigger] first_holder(old(self).stores@, id@, k) by {
                    if 0 <= k < old(self).stores@.len() {
                        assert(fetched.failures@[k].store == k);
                    }
                }
            }
        }
        match fetched.found {
            None => Err(LoadError::NotFound { kind: A::kind(), id: id.to_owned(), failures: fetched.failures }),
            Some((i, data)) => {
                let decoded = loader.load(format, data.as_slice());
                assert(first_holder(old(self).stores@, id@, i as int));
                self.insert_decoded(id, decoded)
            },
        }
    }

    /// Loads `id` with the registered loader; otherwise as `load_with`. With
    /// no loader registered the load fails before any store is asked.
    pub fn load<F>(&mut self, id: &str, format: F) -> (r: Result<
        Handle<A>,
        LoadError<S::Error, <A::Loader as AssetLoader<A, F>>::Error>,
    >) where A::Loader: AssetLoader<A, F>
        requires
            old(self).wf(),
        ensures
            old(self).load_outcome(*final(self), id@, format, r),
    {
        if let Some(h) = self.lookup(id) {
            return Ok(h);
        }
        if self.loader.is_none() {
            return Err(LoadError::LoaderNotRegistered { kind: A::kind() });
        }
        let fetched = fetch_first(&mut self.stores, id);
        proof {
            if let Some((i, _)) = fetched.found {
                assert forall|j: int| 0 <= j < i implies #[trigger] old(self).stores@[j].answer(id@) is Err by {
                    assert(fetched.failures@[j].store == j);
                }
                lemma_first_holder_unique(old(self).stores@, id@, i as int);
            } else {
                assert forall|k: int| !#[trigger] first_holder(old(self).stores@, id@, k) by {
                    if 0 <= k < old(self).stores@.len() {
                        assert(fetched.failures@[k].store == k);
                    }
                }
            }
        }
        match fetched.found {
            None => Err(LoadError::NotFound { kind: A::kind(), id: id.to_owned(), failures: fetched.failures }),
            Some((i, data)) => {
                let decoded = match &mut self.loader {
                    Some(loader) => loader.load(format, data.as_slice()),
                    None => {
                        return Err(LoadError::LoaderNotRegistered { kind: A::kind() });
                    },
                };
                assert(self.cache@ == old(self).cache@ && self.model@ == old(self).model@);
                assert(self.wf());
                assert(first_holder(old(self).stores@, id@, i as int));
                self.insert_decoded(id, decoded)
            },
        }
    }

    /// The cached handle of `id`, if there is one.
    fn lookup(&self, id: &str) -> (r: Option<Handle<A>>)
        requires
            self.wf(),
        ensures
            match r {
                Some(h) => self.cached().contains_key(id@) && h@ == self.cached()[id@],
                None => !self.cached().contains_key(id@),
            },
    {
        let key = id.to_owned();
        let mut i: usize = 0;
        while i < self.cache.len()
            invariant
                self.wf(),
                key@ == id@,
                i <= self.cache@.len(),
                forall|j: int| 0 <= j < i ==> #[trigger] self.cache@[j].id@ != id@,
            decreases self.cache@.len() - i,
        {
            if self.cache[i].id == key {
                return Some(self.cache[i].value.clone());
            }
            i = i + 1;
        }
        None
    }

    /// Puts a freshly decoded value into the cache under `id`.
    fn insert(&mut self, id: &str, value: A) -> (r: Handle<A>)
        requires
            old(self).wf(),
            !old(self).cached().contains_key(id@),
        ensures
            final(self).wf(),
            r@ == value,
            final(self).cached() == old(self).cached().insert(id@, value),
            final(self).stores() == old(self).stores(),
            final(self).loader() == old(self).loader(),
    {
        let handle = Handle::new(value);
        let entry = CacheEntry { id: id.to_owned(), value: handle.clone() };
        self.cache.push(entry);
        self.model = Ghost(self.model@.insert(id@, value));
        proof {
            let n = self.cache@.len() - 1;
            assert forall|k: Seq<char>| #[trigger] self.model@.contains_key(k) implies exists|i: int|
                0 <= i < self.cache@.len() && #[trigger] self.cache@[i].id@ == k by {
                if k == id@ {
                    assert(self.cache@[n].id@ == k);
                } else {
                    assert(old(self).model@.contains_key(k));
                    let i = choose|i: int| 0 <= i < old(self).cache@.len() && #[trigger] old(self).cache@[i].id@ == k;
                    assert(self.cache@[i].id@ == k);
                }
            }
        }
        handle
    }
}

/// Once a load of `id` has succeeded, a second load of `id` returns the
/// same value, leaves the cache as it is, and asks no store and no loader.
pub proof fn law_cache_hit_is_idempotent<S: Store, A: Asset, F>(
    m0: Assets<S, A>,
    m1: Assets<S, A>,
    m2: Assets<S, A>,
    id: Seq<char>,
    f1: F,
    f2: F,
    r1: Result<Handle<A>, LoadError<S::Error, <A::Loader as AssetLoader<A, F>>::Error>>,
    r2: Result<Handle<A>, LoadError<S::Error, <A::Loader as AssetLoader<A, F>>::Error>>,
) where A::Loader: AssetLoader<A, F>
    requires
        m0.wf(),
        m0.load_outcome(m1, id, f1, r1),
        r1 is Ok,
        m1.load_outcome(m2, id, f2, r2),
    ensures
        r2 matches Ok(h) && h@ == r1->Ok_0@,
        m2.cached() == m1.cached(),
        m2.stores() == m1.stores(),
        m2.loader() == m1.loader(),
{
    assert(m1.cached().contains_key(id));
}

/// A failed load of an identifier that was not cached leaves the cache
/// exactly as it was, so the identifier is still absent and the next load of
/// it asks the stores afresh: with a loader registered, it returns what the
/// stores and the loader then give.
pub proof fn law_failure_caches_nothing<S: Store, A: Asset, F>(
    m0: Assets<S, A>,
    m1: Assets<S, A>,
    m2: Assets<S, A>,
    id: Seq<char>,
    f1: F,
    f2: F,
    r1: Result<Handle<A>, LoadError<S::Error, <A::Loader as AssetLoader<A, F>>::Error>>,
    r2: Result<Handle<A>, LoadError<S::Error, <A::Loader as AssetLoader<A, F>>::Error>>,
) where A::Loader: AssetLoader<A, F>
    requires
        m0.wf(),
        !m0.cached().contains_key(id),
        m0.load_outcome(m1, id, f1, r1),
        r1 is Err,
        m1.load_outcome(m2, id, f2, r2),
    ensures
        m1.cached() == m0.cached(),
        !m1.cached().contains_key(id),
        m1.loader() is Some ==> miss_result(m1.stores(), m1.loader()->0, f2, id, r2),
{
}

/// A load that misses the cache and then succeeds makes the identifier
/// cached with exactly the value returned; every other identifier keeps its
/// cached value.
pub proof fn law_success_publishes_once<S: Store, A: Asset, F>(
    m0: Assets<S, A>,
    m1: Assets<S, A>,
    id: Seq<char>,
    f: F,
    r: Result<Handle<A>, LoadError<S::Error, <A::Loader as AssetLoader<A, F>>::Error>>,
    other: Seq<char>,
) where A::Loader: AssetLoader<A, F>
    requires
        m0.wf(),
        m0.load_outcome(m1, id, f, r),
        r is Ok,
        other != id,
    ensures
        m1.cached().contains_key(id),
        m1.cached()[id] == r->Ok_0@,
        m1.cached().contains_key(other) == m0.cached().contains_key(other),
        m0.cached().contains_key(other) ==> m1.cached()[other] == m0.cached()[other],
{
}

/// When the stores before store `k` fail on `id`, store `k` has its bytes
/// and the loader decodes them to `v`, a load that misses the cache
/// returns `v`: the chain falls back past the failing stores.
pub proof fn law_falls_back_to_first_holder<S: Store, A: Asset, F>(
    m0: Assets<S, A>,
    m1: Assets<S, A>,
    id: Seq<char>,
    f: F,
    k: int,
    v: A,
    r: Result<Handle<A>, LoadError<S::Error, <A::Loader as AssetLoader<A, F>>::Error>>,
) where A::Loader: AssetLoader<A, F>
    requires
        m0.wf(),
        !m0.cached().contains_key(id),
        m0.loader() is Some,
        first_holder(m0.stores(), id, k),
        m0.loader()->0.decodes(f, m0.stores()[k].answer(id)->Ok_0) == Ok::<
            A,
            <A::Loader as AssetLoader<A, F>>::Error,
        >(v),
        m0.load_outcome(m1, id, f, r),
    ensures
        r matches Ok(h) && h@ == v,
        m1.cached() == m0.cached().insert(id, v),
{
    lemma_first_holder_unique(m0.stores(), id, k);
    if let Err(LoadError::NotFound { failures, .. }) = r {
        assert(failures@[k].store == k);
    }
}

/// When every store fails on `id`, a load that misses the cache with a
/// loader registered fails with `NotFound`, which holds each store's own
/// error and kind name, in chain order.
pub proof fn law_every_failure_is_reported<S: Store, A: Asset, F>(
    m0: Assets<S, A>,
    m1: Assets<S, A>,
    id: Seq<char>,
    f: F,
    r: Result<Handle<A>, LoadError<S::Error, <A::Loader as AssetLoader<A, F>>::Error>>,
) where A::Loader: AssetLoader<A, F>
    requires
        m0.wf(),
        !m0.cached().contains_key(id),
        m0.loader() is Some,
        forall|j: int| 0 <= j < m0.stores().len() ==> #[trigger] m0.stores()[j].answer(id) is Err,
        m0.load_outcome(m1, id, f, r),
    ensures
        r matches Err(LoadError::NotFound { kind, failures, .. }) && kind == A::kind_spec()
            && reports_every_failure(m0.stores(), id, failures@),
        m1.cached() == m0.cached(),
{
    assert(miss_result(m0.stores(), m0.loader()->0, f, id, r));
    if let Ok(h) = r {
        let i = choose|i: int| #[trigger] first_holder(m0.stores(), id, i) && m0.loader()->0.decodes(f, m0.stores()[i].answer(id)->Ok_0) == Ok::<
            A,
            <A::Loader as AssetLoader<A, F>>::Error,
        >(h@);
        assert(m0.stores()[i].answer(id) is Err);
    }
    if let Err(LoadError::Decode { cause, .. }) = r {
        let i = choose|i: int| #[trigger] first_holder(m0.stores(), id, i) && m0.loader()->0.decodes(f, m0.stores()[i].answer(id)->Ok_0) == Err::<
            A,
            <A::Loader as AssetLoader<A, F>>::Error,
        >(cause);
        assert(m0.stores()[i].answer(id) is Err);
    }
    assert(r is Err);
    assert(r->Err_0 is NotFound);
}

proof fn lemma_first_holder_unique<S: Store>(stores: Seq<S>, id: Seq<char>, k: int)
    requires
        first_holder(stores, id, k),
    ensures
        forall|i: int| #[trigger] first_holder(stores, id, i) ==> i == k,
{
    assert forall|i: int| #[trigger] first_holder(stores, id, i) implies i == k by {
        if i < k {
            assert(stores[i].answer(id) is Err);
        } else if i > k {
            assert(stores[k].answer(id) is Err);
        }
    }
}

} // verus!
