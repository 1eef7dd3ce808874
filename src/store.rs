//! Byte sources and the ordered chain that tries them one after another.
use vstd::prelude::*;

pub mod fs;

verus! {

/// A container that yields the raw bytes of assets: a directory, an archive,
/// a content server.
pub trait Store {
    /// Error reported when an asset cannot be fetched.
    type Error;

    /// The kind name that `kind` returns. Implementations state it; nothing
    /// is known of it otherwise.
    closed spec fn kind_spec(&self) -> &'static str {
        arbitrary()
    }

    /// What the store, as it stands, answers for the asset `id`: its bytes,
    /// or the error it reports. Implementations state it; nothing is known
    /// of it otherwise.
    closed spec fn answer(&self, id: Seq<char>) -> Result<Seq<u8>, Self::Error> {
        arbitrary()
    }

    /// Human-readable name of this kind of store, for diagnostics.
    fn kind(&self) -> (r: &'static str)
        ensures
            r == self.kind_spec(),
    ;

    /// Fetches the raw bytes of the asset named `id`.
    fn fetch(&mut self, id: &str) -> (r: Result<Vec<u8>, Self::Error>)
        ensures
            match old(self).answer(id@) {
                Ok(bytes) => r matches Ok(data) && data@ == bytes,
                Err(e) => r matches Err(f) && f == e,
            },
    ;

    /// Releases whatever the last fetch left open, so that the store can be
    /// asked for another asset.
    fn close(&mut self);
}

/// A store handed on unchanged, for callers that want to read it
/// asynchronously; as a `Store` it does what the wrapped one does.
pub struct AsyncStoreWrapper<S> {
    store: S,
}

impl<S> AsyncStoreWrapper<S> {
    /// The wrapped store.
    pub closed spec fn inner(&self) -> S {
        self.store
    }

    /// Wraps `store`.
    pub fn new(store: S) -> (r: Self)
        ensures
            r.inner() == store,
    {
        AsyncStoreWrapper { store }
    }

    /// The wrapped store, borrowed for use.
    pub fn get_mut(&mut self) -> (r: &mut S)
        ensures
            *r == old(self).inner(),
            final(self).inner() == *final(r),
    {
        &mut self.store
    }
}

impl<S: Store> Store for AsyncStoreWrapper<S> {
    type Error = S::Error;

    open spec fn kind_spec(&self) -> &'static str {
        self.inner().kind_spec()
    }

    open spec fn answer(&self, id: Seq<char>) -> Result<Seq<u8>, S::Error> {
        self.inner().answer(id)
    }

    fn kind(&self) -> (r: &'static str) {
        self.store.kind()
    }

    fn fetch(&mut self, id: &str) -> (r: Result<Vec<u8>, S::Error>) {
        self.store.fetch(id)
    }

    fn close(&mut self) {
        self.store.close()
    }
}

/// One failed attempt of the chain: which store, of what kind, and why.
pub struct StoreFailure<E> {
    /// Position of the store in the chain, from 0.
    pub store: usize,
    /// Kind name of the store.
    pub kind: &'static str,
    /// What the store reported.
    pub error: E,
}

/// What a walk of the chain produced: the failures met on the way, in
/// chain order, and the bytes of the first store that succeeded.
pub struct Fetched<E> {
    pub failures: Vec<StoreFailure<E>>,
    pub found: Option<(usize, Vec<u8>)>,
}

/// `r` is what a walk of the chain `stores` for `id` yields when every
/// store answers as it stands: failure `j` is store `j`'s error with its
/// kind name, the walk stopped at the first store that had the bytes and
/// holds them, or every store failed.
pub open spec fn chain_result<S: Store>(stores: Seq<S>, id: Seq<char>, r: Fetched<S::Error>) -> bool {
    &&& r.failures@.len() <= stores.len()
    &&& forall|j: int|
        0 <= j < r.failures@.len() ==> {
            &&& #[trigger] r.failures@[j].store == j
            &&& r.failures@[j].kind == stores[j].kind_spec()
            &&& stores[j].answer(id) == Err::<Seq<u8>, S::Error>(r.failures@[j].error)
        }
    &&& match r.found {
        Some((i, data)) => {
            &&& i == r.failures@.len()
            &&& i < stores.len()
            &&& stores[i as int].answer(id) == Ok::<Seq<u8>, S::Error>(data@)
        },
        None => r.failures@.len() == stores.len(),
    }
}

/// Tries the stores in order and stops at the first that yields the bytes
/// of `id`; every store that was asked is closed again before the next one.
pub fn fetch_first<S: Store>(stores: &mut Vec<S>, id: &str) -> (r: Fetched<S::Error>)
    ensures
        final(stores)@.len() == old(stores)@.len(),
        chain_result(old(stores)@, id@, r),
        r.found matches Some((i, _)) ==> forall|j: int|
            i < j < old(stores)@.len() ==> #[trigger] final(stores)@[j] == old(stores)@[j],
{
    let mut failures: Vec<StoreFailure<S::Error>> = Vec::new();
    let n = stores.len();
    let mut i: usize = 0;
    while i < n
        invariant
            n == stores@.len(),
            n == old(stores)@.len(),
            i <= n,
            failures@.len() == i,
            forall|j: int| i <= j < n ==> #[trigger] stores@[j] == old(stores)@[j],
            forall|j: int|
                0 <= j < i ==> {
                    &&& #[trigger] failures@[j].store == j
                    &&& failures@[j].kind == old(stores)@[j].kind_spec()
                    &&& old(stores)@[j].answer(id@) == Err::<Seq<u8>, S::Error>(failures@[j].error)
                },
        decreases n - i,
    {
        let kind = stores[i].kind();
        let attempt = stores[i].fetch(id);
        stores[i].close();
        match attempt {
            Ok(data) => {
                return Fetched { failures, found: Some((i, data)) };
            },
            Err(error) => {
                failures.push(StoreFailure { store: i, kind, error });
            },
        }
        i = i + 1;
    }
    Fetched { failures, found: None }
}

} // verus!
