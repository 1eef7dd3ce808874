//! A write-once, read-many cell: a `Slot` publishes one value, `Token`s
//! observe the cell before or after that, and a `Handle` is a shared view of
//! a value that is known to be present.
use std::sync::Arc;
use std::sync::OnceLock;
use vstd::prelude::*;

verus! {

#[verifier::external_type_specification]
#[verifier::external_body]
#[verifier::reject_recursive_types(T)]
pub struct ExOnceLock<T>(OnceLock<T>);

/// Relies on `OnceLock::new`: a fresh cell holds nothing.
pub assume_specification<T>[ OnceLock::<T>::new ]() -> OnceLock<T>;

/// Relies on `OnceLock::get`: whether the cell is filled depends on what
/// other holders of the cell have done, so nothing is promised.
pub assume_specification<T>[ OnceLock::<T>::get ](cell: &OnceLock<T>) -> Option<&T>;

/// Relies on `OnceLock::set`: a refused value is handed back unchanged.
pub assume_specification<T>[ OnceLock::<T>::set ](cell: &OnceLock<T>, value: T) -> (r: Result<(), T>)
    ensures
        r matches Err(v) ==> v == value,
;

/// Shared, read-only view of a value that has been published.
pub struct Handle<T> {
    inner: Arc<T>,
}

impl<T> View for Handle<T> {
    type V = T;

    closed spec fn view(&self) -> T {
        *self.inner
    }
}

impl<T> Handle<T> {
    /// Wraps a value that is already known.
    pub fn new(value: T) -> (r: Handle<T>)
        ensures
            r@ == value,
    {
        Handle { inner: Arc::new(value) }
    }

    /// The value behind the handle.
    pub fn get(&self) -> (r: &T)
        ensures
            *r == self@,
    {
        &*self.inner
    }
}

impl<T> Clone for Handle<T> {
    fn clone(&self) -> (r: Self)
        ensures
            r@ == self@,
    {
        Handle { inner: Arc::clone(&self.inner) }
    }
}

/// Relies on `Arc::ptr_eq`: two pointers to one allocation see one value.
#[verifier::external_body]
fn same_allocation<T>(a: &Arc<T>, b: &Arc<T>) -> (r: bool)
    ensures
        r ==> *a == *b,
{
    Arc::ptr_eq(a, b)
}

impl<T> Handle<T> {
    /// Whether both handles point to one shared instance, not merely to
    /// equal values.
    pub fn ptr_eq(a: &Handle<T>, b: &Handle<T>) -> (r: bool)
        ensures
            r ==> a@ == b@,
    {
        same_allocation(&a.inner, &b.inner)
    }
}

/// Sole write capability of a cell; consumed by the one publication.
#[verifier::reject_recursive_types(T)]
pub struct Slot<T> {
    cell: Arc<OnceLock<Arc<T>>>,
}

/// Observer of a cell that may or may not hold a value yet.
#[verifier::reject_recursive_types(T)]
pub struct Token<T> {
    cell: Arc<OnceLock<Arc<T>>>,
}

impl<T> Slot<T> {
    /// A new empty cell and its write capability.
    pub fn new() -> (r: Slot<T>) {
        Slot { cell: Arc::new(OnceLock::new()) }
    }

    /// Whether `token` observes the cell that this slot writes.
    pub closed spec fn observed_by(&self, token: &Token<T>) -> bool {
        self.cell == token.cell
    }

    /// A token that observes this slot's cell.
    pub fn token(&self) -> (r: Token<T>)
        ensures
            self.observed_by(&r),
    {
        Token { cell: Arc::clone(&self.cell) }
    }

    /// Publishes `value` into the cell and returns a handle to it. Taking
    /// `self` by value makes a second publication into one cell impossible.
    pub fn store(self, value: T) -> (r: Handle<T>)
        ensures
            r@ == value,
    {
        let shared = Arc::new(value);
        let _ = self.cell.set(Arc::clone(&shared));
        Handle { inner: shared }
    }
}

impl<T> Clone for Token<T> {
    fn clone(&self) -> (r: Self)
        ensures
            r.observes_same_cell(self),
    {
        Token { cell: Arc::clone(&self.cell) }
    }
}

impl<T> Token<T> {
    /// Whether both tokens observe one cell.
    pub closed spec fn observes_same_cell(&self, other: &Token<T>) -> bool {
        self.cell == other.cell
    }

    /// A handle to the value if it has been published, `None` before.
    pub fn handle(&self) -> (r: Option<Handle<T>>) {
        match self.cell.get() {
            Some(shared) => Some(Handle { inner: Arc::clone(shared) }),
            None => None,
        }
    }
}

} // verus!
