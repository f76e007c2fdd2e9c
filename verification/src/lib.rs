//! A value interner: equal values are stored once and handed out as cheap
//! handles to the one shared allocation.
//!
//! The crate root holds the registry form, in which the caller passes the
//! registry to free functions; [`singlethread`] and [`concurrent`] hold the
//! interners that are used through their own methods.
use crate::concurrent::{AInterned, Tucan};
use crate::table::{interned_as, is_census, swept};
use std::cmp::Ordering;
use std::hash::Hash;
use std::sync::Arc;
use vstd::prelude::*;
use vstd::std_specs::cmp::{PartialEqSpec, PartialOrdSpec};

pub mod concurrent;
pub mod content;
pub mod fingerprint;
pub mod singlethread;
pub mod table;

verus! {

/// A unique ID for a value within the interner.
#[derive(Debug, Hash)]
pub struct Interned<T: Hash + Send + Sync>(AInterned<T>);

/// Interning as a method of the value.
pub trait Intern: Hash + Send + Sync + Sized {
    fn intern(self, registry: &mut Registry<Self>) -> Interned<Self>;
}

impl<T> Intern for T where T: Hash + Send + Sync + Sized {
    fn intern(self, registry: &mut Registry<Self>) -> (handle: Interned<Self>)
        ensures
            exists|key: u128|
                {
                    &&& #[trigger] interned_as(old(registry)@, key, handle@, final(registry)@)
                    &&& !old(registry)@.contains_key(key) ==> handle@ == self
                },
    {
        intern(registry, self)
    }
}

impl<T: Hash + Send + Sync> View for Interned<T> {
    type V = Arc<T>;

    closed spec fn view(&self) -> Arc<T> {
        self.0@
    }
}

impl<T: Hash + Send + Sync> Interned<T> {
    /// Returns the number of strong references to this value.
    pub fn strong_count(this: &Self) -> (count: usize)
        ensures
            count >= 1,
    {
        AInterned::strong_count(&this.0)
    }
}

impl<T: Hash + Send + Sync> Clone for Interned<T> {
    fn clone(&self) -> (copy: Self)
        ensures
            copy@ == self@,
    {
        Interned(self.0.clone())
    }
}

impl<T: Hash + Send + Sync> AsRef<T> for Interned<T> {
    fn as_ref(&self) -> (value: &T)
        ensures
            value == self@,
    {
        self.0.as_ref()
    }
}

impl<T: Hash + Send + Sync> std::ops::Deref for Interned<T> {
    type Target = T;

    fn deref(&self) -> (value: &T)
        ensures
            value == self@,
    {
        self.as_ref()
    }
}

impl<T> PartialEq for Interned<T> where
    T: Hash + Send + Sync,
{
    /// Two handles are equal when they share one allocation.
    fn eq(&self, other: &Self) -> (same: bool)
        ensures
            same ==> self@ == other@,
    {
        self.0 == other.0
    }
}

impl<T> vstd::std_specs::cmp::PartialEqSpecImpl for Interned<T> where
    T: Hash + Send + Sync,
{
    open spec fn obeys_eq_spec() -> bool {
        false
    }

    open spec fn eq_spec(&self, other: &Self) -> bool {
        self@ == other@
    }
}

impl<T> PartialEq<T> for Interned<T> where
    T: Hash + Send + Sync + PartialEq,
{
    fn eq(&self, other: &T) -> (equal: bool) {
        self.as_ref() == other
    }
}

impl<T> vstd::std_specs::cmp::PartialEqSpecImpl<T> for Interned<T> where
    T: Hash + Send + Sync + PartialEq,
{
    open spec fn obeys_eq_spec() -> bool {
        T::obeys_eq_spec()
    }

    open spec fn eq_spec(&self, other: &T) -> bool {
        (*self@).eq_spec(other)
    }
}

impl<T> PartialOrd for Interned<T> where
    T: Hash + Send + Sync + PartialOrd,
{
    fn partial_cmp(&self, other: &Self) -> (order: Option<Ordering>) {
        self.as_ref().partial_cmp(other.as_ref())
    }
}

impl<T> vstd::std_specs::cmp::PartialOrdSpecImpl for Interned<T> where
    T: Hash + Send + Sync + PartialOrd,
{
    open spec fn obeys_partial_cmp_spec() -> bool {
        T::obeys_partial_cmp_spec()
    }

    open spec fn partial_cmp_spec(&self, other: &Self) -> Option<Ordering> {
        (*self@).partial_cmp_spec(&*other@)
    }
}

impl<T> PartialOrd<T> for Interned<T> where
    T: Hash + Send + Sync + PartialOrd,
{
    fn partial_cmp(&self, other: &T) -> (order: Option<Ordering>) {
        self.as_ref().partial_cmp(other)
    }
}

impl<T> vstd::std_specs::cmp::PartialOrdSpecImpl<T> for Interned<T> where
    T: Hash + Send + Sync + PartialOrd,
{
    open spec fn obeys_partial_cmp_spec() -> bool {
        T::obeys_partial_cmp_spec()
    }

    open spec fn partial_cmp_spec(&self, other: &T) -> Option<Ordering> {
        (*self@).partial_cmp_spec(other)
    }
}

/// The one store that the free functions of this module work on. The caller
/// holds it, and lends it for each call.
pub struct Registry<T: Hash + Send + Sync> {
    store: Tucan<T>,
}

impl<T: Hash + Send + Sync> View for Registry<T> {
    type V = Map<u128, Arc<T>>;

    closed spec fn view(&self) -> Map<u128, Arc<T>> {
        self.store@
    }
}

impl<T: Hash + Send + Sync> Default for Registry<T> {
    fn default() -> (registry: Self)
        ensures
            registry@ == Map::<u128, Arc<T>>::empty(),
    {
        Self::new()
    }
}

impl<T: Hash + Send + Sync> Registry<T> {
    /// Creates a new interner.
    pub fn new() -> (registry: Self)
        ensures
            registry@ == Map::<u128, Arc<T>>::empty(),
    {
        Registry { store: Tucan::new() }
    }
}

/// Cleans up the values that are interned but no longer referenced.
pub fn gc<T: Hash + Send + Sync>(registry: &mut Registry<T>)
    ensures
        exists|census: Seq<(u128, usize)>|
            is_census(census, old(registry)@) && final(registry)@ == #[trigger] swept(
                old(registry)@,
                census,
            ),
{
    registry.store.gc();
    proof {
        let census = choose|census: Seq<(u128, usize)>|
            is_census(census, old(registry).store@) && registry.store@ == #[trigger] swept(
                old(registry).store@,
                census,
            );
        assert(registry@ == swept(old(registry)@, census));
    }
}

/// Clears the interner but does not free the memory.
pub fn clear<T: Hash + Send + Sync>(registry: &mut Registry<T>)
    ensures
        final(registry)@ == Map::<u128, Arc<T>>::empty(),
{
    registry.store.clear();
}

/// Returns the number of values interned.
pub fn len<T: Hash + Send + Sync>(registry: &Registry<T>) -> (n: usize)
    ensures
        n == registry@.len(),
        registry@.dom().finite(),
{
    registry.store.len()
}

/// Interns a value.
pub fn intern<T>(registry: &mut Registry<T>, value: T) -> (handle: Interned<T>) where
    T: Hash + Send + Sync,
    ensures
        exists|key: u128|
            {
                &&& #[trigger] interned_as(old(registry)@, key, handle@, final(registry)@)
                &&& !old(registry)@.contains_key(key) ==> handle@ == value
            },
{
    let handle = Interned(registry.store.intern(value));
    proof {
        let key = choose|key: u128|
            {
                &&& #[trigger] interned_as(old(registry).store@, key, handle@, registry.store@)
                &&& !old(registry).store@.contains_key(key) ==> handle@ == value
            };
        assert(interned_as(old(registry)@, key, handle@, registry@));
    }
    handle
}

} // verus!
