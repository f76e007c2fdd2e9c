//! The single-threaded interner: handles share their value through `Rc`.
//!
//! An interner is modelled by the map from fingerprints to the allocations
//! that its table holds, a handle by the allocation that it shares. To the
//! verifier an `Rc` is the value it points to, so a contract speaks of what a
//! handle shares and never of how many handles there are: the reference
//! count is read from the allocation when it is needed, and the functions
//! that decide by it take what was read as an argument.
use crate::content::{clones_of, same_items, slice_eq, str_eq};
use crate::fingerprint::{hash128, hash128_str, str_fingerprint};
use crate::table::{
    census, interned_as, is_census, lemma_table_is_finite, sweep, swept, table_get, table_insert,
    table_len, Table,
};
use std::cmp::Ordering;
use std::collections::HashMap;
use std::hash::Hash;
use std::rc::Rc;
use vstd::prelude::*;
use vstd::std_specs::cmp::{PartialEqSpec, PartialOrdSpec};

verus! {

/// `Rc::clone`: one more reference to the same allocation, hence to the same
/// value.
#[verifier::external_body]
fn rc_clone<T: ?Sized>(shared: &Rc<T>) -> (copy: Rc<T>)
    ensures
        copy == *shared,
{
    Rc::clone(shared)
}

/// `Rc::strong_count`: the number of `Rc` pointers to the allocation. It
/// counts `shared` itself, so it is at least one; how many more there are is
/// not a property of the value.
#[verifier::external_body]
fn rc_strong_count<T: ?Sized>(shared: &Rc<T>) -> (count: usize)
    ensures
        count >= 1,
{
    Rc::strong_count(shared)
}

/// `Rc::ptr_eq`: whether the two point to the same allocation. Pointers to
/// one allocation share one value.
#[verifier::external_body]
fn rc_ptr_eq<T: ?Sized>(left: &Rc<T>, right: &Rc<T>) -> (same: bool)
    ensures
        same ==> *left == *right,
{
    Rc::ptr_eq(left, right)
}

/// `Rc::<str>::from`: a fresh allocation that holds a copy of the text.
#[verifier::external_body]
fn rc_from_str(text: &str) -> (shared: Rc<str>)
    ensures
        shared@ == text@,
{
    Rc::from(text)
}

/// `Rc::<[T]>::from`: a fresh allocation that holds a clone of each item, in
/// order.
#[verifier::external_body]
fn rc_from_slice<T: Clone>(items: &[T]) -> (shared: Rc<[T]>)
    ensures
        clones_of(items@, shared@),
{
    Rc::from(items)
}

/// A handle to an interned value. It keeps the value alive, whether or not
/// the interner still holds it.
#[derive(Debug, Hash)]
pub struct Interned<T: Hash + ?Sized>(Rc<T>);

impl<T: Hash + ?Sized> View for Interned<T> {
    type V = Rc<T>;

    /// The allocation that the handle shares.
    closed spec fn view(&self) -> Rc<T> {
        self.0
    }
}

impl<T: Hash + ?Sized> Interned<T> {
    /// Returns the number of strong references to this value.
    pub fn strong_count(this: &Self) -> (count: usize)
        ensures
            count >= 1,
    {
        rc_strong_count(&this.0)
    }
}

impl<T: Hash + ?Sized> Clone for Interned<T> {
    fn clone(&self) -> (copy: Self)
        ensures
            copy@ == self@,
    {
        Interned(rc_clone(&self.0))
    }
}

impl<T: Hash + ?Sized> AsRef<T> for Interned<T> {
    fn as_ref(&self) -> (value: &T)
        ensures
            value == self@,
    {
        &self.0
    }
}

impl<T: Hash + ?Sized> std::ops::Deref for Interned<T> {
    type Target = T;

    fn deref(&self) -> (value: &T)
        ensures
            value == self@,
    {
        self.as_ref()
    }
}

impl<T> PartialEq for Interned<T> where
    T: Hash + ?Sized,
{
    /// Two handles are equal when they share one allocation.
    fn eq(&self, other: &Self) -> (same: bool)
        ensures
            same ==> self@ == other@,
    {
        rc_ptr_eq(&self.0, &other.0)
    }
}

/// Whether two handles share one allocation is not a function of what they
/// share, so `==` on handles follows no specification; what it does promise
/// is stated on `eq` itself.
impl<T> vstd::std_specs::cmp::PartialEqSpecImpl for Interned<T> where
    T: Hash + ?Sized,
{
    open spec fn obeys_eq_spec() -> bool {
        false
    }

    open spec fn eq_spec(&self, other: &Self) -> bool {
        self@ == other@
    }
}

impl<T> PartialEq<T> for Interned<T> where
    T: Hash + PartialEq + ?Sized,
{
    fn eq(&self, other: &T) -> (equal: bool) {
        self.as_ref() == other
    }
}

impl<T> vstd::std_specs::cmp::PartialEqSpecImpl<T> for Interned<T> where
    T: Hash + PartialEq + ?Sized,
{
    open spec fn obeys_eq_spec() -> bool {
        T::obeys_eq_spec()
    }

    open spec fn eq_spec(&self, other: &T) -> bool {
        (*self@).eq_spec(other)
    }
}

impl PartialEq<&str> for Interned<str> {
    fn eq(&self, other: &&str) -> (equal: bool) {
        str_eq(self.as_ref(), *other)
    }
}

impl vstd::std_specs::cmp::PartialEqSpecImpl<&str> for Interned<str> {
    open spec fn obeys_eq_spec() -> bool {
        true
    }

    open spec fn eq_spec(&self, other: &&str) -> bool {
        self@@ == other@
    }
}

impl<T> PartialEq<&[T]> for Interned<[T]> where
    T: Hash + PartialEq,
{
    fn eq(&self, other: &&[T]) -> (equal: bool) {
        slice_eq(self.as_ref(), *other)
    }
}

impl<T> vstd::std_specs::cmp::PartialEqSpecImpl<&[T]> for Interned<[T]> where
    T: Hash + PartialEq,
{
    open spec fn obeys_eq_spec() -> bool {
        T::obeys_eq_spec()
    }

    open spec fn eq_spec(&self, other: &&[T]) -> bool {
        same_items(self@@, other@)
    }
}

impl<T> PartialOrd for Interned<T> where
    T: Hash + PartialOrd + ?Sized,
{
    fn partial_cmp(&self, other: &Self) -> (order: Option<Ordering>) {
        self.as_ref().partial_cmp(other.as_ref())
    }
}

impl<T> vstd::std_specs::cmp::PartialOrdSpecImpl for Interned<T> where
    T: Hash + PartialOrd + ?Sized,
{
    open spec fn obeys_partial_cmp_spec() -> bool {
        T::obeys_partial_cmp_spec()
    }

    open spec fn partial_cmp_spec(&self, other: &Self) -> Option<Ordering> {
        (*self@).partial_cmp_spec(&*other@)
    }
}

impl<T> PartialOrd<T> for Interned<T> where
    T: Hash + PartialOrd + ?Sized,
{
    fn partial_cmp(&self, other: &T) -> (order: Option<Ordering>) {
        self.as_ref().partial_cmp(other)
    }
}

impl<T> vstd::std_specs::cmp::PartialOrdSpecImpl<T> for Interned<T> where
    T: Hash + PartialOrd + ?Sized,
{
    open spec fn obeys_partial_cmp_spec() -> bool {
        T::obeys_partial_cmp_spec()
    }

    open spec fn partial_cmp_spec(&self, other: &T) -> Option<Ordering> {
        (*self@).partial_cmp_spec(other)
    }
}

/// Interning as a method of the value: text is interned by content, a sized
/// value is moved in.
pub trait Intern<T: Hash + ?Sized = Self>: Hash {
    fn intern(self, interner: &mut Tucan<T>) -> Interned<T>;
}

impl Intern<str> for &str {
    fn intern(self, interner: &mut Tucan<str>) -> (handle: Interned<str>)
        ensures
            interned_as(old(interner)@, str_fingerprint(self@), handle@, final(interner)@),
            !old(interner)@.contains_key(str_fingerprint(self@)) ==> handle@@ == self@,
    {
        interner.intern_str(self)
    }
}

impl<T> Intern for T where
    T: Hash + Sized,
{
    fn intern(self, interner: &mut Tucan<Self>) -> (handle: Interned<Self>)
        ensures
            exists|key: u128|
                {
                    &&& #[trigger] interned_as(old(interner)@, key, handle@, final(interner)@)
                    &&& !old(interner)@.contains_key(key) ==> handle@ == self
                },
    {
        interner.intern(self)
    }
}

/// An interner that owns its table.
pub struct Tucan<T: Hash + ?Sized> {
    table: Table<Rc<T>>,
}

impl<T: Hash + ?Sized> View for Tucan<T> {
    type V = Map<u128, Rc<T>>;

    /// The entries of the table: each fingerprint with the allocation
    /// interned under it.
    closed spec fn view(&self) -> Map<u128, Rc<T>> {
        self.table@
    }
}

impl<T: Hash + ?Sized> Default for Tucan<T> {
    fn default() -> (interner: Self)
        ensures
            interner@ == Map::<u128, Rc<T>>::empty(),
    {
        Self::new()
    }
}

impl<T: Hash + ?Sized> Tucan<T> {
    /// Creates a new interner.
    pub fn new() -> (interner: Self)
        ensures
            interner@ == Map::<u128, Rc<T>>::empty(),
    {
        Tucan { table: HashMap::default() }
    }

    /// Clears the interner but does not free the memory: every entry goes,
    /// referenced or not, and handles stay valid.
    pub fn clear(&mut self)
        ensures
            final(self)@ == Map::<u128, Rc<T>>::empty(),
    {
        self.table.clear();
    }

    /// The table has finitely many entries, so its length is a number.
    pub proof fn lemma_entries_are_finite(&self)
        ensures
            self@.dom().finite(),
    {
        lemma_table_is_finite(&self.table);
    }

    /// Returns the number of values interned.
    pub fn len(&self) -> (n: usize)
        ensures
            n == self@.len(),
            self@.dom().finite(),
    {
        proof {
            lemma_table_is_finite(&self.table);
        }
        table_len(&self.table)
    }

    /// Returns `true` if the interner is empty.
    pub fn is_empty(&self) -> (empty: bool)
        ensures
            empty == (self@.len() == 0),
            empty == (self@ == Map::<u128, Rc<T>>::empty()),
    {
        proof {
            lemma_table_is_finite(&self.table);
            if self.table@.len() == 0 {
                assert(self.table@ =~= Map::<u128, Rc<T>>::empty());
            }
        }
        self.table.is_empty()
    }

    /// Interns a value under a fingerprint that the caller has computed. A
    /// fingerprint that is already in the table is a hit: the value is dropped
    /// and the entry that is there is shared, without a comparison of the two.
    pub fn intern_keyed(&mut self, key: u128, value: T) -> (handle: Interned<T>) where T: Sized
        ensures
            interned_as(old(self)@, key, handle@, final(self)@),
            !old(self)@.contains_key(key) ==> handle@ == value,
    {
        match table_get(&self.table, key) {
            Some(item) => Interned(rc_clone(item)),
            None => {
                let ptr: Rc<T> = Rc::new(value);
                table_insert(&mut self.table, key, rc_clone(&ptr));
                Interned(ptr)
            },
        }
    }

    /// Interns a value, under the fingerprint that its `Hash` impl gives it.
    pub fn intern(&mut self, value: T) -> (handle: Interned<T>) where T: Sized
        ensures
            exists|key: u128|
                {
                    &&& #[trigger] interned_as(old(self)@, key, handle@, final(self)@)
                    &&& !old(self)@.contains_key(key) ==> handle@ == value
                },
    {
        let hash = hash128(&value);
        self.intern_keyed(hash, value)
    }

    /// Reads the reference count of every entry: each fingerprint once, with
    /// the number of references that its allocation had when it was read.
    pub fn census(&self) -> (census: Vec<(u128, usize)>)
        ensures
            is_census(census@, self@),
    {
        census(&self.table, rc_strong_count)
    }

    /// Removes every entry that `census` lists with a count of at most one,
    /// and no other. Handles to a removed entry stay valid.
    pub fn sweep(&mut self, census: &Vec<(u128, usize)>)
        ensures
            final(self)@ == swept(old(self)@, census@),
    {
        sweep(&mut self.table, census);
    }

    /// Cleans up the values that are interned but no longer referenced: takes
    /// a census and sweeps by it.
    pub fn gc(&mut self)
        ensures
            exists|census: Seq<(u128, usize)>|
                is_census(census, old(self)@) && final(self)@ == #[trigger] swept(
                    old(self)@,
                    census,
                ),
    {
        let census = self.census();
        self.sweep(&census);
    }
}

impl Tucan<str> {
    /// Interns a string under a fingerprint that the caller has computed. The
    /// text is copied into a new allocation only on a miss.
    pub fn intern_str_keyed(&mut self, key: u128, value: &str) -> (handle: Interned<str>)
        ensures
            interned_as(old(self)@, key, handle@, final(self)@),
            !old(self)@.contains_key(key) ==> handle@@ == value@,
    {
        match table_get(&self.table, key) {
            Some(item) => Interned(rc_clone(item)),
            None => {
                let ptr: Rc<str> = rc_from_str(value);
                table_insert(&mut self.table, key, rc_clone(&ptr));
                Interned(ptr)
            },
        }
    }

    /// Interns a string, under the fingerprint of its text.
    pub fn intern_str(&mut self, value: &str) -> (handle: Interned<str>)
        ensures
            interned_as(old(self)@, str_fingerprint(value@), handle@, final(self)@),
            !old(self)@.contains_key(str_fingerprint(value@)) ==> handle@@ == value@,
    {
        let hash = hash128_str(value);
        self.intern_str_keyed(hash, value)
    }
}

impl<T> Tucan<[T]> where
    T: Hash + Clone,
{
    /// Interns a slice under a fingerprint that the caller has computed. The
    /// items are cloned into a new allocation only on a miss.
    pub fn intern_slice_keyed(&mut self, key: u128, value: &[T]) -> (handle: Interned<[T]>)
        ensures
            interned_as(old(self)@, key, handle@, final(self)@),
            !old(self)@.contains_key(key) ==> clones_of(value@, handle@@),
    {
        match table_get(&self.table, key) {
            Some(item) => Interned(rc_clone(item)),
            None => {
                let ptr: Rc<[T]> = rc_from_slice(value);
                table_insert(&mut self.table, key, rc_clone(&ptr));
                Interned(ptr)
            },
        }
    }

    /// Interns a slice, under the fingerprint that the `Hash` impl of slices
    /// gives it.
    pub fn intern_slice(&mut self, value: &[T]) -> (handle: Interned<[T]>)
        ensures
            exists|key: u128|
                {
                    &&& #[trigger] interned_as(old(self)@, key, handle@, final(self)@)
                    &&& !old(self)@.contains_key(key) ==> clones_of(value@, handle@@)
                },
    {
        let hash = hash128(&value);
        self.intern_slice_keyed(hash, value)
    }
}

} // verus!
