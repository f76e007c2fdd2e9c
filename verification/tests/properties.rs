use siphasher::sip128::{Hasher128, SipHasher13};
use std::hash::Hash;
use tucan::concurrent::{AInterned, ConcurrentIntern};
use tucan::singlethread::{Intern, Interned, Tucan};

fn sip128_of_str(text: &str) -> u128 {
    let mut hasher = SipHasher13::new();
    text.hash(&mut hasher);
    hasher.finish128().as_u128()
}

#[test]
fn interning_twice_gives_equal_handles_that_equal_the_value() {
    let mut interner = Tucan::<u64>::new();
    let first = interner.intern(42);
    let second = interner.intern(42);
    assert!(first == second);
    assert!(first == 42);
    assert!(second == 42);
    assert_eq!(*first, 42);
    assert_eq!(interner.len(), 1);
}

#[test]
fn unequal_values_give_unequal_handles() {
    let mut interner = Tucan::<u64>::new();
    let one = interner.intern(1);
    let two = interner.intern(2);
    assert!(one != two);
    assert_eq!(*one, 1);
    assert_eq!(*two, 2);
    assert_eq!(interner.len(), 2);
}

#[test]
fn strong_count_is_the_table_plus_every_live_handle() {
    let mut interner = Tucan::<String>::new();
    let a = interner.intern(String::from("x"));
    assert_eq!(Interned::strong_count(&a), 2);
    let b = interner.intern(String::from("x"));
    assert_eq!(Interned::strong_count(&a), 3);
    assert_eq!(Interned::strong_count(&b), 3);
}

#[test]
fn clone_adds_one_and_drop_takes_one() {
    let mut interner = Tucan::<u8>::new();
    let a = interner.intern(9);
    let before = Interned::strong_count(&a);
    let copy = a.clone();
    assert_eq!(Interned::strong_count(&a), before + 1);
    assert!(copy == a);
    drop(copy);
    assert_eq!(Interned::strong_count(&a), before);
}

#[test]
fn gc_removes_what_only_the_table_holds_and_keeps_the_rest() {
    let mut interner = Tucan::<u32>::new();
    let kept = interner.intern(1);
    let dropped = interner.intern(2);
    drop(dropped);
    assert_eq!(interner.len(), 2);
    interner.gc();
    assert_eq!(interner.len(), 1);
    assert_eq!(Interned::strong_count(&kept), 2);
    let again = interner.intern(1);
    assert!(again == kept);
    assert_eq!(Interned::strong_count(&kept), 3);
}

#[test]
fn clear_empties_the_table_and_leaves_handles_usable() {
    let mut interner = Tucan::<str>::new();
    let a = interner.intern_str("hello");
    let b = interner.intern_str("world");
    assert!(!interner.is_empty());
    interner.clear();
    assert_eq!(interner.len(), 0);
    assert!(interner.is_empty());
    assert_eq!(&*a, "hello");
    assert_eq!(&*b, "world");
    assert_eq!(Interned::strong_count(&a), 1);
    let fresh = interner.intern_str("hello");
    assert!(fresh != a);
    assert!(fresh == "hello");
}

#[test]
fn a_new_interner_is_empty() {
    let interner = Tucan::<u64>::new();
    assert_eq!(interner.len(), 0);
    assert!(interner.is_empty());
    let by_default: Tucan<str> = Default::default();
    assert!(by_default.is_empty());
}

#[test]
fn interning_under_a_taken_key_returns_the_entry_that_is_there() {
    let mut interner = Tucan::<u64>::new();
    let first = interner.intern_keyed(7, 70);
    let second = interner.intern_keyed(7, 71);
    assert_eq!(*second, 70);
    assert!(first == second);
    assert_eq!(interner.len(), 1);
    let other = interner.intern_keyed(8, 70);
    assert!(other != first);
    assert_eq!(*other, 70);
    assert_eq!(interner.len(), 2);
}

#[test]
fn interning_text_under_a_taken_key_returns_the_entry_that_is_there() {
    let mut interner = Tucan::<str>::new();
    let first = interner.intern_str_keyed(1, "hello");
    let second = interner.intern_str_keyed(1, "world");
    assert!(second == "hello");
    assert!(first == second);
    assert_eq!(interner.len(), 1);
}

#[test]
fn text_is_keyed_by_its_sip_digest() {
    let mut interner = Tucan::<str>::new();
    let _hello = interner.intern_str("hello");
    let census = interner.census();
    assert_eq!(census, vec![(sip128_of_str("hello"), 2)]);
    assert_ne!(sip128_of_str("hello"), sip128_of_str("world"));
    let same = interner.intern_str_keyed(sip128_of_str("hello"), "other");
    assert!(same == "hello");
}

#[test]
fn census_lists_every_entry_once_with_its_count() {
    let mut interner = Tucan::<u64>::new();
    let a = interner.intern_keyed(1, 10);
    let _a2 = a.clone();
    let b = interner.intern_keyed(2, 20);
    drop(b);
    let mut census = interner.census();
    census.sort();
    assert_eq!(census, vec![(1, 3), (2, 1)]);
}

#[test]
fn sweep_goes_by_the_census_it_is_given() {
    let mut interner = Tucan::<u64>::new();
    let a = interner.intern_keyed(1, 10);
    let b = interner.intern_keyed(2, 20);
    let c = interner.intern_keyed(3, 30);
    interner.sweep(&vec![(1, 1), (2, 2), (9, 1)]);
    assert_eq!(interner.len(), 2);
    let mut census = interner.census();
    census.sort();
    assert_eq!(census, vec![(2, 2), (3, 2)]);
    assert_eq!(*a, 10);
    assert_eq!(Interned::strong_count(&a), 1);
    interner.sweep(&vec![]);
    assert_eq!(interner.len(), 2);
    drop(b);
    drop(c);
}

#[test]
fn slices_are_interned_by_content() {
    let mut interner = Tucan::<[u32]>::new();
    let a = interner.intern_slice(&[1, 2, 3]);
    let b = interner.intern_slice(&[1, 2, 3]);
    let c = interner.intern_slice(&[1, 2]);
    assert!(a == b);
    assert!(a != c);
    assert!(a == &[1u32, 2, 3][..]);
    assert!(c == &[1u32, 2][..]);
    assert!(!(c == &[1u32, 3][..]));
    assert_eq!(a.len(), 3);
    assert_eq!(interner.len(), 2);
    let d = interner.intern_slice_keyed(5, &[7, 8]);
    let e = interner.intern_slice_keyed(5, &[9]);
    assert!(d == e);
    assert_eq!(&*e, &[7, 8]);
}

#[test]
fn handles_compare_with_values_and_order_by_them() {
    let mut interner = Tucan::<u64>::new();
    let small = interner.intern(1);
    let large = interner.intern(2);
    assert!(small < large);
    assert!(large > small);
    assert!(small < 2);
    assert!(large >= 2);
    assert!(small != 2);
    let mut text = Tucan::<str>::new();
    let hello = text.intern_str("hello");
    assert!(hello == "hello");
    assert!(hello != "world");
    assert_eq!(hello.as_ref(), "hello");
}

#[test]
fn the_trait_interns_text_and_sized_values() {
    let mut text = Tucan::<str>::new();
    let a = Intern::intern("hello", &mut text);
    let b = text.intern_str("hello");
    assert!(a == b);
    let mut numbers = Tucan::<u64>::new();
    let x = Intern::intern(5u64, &mut numbers);
    let y = numbers.intern(5);
    assert!(x == y);
}

fn takes_what_threads_can_share<T: Send + Sync>(_value: &T) {}

#[test]
fn shared_handles_and_their_interner_can_cross_threads() {
    let mut interner = tucan::concurrent::Tucan::<str>::new();
    let a = ConcurrentIntern::intern("hello", &mut interner);
    takes_what_threads_can_share(&a);
    takes_what_threads_can_share(&interner);
    let moved = a.clone();
    assert_eq!(AInterned::strong_count(&a), 3);
    assert_eq!(moved.len(), 5);
    drop(moved);
    assert_eq!(AInterned::strong_count(&a), 2);
    drop(a);
    interner.gc();
    assert!(interner.is_empty());
}

#[test]
fn the_concurrent_interner_keys_sweeps_and_clears_like_the_other() {
    let mut interner = tucan::concurrent::Tucan::<u64>::new();
    let a = interner.intern_keyed(1, 10);
    let b = interner.intern_keyed(1, 11);
    assert!(a == b);
    assert_eq!(*b, 10);
    assert_eq!(interner.census(), vec![(1, 3)]);
    interner.sweep(&vec![(1, 1)]);
    assert_eq!(interner.len(), 0);
    assert_eq!(AInterned::strong_count(&a), 2);
    let c = interner.intern(3);
    assert!(c == 3);
    interner.clear();
    assert!(interner.is_empty());
    assert_eq!(*c, 3);
    let mut text = tucan::concurrent::Tucan::<str>::new();
    let first = text.intern_str_keyed(4, "one");
    let second = text.intern_str_keyed(4, "two");
    assert!(first == second);
    assert!(second == "one");
    let mut slices = tucan::concurrent::Tucan::<[u8]>::new();
    let s = slices.intern_slice(&[1, 2]);
    let t = slices.intern_slice(&[1, 2]);
    assert!(s == t);
    assert!(s == &[1u8, 2][..]);
}

#[test]
fn the_registry_functions_work_on_the_registry_they_are_given() {
    let mut registry = tucan::Registry::<u64>::new();
    assert_eq!(tucan::len(&registry), 0);
    let a = tucan::intern(&mut registry, 4);
    let b = tucan::intern(&mut registry, 4);
    let c = tucan::intern(&mut registry, 5);
    assert!(a == b);
    assert!(a != c);
    assert!(a == 4);
    assert!(a < c);
    assert_eq!(*a.as_ref(), 4);
    assert_eq!(tucan::Interned::strong_count(&a), 3);
    assert_eq!(tucan::len(&registry), 2);
    drop(c);
    tucan::gc(&mut registry);
    assert_eq!(tucan::len(&registry), 1);
    tucan::clear(&mut registry);
    assert_eq!(tucan::len(&registry), 0);
    assert_eq!(*a, 4);
    assert_eq!(tucan::Interned::strong_count(&a), 2);
    let mut other = tucan::Registry::<u64>::default();
    let d = tucan::intern(&mut other, 4);
    assert!(d != a);
}
