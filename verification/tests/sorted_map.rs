use rust_labs::sorted_map::btreemap;
use std::collections::BTreeMap;

#[derive(PartialEq, Eq, PartialOrd, Ord, Debug)]
struct K(i32);

#[test]
fn empty() {
    let m: BTreeMap<u8, u8> = btreemap(vec![]);
    assert!(m.is_empty());
}

#[test]
fn basic_and_trailing() {
    let m = btreemap(vec![(3, "c"), (1, "a"), (2, "b")]);
    assert_eq!(m.len(), 3);
    let keys: Vec<_> = m.keys().copied().collect();
    assert_eq!(keys, vec![1, 2, 3]);
}

#[test]
fn expressions_and_overwrite() {
    let m = btreemap(vec![("he".to_string() + "llo", 1 + 1), ("hello".to_string(), 3)]);
    assert_eq!(m.get("hello"), Some(&3));
}

#[test]
fn non_copy_values() {
    let v1 = String::from("x");
    let v2 = String::from("y");
    let m = btreemap(vec![(K(2), v2), (K(1), v1)]);
    assert_eq!(m.get(&K(1)).unwrap(), "x");
    assert_eq!(m.get(&K(2)).unwrap(), "y");
}

#[test]
fn rules_empty_and_sorted() {
    let m: BTreeMap<i32, &str> = btreemap(vec![]);
    assert!(m.is_empty());

    let m = btreemap(vec![(3, "c"), (1, "a"), (2, "b")]);
    assert_eq!(m.keys().copied().collect::<Vec<_>>(), vec![1, 2, 3]);
}

#[test]
fn rules_overwrite_and_exprs() {
    let m = btreemap(vec![
        ("x".to_string(), 10),
        ("x".to_string(), 20),
        (format!("y{}", 1), 30 - 5),
    ]);
    assert_eq!(m.get("x"), Some(&20));
    assert_eq!(m.get("y1"), Some(&25));
}

#[test]
fn proc_empty_and_sorted() {
    let m: BTreeMap<i32, i32> = btreemap(vec![]);
    assert!(m.is_empty());

    let m = btreemap(vec![(9, 0), (1, 0), (5, 0)]);
    assert_eq!(m.keys().copied().collect::<Vec<_>>(), vec![1, 5, 9]);
}

#[test]
fn proc_non_copy_values_and_trailing_comma() {
    let m = btreemap(vec![(K(2), String::from("b")), (K(1), String::from("a"))]);
    assert_eq!(m.get(&K(1)).unwrap(), "a");
    assert_eq!(m.get(&K(2)).unwrap(), "b");
}

#[test]
fn parity_between_impls() {
    let a = btreemap(vec![("a", 1), ("b", 2), ("c", 3)]);
    let b = btreemap(vec![("a", 1), ("b", 2), ("c", 3)]);
    assert_eq!(a, b);
}

#[test]
fn last_pair_wins_among_many() {
    let m = btreemap(vec![(1u64, 'a'), (2, 'b'), (1, 'c'), (3, 'd'), (2, 'e')]);
    assert_eq!(m.len(), 3);
    assert_eq!(m.get(&1), Some(&'c'));
    assert_eq!(m.get(&2), Some(&'e'));
    assert_eq!(m.get(&3), Some(&'d'));
}
