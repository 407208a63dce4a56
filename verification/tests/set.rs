use comparable::scalar::I32Change;
use comparable::set::{SetChange, VecChange};
use comparable::types::{Changed, Comparable};
use std::collections::{BTreeSet, HashSet};

#[test]
fn test_vec() {
    assert_eq!(
        Changed::Unchanged,
        (vec![] as Vec<i32>).comparison(&(vec![] as Vec<i32>))
    );
    assert_eq!(
        Changed::Changed(vec![
            VecChange::Added(0, 1),
            VecChange::Added(1, 2),
            VecChange::Added(2, 3),
        ]),
        (vec![] as Vec<i32>).comparison(&vec![1 as i32, 2, 3])
    );
    assert_eq!(
        Changed::Changed(vec![
            VecChange::Removed(0, 1),
            VecChange::Removed(1, 2),
            VecChange::Removed(2, 3),
        ]),
        vec![1 as i32, 2, 3].comparison(&(vec![] as Vec<i32>))
    );
    assert_eq!(
        Changed::Changed(vec![VecChange::Added(2, 3)]),
        vec![1 as i32, 2].comparison(&vec![1 as i32, 2, 3])
    );
    assert_eq!(
        Changed::Changed(vec![VecChange::Removed(2, 3)]),
        vec![1 as i32, 2, 3].comparison(&vec![1 as i32, 2])
    );
    assert_eq!(
        Changed::Changed(vec![
            VecChange::Changed(1, I32Change(3, 2)),
            VecChange::Added(2, 3),
        ]),
        vec![1 as i32, 3].comparison(&vec![1 as i32, 2, 3])
    );
    assert_eq!(
        Changed::Changed(vec![
            VecChange::Changed(1, I32Change(2, 3)),
            VecChange::Removed(2, 3),
        ]),
        vec![1 as i32, 2, 3].comparison(&vec![1 as i32, 3])
    );
    assert_eq!(
        Changed::Changed(vec![VecChange::Changed(1, I32Change(2, 4))]),
        vec![1 as i32, 2, 3].comparison(&vec![1 as i32, 4, 3])
    );
}

#[test]
fn test_hashset() {
    let to_set = |v: Vec<i32>| v.into_iter().collect::<HashSet<i32>>();
    assert_eq!(
        Changed::Unchanged,
        to_set(vec![]).comparison(&to_set(vec![]))
    );
    assert_eq!(
        Changed::Changed(vec![
            SetChange::Added(1),
            SetChange::Added(2),
            SetChange::Added(3),
        ]),
        to_set(vec![]).comparison(&to_set(vec![1, 2, 3]))
    );
    assert_eq!(
        Changed::Changed(vec![
            SetChange::Removed(1),
            SetChange::Removed(2),
            SetChange::Removed(3),
        ]),
        to_set(vec![1, 2, 3]).comparison(&to_set(vec![]))
    );
    assert_eq!(
        Changed::Changed(vec![SetChange::Added(3)]),
        to_set(vec![1, 2]).comparison(&to_set(vec![1, 2, 3]))
    );
    assert_eq!(
        Changed::Changed(vec![SetChange::Added(2)]),
        to_set(vec![1, 3]).comparison(&to_set(vec![1, 2, 3]))
    );
    assert_eq!(
        Changed::Changed(vec![SetChange::Removed(2)]),
        to_set(vec![1, 2, 3]).comparison(&to_set(vec![1, 3]))
    );
    assert_eq!(
        Changed::Changed(vec![SetChange::Added(4), SetChange::Removed(2)]),
        to_set(vec![1, 2, 3]).comparison(&to_set(vec![1, 4, 3]))
    );
}

#[test]
fn test_hashset_insertion_order_irrelevant() {
    let forward = vec![1, 2, 3].into_iter().collect::<HashSet<i32>>();
    let backward = vec![3, 2, 1].into_iter().collect::<HashSet<i32>>();
    let target = vec![1, 4, 3].into_iter().collect::<HashSet<i32>>();
    assert_eq!(forward.comparison(&target), backward.comparison(&target));
    assert_eq!(
        Changed::Changed(vec![SetChange::Added(4), SetChange::Removed(2)]),
        backward.comparison(&target)
    );
}

#[test]
fn test_btreeset() {
    let to_set = |v: Vec<i32>| v.into_iter().collect::<BTreeSet<i32>>();
    assert_eq!(
        Changed::Unchanged,
        to_set(vec![]).comparison(&to_set(vec![]))
    );
    assert_eq!(
        Changed::Changed(vec![
            SetChange::Added(1),
            SetChange::Added(2),
            SetChange::Added(3),
        ]),
        to_set(vec![]).comparison(&to_set(vec![1, 2, 3]))
    );
    assert_eq!(
        Changed::Changed(vec![
            SetChange::Removed(1),
            SetChange::Removed(2),
            SetChange::Removed(3),
        ]),
        to_set(vec![1, 2, 3]).comparison(&to_set(vec![]))
    );
    assert_eq!(
        Changed::Changed(vec![SetChange::Added(3)]),
        to_set(vec![1, 2]).comparison(&to_set(vec![1, 2, 3]))
    );
    assert_eq!(
        Changed::Changed(vec![SetChange::Removed(3)]),
        to_set(vec![1, 2, 3]).comparison(&to_set(vec![1, 2]))
    );
    assert_eq!(
        Changed::Changed(vec![SetChange::Added(2)]),
        to_set(vec![1, 3]).comparison(&to_set(vec![1, 2, 3]))
    );
    assert_eq!(
        Changed::Changed(vec![SetChange::Removed(2)]),
        to_set(vec![1, 2, 3]).comparison(&to_set(vec![1, 3]))
    );
    assert_eq!(
        Changed::Changed(vec![SetChange::Added(4), SetChange::Removed(2)]),
        to_set(vec![1, 2, 3]).comparison(&to_set(vec![1, 4, 3]))
    );
}

#[test]
fn test_btreeset_describe() {
    let s = vec![3, 1, 2].into_iter().collect::<BTreeSet<i32>>();
    assert_eq!(vec![1, 2, 3], s.describe());
}
