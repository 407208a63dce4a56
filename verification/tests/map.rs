use comparable::map::{HashMapBuilder, MapChange};
use comparable::scalar::I32Change;
use comparable::types::{Changed, Comparable};
use std::collections::{BTreeMap, HashMap};

#[test]
fn test_hashmap_example_old() {
    let mut map = HashMap::<i32, i32>::new();
    map.insert(1, 100);
    map.insert(2, 200);

    map.remove(&2);

    // But what if `map.remove` had other side-effects? We wouldn't know.
    assert_eq!(map.get(&2), None);
}

#[test]
fn test_hashmap_example_new() {
    let mut map = HashMapBuilder::new()
        .add_element(1, 100)
        .add_element(2, 200)
        .create();
    let initial_map = map.clone();

    map.remove(&2);

    // We assert here that map.remove can only have had one effect.
    assert_eq!(
        Changed::Changed(vec![MapChange::Removed(2)]),
        initial_map.comparison(&map)
    );
}

#[test]
fn test_hashmap() {
    let to_map = |v: Vec<(i32, i32)>| v.into_iter().collect::<HashMap<i32, i32>>();
    assert_eq!(
        Changed::Unchanged,
        HashMap::<i32, i32>::new().comparison(&HashMap::<i32, i32>::new())
    );
    assert_eq!(
        Changed::Changed(vec![
            MapChange::Added(0, 1),
            MapChange::Added(1, 2),
            MapChange::Added(2, 3),
        ]),
        HashMap::new().comparison(&to_map(vec![(0, 1 as i32), (1, 2), (2, 3)]))
    );
    assert_eq!(
        Changed::Changed(vec![
            MapChange::Removed(0),
            MapChange::Removed(1),
            MapChange::Removed(2),
        ]),
        to_map(vec![(0, 1 as i32), (1, 2), (2, 3)]).comparison(&HashMap::new())
    );
    assert_eq!(
        Changed::Changed(vec![MapChange::Added(2, 3)]),
        to_map(vec![(0, 1 as i32), (1, 2)]).comparison(&to_map(vec![(0, 1), (1, 2), (2, 3)]))
    );
    assert_eq!(
        Changed::Changed(vec![MapChange::Removed(2)]),
        to_map(vec![(0, 1 as i32), (1, 2), (2, 3)]).comparison(&to_map(vec![(0, 1), (1, 2)]))
    );
    assert_eq!(
        Changed::Changed(vec![MapChange::Added(1, 2)]),
        to_map(vec![(0, 1 as i32), (2, 3)]).comparison(&to_map(vec![(0, 1), (1, 2), (2, 3)]))
    );
    assert_eq!(
        Changed::Changed(vec![MapChange::Changed(1, I32Change(2, 4))]),
        to_map(vec![(0, 1 as i32), (1, 2), (2, 3)]).comparison(&to_map(vec![
            (0, 1),
            (1, 4),
            (2, 3),
        ]))
    );
}

#[test]
fn test_btreemap() {
    let to_map = |v: Vec<(i32, i32)>| v.into_iter().collect::<BTreeMap<i32, i32>>();
    assert_eq!(
        Changed::Unchanged,
        BTreeMap::<i32, i32>::new().comparison(&BTreeMap::<i32, i32>::new())
    );
    assert_eq!(
        Changed::Changed(vec![
            MapChange::Added(0, 1),
            MapChange::Added(1, 2),
            MapChange::Added(2, 3),
        ]),
        BTreeMap::new().comparison(&to_map(vec![(0, 1 as i32), (1, 2), (2, 3)]))
    );
    assert_eq!(
        Changed::Changed(vec![
            MapChange::Removed(0),
            MapChange::Removed(1),
            MapChange::Removed(2),
        ]),
        to_map(vec![(0, 1 as i32), (1, 2), (2, 3)]).comparison(&BTreeMap::new())
    );
    assert_eq!(
        Changed::Changed(vec![MapChange::Added(2, 3)]),
        to_map(vec![(0, 1 as i32), (1, 2)]).comparison(&to_map(vec![(0, 1), (1, 2), (2, 3)]))
    );
    assert_eq!(
        Changed::Changed(vec![MapChange::Removed(2)]),
        to_map(vec![(0, 1 as i32), (1, 2), (2, 3)]).comparison(&to_map(vec![(0, 1), (1, 2)]))
    );
    assert_eq!(
        Changed::Changed(vec![MapChange::Changed(1, I32Change(2, 4))]),
        to_map(vec![(0, 1 as i32), (1, 2), (2, 3)]).comparison(&to_map(vec![
            (0, 1),
            (1, 4),
            (2, 3),
        ]))
    );
}

#[test]
fn test_btreemap_describe() {
    let m = vec![(2, 20), (1, 10)]
        .into_iter()
        .collect::<BTreeMap<i32, i32>>();
    let d = m.describe();
    assert_eq!(2, d.len());
    assert_eq!(Some(&10), d.get(&1));
    assert_eq!(Some(&20), d.get(&2));
}
