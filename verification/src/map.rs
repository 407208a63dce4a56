use crate::set::{ascending_enum, deref_seq};
use crate::types::{clone_faithful, Changed, Comparable};
use std::collections::BTreeMap;
use std::collections::HashMap;
use vstd::laws_cmp::obeys_cmp;
use vstd::prelude::*;

verus! {

broadcast use vstd::std_specs::btree::group_btree_axioms;

/// One keyed edit in a mapping diff: a key appeared with a value, a key's
/// value changed in place, or a key disappeared.
#[derive(PartialEq, Debug)]
pub enum MapChange<Key, Desc, Change> {
    Added(Key, Desc),
    Changed(Key, Change),
    Removed(Key),
}

/// Exactly when `es` lists, for the keys `qb[..upto]` of the new mapping in
/// order, an addition for each key absent from the old mapping and an
/// in-place change for each key whose value differs.
pub open spec fn map_first_rel<Key, Value: Comparable>(
    ma: Map<Key, Value>,
    mb: Map<Key, Value>,
    qb: Seq<Key>,
    upto: int,
    es: Seq<MapChange<Key, Value::Desc, Value::Change>>,
) -> bool
    decreases upto,
{
    if upto <= 0 {
        es.len() == 0
    } else {
        let k = qb[upto - 1];
        if !ma.contains_key(k) {
            &&& es.len() > 0
            &&& map_first_rel(ma, mb, qb, upto - 1, es.drop_last())
            &&& (es.last() matches MapChange::Added(k2, d) && k2 == k && mb[k].desc_rel(d))
        } else if !ma[k].unchanged_with(&mb[k]) {
            &&& es.len() > 0
            &&& map_first_rel(ma, mb, qb, upto - 1, es.drop_last())
            &&& (es.last() matches MapChange::Changed(k2, ch) && k2 == k && ma[k].change_rel(
                &mb[k],
                ch,
            ))
        } else {
            map_first_rel(ma, mb, qb, upto - 1, es)
        }
    }
}

/// Exactly when `es` lists a removal for each key of `qa[..upto]`, in order,
/// that is absent from the new mapping.
pub open spec fn map_removed_rel<Key, Value: Comparable>(
    mb: Map<Key, Value>,
    qa: Seq<Key>,
    upto: int,
    es: Seq<MapChange<Key, Value::Desc, Value::Change>>,
) -> bool
    decreases upto,
{
    if upto <= 0 {
        es.len() == 0
    } else {
        let k = qa[upto - 1];
        if !mb.contains_key(k) {
            &&& es.len() > 0
            &&& map_removed_rel(mb, qa, upto - 1, es.drop_last())
            &&& (es.last() matches MapChange::Removed(k2) && k2 == k)
        } else {
            map_removed_rel(mb, qa, upto - 1, es)
        }
    }
}

/// Exactly when `es` is the canonical diff between two mappings: walking the
/// new mapping's keys in ascending order, an addition or in-place change per
/// key that is new or differs; then, walking the old mapping's keys in
/// ascending order, a removal per key that is gone.
pub open spec fn map_change_rel<Key: Ord, Value: Comparable>(
    ma: Map<Key, Value>,
    mb: Map<Key, Value>,
    es: Seq<MapChange<Key, Value::Desc, Value::Change>>,
) -> bool {
    exists|qa: Seq<Key>, qb: Seq<Key>, na: int|
        {
            &&& #[trigger] ascending_enum(ma.dom(), qa)
            &&& #[trigger] ascending_enum(mb.dom(), qb)
            &&& 0 <= na <= es.len()
            &&& #[trigger] map_first_rel(ma, mb, qb, qb.len() as int, es.take(na))
            &&& map_removed_rel(mb, qa, qa.len() as int, es.skip(na))
        }
}

/// When a mapping counts as unchanged against another: the same keys, each
/// bound to a value unchanged against its counterpart.
pub open spec fn map_unchanged<Key, Value: Comparable>(
    ma: Map<Key, Value>,
    mb: Map<Key, Value>,
) -> bool {
    &&& ma.dom() == mb.dom()
    &&& forall|k: Key| #[trigger]
        ma.dom().contains(k) ==> ma[k].unchanged_with(&mb[k])
}

/// The keys of a sequence of borrowed entries, in order.
pub open spec fn key_seq<K, V>(q: Seq<(&K, &V)>) -> Seq<K> {
    q.map_values(|p: (&K, &V)| *p.0)
}

/// Relies on `BTreeMap::iter` and collecting into a `Vec`: one borrowed pair
/// per entry of the mapping, visited in ascending key order.
#[verifier::external_body]
fn btree_map_entries<'a, K: Ord, V>(m: &'a BTreeMap<K, V>) -> (r: Vec<(&'a K, &'a V)>)
    ensures
        obeys_cmp::<K>() ==> {
            &&& ascending_enum(m@.dom(), key_seq(r@))
            &&& forall|i: int|
                0 <= i < r@.len() ==> m@.contains_key(*(#[trigger] r@[i]).0) && *r@[i].1
                    == m@[*(r@[i].0)]
        },
{
    m.iter().collect()
}

/// The empty-prefix and whole-prefix endpoints of the first-pass relation.
proof fn lemma_map_first_unchanged<Key, Value: Comparable>(
    ma: Map<Key, Value>,
    mb: Map<Key, Value>,
    qb: Seq<Key>,
    upto: int,
    es: Seq<MapChange<Key, Value::Desc, Value::Change>>,
)
    requires
        map_first_rel(ma, mb, qb, upto, es),
    ensures
        es.len() == 0 <==> (forall|j: int|
            0 <= j < upto ==> ma.contains_key(#[trigger] qb[j]) && ma[qb[j]].unchanged_with(
                &mb[qb[j]],
            )),
    decreases upto,
{
    if upto > 0 {
        let k = qb[upto - 1];
        if !ma.contains_key(k) || !ma[k].unchanged_with(&mb[k]) {
            lemma_map_first_unchanged(ma, mb, qb, upto - 1, es.drop_last());
        } else {
            lemma_map_first_unchanged(ma, mb, qb, upto - 1, es);
        }
    }
}

/// The empty-prefix and whole-prefix endpoints of the removal relation.
proof fn lemma_map_removed_empty<Key, Value: Comparable>(
    mb: Map<Key, Value>,
    qa: Seq<Key>,
    upto: int,
    es: Seq<MapChange<Key, Value::Desc, Value::Change>>,
)
    requires
        map_removed_rel(mb, qa, upto, es),
    ensures
        es.len() == 0 <==> (forall|j: int| 0 <= j < upto ==> mb.contains_key(#[trigger] qa[j])),
    decreases upto,
{
    if upto > 0 {
        if !mb.contains_key(qa[upto - 1]) {
            lemma_map_removed_empty(mb, qa, upto - 1, es.drop_last());
        } else {
            lemma_map_removed_empty(mb, qa, upto - 1, es);
        }
    }
}

impl<Key: Ord + Clone + core::fmt::Debug, Value: Comparable> Comparable for BTreeMap<Key, Value> {
    type Desc = BTreeMap<Key, Value::Desc>;

    type Change = Vec<MapChange<Key, Value::Desc, Value::Change>>;

    open spec fn obeys() -> bool {
        Value::obeys() && obeys_cmp::<Key>() && clone_faithful::<Key>()
    }

    open spec fn desc_rel(&self, d: BTreeMap<Key, Value::Desc>) -> bool {
        &&& d@.dom() == self@.dom()
        &&& forall|k: Key| #[trigger]
            self@.dom().contains(k) ==> self@[k].desc_rel(d@[k])
    }

    open spec fn unchanged_with(&self, other: &BTreeMap<Key, Value>) -> bool {
        map_unchanged(self@, other@)
    }

    open spec fn change_rel(&self, other: &BTreeMap<Key, Value>, c: Self::Change) -> bool {
        map_change_rel(self@, other@, c@)
    }

    proof fn lemma_reflexive(&self) {
        assert forall|k: Key| #[trigger]
            self@.dom().contains(k) implies self@[k].unchanged_with(&self@[k]) by {
            self@[k].lemma_reflexive();
        }
    }

    fn describe(&self) -> (d: Self::Desc) {
        let entries = btree_map_entries(self);
        let mut d: BTreeMap<Key, Value::Desc> = BTreeMap::new();
        let n = entries.len();
        let mut i: usize = 0;
        while i < n
            invariant
                i <= n,
                n == entries@.len(),
                Self::obeys() ==> {
                    &&& ascending_enum(self@.dom(), key_seq(entries@))
                    &&& forall|j: int|
                        0 <= j < entries@.len() ==> self@.contains_key(
                            *(#[trigger] entries@[j]).0,
                        ) && *entries@[j].1 == self@[*entries@[j].0]
                },
                Self::obeys() ==> {
                    &&& d@.dom() =~= key_seq(entries@).take(i as int).to_set()
                    &&& forall|k: Key| #[trigger]
                        d@.dom().contains(k) ==> self@.dom().contains(k) && self@[k].desc_rel(
                            d@[k],
                        )
                },
            decreases n - i,
        {
            let (k, v) = (entries[i].0, entries[i].1);
            let kc = k.clone();
            proof {
                if Self::obeys() {
                    assert(vstd::pervasive::cloned(*k, kc));
                    assert(kc == *k);
                    assert(key_seq(entries@)[i as int] == *k);
                }
            }
            d.insert(kc, v.describe());
            proof {
                if Self::obeys() {
                    assert(key_seq(entries@).take(i as int + 1).to_set() =~= key_seq(
                        entries@,
                    ).take(i as int).to_set().insert(*k)) by {
                        crate::map::lemma_take_to_set_step(key_seq(entries@), i as int);
                    }
                }
            }
            i = i + 1;
        }
        proof {
            if Self::obeys() {
                assert(key_seq(entries@).take(n as int) =~= key_seq(entries@));
                assert(d@.dom() =~= self@.dom()) by {
                    assert forall|k: Key| self@.dom().contains(k) implies d@.dom().contains(
                        k,
                    ) by {
                        assert(key_seq(entries@).to_set().contains(k));
                    }
                }
            }
        }
        d
    }

    fn comparison(&self, other: &Self) -> (r: Changed<Self::Change>) {
        let ghost ma = self@;
        let ghost mb = other@;
        let mut changes: Vec<MapChange<Key, Value::Desc, Value::Change>> = Vec::new();
        let b_entries = btree_map_entries(other);
        let ghost qb = key_seq(b_entries@);
        let bn = b_entries.len();
        let mut i: usize = 0;
        while i < bn
            invariant
                i <= bn,
                bn == b_entries@.len(),
                ma == self@,
                mb == other@,
                qb == key_seq(b_entries@),
                qb.len() == b_entries@.len(),
                Self::obeys() ==> {
                    &&& ascending_enum(mb.dom(), qb)
                    &&& forall|j: int|
                        0 <= j < b_entries@.len() ==> mb.contains_key(
                            *(#[trigger] b_entries@[j]).0,
                        ) && *b_entries@[j].1 == mb[*b_entries@[j].0]
                },
                Self::obeys() ==> map_first_rel(ma, mb, qb, i as int, changes@),
            decreases bn - i,
        {
            let (k, v) = (b_entries[i].0, b_entries[i].1);
            proof {
                if Self::obeys() {
                    assert(qb[i as int] == *k);
                    assert(*b_entries@[i as int].1 == mb[*k]);
                }
            }
            let ghost pre = changes@;
            match self.get(k) {
                Option::Some(vo) => {
                    match vo.comparison(v) {
                        Changed::Unchanged => {},
                        Changed::Changed(ch) => {
                            let kc = k.clone();
                            proof {
                                if Self::obeys() {
                                    assert(vstd::pervasive::cloned(*k, kc));
                                }
                            }
                            changes.push(MapChange::Changed(kc, ch));
                        },
                    }
                },
                Option::None => {
                    let kc = k.clone();
                    proof {
                        if Self::obeys() {
                            assert(vstd::pervasive::cloned(*k, kc));
                        }
                    }
                    changes.push(MapChange::Added(kc, v.describe()));
                },
            }
            proof {
                if Self::obeys() {
                    assert(changes@.len() > pre.len() ==> changes@.drop_last() =~= pre);
                }
            }
            i = i + 1;
        }
        let ghost first_part = changes@;
        let a_entries = btree_map_entries(self);
        let ghost qa = key_seq(a_entries@);
        let an = a_entries.len();
        let mut j: usize = 0;
        while j < an
            invariant
                j <= an,
                an == a_entries@.len(),
                ma == self@,
                mb == other@,
                qa == key_seq(a_entries@),
                qa.len() == a_entries@.len(),
                qb == key_seq(b_entries@),
                first_part.len() <= changes@.len(),
                first_part == changes@.take(first_part.len() as int),
                Self::obeys() ==> {
                    &&& ascending_enum(ma.dom(), qa)
                    &&& ascending_enum(mb.dom(), qb)
                    &&& map_first_rel(ma, mb, qb, qb.len() as int, first_part)
                    &&& forall|p: int|
                        0 <= p < a_entries@.len() ==> ma.contains_key(
                            *(#[trigger] a_entries@[p]).0,
                        )
                },
                Self::obeys() ==> map_removed_rel(
                    mb,
                    qa,
                    j as int,
                    changes@.skip(first_part.len() as int),
                ),
            decreases an - j,
        {
            let k = a_entries[j].0;
            proof {
                if Self::obeys() {
                    assert(qa[j as int] == *k);
                }
            }
            let ghost pre = changes@;
            if !other.contains_key(k) {
                let kc = k.clone();
                proof {
                    if Self::obeys() {
                        assert(vstd::pervasive::cloned(*k, kc));
                    }
                }
                changes.push(MapChange::Removed(kc));
            }
            proof {
                if Self::obeys() {
                    assert(changes@.take(first_part.len() as int) =~= first_part);
                    if changes@.len() > pre.len() {
                        assert(changes@.skip(first_part.len() as int).drop_last() =~= pre.skip(
                            first_part.len() as int,
                        ));
                    }
                }
            }
            j = j + 1;
        }
        proof {
            if Self::obeys() {
                lemma_map_first_unchanged(ma, mb, qb, qb.len() as int, first_part);
                lemma_map_removed_empty(
                    mb,
                    qa,
                    qa.len() as int,
                    changes@.skip(first_part.len() as int),
                );
            }
        }
        if changes.is_empty() {
            proof {
                if Self::obeys() {
                    assert(first_part.len() == 0);
                    // Every key of the new mapping is present and unchanged
                    // in the old; every key of the old is present in the new.
                    assert forall|k: Key| mb.dom().contains(k) implies ma.dom().contains(k)
                        && ma[k].unchanged_with(&mb[k]) by {
                        assert(qb.to_set().contains(k));
                        let p = choose|p: int| 0 <= p < qb.len() && qb[p] == k;
                        assert(ma.contains_key(qb[p]));
                    }
                    assert forall|k: Key| ma.dom().contains(k) implies mb.dom().contains(k) by {
                        assert(qa.to_set().contains(k));
                        let p = choose|p: int| 0 <= p < qa.len() && qa[p] == k;
                        assert(mb.contains_key(qa[p]));
                    }
                    assert(ma.dom() =~= mb.dom());
                }
            }
            Changed::Unchanged
        } else {
            proof {
                if Self::obeys() {
                    if first_part.len() > 0 {
                        // Some key of the new mapping is missing or differs.
                        assert(!(forall|p: int|
                            0 <= p < qb.len() ==> ma.contains_key(#[trigger] qb[p])
                                && ma[qb[p]].unchanged_with(&mb[qb[p]])));
                        let p = choose|p: int|
                            !(0 <= p < qb.len() ==> ma.contains_key(#[trigger] qb[p])
                                && ma[qb[p]].unchanged_with(&mb[qb[p]]));
                        assert(qb.to_set().contains(qb[p]));
                        assert(mb.dom().contains(qb[p]));
                        if ma.dom() == mb.dom() {
                            assert(ma.contains_key(qb[p]));
                            assert(!map_unchanged(ma, mb));
                        }
                    } else {
                        let rest = changes@.skip(first_part.len() as int);
                        assert(rest.len() > 0);
                        assert(!(forall|p: int|
                            0 <= p < qa.len() ==> mb.contains_key(#[trigger] qa[p])));
                        let p = choose|p: int|
                            !(0 <= p < qa.len() ==> mb.contains_key(#[trigger] qa[p]));
                        assert(qa.to_set().contains(qa[p]));
                        assert(ma.dom().contains(qa[p]));
                        assert(!mb.dom().contains(qa[p]));
                        assert(ma.dom() != mb.dom());
                    }
                    assert(changes@.take(first_part.len() as int) =~= first_part);
                    assert(map_change_rel(ma, mb, changes@)) by {
                        assert(ascending_enum(ma.dom(), qa));
                        assert(ascending_enum(mb.dom(), qb));
                        assert(map_first_rel(
                            ma,
                            mb,
                            qb,
                            qb.len() as int,
                            changes@.take(first_part.len() as int),
                        ));
                        assert(map_removed_rel(
                            mb,
                            qa,
                            qa.len() as int,
                            changes@.skip(first_part.len() as int),
                        ));
                    }
                }
            }
            Changed::Changed(changes)
        }
    }
}

/// Relies on `HashMap::iter` and collecting into a `Vec`: one borrowed pair
/// per entry of the mapping, in no particular order.
#[verifier::external_body]
fn hash_map_entries<'a, K, V>(m: &'a HashMap<K, V>) -> (r: Vec<(&'a K, &'a V)>)
    ensures
        vstd::std_specs::hash::obeys_key_model::<K>() ==> {
            &&& key_seq(r@).no_duplicates()
            &&& key_seq(r@).to_set() == m@.dom()
            &&& forall|i: int|
                0 <= i < r@.len() ==> m@.contains_key(*(#[trigger] r@[i]).0) && *r@[i].1
                    == m@[*(r@[i].0)]
        },
{
    m.iter().collect()
}

/// Copy a hash mapping's entries, borrowing the values, into an ordered
/// mapping, so that the diff can walk the keys in a canonical order.
pub fn to_btreemap<'a, K: Clone + Ord, V>(map: &'a HashMap<K, V>) -> (r: BTreeMap<K, &'a V>)
    ensures
        vstd::std_specs::hash::obeys_key_model::<K>() && obeys_cmp::<K>() && clone_faithful::<K>()
            ==> {
            &&& (forall|k: K| r@.contains_key(k) <==> map@.contains_key(k))
            &&& (forall|k: K| #[trigger] map@.contains_key(k) ==> *r@[k] == map@[k])
        },
{
    let ghost ok = vstd::std_specs::hash::obeys_key_model::<K>() && obeys_cmp::<K>()
        && clone_faithful::<K>();
    let entries = hash_map_entries(map);
    let mut r: BTreeMap<K, &V> = BTreeMap::new();
    let n = entries.len();
    let mut i: usize = 0;
    while i < n
        invariant
            i <= n,
            n == entries@.len(),
            ok == (vstd::std_specs::hash::obeys_key_model::<K>() && obeys_cmp::<K>()
                && clone_faithful::<K>()),
            ok ==> {
                &&& key_seq(entries@).no_duplicates()
                &&& key_seq(entries@).to_set() == map@.dom()
                &&& forall|j: int|
                    0 <= j < entries@.len() ==> map@.contains_key(*(#[trigger] entries@[j]).0)
                        && *entries@[j].1 == map@[*(entries@[j].0)]
            },
            ok ==> {
                &&& r@.dom() =~= key_seq(entries@).take(i as int).to_set()
                &&& forall|k: K| #[trigger]
                    r@.dom().contains(k) ==> map@.contains_key(k) && *r@[k] == map@[k]
            },
        decreases n - i,
    {
        let (k, v) = (entries[i].0, entries[i].1);
        let kc = k.clone();
        proof {
            if ok {
                assert(vstd::pervasive::cloned(*k, kc));
                assert(kc == *k);
                assert(key_seq(entries@)[i as int] == *k);
            }
        }
        r.insert(kc, v);
        proof {
            if ok {
                lemma_take_to_set_step(key_seq(entries@), i as int);
            }
        }
        i = i + 1;
    }
    proof {
        if ok {
            assert(key_seq(entries@).take(n as int) =~= key_seq(entries@));
            assert forall|k: K| map@.contains_key(k) implies r@.contains_key(k) by {
                assert(key_seq(entries@).to_set().contains(k));
            }
        }
    }
    r
}

/// The first-pass relation over borrowed values is the first-pass relation
/// over the values themselves.
proof fn lemma_map_first_refs<Key, Value: Comparable>(
    mar: Map<Key, &Value>,
    mbr: Map<Key, &Value>,
    ma: Map<Key, Value>,
    mb: Map<Key, Value>,
    qb: Seq<Key>,
    upto: int,
    es: Seq<MapChange<Key, Value::Desc, Value::Change>>,
)
    requires
        forall|k: Key| mar.contains_key(k) <==> ma.contains_key(k),
        forall|k: Key| #[trigger] ma.contains_key(k) ==> *mar[k] == ma[k],
        forall|k: Key| mbr.contains_key(k) <==> mb.contains_key(k),
        forall|k: Key| #[trigger] mb.contains_key(k) ==> *mbr[k] == mb[k],
        forall|j: int| 0 <= j < upto ==> mb.contains_key(#[trigger] qb[j]),
        map_first_rel(mar, mbr, qb, upto, es),
    ensures
        map_first_rel(ma, mb, qb, upto, es),
    decreases upto,
{
    if upto > 0 {
        let k = qb[upto - 1];
        if !mar.contains_key(k) {
            lemma_map_first_refs(mar, mbr, ma, mb, qb, upto - 1, es.drop_last());
            assert(*mbr[k] == mb[k]);
        } else if !mar[k].unchanged_with(&mbr[k]) {
            lemma_map_first_refs(mar, mbr, ma, mb, qb, upto - 1, es.drop_last());
            assert(*mar[k] == ma[k]);
            assert(*mbr[k] == mb[k]);
        } else {
            assert(*mar[k] == ma[k]);
            assert(*mbr[k] == mb[k]);
            lemma_map_first_refs(mar, mbr, ma, mb, qb, upto - 1, es);
        }
    }
}

/// The removal relation over borrowed values is the removal relation over
/// the values themselves.
proof fn lemma_map_removed_refs<Key, Value: Comparable>(
    mbr: Map<Key, &Value>,
    mb: Map<Key, Value>,
    qa: Seq<Key>,
    upto: int,
    es: Seq<MapChange<Key, Value::Desc, Value::Change>>,
)
    requires
        forall|k: Key| mbr.contains_key(k) <==> mb.contains_key(k),
        map_removed_rel(mbr, qa, upto, es),
    ensures
        map_removed_rel(mb, qa, upto, es),
    decreases upto,
{
    if upto > 0 {
        if !mbr.contains_key(qa[upto - 1]) {
            lemma_map_removed_refs(mbr, mb, qa, upto - 1, es.drop_last());
        } else {
            lemma_map_removed_refs(mbr, mb, qa, upto - 1, es);
        }
    }
}

impl<Key: Ord + Clone + core::fmt::Debug, Value: Comparable> Comparable for HashMap<Key, Value> {
    type Desc = BTreeMap<Key, Value::Desc>;

    type Change = Vec<MapChange<Key, Value::Desc, Value::Change>>;

    open spec fn obeys() -> bool {
        Value::obeys() && obeys_cmp::<Key>() && clone_faithful::<Key>()
            && vstd::std_specs::hash::obeys_key_model::<Key>()
    }

    open spec fn desc_rel(&self, d: BTreeMap<Key, Value::Desc>) -> bool {
        &&& d@.dom() == self@.dom()
        &&& forall|k: Key| #[trigger]
            self@.dom().contains(k) ==> self@[k].desc_rel(d@[k])
    }

    open spec fn unchanged_with(&self, other: &HashMap<Key, Value>) -> bool {
        map_unchanged(self@, other@)
    }

    open spec fn change_rel(&self, other: &HashMap<Key, Value>, c: Self::Change) -> bool {
        map_change_rel(self@, other@, c@)
    }

    proof fn lemma_reflexive(&self) {
        assert forall|k: Key| #[trigger]
            self@.dom().contains(k) implies self@[k].unchanged_with(&self@[k]) by {
            self@[k].lemma_reflexive();
        }
    }

    fn describe(&self) -> (d: Self::Desc) {
        let bt = to_btreemap(self);
        let d = bt.describe();
        proof {
            if Self::obeys() {
                assert(bt@.dom() =~= self@.dom()) by {
                    assert forall|k: Key| bt@.dom().contains(k) implies self@.dom().contains(
                        k,
                    ) by {
                        assert(bt@.contains_key(k));
                    }
                    assert forall|k: Key| self@.dom().contains(k) implies bt@.dom().contains(
                        k,
                    ) by {
                        assert(self@.contains_key(k));
                    }
                }
                assert forall|k: Key| #[trigger]
                    self@.dom().contains(k) implies self@[k].desc_rel(d@[k]) by {
                    assert(bt@.dom().contains(k));
                    assert(bt@[k].desc_rel(d@[k]));
                    assert(*bt@[k] == self@[k]);
                }
            }
        }
        d
    }

    fn comparison(&self, other: &Self) -> (r: Changed<Self::Change>) {
        let bta = to_btreemap(self);
        let btb = to_btreemap(other);
        let r = bta.comparison(&btb);
        proof {
            if Self::obeys() {
                assert(bta@.dom() =~= self@.dom()) by {
                    assert forall|k: Key| bta@.dom().contains(k) implies self@.dom().contains(
                        k,
                    ) by {
                        assert(bta@.contains_key(k));
                    }
                    assert forall|k: Key| self@.dom().contains(k) implies bta@.dom().contains(
                        k,
                    ) by {
                        assert(self@.contains_key(k));
                    }
                }
                assert(btb@.dom() =~= other@.dom()) by {
                    assert forall|k: Key| btb@.dom().contains(k) implies other@.dom().contains(
                        k,
                    ) by {
                        assert(btb@.contains_key(k));
                    }
                    assert forall|k: Key| other@.dom().contains(k) implies btb@.dom().contains(
                        k,
                    ) by {
                        assert(other@.contains_key(k));
                    }
                }
                // Unchanged means the same thing at both levels.
                if map_unchanged(bta@, btb@) {
                    assert forall|k: Key| #[trigger]
                        self@.dom().contains(k) implies self@[k].unchanged_with(&other@[k]) by {
                        assert(bta@[k].unchanged_with(&btb@[k]));
                        assert(*bta@[k] == self@[k]);
                        assert(*btb@[k] == other@[k]);
                    }
                }
                if map_unchanged(self@, other@) {
                    assert forall|k: Key| #[trigger]
                        bta@.dom().contains(k) implies bta@[k].unchanged_with(&btb@[k]) by {
                        assert(self@[k].unchanged_with(&other@[k]));
                        assert(*bta@[k] == self@[k]);
                        assert(*btb@[k] == other@[k]);
                    }
                }
                match &r {
                    Changed::Unchanged => {},
                    Changed::Changed(c) => {
                        let (qa, qb, na): (Seq<Key>, Seq<Key>, int) = choose|
                            qa: Seq<Key>,
                            qb: Seq<Key>,
                            na: int,
                        |
                            {
                                &&& #[trigger] ascending_enum(bta@.dom(), qa)
                                &&& #[trigger] ascending_enum(btb@.dom(), qb)
                                &&& 0 <= na <= c@.len()
                                &&& #[trigger] map_first_rel(
                                    bta@,
                                    btb@,
                                    qb,
                                    qb.len() as int,
                                    c@.take(na),
                                )
                                &&& map_removed_rel(btb@, qa, qa.len() as int, c@.skip(na))
                            };
                        assert forall|j: int| 0 <= j < qb.len() implies btb@.contains_key(
                            #[trigger] qb[j],
                        ) by {
                            assert(qb.to_set().contains(qb[j]));
                        }
                        lemma_map_first_refs(
                            bta@,
                            btb@,
                            self@,
                            other@,
                            qb,
                            qb.len() as int,
                            c@.take(na),
                        );
                        lemma_map_removed_refs(btb@, other@, qa, qa.len() as int, c@.skip(na));
                        assert(ascending_enum(self@.dom(), qa));
                        assert(ascending_enum(other@.dom(), qb));
                    },
                }
            }
        }
        r
    }
}

/// Builds a hash mapping step by step, so that tests can state the exact
/// construction they start from.
pub struct HashMapBuilder {
    pub elements: Vec<(i32, i32)>,
}

/// The mapping a list of key-value pairs builds up, later pairs winning.
pub open spec fn map_of_pairs(s: Seq<(i32, i32)>) -> Map<i32, i32>
    decreases s,
{
    if s.len() == 0 {
        Map::empty()
    } else {
        map_of_pairs(s.drop_last()).insert(s.last().0, s.last().1)
    }
}

impl HashMapBuilder {
    /// Start with no entries.
    pub fn new() -> (r: HashMapBuilder)
        ensures
            r.elements@ == Seq::<(i32, i32)>::empty(),
    {
        HashMapBuilder { elements: Vec::new() }
    }

    /// Record one more entry.
    pub fn add_element(self, key: i32, value: i32) -> (r: HashMapBuilder)
        ensures
            r.elements@ == self.elements@.push((key, value)),
    {
        let mut elements = self.elements;
        elements.push((key, value));
        HashMapBuilder { elements }
    }

    /// Build the mapping the recorded entries describe.
    pub fn create(self) -> (r: HashMap<i32, i32>)
        ensures
            r@ == map_of_pairs(self.elements@),
    {
        broadcast use vstd::std_specs::hash::group_hash_axioms;

        let mut map: HashMap<i32, i32> = HashMap::new();
        let n = self.elements.len();
        let mut i: usize = 0;
        while i < n
            invariant
                i <= n,
                n == self.elements@.len(),
                map@ == map_of_pairs(self.elements@.take(i as int)),
            decreases n - i,
        {
            proof {
                assert(self.elements@.take(i as int + 1).drop_last() =~= self.elements@.take(
                    i as int,
                ));
                assert(self.elements@.take(i as int + 1).last() == self.elements@[i as int]);
            }
            map.insert(self.elements[i].0, self.elements[i].1);
            i = i + 1;
        }
        proof {
            assert(self.elements@.take(n as int) =~= self.elements@);
        }
        map
    }
}

/// Taking one more element extends the prefix set by that element.
pub proof fn lemma_take_to_set_step<K>(q: Seq<K>, i: int)
    requires
        0 <= i < q.len(),
    ensures
        q.take(i + 1).to_set() == q.take(i).to_set().insert(q[i]),
{
    assert(q.take(i + 1).to_set() =~= q.take(i).to_set().insert(q[i])) by {
        assert forall|x: K| q.take(i + 1).to_set().contains(x) implies q.take(
            i,
        ).to_set().insert(q[i]).contains(x) by {
            let j = choose|j: int| 0 <= j < q.take(i + 1).len() && #[trigger] q.take(i + 1)[j] == x;
            if j < i {
                assert(q.take(i)[j] == x);
                assert(q.take(i).contains(x));
            }
        }
        assert forall|x: K| q.take(i).to_set().insert(q[i]).contains(x) implies q.take(
            i + 1,
        ).to_set().contains(x) by {
            if q.take(i).to_set().contains(x) {
                let j = choose|j: int| 0 <= j < q.take(i).len() && #[trigger] q.take(i)[j] == x;
                assert(q.take(i + 1)[j] == x);
                assert(q.take(i + 1).contains(x));
            } else {
                assert(q.take(i + 1)[i] == x);
                assert(q.take(i + 1).contains(x));
            }
        }
    }
}

} // verus!
