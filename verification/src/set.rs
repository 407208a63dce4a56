use crate::types::{Changed, Comparable};
use std::collections::BTreeSet;
use std::collections::HashSet;
use vstd::laws_cmp::obeys_cmp;
use vstd::prelude::*;
use vstd::std_specs::cmp::OrdSpec;

verus! {

broadcast use vstd::std_specs::btree::group_btree_axioms, vstd::laws_cmp::lemma_ref_obeys_cmp_spec;

/// One positional edit in an ordered-sequence diff: an element added at an
/// index of the newer sequence, changed in place, or removed from an index of
/// the older sequence.
#[derive(PartialEq, Debug)]
pub enum VecChange<Desc, Change> {
    Added(usize, Desc),
    Changed(usize, Change),
    Removed(usize, Desc),
}

/// The indices below `upto` at which the two sequences hold differing
/// elements, in increasing order.
pub open spec fn diff_indices<V: Comparable>(a: Seq<V>, b: Seq<V>, upto: int) -> Seq<int>
    decreases upto,
{
    if upto <= 0 {
        Seq::empty()
    } else {
        let rest = diff_indices(a, b, upto - 1);
        if !a[upto - 1].unchanged_with(&b[upto - 1]) {
            rest.push(upto - 1)
        } else {
            rest
        }
    }
}

/// All members of `diff_indices` lie below `upto`, and the list is empty
/// exactly when every position below `upto` is unchanged.
pub proof fn lemma_diff_indices_props<V: Comparable>(a: Seq<V>, b: Seq<V>, upto: int)
    ensures
        forall|k: int|
            0 <= k < diff_indices(a, b, upto).len() ==> 0 <= #[trigger] diff_indices(
                a,
                b,
                upto,
            )[k] < upto,
        diff_indices(a, b, upto).len() == 0 <==> (forall|j: int|
            0 <= j < upto ==> a[j].unchanged_with(&b[j])),
    decreases upto,
{
    if upto > 0 {
        lemma_diff_indices_props(a, b, upto - 1);
    }
}

/// Exactly when `es` is the positional diff of `a` against `b`: the in-place
/// changes at the differing shared indices in increasing order, then the
/// removals past the shorter length (when `a` is longer) or the additions
/// (when `b` is longer).
pub open spec fn vec_change_rel<V: Comparable>(
    a: Seq<V>,
    b: Seq<V>,
    es: Seq<VecChange<V::Desc, V::Change>>,
) -> bool {
    let m = if a.len() <= b.len() {
        a.len() as int
    } else {
        b.len() as int
    };
    let diffs = diff_indices(a, b, m);
    let rems = a.len() - m;
    &&& es.len() == diffs.len() + (a.len() - m) + (b.len() - m)
    &&& forall|k: int|
        0 <= k < diffs.len() ==> (#[trigger] es[k] matches VecChange::Changed(i, ch) && i as int
            == diffs[k] && a[diffs[k]].change_rel(&b[diffs[k]], ch))
    &&& forall|k: int|
        diffs.len() <= k < diffs.len() + rems ==> (#[trigger] es[k] matches VecChange::Removed(
            i,
            d,
        ) && i as int == m + (k - diffs.len()) && a[m + (k - diffs.len())].desc_rel(d))
    &&& forall|k: int|
        diffs.len() + rems <= k < es.len() ==> (#[trigger] es[k] matches VecChange::Added(i, d)
            && i as int == m + (k - diffs.len() - rems) && b[m + (k - diffs.len()
            - rems)].desc_rel(d))
}

impl<Value: PartialEq + Comparable> Comparable for Vec<Value> {
    type Desc = Vec<Value::Desc>;

    type Change = Vec<VecChange<Value::Desc, Value::Change>>;

    open spec fn obeys() -> bool {
        Value::obeys()
    }

    open spec fn desc_rel(&self, d: Vec<Value::Desc>) -> bool {
        &&& d@.len() == self@.len()
        &&& forall|i: int| 0 <= i < self@.len() ==> self@[i].desc_rel(#[trigger] d@[i])
    }

    open spec fn unchanged_with(&self, other: &Vec<Value>) -> bool {
        &&& self@.len() == other@.len()
        &&& forall|i: int|
            0 <= i < self@.len() ==> #[trigger] self@[i].unchanged_with(&other@[i])
    }

    open spec fn change_rel(&self, other: &Vec<Value>, c: Self::Change) -> bool {
        vec_change_rel(self@, other@, c@)
    }

    proof fn lemma_reflexive(&self) {
        assert forall|i: int| 0 <= i < self@.len() implies #[trigger] self@[i].unchanged_with(
            &self@[i],
        ) by {
            self@[i].lemma_reflexive();
        }
    }

    fn describe(&self) -> (d: Self::Desc) {
        let mut d: Vec<Value::Desc> = Vec::new();
        let n = self.len();
        let mut i: usize = 0;
        while i < n
            invariant
                i <= n,
                n == self@.len(),
                d@.len() == i as int,
                Value::obeys() ==> forall|j: int|
                    0 <= j < i as int ==> self@[j].desc_rel(#[trigger] d@[j]),
            decreases n - i,
        {
            d.push(self[i].describe());
            i = i + 1;
        }
        d
    }

    fn comparison(&self, other: &Self) -> (r: Changed<Self::Change>) {
        let ghost a = self@;
        let ghost b = other@;
        let ghost m: int = if a.len() <= b.len() {
            a.len() as int
        } else {
            b.len() as int
        };
        let mut changes: Vec<VecChange<Value::Desc, Value::Change>> = Vec::new();
        let other_len = other.len();
        let n = self.len();
        let mut i: usize = 0;
        while i < n
            invariant
                i <= n,
                n == a.len(),
                other_len == b.len(),
                a == self@,
                b == other@,
                m == if a.len() <= b.len() {
                    a.len() as int
                } else {
                    b.len() as int
                },
                Value::obeys() ==> {
                    let c = if i as int <= m {
                        i as int
                    } else {
                        m
                    };
                    let diffs = diff_indices(a, b, c);
                    let rems = if i as int <= m {
                        0int
                    } else {
                        i as int - m
                    };
                    &&& changes@.len() == diffs.len() + rems
                    &&& forall|k: int|
                        0 <= k < diffs.len() ==> (#[trigger] changes@[k] matches VecChange::Changed(
                            ci,
                            ch,
                        ) && ci as int == diffs[k] && a[diffs[k]].change_rel(&b[diffs[k]], ch))
                    &&& forall|k: int|
                        diffs.len() <= k < changes@.len() ==> (#[trigger] changes@[k] matches
                            VecChange::Removed(ci, d) && ci as int == m + (k - diffs.len()) && a[m
                            + (k - diffs.len())].desc_rel(d))
                },
            decreases n - i,
        {
            if i >= other_len {
                changes.push(VecChange::Removed(i, self[i].describe()));
            } else {
                match self[i].comparison(&other[i]) {
                    Changed::Unchanged => {},
                    Changed::Changed(ch) => {
                        changes.push(VecChange::Changed(i, ch));
                    },
                }
            }
            i = i + 1;
        }
        if other_len > n {
            let mut j: usize = n;
            while j < other_len
                invariant
                    n <= j <= other_len,
                    n == a.len(),
                    other_len == b.len(),
                    a == self@,
                    b == other@,
                    m == a.len() as int,
                    Value::obeys() ==> {
                        let diffs = diff_indices(a, b, m);
                        &&& changes@.len() == diffs.len() + (j as int - m)
                        &&& forall|k: int|
                            0 <= k < diffs.len() ==> (#[trigger] changes@[k] matches
                                VecChange::Changed(ci, ch) && ci as int == diffs[k]
                                && a[diffs[k]].change_rel(&b[diffs[k]], ch))
                        &&& forall|k: int|
                            diffs.len() <= k < changes@.len() ==> (#[trigger] changes@[k] matches
                                VecChange::Added(ci, d) && ci as int == m + (k - diffs.len()) && b[m
                                + (k - diffs.len())].desc_rel(d))
                    },
                decreases other_len - j,
            {
                changes.push(VecChange::Added(j, other[j].describe()));
                j = j + 1;
            }
        }
        proof {
            lemma_diff_indices_props(a, b, m);
        }
        if changes.is_empty() {
            Changed::Unchanged
        } else {
            Changed::Changed(changes)
        }
    }
}

/// One edit in a set diff: an element appeared, or disappeared.  Elements are
/// compared by whole-value identity, so no in-place change exists.
#[derive(PartialEq, Debug)]
pub enum SetChange<Desc> {
    Added(Desc),
    Removed(Desc),
}

/// The values behind a sequence of borrows, in order.
pub open spec fn deref_seq<V>(q: Seq<&V>) -> Seq<V> {
    q.map_values(|x: &V| *x)
}

/// The elements of the prefix `q[..upto]` that are not members of `s`, in
/// order.
pub open spec fn kept_out<V>(q: Seq<V>, s: Set<V>, upto: int) -> Seq<V>
    decreases upto,
{
    if upto <= 0 {
        Seq::empty()
    } else {
        let rest = kept_out(q, s, upto - 1);
        if !s.contains(q[upto - 1]) {
            rest.push(q[upto - 1])
        } else {
            rest
        }
    }
}

/// The kept-out elements lie outside `s` and come from the prefix; there are
/// none exactly when the whole prefix is inside `s`.
pub proof fn lemma_kept_out_props<V>(q: Seq<V>, s: Set<V>, upto: int)
    ensures
        kept_out(q, s, upto).len() == 0 <==> (forall|j: int|
            0 <= j < upto ==> s.contains(#[trigger] q[j])),
        forall|k: int|
            0 <= k < kept_out(q, s, upto).len() ==> !s.contains(#[trigger] kept_out(q, s, upto)[k]),
        forall|k: int|
            0 <= k < kept_out(q, s, upto).len() ==> exists|j: int|
                0 <= j < upto && q[j] == #[trigger] kept_out(q, s, upto)[k],
    decreases upto,
{
    if upto > 0 {
        lemma_kept_out_props(q, s, upto - 1);
        assert forall|k: int| 0 <= k < kept_out(q, s, upto).len() implies exists|j: int|
            0 <= j < upto && q[j] == #[trigger] kept_out(q, s, upto)[k] by {
            if k < kept_out(q, s, upto - 1).len() {
                assert(kept_out(q, s, upto)[k] == kept_out(q, s, upto - 1)[k]);
                let j0 = choose|j: int|
                    0 <= j < upto - 1 && q[j] == kept_out(q, s, upto - 1)[k];
                assert(0 <= j0 < upto && q[j0] == kept_out(q, s, upto)[k]);
            } else {
                assert(q[upto - 1] == kept_out(q, s, upto)[k]);
            }
        }
    }
}

/// An enumeration of a set in strictly ascending order: every element once.
pub open spec fn ascending_enum<V: Ord>(s: Set<V>, q: Seq<V>) -> bool {
    &&& q.to_set() == s
    &&& q.no_duplicates()
    &&& forall|i: int, j: int|
        #![trigger q[i], q[j]]
        0 <= i < j < q.len() ==> q[i].cmp_spec(&q[j]) == core::cmp::Ordering::Less
}

/// Exactly when `es` is the canonical diff between two sets: the elements of
/// the new set missing from the old, in ascending order, described as added;
/// then the elements of the old set missing from the new, in ascending
/// order, described as removed.
pub open spec fn set_entries_rel<V: Ord + Comparable>(
    sa: Set<V>,
    sb: Set<V>,
    qa: Seq<V>,
    qb: Seq<V>,
    es: Seq<SetChange<V::Desc>>,
) -> bool {
    let adds = kept_out(qb, sa, qb.len() as int);
    let rems = kept_out(qa, sb, qa.len() as int);
    &&& es.len() == adds.len() + rems.len()
    &&& forall|k: int|
        0 <= k < adds.len() ==> (#[trigger] es[k] matches SetChange::Added(d) && adds[k].desc_rel(
            d,
        ))
    &&& forall|k: int|
        adds.len() <= k < es.len() ==> (#[trigger] es[k] matches SetChange::Removed(d) && rems[k
            - adds.len()].desc_rel(d))
}

/// Exactly when `es` is the canonical diff between two sets, for some (under
/// a lawful order, the unique) ascending enumerations of the two.
pub open spec fn set_change_rel<V: Ord + Comparable>(
    sa: Set<V>,
    sb: Set<V>,
    es: Seq<SetChange<V::Desc>>,
) -> bool {
    exists|qa: Seq<V>, qb: Seq<V>|
        {
            &&& #[trigger] ascending_enum(sa, qa)
            &&& #[trigger] ascending_enum(sb, qb)
            &&& set_entries_rel(sa, sb, qa, qb, es)
        }
}

/// Relies on `BTreeSet::iter` and collecting into a `Vec`: finitely many
/// borrows, one per element of the set, visited in ascending order.
#[verifier::external_body]
fn btree_set_elems<'a, V: Ord>(s: &'a BTreeSet<V>) -> (r: Vec<&'a V>)
    ensures
        obeys_cmp::<V>() ==> ascending_enum(s@, deref_seq(r@)),
{
    s.iter().collect()
}

impl<Value: Ord + Comparable> Comparable for BTreeSet<Value> {
    type Desc = Vec<Value::Desc>;

    type Change = Vec<SetChange<Value::Desc>>;

    open spec fn obeys() -> bool {
        Value::obeys() && obeys_cmp::<Value>()
    }

    open spec fn desc_rel(&self, d: Vec<Value::Desc>) -> bool {
        exists|q: Seq<Value>|
            {
                &&& #[trigger] ascending_enum(self@, q)
                &&& d@.len() == q.len()
                &&& forall|k: int| 0 <= k < q.len() ==> q[k].desc_rel(#[trigger] d@[k])
            }
    }

    open spec fn unchanged_with(&self, other: &BTreeSet<Value>) -> bool {
        self@ == other@
    }

    open spec fn change_rel(&self, other: &BTreeSet<Value>, c: Self::Change) -> bool {
        set_change_rel(self@, other@, c@)
    }

    proof fn lemma_reflexive(&self) {
    }

    fn describe(&self) -> (d: Self::Desc) {
        let elems = btree_set_elems(self);
        let ghost q = deref_seq(elems@);
        let mut d: Vec<Value::Desc> = Vec::new();
        let n = elems.len();
        let mut i: usize = 0;
        while i < n
            invariant
                i <= n,
                n == elems@.len(),
                q == deref_seq(elems@),
                q.len() == elems@.len(),
                Self::obeys() ==> ascending_enum(self@, q),
                d@.len() == i as int,
                Value::obeys() ==> forall|k: int|
                    0 <= k < i as int ==> q[k].desc_rel(#[trigger] d@[k]),
            decreases n - i,
        {
            assert(q[i as int] == *elems@[i as int]);
            d.push(elems[i].describe());
            i = i + 1;
        }
        d
    }

    fn comparison(&self, other: &Self) -> (r: Changed<Self::Change>) {
        let ghost sa = self@;
        let ghost sb = other@;
        let mut changes: Vec<SetChange<Value::Desc>> = Vec::new();
        let b_elems = btree_set_elems(other);
        let ghost qb = deref_seq(b_elems@);
        let bn = b_elems.len();
        let mut i: usize = 0;
        while i < bn
            invariant
                i <= bn,
                bn == b_elems@.len(),
                sa == self@,
                sb == other@,
                qb == deref_seq(b_elems@),
                qb.len() == b_elems@.len(),
                Self::obeys() ==> ascending_enum(sb, qb),
                Self::obeys() ==> {
                    let adds = kept_out(qb, sa, i as int);
                    &&& changes@.len() == adds.len()
                    &&& forall|k: int|
                        0 <= k < adds.len() ==> (#[trigger] changes@[k] matches SetChange::Added(d)
                            && adds[k].desc_rel(d))
                },
            decreases bn - i,
        {
            assert(qb[i as int] == *b_elems@[i as int]);
            if !self.contains(b_elems[i]) {
                changes.push(SetChange::Added(b_elems[i].describe()));
            }
            i = i + 1;
        }
        let ghost adds = kept_out(qb, sa, qb.len() as int);
        let ghost adds_part = changes@;
        let a_elems = btree_set_elems(self);
        let ghost qa = deref_seq(a_elems@);
        let an = a_elems.len();
        let mut j: usize = 0;
        while j < an
            invariant
                j <= an,
                an == a_elems@.len(),
                sa == self@,
                sb == other@,
                qa == deref_seq(a_elems@),
                qa.len() == a_elems@.len(),
                qb == deref_seq(b_elems@),
                adds == kept_out(qb, sa, qb.len() as int),
                adds_part == changes@.take(adds_part.len() as int),
                adds_part.len() <= changes@.len(),
                Self::obeys() ==> ascending_enum(sa, qa),
                Self::obeys() ==> ascending_enum(sb, qb),
                Self::obeys() ==> {
                    let rems = kept_out(qa, sb, j as int);
                    &&& adds_part.len() == adds.len()
                    &&& changes@.len() == adds_part.len() + rems.len()
                    &&& forall|k: int|
                        0 <= k < adds.len() ==> (#[trigger] changes@[k] matches SetChange::Added(d)
                            && adds[k].desc_rel(d))
                    &&& forall|k: int|
                        adds_part.len() <= k < changes@.len() ==> (#[trigger] changes@[k] matches
                            SetChange::Removed(d) && rems[k - adds_part.len()].desc_rel(d))
                },
            decreases an - j,
        {
            assert(qa[j as int] == *a_elems@[j as int]);
            if !other.contains(a_elems[j]) {
                changes.push(SetChange::Removed(a_elems[j].describe()));
            }
            proof {
                assert(changes@.take(adds_part.len() as int) =~= adds_part);
            }
            j = j + 1;
        }
        proof {
            if Self::obeys() {
                lemma_kept_out_props(qb, sa, qb.len() as int);
                lemma_kept_out_props(qa, sb, qa.len() as int);
            }
        }
        if changes.is_empty() {
            proof {
                if Self::obeys() {
                    // No additions and no removals: each set is inside the
                    // other.
                    assert forall|x: Value| sb.contains(x) implies sa.contains(x) by {
                        assert(qb.to_set().contains(x));
                        let k = choose|k: int| 0 <= k < qb.len() && qb[k] == x;
                        assert(sa.contains(qb[k]));
                    }
                    assert forall|x: Value| sa.contains(x) implies sb.contains(x) by {
                        assert(qa.to_set().contains(x));
                        let k = choose|k: int| 0 <= k < qa.len() && qa[k] == x;
                        assert(sb.contains(qa[k]));
                    }
                    assert(sa =~= sb);
                }
            }
            Changed::Unchanged
        } else {
            proof {
                if Self::obeys() {
                    // Some element is in one set and not the other, so the
                    // sets differ.
                    if adds.len() > 0 {
                        assert(!sa.contains(adds[0]));
                        let jw = choose|jw: int| 0 <= jw < qb.len() && qb[jw] == adds[0];
                        assert(qb.to_set().contains(qb[jw]));
                        assert(sb.contains(adds[0]));
                        assert(sa != sb);
                    } else {
                        let rems = kept_out(qa, sb, qa.len() as int);
                        assert(rems.len() > 0);
                        assert(!sb.contains(rems[0]));
                        let jw = choose|jw: int| 0 <= jw < qa.len() && qa[jw] == rems[0];
                        assert(qa.to_set().contains(qa[jw]));
                        assert(sa.contains(rems[0]));
                        assert(sa != sb);
                    }
                    assert(changes@.take(adds_part.len() as int) =~= adds_part);
                    assert(set_entries_rel(sa, sb, qa, qb, changes@));
                }
            }
            Changed::Changed(changes)
        }
    }
}

/// Canonicalization: what a set comparison may report depends on the sets'
/// contents alone, never on how the backing collections were built up or in
/// what order a hash-based collection happens to iterate.
pub proof fn lemma_set_comparison_canonical<V: Ord + Comparable>(
    sa1: Set<V>,
    sb1: Set<V>,
    sa2: Set<V>,
    sb2: Set<V>,
    es: Seq<SetChange<V::Desc>>,
)
    requires
        sa1 == sa2,
        sb1 == sb2,
    ensures
        set_change_rel(sa1, sb1, es) == set_change_rel(sa2, sb2, es),
        (sa1 == sb1) == (sa2 == sb2),
{
}

/// Relies on `HashSet::iter` and collecting into a `Vec`: finitely many
/// borrows, one per element of the set, in no particular order.
#[verifier::external_body]
fn hash_set_elems<'a, V: core::hash::Hash + Eq>(s: &'a HashSet<V>) -> (r: Vec<&'a V>)
    ensures
        vstd::std_specs::hash::obeys_key_model::<V>() ==> {
            &&& deref_seq(r@).no_duplicates()
            &&& deref_seq(r@).to_set() == s@
        },
{
    s.iter().collect()
}

/// Sort borrows of a hash set's elements into an ordered set, so that the
/// diff can walk them in a canonical order.
fn to_btree_refs<'a, V: core::hash::Hash + Ord>(s: &'a HashSet<V>) -> (r: BTreeSet<&'a V>)
    ensures
        vstd::std_specs::hash::obeys_key_model::<V>() && obeys_cmp::<V>() ==> {
            &&& (forall|x: &V| r@.contains(x) <==> s@.contains(*x))
            &&& r@.map(|x: &V| *x) == s@
        },
{
    let elems = hash_set_elems(s);
    let ghost ok = vstd::std_specs::hash::obeys_key_model::<V>() && obeys_cmp::<V>();
    let mut r: BTreeSet<&V> = BTreeSet::new();
    let n = elems.len();
    let mut i: usize = 0;
    while i < n
        invariant
            i <= n,
            n == elems@.len(),
            ok == (vstd::std_specs::hash::obeys_key_model::<V>() && obeys_cmp::<V>()),
            ok ==> obeys_cmp::<&V>(),
            ok ==> r@ == elems@.take(i as int).to_set(),
        decreases n - i,
    {
        r.insert(elems[i]);
        proof {
            if ok {
                assert(elems@.take(i as int + 1).to_set() =~= elems@.take(i as int).to_set().insert(
                    elems@[i as int],
                )) by {
                    assert forall|x: &V| elems@.take(i as int + 1).contains(x) implies elems@.take(
                        i as int,
                    ).to_set().insert(elems@[i as int]).contains(x) by {
                        let j = choose|j: int|
                            0 <= j < elems@.take(i as int + 1).len() && #[trigger] elems@.take(
                                i as int + 1,
                            )[j] == x;
                        if j < i as int {
                            assert(elems@.take(i as int).contains(x)) by {
                                assert(elems@.take(i as int)[j] == x);
                            }
                        }
                    }
                    assert forall|x: &V|
                        elems@.take(i as int).to_set().insert(
                            elems@[i as int],
                        ).contains(x) implies elems@.take(i as int + 1).contains(x) by {
                        if elems@.take(i as int).contains(x) {
                            let j = choose|j: int|
                                0 <= j < elems@.take(i as int).len() && #[trigger] elems@.take(
                                    i as int,
                                )[j] == x;
                            assert(elems@.take(i as int + 1)[j] == x);
                        } else {
                            assert(elems@.take(i as int + 1)[i as int] == x);
                        }
                    }
                }
            }
        }
        i = i + 1;
    }
    proof {
        if ok {
            assert(elems@.take(n as int) =~= elems@);
            // Membership in the sorted borrows matches membership in the set.
            assert forall|x: &V| r@.contains(x) <==> s@.contains(*x) by {
                if r@.contains(x) {
                    let j = choose|j: int| 0 <= j < elems@.len() && elems@[j] == x;
                    assert(deref_seq(elems@)[j] == *x);
                    assert(deref_seq(elems@).to_set().contains(*x)) by {
                        assert(deref_seq(elems@).contains(*x));
                    }
                }
                if s@.contains(*x) {
                    assert(deref_seq(elems@).to_set().contains(*x));
                    let j = choose|j: int|
                        0 <= j < deref_seq(elems@).len() && deref_seq(elems@)[j] == *x;
                    assert(*elems@[j] == *x);
                    assert(elems@[j] == x);
                    assert(elems@.contains(elems@[j]));
                }
            }
            assert(r@.map(|x: &V| *x) =~= s@) by {
                assert forall|y: V| r@.map(|x: &V| *x).contains(y) implies s@.contains(y) by {
                    let x = choose|x: &V| r@.contains(x) && y == *x;
                    assert(s@.contains(*x));
                }
                assert forall|y: V| s@.contains(y) implies r@.map(|x: &V| *x).contains(y) by {
                    assert(deref_seq(elems@).to_set().contains(y));
                    let j = choose|j: int|
                        0 <= j < deref_seq(elems@).len() && deref_seq(elems@)[j] == y;
                    assert(*elems@[j] == y);
                    assert(elems@.contains(elems@[j]));
                    assert(r@.contains(elems@[j]));
                }
            }
        }
    }
    r
}

/// An ascending enumeration of a set of borrows is, element for element, an
/// ascending enumeration of the set of the values behind them.
proof fn lemma_ascending_refs<V: Ord>(s_refs: Set<&V>, s: Set<V>, q: Seq<&V>)
    requires
        forall|x: &V| s_refs.contains(x) <==> s.contains(*x),
        s_refs.map(|x: &V| *x) == s,
        ascending_enum(s_refs, q),
    ensures
        ascending_enum(s, deref_seq(q)),
{
    assert(deref_seq(q).to_set() =~= s) by {
        assert forall|y: V| deref_seq(q).to_set().contains(y) implies s.contains(y) by {
            let j = choose|j: int| 0 <= j < deref_seq(q).len() && deref_seq(q)[j] == y;
            assert(q.contains(q[j]));
            assert(q.to_set().contains(q[j]));
            assert(s_refs.contains(q[j]));
        }
        assert forall|y: V| s.contains(y) implies deref_seq(q).to_set().contains(y) by {
            let x = choose|x: &V| s_refs.contains(x) && y == *x;
            assert(q.to_set().contains(x));
            let j = choose|j: int| 0 <= j < q.len() && q[j] == x;
            assert(deref_seq(q)[j] == y);
            assert(deref_seq(q).contains(deref_seq(q)[j]));
        }
    }
    assert(deref_seq(q).no_duplicates()) by {
        assert forall|i: int, j: int|
            0 <= i < deref_seq(q).len() && 0 <= j < deref_seq(q).len() && i != j implies deref_seq(
            q,
        )[i] != deref_seq(q)[j] by {
            assert(q[i] != q[j]);
        }
    }
    assert forall|i: int, j: int| 0 <= i < j < deref_seq(q).len() implies (#[trigger] deref_seq(
        q,
    )[i].cmp_spec(&deref_seq(q)[j])) == core::cmp::Ordering::Less by {
        assert(0 <= i < j < q.len());
        assert((#[trigger] q[i].cmp_spec(&q[j])) == core::cmp::Ordering::Less);
        assert(deref_seq(q)[i] == *q[i]);
        assert(deref_seq(q)[j] == *q[j]);
    }
}

/// Keeping the non-members of a set of borrows keeps, value for value, the
/// non-members of the set of the values behind them.
proof fn lemma_kept_out_refs<V>(q: Seq<&V>, s_refs: Set<&V>, s: Set<V>, upto: int)
    requires
        forall|x: &V| s_refs.contains(x) <==> s.contains(*x),
        upto <= q.len(),
    ensures
        kept_out(deref_seq(q), s, upto) == deref_seq(kept_out(q, s_refs, upto)),
    decreases upto,
{
    if upto > 0 {
        lemma_kept_out_refs(q, s_refs, s, upto - 1);
        assert(deref_seq(q)[upto - 1] == *q[upto - 1]);
        if !s_refs.contains(q[upto - 1]) {
            assert(deref_seq(kept_out(q, s_refs, upto)) =~= deref_seq(
                kept_out(q, s_refs, upto - 1),
            ).push(*q[upto - 1]));
        } else {
            assert(deref_seq(kept_out(q, s_refs, upto)) =~= deref_seq(
                kept_out(q, s_refs, upto - 1),
            ));
        }
    }
}

impl<Value: core::hash::Hash + Ord + Comparable> Comparable for HashSet<Value> {
    type Desc = Vec<Value::Desc>;

    type Change = Vec<SetChange<Value::Desc>>;

    open spec fn obeys() -> bool {
        Value::obeys() && obeys_cmp::<Value>() && vstd::std_specs::hash::obeys_key_model::<Value>()
    }

    open spec fn desc_rel(&self, d: Vec<Value::Desc>) -> bool {
        exists|q: Seq<Value>|
            {
                &&& #[trigger] ascending_enum(self@, q)
                &&& d@.len() == q.len()
                &&& forall|k: int| 0 <= k < q.len() ==> q[k].desc_rel(#[trigger] d@[k])
            }
    }

    open spec fn unchanged_with(&self, other: &HashSet<Value>) -> bool {
        self@ == other@
    }

    open spec fn change_rel(&self, other: &HashSet<Value>, c: Self::Change) -> bool {
        set_change_rel(self@, other@, c@)
    }

    proof fn lemma_reflexive(&self) {
    }

    fn describe(&self) -> (d: Self::Desc) {
        let sorted = to_btree_refs(self);
        let d = sorted.describe();
        proof {
            if Self::obeys() {
                let q: Seq<&Value> = choose|q: Seq<&Value>|
                    {
                        &&& #[trigger] ascending_enum(sorted@, q)
                        &&& d@.len() == q.len()
                        &&& forall|k: int|
                            0 <= k < q.len() ==> q[k].desc_rel(#[trigger] d@[k])
                    };
                lemma_ascending_refs(sorted@, self@, q);
                assert forall|k: int| 0 <= k < deref_seq(q).len() implies deref_seq(
                    q,
                )[k].desc_rel(#[trigger] d@[k]) by {
                    assert(deref_seq(q)[k] == *q[k]);
                }
                assert(ascending_enum(self@, deref_seq(q)));
            }
        }
        d
    }

    fn comparison(&self, other: &Self) -> (r: Changed<Self::Change>) {
        let a_sorted = to_btree_refs(self);
        let b_sorted = to_btree_refs(other);
        let r = a_sorted.comparison(&b_sorted);
        proof {
            if Self::obeys() {
                // The sorted borrows stand for the same sets of values, so
                // the canonical diff of the one is the canonical diff of the
                // other.
                if a_sorted@ == b_sorted@ {
                    assert(self@ =~= other@);
                }
                if self@ == other@ {
                    assert(a_sorted@ =~= b_sorted@) by {
                        assert forall|x: &Value| a_sorted@.contains(x) implies b_sorted@.contains(
                            x,
                        ) by {
                            assert(other@.contains(*x));
                        }
                        assert forall|x: &Value| b_sorted@.contains(x) implies a_sorted@.contains(
                            x,
                        ) by {
                            assert(self@.contains(*x));
                        }
                    }
                }
                match &r {
                    Changed::Unchanged => {},
                    Changed::Changed(c) => {
                    let (qa_r, qb_r): (Seq<&Value>, Seq<&Value>) = choose|
                        qa_r: Seq<&Value>,
                        qb_r: Seq<&Value>,
                    |
                        {
                            &&& #[trigger] ascending_enum(a_sorted@, qa_r)
                            &&& #[trigger] ascending_enum(b_sorted@, qb_r)
                            &&& set_entries_rel(a_sorted@, b_sorted@, qa_r, qb_r, c@)
                        };
                    lemma_ascending_refs(a_sorted@, self@, qa_r);
                    lemma_ascending_refs(b_sorted@, other@, qb_r);
                    lemma_kept_out_refs(qb_r, a_sorted@, self@, qb_r.len() as int);
                    lemma_kept_out_refs(qa_r, b_sorted@, other@, qa_r.len() as int);
                    let adds_r = kept_out(qb_r, a_sorted@, qb_r.len() as int);
                    let rems_r = kept_out(qa_r, b_sorted@, qa_r.len() as int);
                    assert forall|k: int| 0 <= k < adds_r.len() implies (#[trigger] c@[k] matches
                        SetChange::Added(d) && kept_out(
                        deref_seq(qb_r),
                        self@,
                        deref_seq(qb_r).len() as int,
                    )[k].desc_rel(d)) by {
                        assert(deref_seq(adds_r)[k] == *adds_r[k]);
                    }
                    assert forall|k: int|
                        adds_r.len() <= k < c@.len() implies (#[trigger] c@[k] matches
                        SetChange::Removed(d) && kept_out(
                        deref_seq(qa_r),
                        other@,
                        deref_seq(qa_r).len() as int,
                    )[k - adds_r.len()].desc_rel(d)) by {
                        assert(deref_seq(rems_r)[k - adds_r.len()] == *rems_r[k - adds_r.len()]);
                    }
                    assert(set_entries_rel(self@, other@, deref_seq(qa_r), deref_seq(qb_r), c@));
                    assert(ascending_enum(self@, deref_seq(qa_r)));
                    assert(ascending_enum(other@, deref_seq(qb_r)));
                    },
                }
            }
        }
        r
    }
}

} // verus!
