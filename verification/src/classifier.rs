//! The classifier's label bookkeeping: class lists, one-hot targets and the
//! neuron-to-label map persisted beside a trained network.

use vstd::prelude::*;

use std::collections::HashMap;

use crate::scalar::Scalar;

verus! {

broadcast use vstd::std_specs::hash::group_hash_axioms;

/// The target vector for class `i` of `n`: length `n`, one at `i`, zero
/// elsewhere.
pub fn one_hot<S: Scalar>(i: usize, n: usize) -> (r: Vec<S>)
    requires
        i < n,
    ensures
        r@.len() == n,
        forall|k: int|
            0 <= k < n ==> #[trigger] r@[k] == (if k == i {
                S::one_spec()
            } else {
                S::zero_spec()
            }),
{
    let mut r: Vec<S> = Vec::new();
    let mut k: usize = 0;
    while k < n
        invariant
            k <= n,
            r@.len() == k,
            forall|j: int|
                0 <= j < k ==> #[trigger] r@[j] == (if j == i {
                    S::one_spec()
                } else {
                    S::zero_spec()
                }),
        decreases n - k,
    {
        if k == i {
            r.push(S::one());
        } else {
            r.push(S::zero());
        }
        k = k + 1;
    }
    r
}

/// Some entry of `v` spells `s`.
pub open spec fn appears(s: Seq<char>, v: Seq<String>) -> bool {
    exists|k: int| 0 <= k < v.len() && (#[trigger] v[k])@ == s
}

/// Whatever appears in a list still appears after a push.
proof fn lemma_appears_push(s: Seq<char>, v: Seq<String>, x: String)
    requires
        appears(s, v),
    ensures
        appears(s, v.push(x)),
{
    let k = choose|k: int| 0 <= k < v.len() && (#[trigger] v[k])@ == s;
    assert(v.push(x)[k] == v[k]);
}

/// Whether some entry of `v` spells `s`.
fn contains_label(v: &Vec<String>, s: &String) -> (r: bool)
    ensures
        r == appears(s@, v@),
{
    let n = v.len();
    let mut i: usize = 0;
    while i < n
        invariant
            n == v@.len(),
            i <= n,
            forall|k: int| 0 <= k < i ==> (#[trigger] v@[k])@ != s@,
        decreases n - i,
    {
        if v[i].eq(s) {
            return true;
        }
        i = i + 1;
    }
    false
}

/// The distinct labels of a dataset, in order of first appearance: no
/// duplicates, nothing invented, nothing lost.
pub fn distinct_labels(labels: &Vec<String>) -> (r: Vec<String>)
    ensures
        forall|a: int, b: int|
            0 <= a < b < r@.len() ==> (#[trigger] r@[a])@ != (#[trigger] r@[b])@,
        forall|a: int| 0 <= a < r@.len() ==> appears((#[trigger] r@[a])@, labels@),
        forall|j: int| 0 <= j < labels@.len() ==> appears((#[trigger] labels@[j])@, r@),
{
    let n = labels.len();
    let mut r: Vec<String> = Vec::new();
    let mut i: usize = 0;
    while i < n
        invariant
            n == labels@.len(),
            i <= n,
            forall|a: int, b: int|
                0 <= a < b < r@.len() ==> (#[trigger] r@[a])@ != (#[trigger] r@[b])@,
            forall|a: int| 0 <= a < r@.len() ==> appears((#[trigger] r@[a])@, labels@),
            forall|j: int| 0 <= j < i ==> appears((#[trigger] labels@[j])@, r@),
        decreases n - i,
    {
        let ghost r0 = r@;
        let present = contains_label(&r, &labels[i]);
        if !present {
            r.push(labels[i].clone());
            proof {
                assert(r@ == r0.push(labels@[i as int]));
                assert(r@[r0.len() as int]@ == labels@[i as int]@);
                assert forall|a: int| 0 <= a < r@.len() implies appears(
                    (#[trigger] r@[a])@,
                    labels@,
                ) by {
                    if a < r0.len() {
                        assert(r@[a] == r0[a]);
                        assert(appears((r0[a])@, labels@));
                    } else {
                        assert((r@[a])@ == labels@[i as int]@);
                        assert(appears(labels@[i as int]@, labels@));
                    }
                }
                assert forall|j: int| 0 <= j < i + 1 implies appears(
                    (#[trigger] labels@[j])@,
                    r@,
                ) by {
                    if j < i {
                        lemma_appears_push(labels@[j]@, r0, labels@[i as int]);
                    } else {
                        assert(appears(labels@[i as int]@, r@));
                    }
                }
                assert forall|a: int, b: int| 0 <= a < b < r@.len() implies (#[trigger] r@[a])@
                    != (#[trigger] r@[b])@ by {
                    if b < r0.len() {
                        assert(r@[a] == r0[a]);
                        assert(r@[b] == r0[b]);
                    } else {
                        assert(r@[a] == r0[a]);
                        assert((r@[b])@ == labels@[i as int]@);
                        assert(!appears(labels@[i as int]@, r0));
                    }
                }
            }
        }
        i = i + 1;
    }
    r
}

/// Where a label sits in the class list: its first position, or `None` when
/// the label is unknown.
pub fn label_index(classes: &Vec<String>, label: &String) -> (r: Option<usize>)
    ensures
        match r {
            Some(i) => i < classes@.len() && classes@[i as int]@ == label@ && forall|k: int|
                0 <= k < i ==> (#[trigger] classes@[k])@ != label@,
            None => forall|k: int| 0 <= k < classes@.len() ==> (#[trigger] classes@[k])@ != label@,
        },
{
    let n = classes.len();
    let mut i: usize = 0;
    while i < n
        invariant
            n == classes@.len(),
            i <= n,
            forall|k: int| 0 <= k < i ==> (#[trigger] classes@[k])@ != label@,
        decreases n - i,
    {
        if classes[i].eq(label) {
            return Some(i);
        }
        i = i + 1;
    }
    None
}

/// The neuron-to-label map persisted beside a trained network: neuron `i`
/// answers for `classes[i]`, and nothing else is in the map.
pub fn build_label_map(classes: &Vec<String>) -> (m: HashMap<usize, String>)
    ensures
        forall|i: usize|
            i < classes@.len() ==> #[trigger] m@.contains_key(i) && m@[i] == classes@[i as int],
        forall|i: usize| #[trigger] m@.contains_key(i) ==> i < classes@.len(),
{
    let n = classes.len();
    let mut m: HashMap<usize, String> = HashMap::new();
    let mut i: usize = 0;
    while i < n
        invariant
            n == classes@.len(),
            i <= n,
            forall|k: usize|
                k < i ==> #[trigger] m@.contains_key(k) && m@[k] == classes@[k as int],
            forall|k: usize| #[trigger] m@.contains_key(k) ==> k < i,
        decreases n - i,
    {
        let ghost m0 = m@;
        m.insert(i, classes[i].clone());
        proof {
            assert(m@ == m0.insert(i, classes@[i as int]));
            assert forall|k: usize| #[trigger] m@.contains_key(k) implies k < i + 1 by {
                if k != i {
                    assert(m0.contains_key(k));
                }
            }
        }
        i = i + 1;
    }
    proof {
        assert forall|k: usize| k < i implies #[trigger] m@[k] == classes@[k as int] by {
            assert(m@.contains_key(k));
        }
    }
    m
}

} // verus!
