//! Text in order: names are listed by the code points of their characters.

use vstd::prelude::*;

use crate::text::{chars, Text};

verus! {

/// Whether `a` stands before or at `b` when text is ordered by code points.
pub open spec fn not_after(a: Text, b: Text) -> bool
    decreases a.len(),
{
    if a.len() == 0 {
        true
    } else if b.len() == 0 {
        false
    } else if a[0] != b[0] {
        a[0] < b[0]
    } else {
        not_after(a.skip(1), b.skip(1))
    }
}

/// Whether a list stands in order.
pub open spec fn in_order(list: Seq<Text>) -> bool {
    forall|i: int, j: int| 0 <= i <= j < list.len() ==> not_after(#[trigger] list[i], #[trigger] list[j])
}

pub proof fn lemma_reflexive(a: Text)
    ensures
        not_after(a, a),
    decreases a.len(),
{
    if a.len() > 0 {
        lemma_reflexive(a.skip(1));
    }
}

pub proof fn lemma_total(a: Text, b: Text)
    ensures
        not_after(a, b) || not_after(b, a),
    decreases a.len(),
{
    if a.len() > 0 && b.len() > 0 && a[0] == b[0] {
        lemma_total(a.skip(1), b.skip(1));
    }
}

pub proof fn lemma_transitive(a: Text, b: Text, c: Text)
    requires
        not_after(a, b),
        not_after(b, c),
    ensures
        not_after(a, c),
    decreases a.len(),
{
    if a.len() > 0 && b.len() > 0 && c.len() > 0 && a[0] == b[0] && b[0] == c[0] {
        lemma_transitive(a.skip(1), b.skip(1), c.skip(1));
    }
}

pub proof fn lemma_antisymmetric(a: Text, b: Text)
    requires
        not_after(a, b),
        not_after(b, a),
    ensures
        a == b,
    decreases a.len(),
{
    if a.len() > 0 && b.len() > 0 {
        lemma_antisymmetric(a.skip(1), b.skip(1));
        assert(a =~= seq![a[0]] + a.skip(1));
        assert(b =~= seq![b[0]] + b.skip(1));
    } else {
        assert(a =~= b);
    }
}

/// Whether `a` stands before `b`.
pub open spec fn is_before(a: Text, b: Text) -> bool {
    not_after(a, b) && a != b
}

/// The first difference decides.
proof fn lemma_difference_decides(a: Text, b: Text, k: int)
    requires
        0 <= k < a.len(),
        k < b.len(),
        a.take(k) == b.take(k),
        a[k] < b[k],
    ensures
        is_before(a, b),
    decreases k,
{
    if k > 0 {
        assert(a[0] == a.take(k)[0] && b[0] == b.take(k)[0]);
        assert(a.skip(1).take(k - 1) =~= a.take(k).skip(1));
        assert(b.skip(1).take(k - 1) =~= b.take(k).skip(1));
        lemma_difference_decides(a.skip(1), b.skip(1), k - 1);
    }
}

proof fn lemma_first_difference(a: Text, b: Text) -> (k: int)
    requires
        is_before(a, b),
        a.len() == b.len(),
    ensures
        0 <= k < a.len(),
        a.take(k) == b.take(k),
        a[k] < b[k],
    decreases a.len(),
{
    if a.len() == 0 {
        assert(a =~= b);
        0
    } else if a[0] != b[0] {
        assert(a.take(0) =~= b.take(0));
        0
    } else {
        assert(a =~= seq![a[0]] + a.skip(1));
        assert(b =~= seq![b[0]] + b.skip(1));
        let k = lemma_first_difference(a.skip(1), b.skip(1)) + 1;
        assert(a.take(k) =~= seq![a[0]] + a.skip(1).take(k - 1));
        assert(b.take(k) =~= seq![b[0]] + b.skip(1).take(k - 1));
        k
    }
}

/// Parts of one length behind the same beginning decide, whatever follows them.
pub proof fn lemma_parts_decide(start: Text, a: Text, b: Text, rest_a: Text, rest_b: Text)
    requires
        is_before(a, b),
        a.len() == b.len(),
    ensures
        is_before(start + a + rest_a, start + b + rest_b),
{
    let k = lemma_first_difference(a, b);
    let at = start.len() + k;
    let x = start + a + rest_a;
    let y = start + b + rest_b;
    assert(x.take(at) =~= start + a.take(k));
    assert(y.take(at) =~= start + b.take(k));
    assert(x[at] == a[k] && y[at] == b[k]);
    lemma_difference_decides(x, y, at);
}

/// Whether `a` stands before or at `b`.
pub fn before_or_at(a: &str, b: &str) -> (r: bool)
    ensures
        r == not_after(a@, b@),
{
    let x = chars(a);
    let y = chars(b);
    let mut i: usize = 0;
    assert(a@.skip(0) =~= a@);
    assert(b@.skip(0) =~= b@);
    while i < x.len()
        invariant
            x@ == a@,
            y@ == b@,
            i <= x@.len(),
            i <= y@.len(),
            not_after(a@, b@) == not_after(a@.skip(i as int), b@.skip(i as int)),
        decreases x@.len() - i,
    {
        if i >= y.len() {
            return false;
        }
        if x[i] != y[i] {
            return x[i] < y[i];
        }
        assert(a@.skip(i as int).skip(1) =~= a@.skip(i + 1));
        assert(b@.skip(i as int).skip(1) =~= b@.skip(i + 1));
        i = i + 1;
    }
    true
}

/// The strings of a list, put in order.
pub fn sorted(list: &Vec<String>) -> (r: Vec<String>)
    ensures
        in_order(r.deep_view()),
        r.deep_view().to_multiset() == list.deep_view().to_multiset(),
{
    let mut out: Vec<String> = Vec::new();
    let mut i: usize = 0;
    let ghost all = list.deep_view();
    assert(all.take(0) =~= Seq::<Text>::empty());
    assert(out.deep_view() =~= Seq::<Text>::empty());
    while i < list.len()
        invariant
            all == list.deep_view(),
            i <= list@.len(),
            in_order(out.deep_view()),
            out.deep_view().to_multiset() == all.take(i as int).to_multiset(),
        decreases list@.len() - i,
    {
        let ghost before = out.deep_view();
        let ghost name = list@[i as int]@;
        let mut at: usize = out.len();
        while at > 0 && !before_or_at(out[at - 1].as_str(), list[i].as_str())
            invariant
                i < list@.len(),
                name == list@[i as int]@,
                at <= out@.len(),
                before == out.deep_view(),
                forall|k: int| at <= k < before.len() ==> not_after(name, #[trigger] before[k]),
            decreases at,
        {
            proof {
                lemma_total(name, before[at - 1]);
            }
            at = at - 1;
        }
        out.insert(at, list[i].clone());
        proof {
            let after = out.deep_view();
            assert(after =~= before.insert(at as int, name));
            assert forall|p: int, q: int| 0 <= p <= q < after.len() implies not_after(
                #[trigger] after[p],
                #[trigger] after[q],
            ) by {
                let pb = if p < at { p } else { p - 1 };
                let qb = if q < at { q } else { q - 1 };
                if p == at && q == at {
                    lemma_reflexive(name);
                } else if p == at {
                    assert(after[q] == before[q - 1]);
                } else if q == at {
                    assert(after[p] == before[p]);
                    assert(not_after(before[p], before[at - 1]));
                    lemma_transitive(before[p], before[at - 1], name);
                } else {
                    assert(after[p] == before[pb]);
                    assert(after[q] == before[qb]);
                }
            }
            before.to_multiset_ensures();
            all.take(i as int).to_multiset_ensures();
            assert(all.take(i + 1) =~= all.take(i as int).push(name));
            assert(after.to_multiset() =~= before.to_multiset().insert(name)) by {
                after.to_multiset_ensures();
                assert(after.remove(at as int) =~= before);
                assert(after[at as int] == name);
                assert(after.contains(name));
                assert(after.to_multiset().count(name) > 0);
            }
        }
        i = i + 1;
    }
    assert(all.take(i as int) =~= all);
    out
}

/// Two lists in order with the same members are the same list: the order of a listing is
/// determined by its members.
pub proof fn law_order_is_determined(a: Seq<Text>, b: Seq<Text>)
    requires
        in_order(a),
        in_order(b),
        a.to_multiset() == b.to_multiset(),
    ensures
        a == b,
    decreases a.len(),
{
    a.to_multiset_ensures();
    b.to_multiset_ensures();
    if a.len() == 0 {
        assert(a =~= b);
    } else {
        assert(b.contains(a[0])) by {
            assert(a.contains(a[0]));
            assert(a.to_multiset().count(a[0]) > 0);
        }
        assert(a.contains(b[0])) by {
            assert(b.contains(b[0]));
            assert(b.to_multiset().count(b[0]) > 0);
        }
        let i = choose|i: int| 0 <= i < b.len() && b[i] == a[0];
        let j = choose|j: int| 0 <= j < a.len() && a[j] == b[0];
        assert(not_after(b[0], b[i]));
        assert(not_after(a[0], a[j]));
        lemma_antisymmetric(a[0], b[0]);
        let x = a.remove(0);
        let y = b.remove(0);
        assert(x.to_multiset() =~= a.to_multiset().remove(a[0]));
        assert(y.to_multiset() =~= b.to_multiset().remove(b[0]));
        law_order_is_determined(x, y);
        assert(a =~= seq![a[0]] + x);
        assert(b =~= seq![b[0]] + y);
    }
}

/// One text comes before another exactly where it is what the other begins with, or has the smaller
/// character where the two first differ.
pub proof fn law_order_is_decided_at_the_first_difference(a: Text, b: Text, n: int)
    requires
        0 <= n <= a.len(),
        n <= b.len(),
        a.take(n) == b.take(n),
    ensures
        n == a.len() ==> not_after(a, b),
        n < a.len() && n == b.len() ==> !not_after(a, b),
        n < a.len() && n < b.len() && a[n] != b[n] ==> (not_after(a, b) <==> a[n] < b[n]),
    decreases n,
{
    if n > 0 {
        assert(a.take(n)[0] == a[0] && b.take(n)[0] == b[0]);
        let x = a.skip(1);
        let y = b.skip(1);
        assert forall|i: int| 0 <= i < n - 1 implies x[i] == #[trigger] y[i] by {
            assert(x[i] == a.take(n)[i + 1]);
            assert(y[i] == b.take(n)[i + 1]);
        }
        assert(x.take(n - 1) =~= y.take(n - 1));
        law_order_is_decided_at_the_first_difference(x, y, n - 1);
        if n < a.len() && n < b.len() {
            assert(x[n - 1] == a[n] && y[n - 1] == b[n]);
        }
    }
}

} // verus!
