//! Putting things in order: times, and the places of items by number or by text,
//! with ties in the order they came.

use crate::time::Time;
use vstd::prelude::*;

verus! {

/// Times that never go back.
pub open spec fn rising(s: Seq<Time>) -> bool {
    forall|i: int, j: int| 0 <= i <= j < s.len() ==> s[i] <= s[j]
}

/// Put times in order.
pub fn sort_times(v: &mut Vec<Time>)
    ensures
        rising(final(v)@),
        final(v)@.to_multiset() == old(v)@.to_multiset(),
{
    let ghost all = v@;
    let mut done: Vec<Time> = Vec::new();
    let mut i: usize = 0;
    proof {
        assert(all.take(0) =~= done@);
    }
    while i < v.len()
        invariant
            v@ == all,
            i <= all.len(),
            rising(done@),
            done@.to_multiset() == all.take(i as int).to_multiset(),
        decreases all.len() - i,
    {
        let t: Time = v[i];
        let p: usize = place_for(&done, t);
        proof {
            vstd::seq_lib::to_multiset_insert(done@, p as int, t);
            assert(all.take(i + 1) =~= all.take(i as int).push(t));
            all.take(i as int).to_multiset_ensures();
        }
        done.insert(p, t);
        i += 1;
    }
    assert(all.take(all.len() as int) =~= all);
    *v = done;
}

/// Where a time goes among times in order: behind those no later than it.
fn place_for(v: &Vec<Time>, t: Time) -> (p: usize)
    requires
        rising(v@),
    ensures
        p <= v@.len(),
        forall|i: int| 0 <= i < p ==> v@[i] <= t,
        forall|i: int| p <= i < v@.len() ==> t < v@[i],
{
    let mut p: usize = 0;
    while p < v.len()
        invariant
            p <= v@.len(),
            rising(v@),
            forall|i: int| 0 <= i < p ==> v@[i] <= t,
        decreases v@.len() - p,
    {
        if t < v[p] {
            return p;
        }
        p += 1;
    }
    p
}

/// Whether text `a` comes before text `b`: at the first character that differs, or
/// because it stops there.
pub open spec fn text_before(a: Seq<char>, b: Seq<char>) -> bool
    decreases a.len(),
{
    if b.len() == 0 {
        false
    } else if a.len() == 0 {
        true
    } else if a[0] != b[0] {
        (a[0] as int) < (b[0] as int)
    } else {
        text_before(a.drop_first(), b.drop_first())
    }
}

/// Law: text order is an order: of two texts one comes first unless they are
/// equal, never both.
pub proof fn law_text_order(a: Seq<char>, b: Seq<char>)
    ensures
        !(text_before(a, b) && text_before(b, a)),
        !text_before(a, a),
        text_before(a, b) || text_before(b, a) || a == b,
    decreases a.len(),
{
    if a.len() > 0 {
        law_text_order(a.drop_first(), a.drop_first());
        if b.len() > 0 && a[0] == b[0] {
            law_text_order(a.drop_first(), b.drop_first());
            if a.drop_first() == b.drop_first() {
                assert(a =~= seq![a[0]] + a.drop_first());
                assert(b =~= seq![b[0]] + b.drop_first());
                assert(a == b);
            }
        }
    } else if b.len() == 0 {
        assert(a =~= b);
    }
}

/// Law: text order carries through.
pub proof fn law_text_order_carries(a: Seq<char>, b: Seq<char>, c: Seq<char>)
    requires
        text_before(a, b),
        text_before(b, c),
    ensures
        text_before(a, c),
    decreases a.len(),
{
    if a.len() > 0 && b.len() > 0 && c.len() > 0 && a[0] == b[0] && b[0] == c[0] {
        law_text_order_carries(a.drop_first(), b.drop_first(), c.drop_first());
    }
}

/// Whether one text comes before another.
pub fn comes_before(a: &str, b: &str) -> (r: bool)
    ensures
        r == text_before(a@, b@),
{
    let n: usize = a.unicode_len();
    let m: usize = b.unicode_len();
    let mut i: usize = 0;
    assert(a@.skip(0) =~= a@ && b@.skip(0) =~= b@);
    while i < n && i < m
        invariant
            n == a@.len(),
            m == b@.len(),
            i <= n,
            i <= m,
            text_before(a@, b@) == text_before(a@.skip(i as int), b@.skip(i as int)),
        decreases n - i,
    {
        let x: char = a.get_char(i);
        let y: char = b.get_char(i);
        proof {
            let p = a@.skip(i as int);
            let q = b@.skip(i as int);
            assert(p[0] == x && q[0] == y);
            assert(p.drop_first() =~= a@.skip(i + 1));
            assert(q.drop_first() =~= b@.skip(i + 1));
        }
        if x != y {
            return (x as u32) < (y as u32);
        }
        i += 1;
    }
    i < m
}

/// A list of all places below `n`, each once.
pub open spec fn places(order: Seq<usize>, n: int) -> bool {
    &&& order.len() == n
    &&& forall|i: int| 0 <= i < order.len() ==> (#[trigger] order[i]) < n
    &&& forall|v: usize| v < n ==> #[trigger] order.contains(v)
    &&& forall|i: int, j: int| 0 <= i < j < order.len() ==> #[trigger] order[i] != #[trigger] order[j]
}

/// The places of some items by number, those with the same number as they came.
pub open spec fn by_number(order: Seq<usize>, keys: Seq<Time>) -> bool {
    &&& places(order, keys.len() as int)
    &&& forall|i: int, j: int|
        0 <= i < j < order.len() ==> {
            let a = keys[#[trigger] order[i] as int];
            let b = keys[#[trigger] order[j] as int];
            a < b || (a == b && order[i] < order[j])
        }
}

/// The places of some items by text, those with the same text as they came.
pub open spec fn by_text(order: Seq<usize>, keys: Seq<Seq<char>>) -> bool {
    &&& places(order, keys.len() as int)
    &&& forall|i: int, j: int|
        0 <= i < j < order.len() ==> {
            let a = keys[#[trigger] order[i] as int];
            let b = keys[#[trigger] order[j] as int];
            text_before(a, b) || (a == b && order[i] < order[j])
        }
}

proof fn lemma_places_insert(order: Seq<usize>, n: usize, p: int)
    requires
        places(order, n as int),
        0 <= p <= order.len(),
        n < usize::MAX,
    ensures
        places(order.insert(p, n), n + 1),
{
    let next = order.insert(p, n);
    assert forall|v: usize| v < n + 1 implies #[trigger] next.contains(v) by {
        if v == n {
            assert(next[p] == n);
        } else {
            assert(order.contains(v));
            let i = choose|i: int| 0 <= i < order.len() && order[i] == v;
            if i < p {
                assert(next[i] == v);
            } else {
                assert(next[i + 1] == v);
            }
        }
    }
    assert forall|i: int, j: int| 0 <= i < j < next.len() implies #[trigger] next[i] != #[trigger] next[j] by {
        let a = if i < p { i } else { i - 1 };
        let b = if j < p { j } else { j - 1 };
        if i != p && j != p {
            assert(order[a] != order[b]);
        } else if i == p {
            assert(order[b] < n);
        } else {
            assert(order[a] < n);
        }
    }
    assert forall|i: int| 0 <= i < next.len() implies (#[trigger] next[i]) < n + 1 by {
        if i < p {
            assert(order[i] < n);
        } else if i > p {
            assert(order[i - 1] < n);
        }
    }
}

/// The places of items in the order of their numbers.
pub fn order_by_number(keys: &Vec<Time>) -> (order: Vec<usize>)
    ensures
        by_number(order@, keys@),
{
    let mut order: Vec<usize> = Vec::new();
    let n: usize = keys.len();
    let mut k: usize = 0;
    assert(by_number(order@, keys@.take(0)));
    while k < n
        invariant
            k <= n,
            n == keys@.len(),
            by_number(order@, keys@.take(k as int)),
        decreases n - k,
    {
        let ghost head = keys@.take(k as int);
        let ghost was = order@;
        let key: Time = keys[k];
        let mut p: usize = 0;
        while p < k && keys[order[p]] <= key
            invariant
                p <= k < n,
                n == keys@.len(),
                order@ == was,
                head == keys@.take(k as int),
                by_number(was, head),
                key == keys@[k as int],
                forall|i: int| 0 <= i < p ==> keys@[#[trigger] was[i] as int] <= key,
            ensures
                p < k ==> key < keys@[was[p as int] as int],
            decreases k - p,
        {
            p += 1;
        }
        order.insert(p, k);
        proof {
            lemma_places_insert(was, k, p as int);
            let next = order@;
            let keys2 = keys@.take(k + 1);
            assert forall|i: int, j: int| 0 <= i < j < next.len() implies ({
                let a = keys2[#[trigger] next[i] as int];
                let b = keys2[#[trigger] next[j] as int];
                a < b || (a == b && next[i] < next[j])
            }) by {
                let u = if i < p { i } else { i - 1 };
                let w = if j < p { j } else { j - 1 };
                if i != p && j != p {
                    assert(next[i] == was[u] && next[j] == was[w]);
                    assert(was[u] < k && was[w] < k);
                    assert(head[was[u] as int] == keys2[was[u] as int]);
                    assert(head[was[w] as int] == keys2[was[w] as int]);
                } else if j == p {
                    assert(next[i] == was[i]);
                    assert(was[i] < k);
                    assert(keys@[was[i] as int] <= key);
                } else {
                    assert(next[j] == was[w]);
                    assert(was[w] < k);
                    assert(was[p as int] < k);
                    if w > p {
                        assert(head[was[p as int] as int] <= head[was[w] as int]);
                    }
                }
            }
        }
        k += 1;
    }
    assert(keys@.take(n as int) =~= keys@);
    order
}

/// The places of items in the order of their texts.
pub fn order_by_text(keys: &Vec<String>) -> (order: Vec<usize>)
    ensures
        by_text(order@, crate::text::texts(keys@)),
{
    let ghost all = crate::text::texts(keys@);
    let mut order: Vec<usize> = Vec::new();
    let n: usize = keys.len();
    let mut k: usize = 0;
    assert(by_text(order@, all.take(0)));
    while k < n
        invariant
            k <= n,
            n == keys@.len(),
            all == crate::text::texts(keys@),
            by_text(order@, all.take(k as int)),
        decreases n - k,
    {
        let ghost head = all.take(k as int);
        let ghost was = order@;
        let ghost key = all[k as int];
        let mut p: usize = 0;
        while p < k && !comes_before(keys[k].as_str(), keys[order[p]].as_str())
            invariant
                p <= k < n,
                n == keys@.len(),
                order@ == was,
                all == crate::text::texts(keys@),
                head == all.take(k as int),
                by_text(was, head),
                key == all[k as int],
                forall|i: int| 0 <= i < p ==> !text_before(key, all[#[trigger] was[i] as int]),
            ensures
                p < k ==> text_before(key, all[was[p as int] as int]),
            decreases k - p,
        {
            p += 1;
        }
        order.insert(p, k);
        proof {
            lemma_places_insert(was, k, p as int);
            let next = order@;
            let keys2 = all.take(k + 1);
            assert forall|i: int, j: int| 0 <= i < j < next.len() implies ({
                let a = keys2[#[trigger] next[i] as int];
                let b = keys2[#[trigger] next[j] as int];
                text_before(a, b) || (a == b && next[i] < next[j])
            }) by {
                let u = if i < p { i } else { i - 1 };
                let w = if j < p { j } else { j - 1 };
                if i != p && j != p {
                    assert(next[i] == was[u] && next[j] == was[w]);
                    assert(was[u] < k && was[w] < k);
                    assert(head[was[u] as int] == keys2[was[u] as int]);
                    assert(head[was[w] as int] == keys2[was[w] as int]);
                } else if j == p {
                    assert(next[i] == was[i]);
                    assert(was[i] < k);
                    assert(!text_before(key, all[was[i] as int]));
                    law_text_order(key, all[was[i] as int]);
                } else {
                    assert(next[j] == was[w]);
                    assert(was[w] < k);
                    assert(was[p as int] < k);
                    if w > p {
                        assert(text_before(head[was[p as int] as int], head[was[w] as int])
                            || head[was[p as int] as int] == head[was[w] as int]);
                        if text_before(all[was[p as int] as int], all[was[w] as int]) {
                            law_text_order_carries(key, all[was[p as int] as int], all[was[w] as int]);
                        }
                    }
                }
            }
        }
        k += 1;
    }
    assert(all.take(n as int) =~= all);
    order
}

} // verus!
