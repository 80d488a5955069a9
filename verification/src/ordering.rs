use crate::books::views;
use crate::text::chars_of;
use vstd::prelude::*;

verus! {

/// Lexicographic order of texts by code point, which is how Rust orders
/// `String`s (UTF-8 bytes compare as their code points do).
pub open spec fn text_le(a: Seq<char>, b: Seq<char>) -> bool
    decreases a.len(),
{
    if a.len() == 0 {
        true
    } else if b.len() == 0 {
        false
    } else if a[0] != b[0] {
        a[0] < b[0]
    } else {
        text_le(a.drop_first(), b.drop_first())
    }
}

/// Of two texts, one precedes the other.
pub proof fn lemma_text_le_total(a: Seq<char>, b: Seq<char>)
    ensures
        text_le(a, b) || text_le(b, a),
    decreases a.len(),
{
    if a.len() > 0 && b.len() > 0 && a[0] == b[0] {
        lemma_text_le_total(a.drop_first(), b.drop_first());
    }
}

/// The order of texts is transitive.
pub proof fn lemma_text_le_transitive(a: Seq<char>, b: Seq<char>, c: Seq<char>)
    requires
        text_le(a, b),
        text_le(b, c),
    ensures
        text_le(a, c),
    decreases a.len(),
{
    if a.len() > 0 && b.len() > 0 && c.len() > 0 && a[0] == b[0] && b[0] == c[0] {
        lemma_text_le_transitive(a.drop_first(), b.drop_first(), c.drop_first());
    }
}

/// Whether `a` precedes or equals `b` in the order of [`text_le`].
pub fn text_le_exec(a: &str, b: &str) -> (r: bool)
    ensures
        r == text_le(a@, b@),
{
    let x = chars_of(a);
    let y = chars_of(b);
    let mut i: usize = 0;
    assert(x@.skip(0) =~= x@ && y@.skip(0) =~= y@);
    while i < x.len() && i < y.len() && x[i] == y[i]
        invariant
            i <= x@.len(),
            i <= y@.len(),
            text_le(x@, y@) == text_le(x@.skip(i as int), y@.skip(i as int)),
        decreases x@.len() - i,
    {
        proof {
            let xs = x@.skip(i as int);
            let ys = y@.skip(i as int);
            assert(xs.drop_first() =~= x@.skip(i + 1));
            assert(ys.drop_first() =~= y@.skip(i + 1));
            assert(xs[0] == x@[i as int] && ys[0] == y@[i as int]);
        }
        i = i + 1;
    }
    let ghost xs = x@.skip(i as int);
    let ghost ys = y@.skip(i as int);
    if i == x.len() {
        assert(xs.len() == 0);
        true
    } else if i == y.len() {
        assert(ys.len() == 0 && xs.len() > 0);
        false
    } else {
        let c = x[i];
        let d = y[i];
        assert(xs[0] == c && ys[0] == d);
        c < d
    }
}

/// `order` lists each index below `n` exactly once.
pub open spec fn is_order_of(order: Seq<usize>, n: int) -> bool {
    &&& order.len() == n
    &&& forall|i: int| 0 <= i < n ==> #[trigger] order[i] < n
    &&& forall|i: int, j: int| 0 <= i < j < n ==> order[i] != order[j]
}

/// `order` lists the keys from the smallest up.
pub open spec fn ids_ascending(keys: Seq<i64>, order: Seq<usize>) -> bool {
    forall|i: int, j: int|
        0 <= i < j < order.len() ==> keys[#[trigger] order[i] as int] <= keys[#[trigger] order[j] as int]
}

/// `order` lists the texts in the order of [`text_le`].
pub open spec fn texts_ascending(keys: Seq<Seq<char>>, order: Seq<usize>) -> bool {
    forall|i: int, j: int|
        0 <= i < j < order.len() ==> text_le(keys[#[trigger] order[i] as int], keys[#[trigger] order[j] as int])
}

/// The order that lists `keys` from the smallest up: each index once.
pub fn order_by_id(keys: &Vec<i64>) -> (order: Vec<usize>)
    ensures
        is_order_of(order@, keys@.len() as int),
        ids_ascending(keys@, order@),
{
    let mut order: Vec<usize> = Vec::new();
    let mut k: usize = 0;
    while k < keys.len()
        invariant
            k <= keys@.len(),
            is_order_of(order@, k as int),
            ids_ascending(keys@, order@),
        decreases keys@.len() - k,
    {
        let mut p: usize = 0;
        while p < order.len() && keys[order[p]] <= keys[k]
            invariant
                k < keys@.len(),
                p <= order@.len(),
                is_order_of(order@, k as int),
                forall|q: int| 0 <= q < p ==> keys@[#[trigger] order@[q] as int] <= keys@[k as int],
            decreases order@.len() - p,
        {
            p = p + 1;
        }
        let ghost before = order@;
        order.insert(p, k);
        proof {
            assert(order@ == before.insert(p as int, k));
            if p < before.len() {
                assert(keys@[before[p as int] as int] > keys@[k as int]);
            }
            assert forall|i: int, j: int| 0 <= i < j < order@.len() implies keys@[#[trigger] order@[i] as int]
                <= keys@[#[trigger] order@[j] as int] by {
                if j < p {
                } else if j == p {
                    assert(order@[i] == before[i]);
                } else if i < p {
                    assert(order@[i] == before[i] && order@[j] == before[j - 1]);
                } else if i == p {
                    assert(order@[j] == before[j - 1]);
                    assert(keys@[before[p as int] as int] <= keys@[before[j - 1] as int]) by {
                        if j - 1 > p {
                        }
                    }
                } else {
                    assert(order@[i] == before[i - 1] && order@[j] == before[j - 1]);
                }
            }
            assert forall|i: int, j: int| 0 <= i < j < k + 1 implies order@[i] != order@[j] by {
                if i < p && j < p {
                } else if i < p && j == p {
                } else if i < p {
                    assert(order@[j] == before[j - 1]);
                } else if i == p {
                    assert(order@[j] == before[j - 1]);
                } else {
                    assert(order@[i] == before[i - 1] && order@[j] == before[j - 1]);
                }
            }
            assert forall|i: int| 0 <= i < k + 1 implies #[trigger] order@[i] < k + 1 by {
                if i < p {
                } else if i > p {
                    assert(order@[i] == before[i - 1]);
                }
            }
        }
        k = k + 1;
    }
    order
}

/// The order that lists `keys` in the order of [`text_le`]: each index once.
pub fn order_by_text(keys: &Vec<String>) -> (order: Vec<usize>)
    ensures
        is_order_of(order@, keys@.len() as int),
        texts_ascending(views(keys@), order@),
{
    let ghost t = views(keys@);
    let mut order: Vec<usize> = Vec::new();
    let mut k: usize = 0;
    while k < keys.len()
        invariant
            t == views(keys@),
            k <= keys@.len(),
            is_order_of(order@, k as int),
            texts_ascending(t, order@),
        decreases keys@.len() - k,
    {
        let mut p: usize = 0;
        while p < order.len() && text_le_exec(keys[order[p]].as_str(), keys[k].as_str())
            invariant
                t == views(keys@),
                k < keys@.len(),
                p <= order@.len(),
                is_order_of(order@, k as int),
                forall|q: int| 0 <= q < p ==> text_le(t[#[trigger] order@[q] as int], t[k as int]),
            decreases order@.len() - p,
        {
            p = p + 1;
        }
        let ghost before = order@;
        order.insert(p, k);
        proof {
            assert(order@ == before.insert(p as int, k));
            if p < before.len() {
                assert(!text_le(t[before[p as int] as int], t[k as int]));
                lemma_text_le_total(t[before[p as int] as int], t[k as int]);
            }
            assert forall|i: int, j: int| 0 <= i < j < order@.len() implies text_le(
                t[#[trigger] order@[i] as int],
                t[#[trigger] order@[j] as int],
            ) by {
                if j < p {
                } else if j == p {
                    assert(order@[i] == before[i]);
                } else if i < p {
                    assert(order@[i] == before[i] && order@[j] == before[j - 1]);
                } else if i == p {
                    assert(order@[j] == before[j - 1]);
                    if j - 1 > p {
                        assert(text_le(t[before[p as int] as int], t[before[j - 1] as int]));
                        lemma_text_le_transitive(t[k as int], t[before[p as int] as int], t[before[j - 1] as int]);
                    }
                } else {
                    assert(order@[i] == before[i - 1] && order@[j] == before[j - 1]);
                }
            }
            assert forall|i: int, j: int| 0 <= i < j < k + 1 implies order@[i] != order@[j] by {
                if i < p && j < p {
                } else if i < p && j == p {
                } else if i < p {
                    assert(order@[j] == before[j - 1]);
                } else if i == p {
                    assert(order@[j] == before[j - 1]);
                } else {
                    assert(order@[i] == before[i - 1] && order@[j] == before[j - 1]);
                }
            }
            assert forall|i: int| 0 <= i < k + 1 implies #[trigger] order@[i] < k + 1 by {
                if i < p {
                } else if i > p {
                    assert(order@[i] == before[i - 1]);
                }
            }
        }
        k = k + 1;
    }
    order
}

} // verus!
