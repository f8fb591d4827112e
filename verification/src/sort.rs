use vstd::prelude::*;

verus! {

/// Sort keys compared lexicographically.
pub type SortKey = (u64, u64, u64);

pub open spec fn key_lt(a: SortKey, b: SortKey) -> bool {
    a.0 < b.0 || (a.0 == b.0 && (a.1 < b.1 || (a.1 == b.1 && a.2 < b.2)))
}

/// Item `i` goes before item `j` in a stable sort by `keys`: a smaller key, or
/// an equal key and an earlier position.
pub open spec fn goes_before(keys: Seq<SortKey>, i: int, j: int) -> bool {
    key_lt(keys[i], keys[j]) || (keys[i] == keys[j] && i < j)
}

/// `r` lists the positions of `keys` in the order of a stable sort by key:
/// each position exactly once, ascending by key, ties in the order they came.
pub open spec fn is_stable_order(keys: Seq<SortKey>, r: Seq<usize>) -> bool {
    &&& r.len() == keys.len()
    &&& forall|p: int| 0 <= p < r.len() ==> #[trigger] r[p] < keys.len()
    &&& forall|k: usize| k < keys.len() ==> #[trigger] r.contains(k)
    &&& forall|p: int, q: int|
        0 <= p < q < r.len() ==> goes_before(keys, #[trigger] r[p] as int, #[trigger] r[q] as int)
}

/// Whether `a` orders strictly before `b`.
pub fn key_less(a: SortKey, b: SortKey) -> (r: bool)
    ensures
        r == key_lt(a, b),
{
    a.0 < b.0 || (a.0 == b.0 && (a.1 < b.1 || (a.1 == b.1 && a.2 < b.2)))
}

/// The positions of `keys` in stably sorted order.
pub fn stable_order(keys: &Vec<SortKey>) -> (r: Vec<usize>)
    ensures
        is_stable_order(keys@, r@),
{
    let mut out: Vec<usize> = Vec::new();
    let n = keys.len();
    let mut i: usize = 0;
    while i < n
        invariant
            n == keys@.len(),
            i <= n,
            out@.len() == i,
            forall|p: int| 0 <= p < out@.len() ==> #[trigger] out@[p] < i,
            forall|k: usize| k < i ==> #[trigger] out@.contains(k),
            forall|p: int, q: int|
                0 <= p < q < out@.len() ==> goes_before(
                    keys@,
                    #[trigger] out@[p] as int,
                    #[trigger] out@[q] as int,
                ),
        decreases n - i,
    {
        let ki = keys[i];
        let mut pos: usize = 0;
        while pos < out.len() && !key_less(ki, keys[out[pos]])
            invariant
                n == keys@.len(),
                i < n,
                ki == keys@[i as int],
                pos <= out@.len(),
                forall|p: int| 0 <= p < out@.len() ==> #[trigger] out@[p] < i,
                forall|p: int| 0 <= p < pos ==> !key_lt(ki, keys@[#[trigger] out@[p] as int]),
            decreases out.len() - pos,
        {
            pos += 1;
        }
        let ghost pre = out@;
        out.insert(pos, i);
        proof {
            assert(out@ == pre.insert(pos as int, i));
            assert forall|p: int| 0 <= p < out@.len() implies #[trigger] out@[p] < i + 1 by {
                if p < pos {
                    assert(out@[p] == pre[p]);
                } else if p > pos {
                    assert(out@[p] == pre[p - 1]);
                }
            }
            assert forall|k: usize| k < i + 1 implies #[trigger] out@.contains(k) by {
                if k < i {
                    assert(pre.contains(k));
                    let w = choose|w: int| 0 <= w < pre.len() && pre[w] == k;
                    if w < pos {
                        assert(out@[w] == pre[w]);
                    } else {
                        assert(out@[w + 1] == pre[w]);
                    }
                } else {
                    assert(out@[pos as int] == i);
                }
            }
            assert forall|p: int, q: int| 0 <= p < q < out@.len() implies goes_before(
                keys@,
                #[trigger] out@[p] as int,
                #[trigger] out@[q] as int,
            ) by {
                if q < pos {
                    assert(out@[p] == pre[p] && out@[q] == pre[q]);
                } else if q == pos {
                    assert(out@[p] == pre[p]);
                    assert(!key_lt(ki, keys@[pre[p] as int]));
                } else if p < pos {
                    assert(out@[p] == pre[p] && out@[q] == pre[q - 1]);
                } else if p == pos {
                    assert(out@[q] == pre[q - 1]);
                    assert(key_lt(ki, keys@[pre[pos as int] as int]));
                    if q - 1 > pos {
                        assert(goes_before(keys@, pre[pos as int] as int, pre[q - 1] as int));
                    }
                } else {
                    assert(out@[p] == pre[p - 1] && out@[q] == pre[q - 1]);
                }
            }
        }
        i += 1;
    }
    out
}

/// Positions listed by a stable order are pairwise distinct.
pub proof fn lemma_stable_order_distinct(keys: Seq<SortKey>, r: Seq<usize>)
    requires
        is_stable_order(keys, r),
    ensures
        forall|p: int, q: int| 0 <= p < q < r.len() ==> #[trigger] r[p] != #[trigger] r[q],
{
    assert forall|p: int, q: int| 0 <= p < q < r.len() implies #[trigger] r[p] != #[trigger] r[q] by {
        assert(goes_before(keys, r[p] as int, r[q] as int));
    }
}

/// `items` rearranged so that position `p` holds the item that stood at
/// `order[p]`.
pub fn apply_order<T>(items: Vec<T>, order: &Vec<usize>) -> (r: Vec<T>)
    requires
        order@.len() == items@.len(),
        forall|p: int| 0 <= p < order@.len() ==> #[trigger] order@[p] < items@.len(),
        forall|p: int, q: int|
            0 <= p < q < order@.len() ==> #[trigger] order@[p] != #[trigger] order@[q],
    ensures
        r@.len() == order@.len(),
        forall|p: int| 0 <= p < r@.len() ==> #[trigger] r@[p] == items@[order@[p] as int],
{
    let n = items.len();
    let ghost orig = items@;
    let mut rest = items;
    let mut slots: Vec<Option<T>> = Vec::new();
    let mut i: usize = 0;
    while i < n
        invariant
            n == orig.len(),
            i <= n,
            rest@ == orig.skip(i as int),
            slots@.len() == i,
            forall|k: int| 0 <= k < i ==> #[trigger] slots@[k] == Some(orig[k]),
        decreases n - i,
    {
        let x = rest.remove(0);
        slots.push(Some(x));
        i += 1;
    }
    let mut out: Vec<T> = Vec::new();
    let mut p: usize = 0;
    while p < n
        invariant
            n == orig.len(),
            n == order@.len(),
            p <= n,
            slots@.len() == n,
            out@.len() == p,
            forall|q: int| 0 <= q < order@.len() ==> #[trigger] order@[q] < n,
            forall|a: int, b: int|
                0 <= a < b < order@.len() ==> #[trigger] order@[a] != #[trigger] order@[b],
            forall|j: int| 0 <= j < p ==> #[trigger] out@[j] == orig[order@[j] as int],
            forall|j: int|
                p <= j < n ==> #[trigger] slots@[order@[j] as int] == Some(orig[order@[j] as int]),
        decreases n - p,
    {
        let k = order[p];
        let mut taken: Option<T> = None;
        slots.set_and_swap(k, &mut taken);
        proof {
            assert forall|j: int| p + 1 <= j < n implies #[trigger] slots@[order@[j] as int] == Some(
                orig[order@[j] as int],
            ) by {
                assert(order@[p as int] != order@[j]);
            }
        }
        let x = taken.unwrap();
        out.push(x);
        p += 1;
    }
    out
}

/// `items` stably sorted by `keys`: ascending by key, ties in the order they
/// came.
pub fn sort_by_keys<T>(items: Vec<T>, keys: &Vec<SortKey>) -> (r: Vec<T>)
    requires
        keys@.len() == items@.len(),
    ensures
        exists|order: Seq<usize>|
            is_stable_order(keys@, order) && r@.len() == order.len() && forall|p: int|
                0 <= p < r@.len() ==> #[trigger] r@[p] == items@[order[p] as int],
{
    let order = stable_order(keys);
    proof {
        lemma_stable_order_distinct(keys@, order@);
    }
    let r = apply_order(items, &order);
    assert(is_stable_order(keys@, order@) && r@.len() == order@.len() && forall|p: int|
        0 <= p < r@.len() ==> #[trigger] r@[p] == items@[order@[p] as int]);
    r
}

// ───────────────────────── ordering texts ─────────────────────────

/// `a` orders before `b` as `String`s compare: character by character, a
/// proper prefix first.
pub open spec fn text_lt(a: Seq<char>, b: Seq<char>) -> bool
    decreases a.len(),
{
    if a.len() == 0 {
        b.len() > 0
    } else if b.len() == 0 {
        false
    } else if a[0] != b[0] {
        a[0] < b[0]
    } else {
        text_lt(a.skip(1), b.skip(1))
    }
}

/// The text order is a strict total order.
pub proof fn lemma_text_lt_order(a: Seq<char>, b: Seq<char>)
    ensures
        !text_lt(a, a),
        text_lt(a, b) ==> !text_lt(b, a),
        a != b ==> text_lt(a, b) || text_lt(b, a),
    decreases a.len(),
{
    if a.len() > 0 {
        lemma_text_lt_order(a.skip(1), a.skip(1));
        if b.len() > 0 {
            lemma_text_lt_order(a.skip(1), b.skip(1));
            if a != b && a[0] == b[0] {
                assert(a.skip(1) != b.skip(1)) by {
                    if a.skip(1) == b.skip(1) {
                        assert(a =~= seq![a[0]] + a.skip(1));
                        assert(b =~= seq![b[0]] + b.skip(1));
                    }
                }
            }
        }
    } else if b.len() == 0 {
        assert(a =~= b);
    }
}

/// The text order is transitive.
pub proof fn lemma_text_lt_trans(a: Seq<char>, b: Seq<char>, c: Seq<char>)
    requires
        text_lt(a, b),
        text_lt(b, c),
    ensures
        text_lt(a, c),
    decreases a.len(),
{
    if a.len() > 0 && b.len() > 0 && c.len() > 0 && a[0] == b[0] && b[0] == c[0] {
        lemma_text_lt_trans(a.skip(1), b.skip(1), c.skip(1));
    }
}

/// Whether `a` orders before `b` as texts.
pub fn text_less(a: &[char], b: &[char]) -> (r: bool)
    ensures
        r == text_lt(a@, b@),
{
    let mut i: usize = 0;
    assert(a@.skip(0) =~= a@);
    assert(b@.skip(0) =~= b@);
    while i < a.len() && i < b.len() && a[i] == b[i]
        invariant
            i <= a@.len(),
            i <= b@.len(),
            text_lt(a@, b@) == text_lt(a@.skip(i as int), b@.skip(i as int)),
        decreases a.len() - i,
    {
        assert(a@.skip(i as int).skip(1) =~= a@.skip(i + 1));
        assert(b@.skip(i as int).skip(1) =~= b@.skip(i + 1));
        i += 1;
    }
    if i == a.len() {
        i < b.len()
    } else if i == b.len() {
        false
    } else {
        assert(a@.skip(i as int)[0] == a@[i as int]);
        assert(b@.skip(i as int)[0] == b@[i as int]);
        a[i] < b[i]
    }
}

/// Item `i` goes before item `j` in a stable sort by text keys.
pub open spec fn text_goes_before(keys: Seq<Seq<char>>, i: int, j: int) -> bool {
    text_lt(keys[i], keys[j]) || (keys[i] == keys[j] && i < j)
}

/// `r` lists the positions of `keys` in the order of a stable sort by text.
pub open spec fn is_text_order(keys: Seq<Seq<char>>, r: Seq<usize>) -> bool {
    &&& r.len() == keys.len()
    &&& forall|p: int| 0 <= p < r.len() ==> #[trigger] r[p] < keys.len()
    &&& forall|k: usize| k < keys.len() ==> #[trigger] r.contains(k)
    &&& forall|p: int, q: int|
        0 <= p < q < r.len() ==> text_goes_before(keys, #[trigger] r[p] as int, #[trigger] r[q] as int)
}

/// The positions of `keys` in stably sorted text order.
pub fn stable_text_order(keys: &Vec<Vec<char>>) -> (r: Vec<usize>)
    ensures
        is_text_order(crate::text::views(keys@), r@),
{
    let ghost ks = crate::text::views(keys@);
    let mut out: Vec<usize> = Vec::new();
    let n = keys.len();
    let mut i: usize = 0;
    while i < n
        invariant
            n == keys@.len(),
            ks == crate::text::views(keys@),
            i <= n,
            out@.len() == i,
            forall|p: int| 0 <= p < out@.len() ==> #[trigger] out@[p] < i,
            forall|k: usize| k < i ==> #[trigger] out@.contains(k),
            forall|p: int, q: int|
                0 <= p < q < out@.len() ==> text_goes_before(
                    ks,
                    #[trigger] out@[p] as int,
                    #[trigger] out@[q] as int,
                ),
        decreases n - i,
    {
        let mut pos: usize = 0;
        while pos < out.len() && !text_less(keys[i].as_slice(), keys[out[pos]].as_slice())
            invariant
                n == keys@.len(),
                ks == crate::text::views(keys@),
                i < n,
                pos <= out@.len(),
                forall|p: int| 0 <= p < out@.len() ==> #[trigger] out@[p] < i,
                forall|p: int| 0 <= p < pos ==> !text_lt(ks[i as int], ks[#[trigger] out@[p] as int]),
            decreases out.len() - pos,
        {
            pos += 1;
        }
        let ghost pre = out@;
        let ghost ki = ks[i as int];
        out.insert(pos, i);
        proof {
            assert(out@ == pre.insert(pos as int, i));
            assert forall|p: int| 0 <= p < out@.len() implies #[trigger] out@[p] < i + 1 by {
                if p < pos {
                    assert(out@[p] == pre[p]);
                } else if p > pos {
                    assert(out@[p] == pre[p - 1]);
                }
            }
            assert forall|k: usize| k < i + 1 implies #[trigger] out@.contains(k) by {
                if k < i {
                    assert(pre.contains(k));
                    let w = choose|w: int| 0 <= w < pre.len() && pre[w] == k;
                    if w < pos {
                        assert(out@[w] == pre[w]);
                    } else {
                        assert(out@[w + 1] == pre[w]);
                    }
                } else {
                    assert(out@[pos as int] == i);
                }
            }
            assert forall|p: int, q: int| 0 <= p < q < out@.len() implies text_goes_before(
                ks,
                #[trigger] out@[p] as int,
                #[trigger] out@[q] as int,
            ) by {
                if q < pos {
                    assert(out@[p] == pre[p] && out@[q] == pre[q]);
                } else if q == pos {
                    assert(out@[p] == pre[p]);
                    let kp = ks[pre[p] as int];
                    assert(!text_lt(ki, kp));
                    lemma_text_lt_order(kp, ki);
                } else if p < pos {
                    assert(out@[p] == pre[p] && out@[q] == pre[q - 1]);
                } else if p == pos {
                    assert(out@[q] == pre[q - 1]);
                    let k0 = ks[pre[pos as int] as int];
                    assert(text_lt(ki, k0));
                    if q - 1 > pos {
                        assert(text_goes_before(ks, pre[pos as int] as int, pre[q - 1] as int));
                        let kq = ks[pre[q - 1] as int];
                        if text_lt(k0, kq) {
                            lemma_text_lt_trans(ki, k0, kq);
                        }
                    }
                } else {
                    assert(out@[p] == pre[p - 1] && out@[q] == pre[q - 1]);
                }
            }
        }
        i += 1;
    }
    out
}

/// Positions listed by a stable text order are pairwise distinct.
pub proof fn lemma_text_order_distinct(keys: Seq<Seq<char>>, r: Seq<usize>)
    requires
        is_text_order(keys, r),
    ensures
        forall|p: int, q: int| 0 <= p < q < r.len() ==> #[trigger] r[p] != #[trigger] r[q],
{
    assert forall|p: int, q: int| 0 <= p < q < r.len() implies #[trigger] r[p] != #[trigger] r[q] by {
        assert(text_goes_before(keys, r[p] as int, r[q] as int));
        lemma_text_lt_order(keys[r[p] as int], keys[r[q] as int]);
    }
}

} // verus!
