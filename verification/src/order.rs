//! Ordering: the lexicographic order of text, and a stable sort of positions
//! under any total preorder.
use vstd::prelude::*;
use crate::text::{lex_lt, lex_le};

verus! {

// ---------------------------------------------------------------------------
// Lexicographic order on text
// ---------------------------------------------------------------------------

pub proof fn lemma_lex_irreflexive(a: Seq<char>)
    ensures
        !lex_lt(a, a),
    decreases a.len(),
{
    if a.len() > 0 {
        lemma_lex_irreflexive(a.drop_first());
    }
}

pub proof fn lemma_lex_asymmetric(a: Seq<char>, b: Seq<char>)
    ensures
        !(lex_lt(a, b) && lex_lt(b, a)),
    decreases a.len(),
{
    if a.len() > 0 && b.len() > 0 && a[0] == b[0] {
        lemma_lex_asymmetric(a.drop_first(), b.drop_first());
    }
}

pub proof fn lemma_lex_total(a: Seq<char>, b: Seq<char>)
    ensures
        lex_lt(a, b) || lex_lt(b, a) || a == b,
    decreases a.len(),
{
    if a.len() > 0 && b.len() > 0 && a[0] == b[0] {
        lemma_lex_total(a.drop_first(), b.drop_first());
        if a.drop_first() == b.drop_first() {
            assert(a =~= seq![a[0]] + a.drop_first());
            assert(b =~= seq![b[0]] + b.drop_first());
        }
    } else if a.len() > 0 && b.len() > 0 {
        let x = a[0];
        let y = b[0];
        vstd::utf8::char_u32_cast(x, x as u32);
        vstd::utf8::char_u32_cast(y, y as u32);
        assert((x as u32) != (y as u32));
    } else if a.len() == 0 && b.len() == 0 {
        assert(a =~= b);
    }
}

pub proof fn lemma_lex_transitive(a: Seq<char>, b: Seq<char>, c: Seq<char>)
    requires
        lex_lt(a, b),
        lex_lt(b, c),
    ensures
        lex_lt(a, c),
    decreases a.len(),
{
    if a.len() > 0 && b.len() > 0 && c.len() > 0 && a[0] == b[0] && b[0] == c[0] {
        lemma_lex_transitive(a.drop_first(), b.drop_first(), c.drop_first());
    }
}

/// `lex_le` is a total order: total, transitive, antisymmetric.
pub proof fn lemma_lex_le_total_order()
    ensures
        forall|a: Seq<char>, b: Seq<char>| #[trigger] lex_le(a, b) || lex_le(b, a),
        forall|a: Seq<char>, b: Seq<char>, c: Seq<char>|
            #[trigger] lex_le(a, b) && #[trigger] lex_le(b, c) ==> lex_le(a, c),
        forall|a: Seq<char>, b: Seq<char>|
            #[trigger] lex_le(a, b) && lex_le(b, a) ==> a == b,
{
    assert forall|a: Seq<char>, b: Seq<char>| #[trigger] lex_le(a, b) || lex_le(b, a) by {
        lemma_lex_total(a, b);
    }
    assert forall|a: Seq<char>, b: Seq<char>, c: Seq<char>|
        #[trigger] lex_le(a, b) && #[trigger] lex_le(b, c) implies lex_le(a, c) by {
        if lex_lt(a, b) && lex_lt(b, c) {
            lemma_lex_transitive(a, b, c);
        }
    }
    assert forall|a: Seq<char>, b: Seq<char>| #[trigger] lex_le(a, b) && lex_le(b, a) implies a
        == b by {
        lemma_lex_asymmetric(a, b);
    }
}

/// Exact `a < b` in the order of `str`.
pub fn vec_lex_lt(a: &Vec<char>, b: &Vec<char>) -> (r: bool)
    ensures
        r == lex_lt(a@, b@),
{
    let mut i: usize = 0;
    assert(a@.skip(0) =~= a@);
    assert(b@.skip(0) =~= b@);
    while i < a.len() && i < b.len() && a[i] == b[i]
        invariant
            i <= a.len(),
            i <= b.len(),
            lex_lt(a@.skip(i as int), b@.skip(i as int)) == lex_lt(a@, b@),
        decreases a.len() - i,
    {
        assert(a@.skip(i as int).drop_first() =~= a@.skip(i + 1));
        assert(b@.skip(i as int).drop_first() =~= b@.skip(i + 1));
        i += 1;
    }
    if i == a.len() {
        i < b.len()
    } else if i == b.len() {
        false
    } else {
        assert(a@.skip(i as int)[0] == a@[i as int]);
        assert(b@.skip(i as int)[0] == b@[i as int]);
        let ca: char = a[i];
        let cb: char = b[i];
        let x = ca as u32;
        let y = cb as u32;
        x < y
    }
}

// ---------------------------------------------------------------------------
// Stable sort of positions
// ---------------------------------------------------------------------------

/// `le` is a total preorder on the positions `0..n`.
pub open spec fn total_preorder(le: spec_fn(int, int) -> bool, n: int) -> bool {
    &&& forall|i: int, j: int| 0 <= i < n && 0 <= j < n ==> #[trigger] le(i, j) || le(j, i)
    &&& forall|i: int, j: int, k: int|
        0 <= i < n && 0 <= j < n && 0 <= k < n && #[trigger] le(i, j) && #[trigger] le(j, k)
            ==> le(i, k)
}

/// `order` lists each of `0..n` exactly once.
pub open spec fn is_permutation_of_range(order: Seq<usize>, n: int) -> bool {
    &&& order.len() == n <= usize::MAX + 1
    &&& forall|p: int| 0 <= p < order.len() ==> #[trigger] order[p] < n
    &&& forall|p: int, q: int| 0 <= p < q < order.len() ==> order[p] != order[q]
}

/// `order` is sorted by `le`, and positions that `le` ranks equal keep
/// their original relative order.
pub open spec fn sorted_stably(order: Seq<usize>, le: spec_fn(int, int) -> bool) -> bool {
    forall|p: int, q: int|
        #![trigger order[p], order[q]]
        0 <= p < q < order.len() ==> le(order[p] as int, order[q] as int) && (le(
            order[q] as int,
            order[p] as int,
        ) ==> order[p] < order[q])
}

pub proof fn lemma_perm_contains_all(order: Seq<usize>, n: int)
    requires
        is_permutation_of_range(order, n),
    ensures
        forall|k: usize| k < n ==> #[trigger] order.contains(k),
{
    assert forall|k: usize| k < n implies #[trigger] order.contains(k) by {
        lemma_injection_bound(order, n, k as int);
    }
}

proof fn lemma_injection_bound(order: Seq<usize>, n: int, k: int)
    requires
        is_permutation_of_range(order, n),
        0 <= k < n,
    ensures
        order.contains(k as usize),
{
    if !order.contains(k as usize) {
        // The entries are n distinct values in 0..n without k: n values in
        // a set of n - 1 elements.
        let s = order.to_set();
        order.unique_seq_to_set();
        let r = Set::<usize>::new(|x: usize| x < n && x != k as usize);
        assert(s.subset_of(r)) by {
            assert forall|x: usize| s.contains(x) implies r.contains(x) by {
                let p = choose|p: int| 0 <= p < order.len() && order[p] == x;
            }
        }
        lemma_range_minus_len(n, k);
        vstd::set_lib::lemma_len_subset(s, r);
        assert(false);
    }
}

proof fn lemma_range_minus_len(n: int, k: int)
    requires
        0 <= k < n <= usize::MAX + 1,
    ensures
        Set::<usize>::new(|x: usize| x < n && x != k as usize).finite(),
        Set::<usize>::new(|x: usize| x < n && x != k as usize).len() == n - 1,
    decreases n,
{
    let r = Set::<usize>::new(|x: usize| x < n && x != k as usize);
    let full = Set::<usize>::new(|x: usize| x < n);
    lemma_range_len(n);
    assert(r =~= full.remove(k as usize));
}

proof fn lemma_range_len(n: int)
    requires
        0 <= n <= usize::MAX + 1,
    ensures
        Set::<usize>::new(|x: usize| x < n).finite(),
        Set::<usize>::new(|x: usize| x < n).len() == n,
    decreases n,
{
    let full = Set::<usize>::new(|x: usize| x < n);
    if n == 0 {
        assert(full =~= Set::<usize>::empty());
    } else {
        lemma_range_len(n - 1);
        let smaller = Set::<usize>::new(|x: usize| x < n - 1);
        assert(!smaller.contains((n - 1) as usize));
        assert(full =~= smaller.insert((n - 1) as usize));
    }
}

/// Positions `0..n` sorted stably by `le`, comparing with `le_exec`.
pub fn stable_sort_indices<F: Fn(usize, usize) -> bool>(
    n: usize,
    le_exec: F,
    Ghost(le): Ghost<spec_fn(int, int) -> bool>,
) -> (order: Vec<usize>)
    requires
        total_preorder(le, n as int),
        forall|i: usize, j: usize| i < n && j < n ==> #[trigger] le_exec.requires((i, j)),
        forall|i: usize, j: usize, r: bool|
            i < n && j < n && #[trigger] le_exec.ensures((i, j), r) ==> r == le(i as int, j as int),
    ensures
        is_permutation_of_range(order@, n as int),
        sorted_stably(order@, le),
{
    let mut order: Vec<usize> = Vec::new();
    let mut x: usize = 0;
    while x < n
        invariant
            x <= n,
            total_preorder(le, n as int),
            forall|i: usize, j: usize| i < n && j < n ==> #[trigger] le_exec.requires((i, j)),
            forall|i: usize, j: usize, r: bool|
                i < n && j < n && #[trigger] le_exec.ensures((i, j), r) ==> r == le(
                    i as int,
                    j as int,
                ),
            is_permutation_of_range(order@, x as int),
            sorted_stably(order@, le),
        decreases n - x,
    {
        let mut pos = order.len();
        while pos > 0 && !le_exec(order[pos - 1], x)
            invariant
                pos <= order.len() == x,
                x < n,
                total_preorder(le, n as int),
                forall|i: usize, j: usize| i < n && j < n ==> #[trigger] le_exec.requires((i, j)),
                forall|i: usize, j: usize, r: bool|
                    i < n && j < n && #[trigger] le_exec.ensures((i, j), r) ==> r == le(
                        i as int,
                        j as int,
                    ),
                is_permutation_of_range(order@, x as int),
                forall|p: int| pos <= p < order.len() ==> !le(#[trigger] order@[p] as int, x as int),
            decreases pos,
        {
            pos -= 1;
        }
        let ghost old_order = order@;
        proof {
            if pos > 0 {
                assert(le(old_order[pos - 1] as int, x as int));
                assert forall|p: int| 0 <= p < pos implies le(#[trigger] old_order[p] as int, x as int) by {
                    if p < pos - 1 {
                        assert(le(old_order[p] as int, old_order[pos - 1] as int));
                    }
                }
            }
        }
        order.insert(pos, x);
        proof {
            let o = order@;
            assert(o =~= old_order.insert(pos as int, x));
            assert forall|p: int| 0 <= p < o.len() implies #[trigger] o[p] < x + 1 by {
                if p < pos {
                    assert(o[p] == old_order[p]);
                } else if p > pos {
                    assert(o[p] == old_order[p - 1]);
                }
            }
            assert forall|p: int, q: int| 0 <= p < q < o.len() implies o[p] != o[q] by {
                if p < pos && q < pos {
                } else if p < pos && q == pos {
                    assert(old_order[p] < x);
                } else if p < pos {
                    assert(o[q] == old_order[q - 1]);
                } else if p == pos {
                    assert(o[q] == old_order[q - 1]);
                    assert(old_order[q - 1] < x);
                } else {
                    assert(o[q] == old_order[q - 1]);
                    assert(o[p] == old_order[p - 1]);
                }
            }
            assert forall|p: int, q: int|
                #![trigger o[p], o[q]]
                0 <= p < q < o.len() implies le(o[p] as int, o[q] as int) && (le(
                o[q] as int,
                o[p] as int,
            ) ==> o[p] < o[q]) by {
                if q < pos {
                    assert(o[p] == old_order[p] && o[q] == old_order[q]);
                } else if q == pos {
                    assert(o[p] == old_order[p]);
                    assert(old_order[p] < x);
                } else if p < pos {
                    assert(o[p] == old_order[p] && o[q] == old_order[q - 1]);
                    assert(le(old_order[p] as int, old_order[q - 1] as int));
                } else if p == pos {
                    assert(o[q] == old_order[q - 1]);
                    assert(!le(old_order[q - 1] as int, x as int));
                    assert(le(x as int, old_order[q - 1] as int));
                } else {
                    assert(o[p] == old_order[p - 1] && o[q] == old_order[q - 1]);
                    assert(old_order[p - 1] == old_order[(p - 1) as int]);
                }
            }
        }
        x += 1;
    }
    order
}

/// The order `le` that compares positions by their text keys.
pub open spec fn text_key_le(keys: Seq<Vec<char>>) -> spec_fn(int, int) -> bool {
    |i: int, j: int| lex_le(keys[i]@, keys[j]@)
}

/// Positions of `keys` sorted stably by key.
pub fn sort_positions_by_text(keys: &Vec<Vec<char>>) -> (order: Vec<usize>)
    ensures
        is_permutation_of_range(order@, keys.len() as int),
        sorted_stably(order@, text_key_le(keys@)),
{
    let ghost le = text_key_le(keys@);
    proof {
        lemma_lex_le_total_order();
        assert forall|i: int, j: int| 0 <= i < keys.len() && 0 <= j < keys.len() implies #[trigger] le(
            i,
            j,
        ) || le(j, i) by {
            assert(lex_le(keys@[i]@, keys@[j]@) || lex_le(keys@[j]@, keys@[i]@));
        }
        assert forall|i: int, j: int, k: int|
            0 <= i < keys.len() && 0 <= j < keys.len() && 0 <= k < keys.len() && #[trigger] le(i, j)
                && #[trigger] le(j, k) implies le(i, k) by {
            assert(lex_le(keys@[i]@, keys@[j]@) && lex_le(keys@[j]@, keys@[k]@));
        }
    }
    let key_le = |i: usize, j: usize| -> (r: bool)
        requires
            i < keys.len(),
            j < keys.len(),
        ensures
            r == lex_le(keys@[i as int]@, keys@[j as int]@),
        {
            let lt = vec_lex_lt(&keys[j], &keys[i]);
            proof {
                lemma_lex_total(keys@[i as int]@, keys@[j as int]@);
                lemma_lex_asymmetric(keys@[i as int]@, keys@[j as int]@);
                if keys@[i as int]@ == keys@[j as int]@ {
                    lemma_lex_irreflexive(keys@[i as int]@);
                }
            }
            !lt
        };
    stable_sort_indices(keys.len(), key_le, Ghost(le))
}

} // verus!
