//! The order in which a header lists functions: by name, and among equal
//! names in inventory order (a stable sort by name).
use vstd::prelude::*;
use crate::model::Inventory;
use crate::text::{lemma_lex_irreflexive, lemma_lex_total, lemma_lex_transitive, lex_lt, str_lt};

verus! {

/// The name of the function at position `i`.
pub open spec fn fn_name(inv: Inventory, i: int) -> Seq<char> {
    inv.functions@[i].name@
}

/// Function `a` is listed before function `b`: its name is smaller, or the
/// names are equal and `a` comes first in the inventory.
pub open spec fn fn_before(inv: Inventory, a: int, b: int) -> bool {
    lex_lt(fn_name(inv, a), fn_name(inv, b)) || (fn_name(inv, a) == fn_name(inv, b) && a < b)
}

/// `s` lists the positions of the inventory's functions, each once, in the
/// order `fn_before`.
pub open spec fn is_name_order(inv: Inventory, s: Seq<usize>) -> bool {
    &&& forall|x: usize| #[trigger] s.contains(x) <==> x < inv.functions@.len()
    &&& forall|i: int, j: int|
        0 <= i < j < s.len() ==> fn_before(inv, #[trigger] s[i] as int, #[trigger] s[j] as int)
}

/// The one sequence that lists the functions in header order.
pub open spec fn name_order(inv: Inventory) -> Seq<usize> {
    choose|s: Seq<usize>| is_name_order(inv, s)
}

/// `fn_before` never holds both ways.
pub proof fn lemma_fn_before_asymmetric(inv: Inventory, a: int, b: int)
    ensures
        !(fn_before(inv, a, b) && fn_before(inv, b, a)),
{
    if fn_before(inv, a, b) && fn_before(inv, b, a) {
        if lex_lt(fn_name(inv, a), fn_name(inv, b)) && lex_lt(fn_name(inv, b), fn_name(inv, a)) {
            lemma_lex_transitive(fn_name(inv, a), fn_name(inv, b), fn_name(inv, a));
            lemma_lex_irreflexive(fn_name(inv, a));
        } else if lex_lt(fn_name(inv, a), fn_name(inv, b)) || lex_lt(fn_name(inv, b), fn_name(inv, a)) {
            lemma_lex_irreflexive(fn_name(inv, a));
        }
    }
}

/// `fn_before` is transitive.
pub proof fn lemma_fn_before_transitive(inv: Inventory, a: int, b: int, c: int)
    requires
        fn_before(inv, a, b),
        fn_before(inv, b, c),
    ensures
        fn_before(inv, a, c),
{
    if lex_lt(fn_name(inv, a), fn_name(inv, b)) && lex_lt(fn_name(inv, b), fn_name(inv, c)) {
        lemma_lex_transitive(fn_name(inv, a), fn_name(inv, b), fn_name(inv, c));
    }
}

/// Two sequences sorted by `fn_before` with the same elements are equal.
pub proof fn lemma_sorted_unique(inv: Inventory, s1: Seq<usize>, s2: Seq<usize>)
    requires
        forall|x: usize| #[trigger] s1.contains(x) <==> s2.contains(x),
        forall|i: int, j: int|
            0 <= i < j < s1.len() ==> fn_before(inv, #[trigger] s1[i] as int, #[trigger] s1[j] as int),
        forall|i: int, j: int|
            0 <= i < j < s2.len() ==> fn_before(inv, #[trigger] s2[i] as int, #[trigger] s2[j] as int),
    ensures
        s1 == s2,
    decreases s1.len(),
{
    if s1.len() == 0 {
        if s2.len() > 0 {
            assert(s2.contains(s2[0]));
            assert(s1.contains(s2[0]));
        }
        assert(s1 =~= s2);
    } else if s2.len() == 0 {
        assert(s1.contains(s1[0]));
        assert(s2.contains(s1[0]));
    } else {
        let a = s1[0];
        let b = s2[0];
        assert(s1.contains(a));
        assert(s2.contains(b));
        assert(s2.contains(a));
        assert(s1.contains(b));
        if a != b {
            let p = choose|p: int| 0 <= p < s2.len() && s2[p] == a;
            let q = choose|q: int| 0 <= q < s1.len() && s1[q] == b;
            assert(fn_before(inv, s2[0] as int, s2[p] as int));
            assert(fn_before(inv, s1[0] as int, s1[q] as int));
            lemma_fn_before_asymmetric(inv, a as int, b as int);
        }
        let t1 = s1.drop_first();
        let t2 = s2.drop_first();
        assert forall|x: usize| #[trigger] t1.contains(x) <==> t2.contains(x) by {
            if t1.contains(x) {
                let i = choose|i: int| 0 <= i < t1.len() && t1[i] == x;
                assert(s1[i + 1] == x);
                assert(fn_before(inv, s1[0] as int, s1[i + 1] as int));
                lemma_fn_before_asymmetric(inv, x as int, x as int);
                assert(s1.contains(x));
                let k = choose|k: int| 0 <= k < s2.len() && s2[k] == x;
                if k == 0 {
                    assert(x == a);
                }
                assert(t2[k - 1] == x);
            }
            if t2.contains(x) {
                let i = choose|i: int| 0 <= i < t2.len() && t2[i] == x;
                assert(s2[i + 1] == x);
                assert(fn_before(inv, s2[0] as int, s2[i + 1] as int));
                lemma_fn_before_asymmetric(inv, x as int, x as int);
                assert(s2.contains(x));
                assert(s1.contains(x));
                let k = choose|k: int| 0 <= k < s1.len() && s1[k] == x;
                if k == 0 {
                    assert(x == b);
                }
                assert(t1[k - 1] == x);
            }
        }
        assert forall|i: int, j: int| 0 <= i < j < t1.len() implies fn_before(
            inv,
            #[trigger] t1[i] as int,
            #[trigger] t1[j] as int,
        ) by {
            assert(t1[i] == s1[i + 1] && t1[j] == s1[j + 1]);
        }
        assert forall|i: int, j: int| 0 <= i < j < t2.len() implies fn_before(
            inv,
            #[trigger] t2[i] as int,
            #[trigger] t2[j] as int,
        ) by {
            assert(t2[i] == s2[i + 1] && t2[j] == s2[j + 1]);
        }
        lemma_sorted_unique(inv, t1, t2);
        assert(s1 =~= seq![a] + t1);
        assert(s2 =~= seq![b] + t2);
    }
}

/// The positions of the inventory's functions, sorted by name; functions with
/// equal names keep their inventory order.
pub fn sorted_functions(inv: &Inventory) -> (r: Vec<usize>)
    ensures
        is_name_order(*inv, r@),
        r@ == name_order(*inv),
{
    let n = inv.functions.len();
    let mut res: Vec<usize> = Vec::new();
    for j in 0..n
        invariant
            n == inv.functions@.len(),
            forall|x: usize| #[trigger] res@.contains(x) <==> x < j,
            forall|a: int, b: int|
                0 <= a < b < res@.len() ==> fn_before(
                    *inv,
                    #[trigger] res@[a] as int,
                    #[trigger] res@[b] as int,
                ),
    {
        let name_j = inv.functions[j].name.as_str();
        let mut p: usize = 0;
        proof {
            assert forall|k: int| 0 <= k < res@.len() implies #[trigger] res@[k] < j by {
                assert(res@.contains(res@[k]));
            }
        }
        while p < res.len() && !str_lt(name_j, inv.functions[res[p]].name.as_str())
            invariant
                n == inv.functions@.len(),
                j < n,
                name_j@ == fn_name(*inv, j as int),
                p <= res@.len(),
                forall|x: usize| #[trigger] res@.contains(x) <==> x < j,
                forall|k: int| 0 <= k < res@.len() ==> #[trigger] res@[k] < j,
                forall|k: int| 0 <= k < p ==> fn_before(*inv, #[trigger] res@[k] as int, j as int),
            decreases res.len() - p,
        {
            proof {
                let x = res@[p as int];
                assert(res@.contains(x));
                lemma_lex_total(fn_name(*inv, x as int), fn_name(*inv, j as int));
            }
            p = p + 1;
        }
        let ghost old_res = res@;
        proof {
            if p < res.len() {
                let x = res@[p as int];
                assert(res@.contains(x));
                assert(fn_before(*inv, j as int, x as int));
            }
        }
        res.insert(p, j);
        proof {
            assert forall|x: usize| #[trigger] res@.contains(x) <==> x < j + 1 by {
                if x < j {
                    assert(old_res.contains(x));
                    let k = choose|k: int| 0 <= k < old_res.len() && old_res[k] == x;
                    if k < p {
                        assert(res@[k] == x);
                    } else {
                        assert(res@[k + 1] == x);
                    }
                }
                if x == j {
                    assert(res@[p as int] == x);
                }
                if res@.contains(x) {
                    let k = choose|k: int| 0 <= k < res@.len() && res@[k] == x;
                    if k < p {
                        assert(old_res[k] == x);
                        assert(old_res.contains(x));
                    } else if k > p {
                        assert(old_res[k - 1] == x);
                        assert(old_res.contains(x));
                    }
                }
            }
            assert forall|a: int, b: int| 0 <= a < b < res@.len() implies fn_before(
                *inv,
                #[trigger] res@[a] as int,
                #[trigger] res@[b] as int,
            ) by {
                if b < p {
                    assert(res@[a] == old_res[a] && res@[b] == old_res[b]);
                } else if b == p {
                    assert(res@[a] == old_res[a]);
                } else if a == p {
                    assert(res@[b] == old_res[b - 1]);
                    if b - 1 > p {
                        assert(fn_before(*inv, old_res[p as int] as int, old_res[b - 1] as int));
                        lemma_fn_before_transitive(
                            *inv,
                            j as int,
                            old_res[p as int] as int,
                            old_res[b - 1] as int,
                        );
                    }
                } else if a < p {
                    assert(res@[a] == old_res[a] && res@[b] == old_res[b - 1]);
                } else {
                    assert(res@[a] == old_res[a - 1] && res@[b] == old_res[b - 1]);
                }
            }
        }
    }
    proof {
        assert(is_name_order(*inv, res@));
        lemma_sorted_unique(*inv, res@, name_order(*inv));
    }
    res
}

} // verus!
