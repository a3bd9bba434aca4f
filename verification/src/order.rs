//! The order in which the catalogue lists paths: lexicographic by character,
//! letters of the ASCII alphabet compared without regard to case, and paths that
//! differ only in case ordered by code point.

use crate::text::{chars_of, code, code_points, fold_code, folded_points};
use vstd::prelude::*;

verus! {

/// Strict lexicographic order on sequences of integers: at the first position
/// where the two differ `a` holds the smaller one, or `a` is a proper prefix of `b`.
pub open spec fn lex_before(a: Seq<int>, b: Seq<int>) -> bool
    decreases a.len(),
{
    if b.len() == 0 {
        false
    } else if a.len() == 0 {
        true
    } else if a[0] == b[0] {
        lex_before(a.drop_first(), b.drop_first())
    } else {
        a[0] < b[0]
    }
}

/// `a` is listed strictly before `b`.
pub open spec fn path_before(a: Seq<char>, b: Seq<char>) -> bool {
    lex_before(folded_points(a), folded_points(b)) || (folded_points(a) == folded_points(b)
        && lex_before(code_points(a), code_points(b)))
}

/// `a` is listed before `b`, or is `b`.
pub open spec fn path_leq(a: Seq<char>, b: Seq<char>) -> bool {
    a == b || path_before(a, b)
}

/// The listing order as a relation.
pub open spec fn path_order() -> spec_fn(Seq<char>, Seq<char>) -> bool {
    |a: Seq<char>, b: Seq<char>| path_leq(a, b)
}

/// No sequence stands before itself.
pub proof fn lemma_lex_irreflexive(a: Seq<int>)
    ensures
        !lex_before(a, a),
    decreases a.len(),
{
    if a.len() > 0 {
        lemma_lex_irreflexive(a.drop_first());
    }
}

/// What stands before a sequence stands before all that the sequence stands before.
pub proof fn lemma_lex_transitive(a: Seq<int>, b: Seq<int>, c: Seq<int>)
    requires
        lex_before(a, b),
        lex_before(b, c),
    ensures
        lex_before(a, c),
    decreases a.len(),
{
    if a.len() > 0 && a[0] == b[0] && b[0] == c[0] {
        lemma_lex_transitive(a.drop_first(), b.drop_first(), c.drop_first());
    }
}

/// Of two different sequences one stands before the other.
pub proof fn lemma_lex_trichotomy(a: Seq<int>, b: Seq<int>)
    ensures
        a == b || lex_before(a, b) || lex_before(b, a),
    decreases a.len(),
{
    if a.len() > 0 && b.len() > 0 && a[0] == b[0] {
        lemma_lex_trichotomy(a.drop_first(), b.drop_first());
        if a.drop_first() == b.drop_first() {
            assert(a =~= seq![a[0]] + a.drop_first());
            assert(b =~= seq![b[0]] + b.drop_first());
        }
    } else if a.len() == 0 && b.len() == 0 {
        assert(a =~= b);
    }
}

/// Two texts with the same code points are the same text.
pub proof fn lemma_code_points_injective(a: Seq<char>, b: Seq<char>)
    requires
        code_points(a) == code_points(b),
    ensures
        a == b,
{
    assert(a.len() == code_points(a).len());
    assert(b.len() == code_points(b).len());
    assert forall|i: int| 0 <= i < a.len() implies a[i] == b[i] by {
        assert(code_points(a)[i] == a[i] as int);
        assert(code_points(b)[i] == b[i] as int);
    }
    assert(a =~= b);
}

/// The listing order is a total order.
pub proof fn lemma_path_order_total()
    ensures
        vstd::relations::total_ordering(path_order()),
{
    let r = path_order();
    assert forall|x: Seq<char>, y: Seq<char>| #[trigger] r(x, y) && #[trigger] r(y, x) implies x
        == y by {
        if x != y {
            if lex_before(folded_points(x), folded_points(y)) {
                if lex_before(folded_points(y), folded_points(x)) {
                    lemma_lex_transitive(folded_points(x), folded_points(y), folded_points(x));
                }
                lemma_lex_irreflexive(folded_points(x));
            } else {
                lemma_lex_irreflexive(folded_points(x));
                lemma_lex_transitive(code_points(x), code_points(y), code_points(x));
                lemma_lex_irreflexive(code_points(x));
            }
        }
    }
    assert forall|x: Seq<char>, y: Seq<char>, z: Seq<char>| #[trigger]
        r(x, y) && #[trigger] r(y, z) implies r(x, z) by {
        if x != y && y != z {
            let (fx, fy, fz) = (folded_points(x), folded_points(y), folded_points(z));
            if lex_before(fx, fy) && lex_before(fy, fz) {
                lemma_lex_transitive(fx, fy, fz);
            } else if fx == fy && fy == fz {
                lemma_lex_transitive(code_points(x), code_points(y), code_points(z));
            }
        }
    }
    assert forall|x: Seq<char>, y: Seq<char>| #[trigger] r(x, y) || #[trigger] r(y, x) by {
        lemma_lex_trichotomy(folded_points(x), folded_points(y));
        if folded_points(x) == folded_points(y) {
            lemma_lex_trichotomy(code_points(x), code_points(y));
            if code_points(x) == code_points(y) {
                lemma_code_points_injective(x, y);
            }
        }
    }
}

/// The outcome of comparing two sequences of points.
enum Rank {
    Before,
    Same,
    After,
}

/// The points by which one level of the order compares `s`.
spec fn points(s: Seq<char>, fold: bool) -> Seq<int> {
    if fold {
        folded_points(s)
    } else {
        code_points(s)
    }
}

/// The point by which one level of the order compares the character at `i`.
fn point_at(s: &Vec<char>, i: usize, fold: bool) -> (n: u32)
    requires
        i < s.len(),
    ensures
        n == points(s@, fold)[i as int],
{
    if fold {
        fold_code(s[i])
    } else {
        code(s[i])
    }
}

/// Compares two texts on one level of the order: by their folded points, or
/// by their code points.
fn rank_points(a: &Vec<char>, b: &Vec<char>, fold: bool) -> (r: Rank)
    ensures
        r is Before <==> lex_before(points(a@, fold), points(b@, fold)),
        r is Same <==> points(a@, fold) == points(b@, fold),
{
    let ghost pa = points(a@, fold);
    let ghost pb = points(b@, fold);
    let mut i: usize = 0;
    assert(pa.skip(0) =~= pa && pb.skip(0) =~= pb);
    while i < a.len() && i < b.len()
        invariant
            pa == points(a@, fold),
            pb == points(b@, fold),
            pa.len() == a.len(),
            pb.len() == b.len(),
            i <= a.len(),
            i <= b.len(),
            forall|j: int| 0 <= j < i ==> pa[j] == pb[j],
            lex_before(pa, pb) == lex_before(pa.skip(i as int), pb.skip(i as int)),
            lex_before(pb, pa) == lex_before(pb.skip(i as int), pa.skip(i as int)),
        decreases a.len() - i,
    {
        let x = point_at(a, i, fold);
        let y = point_at(b, i, fold);
        if x != y {
            proof {
                if lex_before(pa, pb) {
                    lemma_lex_irreflexive(pa);
                }
                if lex_before(pb, pa) {
                    lemma_lex_irreflexive(pb);
                }
            }
            if x < y {
                return Rank::Before;
            } else {
                return Rank::After;
            }
        }
        assert(pa.skip(i as int).drop_first() =~= pa.skip(i + 1));
        assert(pb.skip(i as int).drop_first() =~= pb.skip(i + 1));
        i += 1;
    }
    if i < b.len() {
        proof {
            lemma_lex_irreflexive(pa);
        }
        Rank::Before
    } else if i < a.len() {
        proof {
            lemma_lex_irreflexive(pb);
        }
        Rank::After
    } else {
        assert(pa =~= pb);
        proof {
            lemma_lex_irreflexive(pa);
        }
        Rank::Same
    }
}

/// Tells whether the path `a` is listed strictly before the path `b`.
pub fn path_less(a: &str, b: &str) -> (r: bool)
    ensures
        r == path_before(a@, b@),
{
    let ca = chars_of(a);
    let cb = chars_of(b);
    match rank_points(&ca, &cb, true) {
        Rank::Before => true,
        Rank::After => false,
        Rank::Same => match rank_points(&ca, &cb, false) {
            Rank::Before => true,
            _ => false,
        },
    }
}

/// Sorts paths into the listing order.
pub fn sort_paths(paths: &Vec<String>) -> (sorted: Vec<String>)
    ensures
        sorted.deep_view() == paths.deep_view().sort_by(path_order()),
        vstd::relations::sorted_by(sorted.deep_view(), path_order()),
        sorted.deep_view().to_multiset() == paths.deep_view().to_multiset(),
{
    let ghost given = paths.deep_view();
    let mut sorted: Vec<String> = Vec::new();
    let mut i: usize = 0;
    proof {
        lemma_path_order_total();
        assert(given.take(0) =~= Seq::<Seq<char>>::empty());
        assert(sorted.deep_view() =~= Seq::<Seq<char>>::empty());
    }
    while i < paths.len()
        invariant
            given == paths.deep_view(),
            i <= paths.len(),
            vstd::relations::total_ordering(path_order()),
            vstd::relations::sorted_by(sorted.deep_view(), path_order()),
            sorted.deep_view().to_multiset() == given.take(i as int).to_multiset(),
        decreases paths.len() - i,
    {
        let path = paths[i].clone();
        let ghost p = path@;
        let ghost before = sorted.deep_view();
        let mut at: usize = 0;
        while at < sorted.len() && !path_less(path.as_str(), sorted[at].as_str())
            invariant
                before == sorted.deep_view(),
                p == path@,
                at <= sorted.len(),
                vstd::relations::total_ordering(path_order()),
                forall|j: int| 0 <= j < at ==> #[trigger] path_order()(before[j], p),
            decreases sorted.len() - at,
        {
            assert(path_order()(before[at as int], p) || path_order()(p, before[at as int]));
            at += 1;
        }
        sorted.insert(at, path);
        proof {
            let after = sorted.deep_view();
            assert(after =~= before.insert(at as int, p));
            assert forall|j: int, k: int| 0 <= j < k < after.len() implies #[trigger] path_order()(
                after[j],
                after[k],
            ) by {
                if j == at {
                    assert(path_order()(p, before[at as int]));
                    assert(path_order()(before[at as int], before[k - 1]) || at == k - 1);
                } else if k == at {
                    assert(path_order()(before[j], p));
                } else if j < at {
                    assert(path_order()(before[j], before[if k < at { k } else { k - 1 }]));
                } else {
                    assert(path_order()(before[j - 1], before[k - 1]));
                }
            }
            vstd::seq_lib::to_multiset_insert(before, at as int, p);
            assert(given.take(i + 1) =~= given.take(i as int).push(p));
            vstd::seq_lib::to_multiset_build(given.take(i as int), p);
        }
        i += 1;
    }
    proof {
        assert(given.take(i as int) =~= given);
        given.lemma_sort_by_ensures(path_order());
        vstd::seq_lib::lemma_sorted_unique(sorted.deep_view(), given.sort_by(path_order()), path_order());
    }
    sorted
}

} // verus!
