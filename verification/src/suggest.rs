//! Edit distance between command paths, and "did you mean" suggestions.
use vstd::prelude::*;

use crate::text::{chars_of, string_from_chars};

verus! {

/// The Levenshtein distance: the fewest single-character insertions,
/// deletions and substitutions that turn `a` into `b`.
pub open spec fn edit_distance(a: Seq<char>, b: Seq<char>) -> nat
    decreases a.len() + b.len(),
{
    if a.len() == 0 {
        b.len()
    } else if b.len() == 0 {
        a.len()
    } else {
        let del = edit_distance(a.drop_last(), b) + 1;
        let ins = edit_distance(a, b.drop_last()) + 1;
        let sub = edit_distance(a.drop_last(), b.drop_last()) + if a.last() == b.last() {
            0nat
        } else {
            1nat
        };
        min3(del, ins, sub)
    }
}

/// The least of three numbers.
pub open spec fn min3(x: nat, y: nat, z: nat) -> nat {
    if x <= y && x <= z {
        x
    } else if y <= z {
        y
    } else {
        z
    }
}

/// The distance never exceeds the longer length.
pub proof fn lemma_edit_distance_bound(a: Seq<char>, b: Seq<char>)
    ensures
        edit_distance(a, b) <= if a.len() >= b.len() { a.len() } else { b.len() },
    decreases a.len() + b.len(),
{
    if a.len() > 0 && b.len() > 0 {
        lemma_edit_distance_bound(a.drop_last(), b.drop_last());
    }
}

/// Levenshtein distance is symmetric.
pub proof fn lemma_edit_distance_symmetric(a: Seq<char>, b: Seq<char>)
    ensures
        edit_distance(a, b) == edit_distance(b, a),
    decreases a.len() + b.len(),
{
    if a.len() > 0 && b.len() > 0 {
        lemma_edit_distance_symmetric(a.drop_last(), b);
        lemma_edit_distance_symmetric(a, b.drop_last());
        lemma_edit_distance_symmetric(a.drop_last(), b.drop_last());
    }
}

/// The distance is zero exactly between equal strings.
pub proof fn lemma_edit_distance_zero(a: Seq<char>, b: Seq<char>)
    ensures
        (edit_distance(a, b) == 0) == (a == b),
    decreases a.len() + b.len(),
{
    if a.len() > 0 && b.len() > 0 {
        lemma_edit_distance_zero(a.drop_last(), b.drop_last());
        if a == b {
            assert(a.drop_last() == b.drop_last());
        } else if edit_distance(a, b) == 0 {
            assert(a =~= a.drop_last().push(a.last()));
            assert(b =~= b.drop_last().push(b.last()));
        }
    } else if a.len() == 0 && b.len() == 0 {
        assert(a =~= b);
    }
}

/// Row `i` of the distance table: the distances from `a[..i]` to every prefix of `b`.
pub open spec fn row_holds(row: Seq<usize>, a: Seq<char>, b: Seq<char>, i: int, upto: int) -> bool {
    &&& row.len() >= upto
    &&& forall|k: int| 0 <= k < upto ==> row[k] as nat == edit_distance(a.take(i), b.take(k))
}

/// The Levenshtein distance between `a` and `b`, counted in characters.
pub fn levenshtein(a: &str, b: &str) -> (d: usize)
    ensures
        d == edit_distance(a@, b@),
{
    let av = chars_of(a);
    let bv = chars_of(b);
    let m = bv.len();
    let alen = av.len();
    let mut prev: Vec<usize> = Vec::new();
    let mut j: usize = 0;
    while j < m
        invariant
            bv@ == b@,
            m == bv@.len(),
            j <= m,
            prev@.len() == j,
            forall|k: int| 0 <= k < j ==> prev@[k] == k,
        decreases m - j,
    {
        prev.push(j);
        j = j + 1;
    }
    prev.push(m);
    assert(prev.len() == m + 1);
    proof {
        assert forall|k: int| 0 <= k < m + 1 implies prev@[k] as nat == edit_distance(
            a@.take(0),
            b@.take(k),
        ) by {
            assert(a@.take(0).len() == 0);
        }
    }
    let mut i: usize = 0;
    while i < av.len()
        invariant
            av@ == a@,
            bv@ == b@,
            m == bv@.len(),
            i <= av@.len(),
            alen == av@.len(),
            m < usize::MAX,
            prev@.len() == m + 1,
            row_holds(prev@, a@, b@, i as int, m + 1),
        decreases av.len() - i,
    {
        let ca = av[i];
        let mut cur: Vec<usize> = Vec::new();
        cur.push(i + 1);
        proof {
            assert(a@.take(i + 1).len() == i + 1);
            assert(b@.take(0).len() == 0);
        }
        let mut j: usize = 0;
        while j < m
            invariant
                av@ == a@,
                bv@ == b@,
                m == bv@.len(),
                i < av@.len(),
                alen == av@.len(),
                m < usize::MAX,
                ca == a@[i as int],
                prev@.len() == m + 1,
                row_holds(prev@, a@, b@, i as int, m + 1),
                j <= m,
                cur@.len() == j + 1,
                row_holds(cur@, a@, b@, i + 1, j + 1),
            decreases m - j,
        {
            let cb = bv[j];
            let ghost x = a@.take(i + 1);
            let ghost y = b@.take(j + 1);
            proof {
                assert(a@.take(i as int).len() == i);
                assert(b@.take(j as int).len() == j);
                assert(y.len() == j + 1);
                assert(x.len() == i + 1);
                assert(x.drop_last() =~= a@.take(i as int));
                assert(y.drop_last() =~= b@.take(j as int));
                assert(x.last() == ca);
                assert(y.last() == cb);
                lemma_edit_distance_bound(a@.take(i as int), y);
                lemma_edit_distance_bound(x, b@.take(j as int));
                lemma_edit_distance_bound(a@.take(i as int), b@.take(j as int));
            }
            let cost: usize = if ca == cb { 0 } else { 1 };
            let up = prev[j + 1];
            let left = cur[j];
            let shorter = if up <= left { up } else { left };
            let sub = prev[j] + cost;
            let best = if shorter + 1 <= sub { shorter + 1 } else { sub };
            cur.push(best);
            j = j + 1;
        }
        prev = cur;
        i = i + 1;
    }
    proof {
        assert(a@.take(av@.len() as int) =~= a@);
        assert(b@.take(m as int) =~= b@);
    }
    prev[m]
}

// ---------------------------------------------------------------------------
// Ranking suggestions
// ---------------------------------------------------------------------------

/// Lexicographic order on character sequences (the order of `str`'s `<`).
pub open spec fn seq_less(a: Seq<char>, b: Seq<char>) -> bool
    decreases a.len(),
{
    if a.len() == 0 {
        b.len() > 0
    } else if b.len() == 0 {
        false
    } else if a[0] != b[0] {
        a[0] < b[0]
    } else {
        seq_less(a.drop_first(), b.drop_first())
    }
}

/// A scored candidate: a distance and a path.
pub open spec fn scored_le(x: (nat, Seq<char>), y: (nat, Seq<char>)) -> bool {
    x.0 < y.0 || (x.0 == y.0 && !seq_less(y.1, x.1))
}

/// `seq_less` is a strict total order.
pub proof fn lemma_seq_less_total(a: Seq<char>, b: Seq<char>)
    ensures
        !(seq_less(a, b) && seq_less(b, a)),
        a != b ==> seq_less(a, b) || seq_less(b, a),
        !seq_less(a, a),
    decreases a.len(),
{
    if a.len() > 0 && b.len() > 0 {
        lemma_seq_less_total(a.drop_first(), b.drop_first());
        if a != b && a[0] == b[0] {
            assert(a.drop_first() != b.drop_first()) by {
                if a.drop_first() == b.drop_first() {
                    assert(a =~= seq![a[0]] + a.drop_first());
                    assert(b =~= seq![b[0]] + b.drop_first());
                }
            }
        }
    } else if a.len() > 0 {
        lemma_seq_less_total(a.drop_first(), a.drop_first());
    } else if b.len() == 0 {
        assert(a =~= b);
    }
}

/// `seq_less` is transitive.
pub proof fn lemma_seq_less_trans(a: Seq<char>, b: Seq<char>, c: Seq<char>)
    requires
        seq_less(a, b),
        seq_less(b, c),
    ensures
        seq_less(a, c),
    decreases a.len(),
{
    if a.len() > 0 && b.len() > 0 && c.len() > 0 {
        if a[0] == b[0] && b[0] == c[0] {
            lemma_seq_less_trans(a.drop_first(), b.drop_first(), c.drop_first());
        }
    }
}

/// `scored_le` is a total order.
pub proof fn lemma_scored_le_total(x: (nat, Seq<char>), y: (nat, Seq<char>), z: (nat, Seq<char>))
    ensures
        scored_le(x, y) || scored_le(y, x),
        scored_le(x, x),
        scored_le(x, y) && scored_le(y, z) ==> scored_le(x, z),
        scored_le(x, y) && scored_le(y, x) ==> x == y,
{
    lemma_seq_less_total(x.1, y.1);
    lemma_seq_less_total(y.1, z.1);
    lemma_seq_less_total(x.1, z.1);
    lemma_seq_less_total(x.1, x.1);
    if x.0 == y.0 && y.0 == z.0 && !seq_less(y.1, x.1) && !seq_less(z.1, y.1) {
        if seq_less(z.1, x.1) {
            if x.1 == y.1 {
            } else if y.1 == z.1 {
            } else {
                lemma_seq_less_trans(z.1, x.1, y.1);
            }
        }
    }
}

/// The order of two paths, as `<` on strings decides it.
pub fn str_less(a: &[char], b: &[char]) -> (r: bool)
    ensures
        r == seq_less(a@, b@),
{
    let mut i: usize = 0;
    assert(a@.take(0) =~= b@.take(0));
    assert(a@.skip(0) =~= a@ && b@.skip(0) =~= b@);
    while i < a.len() && i < b.len() && a[i] == b[i]
        invariant
            i <= a@.len(),
            i <= b@.len(),
            a@.take(i as int) == b@.take(i as int),
            seq_less(a@, b@) == seq_less(a@.skip(i as int), b@.skip(i as int)),
        decreases a.len() - i,
    {
        proof {
            assert(a@.skip(i as int).drop_first() =~= a@.skip(i + 1));
            assert(b@.skip(i as int).drop_first() =~= b@.skip(i + 1));
            assert(a@.take(i + 1) =~= a@.take(i as int).push(a@[i as int]));
            assert(b@.take(i + 1) =~= b@.take(i as int).push(b@[i as int]));
        }
        i = i + 1;
    }
    proof {
        if i < a@.len() {
            assert(a@.skip(i as int)[0] == a@[i as int]);
        }
        if i < b@.len() {
            assert(b@.skip(i as int)[0] == b@[i as int]);
        }
    }
    if i == a.len() {
        i < b.len()
    } else if i == b.len() {
        false
    } else {
        a[i] < b[i]
    }
}

/// The candidates are in ascending `scored_le` order.
pub open spec fn sorted_scored(s: Seq<(nat, Seq<char>)>) -> bool {
    forall|i: int, j: int| 0 <= i < j < s.len() ==> scored_le(#[trigger] s[i], #[trigger] s[j])
}

/// The view of a scored candidate.
pub open spec fn scored_view(x: (usize, Vec<char>)) -> (nat, Seq<char>) {
    (x.0 as nat, x.1@)
}

/// The candidates at distance three or less from `needle`, scored.
pub open spec fn close_candidates(paths: Seq<Seq<char>>, needle: Seq<char>) -> Seq<(nat, Seq<char>)> {
    paths.map_values(|p: Seq<char>| (edit_distance(needle, p), p)).filter(
        |x: (nat, Seq<char>)| x.0 <= 3,
    )
}

/// The closest candidates: the first `k` of the candidates sorted by distance,
/// then by path.
pub open spec fn is_ranking(r: Seq<Seq<char>>, cands: Seq<(nat, Seq<char>)>, k: nat) -> bool {
    exists|s: Seq<(nat, Seq<char>)>|
        #![trigger sorted_scored(s)]
        {
            &&& sorted_scored(s)
            &&& s.to_multiset() == cands.to_multiset()
            &&& r == s.take(if s.len() < k { s.len() as int } else { k as int }).map_values(
                |x: (nat, Seq<char>)| x.1,
            )
        }
}

/// Whether `x` comes strictly before `y`.
fn scored_lt(x: &(usize, Vec<char>), y: &(usize, Vec<char>)) -> (r: bool)
    ensures
        r == !scored_le(scored_view(*y), scored_view(*x)),
{
    x.0 < y.0 || (x.0 == y.0 && str_less(&x.1, &y.1))
}

/// Inserts `x` into the sorted `v`, after every element not greater than it.
fn insert_sorted(v: &mut Vec<(usize, Vec<char>)>, x: (usize, Vec<char>))
    requires
        sorted_scored(old(v)@.map_values(|y: (usize, Vec<char>)| scored_view(y))),
    ensures
        sorted_scored(final(v)@.map_values(|y: (usize, Vec<char>)| scored_view(y))),
        final(v)@.map_values(|y: (usize, Vec<char>)| scored_view(y)).to_multiset() == old(
            v,
        )@.map_values(|y: (usize, Vec<char>)| scored_view(y)).to_multiset().insert(scored_view(x)),
{
    let ghost s = v@.map_values(|y: (usize, Vec<char>)| scored_view(y));
    let mut k: usize = 0;
    while k < v.len() && !scored_lt(&x, &v[k])
        invariant
            k <= v@.len(),
            s == v@.map_values(|y: (usize, Vec<char>)| scored_view(y)),
            forall|j: int| 0 <= j < k ==> scored_le(s[j], scored_view(x)),
        decreases v.len() - k,
    {
        proof {
            lemma_scored_le_total(s[k as int], scored_view(x), scored_view(x));
        }
        k = k + 1;
    }
    let ghost xv = scored_view(x);
    proof {
        if k < v@.len() {
            // x is strictly below s[k]
            assert(!scored_le(s[k as int], xv));
        }
    }
    v.insert(k, x);
    proof {
        let t = v@.map_values(|y: (usize, Vec<char>)| scored_view(y));
        assert(t =~= s.insert(k as int, xv));
        assert forall|a: int, b: int| 0 <= a < b < t.len() implies scored_le(#[trigger] t[a], #[trigger] t[b]) by {
            if b < k {
                assert(t[a] == s[a] && t[b] == s[b]);
            } else if a < k && b == k {
                assert(t[a] == s[a]);
            } else if a < k && b > k {
                assert(t[a] == s[a] && t[b] == s[b - 1]);
                lemma_scored_le_total(s[a], xv, s[k as int]);
                lemma_scored_le_total(s[k as int], xv, s[k as int]);
                lemma_scored_le_total(s[a], s[k as int], s[b - 1]);
                if k < b - 1 {
                    assert(scored_le(s[k as int], s[b - 1]));
                }
            } else if a == k {
                assert(t[b] == s[b - 1]);
                lemma_scored_le_total(s[k as int], xv, xv);
                lemma_scored_le_total(xv, s[k as int], s[b - 1]);
                if k < b - 1 {
                    assert(scored_le(s[k as int], s[b - 1]));
                }
            } else {
                assert(t[a] == s[a - 1] && t[b] == s[b - 1]);
            }
        }
        assert(sorted_scored(t));
        s.insert_ensures(k as int, xv);
        assert(s.insert(k as int, xv) =~= s.subrange(0, k as int).push(xv) + s.subrange(
            k as int,
            s.len() as int,
        ));
        vstd::seq_lib::lemma_multiset_commutative(
            s.subrange(0, k as int).push(xv),
            s.subrange(k as int, s.len() as int),
        );
        vstd::seq_lib::lemma_multiset_commutative(
            s.subrange(0, k as int),
            s.subrange(k as int, s.len() as int),
        );
        assert(s =~= s.subrange(0, k as int) + s.subrange(k as int, s.len() as int));
        s.subrange(0, k as int).to_multiset_ensures();
    }
}

/// The paths among `paths` whose distance to `needle` is at most three,
/// closest first (ties by path), at most three of them.
pub fn rank_suggestions(paths: &[String], needle: &str) -> (r: Vec<String>)
    ensures
        is_ranking(r.deep_view(), close_candidates(paths.deep_view(), needle@), 3),
        r.deep_view() == suggestions_for(close_candidates(paths.deep_view(), needle@)),
{
    let ghost cands = close_candidates(paths.deep_view(), needle@);
    let mut scored: Vec<(usize, Vec<char>)> = Vec::new();
    let mut i: usize = 0;
    proof {
        reveal_with_fuel(Seq::filter, 1);
        assert(paths.deep_view().take(0).map_values(|p: Seq<char>| (edit_distance(needle@, p), p)) =~= Seq::<(nat, Seq<char>)>::empty());
        assert(scored@.map_values(|y: (usize, Vec<char>)| scored_view(y)) =~= Seq::<(nat, Seq<char>)>::empty());
    }
    while i < paths.len()
        invariant
            i <= paths@.len(),
            sorted_scored(scored@.map_values(|y: (usize, Vec<char>)| scored_view(y))),
            scored@.map_values(|y: (usize, Vec<char>)| scored_view(y)).to_multiset()
                == paths.deep_view().take(i as int).map_values(|p: Seq<char>| (edit_distance(needle@, p), p)).filter(|x: (nat, Seq<char>)| x.0 <= 3).to_multiset(),
        decreases paths.len() - i,
    {
        let d = levenshtein(needle, paths[i].as_str());
        let ghost pre = paths.deep_view().take(i as int);
        let ghost p = paths@[i as int]@;
        proof {
            assert(paths.deep_view().take(i + 1) =~= pre.push(p));
            assert(pre.push(p).map_values(|p: Seq<char>| (edit_distance(needle@, p), p)) =~= pre.map_values(|p: Seq<char>| (edit_distance(needle@, p), p)).push((edit_distance(needle@, p), p)));
            pre.map_values(|p: Seq<char>| (edit_distance(needle@, p), p)).lemma_filter_push((edit_distance(needle@, p), p), |x: (nat, Seq<char>)| x.0 <= 3);
        }
        if d <= 3 {
            let item = (d, chars_of(paths[i].as_str()));
            insert_sorted(&mut scored, item);
        }
        proof {
            pre.map_values(|p: Seq<char>| (edit_distance(needle@, p), p)).filter(|x: (nat, Seq<char>)| x.0 <= 3).to_multiset_ensures();
        }
        i = i + 1;
    }
    proof {
        assert(paths.deep_view().take(paths@.len() as int) =~= paths.deep_view());
    }
    let mut r: Vec<String> = Vec::new();
    let mut j: usize = 0;
    let ghost s = scored@.map_values(|y: (usize, Vec<char>)| scored_view(y));
    while j < scored.len() && j < 3
        invariant
            j <= scored@.len(),
            j <= 3,
            s == scored@.map_values(|y: (usize, Vec<char>)| scored_view(y)),
            r.deep_view() == s.take(j as int).map_values(|x: (nat, Seq<char>)| x.1),
        decreases scored.len() - j,
    {
        let name = string_from_chars(&scored[j].1);
        let ghost before = r.deep_view();
        r.push(name);
        proof {
            assert(r.deep_view() =~= before.push(name@));
            assert(s.take(j + 1).map_values(|x: (nat, Seq<char>)| x.1) =~= s.take(
                j as int,
            ).map_values(|x: (nat, Seq<char>)| x.1).push(s[j as int].1));
        }
        j = j + 1;
    }
    proof {
        assert(sorted_scored(s));
        let k: int = if s.len() < 3 { s.len() as int } else { 3 };
        assert(j == k);
        assert(r.deep_view() == s.take(k).map_values(|x: (nat, Seq<char>)| x.1));
        assert(is_ranking(r.deep_view(), close_candidates(paths.deep_view(), needle@), 3));
        lemma_suggestions_for(r.deep_view(), close_candidates(paths.deep_view(), needle@));
    }
    r
}

/// Two sequences in ascending `scored_le` order that hold the same items are
/// the same sequence.
pub proof fn lemma_sorted_unique(s1: Seq<(nat, Seq<char>)>, s2: Seq<(nat, Seq<char>)>)
    requires
        sorted_scored(s1),
        sorted_scored(s2),
        s1.to_multiset() == s2.to_multiset(),
    ensures
        s1 == s2,
    decreases s1.len(),
{
    s1.to_multiset_ensures();
    s2.to_multiset_ensures();
    if s1.len() == 0 {
        assert(s2.len() == 0);
        assert(s1 =~= s2);
    } else {
        assert(s2.len() == s1.len());
        let a = s1[0];
        let b = s2[0];
        assert(s1.to_multiset().count(b) > 0) by {
            assert(s2.contains(b));
        }
        assert(s2.to_multiset().count(a) > 0) by {
            assert(s1.contains(a));
        }
        let i = choose|i: int| 0 <= i < s1.len() && s1[i] == b;
        let j = choose|j: int| 0 <= j < s2.len() && s2[j] == a;
        lemma_scored_le_total(a, b, a);
        if i > 0 {
            assert(scored_le(s1[0], s1[i]));
        }
        if j > 0 {
            assert(scored_le(s2[0], s2[j]));
        }
        lemma_scored_le_total(a, a, a);
        lemma_scored_le_total(b, b, b);
        assert(a == b);
        let t1 = s1.remove(0);
        let t2 = s2.remove(0);
        assert(t1 =~= s1.drop_first());
        assert(t2 =~= s2.drop_first());
        assert(sorted_scored(t1)) by {
            assert forall|x: int, y: int| 0 <= x < y < t1.len() implies scored_le(
                #[trigger] t1[x],
                #[trigger] t1[y],
            ) by {
                assert(t1[x] == s1[x + 1] && t1[y] == s1[y + 1]);
            }
        }
        assert(sorted_scored(t2)) by {
            assert forall|x: int, y: int| 0 <= x < y < t2.len() implies scored_le(
                #[trigger] t2[x],
                #[trigger] t2[y],
            ) by {
                assert(t2[x] == s2[x + 1] && t2[y] == s2[y + 1]);
            }
        }
        lemma_sorted_unique(t1, t2);
        assert(s1 =~= seq![a] + t1);
        assert(s2 =~= seq![b] + t2);
    }
}

/// The ranking of candidates is unique: it is a function of the candidates.
pub proof fn law_ranking_unique(
    r1: Seq<Seq<char>>,
    r2: Seq<Seq<char>>,
    cands: Seq<(nat, Seq<char>)>,
    k: nat,
)
    requires
        is_ranking(r1, cands, k),
        is_ranking(r2, cands, k),
    ensures
        r1 == r2,
{
    let s1 = choose|s: Seq<(nat, Seq<char>)>|
        #![trigger sorted_scored(s)]
        {
            &&& sorted_scored(s)
            &&& s.to_multiset() == cands.to_multiset()
            &&& r1 == s.take(if s.len() < k { s.len() as int } else { k as int }).map_values(
                |x: (nat, Seq<char>)| x.1,
            )
        };
    let s2 = choose|s: Seq<(nat, Seq<char>)>|
        #![trigger sorted_scored(s)]
        {
            &&& sorted_scored(s)
            &&& s.to_multiset() == cands.to_multiset()
            &&& r2 == s.take(if s.len() < k { s.len() as int } else { k as int }).map_values(
                |x: (nat, Seq<char>)| x.1,
            )
        };
    lemma_sorted_unique(s1, s2);
}

/// The suggestions for the candidates: their unique ranking.
pub open spec fn suggestions_for(cands: Seq<(nat, Seq<char>)>) -> Seq<Seq<char>> {
    choose|r: Seq<Seq<char>>| is_ranking(r, cands, 3)
}

/// A ranking is the suggestions.
pub proof fn lemma_suggestions_for(r: Seq<Seq<char>>, cands: Seq<(nat, Seq<char>)>)
    requires
        is_ranking(r, cands, 3),
    ensures
        r == suggestions_for(cands),
{
    law_ranking_unique(r, suggestions_for(cands), cands, 3);
}

/// At most three paths are suggested, each one of the given paths and at
/// distance three or less from the needle.
pub proof fn law_suggestions_close(paths: Seq<Seq<char>>, needle: Seq<char>, r: Seq<Seq<char>>)
    requires
        is_ranking(r, close_candidates(paths, needle), 3),
    ensures
        r.len() <= 3,
        forall|i: int| 0 <= i < r.len() ==> paths.contains(#[trigger] r[i]) && edit_distance(
            needle,
            r[i],
        ) <= 3,
{
    let cands = close_candidates(paths, needle);
    let s = choose|s: Seq<(nat, Seq<char>)>|
        #![trigger sorted_scored(s)]
        {
            &&& sorted_scored(s)
            &&& s.to_multiset() == cands.to_multiset()
            &&& r == s.take(if s.len() < 3 { s.len() as int } else { 3 }).map_values(
                |x: (nat, Seq<char>)| x.1,
            )
        };
    s.to_multiset_ensures();
    cands.to_multiset_ensures();
    let mapped = paths.map_values(|p: Seq<char>| (edit_distance(needle, p), p));
    assert forall|i: int| 0 <= i < r.len() implies paths.contains(#[trigger] r[i]) && edit_distance(
        needle,
        r[i],
    ) <= 3 by {
        let x = s[i];
        assert(s.contains(x));
        assert(s.to_multiset().count(x) > 0);
        assert(cands.contains(x));
        let j = choose|j: int| 0 <= j < cands.len() && cands[j] == x;
        mapped.lemma_filter_pred(|x: (nat, Seq<char>)| x.0 <= 3, j);
        mapped.lemma_filter_contains_rev(|x: (nat, Seq<char>)| x.0 <= 3, x);
        let k = choose|k: int| 0 <= k < mapped.len() && mapped[k] == x;
        assert(paths[k] == x.1);
        assert(r[i] == x.1);
    }
}

} // verus!
