//! Fuzzy ranking: per-title match scores computed by an outside fuzzy
//! matcher, and a stable descending-score ordering of the inventory.
use vstd::prelude::*;

use crate::inventory::WindowInfo;

verus! {

/// ASCII case folding of one character: `A`..`Z` become `a`..`z`, all
/// other characters are unchanged.
pub open spec fn ascii_lower_char(c: char) -> char {
    if 'A' as u32 <= c as u32 && c as u32 <= 'Z' as u32 {
        ((c as u32) + 32) as char
    } else {
        c
    }
}

/// ASCII upcasing of one character: `a`..`z` become `A`..`Z`, all other
/// characters are unchanged.
pub open spec fn ascii_upper_char(c: char) -> char {
    if 'a' as u32 <= c as u32 && c as u32 <= 'z' as u32 {
        ((c as u32) - 32) as char
    } else {
        c
    }
}

/// Character-wise ASCII case folding of a string.
pub open spec fn ascii_lower(s: Seq<char>) -> Seq<char> {
    Seq::new(s.len(), |i: int| ascii_lower_char(s[i]))
}

/// Character-wise ASCII upcasing of a string.
pub open spec fn ascii_upper(s: Seq<char>) -> Seq<char> {
    Seq::new(s.len(), |i: int| ascii_upper_char(s[i]))
}

/// Folding absorbs a prior ASCII case change: lowering an upcased or an
/// already lowered string gives the same result as lowering the original.
pub proof fn lemma_ascii_fold_absorbs(s: Seq<char>)
    ensures
        ascii_lower(ascii_upper(s)) == ascii_lower(s),
        ascii_lower(ascii_lower(s)) == ascii_lower(s),
{
    assert(ascii_lower(ascii_upper(s)) =~= ascii_lower(s));
    assert(ascii_lower(ascii_lower(s)) =~= ascii_lower(s));
}

/// The score of the best fuzzy match that the outside matcher finds for
/// `query` in `title` under case-insensitive matching, if any. The result
/// is a function of the two character sequences alone.
pub uninterp spec fn fuzzy_best(query: Seq<char>, title: Seq<char>) -> Option<isize>;

/// Relies on sublime_fuzzy's `FuzzySearch` (case-insensitive) with
/// `Match::score`: the best-match score is computed from the query and
/// title characters alone; an empty query or title yields no match; and
/// whether a match exists at all is unchanged by ASCII case folding of
/// either string, because match presence is decided over lowercased
/// characters.
#[verifier::external_body]
fn best_fuzzy_score(query: &str, title: &str) -> (r: Option<isize>)
    ensures
        r == fuzzy_best(query@, title@),
        query@.len() == 0 ==> r is None,
        title@.len() == 0 ==> r is None,
        (r is Some) == (fuzzy_best(ascii_lower(query@), ascii_lower(title@)) is Some),
{
    sublime_fuzzy::FuzzySearch::new(query, title).case_insensitive().best_match().map(
        |m| m.score(),
    )
}

/// The match score used for ranking: the best fuzzy match's score, or zero
/// when nothing matches (in particular, when the query is empty every
/// title scores zero).
pub open spec fn spec_score(query: Seq<char>, title: Seq<char>) -> isize {
    if query.len() == 0 {
        0isize
    } else {
        match fuzzy_best(query, title) {
            Some(s) => s,
            None => 0isize,
        }
    }
}

/// Computes the match score of `query` against one window title.
pub fn score_title(query: &str, title: &str) -> (r: isize)
    ensures
        r == spec_score(query@, title@),
{
    match best_fuzzy_score(query, title) {
        Some(s) => s,
        None => 0,
    }
}

/// Whether `query` fuzzy-matches `title` at all. Matching is
/// case-insensitive: the result is a function of the ASCII-case-folded
/// query and title alone.
pub open spec fn spec_matches(query: Seq<char>, title: Seq<char>) -> bool {
    fuzzy_best(ascii_lower(query), ascii_lower(title)) is Some
}

/// Decides whether `query` matches `title` at all, case-insensitively.
pub fn title_matches(query: &str, title: &str) -> (r: bool)
    ensures
        r == spec_matches(query@, title@),
{
    match best_fuzzy_score(query, title) {
        Some(_) => true,
        None => false,
    }
}

/// A ranking key: a record's match score paired with its position in the
/// inventory before ranking. `a` goes before `b` when `a` scores strictly
/// higher, or scores equally and came earlier.
pub open spec fn precedes(a: (isize, int), b: (isize, int)) -> bool {
    a.0 > b.0 || (a.0 == b.0 && a.1 < b.1)
}

/// Inserts `x` in front of the first key that `x` goes before.
pub open spec fn insert_key(s: Seq<(isize, int)>, x: (isize, int)) -> Seq<(isize, int)>
    decreases s.len(),
{
    if s.len() == 0 {
        seq![x]
    } else if precedes(x, s[0]) {
        seq![x] + s
    } else {
        seq![s[0]] + insert_key(s.drop_first(), x)
    }
}

/// Insertion sort of ranking keys. Because every key carries its distinct
/// original position, this order is unique: highest score first, ties in
/// original order.
pub open spec fn sort_keys(s: Seq<(isize, int)>) -> Seq<(isize, int)>
    decreases s.len(),
{
    if s.len() == 0 {
        Seq::empty()
    } else {
        insert_key(sort_keys(s.drop_last()), s.last())
    }
}

/// The ranking keys of an inventory: each record's score and position.
pub open spec fn window_keys(query: Seq<char>, recs: Seq<WindowInfo>) -> Seq<(isize, int)> {
    Seq::new(recs.len(), |i: int| (spec_score(query, recs[i].title@), i))
}

/// The key order that ranking produces for `query` over `recs`.
pub open spec fn rank_order(query: Seq<char>, recs: Seq<WindowInfo>) -> Seq<(isize, int)> {
    sort_keys(window_keys(query, recs))
}

/// The ranked inventory: the records reordered by descending score, ties
/// keeping their original relative order.
pub open spec fn rank_spec(query: Seq<char>, recs: Seq<WindowInfo>) -> Seq<WindowInfo> {
    rank_order(query, recs).map(|i: int, k: (isize, int)| recs[k.1])
}

/// Keys already in order: no key goes before an earlier one.
pub open spec fn sorted_keys(s: Seq<(isize, int)>) -> bool {
    forall|a: int, b: int| 0 <= a < b < s.len() ==> !precedes(s[b], s[a])
}

proof fn lemma_insert_key_len(s: Seq<(isize, int)>, x: (isize, int))
    ensures
        insert_key(s, x).len() == s.len() + 1,
    decreases s.len(),
{
    if s.len() == 0 {
    } else if precedes(x, s[0]) {
    } else {
        lemma_insert_key_len(s.drop_first(), x);
    }
}

proof fn lemma_sort_keys_len(s: Seq<(isize, int)>)
    ensures
        sort_keys(s).len() == s.len(),
    decreases s.len(),
{
    if s.len() > 0 {
        lemma_sort_keys_len(s.drop_last());
        lemma_insert_key_len(sort_keys(s.drop_last()), s.last());
    }
}

/// `insert_key` puts `x` exactly at the first position `p` whose key `x`
/// goes before.
proof fn lemma_insert_key_at(s: Seq<(isize, int)>, x: (isize, int), p: int)
    requires
        0 <= p <= s.len(),
        forall|j: int| 0 <= j < p ==> !precedes(x, s[j]),
        p < s.len() ==> precedes(x, s[p]),
    ensures
        insert_key(s, x) == s.take(p) + seq![x] + s.skip(p),
    decreases s.len(),
{
    if s.len() == 0 {
        assert(insert_key(s, x) =~= s.take(p) + seq![x] + s.skip(p));
    } else if precedes(x, s[0]) {
        assert(p == 0);
        assert(seq![x] + s =~= s.take(0) + seq![x] + s.skip(0));
    } else {
        assert(p >= 1);
        assert forall|j: int| 0 <= j < p - 1 implies !precedes(x, s.drop_first()[j]) by {
            assert(s.drop_first()[j] == s[j + 1]);
        }
        assert(p - 1 < s.drop_first().len() ==> precedes(x, s.drop_first()[p - 1]));
        lemma_insert_key_at(s.drop_first(), x, p - 1);
        assert(seq![s[0]] + (s.drop_first().take(p - 1) + seq![x] + s.drop_first().skip(p - 1))
            =~= s.take(p) + seq![x] + s.skip(p));
    }
}

/// Every key of `insert_key(s, x)` is `x` or one of `s`'s keys.
proof fn lemma_insert_key_elems(s: Seq<(isize, int)>, x: (isize, int))
    ensures
        forall|j: int|
            0 <= j < insert_key(s, x).len() ==> insert_key(s, x)[j] == x || s.contains(
                insert_key(s, x)[j],
            ),
    decreases s.len(),
{
    if s.len() == 0 {
    } else if precedes(x, s[0]) {
        assert forall|j: int|
            0 <= j < insert_key(s, x).len() implies insert_key(s, x)[j] == x || s.contains(
            insert_key(s, x)[j],
        ) by {
            if j > 0 {
                assert(insert_key(s, x)[j] == s[j - 1]);
            }
        }
    } else {
        lemma_insert_key_elems(s.drop_first(), x);
        assert forall|j: int|
            0 <= j < insert_key(s, x).len() implies insert_key(s, x)[j] == x || s.contains(
            insert_key(s, x)[j],
        ) by {
            if j == 0 {
                assert(insert_key(s, x)[0] == s[0]);
                assert(s.contains(s[0]));
            } else {
                let y = insert_key(s.drop_first(), x)[j - 1];
                assert(insert_key(s, x)[j] == y);
                if y != x {
                    let k = choose|k: int|
                        0 <= k < s.drop_first().len() && s.drop_first()[k] == y;
                    assert(s[k + 1] == y);
                }
            }
        }
    }
}

/// Inserting into an ordered key sequence keeps it ordered.
proof fn lemma_insert_key_sorted(s: Seq<(isize, int)>, x: (isize, int))
    requires
        sorted_keys(s),
    ensures
        sorted_keys(insert_key(s, x)),
    decreases s.len(),
{
    let r = insert_key(s, x);
    if s.len() == 0 {
    } else if precedes(x, s[0]) {
        assert forall|a: int, b: int| 0 <= a < b < r.len() implies !precedes(r[b], r[a]) by {
            if a == 0 {
                assert(r[b] == s[b - 1]);
                if b > 1 {
                    assert(!precedes(s[b - 1], s[0]));
                }
            } else {
                assert(r[a] == s[a - 1]);
                assert(r[b] == s[b - 1]);
            }
        }
    } else {
        lemma_insert_key_sorted(s.drop_first(), x);
        lemma_insert_key_elems(s.drop_first(), x);
        let rr = insert_key(s.drop_first(), x);
        assert forall|a: int, b: int| 0 <= a < b < r.len() implies !precedes(r[b], r[a]) by {
            if a == 0 {
                assert(r[0] == s[0]);
                assert(r[b] == rr[b - 1]);
                if rr[b - 1] == x {
                    assert(!precedes(x, s[0]));
                } else {
                    let k = choose|k: int|
                        0 <= k < s.drop_first().len() && s.drop_first()[k] == rr[b - 1];
                    assert(s[k + 1] == rr[b - 1]);
                    assert(!precedes(s[k + 1], s[0]));
                }
            } else {
                assert(r[a] == rr[a - 1]);
                assert(r[b] == rr[b - 1]);
            }
        }
    }
}

/// Sorting yields an ordered key sequence.
proof fn lemma_sort_keys_sorted(s: Seq<(isize, int)>)
    ensures
        sorted_keys(sort_keys(s)),
    decreases s.len(),
{
    if s.len() > 0 {
        lemma_sort_keys_sorted(s.drop_last());
        lemma_insert_key_sorted(sort_keys(s.drop_last()), s.last());
    }
}

/// Every key of `sort_keys(s)` is one of `s`'s keys.
proof fn lemma_sort_keys_elems(s: Seq<(isize, int)>)
    ensures
        forall|j: int| 0 <= j < sort_keys(s).len() ==> s.contains(sort_keys(s)[j]),
    decreases s.len(),
{
    if s.len() > 0 {
        let prefix = sort_keys(s.drop_last());
        lemma_sort_keys_elems(s.drop_last());
        lemma_insert_key_elems(prefix, s.last());
        assert forall|j: int| 0 <= j < sort_keys(s).len() implies s.contains(
            sort_keys(s)[j],
        ) by {
            let y = sort_keys(s)[j];
            if y == s.last() {
                assert(s[s.len() - 1] == y);
            } else {
                assert(prefix.contains(y));
                let k = choose|k: int| 0 <= k < prefix.len() && prefix[k] == y;
                assert(s.drop_last().contains(y));
                let m = choose|m: int|
                    0 <= m < s.drop_last().len() && s.drop_last()[m] == y;
                assert(s[m] == y);
            }
        }
    }
}

/// Insertion adds exactly `x` to the keys.
proof fn lemma_insert_key_multiset(s: Seq<(isize, int)>, x: (isize, int))
    ensures
        insert_key(s, x).to_multiset() == s.to_multiset().insert(x),
    decreases s.len(),
{
    broadcast use vstd::seq_lib::group_to_multiset_ensures;

    if s.len() == 0 {
        assert(seq![x] =~= s.push(x));
        assert(insert_key(s, x).to_multiset() =~= s.to_multiset().insert(x));
    } else if precedes(x, s[0]) {
        vstd::seq_lib::lemma_multiset_commutative(seq![x], s);
        let e = Seq::<(isize, int)>::empty();
        assert(seq![x] =~= e.push(x));
        assert forall|y: (isize, int)| e.to_multiset().count(y) == 0 by {
            if e.to_multiset().count(y) > 0 {
                assert(e.contains(y));
            }
        }
        assert(insert_key(s, x).to_multiset() =~= s.to_multiset().insert(x));
    } else {
        lemma_insert_key_multiset(s.drop_first(), x);
        let rest = s.drop_first();
        vstd::seq_lib::lemma_multiset_commutative(seq![s[0]], insert_key(rest, x));
        vstd::seq_lib::lemma_multiset_commutative(seq![s[0]], rest);
        assert(s =~= seq![s[0]] + rest);
        assert(insert_key(s, x).to_multiset() =~= s.to_multiset().insert(x));
    }
}

/// Sorting permutes the keys.
proof fn lemma_sort_keys_multiset(s: Seq<(isize, int)>)
    ensures
        sort_keys(s).to_multiset() == s.to_multiset(),
    decreases s.len(),
{
    broadcast use vstd::seq_lib::group_to_multiset_ensures;

    if s.len() > 0 {
        let prefix = s.drop_last();
        lemma_sort_keys_multiset(prefix);
        lemma_insert_key_multiset(sort_keys(prefix), s.last());
        assert(prefix.push(s.last()) =~= s);
        assert(sort_keys(s).to_multiset() =~= s.to_multiset());
    }
}

/// Ranking is complete: every inventory position's key appears in the
/// ranked key order. Together with `lemma_rank_stable` this makes the
/// ranked order a permutation of the inventory positions.
pub proof fn lemma_rank_complete(query: Seq<char>, recs: Seq<WindowInfo>)
    ensures
        forall|i: int|
            0 <= i < recs.len() ==> rank_order(query, recs).contains(
                #[trigger] window_keys(query, recs)[i],
            ),
{
    broadcast use vstd::seq_lib::group_to_multiset_ensures;

    let wk = window_keys(query, recs);
    lemma_sort_keys_multiset(wk);
    assert forall|i: int| 0 <= i < recs.len() implies rank_order(query, recs).contains(
        wk[i],
    ) by {
        assert(wk.contains(wk[i]));
        assert(wk.to_multiset().count(wk[i]) > 0);
        assert(rank_order(query, recs).to_multiset().count(wk[i]) > 0);
    }
}

/// When `x` goes before no key of `s`, insertion appends it.
proof fn lemma_insert_key_append(s: Seq<(isize, int)>, x: (isize, int))
    requires
        forall|j: int| 0 <= j < s.len() ==> !precedes(x, s[j]),
    ensures
        insert_key(s, x) == s.push(x),
{
    lemma_insert_key_at(s, x, s.len() as int);
    assert(s.take(s.len() as int) + seq![x] + s.skip(s.len() as int) =~= s.push(x));
}

/// A key sequence in original position order with one shared score is
/// already sorted: sorting leaves it unchanged.
proof fn lemma_sort_keys_fixed(s: Seq<(isize, int)>)
    requires
        forall|i: int| 0 <= i < s.len() ==> (#[trigger] s[i]).1 == i,
        forall|i: int, j: int| 0 <= i < s.len() && 0 <= j < s.len() ==> s[i].0 == s[j].0,
    ensures
        sort_keys(s) == s,
    decreases s.len(),
{
    if s.len() > 0 {
        let prefix = s.drop_last();
        assert(forall|i: int| 0 <= i < prefix.len() ==> (#[trigger] prefix[i]).1 == i);
        assert(forall|i: int, j: int|
            0 <= i < prefix.len() && 0 <= j < prefix.len() ==> prefix[i].0 == prefix[j].0);
        lemma_sort_keys_fixed(prefix);
        let x = s.last();
        assert forall|j: int| 0 <= j < prefix.len() implies !precedes(x, prefix[j]) by {
            assert(prefix[j] == s[j]);
            assert(x.0 == s[j].0);
            assert(x.1 == s.len() - 1);
        }
        lemma_insert_key_append(prefix, x);
        assert(prefix.push(x) =~= s);
    }
}

/// The loop invariant of `rank_windows`: after the first `i` records have
/// been placed, the output mirrors the sorted keys of the first `i`
/// records, score by score and record by record.
spec fn rank_loop_inv(
    query: Seq<char>,
    orig: Seq<WindowInfo>,
    i: int,
    scores: Seq<isize>,
    out: Seq<WindowInfo>,
) -> bool {
    let keys = sort_keys(window_keys(query, orig.take(i)));
    &&& 0 <= i <= orig.len()
    &&& out.len() == keys.len()
    &&& scores.len() == keys.len()
    &&& forall|j: int| 0 <= j < keys.len() ==> scores[j] == (#[trigger] keys[j]).0
    &&& forall|j: int| 0 <= j < keys.len() ==> 0 <= (#[trigger] keys[j]).1 < i
    &&& forall|j: int| 0 <= j < keys.len() ==> out[j] == orig[(#[trigger] keys[j]).1]
}

/// Ranks the inventory against `query`: descending match score, records
/// with equal scores keeping their original relative order. The result is
/// a fixed function of the query and the inventory, so ranking the same
/// snapshot twice yields the same order.
pub fn rank_windows(query: &str, windows: Vec<WindowInfo>) -> (r: Vec<WindowInfo>)
    ensures
        r@ == rank_spec(query@, windows@),
{
    let ghost orig: Seq<WindowInfo> = windows@;
    let mut rest = windows;
    let mut out: Vec<WindowInfo> = Vec::new();
    let mut out_scores: Vec<isize> = Vec::new();
    let mut i: usize = 0;
    let n = rest.len();
    proof {
        assert(orig.len() == n as int);
        assert(orig.take(0) =~= Seq::<WindowInfo>::empty());
        assert(window_keys(query@, orig.take(0)) =~= Seq::<(isize, int)>::empty());
    }
    while rest.len() > 0
        invariant
            i as int <= orig.len(),
            orig.len() <= usize::MAX,
            rest@ == orig.skip(i as int),
            rank_loop_inv(query@, orig, i as int, out_scores@, out@),
        decreases rest@.len(),
    {
        let ghost keys = sort_keys(window_keys(query@, orig.take(i as int)));
        let w = rest.remove(0);
        proof {
            assert(w == orig.skip(i as int)[0]);
            assert(w == orig[i as int]);
            assert(rest@ =~= orig.skip(i as int + 1));
        }
        let s = score_title(query, w.title.as_str());
        let ghost x = (s, i as int);
        let mut p: usize = 0;
        while p < out_scores.len() && s <= out_scores[p]
            invariant
                p <= out_scores.len(),
                forall|j: int| 0 <= j < p ==> s <= out_scores@[j],
            decreases out_scores@.len() - p,
        {
            p = p + 1;
        }
        proof {
            assert forall|j: int| 0 <= j < p implies !precedes(x, keys[j]) by {
                assert(keys[j].0 == out_scores@[j]);
                assert(keys[j].1 < i as int);
            }
            assert(p < keys.len() ==> precedes(x, keys[p as int]));
            lemma_insert_key_at(keys, x, p as int);
        }
        out.insert(p, w);
        out_scores.insert(p, s);
        proof {
            let wk1 = window_keys(query@, orig.take(i as int + 1));
            assert(wk1.drop_last() =~= window_keys(query@, orig.take(i as int)));
            assert(orig.take(i as int + 1)[i as int] == orig[i as int]);
            assert(wk1.last() == x);
            assert(wk1.len() > 0);
            assert(sort_keys(wk1) == insert_key(
                sort_keys(window_keys(query@, orig.take(i as int))),
                x,
            ));
            let keys1 = keys.take(p as int) + seq![x] + keys.skip(p as int);
            assert(sort_keys(wk1) == keys1);
            assert(out@ =~= keys1.map(|j: int, k: (isize, int)| orig[k.1])) by {
                assert forall|j: int| 0 <= j < keys1.len() implies out@[j] == orig[keys1[j].1] by {
                    if j < p as int {
                        assert(keys1[j] == keys[j]);
                    } else if j == p as int {
                        assert(keys1[j] == x);
                    } else {
                        assert(keys1[j] == keys[j - 1]);
                    }
                }
            }
            assert(rank_loop_inv(query@, orig, i as int + 1, out_scores@, out@)) by {
                assert forall|j: int| 0 <= j < keys1.len() implies out_scores@[j] == (
                #[trigger] keys1[j]).0 && 0 <= keys1[j].1 < i as int + 1 && out@[j] == orig[keys1[j].1] by {
                    if j < p as int {
                        assert(keys1[j] == keys[j]);
                    } else if j == p as int {
                        assert(keys1[j] == x);
                    } else {
                        assert(keys1[j] == keys[j - 1]);
                    }
                }
            }
        }
        i = i + 1;
    }
    proof {
        assert(orig.take(i as int) =~= orig);
        let keys = sort_keys(window_keys(query@, orig));
        assert(out@ =~= rank_spec(query@, orig)) by {
            assert forall|j: int| 0 <= j < keys.len() implies out@[j] == rank_spec(
                query@,
                orig,
            )[j] by {
                assert(rank_spec(query@, orig)[j] == orig[keys[j].1]);
            }
        }
    }
    out
}

/// Ranking is stable and total: the key order places every inventory
/// position exactly once; scores are non-increasing along the ranked
/// order; and records with equal scores keep their original relative
/// order. Each ranked position carries the score and original position of
/// the record placed there.
pub proof fn lemma_rank_stable(query: Seq<char>, recs: Seq<WindowInfo>)
    ensures
        rank_order(query, recs).len() == recs.len(),
        rank_spec(query, recs).len() == recs.len(),
        forall|j: int|
            0 <= j < recs.len() ==> {
                let k = #[trigger] rank_order(query, recs)[j];
                &&& 0 <= k.1 < recs.len()
                &&& k.0 == spec_score(query, recs[k.1].title@)
                &&& rank_spec(query, recs)[j] == recs[k.1]
            },
        forall|a: int, b: int|
            0 <= a < b < recs.len() ==> (#[trigger] rank_order(query, recs)[a]).0 >= (
            #[trigger] rank_order(query, recs)[b]).0,
        forall|a: int, b: int|
            0 <= a < b < recs.len() && (#[trigger] rank_order(query, recs)[a]).0 == (
            #[trigger] rank_order(query, recs)[b]).0 ==> rank_order(query, recs)[a].1 < rank_order(
                query,
                recs,
            )[b].1,
{
    let wk = window_keys(query, recs);
    let ro = rank_order(query, recs);
    lemma_sort_keys_len(wk);
    lemma_sort_keys_sorted(wk);
    lemma_sort_keys_elems(wk);
    assert(wk.no_duplicates()) by {
        assert forall|i: int, j: int|
            0 <= i < wk.len() && 0 <= j < wk.len() && i != j implies wk[i] != wk[j] by {
            assert(wk[i].1 == i);
            assert(wk[j].1 == j);
        }
    }
    wk.lemma_multiset_has_no_duplicates();
    lemma_sort_keys_multiset(wk);
    ro.lemma_multiset_has_no_duplicates_conv();
    assert forall|j: int| 0 <= j < recs.len() implies {
        let k = #[trigger] rank_order(query, recs)[j];
        &&& 0 <= k.1 < recs.len()
        &&& k.0 == spec_score(query, recs[k.1].title@)
        &&& rank_spec(query, recs)[j] == recs[k.1]
    } by {
        let k = rank_order(query, recs)[j];
        assert(wk.contains(k));
        let m = choose|m: int| 0 <= m < wk.len() && wk[m] == k;
        assert(wk[m] == (spec_score(query, recs[m].title@), m));
    }
    assert forall|a: int, b: int| 0 <= a < b < recs.len() implies {
        let ka = #[trigger] rank_order(query, recs)[a];
        let kb = #[trigger] rank_order(query, recs)[b];
        ka.0 >= kb.0 && (ka.0 == kb.0 ==> ka.1 < kb.1)
    } by {
        assert(sorted_keys(rank_order(query, recs)));
        assert(!precedes(ro[b], ro[a]));
        assert(ro.no_duplicates());
        assert(ro[a] != ro[b]);
    }
}

/// With an empty query every record scores zero, so ranking keeps the
/// inventory order unchanged.
pub proof fn lemma_rank_empty_query(recs: Seq<WindowInfo>)
    ensures
        rank_spec(Seq::<char>::empty(), recs) == recs,
{
    let q = Seq::<char>::empty();
    let wk = window_keys(q, recs);
    assert(forall|i: int| 0 <= i < wk.len() ==> (#[trigger] wk[i]).1 == i);
    assert forall|i: int, j: int| 0 <= i < wk.len() && 0 <= j < wk.len() implies wk[i].0
        == wk[j].0 by {
        assert(wk[i].0 == 0isize);
        assert(wk[j].0 == 0isize);
    }
    lemma_sort_keys_fixed(wk);
    assert(rank_spec(q, recs) =~= recs);
}

/// Match presence is case-insensitive: ASCII case changes of the query or
/// of the title do not change whether a match exists.
pub proof fn lemma_matching_case_insensitive(query: Seq<char>, title: Seq<char>)
    ensures
        spec_matches(ascii_upper(query), title) == spec_matches(query, title),
        spec_matches(query, ascii_upper(title)) == spec_matches(query, title),
        spec_matches(ascii_lower(query), title) == spec_matches(query, title),
        spec_matches(query, ascii_lower(title)) == spec_matches(query, title),
{
    lemma_ascii_fold_absorbs(query);
    lemma_ascii_fold_absorbs(title);
}

} // verus!
