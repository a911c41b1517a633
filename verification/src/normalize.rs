//! Sorting, deduplication, and the query-inclusion policy: the step that
//! turns raw candidate strings into the final ordered result list.

use vstd::prelude::*;
use vstd::string::*;
use crate::strcmp::{
    seq_lt, sorted_strict, str_eq, str_lt, lemma_trichotomy, lemma_lt_trans,
};
use crate::search_result::SearchResult;

verus! {

/// The views of a list of candidate strings.
pub open spec fn str_views(s: Seq<String>) -> Seq<Seq<char>> {
    s.map_values(|x: String| x@)
}

/// The titles of a list of results.
pub open spec fn title_views(s: Seq<SearchResult>) -> Seq<Seq<char>> {
    s.map_values(|x: SearchResult| x.title@)
}

/// What normalization promises. With the policy off, `r` is the strictly
/// sorted deduplication of the candidates. With it on, `r` starts with the
/// query, followed by the strictly sorted deduplication of the candidates
/// other than the query.
pub open spec fn is_normalized(
    cs: Seq<Seq<char>>,
    q: Seq<char>,
    with_query: bool,
    r: Seq<Seq<char>>,
) -> bool {
    if with_query {
        &&& r.len() >= 1
        &&& r[0] == q
        &&& sorted_strict(r.drop_first())
        &&& r.drop_first().to_set() == cs.to_set().remove(q)
    } else {
        &&& sorted_strict(r)
        &&& r.to_set() == cs.to_set()
    }
}

/// Appending one element adds exactly it to the element set.
proof fn lemma_to_set_push(s: Seq<Seq<char>>, x: Seq<char>)
    ensures
        s.push(x).to_set() == s.to_set().insert(x),
{
    assert forall|y: Seq<char>| s.push(x).to_set().contains(y) implies s.to_set().insert(
        x,
    ).contains(y) by {
        let k = choose|k: int| 0 <= k < s.push(x).len() && s.push(x)[k] == y;
        if k < s.len() {
            assert(s[k] == y);
        }
    }
    assert forall|y: Seq<char>| s.to_set().insert(x).contains(y) implies s.push(
        x,
    ).to_set().contains(y) by {
        if y == x {
            assert(s.push(x)[s.len() as int] == y);
        } else {
            let k = choose|k: int| 0 <= k < s.len() && s[k] == y;
            assert(s.push(x)[k] == y);
        }
    }
    assert(s.push(x).to_set() =~= s.to_set().insert(x));
}

/// Appending a string above everything present keeps strict sortedness.
proof fn lemma_sorted_push(s: Seq<Seq<char>>, x: Seq<char>)
    requires
        sorted_strict(s),
        forall|k: int| 0 <= k < s.len() ==> seq_lt(#[trigger] s[k], x),
    ensures
        sorted_strict(s.push(x)),
{
    let t = s.push(x);
    assert forall|p: int, q: int| 0 <= p < q < t.len() implies seq_lt(t[p], t[q]) by {
        if q < s.len() {
            assert(t[p] == s[p] && t[q] == s[q]);
        } else {
            assert(t[p] == s[p] && t[q] == x);
        }
    }
}

/// Mapping to titles commutes with appending a result.
proof fn lemma_title_views_push(s: Seq<SearchResult>, x: SearchResult)
    ensures
        title_views(s.push(x)) =~= title_views(s).push(x.title@),
{
}

/// Mapping to views commutes with insertion.
proof fn lemma_str_views_insert(s: Seq<String>, i: int, x: String)
    requires
        0 <= i <= s.len(),
    ensures
        str_views(s.insert(i, x)) =~= str_views(s).insert(i, x@),
{
    s.insert_ensures(i, x);
    str_views(s).insert_ensures(i, x@);
    assert forall|k: int| 0 <= k < s.len() + 1 implies str_views(s.insert(i, x))[k] == str_views(
        s,
    ).insert(i, x@)[k] by {
        if k < i {
            assert(s.insert(i, x)[k] == s[k]);
        } else if k == i {
            assert(s.insert(i, x)[k] == x);
        } else {
            assert(s.insert(i, x)[k] == s[k - 1]);
        }
    }
}

/// Inserting `x` at the first position whose string is not below it keeps a
/// strictly sorted sequence strictly sorted.
proof fn lemma_sorted_after_insert(s: Seq<Seq<char>>, i: int, x: Seq<char>)
    requires
        0 <= i <= s.len(),
        sorted_strict(s),
        forall|j: int| 0 <= j < i ==> seq_lt(#[trigger] s[j], x),
        i < s.len() ==> seq_lt(x, s[i]),
    ensures
        sorted_strict(s.insert(i, x)),
{
    let t = s.insert(i, x);
    s.insert_ensures(i, x);
    assert forall|p: int, q: int| 0 <= p < q < t.len() implies seq_lt(t[p], t[q]) by {
        if p < i && q < i {
            assert(t[p] == s[p] && t[q] == s[q]);
        } else if p < i && q == i {
            assert(t[p] == s[p] && t[q] == x);
        } else if p < i && q > i {
            assert(t[p] == s[p] && t[q] == s[q - 1]);
            if q - 1 == i {
                assert(i < s.len());
                lemma_lt_trans(s[p], x, s[i]);
            }
        } else if p == i && q > i {
            assert(t[p] == x && t[q] == s[q - 1]);
            if q - 1 > i {
                lemma_lt_trans(x, s[i], s[q - 1]);
            }
        } else {
            assert(p > i && q > i);
            assert(t[p] == s[p - 1] && t[q] == s[q - 1]);
        }
    }
}

/// Inserting `x` adds exactly `x` to the element set.
proof fn lemma_set_after_insert(s: Seq<Seq<char>>, i: int, x: Seq<char>)
    requires
        0 <= i <= s.len(),
    ensures
        s.insert(i, x).to_set() == s.to_set().insert(x),
{
    let t = s.insert(i, x);
    s.insert_ensures(i, x);
    assert forall|y: Seq<char>| t.to_set().contains(y) implies s.to_set().insert(x).contains(
        y,
    ) by {
        let k = choose|k: int| 0 <= k < t.len() && t[k] == y;
        if k < i {
            assert(s[k] == y);
        } else if k > i {
            assert(s[k - 1] == y);
        }
    }
    assert forall|y: Seq<char>| s.to_set().insert(x).contains(y) implies t.to_set().contains(
        y,
    ) by {
        if y == x {
            assert(t[i] == y);
        } else {
            let k = choose|k: int| 0 <= k < s.len() && s[k] == y;
            if k < i {
                assert(t[k] == y);
            } else {
                assert(t[k + 1] == y);
            }
        }
    }
    assert(t.to_set() =~= s.to_set().insert(x));
}

/// Reads the `i`th string of `v`.
fn index_str(v: &Vec<String>, i: usize) -> (r: &str)
    requires
        i < v@.len(),
    ensures
        r@ == v@[i as int]@,
{
    v[i].as_str()
}

/// Clones the `i`th string of `v`.
fn index_clone(v: &Vec<String>, i: usize) -> (r: String)
    requires
        i < v@.len(),
    ensures
        r@ == v@[i as int]@,
{
    v[i].clone()
}

/// Inserts `x` into the strictly sorted `v`, keeping it strictly sorted; a
/// string already present is dropped rather than doubled.
fn insert_unique(v: &mut Vec<String>, x: String)
    requires
        sorted_strict(str_views(old(v)@)),
    ensures
        sorted_strict(str_views(final(v)@)),
        str_views(final(v)@).to_set() == str_views(old(v)@).to_set().insert(x@),
{
    let ghost old_view = str_views(old(v)@);
    let mut i: usize = 0;
    while i < v.len()
        invariant
            v@ == old(v)@,
            old_view == str_views(v@),
            i <= v@.len(),
            sorted_strict(str_views(v@)),
            forall|j: int| 0 <= j < i ==> seq_lt(#[trigger] str_views(v@)[j], x@),
        decreases v@.len() - i,
    {
        proof {
            assert(str_views(v@)[i as int] == v@[i as int]@);
        }
        if !str_lt(index_str(v, i), x.as_str()) {
            if str_eq(index_str(v, i), x.as_str()) {
                proof {
                    assert(str_views(v@)[i as int] == x@);
                    assert(str_views(v@).contains(x@));
                    assert(str_views(v@).to_set() =~= str_views(v@).to_set().insert(x@));
                }
                return ;
            }
            proof {
                lemma_trichotomy(str_views(v@)[i as int], x@);
                assert(seq_lt(x@, str_views(v@)[i as int]));
            }
            v.insert(i, x);
            proof {
                assert(old_view.len() == old(v)@.len());
                assert(0 <= i as int <= old_view.len());
                lemma_str_views_insert(old(v)@, i as int, x);
                lemma_sorted_after_insert(old_view, i as int, x@);
                lemma_set_after_insert(old_view, i as int, x@);
            }
            return ;
        }
        i = i + 1;
    }
    v.push(x);
    proof {
        assert(old(v)@.push(x) =~= old(v)@.insert(old(v)@.len() as int, x));
        lemma_str_views_insert(old(v)@, old(v)@.len() as int, x);
        lemma_sorted_after_insert(old_view, old_view.len() as int, x@);
        lemma_set_after_insert(old_view, old_view.len() as int, x@);
    }
}

/// Sorts the candidates and drops duplicate strings.
fn sort_dedup(candidates: &Vec<String>) -> (r: Vec<String>)
    ensures
        sorted_strict(str_views(r@)),
        str_views(r@).to_set() == str_views(candidates@).to_set(),
{
    let mut out: Vec<String> = Vec::new();
    let mut i: usize = 0;
    proof {
        assert(str_views(out@) =~= Seq::<Seq<char>>::empty());
        assert(str_views(candidates@).take(0) =~= Seq::<Seq<char>>::empty());
        lemma_to_set_empty(str_views(out@));
        lemma_to_set_empty(str_views(candidates@).take(0));
    }
    while i < candidates.len()
        invariant
            i <= candidates@.len(),
            sorted_strict(str_views(out@)),
            str_views(out@).to_set() == str_views(candidates@).take(i as int).to_set(),
        decreases candidates@.len() - i,
    {
        let x = index_clone(candidates, i);
        proof {
            assert(str_views(candidates@)[i as int] == candidates@[i as int]@);
        }
        insert_unique(&mut out, x);
        proof {
            let cv = str_views(candidates@);
            assert(cv.take(i as int).push(cv[i as int]) =~= cv.take(i as int + 1));
            lemma_to_set_push(cv.take(i as int), cv[i as int]);
        }
        i = i + 1;
    }
    proof {
        assert(str_views(candidates@).take(candidates@.len() as int) =~= str_views(candidates@));
    }
    out
}

/// An empty sequence has an empty element set.
proof fn lemma_to_set_empty(s: Seq<Seq<char>>)
    requires
        s.len() == 0,
    ensures
        s.to_set() == Set::<Seq<char>>::empty(),
{
    assert forall|y: Seq<char>| !s.to_set().contains(y) by {
        if s.contains(y) {
            let k = choose|k: int| 0 <= k < s.len() && s[k] == y;
        }
    }
    assert(s.to_set() =~= Set::<Seq<char>>::empty());
}

/// Turns raw candidate suggestions into the final ordered result list: sorted
/// by the lexicographic order on titles, duplicates removed, and — when
/// `include_query` is on — the literal query placed first and nowhere else.
pub fn normalize(candidates: &Vec<String>, query: &str, include_query: bool) -> (r: Vec<
    SearchResult,
>)
    ensures
        is_normalized(str_views(candidates@), query@, include_query, title_views(r@)),
        forall|k: int| 0 <= k < r@.len() ==> (#[trigger] r@[k].extra_info) is None,
{
    let deduped = sort_dedup(candidates);
    let ghost dv = str_views(deduped@);
    let mut out: Vec<SearchResult> = Vec::new();
    if include_query {
        let first = SearchResult::new(query);
        out.push(first);
    }
    proof {
        if include_query {
            assert(title_views(out@) =~= seq![query@]);
            assert(title_views(out@).drop_first() =~= Seq::<Seq<char>>::empty());
            lemma_to_set_empty(title_views(out@).drop_first());
            lemma_to_set_empty(dv.take(0));
            assert(dv.take(0).to_set().remove(query@) =~= Set::<Seq<char>>::empty());
        } else {
            assert(title_views(out@) =~= Seq::<Seq<char>>::empty());
            lemma_to_set_empty(title_views(out@));
            lemma_to_set_empty(dv.take(0));
        }
    }
    let mut i: usize = 0;
    while i < deduped.len()
        invariant
            i <= deduped@.len(),
            dv == str_views(deduped@),
            sorted_strict(dv),
            include_query ==> title_views(out@).len() >= 1 && title_views(out@)[0] == query@
                && sorted_strict(title_views(out@).drop_first()) && title_views(
                out@,
            ).drop_first().to_set() == dv.take(i as int).to_set().remove(query@),
            !include_query ==> sorted_strict(title_views(out@)) && title_views(out@).to_set()
                == dv.take(i as int).to_set(),
            forall|k: int| 0 <= k < out@.len() ==> (#[trigger] out@[k].extra_info) is None,
        decreases deduped@.len() - i,
    {
        let ghost tl = if include_query {
            title_views(out@).drop_first()
        } else {
            title_views(out@)
        };
        proof {
            assert(dv[i as int] == deduped@[i as int]@);
            assert(dv.take(i as int).push(dv[i as int]) =~= dv.take(i as int + 1));
            lemma_to_set_push(dv.take(i as int), dv[i as int]);
        }
        if include_query && str_eq(index_str(&deduped, i), query) {
            // the query is re-inserted at the front, never kept in place
            proof {
                assert(dv.take(i as int + 1).to_set().remove(query@) =~= dv.take(
                    i as int,
                ).to_set().remove(query@));
            }
        } else {
            let x = index_clone(&deduped, i);
            let next = SearchResult { title: x, extra_info: None };
            let ghost pre_out = out@;
            out.push(next);
            proof {
                lemma_title_views_push(pre_out, next);
                assert(title_views(out@) =~= title_views(pre_out).push(next.title@));
                assert forall|k: int| 0 <= k < tl.len() implies seq_lt(
                    #[trigger] tl[k],
                    dv[i as int],
                ) by {
                    assert(tl.to_set().contains(tl[k]));
                    assert(dv.take(i as int).to_set().contains(tl[k]));
                    let j = choose|j: int| 0 <= j < dv.take(i as int).len() && dv.take(i as int)[j]
                        == tl[k];
                    assert(dv[j] == tl[k]);
                    assert(seq_lt(dv[j], dv[i as int]));
                }
                lemma_sorted_push(tl, dv[i as int]);
                lemma_to_set_push(tl, dv[i as int]);
                if include_query {
                    assert(title_views(out@) =~= title_views(out@).subrange(0, 1) + tl.push(
                        dv[i as int],
                    ));
                    assert(title_views(out@).drop_first() =~= tl.push(dv[i as int]));
                    assert(dv[i as int] != query@);
                    assert(dv.take(i as int + 1).to_set().remove(query@) =~= dv.take(
                        i as int,
                    ).to_set().remove(query@).insert(dv[i as int]));
                } else {
                    assert(title_views(out@) =~= tl.push(dv[i as int]));
                }
            }
        }
        i = i + 1;
    }
    proof {
        assert(dv.take(deduped@.len() as int) =~= dv);
    }
    out
}

} // verus!
