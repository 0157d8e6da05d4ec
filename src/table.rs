use vstd::prelude::*;

verus! {

/// The first row that satisfies `pred`.
pub open spec fn find_first<T>(s: Seq<T>, pred: spec_fn(T) -> bool) -> Option<T>
    decreases s.len(),
{
    if s.len() == 0 {
        None
    } else {
        match find_first(s.drop_last(), pred) {
            Some(x) => Some(x),
            None => if pred(s.last()) {
                Some(s.last())
            } else {
                None
            },
        }
    }
}

/// No two rows share a key.
pub open spec fn distinct_keys<T>(s: Seq<T>, key: spec_fn(T) -> Seq<char>) -> bool {
    forall|i: int, j: int| 0 <= i < j < s.len() ==> key(#[trigger] s[i]) != key(#[trigger] s[j])
}

pub proof fn lemma_find_first_none<T>(s: Seq<T>, pred: spec_fn(T) -> bool)
    requires
        forall|j: int| 0 <= j < s.len() ==> !pred(#[trigger] s[j]),
    ensures
        find_first(s, pred) is None,
    decreases s.len(),
{
    if s.len() > 0 {
        lemma_find_first_none(s.drop_last(), pred);
    }
}

pub proof fn lemma_find_first_at<T>(s: Seq<T>, pred: spec_fn(T) -> bool, i: int)
    requires
        0 <= i < s.len(),
        pred(s[i]),
        forall|j: int| 0 <= j < i ==> !pred(#[trigger] s[j]),
    ensures
        find_first(s, pred) == Some(s[i]),
    decreases s.len(),
{
    if i == s.len() - 1 {
        lemma_find_first_none(s.drop_last(), pred);
    } else {
        lemma_find_first_at(s.drop_last(), pred, i);
    }
}

/// What is found satisfies the predicate and is a row; nothing is found only
/// where no row satisfies it.
pub proof fn lemma_find_first_result<T>(s: Seq<T>, pred: spec_fn(T) -> bool)
    ensures
        find_first(s, pred) matches Some(x) ==> pred(x) && s.contains(x),
        find_first(s, pred) is None ==> forall|j: int| 0 <= j < s.len() ==> !pred(#[trigger] s[j]),
    decreases s.len(),
{
    if s.len() > 0 {
        let p = s.drop_last();
        lemma_find_first_result(p, pred);
        if let Some(x) = find_first(p, pred) {
            let j = choose|j: int| 0 <= j < p.len() && p[j] == x;
            assert(s[j] == x);
        } else if pred(s.last()) {
            assert(s[s.len() - 1] == s.last());
        } else {
            assert forall|j: int| 0 <= j < s.len() implies !pred(#[trigger] s[j]) by {
                if j < s.len() - 1 {
                    assert(s[j] == p[j]);
                }
            }
        }
    }
}

/// Filtering keeps keys distinct.
pub proof fn lemma_filter_distinct<T>(
    s: Seq<T>,
    pred: spec_fn(T) -> bool,
    key: spec_fn(T) -> Seq<char>,
)
    requires
        distinct_keys(s, key),
    ensures
        distinct_keys(s.filter(pred), key),
    decreases s.len(),
{
    broadcast use vstd::seq_lib::group_filter_ensures;

    if s.len() > 0 {
        let p = s.drop_last();
        let x = s.last();
        assert(distinct_keys(p, key)) by {
            assert forall|i: int, j: int| 0 <= i < j < p.len() implies key(#[trigger] p[i]) != key(
                #[trigger] p[j],
            ) by {
                assert(p[i] == s[i] && p[j] == s[j]);
            }
        }
        lemma_filter_distinct(p, pred, key);
        assert(s == p.push(x));
        p.lemma_filter_push(x, pred);
        if pred(x) {
            let f = p.filter(pred);
            assert forall|i: int| 0 <= i < f.len() implies key(#[trigger] f[i]) != key(x) by {
                p.lemma_filter_contains_rev(pred, f[i]);
                let j = choose|j: int| 0 <= j < p.len() && p[j] == f[i];
                assert(s[j] == f[i]);
                assert(s[s.len() - 1] == x);
            }
            let g = f.push(x);
            assert forall|i: int, j: int| 0 <= i < j < g.len() implies key(#[trigger] g[i]) != key(
                #[trigger] g[j],
            ) by {
                if j == g.len() - 1 {
                    assert(g[i] == f[i]);
                } else {
                    assert(g[i] == f[i] && g[j] == f[j]);
                }
            }
        }
    }
}

} // verus!
