//! Lists of file references kept in memory: the most-recently-used task spaces of the
//! session, and the saved queries and recipes opened or written.
use vstd::prelude::*;
use crate::text::text_is;

verus! {

/// How many task spaces the session remembers.
pub const RECENT_SPACES: usize = 10;

/// How many saved queries or recipes are referenced at most.
pub const MAX_REFERENCES: usize = 64;

/// No path occurs twice.
pub open spec fn distinct_paths(v: Seq<String>) -> bool {
    forall|i: int, j: int| 0 <= i < j < v.len() ==> #[trigger] v[i]@ != #[trigger] v[j]@
}

/// The texts of the paths, in order.
pub open spec fn path_texts(v: Seq<String>) -> Seq<Seq<char>> {
    v.map_values(|s: String| s@)
}

/// `v` without the path `p`.
pub open spec fn without(v: Seq<Seq<char>>, p: Seq<char>) -> Seq<Seq<char>> {
    v.filter(|x: Seq<char>| x != p)
}

/// The recent list after remembering `p`: `p` first, then the others in their order without
/// `p`, at most `RECENT_SPACES` of them.
pub open spec fn remembered(v: Seq<Seq<char>>, p: Seq<char>) -> Seq<Seq<char>> {
    let all = seq![p] + without(v, p);
    if all.len() > RECENT_SPACES {
        all.take(RECENT_SPACES as int)
    } else {
        all
    }
}

/// Whether the list holds the path `p`.
fn holds(v: &Vec<String>, p: &str) -> (r: Option<usize>)
    ensures
        match r {
            Some(i) => i < v@.len() && v@[i as int]@ == p@,
            None => forall|i: int| 0 <= i < v@.len() ==> v@[i]@ != p@,
        },
{
    let mut i: usize = 0;
    while i < v.len()
        invariant
            i <= v.len(),
            forall|k: int| 0 <= k < i ==> v@[k]@ != p@,
        decreases v.len() - i,
    {
        if text_is(v[i].as_str(), p) {
            return Some(i);
        }
        i = i + 1;
    }
    None
}

/// Removes every occurrence of the path `p`, keeping the order of the others.
pub fn forget_path(v: &mut Vec<String>, p: &str)
    ensures
        path_texts(final(v)@) == without(path_texts(old(v)@), p@),
        distinct_paths(old(v)@) ==> distinct_paths(final(v)@),
{
    let ghost start = path_texts(v@);
    let mut out: Vec<String> = Vec::new();
    let mut i: usize = 0;
    while i < v.len()
        invariant
            i <= v.len(),
            *v == *old(v),
            start == path_texts(v@),
            path_texts(out@) == without(start.take(i as int), p@),
            distinct_paths(old(v)@) ==> distinct_paths(out@),
            forall|k: int| 0 <= k < out@.len() ==> exists|j: int| 0 <= j < i && #[trigger] out@[k]@ == v@[j]@,
        decreases v.len() - i,
    {
        proof {
            reveal(Seq::filter);
            assert(start.take(i + 1).drop_last() == start.take(i as int));
            assert(start.take(i + 1).last() == v@[i as int]@);
        }
        if !text_is(v[i].as_str(), p) {
            let ghost before = out@;
            out.push(v[i].clone());
            proof {
                assert(path_texts(out@) =~= path_texts(before).push(v@[i as int]@));
                assert forall|k: int| 0 <= k < out@.len() implies exists|j: int| 0 <= j < i + 1 && #[trigger] out@[k]@ == v@[j]@ by {
                    if k < before.len() {
                        let j = choose|j: int| 0 <= j < i && before[k]@ == v@[j]@;
                        assert(out@[k] == before[k]);
                    } else {
                        assert(out@[k]@ == v@[i as int]@);
                    }
                }
                if distinct_paths(old(v)@) {
                    assert forall|a: int, b: int| 0 <= a < b < out@.len() implies #[trigger] out@[a]@ != #[trigger] out@[b]@ by {
                        if b == before.len() {
                            let j = choose|j: int| 0 <= j < i && before[a]@ == v@[j]@;
                            assert(out@[a] == before[a]);
                            assert(v@[j]@ != v@[i as int]@);
                        } else {
                            assert(out@[a] == before[a]);
                            assert(out@[b] == before[b]);
                        }
                    }
                }
            }
        }
        i = i + 1;
    }
    proof {
        assert(start.take(v.len() as int) == start);
    }
    *v = out;
}

/// Remembers the task space at `p` as the most recent: it moves (or enters) first, without a
/// second copy, and the list keeps at most `RECENT_SPACES` entries.
pub fn remember_recent(v: &mut Vec<String>, p: String)
    ensures
        path_texts(final(v)@) == remembered(path_texts(old(v)@), p@),
        distinct_paths(old(v)@) ==> distinct_paths(final(v)@),
{
    let ghost before = path_texts(v@);
    forget_path(v, p.as_str());
    let ghost mid = v@;
    v.insert(0, p);
    proof {
        assert(path_texts(v@) =~= seq![v@[0]@] + path_texts(mid));
        if distinct_paths(old(v)@) {
            assert forall|a: int, b: int| 0 <= a < b < v@.len() implies #[trigger] v@[a]@ != #[trigger] v@[b]@ by {
                if a == 0 {
                    assert(v@[b] == mid[b - 1]);
                    assert(path_texts(mid)[b - 1] == mid[b - 1]@);
                    let w = without(before, v@[0]@);
                    assert(path_texts(mid) == w);
                    before.lemma_filter_pred(|x: Seq<char>| x != v@[0]@, b - 1);
                } else {
                    assert(v@[a] == mid[a - 1]);
                    assert(v@[b] == mid[b - 1]);
                }
            }
        }
    }
    if v.len() > RECENT_SPACES {
        let ghost full = v@;
        v.truncate(RECENT_SPACES);
        proof {
            assert(path_texts(v@) =~= path_texts(full).take(RECENT_SPACES as int));
            if distinct_paths(old(v)@) {
                assert forall|a: int, b: int| 0 <= a < b < v@.len() implies #[trigger] v@[a]@ != #[trigger] v@[b]@ by {
                    assert(v@[a] == full[a]);
                    assert(v@[b] == full[b]);
                }
            }
        }
    }
}

/// Adds the reference `p` of a saved query when it is new and the list is not full.
pub fn add_reference_capped(v: &mut Vec<String>, p: &String)
    ensures
        path_texts(final(v)@) == (if path_texts(old(v)@).contains(p@) || old(v)@.len()
            >= MAX_REFERENCES {
            path_texts(old(v)@)
        } else {
            path_texts(old(v)@).push(p@)
        }),
        distinct_paths(old(v)@) ==> distinct_paths(final(v)@),
{
    let found = holds(v, p.as_str());
    proof {
        lemma_holds_contains(v@, p@, found);
    }
    if found.is_none() && v.len() < MAX_REFERENCES {
        let ghost before = v@;
        v.push(p.clone());
        proof {
            assert(path_texts(v@) =~= path_texts(before).push(p@));
            lemma_push_keeps_distinct(before, v@);
        }
    }
}

/// Adds the reference `p` of a recipe when it is new; past `MAX_REFERENCES` the oldest one is
/// dropped.
pub fn add_reference_evicting(v: &mut Vec<String>, p: &String)
    ensures
        path_texts(final(v)@) == (if path_texts(old(v)@).contains(p@) {
            path_texts(old(v)@)
        } else if old(v)@.len() + 1 > MAX_REFERENCES {
            path_texts(old(v)@).push(p@).drop_first()
        } else {
            path_texts(old(v)@).push(p@)
        }),
        distinct_paths(old(v)@) ==> distinct_paths(final(v)@),
{
    let found = holds(v, p.as_str());
    proof {
        lemma_holds_contains(v@, p@, found);
    }
    if found.is_none() {
        let ghost before = v@;
        v.push(p.clone());
        proof {
            assert(path_texts(v@) =~= path_texts(before).push(p@));
            lemma_push_keeps_distinct(before, v@);
        }
        if v.len() > MAX_REFERENCES {
            let ghost full = v@;
            v.remove(0);
            proof {
                assert(path_texts(v@) =~= path_texts(full).drop_first());
                if distinct_paths(full) {
                    assert forall|a: int, b: int| 0 <= a < b < v@.len() implies #[trigger] v@[a]@ != #[trigger] v@[b]@ by {
                        assert(v@[a] == full[a + 1]);
                        assert(v@[b] == full[b + 1]);
                    }
                }
            }
        }
    }
}

proof fn lemma_holds_contains(v: Seq<String>, p: Seq<char>, found: Option<usize>)
    requires
        match found {
            Some(i) => i < v.len() && v[i as int]@ == p,
            None => forall|i: int| 0 <= i < v.len() ==> v[i]@ != p,
        },
    ensures
        found is Some <==> path_texts(v).contains(p),
{
    if let Some(i) = found {
        assert(path_texts(v)[i as int] == p);
    } else {
        if path_texts(v).contains(p) {
            let k = choose|k: int| 0 <= k < path_texts(v).len() && path_texts(v)[k] == p;
            assert(v[k]@ == p);
        }
    }
}

proof fn lemma_push_keeps_distinct(before: Seq<String>, after: Seq<String>)
    requires
        after.len() == before.len() + 1,
        forall|i: int| 0 <= i < before.len() ==> after[i] == before[i],
        forall|i: int| 0 <= i < before.len() ==> before[i]@ != after.last()@,
    ensures
        distinct_paths(before) ==> distinct_paths(after),
{
    if distinct_paths(before) {
        assert forall|a: int, b: int| 0 <= a < b < after.len() implies #[trigger] after[a]@ != #[trigger] after[b]@ by {
            if b == before.len() {
                assert(after[a] == before[a]);
            } else {
                assert(after[a] == before[a]);
                assert(after[b] == before[b]);
            }
        }
    }
}

/// Remembering a task space puts it first without a second copy and never grows the list past
/// its cap; remembering it again at once changes nothing.
pub proof fn lemma_remember_front(v: Seq<Seq<char>>, p: Seq<char>)
    ensures
        remembered(v, p)[0] == p,
        remembered(v, p).len() <= RECENT_SPACES,
        forall|k: int| 1 <= k < remembered(v, p).len() ==> #[trigger] remembered(v, p)[k] != p,
        remembered(remembered(v, p), p) == remembered(v, p),
{
    let w = without(v, p);
    let all = seq![p] + w;
    let r = remembered(v, p);
    lemma_without_excludes(v, p);
    assert forall|k: int| 1 <= k < r.len() implies #[trigger] r[k] != p by {
        assert(r[k] == all[k]);
        assert(all[k] == w[k - 1]);
    }
    let w2 = without(r, p);
    assert(w2 =~= r.drop_first()) by {
        lemma_filter_all_kept(r.drop_first(), p);
        assert(r =~= seq![p] + r.drop_first());
        reveal(Seq::filter);
        lemma_filter_skip_head(r, p);
    }
    assert(seq![p] + w2 =~= r);
}

proof fn lemma_without_excludes(v: Seq<Seq<char>>, p: Seq<char>)
    ensures
        forall|k: int| 0 <= k < without(v, p).len() ==> #[trigger] without(v, p)[k] != p,
    decreases v.len(),
{
    reveal(Seq::filter);
    if v.len() > 0 {
        lemma_without_excludes(v.drop_last(), p);
        let w0 = without(v.drop_last(), p);
        if v.last() != p {
            assert(without(v, p) == w0.push(v.last()));
        } else {
            assert(without(v, p) == w0);
        }
    }
}

proof fn lemma_filter_all_kept(s: Seq<Seq<char>>, p: Seq<char>)
    requires
        forall|k: int| 0 <= k < s.len() ==> s[k] != p,
    ensures
        without(s, p) == s,
    decreases s.len(),
{
    reveal(Seq::filter);
    if s.len() > 0 {
        lemma_filter_all_kept(s.drop_last(), p);
        assert(s.drop_last().push(s.last()) =~= s);
    }
}

proof fn lemma_filter_skip_head(r: Seq<Seq<char>>, p: Seq<char>)
    requires
        r.len() > 0,
        r[0] == p,
    ensures
        without(r, p) == without(r.drop_first(), p),
    decreases r.len(),
{
    reveal(Seq::filter);
    if r.len() > 1 {
        lemma_filter_skip_head(r.drop_last(), p);
        assert(r.drop_last().drop_first() =~= r.drop_first().drop_last());
        assert(r.drop_first().last() == r.last());
    } else {
        assert(r.drop_last() =~= Seq::<Seq<char>>::empty());
        assert(r.drop_first() =~= Seq::<Seq<char>>::empty());
    }
}

/// A finished read or write of a saved query is taken into the manager when it was a write, or
/// when the manager is still open and still waits for that read.
pub fn loaded_is_accepted(writing: bool, open: bool, accept_read: bool) -> (r: bool)
    ensures
        r == (writing || (open && accept_read)),
{
    writing || (open && accept_read)
}

} // verus!
