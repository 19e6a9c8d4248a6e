//! Strings used as a set of texts: no text twice, order irrelevant.
use vstd::prelude::*;
use crate::text::text_is;

verus! {

/// The texts of the strings, in order.
pub open spec fn texts(v: Seq<String>) -> Seq<Seq<char>> {
    v.map_values(|s: String| s@)
}

/// The texts of the strings, as a set.
pub open spec fn text_set(v: Seq<String>) -> Set<Seq<char>> {
    v.map_values(|s: String| s@).to_set()
}

/// No text occurs twice.
pub open spec fn distinct_texts(v: Seq<String>) -> bool {
    forall|i: int, j: int| 0 <= i < j < v.len() ==> #[trigger] v[i]@ != #[trigger] v[j]@
}

/// `s` with `e` added when absent and removed when present.
pub open spec fn toggled(s: Set<Seq<char>>, e: Seq<char>) -> Set<Seq<char>> {
    if s.contains(e) {
        s.remove(e)
    } else {
        s.insert(e)
    }
}

/// A copy of the strings, text for text.
pub fn copy_texts(v: &Vec<String>) -> (r: Vec<String>)
    ensures
        r@.len() == v@.len(),
        forall|i: int| 0 <= i < v@.len() ==> #[trigger] r@[i]@ == v@[i]@,
        text_set(r@) == text_set(v@),
        distinct_texts(v@) ==> distinct_texts(r@),
{
    let mut out: Vec<String> = Vec::new();
    let mut i: usize = 0;
    while i < v.len()
        invariant
            i <= v.len(),
            out@.len() == i,
            forall|k: int| 0 <= k < i ==> #[trigger] out@[k]@ == v@[k]@,
        decreases v.len() - i,
    {
        out.push(v[i].clone());
        i = i + 1;
    }
    assert(out@.map_values(|s: String| s@) =~= v@.map_values(|s: String| s@));
    out
}

pub proof fn lemma_remove_distinct(v: Seq<String>, i: int, t: Seq<char>)
    requires
        distinct_texts(v),
        0 <= i < v.len(),
        v[i]@ == t,
    ensures
        distinct_texts(v.remove(i)),
        text_set(v.remove(i)) == text_set(v).remove(t),
        text_set(v).contains(t),
{
    let w = v.remove(i);
    let mv = v.map_values(|s: String| s@);
    let mw = w.map_values(|s: String| s@);
    assert(mv[i] == t);
    assert forall|a: int, b: int| 0 <= a < b < w.len() implies #[trigger] w[a]@ != #[trigger] w[b]@ by {
        let a2 = if a < i { a } else { a + 1 };
        let b2 = if b < i { b } else { b + 1 };
        assert(w[a] == v[a2]);
        assert(w[b] == v[b2]);
    }
    assert forall|x: Seq<char>| text_set(w).contains(x) <==> text_set(v).remove(t).contains(x) by {
        if text_set(w).contains(x) {
            let k = choose|k: int| 0 <= k < mw.len() && mw[k] == x;
            let k2 = if k < i { k } else { k + 1 };
            assert(w[k] == v[k2]);
            assert(mv[k2] == x);
            assert(k2 != i);
        }
        if text_set(v).remove(t).contains(x) {
            let k = choose|k: int| 0 <= k < mv.len() && mv[k] == x;
            assert(k != i);
            let k2 = if k < i { k } else { k - 1 };
            assert(w[k2] == v[k]);
            assert(mw[k2] == x);
        }
    }
    assert(text_set(w) =~= text_set(v).remove(t));
}

pub proof fn lemma_push_distinct(v: Seq<String>, s: String, t: Seq<char>)
    requires
        distinct_texts(v),
        !text_set(v).contains(t),
        s@ == t,
    ensures
        distinct_texts(v.push(s)),
        text_set(v.push(s)) == text_set(v).insert(t),
{
    let w = v.push(s);
    let mv = v.map_values(|s: String| s@);
    let mw = w.map_values(|s: String| s@);
    assert forall|a: int, b: int| 0 <= a < b < w.len() implies #[trigger] w[a]@ != #[trigger] w[b]@ by {
        if b == v.len() {
            assert(w[a] == v[a]);
            assert(mv[a] == v[a]@);
        } else {
            assert(w[a] == v[a]);
            assert(w[b] == v[b]);
        }
    }
    assert forall|x: Seq<char>| text_set(w).contains(x) <==> text_set(v).insert(t).contains(x) by {
        if text_set(w).contains(x) {
            let k = choose|k: int| 0 <= k < mw.len() && mw[k] == x;
            if k < v.len() {
                assert(w[k] == v[k]);
                assert(mv[k] == x);
            }
        }
        if text_set(v).insert(t).contains(x) {
            if x == t {
                assert(mw[v.len() as int] == t);
            } else {
                let k = choose|k: int| 0 <= k < mv.len() && mv[k] == x;
                assert(w[k] == v[k]);
                assert(mw[k] == x);
            }
        }
    }
    assert(text_set(w) =~= text_set(v).insert(t));
}

/// Adds `t` to the set when absent, removes it when present.
pub fn toggle_text(v: &mut Vec<String>, t: &str)
    requires
        distinct_texts(old(v)@),
    ensures
        distinct_texts(final(v)@),
        text_set(final(v)@) == toggled(text_set(old(v)@), t@),
{
    let mut i: usize = 0;
    let n = v.len();
    while i < n
        invariant
            *v == *old(v),
            distinct_texts(old(v)@),
            n == v.len(),
            i <= n,
            forall|k: int| 0 <= k < i ==> v@[k]@ != t@,
        decreases n - i,
    {
        if text_is(v[i].as_str(), t) {
            let ghost before = v@;
            v.remove(i);
            proof {
                lemma_remove_distinct(before, i as int, t@);
            }
            return;
        }
        i = i + 1;
    }
    proof {
        let before = v@;
        assert(!text_set(before).contains(t@)) by {
            let mb = before.map_values(|s: String| s@);
            if text_set(before).contains(t@) {
                let k = choose|k: int| 0 <= k < mb.len() && mb[k] == t@;
                assert(before[k]@ == t@);
            }
        }
    }
    let ghost before = v@;
    v.push(t.to_string());
    proof {
        lemma_push_distinct(before, v@.last(), t@);
        assert(v@ == before.push(v@.last()));
    }
}

/// Toggling the same text twice leaves the set as it was.
pub proof fn lemma_toggle_twice(checked: Set<Seq<char>>, ext: Seq<char>)
    ensures
        toggled(toggled(checked, ext), ext) == checked,
{
    if checked.contains(ext) {
        assert(checked.remove(ext).insert(ext) =~= checked);
    } else {
        assert(checked.insert(ext).remove(ext) =~= checked);
    }
}

} // verus!
