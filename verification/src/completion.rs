//! Path-bar completion: the typed buffer splits into the folder to list and the start of the
//! name being typed; the subfolders found there are ordered by their lower-cased names and
//! those whose lower-cased name starts with the lower-cased typed start are offered, up to a
//! limit.
use vstd::prelude::*;
use crate::compare::{lowercase, lowercase_of};
use crate::text::{chars_of, lex_lt, string_of, text_lt};
use crate::textset::texts;

verus! {

/// The most suggestions offered.
pub const MAX_SUGGESTIONS: usize = 50;

/// The subfolders read at most from the listed folder.
pub const MAX_LISTED_FOLDERS: usize = 200;

/// A path separator: `\` or `/`.
pub open spec fn is_sep(c: char) -> bool {
    c == '\\' || c == '/'
}

/// The position of the last separator of `s`.
pub open spec fn last_sep(s: Seq<char>) -> Option<int>
    decreases s.len(),
{
    if s.len() == 0 {
        None
    } else if is_sep(s.last()) {
        Some(s.len() - 1)
    } else {
        last_sep(s.drop_last())
    }
}

/// The folder to list (up to and with the last separator) and the start of the name typed
/// after it; with no separator there is no folder and the whole buffer is the start.
pub open spec fn split_buffer_spec(s: Seq<char>) -> (Seq<char>, Seq<char>) {
    match last_sep(s) {
        Some(k) => (s.take(k + 1), s.skip(k + 1)),
        None => (Seq::empty(), s),
    }
}

proof fn lemma_last_sep_prefix(s: Seq<char>, i: int)
    requires
        0 <= i <= s.len(),
        forall|j: int| i <= j < s.len() ==> !is_sep(#[trigger] s[j]),
    ensures
        last_sep(s) == last_sep(s.take(i)),
    decreases s.len() - i,
{
    if i < s.len() {
        assert(!is_sep(s[s.len() - 1]));
        assert(s.drop_last().take(i) == s.take(i));
        lemma_last_sep_prefix(s.drop_last(), i);
    } else {
        assert(s.take(i) == s);
    }
}

/// Splits the typed buffer (see `split_buffer_spec`).
pub fn split_edit_buffer(buffer: &str) -> (r: (String, String))
    ensures
        (r.0@, r.1@) == split_buffer_spec(buffer@),
{
    let cs = chars_of(buffer);
    let mut i: usize = cs.len();
    while i > 0 && !(cs[i - 1] == '\\' || cs[i - 1] == '/')
        invariant
            i <= cs.len(),
            cs@ == buffer@,
            forall|j: int| i <= j < cs@.len() ==> !is_sep(#[trigger] cs@[j]),
        decreases i,
    {
        i = i - 1;
    }
    proof {
        lemma_last_sep_prefix(cs@, i as int);
        if i > 0 {
            assert(cs@.take(i as int).last() == cs@[i - 1]);
        } else {
            assert(cs@.take(0) =~= Seq::<char>::empty());
        }
    }
    let mut parent: Vec<char> = Vec::new();
    let mut k: usize = 0;
    while k < i
        invariant
            k <= i <= cs.len(),
            parent@ == cs@.take(k as int),
        decreases i - k,
    {
        parent.push(cs[k]);
        assert(cs@.take(k + 1) =~= cs@.take(k as int).push(cs@[k as int]));
        k = k + 1;
    }
    let mut rest: Vec<char> = Vec::new();
    let mut m: usize = i;
    while m < cs.len()
        invariant
            i <= m <= cs.len(),
            rest@ == cs@.subrange(i as int, m as int),
        decreases cs.len() - m,
    {
        rest.push(cs[m]);
        assert(cs@.subrange(i as int, m + 1) =~= cs@.subrange(i as int, m as int).push(cs@[m as int]));
        m = m + 1;
    }
    assert(cs@.subrange(i as int, cs@.len() as int) =~= cs@.skip(i as int));
    proof {
        if i == 0 {
            assert(cs@.skip(0) =~= cs@);
        }
    }
    (string_of(&parent), string_of(&rest))
}

/// `name` is offered for the typed `start`: its lower-cased form starts with the lower-cased
/// start.
pub open spec fn offered(name: Seq<char>, start: Seq<char>) -> bool {
    let n = lowercase_of(name);
    let p = lowercase_of(start);
    p.len() <= n.len() && n.take(p.len() as int) == p
}

/// The names offered for `start`, in order, at most `limit` of them.
pub open spec fn candidates_spec(names: Seq<Seq<char>>, start: Seq<char>, limit: nat) -> Seq<Seq<char>>
    decreases names.len(),
{
    if names.len() == 0 {
        Seq::empty()
    } else {
        let before = candidates_spec(names.drop_last(), start, limit);
        if before.len() < limit && offered(names.last(), start) {
            before.push(names.last())
        } else {
            before
        }
    }
}

fn starts_with_text(n: &Vec<char>, p: &Vec<char>) -> (r: bool)
    ensures
        r == (p@.len() <= n@.len() && n@.take(p@.len() as int) == p@),
{
    if p.len() > n.len() {
        return false;
    }
    let mut i: usize = 0;
    while i < p.len()
        invariant
            i <= p.len() <= n.len(),
            forall|j: int| 0 <= j < i ==> n@[j] == p@[j],
        decreases p.len() - i,
    {
        if n[i] != p[i] {
            assert(n@.take(p@.len() as int)[i as int] != p@[i as int]);
            return false;
        }
        i = i + 1;
    }
    assert(n@.take(p@.len() as int) =~= p@);
    true
}

/// The names offered for the typed `start` (see `candidates_spec`).
pub fn completion_candidates(names: &Vec<String>, start: &str, limit: usize) -> (r: Vec<String>)
    ensures
        texts(r@) == candidates_spec(texts(names@), start@, limit as nat),
{
    let low_start = lowercase(start);
    let p = chars_of(low_start.as_str());
    let ghost tn = texts(names@);
    let mut out: Vec<String> = Vec::new();
    let mut i: usize = 0;
    while i < names.len()
        invariant
            i <= names.len(),
            tn == texts(names@),
            p@ == lowercase_of(start@),
            texts(out@) == candidates_spec(tn.take(i as int), start@, limit as nat),
        decreases names.len() - i,
    {
        assert(tn.take(i + 1).drop_last() == tn.take(i as int));
        assert(tn.take(i + 1).last() == names@[i as int]@);
        let ghost before = out@;
        if out.len() < limit {
            let low = lowercase(names[i].as_str());
            let n = chars_of(low.as_str());
            if starts_with_text(&n, &p) {
                out.push(names[i].clone());
                assert(texts(out@) =~= texts(before).push(names@[i as int]@));
            }
        }
        assert(texts(out@).len() == out@.len());
        i = i + 1;
    }
    assert(tn.take(names.len() as int) == tn);
    out
}

/// `x` placed into `s` before the first name whose lower-cased form comes strictly after its
/// own.
pub open spec fn insert_by_key(s: Seq<Seq<char>>, x: Seq<char>) -> Seq<Seq<char>>
    decreases s.len(),
{
    if s.len() == 0 {
        seq![x]
    } else if lex_lt(lowercase_of(x), lowercase_of(s[0])) {
        seq![x] + s
    } else {
        seq![s[0]] + insert_by_key(s.skip(1), x)
    }
}

/// The names ordered by their lower-cased forms, keeping the order of names with the same
/// lower-cased form (a stable sort by that key).
pub open spec fn sort_by_key_spec(s: Seq<Seq<char>>) -> Seq<Seq<char>>
    decreases s.len(),
{
    if s.len() == 0 {
        Seq::empty()
    } else {
        insert_by_key(sort_by_key_spec(s.drop_last()), s.last())
    }
}

fn insert_by_key_exec(out: &mut Vec<String>, x: String)
    ensures
        texts(final(out)@) == insert_by_key(texts(old(out)@), x@),
{
    let ghost v = texts(out@);
    let kx = lowercase(x.as_str());
    let mut p: usize = 0;
    assert(v.skip(0) =~= v);
    assert(v.take(0) + insert_by_key(v.skip(0), x@) =~= insert_by_key(v, x@));
    while p < out.len() && !text_lt(kx.as_str(), lowercase(out[p].as_str()).as_str())
        invariant
            p <= out.len(),
            out@.len() == v.len(),
            v == texts(out@),
            kx@ == lowercase_of(x@),
            insert_by_key(v, x@) == v.take(p as int) + insert_by_key(v.skip(p as int), x@),
        decreases out.len() - p,
    {
        assert(v.skip(p as int)[0] == v[p as int]);
        assert(v.skip(p as int).skip(1) =~= v.skip(p + 1));
        assert(v.take(p as int) + (seq![v[p as int]] + insert_by_key(v.skip(p + 1), x@)) =~= v.take(p + 1)
            + insert_by_key(v.skip(p + 1), x@));
        p = p + 1;
    }
    proof {
        if p < v.len() {
            assert(v.skip(p as int)[0] == v[p as int]);
        }
    }
    out.insert(p, x);
    assert(texts(out@) =~= v.take(p as int) + insert_by_key(v.skip(p as int), x@));
}

/// The names ordered by their lower-cased forms (see `sort_by_key_spec`), as the listed
/// subfolders are shown.
pub fn order_by_lowercase(names: Vec<String>) -> (r: Vec<String>)
    ensures
        texts(r@) == sort_by_key_spec(texts(names@)),
{
    let ghost tn = texts(names@);
    let mut out: Vec<String> = Vec::new();
    let mut i: usize = 0;
    while i < names.len()
        invariant
            i <= names.len(),
            tn == texts(names@),
            texts(out@) == sort_by_key_spec(tn.take(i as int)),
        decreases names.len() - i,
    {
        assert(tn.take(i + 1).drop_last() == tn.take(i as int));
        assert(tn.take(i + 1).last() == names@[i as int]@);
        insert_by_key_exec(&mut out, names[i].clone());
        i = i + 1;
    }
    assert(tn.take(names.len() as int) == tn);
    out
}

/// How many subfolders read from the listed folder are used: all of them, up to
/// `MAX_LISTED_FOLDERS`.
pub open spec fn folders_used(n: nat) -> nat {
    if n < MAX_LISTED_FOLDERS { n } else { MAX_LISTED_FOLDERS as nat }
}

/// The suggestions for the typed `buffer` once the subfolders of its folder were read
/// (`complete_path`): none when the buffer names no folder; else, of the first
/// `MAX_LISTED_FOLDERS` subfolders read, ordered by their lower-cased names, those whose
/// lower-cased name starts with the lower-cased typed start, at most `MAX_SUGGESTIONS`.
pub open spec fn suggestions_spec(buffer: Seq<char>, folders: Seq<Seq<char>>) -> Seq<Seq<char>> {
    let parts = split_buffer_spec(buffer);
    if parts.0.len() == 0 {
        Seq::empty()
    } else {
        candidates_spec(
            sort_by_key_spec(folders.take(folders_used(folders.len()) as int)),
            parts.1,
            MAX_SUGGESTIONS as nat,
        )
    }
}

/// The suggestions for the typed `buffer` (see `suggestions_spec`); `folders` are the names
/// of the subfolders read from the folder the buffer names, in the order they were read.
pub fn path_suggestions(buffer: &str, folders: Vec<String>) -> (r: Vec<String>)
    ensures
        texts(r@) == suggestions_spec(buffer@, texts(folders@)),
{
    let (parent, start) = split_edit_buffer(buffer);
    if parent.as_str().is_empty() {
        return Vec::new();
    }
    let mut names = folders;
    let ghost all = texts(names@);
    if names.len() > MAX_LISTED_FOLDERS {
        names.truncate(MAX_LISTED_FOLDERS);
    }
    assert(texts(names@) =~= all.take(folders_used(all.len()) as int));
    completion_candidates(&order_by_lowercase(names), start.as_str(), MAX_SUGGESTIONS)
}

} // verus!
