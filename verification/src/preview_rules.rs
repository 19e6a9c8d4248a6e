//! Per-extension preview rules: whether files of an extension are previewed, and how (auto,
//! text, image, or code in a given language).
use vstd::prelude::*;
use crate::text::{
    ascii_lower, char_ascii_lower, chars_of, lemma_lex_irreflexive, lemma_lex_transitive, lex_lt,
    string_of, text_is, text_lt, trim, trim_chars,
};

verus! {

/// How files of an extension are previewed.
#[derive(Clone, Copy, Debug, PartialEq, Eq, Structural)]
pub enum ViewMode {
    Auto,
    Text,
    Image,
    /// Code, in the language at this index of the language list (0 is XML).
    Code(usize),
}

/// The rule of one extension.
#[derive(Clone, Debug, PartialEq, Eq)]
pub struct PreviewRule {
    /// The extension, lower-case and without a dot.
    pub ext: String,
    pub enabled: bool,
    pub view: ViewMode,
}

/// `s` without its leading dots.
pub open spec fn strip_dots(s: Seq<char>) -> Seq<char>
    decreases s.len(),
{
    if s.len() > 0 && s[0] == '.' {
        strip_dots(s.drop_first())
    } else {
        s
    }
}

/// How an extension typed by the user is stored: trimmed, without leading dots, ASCII
/// lower-cased (".SIF" is "sif").
pub open spec fn normalized_ext(s: Seq<char>) -> Seq<char> {
    strip_dots(trim(s)).map_values(|c: char| ascii_lower(c))
}

/// The index of the first rule for `ext`.
pub open spec fn first_rule(rules: Seq<PreviewRule>, ext: Seq<char>) -> Option<int>
    decreases rules.len(),
{
    if rules.len() == 0 {
        None
    } else if rules[0].ext@ == ext {
        Some(0)
    } else {
        match first_rule(rules.drop_first(), ext) {
            Some(i) => Some(i + 1),
            None => None,
        }
    }
}

/// The mode and language indices the settings show for a view (0 Auto, 1 Text, 2 Image,
/// 3 Code with its language; the language index is 0 for the other modes).
pub open spec fn view_indices_of(v: ViewMode) -> (i32, i32) {
    match v {
        ViewMode::Auto => (0, 0),
        ViewMode::Text => (1, 0),
        ViewMode::Image => (2, 0),
        ViewMode::Code(l) => (3, l as i32),
    }
}

/// The view chosen by mode index `idx` for a rule that had view `old`: 1 Text, 2 Image, 3 Code
/// (keeping the language when it already was code, else XML), anything else Auto.
pub open spec fn view_for_mode(old: ViewMode, idx: i32) -> ViewMode {
    if idx == 1 {
        ViewMode::Text
    } else if idx == 2 {
        ViewMode::Image
    } else if idx == 3 {
        match old {
            ViewMode::Code(l) => ViewMode::Code(l),
            _ => ViewMode::Code(0),
        }
    } else {
        ViewMode::Auto
    }
}

/// The extensions of the rules.
pub open spec fn rule_exts(rules: Seq<PreviewRule>) -> Seq<Seq<char>> {
    rules.map_values(|r: PreviewRule| r.ext@)
}

proof fn lemma_first_rule(rules: Seq<PreviewRule>, ext: Seq<char>)
    ensures
        first_rule(rules, ext) matches Some(i) ==> 0 <= i < rules.len() && rules[i].ext@ == ext
            && forall|k: int| 0 <= k < i ==> rules[k].ext@ != ext,
        first_rule(rules, ext) is None ==> forall|k: int| 0 <= k < rules.len() ==> rules[k].ext@ != ext,
    decreases rules.len(),
{
    if rules.len() > 0 {
        lemma_first_rule(rules.drop_first(), ext);
        assert forall|k: int| 0 < k < rules.len() implies rules[k] == rules.drop_first()[k - 1] by {}
    }
}

/// The typed extension as stored (see `normalized_ext`).
pub fn normalize_ext(ext: &str) -> (r: String)
    ensures
        r@ == normalized_ext(ext@),
{
    let cs = chars_of(ext);
    let t = trim_chars(&cs);
    let mut start: usize = 0;
    assert(t@.skip(0) == t@);
    while start < t.len() && t[start] == '.'
        invariant
            start <= t.len(),
            strip_dots(t@) == strip_dots(t@.skip(start as int)),
        decreases t.len() - start,
    {
        assert(t@.skip(start as int).drop_first() == t@.skip(start + 1));
        start = start + 1;
    }
    proof {
        let u = t@.skip(start as int);
        if u.len() > 0 {
            assert(u[0] == t@[start as int]);
        }
        assert(strip_dots(u) == u);
    }
    let mut out: Vec<char> = Vec::new();
    let mut i: usize = start;
    while i < t.len()
        invariant
            start <= i <= t.len(),
            out@ == t@.subrange(start as int, i as int).map_values(|c: char| ascii_lower(c)),
        decreases t.len() - i,
    {
        out.push(char_ascii_lower(t[i]));
        assert(t@.subrange(start as int, i + 1) == t@.subrange(start as int, i as int).push(t@[i as int]));
        assert(out@ =~= t@.subrange(start as int, i + 1).map_values(|c: char| ascii_lower(c)));
        i = i + 1;
    }
    assert(t@.subrange(start as int, t.len() as int) == t@.skip(start as int));
    string_of(&out)
}

fn find_rule(rules: &Vec<PreviewRule>, ext: &str) -> (r: Option<usize>)
    ensures
        match r {
            Some(i) => first_rule(rules@, ext@) == Some(i as int),
            None => first_rule(rules@, ext@) is None,
        },
{
    proof {
        lemma_first_rule(rules@, ext@);
    }
    let mut i: usize = 0;
    while i < rules.len()
        invariant
            i <= rules.len(),
            forall|k: int| 0 <= k < i ==> rules@[k].ext@ != ext@,
            first_rule(rules@, ext@) matches Some(f) ==> 0 <= f < rules@.len() && rules@[f].ext@ == ext@
                && forall|k: int| 0 <= k < f ==> rules@[k].ext@ != ext@,
            first_rule(rules@, ext@) is None ==> forall|k: int| 0 <= k < rules@.len() ==> rules@[k].ext@ != ext@,
        decreases rules.len() - i,
    {
        if text_is(rules[i].ext.as_str(), ext) {
            proof {
                if let Some(f) = first_rule(rules@, ext@) {
                    if f < i {
                        assert(rules@[f].ext@ != ext@);
                    }
                    if (i as int) < f {
                        assert(rules@[i as int].ext@ != ext@);
                    }
                }
            }
            return Some(i);
        }
        i = i + 1;
    }
    None
}

/// Adds an enabled rule in auto mode for the typed extension, unless the normalized extension
/// is empty or already has a rule.
pub fn preview_rule_add(rules: &mut Vec<PreviewRule>, ext: &str)
    ensures
        ({
            let e = normalized_ext(ext@);
            if e.len() == 0 || first_rule(old(rules)@, e) is Some {
                final(rules)@ == old(rules)@
            } else {
                final(rules)@.len() == old(rules)@.len() + 1 && final(rules)@.drop_last()
                    == old(rules)@ && final(rules)@.last().ext@ == e && final(rules)@.last().enabled
                    && final(rules)@.last().view == ViewMode::Auto
            }
        }),
{
    let e = normalize_ext(ext);
    if e.as_str().is_empty() {
        return;
    }
    if find_rule(rules, e.as_str()).is_some() {
        return;
    }
    let ghost before = rules@;
    rules.push(PreviewRule { ext: e, enabled: true, view: ViewMode::Auto });
    assert(rules@.drop_last() == before);
}

/// Flips whether the extension `ext` (as stored) is previewed.
pub fn preview_rule_toggle(rules: &mut Vec<PreviewRule>, ext: &str)
    ensures
        match first_rule(old(rules)@, ext@) {
            Some(i) => final(rules)@ == old(rules)@.update(
                i,
                PreviewRule { enabled: !old(rules)@[i].enabled, ..old(rules)@[i] },
            ),
            None => final(rules)@ == old(rules)@,
        },
{
    if let Some(i) = find_rule(rules, ext) {
        proof {
            lemma_first_rule(rules@, ext@);
        }
        let mut r = rules[i].clone_rule();
        r.enabled = !r.enabled;
        rules.set(i, r);
    }
}

/// Sets the view of the typed extension by mode index (see `view_for_mode`).
pub fn preview_rule_set_view_mode(rules: &mut Vec<PreviewRule>, ext: &str, idx: i32)
    ensures
        ({
            let e = normalized_ext(ext@);
            match first_rule(old(rules)@, e) {
                Some(i) => final(rules)@ == old(rules)@.update(
                    i,
                    PreviewRule { view: view_for_mode(old(rules)@[i].view, idx), ..old(rules)@[i] },
                ),
                None => final(rules)@ == old(rules)@,
            }
        }),
{
    let e = normalize_ext(ext);
    if let Some(i) = find_rule(rules, e.as_str()) {
        proof {
            lemma_first_rule(rules@, e@);
        }
        let mut r = rules[i].clone_rule();
        r.view = if idx == 1 {
            ViewMode::Text
        } else if idx == 2 {
            ViewMode::Image
        } else if idx == 3 {
            match r.view {
                ViewMode::Code(l) => ViewMode::Code(l),
                _ => ViewMode::Code(0),
            }
        } else {
            ViewMode::Auto
        };
        rules.set(i, r);
    }
}

/// Sets the code language (index `idx` of a list of `lang_count` languages) of the typed
/// extension, which turns its view to code; an index outside the list changes nothing.
pub fn preview_rule_set_view_lang(rules: &mut Vec<PreviewRule>, ext: &str, idx: i32, lang_count: usize)
    ensures
        ({
            let e = normalized_ext(ext@);
            if 0 <= idx < lang_count {
                match first_rule(old(rules)@, e) {
                    Some(i) => final(rules)@ == old(rules)@.update(
                        i,
                        PreviewRule { view: ViewMode::Code(idx as usize), ..old(rules)@[i] },
                    ),
                    None => final(rules)@ == old(rules)@,
                }
            } else {
                final(rules)@ == old(rules)@
            }
        }),
{
    if idx < 0 || (idx as usize) >= lang_count {
        return;
    }
    let e = normalize_ext(ext);
    if let Some(i) = find_rule(rules, e.as_str()) {
        proof {
            lemma_first_rule(rules@, e@);
        }
        let mut r = rules[i].clone_rule();
        r.view = ViewMode::Code(idx as usize);
        rules.set(i, r);
    }
}

/// Removes every rule of the extension `ext` (as stored).
pub fn preview_rule_remove(rules: &mut Vec<PreviewRule>, ext: &str)
    ensures
        final(rules)@ == old(rules)@.filter(|r: PreviewRule| r.ext@ != ext@),
{
    let mut out: Vec<PreviewRule> = Vec::new();
    let mut i: usize = 0;
    while i < rules.len()
        invariant
            i <= rules.len(),
            *rules == *old(rules),
            out@ == rules@.take(i as int).filter(|r: PreviewRule| r.ext@ != ext@),
        decreases rules.len() - i,
    {
        proof {
            reveal(Seq::filter);
            assert(rules@.take(i + 1).drop_last() == rules@.take(i as int));
            assert(rules@.take(i + 1).last() == rules@[i as int]);
        }
        if !text_is(rules[i].ext.as_str(), ext) {
            out.push(rules[i].clone_rule());
        }
        i = i + 1;
    }
    assert(rules@.take(rules.len() as int) == rules@);
    *rules = out;
}

impl PreviewRule {
    /// A copy of the rule.
    pub fn clone_rule(&self) -> (r: PreviewRule)
        ensures
            r == *self,
    {
        PreviewRule { ext: self.ext.clone(), enabled: self.enabled, view: self.view }
    }

    /// The rule as the settings list shows it: (extension, enabled, mode index, language index).
    pub fn row(&self) -> (r: (String, bool, i32, i32))
        requires
            self.view matches ViewMode::Code(l) ==> l <= i32::MAX,
        ensures
            r.0@ == self.ext@,
            r.1 == self.enabled,
            (r.2, r.3) == view_indices_of(self.view),
    {
        let (v, l): (i32, i32) = match self.view {
            ViewMode::Auto => (0, 0),
            ViewMode::Text => (1, 0),
            ViewMode::Image => (2, 0),
            ViewMode::Code(l) => (3, l as i32),
        };
        (self.ext.clone(), self.enabled, v, l)
    }
}

/// Adding an extension twice adds one rule; and once added, the rule is found under the
/// normalized extension, enabled and in auto mode.
pub proof fn lemma_add_is_idempotent(rules: Seq<PreviewRule>, added: PreviewRule)
    requires
        first_rule(rules, added.ext@) is None,
    ensures
        first_rule(rules.push(added), added.ext@) == Some(rules.len() as int),
    decreases rules.len(),
{
    if rules.len() > 0 {
        assert(rules.push(added).drop_first() == rules.drop_first().push(added));
        lemma_add_is_idempotent(rules.drop_first(), added);
    }
}

/// Toggling a rule twice leaves the rules as they were.
pub proof fn lemma_toggle_twice(rules: Seq<PreviewRule>, i: int)
    requires
        0 <= i < rules.len(),
    ensures
        ({
            let once = rules.update(i, PreviewRule { enabled: !rules[i].enabled, ..rules[i] });
            once.update(i, PreviewRule { enabled: !once[i].enabled, ..once[i] }) == rules
        }),
{
    let once = rules.update(i, PreviewRule { enabled: !rules[i].enabled, ..rules[i] });
    assert(once.update(i, PreviewRule { enabled: !once[i].enabled, ..once[i] }) =~= rules);
}

/// A settings row as values: extension, enabled, mode index, language index.
pub type RowView = (Seq<char>, bool, i32, i32);

/// The views of settings rows.
pub open spec fn row_views(v: Seq<(String, bool, i32, i32)>) -> Seq<RowView> {
    v.map_values(|r: (String, bool, i32, i32)| (r.0@, r.1, r.2, r.3))
}

/// The row of a rule.
pub open spec fn rule_row(r: PreviewRule) -> RowView {
    (r.ext@, r.enabled, view_indices_of(r.view).0, view_indices_of(r.view).1)
}

/// The rows of the rules, in the rules' order.
pub open spec fn rule_rows(rules: Seq<PreviewRule>) -> Seq<RowView> {
    rules.map_values(|r: PreviewRule| rule_row(r))
}

/// `x` placed into `s` before the first row whose extension comes strictly after its own.
pub open spec fn insert_row(s: Seq<RowView>, x: RowView) -> Seq<RowView>
    decreases s.len(),
{
    if s.len() == 0 {
        seq![x]
    } else if lex_lt(x.0, s[0].0) {
        seq![x] + s
    } else {
        seq![s[0]] + insert_row(s.skip(1), x)
    }
}

/// The rows sorted by extension, keeping the order of rows with the same extension (what a
/// stable sort by the extension's text gives).
pub open spec fn sort_rows(s: Seq<RowView>) -> Seq<RowView>
    decreases s.len(),
{
    if s.len() == 0 {
        Seq::empty()
    } else {
        insert_row(sort_rows(s.drop_last()), s.last())
    }
}

/// No row's extension comes strictly before that of a row above it.
pub open spec fn sorted_by_ext(s: Seq<RowView>) -> bool {
    forall|i: int, j: int| 0 <= i < j < s.len() ==> !lex_lt(#[trigger] s[j].0, #[trigger] s[i].0)
}

fn insert_row_exec(out: &mut Vec<(String, bool, i32, i32)>, x: (String, bool, i32, i32))
    ensures
        row_views(final(out)@) == insert_row(row_views(old(out)@), (x.0@, x.1, x.2, x.3)),
{
    let ghost v = row_views(out@);
    let ghost xv: RowView = (x.0@, x.1, x.2, x.3);
    let mut p: usize = 0;
    assert(v.skip(0) =~= v);
    assert(v.take(0) + insert_row(v.skip(0), xv) =~= insert_row(v, xv));
    while p < out.len() && !text_lt(x.0.as_str(), out[p].0.as_str())
        invariant
            p <= out.len(),
            out@.len() == v.len(),
            v == row_views(out@),
            xv == (x.0@, x.1, x.2, x.3),
            insert_row(v, xv) == v.take(p as int) + insert_row(v.skip(p as int), xv),
        decreases out.len() - p,
    {
        assert(v.skip(p as int)[0] == v[p as int]);
        assert(v.skip(p as int).skip(1) =~= v.skip(p + 1));
        assert(v.take(p as int) + (seq![v[p as int]] + insert_row(v.skip(p + 1), xv)) =~= v.take(p + 1) + insert_row(
            v.skip(p + 1),
            xv,
        ));
        p = p + 1;
    }
    proof {
        if p < v.len() {
            assert(v.skip(p as int)[0] == v[p as int]);
        }
    }
    out.insert(p, x);
    assert(row_views(out@) =~= v.take(p as int) + insert_row(v.skip(p as int), xv));
}

/// The rules as the settings list shows them, sorted by extension (`preview_rules`): the
/// handlers find a rule by its extension, so the order of the rows does not matter to them.
pub fn preview_rule_rows(rules: &Vec<PreviewRule>) -> (r: Vec<(String, bool, i32, i32)>)
    requires
        forall|k: int| 0 <= k < rules@.len() ==> ((#[trigger] rules@[k]).view matches ViewMode::Code(l) ==> l <= i32::MAX),
    ensures
        row_views(r@) == sort_rows(rule_rows(rules@)),
{
    let mut out: Vec<(String, bool, i32, i32)> = Vec::new();
    let mut i: usize = 0;
    while i < rules.len()
        invariant
            i <= rules.len(),
            forall|k: int| 0 <= k < rules@.len() ==> ((#[trigger] rules@[k]).view matches ViewMode::Code(l) ==> l <= i32::MAX),
            row_views(out@) == sort_rows(rule_rows(rules@.take(i as int))),
        decreases rules.len() - i,
    {
        let row = rules[i].row();
        insert_row_exec(&mut out, row);
        proof {
            let t = rule_rows(rules@.take(i + 1));
            assert(t.drop_last() =~= rule_rows(rules@.take(i as int)));
            assert(t.last() == rule_row(rules@[i as int]));
        }
        i = i + 1;
    }
    assert(rules@.take(rules.len() as int) == rules@);
    out
}

proof fn lemma_insert_row_content(s: Seq<RowView>, x: RowView)
    ensures
        insert_row(s, x).to_multiset() =~= s.to_multiset().insert(x),
    decreases s.len(),
{
    broadcast use vstd::seq_lib::group_to_multiset_ensures;

    if s.len() > 0 {
        if lex_lt(x.0, s[0].0) {
            assert(seq![x] + s =~= s.insert(0, x));
            vstd::seq_lib::lemma_seq_union_to_multiset_commutative(seq![x], s);
            vstd::seq_lib::lemma_multiset_commutative(seq![x], s);
        } else {
            lemma_insert_row_content(s.skip(1), x);
            vstd::seq_lib::lemma_multiset_commutative(seq![s[0]], insert_row(s.skip(1), x));
            vstd::seq_lib::lemma_multiset_commutative(seq![s[0]], s.skip(1));
            assert(seq![s[0]] + s.skip(1) =~= s);
        }
    }
}

proof fn lemma_insert_row_sorted(s: Seq<RowView>, x: RowView)
    requires
        sorted_by_ext(s),
    ensures
        sorted_by_ext(insert_row(s, x)),
    decreases s.len(),
{
    broadcast use vstd::seq_lib::group_to_multiset_ensures;

    if s.len() > 0 {
        if lex_lt(x.0, s[0].0) {
            let r = seq![x] + s;
            assert forall|i: int, j: int| 0 <= i < j < r.len() implies !lex_lt(#[trigger] r[j].0, #[trigger] r[i].0) by {
                if i == 0 {
                    assert(r[j] == s[j - 1]);
                    if lex_lt(s[j - 1].0, x.0) {
                        lemma_lex_transitive(s[j - 1].0, x.0, s[0].0);
                        if j - 1 == 0 {
                            lemma_lex_irreflexive(s[0].0);
                        }
                    }
                } else {
                    assert(r[i] == s[i - 1] && r[j] == s[j - 1]);
                }
            }
        } else {
            let t = s.skip(1);
            assert(sorted_by_ext(t)) by {
                assert forall|i: int, j: int| 0 <= i < j < t.len() implies !lex_lt(#[trigger] t[j].0, #[trigger] t[i].0) by {
                    assert(t[i] == s[i + 1] && t[j] == s[j + 1]);
                }
            }
            lemma_insert_row_sorted(t, x);
            lemma_insert_row_content(t, x);
            let tail = insert_row(t, x);
            let r = seq![s[0]] + tail;
            assert forall|i: int, j: int| 0 <= i < j < r.len() implies !lex_lt(#[trigger] r[j].0, #[trigger] r[i].0) by {
                if i == 0 {
                    let e = tail[j - 1];
                    assert(r[j] == e);
                    assert(tail.to_multiset().count(e) > 0);
                    assert(t.to_multiset().insert(x).count(e) > 0);
                    if e != x {
                        assert(t.to_multiset().count(e) > 0);
                        assert(t.contains(e));
                        let k = choose|k: int| 0 <= k < t.len() && t[k] == e;
                        assert(s[k + 1] == e);
                    }
                } else {
                    assert(r[i] == tail[i - 1] && r[j] == tail[j - 1]);
                }
            }
        }
    }
}

/// The settings list of the preview rules is sorted by extension, and holds exactly the rows
/// of the rules (each as many times as it occurs).
pub proof fn lemma_rule_rows_sorted(rows: Seq<RowView>)
    ensures
        sorted_by_ext(sort_rows(rows)),
        sort_rows(rows).to_multiset() == rows.to_multiset(),
    decreases rows.len(),
{
    broadcast use vstd::seq_lib::group_to_multiset_ensures;

    if rows.len() > 0 {
        lemma_rule_rows_sorted(rows.drop_last());
        lemma_insert_row_sorted(sort_rows(rows.drop_last()), rows.last());
        lemma_insert_row_content(sort_rows(rows.drop_last()), rows.last());
        assert(rows.drop_last().push(rows.last()) =~= rows);
    }
}

} // verus!
