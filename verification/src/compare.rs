//! Comparing the folders of two panes: entries are matched by name ignoring case; an entry
//! only on one side is marked there, an entry that differs (kind, or size and date for files)
//! is marked on both sides.
use vstd::prelude::*;

verus! {

/// The mark of an entry present on both sides that differs.
pub const MARK_CHANGED: u8 = 1;

/// The mark of an entry present on one side only.
pub const MARK_ONLY_HERE: u8 = 2;

/// What `str::to_lowercase` gives for a text (Unicode lower-case mapping).
pub uninterp spec fn lowercase_of(s: Seq<char>) -> Seq<char>;

/// `str::to_lowercase`: the text with every character mapped to lower case by Unicode's
/// rules. The result is named `lowercase_of`; the mapping itself is not written out here.
#[verifier::external_body]
pub(crate) fn lowercase(s: &str) -> (r: String)
    ensures
        r@ == lowercase_of(s@),
{
    s.to_lowercase()
}

/// An entry of one side as the comparison sees it.
#[derive(Clone, Debug, PartialEq, Eq)]
pub struct CompareItem {
    /// The name lower-cased: entries with the same key are the same entry.
    pub key: String,
    pub path: String,
    pub is_dir: bool,
    pub size: Option<u64>,
    /// The modification time (seconds and nanoseconds from the UNIX epoch).
    pub modified: Option<(i64, u32)>,
}

impl CompareItem {
    /// The entry named `name` at `path`, keyed by its lower-cased name.
    pub fn new(name: &str, path: String, is_dir: bool, size: Option<u64>, modified: Option<(i64, u32)>) -> (r: Self)
        ensures
            r.key@ == lowercase_of(name@),
            r.path == path,
            r.is_dir == is_dir,
            r.size == size,
            r.modified == modified,
    {
        CompareItem { key: lowercase(name), path, is_dir, size, modified }
    }
}

/// Two matched entries differ: a folder against a file, or two files whose size or date differ.
pub open spec fn differs(a: CompareItem, b: CompareItem) -> bool {
    a.is_dir != b.is_dir || (!a.is_dir && (a.size != b.size || a.modified != b.modified))
}

/// Entry `i` is the last one of its side with its key (the one the comparison keeps).
pub open spec fn is_last(side: Seq<CompareItem>, i: int) -> bool {
    forall|j: int| i < j < side.len() ==> #[trigger] side[j].key@ != side[i].key@
}

/// The index of the last entry of `side` with key `k`, if any.
pub open spec fn last_with_key(side: Seq<CompareItem>, k: Seq<char>) -> Option<int>
    decreases side.len(),
{
    if side.len() == 0 {
        None
    } else if side.last().key@ == k {
        Some(side.len() - 1)
    } else {
        last_with_key(side.drop_last(), k)
    }
}

/// The mark of the kept entry `i` of `mine` against the other side.
pub open spec fn mark_of(mine: Seq<CompareItem>, other: Seq<CompareItem>, i: int) -> Option<u8> {
    match last_with_key(other, mine[i].key@) {
        None => Some(MARK_ONLY_HERE),
        Some(j) => if differs(mine[i], other[j]) {
            Some(MARK_CHANGED)
        } else {
            None
        },
    }
}

/// The marks of the entries of `mine[..n]` against `other`, in order: (path, mark) for each
/// kept entry that is only on this side or differs.
pub open spec fn marks_upto(mine: Seq<CompareItem>, other: Seq<CompareItem>, n: int) -> Seq<(Seq<char>, u8)>
    decreases n,
{
    if n <= 0 {
        Seq::empty()
    } else {
        let rest = marks_upto(mine, other, n - 1);
        let i = n - 1;
        if is_last(mine, i) && mark_of(mine, other, i) is Some {
            rest.push((mine[i].path@, mark_of(mine, other, i)->0))
        } else {
            rest
        }
    }
}

/// The marks of the entries of `mine` against `other`.
pub open spec fn marks(mine: Seq<CompareItem>, other: Seq<CompareItem>) -> Seq<(Seq<char>, u8)> {
    marks_upto(mine, other, mine.len() as int)
}

/// The views of listed marks.
pub open spec fn mark_views(v: Seq<(String, u8)>) -> Seq<(Seq<char>, u8)> {
    v.map_values(|p: (String, u8)| (p.0@, p.1))
}

fn find_last(side: &Vec<CompareItem>, k: &String) -> (r: Option<usize>)
    ensures
        match r {
            Some(j) => last_with_key(side@, k@) == Some(j as int),
            None => last_with_key(side@, k@) is None,
        },
{
    let mut n: usize = side.len();
    assert(side@.take(n as int) == side@);
    while n > 0
        invariant
            n <= side.len(),
            last_with_key(side@, k@) == last_with_key(side@.take(n as int), k@),
        decreases n,
    {
        proof {
            let t = side@.take(n as int);
            assert(t.last() == side@[n - 1]);
            assert(t.drop_last() == side@.take(n - 1));
        }
        if side[n - 1].key == *k {
            return Some(n - 1);
        }
        n = n - 1;
    }
    None
}

fn kept(side: &Vec<CompareItem>, i: usize) -> (r: bool)
    requires
        i < side@.len(),
    ensures
        r == is_last(side@, i as int),
{
    let n = side.len();
    let mut j: usize = i + 1;
    while j < side.len()
        invariant
            i < j <= side.len(),
            forall|q: int| i < q < j ==> #[trigger] side@[q].key@ != side@[i as int].key@,
        decreases side.len() - j,
    {
        if side[j].key == side[i].key {
            return false;
        }
        j = j + 1;
    }
    true
}

fn differs_exec(a: &CompareItem, b: &CompareItem) -> (r: bool)
    ensures
        r == differs(*a, *b),
{
    let same_mod = match (a.modified, b.modified) {
        (Some((s1, n1)), Some((s2, n2))) => s1 == s2 && n1 == n2,
        (None, None) => true,
        _ => false,
    };
    a.is_dir != b.is_dir || (!a.is_dir && (a.size != b.size || !same_mod))
}

/// The marks of `mine`'s entries against `other` (see `marks`).
pub fn compare_side(mine: &Vec<CompareItem>, other: &Vec<CompareItem>) -> (r: Vec<(String, u8)>)
    ensures
        mark_views(r@) == marks(mine@, other@),
{
    let mut out: Vec<(String, u8)> = Vec::new();
    let mut i: usize = 0;
    while i < mine.len()
        invariant
            i <= mine.len(),
            mark_views(out@) == marks_upto(mine@, other@, i as int),
        decreases mine.len() - i,
    {
        if kept(mine, i) {
            proof {
                lemma_last_with_key(other@, mine@[i as int].key@);
            }
            let mark: Option<u8> = match find_last(other, &mine[i].key) {
                None => Some(MARK_ONLY_HERE),
                Some(j) => if differs_exec(&mine[i], &other[j]) {
                    Some(MARK_CHANGED)
                } else {
                    None
                },
            };
            assert(mark == mark_of(mine@, other@, i as int));
            if let Some(m) = mark {
                let ghost before = out@;
                out.push((mine[i].path.clone(), m));
                assert(mark_views(out@) =~= mark_views(before).push((mine@[i as int].path@, m)));
            }
        }
        i = i + 1;
    }
    out
}

/// Compares the folders of two panes: the marks of the left entries and of the right entries.
pub fn compare_listings(left: &Vec<CompareItem>, right: &Vec<CompareItem>) -> (r: (Vec<(String, u8)>, Vec<(String, u8)>))
    ensures
        mark_views(r.0@) == marks(left@, right@),
        mark_views(r.1@) == marks(right@, left@),
{
    (compare_side(left, right), compare_side(right, left))
}

proof fn lemma_last_with_key(side: Seq<CompareItem>, k: Seq<char>)
    ensures
        last_with_key(side, k) matches Some(j) ==> 0 <= j < side.len() && side[j].key@ == k
            && is_last(side, j),
        last_with_key(side, k) is None ==> forall|q: int| 0 <= q < side.len() ==> #[trigger] side[q].key@ != k,
    decreases side.len(),
{
    if side.len() > 0 {
        lemma_last_with_key(side.drop_last(), k);
        if side.last().key@ != k {
            assert forall|q: int| 0 <= q < side.len() - 1 implies #[trigger] side[q].key@ == side.drop_last()[q].key@ by {}
        }
    }
}

proof fn lemma_kept_is_found(side: Seq<CompareItem>, i: int)
    requires
        0 <= i < side.len(),
        is_last(side, i),
    ensures
        last_with_key(side, side[i].key@) == Some(i),
{
    lemma_last_with_key(side, side[i].key@);
    match last_with_key(side, side[i].key@) {
        Some(j) => {
            if j < i {
                assert(side[i].key@ != side[j].key@);
            } else if j > i {
                assert(side[j].key@ != side[i].key@);
            }
        },
        None => {
            assert(side[i].key@ != side[i].key@);
        },
    }
}

/// Changed marks come in pairs: a kept entry marked as changed has its match on the other side,
/// itself kept, marked as changed too.
pub proof fn lemma_changed_marks_pair(left: Seq<CompareItem>, right: Seq<CompareItem>, i: int)
    requires
        0 <= i < left.len(),
        is_last(left, i),
        mark_of(left, right, i) == Some(MARK_CHANGED),
    ensures
        last_with_key(right, left[i].key@) matches Some(j) && is_last(right, j)
            && mark_of(right, left, j) == Some(MARK_CHANGED),
{
    lemma_last_with_key(right, left[i].key@);
    let j = last_with_key(right, left[i].key@)->0;
    lemma_kept_is_found(left, i);
    assert(right[j].key@ == left[i].key@);
}

/// An entry whose name (ignoring case) is missing on the other side is marked as only here;
/// a kept entry that matches an equal entry is not marked.
pub proof fn lemma_marks_meaning(mine: Seq<CompareItem>, other: Seq<CompareItem>, i: int)
    requires
        0 <= i < mine.len(),
        is_last(mine, i),
    ensures
        last_with_key(other, mine[i].key@) is None ==> marks(mine, other).contains((mine[i].path@, MARK_ONLY_HERE)),
        (last_with_key(other, mine[i].key@) matches Some(j) && !differs(mine[i], other[j]))
            ==> mark_of(mine, other, i) is None,
{
    if last_with_key(other, mine[i].key@) is None {
        lemma_marks_contains(mine, other, i, mine.len() as int);
    }
}

/// A kept entry matched (by name, ignoring case) on the other side is listed as changed when
/// one is a folder and the other a file, or when both are files whose sizes or modification
/// times differ (an edit that keeps the size still counts); otherwise it is not marked.
pub proof fn lemma_changed_entries_marked(mine: Seq<CompareItem>, other: Seq<CompareItem>, i: int, j: int)
    requires
        0 <= i < mine.len(),
        is_last(mine, i),
        last_with_key(other, mine[i].key@) == Some(j),
    ensures
        mine[i].is_dir != other[j].is_dir ==> marks(mine, other).contains((mine[i].path@, MARK_CHANGED)),
        !mine[i].is_dir && !other[j].is_dir && (mine[i].size != other[j].size || mine[i].modified
            != other[j].modified) ==> marks(mine, other).contains((mine[i].path@, MARK_CHANGED)),
        !mine[i].is_dir && !other[j].is_dir && mine[i].modified != other[j].modified ==> mark_of(
            mine,
            other,
            i,
        ) == Some(MARK_CHANGED),
        mine[i].is_dir == other[j].is_dir && (mine[i].is_dir || (mine[i].size == other[j].size
            && mine[i].modified == other[j].modified)) ==> mark_of(mine, other, i) is None,
{
    if mark_of(mine, other, i) is Some {
        lemma_marks_contains(mine, other, i, mine.len() as int);
    }
}

proof fn lemma_marks_contains(mine: Seq<CompareItem>, other: Seq<CompareItem>, i: int, n: int)
    requires
        0 <= i < n <= mine.len(),
        is_last(mine, i),
        mark_of(mine, other, i) is Some,
    ensures
        marks_upto(mine, other, n).contains((mine[i].path@, mark_of(mine, other, i)->0)),
    decreases n,
{
    let rest = marks_upto(mine, other, n - 1);
    let e = (mine[i].path@, mark_of(mine, other, i)->0);
    if i == n - 1 {
        assert(marks_upto(mine, other, n) == rest.push(e));
        assert(marks_upto(mine, other, n)[rest.len() as int] == e);
    } else {
        lemma_marks_contains(mine, other, i, n - 1);
        let k = choose|k: int| 0 <= k < rest.len() && rest[k] == e;
        let full = marks_upto(mine, other, n);
        if is_last(mine, n - 1) && mark_of(mine, other, n - 1) is Some {
            assert(full[k] == e);
        } else {
            assert(full == rest);
        }
    }
}

/// The view positions a comparison filter selects: rows that carry a mark, of any kind when
/// `state` is 0, else of kind `state`. `view_marks[k]` is the mark of the row at view
/// position `k`, if any.
pub open spec fn marked_positions(view_marks: Seq<Option<u8>>, state: i32) -> Seq<usize>
    decreases view_marks.len(),
{
    if view_marks.len() == 0 {
        Seq::empty()
    } else {
        let k = view_marks.len() - 1;
        marked_positions(view_marks.drop_last(), state) + (match view_marks[k] {
            Some(m) => if state == 0 || m as i32 == state { seq![k as usize] } else { Seq::empty() },
            None => Seq::empty(),
        })
    }
}

/// The rows a comparison filter selects (see `marked_positions`), in view order; the first of
/// them takes the focus.
pub fn comparison_selection(view_marks: &Vec<Option<u8>>, state: i32) -> (r: Vec<usize>)
    ensures
        r@ == marked_positions(view_marks@, state),
{
    let mut out: Vec<usize> = Vec::new();
    let mut k: usize = 0;
    while k < view_marks.len()
        invariant
            k <= view_marks.len(),
            out@ == marked_positions(view_marks@.take(k as int), state),
        decreases view_marks.len() - k,
    {
        assert(view_marks@.take(k + 1).drop_last() == view_marks@.take(k as int));
        if let Some(m) = view_marks[k] {
            if state == 0 || m as i32 == state {
                out.push(k);
            }
        }
        assert(out@ =~= marked_positions(view_marks@.take(k + 1), state));
        k = k + 1;
    }
    assert(view_marks@.take(view_marks.len() as int) == view_marks@);
    out
}

/// The entries the "only differences" view hides: those without a mark, by index.
pub open spec fn unmarked_positions(marks: Seq<Option<u8>>) -> Seq<usize>
    decreases marks.len(),
{
    if marks.len() == 0 {
        Seq::empty()
    } else {
        let k = marks.len() - 1;
        unmarked_positions(marks.drop_last()) + (if marks[k] is None { seq![k as usize] } else { Seq::empty() })
    }
}

/// The entries hidden by the "only differences" view (see `unmarked_positions`).
pub fn comparison_hidden(marks: &Vec<Option<u8>>) -> (r: Vec<usize>)
    ensures
        r@ == unmarked_positions(marks@),
{
    let mut out: Vec<usize> = Vec::new();
    let mut k: usize = 0;
    while k < marks.len()
        invariant
            k <= marks.len(),
            out@ == unmarked_positions(marks@.take(k as int)),
        decreases marks.len() - k,
    {
        assert(marks@.take(k + 1).drop_last() == marks@.take(k as int));
        if marks[k].is_none() {
            out.push(k);
        }
        assert(out@ =~= unmarked_positions(marks@.take(k + 1)));
        k = k + 1;
    }
    assert(marks@.take(marks.len() as int) == marks@);
    out
}

/// The pane compared with `origin`: the other member of the compared pair, none when `origin`
/// is not in it.
pub fn comparison_partner(pair: Option<(u64, u64)>, origin: u64) -> (r: Option<u64>)
    ensures
        r == (match pair {
            Some((left, right)) => if origin == left {
                Some(right)
            } else if origin == right {
                Some(left)
            } else {
                None
            },
            None => None,
        }),
{
    match pair {
        Some((left, right)) => if origin == left {
            Some(right)
        } else if origin == right {
            Some(left)
        } else {
            None
        },
        None => None,
    }
}

/// A row selected by a comparison filter carries a mark of the kind asked for.
pub proof fn lemma_selection_carries_marks(view_marks: Seq<Option<u8>>, state: i32)
    requires
        view_marks.len() <= usize::MAX,
    ensures
        forall|j: int|
            0 <= j < marked_positions(view_marks, state).len() ==> {
                let p = #[trigger] marked_positions(view_marks, state)[j] as int;
                &&& 0 <= p < view_marks.len()
                &&& view_marks[p] matches Some(m) && (state == 0 || m as i32 == state)
            },
    decreases view_marks.len(),
{
    if view_marks.len() > 0 {
        let rest = view_marks.drop_last();
        lemma_selection_carries_marks(rest, state);
        let prev = marked_positions(rest, state);
        let cur = marked_positions(view_marks, state);
        assert forall|j: int| 0 <= j < cur.len() implies ({
            let p = #[trigger] cur[j] as int;
            &&& 0 <= p < view_marks.len()
            &&& view_marks[p] matches Some(m) && (state == 0 || m as i32 == state)
        }) by {
            if j < prev.len() {
                assert(cur[j] == prev[j]);
                let p = prev[j] as int;
                assert(rest[p] == view_marks[p]);
            } else {
                let k = view_marks.len() - 1;
                assert(cur[j] == k as usize);
            }
        }
    }
}

/// A pane of the workspace as the comparison sees it: its id and, for a file pane, its loaded
/// entries.
pub struct PaneListing {
    pub id: u64,
    pub items: Option<Vec<CompareItem>>,
}

/// The first pane, in workspace order, that is a file pane other than `active`.
pub open spec fn first_other_files(panes: Seq<PaneListing>, active: u64) -> Option<int>
    decreases panes.len(),
{
    if panes.len() == 0 {
        None
    } else {
        match first_other_files(panes.drop_last(), active) {
            Some(i) => Some(i),
            None => {
                let p = panes.last();
                if p.id != active && p.items is Some {
                    Some(panes.len() - 1)
                } else {
                    None
                }
            },
        }
    }
}

/// The position of pane `id` among the panes, the first one with that id.
pub open spec fn position_of(panes: Seq<PaneListing>, id: u64) -> Option<int>
    decreases panes.len(),
{
    if panes.len() == 0 {
        None
    } else {
        match position_of(panes.drop_last(), id) {
            Some(i) => Some(i),
            None => if panes.last().id == id {
                Some(panes.len() - 1)
            } else {
                None
            },
        }
    }
}

/// The comparison of two file panes: the compared pair (active pane first), the marks of
/// each side, whether relative navigation is linked, and a revision the interface watches.
pub struct Comparison {
    pub pair: Option<(u64, u64)>,
    pub left: Vec<(String, u8)>,
    pub right: Vec<(String, u8)>,
    pub link: bool,
    pub revision: u64,
}

/// The comparison as values: pair, the marks of each side, link, revision.
pub struct ComparisonView {
    pub pair: Option<(u64, u64)>,
    pub left: Seq<(Seq<char>, u8)>,
    pub right: Seq<(Seq<char>, u8)>,
    pub link: bool,
    pub revision: u64,
}

impl View for Comparison {
    type V = ComparisonView;

    open spec fn view(&self) -> ComparisonView {
        ComparisonView {
            pair: self.pair,
            left: mark_views(self.left@),
            right: mark_views(self.right@),
            link: self.link,
            revision: self.revision,
        }
    }
}

/// The next revision (wrapping).
pub open spec fn next_revision(r: u64) -> u64 {
    if r == u64::MAX { 0 } else { (r + 1) as u64 }
}

/// What toggling the comparison does. A running comparison is cleared (no pair, no marks,
/// link off). Otherwise, with an active file pane `active` and another file pane (the first
/// in workspace order), the two are compared: the pair is (active, other), each side gets its
/// marks (see `marks`), the link is off. Either way the revision moves on. With no active
/// file pane or no other one, nothing changes.
pub open spec fn toggled_comparison(c: ComparisonView, active: Option<u64>, panes: Seq<PaneListing>) -> Option<
    ComparisonView,
> {
    if c.pair is Some {
        Some(
            ComparisonView {
                pair: None,
                left: Seq::empty(),
                right: Seq::empty(),
                link: false,
                revision: next_revision(c.revision),
            },
        )
    } else {
        match active {
            None => None,
            Some(a) => match (position_of(panes, a), first_other_files(panes, a)) {
                (Some(ia), Some(io)) => {
                    let mine = match panes[ia].items {
                        Some(v) => v@,
                        None => Seq::empty(),
                    };
                    let theirs = panes[io].items->0@;
                    Some(
                        ComparisonView {
                            pair: Some((a, panes[io].id)),
                            left: marks(mine, theirs),
                            right: marks(theirs, mine),
                            link: false,
                            revision: next_revision(c.revision),
                        },
                    )
                },
                _ => None,
            },
        }
    }
}

fn find_other_files(panes: &Vec<PaneListing>, active: u64) -> (r: Option<usize>)
    ensures
        r is None <==> first_other_files(panes@, active) is None,
        r matches Some(i) ==> first_other_files(panes@, active) == Some(i as int) && i < panes@.len()
            && panes@[i as int].items is Some,
{
    let mut i: usize = 0;
    while i < panes.len()
        invariant
            i <= panes.len(),
            first_other_files(panes@.take(i as int), active) is None,
        decreases panes.len() - i,
    {
        assert(panes@.take(i + 1).drop_last() == panes@.take(i as int));
        if panes[i].id != active && panes[i].items.is_some() {
            proof {
                lemma_first_other_prefix(panes@, active, i as int);
            }
            return Some(i);
        }
        i = i + 1;
    }
    assert(panes@.take(panes.len() as int) == panes@);
    None
}

proof fn lemma_first_other_prefix(panes: Seq<PaneListing>, active: u64, i: int)
    requires
        0 <= i < panes.len(),
        first_other_files(panes.take(i), active) is None,
        panes[i].id != active && panes[i].items is Some,
    ensures
        first_other_files(panes, active) == Some(i),
    decreases panes.len() - i,
{
    if i + 1 == panes.len() {
        assert(panes.drop_last() == panes.take(i));
    } else {
        let shorter = panes.drop_last();
        assert(shorter.take(i) == panes.take(i));
        lemma_first_other_prefix(shorter, active, i);
    }
}

fn find_position(panes: &Vec<PaneListing>, id: u64) -> (r: Option<usize>)
    ensures
        r is None <==> position_of(panes@, id) is None,
        r matches Some(i) ==> position_of(panes@, id) == Some(i as int) && i < panes@.len(),
{
    let mut i: usize = 0;
    while i < panes.len()
        invariant
            i <= panes.len(),
            position_of(panes@.take(i as int), id) is None,
        decreases panes.len() - i,
    {
        assert(panes@.take(i + 1).drop_last() == panes@.take(i as int));
        if panes[i].id == id {
            proof {
                lemma_position_prefix(panes@, id, i as int);
            }
            return Some(i);
        }
        i = i + 1;
    }
    assert(panes@.take(panes.len() as int) == panes@);
    None
}

proof fn lemma_position_prefix(panes: Seq<PaneListing>, id: u64, i: int)
    requires
        0 <= i < panes.len(),
        position_of(panes.take(i), id) is None,
        panes[i].id == id,
    ensures
        position_of(panes, id) == Some(i),
    decreases panes.len() - i,
{
    if i + 1 == panes.len() {
        assert(panes.drop_last() == panes.take(i));
    } else {
        let shorter = panes.drop_last();
        assert(shorter.take(i) == panes.take(i));
        lemma_position_prefix(shorter, id, i);
    }
}

impl Comparison {
    /// No comparison.
    pub fn new() -> (r: Self)
        ensures
            r@ == (ComparisonView { pair: None, left: Seq::empty(), right: Seq::empty(), link: false, revision: 0 }),
    {
        let r = Comparison { pair: None, left: Vec::new(), right: Vec::new(), link: false, revision: 0 };
        assert(r@.left =~= Seq::empty());
        assert(r@.right =~= Seq::empty());
        r
    }

    /// Toggles the comparison (`toggle_compare_panels`; see `toggled_comparison`): whether
    /// something changed.
    pub fn toggle(&mut self, active: Option<u64>, panes: &Vec<PaneListing>) -> (changed: bool)
        ensures
            changed == toggled_comparison(old(self)@, active, panes@) is Some,
            match toggled_comparison(old(self)@, active, panes@) {
                Some(v) => final(self)@ == v,
                None => final(self)@ == old(self)@,
            },
    {
        let next = if self.revision == u64::MAX { 0 } else { self.revision + 1 };
        if self.pair.is_some() {
            self.pair = None;
            self.left = Vec::new();
            self.right = Vec::new();
            self.link = false;
            self.revision = next;
            assert(self@.left =~= Seq::empty());
            assert(self@.right =~= Seq::empty());
            return true;
        }
        let a = match active {
            Some(a) => a,
            None => return false,
        };
        let ia = match find_position(panes, a) {
            Some(i) => i,
            None => return false,
        };
        let io = match find_other_files(panes, a) {
            Some(i) => i,
            None => return false,
        };
        let empty: Vec<CompareItem> = Vec::new();
        let mine: &Vec<CompareItem> = match &panes[ia].items {
            Some(v) => v,
            None => &empty,
        };
        let theirs: &Vec<CompareItem> = match &panes[io].items {
            Some(v) => v,
            None => &empty,
        };
        assert(mine@ == (match panes@[ia as int].items {
            Some(v) => v@,
            None => Seq::empty(),
        }));
        assert(theirs@ == panes@[io as int].items->0@);
        let (left, right) = compare_listings(mine, theirs);
        self.pair = Some((a, panes[io].id));
        self.left = left;
        self.right = right;
        self.link = false;
        self.revision = next;
        true
    }
}

impl Comparison {
    /// Turns relative navigation of the compared pair on or off, from either member of the
    /// pair (`comparison_toggle_link`); nothing for any other pane or with no comparison.
    pub fn toggle_link(&mut self, id: u64) -> (changed: bool)
        ensures
            changed == (old(self).pair matches Some((l, r)) && (id == l || id == r)),
            final(self)@ == (if changed {
                ComparisonView { link: !old(self)@.link, ..old(self)@ }
            } else {
                old(self)@
            }),
    {
        match self.pair {
            Some((l, r)) => if id == l || id == r {
                self.link = !self.link;
                true
            } else {
                false
            },
            None => false,
        }
    }
}

/// Toggling the comparison twice, when the first toggle compared two panes, clears it again:
/// no pair, no marks, link off, as before the first toggle.
pub proof fn lemma_toggle_twice_clears(c: ComparisonView, active: Option<u64>, panes: Seq<PaneListing>, again: Option<u64>, later: Seq<PaneListing>)
    requires
        c.pair is None,
        toggled_comparison(c, active, panes) is Some,
    ensures
        ({
            let once = toggled_comparison(c, active, panes)->0;
            let twice = toggled_comparison(once, again, later)->0;
            &&& toggled_comparison(once, again, later) is Some
            &&& twice.pair is None
            &&& twice.left.len() == 0
            &&& twice.right.len() == 0
            &&& !twice.link
        }),
{
}

} // verus!
