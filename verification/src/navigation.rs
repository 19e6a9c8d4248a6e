//! Navigation inside a file pane: double-click detection, rubber-band selection, the
//! back/forward history menus, typeahead and the jump to the next match of the visual filter.
use vstd::prelude::*;
use crate::text::string_of;

verus! {

/// Two clicks on the same row at most this many milliseconds apart are a double click.
pub const DOUBLE_CLICK_MS: u64 = 700;

/// After something was opened, clicks within this many milliseconds do not open again.
pub const REOPEN_GUARD_MS: u64 = 500;

/// Keys typed at most this many milliseconds apart extend the typeahead text; a longer
/// pause starts a new one.
pub const TYPEAHEAD_PAUSE_MS: u64 = 500;

/// Milliseconds from `since` to `now`; zero when `now` is earlier.
pub open spec fn elapsed(now: u64, since: u64) -> int {
    if now >= since {
        now - since
    } else {
        0
    }
}

fn elapsed_ms(now: u64, since: u64) -> (r: u64)
    ensures
        r == elapsed(now, since),
{
    if now >= since {
        now - since
    } else {
        0
    }
}

/// Tracks clicks on rows to detect double clicks (for renderers whose own double-click event
/// may not arrive).
#[derive(Clone, Copy, Debug, PartialEq, Eq)]
pub struct ClickTracker {
    /// The last single click: pane, row, when.
    pub last_click: Option<(u64, usize, u64)>,
    /// When something was last opened by a double click.
    pub last_open: Option<u64>,
}

/// Something was opened by a double click shortly before `now`.
pub open spec fn opened_recently(last_open: Option<u64>, now: u64) -> bool {
    match last_open {
        Some(t) => elapsed(now, t) <= REOPEN_GUARD_MS,
        None => false,
    }
}

/// A click on row `pos` of pane `pane` at `now` completes a double click: it repeats the last
/// click on the same row soon enough, and nothing was opened just before.
pub open spec fn is_double(t: ClickTracker, pane: u64, pos: usize, now: u64) -> bool {
    &&& !opened_recently(t.last_open, now)
    &&& t.last_click matches Some((p, r, at)) && p == pane && r == pos && elapsed(now, at) <= DOUBLE_CLICK_MS
}

impl ClickTracker {
    /// No click seen yet.
    pub fn new() -> (r: Self)
        ensures
            r.last_click is None,
            r.last_open is None,
    {
        ClickTracker { last_click: None, last_open: None }
    }

    /// A click on row `pos` of pane `pane` at `now`. Returns whether it completes a double
    /// click (then the row is opened); a double click forgets the click, so that a third click
    /// does not open again.
    pub fn click(&mut self, pane: u64, pos: usize, now: u64) -> (double: bool)
        ensures
            double == is_double(*old(self), pane, pos, now),
            double ==> final(self).last_click is None && final(self).last_open == Some(now),
            !double ==> final(self).last_click == Some((pane, pos, now)) && final(self).last_open
                == old(self).last_open,
    {
        let recent = match self.last_open {
            Some(t) => elapsed_ms(now, t) <= REOPEN_GUARD_MS,
            None => false,
        };
        let repeat = match self.last_click {
            Some((p, r, at)) => p == pane && r == pos && elapsed_ms(now, at) <= DOUBLE_CLICK_MS,
            None => false,
        };
        if !recent && repeat {
            self.last_click = None;
            self.last_open = Some(now);
            true
        } else {
            self.last_click = Some((pane, pos, now));
            false
        }
    }

    /// The native double-click event at `now`: it opens unless the click detector already
    /// opened in this same gesture.
    pub fn native_double_click(&mut self, now: u64) -> (opens: bool)
        ensures
            opens == !opened_recently(old(self).last_open, now),
            opens ==> final(self).last_click is None && final(self).last_open == Some(now),
            !opens ==> *final(self) == *old(self),
    {
        let recent = match self.last_open {
            Some(t) => elapsed_ms(now, t) <= REOPEN_GUARD_MS,
            None => false,
        };
        if recent {
            return false;
        }
        self.last_open = Some(now);
        self.last_click = None;
        true
    }
}

/// The state after a click (see `ClickTracker::click`).
pub open spec fn after_click(t: ClickTracker, pane: u64, pos: usize, now: u64) -> ClickTracker {
    if is_double(t, pane, pos, now) {
        ClickTracker { last_click: None, last_open: Some(now) }
    } else {
        ClickTracker { last_click: Some((pane, pos, now)), last_open: t.last_open }
    }
}

/// After a single click, a second click on the same row, close enough and not right after an
/// opening, opens it; a third click soon after opens nothing (one gesture never navigates
/// twice); a click on another row never completes a double click.
pub proof fn lemma_double_click(t: ClickTracker, pane: u64, pos: usize, t1: u64, t2: u64, t3: u64)
    requires
        !is_double(t, pane, pos, t1),
        t1 <= t2 <= t3,
        t2 - t1 <= DOUBLE_CLICK_MS,
        t3 - t2 <= REOPEN_GUARD_MS,
        !opened_recently(t.last_open, t2),
    ensures
        is_double(after_click(t, pane, pos, t1), pane, pos, t2),
        !is_double(after_click(after_click(t, pane, pos, t1), pane, pos, t2), pane, pos, t3),
        forall|other: usize| other != pos ==> !is_double(after_click(t, pane, pos, t1), pane, other, t2),
{
}

/// The inclusive range of view positions a rubber-band drag from `from_pos` to `to_pos` covers
/// in a view of `len` rows, clamped to the view; `None` for an empty view.
pub fn rect_range(from_pos: i32, to_pos: i32, len: usize) -> (r: Option<(usize, usize)>)
    requires
        len <= i32::MAX,
    ensures
        len == 0 ==> r is None,
        len > 0 ==> (r matches Some((lo, hi)) && {
            let a = if from_pos < to_pos { from_pos as int } else { to_pos as int };
            let b = if from_pos < to_pos { to_pos as int } else { from_pos as int };
            &&& lo == (if a < 0 { 0 } else if a > len - 1 { len - 1 } else { a })
            &&& hi == (if b < 0 { 0 } else if b > len - 1 { len - 1 } else { b })
            &&& lo <= hi < len
        }),
{
    if len == 0 {
        return None;
    }
    let last: i32 = (len - 1) as i32;
    let a = if from_pos < to_pos { from_pos } else { to_pos };
    let b = if from_pos < to_pos { to_pos } else { from_pos };
    let lo: i32 = if a < 0 { 0 } else if a > last { last } else { a };
    let hi: i32 = if b < 0 { 0 } else if b > last { last } else { b };
    Some((lo as usize, hi as usize))
}

/// The stack position of entry `menu_index` of the "back" menu (0 = the nearest): entry `i`
/// is at `cursor - 1 - i`; `None` without a cursor or past the oldest entry.
pub fn stack_index_back(cursor: Option<usize>, menu_index: usize) -> (r: Option<usize>)
    ensures
        r == (match cursor {
            Some(c) => if c >= 1 + menu_index {
                Some((c - 1 - menu_index) as usize)
            } else {
                None
            },
            None => None,
        }),
{
    match cursor {
        Some(c) => if c >= 1 && c - 1 >= menu_index {
            Some(c - 1 - menu_index)
        } else {
            None
        },
        None => None,
    }
}

/// The stack position of entry `menu_index` of the "forward" menu (0 = the nearest): entry
/// `i` is at `cursor + 1 + i`; `None` without a cursor or past the newest entry.
pub fn stack_index_forward(stack_len: usize, cursor: Option<usize>, menu_index: usize) -> (r: Option<usize>)
    requires
        cursor matches Some(c) ==> c + 1 + menu_index <= usize::MAX,
    ensures
        r == (match cursor {
            Some(c) => if c + 1 + menu_index < stack_len {
                Some((c + 1 + menu_index) as usize)
            } else {
                None
            },
            None => None,
        }),
{
    match cursor {
        Some(c) => {
            let idx = c + 1 + menu_index;
            if idx < stack_len {
                Some(idx)
            } else {
                None
            }
        },
        None => None,
    }
}

/// The history menus point into the stack on the right side of the cursor: back entries are
/// older than the cursor, forward entries newer, both inside the stack, and distinct entries
/// of a menu are distinct positions.
pub proof fn lemma_history_menus(stack_len: nat, cursor: nat, i: nat, j: nat)
    requires
        cursor < stack_len,
    ensures
        cursor >= 1 + i ==> 0 <= cursor - 1 - i < cursor,
        cursor + 1 + i < stack_len ==> cursor < cursor + 1 + i < stack_len,
        i != j && cursor >= 1 + i && cursor >= 1 + j ==> cursor - 1 - i != cursor - 1 - j,
        i != j ==> cursor + 1 + i != cursor + 1 + j,
{
}

/// Whether `c` is a control character (Unicode category Cc).
pub open spec fn is_control(c: char) -> bool {
    (c as u32) <= 0x1f || (0x7f <= (c as u32) && (c as u32) <= 0x9f)
}

/// The typeahead text and when its last key came.
#[derive(Clone, Debug, PartialEq, Eq)]
pub struct Typeahead {
    pub text: String,
    pub at: Option<u64>,
}

/// The typeahead text after key `ch` at `now`: it starts over after a pause, and grows by the
/// key otherwise.
pub open spec fn typed_after(text: Seq<char>, at: Option<u64>, ch: char, now: u64) -> Seq<char> {
    let kept = match at {
        Some(t) => if elapsed(now, t) > TYPEAHEAD_PAUSE_MS {
            Seq::<char>::empty()
        } else {
            text
        },
        None => text,
    };
    kept.push(ch)
}

impl Typeahead {
    /// Nothing typed.
    pub fn new() -> (r: Self)
        ensures
            r.text@.len() == 0,
            r.at is None,
    {
        Typeahead { text: String::new(), at: None }
    }

    /// A typed key at `now`. A control character is refused (returns false, nothing
    /// changes); any other key extends the text (see `typed_after`).
    pub fn key(&mut self, ch: char, now: u64) -> (accepted: bool)
        ensures
            accepted == !is_control(ch),
            accepted ==> final(self).text@ == typed_after(old(self).text@, old(self).at, ch, now)
                && final(self).at == Some(now),
            !accepted ==> *final(self) == *old(self),
    {
        let code = ch as u32;
        if code <= 0x1f || (0x7f <= code && code <= 0x9f) {
            return false;
        }
        let restart = match self.at {
            Some(t) => elapsed_ms(now, t) > TYPEAHEAD_PAUSE_MS,
            None => false,
        };
        let mut cs: Vec<char> = Vec::new();
        if !restart {
            cs = crate::text::chars_of(self.text.as_str());
        }
        cs.push(ch);
        self.text = string_of(&cs);
        self.at = Some(now);
        true
    }

    /// Clears the text (Esc or navigation).
    pub fn clear(&mut self)
        ensures
            final(self).text@.len() == 0,
            final(self).at is None,
    {
        self.text = String::new();
        self.at = None;
    }
}

/// Keys typed without a pause build one text; a key after a pause starts a new one.
pub proof fn lemma_typeahead_groups_keys(text: Seq<char>, at: Option<u64>, c1: char, t1: u64, c2: char, t2: u64)
    requires
        t1 <= t2,
    ensures
        t2 - t1 <= TYPEAHEAD_PAUSE_MS ==> typed_after(typed_after(text, at, c1, t1), Some(t1), c2, t2)
            == typed_after(text, at, c1, t1).push(c2),
        t2 - t1 > TYPEAHEAD_PAUSE_MS ==> typed_after(typed_after(text, at, c1, t1), Some(t1), c2, t2)
            == seq![c2],
{
    assert(Seq::<char>::empty().push(c2) =~= seq![c2]);
}

/// The first position of the view whose row matches (where typeahead moves the focus).
pub fn first_match(matches: &Vec<bool>) -> (r: Option<usize>)
    ensures
        match r {
            Some(p) => p < matches@.len() && matches@[p as int] && forall|q: int| 0 <= q < p ==> !matches@[q],
            None => forall|q: int| 0 <= q < matches@.len() ==> !matches@[q],
        },
{
    let mut i: usize = 0;
    while i < matches.len()
        invariant
            i <= matches.len(),
            forall|q: int| 0 <= q < i ==> !matches@[q],
        decreases matches.len() - i,
    {
        if matches[i] {
            return Some(i);
        }
        i = i + 1;
    }
    None
}

/// Where the walk for the next match starts: the focused row, or just outside the view on the
/// side the walk comes from.
pub open spec fn walk_start(focused: Option<usize>, n: int, dir: int) -> int {
    match focused {
        Some(p) => p as int,
        None => if dir > 0 { -1 } else { n },
    }
}

/// The `k`-th position of the wrap-around walk from `start` in steps of `dir`.
pub open spec fn walk_pos(start: int, dir: int, k: int, n: int) -> int {
    (start + k * dir) % n
}

/// `x` modulo `n` (the non-negative remainder).
fn euclid_mod(x: i64, n: u64) -> (r: u64)
    requires
        0 < n,
        x > i64::MIN,
    ensures
        r == (x as int) % (n as int),
        r < n,
{
    if x >= 0 {
        (x as u64) % n
    } else {
        let m: u64 = (-x) as u64;
        let rr: u64 = m % n;
        proof {
            let q = (m as int) / (n as int);
            vstd::arithmetic::div_mod::lemma_fundamental_div_mod(m as int, n as int);
            assert(m as int == (n as int) * q + rr);
            if rr == 0 {
                assert(x as int == (-q) * (n as int) + 0) by (nonlinear_arith)
                    requires
                        x == -(m as int),
                        m as int == (n as int) * q + 0,
                ;
                vstd::arithmetic::div_mod::lemma_fundamental_div_mod_converse(x as int, n as int, -q, 0);
            } else {
                assert(x as int == (-q - 1) * (n as int) + (n - rr)) by (nonlinear_arith)
                    requires
                        x == -(m as int),
                        m as int == (n as int) * q + rr,
                ;
                vstd::arithmetic::div_mod::lemma_fundamental_div_mod_converse(
                    x as int,
                    n as int,
                    -q - 1,
                    n - rr,
                );
            }
        }
        if rr == 0 {
            0
        } else {
            n - rr
        }
    }
}

proof fn lemma_walk_step(start: int, d: int, k: int, n: int)
    requires
        0 < n,
        0 <= k,
    ensures
        walk_pos(start, d, k + 1, n) == (walk_pos(start, d, k, n) + d % n) % n,
        0 <= walk_pos(start, d, k, n) < n,
{
    assert(start + (k + 1) * d == (start + k * d) + d) by (nonlinear_arith);
    vstd::arithmetic::div_mod::lemma_add_mod_noop(start + k * d, d, n);
    vstd::arithmetic::div_mod::lemma_mod_twice(start + k * d, n);
    vstd::arithmetic::div_mod::lemma_add_mod_noop(walk_pos(start, d, k, n), d, n);
    vstd::arithmetic::div_mod::lemma_mod_twice(d, n);
    vstd::arithmetic::div_mod::lemma_add_mod_noop_right(walk_pos(start, d, k, n), d, n);
}

/// The next match of the visual filter from the focused row in direction `dir` (wrapping
/// around the view): the first matching position of the walk, within `n` steps (so the
/// focused row itself comes last); `None` when the walk finds none.
pub fn next_match(matches: &Vec<bool>, focused: Option<usize>, dir: i32) -> (r: Option<usize>)
    requires
        matches@.len() <= i32::MAX,
        focused matches Some(p) ==> p < matches@.len(),
    ensures
        ({
            let n = matches@.len() as int;
            let start = walk_start(focused, n, dir as int);
            match r {
                Some(p) => exists|k: int|
                    1 <= k <= n && #[trigger] walk_pos(start, dir as int, k, n) == p && matches@[p as int]
                        && forall|j: int|
                        1 <= j < k ==> !matches@[#[trigger] walk_pos(start, dir as int, j, n)],
                None => forall|k: int|
                    1 <= k <= n ==> !matches@[#[trigger] walk_pos(start, dir as int, k, n)],
            }
        }),
{
    let n: u64 = matches.len() as u64;
    if n == 0 {
        return None;
    }
    let start: i64 = match focused {
        Some(p) => p as i64,
        None => if dir > 0 {
            -1
        } else {
            n as i64
        },
    };
    let dm: u64 = euclid_mod(dir as i64, n);
    let mut pos: u64 = euclid_mod(start, n);
    proof {
        assert(walk_pos(start as int, dir as int, 0, n as int) == (start as int) % (n as int));
    }
    let mut k: u64 = 0;
    while k < n
        invariant
            n == matches@.len(),
            0 < n <= i32::MAX,
            k <= n,
            start == walk_start(focused, n as int, dir as int),
            dm == (dir as int) % (n as int),
            dm < n,
            pos == walk_pos(start as int, dir as int, k as int, n as int),
            pos < n,
            forall|j: int| 1 <= j <= k ==> !matches@[#[trigger] walk_pos(start as int, dir as int, j, n as int)],
        decreases n - k,
    {
        proof {
            lemma_walk_step(start as int, dir as int, k as int, n as int);
        }
        pos = (pos + dm) % n;
        k = k + 1;
        if matches[pos as usize] {
            return Some(pos as usize);
        }
    }
    None
}

/// What opening a row (double click, Enter) does.
#[derive(Clone, Copy, Debug, PartialEq, Eq)]
pub enum OpenStep {
    /// No row at that position: nothing.
    Nothing,
    /// Ctrl held on a folder: open it in another pane (the origin does not navigate).
    OpenInOtherPane,
    /// A folder: navigate into it (leaving any deep view, remembering it as recent).
    Navigate,
    /// A file: open it with its default program.
    OpenDefault,
}

/// What opening the row does, given whether it is a folder (`None` when there is no row at
/// the position) and whether Ctrl is held.
pub fn open_step(is_dir: Option<bool>, ctrl_down: bool) -> (r: OpenStep)
    ensures
        r == (match is_dir {
            None => OpenStep::Nothing,
            Some(true) => if ctrl_down { OpenStep::OpenInOtherPane } else { OpenStep::Navigate },
            Some(false) => OpenStep::OpenDefault,
        }),
{
    match is_dir {
        None => OpenStep::Nothing,
        Some(true) => if ctrl_down { OpenStep::OpenInOtherPane } else { OpenStep::Navigate },
        Some(false) => OpenStep::OpenDefault,
    }
}

/// The row the chained rename (Tab / Shift+Tab in the rename editor) moves to from view
/// position `current` in direction `dir`, kept inside the `count` rows of the view; none for
/// an empty view.
pub open spec fn rename_next_spec(current: int, dir: int, count: int) -> Option<int> {
    if count == 0 {
        None
    } else {
        let t = current + dir;
        Some(if t < 0 { 0 } else if t > count - 1 { count - 1 } else { t })
    }
}

/// The row the chained rename moves to (see `rename_next_spec`).
pub fn rename_chain_next(current: usize, dir: i32, count: usize) -> (r: Option<usize>)
    ensures
        match rename_next_spec(current as int, dir as int, count as int) {
            Some(n) => r == Some(n as usize),
            None => r is None,
        },
{
    if count == 0 {
        return None;
    }
    let last = count - 1;
    if dir < 0 {
        let back = (0 - (dir as i64)) as usize;
        if back > current {
            Some(0)
        } else if current - back > last {
            Some(last)
        } else {
            Some(current - back)
        }
    } else {
        let ahead = dir as usize;
        if current >= last || ahead > last - current {
            Some(last)
        } else {
            Some(current + ahead)
        }
    }
}

/// The detail line of a search result: its size (for files) and its date, when there are
/// any, joined by " · ".
pub open spec fn search_detail_spec(size: Option<Seq<char>>, date: Seq<char>) -> Seq<char> {
    match size {
        Some(s) => if date.len() > 0 { s + " · "@ + date } else { s },
        None => date,
    }
}

/// The detail line of a search result (see `search_detail_spec`).
pub fn search_detail(size: Option<&str>, date: &str) -> (r: String)
    ensures
        r@ == search_detail_spec(match size {
            Some(s) => Some(s@),
            None => None,
        }, date@),
{
    let mut out: Vec<char> = Vec::new();
    if let Some(s) = size {
        crate::text::append_chars(&mut out, s);
        if !date.is_empty() {
            proof {
                reveal_strlit(" · ");
            }
            crate::text::append_chars(&mut out, " · ");
            crate::text::append_chars(&mut out, date);
        }
    } else {
        crate::text::append_chars(&mut out, date);
    }
    string_of(&out)
}

/// How a single click changes the selection of a file pane.
#[derive(Clone, Copy, Debug, PartialEq, Eq)]
pub enum ClickSelect {
    /// Shift: select the range from the anchor to the row.
    Range,
    /// Ctrl: toggle the row.
    Toggle,
    /// Plain click: select the row alone.
    Single,
}

/// How a single click selects: Shift extends a range, Ctrl toggles, else the row alone.
pub fn click_select(shift: bool, ctrl: bool) -> (r: ClickSelect)
    ensures
        r == (if shift {
            ClickSelect::Range
        } else if ctrl {
            ClickSelect::Toggle
        } else {
            ClickSelect::Single
        }),
{
    if shift {
        ClickSelect::Range
    } else if ctrl {
        ClickSelect::Toggle
    } else {
        ClickSelect::Single
    }
}

} // verus!
