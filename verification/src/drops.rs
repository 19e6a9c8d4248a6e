//! Dropping files on a pane: where the drop goes, copy or move, the confirmation, and the
//! summary of names the confirmation shows.
use vstd::prelude::*;
use crate::text::{char_is_ascii_alpha, chars_of, is_ascii_alpha, string_of};
use crate::textset::texts;

verus! {

/// How many names the confirmation lists before summarising the rest.
pub const DROP_NAMES_MAX_LISTED: usize = 4;

/// What lies under the cursor when files are dropped.
#[derive(Clone, Copy, Debug, PartialEq, Eq, Structural)]
pub enum DropTargetKind {
    /// The temporary basket: it keeps references, it never copies or moves.
    Basket,
    /// A file pane (its folder, or a folder row under the cursor, is the destination).
    Files,
    /// Any other pane.
    Other,
}

/// What becomes of a drop.
#[derive(Clone, Copy, Debug, PartialEq, Eq, Structural)]
pub enum DropRoute {
    /// Nothing: no paths, no pane under the cursor, or not a file pane.
    Ignore,
    /// The paths are added to the basket.
    AddToBasket,
    /// Refused: the destination is one of the sources or inside one, or every source already
    /// lives in the destination.
    Refuse,
    /// A copy or move is prepared (and confirmed or started).
    Prepare,
}

/// The route of a drop: `target` is the pane under the cursor, `dest_inside_source` whether
/// the destination folder is one of the dropped folders or below one, `all_from_dest` whether
/// every dropped path already lives in the destination.
pub fn drop_route(
    has_paths: bool,
    target: Option<DropTargetKind>,
    dest_inside_source: bool,
    all_from_dest: bool,
) -> (r: DropRoute)
    ensures
        r == (if !has_paths || target is None {
            DropRoute::Ignore
        } else if target == Some(DropTargetKind::Basket) {
            DropRoute::AddToBasket
        } else if target == Some(DropTargetKind::Other) {
            DropRoute::Ignore
        } else if dest_inside_source || all_from_dest {
            DropRoute::Refuse
        } else {
            DropRoute::Prepare
        }),
{
    if !has_paths {
        return DropRoute::Ignore;
    }
    match target {
        None => DropRoute::Ignore,
        Some(DropTargetKind::Basket) => DropRoute::AddToBasket,
        Some(DropTargetKind::Other) => DropRoute::Ignore,
        Some(DropTargetKind::Files) => {
            if dest_inside_source || all_from_dest {
                DropRoute::Refuse
            } else {
                DropRoute::Prepare
            }
        },
    }
}

/// Whether a drop moves (else copies): Shift held moves, Ctrl held copies, otherwise the files
/// move within one drive and are copied across drives.
pub fn decide_drop(move_hint: bool, copy_forced: bool, same_drive: bool) -> (is_move: bool)
    ensures
        is_move == (move_hint || (!copy_forced && same_drive)),
{
    if move_hint {
        true
    } else if copy_forced {
        false
    } else {
        same_drive
    }
}

/// Whether a prepared drop asks for confirmation first: when the setting asks for it and the
/// drop collides with nothing (a collision opens the conflict dialog, which already confirms).
pub fn confirm_before_drop(setting: bool, collides: bool) -> (r: bool)
    ensures
        r == (setting && !collides),
{
    setting && !collides
}

/// What a prepared drop between panes does.
pub enum DropOutcome {
    /// Wait for the user to confirm (the dialog names the files).
    Confirm(PendingDrop),
    /// Start the copy or move at once; a name collision is then asked by the operation itself.
    Start { paths: Vec<String>, dest_dir: String, dest_pane: u64, is_move: bool },
}

/// What a prepared drop of `paths` into `dest_dir` (of pane `dest_pane`) does, once it is
/// known whether it moves and whether the transfer would collide with an existing name: it
/// waits for confirmation exactly when the setting asks for it and nothing collides (see
/// `confirm_before_drop`); otherwise the transfer starts at once.
pub fn plan_drop(
    paths: Vec<String>,
    dest_dir: String,
    dest_pane: u64,
    is_move: bool,
    confirm_setting: bool,
    collides: bool,
) -> (r: DropOutcome)
    ensures
        r is Confirm <==> (confirm_setting && !collides),
        r matches DropOutcome::Confirm(pd) ==> pd.paths == paths && pd.dest_dir == dest_dir
            && pd.dest_pane == dest_pane && pd.is_move == is_move && pd.count == paths@.len(),
        r matches DropOutcome::Start { paths: p, dest_dir: d, dest_pane: dp, is_move: m } ==> p == paths
            && d == dest_dir && dp == dest_pane && m == is_move,
{
    if confirm_before_drop(confirm_setting, collides) {
        DropOutcome::Confirm(PendingDrop::new(paths, dest_dir, dest_pane, is_move))
    } else {
        DropOutcome::Start { paths, dest_dir, dest_pane, is_move }
    }
}

/// A drop between panes, validated and waiting for the user to confirm the copy or move.
#[derive(Clone, Debug, PartialEq, Eq)]
pub struct PendingDrop {
    /// The dropped paths.
    pub paths: Vec<String>,
    /// The destination folder.
    pub dest_dir: String,
    /// The pane under the cursor, activated on confirmation.
    pub dest_pane: u64,
    /// Move (else copy).
    pub is_move: bool,
    /// How many paths (for the dialog's text).
    pub count: usize,
}

impl PendingDrop {
    /// Confirming the pending drop starts its transfer, as prepared (`confirm_pending_drop`).
    pub fn confirm(self) -> (r: DropOutcome)
        ensures
            r matches DropOutcome::Start { paths, dest_dir, dest_pane, is_move } && paths == self.paths
                && dest_dir == self.dest_dir && dest_pane == self.dest_pane && is_move == self.is_move,
    {
        DropOutcome::Start { paths: self.paths, dest_dir: self.dest_dir, dest_pane: self.dest_pane, is_move: self.is_move }
    }

    /// A pending drop of `paths` into `dest_dir`.
    pub fn new(paths: Vec<String>, dest_dir: String, dest_pane: u64, is_move: bool) -> (r: Self)
        ensures
            r.paths == paths,
            r.dest_dir == dest_dir,
            r.dest_pane == dest_pane,
            r.is_move == is_move,
            r.count == paths@.len(),
    {
        let count = paths.len();
        PendingDrop { paths, dest_dir, dest_pane, is_move, count }
    }

    /// The names for the confirmation dialog (see `summarize_names`): each path's file name
    /// (the whole path when it has none).
    pub fn names_summary<F: Fn(usize) -> String>(&self, more_suffix: F) -> (r: String)
        requires
            forall|n: usize| more_suffix.requires((n,)),
        ensures
            summary_of(display_names(self.paths@), more_suffix, r@),
    {
        let mut names: Vec<String> = Vec::new();
        let mut i: usize = 0;
        while i < self.paths.len()
            invariant
                i <= self.paths.len(),
                names@.len() == i,
                texts(names@) == display_names(self.paths@.take(i as int)),
            decreases self.paths.len() - i,
        {
            let ghost before = names@;
            names.push(display_name(self.paths[i].as_str()));
            proof {
                let t = self.paths@.take(i + 1);
                assert forall|k: int| 0 <= k < i + 1 implies #[trigger] texts(names@)[k] == display_names(t)[k] by {
                    if k < i {
                        assert(names@[k] == before[k]);
                        assert(texts(before)[k] == display_names(self.paths@.take(i as int))[k]);
                    }
                }
                assert(texts(names@) =~= display_names(t));
            }
            i = i + 1;
        }
        assert(self.paths@.take(self.paths.len() as int) == self.paths@);
        summarize_names(&names, more_suffix)
    }
}

/// What the confirmation shows for each path, in order.
pub open spec fn display_names(paths: Seq<String>) -> Seq<Seq<char>> {
    paths.map_values(|s: String| display_name_of(s@))
}

/// A separator in a path: `\` always, and `/` too unless the path is verbatim (`\\?\`).
pub open spec fn sep_at(p: Seq<char>, i: int, verbatim: bool) -> bool {
    p[i] == '\\' || (!verbatim && p[i] == '/')
}

/// Where the component that starts at `from` ends: the first separator from there on, or the
/// end of the path.
pub open spec fn next_sep(p: Seq<char>, from: int, verbatim: bool) -> int
    decreases p.len() - from,
{
    if from >= p.len() {
        p.len() as int
    } else if sep_at(p, from, verbatim) {
        from
    } else {
        next_sep(p, from + 1, verbatim)
    }
}

/// The path is verbatim: it starts with `\\?\`.
pub open spec fn verbatim_start(p: Seq<char>) -> bool {
    p.len() >= 4 && p[0] == '\\' && p[1] == '\\' && p[2] == '?' && p[3] == '\\'
}

/// A drive `X:` (an ASCII letter and a colon) at `i`.
pub open spec fn drive_at(p: Seq<char>, i: int) -> bool {
    i + 1 < p.len() && is_ascii_alpha(p[i]) && p[i + 1] == ':'
}

/// The length of the Windows prefix of a path, 0 when it has none:
/// `\\?\UNC\server\share`, `\\?\C:`, `\\?\name` (verbatim); `\\.\device`;
/// `\\server\share` (both named); `C:`. Within its first eight characters a `/` reads as
/// `\`, except in the `\\?\` that makes a path verbatim.
pub open spec fn prefix_len(p: Seq<char>) -> int {
    if verbatim_start(p) {
        if p.len() >= 8 && p[4] == 'U' && p[5] == 'N' && p[6] == 'C' && (p[7] == '\\' || p[7] == '/') {
            let s = next_sep(p, 8, true);
            if s >= p.len() {
                p.len() as int
            } else {
                let e = next_sep(p, s + 1, true);
                if e == s + 1 { s } else { e }
            }
        } else if drive_at(p, 4) && (p.len() == 6 || p[6] == '\\' || p[6] == '/') {
            6
        } else {
            next_sep(p, 4, true)
        }
    } else if p.len() >= 4 && sep_at(p, 0, false) && sep_at(p, 1, false) && p[2] == '.' && sep_at(p, 3, false) {
        next_sep(p, 4, false)
    } else if p.len() >= 2 && sep_at(p, 0, false) && sep_at(p, 1, false) {
        let s = next_sep(p, 2, false);
        if s == 2 || s >= p.len() {
            0
        } else {
            let e = next_sep(p, s + 1, false);
            if e == s + 1 { 0 } else { e }
        }
    } else if drive_at(p, 0) {
        2
    } else {
        0
    }
}

/// Where the segment that ends at `end` starts (not before `lo`).
pub open spec fn seg_begin(p: Seq<char>, lo: int, end: int, verbatim: bool) -> int
    decreases end - lo,
{
    if end <= lo {
        lo
    } else if sep_at(p, end - 1, verbatim) {
        end
    } else {
        seg_begin(p, lo, end - 1, verbatim)
    }
}

/// The last component of `p[lo..end]`: repeated and trailing separators are skipped, and so
/// are `.` components unless the path is verbatim; none when nothing is left.
pub open spec fn last_component(p: Seq<char>, lo: int, end: int, verbatim: bool) -> Option<Seq<char>>
    decreases end - lo,
{
    if end <= lo {
        None
    } else if sep_at(p, end - 1, verbatim) {
        last_component(p, lo, end - 1, verbatim)
    } else if !verbatim && p[end - 1] == '.' && (end - 1 == lo || sep_at(p, end - 2, verbatim)) {
        last_component(p, lo, end - 1, verbatim)
    } else {
        Some(p.subrange(seg_begin(p, lo, end, verbatim), end))
    }
}

/// The file name of a Windows path, as `Path::file_name` gives it on Windows: the last
/// component after the prefix, when it names something; none when the path is only a prefix,
/// a root or `.`, or when it ends in `..` (or in `.` when verbatim).
pub open spec fn file_name_of(p: Seq<char>) -> Option<Seq<char>> {
    let v = verbatim_start(p);
    match last_component(p, prefix_len(p), p.len() as int, v) {
        Some(s) => if s == seq!['.', '.'] || (v && s == seq!['.']) {
            None
        } else {
            Some(s)
        },
        None => None,
    }
}

/// What the drop confirmation shows for a path: its file name, or the whole path when it has
/// none (a drive root).
pub open spec fn display_name_of(p: Seq<char>) -> Seq<char> {
    match file_name_of(p) {
        Some(n) => n,
        None => p,
    }
}

fn is_sep_char(c: char, verbatim: bool) -> (r: bool)
    ensures
        r == (c == '\\' || (!verbatim && c == '/')),
{
    c == '\\' || (!verbatim && c == '/')
}

fn next_sep_from(cs: &Vec<char>, from: usize, verbatim: bool) -> (r: usize)
    requires
        from <= cs.len(),
    ensures
        r == next_sep(cs@, from as int, verbatim),
        from <= r <= cs.len(),
{
    let mut i: usize = from;
    while i < cs.len() && !is_sep_char(cs[i], verbatim)
        invariant
            from <= i <= cs.len(),
            next_sep(cs@, from as int, verbatim) == next_sep(cs@, i as int, verbatim),
        decreases cs.len() - i,
    {
        i = i + 1;
    }
    i
}

fn prefix_length(cs: &Vec<char>) -> (r: usize)
    ensures
        r == prefix_len(cs@),
        r <= cs.len(),
{
    let n = cs.len();
    if n >= 4 && cs[0] == '\\' && cs[1] == '\\' && cs[2] == '?' && cs[3] == '\\' {
        if n >= 8 && cs[4] == 'U' && cs[5] == 'N' && cs[6] == 'C' && (cs[7] == '\\' || cs[7] == '/') {
            let s = next_sep_from(cs, 8, true);
            if s >= n {
                n
            } else {
                let e = next_sep_from(cs, s + 1, true);
                if e == s + 1 { s } else { e }
            }
        } else if n >= 6 && char_is_ascii_alpha(cs[4]) && cs[5] == ':' && (n == 6 || cs[6] == '\\' || cs[6] == '/') {
            6
        } else {
            next_sep_from(cs, 4, true)
        }
    } else if n >= 4 && is_sep_char(cs[0], false) && is_sep_char(cs[1], false) && cs[2] == '.' && is_sep_char(cs[3], false) {
        next_sep_from(cs, 4, false)
    } else if n >= 2 && is_sep_char(cs[0], false) && is_sep_char(cs[1], false) {
        let s = next_sep_from(cs, 2, false);
        if s == 2 || s >= n {
            0
        } else {
            let e = next_sep_from(cs, s + 1, false);
            if e == s + 1 { 0 } else { e }
        }
    } else if n >= 2 && char_is_ascii_alpha(cs[0]) && cs[1] == ':' {
        2
    } else {
        0
    }
}

/// What the drop confirmation shows for the path `p` (see `display_name_of`).
pub fn display_name(p: &str) -> (r: String)
    ensures
        r@ == display_name_of(p@),
{
    let cs = chars_of(p);
    let verbatim = cs.len() >= 4 && cs[0] == '\\' && cs[1] == '\\' && cs[2] == '?' && cs[3] == '\\';
    let lo = prefix_length(&cs);
    let mut end: usize = cs.len();
    while end > lo
        && (is_sep_char(cs[end - 1], verbatim)
            || (!verbatim && cs[end - 1] == '.' && (end - 1 == lo || is_sep_char(cs[end - 2], verbatim))))
        invariant
            lo <= end <= cs.len(),
            cs@ == p@,
            verbatim == verbatim_start(cs@),
            lo == prefix_len(cs@),
            last_component(cs@, lo as int, end as int, verbatim)
                == last_component(cs@, lo as int, cs.len() as int, verbatim),
        decreases end,
    {
        end = end - 1;
    }
    if end == lo {
        return p.to_string();
    }
    let mut start: usize = end;
    while start > lo && !is_sep_char(cs[start - 1], verbatim)
        invariant
            lo <= start <= end,
            end <= cs.len(),
            seg_begin(cs@, lo as int, end as int, verbatim) == seg_begin(cs@, lo as int, start as int, verbatim),
            start < end ==> !sep_at(cs@, end - 1, verbatim),
        decreases start,
    {
        start = start - 1;
    }
    let mut seg: Vec<char> = Vec::new();
    let mut k: usize = start;
    while k < end
        invariant
            start <= k <= end,
            end <= cs.len(),
            seg@ == cs@.subrange(start as int, k as int),
        decreases end - k,
    {
        seg.push(cs[k]);
        assert(cs@.subrange(start as int, k + 1) == cs@.subrange(start as int, k as int).push(cs@[k as int]));
        k = k + 1;
    }
    assert(last_component(cs@, lo as int, cs.len() as int, verbatim) == Some(seg@));
    let dot = seg.len() == 1 && seg[0] == '.';
    let dotdot = seg.len() == 2 && seg[0] == '.' && seg[1] == '.';
    proof {
        if seg@ == seq!['.'] {
            assert(dot);
        }
        if seg@ == seq!['.', '.'] {
            assert(dotdot);
        }
        if dot {
            assert(seg@ =~= seq!['.']);
        }
        if dotdot {
            assert(seg@ =~= seq!['.', '.']);
        }
    }
    if dotdot || (verbatim && dot) {
        p.to_string()
    } else {
        string_of(&seg)
    }
}

/// A name between angle quotes: «name».
pub open spec fn quoted(n: Seq<char>) -> Seq<char> {
    seq!['«'] + n + seq!['»']
}

/// The names quoted and separated by ", ".
pub open spec fn quoted_list(names: Seq<Seq<char>>) -> Seq<char>
    decreases names.len(),
{
    if names.len() == 0 {
        Seq::empty()
    } else if names.len() == 1 {
        quoted(names[0])
    } else {
        quoted_list(names.drop_last()) + seq![',', ' '] + quoted(names.last())
    }
}

/// How many names are listed: all of them, up to `DROP_NAMES_MAX_LISTED`.
pub open spec fn listed_count(n: nat) -> nat {
    if n < DROP_NAMES_MAX_LISTED {
        n
    } else {
        DROP_NAMES_MAX_LISTED as nat
    }
}

/// `text` summarises `names`: the first names (at most `DROP_NAMES_MAX_LISTED`) quoted, and,
/// when some are left, what `more_suffix` gives for how many are left.
pub open spec fn summary_of<F: Fn(usize) -> String>(names: Seq<Seq<char>>, more_suffix: F, text: Seq<char>) -> bool {
    let listed = listed_count(names.len());
    let head = quoted_list(names.take(listed as int));
    if names.len() > listed {
        exists|s: String|
            more_suffix.ensures(((names.len() - listed) as usize,), s) && text == head + s@
    } else {
        text == head
    }
}

fn push_all(out: &mut Vec<char>, s: &Vec<char>)
    ensures
        final(out)@ == old(out)@ + s@,
{
    let ghost start = out@;
    let mut i: usize = 0;
    while i < s.len()
        invariant
            i <= s.len(),
            out@ == start + s@.take(i as int),
        decreases s.len() - i,
    {
        out.push(s[i]);
        assert(s@.take(i + 1) == s@.take(i as int).push(s@[i as int]));
        i = i + 1;
    }
    assert(s@.take(s.len() as int) == s@);
}

/// The summary of names for the drop confirmation: one name «a.txt»; a few «a.txt», «b.txt»;
/// past `DROP_NAMES_MAX_LISTED`, the first ones and then `more_suffix(n)` for the `n` left
/// (the caller formats it, e.g. " and 8 more").
pub fn summarize_names<F: Fn(usize) -> String>(names: &Vec<String>, more_suffix: F) -> (r: String)
    requires
        forall|n: usize| more_suffix.requires((n,)),
    ensures
        summary_of(texts(names@), more_suffix, r@),
{
    let ghost nv = texts(names@);
    let listed: usize = if names.len() < DROP_NAMES_MAX_LISTED {
        names.len()
    } else {
        DROP_NAMES_MAX_LISTED
    };
    let mut out: Vec<char> = Vec::new();
    let mut i: usize = 0;
    while i < listed
        invariant
            listed <= names.len(),
            nv == texts(names@),
            i <= listed,
            out@ == quoted_list(nv.take(i as int)),
        decreases listed - i,
    {
        let ghost before = out@;
        if i > 0 {
            out.push(',');
            out.push(' ');
        }
        out.push('«');
        let cs = chars_of(names[i].as_str());
        push_all(&mut out, &cs);
        out.push('»');
        proof {
            let t = nv.take(i + 1);
            assert(t.drop_last() == nv.take(i as int));
            assert(t.last() == names@[i as int]@);
            if i == 0 {
                assert(t.len() == 1);
                assert(out@ =~= quoted(t[0]));
            } else {
                assert(out@ =~= before + seq![',', ' '] + quoted(t.last()));
            }
        }
        i = i + 1;
    }
    if names.len() > listed {
        let s = more_suffix(names.len() - listed);
        let sc = chars_of(s.as_str());
        push_all(&mut out, &sc);
        string_of(&out)
    } else {
        string_of(&out)
    }
}

} // verus!
