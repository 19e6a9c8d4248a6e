//! Multi-pane decisions: where an action "to another pane" goes, the 1..9 pane picker,
//! cycling the focus, closing, maximizing, the window title, ejecting a drive.
use vstd::prelude::*;
use crate::drives::{on_drive, path_is_on_drive};
use crate::text::{chars_of, string_of};
use crate::session::PanePurpose;

verus! {

/// An action from one pane towards another that waits for its destination.
#[derive(Clone, Debug, PartialEq, Eq)]
pub enum PaneAction {
    /// Open `dir` (a subfolder) in the destination pane.
    OpenDir(String),
    /// Swap the folders of origin and destination.
    Swap,
    /// Open the origin's folder in the destination.
    Clone,
    /// Stack the origin as a tab over the destination.
    Stack,
    /// Copy (`move_files == false`) or move the origin's selection into the destination's folder.
    Transfer { move_files: bool },
}

/// Where an action towards another pane goes.
#[derive(Clone, Debug, PartialEq, Eq)]
pub enum PaneTarget {
    /// Exactly one candidate: act on it.
    Direct(u64),
    /// Several: the picker numbers them 1..9 in visual order.
    Pick(Vec<u64>),
    /// No other file pane: the active one must be split first.
    NeedsSplit,
}

/// The pending 1..9 pane picker.
#[derive(Clone, Debug, PartialEq, Eq)]
pub struct PanePick {
    pub action: PaneAction,
    pub origin: u64,
    pub candidates: Vec<u64>,
}

/// What a request for an action towards another pane does.
#[derive(Clone, Debug, PartialEq, Eq)]
pub enum RequestStep {
    /// Act now on this destination.
    Apply(u64),
    /// Show the picker over these candidates.
    ShowPicker(Vec<u64>),
    /// Split the origin and act on the new pane.
    SplitThenApply,
    /// Nothing: swapping or stacking needs a second pane.
    Nothing,
}

/// A key typed while the picker is shown.
#[derive(Clone, Copy, Debug, PartialEq, Eq)]
pub enum PickKey {
    /// A digit 1..9: choose that candidate.
    Choose(usize),
    /// Escape: close the picker.
    Cancel,
    /// Anything else: ignored (input is suspended as in a modal).
    Ignore,
}

/// The result of ejecting a removable drive; the UI turns it into a message.
#[derive(Clone, Debug, PartialEq, Eq)]
pub enum EjectOutcome {
    /// Unmounted and ejected: it can be removed safely.
    Ejected,
    /// Files are open on it (the volume could not be locked); nothing was touched.
    InUse,
    /// Another failure, described by the message.
    Failed(String),
}

/// What the platform answered to an eject request.
#[derive(Clone, Debug, PartialEq, Eq)]
pub enum EjectAttempt {
    Done,
    InUse,
    Error(String),
}

/// A keyboard shortcut that asks the UI to open a toolbar menu or action.
#[derive(Clone, Copy, Debug, PartialEq, Eq, Structural)]
pub enum ToolbarMenuRequest {
    /// The favorites menu.
    Favorites,
    /// The layouts menu.
    Layouts,
    /// Refresh the strip of drives.
    RefreshDrives,
}

/// How the main window is titled.
#[derive(Clone, Copy, Debug, PartialEq, Eq, Structural)]
pub enum WindowTitleMode {
    AppOnly,
    AppAndPath,
    PathOnly,
}

/// The "new folder(s)" dialog: each line of `text` is a subfolder to create in `dir`.
#[derive(Clone, Debug, PartialEq, Eq)]
pub struct NewFolderState {
    pub dir: String,
    pub text: String,
}

impl NewFolderState {
    /// The dialog opened on `dir`, with nothing typed.
    pub fn new(dir: String) -> (r: Self)
        ensures
            r.dir == dir,
            r.text@.len() == 0,
    {
        NewFolderState { dir, text: String::new() }
    }

    /// Replaces the typed text.
    pub fn set_text(&mut self, text: &str)
        ensures
            final(self).text@ == text@,
            final(self).dir == old(self).dir,
    {
        self.text = text.to_string();
    }
}

/// Resolves the destination of an action towards another pane from the candidate panes
/// (the other file panes, in visual order).
pub fn resolve_target(candidates: Vec<u64>) -> (r: PaneTarget)
    ensures
        candidates@.len() == 0 ==> r is NeedsSplit,
        candidates@.len() == 1 ==> r == PaneTarget::Direct(candidates@[0]),
        candidates@.len() >= 2 ==> (r matches PaneTarget::Pick(c) && c@ == candidates@),
{
    if candidates.len() == 0 {
        PaneTarget::NeedsSplit
    } else if candidates.len() == 1 {
        PaneTarget::Direct(candidates[0])
    } else {
        PaneTarget::Pick(candidates)
    }
}

/// Whether the action needs a second, distinct pane (swap and stack), so that splitting to
/// make one is pointless.
pub open spec fn needs_other_pane(action: PaneAction) -> bool {
    action is Swap || action is Stack
}

/// What to do with an action once its target is resolved: act on a direct destination,
/// offer the candidates, or split first (a no-op for swap and stack).
pub fn request_step(action: &PaneAction, target: PaneTarget) -> (r: RequestStep)
    ensures
        match target {
            PaneTarget::Direct(d) => r == RequestStep::Apply(d),
            PaneTarget::Pick(c) => r matches RequestStep::ShowPicker(v) && v@ == c@,
            PaneTarget::NeedsSplit => if needs_other_pane(*action) {
                r is Nothing
            } else {
                r is SplitThenApply
            },
        },
{
    match target {
        PaneTarget::Direct(d) => RequestStep::Apply(d),
        PaneTarget::Pick(c) => RequestStep::ShowPicker(c),
        PaneTarget::NeedsSplit => {
            match action {
                PaneAction::Swap | PaneAction::Stack => RequestStep::Nothing,
                _ => RequestStep::SplitThenApply,
            }
        },
    }
}

/// The picker's choice of candidate number `n` (1-based): the action, its origin and the
/// destination; `None` (the picker just closes) when `n` is not a listed number.
pub fn pick_resolve(pick: PanePick, n: usize) -> (r: Option<(PaneAction, u64, u64)>)
    ensures
        1 <= n <= pick.candidates@.len() ==> (r matches Some((a, o, d)) && a == pick.action && o
            == pick.origin && d == pick.candidates@[n - 1]),
        !(1 <= n <= pick.candidates@.len()) ==> r is None,
{
    if n >= 1 && n <= pick.candidates.len() {
        let dest = pick.candidates[n - 1];
        Some((pick.action, pick.origin, dest))
    } else {
        None
    }
}

/// What a key typed while the picker is shown does: a first character `1`..`9` chooses
/// that number, a text starting with the escape character closes the picker, anything
/// else is ignored.
pub fn pick_key(text: &str, escape: char) -> (r: PickKey)
    ensures
        text@.len() > 0 && '1' <= text@[0] <= '9' ==> r == PickKey::Choose(
            (text@[0] as u32 - '0' as u32) as usize,
        ),
        text@.len() > 0 && !('1' <= text@[0] <= '9') && text@[0] == escape ==> r is Cancel,
        (text@.len() == 0 || (!('1' <= text@[0] <= '9') && text@[0] != escape)) ==> r is Ignore,
{
    let cs = chars_of(text);
    if cs.len() == 0 {
        return PickKey::Ignore;
    }
    let c = cs[0];
    if '1' <= c && c <= '9' {
        let d: u32 = (c as u32) - ('0' as u32);
        PickKey::Choose(d as usize)
    } else if c == escape {
        PickKey::Cancel
    } else {
        PickKey::Ignore
    }
}

/// The position of `cur` in `ids`, or 0 when it is not there.
pub open spec fn position_or_zero(ids: Seq<u64>, cur: Option<u64>) -> int {
    match cur {
        Some(c) => if exists|i: int| 0 <= i < ids.len() && ids[i] == c {
            choose|i: int| 0 <= i < ids.len() && ids[i] == c && forall|j: int| 0 <= j < i ==> ids[j] != c
        } else {
            0
        },
        None => 0,
    }
}

/// The pane after `cur` in the cycle `ids` (from the first one when `cur` is not in it).
pub open spec fn next_in_cycle(ids: Seq<u64>, cur: Option<u64>) -> u64 {
    ids[(position_or_zero(ids, cur) + 1) % (ids.len() as int)]
}

/// The first position of `c` in `ids`.
fn first_position(ids: &Vec<u64>, c: u64) -> (r: Option<usize>)
    ensures
        match r {
            Some(i) => i < ids@.len() && ids@[i as int] == c && forall|j: int| 0 <= j < i ==> ids@[j] != c,
            None => forall|j: int| 0 <= j < ids@.len() ==> ids@[j] != c,
        },
{
    let mut i: usize = 0;
    while i < ids.len()
        invariant
            i <= ids.len(),
            forall|j: int| 0 <= j < i ==> ids@[j] != c,
        decreases ids.len() - i,
    {
        if ids[i] == c {
            return Some(i);
        }
        i = i + 1;
    }
    None
}

proof fn lemma_first_position_is_chosen(ids: Seq<u64>, c: u64, i: int)
    requires
        0 <= i < ids.len(),
        ids[i] == c,
        forall|j: int| 0 <= j < i ==> ids[j] != c,
    ensures
        position_or_zero(ids, Some(c)) == i,
{
    let k = choose|k: int| 0 <= k < ids.len() && ids[k] == c && forall|j: int| 0 <= j < k ==> ids[j] != c;
    assert(0 <= k < ids.len() && ids[k] == c && forall|j: int| 0 <= j < k ==> ids[j] != c);
    if k < i {
        assert(ids[k] != c);
    }
    if i < k {
        assert(ids[i] != c);
    }
}

/// The pane after `cur` in the cycle `ids`.
pub fn cycle_next(ids: &Vec<u64>, cur: Option<u64>) -> (r: u64)
    requires
        ids@.len() > 0,
    ensures
        r == next_in_cycle(ids@, cur),
{
    let mut i: usize = 0;
    if let Some(c) = cur {
        if let Some(k) = first_position(ids, c) {
            proof {
                lemma_first_position_is_chosen(ids@, c, k as int);
            }
            i = k;
        }
    }
    assert(i < ids.len());
    ids[(i + 1) % ids.len()]
}

/// Tab: the next file pane after the active one, when there are at least two file panes and
/// one is active.
pub fn switch_pane_target(files: &Vec<u64>, active: Option<u64>) -> (r: Option<u64>)
    ensures
        r == (if files@.len() > 1 && active is Some {
            Some(next_in_cycle(files@, active))
        } else {
            None
        }),
{
    if files.len() > 1 && active.is_some() {
        Some(cycle_next(files, active))
    } else {
        None
    }
}

/// Ctrl+Tab: the next pane of the layout after the active one (from the first when none of
/// them is active), when there are at least two panes.
pub fn switch_all_target(panes: &Vec<u64>, active: Option<u64>) -> (r: Option<u64>)
    ensures
        r == (if panes@.len() >= 2 {
            Some(next_in_cycle(panes@, active))
        } else {
            None
        }),
{
    if panes.len() < 2 {
        None
    } else {
        Some(cycle_next(panes, active))
    }
}

/// No pane occurs twice.
pub open spec fn distinct_ids(ids: Seq<u64>) -> bool {
    forall|i: int, j: int| 0 <= i < j < ids.len() ==> ids[i] != ids[j]
}

/// The pane reached from `ids[start]` after `k` steps of the cycle.
pub open spec fn after_steps(ids: Seq<u64>, start: int, k: nat) -> u64
    decreases k,
{
    if k == 0 {
        ids[start]
    } else {
        next_in_cycle(ids, Some(after_steps(ids, start, (k - 1) as nat)))
    }
}

/// Cycling the focus visits the panes in order: from the pane at position `start`, `k` steps
/// reach the pane at position `(start + k) mod n`. So `n` steps come back to the start, and
/// every pane is reached.
pub proof fn lemma_cycle_visits_in_order(ids: Seq<u64>, start: int, k: nat)
    requires
        distinct_ids(ids),
        0 <= start < ids.len(),
    ensures
        after_steps(ids, start, k) == ids[(start + k) % (ids.len() as int)],
    decreases k,
{
    let n = ids.len() as int;
    if k == 0 {
        assert(start % n == start) by (nonlinear_arith)
            requires 0 <= start < n;
    } else {
        lemma_cycle_visits_in_order(ids, start, (k - 1) as nat);
        let p = (start + k - 1) % n;
        assert(0 <= p < n) by (nonlinear_arith)
            requires
                n > 0,
                p == (start + k - 1) % n,
        ;
        assert forall|j: int| 0 <= j < p implies ids[j] != ids[p] by {}
        lemma_first_position_is_chosen(ids, ids[p], p);
        assert((p + 1) % n == (start + k) % n) by {
            vstd::arithmetic::div_mod::lemma_add_mod_noop(start + k - 1, 1, n);
            vstd::arithmetic::div_mod::lemma_mod_self_0(n);
            assert(1int % n == if n == 1 { 0int } else { 1int }) by {
                if n > 1 {
                    vstd::arithmetic::div_mod::lemma_small_mod(1, n as nat);
                }
            }
            vstd::arithmetic::div_mod::lemma_mod_twice(p + 1, n);
            vstd::arithmetic::div_mod::lemma_add_mod_noop(p, 1, n);
            vstd::arithmetic::div_mod::lemma_mod_twice(start + k - 1, n);
        }
    }
}

/// The panes closed together with `id`: it and its linked partner (a linked tree and file
/// list close as one), nothing when `id` does not exist.
pub fn close_targets(id: u64, exists: bool, partner: Option<u64>) -> (r: Vec<u64>)
    ensures
        !exists ==> r@.len() == 0,
        exists && partner is Some ==> r@ == seq![id, partner->0],
        exists && partner is None ==> r@ == seq![id],
{
    if !exists {
        return Vec::new();
    }
    match partner {
        Some(p) => vec![id, p],
        None => vec![id],
    }
}

/// A pane can be closed when it exists and closing it (with its partner) leaves a pane.
pub fn can_close(targets: usize, panes: usize) -> (r: bool)
    ensures
        r == (targets > 0 && panes > targets),
{
    targets > 0 && panes > targets
}

/// The maximized pane after toggling `id`: it is un-maximized when it was the maximized one,
/// maximized otherwise.
pub open spec fn maximize_toggled(maximized: Option<u64>, id: u64) -> Option<u64> {
    if maximized == Some(id) {
        None
    } else {
        Some(id)
    }
}

/// The maximized pane after activating `id`: activating another pane ends the maximized view.
pub open spec fn maximized_after(maximized: Option<u64>, id: u64) -> Option<u64> {
    if maximized is Some && maximized != Some(id) {
        None
    } else {
        maximized
    }
}

/// The maximized pane after toggling `id` (see `maximize_toggled`).
pub fn toggle_maximize(maximized: Option<u64>, id: u64) -> (r: Option<u64>)
    ensures
        r == maximize_toggled(maximized, id),
{
    match maximized {
        Some(m) => if m == id {
            None
        } else {
            Some(id)
        },
        None => Some(id),
    }
}

/// The maximized pane after activating `id` (see `maximized_after`).
pub fn maximized_after_activate(maximized: Option<u64>, id: u64) -> (r: Option<u64>)
    ensures
        r == maximized_after(maximized, id),
{
    match maximized {
        Some(m) => if m != id {
            None
        } else {
            maximized
        },
        None => None,
    }
}

/// Maximizing the same pane twice ends in the normal view (or back maximized when it was the
/// maximized pane to begin with); the toggled pane, being activated, keeps its state.
pub proof fn lemma_maximize_twice(maximized: Option<u64>, id: u64)
    ensures
        maximize_toggled(maximize_toggled(maximized, id), id) == (if maximized == Some(id) {
            Some(id)
        } else {
            None
        }),
        maximized_after(maximize_toggled(maximized, id), id) == maximize_toggled(maximized, id),
{
}

/// The window title: the application's name, the name and the active folder, or the folder
/// alone; the name alone when no file pane is active.
pub open spec fn window_title_spec(mode: WindowTitleMode, path: Option<Seq<char>>) -> Seq<char> {
    match mode {
        WindowTitleMode::AppOnly => "Naygo"@,
        WindowTitleMode::AppAndPath => match path {
            Some(p) => "Naygo — "@ + p,
            None => "Naygo"@,
        },
        WindowTitleMode::PathOnly => match path {
            Some(p) => p,
            None => "Naygo"@,
        },
    }
}

/// The title of the main window (see `window_title_spec`).
pub fn window_title(mode: WindowTitleMode, path: Option<&str>) -> (r: String)
    ensures
        r@ == window_title_spec(
            mode,
            match path {
                Some(p) => Some(p@),
                None => None,
            },
        ),
{
    match (mode, path) {
        (WindowTitleMode::AppAndPath, Some(p)) => {
            let mut cs = chars_of("Naygo — ");
            let ps = chars_of(p);
            let ghost head = cs@;
            let mut i: usize = 0;
            while i < ps.len()
                invariant
                    i <= ps.len(),
                    cs@ == head + ps@.take(i as int),
                decreases ps.len() - i,
            {
                cs.push(ps[i]);
                assert(ps@.take(i + 1) == ps@.take(i as int).push(ps@[i as int]));
                i = i + 1;
            }
            assert(ps@.take(ps.len() as int) == ps@);
            string_of(&cs)
        },
        (WindowTitleMode::PathOnly, Some(p)) => p.to_string(),
        _ => "Naygo".to_string(),
    }
}

/// An eject request for a drive that is not removable is refused before anything is tried:
/// only removable drives are ever ejected.
pub fn eject_refusal(removable: bool) -> (r: Option<EjectOutcome>)
    ensures
        removable ==> r is None,
        !removable ==> (r matches Some(EjectOutcome::Failed(m)) && m@ == "not a removable drive"@),
{
    if removable {
        None
    } else {
        Some(EjectOutcome::Failed("not a removable drive".to_string()))
    }
}

/// The outcome of an eject the platform attempted: done, in use (nothing forced), or the
/// failure's message.
pub fn eject_outcome(attempt: EjectAttempt) -> (r: EjectOutcome)
    ensures
        attempt is Done ==> r is Ejected,
        attempt is InUse ==> r is InUse,
        attempt matches EjectAttempt::Error(m) ==> r == EjectOutcome::Failed(m),
{
    match attempt {
        EjectAttempt::Done => EjectOutcome::Ejected,
        EjectAttempt::InUse => EjectOutcome::InUse,
        EjectAttempt::Error(m) => EjectOutcome::Failed(m),
    }
}

/// The file panes whose folder is on the drive `drive_root` (the one about to be ejected), in
/// order.
pub fn panes_on_drive(panes: &Vec<(u64, String)>, drive_root: &str) -> (r: Vec<(u64, String)>)
    ensures
        r@ == panes@.filter(|p: (u64, String)| on_drive(p.1@, drive_root@)),
{
    let mut out: Vec<(u64, String)> = Vec::new();
    let mut i: usize = 0;
    while i < panes.len()
        invariant
            i <= panes.len(),
            out@ == panes@.take(i as int).filter(|p: (u64, String)| on_drive(p.1@, drive_root@)),
        decreases panes.len() - i,
    {
        let (id, dir) = &panes[i];
        proof {
            reveal(Seq::filter);
            assert(panes@.take(i + 1).drop_last() == panes@.take(i as int));
            assert(panes@.take(i + 1).last() == panes@[i as int]);
        }
        if path_is_on_drive(dir.as_str(), drive_root) {
            out.push((*id, dir.clone()));
        }
        i = i + 1;
    }
    assert(panes@.take(panes.len() as int) == panes@);
    out
}

/// The contexts a focused pane leaves behind: whether the keyboard-driven preview follows the
/// search results and whether it follows the basket.
#[derive(Clone, Copy, Debug, PartialEq, Eq)]
pub struct FocusContext {
    pub search: bool,
    pub basket: bool,
}

/// The contexts after focusing a pane of kind `purpose`: a search pane sets the search
/// context and the basket sets the basket one; the preview and the inspector keep both (they
/// show what the context points at); any other pane clears them.
pub fn context_after_activate(ctx: FocusContext, purpose: Option<PanePurpose>) -> (r: FocusContext)
    ensures
        r.search == (match purpose {
            Some(PanePurpose::Search) => true,
            Some(PanePurpose::Preview) | Some(PanePurpose::Inspector) => ctx.search,
            _ => false,
        }),
        r.basket == (match purpose {
            Some(PanePurpose::Basket) => true,
            Some(PanePurpose::Preview) | Some(PanePurpose::Inspector) => ctx.basket,
            _ => false,
        }),
{
    let search = match purpose {
        Some(PanePurpose::Search) => true,
        Some(PanePurpose::Preview) | Some(PanePurpose::Inspector) => ctx.search,
        _ => false,
    };
    let basket = match purpose {
        Some(PanePurpose::Basket) => true,
        Some(PanePurpose::Preview) | Some(PanePurpose::Inspector) => ctx.basket,
        _ => false,
    };
    FocusContext { search, basket }
}

/// The localized titles of the panes that are not file panes.
pub struct PaneTitles {
    pub tree: String,
    pub inspector: String,
    pub history: String,
    pub favorites: String,
    pub preview: String,
    pub operations: String,
    pub basket: String,
    pub search: String,
    pub recents: String,
}

/// The label of a pane: a file pane shows the name of its folder (`folder`, none when the pane
/// holds no listing); the other panes their title.
pub open spec fn pane_label_spec(purpose: PanePurpose, folder: Option<Seq<char>>, t: PaneTitles) -> Seq<char> {
    match purpose {
        PanePurpose::Files => match folder {
            Some(f) => f,
            None => Seq::empty(),
        },
        PanePurpose::Tree => t.tree@,
        PanePurpose::Inspector => t.inspector@,
        PanePurpose::History => t.history@,
        PanePurpose::Favorites => t.favorites@,
        PanePurpose::Preview => t.preview@,
        PanePurpose::Operations => t.operations@,
        PanePurpose::Basket => t.basket@,
        PanePurpose::Search => t.search@,
        PanePurpose::Recents => t.recents@,
    }
}

/// The label of a pane (see `pane_label_spec`).
pub fn pane_label(purpose: PanePurpose, folder: Option<&str>, t: &PaneTitles) -> (r: String)
    ensures
        r@ == pane_label_spec(purpose, match folder {
            Some(f) => Some(f@),
            None => None,
        }, *t),
{
    match purpose {
        PanePurpose::Files => match folder {
            Some(f) => f.to_owned(),
            None => String::new(),
        },
        PanePurpose::Tree => t.tree.clone(),
        PanePurpose::Inspector => t.inspector.clone(),
        PanePurpose::History => t.history.clone(),
        PanePurpose::Favorites => t.favorites.clone(),
        PanePurpose::Preview => t.preview.clone(),
        PanePurpose::Operations => t.operations.clone(),
        PanePurpose::Basket => t.basket.clone(),
        PanePurpose::Search => t.search.clone(),
        PanePurpose::Recents => t.recents.clone(),
    }
}

/// Where on a pane a dragged pane is dropped.
#[derive(Clone, Copy, Debug, PartialEq, Eq, Structural)]
pub enum DropZone {
    Center,
    Left,
    Right,
    Top,
    Bottom,
}

/// What dropping a pane on the layout does.
#[derive(Clone, Copy, Debug, PartialEq, Eq, Structural)]
pub enum PaneDrop {
    /// Nothing: no pane under the cursor, or the pane was dropped on itself.
    Nothing,
    /// Stack the dragged pane as a tab over `target`.
    Stack { target: u64 },
    /// Take the dragged pane out and split `target` with it: side by side (`horizontal`) or
    /// one above the other, the dragged pane first (left or top) when `dragged_first`.
    Split { target: u64, horizontal: bool, dragged_first: bool },
}

/// What dropping pane `dragged` does, given the pane and zone under the cursor (`hit`).
pub open spec fn pane_drop_spec(dragged: u64, hit: Option<(u64, DropZone)>) -> PaneDrop {
    match hit {
        None => PaneDrop::Nothing,
        Some((target, zone)) => if target == dragged {
            PaneDrop::Nothing
        } else {
            match zone {
                DropZone::Center => PaneDrop::Stack { target },
                DropZone::Left => PaneDrop::Split { target, horizontal: true, dragged_first: true },
                DropZone::Right => PaneDrop::Split { target, horizontal: true, dragged_first: false },
                DropZone::Top => PaneDrop::Split { target, horizontal: false, dragged_first: true },
                DropZone::Bottom => PaneDrop::Split { target, horizontal: false, dragged_first: false },
            }
        },
    }
}

/// What dropping a pane does (see `pane_drop_spec`).
pub fn pane_drop(dragged: u64, hit: Option<(u64, DropZone)>) -> (r: PaneDrop)
    ensures
        r == pane_drop_spec(dragged, hit),
{
    match hit {
        None => PaneDrop::Nothing,
        Some((target, zone)) => if target == dragged {
            PaneDrop::Nothing
        } else {
            match zone {
                DropZone::Center => PaneDrop::Stack { target },
                DropZone::Left => PaneDrop::Split { target, horizontal: true, dragged_first: true },
                DropZone::Right => PaneDrop::Split { target, horizontal: true, dragged_first: false },
                DropZone::Top => PaneDrop::Split { target, horizontal: false, dragged_first: true },
                DropZone::Bottom => PaneDrop::Split { target, horizontal: false, dragged_first: false },
            }
        },
    }
}

/// A pane dropped anywhere on itself changes nothing.
pub proof fn lemma_drop_on_itself(dragged: u64, zone: DropZone)
    ensures
        pane_drop_spec(dragged, Some((dragged, zone))) == PaneDrop::Nothing,
{
}

/// The panes of the workspace, each by its id and kind, and the active one.
pub struct PaneList {
    pub panes: Vec<(u64, PanePurpose)>,
    pub active: Option<u64>,
}

/// Some pane is the operations pane.
pub open spec fn has_ops_pane(panes: Seq<(u64, PanePurpose)>) -> bool {
    exists|i: int| 0 <= i < panes.len() && (#[trigger] panes[i]).1 == PanePurpose::Operations
}

/// How many panes are operations panes.
pub open spec fn ops_pane_count(panes: Seq<(u64, PanePurpose)>) -> nat
    decreases panes.len(),
{
    if panes.len() == 0 {
        0
    } else {
        ops_pane_count(panes.drop_last()) + if panes.last().1 == PanePurpose::Operations {
            1nat
        } else {
            0nat
        }
    }
}

/// The panes once the operations pane is there: unchanged when there is one, else with a new
/// operations pane `new_id` at the end.
pub open spec fn with_ops_pane(panes: Seq<(u64, PanePurpose)>, new_id: u64) -> Seq<(u64, PanePurpose)> {
    if has_ops_pane(panes) {
        panes
    } else {
        panes.push((new_id, PanePurpose::Operations))
    }
}

impl PaneList {
    /// Makes sure the operations pane is there before an operation runs (`ensure_ops_pane`):
    /// when the workspace has none, a new operations pane `new_id` (the id the workspace gives
    /// it) is added. The active pane stays active: the operations pane does not take the
    /// focus. Returns whether a pane was added.
    pub fn ensure_ops_pane(&mut self, new_id: u64) -> (added: bool)
        ensures
            added == !has_ops_pane(old(self).panes@),
            final(self).panes@ == with_ops_pane(old(self).panes@, new_id),
            final(self).active == old(self).active,
    {
        let mut i: usize = 0;
        while i < self.panes.len()
            invariant
                i <= self.panes.len(),
                self.panes@ == old(self).panes@,
                self.active == old(self).active,
                forall|k: int| 0 <= k < i ==> (#[trigger] self.panes@[k]).1 != PanePurpose::Operations,
            decreases self.panes.len() - i,
        {
            if self.panes[i].1 == PanePurpose::Operations {
                assert(self.panes@[i as int].1 == PanePurpose::Operations);
                return false;
            }
            i = i + 1;
        }
        self.panes.push((new_id, PanePurpose::Operations));
        true
    }
}

/// The workspace a session starts with (`new_in`), before a saved session is restored.
pub struct StartWorkspace {
    pub panes: PaneList,
    /// The folder each file pane lists.
    pub folders: Vec<(u64, String)>,
    /// The recent folders, most recent first.
    pub recents: Vec<String>,
    /// The file pane that was active last.
    pub last_active_files: Option<u64>,
}

/// The workspace a session starts with (`new_in`): a single file pane `id` (the id the
/// workspace gives it) listing `start`, active, and `start` as the only recent folder.
pub fn initial_workspace(id: u64, start: String) -> (w: StartWorkspace)
    ensures
        w.panes.panes@ == seq![(id, PanePurpose::Files)],
        w.panes.active == Some(id),
        w.folders@.len() == 1 && w.folders@[0].0 == id && w.folders@[0].1@ == start@,
        w.recents@.len() == 1 && w.recents@[0]@ == start@,
        w.last_active_files == Some(id),
{
    let recent = start.clone();
    let mut panes: Vec<(u64, PanePurpose)> = Vec::new();
    panes.push((id, PanePurpose::Files));
    let mut folders: Vec<(u64, String)> = Vec::new();
    folders.push((id, start));
    let mut recents: Vec<String> = Vec::new();
    recents.push(recent);
    StartWorkspace {
        panes: PaneList { panes, active: Some(id) },
        folders,
        recents,
        last_active_files: Some(id),
    }
}

proof fn lemma_ops_count_zero(panes: Seq<(u64, PanePurpose)>)
    ensures
        (ops_pane_count(panes) == 0) == !has_ops_pane(panes),
    decreases panes.len(),
{
    if panes.len() > 0 {
        let init = panes.drop_last();
        lemma_ops_count_zero(init);
        if has_ops_pane(init) {
            let i = choose|i: int| 0 <= i < init.len() && (#[trigger] init[i]).1 == PanePurpose::Operations;
            assert(panes[i] == init[i]);
        }
        if has_ops_pane(panes) {
            let i = choose|i: int| 0 <= i < panes.len() && (#[trigger] panes[i]).1 == PanePurpose::Operations;
            if i < panes.len() - 1 {
                assert(init[i] == panes[i]);
            }
        }
        if panes.last().1 == PanePurpose::Operations {
            assert(panes[panes.len() - 1].1 == PanePurpose::Operations);
        }
    }
}

/// Making sure of the operations pane adds it once: on a workspace with at most one
/// operations pane, afterwards there is exactly one (a new one exactly when there was none),
/// and doing it again changes nothing, whatever id it would have given.
pub proof fn lemma_ops_pane_once(panes: Seq<(u64, PanePurpose)>, new_id: u64, next_id: u64)
    requires
        ops_pane_count(panes) <= 1,
    ensures
        ops_pane_count(with_ops_pane(panes, new_id)) == 1,
        (with_ops_pane(panes, new_id).len() == panes.len() + 1) == !has_ops_pane(panes),
        with_ops_pane(with_ops_pane(panes, new_id), next_id) == with_ops_pane(panes, new_id),
{
    let once = with_ops_pane(panes, new_id);
    lemma_ops_count_zero(panes);
    if !has_ops_pane(panes) {
        assert(once.drop_last() == panes);
        assert(once[panes.len() as int].1 == PanePurpose::Operations);
    }
    lemma_ops_count_zero(once);
}

/// The new folders of two panes after swapping them: each takes the other's; nothing when
/// either is not a file pane.
pub open spec fn swapped(a: Option<Seq<char>>, b: Option<Seq<char>>) -> Option<(Seq<char>, Seq<char>)> {
    match (a, b) {
        (Some(x), Some(y)) => Some((y, x)),
        _ => None,
    }
}

/// Swapping the folders of two file panes (`swap_panes`; see `swapped`): the new folders of
/// the first and the second pane.
pub fn swap_folders(a: Option<String>, b: Option<String>) -> (r: Option<(String, String)>)
    ensures
        match swapped(
            match a {
                Some(x) => Some(x@),
                None => None,
            },
            match b {
                Some(y) => Some(y@),
                None => None,
            },
        ) {
            Some((p, q)) => r matches Some((u, v)) && u@ == p && v@ == q,
            None => r is None,
        },
{
    match (a, b) {
        (Some(x), Some(y)) => Some((y, x)),
        _ => None,
    }
}

/// Swapping two panes twice gives each its own folder back.
pub proof fn lemma_swap_twice(a: Option<Seq<char>>, b: Option<Seq<char>>)
    requires
        swapped(a, b) is Some,
    ensures
        ({
            let (p, q) = swapped(a, b)->0;
            swapped(Some(p), Some(q)) == Some((a->0, b->0))
        }),
{
}

} // verus!
