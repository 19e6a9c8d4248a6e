//! The synchronization assistant between two file panes: the direction chosen, and which
//! items of the plan are selected (a conflict is never selected: the user settles it by hand).
use vstd::prelude::*;

verus! {

/// What a plan item does.
#[derive(Clone, Copy, Debug, PartialEq, Eq, Structural)]
pub enum SyncAction {
    CopyLeftToRight,
    CopyRightToLeft,
    DeleteLeft,
    DeleteRight,
    Conflict,
}

/// The direction of the synchronization.
#[derive(Clone, Copy, Debug, PartialEq, Eq, Structural)]
pub enum SyncMode {
    LeftToRight,
    RightToLeft,
    Bidirectional,
}

/// The direction the UI index `value` picks: 1 right to left, 2 both ways, anything else
/// left to right.
pub open spec fn sync_mode_for(value: i32) -> SyncMode {
    if value == 1 {
        SyncMode::RightToLeft
    } else if value == 2 {
        SyncMode::Bidirectional
    } else {
        SyncMode::LeftToRight
    }
}

/// The UI index of a direction.
pub open spec fn sync_mode_code(m: SyncMode) -> i32 {
    match m {
        SyncMode::LeftToRight => 0i32,
        SyncMode::RightToLeft => 1i32,
        SyncMode::Bidirectional => 2i32,
    }
}

/// The direction the UI index `value` picks (see `sync_mode_for`).
pub fn sync_mode_of(value: i32) -> (r: SyncMode)
    ensures
        r == sync_mode_for(value),
{
    if value == 1 {
        SyncMode::RightToLeft
    } else if value == 2 {
        SyncMode::Bidirectional
    } else {
        SyncMode::LeftToRight
    }
}

/// The UI index of a direction (see `sync_mode_code`).
pub fn sync_mode_index(m: SyncMode) -> (r: i32)
    ensures
        r == sync_mode_code(m),
{
    match m {
        SyncMode::LeftToRight => 0,
        SyncMode::RightToLeft => 1,
        SyncMode::Bidirectional => 2,
    }
}

/// The message key describing an action.
pub fn sync_action_key(a: SyncAction) -> (r: &'static str)
    ensures
        r@ == (match a {
            SyncAction::CopyLeftToRight => "sync.copy_lr"@,
            SyncAction::CopyRightToLeft => "sync.copy_rl"@,
            SyncAction::DeleteLeft => "sync.delete_left"@,
            SyncAction::DeleteRight => "sync.delete_right"@,
            SyncAction::Conflict => "sync.conflict"@,
        }),
{
    match a {
        SyncAction::CopyLeftToRight => "sync.copy_lr",
        SyncAction::CopyRightToLeft => "sync.copy_rl",
        SyncAction::DeleteLeft => "sync.delete_left",
        SyncAction::DeleteRight => "sync.delete_right",
        SyncAction::Conflict => "sync.conflict",
    }
}

/// The selection over the items of a plan.
#[derive(Clone, Debug, PartialEq, Eq)]
pub struct SyncSelection {
    actions: Vec<SyncAction>,
    selected: Vec<bool>,
}

impl View for SyncSelection {
    /// The actions of the items and whether each is selected.
    type V = (Seq<SyncAction>, Seq<bool>);

    closed spec fn view(&self) -> (Seq<SyncAction>, Seq<bool>) {
        (self.actions@, self.selected@)
    }
}

/// One flag per item, and no conflict selected.
pub open spec fn selection_wf(v: (Seq<SyncAction>, Seq<bool>)) -> bool {
    &&& v.0.len() == v.1.len()
    &&& forall|i: int| 0 <= i < v.0.len() && #[trigger] v.1[i] ==> v.0[i] != SyncAction::Conflict
}

impl SyncSelection {
    /// The selection of a new plan: every item but the conflicts.
    pub fn new(actions: Vec<SyncAction>) -> (r: Self)
        ensures
            r@.0 == actions@,
            r@.1 == actions@.map_values(|a: SyncAction| a != SyncAction::Conflict),
            selection_wf(r@),
    {
        let mut selected: Vec<bool> = Vec::new();
        let mut i: usize = 0;
        while i < actions.len()
            invariant
                i <= actions.len(),
                selected@ == actions@.take(i as int).map_values(|a: SyncAction| a != SyncAction::Conflict),
            decreases actions.len() - i,
        {
            selected.push(actions[i] != SyncAction::Conflict);
            assert(selected@ =~= actions@.take(i + 1).map_values(|a: SyncAction| a != SyncAction::Conflict));
            i = i + 1;
        }
        assert(actions@.take(actions.len() as int) == actions@);
        SyncSelection { actions, selected }
    }

    /// Selects or unselects item `index`; a conflict, or an index outside the plan, changes
    /// nothing.
    pub fn toggle(&mut self, index: usize)
        requires
            selection_wf(old(self)@),
        ensures
            selection_wf(final(self)@),
            final(self)@.0 == old(self)@.0,
            index < old(self)@.0.len() && old(self)@.0[index as int] != SyncAction::Conflict
                ==> final(self)@.1 == old(self)@.1.update(index as int, !old(self)@.1[index as int]),
            !(index < old(self)@.0.len() && old(self)@.0[index as int] != SyncAction::Conflict)
                ==> final(self)@.1 == old(self)@.1,
    {
        if index < self.actions.len() && self.actions[index] != SyncAction::Conflict {
            let v = !self.selected[index];
            self.selected.set(index, v);
        }
    }

    /// Some item is selected: the plan can be applied.
    pub fn any_selected(&self) -> (r: bool)
        ensures
            r == exists|i: int| 0 <= i < self@.1.len() && self@.1[i],
    {
        let mut i: usize = 0;
        while i < self.selected.len()
            invariant
                i <= self.selected.len(),
                forall|k: int| 0 <= k < i ==> !self.selected@[k],
            decreases self.selected.len() - i,
        {
            if self.selected[i] {
                assert(self@.1[i as int]);
                return true;
            }
            i = i + 1;
        }
        false
    }

    /// Whether item `index` is selected (false outside the plan).
    pub fn is_selected(&self, index: usize) -> (r: bool)
        ensures
            r == (index < self@.1.len() && self@.1[index as int]),
    {
        index < self.selected.len() && self.selected[index]
    }

    /// The selection flags, one per item.
    pub fn flags(&self) -> (r: &Vec<bool>)
        ensures
            r@ == self@.1,
    {
        &self.selected
    }
}

/// Selecting an item twice leaves the selection as it was.
pub proof fn lemma_toggle_twice(selected: Seq<bool>, i: int)
    requires
        0 <= i < selected.len(),
    ensures
        selected.update(i, !selected[i]).update(i, !selected.update(i, !selected[i])[i]) == selected,
{
    assert(selected.update(i, !selected[i]).update(i, !selected.update(i, !selected[i])[i]) =~= selected);
}

/// Every direction the UI offers reads back as the same index.
pub proof fn lemma_sync_mode_round_trip(v: i32)
    requires
        0 <= v <= 2,
    ensures
        sync_mode_code(sync_mode_for(v)) == v,
{
}

} // verus!
