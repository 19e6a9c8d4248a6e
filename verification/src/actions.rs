//! Keyboard actions: which of them a search pane keeps for itself, how its result list moves,
//! what Esc closes first, and the actions that map to a favorite or a toolbar menu.
use vstd::prelude::*;
use crate::panes::ToolbarMenuRequest;

verus! {

/// The high-level actions a key (or the command palette) triggers.
#[derive(Clone, Copy, Debug, PartialEq, Eq, Structural)]
pub enum Action {
    MoveUp,
    MoveDown,
    ExtendUp,
    ExtendDown,
    FocusPageUp,
    FocusPageDown,
    ExtendPageUp,
    ExtendPageDown,
    FocusHome,
    FocusEnd,
    ExtendHome,
    ExtendEnd,
    FocusUpKeep,
    FocusDownKeep,
    ToggleSelect,
    ToggleFocused,
    SelectAll,
    SwitchPane,
    GoUp,
    GoBack,
    GoForward,
    GoHome,
    Refresh,
    Find,
    ComputeSize,
    FilterPrevMatch,
    CancelListing,
    CopyToOther,
    MoveToOther,
    Activate,
    Open,
    OpenFocusedOtherPane,
    RunAsAdministrator,
    GoFavorite1,
    GoFavorite2,
    GoFavorite3,
    GoFavorite4,
    GoFavorite5,
    GoFavorite6,
    GoFavorite7,
    GoFavorite8,
    GoFavorite9,
    Copy,
    Duplicate,
    Cut,
    Paste,
    PasteHistory,
    Delete,
    DeletePermanent,
    NewFile,
    NewDir,
    Rename,
    BatchRename,
    Undo,
    EditPath,
    Help,
    CommandPalette,
    ComparePanels,
    OpenTerminal,
    SplitPanel,
    ToggleHidden,
    RefreshDrives,
    FavoritesMenu,
    LayoutsMenu,
    OpenConfig,
    ToggleMaximizePane,
}

/// The actions a focused search pane leaves to the application (switching panes, the palette,
/// help, settings, a new search, maximizing, Esc); every other action is the search pane's own.
pub open spec fn search_exempt(action: Action) -> bool {
    action == Action::SwitchPane || action == Action::CommandPalette || action == Action::Help
        || action == Action::OpenConfig || action == Action::Find || action
        == Action::ToggleMaximizePane || action == Action::CancelListing
}

/// Whether a focused search pane handles `action` itself.
pub fn search_intercepts(action: Action) -> (r: bool)
    ensures
        r == !search_exempt(action),
{
    !matches!(
        action,
        Action::SwitchPane | Action::CommandPalette | Action::Help | Action::OpenConfig
            | Action::Find | Action::ToggleMaximizePane | Action::CancelListing
    )
}

/// The favorite (0-based) a `GoFavoriteN` action goes to.
pub fn favorite_index(action: Action) -> (r: Option<usize>)
    ensures
        r == (match action {
            Action::GoFavorite1 => Some(0usize),
            Action::GoFavorite2 => Some(1usize),
            Action::GoFavorite3 => Some(2usize),
            Action::GoFavorite4 => Some(3usize),
            Action::GoFavorite5 => Some(4usize),
            Action::GoFavorite6 => Some(5usize),
            Action::GoFavorite7 => Some(6usize),
            Action::GoFavorite8 => Some(7usize),
            Action::GoFavorite9 => Some(8usize),
            _ => None,
        }),
{
    match action {
        Action::GoFavorite1 => Some(0),
        Action::GoFavorite2 => Some(1),
        Action::GoFavorite3 => Some(2),
        Action::GoFavorite4 => Some(3),
        Action::GoFavorite5 => Some(4),
        Action::GoFavorite6 => Some(5),
        Action::GoFavorite7 => Some(6),
        Action::GoFavorite8 => Some(7),
        Action::GoFavorite9 => Some(8),
        _ => None,
    }
}

/// The toolbar menu an action asks the UI to open.
pub fn toolbar_request(action: Action) -> (r: Option<ToolbarMenuRequest>)
    ensures
        r == (match action {
            Action::RefreshDrives => Some(ToolbarMenuRequest::RefreshDrives),
            Action::FavoritesMenu => Some(ToolbarMenuRequest::Favorites),
            Action::LayoutsMenu => Some(ToolbarMenuRequest::Layouts),
            _ => None,
        }),
{
    match action {
        Action::RefreshDrives => Some(ToolbarMenuRequest::RefreshDrives),
        Action::FavoritesMenu => Some(ToolbarMenuRequest::Favorites),
        Action::LayoutsMenu => Some(ToolbarMenuRequest::Layouts),
        _ => None,
    }
}

/// What a search pane does with a key action.
#[derive(Clone, Copy, Debug, PartialEq, Eq)]
pub enum SearchKeyStep {
    /// Select result `index`, extending the marked range when `extend`.
    Select { index: usize, extend: bool },
    /// Open the focused result.
    OpenFocused,
    /// Toggle the mark of the focused result.
    ToggleFocused,
    /// Mark every result.
    MarkAll,
    /// Nothing (the key is swallowed: it never acts on the file pane behind).
    Nothing,
}

/// Rows a page key moves in the search results.
pub const SEARCH_PAGE_ROWS: i64 = 20;

/// The result a movement key aims at from the focused result `current` (-1 when none): one up
/// or down, the first or last, a page up or down; `None` for keys that are not movements.
pub open spec fn search_aim(action: Action, current: int, count: int) -> Option<int> {
    match action {
        Action::MoveUp | Action::ExtendUp => Some(if current - 1 < 0 { 0 } else { current - 1 }),
        Action::MoveDown | Action::ExtendDown => Some(current + 1),
        Action::FocusHome | Action::ExtendHome => Some(0),
        Action::FocusEnd | Action::ExtendEnd => Some(count - 1),
        Action::FocusPageUp | Action::ExtendPageUp => Some(
            if current - SEARCH_PAGE_ROWS < 0 { 0 } else { current - SEARCH_PAGE_ROWS },
        ),
        Action::FocusPageDown | Action::ExtendPageDown => Some(current + SEARCH_PAGE_ROWS),
        _ => None,
    }
}

/// Whether a movement key extends the marked range.
pub open spec fn search_extends(action: Action) -> bool {
    action == Action::ExtendUp || action == Action::ExtendDown || action == Action::ExtendHome
        || action == Action::ExtendEnd || action == Action::ExtendPageUp || action
        == Action::ExtendPageDown
}

/// What the search pane does with `action`, its results counting `count` and the focus at
/// `current` (-1 when none): movements select the aimed result clamped to the list (nothing in
/// an empty list); Enter opens and Space toggles the focused result; Ctrl+A marks all; every
/// other key is swallowed.
pub fn search_key(action: Action, current: i32, count: usize) -> (r: SearchKeyStep)
    requires
        -1 <= current,
        count <= i32::MAX,
    ensures
        match search_aim(action, current as int, count as int) {
            Some(aim) => if count > 0 {
                r == SearchKeyStep::Select {
                    index: (if aim < 0 { 0 } else if aim > count - 1 { count - 1 } else { aim }) as usize,
                    extend: search_extends(action),
                }
            } else {
                r == SearchKeyStep::Nothing
            },
            None => r == (match action {
                Action::Activate | Action::Open => if current >= 0 {
                    SearchKeyStep::OpenFocused
                } else {
                    SearchKeyStep::Nothing
                },
                Action::ToggleFocused | Action::ToggleSelect => if current >= 0 {
                    SearchKeyStep::ToggleFocused
                } else {
                    SearchKeyStep::Nothing
                },
                Action::SelectAll => if count > 0 {
                    SearchKeyStep::MarkAll
                } else {
                    SearchKeyStep::Nothing
                },
                _ => SearchKeyStep::Nothing,
            }),
        },
{
    let cur = current as i64;
    let n = count as i64;
    let aim: i64 = match action {
        Action::MoveUp | Action::ExtendUp => if cur - 1 < 0 {
            0
        } else {
            cur - 1
        },
        Action::MoveDown | Action::ExtendDown => cur + 1,
        Action::FocusHome | Action::ExtendHome => 0,
        Action::FocusEnd | Action::ExtendEnd => n - 1,
        Action::FocusPageUp | Action::ExtendPageUp => if cur - SEARCH_PAGE_ROWS < 0 {
            0
        } else {
            cur - SEARCH_PAGE_ROWS
        },
        Action::FocusPageDown | Action::ExtendPageDown => cur + SEARCH_PAGE_ROWS,
        Action::Activate | Action::Open => {
            return if current >= 0 {
                SearchKeyStep::OpenFocused
            } else {
                SearchKeyStep::Nothing
            };
        },
        Action::ToggleFocused | Action::ToggleSelect => {
            return if current >= 0 {
                SearchKeyStep::ToggleFocused
            } else {
                SearchKeyStep::Nothing
            };
        },
        Action::SelectAll => {
            return if count > 0 {
                SearchKeyStep::MarkAll
            } else {
                SearchKeyStep::Nothing
            };
        },
        _ => {
            return SearchKeyStep::Nothing;
        },
    };
    if count == 0 {
        return SearchKeyStep::Nothing;
    }
    let index: i64 = if aim < 0 {
        0
    } else if aim > n - 1 {
        n - 1
    } else {
        aim
    };
    let extend = matches!(
        action,
        Action::ExtendUp | Action::ExtendDown | Action::ExtendHome | Action::ExtendEnd
            | Action::ExtendPageUp | Action::ExtendPageDown
    );
    SearchKeyStep::Select { index: index as usize, extend }
}

/// What Esc does on the active pane, first match wins.
#[derive(Clone, Copy, Debug, PartialEq, Eq)]
pub enum EscStep {
    /// Clear the typed visual filter (the last thing opened).
    ClearFilter,
    /// Close the search of the focused search pane.
    CloseSearch,
    /// Cancel the pane's listing and any folder-size computation.
    CancelWork,
}

/// What Esc does: it clears an active visual filter first; otherwise, on a search pane with an
/// open search, it closes the search; otherwise it cancels the running work.
pub fn esc_step(filter_active: bool, on_search_pane: bool, search_open: bool) -> (r: EscStep)
    ensures
        r == (if filter_active {
            EscStep::ClearFilter
        } else if on_search_pane && search_open {
            EscStep::CloseSearch
        } else {
            EscStep::CancelWork
        }),
{
    if filter_active {
        EscStep::ClearFilter
    } else if on_search_pane && search_open {
        EscStep::CloseSearch
    } else {
        EscStep::CancelWork
    }
}

/// Whether Up/Down jump between matches of the visual filter (with a filter active) instead of
/// moving one row, and in which direction.
pub fn filter_jump(action: Action, filter_active: bool) -> (r: Option<i32>)
    ensures
        r == (if filter_active && action == Action::MoveUp {
            Some(-1i32)
        } else if filter_active && (action == Action::MoveDown || action == Action::ComputeSize) {
            Some(1i32)
        } else if filter_active && action == Action::FilterPrevMatch {
            Some(-1i32)
        } else {
            None
        }),
{
    if !filter_active {
        return None;
    }
    match action {
        Action::MoveUp | Action::FilterPrevMatch => Some(-1),
        Action::MoveDown | Action::ComputeSize => Some(1),
        _ => None,
    }
}

/// What an action does on a file pane (the general handling, once a focused search pane or
/// the basket did not take it).
#[derive(Clone, Copy, Debug, PartialEq, Eq)]
pub enum GeneralStep {
    /// Maximize the active pane, or restore the layout.
    ToggleMaximize,
    /// Jump to the previous (`-1`) or next (`1`) match of the visual filter.
    JumpMatch(i32),
    /// Move the focus by `delta` rows, extending the selection when `extend`.
    MoveFocus { delta: i64, extend: bool },
    /// Move the focus a page up (`-1`) or down (`1`), extending the selection when `extend`.
    FocusPage { dir: i64, extend: bool },
    /// Focus the first row, extending the selection when `extend`.
    FocusHome { extend: bool },
    /// Focus the last row, extending the selection when `extend`.
    FocusEnd { extend: bool },
    /// Move the focus by `delta` rows, keeping the selection.
    MoveFocusKeep(i64),
    /// Toggle the selection of the focused row.
    ToggleFocused,
    /// Select every row.
    SelectAll,
    /// Cycle the active pane among the file panes.
    CycleFilePanes,
    GoUp,
    GoBack,
    GoForward,
    GoHome,
    /// Re-list the active pane.
    Refresh,
    /// Open (or focus) the search pane.
    OpenSearch,
    /// Compute the size of the focused folder.
    ComputeSize,
    /// Esc: see `esc_step`.
    Escape,
    /// Copy (or move) the selection to another pane.
    Transfer { move_files: bool },
    /// Open the focused row, as a double click does.
    ActivateFocused,
    /// Open the focused folder in another pane, or run the focused program elevated.
    OpenFocusedInOther,
    /// Run the focused program elevated.
    RunAsAdministrator,
    /// Go to favorite `n` (0-based).
    GoFavorite(usize),
    Copy,
    Duplicate,
    Cut,
    Paste,
    PasteHistory,
    /// Delete the selection (to the recycle bin unless `permanent`).
    Delete { permanent: bool },
    NewFile,
    NewFolder,
    Rename,
    BatchRename,
    Undo,
    /// Open the path-bar editor of the active file pane.
    EditPath,
    ToggleHelp,
    OpenPalette,
    ComparePanels,
    OpenTerminal,
    SplitPanel,
    ToggleHidden,
    /// Ask the UI to open a toolbar menu.
    ToolbarMenu(ToolbarMenuRequest),
    OpenConfig,
    /// Nothing.
    Nothing,
}

/// What `action` does on a file pane, `filter_active` telling whether the visual filter is
/// typed: with a filter, Up/Down and the size action jump between its matches (and the
/// previous-match action too); without one, they move or compute, and the previous-match
/// action does nothing.
pub open spec fn general_step_spec(action: Action, filter_active: bool) -> GeneralStep {
    match action {
        Action::ToggleMaximizePane => GeneralStep::ToggleMaximize,
        Action::MoveUp => if filter_active {
            GeneralStep::JumpMatch((-1) as i32)
        } else {
            GeneralStep::MoveFocus { delta: (-1) as i64, extend: false }
        },
        Action::MoveDown => if filter_active {
            GeneralStep::JumpMatch(1)
        } else {
            GeneralStep::MoveFocus { delta: 1, extend: false }
        },
        Action::ExtendUp => GeneralStep::MoveFocus { delta: (-1) as i64, extend: true },
        Action::ExtendDown => GeneralStep::MoveFocus { delta: 1, extend: true },
        Action::FocusPageUp => GeneralStep::FocusPage { dir: (-1) as i64, extend: false },
        Action::FocusPageDown => GeneralStep::FocusPage { dir: 1, extend: false },
        Action::ExtendPageUp => GeneralStep::FocusPage { dir: (-1) as i64, extend: true },
        Action::ExtendPageDown => GeneralStep::FocusPage { dir: 1, extend: true },
        Action::FocusHome => GeneralStep::FocusHome { extend: false },
        Action::FocusEnd => GeneralStep::FocusEnd { extend: false },
        Action::ExtendHome => GeneralStep::FocusHome { extend: true },
        Action::ExtendEnd => GeneralStep::FocusEnd { extend: true },
        Action::FocusUpKeep => GeneralStep::MoveFocusKeep((-1) as i64),
        Action::FocusDownKeep => GeneralStep::MoveFocusKeep(1),
        Action::ToggleSelect | Action::ToggleFocused => GeneralStep::ToggleFocused,
        Action::SelectAll => GeneralStep::SelectAll,
        Action::SwitchPane => GeneralStep::CycleFilePanes,
        Action::GoUp => GeneralStep::GoUp,
        Action::GoBack => GeneralStep::GoBack,
        Action::GoForward => GeneralStep::GoForward,
        Action::GoHome => GeneralStep::GoHome,
        Action::Refresh => GeneralStep::Refresh,
        Action::Find => GeneralStep::OpenSearch,
        Action::ComputeSize => if filter_active {
            GeneralStep::JumpMatch(1)
        } else {
            GeneralStep::ComputeSize
        },
        Action::FilterPrevMatch => if filter_active {
            GeneralStep::JumpMatch((-1) as i32)
        } else {
            GeneralStep::Nothing
        },
        Action::CancelListing => GeneralStep::Escape,
        Action::CopyToOther => GeneralStep::Transfer { move_files: false },
        Action::MoveToOther => GeneralStep::Transfer { move_files: true },
        Action::Activate => GeneralStep::ActivateFocused,
        Action::OpenFocusedOtherPane => GeneralStep::OpenFocusedInOther,
        Action::RunAsAdministrator => GeneralStep::RunAsAdministrator,
        Action::GoFavorite1 => GeneralStep::GoFavorite(0),
        Action::GoFavorite2 => GeneralStep::GoFavorite(1),
        Action::GoFavorite3 => GeneralStep::GoFavorite(2),
        Action::GoFavorite4 => GeneralStep::GoFavorite(3),
        Action::GoFavorite5 => GeneralStep::GoFavorite(4),
        Action::GoFavorite6 => GeneralStep::GoFavorite(5),
        Action::GoFavorite7 => GeneralStep::GoFavorite(6),
        Action::GoFavorite8 => GeneralStep::GoFavorite(7),
        Action::GoFavorite9 => GeneralStep::GoFavorite(8),
        Action::Copy => GeneralStep::Copy,
        Action::Duplicate => GeneralStep::Duplicate,
        Action::Cut => GeneralStep::Cut,
        Action::Paste => GeneralStep::Paste,
        Action::PasteHistory => GeneralStep::PasteHistory,
        Action::Delete => GeneralStep::Delete { permanent: false },
        Action::DeletePermanent => GeneralStep::Delete { permanent: true },
        Action::NewFile => GeneralStep::NewFile,
        Action::NewDir => GeneralStep::NewFolder,
        Action::Rename => GeneralStep::Rename,
        Action::BatchRename => GeneralStep::BatchRename,
        Action::Undo => GeneralStep::Undo,
        Action::EditPath => GeneralStep::EditPath,
        Action::Help => GeneralStep::ToggleHelp,
        Action::CommandPalette => GeneralStep::OpenPalette,
        Action::ComparePanels => GeneralStep::ComparePanels,
        Action::OpenTerminal => GeneralStep::OpenTerminal,
        Action::SplitPanel => GeneralStep::SplitPanel,
        Action::ToggleHidden => GeneralStep::ToggleHidden,
        Action::RefreshDrives => GeneralStep::ToolbarMenu(ToolbarMenuRequest::RefreshDrives),
        Action::FavoritesMenu => GeneralStep::ToolbarMenu(ToolbarMenuRequest::Favorites),
        Action::LayoutsMenu => GeneralStep::ToolbarMenu(ToolbarMenuRequest::Layouts),
        Action::OpenConfig => GeneralStep::OpenConfig,
        Action::Open => GeneralStep::Nothing,
    }
}

/// What an action does on a file pane (see `general_step_spec`).
pub fn general_step(action: Action, filter_active: bool) -> (r: GeneralStep)
    ensures
        r == general_step_spec(action, filter_active),
{
    match action {
        Action::ToggleMaximizePane => GeneralStep::ToggleMaximize,
        Action::MoveUp => if filter_active {
            GeneralStep::JumpMatch(-1)
        } else {
            GeneralStep::MoveFocus { delta: -1, extend: false }
        },
        Action::MoveDown => if filter_active {
            GeneralStep::JumpMatch(1)
        } else {
            GeneralStep::MoveFocus { delta: 1, extend: false }
        },
        Action::ExtendUp => GeneralStep::MoveFocus { delta: -1, extend: true },
        Action::ExtendDown => GeneralStep::MoveFocus { delta: 1, extend: true },
        Action::FocusPageUp => GeneralStep::FocusPage { dir: -1, extend: false },
        Action::FocusPageDown => GeneralStep::FocusPage { dir: 1, extend: false },
        Action::ExtendPageUp => GeneralStep::FocusPage { dir: -1, extend: true },
        Action::ExtendPageDown => GeneralStep::FocusPage { dir: 1, extend: true },
        Action::FocusHome => GeneralStep::FocusHome { extend: false },
        Action::FocusEnd => GeneralStep::FocusEnd { extend: false },
        Action::ExtendHome => GeneralStep::FocusHome { extend: true },
        Action::ExtendEnd => GeneralStep::FocusEnd { extend: true },
        Action::FocusUpKeep => GeneralStep::MoveFocusKeep(-1),
        Action::FocusDownKeep => GeneralStep::MoveFocusKeep(1),
        Action::ToggleSelect | Action::ToggleFocused => GeneralStep::ToggleFocused,
        Action::SelectAll => GeneralStep::SelectAll,
        Action::SwitchPane => GeneralStep::CycleFilePanes,
        Action::GoUp => GeneralStep::GoUp,
        Action::GoBack => GeneralStep::GoBack,
        Action::GoForward => GeneralStep::GoForward,
        Action::GoHome => GeneralStep::GoHome,
        Action::Refresh => GeneralStep::Refresh,
        Action::Find => GeneralStep::OpenSearch,
        Action::ComputeSize => if filter_active {
            GeneralStep::JumpMatch(1)
        } else {
            GeneralStep::ComputeSize
        },
        Action::FilterPrevMatch => if filter_active {
            GeneralStep::JumpMatch(-1)
        } else {
            GeneralStep::Nothing
        },
        Action::CancelListing => GeneralStep::Escape,
        Action::CopyToOther => GeneralStep::Transfer { move_files: false },
        Action::MoveToOther => GeneralStep::Transfer { move_files: true },
        Action::Activate => GeneralStep::ActivateFocused,
        Action::OpenFocusedOtherPane => GeneralStep::OpenFocusedInOther,
        Action::RunAsAdministrator => GeneralStep::RunAsAdministrator,
        Action::GoFavorite1 => GeneralStep::GoFavorite(0),
        Action::GoFavorite2 => GeneralStep::GoFavorite(1),
        Action::GoFavorite3 => GeneralStep::GoFavorite(2),
        Action::GoFavorite4 => GeneralStep::GoFavorite(3),
        Action::GoFavorite5 => GeneralStep::GoFavorite(4),
        Action::GoFavorite6 => GeneralStep::GoFavorite(5),
        Action::GoFavorite7 => GeneralStep::GoFavorite(6),
        Action::GoFavorite8 => GeneralStep::GoFavorite(7),
        Action::GoFavorite9 => GeneralStep::GoFavorite(8),
        Action::Copy => GeneralStep::Copy,
        Action::Duplicate => GeneralStep::Duplicate,
        Action::Cut => GeneralStep::Cut,
        Action::Paste => GeneralStep::Paste,
        Action::PasteHistory => GeneralStep::PasteHistory,
        Action::Delete => GeneralStep::Delete { permanent: false },
        Action::DeletePermanent => GeneralStep::Delete { permanent: true },
        Action::NewFile => GeneralStep::NewFile,
        Action::NewDir => GeneralStep::NewFolder,
        Action::Rename => GeneralStep::Rename,
        Action::BatchRename => GeneralStep::BatchRename,
        Action::Undo => GeneralStep::Undo,
        Action::EditPath => GeneralStep::EditPath,
        Action::Help => GeneralStep::ToggleHelp,
        Action::CommandPalette => GeneralStep::OpenPalette,
        Action::ComparePanels => GeneralStep::ComparePanels,
        Action::OpenTerminal => GeneralStep::OpenTerminal,
        Action::SplitPanel => GeneralStep::SplitPanel,
        Action::ToggleHidden => GeneralStep::ToggleHidden,
        Action::RefreshDrives => GeneralStep::ToolbarMenu(ToolbarMenuRequest::RefreshDrives),
        Action::FavoritesMenu => GeneralStep::ToolbarMenu(ToolbarMenuRequest::Favorites),
        Action::LayoutsMenu => GeneralStep::ToolbarMenu(ToolbarMenuRequest::Layouts),
        Action::OpenConfig => GeneralStep::OpenConfig,
        Action::Open => GeneralStep::Nothing,
    }
}

/// Whether the UI must refresh after a step, when the step alone decides it: the palette,
/// the toolbar menus and the settings ask for it; the steps that only move, mark or start
/// something (the refresh follows from what they start) do not; `None` when what the step
/// runs answers (navigation, transfers, opening, the operations that report their outcome,
/// Esc, maximizing).
pub open spec fn step_refresh_spec(step: GeneralStep) -> Option<bool> {
    match step {
        GeneralStep::OpenPalette | GeneralStep::ToolbarMenu(_) | GeneralStep::OpenConfig => Some(true),
        GeneralStep::ToggleMaximize | GeneralStep::GoUp | GeneralStep::GoBack | GeneralStep::GoForward
        | GeneralStep::GoHome | GeneralStep::Refresh | GeneralStep::Escape | GeneralStep::Transfer { .. }
        | GeneralStep::ActivateFocused | GeneralStep::OpenFocusedInOther | GeneralStep::GoFavorite(_)
        | GeneralStep::Duplicate | GeneralStep::Paste | GeneralStep::PasteHistory | GeneralStep::Undo
        | GeneralStep::ComparePanels => None,
        _ => Some(false),
    }
}

/// Whether the UI must refresh after a step, when the step alone decides it (see
/// `step_refresh_spec`).
pub fn step_refresh(step: GeneralStep) -> (r: Option<bool>)
    ensures
        r == step_refresh_spec(step),
{
    match step {
        GeneralStep::OpenPalette | GeneralStep::ToolbarMenu(_) | GeneralStep::OpenConfig => Some(true),
        GeneralStep::ToggleMaximize | GeneralStep::GoUp | GeneralStep::GoBack | GeneralStep::GoForward
        | GeneralStep::GoHome | GeneralStep::Refresh | GeneralStep::Escape | GeneralStep::Transfer { .. }
        | GeneralStep::ActivateFocused | GeneralStep::OpenFocusedInOther | GeneralStep::GoFavorite(_)
        | GeneralStep::Duplicate | GeneralStep::Paste | GeneralStep::PasteHistory | GeneralStep::Undo
        | GeneralStep::ComparePanels => None,
        _ => Some(false),
    }
}

/// The overlays whose state lives in the controller.
#[derive(Clone, Copy, Debug, PartialEq, Eq)]
pub struct Overlays {
    pub pending_dialog: bool,
    pub pane_picker: bool,
    pub batch_rename: bool,
    pub new_folder: bool,
    pub help: bool,
    pub context_menu: bool,
    pub column_menu: bool,
    pub sync_assistant: bool,
    pub text_transform: bool,
    pub delivery: bool,
    pub task_spaces: bool,
    pub saved_queries: bool,
    pub comparison_points: bool,
    pub recipes: bool,
}

impl Overlays {
    /// Some overlay is open (the UI then keeps its timer awake).
    pub fn any_open(&self) -> (r: bool)
        ensures
            r == (self.pending_dialog || self.pane_picker || self.batch_rename || self.new_folder
                || self.help || self.context_menu || self.column_menu || self.sync_assistant
                || self.text_transform || self.delivery || self.task_spaces || self.saved_queries
                || self.comparison_points || self.recipes),
    {
        self.pending_dialog || self.pane_picker || self.batch_rename || self.new_folder || self.help
            || self.context_menu || self.column_menu || self.sync_assistant || self.text_transform
            || self.delivery || self.task_spaces || self.saved_queries || self.comparison_points
            || self.recipes
    }

    /// Keys go to a modal instead of the panes (operation dialogs and the manager windows).
    pub fn keys_suspended(&self) -> (r: bool)
        ensures
            r == (self.pending_dialog || self.delivery || self.task_spaces || self.saved_queries
                || self.comparison_points || self.recipes),
    {
        self.pending_dialog || self.delivery || self.task_spaces || self.saved_queries
            || self.comparison_points || self.recipes
    }
}

/// Rows a page key moves in a file list or the basket.
pub const PAGE_ROWS: i64 = 20;

/// What a key action does while the basket pane is active.
#[derive(Clone, Copy, Debug, PartialEq, Eq)]
pub enum BasketKey {
    /// Mark every item.
    SelectAll,
    /// Move the focus by `delta` rows, keeping the marks (`keep`) or extending them (`extend`).
    MoveModified { delta: i64, keep: bool, extend: bool },
    /// Move the single selection by `delta` rows.
    MoveSelection { delta: i64 },
    /// Mark item `index`: toggled (`toggle`) or extending the range (`extend`).
    SelectModified { index: usize, toggle: bool, extend: bool },
    /// Select item `index` alone.
    SelectAt { index: usize },
    /// Remove the marked items; `permanent` deletes them from disk for good.
    Delete { permanent: bool },
    /// Clear the marks.
    ClearMarks,
    /// Drop the cached metadata of the items.
    ClearMetadata,
    /// Add the files on the clipboard.
    PasteFiles,
    /// Copy (or move) the marked items to another pane.
    Transfer { move_files: bool },
    /// Open the selected item with its default program.
    OpenSelected,
    /// Refused: the action needs a file table.
    Refused,
    /// Not the basket's: the general handling applies.
    General,
}

/// The last index of a list of `len` items (0 when empty).
pub open spec fn last_index(len: nat) -> nat {
    if len == 0 { 0 } else { (len - 1) as nat }
}

/// What a key action does on the basket pane, holding `len` items, whose focused item is at
/// `focused` (when it is one of the items).
pub open spec fn basket_key_spec(action: Action, len: nat, focused: Option<usize>) -> BasketKey {
    match action {
        Action::SelectAll => BasketKey::SelectAll,
        Action::ExtendUp => BasketKey::MoveModified { delta: (-1) as i64, keep: false, extend: true },
        Action::ExtendDown => BasketKey::MoveModified { delta: 1, keep: false, extend: true },
        Action::ExtendPageUp => BasketKey::MoveModified { delta: (-PAGE_ROWS) as i64, keep: false, extend: true },
        Action::ExtendPageDown => BasketKey::MoveModified { delta: PAGE_ROWS, keep: false, extend: true },
        Action::ExtendHome => BasketKey::SelectModified { index: 0, toggle: false, extend: true },
        Action::ExtendEnd => BasketKey::SelectModified {
            index: last_index(len) as usize,
            toggle: false,
            extend: true,
        },
        Action::FocusUpKeep => BasketKey::MoveModified { delta: (-1) as i64, keep: true, extend: false },
        Action::FocusDownKeep => BasketKey::MoveModified { delta: 1, keep: true, extend: false },
        Action::ToggleSelect | Action::ToggleFocused => match focused {
            Some(index) => BasketKey::SelectModified { index, toggle: true, extend: false },
            None => BasketKey::Refused,
        },
        Action::Delete => BasketKey::Delete { permanent: false },
        Action::DeletePermanent => BasketKey::Delete { permanent: true },
        Action::CancelListing => BasketKey::ClearMarks,
        Action::Refresh => BasketKey::ClearMetadata,
        Action::Paste => BasketKey::PasteFiles,
        Action::FocusHome => BasketKey::SelectAt { index: 0 },
        Action::FocusEnd => BasketKey::SelectAt { index: last_index(len) as usize },
        Action::FocusPageUp => BasketKey::MoveSelection { delta: (-PAGE_ROWS) as i64 },
        Action::FocusPageDown => BasketKey::MoveSelection { delta: PAGE_ROWS },
        Action::MoveUp => BasketKey::MoveSelection { delta: (-1) as i64 },
        Action::MoveDown => BasketKey::MoveSelection { delta: 1 },
        Action::CopyToOther => BasketKey::Transfer { move_files: false },
        Action::MoveToOther => BasketKey::Transfer { move_files: true },
        Action::Activate => BasketKey::OpenSelected,
        Action::Rename | Action::PasteHistory | Action::BatchRename | Action::ComputeSize
        | Action::FilterPrevMatch | Action::GoUp | Action::GoBack | Action::GoForward
        | Action::GoHome | Action::RunAsAdministrator | Action::EditPath | Action::OpenTerminal
        | Action::NewFile | Action::NewDir | Action::OpenFocusedOtherPane => BasketKey::Refused,
        _ => BasketKey::General,
    }
}

/// What a key action does on the basket pane (see `basket_key_spec`).
pub fn basket_key(action: Action, len: usize, focused: Option<usize>) -> (r: BasketKey)
    ensures
        r == basket_key_spec(action, len as nat, focused),
{
    let last: usize = if len == 0 { 0 } else { len - 1 };
    match action {
        Action::SelectAll => BasketKey::SelectAll,
        Action::ExtendUp => BasketKey::MoveModified { delta: -1, keep: false, extend: true },
        Action::ExtendDown => BasketKey::MoveModified { delta: 1, keep: false, extend: true },
        Action::ExtendPageUp => BasketKey::MoveModified { delta: -PAGE_ROWS, keep: false, extend: true },
        Action::ExtendPageDown => BasketKey::MoveModified { delta: PAGE_ROWS, keep: false, extend: true },
        Action::ExtendHome => BasketKey::SelectModified { index: 0, toggle: false, extend: true },
        Action::ExtendEnd => BasketKey::SelectModified { index: last, toggle: false, extend: true },
        Action::FocusUpKeep => BasketKey::MoveModified { delta: -1, keep: true, extend: false },
        Action::FocusDownKeep => BasketKey::MoveModified { delta: 1, keep: true, extend: false },
        Action::ToggleSelect | Action::ToggleFocused => match focused {
            Some(index) => BasketKey::SelectModified { index, toggle: true, extend: false },
            None => BasketKey::Refused,
        },
        Action::Delete => BasketKey::Delete { permanent: false },
        Action::DeletePermanent => BasketKey::Delete { permanent: true },
        Action::CancelListing => BasketKey::ClearMarks,
        Action::Refresh => BasketKey::ClearMetadata,
        Action::Paste => BasketKey::PasteFiles,
        Action::FocusHome => BasketKey::SelectAt { index: 0 },
        Action::FocusEnd => BasketKey::SelectAt { index: last },
        Action::FocusPageUp => BasketKey::MoveSelection { delta: -PAGE_ROWS },
        Action::FocusPageDown => BasketKey::MoveSelection { delta: PAGE_ROWS },
        Action::MoveUp => BasketKey::MoveSelection { delta: -1 },
        Action::MoveDown => BasketKey::MoveSelection { delta: 1 },
        Action::CopyToOther => BasketKey::Transfer { move_files: false },
        Action::MoveToOther => BasketKey::Transfer { move_files: true },
        Action::Activate => BasketKey::OpenSelected,
        Action::Rename | Action::PasteHistory | Action::BatchRename | Action::ComputeSize
        | Action::FilterPrevMatch | Action::GoUp | Action::GoBack | Action::GoForward
        | Action::GoHome | Action::RunAsAdministrator | Action::EditPath | Action::OpenTerminal
        | Action::NewFile | Action::NewDir | Action::OpenFocusedOtherPane => BasketKey::Refused,
        _ => BasketKey::General,
    }
}

/// A basket key that selects an item names an item of the basket (when it holds any, and the
/// focused position handed in is one of its items).
pub proof fn lemma_basket_selection_inside(action: Action, len: nat, focused: Option<usize>)
    requires
        0 < len,
        focused matches Some(f) ==> f < len,
    ensures
        basket_key_spec(action, len, focused) matches BasketKey::SelectAt { index } ==> index < len,
        basket_key_spec(action, len, focused) matches BasketKey::SelectModified { index, .. } ==> index < len,
{
}

/// What a key press does, first match wins.
#[derive(Clone, Copy, Debug, PartialEq, Eq)]
pub enum KeyStep {
    /// Close the open context or column menu (Esc), nothing else.
    CloseMenus,
    /// The key belongs to a modal, the rename editor or the pane picker: nothing happens.
    Swallow,
    /// The pane picker takes the digit: choose candidate `n` (1-based).
    Pick(u32),
    /// Esc cancels the pane picker.
    CancelPick,
    /// No shortcut: the text goes to type-ahead / the visual filter.
    Typeahead,
    /// Ctrl+Tab: move the focus across every pane of the layout.
    SwitchAllPanes,
    /// Run the action of the shortcut.
    Run(Action),
}

/// The state a key press is routed by.
#[derive(Clone, Copy, Debug, PartialEq, Eq)]
pub struct KeyContext {
    /// A context menu or the column menu is open.
    pub menu_open: bool,
    /// A modal has the keyboard (see `Overlays::keys_suspended`).
    pub keys_suspended: bool,
    /// The inline rename editor is open.
    pub renaming: bool,
    /// The pane picker is waiting for a number.
    pub picking: bool,
}

/// What a key press does: Esc closes an open menu first; a modal, the rename editor and the
/// pane picker keep the keyboard (the picker takes a digit from 1 and Esc); a key with no
/// shortcut types ahead; Ctrl+Tab, bound to switching panes, walks every pane; any other
/// shortcut runs its action. `digit` is the value of the first character when it is a decimal
/// digit; `action` the action of the key's shortcut, if it has one.
pub open spec fn key_step_spec(ctx: KeyContext, escape: bool, digit: Option<u32>, action: Option<Action>, ctrl_tab: bool) -> KeyStep {
    if escape && ctx.menu_open {
        KeyStep::CloseMenus
    } else if ctx.keys_suspended || ctx.renaming {
        KeyStep::Swallow
    } else if ctx.picking {
        match digit {
            Some(d) if d >= 1 => KeyStep::Pick(d),
            _ => if escape { KeyStep::CancelPick } else { KeyStep::Swallow },
        }
    } else {
        match action {
            None => KeyStep::Typeahead,
            Some(a) => if a == Action::SwitchPane && ctrl_tab { KeyStep::SwitchAllPanes } else { KeyStep::Run(a) },
        }
    }
}

/// What a key press does (see `key_step_spec`).
pub fn key_step(ctx: KeyContext, escape: bool, digit: Option<u32>, action: Option<Action>, ctrl_tab: bool) -> (r: KeyStep)
    ensures
        r == key_step_spec(ctx, escape, digit, action, ctrl_tab),
{
    if escape && ctx.menu_open {
        return KeyStep::CloseMenus;
    }
    if ctx.keys_suspended || ctx.renaming {
        return KeyStep::Swallow;
    }
    if ctx.picking {
        if let Some(d) = digit {
            if d >= 1 {
                return KeyStep::Pick(d);
            }
        }
        return if escape { KeyStep::CancelPick } else { KeyStep::Swallow };
    }
    match action {
        None => KeyStep::Typeahead,
        Some(a) => if matches!(a, Action::SwitchPane) && ctrl_tab { KeyStep::SwitchAllPanes } else { KeyStep::Run(a) },
    }
}

/// While a modal or the rename editor has the keyboard, no key runs an action or reaches the
/// panes (only Esc on an open menu closes it).
pub proof fn lemma_modal_keeps_keys(ctx: KeyContext, escape: bool, digit: Option<u32>, action: Option<Action>, ctrl_tab: bool)
    requires
        ctx.keys_suspended || ctx.renaming,
    ensures
        key_step_spec(ctx, escape, digit, action, ctrl_tab) == KeyStep::Swallow
            || key_step_spec(ctx, escape, digit, action, ctrl_tab) == KeyStep::CloseMenus,
{
}

/// A search result reached by a movement key is a result of the list.
pub proof fn lemma_search_selection_inside(action: Action, current: int, count: int)
    requires
        -1 <= current,
        0 < count,
        search_aim(action, current, count) is Some,
    ensures
        ({
            let aim = search_aim(action, current, count)->0;
            let index = if aim < 0 { 0 } else if aim > count - 1 { count - 1 } else { aim };
            0 <= index < count
        }),
{
}

/// Where an action goes (`run_action`).
#[derive(Clone, Copy, Debug, PartialEq, Eq)]
pub enum ActionRoute {
    /// The focused search pane handles it (see `search_key`).
    Search,
    /// The active basket pane handles it.
    Basket(BasketKey),
    /// The general handling on the active file pane.
    General(GeneralStep),
}

/// Where an action goes: a focused search pane keeps every action but those it leaves to the
/// application; the basket pane, holding `basket_len` items with the focused one at
/// `basket_focused`, takes its own; everything else is the general handling, with the visual
/// filter typed or not (`filter_active`).
pub open spec fn action_route_spec(
    action: Action,
    on_search: bool,
    on_basket: bool,
    basket_len: nat,
    basket_focused: Option<usize>,
    filter_active: bool,
) -> ActionRoute {
    if on_search && !search_exempt(action) {
        ActionRoute::Search
    } else if on_basket && basket_key_spec(action, basket_len, basket_focused) != BasketKey::General {
        ActionRoute::Basket(basket_key_spec(action, basket_len, basket_focused))
    } else {
        ActionRoute::General(general_step_spec(action, filter_active))
    }
}

/// Where an action goes (see `action_route_spec`).
pub fn action_route(
    action: Action,
    on_search: bool,
    on_basket: bool,
    basket_len: usize,
    basket_focused: Option<usize>,
    filter_active: bool,
) -> (r: ActionRoute)
    ensures
        r == action_route_spec(action, on_search, on_basket, basket_len as nat, basket_focused, filter_active),
{
    if on_search && search_intercepts(action) {
        return ActionRoute::Search;
    }
    if on_basket {
        let k = basket_key(action, basket_len, basket_focused);
        if !matches!(k, BasketKey::General) {
            return ActionRoute::Basket(k);
        }
    }
    ActionRoute::General(general_step(action, filter_active))
}

/// Transfers to another pane come only from the copy and move actions, and only the move
/// action moves the files away from their folder: on a file pane (whether a filter is typed
/// or not) and on the basket, copying copies and moving moves.
pub proof fn lemma_copy_copies_move_moves(action: Action, filter_active: bool, len: nat, focused: Option<usize>)
    ensures
        (general_step_spec(action, filter_active) is Transfer) == (action == Action::CopyToOther
            || action == Action::MoveToOther),
        general_step_spec(action, filter_active) matches GeneralStep::Transfer { move_files }
            ==> move_files == (action == Action::MoveToOther),
        (basket_key_spec(action, len, focused) is Transfer) == (action == Action::CopyToOther
            || action == Action::MoveToOther),
        basket_key_spec(action, len, focused) matches BasketKey::Transfer { move_files }
            ==> move_files == (action == Action::MoveToOther),
{
}

} // verus!
