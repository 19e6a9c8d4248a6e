use workspace_ctrl::actions::{
    action_route, esc_step, favorite_index, filter_jump, general_step, search_intercepts, search_key,
    step_refresh, toolbar_request, Action, ActionRoute, BasketKey, EscStep, GeneralStep, Overlays,
    SearchKeyStep,
};
use workspace_ctrl::panes::ToolbarMenuRequest;

#[test]
fn search_pane_keeps_its_keys() {
    assert!(search_intercepts(Action::Delete));
    assert!(search_intercepts(Action::MoveDown));
    assert!(!search_intercepts(Action::SwitchPane));
    assert!(!search_intercepts(Action::CancelListing));
    assert!(!search_intercepts(Action::Find));
    assert_eq!(search_key(Action::MoveDown, 2, 10), SearchKeyStep::Select { index: 3, extend: false });
    assert_eq!(search_key(Action::ExtendUp, 0, 10), SearchKeyStep::Select { index: 0, extend: true });
    assert_eq!(search_key(Action::FocusEnd, -1, 10), SearchKeyStep::Select { index: 9, extend: false });
    assert_eq!(search_key(Action::FocusPageDown, 5, 10), SearchKeyStep::Select { index: 9, extend: false });
    assert_eq!(search_key(Action::ExtendPageUp, 25, 40), SearchKeyStep::Select { index: 5, extend: true });
    assert_eq!(search_key(Action::MoveDown, -1, 0), SearchKeyStep::Nothing);
    assert_eq!(search_key(Action::Activate, 3, 10), SearchKeyStep::OpenFocused);
    assert_eq!(search_key(Action::Open, -1, 10), SearchKeyStep::Nothing);
    assert_eq!(search_key(Action::ToggleSelect, 1, 10), SearchKeyStep::ToggleFocused);
    assert_eq!(search_key(Action::SelectAll, -1, 3), SearchKeyStep::MarkAll);
    assert_eq!(search_key(Action::SelectAll, -1, 0), SearchKeyStep::Nothing);
    assert_eq!(search_key(Action::Delete, 1, 3), SearchKeyStep::Nothing);
}

#[test]
fn esc_closes_the_innermost_first() {
    assert_eq!(esc_step(true, true, true), EscStep::ClearFilter);
    assert_eq!(esc_step(false, true, true), EscStep::CloseSearch);
    assert_eq!(esc_step(false, true, false), EscStep::CancelWork);
    assert_eq!(esc_step(false, false, true), EscStep::CancelWork);
}

#[test]
fn favorites_toolbar_and_filter_jumps() {
    assert_eq!(favorite_index(Action::GoFavorite1), Some(0));
    assert_eq!(favorite_index(Action::GoFavorite9), Some(8));
    assert_eq!(favorite_index(Action::Copy), None);
    assert_eq!(toolbar_request(Action::FavoritesMenu), Some(ToolbarMenuRequest::Favorites));
    assert_eq!(toolbar_request(Action::LayoutsMenu), Some(ToolbarMenuRequest::Layouts));
    assert_eq!(toolbar_request(Action::RefreshDrives), Some(ToolbarMenuRequest::RefreshDrives));
    assert_eq!(toolbar_request(Action::Help), None);
    assert_eq!(filter_jump(Action::MoveUp, true), Some(-1));
    assert_eq!(filter_jump(Action::MoveDown, true), Some(1));
    assert_eq!(filter_jump(Action::ComputeSize, true), Some(1));
    assert_eq!(filter_jump(Action::FilterPrevMatch, true), Some(-1));
    assert_eq!(filter_jump(Action::MoveUp, false), None);
    assert_eq!(filter_jump(Action::Copy, true), None);
}

#[test]
fn any_modal_open_refleja_los_overlays_del_controlador() {
    let none = Overlays {
        pending_dialog: false,
        pane_picker: false,
        batch_rename: false,
        new_folder: false,
        help: false,
        context_menu: false,
        column_menu: false,
        sync_assistant: false,
        text_transform: false,
        delivery: false,
        task_spaces: false,
        saved_queries: false,
        comparison_points: false,
        recipes: false,
    };
    assert!(!none.any_open());
    assert!(!none.keys_suspended());
    assert!(Overlays { help: true, ..none }.any_open());
    assert!(!Overlays { help: true, ..none }.keys_suspended());
    assert!(Overlays { recipes: true, ..none }.keys_suspended());
    assert!(Overlays { column_menu: true, ..none }.any_open());
}

/// On a file pane, Up/Down move one row, or jump between filter matches while a filter is
/// typed; the size action jumps too; the previous-match action needs a filter.
#[test]
fn general_steps_follow_the_filter() {
    assert_eq!(general_step(Action::MoveUp, false), GeneralStep::MoveFocus { delta: -1, extend: false });
    assert_eq!(general_step(Action::MoveUp, true), GeneralStep::JumpMatch(-1));
    assert_eq!(general_step(Action::MoveDown, true), GeneralStep::JumpMatch(1));
    assert_eq!(general_step(Action::ComputeSize, true), GeneralStep::JumpMatch(1));
    assert_eq!(general_step(Action::ComputeSize, false), GeneralStep::ComputeSize);
    assert_eq!(general_step(Action::FilterPrevMatch, false), GeneralStep::Nothing);
    assert_eq!(general_step(Action::ExtendPageDown, false), GeneralStep::FocusPage { dir: 1, extend: true });
    assert_eq!(general_step(Action::GoFavorite3, false), GeneralStep::GoFavorite(2));
    assert_eq!(general_step(Action::DeletePermanent, false), GeneralStep::Delete { permanent: true });
    assert_eq!(general_step(Action::LayoutsMenu, false), GeneralStep::ToolbarMenu(ToolbarMenuRequest::Layouts));
    assert_eq!(general_step(Action::Open, false), GeneralStep::Nothing);
}

/// The palette, the toolbar menus and the settings ask for a refresh; moving the focus does
/// not; navigation answers for itself.
#[test]
fn refresh_after_a_step() {
    assert_eq!(step_refresh(GeneralStep::OpenPalette), Some(true));
    assert_eq!(step_refresh(GeneralStep::ToolbarMenu(ToolbarMenuRequest::Favorites)), Some(true));
    assert_eq!(step_refresh(GeneralStep::MoveFocus { delta: 1, extend: false }), Some(false));
    assert_eq!(step_refresh(GeneralStep::ToggleHelp), Some(false));
    assert_eq!(step_refresh(GeneralStep::GoUp), None);
    assert_eq!(step_refresh(GeneralStep::Escape), None);
}

/// A search pane keeps its keys, the basket takes its own, the rest is the general handling.
#[test]
fn actions_are_routed_by_the_active_pane() {
    assert_eq!(action_route(Action::Delete, true, false, 0, None, false), ActionRoute::Search);
    assert_eq!(
        action_route(Action::Help, true, false, 0, None, false),
        ActionRoute::General(GeneralStep::ToggleHelp)
    );
    assert_eq!(
        action_route(Action::Delete, false, true, 3, None, false),
        ActionRoute::Basket(BasketKey::Delete { permanent: false })
    );
    assert_eq!(
        action_route(Action::GoUp, false, true, 3, None, false),
        ActionRoute::Basket(BasketKey::Refused)
    );
    assert_eq!(
        action_route(Action::Undo, false, true, 3, None, false),
        ActionRoute::General(GeneralStep::Undo)
    );
    assert_eq!(
        action_route(Action::Delete, false, false, 0, None, false),
        ActionRoute::General(GeneralStep::Delete { permanent: false })
    );
}
