use workspace_ctrl::actions::{key_step, Action, KeyContext, KeyStep};
use workspace_ctrl::columns::{column_label_key, ColumnKind};
use workspace_ctrl::completion::{completion_candidates, order_by_lowercase, path_suggestions, split_edit_buffer};
use workspace_ctrl::compare::{comparison_hidden, comparison_partner, comparison_selection};
use workspace_ctrl::jobs::{DeepJob, DeepRecv, SearchJob, SearchMsg, SizeJob, SizeMsg};
use workspace_ctrl::listing::{deep_rows, DeepItem};
use workspace_ctrl::meta::{inspector_kind, inspector_shows_size, BasicRead};
use workspace_ctrl::navigation::{
    click_select, open_step, rename_chain_next, search_detail, ClickSelect, OpenStep,
};
use workspace_ctrl::operations::{
    action_paths, delete_route, is_single_zip, operation_sources, rename_session_matches,
    rename_target, terminal_of, trimmed_name, DeleteRoute, Terminal,
};
use workspace_ctrl::palette::{palette_payload, Command, CommandCategory, CommandPayload};
use workspace_ctrl::panes::{context_after_activate, pane_label, FocusContext, PaneTitles};
use workspace_ctrl::points::{points_close_step, points_delete_step, DeleteStep};
use workspace_ctrl::session::PanePurpose;

fn ctx() -> KeyContext {
    KeyContext { menu_open: false, keys_suspended: false, renaming: false, picking: false }
}

#[test]
fn key_presses_route_first_match_wins() {
    let menu = KeyContext { menu_open: true, ..ctx() };
    assert_eq!(key_step(menu, true, None, Some(Action::CancelListing), false), KeyStep::CloseMenus);
    assert_eq!(key_step(menu, false, None, Some(Action::Copy), false), KeyStep::Run(Action::Copy));
    let modal = KeyContext { keys_suspended: true, ..ctx() };
    assert_eq!(key_step(modal, false, None, Some(Action::Activate), false), KeyStep::Swallow);
    let renaming = KeyContext { renaming: true, ..ctx() };
    assert_eq!(key_step(renaming, false, None, None, false), KeyStep::Swallow);
    let picking = KeyContext { picking: true, ..ctx() };
    assert_eq!(key_step(picking, false, Some(2), None, false), KeyStep::Pick(2));
    assert_eq!(key_step(picking, false, Some(0), None, false), KeyStep::Swallow);
    assert_eq!(key_step(picking, true, None, None, false), KeyStep::CancelPick);
    assert_eq!(key_step(picking, false, None, Some(Action::Copy), false), KeyStep::Swallow);
    assert_eq!(key_step(ctx(), false, None, None, false), KeyStep::Typeahead);
    assert_eq!(key_step(ctx(), false, None, Some(Action::SwitchPane), true), KeyStep::SwitchAllPanes);
    assert_eq!(key_step(ctx(), false, None, Some(Action::SwitchPane), false), KeyStep::Run(Action::SwitchPane));
}

#[test]
fn opening_and_clicking_rows() {
    assert_eq!(open_step(None, false), OpenStep::Nothing);
    assert_eq!(open_step(Some(true), true), OpenStep::OpenInOtherPane);
    assert_eq!(open_step(Some(true), false), OpenStep::Navigate);
    assert_eq!(open_step(Some(false), true), OpenStep::OpenDefault);
    assert_eq!(click_select(true, true), ClickSelect::Range);
    assert_eq!(click_select(false, true), ClickSelect::Toggle);
    assert_eq!(click_select(false, false), ClickSelect::Single);
}

#[test]
fn chained_rename_stays_in_the_view() {
    assert_eq!(rename_chain_next(3, 1, 10), Some(4));
    assert_eq!(rename_chain_next(9, 1, 10), Some(9));
    assert_eq!(rename_chain_next(0, -1, 10), Some(0));
    assert_eq!(rename_chain_next(5, -1, 10), Some(4));
    assert_eq!(rename_chain_next(20, -1, 10), Some(9));
    assert_eq!(rename_chain_next(0, 1, 0), None);
}

#[test]
fn search_result_detail() {
    assert_eq!(search_detail(Some("4 KB"), "01/02/2024"), "4 KB · 01/02/2024");
    assert_eq!(search_detail(Some("4 KB"), ""), "4 KB");
    assert_eq!(search_detail(None, "01/02/2024"), "01/02/2024");
    assert_eq!(search_detail(None, ""), "");
}

#[test]
fn focusing_panes_sets_the_contexts() {
    let both = FocusContext { search: true, basket: true };
    assert_eq!(context_after_activate(both, Some(PanePurpose::Preview)), both);
    assert_eq!(context_after_activate(both, Some(PanePurpose::Files)), FocusContext { search: false, basket: false });
    let none = FocusContext { search: false, basket: false };
    assert_eq!(context_after_activate(none, Some(PanePurpose::Search)), FocusContext { search: true, basket: false });
    assert_eq!(context_after_activate(none, Some(PanePurpose::Basket)), FocusContext { search: false, basket: true });
    assert_eq!(context_after_activate(both, None), none);
}

#[test]
fn pane_labels() {
    let t = PaneTitles {
        tree: "Tree".to_string(),
        inspector: "Inspector".to_string(),
        history: "History".to_string(),
        favorites: "Favorites".to_string(),
        preview: "Preview".to_string(),
        operations: "Operations".to_string(),
        basket: "Basket".to_string(),
        search: "Search".to_string(),
        recents: "Recent".to_string(),
    };
    assert_eq!(pane_label(PanePurpose::Files, Some("docs"), &t), "docs");
    assert_eq!(pane_label(PanePurpose::Files, None, &t), "");
    assert_eq!(pane_label(PanePurpose::Basket, None, &t), "Basket");
    assert_eq!(pane_label(PanePurpose::Recents, Some("x"), &t), "Recent");
}

#[test]
fn deleting_asks_when_it_should() {
    assert_eq!(delete_route(0, true, true), DeleteRoute::Nothing);
    assert_eq!(delete_route(2, false, false), DeleteRoute::TrashNow);
    assert_eq!(delete_route(2, false, true), DeleteRoute::Confirm { permanent: false });
    assert_eq!(delete_route(2, true, false), DeleteRoute::Confirm { permanent: true });
    let ctxm = vec!["C:\\tree\\node".to_string()];
    let sel = vec!["C:\\a.txt".to_string()];
    assert_eq!(operation_sources(ctxm.clone(), sel.clone()), ctxm);
    assert_eq!(operation_sources(vec![], sel.clone()), sel);
}

#[test]
fn operations_take_the_selection_or_the_focus() {
    let view = vec!["C:\\a".to_string(), "C:\\b".to_string(), "C:\\c".to_string()];
    assert_eq!(action_paths(&view, &vec![2, 0], Some(1)), vec!["C:\\c".to_string(), "C:\\a".to_string()]);
    assert_eq!(action_paths(&view, &vec![], Some(1)), vec!["C:\\b".to_string()]);
    assert_eq!(action_paths(&view, &vec![7], Some(9)), Vec::<String>::new());
    assert_eq!(action_paths(&view, &vec![7], Some(0)), vec!["C:\\a".to_string()]);
}

#[test]
fn inline_rename_commits_only_real_changes() {
    assert_eq!(trimmed_name("  nuevo.txt \t"), "nuevo.txt");
    assert_eq!(rename_target("  nuevo.txt ", "viejo.txt", true), Some("nuevo.txt".to_string()));
    assert_eq!(rename_target("   ", "viejo.txt", true), None);
    assert_eq!(rename_target(" viejo.txt", "viejo.txt", true), None);
    assert_eq!(rename_target("a:b", "viejo.txt", false), None);
    assert!(rename_session_matches(Some((4, 7)), 4, 7));
    assert!(!rename_session_matches(Some((4, 7)), 4, 6));
    assert!(!rename_session_matches(None, 4, 7));
}

#[test]
fn comparison_filters_select_marked_rows() {
    let marks = vec![Some(1u8), None, Some(2u8), Some(1u8)];
    assert_eq!(comparison_selection(&marks, 0), vec![0, 2, 3]);
    assert_eq!(comparison_selection(&marks, 1), vec![0, 3]);
    assert_eq!(comparison_selection(&marks, 2), vec![2]);
    assert_eq!(comparison_selection(&vec![None, None], 0), Vec::<usize>::new());
    assert_eq!(comparison_hidden(&marks), vec![1]);
    assert_eq!(comparison_partner(Some((3, 8)), 3), Some(8));
    assert_eq!(comparison_partner(Some((3, 8)), 8), Some(3));
    assert_eq!(comparison_partner(Some((3, 8)), 5), None);
    assert_eq!(comparison_partner(None, 3), None);
}

#[test]
fn basket_inspector_kind_line() {
    assert_eq!(inspector_kind(&BasicRead::Pending, "loading", "Folder", "File"), "loading");
    assert_eq!(inspector_kind(&BasicRead::Failed("denied".to_string()), "loading", "Folder", "File"), "denied");
    assert_eq!(inspector_kind(&BasicRead::Read { is_dir: true }, "loading", "Folder", "File"), "Folder");
    assert_eq!(inspector_kind(&BasicRead::Read { is_dir: false }, "loading", "Folder", "File"), "File");
    assert!(inspector_shows_size(&BasicRead::Read { is_dir: false }));
    assert!(!inspector_shows_size(&BasicRead::Read { is_dir: true }));
    assert!(!inspector_shows_size(&BasicRead::Pending));
}

#[test]
fn background_jobs_follow_their_messages() {
    let mut size = SizeJob::new();
    size.receive(SizeMsg::Progress { bytes: 10 });
    assert_eq!(size.bytes, 10);
    assert!(!size.done);
    size.receive(SizeMsg::Cancelled { bytes: 12 });
    assert!(size.done && size.cancelled);
    assert_eq!(size.bytes, 12);

    let mut search: SearchJob<&str> = SearchJob::new();
    search.receive(SearchMsg::Hit("a"));
    search.receive(SearchMsg::Progress { dirs_scanned: 4 });
    search.receive(SearchMsg::Hit("b"));
    search.receive(SearchMsg::Done { partial: true, hit_cap: false });
    assert_eq!(search.hits, vec!["a", "b"]);
    assert_eq!(search.dirs_scanned, 4);
    assert!(search.done && search.partial && !search.hit_cap && !search.cancelled);

    let mut deep: DeepJob<&str> = DeepJob::new();
    let step = deep.receive(DeepRecv::Entry("x", 2));
    assert!(step.changed && step.more);
    let step = deep.receive(DeepRecv::Progress { dirs_scanned: 3 });
    assert!(!step.changed && step.more);
    let step = deep.receive(DeepRecv::Empty);
    assert!(!step.changed && !step.more);
    let step = deep.receive(DeepRecv::Done { partial: false });
    assert!(step.changed && !step.more);
    assert!(deep.done);
    assert_eq!(deep.items, vec![("x", 2)]);
    let step = deep.receive(DeepRecv::Disconnected);
    assert!(!step.more && deep.done);
}

#[test]
fn palette_command_payload_by_index() {
    let commands = vec![Command {
        label: "Docs".to_string(),
        category: CommandCategory::Recent,
        shortcut: String::new(),
        payload: CommandPayload::Navigate("C:\\docs".to_string()),
    }];
    assert_eq!(palette_payload(&commands, 0), Some(CommandPayload::Navigate("C:\\docs".to_string())));
    assert_eq!(palette_payload(&commands, 1), None);
}

#[test]
fn small_lookups() {
    assert_eq!(column_label_key(ColumnKind::Modified), "col.modified");
    assert_eq!(column_label_key(ColumnKind::Name), "col.name");
    assert!(is_single_zip(1, true, Some("ZiP")));
    assert!(!is_single_zip(2, true, Some("zip")));
    assert!(!is_single_zip(1, false, Some("zip")));
    assert!(!is_single_zip(1, true, Some("rar")));
    assert!(!is_single_zip(1, true, None));
    assert_eq!(terminal_of(1), Terminal::Cmd);
    assert_eq!(terminal_of(2), Terminal::WindowsTerminal);
    assert_eq!(terminal_of(3), Terminal::Wsl);
    assert_eq!(terminal_of(0), Terminal::PowerShell);
    assert_eq!(terminal_of(9), Terminal::PowerShell);
}

fn item(name: &str, visible: bool, depth: u32) -> DeepItem {
    DeepItem {
        name: name.to_string(),
        visible,
        is_dir: depth == 0,
        cut: name == "b",
        depth,
        icon: 7,
        cells: vec![name.to_string(), "1 KB".to_string()],
    }
}

#[test]
fn deep_rows_keep_visible_entries_in_order() {
    let items = vec![item("a", true, 0), item(".hidden", false, 1), item("b", true, 2)];
    let rows = deep_rows(&items);
    assert_eq!(rows.len(), 2);
    assert_eq!(rows[0].name, "a");
    assert!(rows[0].is_dir && !rows[0].cut);
    assert_eq!(rows[1].name, "b");
    assert_eq!(rows[1].depth, 2);
    assert!(rows[1].cut);
    assert_eq!(rows[1].cells, vec!["b".to_string(), "1 KB".to_string()]);
    assert!(!rows[1].selected && !rows[1].focused && !rows[1].highlight);
    assert_eq!(rows[1].icon, 7);
}

#[test]
fn worker_disconnect_is_reported_partial_instead_of_running_forever() {
    let mut job: SearchJob<&str> = SearchJob::new();
    assert!(!job.done);
    job.disconnected();
    assert!(job.done);
    assert!(job.partial);
    assert!(!job.cancelled);
}

#[test]
fn delete_requires_confirmation_and_cancel_preserves_document_and_data() {
    // A point was captured and loaded; the worker is done: delete asks first.
    assert_eq!(points_delete_step(false, true, false), DeleteStep::AskConfirmation);
    // Closing while the deletion is being confirmed withdraws the question and keeps the
    // manager open: the point's file is not touched.
    let (confirm_pending, open) = points_close_step(true, true);
    assert!(!confirm_pending);
    assert!(open);
    assert_ne!(points_delete_step(true, true, false), DeleteStep::Recycle);
}

#[test]
fn path_completion_matches_subfolders_ignoring_case() {
    let (parent, start) = split_edit_buffer("C:\\tmp\\al");
    assert_eq!(parent, "C:\\tmp\\");
    assert_eq!(start, "al");
    assert_eq!(split_edit_buffer("C:/x/"), ("C:/x/".to_string(), String::new()));
    assert_eq!(split_edit_buffer("plain"), (String::new(), "plain".to_string()));
    let names = order_by_lowercase(vec!["Beta".to_string(), "alfajor".to_string(), "Alpha".to_string()]);
    assert_eq!(names, vec!["alfajor".to_string(), "Alpha".to_string(), "Beta".to_string()]);
    let sugg = completion_candidates(&names, &start, 50);
    assert_eq!(sugg, vec!["alfajor".to_string(), "Alpha".to_string()]);
    assert_eq!(completion_candidates(&names, "AL", 1), vec!["alfajor".to_string()]);
    assert_eq!(completion_candidates(&names, "", 50).len(), 3);
}

/// The suggestions for a typed path: none without a folder; else the folders read, ordered
/// ignoring case and filtered by the typed start; only the first 200 read count.
#[test]
fn path_suggestions_for_typed_buffer() {
    let read = vec!["beta".to_string(), "Alpha".to_string(), "alps".to_string(), "gamma".to_string()];
    assert_eq!(path_suggestions("al", read.clone()), Vec::<String>::new());
    assert_eq!(path_suggestions("C:\\al", read.clone()), vec!["Alpha".to_string(), "alps".to_string()]);
    assert_eq!(path_suggestions("C:\\", read.clone()).len(), 4);
    let mut many: Vec<String> = (0..200).map(|i| format!("d{i:03}")).collect();
    many.push("zz".to_string());
    assert_eq!(path_suggestions("C:\\z", many.clone()), Vec::<String>::new());
    assert_eq!(path_suggestions("C:\\d", many).len(), 50);
}
