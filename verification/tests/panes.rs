use workspace_ctrl::drives::path_is_on_drive;
use workspace_ctrl::session::PanePurpose;
use workspace_ctrl::panes::{
    can_close, close_targets, cycle_next, pane_drop, DropZone, PaneDrop, PaneList, initial_workspace, swap_folders, eject_outcome, eject_refusal, maximized_after_activate,
    panes_on_drive, pick_key, pick_resolve, request_step, resolve_target, switch_all_target,
    switch_pane_target, toggle_maximize, window_title, EjectAttempt, EjectOutcome, NewFolderState,
    PaneAction, PanePick, PaneTarget, PickKey, RequestStep, WindowTitleMode,
};

#[test]
fn path_is_on_drive_casos() {
    let on = |p: &str, d: &str| path_is_on_drive(p, d);
    assert!(on(r"E:\foto", r"E:\"));
    assert!(on(r"E:\a\b\c", r"E:\"));
    assert!(on(r"E:\", r"E:\"));
    assert!(on(r"e:\x", r"E:\"));
    assert!(on(r"E:\x", r"e:\"));
    assert!(!on(r"C:\", r"E:\"));
    assert!(!on(r"C:\foto", r"E:\"));
    assert!(!on(r"EE:\x", r"E:\"));
    assert!(!on(r"\\srv\share\x", r"E:\"));
}

#[test]
fn panes_on_drive_filtra_por_disco() {
    let panes = vec![
        (1u64, r"C:\Users\ana".to_string()),
        (2u64, r"E:\fotos".to_string()),
        (3u64, r"c:\tmp".to_string()),
        (4u64, r"\\srv\share".to_string()),
    ];
    assert_eq!(
        panes_on_drive(&panes, r"C:\"),
        vec![(1u64, r"C:\Users\ana".to_string()), (3u64, r"c:\tmp".to_string())]
    );
    assert_eq!(panes_on_drive(&panes, r"E:\"), vec![(2u64, r"E:\fotos".to_string())]);
    assert!(panes_on_drive(&panes, r"Z:\").is_empty());
}

#[test]
fn resolve_target_segun_cantidad_de_paneles() {
    // One pane: no candidate, split first.
    assert_eq!(resolve_target(vec![]), PaneTarget::NeedsSplit);
    // Two panes: the other one directly.
    assert_eq!(resolve_target(vec![1]), PaneTarget::Direct(1));
    // Three panes: the picker over two candidates.
    match resolve_target(vec![1, 2]) {
        PaneTarget::Pick(cands) => assert_eq!(cands.len(), 2),
        other => panic!("expected Pick, got {other:?}"),
    }
}

#[test]
fn selector_pendiente_y_resolucion() {
    let target = resolve_target(vec![11, 12]);
    let step = request_step(&PaneAction::Clone, target);
    let candidates = match step {
        RequestStep::ShowPicker(c) => c,
        other => panic!("expected the picker, got {other:?}"),
    };
    assert_eq!(candidates, vec![11, 12]);
    let pick = PanePick { action: PaneAction::Clone, origin: 10, candidates };
    assert_eq!(pick_resolve(pick.clone(), 1), Some((PaneAction::Clone, 10, 11)));
    assert_eq!(pick_resolve(pick.clone(), 2), Some((PaneAction::Clone, 10, 12)));
    assert_eq!(pick_resolve(pick.clone(), 0), None);
    assert_eq!(pick_resolve(pick, 3), None);
}

#[test]
fn cancelar_selector() {
    assert_eq!(pick_key("\u{1b}", '\u{1b}'), PickKey::Cancel);
    assert_eq!(pick_key("2", '\u{1b}'), PickKey::Choose(2));
    assert_eq!(pick_key("0", '\u{1b}'), PickKey::Ignore);
    assert_eq!(pick_key("a", '\u{1b}'), PickKey::Ignore);
    assert_eq!(pick_key("", '\u{1b}'), PickKey::Ignore);
}

#[test]
fn request_without_other_pane() {
    assert_eq!(request_step(&PaneAction::Swap, PaneTarget::NeedsSplit), RequestStep::Nothing);
    assert_eq!(request_step(&PaneAction::Stack, PaneTarget::NeedsSplit), RequestStep::Nothing);
    assert_eq!(
        request_step(&PaneAction::OpenDir("x".to_string()), PaneTarget::NeedsSplit),
        RequestStep::SplitThenApply
    );
    assert_eq!(request_step(&PaneAction::Swap, PaneTarget::Direct(4)), RequestStep::Apply(4));
}

#[test]
fn cerrar_panel_quita_uno_y_protege_el_ultimo() {
    // A single pane cannot be closed.
    let t = close_targets(1, true, None);
    assert_eq!(t, vec![1]);
    assert!(!can_close(t.len(), 1));
    // With two panes one can go.
    assert!(can_close(close_targets(2, true, None).len(), 2));
    // A linked tree and file list close together, and need a third pane to remain.
    let pair = close_targets(3, true, Some(4));
    assert_eq!(pair, vec![3, 4]);
    assert!(!can_close(pair.len(), 2));
    assert!(can_close(pair.len(), 3));
    assert!(close_targets(9, false, None).is_empty());
    assert!(!can_close(0, 3));
}

#[test]
fn tab_cycles_through_panes() {
    let files = vec![5, 7, 9];
    assert_eq!(switch_pane_target(&files, Some(5)), Some(7));
    assert_eq!(switch_pane_target(&files, Some(9)), Some(5));
    assert_eq!(switch_pane_target(&files, None), None);
    assert_eq!(switch_pane_target(&vec![5], Some(5)), None);
    // An active pane outside the list counts from the first.
    assert_eq!(switch_all_target(&files, Some(42)), Some(7));
    assert_eq!(switch_all_target(&files, None), Some(7));
    assert_eq!(switch_all_target(&vec![1], Some(1)), None);
    let mut cur = 5;
    for _ in 0..3 {
        cur = cycle_next(&files, Some(cur));
    }
    assert_eq!(cur, 5, "three steps come back to the start");
}

#[test]
fn maximize_and_title() {
    assert_eq!(toggle_maximize(None, 3), Some(3));
    assert_eq!(toggle_maximize(Some(3), 3), None);
    assert_eq!(toggle_maximize(Some(2), 3), Some(3));
    assert_eq!(maximized_after_activate(Some(3), 4), None);
    assert_eq!(maximized_after_activate(Some(3), 3), Some(3));
    assert_eq!(maximized_after_activate(None, 3), None);
    assert_eq!(window_title(WindowTitleMode::AppOnly, Some(r"C:\x")), "Naygo");
    assert_eq!(window_title(WindowTitleMode::AppAndPath, Some(r"C:\x")), r"Naygo — C:\x");
    assert_eq!(window_title(WindowTitleMode::AppAndPath, None), "Naygo");
    assert_eq!(window_title(WindowTitleMode::PathOnly, Some(r"C:\x")), r"C:\x");
    assert_eq!(window_title(WindowTitleMode::PathOnly, None), "Naygo");
}

#[test]
fn eject_outcomes() {
    assert_eq!(
        eject_refusal(false),
        Some(EjectOutcome::Failed("not a removable drive".to_string()))
    );
    assert_eq!(eject_refusal(true), None);
    assert_eq!(eject_outcome(EjectAttempt::Done), EjectOutcome::Ejected);
    assert_eq!(eject_outcome(EjectAttempt::InUse), EjectOutcome::InUse);
    assert_eq!(
        eject_outcome(EjectAttempt::Error("code 5".to_string())),
        EjectOutcome::Failed("code 5".to_string())
    );
}

#[test]
fn new_folder_dialog() {
    let mut st = NewFolderState::new(r"C:\work".to_string());
    assert_eq!(st.text, "");
    st.set_text("a\nb\\c");
    assert_eq!(st.text, "a\nb\\c");
    assert_eq!(st.dir, r"C:\work");
}

/// Dropping a pane on itself changes nothing, wherever on it.
#[test]
fn drop_sobre_si_mismo_es_noop() {
    let a = 1u64;
    assert_eq!(pane_drop(a, Some((a, DropZone::Center))), PaneDrop::Nothing);
    assert_eq!(pane_drop(a, Some((a, DropZone::Right))), PaneDrop::Nothing);
    assert_eq!(pane_drop(a, None), PaneDrop::Nothing);
}

/// Dropping a pane in the centre of another stacks them as tabs.
#[test]
fn drop_en_el_centro_apila() {
    let (a, b) = (1u64, 2u64);
    assert_eq!(pane_drop(a, Some((b, DropZone::Center))), PaneDrop::Stack { target: b });
}

/// Dropping on an edge splits; the dragged pane lands on that side.
#[test]
fn drop_en_borde_divide() {
    let (a, b) = (1u64, 2u64);
    assert_eq!(
        pane_drop(a, Some((b, DropZone::Right))),
        PaneDrop::Split { target: b, horizontal: true, dragged_first: false }
    );
    assert_eq!(
        pane_drop(a, Some((b, DropZone::Left))),
        PaneDrop::Split { target: b, horizontal: true, dragged_first: true }
    );
    assert_eq!(
        pane_drop(a, Some((b, DropZone::Top))),
        PaneDrop::Split { target: b, horizontal: false, dragged_first: true }
    );
    assert_eq!(
        pane_drop(a, Some((b, DropZone::Bottom))),
        PaneDrop::Split { target: b, horizontal: false, dragged_first: false }
    );
}

/// Swapping two file panes exchanges their folders; twice gives them back.
#[test]
fn swap_intercambia_carpetas() {
    let once = swap_folders(Some("C:\\a".to_string()), Some("D:\\b".to_string())).unwrap();
    assert_eq!(once, ("D:\\b".to_string(), "C:\\a".to_string()));
    let twice = swap_folders(Some(once.0), Some(once.1)).unwrap();
    assert_eq!(twice, ("C:\\a".to_string(), "D:\\b".to_string()));
    assert_eq!(swap_folders(Some("C:\\a".to_string()), None), None);
}

/// The operations pane is added once, and not while it is there.
#[test]
fn ops_pane_added_once() {
    let mut ws = PaneList { panes: vec![(1, PanePurpose::Files), (2, PanePurpose::Tree)], active: Some(2) };
    assert!(ws.ensure_ops_pane(3));
    assert_eq!(ws.panes, vec![(1, PanePurpose::Files), (2, PanePurpose::Tree), (3, PanePurpose::Operations)]);
    assert!(!ws.ensure_ops_pane(4));
    assert_eq!(ws.panes.len(), 3);
    assert_eq!(ws.active, Some(2));
}

#[test]
fn ensure_ops_pane_agrega_una_vez_y_no_roba_foco() {
    let mut c = PaneList { panes: vec![(1, PanePurpose::Files)], active: Some(1) };
    let files_id = c.active;
    let has_ops = |c: &PaneList| c.panes.iter().any(|p| p.1 == PanePurpose::Operations);
    assert!(!has_ops(&c), "no hay panel de ops");

    c.ensure_ops_pane(2);
    assert!(has_ops(&c), "se agregó el panel de ops");
    assert_eq!(c.active, files_id, "el activo sigue siendo el panel Files (no robó foco)");
    let ops_count = c.panes.iter().filter(|p| p.1 == PanePurpose::Operations).count();
    assert_eq!(ops_count, 1, "exactamente un panel de operaciones");

    // Segunda llamada: idempotente, no agrega otro.
    c.ensure_ops_pane(3);
    let ops_count2 = c.panes.iter().filter(|p| p.1 == PanePurpose::Operations).count();
    assert_eq!(ops_count2, 1, "sigue habiendo exactamente uno");
}

/// A session starts with one active file pane on the start folder, which is the only recent
/// folder; the operations pane is then added once without taking the focus.
#[test]
fn initial_workspace_one_active_file_pane() {
    let mut w = initial_workspace(7, "C:\\work".to_string());
    assert_eq!(w.panes.panes, vec![(7, PanePurpose::Files)]);
    assert_eq!(w.panes.active, Some(7));
    assert_eq!(w.folders, vec![(7, "C:\\work".to_string())]);
    assert_eq!(w.recents, vec!["C:\\work".to_string()]);
    assert_eq!(w.last_active_files, Some(7));
    assert!(w.panes.ensure_ops_pane(8));
    assert_eq!(w.panes.active, Some(7));
}
