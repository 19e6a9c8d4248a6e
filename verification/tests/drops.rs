use workspace_ctrl::drops::{
    confirm_before_drop, decide_drop, display_name, drop_route, summarize_names, DropRoute,
    DropTargetKind, PendingDrop, plan_drop, DropOutcome,
};

#[test]
fn pending_drop_names_summary_uno_pocos_muchos() {
    let mk = |paths: Vec<&str>| PendingDrop {
        paths: paths.into_iter().map(|p| p.to_string()).collect(),
        dest_dir: "C:\\dest".to_string(),
        dest_pane: 0,
        is_move: false,
        count: 0,
    };
    // The "and N more" suffix is simulated with " +N" so as not to depend on localized texts.
    let more = |n: usize| format!(" +{}", n);

    // One element: its name in angle quotes.
    assert_eq!(mk(vec!["C:\\a\\foo.txt"]).names_summary(more), "«foo.txt»");

    // A few (3): all listed, no suffix.
    assert_eq!(
        mk(vec!["C:\\a\\a.txt", "C:\\a\\b.txt", "C:\\a\\c.txt"]).names_summary(more),
        "«a.txt», «b.txt», «c.txt»"
    );

    // Right at the threshold (4): all four, no suffix.
    assert_eq!(mk(vec!["x\\1", "x\\2", "x\\3", "x\\4"]).names_summary(more), "«1», «2», «3», «4»");

    // Many (6): the first four + " +2" (two left unnamed).
    assert_eq!(
        mk(vec!["x\\1", "x\\2", "x\\3", "x\\4", "x\\5", "x\\6"]).names_summary(more),
        "«1», «2», «3», «4» +2"
    );
}

#[test]
fn display_names_of_paths() {
    assert_eq!(display_name("C:\\a\\foo.txt"), "foo.txt");
    assert_eq!(display_name("C:\\a\\dir\\"), "dir");
    assert_eq!(display_name("C:/a/b"), "b");
    assert_eq!(display_name("C:\\"), "C:\\");
    assert_eq!(display_name("C:foo"), "foo");
    assert_eq!(display_name("plain"), "plain");
    assert_eq!(display_name("a\\.."), "a\\..");
    assert_eq!(display_name(""), "");
    assert_eq!(display_name("C:\\a\\."), "a");
    assert_eq!(display_name("C:\\a\\.\\"), "a");
    assert_eq!(display_name("C:\\a\\..\\"), "C:\\a\\..\\");
    assert_eq!(display_name("."), ".");
    assert_eq!(display_name("C:."), "C:.");
    assert_eq!(display_name("1:foo"), "1:foo");
    assert_eq!(display_name("\\\\srv\\share"), "\\\\srv\\share");
    assert_eq!(display_name("\\\\srv\\share\\"), "\\\\srv\\share\\");
    assert_eq!(display_name("\\\\srv\\share\\x"), "x");
    assert_eq!(display_name("//srv/share/x"), "x");
    assert_eq!(display_name("\\\\srv"), "srv");
    assert_eq!(display_name("\\\\.\\COM1"), "\\\\.\\COM1");
    assert_eq!(display_name("\\\\?\\C:\\a\\."), "\\\\?\\C:\\a\\.");
    assert_eq!(display_name("\\\\?\\C:\\a/b"), "a/b");
    assert_eq!(display_name("\\\\?\\UNC\\srv\\share"), "\\\\?\\UNC\\srv\\share");
    assert_eq!(display_name("\\\\?\\UNC\\srv\\share\\f.txt"), "f.txt");
    assert_eq!(display_name("\\\\?\\UNC/srv\\share"), "\\\\?\\UNC/srv\\share");
    assert_eq!(display_name("\\\\?\\x/y"), "\\\\?\\x/y");
    assert_eq!(display_name("//?/x"), "//?/x");
}

#[test]
fn summaries_of_names() {
    let names: Vec<String> = vec![];
    assert_eq!(summarize_names(&names, |n: usize| format!("+{n}")), "");
    let names: Vec<String> = (1..=5).map(|i| i.to_string()).collect();
    assert_eq!(summarize_names(&names, |n: usize| format!(" y {n} más")), "«1», «2», «3», «4» y 1 más");
}

#[test]
fn drop_at_move_hint_del_ole_fuerza_mover() {
    // Shift moves even across drives and even with Ctrl held.
    assert!(decide_drop(true, false, false));
    assert!(decide_drop(true, true, true));
}

#[test]
fn drop_at_mismo_disco_sin_modificadores_mueve_por_defecto() {
    assert!(decide_drop(false, false, true));
    assert!(!decide_drop(false, false, false), "across drives it copies");
    assert!(!decide_drop(false, true, true), "Ctrl copies on the same drive");
}

#[test]
fn file_drop_onto_its_own_folder_is_refused() {
    assert_eq!(drop_route(true, Some(DropTargetKind::Files), true, false), DropRoute::Refuse);
    assert_eq!(drop_route(true, Some(DropTargetKind::Files), false, true), DropRoute::Refuse);
    assert_eq!(drop_route(true, Some(DropTargetKind::Files), false, false), DropRoute::Prepare);
    assert_eq!(drop_route(true, Some(DropTargetKind::Basket), true, true), DropRoute::AddToBasket);
    assert_eq!(drop_route(true, Some(DropTargetKind::Other), false, false), DropRoute::Ignore);
    assert_eq!(drop_route(true, None, false, false), DropRoute::Ignore);
    assert_eq!(drop_route(false, Some(DropTargetKind::Files), false, false), DropRoute::Ignore);
}

#[test]
fn drop_un_solo_popup_segun_haya_conflicto() {
    assert!(confirm_before_drop(true, false));
    assert!(!confirm_before_drop(true, true), "a collision goes straight to the conflict dialog");
    assert!(!confirm_before_drop(false, false));
    let pd = PendingDrop::new(vec!["C:\\a\\x".to_string(), "C:\\a\\y".to_string()], "D:\\".to_string(), 3, true);
    assert_eq!(pd.count, 2);
    assert!(pd.is_move);
}

#[test]
fn prepared_drop_waits_or_starts() {
    let paths = vec!["C:\\a\\x".to_string()];
    match plan_drop(paths.clone(), "D:\\".to_string(), 3, true, true, false) {
        DropOutcome::Confirm(pd) => {
            assert_eq!(pd.count, 1);
            assert!(pd.is_move);
            match pd.confirm() {
                DropOutcome::Start { paths: p, dest_dir, dest_pane, is_move } => {
                    assert_eq!(p, paths);
                    assert_eq!(dest_dir, "D:\\");
                    assert_eq!(dest_pane, 3);
                    assert!(is_move);
                }
                DropOutcome::Confirm(_) => panic!("confirming starts the transfer"),
            }
        }
        DropOutcome::Start { .. } => panic!("the setting asks for confirmation"),
    }
    // A collision goes straight to the operation (its conflict dialog asks).
    assert!(matches!(plan_drop(paths.clone(), "D:\\".to_string(), 3, false, true, true), DropOutcome::Start { .. }));
    // Confirmation off: the transfer starts at once.
    assert!(matches!(plan_drop(paths, "D:\\".to_string(), 3, false, false, false), DropOutcome::Start { .. }));
}
