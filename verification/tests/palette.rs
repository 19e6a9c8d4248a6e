use workspace_ctrl::actions::{basket_key, Action, BasketKey};
use workspace_ctrl::palette::{
    build_palette, curated_actions, CommandCategory, CommandPayload, PaletteInput,
};
use workspace_ctrl::radar::{
    labelled_candidates, open_panel_candidates, open_radar, to_other_step, without_origin,
    DestinationCandidate, DestinationSource, PaneFolder, RadarOrigin, RadarTransfer, ToOtherStep,
};
use workspace_ctrl::signature::xor_fold;

fn pair(a: &str, b: &str) -> (String, String) {
    (a.to_string(), b.to_string())
}

fn sample_input() -> PaletteInput {
    let curated = curated_actions()
        .iter()
        .enumerate()
        .map(|(k, _)| (format!("action {k}"), if k == 2 { "Ctrl+C".to_string() } else { String::new() }))
        .collect();
    PaletteInput {
        recipes_title: "Recipes".to_string(),
        recipe_open: "Open recipe".to_string(),
        recipes: vec![pair("weekly", "C:\\r\\weekly.naygorecipe")],
        points_title: "Points".to_string(),
        queries_title: "Queries".to_string(),
        query_load: "Load query".to_string(),
        queries: vec![],
        spaces_title: "Spaces".to_string(),
        delivery_title: "Delivery".to_string(),
        curated,
        files: vec!["a.txt".to_string(), "b.txt".to_string()],
        recents: vec![pair("docs", "C:\\docs")],
        favorites: vec![pair("Work", "D:\\work")],
        theme_prefix: "Theme: ".to_string(),
        themes: vec![pair("Dark", "dark")],
        config_label: "Open settings".to_string(),
    }
}

#[test]
fn palette_lists_every_source_in_order() {
    let commands = build_palette(&sample_input());
    // 1 + 1 recipe + 2 titles + 0 queries + 2 titles + 25 actions + 2 files + 1 + 1 + 1 theme + 1
    assert_eq!(commands.len(), 37);
    assert_eq!(commands[0].label, "Recipes");
    assert_eq!(commands[0].payload, CommandPayload::Recipes);
    assert_eq!(commands[1].label, "Open recipe: weekly");
    assert_eq!(commands[1].payload, CommandPayload::LoadRecipe("C:\\r\\weekly.naygorecipe".to_string()));
    assert_eq!(commands[2].payload, CommandPayload::ComparisonPoints);
    assert_eq!(commands[3].payload, CommandPayload::SavedQueries);
    assert_eq!(commands[4].payload, CommandPayload::TaskSpaces);
    assert_eq!(commands[5].payload, CommandPayload::PrepareDelivery);
    assert_eq!(commands[6].payload, CommandPayload::Action(Action::RunAsAdministrator));
    assert_eq!(commands[8].payload, CommandPayload::Action(Action::Copy));
    assert_eq!(commands[8].shortcut, "Ctrl+C");
    assert_eq!(commands[30].payload, CommandPayload::Action(Action::EditPath));
    assert_eq!(commands[31].category, CommandCategory::File);
    assert_eq!(commands[32].payload, CommandPayload::FocusEntry(1));
    assert_eq!(commands[32].label, "b.txt");
    assert_eq!(commands[33].category, CommandCategory::Recent);
    assert_eq!(commands[33].payload, CommandPayload::Navigate("C:\\docs".to_string()));
    assert_eq!(commands[34].category, CommandCategory::Favorite);
    assert_eq!(commands[34].label, "Work");
    assert_eq!(commands[35].label, "Theme: Dark");
    assert_eq!(commands[35].payload, CommandPayload::Theme("dark".to_string()));
    assert_eq!(commands[36].category, CommandCategory::Config);
    assert_eq!(commands[36].payload, CommandPayload::OpenConfig);
}

#[test]
fn palette_curated_actions_in_presentation_order() {
    let actions = curated_actions();
    assert_eq!(actions.len(), 25);
    assert_eq!(actions[0], Action::RunAsAdministrator);
    assert_eq!(actions[1], Action::ComparePanels);
    assert_eq!(actions[24], Action::EditPath);
    assert!(!actions.contains(&Action::MoveUp));
}

#[test]
fn basket_pane_routes_its_keys() {
    assert_eq!(basket_key(Action::SelectAll, 3, None), BasketKey::SelectAll);
    assert_eq!(basket_key(Action::ExtendPageUp, 3, None), BasketKey::MoveModified { delta: -20, keep: false, extend: true });
    assert_eq!(basket_key(Action::ExtendEnd, 3, None), BasketKey::SelectModified { index: 2, toggle: false, extend: true });
    assert_eq!(basket_key(Action::FocusEnd, 0, None), BasketKey::SelectAt { index: 0 });
    assert_eq!(basket_key(Action::ToggleFocused, 3, Some(1)), BasketKey::SelectModified { index: 1, toggle: true, extend: false });
    assert_eq!(basket_key(Action::ToggleSelect, 3, None), BasketKey::Refused);
    assert_eq!(basket_key(Action::DeletePermanent, 3, None), BasketKey::Delete { permanent: true });
    assert_eq!(basket_key(Action::MoveToOther, 3, None), BasketKey::Transfer { move_files: true });
    assert_eq!(basket_key(Action::MoveUp, 3, None), BasketKey::MoveSelection { delta: -1 });
    assert_eq!(basket_key(Action::Rename, 3, None), BasketKey::Refused);
    assert_eq!(basket_key(Action::Help, 3, None), BasketKey::General);
}

fn cand(path: &str, source: DestinationSource) -> DestinationCandidate {
    DestinationCandidate { path: path.to_string(), label: path.to_string(), source }
}

#[test]
fn radar_offers_other_panes_and_never_the_origin() {
    let panes = vec![
        PaneFolder { id: 1, dir: Some("C:\\a".to_string()), label: "A".to_string() },
        PaneFolder { id: 2, dir: None, label: "Tree".to_string() },
        PaneFolder { id: 3, dir: Some("C:\\b".to_string()), label: "B".to_string() },
    ];
    let open = open_panel_candidates(&panes, 1);
    assert_eq!(open, vec![DestinationCandidate {
        path: "C:\\b".to_string(),
        label: "B".to_string(),
        source: DestinationSource::OpenPanel,
    }]);
    let favorites = labelled_candidates(&vec![pair("D:\\w", "Work")], DestinationSource::Favorite);
    assert_eq!(favorites[0].label, "Work");
    assert_eq!(favorites[0].source, DestinationSource::Favorite);

    let ranked = vec![cand("C:\\a", DestinationSource::Recent), cand("C:\\b", DestinationSource::OpenPanel)];
    let kept = without_origin(&ranked, &Some("C:\\a".to_string()));
    assert_eq!(kept, vec![cand("C:\\b", DestinationSource::OpenPanel)]);
    assert_eq!(without_origin(&ranked, &None).len(), 2);

    let radar = open_radar(true, vec!["C:\\a\\f.txt".to_string()], &ranked, &Some("C:\\a".to_string()), RadarOrigin::FilesSelection)
        .expect("one destination left");
    let transfer = radar.resolve(0).expect("index 0 exists");
    assert_eq!(transfer.destination, "C:\\b");
    assert!(transfer.move_files);
    assert_eq!(transfer.origin, RadarOrigin::FilesSelection);

    let only_origin = vec![cand("C:\\a", DestinationSource::Recent)];
    assert!(open_radar(false, vec!["x".to_string()], &only_origin, &Some("C:\\a".to_string()), RadarOrigin::Basket).is_none());
    assert!(open_radar(false, vec![], &ranked, &None, RadarOrigin::Basket).is_none());
    let radar = open_radar(false, vec!["x".to_string()], &ranked, &None, RadarOrigin::Basket).unwrap();
    assert!(radar.resolve(5).is_none());
}

#[test]
fn signature_sets_fold_without_order() {
    assert_eq!(xor_fold(&vec![]), 0);
    assert_eq!(xor_fold(&vec![0b1100, 0b1010]), 0b0110);
    assert_eq!(xor_fold(&vec![5, 9, 12]), xor_fold(&vec![12, 5, 9]));
    assert_eq!(xor_fold(&vec![7, 3, 3]), 7);
}

fn two_panes() -> Vec<PaneFolder> {
    vec![
        PaneFolder { id: 1, dir: Some("C:\\a".to_string()), label: "a".to_string() },
        PaneFolder { id: 2, dir: Some("C:\\b".to_string()), label: "b".to_string() },
    ]
}

fn direct_transfer(step: ToOtherStep) -> RadarTransfer {
    match step {
        ToOtherStep::Transfer(t) => t,
        _ => panic!("with two panes the transfer starts at once"),
    }
}

/// Copy to the other pane with two panes: the selection goes straight to the other pane's
/// folder.
#[test]
fn mover_al_otro_panel_con_dos_paneles() {
    let ranked = vec![cand("C:\\b", DestinationSource::OpenPanel)];
    let step = to_other_step(false, vec!["C:\\a\\doc.txt".to_string()], &two_panes(), 1, &ranked, &Some("C:\\a".to_string()));
    let t = direct_transfer(step);
    assert_eq!(t.destination, "C:\\b");
    assert_eq!(t.sources, vec!["C:\\a\\doc.txt".to_string()]);
    assert!(!t.move_files);
    assert_eq!(t.origin, RadarOrigin::FilesSelection);
}

/// Copying a file to the other pane starts a copy (not a move) into that pane's folder.
#[test]
fn copiar_archivo_al_otro_panel() {
    let step = to_other_step(false, vec!["C:\\a\\foto.txt".to_string()], &two_panes(), 1, &vec![], &Some("C:\\a".to_string()));
    let t = direct_transfer(step);
    assert_eq!(t.destination, "C:\\b");
    assert!(!t.move_files);
}

/// F6 (move to the other pane) with two panes moves the file into the other pane's folder.
#[test]
fn mover_archivo_al_otro_panel_con_f6() {
    let step = to_other_step(true, vec!["C:\\a\\informe.txt".to_string()], &two_panes(), 1, &vec![], &Some("C:\\a".to_string()));
    let t = direct_transfer(step);
    assert_eq!(t.destination, "C:\\b");
    assert!(t.move_files);
}

#[test]
fn other_pane_with_more_panes_opens_the_radar() {
    let mut panes = two_panes();
    panes.push(PaneFolder { id: 3, dir: Some("D:\\c".to_string()), label: "c".to_string() });
    let ranked = vec![cand("C:\\b", DestinationSource::OpenPanel), cand("D:\\c", DestinationSource::OpenPanel), cand("C:\\a", DestinationSource::Recent)];
    match to_other_step(false, vec!["x".to_string()], &panes, 1, &ranked, &Some("C:\\a".to_string())) {
        ToOtherStep::Radar(radar) => assert_eq!(radar.candidates.len(), 2),
        _ => panic!("three panes open the radar"),
    }
    assert!(matches!(to_other_step(false, vec![], &panes, 1, &ranked, &None), ToOtherStep::Nothing));
    // The other pane shows the origin folder: no direct transfer, and the radar has nothing else.
    let same = vec![
        PaneFolder { id: 1, dir: Some("C:\\a".to_string()), label: "a".to_string() },
        PaneFolder { id: 2, dir: Some("C:\\a".to_string()), label: "a".to_string() },
    ];
    let only_origin = vec![cand("C:\\a", DestinationSource::OpenPanel)];
    assert!(matches!(to_other_step(false, vec!["x".to_string()], &same, 1, &only_origin, &Some("C:\\a".to_string())), ToOtherStep::Nothing));
}
