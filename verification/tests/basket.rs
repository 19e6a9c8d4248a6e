use workspace_ctrl::basket::{basket_move_target, basket_selected, move_focus_only, BasketImport};
use workspace_ctrl::export::{export_positions, join_lines, with_bom};

#[test]
fn basket_import_marks_missing_paths() {
    let imp = BasketImport::new(
        vec!["C:\\a".to_string(), "C:\\gone".to_string(), "D:\\b".to_string()],
        &vec![true, false, true],
    );
    assert_eq!(imp.paths().len(), 3);
    assert_eq!(imp.missing(), &vec!["C:\\gone".to_string()]);
    let (paths, missing) = imp.into_parts();
    assert_eq!(paths[2], "D:\\b");
    assert_eq!(missing.len(), 1);
}

#[test]
fn basket_keyboard_moves_are_clamped() {
    assert_eq!(basket_move_target(0, None, 1), None);
    assert_eq!(basket_move_target(5, None, 1), Some(0));
    assert_eq!(basket_move_target(5, None, -1), Some(4));
    assert_eq!(basket_move_target(5, Some(2), 10), Some(4));
    assert_eq!(basket_move_target(5, Some(2), -10), Some(0));
    assert_eq!(basket_move_target(5, Some(2), -1), Some(1));
    assert!(move_focus_only(true, false));
    assert!(!move_focus_only(true, true));
    assert!(!move_focus_only(false, false));
    let items = vec!["x".to_string(), "y".to_string()];
    assert_eq!(basket_selected(true, Some(&"y".to_string()), &items), Some("y".to_string()));
    assert_eq!(basket_selected(false, Some(&"y".to_string()), &items), None);
    assert_eq!(basket_selected(true, Some(&"z".to_string()), &items), None);
    assert_eq!(basket_selected(true, None, &items), None);
}

#[test]
fn exports() {
    assert_eq!(export_positions(&vec![4, 1], 9), vec![4, 1]);
    assert_eq!(export_positions(&vec![], 3), vec![0, 1, 2]);
    assert_eq!(export_positions(&vec![4, 12, 1, 9], 9), vec![4, 1]);
    assert_eq!(export_positions(&vec![12], 9), Vec::<usize>::new());
    assert_eq!(join_lines(&vec!["a".to_string(), "b".to_string()]), "a\r\nb");
    assert_eq!(join_lines(&vec![]), "");
    assert_eq!(with_bom("é"), vec![0xEF, 0xBB, 0xBF, 0xC3, 0xA9]);
}
