use workspace_ctrl::navigation::{
    first_match, next_match, rect_range, stack_index_back, stack_index_forward, ClickTracker,
    Typeahead, DOUBLE_CLICK_MS,
};

#[test]
fn doble_clic_en_rust_navega() {
    let mut t = ClickTracker::new();
    assert!(!t.click(1, 3, 1_000), "a first click only selects");
    assert!(t.click(1, 3, 1_000 + DOUBLE_CLICK_MS), "a second click in time opens");
    // A third click right after does not open again.
    assert!(!t.click(1, 3, 1_100 + DOUBLE_CLICK_MS));
    // Too slow, or on another row: no double click.
    let mut t = ClickTracker::new();
    assert!(!t.click(1, 3, 0));
    assert!(!t.click(1, 3, DOUBLE_CLICK_MS + 1));
    assert!(!t.click(1, 4, DOUBLE_CLICK_MS + 2));
    assert!(!t.click(2, 4, DOUBLE_CLICK_MS + 3));
}

#[test]
fn native_double_click_defers_to_the_detector() {
    let mut t = ClickTracker::new();
    assert!(t.native_double_click(1_000));
    assert!(!t.native_double_click(1_200), "the same gesture does not open twice");
    assert!(t.native_double_click(2_000));
    let mut t = ClickTracker::new();
    t.click(1, 1, 0);
    assert!(t.click(1, 1, 100));
    assert!(!t.native_double_click(300));
}

#[test]
fn rubber_band_selecciona_rango() {
    assert_eq!(rect_range(2, 5, 10), Some((2, 5)));
    assert_eq!(rect_range(5, 2, 10), Some((2, 5)));
    assert_eq!(rect_range(-3, 20, 10), Some((0, 9)));
    assert_eq!(rect_range(12, 15, 10), Some((9, 9)));
    assert_eq!(rect_range(0, 3, 0), None);
}

#[test]
fn menu_de_historial_salta_por_indice() {
    // Stack of 5 with the cursor on index 2: back entries are 1, 0; forward entries are 3, 4.
    assert_eq!(stack_index_back(Some(2), 0), Some(1));
    assert_eq!(stack_index_back(Some(2), 1), Some(0));
    assert_eq!(stack_index_back(Some(2), 2), None);
    assert_eq!(stack_index_back(Some(0), 0), None);
    assert_eq!(stack_index_back(None, 0), None);
    assert_eq!(stack_index_forward(5, Some(2), 0), Some(3));
    assert_eq!(stack_index_forward(5, Some(2), 1), Some(4));
    assert_eq!(stack_index_forward(5, Some(2), 2), None);
    assert_eq!(stack_index_forward(5, None, 0), None);
}

#[test]
fn typeahead_groups_keys_until_a_pause() {
    let mut t = Typeahead::new();
    assert!(t.key('a', 0));
    assert!(t.key('b', 300));
    assert_eq!(t.text, "ab");
    assert!(t.key('c', 900), "a pause starts a new search");
    assert_eq!(t.text, "c");
    assert!(!t.key('\u{7}', 950), "control characters are refused");
    assert_eq!(t.text, "c");
    t.clear();
    assert_eq!(t.text, "");
}

#[test]
fn filter_jumps_wrap_around() {
    let m = vec![false, true, false, true, false];
    assert_eq!(first_match(&m), Some(1));
    assert_eq!(next_match(&m, Some(1), 1), Some(3));
    assert_eq!(next_match(&m, Some(3), 1), Some(1), "past the end it wraps to the start");
    assert_eq!(next_match(&m, Some(1), -1), Some(3), "before the start it wraps to the end");
    assert_eq!(next_match(&m, None, 1), Some(1));
    assert_eq!(next_match(&m, None, -1), Some(3));
    assert_eq!(next_match(&vec![false, false], Some(0), 1), None);
    assert_eq!(next_match(&vec![true], Some(0), 1), Some(0), "the focused row comes last");
    assert_eq!(next_match(&vec![], None, 1), None);
    assert_eq!(first_match(&vec![false]), None);
}
