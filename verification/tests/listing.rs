use workspace_ctrl::listing::{
    claims_fresh, focus_after_listing, footer_counts, highlight_secs, merge_batch, EntryInfo,
    HighlightDuration,
};

#[test]
fn refrescar_f5_no_duplica_las_filas() {
    let mut entries = vec!["a", "b"];
    // Re-listing the same folder: the first batch is fresh and replaces what was shown.
    assert!(claims_fresh(false, false));
    merge_batch(&mut entries, vec!["a"], true, false);
    merge_batch(&mut entries, vec!["b"], false, true);
    assert_eq!(entries, vec!["a", "b"]);
}

#[test]
fn refrescar_carpeta_que_quedo_vacia_limpia_las_filas() {
    let mut entries = vec!["gone"];
    assert!(!claims_fresh(true, false), "an empty poll that did not finish claims nothing");
    merge_batch(&mut entries, vec![], false, false);
    assert_eq!(entries, vec!["gone"]);
    assert!(claims_fresh(true, true));
    merge_batch(&mut entries, vec![], true, true);
    assert!(entries.is_empty());
    assert_eq!(focus_after_listing(None, 0), None);
    assert_eq!(focus_after_listing(None, 3), Some(0));
    assert_eq!(focus_after_listing(Some(2), 3), Some(2));
}

#[test]
fn footer_counts_selection_and_kinds() {
    let entries = vec![
        EntryInfo { is_dir: true, size: None },
        EntryInfo { is_dir: false, size: Some(100) },
        EntryInfo { is_dir: false, size: Some(23) },
        EntryInfo { is_dir: false, size: None },
    ];
    // The view hides entry 0 and shows 3, 1, 2.
    let view = vec![3, 1, 2];
    let selected = vec![1, 2, 7];
    let c = footer_counts(&view, &selected, &entries);
    assert_eq!(c.sel_count, 3);
    assert_eq!(c.total_count, 3);
    assert_eq!(c.marked_bytes, 123);
    assert_eq!(c.dir_count, 1);
    assert_eq!(c.file_count, 3);
    assert_eq!(c.item_count, 4);
}

#[test]
fn highlight_durations() {
    assert_eq!(highlight_secs(&HighlightDuration::FadeSeconds(5)), 5);
    assert_eq!(highlight_secs(&HighlightDuration::UntilInteract), 8);
    assert_eq!(highlight_secs(&HighlightDuration::UntilRefresh), 8);
}
