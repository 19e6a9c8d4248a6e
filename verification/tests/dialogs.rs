use workspace_ctrl::delivery::{
    delivery_receipt, rows_to_mark, selection_key, sources_report, structure_of, ItemOutcome,
    ReceiptKind, Structure,
};
use workspace_ctrl::sync::{sync_action_key, sync_mode_index, sync_mode_of, SyncAction, SyncMode, SyncSelection};
use workspace_ctrl::text_transform::{
    can_apply, default_options, encoding_index, encoding_label, encoding_of, ending_key,
    final_newline_index, final_newline_of, line_ending_index, line_ending_of, status_line,
    FinalNewline, LineEnding, TargetEncoding, TextEncoding, TextJobMsg, TextJobProgress,
};

#[test]
fn text_transform_options_and_status() {
    let o = default_options();
    assert_eq!(o.line_ending, LineEnding::Lf);
    assert_eq!(o.encoding, TargetEncoding::Preserve);
    assert_eq!(o.final_newline, FinalNewline::Preserve);
    assert!(!o.trim_trailing_whitespace);
    for v in 0..=2 {
        assert_eq!(line_ending_index(line_ending_of(v)), v);
        assert_eq!(final_newline_index(final_newline_of(v)), v);
    }
    for v in 0..=4 {
        assert_eq!(encoding_index(encoding_of(v)), v);
    }
    assert_eq!(line_ending_of(7), LineEnding::Lf);
    assert_eq!(encoding_of(-1), TargetEncoding::Preserve);
    assert_eq!(encoding_label(TextEncoding::Utf16Be), "UTF-16 BE");
    assert_eq!(ending_key(LineEnding::Mixed), "text_transform.mixed");

    let mut p = TextJobProgress::new();
    assert_eq!(status_line(&p, 3, false, "fallidos"), "");
    p.take(TextJobMsg::Progress(2));
    assert_eq!(status_line(&p, 3, true, "fallidos"), "2 / 3");
    p.take(TextJobMsg::Done(1));
    assert!(p.finished);
    assert_eq!(status_line(&p, 3, false, "fallidos"), "2 / 3 · fallidos: 1");
    let mut q = TextJobProgress::new();
    q.disconnected();
    assert!(q.finished);
    assert!(can_apply(true, false, false));
    assert!(!can_apply(true, true, false));
    assert!(!can_apply(false, false, false));
}

#[test]
fn sync_selection_never_selects_conflicts() {
    let mut s = SyncSelection::new(vec![
        SyncAction::CopyLeftToRight,
        SyncAction::Conflict,
        SyncAction::DeleteRight,
    ]);
    assert_eq!(s.flags(), &vec![true, false, true]);
    s.toggle(1);
    assert!(!s.is_selected(1), "a conflict cannot be selected");
    s.toggle(0);
    s.toggle(2);
    assert!(!s.any_selected());
    s.toggle(2);
    assert!(s.any_selected());
    s.toggle(9);
    assert!(!s.is_selected(9));
    assert_eq!(sync_mode_of(1), SyncMode::RightToLeft);
    assert_eq!(sync_mode_of(5), SyncMode::LeftToRight);
    assert_eq!(sync_mode_index(SyncMode::Bidirectional), 2);
    assert_eq!(sync_action_key(SyncAction::Conflict), "sync.conflict");
}

#[test]
fn delivery_reports_and_receipts() {
    assert_eq!(structure_of(0, "r".to_string()), Structure::Grouped);
    assert_eq!(structure_of(1, "r".to_string()), Structure::Flat);
    assert_eq!(structure_of(2, "r".to_string()), Structure::Relative("r".to_string()));
    assert_eq!(
        sources_report(&vec!["C:\\a".to_string(), "C:\\b".to_string()]),
        "1: C:\\a\n2: C:\\b\n"
    );
    let many: Vec<String> = (0..600).map(|i| format!("p{i}")).collect();
    let report = sources_report(&many);
    assert_eq!(report.lines().count(), 500);
    assert!(report.ends_with("500: p499\n"));

    let items = vec![
        (ItemOutcome::Failed("denied".to_string()), "D:\\x".to_string()),
        (ItemOutcome::Done, "D:\\out.zip".to_string()),
    ];
    assert_eq!(delivery_receipt(&items, true), ReceiptKind::Completed("D:\\out.zip".to_string()));
    let items = vec![
        (ItemOutcome::Skipped, "D:\\x".to_string()),
        (ItemOutcome::Failed("denied".to_string()), "D:\\y".to_string()),
    ];
    assert_eq!(delivery_receipt(&items, false), ReceiptKind::Failed("denied".to_string()));
    assert_eq!(delivery_receipt(&items, true), ReceiptKind::Cancelled);
    assert_eq!(delivery_receipt(&vec![], false), ReceiptKind::Failed(String::new()));
}

#[test]
fn delivery_return_to_selection_marks_sources() {
    assert_eq!(selection_key("C:/Fotos/A.JPG"), "c:\\fotos\\a.jpg");
    let keys = vec![selection_key("C:/Fotos/A.JPG"), selection_key("d:\\b.txt")];
    let items = vec![
        "C:\\fotos\\a.jpg".to_string(),
        "C:\\other".to_string(),
        "D:\\B.TXT".to_string(),
    ];
    assert_eq!(rows_to_mark(&items, &keys), vec![0, 2]);
}
