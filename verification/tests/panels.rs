use workspace_ctrl::points::{DocumentError, PointRow};
use workspace_ctrl::points_panel::{
    LoadedPoint, PointsPanel, PointsReply, PointsReport, PointsTexts, ReportRow,
};
use workspace_ctrl::recipes_panel::{
    recipe_error_key, PreparedPlan, RecipeError, RecipeReply, RecipeTexts, RecipesPanel,
};

fn points_texts() -> PointsTexts {
    PointsTexts {
        captured: "Captured".to_string(),
        entries: "Entries".to_string(),
        complete: "Complete".to_string(),
        partial: "Partial".to_string(),
        rows_limit: "Rows cut".to_string(),
        exported: "Exported".to_string(),
        recycled: "Recycled".to_string(),
        io_error: "I/O error".to_string(),
        kind_labels: ["Added", "Modified", "Missing", "Unknown", "Same", "Identical"]
            .iter()
            .map(|s| s.to_string())
            .collect(),
    }
}

fn busy_panel() -> PointsPanel {
    PointsPanel {
        open: true,
        revision: 4,
        root: String::new(),
        exclusions: String::new(),
        recursive: true,
        hashed: false,
        report: String::new(),
        confirm_delete: false,
        rows: Vec::new(),
        row_texts: Vec::new(),
        loaded: None,
        busy: true,
    }
}

fn point() -> LoadedPoint {
    LoadedPoint {
        path: "C:\\p\\base.naygopoint".to_string(),
        root: "C:\\data".to_string(),
        exclusions: vec!["C:\\data\\tmp".to_string(), "C:\\data\\cache".to_string()],
        recursive: true,
        hashed: true,
        captured: "2026-06-16 10:00".to_string(),
        entries: 12,
        complete: false,
    }
}

#[test]
fn points_answers_fill_the_manager() {
    let t = points_texts();
    let mut p = busy_panel();
    assert!(!p.receive(PointsReply::Pending, &t, "C:\\"));
    assert!(p.busy);
    assert!(p.receive(PointsReply::Loaded(point()), &t, "C:\\"));
    assert!(!p.busy);
    assert_eq!(p.revision, 5);
    assert_eq!(
        p.report,
        "C:\\p\\base.naygopoint\nCaptured · 2026-06-16 10:00\nEntries: 12\nPartial"
    );
    assert_eq!(p.exclusions, "C:\\data\\tmp\nC:\\data\\cache");
    assert!(p.hashed);

    p.busy = true;
    let report = PointsReport {
        counts: vec![1, 2, 0, 0, 3, 0],
        partial: false,
        rows_truncated: true,
        rows: vec![
            ReportRow { path: "a.txt".to_string(), kind: 0, actionable: true, current_path: "C:\\data\\a.txt".to_string() },
            ReportRow { path: "gone.txt".to_string(), kind: 2, actionable: false, current_path: "C:\\data\\gone.txt".to_string() },
        ],
    };
    assert!(p.receive(PointsReply::Compared(report), &t, "C:\\"));
    assert_eq!(
        p.report,
        "C:\\p\\base.naygopoint\nAdded: 1 · Modified: 2 · Missing: 0 · Unknown: 0 · Same: 3 · Identical: 0\nComplete\nRows cut"
    );
    assert_eq!(
        p.rows,
        vec![
            PointRow { actionable: true, selected: false, path: Some("C:\\data\\a.txt".to_string()) },
            PointRow { actionable: false, selected: false, path: None },
        ]
    );
    assert_eq!(p.row_texts[1], ("gone.txt".to_string(), "Missing".to_string()));

    p.busy = true;
    assert!(p.receive(PointsReply::Exported("C:\\out.csv".to_string()), &t, "C:\\"));
    assert_eq!(p.report, "Exported\nC:\\out.csv");

    p.busy = true;
    assert!(p.receive(
        PointsReply::Failed { error: DocumentError::Io("denied".to_string()), message: "I/O error".to_string() },
        &t,
        "C:\\"
    ));
    assert_eq!(p.report, "I/O error\ndenied");

    p.busy = true;
    let before = p.revision;
    assert!(p.receive(PointsReply::Recycled, &t, "D:\\work"));
    assert_eq!(p.report, "Recycled");
    assert_eq!(p.root, "D:\\work");
    assert!(p.loaded.is_none() && p.rows.is_empty() && p.open);
    assert_eq!(p.revision, before + 2);
}

#[test]
fn closing_cancels_worker_and_completion_does_not_reopen_modal() {
    // A finished worker's answer does not reopen a closed manager.
    let t = points_texts();
    let mut p = busy_panel();
    p.open = false;
    assert!(p.receive(PointsReply::Disconnected, &t, "C:\\"));
    assert!(!p.open);
    assert!(!p.busy);
    assert_eq!(p.report, "I/O error\ncomparison worker disconnected");
}

fn recipe_texts() -> RecipeTexts {
    RecipeTexts {
        loaded: "Loaded".to_string(),
        steps: "Steps".to_string(),
        examined: "Examined".to_string(),
        matched: "Matched".to_string(),
        rows_limit: "More rows".to_string(),
        invalid: "Invalid recipe".to_string(),
    }
}

fn recipes() -> RecipesPanel<&'static str, u32> {
    RecipesPanel {
        draft: "empty",
        report: String::new(),
        references: Vec::new(),
        loaded: None,
        roots: Vec::new(),
        plan: None,
        busy: false,
        revision: 0,
    }
}

#[test]
fn closed_or_disconnected_worker_cannot_execute_late() {
    let t = recipe_texts();
    let mut r = recipes();
    // No worker: nothing to take in.
    assert!(r.receive(RecipeReply::Pending, &t));
    r.busy = true;
    assert!(!r.receive(RecipeReply::Pending, &t));
    assert!(r.receive(RecipeReply::Disconnected, &t));
    assert!(!r.busy);
    assert!(!r.report.is_empty());
    assert_eq!(r.report, "Invalid recipe\nrecipe worker disconnected");
    assert!(r.plan.is_none());
}

#[test]
fn recipe_answers_fill_the_manager() {
    let t = recipe_texts();
    let mut r = recipes();
    r.busy = true;
    assert!(r.receive(
        RecipeReply::Loaded { draft: "weekly", path: "C:\\r\\w.naygorecipe".to_string(), revision: "r1".to_string() },
        &t
    ));
    assert_eq!(r.draft, "weekly");
    assert_eq!(r.report, "C:\\r\\w.naygorecipe\nLoaded");
    assert_eq!(r.references, vec!["C:\\r\\w.naygorecipe".to_string()]);
    assert_eq!(r.loaded, Some(("C:\\r\\w.naygorecipe".to_string(), "r1".to_string())));
    assert_eq!(r.revision, 1);

    r.busy = true;
    let plan = PreparedPlan {
        plan: 7u32,
        examined: 10,
        matched: 2,
        destination: "D:\\out".to_string(),
        total_size: "3 KB".to_string(),
        entries: vec![("C:\\a.txt".to_string(), "a.txt".to_string()), ("C:\\b.txt".to_string(), "b.txt".to_string())],
    };
    assert!(r.receive(RecipeReply::Prepared(plan), &t));
    assert_eq!(
        r.report,
        "Steps\nExamined: 10 → Matched: 2\nD:\\out\n2 · 3 KB\n\nC:\\a.txt → a.txt\nC:\\b.txt → b.txt\n"
    );
    assert_eq!(r.plan, Some(7));

    r.busy = true;
    assert!(r.receive(
        RecipeReply::Failed {
            error: RecipeError::Delivery { cancelled: false, text: "disk full".to_string() },
            message: "Invalid recipe".to_string(),
        },
        &t
    ));
    assert_eq!(r.report, "Invalid recipe\ndisk full");

    r.busy = true;
    assert!(r.receive(RecipeReply::FromQuery { draft: "from query", roots: vec!["C:\\q".to_string()] }, &t));
    assert!(r.loaded.is_none());
    assert_eq!(r.roots, vec!["C:\\q".to_string()]);
    assert_eq!(r.report, "Loaded");
}

#[test]
fn recipe_listing_stops_at_its_limit() {
    let t = recipe_texts();
    let mut r = recipes();
    r.busy = true;
    let entries: Vec<(String, String)> = (0..501).map(|i| (format!("s{i}"), format!("t{i}"))).collect();
    let plan = PreparedPlan {
        plan: 1u32,
        examined: 501,
        matched: 501,
        destination: "D:\\".to_string(),
        total_size: "0 B".to_string(),
        entries,
    };
    assert!(r.receive(RecipeReply::Prepared(plan), &t));
    assert!(r.report.ends_with("s499 → t499\nMore rows"));
    assert!(!r.report.contains("s500 →"));
}

#[test]
fn recipe_error_keys() {
    assert_eq!(recipe_error_key(&RecipeError::Partial), "recipes.partial");
    assert_eq!(recipe_error_key(&RecipeError::Document(DocumentError::Version)), "recipes.version");
    assert_eq!(recipe_error_key(&RecipeError::Document(DocumentError::Io("x".to_string()))), "recipes.invalid");
    assert_eq!(recipe_error_key(&RecipeError::Delivery { cancelled: true, text: String::new() }), "spaces.cancelled");
    assert_eq!(recipe_error_key(&RecipeError::Document(DocumentError::Cancelled)), "spaces.cancelled");
}

/// Selecting a row that can be acted upon selects it and moves the revision on; a missing row
/// stays unselected (the revision still moves on); nothing changes while a worker runs or for
/// an index outside the rows.
#[test]
fn points_select_rows_and_revision() {
    let mut p = busy_panel();
    p.busy = false;
    p.rows = vec![
        PointRow { actionable: false, selected: false, path: None },
        PointRow { actionable: true, selected: false, path: Some("C:\\d\\a".to_string()) },
    ];
    assert!(p.points_select(0, true));
    assert!(!p.rows[0].selected);
    assert_eq!(p.revision, 5);
    assert!(p.points_select(1, true));
    assert!(p.rows[1].selected);
    assert_eq!(p.revision, 6);
    assert!(!p.points_select(2, true));
    assert!(!p.points_select(-1, true));
    assert_eq!(p.revision, 6);
    p.busy = true;
    assert!(!p.points_select(1, false));
    assert!(p.rows[1].selected);
    assert_eq!(p.revision, 6);
    p.busy = false;
    p.revision = u32::MAX;
    assert!(p.points_select(1, false));
    assert!(!p.rows[1].selected);
    assert_eq!(p.revision, 0);
}
