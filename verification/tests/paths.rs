use workspace_ctrl::paths::{components_eq_ci, paths_eq_ci, text_eq_ignore_ascii_case};

#[test]
fn component_comparison_ignores_ascii_case() {
    assert!(text_eq_ignore_ascii_case("Docs", "dOCS"));
    assert!(!text_eq_ignore_ascii_case("Docs", "Doc"));
    assert!(!text_eq_ignore_ascii_case("é", "É"), "only ASCII letters fold");
    let a = vec![(false, "C:".to_string()), (true, "\\".to_string()), (false, "Users".to_string())];
    let b = vec![(false, "c:".to_string()), (true, "\\".to_string()), (false, "USERS".to_string())];
    assert!(components_eq_ci(&a, &b));
    assert!(!components_eq_ci(&a, &vec![(false, "c:".to_string())]));
    // A root matches only a root, whatever its text.
    assert!(components_eq_ci(&vec![(true, "/".to_string())], &vec![(true, "\\".to_string())]));
    assert!(!components_eq_ci(&vec![(true, "/".to_string())], &vec![(false, "/".to_string())]));
    assert!(paths_eq_ci("/tmp/Work", "/TMP/work"));
    assert!(paths_eq_ci("/tmp//work/", "/tmp/work"));
    assert!(!paths_eq_ci("/tmp/work", "/tmp/works"));
}

#[test]
fn portable_relative_paths_compare_part_by_part() {
    assert!(paths_eq_ci("Docs/Work", "docs/WORK"));
    assert!(paths_eq_ci("a/../B", "A/../b"));
    assert!(!paths_eq_ci("docs/work", "docs/works"));
    assert!(!paths_eq_ci("docs", "docs/work"));
    assert!(paths_eq_ci("", ""));
    assert!(!paths_eq_ci("", "a"));
}

#[test]
fn rooted_paths_compare_part_by_part() {
    assert!(paths_eq_ci("/Tmp/Dir", "/tmp/DIR"));
    assert!(!paths_eq_ci("/tmp/dir", "/tmp/dirs"));
    assert!(!paths_eq_ci("/tmp", "tmp"));
    assert!(!paths_eq_ci("tmp", "/tmp"));
}
