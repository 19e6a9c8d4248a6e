use workspace_ctrl::preview_rules::{
    normalize_ext, preview_rule_add, preview_rule_remove, preview_rule_rows, preview_rule_set_view_lang,
    preview_rule_set_view_mode, preview_rule_toggle, PreviewRule, ViewMode,
};

fn rows(rules: &Vec<PreviewRule>) -> Vec<(String, bool, i32, i32)> {
    rules.iter().map(|r| r.row()).collect()
}

#[test]
fn reglas_de_preview_crud() {
    let mut rules: Vec<PreviewRule> = Vec::new();
    // A new extension is normalized (dot, case) and starts in auto mode.
    preview_rule_add(&mut rules, ".SIF");
    assert!(rows(&rules).iter().any(|(e, on, v, _)| e == "sif" && *on && *v == 0));
    // No duplicate.
    preview_rule_add(&mut rules, "sif");
    assert_eq!(rows(&rules).iter().filter(|(e, _, _, _)| e == "sif").count(), 1);
    // Code mode, XML (index 0 of the language list).
    preview_rule_set_view_mode(&mut rules, "sif", 3);
    preview_rule_set_view_lang(&mut rules, "sif", 0, 12);
    assert!(rows(&rules).iter().any(|(e, _, v, l)| e == "sif" && *v == 3 && *l == 0));
    // Toggle.
    preview_rule_toggle(&mut rules, "sif");
    assert!(rows(&rules).iter().any(|(e, on, _, _)| e == "sif" && !*on));
    // Remove.
    preview_rule_remove(&mut rules, "sif");
    assert!(!rows(&rules).iter().any(|(e, _, _, _)| e == "sif"));
}

#[test]
fn view_modes_and_languages() {
    let mut rules = vec![PreviewRule { ext: "log".to_string(), enabled: true, view: ViewMode::Auto }];
    preview_rule_set_view_lang(&mut rules, " .LOG", 4, 12);
    assert_eq!(rules[0].view, ViewMode::Code(4));
    preview_rule_set_view_mode(&mut rules, "log", 3);
    assert_eq!(rules[0].view, ViewMode::Code(4), "code mode keeps its language");
    preview_rule_set_view_mode(&mut rules, "log", 2);
    assert_eq!(rules[0].view, ViewMode::Image);
    preview_rule_set_view_mode(&mut rules, "log", 3);
    assert_eq!(rules[0].view, ViewMode::Code(0), "code mode starts in XML");
    preview_rule_set_view_mode(&mut rules, "log", 9);
    assert_eq!(rules[0].view, ViewMode::Auto);
    preview_rule_set_view_lang(&mut rules, "log", 12, 12);
    assert_eq!(rules[0].view, ViewMode::Auto, "a language outside the list changes nothing");
    preview_rule_set_view_lang(&mut rules, "log", -1, 12);
    assert_eq!(rules[0].view, ViewMode::Auto);
    preview_rule_add(&mut rules, "  ..  ");
    assert_eq!(rules.len(), 1, "an empty extension is not added");
    assert_eq!(normalize_ext("  ..Tar.GZ "), "tar.gz");
}

#[test]
fn settings_rows_sorted_by_extension() {
    let rule = |ext: &str, enabled: bool, view: ViewMode| PreviewRule { ext: ext.to_string(), enabled, view };
    let rules = vec![
        rule("xml", true, ViewMode::Code(2)),
        rule("bmp", false, ViewMode::Image),
        rule("md", true, ViewMode::Text),
        rule("b", true, ViewMode::Auto),
    ];
    let got = preview_rule_rows(&rules);
    assert_eq!(
        got,
        vec![
            ("b".to_string(), true, 0, 0),
            ("bmp".to_string(), false, 2, 0),
            ("md".to_string(), true, 1, 0),
            ("xml".to_string(), true, 3, 2),
        ]
    );
    assert!(preview_rule_rows(&Vec::new()).is_empty());
}
