use workspace_ctrl::columns::{
    can_hide, column_move_target, no_matches, sort_key_for_header, sort_toggle, ColumnFilter,
    ColumnKind, ColumnMenuMode, ColumnMenuState, SortKey,
};
use workspace_ctrl::dates::{civil_from_days, days_from_civil, fmt_date_ymd, parse_date_ymd};
use workspace_ctrl::size::parse_size;

#[test]
fn parse_size_acepta_sufijos_y_vacio() {
    assert_eq!(parse_size(""), None);
    assert_eq!(parse_size("  "), None);
    assert_eq!(parse_size("10"), Some(10));
    assert_eq!(parse_size("2kb"), Some(2048));
    assert_eq!(parse_size("2 KB"), Some(2048));
    assert_eq!(parse_size("1m"), Some(1024 * 1024));
    assert_eq!(parse_size("1.5M"), Some(1024 * 1024 + 512 * 1024));
    assert_eq!(parse_size("3gb"), Some(3 * 1024 * 1024 * 1024));
    assert_eq!(parse_size("1,024"), Some(1024));
    assert_eq!(parse_size("no"), None);
}

#[test]
fn fecha_ymd_round_trip_en_utc() {
    // In UTC (tz = 0): 2026-06-16 at the start of the day, and back to the same text.
    let t = parse_date_ymd("2026-06-16", 0, false).unwrap();
    assert_eq!(fmt_date_ymd(Some(t), 0), "2026-06-16");
    // The end of the day is still the same day (23:59:59).
    let end = parse_date_ymd("2026-06-16", 0, true).unwrap();
    assert_eq!(fmt_date_ymd(Some(end), 0), "2026-06-16");
    assert!(end > t, "the end of the day comes after its start");
    // Invalid and empty texts give None.
    assert_eq!(parse_date_ymd("", 0, false), None);
    assert_eq!(parse_date_ymd("2026-13-01", 0, false), None);
    assert_eq!(parse_date_ymd("nope", 0, false), None);
}

#[test]
fn date_exact_values_and_offsets() {
    assert_eq!(parse_date_ymd("1970-01-01", 0, false), Some(0));
    assert_eq!(parse_date_ymd("1970-01-02", 0, false), Some(86_400));
    assert_eq!(parse_date_ymd("2026-06-16", 0, false), Some(1_781_568_000));
    assert_eq!(parse_date_ymd("2026-06-16", 0, true), Some(1_781_654_399));
    // Three hours west of UTC: local midnight is three hours later in UTC.
    assert_eq!(parse_date_ymd("2026-06-16", -3 * 3600, false), Some(1_781_568_000 + 10_800));
    // Before the epoch clamps to the epoch.
    assert_eq!(parse_date_ymd("1969-12-31", 0, false), Some(0));
    // Surrounding blanks are trimmed, fields may carry leading zeros or a sign.
    assert_eq!(parse_date_ymd("  2026-6-16 ", 0, false), Some(1_781_568_000));
    assert_eq!(parse_date_ymd("2026-06-32", 0, false), None);
    assert_eq!(parse_date_ymd("2026-06", 0, false), None);
    assert_eq!(parse_date_ymd("2026-06-16-01", 0, false), None);
    assert_eq!(fmt_date_ymd(None, 0), "1970-01-01");
    assert_eq!(fmt_date_ymd(Some(0), -3600), "1969-12-31");
    assert_eq!(fmt_date_ymd(Some(951_782_400), 0), "2000-02-29");
}

#[test]
fn civil_day_numbers() {
    assert_eq!(days_from_civil(1970, 1, 1), 0);
    assert_eq!(days_from_civil(2000, 3, 1), 11_017);
    assert_eq!(days_from_civil(1969, 12, 31), -1);
    assert_eq!(civil_from_days(0), (1970, 1, 1));
    assert_eq!(civil_from_days(11_016), (2000, 2, 29));
    assert_eq!(civil_from_days(-1), (1969, 12, 31));
    for z in [-800_000i64, -1, 0, 59, 365, 10_957, 20_000, 2_932_896] {
        let (y, m, d) = civil_from_days(z);
        assert_eq!(days_from_civil(y, m, d), z);
    }
}

#[test]
fn size_exact_values() {
    assert_eq!(parse_size("0"), Some(0));
    assert_eq!(parse_size("+7"), Some(7));
    assert_eq!(parse_size("-0"), Some(0));
    assert_eq!(parse_size("-5"), None);
    assert_eq!(parse_size("1.5k"), Some(1536));
    assert_eq!(parse_size("0.1k"), Some(102));
    assert_eq!(parse_size("1_000"), Some(1000));
    assert_eq!(parse_size("1.2.3"), None);
    assert_eq!(parse_size("99999999999999999999gb"), Some(u64::MAX));
    assert_eq!(parse_size("k"), None);
}

fn menu(kind: ColumnKind) -> ColumnMenuState {
    ColumnMenuState::open(7, kind, None, 0)
}

#[test]
fn menu_de_columna_mueve_la_columna() {
    // Default order: Name, Extension, Size, Modified, Created. Moving Extension (index 1) to
    // the right puts it after Size.
    assert_eq!(column_move_target(1, 1, 5), Some(2));
    // At the edges nothing moves.
    assert_eq!(column_move_target(0, -1, 5), None);
    assert_eq!(column_move_target(4, 1, 5), None);
    assert_eq!(column_move_target(3, -1, 5), Some(2));
}

#[test]
fn menu_de_columna_filtra_y_limpia_por_nombre() {
    let mut st = menu(ColumnKind::Name);
    assert_eq!(st.mode, ColumnMenuMode::Menu);
    st.to_filter();
    assert_eq!(st.mode, ColumnMenuMode::Filter);
    st.set_text("informe");
    assert_eq!(
        st.filter_from_drafts(0),
        Some(ColumnFilter::Text { contains: "informe".to_string(), case_sensitive: false })
    );
    // Empty drafts remove the filter.
    st.set_text("");
    assert_eq!(st.filter_from_drafts(0), None);
}

#[test]
fn seeded_filters_apply_back() {
    let text = ColumnFilter::Text { contains: "abc".to_string(), case_sensitive: true };
    let st = ColumnMenuState::open(1, ColumnKind::Name, Some(&text), 0);
    assert_eq!(st.text_draft, "abc");
    assert!(st.text_case);
    assert_eq!(st.filter_from_drafts(0), Some(text));

    let size = ColumnFilter::SizeRange { min: Some(2048), max: None };
    let st = ColumnMenuState::open(1, ColumnKind::Size, Some(&size), 0);
    assert_eq!(st.min_draft, "2048");
    assert_eq!(st.max_draft, "");
    assert_eq!(st.filter_from_drafts(0), Some(size));

    let from = parse_date_ymd("2026-06-16", 3600, false).unwrap();
    let to = parse_date_ymd("2026-06-20", 3600, true).unwrap();
    let dates = ColumnFilter::DateRange { from: Some(from), to: Some(to) };
    let st = ColumnMenuState::open(1, ColumnKind::Modified, Some(&dates), 3600);
    assert_eq!(st.min_draft, "2026-06-16");
    assert_eq!(st.max_draft, "2026-06-20");
    assert_eq!(st.filter_from_drafts(3600), Some(dates));

    let exts = ColumnFilter::Extensions(vec!["pdf".to_string(), "".to_string()]);
    let st = ColumnMenuState::open(1, ColumnKind::Extension, Some(&exts), 0);
    assert_eq!(st.ext_checked.len(), 2);
    assert_eq!(st.filter_from_drafts(0), Some(exts));
}

#[test]
fn size_and_date_drafts_build_ranges() {
    let mut st = menu(ColumnKind::Size);
    st.set_range(false, "1 KB");
    assert_eq!(st.filter_from_drafts(0), Some(ColumnFilter::SizeRange { min: Some(1024), max: None }));
    st.set_range(true, "2m");
    assert_eq!(
        st.filter_from_drafts(0),
        Some(ColumnFilter::SizeRange { min: Some(1024), max: Some(2 * 1024 * 1024) })
    );
    st.set_range(false, "junk");
    st.set_range(true, "");
    assert_eq!(st.filter_from_drafts(0), None);

    let mut st = menu(ColumnKind::Created);
    st.set_range(true, "1970-01-01");
    assert_eq!(st.filter_from_drafts(0), Some(ColumnFilter::DateRange { from: None, to: Some(86_399) }));
}

#[test]
fn extension_checks_toggle() {
    let mut st = menu(ColumnKind::Extension);
    assert_eq!(st.filter_from_drafts(0), None);
    st.toggle_ext("txt");
    st.toggle_ext("pdf");
    assert_eq!(
        st.filter_from_drafts(0),
        Some(ColumnFilter::Extensions(vec!["txt".to_string(), "pdf".to_string()]))
    );
    st.toggle_ext("txt");
    assert_eq!(st.filter_from_drafts(0), Some(ColumnFilter::Extensions(vec!["pdf".to_string()])));
    st.toggle_ext("pdf");
    assert_eq!(st.filter_from_drafts(0), None);
    st.toggle_case();
    assert!(st.text_case);
}

#[test]
fn filtro_sin_coincidencias_se_detecta() {
    assert!(no_matches(true, 2, 0));
    assert!(!no_matches(true, 0, 0), "an empty folder is not a filter without matches");
    assert!(!no_matches(false, 2, 0));
    assert!(!no_matches(true, 2, 1));
}

#[test]
fn sorting_by_header() {
    assert_eq!(sort_key_for_header("name"), Some(SortKey::Name));
    assert_eq!(sort_key_for_header("ext"), Some(SortKey::Extension));
    assert_eq!(sort_key_for_header("size"), Some(SortKey::Size));
    assert_eq!(sort_key_for_header("modified"), Some(SortKey::Modified));
    assert_eq!(sort_key_for_header("other"), None);
    assert_eq!(sort_toggle(SortKey::Name, true, SortKey::Name), (SortKey::Name, false));
    assert_eq!(sort_toggle(SortKey::Name, false, SortKey::Size), (SortKey::Size, true));
    assert!(!can_hide(ColumnKind::Name));
    assert!(can_hide(ColumnKind::Size));
}

#[test]
fn date_days_must_exist_in_their_month() {
    assert_eq!(parse_date_ymd("2026-02-30", 0, false), None);
    assert_eq!(parse_date_ymd("2026-04-31", 0, false), None);
    assert_eq!(parse_date_ymd("2023-02-29", 0, false), None);
    assert_eq!(parse_date_ymd("2024-02-29", 0, false), Some(1_709_164_800));
    assert_eq!(parse_date_ymd("2100-02-29", 0, false), None);
    assert_eq!(parse_date_ymd("2000-02-29", 0, false), Some(951_782_400));
}

#[test]
fn date_too_far_for_seconds_is_none() {
    assert_eq!(parse_date_ymd("300000000000-01-01", 0, false), None);
    assert_eq!(parse_date_ymd("9223372036854775807-01-01", 0, true), None);
    assert_eq!(parse_date_ymd("-9223372036854775808-01-01", 0, false), None);
    assert_eq!(parse_date_ymd("9999-12-31", 0, true), Some(253_402_300_799));
}

#[test]
fn size_suffixes_multiply_the_number() {
    for (n, sfx, m) in [(5u64, "k", 1024u64), (5, "KB", 1024), (3, "m", 1 << 20), (3, "Mb", 1 << 20), (2, "g", 1 << 30), (2, "GB", 1 << 30), (1_048_576, "gB", 1 << 30)] {
        assert_eq!(parse_size(&format!("{n}{sfx}")), Some(n * m));
    }
    assert_eq!(parse_size(&format!("{}", 1_048_576u64)), Some(1_048_576));
}
