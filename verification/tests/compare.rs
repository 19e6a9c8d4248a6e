use workspace_ctrl::compare::{Comparison, PaneListing};
use workspace_ctrl::compare::{compare_listings, CompareItem, MARK_CHANGED, MARK_ONLY_HERE};

fn item(name: &str, dir: &str, is_dir: bool, size: Option<u64>, modified: Option<(i64, u32)>) -> CompareItem {
    CompareItem::new(name, format!("{dir}\\{name}"), is_dir, size, modified)
}

#[test]
fn compare_marks_only_here_and_changed() {
    let left = vec![
        item("Same.txt", "L", false, Some(3), Some((10, 0))),
        item("onlyleft.txt", "L", false, Some(1), None),
        item("Size.txt", "L", false, Some(5), Some((10, 0))),
        item("folder", "L", true, None, Some((1, 0))),
        item("kind", "L", true, None, None),
    ];
    let right = vec![
        item("same.TXT", "R", false, Some(3), Some((10, 0))),
        item("size.txt", "R", false, Some(6), Some((10, 0))),
        item("FOLDER", "R", true, None, Some((99, 0))),
        item("kind", "R", false, Some(0), None),
        item("onlyright", "R", false, None, None),
    ];
    let (l, r) = compare_listings(&left, &right);
    assert_eq!(
        l,
        vec![
            ("L\\onlyleft.txt".to_string(), MARK_ONLY_HERE),
            ("L\\Size.txt".to_string(), MARK_CHANGED),
            ("L\\kind".to_string(), MARK_CHANGED),
        ]
    );
    assert_eq!(
        r,
        vec![
            ("R\\size.txt".to_string(), MARK_CHANGED),
            ("R\\kind".to_string(), MARK_CHANGED),
            ("R\\onlyright".to_string(), MARK_ONLY_HERE),
        ]
    );
    // Swapping the sides swaps the marks.
    let (r2, l2) = compare_listings(&right, &left);
    assert_eq!(l2, l);
    assert_eq!(r2, r);
}

#[test]
fn keys_are_lower_cased_names() {
    let a = CompareItem::new("ÁRBOL.Txt", "x".to_string(), false, None, None);
    assert_eq!(a.key, "árbol.txt");
}

fn listing(names: &[(&str, Option<u64>)]) -> Vec<CompareItem> {
    names
        .iter()
        .map(|(n, size)| CompareItem::new(n, format!("C:\\{n}"), false, *size, None))
        .collect()
}

#[test]
fn toggling_the_comparison_marks_then_clears() {
    let panes = vec![
        PaneListing { id: 7, items: None },
        PaneListing { id: 1, items: Some(listing(&[("a.txt", Some(1)), ("only.txt", Some(2))])) },
        PaneListing { id: 2, items: Some(listing(&[("A.TXT", Some(5))])) },
        PaneListing { id: 3, items: Some(listing(&[])) },
    ];
    let mut c = Comparison::new();
    assert!(!c.toggle(None, &panes));
    assert!(c.pair.is_none());
    assert!(c.toggle(Some(1), &panes));
    assert_eq!(c.pair, Some((1, 2)));
    assert_eq!(c.revision, 1);
    assert!(c.left.contains(&("C:\\a.txt".to_string(), 1)));
    assert!(c.left.contains(&("C:\\only.txt".to_string(), 2)));
    assert_eq!(c.right, vec![("C:\\A.TXT".to_string(), 1)]);
    assert!(!c.toggle_link(9));
    assert!(c.toggle_link(2));
    assert!(c.link);
    // A second toggle clears everything.
    assert!(c.toggle(Some(1), &panes));
    assert!(c.pair.is_none() && c.left.is_empty() && c.right.is_empty() && !c.link);
    assert_eq!(c.revision, 2);
    // Only one file pane: nothing to compare with.
    let alone = vec![PaneListing { id: 1, items: Some(listing(&[])) }];
    assert!(!c.toggle(Some(1), &alone));
}
