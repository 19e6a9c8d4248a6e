use workspace_ctrl::references::{
    add_reference_capped, add_reference_evicting, forget_path, loaded_is_accepted,
    remember_recent, MAX_REFERENCES, RECENT_SPACES,
};

fn s(v: &[&str]) -> Vec<String> {
    v.iter().map(|x| x.to_string()).collect()
}

#[test]
fn recent_spaces_move_to_front_without_duplicates() {
    let mut v = s(&["a", "b", "c"]);
    remember_recent(&mut v, "b".to_string());
    assert_eq!(v, s(&["b", "a", "c"]));
    remember_recent(&mut v, "d".to_string());
    assert_eq!(v, s(&["d", "b", "a", "c"]));
    let mut v: Vec<String> = (0..RECENT_SPACES).map(|i| i.to_string()).collect();
    remember_recent(&mut v, "new".to_string());
    assert_eq!(v.len(), RECENT_SPACES);
    assert_eq!(v[0], "new");
    assert_eq!(v[RECENT_SPACES - 1], (RECENT_SPACES - 2).to_string());
}

#[test]
fn query_and_recipe_references() {
    let mut v = s(&["q1"]);
    add_reference_capped(&mut v, &"q1".to_string());
    assert_eq!(v, s(&["q1"]));
    add_reference_capped(&mut v, &"q2".to_string());
    assert_eq!(v, s(&["q1", "q2"]));
    let mut full: Vec<String> = (0..MAX_REFERENCES).map(|i| i.to_string()).collect();
    add_reference_capped(&mut full, &"more".to_string());
    assert_eq!(full.len(), MAX_REFERENCES);
    assert!(!full.contains(&"more".to_string()));
    add_reference_evicting(&mut full, &"more".to_string());
    assert_eq!(full.len(), MAX_REFERENCES);
    assert_eq!(full[0], "1", "the oldest one is dropped");
    assert_eq!(full[MAX_REFERENCES - 1], "more");
    forget_path(&mut full, "more");
    assert_eq!(full.len(), MAX_REFERENCES - 1);
    assert!(loaded_is_accepted(true, false, false));
    assert!(loaded_is_accepted(false, true, true));
    assert!(!loaded_is_accepted(false, true, false));
    assert!(!loaded_is_accepted(false, false, true));
}
