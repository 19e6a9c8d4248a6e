use workspace_ctrl::favorites::{
    fav_group_name_path, fav_group_options, fav_move_targets, fav_toggle_expand, new_group_name,
    remap_expanded, FavNode,
};

fn fav(p: &str) -> FavNode {
    FavNode::Favorite { path: p.to_string(), label: p.to_string() }
}

fn group(name: &str, children: Vec<FavNode>) -> FavNode {
    FavNode::Group { name: name.to_string(), children }
}

fn tree() -> Vec<FavNode> {
    vec![
        fav("C:\\a"),
        group("Trabajo", vec![group("Sub", vec![fav("C:\\b")]), fav("C:\\c"), group("Otro", vec![])]),
        group("Casa", vec![]),
    ]
}

fn opts(v: &[(&str, &[usize])]) -> Vec<(String, Vec<usize>)> {
    v.iter().map(|(n, id)| (n.to_string(), id.to_vec())).collect()
}

#[test]
fn favoritos_arbol_editable_y_persistente() {
    let roots = tree();
    let options = fav_group_options(&roots);
    assert_eq!(
        options,
        opts(&[("Trabajo", &[1]), ("Trabajo/Sub", &[1, 0]), ("Trabajo/Otro", &[1, 2]), ("Casa", &[2])])
    );
    for (np, id) in &options {
        assert_eq!(fav_group_name_path(&roots, id).as_ref(), Some(np));
    }
    assert_eq!(fav_group_name_path(&roots, &vec![0]), None, "a favorite is not a group");
    assert_eq!(fav_group_name_path(&roots, &vec![1, 1]), None);
    assert_eq!(fav_group_name_path(&roots, &vec![5]), None);
    assert_eq!(fav_group_name_path(&roots, &vec![]), None);
}

#[test]
fn fav_move_targets_excluye_el_grupo_y_sus_descendientes() {
    let options = fav_group_options(&tree());
    // Moving the group "Trabajo" ([1]): neither itself nor its subgroups are destinations.
    assert_eq!(fav_move_targets(options.clone(), true, &vec![1]), opts(&[("Casa", &[2])]));
    // Moving "Trabajo/Sub" ([1, 0]).
    assert_eq!(
        fav_move_targets(options.clone(), true, &vec![1, 0]),
        opts(&[("Trabajo", &[1]), ("Trabajo/Otro", &[1, 2]), ("Casa", &[2])])
    );
    // A favorite may go anywhere.
    assert_eq!(fav_move_targets(options.clone(), false, &vec![1]), options);
}

#[test]
fn rename_keeps_expansion() {
    let keys = vec![
        "Trabajo".to_string(),
        "Trabajo/Sub".to_string(),
        "Trabajon".to_string(),
        "Casa".to_string(),
    ];
    let mut out = remap_expanded(&keys, "Trabajo", "Oficina");
    out.sort();
    assert_eq!(out, vec!["Casa", "Oficina", "Oficina/Sub", "Trabajon"]);
    let mut keys = vec!["Casa".to_string()];
    fav_toggle_expand(&mut keys, "Trabajo");
    assert_eq!(keys, vec!["Casa", "Trabajo"]);
    fav_toggle_expand(&mut keys, "Casa");
    assert_eq!(keys, vec!["Trabajo"]);
    assert_eq!(new_group_name("  Fotos "), "Fotos");
    assert_eq!(new_group_name("   "), "Nuevo grupo");
}
