use workspace_ctrl::messages::{
    new_folder_status, search_status, size_status_text, status_line, undo_preview, UndoStep,
    UndoTexts,
};
use workspace_ctrl::text::fill;

#[test]
fn fill_replaces_every_placeholder() {
    assert_eq!(fill("{n} elementos", "{n}", "12"), "12 elementos");
    assert_eq!(fill("{n} y {n}", "{n}", "3"), "3 y 3");
    assert_eq!(fill("sin marcas", "{n}", "3"), "sin marcas");
    assert_eq!(fill("{{n}}", "{n}", "x"), "{x}");
    assert_eq!(fill("", "{n}", "x"), "");
    assert_eq!(fill("aaa", "aa", "b"), "ba");
}

#[test]
fn status_bar_counts_and_selection() {
    assert_eq!(
        status_line("C:\\docs", 12, 0, "{n} elementos", "seleccionados", &None),
        "C:\\docs   —   12 elementos"
    );
    assert_eq!(
        status_line("C:\\docs", 12, 3, "{n} elementos", "seleccionados", &None),
        "C:\\docs   —   12 elementos, 3 seleccionados"
    );
    assert_eq!(
        status_line("C:\\", 1, 0, "{n} items", "selected", &Some("«x»: 4 KB".to_string())),
        "C:\\   —   1 items   —   «x»: 4 KB"
    );
}

#[test]
fn folder_size_status_by_state() {
    assert_eq!(size_status_text("fotos", "1,2 MB", false, false, false), "Calculando «fotos»… 1,2 MB");
    assert_eq!(size_status_text("fotos", "3 MB", true, true, false), "«fotos»: cancelado en 3 MB");
    assert_eq!(size_status_text("fotos", "3 MB", true, false, true), "«fotos»: 3 MB (parcial)");
    assert_eq!(size_status_text("fotos", "3 MB", true, false, false), "«fotos»: 3 MB");
}

#[test]
fn new_folder_status_joins_parts() {
    assert_eq!(new_folder_status(0, 0, "vacío", "Se crearán {n}", "{n} inválidas"), "vacío");
    assert_eq!(new_folder_status(2, 0, "vacío", "Se crearán {n}", "{n} inválidas"), "Se crearán 2");
    assert_eq!(new_folder_status(0, 1, "vacío", "Se crearán {n}", "{n} inválidas"), "1 inválidas");
    assert_eq!(new_folder_status(3, 1, "vacío", "Se crearán {n}", "{n} inválidas"), "Se crearán 3 · 1 inválidas");
}

fn texts() -> UndoTexts {
    UndoTexts {
        summary: "Deshacer «{label}»: {detail}".to_string(),
        will_move_back: "se devolverán {n} archivo(s) a su origen".to_string(),
        will_delete: "se borrarán {n} archivo(s)".to_string(),
        to_arrow: "→".to_string(),
        to_trash: "Papelera".to_string(),
    }
}

#[test]
fn undo_preview_of_a_copy_and_a_move() {
    let copy = vec![
        UndoStep::TrashCreated { name: "a.txt".to_string() },
        UndoStep::TrashCreated { name: "b.txt".to_string() },
    ];
    let (summary, lines) = undo_preview("Copiar", &copy, false, true, &texts()).unwrap();
    assert_eq!(summary, "Deshacer «Copiar»: se borrarán 2 archivo(s)");
    assert_eq!(lines, vec!["a.txt → Papelera".to_string(), "b.txt → Papelera".to_string()]);

    let moved = vec![UndoStep::MoveBack { name: "c.txt".to_string(), folder: "C:\\src".to_string() }];
    let (summary, lines) = undo_preview("Mover", &moved, false, true, &texts()).unwrap();
    assert_eq!(summary, "Deshacer «Mover»: se devolverán 1 archivo(s) a su origen");
    assert_eq!(lines, vec!["c.txt → C:\\src".to_string()]);

    assert!(undo_preview("Mover", &moved, true, true, &texts()).is_none());
    assert!(undo_preview("Mover", &moved, false, false, &texts()).is_none());
}

#[test]
fn search_status_by_state() {
    assert_eq!(search_status(false, 0, false, false, false, false, 5000), (String::new(), false));
    assert_eq!(search_status(true, 7, false, false, false, false, 5000), ("Buscando… 7".to_string(), true));
    assert_eq!(search_status(true, 7, true, true, false, false, 5000), ("Cancelado · 7 resultado(s)".to_string(), false));
    assert_eq!(
        search_status(true, 5000, true, false, true, true, 5000),
        ("5000 resultado(s) (parcial) (tope 5000)".to_string(), false)
    );
}
