//! Texts composed from localized templates: the status bar, the folder-size status, the
//! new-folder dialog's status and the preview of an undo. A template holds placeholders such
//! as `{n}` that are replaced by their values.
use vstd::prelude::*;
use crate::text::{append_chars, decimal, fill, replace_all, string_of, u64_to_decimal};

verus! {

/// The separator between the parts of the status bar.
pub open spec fn bar_sep() -> Seq<char> {
    "   —   "@
}

/// The folder-size status: «name» and the size so far, and whether the computation is
/// running, was cancelled or could read only part of the folder.
pub open spec fn size_status_spec(name: Seq<char>, size: Seq<char>, done: bool, cancelled: bool, partial: bool) -> Seq<char> {
    if !done {
        "Calculando «"@ + name + "»… "@ + size
    } else if cancelled {
        "«"@ + name + "»: cancelado en "@ + size
    } else if partial {
        "«"@ + name + "»: "@ + size + " (parcial)"@
    } else {
        "«"@ + name + "»: "@ + size
    }
}

/// The folder-size status (see `size_status_spec`).
pub fn size_status_text(name: &str, size: &str, done: bool, cancelled: bool, partial: bool) -> (r: String)
    ensures
        r@ == size_status_spec(name@, size@, done, cancelled, partial),
{
    let mut out: Vec<char> = Vec::new();
    if !done {
        append_chars(&mut out, "Calculando «");
        append_chars(&mut out, name);
        append_chars(&mut out, "»… ");
        append_chars(&mut out, size);
    } else if cancelled {
        append_chars(&mut out, "«");
        append_chars(&mut out, name);
        append_chars(&mut out, "»: cancelado en ");
        append_chars(&mut out, size);
    } else if partial {
        append_chars(&mut out, "«");
        append_chars(&mut out, name);
        append_chars(&mut out, "»: ");
        append_chars(&mut out, size);
        append_chars(&mut out, " (parcial)");
    } else {
        append_chars(&mut out, "«");
        append_chars(&mut out, name);
        append_chars(&mut out, "»: ");
        append_chars(&mut out, size);
    }
    string_of(&out)
}

/// The status bar of the active file pane: its folder, the count of rows (the `elements`
/// template with `{n}`), the count of selected rows when there are any, and the folder-size
/// status when there is one.
pub open spec fn status_line_spec(
    dir: Seq<char>,
    total: nat,
    selected: nat,
    elements: Seq<char>,
    selected_suffix: Seq<char>,
    size: Option<Seq<char>>,
) -> Seq<char> {
    let counted = replace_all(elements, "{n}"@, decimal(total));
    let base = if selected > 0 {
        dir + bar_sep() + counted + ", "@ + decimal(selected) + " "@ + selected_suffix
    } else {
        dir + bar_sep() + counted
    };
    match size {
        Some(s) => base + bar_sep() + s,
        None => base,
    }
}

/// The status bar (see `status_line_spec`).
pub fn status_line(
    dir: &str,
    total: u64,
    selected: u64,
    elements: &str,
    selected_suffix: &str,
    size: &Option<String>,
) -> (r: String)
    ensures
        r@ == status_line_spec(dir@, total as nat, selected as nat, elements@, selected_suffix@, match size {
            Some(s) => Some(s@),
            None => None,
        }),
{
    proof {
        reveal_strlit("{n}");
    }
    let count = u64_to_decimal(total);
    let counted = fill(elements, "{n}", &count);
    let mut out: Vec<char> = Vec::new();
    append_chars(&mut out, dir);
    append_chars(&mut out, "   —   ");
    append_chars(&mut out, &counted);
    if selected > 0 {
        append_chars(&mut out, ", ");
        let sel = u64_to_decimal(selected);
        append_chars(&mut out, &sel);
        append_chars(&mut out, " ");
        append_chars(&mut out, selected_suffix);
    }
    if let Some(s) = size {
        append_chars(&mut out, "   —   ");
        append_chars(&mut out, s);
    }
    string_of(&out)
}

/// The new-folder dialog's status for `valid` folders to create and `invalid` lines ignored:
/// the `empty` message when there are neither, else the filled templates joined by " · ".
pub open spec fn new_folder_status_spec(
    valid: nat,
    invalid: nat,
    empty: Seq<char>,
    will_create: Seq<char>,
    invalid_lines: Seq<char>,
) -> Seq<char> {
    let created = replace_all(will_create, "{n}"@, decimal(valid));
    let ignored = replace_all(invalid_lines, "{n}"@, decimal(invalid));
    if valid == 0 && invalid == 0 {
        empty
    } else if invalid == 0 {
        created
    } else if valid == 0 {
        ignored
    } else {
        created + " · "@ + ignored
    }
}

/// The new-folder dialog's status (see `new_folder_status_spec`).
pub fn new_folder_status(valid: u64, invalid: u64, empty: &str, will_create: &str, invalid_lines: &str) -> (r: String)
    ensures
        r@ == new_folder_status_spec(valid as nat, invalid as nat, empty@, will_create@, invalid_lines@),
{
    proof {
        reveal_strlit("{n}");
    }
    if valid == 0 && invalid == 0 {
        let mut out: Vec<char> = Vec::new();
        append_chars(&mut out, empty);
        return string_of(&out);
    }
    let v = u64_to_decimal(valid);
    let created = fill(will_create, "{n}", &v);
    let i = u64_to_decimal(invalid);
    let ignored = fill(invalid_lines, "{n}", &i);
    if invalid == 0 {
        created
    } else if valid == 0 {
        ignored
    } else {
        let mut out: Vec<char> = Vec::new();
        append_chars(&mut out, &created);
        append_chars(&mut out, " · ");
        append_chars(&mut out, &ignored);
        string_of(&out)
    }
}

/// One step of an undo, with the names already taken from its paths: the file name, and the
/// folder it goes back to.
#[derive(Clone, Debug, PartialEq, Eq)]
pub enum UndoStep {
    /// A created item goes to the trash.
    TrashCreated { name: String },
    /// A moved item goes back to its folder.
    MoveBack { name: String, folder: String },
    /// A trashed item is restored to its folder.
    RestoreTrash { name: String, folder: String },
}

/// Whether the undo moves something back (its verb is then "move back" rather than "delete").
pub open spec fn moves_back(steps: Seq<UndoStep>) -> bool {
    exists|k: int| 0 <= k < steps.len() && steps[k] is MoveBack
}

/// The summary of an undo of the operation `label` with `n` steps: the `summary` template with
/// `{label}` and `{detail}`, the detail being the "move back" or "delete" phrase with `{n}`.
pub open spec fn undo_summary_spec(
    label: Seq<char>,
    n: nat,
    back: bool,
    summary: Seq<char>,
    will_move_back: Seq<char>,
    will_delete: Seq<char>,
) -> Seq<char> {
    let phrase = replace_all(if back { will_move_back } else { will_delete }, "{n}"@, decimal(n));
    replace_all(replace_all(summary, "{label}"@, label), "{detail}"@, phrase)
}

/// The line of one undo step: the name, the arrow, and where it goes (the trash or a folder).
pub open spec fn undo_line_spec(step: UndoStep, arrow: Seq<char>, trash: Seq<char>) -> Seq<char> {
    match step {
        UndoStep::TrashCreated { name } => name@ + " "@ + arrow + " "@ + trash,
        UndoStep::MoveBack { name, folder } => name@ + " "@ + arrow + " "@ + folder@,
        UndoStep::RestoreTrash { name, folder } => name@ + " "@ + arrow + " "@ + folder@,
    }
}

/// The lines of an undo preview, one per step.
pub open spec fn undo_lines_spec(steps: Seq<UndoStep>, arrow: Seq<char>, trash: Seq<char>) -> Seq<Seq<char>> {
    Seq::new(steps.len(), |k: int| undo_line_spec(steps[k], arrow, trash))
}

/// The localized texts of an undo preview.
pub struct UndoTexts {
    pub summary: String,
    pub will_move_back: String,
    pub will_delete: String,
    pub to_arrow: String,
    pub to_trash: String,
}

/// The views of a list of texts.
pub open spec fn line_views(v: Seq<String>) -> Seq<Seq<char>> {
    v.map_values(|s: String| s@)
}

fn step_line(step: &UndoStep, arrow: &str, trash: &str) -> (r: String)
    ensures
        r@ == undo_line_spec(*step, arrow@, trash@),
{
    let mut out: Vec<char> = Vec::new();
    match step {
        UndoStep::TrashCreated { name } => {
            append_chars(&mut out, name);
            append_chars(&mut out, " ");
            append_chars(&mut out, arrow);
            append_chars(&mut out, " ");
            append_chars(&mut out, trash);
        },
        UndoStep::MoveBack { name, folder } | UndoStep::RestoreTrash { name, folder } => {
            append_chars(&mut out, name);
            append_chars(&mut out, " ");
            append_chars(&mut out, arrow);
            append_chars(&mut out, " ");
            append_chars(&mut out, folder);
        },
    }
    string_of(&out)
}

/// The preview of undoing the operation `label`: none when it was undone already or its steps
/// no longer apply (`applicable` false); else the summary and one line per step.
pub fn undo_preview(label: &str, steps: &Vec<UndoStep>, undone: bool, applicable: bool, texts: &UndoTexts) -> (r: Option<(String, Vec<String>)>)
    ensures
        r is Some <==> (!undone && applicable),
        r matches Some(p) ==> {
            &&& p.0@ == undo_summary_spec(
                label@,
                steps@.len(),
                moves_back(steps@),
                texts.summary@,
                texts.will_move_back@,
                texts.will_delete@,
            )
            &&& line_views(p.1@) == undo_lines_spec(steps@, texts.to_arrow@, texts.to_trash@)
        },
{
    if undone || !applicable {
        return None;
    }
    let mut back = false;
    let mut lines: Vec<String> = Vec::new();
    let mut k: usize = 0;
    while k < steps.len()
        invariant
            k <= steps.len(),
            back == exists|j: int| 0 <= j < k && steps@[j] is MoveBack,
            line_views(lines@) == undo_lines_spec(steps@.take(k as int), texts.to_arrow@, texts.to_trash@),
        decreases steps.len() - k,
    {
        if let UndoStep::MoveBack { .. } = &steps[k] {
            back = true;
        }
        let ghost before = lines@;
        let line = step_line(&steps[k], &texts.to_arrow, &texts.to_trash);
        lines.push(line);
        assert(line_views(lines@) =~= line_views(before).push(line@));
        assert(undo_lines_spec(steps@.take(k + 1), texts.to_arrow@, texts.to_trash@) =~= undo_lines_spec(
            steps@.take(k as int),
            texts.to_arrow@,
            texts.to_trash@,
        ).push(undo_line_spec(steps@[k as int], texts.to_arrow@, texts.to_trash@)));
        k = k + 1;
    }
    assert(steps@.take(steps.len() as int) == steps@);
    proof {
        reveal_strlit("{n}");
        reveal_strlit("{label}");
        reveal_strlit("{detail}");
    }
    let n = u64_to_decimal(steps.len() as u64);
    let phrase = if back {
        fill(&texts.will_move_back, "{n}", &n)
    } else {
        fill(&texts.will_delete, "{n}", &n)
    };
    let labelled = fill(&texts.summary, "{label}", label);
    let summary = fill(&labelled, "{detail}", &phrase);
    Some((summary, lines))
}

/// The status of the search pane for `hits` results: empty before the first search; else
/// "searching" with the count while it runs, the count (after "cancelled" when it was), and
/// the notes for a partial search and for reaching the cap of `cap` hits.
pub open spec fn search_status_spec(
    has_query: bool,
    hits: nat,
    done: bool,
    cancelled: bool,
    partial: bool,
    hit_cap: bool,
    cap: nat,
) -> Seq<char> {
    if !has_query {
        Seq::empty()
    } else {
        let head = if !done {
            "Buscando… "@ + decimal(hits)
        } else if cancelled {
            "Cancelado · "@ + decimal(hits) + " resultado(s)"@
        } else {
            decimal(hits) + " resultado(s)"@
        };
        let with_partial = if partial { head + " (parcial)"@ } else { head };
        if hit_cap { with_partial + " (tope "@ + decimal(cap) + ")"@ } else { with_partial }
    }
}

/// The status of the search pane (see `search_status_spec`) and whether the search is still
/// running (false before the first search).
pub fn search_status(
    has_query: bool,
    hits: u64,
    done: bool,
    cancelled: bool,
    partial: bool,
    hit_cap: bool,
    cap: u64,
) -> (r: (String, bool))
    ensures
        r.0@ == search_status_spec(has_query, hits as nat, done, cancelled, partial, hit_cap, cap as nat),
        r.1 == (has_query && !done),
{
    if !has_query {
        return (String::new(), false);
    }
    let n = u64_to_decimal(hits);
    let mut out: Vec<char> = Vec::new();
    if !done {
        append_chars(&mut out, "Buscando… ");
        append_chars(&mut out, &n);
    } else if cancelled {
        append_chars(&mut out, "Cancelado · ");
        append_chars(&mut out, &n);
        append_chars(&mut out, " resultado(s)");
    } else {
        append_chars(&mut out, &n);
        append_chars(&mut out, " resultado(s)");
    }
    if partial {
        append_chars(&mut out, " (parcial)");
    }
    if hit_cap {
        append_chars(&mut out, " (tope ");
        let c = u64_to_decimal(cap);
        append_chars(&mut out, &c);
        append_chars(&mut out, ")");
    }
    (string_of(&out), !done)
}

} // verus!
