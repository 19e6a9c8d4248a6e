//! Comparison points (snapshots of a folder compared later with its current state): the rows
//! of a comparison and which of them can be selected, the two-step deletion, and the summary.
use vstd::prelude::*;
use crate::text::{append_chars, decimal, string_of, u64_to_decimal};
use crate::textset::texts;

verus! {

/// A row of a comparison.
#[derive(Clone, Debug, PartialEq, Eq)]
pub struct PointRow {
    /// The change can be acted upon (the file exists now).
    pub actionable: bool,
    pub selected: bool,
    /// The file's current path, when actionable.
    pub path: Option<String>,
}

/// No row that cannot be acted upon is selected.
pub open spec fn rows_wf(rows: Seq<PointRow>) -> bool {
    forall|i: int| 0 <= i < rows.len() && #[trigger] rows[i].selected ==> rows[i].actionable
}

/// The paths to hand to the basket: those of the selected rows that can be acted upon and have
/// a path, in order.
pub open spec fn basket_paths_spec(rows: Seq<PointRow>) -> Seq<Seq<char>>
    decreases rows.len(),
{
    if rows.len() == 0 {
        Seq::empty()
    } else {
        let rest = basket_paths_spec(rows.drop_last());
        let r = rows.last();
        if r.selected && r.actionable && r.path is Some {
            rest.push(r.path->0@)
        } else {
            rest
        }
    }
}

/// Only selected rows go to the basket, and all of them: every path handed over is the path of
/// a selected row that can be acted upon, and every such row with a path hands its path over;
/// so no more paths go than rows are selected.
pub proof fn lemma_basket_takes_selected_rows(rows: Seq<PointRow>)
    ensures
        forall|k: int| 0 <= k < basket_paths_spec(rows).len() ==> #[trigger] sent_by_a_row(rows, basket_paths_spec(rows)[k]),
        forall|i: int| 0 <= i < rows.len() && #[trigger] sends(rows[i]) ==> basket_paths_spec(rows).contains(
            rows[i].path->0@,
        ),
        basket_paths_spec(rows).len() <= selected_count(rows),
    decreases rows.len(),
{
    if rows.len() > 0 {
        let init = rows.drop_last();
        lemma_basket_takes_selected_rows(init);
        let rest = basket_paths_spec(init);
        let out = basket_paths_spec(rows);
        assert forall|k: int| 0 <= k < out.len() implies #[trigger] sent_by_a_row(rows, out[k]) by {
            if k < rest.len() {
                assert(out[k] == rest[k]);
                assert(sent_by_a_row(init, rest[k]));
                let i = choose|i: int| 0 <= i < init.len() && #[trigger] sends(init[i]) && init[i].path->0@ == rest[k];
                assert(rows[i] == init[i]);
                assert(sends(rows[i]) && rows[i].path->0@ == out[k]);
            } else {
                let j = rows.len() - 1;
                assert(rows[j] == rows.last());
                assert(sends(rows.last()));
                assert(out == rest.push(rows.last().path->0@));
                assert(sends(rows[j]) && rows[j].path->0@ == out[k]);
            }
        }
        assert forall|i: int| 0 <= i < rows.len() && #[trigger] sends(rows[i]) implies out.contains(
            rows[i].path->0@,
        ) by {
            let t = rows[i].path->0@;
            if i < rows.len() - 1 {
                assert(init[i] == rows[i]);
                assert(sends(init[i]));
                assert(rest.contains(t));
                let k = choose|k: int| 0 <= k < rest.len() && rest[k] == t;
                assert(out[k] == rest[k]);
            } else {
                assert(rows.last() == rows[i]);
                assert(out[rest.len() as int] == t);
            }
        }
    }
}

/// A row hands its path to the basket: it is selected, can be acted upon and has a path.
pub open spec fn sends(r: PointRow) -> bool {
    r.selected && r.actionable && r.path is Some
}

/// `t` is the path of a row that hands its path to the basket.
pub open spec fn sent_by_a_row(rows: Seq<PointRow>, t: Seq<char>) -> bool {
    exists|i: int| 0 <= i < rows.len() && #[trigger] sends(rows[i]) && rows[i].path->0@ == t
}

/// How many rows are selected.
pub open spec fn selected_count(rows: Seq<PointRow>) -> nat
    decreases rows.len(),
{
    if rows.len() == 0 {
        0
    } else {
        selected_count(rows.drop_last()) + if rows.last().selected { 1nat } else { 0nat }
    }
}

/// The paths the selected rows hand to the basket (see `basket_paths_spec`).
pub fn points_basket_paths(rows: &Vec<PointRow>) -> (r: Vec<String>)
    ensures
        texts(r@) == basket_paths_spec(rows@),
{
    let mut out: Vec<String> = Vec::new();
    let mut i: usize = 0;
    while i < rows.len()
        invariant
            i <= rows.len(),
            texts(out@) == basket_paths_spec(rows@.take(i as int)),
        decreases rows.len() - i,
    {
        proof {
            assert(rows@.take(i + 1).drop_last() == rows@.take(i as int));
            assert(rows@.take(i + 1).last() == rows@[i as int]);
        }
        if rows[i].selected && rows[i].actionable {
            if let Some(p) = &rows[i].path {
                let ghost before = out@;
                out.push(p.clone());
                assert(texts(out@) =~= texts(before).push(p@));
            }
        }
        i = i + 1;
    }
    assert(rows@.take(rows.len() as int) == rows@);
    out
}

/// What the delete button does.
#[derive(Clone, Copy, Debug, PartialEq, Eq)]
pub enum DeleteStep {
    /// Nothing (a worker runs, or no point is loaded).
    Nothing,
    /// Ask for confirmation, naming the loaded point's own file.
    AskConfirmation,
    /// Move the loaded point's file to the recycle bin.
    Recycle,
}

/// The delete button: the first press asks for confirmation, the second (while it is asked)
/// recycles; nothing while busy or with no point loaded.
pub open spec fn delete_step(busy: bool, loaded: bool, confirm_pending: bool) -> DeleteStep {
    if busy || !loaded {
        DeleteStep::Nothing
    } else if !confirm_pending {
        DeleteStep::AskConfirmation
    } else {
        DeleteStep::Recycle
    }
}

/// What the delete button does (see `delete_step`).
pub fn points_delete_step(busy: bool, loaded: bool, confirm_pending: bool) -> (r: DeleteStep)
    ensures
        r == delete_step(busy, loaded, confirm_pending),
{
    if busy || !loaded {
        DeleteStep::Nothing
    } else if !confirm_pending {
        DeleteStep::AskConfirmation
    } else {
        DeleteStep::Recycle
    }
}

/// Closing the manager while a deletion is being confirmed only withdraws the question; it
/// closes otherwise. Returns (confirmation still pending, manager still open).
pub fn points_close_step(confirm_pending: bool, open: bool) -> (r: (bool, bool))
    ensures
        r == (if confirm_pending {
            (false, open)
        } else {
            (false, false)
        }),
{
    if confirm_pending {
        (false, open)
    } else {
        (false, false)
    }
}

/// The counts of a comparison, each after its label: "label: n · label: n · …".
pub open spec fn counts_line(labels: Seq<Seq<char>>, counts: Seq<usize>) -> Seq<char>
    decreases labels.len(),
{
    if labels.len() == 0 || counts.len() < labels.len() {
        Seq::empty()
    } else if labels.len() == 1 {
        labels[0] + ": "@ + decimal(counts[0] as nat)
    } else {
        counts_line(labels.drop_last(), counts) + " · "@ + labels.last() + ": "@ + decimal(
            counts[labels.len() - 1] as nat,
        )
    }
}


/// The summary line of a comparison (see `counts_line`): one label per count.
pub fn points_counts_line(labels: &Vec<String>, counts: &Vec<usize>) -> (r: String)
    requires
        counts@.len() >= labels@.len(),
    ensures
        r@ == counts_line(texts(labels@), counts@),
{
    let ghost lv = texts(labels@);
    let mut out: Vec<char> = Vec::new();
    let mut i: usize = 0;
    while i < labels.len()
        invariant
            i <= labels.len(),
            counts@.len() >= labels@.len(),
            lv == texts(labels@),
            out@ == counts_line(lv.take(i as int), counts@),
        decreases labels.len() - i,
    {
        if i > 0 {
            append_chars(&mut out, " · ");
        }
        append_chars(&mut out, labels[i].as_str());
        append_chars(&mut out, ": ");
        append_chars(&mut out, u64_to_decimal(counts[i] as u64).as_str());
        proof {
            let t = lv.take(i + 1);
            assert(t.drop_last() == lv.take(i as int));
            assert(t.last() == labels@[i as int]@);
            if i == 0 {
                assert(t[0] == labels@[0]@);
            }
        }
        i = i + 1;
    }
    assert(lv.take(labels.len() as int) == lv);
    string_of(&out)
}

/// The errors a stored document (point, space, query, recipe) may end with.
#[derive(Clone, Debug, PartialEq, Eq)]
pub enum DocumentError {
    Version,
    Limit,
    Changed,
    Exists,
    Cancelled,
    Io(String),
    Invalid,
}

/// The message key reporting a comparison-point error.
pub fn points_error_key(e: &DocumentError) -> (r: &'static str)
    ensures
        r@ == (match e {
            DocumentError::Version => "points.version"@,
            DocumentError::Limit => "points.limit"@,
            DocumentError::Changed => "points.changed"@,
            DocumentError::Exists => "spaces.exists"@,
            DocumentError::Cancelled => "spaces.cancelled"@,
            DocumentError::Io(_) => "spaces.io"@,
            DocumentError::Invalid => "points.invalid"@,
        }),
{
    match e {
        DocumentError::Version => "points.version",
        DocumentError::Limit => "points.limit",
        DocumentError::Changed => "points.changed",
        DocumentError::Exists => "spaces.exists",
        DocumentError::Cancelled => "spaces.cancelled",
        DocumentError::Io(_) => "spaces.io",
        DocumentError::Invalid => "points.invalid",
    }
}

/// Deleting needs two presses: without a pending confirmation no press recycles, and the
/// press that recycles is one made while the confirmation is asked.
pub proof fn lemma_delete_needs_confirmation(busy: bool, loaded: bool, confirm_pending: bool)
    ensures
        delete_step(busy, loaded, false) != DeleteStep::Recycle,
        delete_step(busy, loaded, confirm_pending) == DeleteStep::Recycle ==> confirm_pending && loaded
            && !busy,
{
}

} // verus!
