//! File operations started from the panes: which items they take, what a delete asks first,
//! and when an inline rename is committed.
use vstd::prelude::*;
use crate::text::{chars_of, string_of, text_is, trim, trim_chars};

verus! {

/// What a delete request does.
#[derive(Clone, Copy, Debug, PartialEq, Eq)]
pub enum DeleteRoute {
    /// Nothing to delete.
    Nothing,
    /// Send the items to the trash at once (the user turned the confirmation off).
    TrashNow,
    /// Ask first: always for a permanent delete, and for the trash when the preference says so.
    Confirm { permanent: bool },
}

/// What deleting `count` items does: a permanent delete always asks; the trash asks only when
/// `confirm_trash` is set.
pub open spec fn delete_route_spec(count: nat, permanent: bool, confirm_trash: bool) -> DeleteRoute {
    if count == 0 {
        DeleteRoute::Nothing
    } else if !permanent && !confirm_trash {
        DeleteRoute::TrashNow
    } else {
        DeleteRoute::Confirm { permanent }
    }
}

/// What deleting `count` items does (see `delete_route_spec`).
pub fn delete_route(count: usize, permanent: bool, confirm_trash: bool) -> (r: DeleteRoute)
    ensures
        r == delete_route_spec(count as nat, permanent, confirm_trash),
{
    if count == 0 {
        DeleteRoute::Nothing
    } else if !permanent && !confirm_trash {
        DeleteRoute::TrashNow
    } else {
        DeleteRoute::Confirm { permanent }
    }
}

/// A permanent delete of some items never runs without asking, whatever the preference.
pub proof fn lemma_permanent_always_confirms(count: nat, confirm_trash: bool)
    requires
        count > 0,
    ensures
        delete_route_spec(count, true, confirm_trash) == (DeleteRoute::Confirm { permanent: true }),
{
}

/// The items a delete (or another contextual operation) takes: the target of an open context
/// menu of a breadcrumb or the tree when there is one, else the selection of the active pane.
pub fn operation_sources(contextual: Vec<String>, selected: Vec<String>) -> (r: Vec<String>)
    ensures
        r@ == (if contextual@.len() > 0 { contextual@ } else { selected@ }),
{
    if contextual.len() > 0 {
        contextual
    } else {
        selected
    }
}

/// The paths of the selected rows, in selection order (`view_paths[k]` is the path of the row
/// at view position `k`; positions outside the view are skipped).
pub open spec fn selected_paths_spec(view_paths: Seq<String>, selected: Seq<usize>) -> Seq<Seq<char>>
    decreases selected.len(),
{
    if selected.len() == 0 {
        Seq::empty()
    } else {
        let p = selected.last();
        selected_paths_spec(view_paths, selected.drop_last()) + (if (p as int) < view_paths.len() {
            seq![view_paths[p as int]@]
        } else {
            Seq::empty()
        })
    }
}

/// The items an operation on a file pane takes: the selected rows, or the focused row when
/// nothing is selected.
pub open spec fn action_paths_spec(view_paths: Seq<String>, selected: Seq<usize>, focused: Option<usize>) -> Seq<Seq<char>> {
    let chosen = selected_paths_spec(view_paths, selected);
    if chosen.len() > 0 {
        chosen
    } else {
        match focused {
            Some(f) => if (f as int) < view_paths.len() { seq![view_paths[f as int]@] } else { Seq::empty() },
            None => Seq::empty(),
        }
    }
}

/// The views of a list of texts.
pub open spec fn path_views(v: Seq<String>) -> Seq<Seq<char>> {
    v.map_values(|s: String| s@)
}

/// The items an operation on a file pane takes (see `action_paths_spec`).
pub fn action_paths(view_paths: &Vec<String>, selected: &Vec<usize>, focused: Option<usize>) -> (r: Vec<String>)
    ensures
        path_views(r@) == action_paths_spec(view_paths@, selected@, focused),
{
    let mut out: Vec<String> = Vec::new();
    let mut k: usize = 0;
    while k < selected.len()
        invariant
            k <= selected.len(),
            path_views(out@) == selected_paths_spec(view_paths@, selected@.take(k as int)),
        decreases selected.len() - k,
    {
        assert(selected@.take(k + 1).drop_last() == selected@.take(k as int));
        let ghost before = out@;
        let p = selected[k];
        if p < view_paths.len() {
            out.push(view_paths[p].clone());
            assert(path_views(out@) =~= path_views(before).push(view_paths@[p as int]@));
        }
        assert(path_views(out@) =~= selected_paths_spec(view_paths@, selected@.take(k + 1)));
        k = k + 1;
    }
    assert(selected@.take(selected.len() as int) == selected@);
    if out.len() == 0 {
        if let Some(f) = focused {
            if f < view_paths.len() {
                out.push(view_paths[f].clone());
                assert(path_views(out@) =~= seq![view_paths@[f as int]@]);
            }
        }
    }
    out
}

/// The name an inline rename commits: the edited text without surrounding white space; none
/// when it is empty, unchanged, or not a valid name (`valid` is whether the trimmed text is a
/// valid file name).
pub open spec fn rename_target_spec(edited: Seq<char>, current: Seq<char>, valid: bool) -> Option<Seq<char>> {
    let t = trim(edited);
    if t.len() == 0 || t == current || !valid {
        None
    } else {
        Some(t)
    }
}

/// The edited name without surrounding white space (what a rename is checked on).
pub fn trimmed_name(edited: &str) -> (r: String)
    ensures
        r@ == trim(edited@),
{
    let cs = chars_of(edited);
    let t = trim_chars(&cs);
    string_of(&t)
}

/// The name an inline rename commits (see `rename_target_spec`).
pub fn rename_target(edited: &str, current: &str, valid: bool) -> (r: Option<String>)
    ensures
        match rename_target_spec(edited@, current@, valid) {
            Some(t) => r matches Some(n) && n@ == t,
            None => r is None,
        },
{
    let t = trimmed_name(edited);
    if t.as_str().is_empty() || text_is(t.as_str(), current) || !valid {
        None
    } else {
        Some(t)
    }
}

/// An inline rename session answers only to the pane and session that opened it: a late
/// callback of an editor that was closed or replaced is ignored.
pub fn rename_session_matches(active: Option<(u64, u32)>, pane: u64, session: u32) -> (r: bool)
    ensures
        r == (active == Some((pane, session))),
{
    match active {
        Some((p, s)) => p == pane && s == session,
        None => false,
    }
}

/// Whether "extract" applies to the selection: exactly one item, a file, whose extension is
/// "zip" in any letter case.
pub fn is_single_zip(count: usize, is_file: bool, extension: Option<&str>) -> (r: bool)
    ensures
        r == (count == 1 && is_file && match extension {
            Some(e) => crate::paths::eq_ignore_ascii_case(e@, "zip"@),
            None => false,
        }),
{
    if count != 1 || !is_file {
        return false;
    }
    match extension {
        Some(e) => crate::paths::text_eq_ignore_ascii_case(e, "zip"),
        None => false,
    }
}

/// The terminals the "open terminal" action can launch.
#[derive(Clone, Copy, Debug, PartialEq, Eq)]
pub enum Terminal {
    PowerShell,
    Cmd,
    WindowsTerminal,
    Wsl,
}

/// The terminal of a menu index: 1 cmd, 2 Windows Terminal, 3 WSL, any other PowerShell.
pub fn terminal_of(index: i32) -> (r: Terminal)
    ensures
        r == (if index == 1 {
            Terminal::Cmd
        } else if index == 2 {
            Terminal::WindowsTerminal
        } else if index == 3 {
            Terminal::Wsl
        } else {
            Terminal::PowerShell
        }),
{
    match index {
        1 => Terminal::Cmd,
        2 => Terminal::WindowsTerminal,
        3 => Terminal::Wsl,
        _ => Terminal::PowerShell,
    }
}

} // verus!
