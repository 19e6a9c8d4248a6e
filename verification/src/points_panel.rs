//! The comparison-points manager as the worker's answers move it: each answer (a point
//! loaded, a comparison made, an export written, a point recycled, or a failure) sets the
//! report, the rows and the loaded point, ends the wait and moves the revision on.
use vstd::prelude::*;
use crate::points::{counts_line, points_counts_line, rows_wf, DocumentError, PointRow};
use crate::text::{append_chars, decimal, string_of, u64_to_decimal};
use crate::textset::texts;

verus! {

/// A point read from its file: where it is, the scope it captured (root, excluded folders,
/// whether subfolders and contents were taken), when it was captured (already formatted),
/// how many entries it holds and whether the capture was complete.
pub struct LoadedPoint {
    pub path: String,
    pub root: String,
    pub exclusions: Vec<String>,
    pub recursive: bool,
    pub hashed: bool,
    pub captured: String,
    pub entries: u64,
    pub complete: bool,
}

/// A row of a comparison report: the entry's path relative to the root, the index of its
/// kind of change, whether it can be acted upon, and its current full path.
pub struct ReportRow {
    pub path: String,
    pub kind: usize,
    pub actionable: bool,
    pub current_path: String,
}

/// A comparison of the loaded point with the folder now: the count of each kind of change,
/// whether it was partial, whether the rows were cut at their limit, and the rows.
pub struct PointsReport {
    pub counts: Vec<usize>,
    pub partial: bool,
    pub rows_truncated: bool,
    pub rows: Vec<ReportRow>,
}

/// What a look at the worker found.
pub enum PointsReply {
    /// No answer yet.
    Pending,
    /// The worker ended without answering.
    Disconnected,
    /// The worker failed; `message` is the localized text of the error's key
    /// (`points_error_key`).
    Failed { error: DocumentError, message: String },
    Loaded(LoadedPoint),
    Compared(PointsReport),
    /// The comparison was exported to this file.
    Exported(String),
    /// The loaded point's file went to the recycle bin.
    Recycled,
}

/// The localized texts of the manager's reports.
pub struct PointsTexts {
    pub captured: String,
    pub entries: String,
    pub complete: String,
    pub partial: String,
    pub rows_limit: String,
    pub exported: String,
    pub recycled: String,
    /// The text of the input/output error key.
    pub io_error: String,
    /// The label of each kind of change, in the order of the counts.
    pub kind_labels: Vec<String>,
}

/// The manager's state.
pub struct PointsPanel {
    pub open: bool,
    pub revision: u32,
    pub root: String,
    pub exclusions: String,
    pub recursive: bool,
    pub hashed: bool,
    pub report: String,
    pub confirm_delete: bool,
    pub rows: Vec<PointRow>,
    /// Per row: its path and the label of its kind of change.
    pub row_texts: Vec<(String, String)>,
    pub loaded: Option<LoadedPoint>,
    /// A worker runs.
    pub busy: bool,
}

/// The text of a worker that went away.
pub open spec fn disconnected_text() -> Seq<char> {
    "comparison worker disconnected"@
}

/// The next revision (wrapping).
pub open spec fn next_rev(r: u32) -> u32 {
    if r == u32::MAX { 0 } else { (r + 1) as u32 }
}

/// The excluded folders, one per line.
pub open spec fn lines_joined(v: Seq<Seq<char>>) -> Seq<char>
    decreases v.len(),
{
    if v.len() == 0 {
        Seq::empty()
    } else if v.len() == 1 {
        v[0]
    } else {
        lines_joined(v.drop_last()) + seq!['\n'] + v.last()
    }
}

/// The report of a loaded point: its file, when it was captured, how many entries it holds,
/// and whether the capture was complete.
pub open spec fn loaded_report(p: LoadedPoint, t: PointsTexts) -> Seq<char> {
    p.path@ + seq!['\n'] + t.captured@ + " · "@ + p.captured@ + seq!['\n'] + t.entries@ + ": "@
        + decimal(p.entries as nat) + seq!['\n'] + if p.complete {
        t.complete@
    } else {
        t.partial@
    }
}

/// The report of a comparison: the loaded point's file (when one is loaded), the counts of
/// each kind of change, whether it was complete, and a note when the rows were cut.
pub open spec fn compared_report(r: PointsReport, t: PointsTexts, loaded: Option<Seq<char>>) -> Seq<char> {
    let summary = counts_line(texts(t.kind_labels@), r.counts@) + seq!['\n'] + (if r.partial {
        t.partial@
    } else {
        t.complete@
    }) + if r.rows_truncated {
        seq!['\n'] + t.rows_limit@
    } else {
        Seq::empty()
    };
    match loaded {
        Some(path) => path + seq!['\n'] + summary,
        None => summary,
    }
}

/// The label of a kind of change (empty for an unknown kind).
pub open spec fn kind_label(t: PointsTexts, kind: usize) -> Seq<char> {
    if (kind as int) < t.kind_labels@.len() {
        t.kind_labels@[kind as int]@
    } else {
        Seq::empty()
    }
}

/// The rows of a comparison: unselected; a row that can be acted upon carries its current
/// path when a point is loaded.
pub open spec fn report_rows(rows: Seq<ReportRow>, has_loaded: bool) -> Seq<PointRow> {
    Seq::new(
        rows.len(),
        |k: int|
            PointRow {
                actionable: rows[k].actionable,
                selected: false,
                path: if has_loaded && rows[k].actionable {
                    Some(rows[k].current_path)
                } else {
                    None
                },
            },
    )
}

/// The texts of the rows of a comparison: each path with the label of its kind.
pub open spec fn report_row_texts(rows: Seq<ReportRow>, t: PointsTexts) -> Seq<(Seq<char>, Seq<char>)> {
    Seq::new(rows.len(), |k: int| (rows[k].path@, kind_label(t, rows[k].kind)))
}

/// The texts of the rows as values.
pub open spec fn row_text_views(v: Seq<(String, String)>) -> Seq<(Seq<char>, Seq<char>)> {
    v.map_values(|p: (String, String)| (p.0@, p.1@))
}

/// The rows as values (paths by their text).
pub open spec fn row_views(v: Seq<PointRow>) -> Seq<(bool, bool, Option<Seq<char>>)> {
    v.map_values(
        |r: PointRow|
            (r.actionable, r.selected, match r.path {
                Some(p) => Some(p@),
                None => None,
            }),
    )
}

fn join_lines_lf(v: &Vec<String>) -> (r: String)
    ensures
        r@ == lines_joined(texts(v@)),
{
    let ghost tv = texts(v@);
    let mut out: Vec<char> = Vec::new();
    let mut i: usize = 0;
    while i < v.len()
        invariant
            i <= v.len(),
            tv == texts(v@),
            out@ == lines_joined(tv.take(i as int)),
        decreases v.len() - i,
    {
        assert(tv.take(i + 1).drop_last() == tv.take(i as int));
        assert(tv.take(i + 1).last() == v@[i as int]@);
        if i > 0 {
            out.push('\n');
        }
        append_chars(&mut out, &v[i]);
        i = i + 1;
    }
    assert(tv.take(v.len() as int) == tv);
    string_of(&out)
}

fn copy_text(s: &String) -> (r: String)
    ensures
        r@ == s@,
{
    s.clone()
}

fn loaded_text(p: &LoadedPoint, t: &PointsTexts) -> (r: String)
    ensures
        r@ == loaded_report(*p, *t),
{
    let mut out: Vec<char> = Vec::new();
    append_chars(&mut out, &p.path);
    out.push('\n');
    append_chars(&mut out, &t.captured);
    append_chars(&mut out, " · ");
    append_chars(&mut out, &p.captured);
    out.push('\n');
    append_chars(&mut out, &t.entries);
    append_chars(&mut out, ": ");
    let n = u64_to_decimal(p.entries);
    append_chars(&mut out, &n);
    out.push('\n');
    if p.complete {
        append_chars(&mut out, &t.complete);
    } else {
        append_chars(&mut out, &t.partial);
    }
    string_of(&out)
}

fn compared_text(r: &PointsReport, t: &PointsTexts, loaded: &Option<String>) -> (s: String)
    ensures
        s@ == compared_report(*r, *t, match loaded {
            Some(l) => Some(l@),
            None => None,
        }),
{
    let mut out: Vec<char> = Vec::new();
    if let Some(l) = loaded {
        append_chars(&mut out, l);
        out.push('\n');
    }
    if r.counts.len() >= t.kind_labels.len() {
        let line = points_counts_line(&t.kind_labels, &r.counts);
        append_chars(&mut out, &line);
    } else {
        assert(counts_line(texts(t.kind_labels@), r.counts@) =~= Seq::<char>::empty());
    }
    out.push('\n');
    if r.partial {
        append_chars(&mut out, &t.partial);
    } else {
        append_chars(&mut out, &t.complete);
    }
    if r.rows_truncated {
        out.push('\n');
        append_chars(&mut out, &t.rows_limit);
    }
    string_of(&out)
}

fn build_rows(rows: &Vec<ReportRow>, has_loaded: bool, t: &PointsTexts) -> (r: (Vec<PointRow>, Vec<(String, String)>))
    ensures
        row_views(r.0@) == row_views(report_rows(rows@, has_loaded)),
        row_text_views(r.1@) == report_row_texts(rows@, *t),
{
    let mut out: Vec<PointRow> = Vec::new();
    let mut out_t: Vec<(String, String)> = Vec::new();
    let mut k: usize = 0;
    while k < rows.len()
        invariant
            k <= rows.len(),
            row_views(out@) == row_views(report_rows(rows@.take(k as int), has_loaded)),
            row_text_views(out_t@) == report_row_texts(rows@.take(k as int), *t),
        decreases rows.len() - k,
    {
        let row = &rows[k];
        let path = if has_loaded && row.actionable {
            Some(copy_text(&row.current_path))
        } else {
            None
        };
        let ghost before = out@;
        let ghost before_t = out_t@;
        let pr = PointRow { actionable: row.actionable, selected: false, path };
        out.push(pr);
        let label = if row.kind < t.kind_labels.len() {
            copy_text(&t.kind_labels[row.kind])
        } else {
            String::new()
        };
        let rt = (copy_text(&row.path), label);
        out_t.push(rt);
        proof {
            let want = report_rows(rows@.take(k + 1), has_loaded);
            assert(want =~= report_rows(rows@.take(k as int), has_loaded).push(want[k as int]));
            assert(row_views(before.push(pr)) =~= row_views(before).push(row_views(seq![pr])[0]));
            assert(row_views(out@) =~= row_views(want));
            let want_t = report_row_texts(rows@.take(k + 1), *t);
            assert(want_t =~= report_row_texts(rows@.take(k as int), *t).push((rows@[k as int].path@, kind_label(*t, rows@[k as int].kind))));
            assert(row_text_views(out_t@) =~= row_text_views(before_t).push((rt.0@, rt.1@)));
        }
        k = k + 1;
    }
    assert(rows@.take(rows.len() as int) == rows@);
    (out, out_t)
}

impl PointsPanel {
    /// Takes in what a look at the worker found (`pump_comparison_points`): returns whether
    /// nothing is pending any more (no worker, or its answer was taken in). `active_dir` is
    /// the folder of the active file pane, where a fresh manager starts after a recycle.
    pub fn receive(&mut self, reply: PointsReply, t: &PointsTexts, active_dir: &str) -> (done: bool)
        ensures
            done == (!old(self).busy || !(reply is Pending)),
            !old(self).busy || reply is Pending ==> final(self).busy == old(self).busy
                && final(self).revision == old(self).revision && final(self).report@ == old(self).report@
                && row_views(final(self).rows@) == row_views(old(self).rows@),
            old(self).busy && !(reply is Pending) ==> !final(self).busy && match reply {
                PointsReply::Disconnected => {
                    &&& final(self).report@ == t.io_error@ + seq!['\n'] + disconnected_text()
                    &&& final(self).revision == next_rev(old(self).revision)
                },
                PointsReply::Failed { error, message } => {
                    &&& final(self).report@ == message@ + match error {
                        DocumentError::Io(e) => seq!['\n'] + e@,
                        _ => Seq::empty(),
                    }
                    &&& final(self).revision == next_rev(old(self).revision)
                },
                PointsReply::Loaded(p) => {
                    &&& final(self).report@ == loaded_report(p, *t)
                    &&& final(self).root@ == p.root@
                    &&& final(self).exclusions@ == lines_joined(texts(p.exclusions@))
                    &&& final(self).recursive == p.recursive
                    &&& final(self).hashed == p.hashed
                    &&& final(self).rows@.len() == 0
                    &&& final(self).row_texts@.len() == 0
                    &&& final(self).loaded is Some
                    &&& final(self).loaded->0.path@ == p.path@
                    &&& final(self).revision == next_rev(old(self).revision)
                },
                PointsReply::Compared(r) => {
                    &&& final(self).report@ == compared_report(r, *t, match old(self).loaded {
                        Some(l) => Some(l.path@),
                        None => None,
                    })
                    &&& row_views(final(self).rows@) == row_views(report_rows(r.rows@, old(self).loaded is Some))
                    &&& row_text_views(final(self).row_texts@) == report_row_texts(r.rows@, *t)
                    &&& final(self).revision == next_rev(old(self).revision)
                },
                PointsReply::Exported(path) => {
                    &&& final(self).report@ == t.exported@ + seq!['\n'] + path@
                    &&& final(self).revision == next_rev(old(self).revision)
                },
                PointsReply::Recycled => {
                    &&& final(self).report@ == t.recycled@
                    &&& final(self).open == old(self).open
                    &&& final(self).root@ == active_dir@
                    &&& final(self).exclusions@.len() == 0
                    &&& final(self).recursive
                    &&& !final(self).hashed
                    &&& !final(self).confirm_delete
                    &&& final(self).rows@.len() == 0
                    &&& final(self).row_texts@.len() == 0
                    &&& final(self).loaded is None
                    &&& final(self).revision == next_rev(next_rev(old(self).revision))
                },
                PointsReply::Pending => true,
            },
    {
        if !self.busy {
            return true;
        }
        if let PointsReply::Pending = reply {
            return false;
        }
        self.busy = false;
        let mut rev = self.revision;
        match reply {
            PointsReply::Pending => {},
            PointsReply::Disconnected => {
                let mut out: Vec<char> = Vec::new();
                append_chars(&mut out, &t.io_error);
                out.push('\n');
                append_chars(&mut out, "comparison worker disconnected");
                self.report = string_of(&out);
            },
            PointsReply::Failed { error, message } => {
                let mut out: Vec<char> = Vec::new();
                append_chars(&mut out, &message);
                if let DocumentError::Io(e) = &error {
                    out.push('\n');
                    append_chars(&mut out, e);
                }
                self.report = string_of(&out);
            },
            PointsReply::Loaded(p) => {
                self.report = loaded_text(&p, t);
                self.root = copy_text(&p.root);
                self.exclusions = join_lines_lf(&p.exclusions);
                self.recursive = p.recursive;
                self.hashed = p.hashed;
                self.rows = Vec::new();
                self.row_texts = Vec::new();
                self.loaded = Some(p);
            },
            PointsReply::Compared(r) => {
                let has_loaded = self.loaded.is_some();
                let path = match &self.loaded {
                    Some(l) => Some(copy_text(&l.path)),
                    None => None,
                };
                self.report = compared_text(&r, t, &path);
                let (rows, row_texts) = build_rows(&r.rows, has_loaded, t);
                self.rows = rows;
                self.row_texts = row_texts;
            },
            PointsReply::Exported(path) => {
                let mut out: Vec<char> = Vec::new();
                append_chars(&mut out, &t.exported);
                out.push('\n');
                append_chars(&mut out, &path);
                self.report = string_of(&out);
            },
            PointsReply::Recycled => {
                rev = if rev == u32::MAX { 0 } else { rev + 1 };
                self.root = active_dir.to_owned();
                self.exclusions = String::new();
                self.recursive = true;
                self.hashed = false;
                self.confirm_delete = false;
                self.rows = Vec::new();
                self.row_texts = Vec::new();
                self.loaded = None;
                self.report = copy_text(&t.recycled);
            },
        }
        self.revision = if rev == u32::MAX { 0 } else { rev + 1 };
        true
    }

    /// Selects (or unselects) row `index` while no worker runs (`points_select`): a row that
    /// cannot be acted upon stays unselected, and the revision moves on. An index outside the
    /// rows, or a running worker, changes nothing. Returns whether a row was set.
    pub fn points_select(&mut self, index: i32, selected: bool) -> (changed: bool)
        ensures
            changed == (!old(self).busy && 0 <= index < old(self).rows@.len()),
            changed ==> final(self).rows@ == old(self).rows@.update(
                index as int,
                (PointRow { selected: selected && old(self).rows@[index as int].actionable, ..old(self).rows@[index as int] }),
            ),
            changed ==> final(self).revision == next_rev(old(self).revision),
            !changed ==> final(self).rows@ == old(self).rows@ && final(self).revision == old(self).revision,
            rows_wf(old(self).rows@) ==> rows_wf(final(self).rows@),
            final(self).busy == old(self).busy,
            final(self).open == old(self).open,
            final(self).report@ == old(self).report@,
            final(self).loaded == old(self).loaded,
            final(self).confirm_delete == old(self).confirm_delete,
            final(self).row_texts@ == old(self).row_texts@,
    {
        if self.busy || index < 0 || (index as usize) >= self.rows.len() {
            return false;
        }
        let i = index as usize;
        let row = PointRow {
            actionable: self.rows[i].actionable,
            selected: selected && self.rows[i].actionable,
            path: self.rows[i].path.clone(),
        };
        self.rows.set(i, row);
        let rev = self.revision;
        self.revision = if rev == u32::MAX { 0 } else { rev + 1 };
        true
    }
}

} // verus!
