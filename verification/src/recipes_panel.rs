//! The recipes manager as the worker's answers move it: a recipe read from its file, a
//! recipe made from a saved query, a prepared plan, or a failure sets the draft, the report,
//! the remembered references and the plan, ends the wait and moves the revision on.
use vstd::prelude::*;
use crate::points::DocumentError;
use crate::references::{add_reference_evicting, path_texts, MAX_REFERENCES};
use crate::text::{append_chars, decimal, string_of, u64_to_decimal};

verus! {

/// Why a recipe job failed.
#[derive(Clone, Debug, PartialEq, Eq)]
pub enum RecipeError {
    /// The selection could not be read completely.
    Partial,
    /// Nothing matched.
    Empty,
    /// The recipe takes files only and folders were selected.
    SelectionFilesOnly,
    /// Reading or writing the recipe's document failed.
    Document(DocumentError),
    /// Planning the delivery failed (`cancelled` when it was cancelled); `text` describes it.
    Delivery { cancelled: bool, text: String },
    /// The recipe is not valid.
    Invalid,
}

/// The message key reporting a recipe error.
pub open spec fn recipe_error_key_spec(e: RecipeError) -> Seq<char> {
    match e {
        RecipeError::Partial => "recipes.partial"@,
        RecipeError::Empty => "recipes.empty"@,
        RecipeError::SelectionFilesOnly => "recipes.files_only"@,
        RecipeError::Document(DocumentError::Exists) => "spaces.exists"@,
        RecipeError::Document(DocumentError::Changed) => "spaces.changed"@,
        RecipeError::Document(DocumentError::Cancelled) => "spaces.cancelled"@,
        RecipeError::Delivery { cancelled, .. } => if cancelled {
            "spaces.cancelled"@
        } else {
            "recipes.invalid"@
        },
        RecipeError::Document(DocumentError::Version) => "recipes.version"@,
        _ => "recipes.invalid"@,
    }
}

/// The message key reporting a recipe error (see `recipe_error_key_spec`).
pub fn recipe_error_key(e: &RecipeError) -> (r: &'static str)
    ensures
        r@ == recipe_error_key_spec(*e),
{
    match e {
        RecipeError::Partial => "recipes.partial",
        RecipeError::Empty => "recipes.empty",
        RecipeError::SelectionFilesOnly => "recipes.files_only",
        RecipeError::Document(DocumentError::Exists) => "spaces.exists",
        RecipeError::Document(DocumentError::Changed) => "spaces.changed",
        RecipeError::Document(DocumentError::Cancelled) => "spaces.cancelled",
        RecipeError::Delivery { cancelled, .. } => if *cancelled {
            "spaces.cancelled"
        } else {
            "recipes.invalid"
        },
        RecipeError::Document(DocumentError::Version) => "recipes.version",
        _ => "recipes.invalid",
    }
}

/// A plan prepared for a recipe: how many entries were examined and matched, the destination,
/// the total size (already formatted), and each planned entry as (source, relative target).
pub struct PreparedPlan<P> {
    pub plan: P,
    pub examined: u64,
    pub matched: u64,
    pub destination: String,
    pub total_size: String,
    pub entries: Vec<(String, String)>,
}

/// What a look at the worker found. `D` is a recipe draft.
pub enum RecipeReply<D, P> {
    Pending,
    Disconnected,
    /// The recipe at `path` (at `revision`) was read.
    Loaded { draft: D, path: String, revision: String },
    /// A recipe was made from a saved query, searching these roots.
    FromQuery { draft: D, roots: Vec<String> },
    Prepared(PreparedPlan<P>),
    /// The job failed; `message` is the localized text of `recipe_error_key(error)`.
    Failed { error: RecipeError, message: String },
}

/// The localized texts of the manager's reports.
pub struct RecipeTexts {
    pub loaded: String,
    pub steps: String,
    pub examined: String,
    pub matched: String,
    pub rows_limit: String,
    /// The text of the "invalid recipe" key.
    pub invalid: String,
}

/// The manager's state.
pub struct RecipesPanel<D, P> {
    pub draft: D,
    pub report: String,
    /// The recipes used lately, oldest first.
    pub references: Vec<String>,
    /// The recipe loaded from a file, with the revision it was read at.
    pub loaded: Option<(String, String)>,
    pub roots: Vec<String>,
    pub plan: Option<P>,
    /// A worker runs.
    pub busy: bool,
    pub revision: u32,
}

/// The planned entries the report lists at most.
pub const MAX_LISTED_ENTRIES: usize = 500;

/// The text of a worker that went away.
pub open spec fn recipe_disconnected_text() -> Seq<char> {
    "recipe worker disconnected"@
}

/// One line per planned entry: "source → target".
pub open spec fn plan_lines(v: Seq<(String, String)>) -> Seq<char>
    decreases v.len(),
{
    if v.len() == 0 {
        Seq::empty()
    } else {
        plan_lines(v.drop_last()) + v.last().0@ + " → "@ + v.last().1@ + seq!['\n']
    }
}

/// The report of a prepared plan: the steps, how many entries were examined and matched, the
/// destination, how many entries are planned and their size, then the planned entries (the
/// first `MAX_LISTED_ENTRIES`), and a note when more were left out.
pub open spec fn prepared_report<P>(p: PreparedPlan<P>, t: RecipeTexts) -> Seq<char> {
    let n = p.entries@.len();
    let listed = if n > MAX_LISTED_ENTRIES { p.entries@.take(MAX_LISTED_ENTRIES as int) } else { p.entries@ };
    t.steps@ + seq!['\n'] + t.examined@ + ": "@ + decimal(p.examined as nat) + " → "@ + t.matched@
        + ": "@ + decimal(p.matched as nat) + seq!['\n'] + p.destination@ + seq!['\n'] + decimal(n)
        + " · "@ + p.total_size@ + seq!['\n', '\n'] + plan_lines(listed) + if n > MAX_LISTED_ENTRIES {
        t.rows_limit@
    } else {
        Seq::empty()
    }
}

/// The report of a failure: the error's message, and the details of a delivery or
/// input/output error on the next line.
pub open spec fn failure_report(error: RecipeError, message: Seq<char>) -> Seq<char> {
    message + match error {
        RecipeError::Delivery { text, .. } => seq!['\n'] + text@,
        RecipeError::Document(DocumentError::Io(e)) => seq!['\n'] + e@,
        _ => Seq::empty(),
    }
}

/// The remembered references after loading the recipe at `p` (see `add_reference_evicting`).
pub open spec fn remembered_reference(v: Seq<Seq<char>>, p: Seq<char>) -> Seq<Seq<char>> {
    if v.contains(p) {
        v
    } else if v.len() + 1 > MAX_REFERENCES {
        v.push(p).drop_first()
    } else {
        v.push(p)
    }
}

/// The next revision (wrapping).
pub open spec fn next_recipe_rev(r: u32) -> u32 {
    if r == u32::MAX { 0 } else { (r + 1) as u32 }
}

fn prepared_text<P>(p: &PreparedPlan<P>, t: &RecipeTexts) -> (r: String)
    ensures
        r@ == prepared_report(*p, *t),
{
    let mut out: Vec<char> = Vec::new();
    append_chars(&mut out, &t.steps);
    out.push('\n');
    append_chars(&mut out, &t.examined);
    append_chars(&mut out, ": ");
    let ex = u64_to_decimal(p.examined);
    append_chars(&mut out, &ex);
    append_chars(&mut out, " → ");
    append_chars(&mut out, &t.matched);
    append_chars(&mut out, ": ");
    let ma = u64_to_decimal(p.matched);
    append_chars(&mut out, &ma);
    out.push('\n');
    append_chars(&mut out, &p.destination);
    out.push('\n');
    let n = u64_to_decimal(p.entries.len() as u64);
    append_chars(&mut out, &n);
    append_chars(&mut out, " · ");
    append_chars(&mut out, &p.total_size);
    out.push('\n');
    out.push('\n');
    let limit = if p.entries.len() > MAX_LISTED_ENTRIES { MAX_LISTED_ENTRIES } else { p.entries.len() };
    let ghost head = out@;
    let mut i: usize = 0;
    while i < limit
        invariant
            i <= limit,
            limit <= p.entries@.len(),
            out@ == head + plan_lines(p.entries@.take(i as int)),
        decreases limit - i,
    {
        assert(p.entries@.take(i + 1).drop_last() == p.entries@.take(i as int));
        append_chars(&mut out, &p.entries[i].0);
        append_chars(&mut out, " → ");
        append_chars(&mut out, &p.entries[i].1);
        out.push('\n');
        assert(out@ =~= head + plan_lines(p.entries@.take(i + 1)));
        i = i + 1;
    }
    if p.entries.len() > MAX_LISTED_ENTRIES {
        append_chars(&mut out, &t.rows_limit);
    } else {
        assert(p.entries@.take(limit as int) == p.entries@);
    }
    string_of(&out)
}

fn failure_text(error: &RecipeError, message: &String) -> (r: String)
    ensures
        r@ == failure_report(*error, message@),
{
    let mut out: Vec<char> = Vec::new();
    append_chars(&mut out, message);
    match error {
        RecipeError::Delivery { text, .. } => {
            out.push('\n');
            append_chars(&mut out, text);
        },
        RecipeError::Document(DocumentError::Io(e)) => {
            out.push('\n');
            append_chars(&mut out, e);
        },
        _ => {},
    }
    string_of(&out)
}

impl<D, P> RecipesPanel<D, P> {
    /// Takes in what a look at the worker found (`pump_recipes`): returns whether nothing is
    /// pending any more (no worker, or its answer was taken in).
    pub fn receive(&mut self, reply: RecipeReply<D, P>, t: &RecipeTexts) -> (done: bool)
        ensures
            done == (!old(self).busy || !(reply is Pending)),
            !old(self).busy || reply is Pending ==> final(self).busy == old(self).busy
                && final(self).revision == old(self).revision && final(self).report@ == old(self).report@
                && path_texts(final(self).references@) == path_texts(old(self).references@),
            old(self).busy && !(reply is Pending) ==> !final(self).busy && final(self).revision
                == next_recipe_rev(old(self).revision) && match reply {
                RecipeReply::Disconnected => {
                    &&& final(self).report@ == t.invalid@ + seq!['\n'] + recipe_disconnected_text()
                    &&& path_texts(final(self).references@) == path_texts(old(self).references@)
                },
                RecipeReply::Loaded { draft, path, revision } => {
                    &&& final(self).draft == draft
                    &&& final(self).report@ == path@ + seq!['\n'] + t.loaded@
                    &&& path_texts(final(self).references@) == remembered_reference(
                        path_texts(old(self).references@),
                        path@,
                    )
                    &&& final(self).loaded matches Some((lp, lr)) && lp@ == path@ && lr@ == revision@
                },
                RecipeReply::FromQuery { draft, roots } => {
                    &&& final(self).draft == draft
                    &&& final(self).roots@ == roots@
                    &&& final(self).loaded is None
                    &&& final(self).report@ == t.loaded@
                    &&& path_texts(final(self).references@) == path_texts(old(self).references@)
                },
                RecipeReply::Prepared(p) => {
                    &&& final(self).report@ == prepared_report(p, *t)
                    &&& final(self).plan == Some(p.plan)
                    &&& path_texts(final(self).references@) == path_texts(old(self).references@)
                },
                RecipeReply::Failed { error, message } => {
                    &&& final(self).report@ == failure_report(error, message@)
                    &&& path_texts(final(self).references@) == path_texts(old(self).references@)
                },
                RecipeReply::Pending => true,
            },
    {
        if !self.busy {
            return true;
        }
        if let RecipeReply::Pending = reply {
            return false;
        }
        self.busy = false;
        match reply {
            RecipeReply::Pending => {},
            RecipeReply::Disconnected => {
                let mut out: Vec<char> = Vec::new();
                append_chars(&mut out, &t.invalid);
                out.push('\n');
                append_chars(&mut out, "recipe worker disconnected");
                self.report = string_of(&out);
            },
            RecipeReply::Loaded { draft, path, revision } => {
                self.draft = draft;
                let mut out: Vec<char> = Vec::new();
                append_chars(&mut out, &path);
                out.push('\n');
                append_chars(&mut out, &t.loaded);
                self.report = string_of(&out);
                add_reference_evicting(&mut self.references, &path);
                self.loaded = Some((path, revision));
            },
            RecipeReply::FromQuery { draft, roots } => {
                self.draft = draft;
                self.roots = roots;
                self.loaded = None;
                self.report = t.loaded.clone();
            },
            RecipeReply::Prepared(p) => {
                self.report = prepared_text(&p, t);
                self.plan = Some(p.plan);
            },
            RecipeReply::Failed { error, message } => {
                self.report = failure_text(&error, &message);
            },
        }
        self.revision = if self.revision == u32::MAX { 0 } else { self.revision + 1 };
        true
    }
}

} // verus!
