//! The text transform dialog (line endings, encoding, final newline, trailing blanks): its
//! options as the UI indexes them, the progress of the job, and its status line.
use vstd::prelude::*;
use crate::text::{append_chars, decimal, string_of, u64_to_decimal};

verus! {

/// Line endings of a text.
#[derive(Clone, Copy, Debug, PartialEq, Eq, Structural)]
pub enum LineEnding {
    Crlf,
    Lf,
    Cr,
    Mixed,
    /// No line ending at all.
    NoEndings,
}

/// The encoding a transform writes.
#[derive(Clone, Copy, Debug, PartialEq, Eq, Structural)]
pub enum TargetEncoding {
    Preserve,
    Utf8,
    Utf8Bom,
    Utf16Le,
    Utf16Be,
}

/// What a transform does with the final newline.
#[derive(Clone, Copy, Debug, PartialEq, Eq, Structural)]
pub enum FinalNewline {
    Preserve,
    Ensure,
    Remove,
}

/// The encoding a diagnosis found.
#[derive(Clone, Copy, Debug, PartialEq, Eq, Structural)]
pub enum TextEncoding {
    Utf8,
    Utf8Bom,
    Utf16Le,
    Utf16Be,
}

/// The options of a transform.
#[derive(Clone, Copy, Debug, PartialEq, Eq, Structural)]
pub struct TransformOptions {
    pub line_ending: LineEnding,
    pub encoding: TargetEncoding,
    pub final_newline: FinalNewline,
    pub trim_trailing_whitespace: bool,
}

/// The options a new dialog starts with: LF, encoding and final newline kept, no trimming.
pub fn default_options() -> (r: TransformOptions)
    ensures
        r == (TransformOptions {
            line_ending: LineEnding::Lf,
            encoding: TargetEncoding::Preserve,
            final_newline: FinalNewline::Preserve,
            trim_trailing_whitespace: false,
        }),
{
    TransformOptions {
        line_ending: LineEnding::Lf,
        encoding: TargetEncoding::Preserve,
        final_newline: FinalNewline::Preserve,
        trim_trailing_whitespace: false,
    }
}

/// The line ending the UI index `value` picks: 0 CRLF, 2 CR, anything else LF.
pub open spec fn line_ending_for(value: i32) -> LineEnding {
    if value == 0 {
        LineEnding::Crlf
    } else if value == 2 {
        LineEnding::Cr
    } else {
        LineEnding::Lf
    }
}

/// The UI index of a target line ending: 0 CRLF, 2 CR, 1 otherwise.
pub open spec fn line_ending_code(e: LineEnding) -> i32 {
    match e {
        LineEnding::Crlf => 0i32,
        LineEnding::Cr => 2i32,
        _ => 1i32,
    }
}

/// The encoding the UI index `value` picks: 1 UTF-8, 2 UTF-8 with BOM, 3 UTF-16 LE,
/// 4 UTF-16 BE, anything else the text's own.
pub open spec fn encoding_for(value: i32) -> TargetEncoding {
    if value == 1 {
        TargetEncoding::Utf8
    } else if value == 2 {
        TargetEncoding::Utf8Bom
    } else if value == 3 {
        TargetEncoding::Utf16Le
    } else if value == 4 {
        TargetEncoding::Utf16Be
    } else {
        TargetEncoding::Preserve
    }
}

/// The UI index of a target encoding.
pub open spec fn encoding_code(e: TargetEncoding) -> i32 {
    match e {
        TargetEncoding::Preserve => 0i32,
        TargetEncoding::Utf8 => 1i32,
        TargetEncoding::Utf8Bom => 2i32,
        TargetEncoding::Utf16Le => 3i32,
        TargetEncoding::Utf16Be => 4i32,
    }
}

/// The final-newline choice the UI index `value` picks: 1 ensure, 2 remove, anything else keep.
pub open spec fn final_newline_for(value: i32) -> FinalNewline {
    if value == 1 {
        FinalNewline::Ensure
    } else if value == 2 {
        FinalNewline::Remove
    } else {
        FinalNewline::Preserve
    }
}

/// The UI index of a final-newline choice.
pub open spec fn final_newline_code(f: FinalNewline) -> i32 {
    match f {
        FinalNewline::Preserve => 0i32,
        FinalNewline::Ensure => 1i32,
        FinalNewline::Remove => 2i32,
    }
}

/// The line ending picked in the UI: 0 CRLF, 2 CR, anything else LF.
pub fn line_ending_of(value: i32) -> (r: LineEnding)
    ensures
        r == line_ending_for(value),
{
    if value == 0 {
        LineEnding::Crlf
    } else if value == 2 {
        LineEnding::Cr
    } else {
        LineEnding::Lf
    }
}

/// The UI index of a target line ending: 0 CRLF, 2 CR, 1 otherwise.
pub fn line_ending_index(e: LineEnding) -> (r: i32)
    ensures
        r == line_ending_code(e),
{
    match e {
        LineEnding::Crlf => 0,
        LineEnding::Cr => 2,
        _ => 1,
    }
}

/// The encoding picked in the UI: 1 UTF-8, 2 UTF-8 with BOM, 3 UTF-16 LE, 4 UTF-16 BE,
/// anything else the text's own.
pub fn encoding_of(value: i32) -> (r: TargetEncoding)
    ensures
        r == encoding_for(value),
{
    if value == 1 {
        TargetEncoding::Utf8
    } else if value == 2 {
        TargetEncoding::Utf8Bom
    } else if value == 3 {
        TargetEncoding::Utf16Le
    } else if value == 4 {
        TargetEncoding::Utf16Be
    } else {
        TargetEncoding::Preserve
    }
}

/// The UI index of a target encoding.
pub fn encoding_index(e: TargetEncoding) -> (r: i32)
    ensures
        r == encoding_code(e),
{
    match e {
        TargetEncoding::Preserve => 0,
        TargetEncoding::Utf8 => 1,
        TargetEncoding::Utf8Bom => 2,
        TargetEncoding::Utf16Le => 3,
        TargetEncoding::Utf16Be => 4,
    }
}

/// The final-newline choice picked in the UI: 1 ensure, 2 remove, anything else keep.
pub fn final_newline_of(value: i32) -> (r: FinalNewline)
    ensures
        r == final_newline_for(value),
{
    if value == 1 {
        FinalNewline::Ensure
    } else if value == 2 {
        FinalNewline::Remove
    } else {
        FinalNewline::Preserve
    }
}

/// The UI index of a final-newline choice.
pub fn final_newline_index(f: FinalNewline) -> (r: i32)
    ensures
        r == final_newline_code(f),
{
    match f {
        FinalNewline::Preserve => 0,
        FinalNewline::Ensure => 1,
        FinalNewline::Remove => 2,
    }
}

/// Every choice the UI offers reads back as the same index: line endings 0..=2, encodings
/// 0..=4, final newline 0..=2.
pub proof fn lemma_ui_indices_round_trip(v: i32)
    ensures
        0 <= v <= 2 ==> line_ending_code(line_ending_for(v)) == v,
        0 <= v <= 4 ==> encoding_code(encoding_for(v)) == v,
        0 <= v <= 2 ==> final_newline_code(final_newline_for(v)) == v,
{
}

/// The label of a diagnosed encoding.
pub fn encoding_label(e: TextEncoding) -> (r: &'static str)
    ensures
        r@ == (match e {
            TextEncoding::Utf8 => "UTF-8"@,
            TextEncoding::Utf8Bom => "UTF-8 BOM"@,
            TextEncoding::Utf16Le => "UTF-16 LE"@,
            TextEncoding::Utf16Be => "UTF-16 BE"@,
        }),
{
    match e {
        TextEncoding::Utf8 => "UTF-8",
        TextEncoding::Utf8Bom => "UTF-8 BOM",
        TextEncoding::Utf16Le => "UTF-16 LE",
        TextEncoding::Utf16Be => "UTF-16 BE",
    }
}

/// The message key naming a diagnosed line ending.
pub fn ending_key(e: LineEnding) -> (r: &'static str)
    ensures
        r@ == (match e {
            LineEnding::Crlf => "text_transform.windows"@,
            LineEnding::Lf => "text_transform.unix"@,
            LineEnding::Cr => "text_transform.mac_classic"@,
            LineEnding::Mixed => "text_transform.mixed"@,
            LineEnding::NoEndings => "text_transform.no_endings"@,
        }),
{
    match e {
        LineEnding::Crlf => "text_transform.windows",
        LineEnding::Lf => "text_transform.unix",
        LineEnding::Cr => "text_transform.mac_classic",
        LineEnding::Mixed => "text_transform.mixed",
        LineEnding::NoEndings => "text_transform.no_endings",
    }
}

/// A message of the transform job.
#[derive(Clone, Copy, Debug, PartialEq, Eq)]
pub enum TextJobMsg {
    /// This many files are done.
    Progress(usize),
    /// Finished, with this many failures.
    Done(usize),
    /// Cancelled.
    Cancelled,
}

/// The progress of the transform job as the dialog shows it.
#[derive(Clone, Copy, Debug, PartialEq, Eq)]
pub struct TextJobProgress {
    pub completed: usize,
    pub failed: usize,
    pub finished: bool,
}

/// The progress after one message: progress updates the count, the end (done, cancelled)
/// finishes the job, done with its failures.
pub open spec fn progress_after(p: TextJobProgress, m: TextJobMsg) -> TextJobProgress {
    match m {
        TextJobMsg::Progress(n) => TextJobProgress { completed: n, ..p },
        TextJobMsg::Done(f) => TextJobProgress { failed: f, finished: true, ..p },
        TextJobMsg::Cancelled => TextJobProgress { finished: true, ..p },
    }
}

impl TextJobProgress {
    /// Nothing done yet.
    pub fn new() -> (r: Self)
        ensures
            r == (TextJobProgress { completed: 0, failed: 0, finished: false }),
    {
        TextJobProgress { completed: 0, failed: 0, finished: false }
    }

    /// Takes a message of the job.
    pub fn take(&mut self, m: TextJobMsg)
        ensures
            *final(self) == progress_after(*old(self), m),
    {
        match m {
            TextJobMsg::Progress(n) => self.completed = n,
            TextJobMsg::Done(f) => {
                self.failed = f;
                self.finished = true;
            },
            TextJobMsg::Cancelled => self.finished = true,
        }
    }

    /// The job's worker ended without a last message: the job counts as finished.
    pub fn disconnected(&mut self)
        ensures
            *final(self) == (TextJobProgress { finished: true, ..*old(self) }),
    {
        self.finished = true;
    }
}

/// A transform can be applied once the text was diagnosed, while no job runs and none finished.
pub fn can_apply(diagnosed: bool, running: bool, finished: bool) -> (r: bool)
    ensures
        r == (diagnosed && !running && !finished),
{
    diagnosed && !running && !finished
}

/// The status line: `done / total · failed_label: failures` once finished, `done / total`
/// while running, empty otherwise.
pub open spec fn status_spec(p: TextJobProgress, total: usize, running: bool, failed_label: Seq<char>) -> Seq<char> {
    if p.finished {
        decimal(p.completed as nat) + " / "@ + decimal(total as nat) + " · "@ + failed_label + ": "@
            + decimal(p.failed as nat)
    } else if running {
        decimal(p.completed as nat) + " / "@ + decimal(total as nat)
    } else {
        Seq::empty()
    }
}


/// The status line of the dialog (see `status_spec`).
pub fn status_line(p: &TextJobProgress, total: usize, running: bool, failed_label: &str) -> (r: String)
    ensures
        r@ == status_spec(*p, total, running, failed_label@),
{
    let mut out: Vec<char> = Vec::new();
    if !p.finished && !running {
        return String::new();
    }
    append_chars(&mut out, u64_to_decimal(p.completed as u64).as_str());
    append_chars(&mut out, " / ");
    append_chars(&mut out, u64_to_decimal(total as u64).as_str());
    if p.finished {
        append_chars(&mut out, " · ");
        append_chars(&mut out, failed_label);
        append_chars(&mut out, ": ");
        append_chars(&mut out, u64_to_decimal(p.failed as u64).as_str());
    }
    string_of(&out)
}

} // verus!
