//! Deliveries (publishing a selection as a folder or a ZIP): the structure chosen, the list of
//! sources the review shows, the receipt of a finished delivery, and marking its sources again
//! in the basket.
use vstd::prelude::*;
use crate::compare::{lowercase_of};
use crate::text::{append_chars, chars_of, decimal, string_of, u64_to_decimal};
use crate::textset::texts;

verus! {

/// How many sources the review lists.
pub const REPORT_ROWS: usize = 500;

/// How the delivered files are laid out.
#[derive(Clone, Debug, PartialEq, Eq)]
pub enum Structure {
    /// Grouped by the group names.
    Grouped,
    /// All in one folder.
    Flat,
    /// Keeping their paths relative to this root.
    Relative(String),
}

/// The structure the UI index `mode` picks: 0 grouped, 1 flat, anything else relative to `root`.
pub fn structure_of(mode: i32, root: String) -> (r: Structure)
    ensures
        r == (if mode == 0 {
            Structure::Grouped
        } else if mode == 1 {
            Structure::Flat
        } else {
            Structure::Relative(root)
        }),
{
    if mode == 0 {
        Structure::Grouped
    } else if mode == 1 {
        Structure::Flat
    } else {
        Structure::Relative(root)
    }
}

/// The first `REPORT_ROWS` sources numbered from 1, one per line: "1: path\n2: path\n…".
pub open spec fn numbered_report(paths: Seq<Seq<char>>) -> Seq<char>
    decreases paths.len(),
{
    if paths.len() == 0 {
        Seq::empty()
    } else if paths.len() > REPORT_ROWS {
        numbered_report(paths.take(REPORT_ROWS as int))
    } else {
        numbered_report(paths.drop_last()) + decimal(paths.len() as nat) + ": "@ + paths.last()
            + seq!['\n']
    }
}


/// The list of sources the review shows (see `numbered_report`).
pub fn sources_report(paths: &Vec<String>) -> (r: String)
    ensures
        r@ == numbered_report(texts(paths@)),
{
    let n: usize = if paths.len() > REPORT_ROWS {
        REPORT_ROWS
    } else {
        paths.len()
    };
    let ghost all = texts(paths@);
    proof {
        if all.len() > REPORT_ROWS {
            assert(numbered_report(all) == numbered_report(all.take(REPORT_ROWS as int)));
        }
        assert(all.take(n as int).len() == n);
    }
    let mut out: Vec<char> = Vec::new();
    let mut i: usize = 0;
    while i < n
        invariant
            i <= n <= paths.len(),
            n <= REPORT_ROWS,
            all == texts(paths@),
            out@ == numbered_report(all.take(i as int)),
        decreases n - i,
    {
        append_chars(&mut out, u64_to_decimal((i + 1) as u64).as_str());
        append_chars(&mut out, ": ");
        append_chars(&mut out, paths[i].as_str());
        out.push('\n');
        proof {
            let t = all.take(i + 1);
            assert(t.len() == i + 1);
            assert(t.drop_last() == all.take(i as int));
            assert(t.last() == paths@[i as int]@);
        }
        i = i + 1;
    }
    proof {
        if all.len() <= REPORT_ROWS {
            assert(all.take(n as int) == all);
        }
    }
    string_of(&out)
}

/// How an operation item ended.
#[derive(Clone, Debug, PartialEq, Eq)]
pub enum ItemOutcome {
    Done,
    Skipped,
    Failed(String),
}

/// How a finished delivery is reported.
#[derive(Clone, Debug, PartialEq, Eq)]
pub enum ReceiptKind {
    /// Delivered: the first item delivered gives the destination.
    Completed(String),
    /// Cancelled by the user.
    Cancelled,
    /// Failed, with the first failure's message (empty when none is known).
    Failed(String),
}

/// The first item delivered, if any.
pub open spec fn first_done(items: Seq<(ItemOutcome, String)>) -> Option<int>
    decreases items.len(),
{
    if items.len() == 0 {
        None
    } else if items[0].0 is Done {
        Some(0)
    } else {
        match first_done(items.drop_first()) {
            Some(i) => Some(i + 1),
            None => None,
        }
    }
}

/// The message of the first failed item, if any.
pub open spec fn first_failure(items: Seq<(ItemOutcome, String)>) -> Option<Seq<char>>
    decreases items.len(),
{
    if items.len() == 0 {
        None
    } else {
        match items[0].0 {
            ItemOutcome::Failed(m) => Some(m@),
            _ => first_failure(items.drop_first()),
        }
    }
}

/// The receipt of a finished delivery whose items ended as `items` (outcome, destination), as
/// (kind, text) with kind 0 completed, 1 cancelled, 2 failed: completed at the first delivered
/// item's destination; else cancelled when the user cancelled; else failed with the first
/// failure's message (empty when none is known).
pub open spec fn receipt_spec(items: Seq<(ItemOutcome, String)>, cancelled: bool) -> (int, Seq<char>) {
    match first_done(items) {
        Some(i) => (0, items[i].1@),
        None => if cancelled {
            (1, Seq::empty())
        } else {
            match first_failure(items) {
                Some(m) => (2, m),
                None => (2, Seq::empty()),
            }
        },
    }
}

/// The receipt of a finished delivery (see `receipt_spec`).
pub fn delivery_receipt(items: &Vec<(ItemOutcome, String)>, cancelled: bool) -> (r: ReceiptKind)
    ensures
        r@ == receipt_spec(items@, cancelled),
{
    let mut i: usize = 0;
    assert(items@.skip(0) == items@);
    while i < items.len()
        invariant
            i <= items.len(),
            first_done(items@) == (match first_done(items@.skip(i as int)) {
                Some(k) => Some(k + i),
                None => None::<int>,
            }),
        decreases items.len() - i,
    {
        proof {
            let s = items@.skip(i as int);
            assert(s.drop_first() == items@.skip(i + 1));
            assert(s[0] == items@[i as int]);
        }
        if let ItemOutcome::Done = items[i].0 {
            let dest = items[i].1.clone();
            return ReceiptKind::Completed(dest);
        }
        i = i + 1;
    }
    proof {
        assert(items@.skip(i as int).len() == 0);
    }
    if cancelled {
        return ReceiptKind::Cancelled;
    }
    let mut j: usize = 0;
    assert(items@.skip(0) == items@);
    while j < items.len()
        invariant
            j <= items.len(),
            first_done(items@) is None,
            !cancelled,
            first_failure(items@) == first_failure(items@.skip(j as int)),
        decreases items.len() - j,
    {
        proof {
            let s = items@.skip(j as int);
            assert(s.drop_first() == items@.skip(j + 1));
            assert(s[0] == items@[j as int]);
        }
        if let ItemOutcome::Failed(m) = &items[j].0 {
            return ReceiptKind::Failed(m.clone());
        }
        j = j + 1;
    }
    ReceiptKind::Failed(String::new())
}

impl View for ReceiptKind {
    /// The receipt with its texts.
    type V = (int, Seq<char>);

    open spec fn view(&self) -> (int, Seq<char>) {
        match self {
            ReceiptKind::Completed(d) => (0, d@),
            ReceiptKind::Cancelled => (1, Seq::empty()),
            ReceiptKind::Failed(m) => (2, m@),
        }
    }
}

/// The key by which a delivered source is found again in the basket: `/` read as `\`, then
/// lower-cased (Windows paths ignore case).
pub open spec fn selection_key_of(p: Seq<char>) -> Seq<char> {
    lowercase_of(p.map_values(|c: char| if c == '/' { '\\' } else { c }))
}

/// The key of a path (see `selection_key_of`).
pub fn selection_key(p: &str) -> (r: String)
    ensures
        r@ == selection_key_of(p@),
{
    let cs = chars_of(p);
    let mut out: Vec<char> = Vec::new();
    let mut i: usize = 0;
    while i < cs.len()
        invariant
            i <= cs.len(),
            cs@ == p@,
            out@ == cs@.take(i as int).map_values(|c: char| if c == '/' { '\\' } else { c }),
        decreases cs.len() - i,
    {
        let c = cs[i];
        out.push(if c == '/' { '\\' } else { c });
        assert(out@ =~= cs@.take(i + 1).map_values(|c: char| if c == '/' { '\\' } else { c }));
        i = i + 1;
    }
    assert(cs@.take(cs.len() as int) == cs@);
    let s = string_of(&out);
    crate::compare::lowercase(s.as_str())
}

/// The basket rows to mark again after a delivery: those whose key is the key of a delivered
/// source, in order.
pub fn rows_to_mark(items: &Vec<String>, source_keys: &Vec<String>) -> (r: Vec<usize>)
    ensures
        forall|k: int| 0 <= k < r@.len() ==> r@[k] < items@.len(),
        forall|i: int|
            0 <= i < items@.len() ==> (r@.contains(i as usize) <==> texts(source_keys@).contains(
                selection_key_of(#[trigger] items@[i]@),
            )),
        forall|a: int, b: int| 0 <= a < b < r@.len() ==> r@[a] < r@[b],
{
    let mut out: Vec<usize> = Vec::new();
    let mut i: usize = 0;
    while i < items.len()
        invariant
            i <= items.len(),
            forall|k: int| 0 <= k < out@.len() ==> out@[k] < i,
            forall|q: int|
                0 <= q < i ==> (out@.contains(q as usize) <==> texts(source_keys@).contains(
                    selection_key_of(#[trigger] items@[q]@),
                )),
            forall|a: int, b: int| 0 <= a < b < out@.len() ==> out@[a] < out@[b],
        decreases items.len() - i,
    {
        let key = selection_key(items[i].as_str());
        let mut found = false;
        let mut j: usize = 0;
        while j < source_keys.len()
            invariant
                j <= source_keys.len(),
                key@ == selection_key_of(items@[i as int]@),
                found ==> texts(source_keys@).contains(key@),
                !found ==> forall|z: int| 0 <= z < j ==> source_keys@[z]@ != key@,
            decreases source_keys.len() - j,
        {
            if crate::text::text_is(source_keys[j].as_str(), key.as_str()) {
                proof {
                    assert(texts(source_keys@)[j as int] == key@);
                }
                found = true;
            }
            j = j + 1;
        }
        proof {
            if !found && texts(source_keys@).contains(key@) {
                let z = choose|z: int| 0 <= z < texts(source_keys@).len() && texts(source_keys@)[z] == key@;
                assert(source_keys@[z]@ == key@);
            }
        }
        let ghost before = out@;
        if found {
            out.push(i);
        }
        proof {
            assert forall|q: int| 0 <= q < i + 1 implies (out@.contains(q as usize)
                <==> texts(source_keys@).contains(selection_key_of(#[trigger] items@[q]@))) by {
                if q < i {
                    if out@.contains(q as usize) {
                        let k = choose|k: int| 0 <= k < out@.len() && out@[k] == q as usize;
                        if k < before.len() {
                            assert(before[k] == q as usize);
                        }
                    }
                    if before.contains(q as usize) {
                        let k = choose|k: int| 0 <= k < before.len() && before[k] == q as usize;
                        assert(out@[k] == q as usize);
                    }
                } else {
                    if found {
                        assert(out@[before.len() as int] == i);
                    } else {
                        if out@.contains(q as usize) {
                            let k = choose|k: int| 0 <= k < out@.len() && out@[k] == q as usize;
                            assert(before[k] < i);
                        }
                    }
                }
            }
        }
        i = i + 1;
    }
    out
}

} // verus!
