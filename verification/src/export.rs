//! What leaves the application as text: the rows a listing export covers, lines copied to the
//! clipboard, and the UTF-8 file form of an export.
use vstd::prelude::*;
use vstd::string::StringSliceAdditionalSpecFns;
use crate::text::{chars_of, string_of};

verus! {

/// The positions of `selected` that fall inside a view of `view_len` rows, in order.
pub open spec fn positions_in_view(selected: Seq<usize>, view_len: nat) -> Seq<usize>
    decreases selected.len(),
{
    if selected.len() == 0 {
        Seq::empty()
    } else {
        positions_in_view(selected.drop_last(), view_len) + (if (selected.last() as nat) < view_len {
            seq![selected.last()]
        } else {
            Seq::empty()
        })
    }
}

/// The view positions a listing export covers: the selected positions that are rows of the
/// view, in selection order, when there is a selection; else the whole view in order.
pub fn export_positions(selected: &Vec<usize>, view_len: usize) -> (r: Vec<usize>)
    ensures
        selected@.len() > 0 ==> r@ == positions_in_view(selected@, view_len as nat),
        selected@.len() == 0 ==> r@ == Seq::new(view_len as nat, |i: int| i as usize),
{
    let mut out: Vec<usize> = Vec::new();
    if selected.len() > 0 {
        let mut k: usize = 0;
        while k < selected.len()
            invariant
                k <= selected.len(),
                out@ == positions_in_view(selected@.take(k as int), view_len as nat),
            decreases selected.len() - k,
        {
            assert(selected@.take(k + 1).drop_last() == selected@.take(k as int));
            if selected[k] < view_len {
                out.push(selected[k]);
            }
            assert(out@ =~= positions_in_view(selected@.take(k + 1), view_len as nat));
            k = k + 1;
        }
        assert(selected@.take(selected.len() as int) == selected@);
        return out;
    }
    let mut i: usize = 0;
    while i < view_len
        invariant
            i <= view_len,
            out@ == Seq::new(i as nat, |k: int| k as usize),
        decreases view_len - i,
    {
        out.push(i);
        assert(out@ =~= Seq::new((i + 1) as nat, |k: int| k as usize));
        i = i + 1;
    }
    out
}

/// The lines joined with CR LF (no line break after the last).
pub open spec fn crlf_joined(lines: Seq<Seq<char>>) -> Seq<char>
    decreases lines.len(),
{
    if lines.len() == 0 {
        Seq::empty()
    } else if lines.len() == 1 {
        lines[0]
    } else {
        crlf_joined(lines.drop_last()) + seq!['\r', '\n'] + lines.last()
    }
}

/// The text copied to the clipboard for several paths or names: one per line, joined with CR LF.
pub fn join_lines(lines: &Vec<String>) -> (r: String)
    ensures
        r@ == crlf_joined(lines@.map_values(|s: String| s@)),
{
    let ghost lv = lines@.map_values(|s: String| s@);
    let mut out: Vec<char> = Vec::new();
    let mut i: usize = 0;
    while i < lines.len()
        invariant
            i <= lines.len(),
            lv == lines@.map_values(|s: String| s@),
            out@ == crlf_joined(lv.take(i as int)),
        decreases lines.len() - i,
    {
        let ghost before = out@;
        if i > 0 {
            out.push('\r');
            out.push('\n');
        }
        let cs = chars_of(lines[i].as_str());
        let mut j: usize = 0;
        let ghost mid = out@;
        while j < cs.len()
            invariant
                j <= cs.len(),
                out@ == mid + cs@.take(j as int),
            decreases cs.len() - j,
        {
            out.push(cs[j]);
            assert(cs@.take(j + 1) == cs@.take(j as int).push(cs@[j as int]));
            j = j + 1;
        }
        proof {
            assert(cs@.take(cs.len() as int) == cs@);
            let t = lv.take(i + 1);
            assert(t.drop_last() == lv.take(i as int));
            assert(t.last() == lines@[i as int]@);
            if i == 0 {
                assert(out@ =~= t[0]);
            } else {
                assert(out@ =~= before + seq!['\r', '\n'] + t.last());
            }
        }
        i = i + 1;
    }
    assert(lv.take(lines.len() as int) == lv);
    string_of(&out)
}

/// The bytes of an export file: the UTF-8 byte-order mark, then the text in UTF-8.
pub fn with_bom(csv: &str) -> (r: Vec<u8>)
    ensures
        r@ == seq![0xEFu8, 0xBBu8, 0xBFu8] + csv.spec_bytes(),
{
    let bytes = csv.as_bytes();
    let mut out: Vec<u8> = Vec::new();
    out.push(0xEF);
    out.push(0xBB);
    out.push(0xBF);
    let mut i: usize = 0;
    while i < bytes.len()
        invariant
            i <= bytes@.len(),
            bytes@ == csv.spec_bytes(),
            out@ == seq![0xEFu8, 0xBBu8, 0xBFu8] + bytes@.take(i as int),
        decreases bytes.len() - i,
    {
        out.push(bytes[i]);
        assert(bytes@.take(i + 1) == bytes@.take(i as int).push(bytes@[i as int]));
        i = i + 1;
    }
    assert(bytes@.take(bytes@.len() as int) == bytes@);
    out
}

} // verus!
