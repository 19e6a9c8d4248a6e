//! Filling a file pane from its folder listing, and the counts its footer shows.
use vstd::prelude::*;

verus! {

/// Whether a poll of a listing counts as real progress, which claims the listing's "fresh"
/// mark: some entries arrived, or the listing finished.
pub fn claims_fresh(batch_is_empty: bool, done: bool) -> (r: bool)
    ensures
        r == (!batch_is_empty || done),
{
    !batch_is_empty || done
}

/// The entries of a pane after a batch of its listing arrived: the first batch of a new
/// listing (`fresh`) replaces what the pane showed before, later batches are appended. When
/// the listing ends fresh without any batch (the folder became empty), the pane is emptied.
pub open spec fn merged<T>(entries: Seq<T>, batch: Seq<T>, fresh: bool, done: bool) -> Seq<T> {
    if batch.len() > 0 {
        if fresh {
            batch
        } else {
            entries + batch
        }
    } else if done && fresh {
        Seq::<T>::empty()
    } else {
        entries
    }
}

/// Merges a batch of a listing into the pane's entries (see `merged`).
pub fn merge_batch<T>(entries: &mut Vec<T>, batch: Vec<T>, fresh: bool, done: bool)
    ensures
        final(entries)@ == merged(old(entries)@, batch@, fresh, done),
{
    let mut batch = batch;
    if batch.len() > 0 {
        if fresh {
            entries.clear();
        }
        entries.append(&mut batch);
    } else if done && fresh {
        entries.clear();
    }
}

/// The focus once a listing ends: the first row when nothing was focused and rows exist.
pub fn focus_after_listing(focused: Option<usize>, len: usize) -> (r: Option<usize>)
    ensures
        r == (if focused is None && len > 0 {
            Some(0usize)
        } else {
            focused
        }),
{
    if focused.is_none() && len > 0 {
        Some(0)
    } else {
        focused
    }
}

/// Listing the same folder again never duplicates its rows: whatever the pane showed before,
/// a fresh first batch followed by more batches leaves exactly the listed entries.
pub proof fn lemma_relisting_replaces<T>(before: Seq<T>, first: Seq<T>, rest: Seq<T>, done: bool)
    requires
        first.len() > 0,
    ensures
        merged(merged(before, first, true, false), rest, false, done) == first + rest,
{
    if rest.len() == 0 {
        assert(first + rest =~= first);
    }
}

/// A folder that became empty empties its pane when its fresh listing ends without batches.
pub proof fn lemma_empty_folder_empties<T>(before: Seq<T>)
    ensures
        merged(before, Seq::<T>::empty(), true, true) == Seq::<T>::empty(),
{
}

/// How long new files stay highlighted.
#[derive(Clone, Copy, Debug, PartialEq, Eq)]
pub enum HighlightDuration {
    /// That many seconds.
    FadeSeconds(u32),
    /// Until the user interacts with the pane.
    UntilInteract,
    /// Until the pane is refreshed.
    UntilRefresh,
}

/// Seconds a new file stays highlighted: the configured seconds, or a generous eight seconds
/// for the settings that last until an interaction or a refresh.
pub fn highlight_secs(d: &HighlightDuration) -> (r: u64)
    ensures
        r == (match d {
            HighlightDuration::FadeSeconds(n) => *n as u64,
            _ => 8,
        }),
{
    match d {
        HighlightDuration::FadeSeconds(n) => *n as u64,
        _ => 8,
    }
}

/// What the footer of a file pane counts (the disk usage aside).
#[derive(Clone, Copy, Debug, PartialEq, Eq)]
pub struct FooterCounts {
    /// Selected rows.
    pub sel_count: usize,
    /// Rows in the view (after filters).
    pub total_count: usize,
    /// Bytes of the selected rows that have a size.
    pub marked_bytes: u64,
    /// Entries of the whole listing, files and folders.
    pub item_count: usize,
    pub file_count: usize,
    pub dir_count: usize,
}

/// One entry of a listing as the footer sees it: whether it is a folder, and its size.
#[derive(Clone, Copy, Debug, PartialEq, Eq)]
pub struct EntryInfo {
    pub is_dir: bool,
    pub size: Option<u64>,
}

/// The size counted for the selected view position `pos`: the size of the entry it shows, when
/// the position is in the view, the entry exists and has a size; zero otherwise.
pub open spec fn size_at(pos: usize, view: Seq<usize>, entries: Seq<EntryInfo>) -> nat {
    if pos < view.len() && view[pos as int] < entries.len() {
        match entries[view[pos as int] as int].size {
            Some(s) => s as nat,
            None => 0,
        }
    } else {
        0
    }
}

/// The bytes of the selected positions.
pub open spec fn marked_sum(selected: Seq<usize>, view: Seq<usize>, entries: Seq<EntryInfo>) -> nat
    decreases selected.len(),
{
    if selected.len() == 0 {
        0
    } else {
        marked_sum(selected.drop_last(), view, entries) + size_at(selected.last(), view, entries)
    }
}

/// The number of folders among the entries.
pub open spec fn dir_total(entries: Seq<EntryInfo>) -> nat
    decreases entries.len(),
{
    if entries.len() == 0 {
        0
    } else {
        dir_total(entries.drop_last()) + if entries.last().is_dir {
            1nat
        } else {
            0nat
        }
    }
}

proof fn lemma_dir_total_le(entries: Seq<EntryInfo>)
    ensures
        dir_total(entries) <= entries.len(),
    decreases entries.len(),
{
    if entries.len() > 0 {
        lemma_dir_total_le(entries.drop_last());
    }
}

proof fn lemma_marked_sum_mono(selected: Seq<usize>, view: Seq<usize>, entries: Seq<EntryInfo>, i: int)
    requires
        0 <= i <= selected.len(),
    ensures
        marked_sum(selected.take(i), view, entries) <= marked_sum(selected, view, entries),
    decreases selected.len() - i,
{
    if i < selected.len() {
        lemma_marked_sum_mono(selected, view, entries, i + 1);
        assert(selected.take(i + 1).drop_last() == selected.take(i));
    } else {
        assert(selected.take(i) == selected);
    }
}

/// Selecting a single row counts the size of the entry that row shows (through the view, not
/// the entry at the same index of the listing), nothing for a row outside the view.
pub proof fn lemma_marked_one_row(p: usize, view: Seq<usize>, entries: Seq<EntryInfo>)
    ensures
        p < view.len() && view[p as int] < entries.len() ==> marked_sum(seq![p], view, entries) == match entries[view[p as int] as int].size {
            Some(s) => s as nat,
            None => 0nat,
        },
        p >= view.len() ==> marked_sum(seq![p], view, entries) == 0,
{
    let one = seq![p];
    assert(one.drop_last() =~= Seq::<usize>::empty());
    assert(one.last() == p);
    assert(marked_sum(one.drop_last(), view, entries) == 0);
    assert(marked_sum(one, view, entries) == size_at(p, view, entries));
}

/// The selected bytes depend only on what each view position shows: two listings whose views
/// show, position by position, entries of the same size (and the same missing entries) give
/// the same bytes for any selection, however their entries are ordered.
pub proof fn lemma_marked_follows_view(
    selected: Seq<usize>,
    view: Seq<usize>,
    entries: Seq<EntryInfo>,
    view2: Seq<usize>,
    entries2: Seq<EntryInfo>,
)
    requires
        view2.len() == view.len(),
        forall|k: int|
            0 <= k < view.len() ==> ((#[trigger] view[k] < entries.len()) == (view2[k] < entries2.len())),
        forall|k: int|
            0 <= k < view.len() && #[trigger] view[k] < entries.len() ==> entries2[view2[k] as int].size
                == entries[view[k] as int].size,
    ensures
        marked_sum(selected, view, entries) == marked_sum(selected, view2, entries2),
    decreases selected.len(),
{
    if selected.len() > 0 {
        lemma_marked_follows_view(selected.drop_last(), view, entries, view2, entries2);
        let p = selected.last();
        if p < view.len() {
            assert((view[p as int] < entries.len()) == (view2[p as int] < entries2.len()));
        }
    }
}

/// The footer counts of a pane: `view` maps view positions to entries, `selected` holds the
/// selected view positions (each once).
pub fn footer_counts(view: &Vec<usize>, selected: &Vec<usize>, entries: &Vec<EntryInfo>) -> (r: FooterCounts)
    requires
        marked_sum(selected@, view@, entries@) <= u64::MAX,
    ensures
        r.sel_count == selected@.len(),
        r.total_count == view@.len(),
        r.marked_bytes == marked_sum(selected@, view@, entries@),
        r.dir_count == dir_total(entries@),
        r.file_count == entries@.len() - dir_total(entries@),
        r.item_count == entries@.len(),
{
    let mut bytes: u64 = 0;
    let mut i: usize = 0;
    while i < selected.len()
        invariant
            i <= selected.len(),
            bytes == marked_sum(selected@.take(i as int), view@, entries@),
            marked_sum(selected@, view@, entries@) <= u64::MAX,
        decreases selected.len() - i,
    {
        let pos = selected[i];
        let mut add: u64 = 0;
        if pos < view.len() {
            let idx: usize = view[pos];
            if idx < entries.len() {
                if let Some(s) = entries[idx].size {
                    add = s;
                }
            }
        }
        proof {
            assert(selected@.take(i + 1).drop_last() == selected@.take(i as int));
            assert(selected@.take(i + 1).last() == pos);
            lemma_marked_sum_mono(selected@, view@, entries@, i + 1);
        }
        bytes = bytes + add;
        i = i + 1;
    }
    assert(selected@.take(selected.len() as int) == selected@);
    let mut dirs: usize = 0;
    let mut j: usize = 0;
    while j < entries.len()
        invariant
            j <= entries.len(),
            dirs == dir_total(entries@.take(j as int)),
            dirs <= j,
        decreases entries.len() - j,
    {
        proof {
            assert(entries@.take(j + 1).drop_last() == entries@.take(j as int));
        }
        if entries[j].is_dir {
            dirs = dirs + 1;
        }
        j = j + 1;
    }
    assert(entries@.take(entries.len() as int) == entries@);
    FooterCounts {
        sel_count: selected.len(),
        total_count: view.len(),
        marked_bytes: bytes,
        item_count: entries.len(),
        file_count: entries.len() - dirs,
        dir_count: dirs,
    }
}

/// An entry of a deep listing, with what its row needs already read or formatted: its name,
/// whether the visibility settings show it, whether it is a folder, whether it is cut, its
/// depth below the listed folder, its icon, and the texts of the visible columns.
pub struct DeepItem {
    pub name: String,
    pub visible: bool,
    pub is_dir: bool,
    pub cut: bool,
    pub depth: u32,
    pub icon: u32,
    pub cells: Vec<String>,
}

/// A row of a file table.
pub struct PlainRow {
    pub name: String,
    pub cells: Vec<String>,
    pub is_dir: bool,
    pub selected: bool,
    pub focused: bool,
    pub cut: bool,
    pub highlight: bool,
    pub icon: u32,
    pub depth: u32,
}

/// A row as values: name, cells, folder, selected, focused, cut, highlight, icon, depth.
pub type RowValues = (Seq<char>, Seq<Seq<char>>, bool, bool, bool, bool, bool, u32, u32);

/// The texts of a list of strings.
pub open spec fn cell_texts(v: Seq<String>) -> Seq<Seq<char>> {
    v.map_values(|c: String| c@)
}

/// The values of a row.
pub open spec fn row_values(r: PlainRow) -> RowValues {
    (r.name@, cell_texts(r.cells@), r.is_dir, r.selected, r.focused, r.cut, r.highlight, r.icon, r.depth)
}

/// The values of a list of rows.
pub open spec fn rows_values(v: Seq<PlainRow>) -> Seq<RowValues> {
    v.map_values(|r: PlainRow| row_values(r))
}

/// The rows of a deep listing: the visible entries, in the order found, with their cells,
/// depth, icon and cut flag; a deep view neither selects, focuses nor highlights.
pub open spec fn deep_rows_spec(items: Seq<DeepItem>) -> Seq<RowValues>
    decreases items.len(),
{
    if items.len() == 0 {
        Seq::empty()
    } else {
        let e = items.last();
        deep_rows_spec(items.drop_last()) + (if e.visible {
            seq![(e.name@, cell_texts(e.cells@), e.is_dir, false, false, e.cut, false, e.icon, e.depth)]
        } else {
            Seq::empty()
        })
    }
}

fn copy_cells(cells: &Vec<String>) -> (r: Vec<String>)
    ensures
        cell_texts(r@) == cell_texts(cells@),
{
    let mut out: Vec<String> = Vec::new();
    let mut k: usize = 0;
    while k < cells.len()
        invariant
            k <= cells.len(),
            cell_texts(out@) == cell_texts(cells@.take(k as int)),
        decreases cells.len() - k,
    {
        let ghost before = out@;
        out.push(cells[k].clone());
        assert(cell_texts(out@) =~= cell_texts(before).push(cells@[k as int]@));
        assert(cell_texts(cells@.take(k + 1)) =~= cell_texts(cells@.take(k as int)).push(cells@[k as int]@));
        k = k + 1;
    }
    assert(cells@.take(cells.len() as int) == cells@);
    out
}

/// The rows of a deep listing (see `deep_rows_spec`).
pub fn deep_rows(items: &Vec<DeepItem>) -> (r: Vec<PlainRow>)
    ensures
        rows_values(r@) == deep_rows_spec(items@),
{
    let mut out: Vec<PlainRow> = Vec::new();
    let mut i: usize = 0;
    while i < items.len()
        invariant
            i <= items.len(),
            rows_values(out@) == deep_rows_spec(items@.take(i as int)),
        decreases items.len() - i,
    {
        assert(items@.take(i + 1).drop_last() == items@.take(i as int));
        let ghost before = out@;
        let e = &items[i];
        if e.visible {
            let row = PlainRow {
                name: e.name.clone(),
                cells: copy_cells(&e.cells),
                is_dir: e.is_dir,
                selected: false,
                focused: false,
                cut: e.cut,
                highlight: false,
                icon: e.icon,
                depth: e.depth,
            };
            out.push(row);
            assert(rows_values(out@) =~= rows_values(before).push(row_values(row)));
        }
        assert(rows_values(out@) =~= deep_rows_spec(items@.take(i + 1)));
        i = i + 1;
    }
    assert(items@.take(items.len() as int) == items@);
    out
}

} // verus!
