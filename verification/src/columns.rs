//! The column menu of a file table: its filter editor, seeded from the filter already set on
//! the column and turned back into a filter when applied, and the column sort and move rules.
use vstd::prelude::*;
use crate::dates::{
    day_number, fmt_date_fits, fmt_date_spec, fmt_date_ymd, in_i64, lemma_date_text_roundtrip,
    parse_date_spec, parse_date_ymd, valid_date, ymd_text,
};
use crate::size::{lemma_parse_size_decimal, parse_size, parse_size_spec};
use crate::textset::{copy_texts, distinct_texts, text_set, toggle_text, toggled};
use crate::text::{decimal, lemma_split_on_single, lemma_trim_noop, split_on, text_is, trim, u64_to_decimal};

verus! {

/// The columns of a file table.
#[derive(Clone, Copy, Debug, PartialEq, Eq, Structural)]
pub enum ColumnKind {
    Name,
    Extension,
    Size,
    Modified,
    Created,
}

/// Keys a file table sorts by.
#[derive(Clone, Copy, Debug, PartialEq, Eq, Structural)]
pub enum SortKey {
    Name,
    Extension,
    Size,
    Modified,
    Created,
}

/// A filter set on one column.
#[derive(Clone, Debug, PartialEq, Eq)]
pub enum ColumnFilter {
    /// Names containing the text (optionally case-sensitive).
    Text { contains: String, case_sensitive: bool },
    /// Extensions in the set (`""` is "no extension"); no extension occurs twice.
    Extensions(Vec<String>),
    /// Sizes in bytes between the bounds (inclusive; a missing bound is open).
    SizeRange { min: Option<u64>, max: Option<u64> },
    /// Instants (seconds since the UNIX epoch) between the bounds (inclusive).
    DateRange { from: Option<u64>, to: Option<u64> },
}

/// A filter as values; the extensions as a set.
pub enum FilterView {
    Text(Seq<char>, bool),
    Extensions(Set<Seq<char>>),
    SizeRange(Option<u64>, Option<u64>),
    DateRange(Option<u64>, Option<u64>),
}

impl View for ColumnFilter {
    type V = FilterView;

    open spec fn view(&self) -> FilterView {
        match self {
            ColumnFilter::Text { contains, case_sensitive } => FilterView::Text(contains@, *case_sensitive),
            ColumnFilter::Extensions(v) => FilterView::Extensions(text_set(v@)),
            ColumnFilter::SizeRange { min, max } => FilterView::SizeRange(*min, *max),
            ColumnFilter::DateRange { from, to } => FilterView::DateRange(*from, *to),
        }
    }
}

/// Which phase the column menu is in.
#[derive(Clone, Copy, Debug, PartialEq, Eq, Structural)]
pub enum ColumnMenuMode {
    /// The list of actions (sort, filter, clear filter, hide).
    Menu,
    /// The filter editor of the column (its kind decides which).
    Filter,
}

/// The open column menu: the pane and column it belongs to, its phase, and the drafts the
/// filter editor reads and writes.
#[derive(Clone, Debug, PartialEq, Eq)]
pub struct ColumnMenuState {
    pub pane: u64,
    pub kind: ColumnKind,
    pub mode: ColumnMenuMode,
    /// Text filter draft: the substring and whether case matters.
    pub text_draft: String,
    pub text_case: bool,
    /// Range drafts (size or date) as typed; read when applied.
    pub min_draft: String,
    pub max_draft: String,
    /// Extensions checked in the type filter; no extension occurs twice.
    pub ext_checked: Vec<String>,
}

/// An optional natural number as an optional `u64`.
pub open spec fn nat_to_u64(o: Option<nat>) -> Option<u64> {
    match o {
        Some(n) => Some(n as u64),
        None => None,
    }
}

/// The date draft text of an optional bound (empty when open).
pub open spec fn date_draft(t: Option<u64>, tz: int) -> Seq<char> {
    match t {
        Some(s) => fmt_date_spec(Some(s), tz),
        None => Seq::<char>::empty(),
    }
}

/// The size draft text of an optional bound (empty when open).
pub open spec fn size_draft(v: Option<u64>) -> Seq<char> {
    match v {
        Some(n) => decimal(n as nat),
        None => Seq::<char>::empty(),
    }
}

/// Every date of the filter can be written as a date (its local day fits in `i64` seconds).
pub open spec fn seed_fits(existing: Option<FilterView>, tz: int) -> bool {
    match existing {
        Some(FilterView::DateRange(from, to)) => {
            &&& (from is Some ==> fmt_date_fits(from, tz))
            &&& (to is Some ==> fmt_date_fits(to, tz))
        },
        _ => true,
    }
}

/// The filter the drafts describe for a column of kind `kind`, or `None` when the drafts are
/// empty (or unreadable): then applying removes the column's filter. Extension reads the
/// checked set; Size the two sizes; Modified and Created the two dates (the upper one up to
/// the end of its day); Name the text.
pub open spec fn filter_of_drafts(
    kind: ColumnKind,
    text_draft: Seq<char>,
    text_case: bool,
    min_draft: Seq<char>,
    max_draft: Seq<char>,
    ext_checked: Seq<String>,
    tz: int,
) -> Option<FilterView> {
    match kind {
        ColumnKind::Extension => if ext_checked.len() == 0 {
            None
        } else {
            Some(FilterView::Extensions(text_set(ext_checked)))
        },
        ColumnKind::Size => {
            let min = parse_size_spec(min_draft);
            let max = parse_size_spec(max_draft);
            if min is None && max is None {
                None
            } else {
                Some(FilterView::SizeRange(min, max))
            }
        },
        ColumnKind::Modified | ColumnKind::Created => {
            let from = nat_to_u64(parse_date_spec(min_draft, tz, false));
            let to = nat_to_u64(parse_date_spec(max_draft, tz, true));
            if from is None && to is None {
                None
            } else {
                Some(FilterView::DateRange(from, to))
            }
        },
        ColumnKind::Name => if text_draft.len() == 0 {
            None
        } else {
            Some(FilterView::Text(text_draft, text_case))
        },
    }
}

impl ColumnMenuState {
    /// Whether the drafts are well formed: no extension checked twice.
    pub open spec fn wf(&self) -> bool {
        distinct_texts(self.ext_checked@)
    }

    /// The filter the drafts describe (see `filter_of_drafts`).
    pub open spec fn draft_filter(&self, tz: int) -> Option<FilterView> {
        filter_of_drafts(
            self.kind,
            self.text_draft@,
            self.text_case,
            self.min_draft@,
            self.max_draft@,
            self.ext_checked@,
            tz,
        )
    }

    /// Opens the menu of column `kind` of pane `pane`, with the drafts seeded from the filter
    /// already set on that column, if any, so that it is edited rather than typed again: text
    /// and case of a text filter, the checked extensions, the sizes as decimal numbers, the
    /// dates as `YYYY-MM-DD` in local time (`tz` seconds east of UTC).
    pub fn open(pane: u64, kind: ColumnKind, existing: Option<&ColumnFilter>, tz: i64) -> (st: Self)
        requires
            seed_fits(
                match existing {
                    Some(f) => Some(f@),
                    None => None,
                },
                tz as int,
            ),
            existing matches Some(ColumnFilter::Extensions(v)) ==> distinct_texts(v@),
        ensures
            st.wf(),
            st.pane == pane,
            st.kind == kind,
            st.mode == ColumnMenuMode::Menu,
            match existing {
                Some(ColumnFilter::Text { contains, case_sensitive }) => {
                    &&& st.text_draft@ == contains@
                    &&& st.text_case == *case_sensitive
                    &&& st.min_draft@.len() == 0
                    &&& st.max_draft@.len() == 0
                    &&& st.ext_checked@.len() == 0
                },
                Some(ColumnFilter::Extensions(v)) => {
                    &&& st.text_draft@.len() == 0
                    &&& !st.text_case
                    &&& st.min_draft@.len() == 0
                    &&& st.max_draft@.len() == 0
                    &&& text_set(st.ext_checked@) == text_set(v@)
                    &&& st.ext_checked@.len() == v@.len()
                },
                Some(ColumnFilter::SizeRange { min, max }) => {
                    &&& st.text_draft@.len() == 0
                    &&& !st.text_case
                    &&& st.min_draft@ == size_draft(*min)
                    &&& st.max_draft@ == size_draft(*max)
                    &&& st.ext_checked@.len() == 0
                },
                Some(ColumnFilter::DateRange { from, to }) => {
                    &&& st.text_draft@.len() == 0
                    &&& !st.text_case
                    &&& st.min_draft@ == date_draft(*from, tz as int)
                    &&& st.max_draft@ == date_draft(*to, tz as int)
                    &&& st.ext_checked@.len() == 0
                },
                None => {
                    &&& st.text_draft@.len() == 0
                    &&& !st.text_case
                    &&& st.min_draft@.len() == 0
                    &&& st.max_draft@.len() == 0
                    &&& st.ext_checked@.len() == 0
                },
            },
    {
        let mut st = ColumnMenuState {
            pane,
            kind,
            mode: ColumnMenuMode::Menu,
            text_draft: String::new(),
            text_case: false,
            min_draft: String::new(),
            max_draft: String::new(),
            ext_checked: Vec::new(),
        };
        match existing {
            Some(ColumnFilter::Text { contains, case_sensitive }) => {
                st.text_draft = contains.clone();
                st.text_case = *case_sensitive;
            },
            Some(ColumnFilter::Extensions(set)) => {
                st.ext_checked = copy_texts(set);
            },
            Some(ColumnFilter::SizeRange { min, max }) => {
                if let Some(m) = min {
                    st.min_draft = u64_to_decimal(*m);
                }
                if let Some(m) = max {
                    st.max_draft = u64_to_decimal(*m);
                }
            },
            Some(ColumnFilter::DateRange { from, to }) => {
                if let Some(t) = from {
                    st.min_draft = fmt_date_ymd(Some(*t), tz);
                }
                if let Some(t) = to {
                    st.max_draft = fmt_date_ymd(Some(*t), tz);
                }
            },
            None => {},
        }
        st
    }

    /// Switches the menu to the filter editor (the drafts were seeded on opening).
    pub fn to_filter(&mut self)
        ensures
            final(self).mode == ColumnMenuMode::Filter,
            final(self).kind == old(self).kind,
            final(self).pane == old(self).pane,
            final(self).text_draft == old(self).text_draft,
            final(self).min_draft == old(self).min_draft,
            final(self).max_draft == old(self).max_draft,
            final(self).text_case == old(self).text_case,
            final(self).ext_checked == old(self).ext_checked,
    {
        self.mode = ColumnMenuMode::Filter;
    }

    /// Sets the text draft.
    pub fn set_text(&mut self, text: &str)
        ensures
            final(self).text_draft@ == text@,
            final(self).text_case == old(self).text_case,
            final(self).min_draft == old(self).min_draft,
            final(self).max_draft == old(self).max_draft,
            final(self).ext_checked == old(self).ext_checked,
            final(self).kind == old(self).kind,
            final(self).mode == old(self).mode,
            final(self).pane == old(self).pane,
    {
        self.text_draft = text.to_string();
    }

    /// Flips whether the text filter is case-sensitive.
    pub fn toggle_case(&mut self)
        ensures
            final(self).text_case == !old(self).text_case,
            final(self).text_draft == old(self).text_draft,
            final(self).min_draft == old(self).min_draft,
            final(self).max_draft == old(self).max_draft,
            final(self).ext_checked == old(self).ext_checked,
            final(self).kind == old(self).kind,
            final(self).mode == old(self).mode,
            final(self).pane == old(self).pane,
    {
        self.text_case = !self.text_case;
    }

    /// Sets the upper (`is_max`) or the lower range draft.
    pub fn set_range(&mut self, is_max: bool, text: &str)
        ensures
            is_max ==> final(self).max_draft@ == text@ && final(self).min_draft == old(self).min_draft,
            !is_max ==> final(self).min_draft@ == text@ && final(self).max_draft == old(self).max_draft,
            final(self).text_draft == old(self).text_draft,
            final(self).text_case == old(self).text_case,
            final(self).ext_checked == old(self).ext_checked,
            final(self).kind == old(self).kind,
            final(self).mode == old(self).mode,
            final(self).pane == old(self).pane,
    {
        if is_max {
            self.max_draft = text.to_string();
        } else {
            self.min_draft = text.to_string();
        }
    }

    /// Checks the extension `ext` in the type filter, or unchecks it when it was checked.
    pub fn toggle_ext(&mut self, ext: &str)
        requires
            old(self).wf(),
        ensures
            final(self).wf(),
            text_set(final(self).ext_checked@) == toggled(text_set(old(self).ext_checked@), ext@),
            final(self).text_draft == old(self).text_draft,
            final(self).text_case == old(self).text_case,
            final(self).min_draft == old(self).min_draft,
            final(self).max_draft == old(self).max_draft,
            final(self).kind == old(self).kind,
            final(self).mode == old(self).mode,
            final(self).pane == old(self).pane,
    {
        toggle_text(&mut self.ext_checked, ext);
    }

    /// The filter to set on the column when the editor is applied, or `None` to remove the
    /// column's filter (empty drafts).
    pub fn filter_from_drafts(&self, tz: i64) -> (r: Option<ColumnFilter>)
        ensures
            match r {
                Some(f) => self.draft_filter(tz as int) == Some(f@),
                None => self.draft_filter(tz as int) is None,
            },
            r matches Some(ColumnFilter::Extensions(v)) ==> v@.len() == self.ext_checked@.len()
                && (self.wf() ==> distinct_texts(v@)),
    {
        match self.kind {
            ColumnKind::Extension => {
                if self.ext_checked.len() == 0 {
                    None
                } else {
                    Some(ColumnFilter::Extensions(copy_texts(&self.ext_checked)))
                }
            },
            ColumnKind::Size => {
                let min = parse_size(self.min_draft.as_str());
                let max = parse_size(self.max_draft.as_str());
                if min.is_none() && max.is_none() {
                    None
                } else {
                    Some(ColumnFilter::SizeRange { min, max })
                }
            },
            ColumnKind::Modified | ColumnKind::Created => {
                let from = parse_date_ymd(self.min_draft.as_str(), tz, false);
                let to = parse_date_ymd(self.max_draft.as_str(), tz, true);
                if from.is_none() && to.is_none() {
                    None
                } else {
                    Some(ColumnFilter::DateRange { from, to })
                }
            },
            ColumnKind::Name => {
                if self.text_draft.as_str().is_empty() {
                    None
                } else {
                    Some(
                        ColumnFilter::Text {
                            contains: self.text_draft.clone(),
                            case_sensitive: self.text_case,
                        },
                    )
                }
            },
        }
    }
}

/// The position a column moves to, one step left (`dir < 0`) or right, in the full order of
/// `len` columns; `None` when it would leave the table (the column stays).
pub fn column_move_target(from: usize, dir: i32, len: usize) -> (r: Option<usize>)
    requires
        from < len,
    ensures
        r == (if 0 <= from + dir < len {
            Some((from + dir) as usize)
        } else {
            None
        }),
{
    if dir < 0 {
        let back: u64 = if dir == i32::MIN { 2147483648u64 } else { (-dir) as u64 };
        if (from as u64) >= back {
            Some(from - (back as usize))
        } else {
            None
        }
    } else {
        let fwd: usize = dir as usize;
        if fwd < len - from {
            Some(from + fwd)
        } else {
            None
        }
    }
}

/// The sort after asking to sort by `key`: the same key flips the direction, another key
/// sorts by it ascending.
pub open spec fn sort_after(current: SortKey, ascending: bool, key: SortKey) -> (SortKey, bool) {
    if current == key {
        (key, !ascending)
    } else {
        (key, true)
    }
}

/// The sort (key, ascending) after asking to sort by `key` (see `sort_after`).
pub fn sort_toggle(current: SortKey, ascending: bool, key: SortKey) -> (r: (SortKey, bool))
    ensures
        r == sort_after(current, ascending, key),
{
    if current == key {
        (key, !ascending)
    } else {
        (key, true)
    }
}

/// The sort key a header name asks for (`name`, `ext`, `size`, `modified`); other names ask
/// for none.
pub fn sort_key_for_header(column: &str) -> (r: Option<SortKey>)
    ensures
        r == (if column@ == "name"@ {
            Some(SortKey::Name)
        } else if column@ == "ext"@ {
            Some(SortKey::Extension)
        } else if column@ == "size"@ {
            Some(SortKey::Size)
        } else if column@ == "modified"@ {
            Some(SortKey::Modified)
        } else {
            None
        }),
{
    if text_is(column, "name") {
        Some(SortKey::Name)
    } else if text_is(column, "ext") {
        Some(SortKey::Extension)
    } else if text_is(column, "size") {
        Some(SortKey::Size)
    } else if text_is(column, "modified") {
        Some(SortKey::Modified)
    } else {
        None
    }
}

/// A table whose filters emptied its view of a non-empty folder ("no matches", as opposed to
/// an empty folder).
pub fn no_matches(has_filters: bool, entries: usize, visible: usize) -> (r: bool)
    ensures
        r == (has_filters && entries > 0 && visible == 0),
{
    has_filters && entries > 0 && visible == 0
}

/// Whether the column can be hidden (the name column always stays).
pub fn can_hide(kind: ColumnKind) -> (r: bool)
    ensures
        r == (kind != ColumnKind::Name),
{
    kind != ColumnKind::Name
}

/// The instant a local day starts (`tz` seconds east of UTC), or its last second.
pub open spec fn day_bound_secs(y: int, m: int, d: int, tz: int, end_of_day: bool) -> int {
    day_number(y, m, d) * 86400 + (if end_of_day { 86399int } else { 0int }) - tz
}

/// A local day (years 0..=9999) whose bound instant lies between the epoch and `i64::MAX`.
pub open spec fn editable_day(y: int, m: int, d: int, tz: int, end_of_day: bool) -> bool {
    &&& valid_date(y, m, d)
    &&& 0 <= y <= 9999
    &&& 0 <= day_bound_secs(y, m, d, tz, end_of_day) <= i64::MAX
    &&& in_i64(day_number(y, m, d) * 86400 + if end_of_day { 86399int } else { 0int })
}

/// The bound of a date range at the start (or the end) of an optional local day.
pub open spec fn day_bound(day: Option<(int, int, int)>, tz: int, end_of_day: bool) -> Option<u64> {
    match day {
        Some((y, m, d)) => Some(day_bound_secs(y, m, d, tz, end_of_day) as u64),
        None => None,
    }
}

/// A text filter survives the editor: its seeded drafts apply to the same filter.
pub proof fn lemma_text_filter_survives_editor(contains: Seq<char>, case_sensitive: bool, tz: int)
    requires
        contains.len() > 0,
    ensures
        filter_of_drafts(
            ColumnKind::Name,
            contains,
            case_sensitive,
            Seq::<char>::empty(),
            Seq::<char>::empty(),
            Seq::<String>::empty(),
            tz,
        ) == Some(FilterView::Text(contains, case_sensitive)),
{
}

/// An extension filter survives the editor: its checked extensions apply to the same set.
pub proof fn lemma_extension_filter_survives_editor(checked: Seq<String>, tz: int)
    requires
        checked.len() > 0,
    ensures
        filter_of_drafts(
            ColumnKind::Extension,
            Seq::<char>::empty(),
            false,
            Seq::<char>::empty(),
            Seq::<char>::empty(),
            checked,
            tz,
        ) == Some(FilterView::Extensions(text_set(checked))),
{
}

/// A size filter survives the editor: its bounds, written as decimal numbers of bytes, read
/// back as the same bounds.
pub proof fn lemma_size_filter_survives_editor(min: Option<u64>, max: Option<u64>, tz: int)
    requires
        min is Some || max is Some,
    ensures
        filter_of_drafts(
            ColumnKind::Size,
            Seq::<char>::empty(),
            false,
            size_draft(min),
            size_draft(max),
            Seq::<String>::empty(),
            tz,
        ) == Some(FilterView::SizeRange(min, max)),
{
    lemma_parse_size_decimal(if min is Some { min->0 } else { 0 });
    lemma_parse_size_decimal(if max is Some { max->0 } else { 0 });
}

/// A date filter survives the editor when its lower bound starts a local day and its upper
/// bound ends one (as the editor writes them): the dates shown read back as the same bounds.
pub proof fn lemma_date_filter_survives_editor(
    kind: ColumnKind,
    from_day: Option<(int, int, int)>,
    to_day: Option<(int, int, int)>,
    tz: int,
)
    requires
        kind == ColumnKind::Modified || kind == ColumnKind::Created,
        from_day is Some || to_day is Some,
        from_day matches Some((y, m, d)) ==> editable_day(y, m, d, tz, false),
        to_day matches Some((y, m, d)) ==> editable_day(y, m, d, tz, true),
    ensures
        filter_of_drafts(
            kind,
            Seq::<char>::empty(),
            false,
            date_draft(day_bound(from_day, tz, false), tz),
            date_draft(day_bound(to_day, tz, true), tz),
            Seq::<String>::empty(),
            tz,
        ) == Some(FilterView::DateRange(day_bound(from_day, tz, false), day_bound(to_day, tz, true))),
{
    lemma_empty_date_draft(tz);
    if let Some((y, m, d)) = from_day {
        lemma_date_text_roundtrip(y, m, d, tz, false);
    }
    if let Some((y, m, d)) = to_day {
        lemma_date_text_roundtrip(y, m, d, tz, true);
    }
}

proof fn lemma_empty_date_draft(tz: int)
    ensures
        parse_date_spec(Seq::<char>::empty(), tz, false) is None,
        parse_date_spec(Seq::<char>::empty(), tz, true) is None,
{
    let e = Seq::<char>::empty();
    lemma_trim_noop(e);
    lemma_split_on_single(e, '-');
}

/// Applying empty drafts removes the column's filter, whatever the column.
pub proof fn lemma_empty_drafts_clear(kind: ColumnKind, case_sensitive: bool, tz: int)
    ensures
        filter_of_drafts(
            kind,
            Seq::<char>::empty(),
            case_sensitive,
            Seq::<char>::empty(),
            Seq::<char>::empty(),
            Seq::<String>::empty(),
            tz,
        ) is None,
{
    lemma_parse_size_decimal(0);
    lemma_empty_date_draft(tz);
}

/// Asking twice to sort by the same key ends sorted by it, in the direction opposite to the
/// first answer; from a table already sorted by that key, back where it started.
pub proof fn lemma_sort_twice(current: SortKey, ascending: bool, key: SortKey)
    ensures
        ({
            let first = sort_after(current, ascending, key);
            let second = sort_after(first.0, first.1, key);
            &&& second.0 == key
            &&& second.1 == !first.1
            &&& current == key ==> second == (current, ascending)
        }),
{
}

/// The message key of a column's header label.
pub open spec fn column_label_key_spec(kind: ColumnKind) -> Seq<char> {
    match kind {
        ColumnKind::Name => "col.name"@,
        ColumnKind::Extension => "col.extension"@,
        ColumnKind::Size => "col.size"@,
        ColumnKind::Modified => "col.modified"@,
        ColumnKind::Created => "col.created"@,
    }
}

/// The message key of a column's header label (see `column_label_key_spec`).
pub fn column_label_key(kind: ColumnKind) -> (r: &'static str)
    ensures
        r@ == column_label_key_spec(kind),
{
    match kind {
        ColumnKind::Name => "col.name",
        ColumnKind::Extension => "col.extension",
        ColumnKind::Size => "col.size",
        ColumnKind::Modified => "col.modified",
        ColumnKind::Created => "col.created",
    }
}

} // verus!
