//! The session: when it must be saved again (a cheap fingerprint of what is persisted), the
//! limit of recent folders, and which folder watchers to start or stop.
use vstd::prelude::*;
use crate::text::{append_chars, decimal, string_of, text_is, u64_to_decimal};

verus! {

/// The kinds of pane.
#[derive(Clone, Copy, Debug, PartialEq, Eq, Structural)]
pub enum PanePurpose {
    Files,
    Tree,
    Inspector,
    History,
    Favorites,
    Preview,
    Operations,
    Basket,
    Search,
    Recents,
}

/// The name of a pane kind as the fingerprint writes it.
pub open spec fn purpose_name(p: PanePurpose) -> Seq<char> {
    match p {
        PanePurpose::Files => "Files"@,
        PanePurpose::Tree => "Tree"@,
        PanePurpose::Inspector => "Inspector"@,
        PanePurpose::History => "History"@,
        PanePurpose::Favorites => "Favorites"@,
        PanePurpose::Preview => "Preview"@,
        PanePurpose::Operations => "Operations"@,
        PanePurpose::Basket => "Basket"@,
        PanePurpose::Search => "Search"@,
        PanePurpose::Recents => "Recents"@,
    }
}

fn purpose_str(p: PanePurpose) -> (r: &'static str)
    ensures
        r@ == purpose_name(p),
{
    match p {
        PanePurpose::Files => "Files",
        PanePurpose::Tree => "Tree",
        PanePurpose::Inspector => "Inspector",
        PanePurpose::History => "History",
        PanePurpose::Favorites => "Favorites",
        PanePurpose::Preview => "Preview",
        PanePurpose::Operations => "Operations",
        PanePurpose::Basket => "Basket",
        PanePurpose::Search => "Search",
        PanePurpose::Recents => "Recents",
    }
}

/// A pane as the session records it: id, kind, folder (empty for panes without one).
#[derive(Clone, Debug, PartialEq, Eq)]
pub struct PaneRecord {
    pub id: u64,
    pub purpose: PanePurpose,
    pub dir: String,
}

/// The panes part of the fingerprint: "id:Kind:folder|" for each pane.
pub open spec fn panes_part(panes: Seq<PaneRecord>) -> Seq<char>
    decreases panes.len(),
{
    if panes.len() == 0 {
        Seq::empty()
    } else {
        let p = panes.last();
        panes_part(panes.drop_last()) + decimal(p.id as nat) + ":"@ + purpose_name(p.purpose) + ":"@
            + p.dir@ + "|"@
    }
}

/// The ids listed as `[1, 2, 3]`.
pub open spec fn ids_list(ids: Seq<u64>) -> Seq<char> {
    "["@ + ids_inner(ids) + "]"@
}

/// The ids separated by ", ".
pub open spec fn ids_inner(ids: Seq<u64>) -> Seq<char>
    decreases ids.len(),
{
    if ids.len() == 0 {
        Seq::empty()
    } else if ids.len() == 1 {
        decimal(ids[0] as nat)
    } else {
        ids_inner(ids.drop_last()) + ", "@ + decimal(ids.last() as nat)
    }
}

/// The active pane as written: `Some(id)` or `None`.
pub open spec fn active_part(active: Option<u64>) -> Seq<char> {
    match active {
        Some(a) => "Some("@ + decimal(a as nat) + ")"@,
        None => "None"@,
    }
}

/// The fingerprint of what the session persists: each pane (id, kind, folder), the active
/// pane and the panes in layout order. Scroll and selection are not persisted and not part of it.
pub open spec fn fingerprint_spec(panes: Seq<PaneRecord>, active: Option<u64>, layout: Seq<u64>) -> Seq<char> {
    panes_part(panes) + "active="@ + active_part(active) + ";layout="@ + ids_list(layout)
}


/// The record of one pane as the fingerprint writes it.
spec fn pane_segment(p: PaneRecord) -> Seq<char> {
    decimal(p.id as nat) + ":"@ + purpose_name(p.purpose) + ":"@ + p.dir@ + "|"@
}

proof fn lemma_panes_part_append(a: Seq<PaneRecord>, b: Seq<PaneRecord>)
    ensures
        panes_part(a + b) == panes_part(a) + panes_part(b),
    decreases b.len(),
{
    if b.len() == 0 {
        assert(a + b =~= a);
    } else {
        lemma_panes_part_append(a, b.drop_last());
        assert((a + b).drop_last() =~= a + b.drop_last());
        assert((a + b).last() == b.last());
    }
}

proof fn lemma_panes_part_single(p: PaneRecord)
    ensures
        panes_part(seq![p]) == pane_segment(p),
{
    let one = seq![p];
    assert(one.drop_last() =~= Seq::<PaneRecord>::empty());
    assert(one.last() == p);
    assert(panes_part(one.drop_last()) == Seq::<char>::empty());
    assert(panes_part(one) =~= pane_segment(p));
}

proof fn lemma_fingerprint_split(panes: Seq<PaneRecord>, active: Option<u64>, layout: Seq<u64>)
    ensures
        fingerprint_spec(panes, active, layout) == panes_part(panes) + ("active="@ + active_part(active)
            + ";layout="@ + ids_list(layout)),
{
    assert(fingerprint_spec(panes, active, layout) =~= panes_part(panes) + ("active="@ + active_part(
        active,
    ) + ";layout="@ + ids_list(layout)));
}

proof fn lemma_middle_differs(
    bp: Seq<char>,
    x: Seq<char>,
    d1: Seq<char>,
    d2: Seq<char>,
    ap: Seq<char>,
    r: Seq<char>,
)
    requires
        d1 != d2,
    ensures
        ((bp + ((x + d1) + "|"@)) + ap) + r != ((bp + ((x + d2) + "|"@)) + ap) + r,
{
    let s1 = (x + d1) + "|"@;
    let s2 = (x + d2) + "|"@;
    let u1 = (bp + s1) + ap;
    let u2 = (bp + s2) + ap;
    let f1 = u1 + r;
    let f2 = u2 + r;
    if d1.len() == d2.len() {
        if forall|i: int| 0 <= i < d1.len() ==> d1[i] == d2[i] {
            assert(d1 =~= d2);
        }
        let i = choose|i: int| 0 <= i < d1.len() && d1[i] != d2[i];
        let n = bp.len() + x.len() + i;
        assert((x + d1)[x.len() + i] == d1[i]);
        assert(s1[x.len() + i] == d1[i]);
        assert((bp + s1)[n] == d1[i]);
        assert(u1[n] == d1[i]);
        assert(f1[n] == d1[i]);
        assert((x + d2)[x.len() + i] == d2[i]);
        assert(s2[x.len() + i] == d2[i]);
        assert((bp + s2)[n] == d2[i]);
        assert(u2[n] == d2[i]);
        assert(f2[n] == d2[i]);
    } else {
        assert(f1.len() != f2.len());
    }
}

/// Moving one pane to another folder changes the fingerprint: two pane lists that differ only
/// in the folder of one pane give different fingerprints, so the session is saved again.
pub proof fn lemma_folder_change_changes_fingerprint(
    panes: Seq<PaneRecord>,
    k: int,
    dir: String,
    active: Option<u64>,
    layout: Seq<u64>,
)
    requires
        0 <= k < panes.len(),
        dir@ != panes[k].dir@,
    ensures
        fingerprint_spec(panes, active, layout) != fingerprint_spec(
            panes.update(k, PaneRecord { dir, ..panes[k] }),
            active,
            layout,
        ),
{
    let q = PaneRecord { dir, ..panes[k] };
    let moved = panes.update(k, q);
    let before = panes.take(k);
    let after = panes.skip(k + 1);
    assert(panes =~= (before + seq![panes[k]]) + after);
    assert(moved =~= (before + seq![q]) + after);
    lemma_panes_part_append(before + seq![panes[k]], after);
    lemma_panes_part_append(before, seq![panes[k]]);
    lemma_panes_part_append(before + seq![q], after);
    lemma_panes_part_append(before, seq![q]);
    lemma_panes_part_single(panes[k]);
    lemma_panes_part_single(q);
    lemma_fingerprint_split(panes, active, layout);
    lemma_fingerprint_split(moved, active, layout);
    let x = decimal(q.id as nat) + ":"@ + purpose_name(q.purpose) + ":"@;
    assert(pane_segment(panes[k]) == (x + panes[k].dir@) + "|"@);
    assert(pane_segment(q) == (x + dir@) + "|"@);
    lemma_middle_differs(
        panes_part(before),
        x,
        panes[k].dir@,
        dir@,
        panes_part(after),
        "active="@ + active_part(active) + ";layout="@ + ids_list(layout),
    );
}

/// The fingerprint of the persisted session state (see `fingerprint_spec`).
pub fn session_fingerprint(panes: &Vec<PaneRecord>, active: Option<u64>, layout: &Vec<u64>) -> (r: String)
    ensures
        r@ == fingerprint_spec(panes@, active, layout@),
{
    let mut out: Vec<char> = Vec::new();
    let mut i: usize = 0;
    while i < panes.len()
        invariant
            i <= panes.len(),
            out@ == panes_part(panes@.take(i as int)),
        decreases panes.len() - i,
    {
        let p = &panes[i];
        append_chars(&mut out, u64_to_decimal(p.id).as_str());
        append_chars(&mut out, ":");
        append_chars(&mut out, purpose_str(p.purpose));
        append_chars(&mut out, ":");
        append_chars(&mut out, p.dir.as_str());
        append_chars(&mut out, "|");
        proof {
            assert(panes@.take(i + 1).drop_last() == panes@.take(i as int));
            assert(panes@.take(i + 1).last() == panes@[i as int]);
        }
        i = i + 1;
    }
    assert(panes@.take(panes.len() as int) == panes@);
    append_chars(&mut out, "active=");
    match active {
        Some(a) => {
            append_chars(&mut out, "Some(");
            append_chars(&mut out, u64_to_decimal(a).as_str());
            append_chars(&mut out, ")");
        },
        None => append_chars(&mut out, "None"),
    }
    append_chars(&mut out, ";layout=");
    append_chars(&mut out, "[");
    let mut j: usize = 0;
    let ghost head = out@;
    while j < layout.len()
        invariant
            j <= layout.len(),
            out@ == head + ids_inner(layout@.take(j as int)),
        decreases layout.len() - j,
    {
        if j > 0 {
            append_chars(&mut out, ", ");
        }
        append_chars(&mut out, u64_to_decimal(layout[j]).as_str());
        proof {
            let t = layout@.take(j + 1);
            assert(t.drop_last() == layout@.take(j as int));
            assert(t.last() == layout@[j as int]);
            if j == 0 {
                assert(t[0] == layout@[0]);
            }
        }
        j = j + 1;
    }
    assert(layout@.take(layout.len() as int) == layout@);
    append_chars(&mut out, "]");
    assert(out@ =~= fingerprint_spec(panes@, active, layout@));
    string_of(&out)
}

/// The session is saved again only when its fingerprint differs from the last one saved.
pub fn should_persist(last_saved: Option<&String>, fingerprint: &String) -> (r: bool)
    ensures
        r == (match last_saved {
            Some(l) => l@ != fingerprint@,
            None => true,
        }),
{
    match last_saved {
        Some(l) => !text_is(l.as_str(), fingerprint.as_str()),
        None => true,
    }
}

/// The limit of recent folders, kept within 1..=100.
pub fn recent_limit(n: usize) -> (r: usize)
    ensures
        r == (if n < 1 {
            1
        } else if n > 100 {
            100
        } else {
            n
        }),
{
    if n < 1 {
        1
    } else if n > 100 {
        100
    } else {
        n
    }
}

/// A folder watched for a pane.
#[derive(Clone, Debug, PartialEq, Eq)]
pub struct Watch {
    pub pane: u64,
    pub dir: String,
}

/// Whether `pane` is one of the file panes.
pub open spec fn is_file_pane(files: Seq<Watch>, pane: u64) -> bool {
    exists|i: int| 0 <= i < files.len() && files[i].pane == pane
}

/// The folder watched for `pane`, the first one listed.
pub open spec fn watched_dir(watched: Seq<Watch>, pane: u64) -> Option<Seq<char>>
    decreases watched.len(),
{
    if watched.len() == 0 {
        None
    } else if watched[0].pane == pane {
        Some(watched[0].dir@)
    } else {
        watched_dir(watched.drop_first(), pane)
    }
}

fn find_watched(watched: &Vec<Watch>, pane: u64) -> (r: Option<usize>)
    ensures
        match r {
            Some(i) => i < watched@.len() && watched_dir(watched@, pane) == Some(watched@[i as int].dir@),
            None => watched_dir(watched@, pane) is None,
        },
{
    let mut i: usize = 0;
    assert(watched@.skip(0) == watched@);
    while i < watched.len()
        invariant
            i <= watched.len(),
            watched_dir(watched@, pane) == watched_dir(watched@.skip(i as int), pane),
        decreases watched.len() - i,
    {
        proof {
            let s = watched@.skip(i as int);
            assert(s[0] == watched@[i as int]);
            assert(s.drop_first() == watched@.skip(i + 1));
        }
        if watched[i].pane == pane {
            return Some(i);
        }
        i = i + 1;
    }
    None
}

/// The watched panes that are no longer file panes: their watchers stop.
pub open spec fn to_stop(files: Seq<Watch>, watched: Seq<Watch>) -> Seq<Watch> {
    watched.filter(|w: Watch| !is_file_pane(files, w.pane))
}

/// The file panes whose watched folder is not their folder (or that have none): a watcher
/// starts on their folder.
pub open spec fn to_start(files: Seq<Watch>, watched: Seq<Watch>) -> Seq<Watch> {
    files.filter(|f: Watch| watched_dir(watched, f.pane) != Some(f.dir@))
}

fn file_pane_exec(files: &Vec<Watch>, pane: u64) -> (r: bool)
    ensures
        r == is_file_pane(files@, pane),
{
    let mut z: usize = 0;
    while z < files.len()
        invariant
            z <= files.len(),
            forall|y: int| 0 <= y < z ==> files@[y].pane != pane,
        decreases files.len() - z,
    {
        if files[z].pane == pane {
            return true;
        }
        z = z + 1;
    }
    false
}

/// The watchers to stop (see `to_stop`).
pub fn watchers_to_stop(files: &Vec<Watch>, watched: &Vec<Watch>) -> (r: Vec<Watch>)
    ensures
        r@ == to_stop(files@, watched@),
{
    let mut out: Vec<Watch> = Vec::new();
    let mut q: usize = 0;
    while q < watched.len()
        invariant
            q <= watched.len(),
            out@ == watched@.take(q as int).filter(|w: Watch| !is_file_pane(files@, w.pane)),
        decreases watched.len() - q,
    {
        proof {
            reveal(Seq::filter);
            assert(watched@.take(q + 1).drop_last() == watched@.take(q as int));
            assert(watched@.take(q + 1).last() == watched@[q as int]);
        }
        if !file_pane_exec(files, watched[q].pane) {
            out.push(Watch { pane: watched[q].pane, dir: watched[q].dir.clone() });
        }
        q = q + 1;
    }
    assert(watched@.take(watched.len() as int) == watched@);
    out
}

/// The watchers to start (see `to_start`).
pub fn watchers_to_start(files: &Vec<Watch>, watched: &Vec<Watch>) -> (r: Vec<Watch>)
    ensures
        r@ == to_start(files@, watched@),
{
    let mut out: Vec<Watch> = Vec::new();
    let mut i: usize = 0;
    while i < files.len()
        invariant
            i <= files.len(),
            out@ == files@.take(i as int).filter(|f: Watch| watched_dir(watched@, f.pane) != Some(f.dir@)),
        decreases files.len() - i,
    {
        proof {
            reveal(Seq::filter);
            assert(files@.take(i + 1).drop_last() == files@.take(i as int));
            assert(files@.take(i + 1).last() == files@[i as int]);
        }
        let same = match find_watched(watched, files[i].pane) {
            Some(w) => text_is(watched[w].dir.as_str(), files[i].dir.as_str()),
            None => false,
        };
        if !same {
            out.push(Watch { pane: files[i].pane, dir: files[i].dir.clone() });
        }
        i = i + 1;
    }
    assert(files@.take(files.len() as int) == files@);
    out
}

/// After the plan every file pane watches its current folder: either its watcher already
/// watches that folder (and is not stopped, the pane being alive), or one starts on it; and no
/// watcher of a live pane is stopped.
pub proof fn lemma_watchers_follow_panes(files: Seq<Watch>, watched: Seq<Watch>, k: int)
    requires
        0 <= k < files.len(),
    ensures
        watched_dir(watched, files[k].pane) == Some(files[k].dir@) || to_start(files, watched).contains(
            files[k],
        ),
        forall|m: int| 0 <= m < to_stop(files, watched).len() ==> !is_file_pane(files, #[trigger] to_stop(files, watched)[m].pane),
        is_file_pane(files, files[k].pane),
{
    let pred = |f: Watch| watched_dir(watched, f.pane) != Some(f.dir@);
    if watched_dir(watched, files[k].pane) != Some(files[k].dir@) {
        files.lemma_filter_contains(pred, k);
    }
    let spred = |w: Watch| !is_file_pane(files, w.pane);
    assert forall|m: int| 0 <= m < to_stop(files, watched).len() implies !is_file_pane(files, #[trigger] to_stop(files, watched)[m].pane) by {
        watched.lemma_filter_pred(spred, m);
    }
}

} // verus!
