//! The destination radar of "copy/move to the other pane": the folders offered as targets,
//! gathered from the open panes, the last operations, the favorites, the frequent and the
//! recent folders, never the folder the selection comes from.
use vstd::prelude::*;

verus! {

/// Where a destination comes from.
#[derive(Clone, Copy, Debug, PartialEq, Eq, Structural)]
pub enum DestinationSource {
    OpenPanel,
    LastOperation,
    Favorite,
    Frequent,
    Recent,
}

/// A folder offered as destination.
#[derive(Clone, Debug, PartialEq, Eq)]
pub struct DestinationCandidate {
    pub path: String,
    pub label: String,
    pub source: DestinationSource,
}

/// A candidate as a reader sees it: path, label, source.
pub type CandidateView = (Seq<char>, Seq<char>, DestinationSource);

/// The view of a candidate.
pub open spec fn candidate_view(c: DestinationCandidate) -> CandidateView {
    (c.path@, c.label@, c.source)
}

/// The views of a list of candidates.
pub open spec fn candidate_views(s: Seq<DestinationCandidate>) -> Seq<CandidateView> {
    s.map_values(|c: DestinationCandidate| candidate_view(c))
}

/// A pane of the layout, in visual order: its id, the folder it shows (file panes only) and
/// its label.
#[derive(Clone, Debug)]
pub struct PaneFolder {
    pub id: u64,
    pub dir: Option<String>,
    pub label: String,
}

/// The open file panes other than `origin`, in order, as destinations.
pub open spec fn open_panel_spec(panes: Seq<PaneFolder>, origin: u64) -> Seq<CandidateView>
    decreases panes.len(),
{
    if panes.len() == 0 {
        Seq::empty()
    } else {
        let p = panes.last();
        open_panel_spec(panes.drop_last(), origin) + (if p.id != origin && p.dir is Some {
            seq![(p.dir->0@, p.label@, DestinationSource::OpenPanel)]
        } else {
            Seq::empty()
        })
    }
}

/// The candidates of the open file panes other than `origin` (see `open_panel_spec`).
pub fn open_panel_candidates(panes: &Vec<PaneFolder>, origin: u64) -> (r: Vec<DestinationCandidate>)
    ensures
        candidate_views(r@) == open_panel_spec(panes@, origin),
{
    let mut out: Vec<DestinationCandidate> = Vec::new();
    let mut i: usize = 0;
    while i < panes.len()
        invariant
            i <= panes.len(),
            candidate_views(out@) == open_panel_spec(panes@.take(i as int), origin),
        decreases panes.len() - i,
    {
        let ghost before = out@;
        assert(panes@.take(i + 1).drop_last() == panes@.take(i as int));
        if panes[i].id != origin {
            if let Some(dir) = &panes[i].dir {
                let c = DestinationCandidate {
                    path: dir.clone(),
                    label: panes[i].label.clone(),
                    source: DestinationSource::OpenPanel,
                };
                out.push(c);
                assert(candidate_views(out@) =~= candidate_views(before).push(candidate_view(c)));
            }
        }
        assert(candidate_views(out@) =~= open_panel_spec(panes@.take(i + 1), origin));
        i = i + 1;
    }
    assert(panes@.take(panes.len() as int) == panes@);
    out
}

/// (path, label) pairs of one source, as candidates.
pub open spec fn labelled_spec(pairs: Seq<(String, String)>, source: DestinationSource) -> Seq<CandidateView> {
    pairs.map_values(|p: (String, String)| (p.0@, p.1@, source))
}

/// The candidates of one source from its (path, label) pairs, in order.
pub fn labelled_candidates(pairs: &Vec<(String, String)>, source: DestinationSource) -> (r: Vec<DestinationCandidate>)
    ensures
        candidate_views(r@) == labelled_spec(pairs@, source),
{
    let mut out: Vec<DestinationCandidate> = Vec::new();
    let mut i: usize = 0;
    while i < pairs.len()
        invariant
            i <= pairs.len(),
            candidate_views(out@) == labelled_spec(pairs@.take(i as int), source),
        decreases pairs.len() - i,
    {
        let ghost before = out@;
        let c = DestinationCandidate { path: pairs[i].0.clone(), label: pairs[i].1.clone(), source };
        out.push(c);
        assert(candidate_views(out@) =~= candidate_views(before).push(candidate_view(c)));
        assert(labelled_spec(pairs@.take(i + 1), source) =~= labelled_spec(pairs@.take(i as int), source).push(
            candidate_view(c),
        ));
        i = i + 1;
    }
    assert(pairs@.take(pairs.len() as int) == pairs@);
    out
}

/// The ranked candidates without the folder the selection comes from, in order.
pub open spec fn without_origin_spec(ranked: Seq<DestinationCandidate>, origin_dir: Option<Seq<char>>) -> Seq<CandidateView>
    decreases ranked.len(),
{
    if ranked.len() == 0 {
        Seq::empty()
    } else {
        let c = ranked.last();
        without_origin_spec(ranked.drop_last(), origin_dir) + (if origin_dir == Some(c.path@) {
            Seq::empty()
        } else {
            seq![candidate_view(c)]
        })
    }
}

fn same_text(a: &String, b: &String) -> (r: bool)
    ensures
        r == (a@ == b@),
{
    crate::text::text_is(a.as_str(), b.as_str())
}

/// The ranked candidates, leaving out the origin folder (see `without_origin_spec`).
pub fn without_origin(ranked: &Vec<DestinationCandidate>, origin_dir: &Option<String>) -> (r: Vec<DestinationCandidate>)
    ensures
        candidate_views(r@) == without_origin_spec(ranked@, match origin_dir {
            Some(d) => Some(d@),
            None => None,
        }),
{
    let ghost od: Option<Seq<char>> = match origin_dir {
        Some(d) => Some(d@),
        None => None,
    };
    let mut out: Vec<DestinationCandidate> = Vec::new();
    let mut i: usize = 0;
    while i < ranked.len()
        invariant
            i <= ranked.len(),
            od == (match origin_dir {
                Some(d) => Some(d@),
                None => None,
            }),
            candidate_views(out@) == without_origin_spec(ranked@.take(i as int), od),
        decreases ranked.len() - i,
    {
        let ghost before = out@;
        assert(ranked@.take(i + 1).drop_last() == ranked@.take(i as int));
        let skip = match origin_dir {
            Some(d) => same_text(d, &ranked[i].path),
            None => false,
        };
        if !skip {
            let c = DestinationCandidate {
                path: ranked[i].path.clone(),
                label: ranked[i].label.clone(),
                source: ranked[i].source,
            };
            out.push(c);
            assert(candidate_views(out@) =~= candidate_views(before).push(candidate_view(ranked@[i as int])));
        }
        assert(candidate_views(out@) =~= without_origin_spec(ranked@.take(i + 1), od));
        i = i + 1;
    }
    assert(ranked@.take(ranked.len() as int) == ranked@);
    out
}

/// What the transfer started from: the selection of a file pane, or the basket.
#[derive(Clone, Copy, Debug, PartialEq, Eq, Structural)]
pub enum RadarOrigin {
    FilesSelection,
    Basket,
}

/// The open radar: the items to transfer, how, and the destinations offered.
pub struct DestinationRadar {
    pub move_files: bool,
    pub sources: Vec<String>,
    pub candidates: Vec<DestinationCandidate>,
    pub origin: RadarOrigin,
}

/// The radar that "copy/move to the other pane" opens for the selected `sources`: none when
/// nothing is selected or no destination is left once the origin folder is left out.
pub fn open_radar(
    move_files: bool,
    sources: Vec<String>,
    ranked: &Vec<DestinationCandidate>,
    origin_dir: &Option<String>,
    origin: RadarOrigin,
) -> (r: Option<DestinationRadar>)
    ensures
        ({
            let od = match origin_dir {
                Some(d) => Some(d@),
                None => None,
            };
            &&& r is Some <==> (sources@.len() > 0 && without_origin_spec(ranked@, od).len() > 0)
            &&& r matches Some(radar) ==> {
                &&& radar.move_files == move_files
                &&& radar.sources@ == sources@
                &&& candidate_views(radar.candidates@) == without_origin_spec(ranked@, od)
                &&& radar.origin == origin
            }
        }),
{
    if sources.len() == 0 {
        return None;
    }
    let candidates = without_origin(ranked, origin_dir);
    if candidates.len() == 0 {
        return None;
    }
    Some(DestinationRadar { move_files, sources, candidates, origin })
}

/// A transfer the radar resolved to.
pub struct RadarTransfer {
    pub origin: RadarOrigin,
    pub sources: Vec<String>,
    pub destination: String,
    pub move_files: bool,
}

impl DestinationRadar {
    /// Resolving the radar with the destination at `index`: the transfer of the sources to that
    /// folder, or nothing when no destination has that index.
    pub fn resolve(self, index: usize) -> (r: Option<RadarTransfer>)
        ensures
            r is Some <==> index < self.candidates@.len(),
            r matches Some(t) ==> {
                &&& t.origin == self.origin
                &&& t.sources@ == self.sources@
                &&& t.destination@ == self.candidates@[index as int].path@
                &&& t.move_files == self.move_files
            },
    {
        if index >= self.candidates.len() {
            return None;
        }
        let destination = self.candidates[index].path.clone();
        Some(RadarTransfer { origin: self.origin, sources: self.sources, destination, move_files: self.move_files })
    }

    /// Resolving the radar with a folder chosen by hand.
    pub fn resolve_path(self, destination: String) -> (r: RadarTransfer)
        ensures
            r.origin == self.origin,
            r.sources@ == self.sources@,
            r.destination@ == destination@,
            r.move_files == self.move_files,
    {
        RadarTransfer { origin: self.origin, sources: self.sources, destination, move_files: self.move_files }
    }
}

/// What "copy/move to the other pane" does.
pub enum ToOtherStep {
    /// Nothing: no selection, or no destination at all.
    Nothing,
    /// Start the transfer at once: exactly one other file pane is open, away from the origin.
    Transfer(RadarTransfer),
    /// Offer the destinations to choose from.
    Radar(DestinationRadar),
}

/// The other pane goes straight to the transfer: exactly one other file pane is open and it
/// does not show the folder the selection comes from.
pub open spec fn direct_destination(panes: Seq<PaneFolder>, origin: u64, origin_dir: Option<Seq<char>>) -> Option<
    Seq<char>,
> {
    let open = open_panel_spec(panes, origin);
    if open.len() == 1 && origin_dir != Some(open[0].0) {
        Some(open[0].0)
    } else {
        None
    }
}

/// "Copy/move to the other pane" for the `sources` selected in pane `origin` (showing
/// `origin_dir`): with one other file pane open (see `direct_destination`) the transfer to its
/// folder starts at once; otherwise the radar opens with the `ranked` destinations, the
/// origin folder left out; nothing when nothing is selected or no destination is left.
/// `panes` are the panes of the layout in visual order.
pub fn to_other_step(
    move_files: bool,
    sources: Vec<String>,
    panes: &Vec<PaneFolder>,
    origin: u64,
    ranked: &Vec<DestinationCandidate>,
    origin_dir: &Option<String>,
) -> (r: ToOtherStep)
    ensures
        ({
            let od = match origin_dir {
                Some(d) => Some(d@),
                None => None,
            };
            let direct = direct_destination(panes@, origin, od);
            &&& r is Nothing <==> (sources@.len() == 0 || (direct is None && without_origin_spec(ranked@, od).len()
                == 0))
            &&& r is Transfer <==> (sources@.len() > 0 && direct is Some)
            &&& r matches ToOtherStep::Transfer(t) ==> {
                &&& t.origin == RadarOrigin::FilesSelection
                &&& t.sources@ == sources@
                &&& Some(t.destination@) == direct
                &&& t.move_files == move_files
            }
            &&& r matches ToOtherStep::Radar(radar) ==> {
                &&& radar.move_files == move_files
                &&& radar.sources@ == sources@
                &&& candidate_views(radar.candidates@) == without_origin_spec(ranked@, od)
                &&& radar.origin == RadarOrigin::FilesSelection
            }
        }),
{
    let ghost od: Option<Seq<char>> = match origin_dir {
        Some(d) => Some(d@),
        None => None,
    };
    if sources.len() == 0 {
        return ToOtherStep::Nothing;
    }
    let open = open_panel_candidates(panes, origin);
    assert(candidate_views(open@).len() == open@.len());
    if open.len() == 1 {
        assert(candidate_views(open@)[0] == candidate_view(open@[0]));
        let same = match origin_dir {
            Some(d) => same_text(d, &open[0].path),
            None => false,
        };
        if !same {
            let destination = open[0].path.clone();
            return ToOtherStep::Transfer(
                RadarTransfer { origin: RadarOrigin::FilesSelection, sources, destination, move_files },
            );
        }
    }
    match open_radar(move_files, sources, ranked, origin_dir, RadarOrigin::FilesSelection) {
        Some(radar) => ToOtherStep::Radar(radar),
        None => ToOtherStep::Nothing,
    }
}

/// The radar never offers the folder the selection comes from, and keeps every other ranked
/// destination: its length is the number of ranked candidates outside the origin folder.
pub proof fn lemma_radar_never_offers_origin(ranked: Seq<DestinationCandidate>, origin_dir: Option<Seq<char>>)
    ensures
        forall|k: int|
            0 <= k < without_origin_spec(ranked, origin_dir).len() ==> origin_dir != Some(
                #[trigger] without_origin_spec(ranked, origin_dir)[k].0,
            ),
        forall|j: int|
            0 <= j < ranked.len() && origin_dir != Some(ranked[j].path@) ==> exists|k: int|
                0 <= k < without_origin_spec(ranked, origin_dir).len() && without_origin_spec(ranked, origin_dir)[k]
                    == candidate_view(#[trigger] ranked[j]),
    decreases ranked.len(),
{
    if ranked.len() > 0 {
        let rest = ranked.drop_last();
        lemma_radar_never_offers_origin(rest, origin_dir);
        let prev = without_origin_spec(rest, origin_dir);
        let cur = without_origin_spec(ranked, origin_dir);
        assert forall|j: int| 0 <= j < ranked.len() && origin_dir != Some(ranked[j].path@) implies exists|k: int|
            0 <= k < cur.len() && cur[k] == candidate_view(#[trigger] ranked[j]) by {
            if j < ranked.len() - 1 {
                assert(ranked[j] == rest[j]);
                let k = choose|k: int| 0 <= k < prev.len() && prev[k] == candidate_view(rest[j]);
                assert(cur[k] == prev[k]);
            } else {
                assert(cur[prev.len() as int] == candidate_view(ranked[j]));
            }
        }
    }
}

} // verus!
