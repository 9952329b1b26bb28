//! Subtitle track reconciler: finds the one stale auto-loaded raw danmaku
//! track — a subtitle track tagged with the sentinel language `danmaku` and
//! title `xml` — that should be removed before the fresh track is installed.

use vstd::prelude::*;
use crate::classify::{dec_number_of, parse_decimal};
use crate::urlmodel::{opt_view, str_eq};

verus! {

/// A snapshot of one host track: the `type`, `lang`, `title` and `id`
/// properties, each absent when the host does not report it.
pub struct SubtitleTrack {
    pub kind: Option<String>,
    pub lang: Option<String>,
    pub title: Option<String>,
    pub id: Option<String>,
}

pub struct TrackView {
    pub kind: Option<Seq<char>>,
    pub lang: Option<Seq<char>>,
    pub title: Option<Seq<char>>,
    pub id: Option<Seq<char>>,
}

impl View for SubtitleTrack {
    type V = TrackView;

    open spec fn view(&self) -> TrackView {
        TrackView {
            kind: opt_view(self.kind),
            lang: opt_view(self.lang),
            title: opt_view(self.title),
            id: opt_view(self.id),
        }
    }
}

/// The sentinel combination that marks a previously auto-attached raw
/// danmaku track.
pub open spec fn is_stale(t: TrackView) -> bool {
    &&& t.kind == Some("sub"@)
    &&& t.lang == Some("danmaku"@)
    &&& t.title == Some("xml"@)
}

fn opt_str_eq(o: &Option<String>, lit: &str) -> (r: bool)
    ensures
        r == (opt_view(*o) == Some(lit@)),
{
    match o {
        None => false,
        Some(s) => str_eq(s.as_str(), lit),
    }
}

/// Scans the tracks in host order for the first stale one; returns its
/// position in the list, or `None` when no track is stale.
pub fn find_stale_track(tracks: &Vec<SubtitleTrack>) -> (r: Option<usize>)
    ensures
        match r {
            Some(i) => i < tracks@.len() && is_stale(tracks@[i as int]@) && forall|j: int|
                0 <= j < i ==> !is_stale(tracks@[j]@),
            None => forall|j: int| 0 <= j < tracks@.len() ==> !is_stale(tracks@[j]@),
        },
{
    let mut i: usize = 0;
    while i < tracks.len()
        invariant
            i <= tracks@.len(),
            forall|j: int| 0 <= j < i ==> !is_stale(tracks@[j]@),
        decreases tracks@.len() - i,
    {
        let t = &tracks[i];
        if opt_str_eq(&t.kind, "sub") && opt_str_eq(&t.lang, "danmaku") && opt_str_eq(
            &t.title,
            "xml",
        ) {
            return Some(i);
        }
        i += 1;
    }
    None
}

/// The position of the first stale track, scanning from `k`.
pub open spec fn first_stale_from(tracks: Seq<SubtitleTrack>, k: int) -> Option<int>
    decreases tracks.len() - k
        when 0 <= k <= tracks.len()
{
    if !(0 <= k < tracks.len()) {
        None
    } else if is_stale(tracks[k]@) {
        Some(k)
    } else {
        first_stale_from(tracks, k + 1)
    }
}

/// The removal command the run issues, if any: the parsed `id` property of
/// the first stale track.  Absent when no track is stale or its `id` is
/// missing or not a decimal numeral (removal is best effort and never blocks
/// the run).
pub open spec fn removal_id_spec(tracks: Seq<SubtitleTrack>) -> Option<u64> {
    match first_stale_from(tracks, 0) {
        None => None,
        Some(i) => match tracks[i].id {
            None => None,
            Some(s) => dec_number_of(s@),
        },
    }
}

proof fn lemma_first_stale_none(tracks: Seq<SubtitleTrack>, k: int)
    requires
        0 <= k <= tracks.len(),
        forall|j: int| k <= j < tracks.len() ==> !is_stale(tracks[j]@),
    ensures
        first_stale_from(tracks, k) == None::<int>,
    decreases tracks.len() - k,
{
    if k < tracks.len() {
        lemma_first_stale_none(tracks, k + 1);
    }
}

proof fn lemma_first_stale_some(tracks: Seq<SubtitleTrack>, k: int, i: int)
    requires
        0 <= k <= i < tracks.len(),
        is_stale(tracks[i]@),
        forall|j: int| k <= j < i ==> !is_stale(tracks[j]@),
    ensures
        first_stale_from(tracks, k) == Some(i),
    decreases i - k,
{
    if k < i {
        lemma_first_stale_some(tracks, k + 1, i);
    }
}

/// The identifier to remove, per `removal_id_spec`.
pub fn stale_track_removal_id(tracks: &Vec<SubtitleTrack>) -> (r: Option<u64>)
    ensures
        r == removal_id_spec(tracks@),
{
    match find_stale_track(tracks) {
        None => {
            proof {
                lemma_first_stale_none(tracks@, 0);
            }
            None
        },
        Some(i) => {
            proof {
                lemma_first_stale_some(tracks@, 0, i as int);
            }
            match &tracks[i].id {
                None => None,
                Some(s) => parse_decimal(s.as_str()),
            }
        },
    }
}

} // verus!
