//! Representation selection: which video and which audio representation of a
//! manifest the pipeline takes.
//!
//! A first pass prefers the representations at two given positions of a
//! period. Where a side is still open after it, a second pass takes the
//! video representation of the greatest bandwidth and the first audio
//! representation.

use vstd::prelude::*;
use crate::manifest::{
    opt_text, AdaptationSet, AdaptationSetView, Manifest, ManifestView, Representation,
    RepresentationView,
};
use crate::resolver::{extract_segments, extract_spec, ExtractError, TrackChoice, TrackChoiceView};
use crate::text::same_text;

verus! {

/// The positions that the first pass prefers. A position counts the
/// representations of a period in document order, across its adaptation
/// sets, from zero.
#[derive(Clone, Copy, Debug, PartialEq, Eq, Structural)]
pub struct SelectionPolicy {
    pub video_index: usize,
    pub audio_index: usize,
}

impl Default for SelectionPolicy {
    fn default() -> (p: SelectionPolicy)
        ensures
            p == (SelectionPolicy { video_index: 6, audio_index: 9 }),
    {
        SelectionPolicy { video_index: 6, audio_index: 9 }
    }
}

/// What the selector found: for each side the segments of the chosen
/// representation, or nothing where no representation was found.
#[derive(Clone, Debug)]
pub struct RepresentationChoice {
    pub video: Option<TrackChoice>,
    pub audio: Option<TrackChoice>,
}

/// The view of `RepresentationChoice`, over which contracts are stated.
pub struct RepresentationChoiceView {
    pub video: Option<TrackChoiceView>,
    pub audio: Option<TrackChoiceView>,
}

/// The view of an optional track.
pub open spec fn opt_track(o: Option<TrackChoice>) -> Option<TrackChoiceView> {
    match o {
        Some(t) => Some(t@),
        None => None,
    }
}

impl View for RepresentationChoice {
    type V = RepresentationChoiceView;

    open spec fn view(&self) -> RepresentationChoiceView {
        RepresentationChoiceView { video: opt_track(self.video), audio: opt_track(self.audio) }
    }
}

/// The view of the outcome of a selection.
pub open spec fn selection_view(r: Result<RepresentationChoice, ExtractError>) -> Result<
    RepresentationChoiceView,
    ExtractError,
> {
    match r {
        Ok(c) => Ok(c@),
        Err(e) => Err(e),
    }
}

/// An adaptation set is video-typed where its MIME type is `video/mp4` or
/// its content type is `video`.
pub open spec fn is_video(a: AdaptationSetView) -> bool {
    a.mime_type == Some("video/mp4"@) || a.content_type == Some("video"@)
}

/// An adaptation set is audio-typed where its MIME type is `audio/mp4` or
/// its content type is `audio`.
pub open spec fn is_audio(a: AdaptationSetView) -> bool {
    a.mime_type == Some("audio/mp4"@) || a.content_type == Some("audio"@)
}

/// The choice with the video side set to the outcome of an extraction.
pub open spec fn with_video(
    c: RepresentationChoiceView,
    t: Result<TrackChoiceView, ExtractError>,
) -> Result<RepresentationChoiceView, ExtractError> {
    match t {
        Ok(t) => Ok(RepresentationChoiceView { video: Some(t), audio: c.audio }),
        Err(e) => Err(e),
    }
}

/// The choice with the audio side set to the outcome of an extraction.
pub open spec fn with_audio(
    c: RepresentationChoiceView,
    t: Result<TrackChoiceView, ExtractError>,
) -> Result<RepresentationChoiceView, ExtractError> {
    match t {
        Ok(t) => Ok(RepresentationChoiceView { video: c.video, audio: Some(t) }),
        Err(e) => Err(e),
    }
}

/// What the first pass makes of one representation at position `k` of its
/// period.
pub open spec fn prefer_representation(
    c: RepresentationChoiceView,
    m: ManifestView,
    url: Seq<char>,
    policy: SelectionPolicy,
    a: AdaptationSetView,
    rep: RepresentationView,
    k: int,
) -> Result<RepresentationChoiceView, ExtractError> {
    if is_video(a) && k == policy.video_index {
        with_video(c, extract_spec(m, rep, url))
    } else if is_audio(a) && k == policy.audio_index {
        with_audio(c, extract_spec(m, rep, url))
    } else {
        Ok(c)
    }
}

/// The first pass over the representations of one adaptation set from
/// position `from` on; `base` is the position of its first representation in
/// the period.
pub open spec fn prefer_in_adaptation(
    c: RepresentationChoiceView,
    m: ManifestView,
    url: Seq<char>,
    policy: SelectionPolicy,
    a: AdaptationSetView,
    from: int,
    base: int,
) -> Result<RepresentationChoiceView, ExtractError>
    decreases a.representations.len() - from,
{
    if from < 0 || from >= a.representations.len() {
        Ok(c)
    } else {
        match prefer_representation(c, m, url, policy, a, a.representations[from], base + from) {
            Ok(next) => prefer_in_adaptation(next, m, url, policy, a, from + 1, base),
            Err(e) => Err(e),
        }
    }
}

/// The first pass over the adaptation sets of one period from position
/// `from` on; `base` counts the representations before it.
pub open spec fn prefer_in_period(
    c: RepresentationChoiceView,
    m: ManifestView,
    url: Seq<char>,
    policy: SelectionPolicy,
    adaptations: Seq<AdaptationSetView>,
    from: int,
    base: int,
) -> Result<RepresentationChoiceView, ExtractError>
    decreases adaptations.len() - from,
{
    if from < 0 || from >= adaptations.len() {
        Ok(c)
    } else {
        match prefer_in_adaptation(c, m, url, policy, adaptations[from], 0, base) {
            Ok(next) => prefer_in_period(
                next,
                m,
                url,
                policy,
                adaptations,
                from + 1,
                base + adaptations[from].representations.len(),
            ),
            Err(e) => Err(e),
        }
    }
}

/// The first pass over the periods of the manifest from position `from` on.
pub open spec fn prefer_pass(
    c: RepresentationChoiceView,
    m: ManifestView,
    url: Seq<char>,
    policy: SelectionPolicy,
    from: int,
) -> Result<RepresentationChoiceView, ExtractError>
    decreases m.periods.len() - from,
{
    if from < 0 || from >= m.periods.len() {
        Ok(c)
    } else {
        match prefer_in_period(c, m, url, policy, m.periods[from].adaptations, 0, 0) {
            Ok(next) => prefer_pass(next, m, url, policy, from + 1),
            Err(e) => Err(e),
        }
    }
}

/// The bandwidth that a representation declares: zero where it declares
/// none.
pub open spec fn bandwidth_of(rep: RepresentationView) -> u64 {
    match rep.bandwidth {
        Some(b) => b,
        None => 0,
    }
}

/// Among the first `n` representations, the position of the one with the
/// greatest bandwidth; of several such, the last.
pub open spec fn best_among(reps: Seq<RepresentationView>, n: int) -> int
    decreases n,
{
    if n <= 1 {
        0
    } else {
        let before = best_among(reps, n - 1);
        if bandwidth_of(reps[n - 1]) >= bandwidth_of(reps[before]) {
            n - 1
        } else {
            before
        }
    }
}

/// The position of the representation with the greatest bandwidth.
pub open spec fn best_index(reps: Seq<RepresentationView>) -> int {
    best_among(reps, reps.len() as int)
}

/// What the second pass makes of one adaptation set.
pub open spec fn fallback_adaptation(
    c: RepresentationChoiceView,
    m: ManifestView,
    url: Seq<char>,
    a: AdaptationSetView,
) -> Result<RepresentationChoiceView, ExtractError> {
    if is_video(a) && c.video is None {
        if a.representations.len() > 0 {
            with_video(c, extract_spec(m, a.representations[best_index(a.representations)], url))
        } else {
            Ok(c)
        }
    } else if is_audio(a) && c.audio is None {
        if a.representations.len() > 0 {
            with_audio(c, extract_spec(m, a.representations[0], url))
        } else {
            Ok(c)
        }
    } else {
        Ok(c)
    }
}

/// The second pass over the adaptation sets of one period from position
/// `from` on.
pub open spec fn fallback_in_period(
    c: RepresentationChoiceView,
    m: ManifestView,
    url: Seq<char>,
    adaptations: Seq<AdaptationSetView>,
    from: int,
) -> Result<RepresentationChoiceView, ExtractError>
    decreases adaptations.len() - from,
{
    if from < 0 || from >= adaptations.len() {
        Ok(c)
    } else {
        match fallback_adaptation(c, m, url, adaptations[from]) {
            Ok(next) => fallback_in_period(next, m, url, adaptations, from + 1),
            Err(e) => Err(e),
        }
    }
}

/// The second pass over the periods of the manifest from position `from` on.
pub open spec fn fallback_pass(
    c: RepresentationChoiceView,
    m: ManifestView,
    url: Seq<char>,
    from: int,
) -> Result<RepresentationChoiceView, ExtractError>
    decreases m.periods.len() - from,
{
    if from < 0 || from >= m.periods.len() {
        Ok(c)
    } else {
        match fallback_in_period(c, m, url, m.periods[from].adaptations, 0) {
            Ok(next) => fallback_pass(next, m, url, from + 1),
            Err(e) => Err(e),
        }
    }
}

/// The choice in which no side is resolved.
pub open spec fn nothing_chosen() -> RepresentationChoiceView {
    RepresentationChoiceView { video: None, audio: None }
}

/// The selection: the first pass, and the second where the first left a
/// side open.
pub open spec fn select_spec(m: ManifestView, url: Seq<char>, policy: SelectionPolicy) -> Result<
    RepresentationChoiceView,
    ExtractError,
> {
    match prefer_pass(nothing_chosen(), m, url, policy, 0) {
        Ok(c) => if c.video is None || c.audio is None {
            fallback_pass(c, m, url, 0)
        } else {
            Ok(c)
        },
        Err(e) => Err(e),
    }
}

/// The representation that `best_index` names has the greatest bandwidth of
/// its adaptation set, and every one behind it has less.
pub proof fn lemma_best_index_is_greatest(reps: Seq<RepresentationView>)
    requires
        reps.len() > 0,
    ensures
        0 <= best_index(reps) < reps.len(),
        forall|j: int|
            0 <= j < reps.len() ==> bandwidth_of(#[trigger] reps[j]) <= bandwidth_of(
                reps[best_index(reps)],
            ),
        forall|j: int|
            best_index(reps) < j < reps.len() ==> bandwidth_of(#[trigger] reps[j]) < bandwidth_of(
                reps[best_index(reps)],
            ),
{
    lemma_best_among(reps, reps.len() as int);
}

proof fn lemma_best_among(reps: Seq<RepresentationView>, n: int)
    requires
        1 <= n <= reps.len(),
    ensures
        0 <= best_among(reps, n) < n,
        forall|j: int|
            0 <= j < n ==> bandwidth_of(#[trigger] reps[j]) <= bandwidth_of(
                reps[best_among(reps, n)],
            ),
        forall|j: int|
            best_among(reps, n) < j < n ==> bandwidth_of(#[trigger] reps[j]) < bandwidth_of(
                reps[best_among(reps, n)],
            ),
    decreases n,
{
    if n > 1 {
        lemma_best_among(reps, n - 1);
    }
}

/// Tests whether an optional string holds the given text.
fn opt_is(o: &Option<String>, text: &str) -> (r: bool)
    ensures
        r == (opt_text(*o) == Some(text@)),
{
    match o {
        Some(s) => same_text(s.as_str(), text),
        None => false,
    }
}

/// Tests whether an adaptation set is video-typed.
pub fn adaptation_is_video(a: &AdaptationSet) -> (r: bool)
    ensures
        r == is_video(a@),
{
    opt_is(&a.mime_type, "video/mp4") || opt_is(&a.content_type, "video")
}

/// Tests whether an adaptation set is audio-typed.
pub fn adaptation_is_audio(a: &AdaptationSet) -> (r: bool)
    ensures
        r == is_audio(a@),
{
    opt_is(&a.mime_type, "audio/mp4") || opt_is(&a.content_type, "audio")
}

/// Finds the representation with the greatest bandwidth; of several such,
/// the last. An empty list has none.
pub fn find_best(reps: &Vec<Representation>) -> (best: Option<usize>)
    ensures
        best is Some <==> reps@.len() > 0,
        best matches Some(b) ==> b < reps@.len() && b == best_index(
            Seq::new(reps@.len(), |i: int| reps@[i]@),
        ),
{
    if reps.len() == 0 {
        return None;
    }
    let ghost views = Seq::new(reps@.len(), |i: int| reps@[i]@);
    let mut best: usize = 0;
    let mut best_bandwidth: u64 = match reps[0].bandwidth {
        Some(b) => b,
        None => 0,
    };
    let mut n: usize = 1;
    while n < reps.len()
        invariant
            1 <= n <= reps.len(),
            views == Seq::new(reps@.len(), |i: int| reps@[i]@),
            best == best_among(views, n as int),
            best < n,
            best_bandwidth == bandwidth_of(views[best as int]),
        decreases reps.len() - n,
    {
        let bandwidth: u64 = match reps[n].bandwidth {
            Some(b) => b,
            None => 0,
        };
        assert(bandwidth == bandwidth_of(views[n as int]));
        if bandwidth >= best_bandwidth {
            best = n;
            best_bandwidth = bandwidth;
        }
        n = n + 1;
    }
    Some(best)
}

fn prefer_in_adaptation_exec(
    choice: RepresentationChoice,
    m: &Manifest,
    url: &str,
    policy: SelectionPolicy,
    a: &AdaptationSet,
    base: u128,
) -> (r: Result<RepresentationChoice, ExtractError>)
    requires
        base + a.representations.len() <= u128::MAX,
    ensures
        selection_view(r) == prefer_in_adaptation(choice@, m@, url@, policy, a@, 0, base as int),
{
    let video = adaptation_is_video(a);
    let audio = adaptation_is_audio(a);
    let mut current = choice;
    let mut i: usize = 0;
    while i < a.representations.len()
        invariant
            i <= a.representations.len(),
            base + a.representations.len() <= u128::MAX,
            video == is_video(a@),
            audio == is_audio(a@),
            prefer_in_adaptation(choice@, m@, url@, policy, a@, 0, base as int)
                == prefer_in_adaptation(current@, m@, url@, policy, a@, i as int, base as int),
        decreases a.representations.len() - i,
    {
        let rep = &a.representations[i];
        assert(rep@ == a@.representations[i as int]);
        let k: u128 = base + i as u128;
        if video && k == policy.video_index as u128 {
            match extract_segments(m, rep, url) {
                Ok(t) => {
                    current = RepresentationChoice { video: Some(t), audio: current.audio };
                },
                Err(e) => {
                    return Err(e);
                },
            }
        } else if audio && k == policy.audio_index as u128 {
            match extract_segments(m, rep, url) {
                Ok(t) => {
                    current = RepresentationChoice { video: current.video, audio: Some(t) };
                },
                Err(e) => {
                    return Err(e);
                },
            }
        }
        i = i + 1;
    }
    Ok(current)
}

fn prefer_in_period_exec(
    choice: RepresentationChoice,
    m: &Manifest,
    url: &str,
    policy: SelectionPolicy,
    adaptations: &Vec<AdaptationSet>,
) -> (r: Result<RepresentationChoice, ExtractError>)
    ensures
        selection_view(r) == prefer_in_period(
            choice@,
            m@,
            url@,
            policy,
            Seq::new(adaptations@.len(), |i: int| adaptations@[i]@),
            0,
            0,
        ),
{
    let ghost views = Seq::new(adaptations@.len(), |i: int| adaptations@[i]@);
    let mut current = choice;
    let mut base: u128 = 0;
    let mut i: usize = 0;
    while i < adaptations.len()
        invariant
            i <= adaptations.len(),
            views == Seq::new(adaptations@.len(), |i: int| adaptations@[i]@),
            base <= i * 0xffff_ffff_ffff_ffff,
            prefer_in_period(choice@, m@, url@, policy, views, 0, 0) == prefer_in_period(
                current@,
                m@,
                url@,
                policy,
                views,
                i as int,
                base as int,
            ),
        decreases adaptations.len() - i,
    {
        let a = &adaptations[i];
        assert(a@ == views[i as int]);
        assert(views[i as int].representations.len() == a.representations@.len());
        match prefer_in_adaptation_exec(current, m, url, policy, a, base) {
            Ok(next) => {
                current = next;
            },
            Err(e) => {
                return Err(e);
            },
        }
        base = base + a.representations.len() as u128;
        i = i + 1;
    }
    Ok(current)
}

fn fallback_in_period_exec(
    choice: RepresentationChoice,
    m: &Manifest,
    url: &str,
    adaptations: &Vec<AdaptationSet>,
) -> (r: Result<RepresentationChoice, ExtractError>)
    ensures
        selection_view(r) == fallback_in_period(
            choice@,
            m@,
            url@,
            Seq::new(adaptations@.len(), |i: int| adaptations@[i]@),
            0,
        ),
{
    let ghost views = Seq::new(adaptations@.len(), |i: int| adaptations@[i]@);
    let mut current = choice;
    let mut i: usize = 0;
    while i < adaptations.len()
        invariant
            i <= adaptations.len(),
            views == Seq::new(adaptations@.len(), |i: int| adaptations@[i]@),
            fallback_in_period(choice@, m@, url@, views, 0) == fallback_in_period(
                current@,
                m@,
                url@,
                views,
                i as int,
            ),
        decreases adaptations.len() - i,
    {
        let a = &adaptations[i];
        assert(a@ == views[i as int]);
        assert(a@.representations =~= Seq::new(
            a.representations@.len(),
            |i: int| a.representations@[i]@,
        ));
        if adaptation_is_video(a) && current.video.is_none() {
            if let Some(best) = find_best(&a.representations) {
                let rep = &a.representations[best];
                assert(rep@ == a@.representations[best as int]);
                match extract_segments(m, rep, url) {
                    Ok(t) => {
                        current = RepresentationChoice { video: Some(t), audio: current.audio };
                    },
                    Err(e) => {
                        return Err(e);
                    },
                }
            }
        } else if adaptation_is_audio(a) && current.audio.is_none() {
            if a.representations.len() > 0 {
                let rep = &a.representations[0];
                assert(rep@ == a@.representations[0]);
                match extract_segments(m, rep, url) {
                    Ok(t) => {
                        current = RepresentationChoice { video: current.video, audio: Some(t) };
                    },
                    Err(e) => {
                        return Err(e);
                    },
                }
            }
        }
        i = i + 1;
    }
    Ok(current)
}

/// Selects one video and one audio representation of a manifest and lists
/// their segments. `manifest_url` is the URL that the manifest was fetched
/// from. A side for which the manifest holds no representation stays
/// unresolved; the first representation whose segments cannot be listed
/// fails the selection.
pub fn select_representations(m: &Manifest, manifest_url: &str, policy: SelectionPolicy) -> (r:
    Result<RepresentationChoice, ExtractError>)
    ensures
        selection_view(r) == select_spec(m@, manifest_url@, policy),
{
    let mut current = RepresentationChoice { video: None, audio: None };
    let mut p: usize = 0;
    while p < m.periods.len()
        invariant
            p <= m.periods.len(),
            prefer_pass(nothing_chosen(), m@, manifest_url@, policy, 0) == prefer_pass(
                current@,
                m@,
                manifest_url@,
                policy,
                p as int,
            ),
        decreases m.periods.len() - p,
    {
        let period = &m.periods[p];
        assert(period@ == m@.periods[p as int]);
        match prefer_in_period_exec(current, m, manifest_url, policy, &period.adaptations) {
            Ok(next) => {
                current = next;
            },
            Err(e) => {
                return Err(e);
            },
        }
        p = p + 1;
    }
    if current.video.is_some() && current.audio.is_some() {
        return Ok(current);
    }
    let ghost preferred = current@;
    let mut p: usize = 0;
    while p < m.periods.len()
        invariant
            p <= m.periods.len(),
            prefer_pass(nothing_chosen(), m@, manifest_url@, policy, 0) == Ok::<
                RepresentationChoiceView,
                ExtractError,
            >(preferred),
            preferred.video is None || preferred.audio is None,
            fallback_pass(preferred, m@, manifest_url@, 0) == fallback_pass(
                current@,
                m@,
                manifest_url@,
                p as int,
            ),
        decreases m.periods.len() - p,
    {
        let period = &m.periods[p];
        assert(period@ == m@.periods[p as int]);
        match fallback_in_period_exec(current, m, manifest_url, &period.adaptations) {
            Ok(next) => {
                current = next;
            },
            Err(e) => {
                return Err(e);
            },
        }
        p = p + 1;
    }
    Ok(current)
}

} // verus!
