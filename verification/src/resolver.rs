//! URL resolution: the base URL of a representation, the expansion of its
//! templates, and the list of its segment URLs.

use vstd::prelude::*;
use crate::manifest::{
    is_live, opt_text, AdaptationSet, AdaptationSetView, Manifest, ManifestView, PeriodView,
    Representation, RepresentationView, SegmentList, SegmentTemplate, SegmentTemplateView,
};
use crate::text::{
    decimal, decimal_of_i128, has_prefix, replace_all, same_text, starts_with, substitute, texts,
    trim_end, trim_trailing,
};
use crate::timeline::{
    arithmetic_time, compute_segment_times, count_template_segments, ints, segment_times,
    template_count, time_of_index,
};

verus! {

/// How many segments of a live manifest are kept: the most recent ones.
pub const LIVE_WINDOW: usize = 20;

/// What `Url::parse` of the `url` crate makes of `input`: the serialization
/// of the parsed URL, or `None` where the text is no absolute URL.
pub uninterp spec fn url_parsed(input: Seq<char>) -> Option<Seq<char>>;

/// What `Url::join` of the `url` crate makes of `reference` against the URL
/// that `base` parses to: the serialization of the joined URL, or `None`
/// where `base` is no absolute URL or the join fails.
pub uninterp spec fn url_joined(base: Seq<char>, reference: Seq<char>) -> Option<Seq<char>>;

/// Calls `url::Url::parse` and hands back the serialization of the URL it
/// returns. Nothing is claimed of the result but that it is the one named
/// `url_parsed`.
#[verifier::external_body]
fn parse_url(input: &str) -> (r: Option<String>)
    ensures
        opt_text(r) == url_parsed(input@),
{
    url::Url::parse(input).ok().map(String::from)
}

/// Parses `base` with `url::Url::parse`, calls `url::Url::join` on it with
/// `reference` and hands back the serialization of the URL it returns.
/// Nothing is claimed of the result but that it is the one named
/// `url_joined`.
#[verifier::external_body]
fn join_url(base: &str, reference: &str) -> (r: Option<String>)
    ensures
        opt_text(r) == url_joined(base@, reference@),
{
    match url::Url::parse(base) {
        Ok(parsed) => parsed.join(reference).ok().map(String::from),
        Err(_) => None,
    }
}

/// Why the segments of a representation cannot be listed.
#[derive(Clone, Copy, Debug, PartialEq, Eq, Structural)]
pub enum ExtractError {
    /// The manifest has no period.
    NoPeriod,
    /// The representation has neither a segment template, nor a segment
    /// list, nor a base URL.
    RepresentationUnsupported,
}

/// The segments of one representation: the URL of its initialization
/// segment, where it has one, and the URLs of its media segments in order.
#[derive(Clone, Debug)]
pub struct TrackChoice {
    pub segment_urls: Vec<String>,
    pub init_url: Option<String>,
}

/// The view of `TrackChoice`, over which contracts are stated.
pub struct TrackChoiceView {
    pub segment_urls: Seq<Seq<char>>,
    pub init_url: Option<Seq<char>>,
}

impl View for TrackChoice {
    type V = TrackChoiceView;

    open spec fn view(&self) -> TrackChoiceView {
        TrackChoiceView { segment_urls: texts(self.segment_urls@), init_url: opt_text(self.init_url) }
    }
}

/// The view of the outcome of an extraction.
pub open spec fn extraction_view(r: Result<TrackChoice, ExtractError>) -> Result<
    TrackChoiceView,
    ExtractError,
> {
    match r {
        Ok(t) => Ok(t@),
        Err(e) => Err(e),
    }
}

/// The placeholder for the id of the representation.
pub open spec fn id_placeholder() -> Seq<char> {
    "$RepresentationID$"@
}

/// The placeholder for the time of the segment.
pub open spec fn time_placeholder() -> Seq<char> {
    "$Time$"@
}

/// A URL counts as absolute where it begins with `http`.
pub open spec fn is_absolute(url: Seq<char>) -> bool {
    has_prefix(url, "http"@)
}

/// `reference` appended to `base` behind one separator, after the separators
/// at the end of `base` are taken off.
pub open spec fn slash_join(base: Seq<char>, reference: Seq<char>) -> Seq<char> {
    trim_trailing(base, '/') + "/"@ + reference
}

/// One step of the fold that computes a base URL: an absolute entry takes
/// the place of what was there, a relative one is appended to it, an absent
/// one changes nothing.
pub open spec fn fold_base(acc: Seq<char>, entry: Option<Seq<char>>) -> Seq<char> {
    match entry {
        None => acc,
        Some(e) => if is_absolute(e) {
            e
        } else {
            slash_join(acc, e)
        },
    }
}

/// The base URL of a representation: the manifest's own URL, folded over the
/// base URLs of the manifest, of its first period and of the representation.
pub open spec fn base_url_of(m: ManifestView, rep: RepresentationView, manifest_url: Seq<char>)
    -> Seq<char>
    recommends
        m.periods.len() > 0,
{
    fold_base(fold_base(fold_base(manifest_url, m.base_url), m.periods[0].base_url), rep.base_url)
}

/// What a failed join leaves in place of a URL.
pub open spec fn broken_url() -> Seq<char> {
    "broken"@
}

/// What becomes of the outcome of a join: the joined URL, or the mark of a
/// broken one.
pub open spec fn joined_or_broken_spec(joined: Option<Seq<char>>) -> Seq<char> {
    match joined {
        Some(u) => u,
        None => broken_url(),
    }
}

/// A reference resolved against a base URL: an absolute one stands as it is,
/// another is joined to the base.
pub open spec fn resolve(base: Seq<char>, reference: Seq<char>) -> Seq<char> {
    if is_absolute(reference) {
        reference
    } else {
        joined_or_broken_spec(url_joined(base, reference))
    }
}

/// The id of a representation as text: empty where it has none.
pub open spec fn id_text(id: Option<Seq<char>>) -> Seq<char> {
    match id {
        Some(i) => i,
        None => Seq::empty(),
    }
}

/// An initialization template with the id filled in.
pub open spec fn expand_init(template: Seq<char>, id: Seq<char>) -> Seq<char> {
    substitute(template, id_placeholder(), id)
}

/// A media template with the id and the time filled in.
pub open spec fn expand_media(template: Seq<char>, id: Seq<char>, time: int) -> Seq<char> {
    substitute(substitute(template, id_placeholder(), id), time_placeholder(), decimal(time))
}

/// Whether an adaptation set holds a representation with the given id.
pub open spec fn holds_id(a: AdaptationSetView, id: Option<Seq<char>>) -> bool {
    exists|k: int| 0 <= k < a.representations.len() && #[trigger] a.representations[k].id == id
}

/// The first adaptation set, from position `from` on, that holds a
/// representation with the given id.
pub open spec fn owner_in_period(
    adaptations: Seq<AdaptationSetView>,
    from: int,
    id: Option<Seq<char>>,
) -> Option<AdaptationSetView>
    decreases adaptations.len() - from,
{
    if from < 0 || from >= adaptations.len() {
        None
    } else if holds_id(adaptations[from], id) {
        Some(adaptations[from])
    } else {
        owner_in_period(adaptations, from + 1, id)
    }
}

/// The first adaptation set of the manifest, in document order from period
/// `from` on, that holds a representation with the given id.
pub open spec fn owner_of(periods: Seq<PeriodView>, from: int, id: Option<Seq<char>>) -> Option<
    AdaptationSetView,
>
    decreases periods.len() - from,
{
    if from < 0 || from >= periods.len() {
        None
    } else {
        match owner_in_period(periods[from].adaptations, 0, id) {
            Some(a) => Some(a),
            None => owner_of(periods, from + 1, id),
        }
    }
}

/// The segment template that holds for a representation: its own, or else
/// that of the first adaptation set that holds a representation with its id.
pub open spec fn effective_template(m: ManifestView, rep: RepresentationView) -> Option<
    SegmentTemplateView,
> {
    match rep.segment_template {
        Some(t) => Some(t),
        None => match owner_of(m.periods, 0, rep.id) {
            Some(a) => a.segment_template,
            None => None,
        },
    }
}

/// The declared duration of a period in seconds: sixty where it has none.
pub open spec fn period_secs(p: PeriodView) -> u64 {
    match p.duration_secs {
        Some(d) => d,
        None => 60,
    }
}

/// The segment duration of a template: one where it declares none.
pub open spec fn template_duration(t: SegmentTemplateView) -> i64 {
    match t.duration {
        Some(d) => d,
        None => 1,
    }
}

/// The timescale of a template: one where it declares none.
pub open spec fn template_timescale(t: SegmentTemplateView) -> u64 {
    match t.timescale {
        Some(s) => s,
        None => 1,
    }
}

/// The times of the segments of a template: those of its timeline, or the
/// multiples of its duration that fit into the period.
pub open spec fn template_times(t: SegmentTemplateView, secs: u64) -> Seq<int> {
    match t.timeline {
        Some(timeline) => segment_times(timeline),
        None => Seq::new(
            template_count(secs, template_timescale(t), template_duration(t)),
            |i: int| arithmetic_time(i, template_duration(t)),
        ),
    }
}

/// The media URLs of a template, one for each time; none where the template
/// has no media pattern.
pub open spec fn template_urls(t: SegmentTemplateView, id: Seq<char>, base: Seq<char>, secs: u64)
    -> Seq<Seq<char>> {
    match t.media {
        None => Seq::empty(),
        Some(media) => {
            let times = template_times(t, secs);
            Seq::new(times.len(), |i: int| resolve(base, expand_media(media, id, times[i])))
        },
    }
}

/// The URL of an entry of a segment list.
pub open spec fn list_url(base: Seq<char>, media: Seq<char>) -> Seq<char> {
    if is_absolute(media) {
        media
    } else {
        slash_join(base, media)
    }
}

/// The URLs of the entries of a segment list from position `from` on; an
/// entry without a media URL gives none.
pub open spec fn list_urls(entries: Seq<Option<Seq<char>>>, from: int, base: Seq<char>) -> Seq<
    Seq<char>,
>
    decreases entries.len() - from,
{
    if from < 0 || from >= entries.len() {
        Seq::empty()
    } else {
        match entries[from] {
            Some(media) => seq![list_url(base, media)] + list_urls(entries, from + 1, base),
            None => list_urls(entries, from + 1, base),
        }
    }
}

/// The end of a list that a live manifest keeps: its last `LIVE_WINDOW`
/// entries. Of another manifest the whole list is kept.
pub open spec fn live_window<A>(s: Seq<A>, live: bool) -> Seq<A> {
    if live && s.len() > LIVE_WINDOW {
        s.subrange(s.len() - LIVE_WINDOW, s.len() as int)
    } else {
        s
    }
}

/// What a live manifest keeps of a list is its end, of at most
/// `LIVE_WINDOW` entries: nothing is kept that is not among the last
/// `LIVE_WINDOW`, and the order stays.
pub proof fn lemma_live_window_keeps_the_end<A>(s: Seq<A>)
    ensures
        live_window(s, true).len() <= LIVE_WINDOW,
        live_window(s, true).len() <= s.len(),
        s.len() >= LIVE_WINDOW ==> live_window(s, true).len() == LIVE_WINDOW,
        forall|i: int|
            0 <= i < live_window(s, true).len() ==> #[trigger] live_window(s, true)[i] == s[s.len()
                - live_window(s, true).len() + i],
        live_window(s, false) == s,
{
}

/// The segments of a representation.
pub open spec fn extract_spec(m: ManifestView, rep: RepresentationView, manifest_url: Seq<char>)
    -> Result<TrackChoiceView, ExtractError> {
    if m.periods.len() == 0 {
        Err(ExtractError::NoPeriod)
    } else {
        let base = base_url_of(m, rep, manifest_url);
        let id = id_text(rep.id);
        match effective_template(m, rep) {
            Some(t) => Ok(
                TrackChoiceView {
                    segment_urls: live_window(
                        template_urls(t, id, base, period_secs(m.periods[0])),
                        is_live(m),
                    ),
                    init_url: match t.initialization {
                        Some(i) => Some(resolve(base, expand_init(i, id))),
                        None => None,
                    },
                },
            ),
            None => match rep.segment_list {
                Some(l) => Ok(
                    TrackChoiceView {
                        segment_urls: live_window(list_urls(l.segment_urls, 0, base), is_live(m)),
                        init_url: None,
                    },
                ),
                None => match rep.base_url {
                    Some(b) => Ok(
                        TrackChoiceView {
                            segment_urls: live_window(seq![b], is_live(m)),
                            init_url: None,
                        },
                    ),
                    None => Err(ExtractError::RepresentationUnsupported),
                },
            },
        }
    }
}

/// The serialization of the URL that `input` parses to, or `None` where it
/// is no absolute URL.
pub fn normalize_url(input: &str) -> (r: Option<String>)
    ensures
        opt_text(r) == url_parsed(input@),
{
    parse_url(input)
}

/// What becomes of the outcome of a join: the joined URL, or the mark of a
/// broken one.
pub fn joined_or_broken(joined: Option<String>) -> (r: String)
    ensures
        r@ == joined_or_broken_spec(opt_text(joined)),
{
    match joined {
        Some(u) => u,
        None => String::from_str("broken"),
    }
}

/// Tests whether a URL counts as absolute.
pub fn url_is_absolute(url: &str) -> (r: bool)
    ensures
        r == is_absolute(url@),
{
    starts_with(url, "http")
}

/// Resolves a reference against a base URL.
pub fn resolve_url(base: &str, reference: &str) -> (r: String)
    ensures
        r@ == resolve(base@, reference@),
{
    if url_is_absolute(reference) {
        String::from_str(reference)
    } else {
        joined_or_broken(join_url(base, reference))
    }
}

/// Appends `reference` to `base` behind one separator.
pub fn join_with_slash(base: &str, reference: &str) -> (r: String)
    ensures
        r@ == slash_join(base@, reference@),
{
    let mut out = trim_end(base, '/');
    out.append("/");
    out.append(reference);
    out
}

/// One step of the fold that computes a base URL.
pub fn fold_base_url(acc: String, entry: &Option<String>) -> (r: String)
    ensures
        r@ == fold_base(acc@, opt_text(*entry)),
{
    match entry {
        None => acc,
        Some(e) => if url_is_absolute(e.as_str()) {
            e.clone()
        } else {
            join_with_slash(acc.as_str(), e.as_str())
        },
    }
}

/// Tests whether two optional strings hold the same text, or are both
/// absent.
pub fn same_opt_text(a: &Option<String>, b: &Option<String>) -> (r: bool)
    ensures
        r == (opt_text(*a) == opt_text(*b)),
{
    match a {
        Some(x) => match b {
            Some(y) => same_text(x.as_str(), y.as_str()),
            None => false,
        },
        None => match b {
            Some(_) => false,
            None => true,
        },
    }
}

/// Tests whether an adaptation set holds a representation with the given id.
pub fn adaptation_holds_id(a: &AdaptationSet, id: &Option<String>) -> (r: bool)
    ensures
        r == holds_id(a@, opt_text(*id)),
{
    let mut k: usize = 0;
    while k < a.representations.len()
        invariant
            k <= a.representations.len(),
            forall|j: int| 0 <= j < k ==> (#[trigger] a@.representations[j]).id != opt_text(*id),
        decreases a.representations.len() - k,
    {
        if same_opt_text(&a.representations[k].id, id) {
            assert(a@.representations[k as int].id == opt_text(*id));
            return true;
        }
        k = k + 1;
    }
    false
}

/// Finds the segment template that holds for a representation.
pub fn find_template<'a>(m: &'a Manifest, rep: &'a Representation) -> (r: Option<
    &'a SegmentTemplate,
>)
    ensures
        match r {
            Some(t) => Some(t@),
            None => None,
        } == effective_template(m@, rep@),
{
    if let Some(t) = &rep.segment_template {
        return Some(t);
    }
    let mut p: usize = 0;
    while p < m.periods.len()
        invariant
            p <= m.periods.len(),
            rep@.segment_template is None,
            owner_of(m@.periods, 0, rep@.id) == owner_of(m@.periods, p as int, rep@.id),
        decreases m.periods.len() - p,
    {
        let period = &m.periods[p];
        let mut a: usize = 0;
        while a < period.adaptations.len()
            invariant
                a <= period.adaptations.len(),
                p < m.periods.len(),
                period@ == m@.periods[p as int],
                rep@.segment_template is None,
                owner_of(m@.periods, 0, rep@.id) == owner_of(m@.periods, p as int, rep@.id),
                owner_in_period(period@.adaptations, 0, rep@.id) == owner_in_period(
                    period@.adaptations,
                    a as int,
                    rep@.id,
                ),
            decreases period.adaptations.len() - a,
        {
            let adaptation = &period.adaptations[a];
            assert(adaptation@ == period@.adaptations[a as int]);
            if adaptation_holds_id(adaptation, &rep.id) {
                return match &adaptation.segment_template {
                    Some(t) => Some(t),
                    None => None,
                };
            }
            a = a + 1;
        }
        p = p + 1;
    }
    None
}

/// Lists the URLs of a segment list.
pub fn segment_list_urls(list: &SegmentList, base: &str) -> (r: Vec<String>)
    ensures
        texts(r@) == list_urls(list@.segment_urls, 0, base@),
{
    let mut out: Vec<String> = Vec::new();
    let mut i: usize = 0;
    assert(texts(out@) + list_urls(list@.segment_urls, 0, base@) =~= list_urls(
        list@.segment_urls,
        0,
        base@,
    ));
    while i < list.segment_urls.len()
        invariant
            i <= list.segment_urls.len(),
            texts(out@) + list_urls(list@.segment_urls, i as int, base@) == list_urls(
                list@.segment_urls,
                0,
                base@,
            ),
        decreases list.segment_urls.len() - i,
    {
        let ghost before = texts(out@);
        let ghost tail = list_urls(list@.segment_urls, i + 1, base@);
        assert(list@.segment_urls[i as int] == opt_text(list.segment_urls@[i as int]));
        if let Some(media) = &list.segment_urls[i] {
            let url = if url_is_absolute(media.as_str()) {
                media.clone()
            } else {
                join_with_slash(base, media.as_str())
            };
            let ghost u = url@;
            out.push(url);
            assert(texts(out@) =~= before.push(u));
            assert(before.push(u) + tail =~= before + (seq![u] + tail));
        }
        i = i + 1;
    }
    assert(texts(out@) + Seq::<Seq<char>>::empty() =~= texts(out@));
    out
}

/// Keeps of a list what a live manifest keeps of it.
pub fn keep_live_window(list: Vec<String>, live: bool) -> (r: Vec<String>)
    ensures
        texts(r@) == live_window(texts(list@), live),
{
    let n = list.len();
    if live && n > LIVE_WINDOW {
        let mut out: Vec<String> = Vec::new();
        let start = n - LIVE_WINDOW;
        let mut i: usize = start;
        while i < n
            invariant
                start <= i <= n,
                n == list@.len(),
                out@.len() == i - start,
                forall|j: int| 0 <= j < i - start ==> out@[j]@ == list@[start + j]@,
            decreases n - i,
        {
            out.push(list[i].clone());
            i = i + 1;
        }
        assert(texts(out@) =~= texts(list@).subrange(n - LIVE_WINDOW, n as int));
        out
    } else {
        list
    }
}

/// Lists the media URLs of a segment template.
pub fn template_segment_urls(
    template: &SegmentTemplate,
    id: &str,
    base: &str,
    secs: u64,
    live: bool,
) -> (r: Vec<String>)
    ensures
        texts(r@) == live_window(template_urls(template@, id@, base@, secs), live),
{
    let mut out: Vec<String> = Vec::new();
    let media = match &template.media {
        Some(media) => media,
        None => {
            assert(texts(out@) =~= Seq::<Seq<char>>::empty());
            return out;
        },
    };
    let duration = match template.duration {
        Some(d) => d,
        None => 1,
    };
    let timescale = match template.timescale {
        Some(s) => s,
        None => 1,
    };
    let timeline_times: Option<Vec<i128>> = match &template.timeline {
        Some(timeline) => Some(compute_segment_times(timeline.as_slice())),
        None => None,
    };
    let total: usize = match &timeline_times {
        Some(times) => times.len(),
        None => count_template_segments(secs, timescale, duration),
    };
    let ghost times = template_times(template@, secs);
    let ghost all = template_urls(template@, id@, base@, secs);
    assert(times.len() == total);
    let start: usize = if live && total > LIVE_WINDOW {
        total - LIVE_WINDOW
    } else {
        0
    };
    let mut i: usize = start;
    while i < total
        invariant
            start <= i <= total,
            total == times.len(),
            times == template_times(template@, secs),
            all == template_urls(template@, id@, base@, secs),
            template@.media == Some(media@),
            duration == template_duration(template@),
            match timeline_times {
                Some(v) => template@.timeline is Some && ints(v@) == times,
                None => template@.timeline is None,
            },
            out@.len() == i - start,
            forall|j: int| 0 <= j < i - start ==> out@[j]@ == all[start + j],
        decreases total - i,
    {
        let time: i128 = match &timeline_times {
            Some(v) => {
                assert(ints(v@)[i as int] == v@[i as int]);
                v[i]
            },
            None => time_of_index(i, duration),
        };
        assert(time == times[i as int]);
        let with_id = replace_all(media.as_str(), "$RepresentationID$", id);
        let time_text = decimal_of_i128(time);
        let expanded = replace_all(with_id.as_str(), "$Time$", time_text.as_str());
        let url = resolve_url(base, expanded.as_str());
        assert(url@ == all[i as int]);
        out.push(url);
        i = i + 1;
    }
    assert(texts(out@) =~= live_window(all, live));
    out
}

/// Lists the segments of a representation of a manifest: the URL of its
/// initialization segment and the URLs of its media segments, resolved
/// against its base URL. `manifest_url` is the URL that the manifest was
/// fetched from. Of a live manifest only the last `LIVE_WINDOW` media
/// segments are listed.
pub fn extract_segments(m: &Manifest, rep: &Representation, manifest_url: &str) -> (r: Result<
    TrackChoice,
    ExtractError,
>)
    ensures
        extraction_view(r) == extract_spec(m@, rep@, manifest_url@),
{
    if m.periods.len() == 0 {
        return Err(ExtractError::NoPeriod);
    }
    let period = &m.periods[0];
    assert(period@ == m@.periods[0]);
    let base = fold_base_url(
        fold_base_url(fold_base_url(String::from_str(manifest_url), &m.base_url), &period.base_url),
        &rep.base_url,
    );
    let live = match &m.mpd_type {
        Some(t) => same_text(t.as_str(), "dynamic"),
        None => false,
    };
    assert(live == is_live(m@));
    proof {
        reveal_strlit("");
        assert(""@ =~= Seq::<char>::empty());
    }
    let id: &str = match &rep.id {
        Some(i) => i.as_str(),
        None => "",
    };
    assert(id@ == id_text(rep@.id));
    let secs = match period.duration_secs {
        Some(d) => d,
        None => 60,
    };
    match find_template(m, rep) {
        Some(template) => {
            let init_url = match &template.initialization {
                Some(pattern) => {
                    let expanded = replace_all(pattern.as_str(), "$RepresentationID$", id);
                    Some(resolve_url(base.as_str(), expanded.as_str()))
                },
                None => None,
            };
            let segment_urls = template_segment_urls(template, id, base.as_str(), secs, live);
            Ok(TrackChoice { segment_urls, init_url })
        },
        None => match &rep.segment_list {
            Some(list) => {
                let urls = segment_list_urls(list, base.as_str());
                Ok(TrackChoice { segment_urls: keep_live_window(urls, live), init_url: None })
            },
            None => match &rep.base_url {
                Some(b) => {
                    let mut urls: Vec<String> = Vec::new();
                    urls.push(b.clone());
                    assert(texts(urls@) =~= seq![b@]);
                    Ok(TrackChoice { segment_urls: keep_live_window(urls, live), init_url: None })
                },
                None => Err(ExtractError::RepresentationUnsupported),
            },
        },
    }
}

} // verus!
