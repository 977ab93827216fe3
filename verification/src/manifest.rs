//! The parts of a DASH manifest that the gateway reads, as plain values.
//!
//! A manifest is a tree of periods, adaptation sets and representations. Each
//! type here has a view in which text is a sequence of characters and a list
//! is a sequence, and the rules of selection and resolution are stated over
//! those views.

use vstd::prelude::*;

verus! {

/// The view of an optional string.
pub open spec fn opt_text(o: Option<String>) -> Option<Seq<char>> {
    match o {
        Some(s) => Some(s@),
        None => None,
    }
}

/// One `S` element of a segment timeline: an optional explicit start `t`, a
/// duration `d` and an optional repeat count `r`.
#[derive(Clone, Copy, Debug, PartialEq, Eq)]
pub struct TimelineEntry {
    pub t: Option<i64>,
    pub d: i64,
    pub r: Option<i64>,
}

/// A segment template: URL patterns with placeholders, and what is needed to
/// list the times of its segments.
#[derive(Clone, Debug)]
pub struct SegmentTemplate {
    pub initialization: Option<String>,
    pub media: Option<String>,
    /// The declared segment duration, in whole units of the timescale.
    pub duration: Option<i64>,
    pub timescale: Option<u64>,
    pub timeline: Option<Vec<TimelineEntry>>,
}

/// The view of `SegmentTemplate`, over which contracts are stated.
pub struct SegmentTemplateView {
    pub initialization: Option<Seq<char>>,
    pub media: Option<Seq<char>>,
    pub duration: Option<i64>,
    pub timescale: Option<u64>,
    pub timeline: Option<Seq<TimelineEntry>>,
}

impl View for SegmentTemplate {
    type V = SegmentTemplateView;

    open spec fn view(&self) -> SegmentTemplateView {
        SegmentTemplateView {
            initialization: opt_text(self.initialization),
            media: opt_text(self.media),
            duration: self.duration,
            timescale: self.timescale,
            timeline: match self.timeline {
                Some(t) => Some(t@),
                None => None,
            },
        }
    }
}

/// The view of an optional segment template.
pub open spec fn opt_template(o: Option<SegmentTemplate>) -> Option<SegmentTemplateView> {
    match o {
        Some(t) => Some(t@),
        None => None,
    }
}

/// A segment list: the media URL of each of its entries, where it has one.
#[derive(Clone, Debug)]
pub struct SegmentList {
    pub segment_urls: Vec<Option<String>>,
}

/// The view of `SegmentList`, over which contracts are stated.
pub struct SegmentListView {
    pub segment_urls: Seq<Option<Seq<char>>>,
}

impl View for SegmentList {
    type V = SegmentListView;

    open spec fn view(&self) -> SegmentListView {
        SegmentListView {
            segment_urls: Seq::new(
                self.segment_urls@.len(),
                |i: int| opt_text(self.segment_urls@[i]),
            ),
        }
    }
}

/// One encoding of a stream.
#[derive(Clone, Debug)]
pub struct Representation {
    pub id: Option<String>,
    pub bandwidth: Option<u64>,
    /// The first base URL that the representation declares.
    pub base_url: Option<String>,
    pub segment_template: Option<SegmentTemplate>,
    pub segment_list: Option<SegmentList>,
}

/// The view of `Representation`, over which contracts are stated.
pub struct RepresentationView {
    pub id: Option<Seq<char>>,
    pub bandwidth: Option<u64>,
    pub base_url: Option<Seq<char>>,
    pub segment_template: Option<SegmentTemplateView>,
    pub segment_list: Option<SegmentListView>,
}

impl View for Representation {
    type V = RepresentationView;

    open spec fn view(&self) -> RepresentationView {
        RepresentationView {
            id: opt_text(self.id),
            bandwidth: self.bandwidth,
            base_url: opt_text(self.base_url),
            segment_template: opt_template(self.segment_template),
            segment_list: match self.segment_list {
                Some(l) => Some(l@),
                None => None,
            },
        }
    }
}

/// A group of representations of one content type.
#[derive(Clone, Debug)]
pub struct AdaptationSet {
    pub mime_type: Option<String>,
    pub content_type: Option<String>,
    pub segment_template: Option<SegmentTemplate>,
    pub representations: Vec<Representation>,
}

/// The view of `AdaptationSet`, over which contracts are stated.
pub struct AdaptationSetView {
    pub mime_type: Option<Seq<char>>,
    pub content_type: Option<Seq<char>>,
    pub segment_template: Option<SegmentTemplateView>,
    pub representations: Seq<RepresentationView>,
}

impl View for AdaptationSet {
    type V = AdaptationSetView;

    open spec fn view(&self) -> AdaptationSetView {
        AdaptationSetView {
            mime_type: opt_text(self.mime_type),
            content_type: opt_text(self.content_type),
            segment_template: opt_template(self.segment_template),
            representations: Seq::new(
                self.representations@.len(),
                |i: int| self.representations@[i]@,
            ),
        }
    }
}

/// A period of the presentation.
#[derive(Clone, Debug)]
pub struct Period {
    /// The first base URL that the period declares.
    pub base_url: Option<String>,
    /// The declared duration of the period, in whole seconds.
    pub duration_secs: Option<u64>,
    pub adaptations: Vec<AdaptationSet>,
}

/// The view of `Period`, over which contracts are stated.
pub struct PeriodView {
    pub base_url: Option<Seq<char>>,
    pub duration_secs: Option<u64>,
    pub adaptations: Seq<AdaptationSetView>,
}

impl View for Period {
    type V = PeriodView;

    open spec fn view(&self) -> PeriodView {
        PeriodView {
            base_url: opt_text(self.base_url),
            duration_secs: self.duration_secs,
            adaptations: Seq::new(self.adaptations@.len(), |i: int| self.adaptations@[i]@),
        }
    }
}

/// A parsed manifest.
#[derive(Clone, Debug)]
pub struct Manifest {
    /// The `type` attribute: `dynamic` for a live presentation.
    pub mpd_type: Option<String>,
    /// The first base URL that the manifest declares.
    pub base_url: Option<String>,
    pub periods: Vec<Period>,
}

/// The view of `Manifest`, over which contracts are stated.
pub struct ManifestView {
    pub mpd_type: Option<Seq<char>>,
    pub base_url: Option<Seq<char>>,
    pub periods: Seq<PeriodView>,
}

impl View for Manifest {
    type V = ManifestView;

    open spec fn view(&self) -> ManifestView {
        ManifestView {
            mpd_type: opt_text(self.mpd_type),
            base_url: opt_text(self.base_url),
            periods: Seq::new(self.periods@.len(), |i: int| self.periods@[i]@),
        }
    }
}

/// The characters of `dynamic`, the type of a live manifest.
pub open spec fn dynamic_text() -> Seq<char> {
    "dynamic"@
}

/// Whether the manifest describes a live presentation.
pub open spec fn is_live(m: ManifestView) -> bool {
    m.mpd_type == Some(dynamic_text())
}

} // verus!
