//! The pipeline of one stream, as a state machine.
//!
//! The caller runs the loop: it hands the converter an event, performs the
//! action that comes back and reports its outcome as the next event. The
//! converter decides what is fetched, which segment pairs are processed and
//! in which order, what is remembered as emitted, and when the loop sleeps
//! or ends.

use vstd::prelude::*;
use crate::decrypt::{
    decrypt_segment, decrypt_spec, opt_bytes, with_init, with_init_spec, DecryptStep,
};
use crate::hls::MediaKind;
use crate::manifest::{Manifest, ManifestView};
use crate::resolver::{normalize_url, url_parsed, ExtractError};
use crate::selector::{
    select_representations, select_spec, selection_view, RepresentationChoice,
    RepresentationChoiceView, SelectionPolicy,
};
use crate::text::{contains_text, same_texts, texts};

verus! {

/// How long the loop sleeps between two iterations, in seconds.
pub const LOOP_PAUSE_SECS: u64 = 1;

/// How much longer it sleeps after an iteration that failed, in seconds.
pub const ERROR_PAUSE_SECS: u64 = 1;

/// A channel and what is cached for it: the initialization segment of each
/// side, once it was fetched.
#[derive(Clone, Debug)]
pub struct StreamInfo {
    pub id: String,
    pub name: String,
    pub url: String,
    /// The content key in hex; empty for a channel that is not encrypted.
    pub key: String,
    pub video_init: Option<Vec<u8>>,
    pub audio_init: Option<Vec<u8>>,
}

/// The view of `StreamInfo`, over which contracts are stated.
pub struct StreamInfoView {
    pub id: Seq<char>,
    pub name: Seq<char>,
    pub url: Seq<char>,
    pub key: Seq<char>,
    pub video_init: Option<Seq<u8>>,
    pub audio_init: Option<Seq<u8>>,
}

impl View for StreamInfo {
    type V = StreamInfoView;

    open spec fn view(&self) -> StreamInfoView {
        StreamInfoView {
            id: self.id@,
            name: self.name@,
            url: self.url@,
            key: self.key@,
            video_init: opt_bytes(self.video_init),
            audio_init: opt_bytes(self.audio_init),
        }
    }
}

/// The cached initialization segment of one side of a stream.
pub open spec fn init_of(s: StreamInfoView, kind: MediaKind) -> Option<Seq<u8>> {
    match kind {
        MediaKind::Video => s.video_init,
        MediaKind::Audio => s.audio_init,
    }
}

/// Whether an HTTP status reports success.
pub open spec fn is_success(status: u16) -> bool {
    200 <= status < 300
}

impl StreamInfo {
    /// Readies a downloaded media segment for the muxer: it is put behind
    /// the cached initialization segment of its side and handed to the
    /// decryptor with the key of the stream.
    pub fn prepare_segment(&self, kind: MediaKind, media: Vec<u8>) -> (r: DecryptStep)
        ensures
            r@ == decrypt_spec(with_init_spec(init_of(self@, kind), media@), self@.key),
    {
        let combined = match kind {
            MediaKind::Video => with_init(&self.video_init, media),
            MediaKind::Audio => with_init(&self.audio_init, media),
        };
        decrypt_segment(combined, self.key.as_str())
    }
}

/// Where the loop of a pipeline stands, and so which event it waits for.
#[derive(Clone, Copy, Debug, PartialEq, Eq, Structural)]
pub enum Phase {
    /// At the top of the loop: waits to be woken.
    Ready,
    /// The manifest is being fetched.
    AwaitManifest,
    /// The initialization segment of the video is being fetched.
    AwaitVideoInit,
    /// The initialization segment of the audio is being fetched.
    AwaitAudioInit,
    /// The pair at `index` is being processed.
    AwaitPair { index: usize },
    /// The loop has ended.
    Stopped,
}

/// Why a segment pair could not be processed.
#[derive(Clone, Copy, Debug, PartialEq, Eq)]
pub enum PairError {
    /// A segment could not be downloaded: the origin answered with this
    /// status, or not at all.
    SegmentFetch { status: Option<u16> },
    /// A segment could not be decrypted.
    Decrypt,
    /// The muxer failed.
    Mux,
    /// The input of the HLS writer is closed.
    WriterBrokenPipe,
}

/// Takes the answer to the request for a segment: its body where the
/// status reports success, the failure of the pair otherwise.
pub fn check_segment_response(status: u16, body: Vec<u8>) -> (r: Result<Vec<u8>, PairError>)
    ensures
        is_success(status) ==> r == Ok::<Vec<u8>, PairError>(body),
        !is_success(status) ==> r == Err::<Vec<u8>, PairError>(
            PairError::SegmentFetch { status: Some(status) },
        ),
{
    if 200 <= status && status < 300 {
        Ok(body)
    } else {
        Err(PairError::SegmentFetch { status: Some(status) })
    }
}

/// What the caller reports to the converter.
#[derive(Debug)]
pub enum Event {
    /// The loop is at its top: it was started, or a sleep has ended.
    Wake,
    /// The manifest was fetched and parsed.
    ManifestLoaded(Manifest),
    /// The manifest could not be fetched or parsed.
    ManifestFailed,
    /// The fetch of an initialization segment ended: with its bytes, or with
    /// nothing where it failed.
    InitFetched(Option<Vec<u8>>),
    /// The pair was downloaded, decrypted, muxed and appended to the input
    /// of the HLS writer.
    PairWritten,
    /// The pair could not be processed.
    PairFailed(PairError),
}

/// The view of `Event`, over which contracts are stated.
pub enum EventView {
    Wake,
    ManifestLoaded(ManifestView),
    ManifestFailed,
    InitFetched(Option<Seq<u8>>),
    PairWritten,
    PairFailed(PairError),
}

impl View for Event {
    type V = EventView;

    open spec fn view(&self) -> EventView {
        match self {
            Event::Wake => EventView::Wake,
            Event::ManifestLoaded(m) => EventView::ManifestLoaded(m@),
            Event::ManifestFailed => EventView::ManifestFailed,
            Event::InitFetched(b) => EventView::InitFetched(opt_bytes(*b)),
            Event::PairWritten => EventView::PairWritten,
            Event::PairFailed(e) => EventView::PairFailed(*e),
        }
    }
}

/// What the converter asks the caller to do.
#[derive(Debug)]
pub enum Action {
    /// Fetch and parse the manifest; report `ManifestLoaded` or
    /// `ManifestFailed`.
    FetchManifest { url: String },
    /// Fetch an initialization segment; report `InitFetched`.
    FetchInit { kind: MediaKind, url: String },
    /// Download and decrypt both segments of the pair, mux them and append
    /// the result to the input of the HLS writer; report `PairWritten` or
    /// `PairFailed`.
    ProcessPair { index: usize, video_url: String, audio_url: String, sequence_number: u32 },
    /// Sleep; report `Wake`.
    Sleep { seconds: u64 },
    /// Terminate the HLS writer and leave the loop.
    Terminate,
}

/// The view of `Action`, over which contracts are stated.
pub enum ActionView {
    FetchManifest { url: Seq<char> },
    FetchInit { kind: MediaKind, url: Seq<char> },
    ProcessPair { index: usize, video_url: Seq<char>, audio_url: Seq<char>, sequence_number: u32 },
    Sleep { seconds: u64 },
    Terminate,
}

impl View for Action {
    type V = ActionView;

    open spec fn view(&self) -> ActionView {
        match self {
            Action::FetchManifest { url } => ActionView::FetchManifest { url: url@ },
            Action::FetchInit { kind, url } => ActionView::FetchInit { kind: *kind, url: url@ },
            Action::ProcessPair { index, video_url, audio_url, sequence_number } => {
                ActionView::ProcessPair {
                    index: *index,
                    video_url: video_url@,
                    audio_url: audio_url@,
                    sequence_number: *sequence_number,
                }
            },
            Action::Sleep { seconds } => ActionView::Sleep { seconds: *seconds },
            Action::Terminate => ActionView::Terminate,
        }
    }
}

/// The segment lists of the iteration that is under way.
pub struct Iteration {
    video_urls: Vec<String>,
    audio_urls: Vec<String>,
    video_init: Option<String>,
    audio_init: Option<String>,
}

/// The view of `Iteration`, over which contracts are stated.
pub struct IterationView {
    pub video_urls: Seq<Seq<char>>,
    pub audio_urls: Seq<Seq<char>>,
    pub video_init: Option<Seq<char>>,
    pub audio_init: Option<Seq<char>>,
}

impl View for Iteration {
    type V = IterationView;

    closed spec fn view(&self) -> IterationView {
        IterationView {
            video_urls: texts(self.video_urls@),
            audio_urls: texts(self.audio_urls@),
            video_init: crate::manifest::opt_text(self.video_init),
            audio_init: crate::manifest::opt_text(self.audio_init),
        }
    }
}

/// The state of the pipeline of one stream.
pub struct DashToHlsConverter {
    stream_info: StreamInfo,
    policy: SelectionPolicy,
    is_active: bool,
    sequence_number: u32,
    last_processed_segments: (Vec<String>, Vec<String>),
    phase: Phase,
    pending: Option<Iteration>,
}

/// The view of `DashToHlsConverter`, over which contracts are stated.
pub struct ConverterView {
    pub stream: StreamInfoView,
    pub policy: SelectionPolicy,
    pub is_active: bool,
    pub sequence_number: u32,
    /// The video URLs of the last iteration that ran to its end.
    pub last_video: Seq<Seq<char>>,
    /// The audio URLs of the last iteration that ran to its end.
    pub last_audio: Seq<Seq<char>>,
    pub phase: Phase,
    pub pending: Option<IterationView>,
}

impl View for DashToHlsConverter {
    type V = ConverterView;

    closed spec fn view(&self) -> ConverterView {
        ConverterView {
            stream: self.stream_info@,
            policy: self.policy,
            is_active: self.is_active,
            sequence_number: self.sequence_number,
            last_video: texts(self.last_processed_segments.0@),
            last_audio: texts(self.last_processed_segments.1@),
            phase: self.phase,
            pending: match self.pending {
                Some(it) => Some(it@),
                None => None,
            },
        }
    }
}

/// How many pairs an iteration has: as many as the shorter of its two lists
/// has entries.
pub open spec fn pair_count(it: IterationView) -> int {
    if it.video_urls.len() <= it.audio_urls.len() {
        it.video_urls.len() as int
    } else {
        it.audio_urls.len() as int
    }
}

/// A state is well formed where an iteration is pending in exactly the
/// phases that belong to one, and the pair that is awaited exists.
pub open spec fn well_formed(s: ConverterView) -> bool {
    match s.phase {
        Phase::Ready | Phase::AwaitManifest | Phase::Stopped => s.pending is None,
        Phase::AwaitVideoInit | Phase::AwaitAudioInit => s.pending is Some,
        Phase::AwaitPair { index } => s.pending is Some && index < pair_count(s.pending->0),
    }
}

/// The state in which a converter is made.
pub open spec fn initial_state(stream: StreamInfoView, policy: SelectionPolicy) -> ConverterView {
    ConverterView {
        stream,
        policy,
        is_active: false,
        sequence_number: 0,
        last_video: Seq::empty(),
        last_audio: Seq::empty(),
        phase: Phase::Ready,
        pending: None,
    }
}

/// A pair counts as emitted where its video URL stands in the video list of
/// the last finished iteration and its audio URL in the audio list.
pub open spec fn already_emitted(
    last_video: Seq<Seq<char>>,
    last_audio: Seq<Seq<char>>,
    video_url: Seq<char>,
    audio_url: Seq<char>,
) -> bool {
    last_video.contains(video_url) && last_audio.contains(audio_url)
}

/// The first pair at or behind `from` that does not count as emitted, or
/// the number of pairs where there is none.
pub open spec fn next_new(
    last_video: Seq<Seq<char>>,
    last_audio: Seq<Seq<char>>,
    it: IterationView,
    from: int,
) -> int
    decreases pair_count(it) - from,
{
    if from < 0 || from >= pair_count(it) {
        pair_count(it)
    } else if !already_emitted(last_video, last_audio, it.video_urls[from], it.audio_urls[from]) {
        from
    } else {
        next_new(last_video, last_audio, it, from + 1)
    }
}

/// The lists of an iteration, from what the selector found: an unresolved
/// side has no segments.
pub open spec fn iteration_of(c: RepresentationChoiceView) -> IterationView {
    IterationView {
        video_urls: match c.video {
            Some(t) => t.segment_urls,
            None => Seq::empty(),
        },
        audio_urls: match c.audio {
            Some(t) => t.segment_urls,
            None => Seq::empty(),
        },
        video_init: match c.video {
            Some(t) => t.init_url,
            None => None,
        },
        audio_init: match c.audio {
            Some(t) => t.init_url,
            None => None,
        },
    }
}

/// The sequence number after one more pair: it stops at its greatest value.
pub open spec fn bumped(n: u32) -> u32 {
    if n < u32::MAX {
        (n + 1) as u32
    } else {
        n
    }
}

/// An iteration fails: nothing of it is remembered, and the loop sleeps
/// longer before it starts again.
pub open spec fn fail(s: ConverterView) -> (ConverterView, ActionView) {
    (
        ConverterView { phase: Phase::Ready, pending: None, ..s },
        ActionView::Sleep { seconds: (LOOP_PAUSE_SECS + ERROR_PAUSE_SECS) as u64 },
    )
}

/// An iteration ends: its lists are remembered as emitted.
pub open spec fn complete(s: ConverterView, it: IterationView) -> (ConverterView, ActionView) {
    (
        ConverterView {
            phase: Phase::Ready,
            pending: None,
            last_video: it.video_urls,
            last_audio: it.audio_urls,
            ..s
        },
        ActionView::Sleep { seconds: LOOP_PAUSE_SECS },
    )
}

/// The iteration goes on with the pairs from `from` on: the next pair that
/// does not count as emitted is processed. It ends where there is none, or
/// where the pipeline is no longer active.
pub open spec fn advance_pairs(s: ConverterView, it: IterationView, from: int) -> (
    ConverterView,
    ActionView,
) {
    let j = next_new(s.last_video, s.last_audio, it, from);
    if !s.is_active || j >= pair_count(it) {
        complete(s, it)
    } else {
        (
            ConverterView { phase: Phase::AwaitPair { index: j as usize }, pending: Some(it), ..s },
            ActionView::ProcessPair {
                index: j as usize,
                video_url: it.video_urls[j],
                audio_url: it.audio_urls[j],
                sequence_number: s.sequence_number,
            },
        )
    }
}

/// The iteration turns to the initialization segment of the audio: where
/// the manifest names one, the cached one is dropped and it is fetched.
pub open spec fn start_audio_init(s: ConverterView, it: IterationView) -> (
    ConverterView,
    ActionView,
) {
    match it.audio_init {
        Some(url) => (
            ConverterView {
                phase: Phase::AwaitAudioInit,
                pending: Some(it),
                stream: StreamInfoView { audio_init: None, ..s.stream },
                ..s
            },
            ActionView::FetchInit { kind: MediaKind::Audio, url },
        ),
        None => advance_pairs(s, it, 0),
    }
}

/// The iteration turns to the initialization segment of the video.
pub open spec fn start_video_init(s: ConverterView, it: IterationView) -> (
    ConverterView,
    ActionView,
) {
    match it.video_init {
        Some(url) => (
            ConverterView {
                phase: Phase::AwaitVideoInit,
                pending: Some(it),
                stream: StreamInfoView { video_init: None, ..s.stream },
                ..s
            },
            ActionView::FetchInit { kind: MediaKind::Video, url },
        ),
        None => start_audio_init(s, it),
    }
}

/// What follows from a selection. A failed one fails the iteration. One
/// whose lists are those of the last finished iteration is no new work: the
/// loop sleeps. Any other starts an iteration.
pub open spec fn on_selection(
    s: ConverterView,
    selection: Result<RepresentationChoiceView, ExtractError>,
) -> (ConverterView, ActionView) {
    match selection {
        Err(_) => fail(s),
        Ok(c) => {
            let it = iteration_of(c);
            if it.video_urls == s.last_video && it.audio_urls == s.last_audio {
                (
                    ConverterView { phase: Phase::Ready, pending: None, ..s },
                    ActionView::Sleep { seconds: LOOP_PAUSE_SECS },
                )
            } else {
                start_video_init(s, it)
            }
        },
    }
}

/// What follows from a manifest: the selection on it, with the URL of the
/// stream as the URL of the manifest. A stream whose URL does not parse
/// fails the iteration.
pub open spec fn on_manifest(s: ConverterView, m: ManifestView) -> (ConverterView, ActionView) {
    match url_parsed(s.stream.url) {
        None => fail(s),
        Some(base) => on_selection(s, select_spec(m, base, s.policy)),
    }
}

/// What follows from a failed pair: the iteration fails, and a closed
/// writer input ends the activity of the pipeline.
pub open spec fn on_pair_failed(s: ConverterView, error: PairError) -> (ConverterView, ActionView) {
    fail(
        ConverterView {
            is_active: s.is_active && !(error is WriterBrokenPipe),
            ..s
        },
    )
}

/// The transition of the pipeline: the state and the action that follow
/// from a state and an event. An event that the phase does not wait for
/// fails the iteration.
pub open spec fn step_spec(s: ConverterView, e: EventView) -> (ConverterView, ActionView) {
    match s.phase {
        Phase::Stopped => (s, ActionView::Terminate),
        Phase::Ready => match e {
            EventView::Wake => if s.is_active {
                (
                    ConverterView { phase: Phase::AwaitManifest, ..s },
                    ActionView::FetchManifest { url: s.stream.url },
                )
            } else {
                (ConverterView { phase: Phase::Stopped, ..s }, ActionView::Terminate)
            },
            _ => fail(s),
        },
        Phase::AwaitManifest => match e {
            EventView::ManifestLoaded(m) => on_manifest(s, m),
            _ => fail(s),
        },
        Phase::AwaitVideoInit => match (e, s.pending) {
            (EventView::InitFetched(bytes), Some(it)) => start_audio_init(
                ConverterView { stream: StreamInfoView { video_init: bytes, ..s.stream }, ..s },
                it,
            ),
            _ => fail(s),
        },
        Phase::AwaitAudioInit => match (e, s.pending) {
            (EventView::InitFetched(bytes), Some(it)) => advance_pairs(
                ConverterView { stream: StreamInfoView { audio_init: bytes, ..s.stream }, ..s },
                it,
                0,
            ),
            _ => fail(s),
        },
        Phase::AwaitPair { index } => match (e, s.pending) {
            (EventView::PairWritten, Some(it)) => advance_pairs(
                ConverterView { sequence_number: bumped(s.sequence_number), ..s },
                it,
                index + 1,
            ),
            (EventView::PairFailed(error), _) => on_pair_failed(s, error),
            _ => fail(s),
        },
    }
}


/// The pair that `next_new` names lies at or behind `from`, does not count
/// as emitted, and every pair that it passes over does.
pub proof fn lemma_next_new(
    last_video: Seq<Seq<char>>,
    last_audio: Seq<Seq<char>>,
    it: IterationView,
    from: int,
)
    requires
        0 <= from,
    ensures
        from <= next_new(last_video, last_audio, it, from) || next_new(
            last_video,
            last_audio,
            it,
            from,
        ) == pair_count(it),
        next_new(last_video, last_audio, it, from) <= pair_count(it) || from > pair_count(it),
        next_new(last_video, last_audio, it, from) < pair_count(it) ==> !already_emitted(
            last_video,
            last_audio,
            it.video_urls[next_new(last_video, last_audio, it, from)],
            it.audio_urls[next_new(last_video, last_audio, it, from)],
        ),
        forall|k: int|
            from <= k < next_new(last_video, last_audio, it, from) && k < pair_count(it)
                ==> already_emitted(
                last_video,
                last_audio,
                #[trigger] it.video_urls[k],
                it.audio_urls[k],
            ),
    decreases pair_count(it) - from,
{
    if from < pair_count(it) && already_emitted(
        last_video,
        last_audio,
        it.video_urls[from],
        it.audio_urls[from],
    ) {
        lemma_next_new(last_video, last_audio, it, from + 1);
    }
}

/// What holds of the pair that an iteration turns to: it is a pair of the
/// iteration at or behind `from`, it does not count as emitted, and the
/// lists of emitted URLs and the sequence number are as they were.
pub proof fn lemma_advance_pairs(s: ConverterView, it: IterationView, from: int)
    requires
        0 <= from,
    ensures
        ({
            let (t, a) = advance_pairs(s, it, from);
            &&& t.sequence_number == s.sequence_number
            &&& t.is_active == s.is_active
            &&& a matches ActionView::ProcessPair { index, video_url, audio_url, sequence_number }
                ==> {
                let j = next_new(s.last_video, s.last_audio, it, from);
                &&& s.is_active
                &&& from <= j < pair_count(it)
                &&& index == j as usize
                &&& video_url == it.video_urls[j]
                &&& audio_url == it.audio_urls[j]
                &&& sequence_number == s.sequence_number
                &&& !already_emitted(s.last_video, s.last_audio, video_url, audio_url)
                &&& t.last_video == s.last_video
                &&& t.last_audio == s.last_audio
                &&& t.pending == Some(it)
            }
        }),
{
    lemma_next_new(s.last_video, s.last_audio, it, from);
}

/// The pairs of an iteration from `from` on that do not count as emitted,
/// in the order of its lists.
pub open spec fn new_pairs(
    last_video: Seq<Seq<char>>,
    last_audio: Seq<Seq<char>>,
    it: IterationView,
    from: int,
) -> Seq<(Seq<char>, Seq<char>)>
    decreases pair_count(it) - from,
{
    if from < 0 || from >= pair_count(it) {
        Seq::empty()
    } else if !already_emitted(last_video, last_audio, it.video_urls[from], it.audio_urls[from]) {
        seq![(it.video_urls[from], it.audio_urls[from])] + new_pairs(
            last_video,
            last_audio,
            it,
            from + 1,
        )
    } else {
        new_pairs(last_video, last_audio, it, from + 1)
    }
}

/// What is written from a state and the action that it handed out, when
/// every pair that is asked for is written: the pairs in turn, and the
/// state in which no further pair is asked for. At most `budget` pairs are
/// followed.
pub open spec fn written_in_turn(s: ConverterView, a: ActionView, budget: nat) -> (
    ConverterView,
    Seq<(Seq<char>, Seq<char>)>,
)
    decreases budget,
{
    match a {
        ActionView::ProcessPair { video_url, audio_url, .. } => if budget == 0 {
            (s, Seq::empty())
        } else {
            let (t, b) = step_spec(s, EventView::PairWritten);
            let (u, rest) = written_in_turn(t, b, (budget - 1) as nat);
            (u, seq![(video_url, audio_url)] + rest)
        },
        _ => (s, Seq::empty()),
    }
}

/// Pairs that count as emitted add nothing to the new pairs.
pub proof fn lemma_new_pairs_skip(
    last_video: Seq<Seq<char>>,
    last_audio: Seq<Seq<char>>,
    it: IterationView,
    from: int,
    to: int,
)
    requires
        0 <= from <= to <= pair_count(it),
        forall|k: int|
            from <= k < to ==> already_emitted(
                last_video,
                last_audio,
                #[trigger] it.video_urls[k],
                it.audio_urls[k],
            ),
    ensures
        new_pairs(last_video, last_audio, it, from) == new_pairs(last_video, last_audio, it, to),
    decreases to - from,
{
    if from < to {
        assert(already_emitted(last_video, last_audio, it.video_urls[from], it.audio_urls[from]));
        lemma_new_pairs_skip(last_video, last_audio, it, from + 1, to);
    }
}

/// An iteration in which every pair is written writes exactly the pairs
/// that do not count as emitted, each once and in the order of its lists;
/// when it ends, its lists are what counts as emitted, and the loop is back
/// at its top.
pub proof fn lemma_iteration_writes_each_new_pair_once(
    s: ConverterView,
    it: IterationView,
    from: int,
    budget: nat,
)
    requires
        s.is_active,
        0 <= from <= pair_count(it) <= usize::MAX,
        budget >= pair_count(it) - from,
    ensures
        ({
            let (t, a) = advance_pairs(s, it, from);
            let (u, pairs) = written_in_turn(t, a, budget);
            &&& pairs == new_pairs(s.last_video, s.last_audio, it, from)
            &&& u.last_video == it.video_urls
            &&& u.last_audio == it.audio_urls
            &&& u.phase == Phase::Ready
            &&& u.pending is None
            &&& u.is_active
            &&& u.sequence_number >= s.sequence_number
        }),
    decreases pair_count(it) - from,
{
    let j = next_new(s.last_video, s.last_audio, it, from);
    lemma_next_new(s.last_video, s.last_audio, it, from);
    let (t, a) = advance_pairs(s, it, from);
    if j >= pair_count(it) {
        lemma_new_pairs_skip(s.last_video, s.last_audio, it, from, pair_count(it));
    } else {
        lemma_new_pairs_skip(s.last_video, s.last_audio, it, from, j);
        let next = ConverterView { sequence_number: bumped(t.sequence_number), ..t };
        assert(step_spec(t, EventView::PairWritten) == advance_pairs(next, it, j + 1));
        lemma_iteration_writes_each_new_pair_once(next, it, j + 1, (budget - 1) as nat);
    }
}

/// The transition keeps a well-formed state well formed.
pub proof fn lemma_step_keeps_well_formed(s: ConverterView, e: EventView)
    requires
        well_formed(s),
    ensures
        well_formed(step_spec(s, e).0),
{
    lemma_selection_keeps_well_formed(s);
    match (s.phase, s.pending) {
        (Phase::AwaitVideoInit, Some(it)) => {
            if let EventView::InitFetched(bytes) = e {
                let t = ConverterView {
                    stream: StreamInfoView { video_init: bytes, ..s.stream },
                    ..s
                };
                lemma_next_new(t.last_video, t.last_audio, it, 0);
            }
        },
        (Phase::AwaitAudioInit, Some(it)) => {
            lemma_next_new(s.last_video, s.last_audio, it, 0);
        },
        (Phase::AwaitPair { index }, Some(it)) => {
            lemma_next_new(s.last_video, s.last_audio, it, index + 1);
        },
        _ => {},
    }
}

proof fn lemma_selection_keeps_well_formed(s: ConverterView)
    ensures
        forall|sel: Result<RepresentationChoiceView, ExtractError>| #[trigger]
            well_formed(on_selection(s, sel).0),
{
    assert forall|sel: Result<RepresentationChoiceView, ExtractError>| #[trigger]
        well_formed(on_selection(s, sel).0) by {
        if let Ok(c) = sel {
            let it = iteration_of(c);
            lemma_next_new(s.last_video, s.last_audio, it, 0);
        }
    }
}

/// The sequence number never goes down.
pub proof fn lemma_sequence_number_never_decreases(s: ConverterView, e: EventView)
    ensures
        step_spec(s, e).0.sequence_number >= s.sequence_number,
{
}

/// A pipeline that is not active stays so, and is never asked to fetch a
/// manifest or to process a pair; woken at the top of its loop, it ends.
pub proof fn lemma_inactive_pipeline_writes_nothing(s: ConverterView, e: EventView)
    requires
        !s.is_active,
    ensures
        !step_spec(s, e).0.is_active,
        !(step_spec(s, e).1 is ProcessPair),
        !(step_spec(s, e).1 is FetchManifest),
        s.phase == Phase::Ready && e == EventView::Wake ==> step_spec(s, e).1
            == ActionView::Terminate,
{
}

/// A selection whose lists are those of the last finished iteration is no
/// new work: nothing is fetched or processed, and nothing of what the
/// pipeline remembers changes.
pub proof fn lemma_identical_manifest_is_noop(s: ConverterView, c: RepresentationChoiceView)
    requires
        iteration_of(c).video_urls == s.last_video,
        iteration_of(c).audio_urls == s.last_audio,
    ensures
        on_selection(s, Ok(c)) == (
            ConverterView { phase: Phase::Ready, pending: None, ..s },
            ActionView::Sleep { seconds: LOOP_PAUSE_SECS },
        ),
{
}

/// Whatever the event, a pair that the pipeline is asked to process does
/// not count as emitted: its video URL is not in the video list of the last
/// finished iteration, or its audio URL is not in the audio list.
pub proof fn lemma_processed_pair_is_new(s: ConverterView, e: EventView)
    requires
        well_formed(s),
    ensures
        step_spec(s, e).1 matches ActionView::ProcessPair { video_url, audio_url, .. }
            ==> !already_emitted(
            step_spec(s, e).0.last_video,
            step_spec(s, e).0.last_audio,
            video_url,
            audio_url,
        ),
{
    match s.phase {
        Phase::AwaitManifest => {
            if let EventView::ManifestLoaded(m) = e {
                if let Some(base) = url_parsed(s.stream.url) {
                    if let Ok(c) = select_spec(m, base, s.policy) {
                        lemma_advance_pairs(s, iteration_of(c), 0);
                    }
                }
            }
        },
        Phase::AwaitVideoInit => {
            if let (EventView::InitFetched(bytes), Some(it)) = (e, s.pending) {
                let t = ConverterView {
                    stream: StreamInfoView { video_init: bytes, ..s.stream },
                    ..s
                };
                lemma_advance_pairs(t, it, 0);
            }
        },
        Phase::AwaitAudioInit => {
            if let (EventView::InitFetched(bytes), Some(it)) = (e, s.pending) {
                let t = ConverterView {
                    stream: StreamInfoView { audio_init: bytes, ..s.stream },
                    ..s
                };
                lemma_advance_pairs(t, it, 0);
            }
        },
        Phase::AwaitPair { index } => {
            if let (EventView::PairWritten, Some(it)) = (e, s.pending) {
                let t = ConverterView { sequence_number: bumped(s.sequence_number), ..s };
                lemma_advance_pairs(t, it, index + 1);
            }
        },
        _ => {},
    }
}

/// No pair is emitted in two iterations that follow each other: once an
/// iteration has run to its end, a pair of it that shows up again in the
/// next manifest is passed over.
pub proof fn lemma_no_pair_emitted_twice(
    finished: IterationView,
    next: IterationView,
    i: int,
    from: int,
)
    requires
        0 <= i < pair_count(finished),
        0 <= from,
    ensures
        ({
            let j = next_new(finished.video_urls, finished.audio_urls, next, from);
            j < pair_count(next) ==> !(next.video_urls[j] == finished.video_urls[i]
                && next.audio_urls[j] == finished.audio_urls[i])
        }),
{
    lemma_next_new(finished.video_urls, finished.audio_urls, next, from);
    assert(finished.video_urls.contains(finished.video_urls[i]));
    assert(finished.audio_urls.contains(finished.audio_urls[i]));
}

/// A failed pair leaves what the pipeline remembers as emitted untouched,
/// so that the next iteration takes the pair up again; the sequence number
/// stays, and the loop is back at its top.
pub proof fn lemma_failure_keeps_emitted_lists(s: ConverterView, error: PairError)
    ensures
        on_pair_failed(s, error).0.last_video == s.last_video,
        on_pair_failed(s, error).0.last_audio == s.last_audio,
        on_pair_failed(s, error).0.sequence_number == s.sequence_number,
        on_pair_failed(s, error).0.phase == Phase::Ready,
        on_pair_failed(s, error).0.pending is None,
        on_pair_failed(s, error).1 is Sleep,
{
}

/// Within one iteration the pairs are processed in ascending order: the
/// pair that follows a written one lies behind it.
pub proof fn lemma_pairs_ascend(s: ConverterView, index: usize)
    requires
        well_formed(s),
        s.phase == (Phase::AwaitPair { index }),
        pair_count(s.pending->0) <= usize::MAX,
    ensures
        step_spec(s, EventView::PairWritten).1 matches ActionView::ProcessPair { index: next, .. }
            ==> index < next,
{
    let t = ConverterView { sequence_number: bumped(s.sequence_number), ..s };
    lemma_advance_pairs(t, s.pending->0, index + 1);
}

impl DashToHlsConverter {
    /// Whether the state is well formed.
    pub open spec fn well_formed(&self) -> bool {
        well_formed(self@)
    }

    /// Makes the converter of a stream, with the default selection policy.
    /// It is inactive until it is started.
    pub fn new(stream_info: StreamInfo) -> (c: DashToHlsConverter)
        ensures
            c@ == initial_state(stream_info@, SelectionPolicy { video_index: 6, audio_index: 9 }),
            c.well_formed(),
    {
        DashToHlsConverter::with_policy(stream_info, SelectionPolicy::default())
    }

    /// Makes the converter of a stream with a selection policy of its own.
    pub fn with_policy(stream_info: StreamInfo, policy: SelectionPolicy) -> (c: DashToHlsConverter)
        ensures
            c@ == initial_state(stream_info@, policy),
            c.well_formed(),
    {
        let c = DashToHlsConverter {
            stream_info,
            policy,
            is_active: false,
            sequence_number: 0,
            last_processed_segments: (Vec::new(), Vec::new()),
            phase: Phase::Ready,
            pending: None,
        };
        assert(texts(c.last_processed_segments.0@) =~= Seq::<Seq<char>>::empty());
        assert(texts(c.last_processed_segments.1@) =~= Seq::<Seq<char>>::empty());
        c
    }

    /// Marks the pipeline as active. Nothing changes where it is active
    /// already.
    pub fn start(&mut self)
        ensures
            final(self)@ == (ConverterView { is_active: true, ..old(self)@ }),
    {
        self.is_active = true;
    }

    /// Marks the pipeline as inactive: its loop ends when it is next at its
    /// top, and no pair is processed from here on.
    pub fn stop(&mut self)
        ensures
            final(self)@ == (ConverterView { is_active: false, ..old(self)@ }),
    {
        self.is_active = false;
    }

    /// Whether the pipeline is active.
    pub fn is_active(&self) -> (b: bool)
        ensures
            b == self@.is_active,
    {
        self.is_active
    }

    /// The number of pairs that were written so far.
    pub fn sequence_number(&self) -> (n: u32)
        ensures
            n == self@.sequence_number,
    {
        self.sequence_number
    }

    /// Where the loop stands.
    pub fn phase(&self) -> (p: Phase)
        ensures
            p == self@.phase,
    {
        self.phase
    }

    /// The stream of the pipeline, with its cached initialization segments.
    pub fn stream_info(&self) -> (s: &StreamInfo)
        ensures
            s@ == self@.stream,
    {
        &self.stream_info
    }

    /// The video URLs of the last iteration that ran to its end.
    pub fn last_video_urls(&self) -> (r: &Vec<String>)
        ensures
            texts(r@) == self@.last_video,
    {
        &self.last_processed_segments.0
    }

    /// The audio URLs of the last iteration that ran to its end.
    pub fn last_audio_urls(&self) -> (r: &Vec<String>)
        ensures
            texts(r@) == self@.last_audio,
    {
        &self.last_processed_segments.1
    }

    fn fail(&mut self) -> (action: Action)
        ensures
            (final(self)@, action@) == fail(old(self)@),
            final(self).well_formed(),
    {
        self.phase = Phase::Ready;
        self.pending = None;
        Action::Sleep { seconds: LOOP_PAUSE_SECS + ERROR_PAUSE_SECS }
    }

    fn complete(&mut self, it: Iteration) -> (action: Action)
        ensures
            (final(self)@, action@) == complete(old(self)@, it@),
            final(self).well_formed(),
    {
        self.phase = Phase::Ready;
        self.pending = None;
        self.last_processed_segments = (it.video_urls, it.audio_urls);
        Action::Sleep { seconds: LOOP_PAUSE_SECS }
    }

    fn advance_pairs(&mut self, it: Iteration, from: usize) -> (action: Action)
        ensures
            (final(self)@, action@) == advance_pairs(old(self)@, it@, from as int),
            final(self).well_formed(),
    {
        let n = if it.video_urls.len() <= it.audio_urls.len() {
            it.video_urls.len()
        } else {
            it.audio_urls.len()
        };
        let mut j: usize = from;
        let mut found = false;
        while j < n && !found
            invariant
                n == pair_count(it@),
                n <= it.video_urls@.len(),
                n <= it.audio_urls@.len(),
                *self == *old(self),
                next_new(self@.last_video, self@.last_audio, it@, from as int) == next_new(
                    self@.last_video,
                    self@.last_audio,
                    it@,
                    j as int,
                ),
                found ==> j < n && !already_emitted(
                    self@.last_video,
                    self@.last_audio,
                    it@.video_urls[j as int],
                    it@.audio_urls[j as int],
                ),
            decreases n - j, (if found { 0int } else { 1int }),
        {
            assert(it@.video_urls[j as int] == it.video_urls@[j as int]@);
            assert(it@.audio_urls[j as int] == it.audio_urls@[j as int]@);
            if contains_text(&self.last_processed_segments.0, it.video_urls[j].as_str())
                && contains_text(&self.last_processed_segments.1, it.audio_urls[j].as_str()) {
                j = j + 1;
            } else {
                found = true;
            }
        }
        assert(next_new(self@.last_video, self@.last_audio, it@, from as int) == if j < n {
            j as int
        } else {
            pair_count(it@)
        });
        if !self.is_active || j >= n {
            self.complete(it)
        } else {
            assert(it@.video_urls[j as int] == it.video_urls@[j as int]@);
            assert(it@.audio_urls[j as int] == it.audio_urls@[j as int]@);
            let action = Action::ProcessPair {
                index: j,
                video_url: it.video_urls[j].clone(),
                audio_url: it.audio_urls[j].clone(),
                sequence_number: self.sequence_number,
            };
            self.phase = Phase::AwaitPair { index: j };
            self.pending = Some(it);
            action
        }
    }

    fn start_audio_init(&mut self, it: Iteration) -> (action: Action)
        ensures
            (final(self)@, action@) == start_audio_init(old(self)@, it@),
            final(self).well_formed(),
    {
        match &it.audio_init {
            Some(url) => {
                let action = Action::FetchInit { kind: MediaKind::Audio, url: url.clone() };
                self.stream_info.audio_init = None;
                self.phase = Phase::AwaitAudioInit;
                self.pending = Some(it);
                action
            },
            None => self.advance_pairs(it, 0),
        }
    }

    fn start_video_init(&mut self, it: Iteration) -> (action: Action)
        ensures
            (final(self)@, action@) == start_video_init(old(self)@, it@),
            final(self).well_formed(),
    {
        match &it.video_init {
            Some(url) => {
                let action = Action::FetchInit { kind: MediaKind::Video, url: url.clone() };
                self.stream_info.video_init = None;
                self.phase = Phase::AwaitVideoInit;
                self.pending = Some(it);
                action
            },
            None => self.start_audio_init(it),
        }
    }

    /// Takes the outcome of a selection on the manifest that was loaded and
    /// decides what the iteration does with it.
    pub fn apply_selection(&mut self, selection: Result<RepresentationChoice, ExtractError>) -> (action:
        Action)
        requires
            old(self).well_formed(),
        ensures
            (final(self)@, action@) == on_selection(old(self)@, selection_view(selection)),
            final(self).well_formed(),
    {
        match selection {
            Err(_) => self.fail(),
            Ok(choice) => {
                let (video_urls, video_init) = match choice.video {
                    Some(t) => (t.segment_urls, t.init_url),
                    None => (Vec::new(), None),
                };
                let (audio_urls, audio_init) = match choice.audio {
                    Some(t) => (t.segment_urls, t.init_url),
                    None => (Vec::new(), None),
                };
                let it = Iteration { video_urls, audio_urls, video_init, audio_init };
                assert(it@ =~= iteration_of(choice@)) by {
                    assert(it@.video_urls =~= iteration_of(choice@).video_urls);
                    assert(it@.audio_urls =~= iteration_of(choice@).audio_urls);
                }
                if same_texts(&it.video_urls, &self.last_processed_segments.0) && same_texts(
                    &it.audio_urls,
                    &self.last_processed_segments.1,
                ) {
                    self.phase = Phase::Ready;
                    self.pending = None;
                    Action::Sleep { seconds: LOOP_PAUSE_SECS }
                } else {
                    self.start_video_init(it)
                }
            },
        }
    }

    /// Takes an event and decides what the caller does next.
    pub fn step(&mut self, event: Event) -> (action: Action)
        requires
            old(self).well_formed(),
        ensures
            (final(self)@, action@) == step_spec(old(self)@, event@),
            final(self).well_formed(),
    {
        match self.phase {
            Phase::Stopped => Action::Terminate,
            Phase::Ready => match event {
                Event::Wake => {
                    if self.is_active {
                        self.phase = Phase::AwaitManifest;
                        Action::FetchManifest { url: self.stream_info.url.clone() }
                    } else {
                        self.phase = Phase::Stopped;
                        Action::Terminate
                    }
                },
                _ => self.fail(),
            },
            Phase::AwaitManifest => match event {
                Event::ManifestLoaded(m) => {
                    match normalize_url(self.stream_info.url.as_str()) {
                        None => self.fail(),
                        Some(base) => {
                            let selection = select_representations(&m, base.as_str(), self.policy);
                            self.apply_selection(selection)
                        },
                    }
                },
                _ => self.fail(),
            },
            Phase::AwaitVideoInit => {
                let pending = self.pending.take();
                match (event, pending) {
                    (Event::InitFetched(bytes), Some(it)) => {
                        self.stream_info.video_init = bytes;
                        self.start_audio_init(it)
                    },
                    _ => self.fail(),
                }
            },
            Phase::AwaitAudioInit => {
                let pending = self.pending.take();
                match (event, pending) {
                    (Event::InitFetched(bytes), Some(it)) => {
                        self.stream_info.audio_init = bytes;
                        self.advance_pairs(it, 0)
                    },
                    _ => self.fail(),
                }
            },
            Phase::AwaitPair { index } => {
                let pending = self.pending.take();
                match (event, pending) {
                    (Event::PairWritten, Some(it)) => {
                        let limit = it.video_urls.len();
                        assert(index < pair_count(it@) <= limit);
                        if self.sequence_number < u32::MAX {
                            self.sequence_number = self.sequence_number + 1;
                        }
                        self.advance_pairs(it, index + 1)
                    },
                    (Event::PairFailed(error), _) => {
                        match error {
                            PairError::WriterBrokenPipe => {
                                self.is_active = false;
                            },
                            _ => {},
                        }
                        self.fail()
                    },
                    _ => self.fail(),
                }
            },
        }
    }
}

} // verus!
