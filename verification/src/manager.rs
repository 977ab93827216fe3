//! The stream manager: which streams are configured, which of them are
//! active, when each was last asked for, and which are reclaimed as idle.
//!
//! The manager keeps the table and takes the decisions. The pipelines
//! themselves, their worker threads and their output directories are the
//! caller's: it starts a pipeline where an activation says so, and stops
//! the pipelines and removes the directories that a sweep names.

use vstd::prelude::*;
use crate::config::ChannelTOML;
use crate::pipeline::{StreamInfo, StreamInfoView};
use crate::text::{ends_with, has_suffix, same_text, texts};

verus! {

/// After how many seconds without a request a stream is reclaimed, unless
/// told otherwise.
pub const DEFAULT_IDLE_TIMEOUT_SECS: u64 = 120;

/// How many seconds lie between two sweeps of the evictor.
pub const SWEEP_INTERVAL_SECS: u64 = 15;

/// The content type under which a playlist is served.
pub fn playlist_content_type() -> (r: &'static str)
    ensures
        r@ == "application/vnd.apple.mpegurl"@,
{
    "application/vnd.apple.mpegurl"
}

/// The content type under which a segment is served.
pub fn segment_content_type() -> (r: &'static str)
    ensures
        r@ == "video/mp2t"@,
{
    "video/mp2t"
}

/// One row of the table of the manager.
pub struct StreamEntryView {
    pub info: StreamInfoView,
    pub active: bool,
    /// When a file of the stream was last asked for, on the caller's clock.
    pub last_access: Option<u64>,
}

/// The table of configured streams.
pub struct StreamManager {
    streams: Vec<StreamInfo>,
    active: Vec<bool>,
    last_access: Vec<Option<u64>>,
}

/// What an activation amounts to.
#[derive(Debug)]
pub enum Activation {
    /// No stream of that id is configured.
    NotFound,
    /// The stream has a pipeline already: none is to be made.
    AlreadyActive,
    /// The stream is now active: the caller makes its pipeline and starts
    /// its loop.
    Started(StreamInfo),
}

/// The view of `Activation`, over which contracts are stated.
pub enum ActivationView {
    NotFound,
    AlreadyActive,
    Started(StreamInfoView),
}

impl View for Activation {
    type V = ActivationView;

    open spec fn view(&self) -> ActivationView {
        match self {
            Activation::NotFound => ActivationView::NotFound,
            Activation::AlreadyActive => ActivationView::AlreadyActive,
            Activation::Started(info) => ActivationView::Started(info@),
        }
    }
}

/// The id and the name of a channel, as they are listed.
#[derive(Clone, Debug)]
pub struct ChannelInfo {
    pub id: String,
    pub name: String,
}

/// What is told of one stream.
#[derive(Clone, Debug)]
pub struct StreamDetails {
    pub id: String,
    pub name: String,
    pub active: bool,
    /// The path under which its playlist is served.
    pub url: String,
}

/// What is done with a request for a file of a stream.
#[derive(Debug)]
pub enum ServeDecision {
    /// The stream is not active: there is nothing to serve.
    NotActive,
    /// The playlist at `path` is served.
    Playlist { path: String },
    /// The segment at `path` is served.
    Segment { path: String },
    /// The file is of no kind that is served.
    InvalidFileType,
}

/// The view of `ServeDecision`, over which contracts are stated.
pub enum ServeDecisionView {
    NotActive,
    Playlist { path: Seq<char> },
    Segment { path: Seq<char> },
    InvalidFileType,
}

impl View for ServeDecision {
    type V = ServeDecisionView;

    open spec fn view(&self) -> ServeDecisionView {
        match self {
            ServeDecision::NotActive => ServeDecisionView::NotActive,
            ServeDecision::Playlist { path } => ServeDecisionView::Playlist { path: path@ },
            ServeDecision::Segment { path } => ServeDecisionView::Segment { path: path@ },
            ServeDecision::InvalidFileType => ServeDecisionView::InvalidFileType,
        }
    }
}

/// The first row at or behind `from` with the given id, or the number of
/// rows where there is none.
pub open spec fn position_from(v: Seq<StreamEntryView>, id: Seq<char>, from: int) -> int
    decreases v.len() - from,
{
    if from < 0 || from >= v.len() {
        v.len() as int
    } else if v[from].info.id == id {
        from
    } else {
        position_from(v, id, from + 1)
    }
}

/// The row of the stream with the given id, or the number of rows where
/// none is configured.
pub open spec fn position(v: Seq<StreamEntryView>, id: Seq<char>) -> int {
    position_from(v, id, 0)
}

/// Whether a stream of the given id is configured.
pub open spec fn is_configured(v: Seq<StreamEntryView>, id: Seq<char>) -> bool {
    position(v, id) < v.len()
}

/// Whether the stream of the given id is active.
pub open spec fn is_active(v: Seq<StreamEntryView>, id: Seq<char>) -> bool {
    is_configured(v, id) && v[position(v, id)].active
}

/// When the stream of the given id was last asked for.
pub open spec fn last_access_of(v: Seq<StreamEntryView>, id: Seq<char>) -> Option<u64> {
    if is_configured(v, id) {
        v[position(v, id)].last_access
    } else {
        None
    }
}

/// A table is well formed where no id stands in two rows and only active
/// streams have a time of last access.
pub open spec fn table_well_formed(v: Seq<StreamEntryView>) -> bool {
    &&& forall|i: int, j: int|
        0 <= i < j < v.len() ==> (#[trigger] v[i]).info.id != (#[trigger] v[j]).info.id
    &&& forall|i: int| 0 <= i < v.len() ==> !(#[trigger] v[i]).active ==> v[i].last_access is None
}

/// The row that a channel has when it is taken into the table: inactive,
/// and with nothing cached.
pub open spec fn row_of(c: ChannelTOML) -> StreamEntryView {
    StreamEntryView {
        info: StreamInfoView {
            id: c.id@,
            name: c.name@,
            url: c.url@,
            key: c.key@,
            video_init: None,
            audio_init: None,
        },
        active: false,
        last_access: None,
    }
}

/// What taking in a channel makes of the table: its row takes the place of
/// the row with its id, or goes to the end where there is none.
pub open spec fn add_channel_spec(v: Seq<StreamEntryView>, c: ChannelTOML) -> Seq<StreamEntryView> {
    if position(v, c.id@) < v.len() {
        v.update(position(v, c.id@), row_of(c))
    } else {
        v.push(row_of(c))
    }
}

/// The last of the first `n` channels with the given id.
pub open spec fn last_channel(channels: Seq<ChannelTOML>, id: Seq<char>, n: int) -> Option<
    ChannelTOML,
>
    decreases n,
{
    if n <= 0 || n > channels.len() {
        None
    } else if channels[n - 1].id@ == id {
        Some(channels[n - 1])
    } else {
        last_channel(channels, id, n - 1)
    }
}

/// The table holds the first `n` channels: a stream is configured where one
/// of them has its id, and its row is that of the last of them.
pub open spec fn holds_channels(v: Seq<StreamEntryView>, channels: Seq<ChannelTOML>, n: int) -> bool {
    forall|id: Seq<char>|
        match #[trigger] last_channel(channels, id, n) {
            Some(c) => is_configured(v, id) && v[position(v, id)] == row_of(c),
            None => !is_configured(v, id),
        }
}

/// What an activation makes of the table.
pub open spec fn activate_spec(v: Seq<StreamEntryView>, id: Seq<char>) -> (
    Seq<StreamEntryView>,
    ActivationView,
) {
    let p = position(v, id);
    if p >= v.len() {
        (v, ActivationView::NotFound)
    } else if v[p].active {
        (v, ActivationView::AlreadyActive)
    } else {
        (v.update(p, StreamEntryView { active: true, ..v[p] }), ActivationView::Started(v[p].info))
    }
}

/// What a request at time `now` makes of the table: the time of last access
/// of the stream is set if and only if it is active.
pub open spec fn touch_spec(v: Seq<StreamEntryView>, id: Seq<char>, now: u64) -> Seq<
    StreamEntryView,
> {
    if is_active(v, id) {
        v.update(position(v, id), StreamEntryView { last_access: Some(now), ..v[position(v, id)] })
    } else {
        v
    }
}

/// How long ago `last` was at time `now`; nothing where the clock has it
/// ahead.
pub open spec fn age(now: u64, last: u64) -> int {
    if now >= last {
        now - last
    } else {
        0
    }
}

/// A stream is idle where it was last asked for longer ago than `timeout`.
pub open spec fn is_idle(e: StreamEntryView, now: u64, timeout: u64) -> bool {
    e.last_access matches Some(last) && age(now, last) > timeout
}

/// A row after its stream was reclaimed.
pub open spec fn evicted(e: StreamEntryView) -> StreamEntryView {
    StreamEntryView { active: false, last_access: None, ..e }
}

/// The table after a sweep: every idle stream is reclaimed, the others are
/// as they were.
pub open spec fn sweep_spec(v: Seq<StreamEntryView>, now: u64, timeout: u64) -> Seq<
    StreamEntryView,
> {
    Seq::new(
        v.len(),
        |i: int|
            if is_idle(v[i], now, timeout) {
                evicted(v[i])
            } else {
                v[i]
            },
    )
}

/// The ids of the idle streams from row `from` on, in the order of the
/// table.
pub open spec fn idle_ids(v: Seq<StreamEntryView>, now: u64, timeout: u64, from: int) -> Seq<
    Seq<char>,
>
    decreases v.len() - from,
{
    if from < 0 || from >= v.len() {
        Seq::empty()
    } else if is_idle(v[from], now, timeout) {
        seq![v[from].info.id] + idle_ids(v, now, timeout, from + 1)
    } else {
        idle_ids(v, now, timeout, from + 1)
    }
}

/// The ids of the active streams from row `from` on, in the order of the
/// table.
pub open spec fn active_ids(v: Seq<StreamEntryView>, from: int) -> Seq<Seq<char>>
    decreases v.len() - from,
{
    if from < 0 || from >= v.len() {
        Seq::empty()
    } else if v[from].active {
        seq![v[from].info.id] + active_ids(v, from + 1)
    } else {
        active_ids(v, from + 1)
    }
}

/// The directory into which the HLS writer of a stream writes.
pub open spec fn output_dir_spec(id: Seq<char>) -> Seq<char> {
    "./streams/"@ + id
}

/// The path of a file of a stream.
pub open spec fn stream_file_spec(id: Seq<char>, file: Seq<char>) -> Seq<char> {
    "./streams/"@ + id + "/"@ + file
}

/// The path under which the playlist of a stream is served.
pub open spec fn playlist_url_spec(id: Seq<char>) -> Seq<char> {
    "/streams/"@ + id + "/master.m3u8"@
}

/// What is done with a request for `file` of the stream `id`, given whether
/// the stream is active.
pub open spec fn serve_spec(active: bool, id: Seq<char>, file: Seq<char>) -> ServeDecisionView {
    if !active {
        ServeDecisionView::NotActive
    } else if has_suffix(file, ".m3u8"@) {
        ServeDecisionView::Playlist { path: stream_file_spec(id, file) }
    } else if has_suffix(file, ".ts"@) || has_suffix(file, ".m4s"@) {
        ServeDecisionView::Segment { path: stream_file_spec(id, file) }
    } else {
        ServeDecisionView::InvalidFileType
    }
}

/// The row that `position_from` names holds the id, and no row that it
/// passes over does.
pub proof fn lemma_position_from(v: Seq<StreamEntryView>, id: Seq<char>, from: int)
    requires
        0 <= from,
    ensures
        from <= position_from(v, id, from) || position_from(v, id, from) == v.len(),
        position_from(v, id, from) <= v.len() || from > v.len(),
        position_from(v, id, from) < v.len() ==> v[position_from(v, id, from)].info.id == id,
        forall|k: int|
            from <= k < position_from(v, id, from) && k < v.len() ==> (#[trigger] v[k]).info.id
                != id,
    decreases v.len() - from,
{
    if from < v.len() && v[from].info.id != id {
        lemma_position_from(v, id, from + 1);
    }
}

/// A change of the flags of a table leaves every stream in its row.
pub proof fn lemma_position_ignores_flags(
    v: Seq<StreamEntryView>,
    w: Seq<StreamEntryView>,
    id: Seq<char>,
    from: int,
)
    requires
        v.len() == w.len(),
        forall|i: int| 0 <= i < v.len() ==> (#[trigger] v[i]).info.id == (#[trigger] w[i]).info.id,
    ensures
        position_from(v, id, from) == position_from(w, id, from),
    decreases v.len() - from,
{
    if 0 <= from < v.len() && v[from].info.id != id {
        lemma_position_ignores_flags(v, w, id, from + 1);
    }
}

/// To activate a stream twice makes no second pipeline: the second
/// activation starts nothing and leaves the table as the first left it.
pub proof fn lemma_activate_twice_starts_once(v: Seq<StreamEntryView>, id: Seq<char>)
    ensures
        !(activate_spec(activate_spec(v, id).0, id).1 is Started),
        activate_spec(activate_spec(v, id).0, id).0 == activate_spec(v, id).0,
{
    let w = activate_spec(v, id).0;
    lemma_position_from(v, id, 0);
    lemma_position_ignores_flags(v, w, id, 0);
}

/// After a sweep a stream that was idle is neither active nor has it a time
/// of last access; its id is among those that the sweep names; and a stream
/// that was not idle is as it was.
pub proof fn lemma_swept_stream_is_gone(
    v: Seq<StreamEntryView>,
    id: Seq<char>,
    now: u64,
    timeout: u64,
)
    requires
        is_configured(v, id),
    ensures
        is_idle(v[position(v, id)], now, timeout) ==> {
            &&& !is_active(sweep_spec(v, now, timeout), id)
            &&& last_access_of(sweep_spec(v, now, timeout), id) is None
            &&& idle_ids(v, now, timeout, 0).contains(id)
        },
        !is_idle(v[position(v, id)], now, timeout) ==> {
            &&& is_active(sweep_spec(v, now, timeout), id) == is_active(v, id)
            &&& last_access_of(sweep_spec(v, now, timeout), id) == last_access_of(v, id)
        },
{
    let w = sweep_spec(v, now, timeout);
    lemma_position_from(v, id, 0);
    lemma_position_ignores_flags(v, w, id, 0);
    if is_idle(v[position(v, id)], now, timeout) {
        lemma_idle_ids_hold(v, now, timeout, 0, position(v, id));
    }
}

proof fn lemma_idle_ids_hold(v: Seq<StreamEntryView>, now: u64, timeout: u64, from: int, p: int)
    requires
        0 <= from <= p < v.len(),
        is_idle(v[p], now, timeout),
    ensures
        idle_ids(v, now, timeout, from).contains(v[p].info.id),
    decreases p - from,
{
    let rest = idle_ids(v, now, timeout, from + 1);
    if from == p {
        assert((seq![v[p].info.id] + rest)[0] == v[p].info.id);
    } else {
        lemma_idle_ids_hold(v, now, timeout, from + 1, p);
        if is_idle(v[from], now, timeout) {
            let k = choose|k: int| 0 <= k < rest.len() && rest[k] == v[p].info.id;
            assert((seq![v[from].info.id] + rest)[k + 1] == v[p].info.id);
        }
    }
}

/// Every transition of the table keeps it well formed.
pub proof fn lemma_table_stays_well_formed(
    v: Seq<StreamEntryView>,
    id: Seq<char>,
    now: u64,
    timeout: u64,
)
    requires
        table_well_formed(v),
    ensures
        table_well_formed(activate_spec(v, id).0),
        table_well_formed(touch_spec(v, id, now)),
        table_well_formed(sweep_spec(v, now, timeout)),
{
    lemma_position_from(v, id, 0);
}

/// Where a new row goes to the end of a table, the streams that were there
/// keep their rows, and the new one is found at the end.
pub proof fn lemma_position_after_push(
    v: Seq<StreamEntryView>,
    row: StreamEntryView,
    id: Seq<char>,
    from: int,
)
    requires
        0 <= from <= v.len(),
    ensures
        position_from(v.push(row), id, from) == if position_from(v, id, from) < v.len() {
            position_from(v, id, from)
        } else if row.info.id == id {
            v.len() as int
        } else {
            (v.len() + 1) as int
        },
    decreases v.len() - from,
{
    let w = v.push(row);
    if from < v.len() {
        assert(w[from] == v[from]);
        if v[from].info.id != id {
            lemma_position_after_push(v, row, id, from + 1);
        }
    } else {
        assert(w[from] == row);
        assert(position_from(w, id, from + 1) == w.len());
    }
}

/// A table that holds the first `n` channels holds the first `n + 1` once
/// the next one is taken in.
pub proof fn lemma_add_channel_holds(
    v: Seq<StreamEntryView>,
    channels: Seq<ChannelTOML>,
    n: int,
)
    requires
        0 <= n < channels.len(),
        holds_channels(v, channels, n),
    ensures
        holds_channels(add_channel_spec(v, channels[n]), channels, n + 1),
{
    let c = channels[n];
    let w = add_channel_spec(v, c);
    let p = position(v, c.id@);
    lemma_position_from(v, c.id@, 0);
    assert forall|id: Seq<char>|
        match #[trigger] last_channel(channels, id, n + 1) {
            Some(c) => is_configured(w, id) && w[position(w, id)] == row_of(c),
            None => !is_configured(w, id),
        } by {
        lemma_position_from(v, id, 0);
        lemma_position_from(w, id, 0);
        let before = last_channel(channels, id, n);
        if p < v.len() {
            assert forall|i: int| 0 <= i < v.len() implies (#[trigger] v[i]).info.id == (
            #[trigger] w[i]).info.id by {}
            lemma_position_ignores_flags(v, w, id, 0);
        } else {
            lemma_position_after_push(v, row_of(c), id, 0);
        }
    }
}

fn clone_bytes(b: &Option<Vec<u8>>) -> (r: Option<Vec<u8>>)
    ensures
        crate::decrypt::opt_bytes(r) == crate::decrypt::opt_bytes(*b),
{
    match b {
        Some(v) => {
            let c = v.clone();
            assert(c@ =~= v@);
            Some(c)
        },
        None => None,
    }
}

/// Copies the description of a stream.
pub fn clone_stream_info(info: &StreamInfo) -> (r: StreamInfo)
    ensures
        r@ == info@,
{
    StreamInfo {
        id: info.id.clone(),
        name: info.name.clone(),
        url: info.url.clone(),
        key: info.key.clone(),
        video_init: clone_bytes(&info.video_init),
        audio_init: clone_bytes(&info.audio_init),
    }
}

/// The directory into which the HLS writer of a stream writes.
pub fn output_dir(id: &str) -> (r: String)
    ensures
        r@ == output_dir_spec(id@),
{
    String::from_str("./streams/").concat(id)
}

/// The path of a file of a stream.
pub fn stream_file_path(id: &str, file: &str) -> (r: String)
    ensures
        r@ == stream_file_spec(id@, file@),
{
    String::from_str("./streams/").concat(id).concat("/").concat(file)
}

/// The path under which the playlist of a stream is served.
pub fn playlist_url(id: &str) -> (r: String)
    ensures
        r@ == playlist_url_spec(id@),
{
    String::from_str("/streams/").concat(id).concat("/master.m3u8")
}

/// Decides what is done with a request for a file of a stream.
pub fn serve_decision(active: bool, id: &str, file: &str) -> (r: ServeDecision)
    ensures
        r@ == serve_spec(active, id@, file@),
{
    if !active {
        ServeDecision::NotActive
    } else if ends_with(file, ".m3u8") {
        ServeDecision::Playlist { path: stream_file_path(id, file) }
    } else if ends_with(file, ".ts") || ends_with(file, ".m4s") {
        ServeDecision::Segment { path: stream_file_path(id, file) }
    } else {
        ServeDecision::InvalidFileType
    }
}

impl View for StreamManager {
    type V = Seq<StreamEntryView>;

    closed spec fn view(&self) -> Seq<StreamEntryView> {
        Seq::new(
            self.streams@.len(),
            |i: int|
                StreamEntryView {
                    info: self.streams@[i]@,
                    active: self.active@[i],
                    last_access: self.last_access@[i],
                },
        )
    }
}

impl StreamManager {
    /// The three columns of the table are of one length.
    pub closed spec fn columns_agree(&self) -> bool {
        self.streams@.len() == self.active@.len() && self.streams@.len() == self.last_access@.len()
    }

    /// Whether the manager is well formed.
    pub open spec fn well_formed(&self) -> bool {
        self.columns_agree() && table_well_formed(self@)
    }

    /// Makes a manager without any stream.
    pub fn new() -> (m: StreamManager)
        ensures
            m.well_formed(),
            m@.len() == 0,
    {
        StreamManager { streams: Vec::new(), active: Vec::new(), last_access: Vec::new() }
    }

    /// Finds the row of a stream.
    fn find(&self, id: &str) -> (p: usize)
        requires
            self.columns_agree(),
        ensures
            p == position(self@, id@),
            p <= self@.len(),
            p <= self.streams@.len(),
            self@.len() == self.streams@.len(),
    {
        let mut p: usize = 0;
        while p < self.streams.len()
            invariant
                p <= self.streams@.len(),
                self@.len() == self.streams@.len(),
                position(self@, id@) == position_from(self@, id@, p as int),
            decreases self.streams.len() - p,
        {
            assert(self@[p as int].info.id == self.streams@[p as int].id@);
            if same_text(self.streams[p].id.as_str(), id) {
                return p;
            }
            p = p + 1;
        }
        p
    }

    /// Takes a channel into the table. A channel whose id is in the table
    /// already takes the place of the one that was there, which is then no
    /// longer active.
    pub fn add_channel(&mut self, channel: &ChannelTOML)
        requires
            old(self).well_formed(),
        ensures
            final(self).well_formed(),
            final(self)@ == add_channel_spec(old(self)@, *channel),
    {
        let info = StreamInfo {
            id: channel.id.clone(),
            name: channel.name.clone(),
            url: channel.url.clone(),
            key: channel.key.clone(),
            video_init: None,
            audio_init: None,
        };
        let p = self.find(channel.id.as_str());
        proof {
            lemma_position_from(self@, channel.id@, 0);
        }
        let ghost before = self@;
        if p < self.streams.len() {
            self.streams.set(p, info);
            self.active.set(p, false);
            self.last_access.set(p, None);
            assert(self@ =~= before.update(p as int, row_of(*channel)));
        } else {
            self.streams.push(info);
            self.active.push(false);
            self.last_access.push(None);
            assert(self@ =~= before.push(row_of(*channel)));
        }
    }

    /// Makes the manager of the configured channels. Of two channels with
    /// one id the later one holds. No stream is active.
    pub fn from_channels(channels: &Vec<ChannelTOML>) -> (m: StreamManager)
        ensures
            m.well_formed(),
            holds_channels(m@, channels@, channels@.len() as int),
    {
        let mut m = StreamManager::new();
        let mut i: usize = 0;
        while i < channels.len()
            invariant
                i <= channels.len(),
                m.well_formed(),
                holds_channels(m@, channels@, i as int),
            decreases channels.len() - i,
        {
            proof {
                lemma_add_channel_holds(m@, channels@, i as int);
            }
            m.add_channel(&channels[i]);
            i = i + 1;
        }
        m
    }

    /// How many streams are configured.
    pub fn len(&self) -> (n: usize)
        requires
            self.well_formed(),
        ensures
            n == self@.len(),
    {
        self.streams.len()
    }

    /// Whether the stream of the given id is active.
    pub fn is_active(&self, id: &str) -> (b: bool)
        requires
            self.well_formed(),
        ensures
            b == is_active(self@, id@),
    {
        let p = self.find(id);
        p < self.streams.len() && self.active[p]
    }

    /// When the stream of the given id was last asked for.
    pub fn last_access(&self, id: &str) -> (t: Option<u64>)
        requires
            self.well_formed(),
        ensures
            t == last_access_of(self@, id@),
    {
        let p = self.find(id);
        if p < self.streams.len() {
            self.last_access[p]
        } else {
            None
        }
    }

    /// Activates a stream. A stream that is active already is left as it
    /// is; for one that is not, the caller is handed what it needs to make
    /// the pipeline.
    pub fn activate(&mut self, id: &str) -> (r: Activation)
        requires
            old(self).well_formed(),
        ensures
            (final(self)@, r@) == activate_spec(old(self)@, id@),
            final(self).well_formed(),
    {
        let p = self.find(id);
        proof {
            lemma_position_from(self@, id@, 0);
        }
        if p >= self.streams.len() {
            Activation::NotFound
        } else if self.active[p] {
            Activation::AlreadyActive
        } else {
            let ghost before = self@;
            let info = clone_stream_info(&self.streams[p]);
            self.active.set(p, true);
            assert(self@ =~= before.update(
                p as int,
                StreamEntryView { active: true, ..before[p as int] },
            ));
            Activation::Started(info)
        }
    }

    /// Notes a request for a file of a stream at time `now`. The time of
    /// last access is set if and only if the stream is active, which is
    /// what is handed back.
    pub fn touch(&mut self, id: &str, now: u64) -> (active: bool)
        requires
            old(self).well_formed(),
        ensures
            active == is_active(old(self)@, id@),
            final(self)@ == touch_spec(old(self)@, id@, now),
            final(self).well_formed(),
    {
        let p = self.find(id);
        proof {
            lemma_position_from(self@, id@, 0);
        }
        if p < self.streams.len() && self.active[p] {
            let ghost before = self@;
            self.last_access.set(p, Some(now));
            assert(self@ =~= before.update(
                p as int,
                StreamEntryView { last_access: Some(now), ..before[p as int] },
            ));
            true
        } else {
            false
        }
    }

    /// Notes a request for `file` of a stream at time `now` and decides
    /// what is served.
    pub fn serve(&mut self, id: &str, file: &str, now: u64) -> (r: ServeDecision)
        requires
            old(self).well_formed(),
        ensures
            r@ == serve_spec(is_active(old(self)@, id@), id@, file@),
            final(self)@ == touch_spec(old(self)@, id@, now),
            final(self).well_formed(),
    {
        let active = self.touch(id, now);
        serve_decision(active, id, file)
    }

    /// Reclaims every stream that was last asked for longer ago than
    /// `timeout` at time `now`, and names them: the caller stops their
    /// pipelines and removes their output directories.
    pub fn sweep(&mut self, now: u64, timeout: u64) -> (ids: Vec<String>)
        requires
            old(self).well_formed(),
        ensures
            final(self)@ == sweep_spec(old(self)@, now, timeout),
            texts(ids@) == idle_ids(old(self)@, now, timeout, 0),
            final(self).well_formed(),
    {
        let mut ids: Vec<String> = Vec::new();
        let ghost before = self@;
        let n = self.streams.len();
        let mut i: usize = 0;
        assert(texts(ids@) + idle_ids(before, now, timeout, 0) =~= idle_ids(before, now, timeout, 0));
        while i < n
            invariant
                i <= n,
                n == before.len(),
                n == self.streams@.len(),
                self.columns_agree(),
                before == old(self)@,
                self@.len() == n,
                forall|k: int| 0 <= k < i ==> self@[k] == sweep_spec(before, now, timeout)[k],
                forall|k: int| i <= k < n ==> self@[k] == before[k],
                texts(ids@) + idle_ids(before, now, timeout, i as int) == idle_ids(
                    before,
                    now,
                    timeout,
                    0,
                ),
            decreases n - i,
        {
            let ghost row = self@[i as int];
            let ghost current = self@;
            let ghost listed = texts(ids@);
            let ghost tail = idle_ids(before, now, timeout, i + 1);
            let idle = match self.last_access[i] {
                Some(last) => now >= last && now - last > timeout,
                None => false,
            };
            assert(idle == is_idle(before[i as int], now, timeout));
            if idle {
                let id = self.streams[i].id.clone();
                ids.push(id);
                self.active.set(i, false);
                self.last_access.set(i, None);
                assert(self@ =~= current.update(i as int, evicted(row)));
                assert(texts(ids@) =~= listed.push(row.info.id));
                assert(listed.push(row.info.id) + tail =~= listed + (seq![row.info.id] + tail));
            }
            i = i + 1;
        }
        assert(self@ =~= sweep_spec(before, now, timeout));
        assert(texts(ids@) + Seq::<Seq<char>>::empty() =~= texts(ids@));
        ids
    }

    /// Lists the ids of the active streams, in the order of the table.
    pub fn list_active(&self) -> (ids: Vec<String>)
        requires
            self.well_formed(),
        ensures
            texts(ids@) == active_ids(self@, 0),
    {
        let mut ids: Vec<String> = Vec::new();
        let n = self.streams.len();
        let mut i: usize = 0;
        assert(texts(ids@) + active_ids(self@, 0) =~= active_ids(self@, 0));
        while i < n
            invariant
                i <= n,
                n == self.streams@.len(),
                self@.len() == n,
                self.columns_agree(),
                texts(ids@) + active_ids(self@, i as int) == active_ids(self@, 0),
            decreases n - i,
        {
            let ghost listed = texts(ids@);
            let ghost tail = active_ids(self@, i + 1);
            let ghost id_view = self@[i as int].info.id;
            assert(id_view == self.streams@[i as int].id@);
            if self.active[i] {
                ids.push(self.streams[i].id.clone());
                assert(texts(ids@) =~= listed.push(id_view));
                assert(listed.push(id_view) + tail =~= listed + (seq![id_view] + tail));
            }
            i = i + 1;
        }
        assert(texts(ids@) + Seq::<Seq<char>>::empty() =~= texts(ids@));
        ids
    }

    /// Lists the configured channels, in the order of the table.
    pub fn list_channels(&self) -> (channels: Vec<ChannelInfo>)
        requires
            self.well_formed(),
        ensures
            channels@.len() == self@.len(),
            forall|i: int|
                0 <= i < self@.len() ==> (#[trigger] channels@[i]).id@ == self@[i].info.id
                    && channels@[i].name@ == self@[i].info.name,
    {
        let mut channels: Vec<ChannelInfo> = Vec::new();
        let n = self.streams.len();
        let mut i: usize = 0;
        while i < n
            invariant
                i <= n,
                n == self.streams@.len(),
                self@.len() == n,
                channels@.len() == i,
                forall|k: int|
                    0 <= k < i ==> (#[trigger] channels@[k]).id@ == self@[k].info.id
                        && channels@[k].name@ == self@[k].info.name,
            decreases n - i,
        {
            assert(self@[i as int].info == self.streams@[i as int]@);
            channels.push(
                ChannelInfo { id: self.streams[i].id.clone(), name: self.streams[i].name.clone() },
            );
            i = i + 1;
        }
        channels
    }

    /// Tells of one stream: its id, its name, whether it is active, and
    /// where its playlist is served. Nothing is told of a stream that is
    /// not configured.
    pub fn details(&self, id: &str) -> (r: Option<StreamDetails>)
        requires
            self.well_formed(),
        ensures
            r is Some <==> is_configured(self@, id@),
            r matches Some(d) ==> {
                &&& d.id@ == id@
                &&& d.name@ == self@[position(self@, id@)].info.name
                &&& d.active == is_active(self@, id@)
                &&& d.url@ == playlist_url_spec(id@)
            },
    {
        let p = self.find(id);
        proof {
            lemma_position_from(self@, id@, 0);
        }
        if p < self.streams.len() {
            assert(self@[p as int].info == self.streams@[p as int]@);
            let info = &self.streams[p];
            Some(
                StreamDetails {
                    id: info.id.clone(),
                    name: info.name.clone(),
                    active: self.active[p],
                    url: playlist_url(info.id.as_str()),
                },
            )
        } else {
            None
        }
    }
}

} // verus!
