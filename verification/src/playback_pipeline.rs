use vstd::prelude::*;

use crate::duration::Duration;
use crate::media_info::{MediaInfo, Stream, StreamType, Tag, TocEntry};
use crate::timestamp::Timestamp;

verus! {

/// The element name the engine reports errors of the hardware video
/// sink under; such errors signal broken accelerated rendering.
pub fn gl_sink_name() -> (r: String)
    ensures
        r@ == "sink"@,
{
    String::from_str("sink")
}

/// A message of the engine's bus, reduced to the values the controller
/// reads from it.
#[derive(Debug)]
pub enum BusMessage {
    /// A fatal engine error: the reporting element's name, and its text.
    Error { source: String, text: String },
    /// A structured element notice: the structure's name and, for a
    /// missing-plugin notice, the plugin's name.
    Element { structure: String, plugin: String },
    /// The engine announced the streams found in the container.
    StreamCollection { streams: Vec<Stream> },
    /// The engine settled which streams it plays.
    StreamsSelected,
    /// The first stream came up.
    StreamStart,
    /// A tag list, with its scope.
    Tag { global: bool, tags: Vec<Tag> },
    /// A table of contents, with its scope.
    Toc { global: bool, entries: Vec<TocEntry> },
    /// An asynchronous engine operation finished.
    AsyncDone,
    /// End of stream.
    Eos,
    /// An element changed state; the controller only cares whether the
    /// source is the top-level graph.
    StateChanged { source_is_pipeline: bool },
}

/// A pass-through notification for the caller.
#[derive(Debug)]
pub enum MediaMessage {
    Eos,
    Error(String),
}

/// The first `n` names laid out for display: one per line, each
/// behind a dash.
pub open spec fn missing_plugins_display(names: Seq<Seq<char>>, n: int) -> Seq<char>
    decreases n,
{
    if n <= 0 {
        Seq::<char>::empty()
    } else {
        let line = seq!['-', ' '] + names[n - 1];
        if n == 1 {
            line
        } else {
            missing_plugins_display(names, n - 1) + seq!['\n'] + line
        }
    }
}

/// The deduplicated names of plugins the engine reported missing.
#[derive(Debug)]
pub struct MissingPlugins(Vec<String>);

impl MissingPlugins {
    /// The recorded names, in first-seen order.
    pub closed spec fn view(&self) -> Seq<Seq<char>> {
        self.0@.map_values(|s: String| s@)
    }

    pub open spec fn spec_contains(&self, name: Seq<char>) -> bool {
        exists|i: int| 0 <= i < self@.len() && self@[i] == name
    }

    pub open spec fn wf(&self) -> bool {
        forall|i: int, j: int| 0 <= i < j < self@.len() ==> self@[i] != self@[j]
    }

    pub fn new() -> (r: Self)
        ensures
            r@.len() == 0,
            r.wf(),
    {
        MissingPlugins(Vec::new())
    }

    pub fn is_empty(&self) -> (r: bool)
        ensures
            r == (self@.len() == 0),
    {
        self.0.is_empty()
    }

    pub fn len(&self) -> (r: usize)
        ensures
            r == self@.len(),
    {
        self.0.len()
    }

    pub fn contains(&self, name: &String) -> (r: bool)
        ensures
            r == self.spec_contains(name@),
    {
        let n = self.0.len();
        for i in 0..n
            invariant
                n == self.0@.len(),
                self@.len() == self.0@.len(),
                forall|j: int| 0 <= j < i ==> self@[j] != name@,
                forall|j: int| 0 <= j < self.0@.len() ==> self@[j] == self.0@[j]@,
        {
            if self.0[i].eq(name) {
                proof {
                    assert(self@[i as int] == self.0@[i as int]@);
                }
                return true;
            }
        }
        false
    }

    /// Records a name, once: a name already present is not repeated.
    pub fn insert(&mut self, plugin: String)
        requires
            old(self).wf(),
        ensures
            final(self).wf(),
            final(self)@ == if old(self).spec_contains(plugin@) {
                old(self)@
            } else {
                old(self)@.push(plugin@)
            },
    {
        if !self.contains(&plugin) {
            self.0.push(plugin);
            proof {
                assert(self@ =~= old(self)@.push(self.0@[self.0@.len() - 1]@));
            }
        }
    }

    /// The recorded names as one block of text, one name per line,
    /// each behind a dash.
    pub fn to_display_string(&self) -> (r: String)
        ensures
            r@ == missing_plugins_display(self@, self@.len() as int),
    {
        let mut out = String::new();
        let n = self.0.len();
        proof {
            assert(self@.len() == self.0@.len());
        }
        for i in 0..n
            invariant
                n == self.0@.len(),
                self@.len() == self.0@.len(),
                forall|j: int| 0 <= j < self.0@.len() ==> self@[j] == self.0@[j]@,
                out@ == missing_plugins_display(self@, i as int),
        {
            if i > 0 {
                out.append("\n");
            }
            out.append("- ");
            out.append(self.0[i].as_str());
            proof {
                reveal_strlit("\n");
                reveal_strlit("- ");
                assert(out@ =~= missing_plugins_display(self@, i + 1));
            }
        }
        out
    }

    /// The recorded names, for display.
    pub fn names(&self) -> (r: &Vec<String>)
        ensures
            r@.len() == self@.len(),
            forall|i: int| 0 <= i < r@.len() ==> (#[trigger] r@[i])@ == self@[i],
    {
        &self.0
    }
}

/// Why opening a media file failed.
#[derive(Debug)]
pub enum OpenError {
    /// The hardware video sink cannot operate.
    GLSinkError,
    /// Any other engine error, with its text.
    Generic(String),
    /// Plugins needed by the container are not installed.
    MissingPlugins(MissingPlugins),
    /// The engine refused the state change that starts the handshake.
    StateChange,
}

/// An error message was found while purging the internal channel: the
/// graph is broken and the pending operation must fail.
#[derive(Debug)]
pub struct PurgeError;

/// The engine failed to reach the requested state.
#[derive(Debug)]
pub struct StateChangeError;

/// Why a seek failed.
#[derive(Debug)]
pub enum SeekError {
    /// The target lies at or past the end of the media: the caller
    /// treats the seek as an immediate end of stream.
    Eos,
    /// The graph is broken.
    Unrecoverable,
}

/// Why a stream selection failed.
#[derive(Debug)]
pub enum SelectStreamsError {
    /// An id absent from the stream inventory.
    UnknownId(String),
    /// The graph is broken.
    Unrecoverable,
}

/// The accuracy requested of a seek; the engine always flushes.
#[derive(Clone, Copy, Debug, PartialEq, Eq, Structural)]
pub enum SeekFlags {
    Accurate,
    KeyUnit,
}

/// Where the opening handshake stands; only this state disambiguates
/// the engine's otherwise ambiguous notifications.
#[derive(Clone, Copy, Debug, PartialEq, Eq, Structural)]
pub enum PipelineState {
    /// Nothing heard from the engine yet.
    NotStarted,
    /// The first stream came up.
    StreamsStarted,
    /// The engine settled its stream selection.
    StreamsSelected,
    /// The handshake is complete; the graph is safe to control.
    Initialized,
}

/// What one handshake message did to the open attempt.
#[derive(Debug)]
pub enum OpenStatus {
    /// Keep reading the bus.
    InProgress,
    /// The handshake is complete: query the duration from the engine
    /// and finish with `complete_open`.
    Ready,
    /// The open attempt failed.
    Failed(OpenError),
}

/// How far an awaited operation has come with one forwarded message.
#[derive(Clone, Copy, Debug, PartialEq, Eq, Structural)]
pub enum OperationProgress {
    Completed,
    Failed,
    Pending,
}

/// An error message anywhere in the queue.
pub open spec fn queue_has_error(msgs: Seq<BusMessage>) -> bool {
    exists|i: int| 0 <= i < msgs.len() && msgs[i] is Error
}

/// Index of the first error message in the queue, or -1 for none.
pub open spec fn first_error(msgs: Seq<BusMessage>) -> int
    decreases msgs.len(),
{
    if msgs.len() == 0 {
        -1
    } else if msgs[0] is Error {
        0
    } else {
        let rest = first_error(msgs.drop_first());
        if rest < 0 {
            -1
        } else {
            rest + 1
        }
    }
}

proof fn lemma_first_error_bounds(msgs: Seq<BusMessage>)
    ensures
        first_error(msgs) >= 0 ==> first_error(msgs) < msgs.len() && msgs[first_error(
            msgs,
        )] is Error && (forall|j: int| 0 <= j < first_error(msgs) ==> !(msgs[j] is Error)),
        first_error(msgs) < 0 ==> !queue_has_error(msgs),
    decreases msgs.len(),
{
    if msgs.len() == 0 {
    } else if msgs[0] is Error {
    } else {
        lemma_first_error_bounds(msgs.drop_first());
        if first_error(msgs) < 0 {
            if queue_has_error(msgs) {
                let i = choose|i: int| 0 <= i < msgs.len() && msgs[i] is Error;
                assert(msgs.drop_first()[i - 1] is Error);
            }
        } else {
            let fe = first_error(msgs);
            assert(msgs[fe] == msgs.drop_first()[fe - 1]);
            assert forall|j: int| 0 <= j < fe implies !(msgs[j] is Error) by {
                if j > 0 {
                    assert(msgs[j] == msgs.drop_first()[j - 1]);
                }
            }
        }
    }
}

/// A prefix free of errors shifts the first error by its length.
proof fn lemma_first_error_skip(msgs: Seq<BusMessage>, p: int)
    requires
        0 <= p <= msgs.len(),
        forall|j: int| 0 <= j < p ==> !(msgs[j] is Error),
    ensures
        first_error(msgs) == if first_error(msgs.skip(p)) < 0 {
            -1int
        } else {
            first_error(msgs.skip(p)) + p
        },
    decreases p,
{
    if p == 0 {
        assert(msgs.skip(0) =~= msgs);
    } else {
        assert(msgs.len() > 0 && !(msgs[0] is Error));
        lemma_first_error_skip(msgs.drop_first(), p - 1);
        assert(msgs.drop_first().skip(p - 1) =~= msgs.skip(p));
    }
}

/// What a seek request resolves to, as a function of the internal
/// channel's content, the known duration, and the target: an error
/// among the stale messages is unrecoverable, a target at or past the
/// duration is an immediate end-of-stream, anything else proceeds to
/// await its completion.
pub open spec fn seek_start_result(queue: Seq<BusMessage>, duration: u64, target: u64) -> Result<
    (),
    SeekError,
> {
    if first_error(queue) >= 0 {
        Result::Err(SeekError::Unrecoverable)
    } else if target >= duration {
        Result::Err(SeekError::Eos)
    } else {
        Result::Ok(())
    }
}

/// Purging is idempotent and invisible to the next operation: a
/// channel holding no error purges clean, exactly as the empty channel
/// a previous purge leaves behind does, so the next operation resolves
/// the same either way.
pub proof fn lemma_purge_preserves_next_outcome(
    queue: Seq<BusMessage>,
    duration: u64,
    target: u64,
)
    requires
        !queue_has_error(queue),
    ensures
        first_error(queue) < 0,
        first_error(Seq::<BusMessage>::empty()) < 0,
        seek_start_result(queue, duration, target) == seek_start_result(
            Seq::<BusMessage>::empty(),
            duration,
            target,
        ),
{
    lemma_first_error_bounds(queue);
}

/// A seek to the known duration, or to any point past it, resolves as
/// an end-of-stream at once: nothing is awaited on the bus.
pub proof fn lemma_seek_at_or_past_end_is_eos(queue: Seq<BusMessage>, duration: u64, target: u64)
    requires
        !queue_has_error(queue),
        target >= duration,
    ensures
        seek_start_result(queue, duration, target) == Result::<(), SeekError>::Err(SeekError::Eos),
{
    lemma_first_error_bounds(queue);
}

/// Which conversion chain a dynamically created demultiplexer pad of
/// the given kind needs linked in: audio always gets convert and
/// resample into the audio sink; video gets convert and scale into the
/// video sink only when one was supplied; anything else is left alone.
#[derive(Clone, Copy, Debug, PartialEq, Eq, Structural)]
pub enum ElementKind {
    AudioConvert,
    AudioResample,
    AudioPlaybackSink,
    VideoConvert,
    VideoScale,
    VideoSink,
}

pub fn pad_conversion_chain(kind: StreamType, has_video_sink: bool) -> (r: Vec<ElementKind>)
    ensures
        r@ == match kind {
            StreamType::Audio => seq![
                ElementKind::AudioConvert,
                ElementKind::AudioResample,
                ElementKind::AudioPlaybackSink,
            ],
            StreamType::Video => if has_video_sink {
                seq![ElementKind::VideoConvert, ElementKind::VideoScale, ElementKind::VideoSink]
            } else {
                Seq::<ElementKind>::empty()
            },
            StreamType::Text => Seq::<ElementKind>::empty(),
        },
{
    let mut chain: Vec<ElementKind> = Vec::new();
    match kind {
        StreamType::Audio => {
            chain.push(ElementKind::AudioConvert);
            chain.push(ElementKind::AudioResample);
            chain.push(ElementKind::AudioPlaybackSink);
            proof {
                assert(chain@ =~= seq![
                    ElementKind::AudioConvert,
                    ElementKind::AudioResample,
                    ElementKind::AudioPlaybackSink,
                ]);
            }
        },
        StreamType::Video => {
            if has_video_sink {
                chain.push(ElementKind::VideoConvert);
                chain.push(ElementKind::VideoScale);
                chain.push(ElementKind::VideoSink);
                proof {
                    assert(chain@ =~= seq![
                        ElementKind::VideoConvert,
                        ElementKind::VideoScale,
                        ElementKind::VideoSink,
                    ]);
                }
            } else {
                proof {
                    assert(chain@ =~= Seq::<ElementKind>::empty());
                }
            }
        },
        StreamType::Text => {
            proof {
                assert(chain@ =~= Seq::<ElementKind>::empty());
            }
        },
    }
    chain
}

/// Whether `prefix` opens `s`.
fn str_has_prefix(s: &String, prefix: &str) -> (r: bool)
    ensures
        r == prefix@.is_prefix_of(s@),
{
    let s_len = s.as_str().unicode_len();
    let p_len = prefix.unicode_len();
    if s_len < p_len {
        return false;
    }
    for i in 0..p_len
        invariant
            p_len == prefix@.len(),
            s_len == s@.len(),
            p_len <= s_len,
            forall|j: int| 0 <= j < i ==> s@[j] == prefix@[j],
    {
        if s.as_str().get_char(i) != prefix.get_char(i) {
            return false;
        }
    }
    proof {
        assert(prefix@.is_prefix_of(s@)) by {
            assert(prefix@ =~= s@.subrange(0, prefix@.len() as int));
        }
    }
    true
}

/// The stream kind a dynamically created demultiplexer pad carries,
/// read off the pad's name.
pub fn pad_stream_kind(pad_name: &String) -> (r: Option<StreamType>)
    ensures
        r == if "audio_"@.is_prefix_of(pad_name@) {
            Option::Some(StreamType::Audio)
        } else if "video_"@.is_prefix_of(pad_name@) {
            Option::Some(StreamType::Video)
        } else {
            Option::<StreamType>::None
        },
{
    if str_has_prefix(pad_name, "audio_") {
        Option::Some(StreamType::Audio)
    } else if str_has_prefix(pad_name, "video_") {
        Option::Some(StreamType::Video)
    } else {
        Option::None
    }
}


/// `content` after the stream kinds of the first `n` reported streams
/// have been folded in.
pub open spec fn content_after_streams(
    content: crate::media_info::MediaContent,
    streams: Seq<Stream>,
    n: int,
) -> crate::media_info::MediaContent
    decreases n,
{
    if n <= 0 {
        content
    } else {
        crate::media_info::content_with_stream_type(
            content_after_streams(content, streams, n - 1),
            streams[n - 1].type_,
        )
    }
}

/// A kind's current selection after the first `n` reported streams:
/// the first stream of that kind claims an empty selection.
pub open spec fn cur_id_after_streams(
    cur: Option<Seq<char>>,
    streams: Seq<Stream>,
    kind: StreamType,
    n: int,
) -> Option<Seq<char>>
    decreases n,
{
    if n <= 0 {
        cur
    } else {
        let prev = cur_id_after_streams(cur, streams, kind, n - 1);
        if prev is Some {
            prev
        } else if streams[n - 1].type_ == kind {
            Option::Some(streams[n - 1].id@)
        } else {
            Option::None
        }
    }
}

/// The collection a stream of the given kind is recorded in.
pub open spec fn kind_collection(
    streams: crate::media_info::Streams,
    kind: StreamType,
) -> crate::media_info::StreamCollection {
    match kind {
        StreamType::Audio => streams.audio,
        StreamType::Video => streams.video,
        StreamType::Text => streams.text,
    }
}

/// The playback pipeline controller, as far as it decides anything:
/// the media record it fills during the opening handshake, the missing
/// plugins seen so far, the handshake state, and the internal control
/// channel that pending operations await their completion on.
#[derive(Debug)]
pub struct PlaybackPipeline {
    pub info: MediaInfo,
    pub missing_plugins: MissingPlugins,
    pub state: PipelineState,
    pub int_msgs: Vec<BusMessage>,
}

impl PlaybackPipeline {
    pub open spec fn wf(&self) -> bool {
        &&& self.info.wf()
        &&& self.missing_plugins.wf()
    }

    /// A fresh controller for the file at `path`, about to run the
    /// opening handshake.
    pub fn new(name: String, file_name: String, path: String) -> (r: Self)
        ensures
            r.wf(),
            r.info.name@ == name@,
            r.info.file_name@ == file_name@,
            r.info.path@ == path@,
            r.info.duration@ == 0,
            r.info.toc is None,
            r.info.tags@.len() == 0,
            r.info.content == crate::media_info::MediaContent::Undefined,
            r.info.streams.audio.collection@.len() == 0,
            r.info.streams.video.collection@.len() == 0,
            r.info.streams.text.collection@.len() == 0,
            r.missing_plugins@.len() == 0,
            r.state == PipelineState::NotStarted,
            r.int_msgs@.len() == 0,
    {
        PlaybackPipeline {
            info: MediaInfo::new(name, file_name, path),
            missing_plugins: MissingPlugins::new(),
            state: PipelineState::NotStarted,
            int_msgs: Vec::new(),
        }
    }

    /// Classifies one bus message of the opening handshake, as the open
    /// bus watch does: errors end the attempt (a sink error as a GL-sink
    /// failure, any other with recorded missing plugins taking
    /// precedence over its text), missing-plugin notices accumulate,
    /// discovery messages fill the media record, and an AsyncDone once
    /// streams are selected completes the handshake.
    #[verifier::rlimit(50)]
    pub fn handle_open_message(&mut self, msg: BusMessage) -> (r: OpenStatus)
        requires
            old(self).wf(),
            old(self).state != PipelineState::Initialized,
        ensures
            final(self).wf(),
            final(self).state != PipelineState::Initialized,
            final(self).int_msgs == old(self).int_msgs,
            match msg {
                BusMessage::Error { source, text } => {
                    &&& final(self).info == old(self).info
                    &&& final(self).state == old(self).state
                    &&& r matches OpenStatus::Failed(e) && (if source@ == "sink"@ {
                        e is GLSinkError && final(self).missing_plugins == old(self).missing_plugins
                    } else if old(self).missing_plugins@.len() > 0 {
                        e matches OpenError::MissingPlugins(m) && m@ == old(self).missing_plugins@
                            && final(self).missing_plugins@.len() == 0
                    } else {
                        e matches OpenError::Generic(t) && t@ == text@ && final(self).missing_plugins == old(self).missing_plugins
                    })
                },
                BusMessage::Element { structure, plugin } => {
                    &&& r is InProgress
                    &&& final(self).info == old(self).info
                    &&& final(self).state == old(self).state
                    &&& final(self).missing_plugins@ == if structure@ == "missing-plugin"@
                        && !old(self).missing_plugins.spec_contains(plugin@) {
                        old(self).missing_plugins@.push(plugin@)
                    } else {
                        old(self).missing_plugins@
                    }
                },
                BusMessage::StreamCollection { streams } => {
                    &&& r is InProgress
                    &&& final(self).state == old(self).state
                    &&& final(self).missing_plugins == old(self).missing_plugins
                    &&& final(self).info.name == old(self).info.name
                    &&& final(self).info.file_name == old(self).info.file_name
                    &&& final(self).info.path == old(self).info.path
                    &&& final(self).info.tags == old(self).info.tags
                    &&& final(self).info.toc == old(self).info.toc
                    &&& final(self).info.duration == old(self).info.duration
                    // every reported stream is recorded under its kind
                    &&& forall|i: int|
                        0 <= i < streams@.len() ==> kind_collection(
                            final(self).info.streams,
                            (#[trigger] streams@[i]).type_,
                        ).spec_contains(streams@[i].id@)
                    // ids the message does not carry keep their membership
                    &&& forall|id: Seq<char>, kind: StreamType|
                        (forall|i: int| 0 <= i < streams@.len() ==> (#[trigger] streams@[i]).id@ != id)
                            ==> #[trigger] kind_collection(
                            final(self).info.streams,
                            kind,
                        ).spec_contains(id) == kind_collection(
                            old(self).info.streams,
                            kind,
                        ).spec_contains(id)
                    // the media content reflects every stream kind seen
                    &&& final(self).info.content == content_after_streams(
                        old(self).info.content,
                        streams@,
                        streams@.len() as int,
                    )
                    // the first stream of a kind claims an empty selection
                    &&& crate::media_info::opt_id_view(final(self).info.streams.cur_audio_id)
                        == cur_id_after_streams(
                        crate::media_info::opt_id_view(old(self).info.streams.cur_audio_id),
                        streams@,
                        StreamType::Audio,
                        streams@.len() as int,
                    )
                    &&& crate::media_info::opt_id_view(final(self).info.streams.cur_video_id)
                        == cur_id_after_streams(
                        crate::media_info::opt_id_view(old(self).info.streams.cur_video_id),
                        streams@,
                        StreamType::Video,
                        streams@.len() as int,
                    )
                    &&& crate::media_info::opt_id_view(final(self).info.streams.cur_text_id)
                        == cur_id_after_streams(
                        crate::media_info::opt_id_view(old(self).info.streams.cur_text_id),
                        streams@,
                        StreamType::Text,
                        streams@.len() as int,
                    )
                    &&& final(self).info.streams.audio_changed == old(self).info.streams.audio_changed
                    &&& final(self).info.streams.video_changed == old(self).info.streams.video_changed
                    &&& final(self).info.streams.text_changed == old(self).info.streams.text_changed
                },
                BusMessage::StreamsSelected => {
                    &&& r is InProgress
                    &&& final(self).info == old(self).info
                    &&& final(self).missing_plugins == old(self).missing_plugins
                    &&& final(self).state == if old(self).state == PipelineState::StreamsStarted {
                        PipelineState::StreamsSelected
                    } else {
                        old(self).state
                    }
                },
                BusMessage::StreamStart => {
                    &&& r is InProgress
                    &&& final(self).info == old(self).info
                    &&& final(self).missing_plugins == old(self).missing_plugins
                    &&& final(self).state == if old(self).state == PipelineState::NotStarted {
                        PipelineState::StreamsStarted
                    } else {
                        old(self).state
                    }
                },
                BusMessage::Tag { global, tags } => {
                    &&& r is InProgress
                    &&& final(self).state == old(self).state
                    &&& final(self).missing_plugins == old(self).missing_plugins
                    &&& final(self).info.tags@ == if global {
                        crate::media_info::merge_tags_keep(old(self).info.tags@, tags@)
                    } else {
                        old(self).info.tags@
                    }
                    &&& final(self).info.name == old(self).info.name
                    &&& final(self).info.file_name == old(self).info.file_name
                    &&& final(self).info.path == old(self).info.path
                    &&& final(self).info.content == old(self).info.content
                    &&& final(self).info.toc == old(self).info.toc
                    &&& final(self).info.duration == old(self).info.duration
                    &&& final(self).info.streams == old(self).info.streams
                },
                BusMessage::Toc { global, entries } => {
                    &&& r is InProgress
                    &&& final(self).state == old(self).state
                    &&& final(self).missing_plugins == old(self).missing_plugins
                    &&& final(self).info.toc == if global && old(self).info.toc is None {
                        Option::Some(entries)
                    } else {
                        old(self).info.toc
                    }
                    &&& final(self).info.name == old(self).info.name
                    &&& final(self).info.file_name == old(self).info.file_name
                    &&& final(self).info.path == old(self).info.path
                    &&& final(self).info.content == old(self).info.content
                    &&& final(self).info.tags == old(self).info.tags
                    &&& final(self).info.duration == old(self).info.duration
                    &&& final(self).info.streams == old(self).info.streams
                },
                BusMessage::AsyncDone => {
                    &&& final(self).info == old(self).info
                    &&& final(self).missing_plugins == old(self).missing_plugins
                    &&& final(self).state == old(self).state
                    &&& r == if old(self).state == PipelineState::StreamsSelected {
                        OpenStatus::Ready
                    } else {
                        OpenStatus::InProgress
                    }
                },
                BusMessage::Eos => {
                    &&& r is InProgress
                    &&& final(self).info == old(self).info
                    &&& final(self).missing_plugins == old(self).missing_plugins
                    &&& final(self).state == old(self).state
                },
                BusMessage::StateChanged { .. } => {
                    &&& r is InProgress
                    &&& final(self).info == old(self).info
                    &&& final(self).missing_plugins == old(self).missing_plugins
                    &&& final(self).state == old(self).state
                },
            },
    {
        match msg {
            BusMessage::Error { source, text } => {
                if source.eq(&gl_sink_name()) {
                    OpenStatus::Failed(OpenError::GLSinkError)
                } else if !self.missing_plugins.is_empty() {
                    // the record of missing plugins leaves with the error
                    let mut missing = MissingPlugins::new();
                    core::mem::swap(&mut missing, &mut self.missing_plugins);
                    OpenStatus::Failed(OpenError::MissingPlugins(missing))
                } else {
                    OpenStatus::Failed(OpenError::Generic(text))
                }
            },
            BusMessage::Element { structure, plugin } => {
                if structure.eq(&String::from_str("missing-plugin")) {
                    self.missing_plugins.insert(plugin);
                }
                OpenStatus::InProgress
            },
            BusMessage::StreamCollection { streams } => {
                let n = streams.len();
                for i in 0..n
                    invariant
                        n == streams@.len(),
                        self.wf(),
                        self.state == old(self).state,
                        self.int_msgs == old(self).int_msgs,
                        self.missing_plugins == old(self).missing_plugins,
                        self.info.name == old(self).info.name,
                        self.info.file_name == old(self).info.file_name,
                        self.info.path == old(self).info.path,
                        self.info.tags == old(self).info.tags,
                        self.info.toc == old(self).info.toc,
                        self.info.duration == old(self).info.duration,
                        forall|j: int|
                            0 <= j < i ==> kind_collection(
                                self.info.streams,
                                (#[trigger] streams@[j]).type_,
                            ).spec_contains(streams@[j].id@),
                        forall|id: Seq<char>, kind: StreamType|
                            (forall|j: int|
                                0 <= j < streams@.len() ==> (#[trigger] streams@[j]).id@ != id)
                                ==> #[trigger] kind_collection(
                                self.info.streams,
                                kind,
                            ).spec_contains(id) == kind_collection(
                                old(self).info.streams,
                                kind,
                            ).spec_contains(id),
                        self.info.content == content_after_streams(
                            old(self).info.content,
                            streams@,
                            i as int,
                        ),
                        crate::media_info::opt_id_view(self.info.streams.cur_audio_id)
                            == cur_id_after_streams(
                            crate::media_info::opt_id_view(old(self).info.streams.cur_audio_id),
                            streams@,
                            StreamType::Audio,
                            i as int,
                        ),
                        crate::media_info::opt_id_view(self.info.streams.cur_video_id)
                            == cur_id_after_streams(
                            crate::media_info::opt_id_view(old(self).info.streams.cur_video_id),
                            streams@,
                            StreamType::Video,
                            i as int,
                        ),
                        crate::media_info::opt_id_view(self.info.streams.cur_text_id)
                            == cur_id_after_streams(
                            crate::media_info::opt_id_view(old(self).info.streams.cur_text_id),
                            streams@,
                            StreamType::Text,
                            i as int,
                        ),
                        self.info.streams.audio_changed == old(self).info.streams.audio_changed,
                        self.info.streams.video_changed == old(self).info.streams.video_changed,
                        self.info.streams.text_changed == old(self).info.streams.text_changed,
                {
                    let ghost pre_streams = self.info.streams;
                    let stream = streams[i].clone();
                    self.info.add_stream(stream);
                    proof {
                        let j = i as int;
                        assert(crate::media_info::stream_added(
                            pre_streams,
                            self.info.streams,
                            streams@[j],
                        ));
                        assert(kind_collection(
                            self.info.streams,
                            streams@[j].type_,
                        ).spec_contains(streams@[j].id@)) by {
                            crate::media_info::lemma_stream_with_id_contains(
                                kind_collection(self.info.streams, streams@[j].type_).collection@,
                                streams@[j].id@,
                            );
                        }
                        assert forall|jj: int|
                            0 <= jj < i + 1 implies kind_collection(
                            self.info.streams,
                            (#[trigger] streams@[jj]).type_,
                        ).spec_contains(streams@[jj].id@) by {
                            if jj < j {
                                let kc = kind_collection(self.info.streams, streams@[jj].type_);
                                let pc = kind_collection(pre_streams, streams@[jj].type_);
                                if streams@[jj].type_ == streams@[j].type_ {
                                    if streams@[jj].id@ == streams@[j].id@ {
                                        crate::media_info::lemma_stream_with_id_contains(
                                            kc.collection@,
                                            streams@[j].id@,
                                        );
                                    } else {
                                        assert(crate::media_info::streams_contain(
                                            kc.collection@,
                                            streams@[jj].id@,
                                        ) == crate::media_info::streams_contain(
                                            pc.collection@,
                                            streams@[jj].id@,
                                        ));
                                    }
                                } else {
                                    assert(kc == pc);
                                }
                            }
                        }
                        assert forall|id: Seq<char>, kind: StreamType|
                            (forall|jj: int|
                                0 <= jj < streams@.len() ==> (#[trigger] streams@[jj]).id@
                                    != id) implies #[trigger] kind_collection(
                            self.info.streams,
                            kind,
                        ).spec_contains(id) == kind_collection(
                            old(self).info.streams,
                            kind,
                        ).spec_contains(id) by {
                            assert(streams@[j].id@ != id);
                            if kind == streams@[j].type_ {
                                assert(crate::media_info::streams_contain(
                                    kind_collection(self.info.streams, kind).collection@,
                                    id,
                                ) == crate::media_info::streams_contain(
                                    kind_collection(pre_streams, kind).collection@,
                                    id,
                                ));
                            } else {
                                assert(kind_collection(self.info.streams, kind)
                                    == kind_collection(pre_streams, kind));
                            }
                            assert(kind_collection(pre_streams, kind).spec_contains(id)
                                == kind_collection(old(self).info.streams, kind).spec_contains(id));
                        }
                    }
                }
                OpenStatus::InProgress
            },
            BusMessage::StreamsSelected => {
                if self.state == PipelineState::StreamsStarted {
                    self.state = PipelineState::StreamsSelected;
                }
                OpenStatus::InProgress
            },
            BusMessage::StreamStart => {
                if self.state == PipelineState::NotStarted {
                    self.state = PipelineState::StreamsStarted;
                }
                OpenStatus::InProgress
            },
            BusMessage::Tag { global, tags } => {
                if global {
                    self.info.add_tags(&tags);
                }
                OpenStatus::InProgress
            },
            BusMessage::Toc { global, entries } => {
                if self.info.toc.is_none() {
                    if global {
                        self.info.toc = Option::Some(entries);
                    }
                    // a table of contents with another scope is discarded
                }
                OpenStatus::InProgress
            },
            BusMessage::AsyncDone => {
                if self.state == PipelineState::StreamsSelected {
                    OpenStatus::Ready
                } else {
                    OpenStatus::InProgress
                }
            },
            BusMessage::Eos => OpenStatus::InProgress,
            BusMessage::StateChanged { .. } => OpenStatus::InProgress,
        }
    }

    /// Finishes a handshake that `handle_open_message` reported `Ready`:
    /// the duration queried from the engine is stored and the controller
    /// becomes safe to operate.
    pub fn complete_open(&mut self, duration: Duration)
        requires
            old(self).wf(),
            old(self).state == PipelineState::StreamsSelected,
        ensures
            final(self).wf(),
            final(self).state == PipelineState::Initialized,
            final(self).info.duration == duration,
            final(self).info.name == old(self).info.name,
            final(self).info.file_name == old(self).info.file_name,
            final(self).info.path == old(self).info.path,
            final(self).info.content == old(self).info.content,
            final(self).info.tags == old(self).info.tags,
            final(self).info.toc == old(self).info.toc,
            final(self).info.streams == old(self).info.streams,
            final(self).missing_plugins == old(self).missing_plugins,
            final(self).int_msgs == old(self).int_msgs,
    {
        self.info.duration = duration;
        self.state = PipelineState::Initialized;
    }
}


impl PlaybackPipeline {
    /// The operations bus watch, as a pure classification: whether a
    /// message is forwarded to the internal control channel, and what
    /// (if anything) is passed through to the caller.
    pub fn classify_operations_message(msg: &BusMessage) -> (r: (bool, Option<MediaMessage>))
        ensures
            r.0 == (msg matches BusMessage::StateChanged { source_is_pipeline: true } || msg
                is AsyncDone || msg is Error),
            match msg {
                BusMessage::Eos => r.1 matches Option::Some(MediaMessage::Eos),
                BusMessage::Error { text, .. } => r.1 matches Option::Some(
                    MediaMessage::Error(t),
                ) && t@ == text@,
                _ => r.1 is None,
            },
    {
        match msg {
            BusMessage::StateChanged { source_is_pipeline } => (*source_is_pipeline, Option::None),
            BusMessage::AsyncDone => (true, Option::None),
            BusMessage::Eos => (false, Option::Some(MediaMessage::Eos)),
            BusMessage::Error { text, .. } => (
                true,
                Option::Some(MediaMessage::Error(text.clone())),
            ),
            _ => (false, Option::None),
        }
    }

    /// A message the operations watch forwarded lands at the back of the
    /// internal control channel.
    pub fn push_int_msg(&mut self, msg: BusMessage)
        ensures
            final(self).int_msgs@ == old(self).int_msgs@.push(msg),
            final(self).info == old(self).info,
            final(self).missing_plugins == old(self).missing_plugins,
            final(self).state == old(self).state,
    {
        self.int_msgs.push(msg);
    }

    /// The next message a pending operation awaits, if one arrived.
    pub fn next_int_msg(&mut self) -> (r: Option<BusMessage>)
        ensures
            final(self).info == old(self).info,
            final(self).missing_plugins == old(self).missing_plugins,
            final(self).state == old(self).state,
            if old(self).int_msgs@.len() == 0 {
                r is None && final(self).int_msgs == old(self).int_msgs
            } else {
                r matches Option::Some(m) && m == old(self).int_msgs@[0] && final(self).int_msgs@
                    == old(self).int_msgs@.drop_first()
            },
    {
        if self.int_msgs.len() == 0 {
            Option::None
        } else {
            let msg = self.int_msgs.remove(0);
            proof {
                assert(self.int_msgs@ =~= old(self).int_msgs@.drop_first());
            }
            Option::Some(msg)
        }
    }

    /// Discards messages a previous operation left in the internal
    /// channel, so that a stale completion cannot pass for the next
    /// operation's own. Finding an error among them fails the purge:
    /// the graph is broken.
    pub fn purge_int_msg(&mut self) -> (r: Result<(), PurgeError>)
        ensures
            final(self).info == old(self).info,
            final(self).missing_plugins == old(self).missing_plugins,
            final(self).state == old(self).state,
            r is Ok <==> first_error(old(self).int_msgs@) < 0,
            r is Ok ==> final(self).int_msgs@.len() == 0,
            r is Err ==> final(self).int_msgs@ == old(self).int_msgs@.skip(
                first_error(old(self).int_msgs@) + 1,
            ),
    {
        let ghost q0 = self.int_msgs@;
        let ghost mut p: int = 0;
        while self.int_msgs.len() > 0
            invariant
                0 <= p <= q0.len(),
                q0 == old(self).int_msgs@,
                self.int_msgs@ == q0.skip(p),
                forall|j: int| 0 <= j < p ==> !(q0[j] is Error),
                self.info == old(self).info,
                self.missing_plugins == old(self).missing_plugins,
                self.state == old(self).state,
            decreases q0.len() - p,
        {
            let msg = self.int_msgs.remove(0);
            proof {
                assert(q0.skip(p).remove(0) =~= q0.skip(p + 1));
            }
            if let BusMessage::Error { .. } = msg {
                proof {
                    assert(q0[p] == q0.skip(p)[0]);
                    lemma_first_error_skip(q0, p);
                }
                return Result::Err(PurgeError);
            }
            proof {
                assert(q0[p] == q0.skip(p)[0]);
                p = p + 1;
            }
        }
        proof {
            lemma_first_error_skip(q0, p);
            assert(q0.skip(p) =~= self.int_msgs@);
        }
        Result::Ok(())
    }

    /// Starts a play request: stale messages are purged, then the caller
    /// asks the engine for the playing state and awaits the matching
    /// state-change notification through `handle_state_change_message`.
    pub fn play_start(&mut self) -> (r: Result<(), StateChangeError>)
        ensures
            final(self).info == old(self).info,
            final(self).missing_plugins == old(self).missing_plugins,
            final(self).state == old(self).state,
            r is Ok <==> first_error(old(self).int_msgs@) < 0,
            r is Ok ==> final(self).int_msgs@.len() == 0,
            r is Err ==> final(self).int_msgs@ == old(self).int_msgs@.skip(
                first_error(old(self).int_msgs@) + 1,
            ),
    {
        match self.purge_int_msg() {
            Result::Ok(()) => Result::Ok(()),
            Result::Err(_) => Result::Err(StateChangeError),
        }
    }

    /// Starts a pause request; the same purge-then-await shape as
    /// `play_start`.
    pub fn pause_start(&mut self) -> (r: Result<(), StateChangeError>)
        ensures
            final(self).info == old(self).info,
            final(self).missing_plugins == old(self).missing_plugins,
            final(self).state == old(self).state,
            r is Ok <==> first_error(old(self).int_msgs@) < 0,
            r is Ok ==> final(self).int_msgs@.len() == 0,
            r is Err ==> final(self).int_msgs@ == old(self).int_msgs@.skip(
                first_error(old(self).int_msgs@) + 1,
            ),
    {
        match self.purge_int_msg() {
            Result::Ok(()) => Result::Ok(()),
            Result::Err(_) => Result::Err(StateChangeError),
        }
    }

    /// How one forwarded message moves a pending play or pause along:
    /// the state-change notification completes it, an error fails it,
    /// anything else leaves it waiting.
    pub fn handle_state_change_message(msg: &BusMessage) -> (r: OperationProgress)
        ensures
            r == match msg {
                BusMessage::StateChanged { .. } => OperationProgress::Completed,
                BusMessage::Error { .. } => OperationProgress::Failed,
                _ => OperationProgress::Pending,
            },
    {
        match msg {
            BusMessage::StateChanged { .. } => OperationProgress::Completed,
            BusMessage::Error { .. } => OperationProgress::Failed,
            _ => OperationProgress::Pending,
        }
    }

    /// Starts a seek, in the purge-issue-await order: stale messages
    /// are purged first (an error among them is unrecoverable, and no
    /// engine seek goes out). Unless the purge failed, the caller then
    /// issues the flushing engine seek — also for the end-of-stream
    /// outcome: a target at or past the known duration is still sent,
    /// but resolves here at once instead of waiting, since the engine
    /// sends no completion for it. Any other target awaits its
    /// completion through `handle_seek_message`.
    pub fn seek_start(&mut self, target: Timestamp, _flags: SeekFlags) -> (r: Result<
        (),
        SeekError,
    >)
        ensures
            final(self).info == old(self).info,
            final(self).missing_plugins == old(self).missing_plugins,
            final(self).state == old(self).state,
            r is Ok ==> final(self).int_msgs@.len() == 0,
            r == seek_start_result(old(self).int_msgs@, old(self).info.duration@, target@),
    {
        match self.purge_int_msg() {
            Result::Ok(()) => (),
            Result::Err(_) => {
                return Result::Err(SeekError::Unrecoverable);
            },
        }

        if target.as_u64() >= self.info.duration.as_u64() {
            return Result::Err(SeekError::Eos);
        }

        Result::Ok(())
    }

    /// How one forwarded message moves a pending seek along: AsyncDone
    /// completes it, an error fails it, anything else leaves it waiting.
    pub fn handle_seek_message(msg: &BusMessage) -> (r: OperationProgress)
        ensures
            r == match msg {
                BusMessage::AsyncDone => OperationProgress::Completed,
                BusMessage::Error { .. } => OperationProgress::Failed,
                _ => OperationProgress::Pending,
            },
    {
        match msg {
            BusMessage::AsyncDone => OperationProgress::Completed,
            BusMessage::Error { .. } => OperationProgress::Failed,
            _ => OperationProgress::Pending,
        }
    }

    /// Selects the streams to play: stale messages are purged, every id
    /// is validated against the inventory, and the per-kind selections
    /// and changed flags are updated synchronously; the caller sends the
    /// selection event to the demultiplexer, whose own notification
    /// arrives later on the caller-facing channel. An unknown id fails
    /// the call with that id and changes no selection.
    pub fn select_streams(&mut self, stream_ids: &Vec<String>) -> (r: Result<
        (),
        SelectStreamsError,
    >)
        requires
            old(self).wf(),
        ensures
            final(self).wf(),
            final(self).missing_plugins == old(self).missing_plugins,
            final(self).state == old(self).state,
            final(self).info.name == old(self).info.name,
            final(self).info.file_name == old(self).info.file_name,
            final(self).info.path == old(self).info.path,
            final(self).info.content == old(self).info.content,
            final(self).info.tags == old(self).info.tags,
            final(self).info.toc == old(self).info.toc,
            final(self).info.duration == old(self).info.duration,
            final(self).info.streams.audio == old(self).info.streams.audio,
            final(self).info.streams.video == old(self).info.streams.video,
            final(self).info.streams.text == old(self).info.streams.text,
            r matches Err(SelectStreamsError::Unrecoverable) <==> first_error(
                old(self).int_msgs@,
            ) >= 0,
            first_error(old(self).int_msgs@) < 0 ==> {
                &&& (r is Ok <==> old(self).info.streams.ids_all_known(stream_ids@))
                &&& (r matches Err(SelectStreamsError::UnknownId(id)) ==> final(self).info.streams.selection() == old(self).info.streams.selection() && exists|i: int|
                    0 <= i < stream_ids@.len() && old(self).info.streams.spec_stream_kind(
                        stream_ids@[i]@,
                    ) is None && (forall|j: int|
                        0 <= j < i ==> old(self).info.streams.spec_stream_kind(
                            stream_ids@[j]@,
                        ) is Some) && id@ == stream_ids@[i]@)
                &&& (r is Ok ==> final(self).info.streams.selection() == old(self).info.streams.selection_outcome(stream_ids@))
            },
            r matches Err(SelectStreamsError::Unrecoverable) ==> final(self).info.streams
                == old(self).info.streams,
    {
        match self.purge_int_msg() {
            Result::Ok(()) => (),
            Result::Err(_) => {
                return Result::Err(SelectStreamsError::Unrecoverable);
            },
        }

        match self.info.streams.select_streams(stream_ids) {
            Result::Ok(()) => Result::Ok(()),
            Result::Err(err) => Result::Err(SelectStreamsError::UnknownId(err.id().clone())),
        }
    }

    /// The playback position the engine reported, where a negative value
    /// means none is available, as right after some state changes.
    pub fn current_ts(position: i64) -> (r: Option<Timestamp>)
        ensures
            if position < 0 {
                r is None
            } else {
                r matches Option::Some(ts) && ts@ == position
            },
    {
        if position < 0 {
            Option::None
        } else {
            Option::Some(Timestamp::from_signed(position))
        }
    }
}

} // verus!
