use media_toc_player::duration::Duration;
use media_toc_player::media_info::{MediaContent, Stream, StreamType, Tag, TocEntry};
use media_toc_player::playback_pipeline::{
    pad_conversion_chain, pad_stream_kind, BusMessage, ElementKind, MediaMessage, MissingPlugins,
    OpenError, OpenStatus, OperationProgress, PipelineState, PlaybackPipeline, SeekError,
    SeekFlags, SelectStreamsError,
};
use media_toc_player::timestamp::Timestamp;

fn fresh_pipeline() -> PlaybackPipeline {
    PlaybackPipeline::new(
        String::from("movie"),
        String::from("movie.mkv"),
        String::from("/media/movie.mkv"),
    )
}

fn audio_stream() -> Stream {
    Stream::new(String::from("audio/0"), String::from("vorbis"), StreamType::Audio)
}

fn video_stream() -> Stream {
    Stream::new(String::from("video/0"), String::from("vp9"), StreamType::Video)
}

/// Runs the handshake of the given message sequence and completes it
/// with the duration on `Ready`.
fn run_handshake(
    pipeline: &mut PlaybackPipeline,
    msgs: Vec<BusMessage>,
    duration: u64,
) -> Result<(), OpenError> {
    for msg in msgs {
        match pipeline.handle_open_message(msg) {
            OpenStatus::InProgress => (),
            OpenStatus::Ready => {
                pipeline.complete_open(Duration::from_nanos(duration));
                return Ok(());
            }
            OpenStatus::Failed(e) => return Err(e),
        }
    }
    Err(OpenError::StateChange)
}

fn opened_pipeline(duration: u64) -> PlaybackPipeline {
    let mut pipeline = fresh_pipeline();
    let msgs = vec![
        BusMessage::StreamStart,
        BusMessage::StreamCollection { streams: vec![audio_stream(), video_stream()] },
        BusMessage::StreamsSelected,
        BusMessage::AsyncDone,
    ];
    run_handshake(&mut pipeline, msgs, duration).unwrap();
    pipeline
}

#[test]
fn open_handshake_ordering() {
    let mut pipeline = fresh_pipeline();
    let msgs = vec![
        BusMessage::StreamStart,
        BusMessage::StreamCollection { streams: vec![audio_stream(), video_stream()] },
        BusMessage::StreamsSelected,
        BusMessage::Tag {
            global: true,
            tags: vec![Tag { name: String::from("title"), value: String::from("Movie") }],
        },
        BusMessage::AsyncDone,
    ];
    let res = run_handshake(&mut pipeline, msgs, 90_000_000_000);
    assert!(res.is_ok());
    assert_eq!(pipeline.state, PipelineState::Initialized);
    assert!(pipeline.info.streams.audio.contains(&String::from("audio/0")));
    assert!(pipeline.info.streams.video.contains(&String::from("video/0")));
    assert_eq!(pipeline.info.content, MediaContent::AudioVideo);
    assert_eq!(pipeline.info.duration.as_u64(), 90_000_000_000);
    assert_eq!(pipeline.info.tags.len(), 1);
    assert_eq!(pipeline.info.tags[0].value, "Movie");
}

#[test]
fn async_done_before_streams_selected_is_ignored() {
    let mut pipeline = fresh_pipeline();
    assert!(matches!(
        pipeline.handle_open_message(BusMessage::StreamStart),
        OpenStatus::InProgress
    ));
    // an AsyncDone before the streams settle is not the completion
    assert!(matches!(
        pipeline.handle_open_message(BusMessage::AsyncDone),
        OpenStatus::InProgress
    ));
    assert!(matches!(
        pipeline.handle_open_message(BusMessage::StreamsSelected),
        OpenStatus::InProgress
    ));
    assert!(matches!(
        pipeline.handle_open_message(BusMessage::AsyncDone),
        OpenStatus::Ready
    ));
}

#[test]
fn missing_plugin_precedence() {
    let mut pipeline = fresh_pipeline();
    assert!(matches!(
        pipeline.handle_open_message(BusMessage::Element {
            structure: String::from("missing-plugin"),
            plugin: String::from("x"),
        }),
        OpenStatus::InProgress
    ));
    let status = pipeline.handle_open_message(BusMessage::Error {
        source: String::from("decodebin"),
        text: String::from("fatal"),
    });
    match status {
        OpenStatus::Failed(OpenError::MissingPlugins(missing)) => {
            assert_eq!(missing.len(), 1);
            assert!(missing.contains(&String::from("x")));
        }
        other => panic!("expected the missing-plugins failure, got {:?}", other),
    }
}

#[test]
fn gl_sink_error_detected_by_source_name() {
    let mut pipeline = fresh_pipeline();
    let status = pipeline.handle_open_message(BusMessage::Error {
        source: String::from("sink"),
        text: String::from("whatever text the engine produced"),
    });
    assert!(matches!(status, OpenStatus::Failed(OpenError::GLSinkError)));

    // even with missing plugins recorded, the sink name wins
    let mut pipeline = fresh_pipeline();
    pipeline.handle_open_message(BusMessage::Element {
        structure: String::from("missing-plugin"),
        plugin: String::from("x"),
    });
    let status = pipeline.handle_open_message(BusMessage::Error {
        source: String::from("sink"),
        text: String::from("other"),
    });
    assert!(matches!(status, OpenStatus::Failed(OpenError::GLSinkError)));
}

#[test]
fn generic_error_without_missing_plugins() {
    let mut pipeline = fresh_pipeline();
    let status = pipeline.handle_open_message(BusMessage::Error {
        source: String::from("decodebin"),
        text: String::from("no demuxer"),
    });
    match status {
        OpenStatus::Failed(OpenError::Generic(text)) => assert_eq!(text, "no demuxer"),
        other => panic!("expected the generic failure, got {:?}", other),
    }
}

#[test]
fn toc_message_recorded_once_and_only_global() {
    let mut pipeline = fresh_pipeline();
    let entry = TocEntry {
        start: Timestamp::new(0),
        end: Timestamp::new(10),
        title: Some(String::from("one")),
    };
    // a non-global table of contents is discarded
    pipeline.handle_open_message(BusMessage::Toc { global: false, entries: vec![entry.clone()] });
    assert!(pipeline.info.toc.is_none());
    pipeline.handle_open_message(BusMessage::Toc { global: true, entries: vec![entry.clone()] });
    assert_eq!(pipeline.info.toc.as_ref().unwrap().len(), 1);
    // a second one does not replace the first
    pipeline.handle_open_message(BusMessage::Toc { global: true, entries: vec![] });
    assert_eq!(pipeline.info.toc.as_ref().unwrap().len(), 1);
}

#[test]
fn purge_with_nothing_pending_is_a_no_op() {
    let mut pipeline = opened_pipeline(100);
    assert!(pipeline.purge_int_msg().is_ok());
    assert_eq!(pipeline.int_msgs.len(), 0);
    // and the next operation resolves exactly as it would have anyway
    let res = pipeline.seek_start(Timestamp::new(50), SeekFlags::Accurate);
    assert!(res.is_ok());
}

#[test]
fn purge_drains_stale_completions_without_harm() {
    let mut pipeline = opened_pipeline(100);
    // completions left over from a previous operation
    pipeline.push_int_msg(BusMessage::AsyncDone);
    pipeline.push_int_msg(BusMessage::StateChanged { source_is_pipeline: true });
    assert!(pipeline.purge_int_msg().is_ok());
    assert_eq!(pipeline.int_msgs.len(), 0);

    // the same stale messages do not change a seek's outcome either
    pipeline.push_int_msg(BusMessage::AsyncDone);
    let res = pipeline.seek_start(Timestamp::new(50), SeekFlags::KeyUnit);
    assert!(res.is_ok());
    assert_eq!(pipeline.int_msgs.len(), 0);
}

#[test]
fn purge_fails_on_stale_error() {
    let mut pipeline = opened_pipeline(100);
    pipeline.push_int_msg(BusMessage::Error {
        source: String::from("pipeline"),
        text: String::from("broken"),
    });
    assert!(pipeline.purge_int_msg().is_err());
}

#[test]
fn seek_past_end_resolves_as_eos() {
    let duration = 90_000_000_000u64;
    let mut pipeline = opened_pipeline(duration);
    // exactly at the duration
    let res = pipeline.seek_start(Timestamp::new(duration), SeekFlags::Accurate);
    assert!(matches!(res, Err(SeekError::Eos)));
    // one nanosecond past it
    let res = pipeline.seek_start(Timestamp::new(duration + 1), SeekFlags::KeyUnit);
    assert!(matches!(res, Err(SeekError::Eos)));
    // before it, the seek proceeds to await its completion
    let res = pipeline.seek_start(Timestamp::new(duration - 1), SeekFlags::Accurate);
    assert!(res.is_ok());
}

#[test]
fn seek_with_stale_error_is_unrecoverable() {
    let mut pipeline = opened_pipeline(100);
    pipeline.push_int_msg(BusMessage::Error {
        source: String::from("pipeline"),
        text: String::from("broken"),
    });
    let res = pipeline.seek_start(Timestamp::new(10), SeekFlags::Accurate);
    assert!(matches!(res, Err(SeekError::Unrecoverable)));
}

#[test]
fn play_and_pause_purge_first() {
    let mut pipeline = opened_pipeline(100);
    pipeline.push_int_msg(BusMessage::AsyncDone);
    assert!(pipeline.play_start().is_ok());
    assert_eq!(pipeline.int_msgs.len(), 0);

    pipeline.push_int_msg(BusMessage::Error {
        source: String::from("pipeline"),
        text: String::from("broken"),
    });
    assert!(pipeline.pause_start().is_err());
}

#[test]
fn awaited_message_classification() {
    assert_eq!(
        PlaybackPipeline::handle_seek_message(&BusMessage::AsyncDone),
        OperationProgress::Completed
    );
    assert_eq!(
        PlaybackPipeline::handle_seek_message(&BusMessage::StateChanged {
            source_is_pipeline: true
        }),
        OperationProgress::Pending
    );
    assert_eq!(
        PlaybackPipeline::handle_seek_message(&BusMessage::Error {
            source: String::from("x"),
            text: String::from("y"),
        }),
        OperationProgress::Failed
    );

    assert_eq!(
        PlaybackPipeline::handle_state_change_message(&BusMessage::StateChanged {
            source_is_pipeline: true
        }),
        OperationProgress::Completed
    );
    assert_eq!(
        PlaybackPipeline::handle_state_change_message(&BusMessage::AsyncDone),
        OperationProgress::Pending
    );
}

#[test]
fn operations_watch_routing() {
    let (fwd, ext) = PlaybackPipeline::classify_operations_message(&BusMessage::AsyncDone);
    assert!(fwd);
    assert!(ext.is_none());

    let (fwd, ext) = PlaybackPipeline::classify_operations_message(&BusMessage::StateChanged {
        source_is_pipeline: false,
    });
    assert!(!fwd);
    assert!(ext.is_none());

    let (fwd, ext) = PlaybackPipeline::classify_operations_message(&BusMessage::Eos);
    assert!(!fwd);
    assert!(matches!(ext, Some(MediaMessage::Eos)));

    let (fwd, ext) = PlaybackPipeline::classify_operations_message(&BusMessage::Error {
        source: String::from("x"),
        text: String::from("sync lost"),
    });
    assert!(fwd);
    match ext {
        Some(MediaMessage::Error(text)) => assert_eq!(text, "sync lost"),
        other => panic!("expected the error pass-through, got {:?}", other),
    }
}

#[test]
fn select_streams_validates_and_updates() {
    let mut pipeline = opened_pipeline(100);
    let res = pipeline.select_streams(&vec![String::from("audio/0")]);
    assert!(res.is_ok());
    assert!(!pipeline.info.streams.is_video_selected());
    assert!(pipeline.info.streams.video_changed);

    let res = pipeline.select_streams(&vec![String::from("bogus")]);
    match res {
        Err(SelectStreamsError::UnknownId(id)) => assert_eq!(id, "bogus"),
        other => panic!("expected the unknown-id failure, got {:?}", other),
    }

    pipeline.push_int_msg(BusMessage::Error {
        source: String::from("pipeline"),
        text: String::from("broken"),
    });
    let res = pipeline.select_streams(&vec![String::from("audio/0")]);
    assert!(matches!(res, Err(SelectStreamsError::Unrecoverable)));
}

#[test]
fn current_ts_rejects_undefined_positions() {
    assert!(PlaybackPipeline::current_ts(-1).is_none());
    assert_eq!(PlaybackPipeline::current_ts(0).unwrap().as_u64(), 0);
    assert_eq!(PlaybackPipeline::current_ts(77).unwrap().as_u64(), 77);
}

#[test]
fn missing_plugins_deduplicate() {
    let mut missing = MissingPlugins::new();
    assert!(missing.is_empty());
    missing.insert(String::from("x"));
    missing.insert(String::from("x"));
    missing.insert(String::from("y"));
    assert_eq!(missing.len(), 2);
    assert!(missing.contains(&String::from("x")));
    assert!(missing.contains(&String::from("y")));
    assert_eq!(missing.names().len(), 2);
}

#[test]
fn missing_plugins_display_lists_names() {
    let mut missing = MissingPlugins::new();
    assert_eq!(missing.to_display_string(), "");
    missing.insert(String::from("x"));
    assert_eq!(missing.to_display_string(), "- x");
    missing.insert(String::from("y"));
    assert_eq!(missing.to_display_string(), "- x\n- y");
}

#[test]
fn pad_chains_declare_the_topology() {
    let chain = pad_conversion_chain(StreamType::Audio, false);
    assert_eq!(
        chain,
        vec![
            ElementKind::AudioConvert,
            ElementKind::AudioResample,
            ElementKind::AudioPlaybackSink
        ]
    );
    let chain = pad_conversion_chain(StreamType::Video, true);
    assert_eq!(
        chain,
        vec![ElementKind::VideoConvert, ElementKind::VideoScale, ElementKind::VideoSink]
    );
    let chain = pad_conversion_chain(StreamType::Video, false);
    assert!(chain.is_empty());
    let chain = pad_conversion_chain(StreamType::Text, true);
    assert!(chain.is_empty());
}

#[test]
fn pad_names_classify_stream_kinds() {
    assert_eq!(pad_stream_kind(&String::from("audio_0")), Some(StreamType::Audio));
    assert_eq!(pad_stream_kind(&String::from("video_1")), Some(StreamType::Video));
    assert_eq!(pad_stream_kind(&String::from("text_0")), None);
    assert_eq!(pad_stream_kind(&String::from("aud")), None);
}
