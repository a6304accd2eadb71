use media_toc_player::chapter_tree_manager::PositionStatus;
use media_toc_player::main_controller::{
    tick_action, ControllerState, MainController, PlayPauseAction, SeekOutcome,
    SelectStreamsOutcome, TickAction,
};
use media_toc_player::media_info::TocEntry;
use media_toc_player::playback_pipeline::{
    BusMessage, OpenStatus, PlaybackPipeline, SeekError, SelectStreamsError,
};
use media_toc_player::duration::Duration;
use media_toc_player::timestamp::Timestamp;

fn opened_pipeline_with_toc() -> PlaybackPipeline {
    let mut pipeline = PlaybackPipeline::new(
        String::from("movie"),
        String::from("movie.mkv"),
        String::from("/media/movie.mkv"),
    );
    pipeline.handle_open_message(BusMessage::StreamStart);
    pipeline.handle_open_message(BusMessage::Toc {
        global: true,
        entries: vec![
            TocEntry {
                start: Timestamp::new(0),
                end: Timestamp::new(10),
                title: Some(String::from("one")),
            },
            TocEntry {
                start: Timestamp::new(10),
                end: Timestamp::new(20),
                title: Some(String::from("two")),
            },
        ],
    });
    pipeline.handle_open_message(BusMessage::StreamsSelected);
    match pipeline.handle_open_message(BusMessage::AsyncDone) {
        OpenStatus::Ready => pipeline.complete_open(Duration::from_nanos(100)),
        other => panic!("the handshake should have completed, got {:?}", other),
    }
    pipeline
}

#[test]
fn play_pause_toggles() {
    let mut ctrl = MainController::new();
    assert_eq!(ctrl.state, ControllerState::Stopped);

    // with nothing loaded, the command opens the media selection
    assert_eq!(ctrl.play_pause(), PlayPauseAction::SelectMedia);
    assert_eq!(ctrl.state, ControllerState::PendingSelectMediaDecision);
    assert_eq!(ctrl.play_pause(), PlayPauseAction::Ignore);

    ctrl.media_opened(opened_pipeline_with_toc());
    assert_eq!(ctrl.state, ControllerState::Paused);
    assert_eq!(ctrl.play_pause(), PlayPauseAction::StartPlaying);
    assert_eq!(ctrl.state, ControllerState::Playing);
    assert_eq!(ctrl.play_pause(), PlayPauseAction::PausePlayback);
    assert_eq!(ctrl.state, ControllerState::Paused);
}

#[test]
fn media_opened_rebuilds_chapters() {
    let mut ctrl = MainController::new();
    ctrl.media_opened(opened_pipeline_with_toc());
    assert_eq!(ctrl.chapter_manager.chapters.len(), 2);
    assert_eq!(ctrl.chapter_manager.chapters[1].start().as_u64(), 10);
    // the first chapter starts at the origin: it comes up selected
    assert_eq!(ctrl.chapter_manager.selected, Some(0));
    assert!(ctrl.pipeline.is_some());
}

#[test]
fn eos_remembers_the_mode() {
    let mut ctrl = MainController::new();
    ctrl.media_opened(opened_pipeline_with_toc());
    ctrl.play_pause();
    assert_eq!(ctrl.state, ControllerState::Playing);
    ctrl.eos();
    assert_eq!(ctrl.state, ControllerState::EosPlaying);
    // play from the end restarts from the origin
    assert_eq!(ctrl.play_pause(), PlayPauseAction::RestartFromOrigin);
    assert_eq!(ctrl.state, ControllerState::Playing);
    ctrl.play_pause();
    ctrl.eos();
    assert_eq!(ctrl.state, ControllerState::EosPaused);
    // play from the end of a paused session resumes the prior mode:
    // back to the origin, still paused
    assert_eq!(ctrl.play_pause(), PlayPauseAction::ReturnToOrigin);
    assert_eq!(ctrl.state, ControllerState::Paused);
}

#[test]
fn seek_outcomes_reconcile_the_state() {
    let mut ctrl = MainController::new();
    ctrl.media_opened(opened_pipeline_with_toc());
    ctrl.play_pause();
    ctrl.eos();
    assert_eq!(ctrl.state, ControllerState::EosPlaying);

    // a seek that took clears the end-of-stream state
    assert_eq!(ctrl.handle_seek_result(&Ok(())), SeekOutcome::UpdatePosition);
    assert_eq!(ctrl.state, ControllerState::Playing);

    // a seek past the end surfaces an end-of-stream event
    assert_eq!(
        ctrl.handle_seek_result(&Err(SeekError::Eos)),
        SeekOutcome::EmitEos
    );
    assert_eq!(ctrl.state, ControllerState::Playing);

    // an unrecoverable seek stops the session and drops the pipeline
    assert_eq!(
        ctrl.handle_seek_result(&Err(SeekError::Unrecoverable)),
        SeekOutcome::TearDown
    );
    assert_eq!(ctrl.state, ControllerState::Stopped);
    assert!(ctrl.pipeline.is_none());

    // stopped: seeks are ignored
    assert_eq!(ctrl.handle_seek_result(&Ok(())), SeekOutcome::Ignore);
}

#[test]
fn select_streams_outcomes() {
    let mut ctrl = MainController::new();
    ctrl.media_opened(opened_pipeline_with_toc());
    assert_eq!(
        ctrl.handle_select_streams_result(&Ok(())),
        SelectStreamsOutcome::RefreshStreams
    );
    assert_eq!(ctrl.state, ControllerState::Paused);

    // a selection that took clears an end-of-stream state
    ctrl.play_pause();
    ctrl.eos();
    assert_eq!(ctrl.state, ControllerState::EosPlaying);
    assert_eq!(
        ctrl.handle_select_streams_result(&Ok(())),
        SelectStreamsOutcome::RefreshStreams
    );
    assert_eq!(ctrl.state, ControllerState::Playing);
    ctrl.play_pause();
    ctrl.eos();
    assert_eq!(ctrl.state, ControllerState::EosPaused);
    assert_eq!(
        ctrl.handle_select_streams_result(&Ok(())),
        SelectStreamsOutcome::RefreshStreams
    );
    assert_eq!(ctrl.state, ControllerState::Paused);
    assert_eq!(
        ctrl.handle_select_streams_result(&Err(SelectStreamsError::UnknownId(String::from("x")))),
        SelectStreamsOutcome::Fatal
    );
    assert_eq!(
        ctrl.handle_select_streams_result(&Err(SelectStreamsError::Unrecoverable)),
        SelectStreamsOutcome::TearDown
    );
    assert_eq!(ctrl.state, ControllerState::Stopped);
    assert!(ctrl.pipeline.is_none());
}

#[test]
fn select_media_holds_playback() {
    let mut ctrl = MainController::new();
    ctrl.media_opened(opened_pipeline_with_toc());
    ctrl.play_pause();
    assert!(ctrl.select_media());
    assert_eq!(ctrl.state, ControllerState::PendingSelectMediaDecision);
    // withdrawing the selection returns to paused, media being loaded
    ctrl.cancel_select_media();
    assert_eq!(ctrl.state, ControllerState::Paused);

    let mut ctrl = MainController::new();
    assert_eq!(ctrl.play_pause(), PlayPauseAction::SelectMedia);
    ctrl.cancel_select_media();
    assert_eq!(ctrl.state, ControllerState::Stopped);
}

#[test]
fn ticks_follow_the_chapters() {
    let mut ctrl = MainController::new();
    ctrl.media_opened(opened_pipeline_with_toc());
    ctrl.play_pause();

    assert_eq!(ctrl.tick(Timestamp::new(5)), TickAction::NoChange);
    match ctrl.tick(Timestamp::new(12)) {
        TickAction::RefreshSelection { prev_chapter } => {
            assert_eq!(prev_chapter.unwrap().start.as_u64(), 0);
        }
        other => panic!("expected a selection change, got {:?}", other),
    }
    assert_eq!(ctrl.chapter_manager.selected, Some(1));
}

#[test]
fn repeat_returns_to_the_chapter_left() {
    let mut ctrl = MainController::new();
    ctrl.media_opened(opened_pipeline_with_toc());
    ctrl.play_pause();
    ctrl.repeat_chapter = true;

    ctrl.tick(Timestamp::new(5));
    // leaving the first chapter with repeat on: seek back to its start
    match ctrl.tick(Timestamp::new(12)) {
        TickAction::RepeatChapter { restart_at } => assert_eq!(restart_at.as_u64(), 0),
        other => panic!("expected the repeat action, got {:?}", other),
    }
    // the selection is withheld until playback lands there again
    assert_eq!(ctrl.chapter_manager.selected, None);

    // at end of stream, repeat restarts the media
    ctrl.eos();
    assert_eq!(ctrl.tick(Timestamp::new(19)), TickAction::RestartFromOrigin);
}

#[test]
fn tick_action_table() {
    let changed_from_origin = PositionStatus::ChapterChanged { prev_chapter: None };
    assert!(matches!(
        tick_action(false, ControllerState::Playing, &changed_from_origin),
        TickAction::RefreshSelection { prev_chapter: None }
    ));
    assert!(matches!(
        tick_action(true, ControllerState::Playing, &changed_from_origin),
        TickAction::RefreshSelection { prev_chapter: None }
    ));
    assert_eq!(
        tick_action(true, ControllerState::EosPlaying, &PositionStatus::ChapterNotChanged),
        TickAction::RestartFromOrigin
    );
    assert_eq!(
        tick_action(false, ControllerState::EosPlaying, &PositionStatus::ChapterNotChanged),
        TickAction::NoChange
    );
}

#[test]
fn stop_hands_the_pipeline_back() {
    let mut ctrl = MainController::new();
    ctrl.media_opened(opened_pipeline_with_toc());
    let pipeline = ctrl.stop();
    assert!(pipeline.is_some());
    assert_eq!(ctrl.state, ControllerState::Stopped);
    assert!(ctrl.pipeline.is_none());
    assert!(ctrl.stop().is_none());
}
