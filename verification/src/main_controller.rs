use vstd::prelude::*;

use crate::chapter_tree_manager::{chapters_sorted, spec_in_range, spec_update_status, ChapterIterStart, ChapterTreeManager, PositionStatus};
use crate::playback_pipeline::{PlaybackPipeline, SeekError, SelectStreamsError};
use crate::timestamp::Timestamp;

verus! {

/// The caller-facing state of the playback session.
#[derive(Clone, Copy, Debug, PartialEq, Eq, Structural)]
pub enum ControllerState {
    /// The media ended while paused.
    EosPaused,
    /// The media ended while playing.
    EosPlaying,
    Paused,
    /// A media-selection decision is pending with the user.
    PendingSelectMediaDecision,
    Playing,
    Stopped,
}

/// What a play/pause command asks of the engine.
#[derive(Clone, Copy, Debug, PartialEq, Eq, Structural)]
pub enum PlayPauseAction {
    /// Ask the engine to play and start the position tracker.
    StartPlaying,
    /// Ask the engine to pause and stop the position tracker.
    PausePlayback,
    /// Seek back to the origin, then play and restart the tracker.
    RestartFromOrigin,
    /// Seek back to the origin and stay paused.
    ReturnToOrigin,
    /// Nothing is loaded: open the media selection.
    SelectMedia,
    /// A selection decision is already pending: do nothing.
    Ignore,
}

/// What follows a finished seek request.
#[derive(Clone, Copy, Debug, PartialEq, Eq, Structural)]
pub enum SeekOutcome {
    /// The seek took: refresh the position display.
    UpdatePosition,
    /// The target lay past the end: surface an end-of-stream event.
    EmitEos,
    /// The graph is broken: the session stopped and the controller must
    /// be torn down.
    TearDown,
    /// The session is in no state to seek: nothing happened.
    Ignore,
}

/// What follows a finished stream selection.
#[derive(Clone, Copy, Debug, PartialEq, Eq, Structural)]
pub enum SelectStreamsOutcome {
    /// The selection took: refresh the stream-dependent display.
    RefreshStreams,
    /// The graph is broken: the session stopped and the controller must
    /// be torn down.
    TearDown,
    /// The caller passed an id it never discovered: a programming error.
    Fatal,
}

/// What a position tick asks of the caller.
#[derive(Clone, Copy, Debug, PartialEq, Eq, Structural)]
pub enum TickAction {
    /// Repeat is on and the media just ended: seek back to the origin.
    RestartFromOrigin,
    /// Repeat is on and playback just left a chapter: seek back to that
    /// chapter's start.
    RepeatChapter { restart_at: Timestamp },
    /// The chapter selection moved: update the display.
    RefreshSelection { prev_chapter: Option<ChapterIterStart> },
    /// Nothing beyond the position display.
    NoChange,
}

/// How a position tick is resolved, given the repeat toggle, the
/// session state, and what the chapter index reported: at end of
/// stream repeat restarts the media; on leaving a chapter repeat
/// returns to it, overriding the selection change; otherwise a
/// selection change is surfaced as it is.
pub open spec fn spec_tick_action(
    repeat_chapter: bool,
    state: ControllerState,
    status: PositionStatus,
) -> TickAction {
    if repeat_chapter && state == ControllerState::EosPlaying {
        TickAction::RestartFromOrigin
    } else {
        match status {
            PositionStatus::ChapterChanged { prev_chapter } => {
                if repeat_chapter && prev_chapter is Some {
                    TickAction::RepeatChapter { restart_at: prev_chapter->Some_0.start }
                } else {
                    TickAction::RefreshSelection { prev_chapter }
                }
            },
            PositionStatus::ChapterNotChanged => TickAction::NoChange,
        }
    }
}

/// The decision half of a position tick.
pub fn tick_action(repeat_chapter: bool, state: ControllerState, status: &PositionStatus) -> (r:
    TickAction)
    ensures
        r == spec_tick_action(repeat_chapter, state, *status),
{
    if repeat_chapter && state == ControllerState::EosPlaying {
        TickAction::RestartFromOrigin
    } else {
        match status {
            PositionStatus::ChapterChanged { prev_chapter } => {
                match prev_chapter {
                    Option::Some(prev) => {
                        if repeat_chapter {
                            TickAction::RepeatChapter { restart_at: prev.start }
                        } else {
                            TickAction::RefreshSelection { prev_chapter: Option::Some(*prev) }
                        }
                    },
                    Option::None => TickAction::RefreshSelection { prev_chapter: Option::None },
                }
            },
            PositionStatus::ChapterNotChanged => TickAction::NoChange,
        }
    }
}

/// The playback session: at most one pipeline controller, the
/// caller-facing state, the chapter index position ticks feed, and the
/// repeat-current-chapter toggle.
#[derive(Debug)]
pub struct MainController {
    pub pipeline: Option<PlaybackPipeline>,
    pub state: ControllerState,
    pub chapter_manager: ChapterTreeManager,
    pub repeat_chapter: bool,
}

impl MainController {
    pub open spec fn wf(&self) -> bool {
        &&& match self.pipeline {
            Option::Some(p) => p.wf(),
            Option::None => true,
        }
        &&& self.chapter_manager.wf()
    }

    /// A session with nothing loaded.
    pub fn new() -> (r: Self)
        ensures
            r.wf(),
            r.pipeline is None,
            r.state == ControllerState::Stopped,
            r.chapter_manager.chapters@.len() == 0,
            !r.repeat_chapter,
    {
        MainController {
            pipeline: Option::None,
            state: ControllerState::Stopped,
            chapter_manager: ChapterTreeManager::new(),
            repeat_chapter: false,
        }
    }

    /// Toggles between paused and playing; at end of stream seeks back
    /// to the origin and resumes the prior mode; with nothing loaded
    /// opens the media selection.
    pub fn play_pause(&mut self) -> (r: PlayPauseAction)
        requires
            old(self).wf(),
        ensures
            final(self).wf(),
            final(self).pipeline == old(self).pipeline,
            final(self).chapter_manager == old(self).chapter_manager,
            final(self).repeat_chapter == old(self).repeat_chapter,
            (final(self).state, r) == match old(self).state {
                ControllerState::Paused => (ControllerState::Playing, PlayPauseAction::StartPlaying),
                ControllerState::Playing => (
                    ControllerState::Paused,
                    PlayPauseAction::PausePlayback,
                ),
                ControllerState::EosPlaying => (
                    ControllerState::Playing,
                    PlayPauseAction::RestartFromOrigin,
                ),
                ControllerState::EosPaused => (
                    ControllerState::Paused,
                    PlayPauseAction::ReturnToOrigin,
                ),
                ControllerState::Stopped => (
                    ControllerState::PendingSelectMediaDecision,
                    PlayPauseAction::SelectMedia,
                ),
                ControllerState::PendingSelectMediaDecision => (
                    ControllerState::PendingSelectMediaDecision,
                    PlayPauseAction::Ignore,
                ),
            },
    {
        match self.state {
            ControllerState::Paused => {
                self.state = ControllerState::Playing;
                PlayPauseAction::StartPlaying
            },
            ControllerState::Playing => {
                self.state = ControllerState::Paused;
                PlayPauseAction::PausePlayback
            },
            ControllerState::EosPlaying => {
                self.state = ControllerState::Playing;
                PlayPauseAction::RestartFromOrigin
            },
            ControllerState::EosPaused => {
                self.state = ControllerState::Paused;
                PlayPauseAction::ReturnToOrigin
            },
            ControllerState::Stopped => {
                self.state = ControllerState::PendingSelectMediaDecision;
                PlayPauseAction::SelectMedia
            },
            ControllerState::PendingSelectMediaDecision => PlayPauseAction::Ignore,
        }
    }

    /// An end-of-stream event: a running or paused session moves to the
    /// matching end-of-stream state; the position tracker halts either
    /// way.
    pub fn eos(&mut self)
        requires
            old(self).wf(),
        ensures
            final(self).wf(),
            final(self).pipeline == old(self).pipeline,
            final(self).chapter_manager == old(self).chapter_manager,
            final(self).repeat_chapter == old(self).repeat_chapter,
            final(self).state == match old(self).state {
                ControllerState::Playing => ControllerState::EosPlaying,
                ControllerState::Paused => ControllerState::EosPaused,
                other => other,
            },
    {
        match self.state {
            ControllerState::Playing => {
                self.state = ControllerState::EosPlaying;
            },
            ControllerState::Paused => {
                self.state = ControllerState::EosPaused;
            },
            _ => (),
        }
    }

    /// Tears the session down: the pipeline controller is dropped (the
    /// caller deregisters its bus watch and nulls the graph first) and
    /// the session stops.
    pub fn stop(&mut self) -> (r: Option<PlaybackPipeline>)
        requires
            old(self).wf(),
        ensures
            final(self).wf(),
            final(self).pipeline is None,
            final(self).state == ControllerState::Stopped,
            final(self).chapter_manager == old(self).chapter_manager,
            final(self).repeat_chapter == old(self).repeat_chapter,
            r == old(self).pipeline,
    {
        self.state = ControllerState::Stopped;
        self.pipeline.take()
    }

    /// Requests media selection: the session holds for a decision; the
    /// caller pauses the engine first when the answer is `true`.
    pub fn select_media(&mut self) -> (r: bool)
        requires
            old(self).wf(),
        ensures
            final(self).wf(),
            final(self).pipeline == old(self).pipeline,
            final(self).chapter_manager == old(self).chapter_manager,
            final(self).repeat_chapter == old(self).repeat_chapter,
            final(self).state == ControllerState::PendingSelectMediaDecision,
            r == (old(self).state == ControllerState::Playing || old(self).state
                == ControllerState::EosPlaying),
    {
        let hold = match self.state {
            ControllerState::Playing | ControllerState::EosPlaying => true,
            _ => false,
        };
        self.state = ControllerState::PendingSelectMediaDecision;
        hold
    }

    /// Withdraws a pending media selection: back to paused when media is
    /// loaded, to stopped when none is.
    pub fn cancel_select_media(&mut self)
        requires
            old(self).wf(),
        ensures
            final(self).wf(),
            final(self).pipeline == old(self).pipeline,
            final(self).chapter_manager == old(self).chapter_manager,
            final(self).repeat_chapter == old(self).repeat_chapter,
            final(self).state == if old(self).state
                == ControllerState::PendingSelectMediaDecision {
                if old(self).pipeline is Some {
                    ControllerState::Paused
                } else {
                    ControllerState::Stopped
                }
            } else {
                old(self).state
            },
    {
        if let ControllerState::PendingSelectMediaDecision = self.state {
            self.state = if self.pipeline.is_some() {
                ControllerState::Paused
            } else {
                ControllerState::Stopped
            };
        }
    }

    /// Installs a freshly opened pipeline controller: the session
    /// resumes paused and the chapter index is rebuilt from the media's
    /// table of contents.
    pub fn media_opened(&mut self, pipeline: PlaybackPipeline)
        requires
            old(self).wf(),
            pipeline.wf(),
        ensures
            final(self).wf(),
            final(self).pipeline == Option::Some(pipeline),
            final(self).state == ControllerState::Paused,
            final(self).repeat_chapter == old(self).repeat_chapter,
            final(self).chapter_manager.chapters@.len() == match pipeline.info.toc {
                Option::Some(entries) => entries@.len(),
                Option::None => 0nat,
            },
            match pipeline.info.toc {
                Option::Some(entries) => forall|i: int|
                    0 <= i < entries@.len() ==> {
                        &&& (#[trigger] final(self).chapter_manager.chapters@[i]).ts.start
                            == entries@[i].start
                        &&& final(self).chapter_manager.chapters@[i].ts.end == entries@[i].end
                    },
                Option::None => true,
            },
            final(self).chapter_manager.selected == if final(self).chapter_manager.chapters@.len() > 0 && final(self).chapter_manager.chapters@[0].ts.start@ == 0 {
                Option::Some(0usize)
            } else {
                Option::<usize>::None
            },
    {
        self.chapter_manager.replace_with(&pipeline.info.toc);
        self.pipeline = Option::Some(pipeline);
        self.state = ControllerState::Paused;
    }

    /// Reconciles the session with a seek's outcome: a seek that took
    /// clears an end-of-stream state; a seek past the end surfaces an
    /// end-of-stream event; an unrecoverable error stops the session.
    pub fn handle_seek_result(&mut self, res: &Result<(), SeekError>) -> (r: SeekOutcome)
        requires
            old(self).wf(),
        ensures
            final(self).wf(),
            final(self).chapter_manager == old(self).chapter_manager,
            final(self).repeat_chapter == old(self).repeat_chapter,
            match old(self).state {
                ControllerState::Playing
                | ControllerState::Paused
                | ControllerState::EosPaused
                | ControllerState::EosPlaying => match res {
                    Result::Ok(()) => {
                        &&& r == SeekOutcome::UpdatePosition
                        &&& final(self).pipeline == old(self).pipeline
                        &&& final(self).state == match old(self).state {
                            ControllerState::EosPlaying => ControllerState::Playing,
                            ControllerState::EosPaused => ControllerState::Paused,
                            other => other,
                        }
                    },
                    Result::Err(SeekError::Eos) => {
                        &&& r == SeekOutcome::EmitEos
                        &&& final(self).pipeline == old(self).pipeline
                        &&& final(self).state == old(self).state
                    },
                    Result::Err(SeekError::Unrecoverable) => {
                        &&& r == SeekOutcome::TearDown
                        &&& final(self).pipeline is None
                        &&& final(self).state == ControllerState::Stopped
                    },
                },
                _ => {
                    &&& r == SeekOutcome::Ignore
                    &&& final(self).pipeline == old(self).pipeline
                    &&& final(self).state == old(self).state
                },
            },
    {
        match self.state {
            ControllerState::Playing
            | ControllerState::Paused
            | ControllerState::EosPaused
            | ControllerState::EosPlaying => match res {
                Result::Ok(()) => {
                    match self.state {
                        ControllerState::EosPlaying => {
                            self.state = ControllerState::Playing;
                        },
                        ControllerState::EosPaused => {
                            self.state = ControllerState::Paused;
                        },
                        _ => (),
                    }
                    SeekOutcome::UpdatePosition
                },
                Result::Err(SeekError::Eos) => SeekOutcome::EmitEos,
                Result::Err(SeekError::Unrecoverable) => {
                    self.stop();
                    SeekOutcome::TearDown
                },
            },
            _ => SeekOutcome::Ignore,
        }
    }

    /// Reconciles the session with a stream selection's outcome: a
    /// selection that took clears an end-of-stream state; an
    /// unrecoverable error stops the session; an unknown id is a
    /// programming error of the caller.
    pub fn handle_select_streams_result(&mut self, res: &Result<(), SelectStreamsError>) -> (r:
        SelectStreamsOutcome)
        requires
            old(self).wf(),
        ensures
            final(self).wf(),
            final(self).chapter_manager == old(self).chapter_manager,
            final(self).repeat_chapter == old(self).repeat_chapter,
            match res {
                Result::Ok(()) => {
                    &&& r == SelectStreamsOutcome::RefreshStreams
                    &&& final(self).pipeline == old(self).pipeline
                    &&& final(self).state == match old(self).state {
                        ControllerState::EosPlaying => ControllerState::Playing,
                        ControllerState::EosPaused => ControllerState::Paused,
                        other => other,
                    }
                },
                Result::Err(SelectStreamsError::Unrecoverable) => {
                    &&& r == SelectStreamsOutcome::TearDown
                    &&& final(self).pipeline is None
                    &&& final(self).state == ControllerState::Stopped
                },
                Result::Err(SelectStreamsError::UnknownId(_)) => {
                    &&& r == SelectStreamsOutcome::Fatal
                    &&& final(self).pipeline == old(self).pipeline
                    &&& final(self).state == old(self).state
                },
            },
    {
        match res {
            Result::Ok(()) => {
                match self.state {
                    ControllerState::EosPlaying => {
                        self.state = ControllerState::Playing;
                    },
                    ControllerState::EosPaused => {
                        self.state = ControllerState::Paused;
                    },
                    _ => (),
                }
                SelectStreamsOutcome::RefreshStreams
            },
            Result::Err(SelectStreamsError::Unrecoverable) => {
                self.stop();
                SelectStreamsOutcome::TearDown
            },
            Result::Err(SelectStreamsError::UnknownId(_)) => SelectStreamsOutcome::Fatal,
        }
    }

    /// Feeds one position sample to the chapter index and resolves the
    /// repeat-chapter logic: leaving a chapter with repeat on seeks back
    /// to it (the selection is withheld until playback lands there); at
    /// end of stream repeat restarts the media.
    pub fn tick(&mut self, ts: Timestamp) -> (r: TickAction)
        requires
            old(self).wf(),
        ensures
            final(self).wf(),
            final(self).pipeline == old(self).pipeline,
            final(self).state == old(self).state,
            final(self).repeat_chapter == old(self).repeat_chapter,
            final(self).chapter_manager.chapters == old(self).chapter_manager.chapters,
            // whatever ends up selected holds the timestamp
            match final(self).chapter_manager.selected {
                Option::Some(i) => spec_in_range(
                    final(self).chapter_manager.chapters@[i as int],
                    ts,
                ),
                Option::None => true,
            },
            // the repeat restart decisions, exactly
            (r == TickAction::RestartFromOrigin) == (old(self).repeat_chapter && old(self).state
                == ControllerState::EosPlaying),
            r matches TickAction::RepeatChapter { restart_at } ==> old(self).repeat_chapter
                && match old(self).chapter_manager.selected {
                Option::Some(i) => restart_at == old(self).chapter_manager.chapters@[i as int].ts.start,
                Option::None => false,
            },
            // a repeated chapter is unselected until playback lands there
            r is RepeatChapter ==> final(self).chapter_manager.selected is None,
            // a surfaced selection change reports the chapter left behind
            r matches TickAction::RefreshSelection { prev_chapter } ==> match old(self).chapter_manager.selected {
                Option::Some(i) => prev_chapter matches Option::Some(p) && p.index == i && p.start
                    == old(self).chapter_manager.chapters@[i as int].ts.start,
                Option::None => prev_chapter is None,
            },
            // no action leaves the selection as it was
            r is NoChange ==> final(self).chapter_manager.selected == old(
                self,
            ).chapter_manager.selected,
            // on a sorted chapter list the action is fixed entirely by the
            // status the index reports
            chapters_sorted(old(self).chapter_manager.chapters@) ==> r == spec_tick_action(
                old(self).repeat_chapter,
                old(self).state,
                spec_update_status(old(self).chapter_manager, ts),
            ),
    {
        let status = self.chapter_manager.update_ts(ts);
        let action = tick_action(self.repeat_chapter, self.state, &status);
        if let TickAction::RepeatChapter { .. } = action {
            self.chapter_manager.unselect();
        }
        action
    }
}

} // verus!
