//! The push-to-talk state machine.
//!
//! One cycle runs Idle → Recording → Transcribing → Idle.  The
//! orchestrator owns only the decisions: which edge event causes which
//! transition, when a recording is discarded as too short or empty, and
//! what happens to a backend's outcome.  Capturing audio, calling the
//! backend and emitting text are actions its callers perform.

use vstd::prelude::*;
use vstd::string::StringExecFns;

verus! {

/// The phase the pipeline is in.
#[derive(Debug, Clone, Copy, PartialEq, Eq, Structural)]
pub enum OrchestratorState {
    Idle,
    Recording,
    Transcribing,
}

/// What a release edge leads to.
pub enum ReleaseAction {
    /// No recording was in progress; nothing happens.
    Ignore,
    /// The press was shorter than the configured minimum; the samples
    /// are discarded and no backend is invoked.
    TooShort,
    /// Nothing was captured; no backend is invoked.
    NoAudio,
    /// The captured samples go to the backend.
    Transcribe(Vec<u32>),
}

/// The elapsed time between press and release, saturating at zero when
/// the clock reads earlier than the press.
pub open spec fn elapsed_ms(press_ms: u64, now_ms: u64) -> int {
    if now_ms >= press_ms {
        now_ms - press_ms
    } else {
        0
    }
}

/// The push-to-talk state machine.
pub struct Orchestrator {
    state: OrchestratorState,
    press_time_ms: u64,
    min_duration_ms: u64,
}

impl Orchestrator {
    /// The current phase.
    pub closed spec fn spec_state(&self) -> OrchestratorState {
        self.state
    }

    /// The timestamp of the press that started the current recording.
    pub closed spec fn spec_press_time(&self) -> u64 {
        self.press_time_ms
    }

    /// The configured minimum recording duration.
    pub closed spec fn spec_min_duration(&self) -> u64 {
        self.min_duration_ms
    }

    /// A fresh orchestrator, idle.
    pub fn new(min_duration_ms: u64) -> (r: Orchestrator)
        ensures
            r.spec_state() == OrchestratorState::Idle,
            r.spec_min_duration() == min_duration_ms,
    {
        Orchestrator {
            state: OrchestratorState::Idle,
            press_time_ms: 0,
            min_duration_ms,
        }
    }

    /// The current phase, for callers.
    pub fn state(&self) -> (r: OrchestratorState)
        ensures
            r == self.spec_state(),
    {
        self.state
    }

    /// A press edge: when idle, note the timestamp and move to Recording
    /// — the caller must then start the capture.  In any other phase the
    /// event changes nothing.
    pub fn on_pressed(&mut self, now_ms: u64) -> (start_capture: bool)
        ensures
            final(self).spec_min_duration() == old(self).spec_min_duration(),
            old(self).spec_state() == OrchestratorState::Idle ==> {
                &&& start_capture
                &&& final(self).spec_state() == OrchestratorState::Recording
                &&& final(self).spec_press_time() == now_ms
            },
            old(self).spec_state() != OrchestratorState::Idle ==> !start_capture && *final(self)
                == *old(self),
    {
        if self.state == OrchestratorState::Idle {
            self.state = OrchestratorState::Recording;
            self.press_time_ms = now_ms;
            true
        } else {
            false
        }
    }

    /// A release edge, with the samples the stopped capture produced.
    /// A press shorter than the configured minimum, or one that captured
    /// nothing, goes straight back to Idle and never reaches a backend;
    /// otherwise the samples are handed out for transcription and the
    /// phase becomes Transcribing.  A release without a recording in
    /// progress is ignored safely.
    pub fn on_released(&mut self, now_ms: u64, samples: Vec<u32>) -> (a: ReleaseAction)
        ensures
            final(self).spec_min_duration() == old(self).spec_min_duration(),
            old(self).spec_state() != OrchestratorState::Recording ==> (a is Ignore && *final(self)
                == *old(self)),
            old(self).spec_state() == OrchestratorState::Recording ==> {
                let e = elapsed_ms(old(self).spec_press_time(), now_ms);
                if e < old(self).spec_min_duration() {
                    a is TooShort && final(self).spec_state() == OrchestratorState::Idle
                } else if samples@.len() == 0 {
                    a is NoAudio && final(self).spec_state() == OrchestratorState::Idle
                } else {
                    &&& (a matches ReleaseAction::Transcribe(s) && s@ == samples@)
                    &&& final(self).spec_state() == OrchestratorState::Transcribing
                }
            },
    {
        if self.state != OrchestratorState::Recording {
            return ReleaseAction::Ignore;
        }
        let elapsed: u64 = if now_ms >= self.press_time_ms {
            now_ms - self.press_time_ms
        } else {
            0
        };
        if elapsed < self.min_duration_ms {
            self.state = OrchestratorState::Idle;
            ReleaseAction::TooShort
        } else if samples.len() == 0 {
            self.state = OrchestratorState::Idle;
            ReleaseAction::NoAudio
        } else {
            self.state = OrchestratorState::Transcribing;
            ReleaseAction::Transcribe(samples)
        }
    }

    /// The backend's outcome: whatever it was, the phase returns to Idle.
    /// Successful non-empty text is handed back for post-processing and
    /// output; empty text and failures produce nothing further.
    pub fn on_transcribed(&mut self, outcome: Result<String, String>) -> (text: Option<String>)
        ensures
            final(self).spec_state() == OrchestratorState::Idle,
            final(self).spec_min_duration() == old(self).spec_min_duration(),
            match outcome {
                Ok(t) => text == (if t@.len() == 0 {
                    Option::<String>::None
                } else {
                    Some(t)
                }),
                Err(_) => text is None,
            },
    {
        self.state = OrchestratorState::Idle;
        match outcome {
            Ok(t) => {
                if t.as_str().is_empty() {
                    None
                } else {
                    Some(t)
                }
            },
            Err(_) => None,
        }
    }

    /// The status label reported on entry to the current phase.
    pub fn status_label(&self) -> (r: String)
        ensures
            self.spec_state() == OrchestratorState::Idle ==> r@ == "idle"@,
            self.spec_state() == OrchestratorState::Recording ==> r@ == "recording"@,
            self.spec_state() == OrchestratorState::Transcribing ==> r@ == "transcribing"@,
    {
        match self.state {
            OrchestratorState::Idle => String::from_str("idle"),
            OrchestratorState::Recording => String::from_str("recording"),
            OrchestratorState::Transcribing => String::from_str("transcribing"),
        }
    }
}

} // verus!
