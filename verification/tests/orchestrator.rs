//! The push-to-talk cycle end to end: press, capture, release, backend.

use dictr::audio::{needs_resample, ResampleSession};
use dictr::orchestrator::{Orchestrator, OrchestratorState, ReleaseAction};
use rubato::Resampler;

/// A synthetic 440 Hz tone.
fn sine(rate: usize, seconds: usize) -> Vec<u32> {
    let n = rate * seconds;
    (0..n)
        .map(|i| {
            ((2.0 * std::f32::consts::PI * 440.0 * i as f32 / rate as f32).sin() * 0.3).to_bits()
        })
        .collect()
}

/// What the capture hands the orchestrator on stop: the buffered samples,
/// converted when the device rate is not canonical.
fn finish_capture(raw: Vec<u32>, device_rate: u32) -> Vec<u32> {
    if !needs_resample(device_rate) {
        return raw;
    }
    let mut session = ResampleSession::new(raw, device_rate as usize, 16000).unwrap();
    let mut converter: Option<rubato::FftFixedIn<f32>> = None;
    while let Some(window) = session.next_window() {
        if converter.is_none() {
            converter =
                Some(rubato::FftFixedIn::<f32>::new(device_rate as usize, 16000, 1024, 2, 1).unwrap());
        }
        let wave: Vec<f32> = window.iter().map(|b| f32::from_bits(*b)).collect();
        let out = converter.as_mut().unwrap().process(&[wave], None).unwrap();
        session.push_output(out[0].iter().map(|s| s.to_bits()).collect());
    }
    session.take_output()
}

#[test]
fn scenario_canonical_rate_press_hold_release() {
    // Press, hold two seconds of tone captured at the canonical rate,
    // release: the backend receives exactly the captured samples, no
    // conversion applied.
    let mut orch = Orchestrator::new(300);
    assert!(orch.on_pressed(0));
    assert_eq!(orch.state(), OrchestratorState::Recording);
    assert_eq!(orch.status_label(), "recording");

    let captured = finish_capture(sine(16000, 2), 16000);
    match orch.on_released(2000, captured) {
        ReleaseAction::Transcribe(samples) => {
            assert_eq!(samples.len(), 32000);
        }
        other => panic!("expected transcription, got {:?}", name_of(&other)),
    }
    assert_eq!(orch.state(), OrchestratorState::Transcribing);
    assert_eq!(orch.status_label(), "transcribing");

    let text = orch.on_transcribed(Ok("hello".to_string()));
    assert_eq!(text, Some("hello".to_string()));
    assert_eq!(orch.state(), OrchestratorState::Idle);
    assert_eq!(orch.status_label(), "idle");
}

#[test]
fn scenario_device_rate_press_hold_release() {
    // Press, hold two seconds at a 44100 Hz device rate, release: the
    // conversion yields about two seconds at the canonical rate.
    let mut orch = Orchestrator::new(300);
    assert!(orch.on_pressed(0));

    let captured = finish_capture(sine(44100, 2), 44100);
    match orch.on_released(2000, captured) {
        ReleaseAction::Transcribe(samples) => {
            let ratio = samples.len() as f64 / 32000.0;
            assert!(
                (0.9..=1.1).contains(&ratio),
                "expected ~32000 samples, got {}",
                samples.len()
            );
        }
        other => panic!("expected transcription, got {:?}", name_of(&other)),
    }
}

#[test]
fn scenario_short_press_never_reaches_the_backend() {
    // Press, release after 100 ms with a 300 ms minimum: the samples are
    // discarded and the orchestrator is idle again.
    let mut orch = Orchestrator::new(300);
    assert!(orch.on_pressed(0));
    let captured = finish_capture(sine(16000, 1), 16000);
    match orch.on_released(100, captured) {
        ReleaseAction::TooShort => {}
        other => panic!("expected a skip, got {:?}", name_of(&other)),
    }
    assert_eq!(orch.state(), OrchestratorState::Idle);
}

#[test]
fn empty_capture_never_reaches_the_backend() {
    let mut orch = Orchestrator::new(300);
    assert!(orch.on_pressed(0));
    match orch.on_released(1000, Vec::new()) {
        ReleaseAction::NoAudio => {}
        other => panic!("expected a skip, got {:?}", name_of(&other)),
    }
    assert_eq!(orch.state(), OrchestratorState::Idle);
}

#[test]
fn backend_failure_returns_to_idle() {
    let mut orch = Orchestrator::new(300);
    assert!(orch.on_pressed(0));
    match orch.on_released(1000, sine(16000, 1)) {
        ReleaseAction::Transcribe(_) => {}
        other => panic!("expected transcription, got {:?}", name_of(&other)),
    }
    let text = orch.on_transcribed(Err("connection refused".to_string()));
    assert_eq!(text, None);
    assert_eq!(orch.state(), OrchestratorState::Idle);
}

#[test]
fn empty_transcription_produces_no_output() {
    let mut orch = Orchestrator::new(300);
    assert!(orch.on_pressed(0));
    match orch.on_released(1000, sine(16000, 1)) {
        ReleaseAction::Transcribe(_) => {}
        other => panic!("expected transcription, got {:?}", name_of(&other)),
    }
    let text = orch.on_transcribed(Ok(String::new()));
    assert_eq!(text, None);
    assert_eq!(orch.state(), OrchestratorState::Idle);
}

#[test]
fn release_while_idle_is_ignored() {
    let mut orch = Orchestrator::new(300);
    match orch.on_released(1000, sine(16000, 1)) {
        ReleaseAction::Ignore => {}
        other => panic!("expected the release to be ignored, got {:?}", name_of(&other)),
    }
    assert_eq!(orch.state(), OrchestratorState::Idle);
}

#[test]
fn press_while_recording_is_ignored() {
    let mut orch = Orchestrator::new(300);
    assert!(orch.on_pressed(0));
    assert!(!orch.on_pressed(50));
    assert_eq!(orch.state(), OrchestratorState::Recording);
}

/// A readable label for a release action, for failure messages.
fn name_of(a: &ReleaseAction) -> &'static str {
    match a {
        ReleaseAction::Ignore => "Ignore",
        ReleaseAction::TooShort => "TooShort",
        ReleaseAction::NoAudio => "NoAudio",
        ReleaseAction::Transcribe(_) => "Transcribe",
    }
}
