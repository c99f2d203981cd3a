//! Sample-rate conversion: the windowing session driven by the real
//! frequency-domain converter, and the capture fast path.

use dictr::audio::{needs_resample, ResampleSession, TARGET_SAMPLE_RATE};
use rubato::Resampler;

/// Drive a conversion session with the real converter, exactly as the
/// capture pipeline does.
fn resample(input: &[f32], from: usize, to: usize) -> Result<Vec<f32>, String> {
    let bits: Vec<u32> = input.iter().map(|s| s.to_bits()).collect();
    let mut session = match ResampleSession::new(bits, from, to) {
        Ok(s) => s,
        Err(e) => return Err(format!("{e:?}")),
    };
    let mut converter: Option<rubato::FftFixedIn<f32>> = None;
    while let Some(window) = session.next_window() {
        if converter.is_none() {
            let c = rubato::FftFixedIn::<f32>::new(from, to, 1024, 2, 1)
                .map_err(|e| e.to_string())?;
            converter = Some(c);
        }
        let wave: Vec<f32> = window.iter().map(|b| f32::from_bits(*b)).collect();
        let out = converter
            .as_mut()
            .unwrap()
            .process(&[wave], None)
            .map_err(|e| e.to_string())?;
        session.push_output(out[0].iter().map(|s| s.to_bits()).collect());
    }
    Ok(session.take_output().into_iter().map(f32::from_bits).collect())
}

#[test]
fn resample_empty_input() {
    let result = resample(&[], 44100, 16000).unwrap();
    assert!(result.is_empty());
}

#[test]
fn resample_preserves_approximate_duration() {
    // 1 second of silence at 44100Hz
    let input = vec![0.0f32; 44100];
    let output = resample(&input, 44100, 16000).unwrap();
    // Should be approximately 16000 samples (within 5% tolerance)
    let ratio = output.len() as f64 / 16000.0;
    assert!(
        (0.95..=1.05).contains(&ratio),
        "expected ~16000 samples, got {}",
        output.len()
    );
}

#[test]
fn resample_44100_to_16000_sine() {
    // Generate 440Hz sine wave at 44100Hz for 0.5s
    let n = 44100 / 2;
    let input: Vec<f32> = (0..n)
        .map(|i| (2.0 * std::f32::consts::PI * 440.0 * i as f32 / 44100.0).sin())
        .collect();
    let output = resample(&input, 44100, 16000).unwrap();

    let expected = n * 16000 / 44100;
    let ratio = output.len() as f64 / expected as f64;
    assert!(
        (0.9..=1.1).contains(&ratio),
        "expected ~{expected} samples, got {}",
        output.len()
    );

    // Output should have non-trivial signal (not all zeros)
    let energy: f32 = output.iter().map(|s| s * s).sum();
    assert!(energy > 0.1, "resampled signal has no energy");
}

#[test]
fn resample_same_rate_skipped_in_recorder() {
    // When source == target, resample isn't called, but test it anyway
    let input = vec![0.5f32; 16000];
    let output = resample(&input, 16000, 16000).unwrap();
    assert_eq!(output.len(), input.len());
}

#[test]
fn resample_non_chunk_aligned_length() {
    // Input not evenly divisible by chunk_size (1024)
    let input = vec![0.1f32; 3000];
    let output = resample(&input, 48000, 16000).unwrap();
    assert!(!output.is_empty());
}

#[test]
fn resample_same_rate_returns_input_unchanged() {
    let input: Vec<f32> = (0..5000).map(|i| (i as f32 / 5000.0) - 0.5).collect();
    let output = resample(&input, 48000, 48000).unwrap();
    assert_eq!(output.len(), input.len());
    for (a, b) in input.iter().zip(output.iter()) {
        assert_eq!(a.to_bits(), b.to_bits());
    }
}

#[test]
fn resample_rejects_zero_rate() {
    let input = vec![0.0f32; 100];
    assert!(resample(&input, 0, 16000).is_err());
    assert!(resample(&input, 16000, 0).is_err());
}

#[test]
fn resample_empty_input_ignores_bad_rates() {
    // An empty capture succeeds whatever the rates are.
    let result = resample(&[], 0, 0).unwrap();
    assert!(result.is_empty());
}

#[test]
fn session_windows_are_padded_to_full_size() {
    let bits = vec![0x3f800000u32; 1500];
    let mut session = ResampleSession::new(bits, 48000, 16000).unwrap();
    let first = session.next_window().unwrap();
    assert_eq!(first.len(), 1024);
    session.push_output(Vec::new());
    let second = session.next_window().unwrap();
    assert_eq!(second.len(), 1024);
    // 476 real samples, zero-padded to the window size
    assert!(second[..476].iter().all(|&b| b == 0x3f800000u32));
    assert!(second[476..].iter().all(|&b| b == 0));
}

#[test]
fn needs_resample_only_off_canonical_rate() {
    assert!(!needs_resample(TARGET_SAMPLE_RATE));
    assert!(needs_resample(44100));
    assert!(needs_resample(48000));
}
