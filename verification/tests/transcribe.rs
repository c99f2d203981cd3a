//! Backend preparation: WAV encoding, upload requests, segment joining,
//! the local empty-input fast path, and response decoding.

use dictr::json::{parse_transcription_response, ResponseError};
use dictr::pcm::{encode_wav, quantize_sample};
use dictr::transcribe::{
    build_transcription_request, join_segments, prepare_local, LocalPlan,
};
use std::io::Cursor;

fn bits(audio: &[f32]) -> Vec<u32> {
    audio.iter().map(|s| s.to_bits()).collect()
}

#[test]
fn encode_wav_produces_valid_wav() {
    let audio = vec![0.0f32; 16000]; // 1 second of silence
    let wav = encode_wav(&bits(&audio));

    // WAV header: "RIFF"
    assert_eq!(&wav[..4], b"RIFF");
    // Format: "WAVE"
    assert_eq!(&wav[8..12], b"WAVE");

    // Verify hound can read it back
    let reader = hound::WavReader::new(Cursor::new(&wav)).unwrap();
    let spec = reader.spec();
    assert_eq!(spec.channels, 1);
    assert_eq!(spec.sample_rate, 16000);
    assert_eq!(spec.bits_per_sample, 16);
    assert_eq!(spec.sample_format, hound::SampleFormat::Int);
}

#[test]
fn encode_wav_sample_count_matches() {
    let audio = vec![0.5f32; 8000];
    let wav = encode_wav(&bits(&audio));
    let reader = hound::WavReader::new(Cursor::new(&wav)).unwrap();
    assert_eq!(reader.len(), 8000);
}

#[test]
fn encode_wav_clamps_extremes() {
    let audio = vec![1.5, -1.5, 1.0, -1.0, 0.0];
    let wav = encode_wav(&bits(&audio));
    let mut reader = hound::WavReader::new(Cursor::new(&wav)).unwrap();
    let samples: Vec<i16> = reader.samples::<i16>().map(|s| s.unwrap()).collect();
    // Values beyond [-1, 1] should be clamped to i16 range
    assert_eq!(samples[0], i16::MAX);
    assert_eq!(samples[1], i16::MIN);
    assert_eq!(samples[4], 0);
}

#[test]
fn encode_wav_empty_audio() {
    let wav = encode_wav(&bits(&[]));
    let reader = hound::WavReader::new(Cursor::new(&wav)).unwrap();
    assert_eq!(reader.len(), 0);
}

#[test]
fn quantize_matches_scaled_samples() {
    assert_eq!(quantize_sample(1.0f32.to_bits()), i16::MAX);
    assert_eq!(quantize_sample((-1.0f32).to_bits()), -i16::MAX);
    assert_eq!(quantize_sample(0.0f32.to_bits()), 0);
    assert_eq!(quantize_sample(0.5f32.to_bits()), 16383);
    assert_eq!(quantize_sample(f32::NAN.to_bits()), 0);
    assert_eq!(quantize_sample(f32::INFINITY.to_bits()), i16::MAX);
    assert_eq!(quantize_sample(f32::NEG_INFINITY.to_bits()), i16::MIN);
}

#[test]
fn local_backend_empty_input_succeeds_with_empty_text() {
    // A press that captured nothing of substance must not fail: the
    // local engine answers empty input with empty text and never runs
    // inference.
    let samples: Vec<u32> = Vec::new();
    let outcome: Result<String, String> = match prepare_local(&samples) {
        LocalPlan::EmptyInput => Ok(String::new()),
        LocalPlan::Run => Err("inference should not run".to_string()),
    };
    assert_eq!(outcome, Ok(String::new()));
}

#[test]
fn prepare_local_runs_inference_on_audio() {
    let samples = bits(&[0.1f32, 0.2, 0.3]);
    assert_eq!(prepare_local(&samples), LocalPlan::Run);
}

#[test]
fn join_segments_trims_and_spaces() {
    let segs = vec![
        "  Hello".to_string(),
        "world ".to_string(),
        "".to_string(),
        "again".to_string(),
    ];
    assert_eq!(join_segments(&segs), "Hello world  again");
}

#[test]
fn join_segments_empty_is_empty() {
    let segs: Vec<String> = Vec::new();
    assert_eq!(join_segments(&segs), "");
}

#[test]
fn request_has_model_language_and_prompt_fields() {
    let samples = bits(&[0.0f32; 160]);
    let req = build_transcription_request(&samples, Some("en"), Some("NixOS, Rust")).unwrap();
    assert_eq!(req.wav, encode_wav(&samples));
    assert_eq!(
        req.fields,
        vec![
            ("model".to_string(), "whisper-1".to_string()),
            ("language".to_string(), "en".to_string()),
            ("prompt".to_string(), "NixOS, Rust".to_string()),
        ]
    );
}

#[test]
fn request_without_hints_has_only_the_model_field() {
    let samples = bits(&[0.0f32; 16]);
    let req = build_transcription_request(&samples, None, None).unwrap();
    assert_eq!(
        req.fields,
        vec![("model".to_string(), "whisper-1".to_string())]
    );
}

#[test]
fn response_with_text_field() {
    let r = parse_transcription_response("{\"text\": \"hello world\"}");
    assert_eq!(r, Ok("hello world".to_string()));
}

#[test]
fn response_without_text_field_is_empty_text() {
    let r = parse_transcription_response("{\"language\": \"en\"}");
    assert_eq!(r, Ok(String::new()));
}

#[test]
fn response_empty_object_is_empty_text() {
    let r = parse_transcription_response("  { }  ");
    assert_eq!(r, Ok(String::new()));
}

#[test]
fn response_repeated_field_keeps_the_last_value() {
    let r = parse_transcription_response("{\"text\": \"one\", \"text\": \"two\"}");
    assert_eq!(r, Ok("two".to_string()));
}

#[test]
fn response_decodes_escapes() {
    let r = parse_transcription_response(
        "{\"text\": \"a\\nb\\t\\\"q\\\" \\u0041 \\uD83D\\uDE00\"}",
    );
    assert_eq!(r, Ok("a\nb\t\"q\" A \u{1F600}".to_string()));
}

#[test]
fn response_rejects_invalid_bodies() {
    let malformed = [
        "",
        "not json",
        "[1, 2]",
        "{\"text\": 5}",
        "{\"text\": \"ok\"} trailing",
        "{\"text\": \"unterminated}",
        "{\"text\": \"lone \\uD800 surrogate\"}",
        "{\"text\"}",
    ];
    for body in malformed {
        assert_eq!(
            parse_transcription_response(body),
            Err(ResponseError::MalformedResponse),
            "accepted: {body}"
        );
    }
}
