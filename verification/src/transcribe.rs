//! The speech-to-text backend boundary.
//!
//! A backend takes canonical-rate mono samples and produces text.  The
//! inference engines themselves — an in-process model, a remote endpoint —
//! run outside of this crate; here live the backend capability interface
//! and the verified preparation and post-processing around each engine:
//! the empty-input fast path and segment joining of the local engine, and
//! the upload request assembly of the remote one.

use vstd::prelude::*;
use vstd::string::StringExecFns;
use crate::text::{str_to_chars, chars_to_string, trim_spec, trim_chars, push_range};
use crate::pcm::{encode_wav, wav_bytes};

verus! {

/// The single backend capability: transcribe mono samples, given as
/// IEEE 754 bit patterns at the canonical rate, with an optional language
/// hint and an optional vocabulary prompt.  Implementations live with
/// their engines, outside of this crate.
pub trait TranscribeBackend {
    fn transcribe(
        &mut self,
        audio: &Vec<u32>,
        language: Option<&str>,
        initial_prompt: Option<&str>,
    ) -> Result<String, String>;
}

/// What the local engine should do with an input.
#[derive(Debug, Clone, Copy, PartialEq, Eq, Structural)]
pub enum LocalPlan {
    /// Empty input succeeds at once with empty text; no inference runs.
    EmptyInput,
    /// Anything else goes through inference.
    Run,
}

/// Decide the local engine's handling of an input: exactly the empty
/// input is answered without inference.
pub fn prepare_local(samples: &Vec<u32>) -> (r: LocalPlan)
    ensures
        r == LocalPlan::EmptyInput <==> samples@.len() == 0,
{
    if samples.len() == 0 {
        LocalPlan::EmptyInput
    } else {
        LocalPlan::Run
    }
}

/// The segment texts trimmed and chained, each followed by one space.
pub open spec fn joined_raw(segs: Seq<String>) -> Seq<char>
    decreases segs.len(),
{
    if segs.len() == 0 {
        Seq::empty()
    } else {
        joined_raw(segs.drop_last()) + trim_spec(segs.last()@) + seq![' ']
    }
}

/// The text of a finished local inference: every emitted segment trimmed
/// and joined by single spaces, the whole trimmed once more.
pub open spec fn joined_segments(segs: Seq<String>) -> Seq<char> {
    trim_spec(joined_raw(segs))
}

/// Join the emitted segment texts into the transcription.
pub fn join_segments(segments: &Vec<String>) -> (r: String)
    ensures
        r@ == joined_segments(segments@),
{
    let mut acc: Vec<char> = Vec::new();
    let mut i: usize = 0;
    while i < segments.len()
        invariant
            i <= segments@.len(),
            acc@ == joined_raw(segments@.take(i as int)),
        decreases segments@.len() - i,
    {
        let seg = str_to_chars(segments[i].as_str());
        let t = trim_chars(&seg);
        let e = t.len();
        push_range(&mut acc, &t, 0, e);
        acc.push(' ');
        proof {
            assert(segments@.take(i + 1).drop_last() =~= segments@.take(i as int));
            assert(segments@.take(i + 1).last() == segments@[i as int]);
            assert(t@.subrange(0, t@.len() as int) =~= t@);
            assert(acc@ =~= joined_raw(segments@.take(i as int)) + trim_spec(
                segments@[i as int]@,
            ) + seq![' ']);
        }
        i += 1;
    }
    proof {
        assert(segments@.take(segments@.len() as int) =~= segments@);
    }
    let trimmed = trim_chars(&acc);
    chars_to_string(&trimmed)
}

/// The most samples an upload may hold; beyond it the container's sizes
/// would not fit their fields.
pub const MAX_WAV_SAMPLES: usize = 2000000000;

/// Why an upload request could not be built.
#[derive(Debug, Clone, Copy, PartialEq, Eq, Structural)]
pub enum RequestError {
    /// More samples than a container can carry.
    AudioTooLong,
}

/// A prepared upload: the WAV container bytes and the form's text
/// fields, in order.
pub struct TranscriptionRequest {
    pub wav: Vec<u8>,
    pub fields: Vec<(String, String)>,
}

/// The form fields of an upload: the fixed model identifier, then the
/// language hint and the vocabulary prompt when given.
pub open spec fn request_fields(language: Option<&str>, prompt: Option<&str>) -> Seq<
    (Seq<char>, Seq<char>),
> {
    seq![("model"@, "whisper-1"@)] + (match language {
        Some(l) => seq![("language"@, l@)],
        None => Seq::empty(),
    }) + (match prompt {
        Some(p) => seq![("prompt"@, p@)],
        None => Seq::empty(),
    })
}

/// Whether a field vector realizes a field specification.
pub open spec fn fields_match(fs: Seq<(String, String)>, sp: Seq<(Seq<char>, Seq<char>)>) -> bool {
    &&& fs.len() == sp.len()
    &&& forall|i: int|
        0 <= i < fs.len() ==> (#[trigger] fs[i]).0@ == sp[i].0 && fs[i].1@ == sp[i].1
}

/// Build the upload request for the remote engine: the samples as a
/// 16-bit mono 16 kHz WAV container and the form's text fields.
pub fn build_transcription_request(
    samples: &Vec<u32>,
    language: Option<&str>,
    initial_prompt: Option<&str>,
) -> (r: Result<TranscriptionRequest, RequestError>)
    ensures
        r is Err <==> samples@.len() > MAX_WAV_SAMPLES,
        r matches Err(e) ==> e == RequestError::AudioTooLong,
        r matches Ok(req) ==> {
            &&& req.wav@ == wav_bytes(samples@)
            &&& fields_match(req.fields@, request_fields(language, initial_prompt))
        },
{
    if samples.len() > MAX_WAV_SAMPLES {
        return Err(RequestError::AudioTooLong);
    }
    let wav = encode_wav(samples);
    let mut fields: Vec<(String, String)> = Vec::new();
    fields.push((String::from_str("model"), String::from_str("whisper-1")));
    match language {
        Some(l) => {
            fields.push((String::from_str("language"), String::from_str(l)));
        },
        None => {},
    }
    match initial_prompt {
        Some(p) => {
            fields.push((String::from_str("prompt"), String::from_str(p)));
        },
        None => {},
    }
    proof {
        let sp = request_fields(language, initial_prompt);
        match (language, initial_prompt) {
            (Some(l), Some(p)) => {
                assert(sp =~= seq![
                    ("model"@, "whisper-1"@),
                    ("language"@, l@),
                    ("prompt"@, p@),
                ]);
            },
            (Some(l), None) => {
                assert(sp =~= seq![("model"@, "whisper-1"@), ("language"@, l@)]);
            },
            (None, Some(p)) => {
                assert(sp =~= seq![("model"@, "whisper-1"@), ("prompt"@, p@)]);
            },
            (None, None) => {
                assert(sp =~= seq![("model"@, "whisper-1"@)]);
            },
        }
    }
    Ok(TranscriptionRequest { wav, fields })
}

} // verus!
