//! 16-bit PCM quantization and WAV framing.
//!
//! The remote backend submits captured audio as a 16-bit signed PCM, mono,
//! 16 kHz WAV container.  Samples arrive as IEEE 754 single-precision bit
//! patterns; quantization decodes the pattern and scales the sample's real
//! value by 32767 in exact integer arithmetic, truncating toward zero and
//! saturating to the signed 16-bit range.

use vstd::prelude::*;
use vstd::arithmetic::power2::{pow2, lemma_pow2_pos, lemma_pow2_strictly_increases, lemma2_to64_rest};
use vstd::arithmetic::div_mod::lemma_basic_div_specific_divisor;
use vstd::bits::lemma_u64_shr_is_div;

verus! {

/// The quantized 16-bit value of one sample, from its IEEE 754 single
/// precision bit pattern: the sample's real value scaled by 32767,
/// truncated toward zero and saturated to `[-32768, 32767]`.  An
/// undefined sample (NaN) quantizes to zero, an infinity saturates.
pub open spec fn spec_quantize(bits: u32) -> int {
    let sign = bits >> 31;
    let e = (bits >> 23) & 0xff;
    let m = (bits & 0x7fffff) as int;
    if e == 255 {
        if m != 0 {
            0
        } else if sign == 1 {
            -32768
        } else {
            32767
        }
    } else {
        // The magnitude of the sample is mm * 2^(ee - 150).
        let mm = if e == 0 {
            m
        } else {
            m + 0x800000
        };
        let ee = if e == 0 {
            1int
        } else {
            e as int
        };
        let q = if ee >= 150 {
            mm * 32767 * (pow2((ee - 150) as nat) as int)
        } else {
            mm * 32767 / (pow2((150 - ee) as nat) as int)
        };
        if sign == 1 {
            if q >= 32768 {
                -32768
            } else {
                -q
            }
        } else {
            if q >= 32767 {
                32767
            } else {
                q
            }
        }
    }
}

/// Quantize one sample bit pattern to a signed 16-bit PCM value.
pub fn quantize_sample(bits: u32) -> (r: i16)
    ensures
        r as int == spec_quantize(bits),
{
    let sign = bits >> 31;
    let e = (bits >> 23) & 0xff;
    let m = bits & 0x7fffff;
    if e == 255 {
        if m != 0 {
            0
        } else if sign == 1 {
            -32768
        } else {
            32767
        }
    } else {
        let mm: u64 = if e == 0 {
            m as u64
        } else {
            (m as u64) + 0x800000
        };
        let ee: u32 = if e == 0 {
            1
        } else {
            e
        };
        proof {
            assert(bits & 0x7fffff < 0x800000) by (bit_vector);
            assert(mm * 32767 < 0x8000000000u64) by (nonlinear_arith)
                requires
                    mm < 0x1000000,
            ;
        }
        if ee >= 150 {
            // The magnitude is at least 2^23, far past saturation.
            proof {
                lemma_pow2_pos((ee - 150) as nat);
                assert(mm * 32767 * (pow2((ee - 150) as nat) as int) >= 32768) by (nonlinear_arith)
                    requires
                        mm >= 0x800000,
                        pow2((ee - 150) as nat) >= 1,
                ;
            }
            if sign == 1 {
                -32768
            } else {
                32767
            }
        } else {
            let k: u32 = 150 - ee;
            let prod: u64 = mm * 32767;
            let q: u64 = if k >= 64 {
                proof {
                    lemma_pow2_strictly_increases(39, k as nat);
                    lemma2_to64_rest();
                    lemma_basic_div_specific_divisor(pow2(k as nat) as int);
                    assert((mm * 32767) as int / (pow2(k as nat) as int) == 0);
                }
                0
            } else {
                proof {
                    lemma_u64_shr_is_div(prod, k as u64);
                }
                prod >> (k as u64)
            };
            proof {
                lemma_pow2_pos(k as nat);
                assert(mm * 32767 / (pow2(k as nat) as int) <= mm * 32767) by (nonlinear_arith)
                    requires
                        pow2(k as nat) >= 1,
                        mm * 32767 >= 0,
                ;
            }
            if sign == 1 {
                if q >= 32768 {
                    -32768
                } else {
                    0 - (q as i16)
                }
            } else {
                if q >= 32767 {
                    32767
                } else {
                    q as i16
                }
            }
        }
    }
}

/// A 16-bit value as its two little-endian bytes; a negative value is
/// carried in two's complement.
pub open spec fn le16_bytes(v: int) -> Seq<u8> {
    let u = v % 65536;
    seq![(u % 256) as u8, (u / 256) as u8]
}

/// A 32-bit value as its four little-endian bytes.
pub open spec fn le32_bytes(v: int) -> Seq<u8> {
    seq![
        (v % 256) as u8,
        (v / 256 % 256) as u8,
        (v / 65536 % 256) as u8,
        (v / 16777216 % 256) as u8,
    ]
}

/// The 44-byte WAV container header for `n` mono 16-bit samples at the
/// canonical 16 kHz rate: the RIFF chunk, the 16-byte `fmt ` chunk
/// (integer PCM, one channel, 16000 frames per second, 32000 bytes per
/// second, block align 2, 16 bits per sample) and the `data` chunk header.
pub open spec fn wav_header(n: int) -> Seq<u8> {
    seq![0x52u8, 0x49u8, 0x46u8, 0x46u8]  // "RIFF"
     + le32_bytes(36 + 2 * n) + seq![0x57u8, 0x41u8, 0x56u8, 0x45u8]  // "WAVE"
     + seq![0x66u8, 0x6du8, 0x74u8, 0x20u8]  // "fmt "
     + le32_bytes(16) + le16_bytes(1) + le16_bytes(1) + le32_bytes(16000) + le32_bytes(32000)
        + le16_bytes(2) + le16_bytes(16) + seq![0x64u8, 0x61u8, 0x74u8, 0x61u8]  // "data"
     + le32_bytes(2 * n)
}

/// The PCM payload: every sample quantized and written as two
/// little-endian bytes, in order.
pub open spec fn pcm_bytes(samples: Seq<u32>) -> Seq<u8>
    decreases samples.len(),
{
    if samples.len() == 0 {
        Seq::empty()
    } else {
        pcm_bytes(samples.drop_last()) + le16_bytes(spec_quantize(samples.last()))
    }
}

/// The complete WAV container for the given samples.
pub open spec fn wav_bytes(samples: Seq<u32>) -> Seq<u8> {
    wav_header(samples.len() as int) + pcm_bytes(samples)
}

/// Append the two little-endian bytes of a quantized sample.
fn push_le16(out: &mut Vec<u8>, v: i16)
    ensures
        final(out)@ == old(out)@ + le16_bytes(v as int),
{
    let u: u32 = if v >= 0 {
        v as u32
    } else {
        (65536 + (v as i32)) as u32
    };
    assert(u == (v as int) % 65536);
    out.push((u % 256) as u8);
    out.push((u / 256) as u8);
    assert(out@ =~= old(out)@ + le16_bytes(v as int));
}

/// Append the four little-endian bytes of a 32-bit value.
fn push_le32(out: &mut Vec<u8>, v: u32)
    ensures
        final(out)@ == old(out)@ + le32_bytes(v as int),
{
    out.push((v % 256) as u8);
    out.push((v / 256 % 256) as u8);
    out.push((v / 65536 % 256) as u8);
    out.push((v / 16777216 % 256) as u8);
    assert(out@ =~= old(out)@ + le32_bytes(v as int));
}

/// Encode samples as a 16-bit signed PCM, mono, 16 kHz WAV container.
pub fn encode_wav(samples: &Vec<u32>) -> (r: Vec<u8>)
    requires
        samples@.len() <= 2000000000,
    ensures
        r@ == wav_bytes(samples@),
{
    let n = samples.len();
    let data_len: u32 = 2 * (n as u32);
    let mut out: Vec<u8> = Vec::new();
    out.push(0x52u8);
    out.push(0x49u8);
    out.push(0x46u8);
    out.push(0x46u8);
    push_le32(&mut out, 36 + data_len);
    out.push(0x57u8);
    out.push(0x41u8);
    out.push(0x56u8);
    out.push(0x45u8);
    out.push(0x66u8);
    out.push(0x6du8);
    out.push(0x74u8);
    out.push(0x20u8);
    push_le32(&mut out, 16);
    push_le16(&mut out, 1);
    push_le16(&mut out, 1);
    push_le32(&mut out, 16000);
    push_le32(&mut out, 32000);
    push_le16(&mut out, 2);
    push_le16(&mut out, 16);
    out.push(0x64u8);
    out.push(0x61u8);
    out.push(0x74u8);
    out.push(0x61u8);
    push_le32(&mut out, data_len);
    assert(out@ =~= wav_header(n as int));
    let mut i: usize = 0;
    while i < n
        invariant
            i <= n,
            n == samples@.len(),
            out@ == wav_header(n as int) + pcm_bytes(samples@.take(i as int)),
        decreases n - i,
    {
        let q = quantize_sample(samples[i]);
        push_le16(&mut out, q);
        proof {
            assert(samples@.take(i + 1).drop_last() =~= samples@.take(i as int));
            assert(samples@.take(i + 1).last() == samples@[i as int]);
        }
        i += 1;
    }
    proof {
        assert(samples@.take(n as int) =~= samples@);
    }
    out
}

} // verus!
