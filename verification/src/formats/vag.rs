//! VAG audio-sample container and ADPCM decoder.
//!
//! A sample is a 48-byte header (magic `VAGp`, version, data size and
//! sample rate as big-endian 32-bit fields, then a 16-byte
//! NUL-terminated name) followed by 16-byte ADPCM blocks.  Each block
//! holds a prediction-filter selector and shift factor in byte 0, a
//! loop-flag byte, and 14 data bytes whose 28 nibbles decode to 28
//! signed 16-bit samples through one of five fixed two-coefficient
//! prediction filters.

use vstd::prelude::*;

use crate::bytes::{be32, read_be32};
use crate::PsxError;

verus! {

/// Loop flags carried in byte 1 of an ADPCM block.
#[derive(Debug, Clone, Copy, PartialEq, Eq, Structural)]
pub enum LoopFlag {
    /// Keep playing.
    Continue,
    /// Last block.
    End,
    /// Loop region start.
    LoopStart,
    /// Loop region end.
    LoopEnd,
    /// Loop region start and end in one block.
    LoopStartEnd,
    /// End with mute.
    EndMute,
}

/// First coefficient of prediction filter `f`.
pub open spec fn filter_c0(f: int) -> int {
    if f == 1 {
        60
    } else if f == 2 {
        115
    } else if f == 3 {
        98
    } else if f == 4 {
        122
    } else {
        0
    }
}

/// Second coefficient of prediction filter `f`.
pub open spec fn filter_c1(f: int) -> int {
    if f == 2 {
        -52
    } else if f == 3 {
        -55
    } else if f == 4 {
        -60
    } else {
        0
    }
}

/// A 4-bit nibble read as a signed value.
pub open spec fn nib_signed(n: u8) -> int {
    if n < 8 {
        n as int
    } else {
        n - 16
    }
}

/// Two to the power `k`.
pub open spec fn pow2(k: int) -> int
    decreases k,
{
    if k <= 0 {
        1
    } else {
        2 * pow2(k - 1)
    }
}

/// Truncating (round-toward-zero) division of `x` by 64.
pub open spec fn tdiv64(x: int) -> int {
    if x >= 0 {
        x / 64
    } else {
        -((-x) / 64)
    }
}

/// Clamp `x` to the signed 16-bit range.
pub open spec fn clamp16(x: int) -> int {
    if x < -32768 {
        -32768
    } else if x > 32767 {
        32767
    } else {
        x
    }
}

/// One ADPCM sample: the sign-extended nibble scaled by
/// `2^(12 - shift)` (a shift above 12 is treated as 12), plus the
/// filter prediction from the previous two samples, clamped.
pub open spec fn adpcm_step(nib: u8, shift: int, f: int, h1: int, h2: int) -> int {
    let sh = if shift <= 12 {
        12 - shift
    } else {
        0
    };
    clamp16(nib_signed(nib) * pow2(sh) + tdiv64(h1 * filter_c0(f) + h2 * filter_c1(f) + 32))
}

/// Decode nibbles `j..28` of the block at `base`, threading the two
/// decode-history samples: yields the samples and the new history.
///
/// Nibble `j` lives in data byte `j / 2`; the low nibble of each byte
/// comes first.
pub open spec fn spec_block_from(d: Seq<u8>, base: int, j: int, h1: int, h2: int) -> (
    Seq<i16>,
    int,
    int,
)
    decreases 28 - j,
{
    if j < 0 || j >= 28 {
        (Seq::empty(), h1, h2)
    } else {
        let byte = d[base + 2 + j / 2];
        let nib = if j % 2 == 0 {
            byte & 0x0fu8
        } else {
            byte / 16
        };
        let s = adpcm_step(nib, (d[base] / 16) as int, (d[base] & 0x0fu8) as int, h1, h2);
        let (rest, r1, r2) = spec_block_from(d, base, j + 1, s, h1);
        (seq![s as i16] + rest, r1, r2)
    }
}

/// Decode the full 16-byte blocks of `d` from block `b` on, threading
/// the decode history; a block whose filter selector is 5 or more is
/// skipped, history unchanged.
pub open spec fn spec_decode_from(d: Seq<u8>, b: int, h1: int, h2: int) -> Seq<i16>
    decreases d.len() + 16 - b * 16 when b >= 0
{
    if b < 0 || b * 16 + 16 > d.len() {
        Seq::empty()
    } else if (d[b * 16] & 0x0fu8) >= 5 {
        spec_decode_from(d, b + 1, h1, h2)
    } else {
        let (samples, n1, n2) = spec_block_from(d, b * 16, 0, h1, h2);
        samples + spec_decode_from(d, b + 1, n1, n2)
    }
}

/// The PCM samples an ADPCM byte run decodes to.
pub open spec fn spec_decode_adpcm(d: Seq<u8>) -> Seq<i16> {
    spec_decode_from(d, 0, 0, 0)
}

/// Nibbles `j..28` of a silent block decode to zeros: with filter 0
/// the prediction contributes `32 / 64 == 0` whatever the history,
/// and a zero nibble contributes nothing.
proof fn lemma_silent_block_from(d: Seq<u8>, base: int, j: int, h1: int, h2: int)
    requires
        0 <= base,
        base + 16 <= d.len(),
        0 <= j <= 28,
        d[base] & 0x0fu8 == 0,
        forall|k: int| 0 <= k < 14 ==> #[trigger] d[base + 2 + k] == 0u8,
    ensures
        ({
            let (s, r1, r2) = spec_block_from(d, base, j, h1, h2);
            &&& s == Seq::new((28 - j) as nat, |i: int| 0i16)
            &&& (j < 28 ==> r1 == 0)
            &&& (j < 27 ==> r2 == 0)
            &&& (j == 27 ==> r2 == h1)
            &&& (j == 28 ==> r1 == h1 && r2 == h2)
        }),
    decreases 28 - j,
{
    if j < 28 {
        assert(d[base + 2 + j / 2] == 0u8);
        assert(0u8 & 0x0fu8 == 0u8) by (bit_vector);
        let shift = (d[base] / 16) as int;
        let sh = if shift <= 12 {
            12 - shift
        } else {
            0int
        };
        assert(nib_signed(0u8) == 0);
        assert(0 * pow2(sh) == 0);
        assert(filter_c0((d[base] & 0x0fu8) as int) == 0);
        assert(filter_c1((d[base] & 0x0fu8) as int) == 0);
        assert(h1 * 0 == 0) by (nonlinear_arith);
        assert(h2 * 0 == 0) by (nonlinear_arith);
        assert(tdiv64(32) == 0);
        assert(adpcm_step(0u8, shift, (d[base] & 0x0fu8) as int, h1, h2) == 0);
        lemma_silent_block_from(d, base, j + 1, 0, h1);
        assert(seq![0i16] + Seq::new((27 - j) as nat, |i: int| 0i16) =~= Seq::new(
            (28 - j) as nat,
            |i: int| 0i16,
        ));
    } else {
        assert(spec_block_from(d, base, j, h1, h2).0 =~= Seq::new(0, |i: int| 0i16));
    }
}

/// An ADPCM block of pure silence decodes to silence: when the
/// filter selector is 0 and all 28 data nibbles are zero, the block's
/// 28 decoded samples are all zero, whatever the decode history, and
/// the history after the block is zero.
pub proof fn lemma_silent_block_decodes_zero(d: Seq<u8>, base: int, h1: int, h2: int)
    requires
        0 <= base,
        base + 16 <= d.len(),
        d[base] & 0x0fu8 == 0,
        forall|k: int| 0 <= k < 14 ==> #[trigger] d[base + 2 + k] == 0u8,
    ensures
        spec_block_from(d, base, 0, h1, h2).0 == Seq::new(28, |i: int| 0i16),
        spec_block_from(d, base, 0, h1, h2).1 == 0,
        spec_block_from(d, base, 0, h1, h2).2 == 0,
{
    lemma_silent_block_from(d, base, 0, h1, h2);
}

/// Index of the first NUL in `s` at or after `i`, or `s.len()`.
pub open spec fn first_nul_from(s: Seq<u8>, i: int) -> int
    decreases s.len() - i,
{
    if i < 0 || i >= s.len() {
        s.len() as int
    } else if s[i] == 0u8 {
        i
    } else {
        first_nul_from(s, i + 1)
    }
}

/// Scan block flag bytes from block `b` on, carrying the loop points
/// found so far: flag 2 records a loop start, flag 3 a loop end, flag
/// 6 both (the end one block later); the last occurrence wins.
pub open spec fn spec_loop_scan(
    d: Seq<u8>,
    b: int,
    ls: Option<int>,
    le: Option<int>,
) -> (Option<int>, Option<int>)
    decreases d.len() + 16 - b * 16 when b >= 0
{
    if b < 0 || b * 16 + 2 > d.len() {
        (ls, le)
    } else {
        let flags = d[b * 16 + 1];
        let pos = b * 28;
        if flags == 2 {
            spec_loop_scan(d, b + 1, Option::Some(pos), le)
        } else if flags == 3 {
            spec_loop_scan(d, b + 1, ls, Option::Some(pos))
        } else if flags == 6 {
            spec_loop_scan(d, b + 1, Option::Some(pos), Option::Some(pos + 28))
        } else {
            spec_loop_scan(d, b + 1, ls, le)
        }
    }
}

/// The audio bytes of a VAG file: everything after the 48-byte
/// header, trimmed to the declared size when that is smaller.
pub open spec fn spec_vag_data(d: Seq<u8>) -> Seq<u8> {
    let size = be32(d, 12) as int;
    let avail = d.len() - 48;
    if size < avail {
        d.subrange(48, 48 + size)
    } else {
        d.subrange(48, d.len() as int)
    }
}

/// The header starts with the `VAGp` magic.
pub open spec fn spec_vag_magic_ok(d: Seq<u8>) -> bool {
    d[0] == 0x56u8 && d[1] == 0x41u8 && d[2] == 0x47u8 && d[3] == 0x70u8
}

/// The sample name: bytes 32..48 up to the first NUL.
pub open spec fn spec_vag_name(d: Seq<u8>) -> Seq<u8> {
    let raw = d.subrange(32, 48);
    raw.take(first_nul_from(raw, 0))
}

/// Parsed VAG audio sample.
#[derive(Debug, Clone)]
pub struct Vag {
    /// Sample name bytes (NUL terminator and what follows stripped).
    pub name: Vec<u8>,
    /// Sample rate in Hz.
    pub sample_rate: u32,
    /// Raw ADPCM data (16-byte blocks).
    pub data: Vec<u8>,
    /// Loop start position in samples, from the last start marker.
    pub loop_start: Option<usize>,
    /// Loop end position in samples, from the last end marker.
    pub loop_end: Option<usize>,
}

impl Vag {
    /// Parse a VAG file.
    ///
    /// Fails with `Truncated` when fewer than 48 header bytes are
    /// present and with `InvalidSignature` on a wrong magic.  The
    /// audio data is the declared size, trimmed to what remains after
    /// the header; loop points come from scanning the block flags.
    pub fn parse(data: &[u8]) -> (r: Result<Self, PsxError>)
        requires
            data@.len() <= usize::MAX / 2,
        ensures
            r is Ok <==> data@.len() >= 48 && spec_vag_magic_ok(data@),
            r matches Ok(v) ==> ({
                &&& v.name@ == spec_vag_name(data@)
                &&& v.sample_rate == be32(data@, 16)
                &&& v.data@ == spec_vag_data(data@)
                &&& (v.loop_start, v.loop_end) matches (ls, le) && spec_loop_scan(
                    spec_vag_data(data@),
                    0,
                    Option::None,
                    Option::None,
                ) == (
                    match ls {
                        Option::Some(s) => Option::Some(s as int),
                        Option::None => Option::<int>::None,
                    },
                    match le {
                        Option::Some(s) => Option::Some(s as int),
                        Option::None => Option::<int>::None,
                    },
                )
            }),
            r matches Err(e) ==> (e == PsxError::Truncated <==> data@.len() < 48) && (e
                == PsxError::InvalidSignature <==> data@.len() >= 48 && !spec_vag_magic_ok(data@)),
    {
        if data.len() < 48 {
            return Err(PsxError::Truncated);
        }
        if data[0] != 0x56 || data[1] != 0x41 || data[2] != 0x47 || data[3] != 0x70 {
            return Err(PsxError::InvalidSignature);
        }
        let size = read_be32(data, 12);
        let sample_rate = read_be32(data, 16);

        let ghost raw_name = data@.subrange(32, 48);
        let mut name: Vec<u8> = Vec::new();
        let mut i: usize = 32;
        while i < 48
            invariant_except_break
                32 <= i <= 48,
                data@.len() >= 48,
                raw_name == data@.subrange(32, 48),
                name@ =~= raw_name.take(i - 32),
                first_nul_from(raw_name, 0) == first_nul_from(raw_name, i - 32),
            ensures
                name@ =~= raw_name.take(first_nul_from(raw_name, 0)),
            decreases 48 - i,
        {
            let b = data[i];
            assert(b == raw_name[i - 32]);
            if b == 0 {
                assert(first_nul_from(raw_name, i - 32) == i - 32);
                break ;
            }
            name.push(b);
            i += 1;
        }

        let avail = data.len() - 48;
        let take = if (size as usize) < avail {
            size as usize
        } else {
            avail
        };
        let mut audio: Vec<u8> = Vec::new();
        let mut k: usize = 0;
        while k < take
            invariant
                0 <= k <= take,
                48 + take <= data@.len(),
                data@.len() <= usize::MAX / 2,
                audio@ =~= data@.subrange(48, 48 + k),
            decreases take - k,
        {
            audio.push(data[48 + k]);
            assert(audio@ =~= data@.subrange(48, 48 + k + 1));
            k += 1;
        }
        assert(audio@ == spec_vag_data(data@));

        let (loop_start, loop_end) = Self::find_loop_points(&audio);
        Ok(Vag { name, sample_rate, data: audio, loop_start, loop_end })
    }

    /// Scan block flag bytes for loop markers.
    fn find_loop_points(data: &Vec<u8>) -> (r: (Option<usize>, Option<usize>))
        requires
            data@.len() <= usize::MAX / 2,
        ensures
            spec_loop_scan(data@, 0, Option::None, Option::None) == (
                match r.0 {
                    Option::Some(s) => Option::Some(s as int),
                    Option::None => Option::<int>::None,
                },
                match r.1 {
                    Option::Some(s) => Option::Some(s as int),
                    Option::None => Option::<int>::None,
                },
            ),
    {
        let n = data.len();
        let mut loop_start: Option<usize> = None;
        let mut loop_end: Option<usize> = None;
        let mut b: usize = 0;
        loop
            invariant
                0 <= b,
                b * 16 <= n + 16,
                n == data@.len() <= usize::MAX / 2,
                spec_loop_scan(data@, 0, Option::None, Option::None) == spec_loop_scan(
                    data@,
                    b as int,
                    match loop_start {
                        Option::Some(s) => Option::Some(s as int),
                        Option::None => Option::<int>::None,
                    },
                    match loop_end {
                        Option::Some(s) => Option::Some(s as int),
                        Option::None => Option::<int>::None,
                    },
                ),
            ensures
                b * 16 + 2 > n,
                spec_loop_scan(data@, 0, Option::None, Option::None) == spec_loop_scan(
                    data@,
                    b as int,
                    match loop_start {
                        Option::Some(s) => Option::Some(s as int),
                        Option::None => Option::<int>::None,
                    },
                    match loop_end {
                        Option::Some(s) => Option::Some(s as int),
                        Option::None => Option::<int>::None,
                    },
                ),
            decreases n + 16 - b * 16,
        {
            if n < 2 || b > (n - 2) / 16 {
                assert(b * 16 + 2 > n);
                break ;
            }
            assert(b * 16 + 2 <= n);
            let flags = data[b * 16 + 1];
            let pos = b * 28;
            if flags == 2 {
                loop_start = Some(pos);
            } else if flags == 3 {
                loop_end = Some(pos);
            } else if flags == 6 {
                loop_start = Some(pos);
                loop_end = Some(pos + 28);
            }
            b += 1;
        }
        (loop_start, loop_end)
    }

    /// Decode the ADPCM data to 16-bit PCM samples.
    ///
    /// Each full 16-byte block yields 28 samples; a trailing partial
    /// block is ignored, and a block with a filter selector of 5 or
    /// more is skipped.
    #[verifier::rlimit(100)]
    pub fn decode_to_pcm(&self) -> (r: Vec<i16>)
        ensures
            r@ == spec_decode_adpcm(self.data@),
    {
        let d = &self.data;
        let n = d.len();
        let mut out: Vec<i16> = Vec::new();
        let mut h1: i64 = 0;
        let mut h2: i64 = 0;
        let mut b: usize = 0;
        loop
            invariant
                0 <= b,
                b * 16 <= n + 16,
                n == d@.len(),
                -32768 <= h1 <= 32767,
                -32768 <= h2 <= 32767,
                spec_decode_adpcm(d@) == out@ + spec_decode_from(
                    d@,
                    b as int,
                    h1 as int,
                    h2 as int,
                ),
            ensures
                spec_decode_from(d@, b as int, h1 as int, h2 as int) == Seq::<i16>::empty(),
                spec_decode_adpcm(d@) == out@ + spec_decode_from(
                    d@,
                    b as int,
                    h1 as int,
                    h2 as int,
                ),
            decreases n + 16 - b * 16,
        {
            if n < 16 || b > (n - 16) / 16 {
                assert(b * 16 + 16 > n);
                break ;
            }
            assert(b * 16 + 16 <= n);
            let base = b * 16;
            let filt = d[base] & 0x0f;
            let shift = d[base] / 16;
            if filt >= 5 {
                b += 1;
            } else {
                let c0: i64 = if filt == 1 {
                    60
                } else if filt == 2 {
                    115
                } else if filt == 3 {
                    98
                } else if filt == 4 {
                    122
                } else {
                    0
                };
                let c1: i64 = if filt == 2 {
                    -52
                } else if filt == 3 {
                    -55
                } else if filt == 4 {
                    -60
                } else {
                    0
                };
                assert(c0 == filter_c0(filt as int) && c1 == filter_c1(filt as int));
                let ghost bh1 = h1 as int;
                let ghost bh2 = h2 as int;
                let ghost o0 = out@;
                let mut j: usize = 0;
                while j < 28
                    invariant
                        0 <= j <= 28,
                        n == d@.len(),
                        base == b * 16,
                        base + 16 <= n,
                        -32768 <= h1 <= 32767,
                        -32768 <= h2 <= 32767,
                        c0 == filter_c0(filt as int),
                        c1 == filter_c1(filt as int),
                        filt == d@[base as int] & 0x0fu8,
                        filt < 5,
                        shift == d@[base as int] / 16,
                        spec_block_from(d@, base as int, 0, bh1, bh2) == ({
                            let (rest, r1, r2) = spec_block_from(
                                d@,
                                base as int,
                                j as int,
                                h1 as int,
                                h2 as int,
                            );
                            (out@.skip(o0.len() as int) + rest, r1, r2)
                        }),
                        out@.len() == o0.len() + j,
                        out@.take(o0.len() as int) == o0,
                    decreases 28 - j,
                {
                    let byte = d[base + 2 + j / 2];
                    let nib: u8 = if j % 2 == 0 {
                        byte & 0x0f
                    } else {
                        byte / 16
                    };
                    assert(byte & 0x0fu8 < 16) by (bit_vector);
                    assert(nib < 16);
                    let sh: u32 = if shift <= 12 {
                        12 - shift as u32
                    } else {
                        0
                    };
                    proof {
                        assert(-32768 * 122 <= h1 * c0 <= 32767 * 122) by (nonlinear_arith)
                            requires
                                -32768 <= h1 <= 32767,
                                0 <= c0 <= 122,
                        ;
                        assert(-32768 * 60 <= h2 * c1 * -1 <= 32767 * 60) by (nonlinear_arith)
                            requires
                                -32768 <= h2 <= 32767,
                                -60 <= c1 <= 0,
                        ;
                    }
                    let ns = nib_signed_exec(nib);
                    let p = pow2_exec(sh);
                    proof {
                        assert(-8 * 4096 <= ns * p <= 7 * 4096) by (nonlinear_arith)
                            requires
                                -8 <= ns <= 7,
                                1 <= p <= 4096,
                        ;
                    }
                    let scaled: i64 = ns * p;
                    let pred_num: i64 = h1 * c0 + h2 * c1 + 32;
                    let pred: i64 = if pred_num >= 0 {
                        pred_num / 64
                    } else {
                        -((-pred_num) / 64)
                    };
                    let mut v: i64 = scaled + pred;
                    if v < -32768 {
                        v = -32768;
                    }
                    if v > 32767 {
                        v = 32767;
                    }
                    assert(v as int == adpcm_step(
                        nib,
                        (d@[base as int] / 16) as int,
                        filt as int,
                        h1 as int,
                        h2 as int,
                    ));
                    let ghost out_pre = out@;
                    out.push(v as i16);
                    h2 = h1;
                    h1 = v;
                    proof {
                        assert(out@.take(o0.len() as int) =~= o0);
                        assert(out@.skip(o0.len() as int) =~= out_pre.skip(o0.len() as int)
                            + seq![v as i16]);
                        let (rest2, r1, r2) = spec_block_from(
                            d@,
                            base as int,
                            j as int + 1,
                            h1 as int,
                            h2 as int,
                        );
                        assert((out_pre.skip(o0.len() as int) + (seq![v as i16] + rest2)) =~= (
                        out@.skip(o0.len() as int) + rest2));
                    }
                    j += 1;
                }
                proof {
                    let (rest, r1, r2) = spec_block_from(
                        d@,
                        base as int,
                        28,
                        h1 as int,
                        h2 as int,
                    );
                    assert(rest =~= Seq::<i16>::empty());
                    assert(out@.skip(o0.len() as int) + rest =~= out@.skip(o0.len() as int));
                    let (all, a1, a2) = spec_block_from(d@, base as int, 0, bh1, bh2);
                    assert(all == out@.skip(o0.len() as int));
                    assert(a1 == h1 as int && a2 == h2 as int);
                    assert(o0 + all =~= out@);
                    let restb = spec_decode_from(d@, b as int + 1, h1 as int, h2 as int);
                    assert(o0 + (all + restb) =~= out@ + restb);
                }
                b += 1;
            }
        }
        assert(out@ + Seq::<i16>::empty() =~= out@);
        out
    }
}

/// A 4-bit nibble as a signed value.
fn nib_signed_exec(nib: u8) -> (r: i64)
    requires
        nib < 16,
    ensures
        r == nib_signed(nib),
{
    if nib < 8 {
        nib as i64
    } else {
        nib as i64 - 16
    }
}

/// Two to the power `k`, for the shift range.
fn pow2_exec(k: u32) -> (r: i64)
    requires
        k <= 12,
    ensures
        r == pow2(k as int),
        1 <= r <= 4096,
{
    let mut r: i64 = 1;
    let mut i: u32 = 0;
    while i < k
        invariant
            0 <= i <= k <= 12,
            r == pow2(i as int),
            1 <= r <= 4096,
        decreases k - i,
    {
        proof {
            lemma_pow2_bounds(i as int + 1);
        }
        r = r * 2;
        i += 1;
    }
    r
}

/// `pow2` is positive and monotone.
proof fn lemma_pow2_pos_mono(a: int, b: int)
    requires
        0 <= a <= b,
    ensures
        1 <= pow2(a) <= pow2(b),
    decreases b,
{
    if b > 0 {
        if a >= 1 {
            lemma_pow2_pos_mono(a - 1, b - 1);
        } else {
            lemma_pow2_pos_mono(0, b - 1);
        }
    }
}

/// `pow2` is positive and at most 4096 up to exponent 12.
proof fn lemma_pow2_bounds(k: int)
    requires
        0 <= k <= 12,
    ensures
        1 <= pow2(k) <= 4096,
{
    lemma_pow2_pos_mono(k, 12);
    assert(pow2(0) == 1);
    assert(pow2(1) == 2);
    assert(pow2(2) == 4);
    assert(pow2(3) == 8);
    assert(pow2(4) == 16);
    assert(pow2(5) == 32);
    assert(pow2(6) == 64);
    assert(pow2(7) == 128);
    assert(pow2(8) == 256);
    assert(pow2(9) == 512);
    assert(pow2(10) == 1024);
    assert(pow2(11) == 2048);
    assert(pow2(12) == 4096);
}

} // verus!
