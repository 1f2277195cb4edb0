//! Dictionary (LZSS-family) decompression.
//!
//! A compressed stream is a run of tokens governed by control bytes:
//! one control byte precedes each group of eight tokens, its bits read
//! least-significant first.  A set bit means one literal byte; a clear
//! bit means a 2-byte back-reference holding a 12-bit window offset and
//! a 4-bit length (offset by the minimum match length).  Every decoded
//! byte is also written into a sliding window at the write cursor,
//! which wraps around; back-references read from a fixed window offset.
//! Decoding stops at the first control byte past the end of input; a
//! token cut off mid-way is a truncation error.

use vstd::prelude::*;

use crate::PsxError;

verus! {

/// Decompression parameters of the dictionary scheme.
#[derive(Debug, Clone, Copy, PartialEq, Eq, Structural)]
pub struct LzssConfig {
    /// Size of the sliding window.
    pub window_size: usize,
    /// Maximum match length.
    pub max_match_len: usize,
    /// Minimum match length (added to the 4-bit length field).
    pub min_match_len: usize,
    /// Number of bits of a reference's offset field.
    pub offset_bits: u8,
    /// Number of bits of a reference's length field.
    pub length_bits: u8,
}

impl LzssConfig {
    /// The standard parameters: 4096-byte window, 12-bit offset,
    /// 4-bit length, matches of 3 to 18 bytes.
    pub fn standard() -> (r: Self)
        ensures
            r == spec_standard_config(),
    {
        Self {
            window_size: 4096,
            max_match_len: 18,
            min_match_len: 3,
            offset_bits: 12,
            length_bits: 4,
        }
    }

    /// The PlayStation variant in use; identical to the standard
    /// parameters.
    pub fn ps1_variant() -> (r: Self)
        ensures
            r == spec_standard_config(),
    {
        Self::standard()
    }
}

/// The standard parameter set.
pub open spec fn spec_standard_config() -> LzssConfig {
    LzssConfig {
        window_size: 4096,
        max_match_len: 18,
        min_match_len: 3,
        offset_bits: 12,
        length_bits: 4,
    }
}

impl Default for LzssConfig {
    /// The default configuration is the standard one.
    fn default() -> (r: Self)
        ensures
            r == spec_standard_config(),
    {
        Self::standard()
    }
}

/// Copy `len` bytes out of the window starting at fixed offset
/// `offset`, appending each copied byte to the window at the cursor:
/// yields the copied bytes, the new window, and the new cursor.
pub open spec fn spec_copy_ref(window: Seq<u8>, pos: int, offset: int, len: int) -> (
    Seq<u8>,
    Seq<u8>,
    int,
)
    decreases len,
{
    if len <= 0 {
        (Seq::empty(), window, pos)
    } else {
        let b = window[offset];
        let w2 = window.update(pos, b);
        let p2 = if pos + 1 == window.len() {
            0
        } else {
            pos + 1
        };
        let (rest, wr, pr) = spec_copy_ref(w2, p2, offset, len - 1);
        (seq![b] + rest, wr, pr)
    }
}

/// The copy of `len` bytes yields exactly `len` bytes.
pub proof fn lemma_copy_ref_len(window: Seq<u8>, pos: int, offset: int, len: int)
    ensures
        spec_copy_ref(window, pos, offset, len).0.len() == if len <= 0 {
            0int
        } else {
            len
        },
    decreases len,
{
    if len > 0 {
        let b = window[offset];
        let w2 = window.update(pos, b);
        let p2 = if pos + 1 == window.len() {
            0int
        } else {
            pos + 1
        };
        lemma_copy_ref_len(w2, p2, offset, len - 1);
    }
}

/// Decode the token stream of `input` from byte `i` on.
///
/// `flags`/`flag_count` are the remaining control bits of the current
/// group; `window`/`pos` the sliding-window state; `mml` the minimum
/// match length.  Yields the decoded bytes and the final window state,
/// or `Truncated` when a token is cut off by the end of input.
pub open spec fn spec_lzss_from(
    input: Seq<u8>,
    i: int,
    flags: u8,
    flag_count: int,
    window: Seq<u8>,
    pos: int,
    mml: int,
) -> Result<(Seq<u8>, Seq<u8>, int), PsxError>
    decreases input.len() - i, flag_count + 1,
{
    if i < 0 || flag_count < 0 {
        Result::Err(PsxError::Truncated)
    } else if flag_count == 0 {
        if i >= input.len() {
            Result::Ok((Seq::empty(), window, pos))
        } else {
            spec_lzss_from(input, i + 1, input[i], 8, window, pos, mml)
        }
    } else if flags & 1 == 1 {
        if i >= input.len() {
            Result::Err(PsxError::Truncated)
        } else {
            let b = input[i];
            let w2 = window.update(pos, b);
            let p2 = if pos + 1 == window.len() {
                0int
            } else {
                pos + 1
            };
            match spec_lzss_from(input, i + 1, flags / 2, flag_count - 1, w2, p2, mml) {
                Result::Ok((rest, wr, pr)) => Result::Ok((seq![b] + rest, wr, pr)),
                Result::Err(e) => Result::Err(e),
            }
        }
    } else {
        if i + 2 > input.len() {
            Result::Err(PsxError::Truncated)
        } else {
            let offset = input[i] * 16 + input[i + 1] / 16;
            let len = (input[i + 1] & 0x0fu8) + mml;
            let (copied, w2, p2) = spec_copy_ref(window, pos, offset as int, len);
            match spec_lzss_from(input, i + 2, flags / 2, flag_count - 1, w2, p2, mml) {
                Result::Ok((rest, wr, pr)) => Result::Ok((copied + rest, wr, pr)),
                Result::Err(e) => Result::Err(e),
            }
        }
    }
}

/// What decompressing `input` against window state `(window, pos)`
/// yields.
pub open spec fn spec_lzss(input: Seq<u8>, window: Seq<u8>, pos: int, mml: int) -> Result<
    (Seq<u8>, Seq<u8>, int),
    PsxError,
> {
    spec_lzss_from(input, 0, 0, 0, window, pos, mml)
}

/// Stateful dictionary decompressor: the configuration plus the
/// sliding window, which persists across calls so that consecutive
/// buffers of one stream share a dictionary.
pub struct LzssDecoder {
    config: LzssConfig,
    window: Vec<u8>,
    window_pos: usize,
}

impl LzssDecoder {
    /// The decoder's configuration.
    pub closed spec fn spec_config(&self) -> LzssConfig {
        self.config
    }

    /// The current window contents.
    pub closed spec fn spec_window(&self) -> Seq<u8> {
        self.window@
    }

    /// The current write cursor.
    pub closed spec fn spec_pos(&self) -> int {
        self.window_pos as int
    }

    /// The window matches the configuration and every reference
    /// offset (12 bits) falls inside it.
    pub closed spec fn wf(&self) -> bool {
        &&& self.window@.len() == self.config.window_size
        &&& self.window_pos < self.config.window_size
        &&& self.config.window_size >= 4096
        &&& self.config.min_match_len <= 255
    }

    /// Create a decoder with the given configuration and a zeroed
    /// window.
    ///
    /// The window must be large enough for every 12-bit reference
    /// offset, and the minimum match length sane.
    pub fn new(config: LzssConfig) -> (r: Self)
        requires
            4096 <= config.window_size <= 0x1000_0000,
            config.min_match_len <= 255,
        ensures
            r.wf(),
            r.spec_config() == config,
            r.spec_window() =~= Seq::new(config.window_size as nat, |i: int| 0u8),
            r.spec_pos() == 0,
    {
        let mut window: Vec<u8> = Vec::new();
        let mut i: usize = 0;
        while i < config.window_size
            invariant
                0 <= i <= config.window_size,
                window@.len() == i,
                forall|j: int| 0 <= j < i ==> window@[j] == 0u8,
            decreases config.window_size - i,
        {
            window.push(0);
            i += 1;
        }
        Self { config, window, window_pos: 0 }
    }

    /// Create a decoder with the standard parameters.
    pub fn standard() -> (r: Self)
        ensures
            r.wf(),
            r.spec_config() == spec_standard_config(),
            r.spec_window() =~= Seq::new(4096, |i: int| 0u8),
            r.spec_pos() == 0,
    {
        Self::new(LzssConfig::standard())
    }

    /// Decompress `compressed`, appending the decoded bytes to
    /// `output` and returning how many were appended.
    ///
    /// The sliding window carries over from previous calls.  On a
    /// truncated token nothing is appended and the window state is
    /// unspecified but still well-formed.
    pub fn decompress(&mut self, compressed: &[u8], output: &mut Vec<u8>) -> (r: Result<
        usize,
        PsxError,
    >)
        requires
            old(self).wf(),
        ensures
            final(self).wf(),
            final(self).spec_config() == old(self).spec_config(),
            r matches Ok(count) ==> ({
                &&& spec_lzss(
                    compressed@,
                    old(self).spec_window(),
                    old(self).spec_pos(),
                    old(self).spec_config().min_match_len as int,
                ) matches Ok((out, wr, pr)) && out.len() == count
                    && final(output)@ == old(output)@ + out
                    && final(self).spec_window() == wr && final(self).spec_pos() == pr
            }),
            r matches Err(e) ==> spec_lzss(
                compressed@,
                old(self).spec_window(),
                old(self).spec_pos(),
                old(self).spec_config().min_match_len as int,
            ) matches Err(e2) && e == e2 && final(output)@ == old(output)@,
            r is Ok <==> spec_lzss(
                compressed@,
                old(self).spec_window(),
                old(self).spec_pos(),
                old(self).spec_config().min_match_len as int,
            ) is Ok,
    {
        match self.decompress_buf(compressed) {
            Ok(decoded) => {
                let count = decoded.len();
                let ghost out0 = output@;
                let mut k: usize = 0;
                let mut decoded = decoded;
                while k < decoded.len()
                    invariant
                        0 <= k <= decoded@.len(),
                        output@ == out0 + decoded@.take(k as int),
                    decreases decoded@.len() - k,
                {
                    output.push(decoded[k]);
                    assert(output@ =~= out0 + decoded@.take(k as int + 1));
                    k += 1;
                }
                assert(output@ =~= out0 + decoded@);
                Ok(count)
            },
            Err(e) => Err(e),
        }
    }

    /// Decompress an entire buffer in one call, returning the decoded
    /// bytes.
    ///
    /// The sliding window carries over from previous calls.  Fails
    /// with `Truncated` exactly when a literal or reference token is
    /// cut off by the end of input.
    pub fn decompress_buf(&mut self, compressed: &[u8]) -> (r: Result<Vec<u8>, PsxError>)
        requires
            old(self).wf(),
        ensures
            final(self).wf(),
            final(self).spec_config() == old(self).spec_config(),
            r matches Ok(v) ==> spec_lzss(
                compressed@,
                old(self).spec_window(),
                old(self).spec_pos(),
                old(self).spec_config().min_match_len as int,
            ) matches Ok((out, wr, pr)) && v@ == out && final(self).spec_window() == wr
                && final(self).spec_pos() == pr,
            r matches Err(e) ==> spec_lzss(
                compressed@,
                old(self).spec_window(),
                old(self).spec_pos(),
                old(self).spec_config().min_match_len as int,
            ) matches Err(e2) && e == e2,
            r is Ok <==> spec_lzss(
                compressed@,
                old(self).spec_window(),
                old(self).spec_pos(),
                old(self).spec_config().min_match_len as int,
            ) is Ok,
    {
        let ghost w0 = old(self).window@;
        let ghost p0 = old(self).window_pos as int;
        let ghost mml = old(self).config.min_match_len as int;
        let n = compressed.len();
        let mut out: Vec<u8> = Vec::new();
        let mut i: usize = 0;
        let mut flags: u8 = 0;
        let mut flag_count: u8 = 0;
        proof {
            let init = spec_lzss_from(compressed@, 0, 0u8, 0, w0, p0, mml);
            if let Result::Ok((rest, wr, pr)) = init {
                assert(out@ + rest =~= rest);
            }
        }
        loop
            invariant
                self.wf(),
                self.config == old(self).config,
                w0 == old(self).window@,
                p0 == old(self).window_pos as int,
                mml == old(self).config.min_match_len as int,
                0 <= i <= n,
                n == compressed@.len(),
                flag_count <= 8,
                spec_lzss(compressed@, w0, p0, mml) == match spec_lzss_from(
                    compressed@,
                    i as int,
                    flags,
                    flag_count as int,
                    self.window@,
                    self.window_pos as int,
                    mml,
                ) {
                    Result::Ok((rest, wr, pr)) => Result::<(Seq<u8>, Seq<u8>, int), PsxError>::Ok(
                        (out@ + rest, wr, pr),
                    ),
                    Result::Err(e) => Result::<(Seq<u8>, Seq<u8>, int), PsxError>::Err(e),
                },
            ensures
                self.wf(),
                self.config == old(self).config,
                spec_lzss(compressed@, w0, p0, mml) == Result::<
                    (Seq<u8>, Seq<u8>, int),
                    PsxError,
                >::Ok((out@, self.window@, self.window_pos as int)),
            decreases n - i, flag_count + 1,
        {
            if flag_count == 0 {
                if i >= n {
                    assert(out@ + Seq::<u8>::empty() =~= out@);
                    break ;
                }
                let ghost i0 = i as int;
                let ghost f0 = flags;
                flags = compressed[i];
                i += 1;
                flag_count = 8;
                assert(spec_lzss_from(compressed@, i0, f0, 0, self.window@, self.window_pos as int, mml)
                    == spec_lzss_from(
                    compressed@,
                    i as int,
                    flags,
                    8,
                    self.window@,
                    self.window_pos as int,
                    mml,
                ));
            } else if flags & 1 == 1 {
                if i >= n {
                    return Err(PsxError::Truncated);
                }
                let b = compressed[i];
                let ghost win0 = self.window@;
                let wp = self.window_pos;
                self.window[wp] = b;
                self.window_pos = self.advance(wp);
                i += 1;
                flags = flags / 2;
                flag_count -= 1;
                let ghost o0 = out@;
                out.push(b);
                proof {
                    let next = spec_lzss_from(
                        compressed@,
                        i as int,
                        flags,
                        flag_count as int,
                        self.window@,
                        self.window_pos as int,
                        mml,
                    );
                    if let Result::Ok((rest, wr, pr)) = next {
                        assert(o0 + (seq![b] + rest) =~= out@ + rest);
                    }
                }
            } else {
                if i >= n || i + 1 >= n {
                    return Err(PsxError::Truncated);
                }
                let ghost i_in = i as int;
                let ghost flags_in = flags;
                let ghost fc_in = flag_count as int;
                let b0 = compressed[i];
                let b1 = compressed[i + 1];
                let offset = b0 as usize * 16 + b1 as usize / 16;
                let length = (b1 & 0x0f) as usize + self.config.min_match_len;
                let ghost w_in = self.window@;
                let ghost p_in = self.window_pos as int;
                let ghost copied_all = spec_copy_ref(w_in, p_in, offset as int, length as int);
                let ghost o0 = out@;
                proof {
                    lemma_copy_ref_len(w_in, p_in, offset as int, length as int);
                    assert(copied_all.0.skip(0) =~= copied_all.0);
                    assert(o0 + copied_all.0.take(0) =~= o0);
                }
                let mut t: usize = 0;
                while t < length
                    invariant
                        self.wf(),
                        self.config == old(self).config,
                        0 <= t <= length,
                        offset < 4096 <= self.config.window_size,
                        copied_all == spec_copy_ref(w_in, p_in, offset as int, length as int),
                        out@ == o0 + copied_all.0.take(t as int),
                        copied_all.0.len() == length,
                        spec_copy_ref(
                            self.window@,
                            self.window_pos as int,
                            offset as int,
                            (length - t) as int,
                        ) == (copied_all.0.skip(t as int), copied_all.1, copied_all.2),
                    decreases length - t,
                {
                    let ghost prev_w = self.window@;
                    let ghost prev_p = self.window_pos as int;
                    let b = self.window[offset];
                    let wp = self.window_pos;
                    self.window[wp] = b;
                    self.window_pos = self.advance(wp);
                    out.push(b);
                    proof {
                        let sub = spec_copy_ref(
                            self.window@,
                            self.window_pos as int,
                            offset as int,
                            (length - t - 1) as int,
                        );
                        assert(spec_copy_ref(prev_w, prev_p, offset as int, (length - t) as int)
                            == (seq![b] + sub.0, sub.1, sub.2));
                        assert(seq![b] + sub.0 == copied_all.0.skip(t as int));
                        assert((seq![b] + sub.0).drop_first() =~= sub.0);
                        assert(sub.0 == copied_all.0.skip(t as int).drop_first());
                        assert(copied_all.0.skip(t as int).drop_first() =~= copied_all.0.skip(
                            t as int + 1,
                        ));
                        assert(sub == (
                            copied_all.0.skip(t as int + 1),
                            copied_all.1,
                            copied_all.2,
                        ));
                        assert(copied_all.0.skip(t as int)[0] == b);
                        assert(copied_all.0.take(t as int).push(b) =~= copied_all.0.take(
                            t as int + 1,
                        ));
                        assert(out@ =~= o0 + copied_all.0.take(t as int + 1));
                    }
                    t += 1;
                }
                proof {
                    assert(copied_all.0.take(length as int) =~= copied_all.0);
                    assert(copied_all.0.skip(length as int) =~= Seq::<u8>::empty());
                    assert(out@ == o0 + copied_all.0);
                }
                i += 2;
                flags = flags / 2;
                flag_count -= 1;
                proof {
                    assert(copied_all.1 == self.window@);
                    assert(copied_all.2 == self.window_pos as int);
                    let old_app = spec_lzss_from(compressed@, i_in, flags_in, fc_in, w_in, p_in, mml);
                    let next = spec_lzss_from(
                        compressed@,
                        i as int,
                        flags,
                        flag_count as int,
                        self.window@,
                        self.window_pos as int,
                        mml,
                    );
                    assert(length as int == (compressed@[i_in + 1] & 0x0fu8) + mml);
                    assert(next == spec_lzss_from(
                        compressed@,
                        i_in + 2,
                        flags_in / 2,
                        fc_in - 1,
                        copied_all.1,
                        copied_all.2,
                        mml,
                    ));
                    assert(old_app == match next {
                        Result::Ok((rest, wr, pr)) => Result::<(Seq<u8>, Seq<u8>, int), PsxError>::Ok(
                            (copied_all.0 + rest, wr, pr),
                        ),
                        Result::Err(e) => Result::<(Seq<u8>, Seq<u8>, int), PsxError>::Err(e),
                    });
                    if let Result::Ok((rest, wr, pr)) = next {
                        assert(o0 + (copied_all.0 + rest) =~= out@ + rest);
                    }
                }
            }
        }
        Ok(out)
    }

    /// Advance the window cursor by one, wrapping at the window size.
    fn advance(&self, wp: usize) -> (r: usize)
        requires
            self.wf(),
            wp < self.config.window_size,
        ensures
            r == if wp + 1 == self.spec_window().len() {
                0int
            } else {
                wp + 1
            },
            r < self.config.window_size,
    {
        if wp + 1 == self.config.window_size {
            0
        } else {
            wp + 1
        }
    }

    /// Reset the decoder state: zero the window and rewind the cursor.
    pub fn reset(&mut self)
        requires
            old(self).wf(),
        ensures
            final(self).wf(),
            final(self).spec_config() == old(self).spec_config(),
            final(self).spec_window() =~= Seq::new(old(self).spec_window().len(), |i: int| 0u8),
            final(self).spec_pos() == 0,
    {
        let len = self.window.len();
        let mut i: usize = 0;
        while i < len
            invariant
                0 <= i <= len,
                self.window@.len() == len,
                self.config == old(self).config,
                self.wf(),
                forall|j: int| 0 <= j < i ==> self.window@[j] == 0u8,
            decreases len - i,
        {
            self.window[i] = 0;
            i += 1;
        }
        self.window_pos = 0;
    }

    /// The current write position in the sliding window.
    pub fn window_pos(&self) -> (r: usize)
        ensures
            r == self.spec_pos(),
    {
        self.window_pos
    }

    /// The current sliding-window contents.
    pub fn window(&self) -> (r: &Vec<u8>)
        ensures
            r@ == self.spec_window(),
    {
        &self.window
    }
}

/// Decompress `compressed` with the standard parameters and a fresh
/// zeroed window.
pub fn decompress(compressed: &[u8]) -> (r: Result<Vec<u8>, PsxError>)
    ensures
        r matches Ok(v) ==> spec_lzss(compressed@, Seq::new(4096, |i: int| 0u8), 0, 3) matches Ok(
            (out, wr, pr),
        ) && v@ == out,
        r matches Err(e) ==> spec_lzss(
            compressed@,
            Seq::new(4096, |i: int| 0u8),
            0,
            3,
        ) matches Err(e2) && e == e2,
        r is Ok <==> spec_lzss(compressed@, Seq::new(4096, |i: int| 0u8), 0, 3) is Ok,
{
    let mut decoder = LzssDecoder::standard();
    decoder.decompress_buf(compressed)
}

} // verus!
