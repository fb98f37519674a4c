//! The output adapter: fills an interleaved buffer with one sample per frame,
//! the same value in every channel of the frame.

use vstd::prelude::*;
use crate::bridge::{BridgeError, CallbackLink};

verus! {

/// The number of frames in an interleaved buffer of `len` slots with
/// `channels` slots per frame; a trailing partial frame counts as a frame.
pub open spec fn frame_count(len: nat, channels: nat) -> nat {
    ((len + channels - 1) as int / channels as int) as nat
}

/// Every slot of `output` holds the sample of its frame.
pub open spec fn fanned_out(output: Seq<i32>, channels: nat, samples: Seq<i32>) -> bool {
    forall|i: int| 0 <= i < output.len() ==> #[trigger] output[i] == samples[i / (channels as int)]
}

/// After a round trip failed at frame `m`: each earlier frame holds one value
/// in all of its slots, and every slot from frame `m` on is as it was.
pub open spec fn frames_written(before: Seq<i32>, after: Seq<i32>, channels: nat, m: nat) -> bool {
    &&& after.len() == before.len()
    &&& forall|i: int| 0 <= i < after.len() ==> #[trigger] after[i] == if i / (channels as int) < m {
        after[(i / (channels as int)) * channels]
    } else {
        before[i]
    }
}

proof fn lemma_frame_of_slot(i: int, len: nat, channels: nat)
    requires
        channels > 0,
        0 <= i < len,
    ensures
        0 <= i / (channels as int) < frame_count(len, channels),
{
    let c = channels as int;
    vstd::arithmetic::div_mod::lemma_div_pos_is_pos(i, c);
    vstd::arithmetic::div_mod::lemma_div_is_ordered(i, len + c - 1 - (c - 1), c);
    vstd::arithmetic::div_mod::lemma_div_plus_one(i, c);
    vstd::arithmetic::div_mod::lemma_div_is_ordered(i + c, len + c - 1, c);
}

/// Writes `value` into every slot of frame `frame`.
fn fill_frame(output: &mut Vec<i32>, channels: usize, frame: usize, value: i32)
    requires
        channels > 0,
        frame * channels < old(output)@.len(),
    ensures
        final(output)@.len() == old(output)@.len(),
        forall|i: int| 0 <= i < final(output)@.len() ==> #[trigger] final(output)@[i] == if i / (channels as int) == frame {
            value
        } else {
            old(output)@[i]
        },
{
    let len: usize = output.len();
    let start: usize = frame * channels;
    let end: usize = if len - start < channels { len } else { start + channels };
    let mut i: usize = start;
    while i < end
        invariant
            start <= i <= end <= len,
            start == frame * channels,
            end == len || end == start + channels,
            end < len ==> end == start + channels,
            output@.len() == len,
            len == old(output)@.len(),
            forall|j: int| 0 <= j < len ==> #[trigger] output@[j] == if start <= j < i {
                value
            } else {
                old(output)@[j]
            },
        decreases end - i,
    {
        output.set(i, value);
        i = i + 1;
    }
    assert forall|j: int| 0 <= j < len implies (#[trigger] (j / (channels as int)) == frame) == (start <= j < end) by {
        let c = channels as int;
        vstd::arithmetic::div_mod::lemma_fundamental_div_mod(j, c);
        vstd::arithmetic::div_mod::lemma_mod_bound(j, c);
        let q = j / c;
        assert(c * q <= j < c * q + c);
        if q < frame {
            assert(c * q + c <= c * frame) by (nonlinear_arith)
                requires q < frame, c > 0;
        }
        if q > frame {
            assert(c * frame + c <= c * q) by (nonlinear_arith)
                requires q > frame, c > 0;
        }
        assert(start == c * frame) by (nonlinear_arith)
            requires start == frame * channels, c == channels;
    }
}

/// Writes the `f`-th sample into every slot of frame `f`.
pub fn write_frames(output: &mut Vec<i32>, channels: usize, samples: &Vec<i32>)
    requires
        channels > 0,
        samples@.len() == frame_count(old(output)@.len(), channels as nat),
    ensures
        final(output)@.len() == old(output)@.len(),
        fanned_out(final(output)@, channels as nat, samples@),
{
    let len: usize = output.len();
    let n: usize = samples.len();
    let mut f: usize = 0;
    while f < n
        invariant
            0 < channels,
            f <= n,
            n == samples@.len(),
            n == frame_count(len as nat, channels as nat),
            output@.len() == len,
            forall|i: int| 0 <= i < len && i / (channels as int) < f ==> #[trigger] output@[i] == samples@[i / (channels as int)],
        decreases n - f,
    {
        proof {
            lemma_frame_start(f as int, len as nat, channels as nat);
        }
        fill_frame(output, channels, f, samples[f]);
        f = f + 1;
    }
    assert forall|i: int| 0 <= i < len implies #[trigger] output@[i] == samples@[i / (channels as int)] by {
        lemma_frame_of_slot(i, len as nat, channels as nat);
    }
}

proof fn lemma_frame_start(f: int, len: nat, channels: nat)
    requires
        channels > 0,
        0 <= f < frame_count(len, channels),
    ensures
        f * channels < len,
{
    let c = channels as int;
    if f * c >= len {
        vstd::arithmetic::div_mod::lemma_div_is_ordered(len + c - 1, f * c + c - 1, c);
        vstd::arithmetic::div_mod::lemma_fundamental_div_mod(f * c + c - 1, c);
        vstd::arithmetic::div_mod::lemma_div_by_multiple(f, c);
        assert(f * c + c - 1 == c * f + (c - 1)) by (nonlinear_arith);
        vstd::arithmetic::div_mod::lemma_div_multiples_vanish_fancy(f, c - 1, c);
    }
}

/// The number of frames in a buffer of `len` slots, `channels` to a frame.
pub fn frames_in(len: usize, channels: usize) -> (r: usize)
    requires
        channels > 0,
    ensures
        r == frame_count(len as nat, channels as nat),
        r == 0 <==> len == 0,
{
    let whole: usize = len / channels;
    let rest: usize = len % channels;
    proof {
        let c = channels as int;
        vstd::arithmetic::div_mod::lemma_fundamental_div_mod(len as int, c);
        vstd::arithmetic::div_mod::lemma_mod_bound(len as int, c);
        if rest == 0 {
            vstd::arithmetic::div_mod::lemma_div_multiples_vanish_fancy(whole as int, c - 1, c);
            assert(len + c - 1 == c * whole + (c - 1));
        } else {
            vstd::arithmetic::div_mod::lemma_div_multiples_vanish_fancy(whole as int + 1, rest - 1, c);
            assert(len + c - 1 == c * (whole + 1) + (rest - 1)) by (nonlinear_arith)
                requires len == c * whole + rest;
            assert(whole < len) by (nonlinear_arith)
                requires len == c * whole + rest, rest > 0, c > 0, whole >= 0;
        }
        assert(whole * c <= len) by (nonlinear_arith)
            requires len == c * whole + rest, rest >= 0;
        assert(len == 0 ==> whole == 0) by (nonlinear_arith)
            requires len == c * whole + rest, rest >= 0, whole >= 0, c > 0;
        assert(rest == 0 && whole == 0 ==> len == 0) by (nonlinear_arith)
            requires len == c * whole + rest;
    }
    if rest == 0 {
        whole
    } else {
        whole + 1
    }
}

/// Fills `output` frame by frame, each frame with one sample fetched over the
/// bridge and written into all of its channels. On success it returns the
/// samples, one per frame in order; an empty buffer needs no round trip and
/// always succeeds. On a broken rendezvous it stops at the frame whose round
/// trip failed: the frames before it are written, the rest left as they were.
pub fn write_data(output: &mut Vec<i32>, channels: usize, link: &CallbackLink) -> (r: Result<Vec<i32>, BridgeError>)
    requires
        channels > 0,
    ensures
        final(output)@.len() == old(output)@.len(),
        old(output)@.len() == 0 ==> (r matches Ok(samples) && samples@.len() == 0),
        r matches Ok(samples) ==> {
            &&& samples@.len() == frame_count(old(output)@.len(), channels as nat)
            &&& fanned_out(final(output)@, channels as nat, samples@)
        },
        r is Err ==> exists|m: nat|
            m < frame_count(old(output)@.len(), channels as nat)
            && #[trigger] frames_written(old(output)@, final(output)@, channels as nat, m),
{
    let len: usize = output.len();
    let n: usize = frames_in(len, channels);
    let mut samples: Vec<i32> = Vec::new();
    while samples.len() < n
        invariant
            0 < channels,
            samples@.len() <= n,
            n == frame_count(len as nat, channels as nat),
            n == 0 <==> len == 0,
            output@.len() == len,
            len == old(output)@.len(),
            forall|i: int| 0 <= i < len ==> #[trigger] output@[i] == if i / (channels as int) < samples@.len() {
                samples@[i / (channels as int)]
            } else {
                old(output)@[i]
            },
        decreases n - samples@.len(),
    {
        let f: usize = samples.len();
        let value = match link.next_sample() {
            Ok(v) => v,
            Err(e) => {
                proof {
                    let c = channels as int;
                    assert forall|i: int| 0 <= i < len implies #[trigger] output@[i] == if i / c < f {
                        output@[(i / c) * c]
                    } else {
                        old(output)@[i]
                    } by {
                        if i / c < f {
                            let q = i / c;
                            vstd::arithmetic::div_mod::lemma_div_pos_is_pos(i, c);
                            vstd::arithmetic::div_mod::lemma_fundamental_div_mod(i, c);
                            vstd::arithmetic::div_mod::lemma_mod_bound(i, c);
                            assert(q * c <= i) by (nonlinear_arith)
                                requires i == c * q + i % c, i % c >= 0;
                            assert(0 <= q * c) by (nonlinear_arith)
                                requires q >= 0, c > 0;
                            vstd::arithmetic::div_mod::lemma_div_by_multiple(q, c);
                            assert(output@[q * c] == samples@[(q * c) / c]);
                        }
                    }
                    assert(frames_written(old(output)@, output@, channels as nat, f as nat));
                }
                return Err(e);
            },
        };
        proof {
            lemma_frame_start(f as int, len as nat, channels as nat);
        }
        fill_frame(output, channels, f, value);
        samples.push(value);
    }
    assert forall|i: int| 0 <= i < len implies #[trigger] output@[i] == samples@[i / (channels as int)] by {
        lemma_frame_of_slot(i, len as nat, channels as nat);
    }
    Ok(samples)
}

} // verus!
