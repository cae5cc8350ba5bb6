//! Laws of the process-start stream: what is framed is read back, reading is
//! insensitive to how the bytes were split into chunks, and the stream mode
//! is fixed once a non-white-space byte has arrived.

use vstd::prelude::*;
use crate::e2b_stream::{
    drain_spec, envelope_spec, first_content, frame_len, has_complete_frame, is_ascii_ws, mode_of, push_spec,
    be32, StreamMode,
};

verus! {

/// Reading frames from `a + b` is reading the frames of `a`, then reading
/// what was left of `a` followed by `b` (unless `a` stopped at a compressed
/// frame).
pub proof fn lemma_drain_append(a: Seq<u8>, b: Seq<u8>)
    requires
        !drain_spec(a).2,
    ensures
        drain_spec(a + b).0 == drain_spec(a).0 + drain_spec(drain_spec(a).1 + b).0,
        drain_spec(a + b).1 == drain_spec(drain_spec(a).1 + b).1,
        drain_spec(a + b).2 == drain_spec(drain_spec(a).1 + b).2,
    decreases a.len(),
{
    if !has_complete_frame(a) {
        assert(drain_spec(a).0 + drain_spec(a + b).0 =~= drain_spec(a + b).0);
    } else {
        let ab = a + b;
        let len = frame_len(a);
        assert(ab[0] == a[0] && ab[1] == a[1] && ab[2] == a[2] && ab[3] == a[3] && ab[4] == a[4]);
        assert(frame_len(ab) == len);
        assert(has_complete_frame(ab));
        assert(ab.subrange(5, 5 + len) =~= a.subrange(5, 5 + len));
        let rest = a.skip(5 + len);
        assert(ab.skip(5 + len) =~= rest + b);
        if a[0] & 2u8 != 0u8 {
            lemma_drain_append(rest, b);
            let x = seq![(true, a.subrange(5, 5 + len))];
            assert(x + (drain_spec(rest).0 + drain_spec(drain_spec(rest).1 + b).0)
                =~= (x + drain_spec(rest).0) + drain_spec(drain_spec(rest).1 + b).0);
        } else if a[0] & 1u8 != 0u8 {
        } else if len == 0 {
            lemma_drain_append(rest, b);
        } else {
            lemma_drain_append(rest, b);
            let x = seq![(false, a.subrange(5, 5 + len))];
            assert(x + (drain_spec(rest).0 + drain_spec(drain_spec(rest).1 + b).0)
                =~= (x + drain_spec(rest).0) + drain_spec(drain_spec(rest).1 + b).0);
        }
    }
}

/// Feeding a framed stream in two chunks yields, over both calls, the frames
/// and the leftover bytes that feeding it at once yields.
pub proof fn law_framed_chunking_is_invisible(pending: Seq<u8>, first: Seq<u8>, second: Seq<u8>)
    requires
        !drain_spec(pending + first).2,
    ensures
        drain_spec(pending + first).0 + drain_spec(drain_spec(pending + first).1 + second).0
            == drain_spec(pending + first + second).0,
        drain_spec(drain_spec(pending + first).1 + second).1 == drain_spec(pending + first + second).1,
{
    lemma_drain_append(pending + first, second);
}

/// A non-empty payload wrapped by the envelope writer is read back as one
/// data frame, and reading continues with the bytes that follow it.
pub proof fn law_envelope_read_back(payload: Seq<u8>, following: Seq<u8>)
    requires
        0 < payload.len() <= u32::MAX,
    ensures
        drain_spec(envelope_spec(payload) + following).0 == seq![(false, payload)] + drain_spec(following).0,
        drain_spec(envelope_spec(payload) + following).1 == drain_spec(following).1,
        drain_spec(envelope_spec(payload) + following).2 == drain_spec(following).2,
{
    let n = payload.len() as int;
    let s = envelope_spec(payload) + following;
    assert(0 <= n / 16777216 < 256) by (nonlinear_arith) requires 0 <= n < 4294967296int;
    assert((n / 16777216) * 16777216 + ((n / 65536) % 256) * 65536 + ((n / 256) % 256) * 256 + n % 256 == n)
        by (nonlinear_arith) requires 0 <= n;
    assert(s[0] == 0u8);
    assert(s[1] == (n / 16777216) as u8 && s[2] == ((n / 65536) % 256) as u8);
    assert(s[3] == ((n / 256) % 256) as u8 && s[4] == (n % 256) as u8);
    assert(be32(s[1], s[2], s[3], s[4]) == n);
    assert(frame_len(s) == n);
    assert(has_complete_frame(s));
    assert(s.subrange(5, 5 + n) =~= payload);
    assert(s.skip(5 + n) =~= following);
    assert(0u8 & 2u8 == 0u8) by (bit_vector);
    assert(0u8 & 1u8 == 0u8) by (bit_vector);
}

proof fn lemma_first_content_bounds(s: Seq<u8>)
    ensures
        0 <= first_content(s) <= s.len(),
        forall|j: int| 0 <= j < first_content(s) ==> is_ascii_ws(#[trigger] s[j]),
        first_content(s) < s.len() ==> !is_ascii_ws(s[first_content(s)]),
    decreases s.len(),
{
    if s.len() > 0 && is_ascii_ws(s[0]) {
        lemma_first_content_bounds(s.drop_first());
        assert forall|j: int| 0 <= j < first_content(s) implies is_ascii_ws(#[trigger] s[j]) by {
            if j > 0 {
                assert(s.drop_first()[j - 1] == s[j]);
            }
        }
    }
}

proof fn lemma_first_content_append(a: Seq<u8>, b: Seq<u8>)
    requires
        first_content(a) < a.len(),
    ensures
        first_content(a + b) == first_content(a),
    decreases a.len(),
{
    if is_ascii_ws(a[0]) {
        lemma_first_content_append(a.drop_first(), b);
        assert((a + b).drop_first() =~= a.drop_first() + b);
    }
}

/// Once a stream holds a byte that is not white space, its mode is decided:
/// bytes that arrive later never change it.
pub proof fn law_mode_is_decided_once(received: Seq<u8>, later: Seq<u8>)
    requires
        mode_of(received) is Some,
    ensures
        mode_of(received + later) == mode_of(received),
{
    lemma_first_content_bounds(received);
    lemma_first_content_append(received, later);
}

/// Feeding the start-stream decoder `a` and then `b` gives, over both
/// calls, the frames, and leaves the mode and the kept bytes, that feeding
/// it `a + b` at once gives, unless reading stopped at a compressed frame
/// after `a`: how the response was split into chunks is invisible.
pub proof fn law_decoder_chunking_is_invisible(mode: Option<StreamMode>, buffer: Seq<u8>, a: Seq<u8>, b: Seq<u8>)
    requires
        !push_spec(mode, buffer, a).3,
    ensures
        ({
            let first = push_spec(mode, buffer, a);
            let second = push_spec(first.0, first.1, b);
            let once = push_spec(mode, buffer, a + b);
            &&& second.0 == once.0
            &&& second.1 == once.1
            &&& first.2 + second.2 == once.2
            &&& second.3 == once.3
        }),
{
    let first = push_spec(mode, buffer, a);
    let joined = buffer + a;
    assert(buffer + (a + b) =~= joined + b);
    if mode is None {
        if mode_of(joined) is Some {
            law_mode_is_decided_once(joined, b);
        }
    }
    if first.0 == Some(StreamMode::Framed) {
        lemma_drain_append(joined, b);
    } else {
        assert(Seq::<(bool, Seq<u8>)>::empty() + push_spec(first.0, first.1, b).2 =~= push_spec(first.0, first.1, b).2);
    }
}

} // verus!
