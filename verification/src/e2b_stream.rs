//! The E2B process-start response stream: Connect protocol envelopes (one
//! flag byte, a big-endian 32-bit length, the payload), the choice between a
//! framed stream and a plain JSON reply, and the collection of the process's
//! output and exit status from its events.
//!
//! JSON payloads are decoded outside; this module frames and checks bytes
//! and folds decoded events into the output.

use vstd::prelude::*;
use crate::e2b_error::E2bFailure;
use crate::text::{chars_of, has_prefix, parse_i32, parse_i32_spec, trim, trim_chars};
use vstd::string::StringSliceAdditionalSpecFns;
use vstd::utf8::encode_utf8;
use base64::Engine;

verus! {

// ----------------------------------------------------------------------------
// Exit status text

/// Position of the last space in `s`, or -1.
pub open spec fn last_space(s: Seq<char>) -> int
    decreases s.len(),
{
    if s.len() == 0 {
        -1
    } else if s.last() == ' ' {
        s.len() - 1
    } else {
        last_space(s.drop_last())
    }
}

/// The exit code in a process status text: the number after `exit status `,
/// else the last space-separated word, when it parses as an `i32`.
pub open spec fn parse_status_exit_code_spec(status: Seq<char>) -> Option<i32> {
    let st = trim(status);
    let prefix = "exit status "@;
    let first = if has_prefix(st, prefix) { parse_i32_spec(trim(st.skip(prefix.len() as int))) } else { None };
    if first is Some {
        first
    } else if last_space(st) >= 0 {
        parse_i32_spec(st.skip(last_space(st) + 1))
    } else {
        None
    }
}

proof fn lemma_last_space_bounds(s: Seq<char>)
    ensures
        -1 <= last_space(s) < s.len(),
        last_space(s) >= 0 ==> s[last_space(s)] == ' ',
        forall|j: int| last_space(s) < j < s.len() ==> s[j] != ' ',
    decreases s.len(),
{
    if s.len() > 0 && s.last() != ' ' {
        lemma_last_space_bounds(s.drop_last());
        assert forall|j: int| last_space(s) < j < s.len() implies s[j] != ' ' by {
            if j < s.len() - 1 {
                assert(s.drop_last()[j] == s[j]);
            }
        }
    }
}

/// The exit code in a process status text such as `exit status 124`.
pub fn parse_status_exit_code(status: &str) -> (r: Option<i32>)
    ensures
        r == parse_status_exit_code_spec(status@),
{
    let chars = chars_of(status);
    let st = trim_chars(&chars);
    let prefix = chars_of("exit status ");
    let mut first: Option<i32> = None;
    if st.len() >= prefix.len() && crate::text::matches_at(&st, 0, &prefix) {
        let mut rest: Vec<char> = Vec::new();
        let mut i = prefix.len();
        while i < st.len()
            invariant
                prefix@.len() <= i <= st@.len(),
                rest@ == st@.subrange(prefix@.len() as int, i as int),
            decreases st@.len() - i,
        {
            rest.push(st[i]);
            assert(rest@ =~= st@.subrange(prefix@.len() as int, i + 1));
            i = i + 1;
        }
        assert(rest@ =~= st@.skip(prefix@.len() as int));
        let rest = trim_chars(&rest);
        first = parse_i32(rest.as_slice());
    }
    if first.is_some() {
        return first;
    }
    proof { lemma_last_space_bounds(st@); }
    let mut k = st.len();
    assert(st@.take(k as int) =~= st@);
    while k > 0 && st[k - 1] != ' '
        invariant
            k <= st@.len(),
            last_space(st@) == last_space(st@.take(k as int)),
        decreases k,
    {
        assert(st@.take(k as int).drop_last() =~= st@.take(k - 1));
        k = k - 1;
    }
    if k == 0 {
        assert(st@.take(0).len() == 0);
        return None;
    }
    assert(last_space(st@) == k - 1);
    let mut tail: Vec<char> = Vec::new();
    let mut i = k;
    while i < st.len()
        invariant
            k <= i <= st@.len(),
            tail@ == st@.subrange(k as int, i as int),
        decreases st@.len() - i,
    {
        tail.push(st[i]);
        assert(tail@ =~= st@.subrange(k as int, i + 1));
        i = i + 1;
    }
    assert(tail@ =~= st@.skip(k as int));
    parse_i32(tail.as_slice())
}

// ----------------------------------------------------------------------------
// Connect envelopes

/// The big-endian value of the four bytes `b`.
pub open spec fn be32(b0: u8, b1: u8, b2: u8, b3: u8) -> int {
    b0 * 16777216 + b1 * 65536 + b2 * 256 + b3
}

/// One uncompressed data envelope around `payload`.
pub open spec fn envelope_spec(payload: Seq<u8>) -> Seq<u8> {
    let n = payload.len();
    seq![0u8, (n / 16777216) as u8, ((n / 65536) % 256) as u8, ((n / 256) % 256) as u8, (n % 256) as u8] + payload
}

/// Wrap `payload` in an uncompressed Connect envelope.
pub fn connect_envelope(payload: &[u8]) -> (framed: Vec<u8>)
    requires
        payload@.len() <= u32::MAX,
    ensures
        framed@ == envelope_spec(payload@),
{
    let n = payload.len() as u64;
    let mut framed: Vec<u8> = Vec::new();
    framed.push(0);
    framed.push((n / 16777216) as u8);
    framed.push(((n / 65536) % 256) as u8);
    framed.push(((n / 256) % 256) as u8);
    framed.push((n % 256) as u8);
    let ghost head = framed@;
    let mut i: usize = 0;
    while i < payload.len()
        invariant
            i <= payload@.len(),
            framed@ == head + payload@.take(i as int),
        decreases payload@.len() - i,
    {
        framed.push(payload[i]);
        assert(payload@.take(i + 1) =~= payload@.take(i as int).push(payload@[i as int]));
        i = i + 1;
    }
    assert(payload@.take(payload@.len() as int) =~= payload@);
    assert(framed@ =~= envelope_spec(payload@));
    framed
}

/// A frame read from the stream.
#[derive(Debug)]
pub enum StreamFrame {
    /// A non-empty event payload.
    Data(Vec<u8>),
    /// The end-of-stream payload (possibly empty).
    End(Vec<u8>),
}

/// A frame as plain values: whether it ends the stream, and its payload.
pub open spec fn frame_view(f: StreamFrame) -> (bool, Seq<u8>) {
    match f {
        StreamFrame::Data(p) => (false, p@),
        StreamFrame::End(p) => (true, p@),
    }
}

/// The length field of the frame at the start of `buf` (at least 5 bytes).
pub open spec fn frame_len(buf: Seq<u8>) -> int {
    be32(buf[1], buf[2], buf[3], buf[4])
}

/// Whether `buf` starts with a complete frame.
pub open spec fn has_complete_frame(buf: Seq<u8>) -> bool {
    buf.len() >= 5 && buf.len() - 5 >= frame_len(buf)
}

/// The frames at the start of `buf`: the frames read, the bytes left over,
/// and whether reading stopped at a compressed frame (which is consumed).
/// End frames are kept even when empty; empty data frames are skipped.
pub open spec fn drain_spec(buf: Seq<u8>) -> (Seq<(bool, Seq<u8>)>, Seq<u8>, bool)
    decreases buf.len(),
{
    if !has_complete_frame(buf) {
        (Seq::empty(), buf, false)
    } else {
        let len = frame_len(buf);
        let payload = buf.subrange(5, 5 + len);
        let rest = buf.skip(5 + len);
        let flags = buf[0];
        if flags & 2u8 != 0u8 {
            let (f, r, c) = drain_spec(rest);
            (seq![(true, payload)] + f, r, c)
        } else if flags & 1u8 != 0u8 {
            (Seq::empty(), rest, true)
        } else if payload.len() == 0 {
            drain_spec(rest)
        } else {
            let (f, r, c) = drain_spec(rest);
            (seq![(false, payload)] + f, r, c)
        }
    }
}

/// Whether a byte is ASCII white space (`u8::is_ascii_whitespace`).
pub open spec fn is_ascii_ws(b: u8) -> bool {
    b == 32 || b == 9 || b == 10 || b == 12 || b == 13
}

/// Position of the first non-white-space byte of `s`, or `s.len()`.
pub open spec fn first_content(s: Seq<u8>) -> int
    decreases s.len(),
{
    if s.len() == 0 {
        0
    } else if !is_ascii_ws(s[0]) {
        0
    } else {
        1 + first_content(s.drop_first())
    }
}

#[derive(Debug, Clone, Copy, PartialEq, Eq, Structural)]
pub enum StreamMode {
    Framed,
    PlainJson,
}

/// The mode a stream beginning with `s` is read in: undecided while it holds
/// only white space; a plain JSON reply if the first other byte is `{`.
pub open spec fn mode_of(s: Seq<u8>) -> Option<StreamMode> {
    let i = first_content(s);
    if i >= s.len() {
        None
    } else if s[i] == 123u8 {
        Some(StreamMode::PlainJson)
    } else {
        Some(StreamMode::Framed)
    }
}

/// What `push` of `bytes` makes of a decoder in `mode` holding `buffer`: the
/// new mode, the bytes kept, the frames read and whether reading stopped at
/// a compressed frame.
pub open spec fn push_spec(mode: Option<StreamMode>, buffer: Seq<u8>, bytes: Seq<u8>)
    -> (Option<StreamMode>, Seq<u8>, Seq<(bool, Seq<u8>)>, bool)
{
    let joined = buffer + bytes;
    let m = if mode is Some { mode } else { mode_of(joined) };
    if m == Some(StreamMode::Framed) {
        let (f, r, c) = drain_spec(joined);
        (m, r, f, c)
    } else {
        (m, joined, Seq::empty(), false)
    }
}

/// Frames read by one `push`, and whether reading stopped at a compressed frame.
pub struct FrameBatch {
    pub frames: Vec<StreamFrame>,
    pub compressed: bool,
}

pub open spec fn batch_frames(b: FrameBatch) -> Seq<(bool, Seq<u8>)> {
    b.frames@.map_values(|f: StreamFrame| frame_view(f))
}

/// Incremental reader of a process-start response stream.
pub struct ConnectStartStreamDecoder {
    mode: Option<StreamMode>,
    buffer: Vec<u8>,
}

impl ConnectStartStreamDecoder {
    pub closed spec fn spec_mode(&self) -> Option<StreamMode> {
        self.mode
    }

    /// Bytes received and not yet read as frames.
    pub closed spec fn spec_buffer(&self) -> Seq<u8> {
        self.buffer@
    }

    pub fn new() -> (d: Self)
        ensures
            d.spec_mode() is None,
            d.spec_buffer() == Seq::<u8>::empty(),
    {
        ConnectStartStreamDecoder { mode: None, buffer: Vec::new() }
    }

    /// Append `bytes`; fix the mode on the first byte that is not white space;
    /// in framed mode read every complete frame.
    pub fn push(&mut self, bytes: &[u8]) -> (batch: FrameBatch)
        ensures
            push_spec(old(self).spec_mode(), old(self).spec_buffer(), bytes@)
                == (final(self).spec_mode(), final(self).spec_buffer(), batch_frames(batch), batch.compressed),
            ({
                let joined = old(self).spec_buffer() + bytes@;
                let mode = if old(self).spec_mode() is Some { old(self).spec_mode() } else { mode_of(joined) };
                &&& final(self).spec_mode() == mode
                &&& mode == Some(StreamMode::Framed) ==> {
                    let (f, r, c) = drain_spec(joined);
                    &&& batch_frames(batch) == f
                    &&& batch.compressed == c
                    &&& final(self).spec_buffer() == r
                }
                &&& mode != Some(StreamMode::Framed) ==> batch.frames@.len() == 0 && !batch.compressed
                    && final(self).spec_buffer() == joined
            }),
    {
        let mut i: usize = 0;
        while i < bytes.len()
            invariant
                i <= bytes@.len(),
                self.buffer@ == old(self).buffer@ + bytes@.take(i as int),
                self.mode == old(self).mode,
            decreases bytes@.len() - i,
        {
            self.buffer.push(bytes[i]);
            assert(bytes@.take(i + 1) =~= bytes@.take(i as int).push(bytes@[i as int]));
            i = i + 1;
        }
        assert(bytes@.take(bytes@.len() as int) =~= bytes@);
        if self.mode.is_none() {
            self.mode = Self::detect_mode(&self.buffer);
        }
        match self.mode {
            Some(StreamMode::Framed) => self.drain_frames(),
            _ => FrameBatch { frames: Vec::new(), compressed: false },
        }
    }

    fn detect_mode(buf: &Vec<u8>) -> (m: Option<StreamMode>)
        ensures
            m == mode_of(buf@),
    {
        let n = buf.len();
        let mut i: usize = 0;
        assert(buf@.skip(0) =~= buf@);
        while i < n && (buf[i] == 32 || buf[i] == 9 || buf[i] == 10 || buf[i] == 12 || buf[i] == 13)
            invariant
                n == buf@.len(),
                i <= n,
                first_content(buf@) == i + first_content(buf@.skip(i as int)),
            decreases n - i,
        {
            assert(buf@.skip(i as int).drop_first() =~= buf@.skip(i + 1));
            i = i + 1;
        }
        if i == n {
            return None;
        }
        assert(buf@.skip(i as int)[0] == buf@[i as int]);
        if buf[i] == 123 { Some(StreamMode::PlainJson) } else { Some(StreamMode::Framed) }
    }

    /// Read every complete frame of the buffer.
    fn drain_frames(&mut self) -> (batch: FrameBatch)
        ensures
            final(self).spec_mode() == old(self).spec_mode(),
            ({
                let (f, r, c) = drain_spec(old(self).spec_buffer());
                &&& batch_frames(batch) == f
                &&& batch.compressed == c
                &&& final(self).spec_buffer() == r
            }),
    {
        let ghost buf = self.buffer@;
        let n = self.buffer.len();
        let mut pos: usize = 0;
        let mut frames: Vec<StreamFrame> = Vec::new();
        let mut compressed = false;
        assert(buf.skip(0) =~= buf);
        assert(frames@.map_values(|f: StreamFrame| frame_view(f)) + drain_spec(buf).0 =~= drain_spec(buf).0);
        loop
            invariant_except_break
                n == buf.len(),
                self.buffer@ == buf,
                pos <= n,
                !compressed,
                drain_spec(buf) == (frames@.map_values(|f: StreamFrame| frame_view(f)) + drain_spec(buf.skip(pos as int)).0,
                    drain_spec(buf.skip(pos as int)).1, drain_spec(buf.skip(pos as int)).2),
            ensures
                self.buffer@ == buf,
                pos <= n,
                drain_spec(buf) == (frames@.map_values(|f: StreamFrame| frame_view(f)), buf.skip(pos as int), compressed),
            decreases n - pos,
        {
            let ghost cur = buf.skip(pos as int);
            if n - pos < 5 {
                assert(frames@.map_values(|f: StreamFrame| frame_view(f)) + Seq::<(bool, Seq<u8>)>::empty()
                    =~= frames@.map_values(|f: StreamFrame| frame_view(f)));
                break;
            }
            let b0 = self.buffer[pos];
            let len: u64 = self.buffer[pos + 1] as u64 * 16777216 + self.buffer[pos + 2] as u64 * 65536
                + self.buffer[pos + 3] as u64 * 256 + self.buffer[pos + 4] as u64;
            assert(cur[0] == b0 && cur[1] == self.buffer@[pos + 1] && cur[2] == self.buffer@[pos + 2]
                && cur[3] == self.buffer@[pos + 3] && cur[4] == self.buffer@[pos + 4]);
            assert(len == frame_len(cur));
            if ((n - pos - 5) as u64) < len {
                assert(frames@.map_values(|f: StreamFrame| frame_view(f)) + Seq::<(bool, Seq<u8>)>::empty()
                    =~= frames@.map_values(|f: StreamFrame| frame_view(f)));
                break;
            }
            let len = len as usize;
            let start = pos + 5;
            let mut payload: Vec<u8> = Vec::new();
            let mut j: usize = 0;
            while j < len
                invariant
                    start + len <= n,
                    n == buf.len(),
                    self.buffer@ == buf,
                    j <= len,
                    payload@ == buf.subrange(start as int, start + j),
                decreases len - j,
            {
                payload.push(self.buffer[start + j]);
                assert(payload@ =~= buf.subrange(start as int, start + j + 1));
                j = j + 1;
            }
            assert(payload@ =~= cur.subrange(5, 5 + len));
            assert(cur.skip(5 + len) =~= buf.skip(start + len));
            pos = start + len;
            let ghost before = frames@.map_values(|f: StreamFrame| frame_view(f));
            if b0 & 2 != 0 {
                frames.push(StreamFrame::End(payload));
                assert(frames@.map_values(|f: StreamFrame| frame_view(f)) =~= before.push((true, cur.subrange(5, 5 + len as int))));
                assert(before.push((true, cur.subrange(5, 5 + len as int))) + drain_spec(buf.skip(pos as int)).0
                    =~= before + (seq![(true, cur.subrange(5, 5 + len as int))] + drain_spec(buf.skip(pos as int)).0));
            } else if b0 & 1 != 0 {
                compressed = true;
                assert(before + Seq::<(bool, Seq<u8>)>::empty() =~= before);
                break;
            } else if len == 0 {
            } else {
                frames.push(StreamFrame::Data(payload));
                assert(frames@.map_values(|f: StreamFrame| frame_view(f)) =~= before.push((false, cur.subrange(5, 5 + len as int))));
                assert(before.push((false, cur.subrange(5, 5 + len as int))) + drain_spec(buf.skip(pos as int)).0
                    =~= before + (seq![(false, cur.subrange(5, 5 + len as int))] + drain_spec(buf.skip(pos as int)).0));
            }
        }
        let mut rest: Vec<u8> = Vec::new();
        let mut k = pos;
        while k < n
            invariant
                pos <= k <= n,
                n == buf.len(),
                self.buffer@ == buf,
                rest@ == buf.subrange(pos as int, k as int),
            decreases n - k,
        {
            rest.push(self.buffer[k]);
            assert(rest@ =~= buf.subrange(pos as int, k + 1));
            k = k + 1;
        }
        assert(rest@ =~= buf.skip(pos as int));
        self.buffer = rest;
        FrameBatch { frames, compressed }
    }

    /// Whether the stream ended cleanly: `Ok(Some(reply))` holds the whole
    /// plain JSON reply to decode; `Ok(None)` a framed stream read to its end;
    /// `Err` an empty stream or a truncated last frame.
    pub fn finish(&self) -> (r: Result<Option<Vec<u8>>, E2bFailure>)
        ensures
            self.spec_mode() == Some(StreamMode::PlainJson) ==> (r matches Ok(Some(b)) && b@ == self.spec_buffer()),
            self.spec_mode() == Some(StreamMode::Framed) && self.spec_buffer().len() == 0 ==> r matches Ok(None),
            self.spec_mode() == Some(StreamMode::Framed) && self.spec_buffer().len() > 0 ==> (r matches Err(f)
                && f.kind == crate::e2b_error::E2bFailureKind::BodyInterrupted && f.retryable
                && f.message@ == (if self.spec_buffer().len() < 5 { "malformed e2b process stream frame header"@ }
                    else { "malformed e2b process stream frame length"@ })),
            self.spec_mode() is None ==> (r matches Err(f) && f.kind == crate::e2b_error::E2bFailureKind::BodyInterrupted
                && f.message@ == "empty e2b process stream"@),
    {
        match self.mode {
            Some(StreamMode::PlainJson) => {
                let mut copy: Vec<u8> = Vec::new();
                let mut i: usize = 0;
                while i < self.buffer.len()
                    invariant
                        i <= self.buffer@.len(),
                        copy@ == self.buffer@.take(i as int),
                    decreases self.buffer@.len() - i,
                {
                    copy.push(self.buffer[i]);
                    assert(copy@ =~= self.buffer@.take(i + 1));
                    i = i + 1;
                }
                assert(self.buffer@.take(self.buffer@.len() as int) =~= self.buffer@);
                Ok(Some(copy))
            },
            Some(StreamMode::Framed) => {
                if self.buffer.len() == 0 {
                    Ok(None)
                } else if self.buffer.len() < 5 {
                    Err(E2bFailure::body_interrupted(String::from_str("malformed e2b process stream frame header")))
                } else {
                    Err(E2bFailure::body_interrupted(String::from_str("malformed e2b process stream frame length")))
                }
            },
            None => Err(E2bFailure::body_interrupted(String::from_str("empty e2b process stream"))),
        }
    }
}

// ----------------------------------------------------------------------------
// Events and output

/// The `data` part of a decoded process event (base64 chunks).
#[derive(Debug, Clone)]
pub struct DataEvent {
    pub stdout: Option<String>,
    pub stderr: Option<String>,
    pub pty: Option<String>,
}

/// The `end` part of a decoded process event.
#[derive(Debug, Clone)]
pub struct EndEvent {
    pub exit_code: Option<i32>,
    pub status: Option<String>,
    pub error: Option<String>,
}

/// A decoded process event; `data` wins when both parts are present.
#[derive(Debug, Clone)]
pub struct StartEvent {
    pub data: Option<DataEvent>,
    pub end: Option<EndEvent>,
}

/// The bytes that `base64::engine::general_purpose::STANDARD.decode` gives
/// for `input`, or `None` where it reports an error.
pub uninterp spec fn base64_standard_decoded(input: Seq<u8>) -> Option<Seq<u8>>;

/// `base64::engine::general_purpose::STANDARD.decode`. Claimed: success and
/// its bytes are the named decoding of the input; the error is passed on as
/// its display text (nothing is claimed of that text).
#[verifier::external_body]
fn base64_standard_decode(input: &[u8]) -> (r: Result<Vec<u8>, String>)
    ensures
        r matches Ok(v) ==> base64_standard_decoded(input@) == Some(v@),
        r is Err ==> base64_standard_decoded(input@) is None,
{
    match base64::engine::general_purpose::STANDARD.decode(input) {
        Ok(bytes) => Ok(bytes),
        Err(error) => Err(error.to_string()),
    }
}

/// Output collected from the events of one process.
#[derive(Debug)]
pub struct StartStreamCollector {
    pub stdout: Vec<u8>,
    pub stderr: Vec<u8>,
    pub exit_code: Option<i32>,
    pub completed: bool,
}

/// What a finished (or interrupted) process produced.
#[derive(Debug)]
pub struct E2bExecOutput {
    pub stdout: Vec<u8>,
    pub stderr: Vec<u8>,
    pub exit_code: Option<i32>,
    pub timed_out: bool,
}

fn append_bytes(out: &mut Vec<u8>, bytes: &Vec<u8>)
    ensures
        final(out)@ == old(out)@ + bytes@,
{
    let mut i: usize = 0;
    while i < bytes.len()
        invariant
            i <= bytes@.len(),
            out@ == old(out)@ + bytes@.take(i as int),
        decreases bytes@.len() - i,
    {
        out.push(bytes[i]);
        assert(bytes@.take(i + 1) =~= bytes@.take(i as int).push(bytes@[i as int]));
        i = i + 1;
    }
    assert(bytes@.take(bytes@.len() as int) =~= bytes@);
}

/// The exit code of an end event: its own, else the one in its status text.
pub open spec fn end_exit_code(end: EndEvent) -> Option<i32> {
    if end.exit_code is Some {
        end.exit_code
    } else {
        parse_status_exit_code_spec(match end.status { Some(s) => s@, None => Seq::empty() })
    }
}

/// The bytes a data event's base64 chunk stands for: nothing when absent,
/// its decoding when present (`None` where it does not decode).
pub open spec fn chunk_bytes(chunk: Option<String>) -> Option<Seq<u8>> {
    match chunk {
        Some(c) => base64_standard_decoded(encode_utf8(c@)),
        None => Some(Seq::empty()),
    }
}

/// Whether an end event's error text is worth reporting (not blank).
pub open spec fn end_error_reported(end: EndEvent) -> bool {
    end.error matches Some(e) && trim(e@).len() > 0
}

impl StartStreamCollector {
    pub fn new() -> (c: Self)
        ensures
            c.stdout@.len() == 0 && c.stderr@.len() == 0 && c.exit_code is None && !c.completed,
    {
        StartStreamCollector { stdout: Vec::new(), stderr: Vec::new(), exit_code: None, completed: false }
    }

    fn decode_chunk(label: &str, chunk: &String) -> (r: Result<Vec<u8>, E2bFailure>)
        ensures
            r matches Ok(v) ==> base64_standard_decoded(encode_utf8(chunk@)) == Some(v@),
            r matches Err(f) ==> base64_standard_decoded(encode_utf8(chunk@)) is None
                && f.kind == crate::e2b_error::E2bFailureKind::Protocol && !f.retryable,
    {
        match base64_standard_decode(chunk.as_str().as_bytes()) {
            Ok(bytes) => Ok(bytes),
            Err(error) => {
                let mut message = String::from_str("failed to decode e2b process ");
                crate::text::push_str(&mut message, label);
                crate::text::push_str(&mut message, " chunk: ");
                crate::text::push_str(&mut message, error.as_str());
                Err(E2bFailure::protocol(message))
            },
        }
    }

    /// Fold one event into the output: a data event appends its decoded
    /// stdout, stderr and pty chunks (pty to stdout), in that order, failing
    /// at the first chunk that does not decode, with the chunks before it
    /// appended; it succeeds exactly when every chunk decodes. An end event
    /// records the exit
    /// code, appends a non-blank error text to stderr and marks completion.
    pub fn apply(&mut self, event: StartEvent) -> (r: Result<(), E2bFailure>)
        ensures
            event.data is None && event.end is None ==> r is Ok
                && final(self).stdout == old(self).stdout && final(self).stderr == old(self).stderr
                && final(self).exit_code == old(self).exit_code && final(self).completed == old(self).completed,
            event.data is None && event.end is Some ==> ({ let end = event.end.unwrap(); r is Ok
                && final(self).stdout == old(self).stdout
                && final(self).exit_code == end_exit_code(end)
                && final(self).completed
                && final(self).stderr@ == (if end_error_reported(end) {
                    old(self).stderr@ + encode_utf8(end.error.unwrap()@) } else { old(self).stderr@ }) }),
            event.data matches Some(d) ==> final(self).exit_code == old(self).exit_code
                && final(self).completed == old(self).completed
                && ({
                    let out = chunk_bytes(d.stdout);
                    let err = chunk_bytes(d.stderr);
                    let pty = chunk_bytes(d.pty);
                    &&& (r is Ok <==> (out is Some && err is Some && pty is Some))
                    &&& (r matches Err(f) ==> f.kind == crate::e2b_error::E2bFailureKind::Protocol && !f.retryable)
                    &&& out is None ==> final(self).stdout@ == old(self).stdout@ && final(self).stderr@ == old(self).stderr@
                    &&& out is Some && err is None ==> final(self).stdout@ == old(self).stdout@ + out.unwrap()
                        && final(self).stderr@ == old(self).stderr@
                    &&& out is Some && err is Some ==> final(self).stderr@ == old(self).stderr@ + err.unwrap()
                    &&& out is Some && err is Some && pty is None ==> final(self).stdout@ == old(self).stdout@ + out.unwrap()
                    &&& out is Some && err is Some && pty is Some ==> final(self).stdout@
                        == old(self).stdout@ + out.unwrap() + pty.unwrap()
                }),
    {
        match event.data {
            Some(data) => {
                if let Some(chunk) = &data.stdout {
                    let bytes = Self::decode_chunk("stdout", chunk)?;
                    append_bytes(&mut self.stdout, &bytes);
                }
                if let Some(chunk) = &data.stderr {
                    let bytes = Self::decode_chunk("stderr", chunk)?;
                    append_bytes(&mut self.stderr, &bytes);
                }
                if let Some(chunk) = &data.pty {
                    let bytes = Self::decode_chunk("pty", chunk)?;
                    append_bytes(&mut self.stdout, &bytes);
                }
                Ok(())
            },
            None => {
                match event.end {
                    Some(end) => {
                        self.exit_code = match end.exit_code {
                            Some(code) => Some(code),
                            None => match &end.status {
                                Some(status) => parse_status_exit_code(status.as_str()),
                                None => parse_status_exit_code(""),
                            },
                        };
                        proof {
                            reveal_strlit("");
                        }
                        if let Some(error) = &end.error {
                            let chars = chars_of(error.as_str());
                            let trimmed = trim_chars(&chars);
                            if trimmed.len() > 0 {
                                let bytes = str_bytes(error.as_str());
                                append_bytes(&mut self.stderr, &bytes);
                            }
                        }
                        self.completed = true;
                        Ok(())
                    },
                    None => Ok(()),
                }
            },
        }
    }

    /// The collected output (never marked timed out here).
    pub fn into_output(self) -> (o: E2bExecOutput)
        ensures
            o.stdout == self.stdout && o.stderr == self.stderr && o.exit_code == self.exit_code && !o.timed_out,
    {
        E2bExecOutput { stdout: self.stdout, stderr: self.stderr, exit_code: self.exit_code, timed_out: false }
    }
}

/// The failure that a compressed frame ends a process stream with.
pub fn compressed_frame_failure() -> (f: E2bFailure)
    ensures
        f.kind == crate::e2b_error::E2bFailureKind::Protocol,
        !f.retryable,
        f.message@ == "compressed e2b process stream frames are not supported"@,
{
    E2bFailure::protocol(String::from_str("compressed e2b process stream frames are not supported"))
}

/// The failure for an event that does not decode: `error` is the decoder's
/// text; `framed` tells a framed event from a whole plain JSON reply.
pub fn event_decode_failure(framed: bool, error: &str) -> (f: E2bFailure)
    ensures
        f.kind == crate::e2b_error::E2bFailureKind::Protocol,
        !f.retryable,
        f.message@ == (if framed { "failed to decode e2b process stream event: "@ } else {
            "failed to decode e2b process response: "@ }) + error@,
{
    let mut message = if framed {
        String::from_str("failed to decode e2b process stream event: ")
    } else {
        String::from_str("failed to decode e2b process response: ")
    };
    crate::text::push_str(&mut message, error);
    E2bFailure::protocol(message)
}

/// How the end-of-stream frame concludes the stream. `error_json` is the
/// JSON text of the payload's `error` member where the payload is a JSON
/// value holding a non-null one; such a payload ends the stream with a
/// retryable protocol failure, any other ends it cleanly.
pub fn end_stream_outcome(error_json: Option<String>) -> (r: Result<(), E2bFailure>)
    ensures
        error_json is None ==> r is Ok,
        error_json matches Some(e) ==> (r matches Err(f) && f.kind == crate::e2b_error::E2bFailureKind::Protocol
            && f.retryable && f.message@ == "e2b process stream ended with error: "@ + e@),
{
    match error_json {
        None => Ok(()),
        Some(e) => {
            let mut message = String::from_str("e2b process stream ended with error: ");
            crate::text::push_str(&mut message, e.as_str());
            Err(E2bFailure::retryable_protocol(message))
        },
    }
}

/// The UTF-8 bytes of `s`.
fn str_bytes(s: &str) -> (v: Vec<u8>)
    ensures
        v@ == s.spec_bytes(),
{
    let b = s.as_bytes();
    let mut v: Vec<u8> = Vec::new();
    let mut i: usize = 0;
    while i < b.len()
        invariant
            i <= b@.len(),
            b@ == s.spec_bytes(),
            v@ == b@.take(i as int),
        decreases b@.len() - i,
    {
        v.push(b[i]);
        assert(v@ =~= b@.take(i + 1));
        i = i + 1;
    }
    assert(b@.take(b@.len() as int) =~= b@);
    v
}

} // verus!
