//! The framing spoken over the tunnel between client and server.
//!
//! A frame starts with an instruction byte and a big-endian user id:
//! `1` (data) is followed by a big-endian payload length and that many payload
//! bytes; `2` (close) ends right after the user id. Any other instruction is
//! refused once the user id has been read.

use vstd::prelude::*;

verus! {

/// Instruction byte of a data frame.
pub const INST_DATA: u8 = 1;

/// Instruction byte of a close frame.
pub const INST_CLOSE: u8 = 2;

/// The eight big-endian bytes of `v`.
pub open spec fn u64_be_bytes(v: u64) -> Seq<u8> {
    seq![
        (v >> 56u64) as u8,
        (v >> 48u64) as u8,
        (v >> 40u64) as u8,
        (v >> 32u64) as u8,
        (v >> 24u64) as u8,
        (v >> 16u64) as u8,
        (v >> 8u64) as u8,
        v as u8,
    ]
}

/// The value of eight big-endian bytes `b0 .. b7`.
pub open spec fn u64_of_be(
    b0: u8,
    b1: u8,
    b2: u8,
    b3: u8,
    b4: u8,
    b5: u8,
    b6: u8,
    b7: u8,
) -> u64 {
    ((b0 as u64) << 56u64) | ((b1 as u64) << 48u64) | ((b2 as u64) << 40u64) | ((b3 as u64)
        << 32u64) | ((b4 as u64) << 24u64) | ((b5 as u64) << 16u64) | ((b6 as u64) << 8u64) | (
    b7 as u64)
}

/// The value of the first eight bytes of `s`, read big-endian.
pub open spec fn u64_from_be(s: Seq<u8>) -> u64
    recommends
        s.len() >= 8,
{
    u64_of_be(s[0], s[1], s[2], s[3], s[4], s[5], s[6], s[7])
}

/// Reading back the bytes of a value gives the value.
pub proof fn lemma_u64_be_roundtrip(v: u64)
    ensures
        u64_from_be(u64_be_bytes(v)) == v,
{
    let b = u64_be_bytes(v);
    assert(u64_from_be(b) == u64_of_be(
        (v >> 56u64) as u8,
        (v >> 48u64) as u8,
        (v >> 40u64) as u8,
        (v >> 32u64) as u8,
        (v >> 24u64) as u8,
        (v >> 16u64) as u8,
        (v >> 8u64) as u8,
        v as u8,
    ));
    assert(((((v >> 56u64) as u8) as u64) << 56u64) | ((((v >> 48u64) as u8) as u64) << 48u64) | ((
    ((v >> 40u64) as u8) as u64) << 40u64) | ((((v >> 32u64) as u8) as u64) << 32u64) | ((((v
        >> 24u64) as u8) as u64) << 24u64) | ((((v >> 16u64) as u8) as u64) << 16u64) | ((((v
        >> 8u64) as u8) as u64) << 8u64) | ((v as u8) as u64) == v) by (bit_vector);
}

/// Eight bytes are the bytes of the value they spell.
pub proof fn lemma_u64_be_bytes_of_value(s: Seq<u8>)
    requires
        s.len() == 8,
    ensures
        u64_be_bytes(u64_from_be(s)) == s,
{
    let (b0, b1, b2, b3, b4, b5, b6, b7) = (s[0], s[1], s[2], s[3], s[4], s[5], s[6], s[7]);
    let x = u64_of_be(b0, b1, b2, b3, b4, b5, b6, b7);
    assert(x == ((b0 as u64) << 56u64) | ((b1 as u64) << 48u64) | ((b2 as u64) << 40u64) | ((
    b3 as u64) << 32u64) | ((b4 as u64) << 24u64) | ((b5 as u64) << 16u64) | ((b6 as u64)
        << 8u64) | (b7 as u64));
    assert((x >> 56u64) as u8 == b0 && (x >> 48u64) as u8 == b1 && (x >> 40u64) as u8 == b2 && (x
        >> 32u64) as u8 == b3 && (x >> 24u64) as u8 == b4 && (x >> 16u64) as u8 == b5 && (x
        >> 8u64) as u8 == b6 && x as u8 == b7) by (bit_vector)
        requires
            x == ((b0 as u64) << 56u64) | ((b1 as u64) << 48u64) | ((b2 as u64) << 40u64) | ((
            b3 as u64) << 32u64) | ((b4 as u64) << 24u64) | ((b5 as u64) << 16u64) | ((
            b6 as u64) << 8u64) | (b7 as u64),
    ;
    assert(u64_be_bytes(x) =~= s);
}

/// A close frame: the user `user_id` is gone on the sending side.
#[derive(Clone, Copy, Debug, PartialEq, Eq, Structural)]
pub struct TunnelMessageClose {
    pub user_id: u64,
}

/// The header of a data frame: `len` payload bytes for the user `user_id`.
#[derive(Clone, Copy, Debug, PartialEq, Eq, Structural)]
pub struct TunnelMessageData {
    pub user_id: u64,
    pub len: u64,
}

/// A frame header, as carried over the tunnel.
#[derive(Clone, Copy, Debug, PartialEq, Eq, Structural)]
pub enum TunnelMessage {
    Close(TunnelMessageClose),
    Data(TunnelMessageData),
}

/// Whether `payload` is what a frame with header `m` carries: nothing for a
/// close frame, exactly `len` bytes for a data frame.
pub open spec fn payload_fits(m: TunnelMessage, payload: Seq<u8>) -> bool {
    match m {
        TunnelMessage::Close(_) => payload.len() == 0,
        TunnelMessage::Data(d) => payload.len() == d.len,
    }
}

/// The bytes of the frame with header `m` and payload `payload`.
pub open spec fn frame_bytes(m: TunnelMessage, payload: Seq<u8>) -> Seq<u8> {
    match m {
        TunnelMessage::Close(c) => seq![INST_CLOSE] + u64_be_bytes(c.user_id),
        TunnelMessage::Data(d) => seq![INST_DATA] + u64_be_bytes(d.user_id) + u64_be_bytes(d.len)
            + payload,
    }
}

/// The payload that writing `m` takes from the buffer `data`: nothing for a
/// close frame, the first `len` bytes for a data frame.
pub open spec fn payload_taken(m: TunnelMessage, data: Seq<u8>) -> Seq<u8> {
    match m {
        TunnelMessage::Close(_) => Seq::empty(),
        TunnelMessage::Data(d) => data.take(d.len as int),
    }
}

/// What the start of a byte stream holds, as far as framing goes.
pub enum DecodeView {
    /// No frame yet: at least this many more bytes must be read, and reading
    /// them never reaches past the end of the frame.
    NeedMore(nat),
    /// A whole frame: its header, its payload and its length in bytes.
    Frame(TunnelMessage, Seq<u8>, nat),
    /// The instruction byte names no frame kind.
    BadInstruction(u8),
}

/// How the start of `s` decodes. The instruction is only judged once the
/// user id behind it has arrived.
pub open spec fn decode_view(s: Seq<u8>) -> DecodeView {
    if s.len() < 9 {
        DecodeView::NeedMore((9 - s.len()) as nat)
    } else {
        let user_id = u64_from_be(s.subrange(1, 9));
        if s[0] == INST_CLOSE {
            DecodeView::Frame(
                TunnelMessage::Close(TunnelMessageClose { user_id }),
                Seq::empty(),
                9,
            )
        } else if s[0] == INST_DATA {
            if s.len() < 17 {
                DecodeView::NeedMore((17 - s.len()) as nat)
            } else {
                let len = u64_from_be(s.subrange(9, 17));
                if s.len() < 17 + len {
                    DecodeView::NeedMore((17 + len - s.len()) as nat)
                } else {
                    DecodeView::Frame(
                        TunnelMessage::Data(TunnelMessageData { user_id, len }),
                        s.subrange(17, 17 + len),
                        (17 + len) as nat,
                    )
                }
            }
        } else {
            DecodeView::BadInstruction(s[0])
        }
    }
}

/// The outcome of decoding the start of a byte buffer.
pub enum Decoded {
    /// At least this many more bytes are needed before a frame is complete.
    NeedMore(u64),
    /// A whole frame was found in the first `consumed` bytes.
    Frame { message: TunnelMessage, payload: Vec<u8>, consumed: usize },
    /// The instruction byte names no frame kind.
    BadInstruction(u8),
}

impl View for Decoded {
    type V = DecodeView;

    open spec fn view(&self) -> DecodeView {
        match self {
            Decoded::NeedMore(k) => DecodeView::NeedMore(*k as nat),
            Decoded::Frame { message, payload, consumed } => DecodeView::Frame(
                *message,
                payload@,
                *consumed as nat,
            ),
            Decoded::BadInstruction(i) => DecodeView::BadInstruction(*i),
        }
    }
}

/// Appends the big-endian bytes of `v` to `out`.
fn push_u64_be(out: &mut Vec<u8>, v: u64)
    ensures
        final(out)@ == old(out)@ + u64_be_bytes(v),
{
    out.push((v >> 56u64) as u8);
    out.push((v >> 48u64) as u8);
    out.push((v >> 40u64) as u8);
    out.push((v >> 32u64) as u8);
    out.push((v >> 24u64) as u8);
    out.push((v >> 16u64) as u8);
    out.push((v >> 8u64) as u8);
    out.push(v as u8);
    assert(out@ =~= old(out)@ + u64_be_bytes(v));
}

/// Reads the big-endian `u64` that starts at `at`.
fn read_u64_be(input: &[u8], at: usize) -> (v: u64)
    requires
        at + 8 <= input@.len(),
    ensures
        v == u64_from_be(input@.subrange(at as int, at + 8)),
{
    let v = ((input[at] as u64) << 56u64) | ((input[at + 1] as u64) << 48u64) | ((input[at
        + 2] as u64) << 40u64) | ((input[at + 3] as u64) << 32u64) | ((input[at + 4] as u64)
        << 24u64) | ((input[at + 5] as u64) << 16u64) | ((input[at + 6] as u64) << 8u64) | (input[at
        + 7] as u64);
    let ghost w = input@.subrange(at as int, at + 8);
    assert(w[0] == input@[at as int] && w[1] == input@[at + 1] && w[2] == input@[at + 2] && w[3]
        == input@[at + 3] && w[4] == input@[at + 4] && w[5] == input@[at + 5] && w[6] == input@[at
        + 6] && w[7] == input@[at + 7]);
    v
}

/// Copies `input[from..to]` into a new vector.
fn copy_range(input: &[u8], from: usize, to: usize) -> (out: Vec<u8>)
    requires
        from <= to <= input@.len(),
    ensures
        out@ == input@.subrange(from as int, to as int),
{
    let mut out: Vec<u8> = Vec::new();
    let mut i: usize = from;
    while i < to
        invariant
            from <= i <= to <= input@.len(),
            out@ == input@.subrange(from as int, i as int),
        decreases to - i,
    {
        out.push(input[i]);
        i = i + 1;
        assert(out@ =~= input@.subrange(from as int, i as int));
    }
    out
}

/// The number of bytes a frame with header `m` occupies on the tunnel: the
/// nine-byte header of a close frame, or the seventeen-byte header of a data
/// frame followed by the `len` bytes it announces.
pub open spec fn frame_len(m: TunnelMessage) -> int {
    match m {
        TunnelMessage::Close(_) => 9,
        TunnelMessage::Data(d) => 17 + d.len,
    }
}

/// What writing a header takes from a buffer is exactly the payload the
/// header announces, taken from the front of the buffer: nothing for a close
/// frame, the first `len` bytes for a data frame, whatever else the buffer
/// holds.
pub proof fn lemma_payload_taken_fits(m: TunnelMessage, data: Seq<u8>)
    requires
        m matches TunnelMessage::Data(d) ==> d.len <= data.len(),
    ensures
        payload_fits(m, payload_taken(m, data)),
        payload_taken(m, data) == data.take(payload_taken(m, data).len() as int),
        m matches TunnelMessage::Data(d) ==> payload_taken(m, data).len() == d.len,
        m is Close ==> payload_taken(m, data).len() == 0,
{
    if let TunnelMessage::Data(d) = m {
        assert(data.take(d.len as int).take(d.len as int) =~= data.take(d.len as int));
    } else {
        assert(data.take(0) =~= Seq::<u8>::empty());
    }
}

/// A written frame, whatever follows it on the tunnel, reads back as the
/// same header with the first `len` bytes of the buffer (none for a close
/// frame), and takes exactly the frame's length: a data frame of length zero
/// carries none of the buffer.
pub proof fn lemma_written_frame_reads_back(m: TunnelMessage, data: Seq<u8>, rest: Seq<u8>)
    requires
        m matches TunnelMessage::Data(d) ==> d.len <= data.len(),
    ensures
        frame_bytes(m, payload_taken(m, data)).len() == frame_len(m),
        decode_view(frame_bytes(m, payload_taken(m, data)) + rest) matches DecodeView::Frame(
            m2,
            p,
            n,
        ) && m2 == m && n == frame_len(m) && p == data.take(n - 9 - (if m is Data {
            8int
        } else {
            0int
        })),
{
    lemma_payload_taken_fits(m, data);
    lemma_decode_frame(m, payload_taken(m, data), rest);
    if m is Close {
        assert(data.take(0) =~= Seq::<u8>::empty());
    }
}

impl TunnelMessage {
    /// The bytes that put this frame on the tunnel; a data frame carries the
    /// first `len` bytes of `data`, a close frame carries nothing.
    pub fn encode(&self, data: &[u8]) -> (out: Vec<u8>)
        requires
            self matches TunnelMessage::Data(d) ==> d.len <= data@.len(),
        ensures
            out@ == frame_bytes(*self, payload_taken(*self, data@)),
            out@.len() == frame_len(*self),
            self matches TunnelMessage::Data(d) ==> out@.subrange(17, out@.len() as int)
                == data@.take(d.len as int),
            decode_view(out@) == DecodeView::Frame(
                *self,
                payload_taken(*self, data@),
                frame_len(*self) as nat,
            ),
    {
        proof {
            lemma_payload_taken_fits(*self, data@);
            lemma_decode_frame(*self, payload_taken(*self, data@), Seq::empty());
            assert(frame_bytes(*self, payload_taken(*self, data@)) + Seq::<u8>::empty()
                =~= frame_bytes(*self, payload_taken(*self, data@)));
        }
        let mut out: Vec<u8> = Vec::new();
        match self {
            TunnelMessage::Data(d) => {
                out.push(INST_DATA);
                push_u64_be(&mut out, d.user_id);
                push_u64_be(&mut out, d.len);
                let available = data.len();
                assert(d.len <= available);
                let n = d.len as usize;
                let mut i: usize = 0;
                while i < n
                    invariant
                        n == d.len,
                        n <= data@.len(),
                        i <= n,
                        out@ == seq![INST_DATA] + u64_be_bytes(d.user_id) + u64_be_bytes(d.len)
                            + data@.take(i as int),
                    decreases n - i,
                {
                    out.push(data[i]);
                    i = i + 1;
                    assert(out@ =~= seq![INST_DATA] + u64_be_bytes(d.user_id) + u64_be_bytes(d.len)
                        + data@.take(i as int));
                }
            },
            TunnelMessage::Close(c) => {
                out.push(INST_CLOSE);
                push_u64_be(&mut out, c.user_id);
            },
        }
        out
    }

    /// Decodes the frame at the start of `input`, or says how many more bytes
    /// it needs, or refuses an unknown instruction.
    pub fn decode(input: &[u8]) -> (r: Decoded)
        ensures
            r@ == decode_view(input@),
    {
        let n = input.len();
        if n < 9 {
            return Decoded::NeedMore((9 - n) as u64);
        }
        let user_id = read_u64_be(input, 1);
        if input[0] == INST_CLOSE {
            Decoded::Frame {
                message: TunnelMessage::Close(TunnelMessageClose { user_id }),
                payload: Vec::new(),
                consumed: 9,
            }
        } else if input[0] == INST_DATA {
            if n < 17 {
                return Decoded::NeedMore((17 - n) as u64);
            }
            let len = read_u64_be(input, 9);
            let have = (n - 17) as u64;
            if have < len {
                Decoded::NeedMore(len - have)
            } else {
                let end = 17 + len as usize;
                let payload = copy_range(input, 17, end);
                Decoded::Frame {
                    message: TunnelMessage::Data(TunnelMessageData { user_id, len }),
                    payload,
                    consumed: end,
                }
            }
        } else {
            Decoded::BadInstruction(input[0])
        }
    }
}

/// A frame followed by anything decodes to that frame: its header, its
/// payload, and exactly its own length.
pub proof fn lemma_decode_frame(m: TunnelMessage, payload: Seq<u8>, rest: Seq<u8>)
    requires
        payload_fits(m, payload),
    ensures
        decode_view(frame_bytes(m, payload) + rest) == DecodeView::Frame(
            m,
            payload,
            frame_bytes(m, payload).len(),
        ),
{
    let f = frame_bytes(m, payload);
    let s = f + rest;
    match m {
        TunnelMessage::Close(c) => {
            assert(s.subrange(1, 9) =~= u64_be_bytes(c.user_id));
            lemma_u64_be_roundtrip(c.user_id);
            assert(s[0] == INST_CLOSE);
            assert(payload =~= Seq::<u8>::empty());
        },
        TunnelMessage::Data(d) => {
            assert(s.subrange(1, 9) =~= u64_be_bytes(d.user_id));
            assert(s.subrange(9, 17) =~= u64_be_bytes(d.len));
            lemma_u64_be_roundtrip(d.user_id);
            lemma_u64_be_roundtrip(d.len);
            assert(s[0] == INST_DATA);
            assert(f.len() == 17 + d.len);
            assert(s.subrange(17, 17 + d.len) =~= payload);
        },
    }
}

/// Whatever decodes to a frame starts with the very bytes of that frame, and
/// the payload is the one its header announces: a frame has one encoding.
pub proof fn lemma_decoded_frame_is_canonical(s: Seq<u8>)
    ensures
        decode_view(s) matches DecodeView::Frame(m, p, n) ==> {
            &&& payload_fits(m, p)
            &&& n <= s.len()
            &&& s.take(n as int) == frame_bytes(m, p)
        },
{
    if let DecodeView::Frame(m, p, n) = decode_view(s) {
        lemma_u64_be_bytes_of_value(s.subrange(1, 9));
        if s[0] == INST_CLOSE {
            assert(s.take(9) =~= seq![INST_CLOSE] + s.subrange(1, 9));
        } else {
            lemma_u64_be_bytes_of_value(s.subrange(9, 17));
            let len = u64_from_be(s.subrange(9, 17));
            assert(s.take(n as int) =~= seq![INST_DATA] + s.subrange(1, 9) + s.subrange(9, 17)
                + s.subrange(17, 17 + len));
        }
    }
}

/// Any proper prefix of a frame asks for more bytes, and never for more than
/// the frame still holds: a reader that reads what it is asked for never
/// reads into the next frame.
pub proof fn lemma_prefix_needs_more(m: TunnelMessage, payload: Seq<u8>, i: int)
    requires
        payload_fits(m, payload),
        0 <= i < frame_bytes(m, payload).len(),
    ensures
        decode_view(frame_bytes(m, payload).take(i)) matches DecodeView::NeedMore(k) && 0 < k
            <= frame_bytes(m, payload).len() - i,
{
    let f = frame_bytes(m, payload);
    let s = f.take(i);
    if i >= 9 {
        if let TunnelMessage::Data(d) = m {
            assert(s[0] == f[0]);
            if i >= 17 {
                assert(s.subrange(9, 17) =~= u64_be_bytes(d.len));
                lemma_u64_be_roundtrip(d.len);
            }
        }
    }
}

/// The two big-endian bytes of a port number, as the server announces the
/// forward port it assigned to a client.
pub open spec fn u16_be_bytes(v: u16) -> Seq<u8> {
    seq![(v >> 8u16) as u8, v as u8]
}

/// The port number spelled by the first two bytes of `s`, big-endian.
pub open spec fn u16_from_be(s: Seq<u8>) -> u16
    recommends
        s.len() >= 2,
{
    ((s[0] as u16) << 8u16) | (s[1] as u16)
}

/// The announcement of the forward port assigned to a client.
pub fn encode_assigned_port(port: u16) -> (out: Vec<u8>)
    ensures
        out@ == u16_be_bytes(port),
{
    let mut out: Vec<u8> = Vec::new();
    out.push((port >> 8u16) as u8);
    out.push(port as u8);
    assert(out@ =~= u16_be_bytes(port));
    out
}

/// The port announced at the start of `input`, once two bytes have arrived.
pub fn decode_assigned_port(input: &[u8]) -> (r: Option<u16>)
    ensures
        input@.len() >= 2 ==> r == Some(u16_from_be(input@)),
        input@.len() < 2 ==> r is None,
{
    if input.len() < 2 {
        None
    } else {
        Some(((input[0] as u16) << 8u16) | (input[1] as u16))
    }
}

/// A port announcement, whatever follows it, reads back as the port.
pub proof fn lemma_assigned_port_roundtrip(port: u16, rest: Seq<u8>)
    ensures
        u16_from_be(u16_be_bytes(port) + rest) == port,
{
    let s = u16_be_bytes(port) + rest;
    assert(s[0] == (port >> 8u16) as u8 && s[1] == port as u8);
    assert(((((port >> 8u16) as u8) as u16) << 8u16) | ((port as u8) as u16) == port)
        by (bit_vector);
}

/// Two bytes are the announcement of the port they spell.
pub proof fn lemma_assigned_port_bytes(s: Seq<u8>)
    requires
        s.len() == 2,
    ensures
        u16_be_bytes(u16_from_be(s)) == s,
{
    let (b0, b1) = (s[0], s[1]);
    let x = u16_from_be(s);
    assert(x == ((b0 as u16) << 8u16) | (b1 as u16));
    assert((x >> 8u16) as u8 == b0 && x as u8 == b1) by (bit_vector)
        requires
            x == ((b0 as u16) << 8u16) | (b1 as u16),
    ;
    assert(u16_be_bytes(x) =~= s);
}

} // verus!
