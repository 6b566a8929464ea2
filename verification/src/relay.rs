//! The frames a connection's reader puts on the tunnel: what the server sends
//! for bytes read from a user, and the client for bytes read from its local
//! stream.

use crate::wire::{
    frame_bytes, lemma_decode_frame, payload_taken, TunnelMessage, TunnelMessageClose,
    TunnelMessageData, decode_view, DecodeView,
};
use vstd::prelude::*;

verus! {

/// What a reader does with the outcome of one read.
pub enum RelayStep {
    /// Send this data frame and keep reading.
    Forward(Vec<u8>),
    /// Send this close frame and stop: the connection has ended.
    CloseAndStop(Vec<u8>),
}

/// The data frame that tells the client a new user `user_id` has arrived:
/// it carries no bytes, and the client opens a local stream for it.
pub fn announce_user(user_id: u64) -> (out: Vec<u8>)
    ensures
        out@ == frame_bytes(
            TunnelMessage::Data(TunnelMessageData { user_id, len: 0 }),
            Seq::empty(),
        ),
{
    let msg = TunnelMessage::Data(TunnelMessageData { user_id, len: 0 });
    let out = msg.encode(&[]);
    assert(payload_taken(msg, Seq::<u8>::empty()) =~= Seq::<u8>::empty());
    out
}

/// The frame for `read` bytes read into `buf` on behalf of `user_id`: none
/// read (end of stream, or a failed read) closes the user, otherwise the
/// bytes go out in a data frame.
pub fn frame_for_read(user_id: u64, buf: &[u8], read: usize) -> (step: RelayStep)
    requires
        read <= buf@.len(),
    ensures
        read == 0 ==> (step matches RelayStep::CloseAndStop(f) && f@ == frame_bytes(
            TunnelMessage::Close(TunnelMessageClose { user_id }),
            Seq::empty(),
        )),
        read > 0 ==> (step matches RelayStep::Forward(f) && f@ == frame_bytes(
            TunnelMessage::Data(TunnelMessageData { user_id, len: read as u64 }),
            buf@.take(read as int),
        )),
{
    if read == 0 {
        let msg = TunnelMessage::Close(TunnelMessageClose { user_id });
        RelayStep::CloseAndStop(msg.encode(buf))
    } else {
        let msg = TunnelMessage::Data(TunnelMessageData { user_id, len: read as u64 });
        RelayStep::Forward(msg.encode(buf))
    }
}

/// A relayed read arrives whole on the other end of the tunnel: the frame
/// decodes to the user and the very bytes that were read, and nothing that
/// follows it on the tunnel is taken into it.
pub proof fn lemma_relayed_read_decodes(
    user_id: u64,
    buf: Seq<u8>,
    read: int,
    rest: Seq<u8>,
)
    requires
        0 < read <= buf.len(),
        read <= u64::MAX,
    ensures
        ({
            let msg = TunnelMessage::Data(TunnelMessageData { user_id, len: read as u64 });
            let f = frame_bytes(msg, buf.take(read));
            decode_view(f + rest) == DecodeView::Frame(msg, buf.take(read), f.len())
        }),
{
    let msg = TunnelMessage::Data(TunnelMessageData { user_id, len: read as u64 });
    lemma_decode_frame(msg, buf.take(read), rest);
}

} // verus!
