//! The codec of the polling program: it takes any frame long enough to
//! hold a measurement, with no check of the measurement's content.

use bytes::BytesMut;
use vstd::prelude::*;

use crate::buffer::{buf_as_slice, buf_clear, buf_limit, bytes_mut_content};
use crate::crc::with_crc;
use crate::line_codec::{write_request, REQUEST_FRAME_LEN};
use crate::protocol::{frame_is_short, frame_payload, request_body, words_swapped, DataResponce, Request};

verus! {

/// What `PollCodec::decode` makes of the buffered bytes `data`: the
/// measurement it returns, if any, and the bytes left in the buffer.
pub open spec fn decode_outcome(data: Seq<u8>) -> (Option<Seq<u8>>, Seq<u8>) {
    if frame_is_short(data) {
        (None, data)
    } else {
        (Some(words_swapped(frame_payload(data))), Seq::empty())
    }
}

/// Where the root codec returns a measurement, the polling codec returns
/// the same one; it also returns the all-zero measurements that the root
/// codec refuses.
pub proof fn lemma_poll_accepts_more(data: Seq<u8>)
    ensures
        crate::decode_outcome(data).0 is Some ==> decode_outcome(data) == crate::decode_outcome(
            data,
        ),
        decode_outcome(data).0 is Some <==> !frame_is_short(data),
{
}

/// The polling codec on any buffered bytes: fewer than 37 bytes give no
/// measurement and stay in the buffer; 37 bytes or more are always consumed
/// and give the measurement, zero or not, read from bytes 5 to 36 with the
/// two bytes of every 16-bit half exchanged, whatever follows them.
pub proof fn lemma_poll_decode_rules(data: Seq<u8>)
    ensures
        data.len() < 37 ==> decode_outcome(data) == (None::<Seq<u8>>, data),
        data.len() >= 37 ==> decode_outcome(data).1.len() == 0,
        data.len() >= 37 ==> (decode_outcome(data).0 matches Some(m) && m.len() == 32 && forall|i: int|
                0 <= i < 32 ==> #[trigger] m[i] == if i % 2 == 0 {
                    data[i + 6]
                } else {
                    data[i + 4]
                }),
        decode_outcome(data).0 is Some ==> decode_outcome(data).1.len() == 0,
{
    crate::protocol::lemma_response_frame_rules(data);
}

/// Bytes that follow a complete frame change nothing of what the polling
/// codec makes of it.
pub proof fn lemma_poll_decode_ignores_trailing(data: Seq<u8>, extra: Seq<u8>)
    requires
        data.len() >= 37,
    ensures
        decode_outcome(data + extra) == decode_outcome(data),
{
    crate::protocol::lemma_trailing_bytes_ignored(data, extra);
}

/// The codec of the polling program.
pub struct PollCodec;

impl PollCodec {
    /// Takes a measurement out of `src`: when the buffer holds a frame
    /// long enough, the buffer is emptied and the measurement returned;
    /// else the buffer is left as it is and `Ok(None)` returned (see
    /// [`decode_outcome`]).
    pub fn decode(&mut self, src: &mut BytesMut) -> (r: Result<Option<DataResponce>, std::io::Error>)
        ensures
            bytes_mut_content(*final(src)) == decode_outcome(bytes_mut_content(*old(src))).1,
            match r {
                Ok(Some(d)) => decode_outcome(bytes_mut_content(*old(src))).0 == Some(d@),
                Ok(None) => decode_outcome(bytes_mut_content(*old(src))).0 is None,
                Err(_) => false,
            },
    {
        match DataResponce::from_frame(buf_as_slice(src)) {
            Ok(res) => {
                buf_clear(src);
                Ok(Some(res))
            },
            Err(_) => Ok(None),
        }
    }

    /// Appends the frame of `req_type` to `buf` (see [`write_request`]).
    pub fn encode(&mut self, req_type: Request, buf: &mut BytesMut) -> (r: Result<(), std::io::Error>)
        requires
            bytes_mut_content(*old(buf)).len() + REQUEST_FRAME_LEN <= buf_limit(),
        ensures
            r is Ok,
            bytes_mut_content(*final(buf)) == with_crc(
                bytes_mut_content(*old(buf)) + request_body(req_type),
            ),
    {
        write_request(req_type, buf);
        Ok(())
    }
}

} // verus!
