//! The codec of the protocol: request frames out, measurements in.

use bytes::BytesMut;
use vstd::prelude::*;

use crate::buffer::{
    buf_as_slice,
    buf_clear,
    buf_len,
    buf_limit,
    buf_put_slice,
    buf_put_u16,
    buf_put_u8,
    buf_reserve,
    bytes_mut_content,
};
use crate::crc::{calc_crc, lemma_crc_residue, spec_crc, with_crc};
use crate::protocol::{
    all_zero,
    frame_is_short,
    frame_payload,
    request_body,
    words_swapped,
    DataResponce,
    Error,
    Request,
    BROADCAST_ADDRESS,
    DEVICE_ADDRESS,
    FF10_REGISTER_COUNT,
    FF10_START_REGISTER,
    READ_HOLDINGS,
    START_COMMAND,
};

verus! {

/// Length of every request frame, CRC included.
pub const REQUEST_FRAME_LEN: usize = 9;

/// Whether `buf` has room for one more request frame, which is what the
/// encoders require.
pub fn has_room_for_request(buf: &BytesMut) -> (r: bool)
    ensures
        r == (bytes_mut_content(*buf).len() + REQUEST_FRAME_LEN <= buf_limit()),
{
    buf_len(buf) <= (isize::MAX as usize) - REQUEST_FRAME_LEN
}

/// Appends the frame of `req_type` to `buf`: the request's bytes, then
/// the CRC of the whole buffer written big-endian.
pub fn write_request(req_type: Request, buf: &mut BytesMut)
    requires
        bytes_mut_content(*old(buf)).len() + REQUEST_FRAME_LEN <= buf_limit(),
    ensures
        bytes_mut_content(*final(buf)) == with_crc(
            bytes_mut_content(*old(buf)) + request_body(req_type),
        ),
{
    let ghost start = bytes_mut_content(*buf);
    match req_type {
        Request::FF10 => {
            buf_reserve(
                buf,
                2  // addr
                 + 1  // cmd
                 + 2  //start address
                 + 2  // cells count to read
                 + 2,  // crc
            );
            buf_put_u16(buf, DEVICE_ADDRESS);
            buf_put_u8(buf, READ_HOLDINGS);
            buf_put_u16(buf, FF10_START_REGISTER);
            buf_put_u16(buf, FF10_REGISTER_COUNT);
        },
        Request::Start => {
            buf_reserve(
                buf,
                1  // broadcast
                 + 1  // cmd
                 + 5  // data
                 + 2,  // crc
            );
            buf_put_u8(buf, BROADCAST_ADDRESS);
            buf_put_u8(buf, START_COMMAND);
            buf_put_slice(buf, &[0x03, 0x03, 0, 0, 0xff]);
        },
    }
    proof {
        assert(bytes_mut_content(*buf) =~= start + request_body(req_type));
    }
    let crc = calc_crc(buf_as_slice(buf));
    buf_put_u16(buf, crc);
}

/// What the codec's `decode` makes of the buffered bytes `data`: the
/// measurement it returns, if any, and the bytes left in the buffer.
pub open spec fn decode_outcome(data: Seq<u8>) -> (Option<Seq<u8>>, Seq<u8>) {
    if frame_is_short(data) {
        (None, data)
    } else if all_zero(frame_payload(data)) {
        (None, Seq::empty())
    } else {
        (Some(words_swapped(frame_payload(data))), Seq::empty())
    }
}

/// A frame that `write_request` appends passes the CRC check: the CRC of
/// the whole buffer afterwards is zero, and the buffer has grown by
/// exactly one request frame.
pub proof fn lemma_written_frame_checks(prefix: Seq<u8>, req: Request)
    ensures
        spec_crc(with_crc(prefix + request_body(req))) == 0,
        with_crc(prefix + request_body(req)).len() == prefix.len() + REQUEST_FRAME_LEN,
{
    lemma_crc_residue(prefix + request_body(req));
}

/// Once this codec has decoded, decoding the bytes left again returns
/// no measurement and leaves them as they are.
pub proof fn lemma_decode_settles(data: Seq<u8>)
    ensures
        decode_outcome(decode_outcome(data).1).0 is None,
        decode_outcome(decode_outcome(data).1).1 == decode_outcome(data).1,
{
}

/// This codec on any buffered bytes: fewer than 37 bytes give no
/// measurement and stay in the buffer; 37 bytes or more are always
/// consumed, and give a measurement unless bytes 5 to 36 are all zero. The
/// measurement is read from bytes 5 to 36 with the two bytes of every
/// 16-bit half exchanged, whatever follows them.
pub proof fn lemma_decode_rules(data: Seq<u8>)
    ensures
        data.len() < 37 ==> decode_outcome(data) == (None::<Seq<u8>>, data),
        data.len() >= 37 ==> decode_outcome(data).1.len() == 0,
        data.len() >= 37 && (forall|i: int| 5 <= i < 37 ==> data[i] == 0) ==> decode_outcome(data).0 is None,
        data.len() >= 37 && (exists|i: int| 5 <= i < 37 && data[i] != 0) ==> (decode_outcome(data).0 matches Some(m) && m.len() == 32 && forall|i: int|
                0 <= i < 32 ==> #[trigger] m[i] == if i % 2 == 0 {
                    data[i + 6]
                } else {
                    data[i + 4]
                }),
{
    crate::protocol::lemma_response_frame_rules(data);
}

/// Bytes that follow a complete frame change nothing of what this codec
/// makes of it.
pub proof fn lemma_decode_ignores_trailing(data: Seq<u8>, extra: Seq<u8>)
    requires
        data.len() >= 37,
    ensures
        decode_outcome(data + extra) == decode_outcome(data),
{
    crate::protocol::lemma_trailing_bytes_ignored(data, extra);
}

/// The codec of the protocol.
pub struct LineCodec;

impl LineCodec {
    /// Takes a measurement out of `src`. A frame too short to hold one is
    /// left in `src` to be completed (`Ok(None)`); a frame whose
    /// measurement is all zero is dropped (`Ok(None)`, `src` emptied); a
    /// frame with a measurement is consumed and the measurement returned
    /// (see [`decode_outcome`]).
    pub fn decode(&mut self, src: &mut BytesMut) -> (r: Result<Option<DataResponce>, Error>)
        ensures
            bytes_mut_content(*final(src)) == decode_outcome(bytes_mut_content(*old(src))).1,
            match r {
                Ok(Some(d)) => decode_outcome(bytes_mut_content(*old(src))).0 == Some(d@),
                Ok(None) => decode_outcome(bytes_mut_content(*old(src))).0 is None,
                Err(_) => false,
            },
    {
        match DataResponce::from_raw(buf_as_slice(src)) {
            Err(Error::EmptyResponce) => Ok(None),
            Ok(res) => {
                buf_clear(src);
                Ok(Some(res))
            },
            Err(Error::ZeroResponce) => {
                buf_clear(src);
                Ok(None)
            },
            Err(e) => {
                buf_clear(src);
                Err(e)
            },
        }
    }

    /// Appends the frame of `req_type` to `buf` (see [`write_request`]).
    pub fn encode(&mut self, req_type: Request, buf: &mut BytesMut) -> (r: Result<(), Error>)
        requires
            bytes_mut_content(*old(buf)).len() + REQUEST_FRAME_LEN <= buf_limit(),
        ensures
            r is Ok,
            bytes_mut_content(*final(buf)) == with_crc(
                bytes_mut_content(*old(buf)) + request_body(req_type),
            ),
    {
        write_request(req_type, buf);
        Ok(())
    }
}

} // verus!
