//! Framing of the serial exchange with a KOSA measuring device: the
//! request frames that the host sends, the CRC that closes them and the
//! decoding of the measurement frames that the device answers with.
//!
//! The crate root holds the codec that reports no protocol errors (its
//! error type is `std::io::Error`, which it never returns);
//! [`line_codec`] holds the one built on [`protocol::Error`].

pub mod buffer;
pub mod crc;
pub mod line_codec;
pub mod poll;
pub mod protocol;

pub use crc::calc_crc;
pub use protocol::{DataResponce, Request};

use bytes::BytesMut;
use vstd::prelude::*;

use buffer::{buf_as_slice, buf_clear, buf_limit, bytes_mut_content};
use crc::with_crc;
use line_codec::{write_request, REQUEST_FRAME_LEN};
use protocol::{all_zero, frame_is_short, frame_payload, request_body, words_swapped};

verus! {

/// Why a frame holds no measurement.
#[derive(Debug, PartialEq, Eq, Structural)]
pub enum Error {
    /// The frame is too short to hold a measurement.
    InvalidResponce,
    /// The measurement's bytes are all zero.
    EmptyResponce,
}

/// Reads the measurement out of a response frame: `InvalidResponce` for
/// a frame too short to hold one, `EmptyResponce` for a measurement
/// whose bytes are all zero.
pub fn parse_responce(data: &[u8]) -> (r: Result<DataResponce, Error>)
    ensures
        frame_is_short(data@) <==> r matches Err(Error::InvalidResponce),
        (!frame_is_short(data@) && all_zero(frame_payload(data@))) <==> r matches Err(
            Error::EmptyResponce,
        ),
        r is Ok <==> !frame_is_short(data@) && !all_zero(frame_payload(data@)),
        r matches Ok(d) ==> d@ == words_swapped(frame_payload(data@)),
{
    match DataResponce::from_raw(data) {
        Ok(res) => Ok(res),
        Err(protocol::Error::EmptyResponce) => Err(Error::InvalidResponce),
        Err(_) => Err(Error::EmptyResponce),
    }
}

/// What the root codec's `decode` makes of the buffered bytes `data`: the
/// measurement it returns, if any, and the bytes left in the buffer. A
/// frame without a measurement stays in the buffer.
pub open spec fn decode_outcome(data: Seq<u8>) -> (Option<Seq<u8>>, Seq<u8>) {
    if !frame_is_short(data) && !all_zero(frame_payload(data)) {
        (Some(words_swapped(frame_payload(data))), Seq::empty())
    } else {
        (None, data)
    }
}

/// Once the root codec has returned a measurement, the buffer holds
/// nothing more to decode; once it has returned none, decoding again
/// returns none and leaves the buffer as it is.
pub proof fn lemma_decode_consumes(data: Seq<u8>)
    ensures
        decode_outcome(data).0 is Some ==> decode_outcome(decode_outcome(data).1).0 is None,
        decode_outcome(data).0 is None ==> decode_outcome(decode_outcome(data).1) == decode_outcome(
            data,
        ),
{
}

/// A measurement that the root codec returns is never all zero.
pub proof fn lemma_measurement_not_all_zero(data: Seq<u8>)
    ensures
        decode_outcome(data).0 matches Some(m) ==> !all_zero(m),
{
    if !frame_is_short(data) {
        protocol::lemma_words_swapped_all_zero(frame_payload(data));
    }
}

/// The two codecs return the same measurement for the same buffered
/// bytes; they differ only in that [`line_codec::LineCodec`] drops a
/// frame whose measurement is all zero, and the root codec keeps it.
pub proof fn lemma_codecs_agree(data: Seq<u8>)
    ensures
        decode_outcome(data).0 == line_codec::decode_outcome(data).0,
        decode_outcome(data).0 is Some ==> decode_outcome(data).1 == line_codec::decode_outcome(
            data,
        ).1,
        frame_is_short(data) ==> decode_outcome(data).1 == line_codec::decode_outcome(data).1,
{
}

/// The root codec on any buffered bytes: fewer than 37 bytes, or a
/// measurement (bytes 5 to 36) all zero, give no measurement and leave the
/// buffer as it is; else the buffer is emptied and the measurement is
/// returned, read from bytes 5 to 36 with the two bytes of every 16-bit
/// half exchanged, whatever follows them.
pub proof fn lemma_root_decode_rules(data: Seq<u8>)
    ensures
        data.len() < 37 ==> decode_outcome(data) == (None::<Seq<u8>>, data),
        data.len() >= 37 && (forall|i: int| 5 <= i < 37 ==> data[i] == 0) ==> decode_outcome(data) == (None::<Seq<u8>>, data),
        data.len() >= 37 && (exists|i: int| 5 <= i < 37 && data[i] != 0) ==> decode_outcome(data).1.len() == 0,
        data.len() >= 37 && (exists|i: int| 5 <= i < 37 && data[i] != 0) ==> (decode_outcome(data).0 matches Some(m) && m.len() == 32 && forall|i: int|
                0 <= i < 32 ==> #[trigger] m[i] == if i % 2 == 0 {
                    data[i + 6]
                } else {
                    data[i + 4]
                }),
{
    protocol::lemma_response_frame_rules(data);
}

/// Bytes that follow a complete frame change nothing of the measurement
/// the root codec returns.
pub proof fn lemma_root_decode_ignores_trailing(data: Seq<u8>, extra: Seq<u8>)
    requires
        data.len() >= 37,
    ensures
        decode_outcome(data + extra).0 == decode_outcome(data).0,
{
    protocol::lemma_trailing_bytes_ignored(data, extra);
}

/// The codec of the protocol.
pub struct LineCodec;

impl LineCodec {
    /// Takes a measurement out of `src`: when the buffered frame holds
    /// one, the buffer is emptied and the measurement returned; else the
    /// buffer is left as it is and `Ok(None)` returned (see
    /// [`decode_outcome`]).
    pub fn decode(&mut self, src: &mut BytesMut) -> (r: Result<Option<DataResponce>, std::io::Error>)
        ensures
            bytes_mut_content(*final(src)) == decode_outcome(bytes_mut_content(*old(src))).1,
            match r {
                Ok(Some(d)) => decode_outcome(bytes_mut_content(*old(src))).0 == Some(d@),
                Ok(None) => decode_outcome(bytes_mut_content(*old(src))).0 is None,
                Err(_) => false,
            },
    {
        match parse_responce(buf_as_slice(src)) {
            Ok(res) => {
                buf_clear(src);
                Ok(Some(res))
            },
            Err(_) => Ok(None),
        }
    }

    /// Appends the frame of `req_type` to `buf`: the request's bytes, then
    /// the CRC of the whole buffer written big-endian.
    pub fn encode(&mut self, req_type: Request, buf: &mut BytesMut) -> (r: Result<(), std::io::Error>)
        requires
            bytes_mut_content(*old(buf)).len() + REQUEST_FRAME_LEN <= buf_limit(),
        ensures
            r is Ok,
            bytes_mut_content(*final(buf)) == with_crc(
                bytes_mut_content(*old(buf)) + request_body(req_type),
            ),
    {
        write_request(req_type, buf);
        Ok(())
    }
}

} // verus!
