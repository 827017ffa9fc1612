//! The messages of the protocol: the requests the host can send and the
//! measurement that the device answers with.

use vstd::prelude::*;

use crate::crc::be_bytes;

verus! {

#[verifier::external_type_specification]
#[verifier::external_body]
pub struct ExIoError(std::io::Error);

/// The requests the host sends to the device.
pub enum Request {
    /// Read the measurement registers starting at `0xFF10`.
    FF10,
    /// Broadcast command that starts a measurement.
    Start,
}

/// Modbus address of the device.
pub const DEVICE_ADDRESS: u16 = 0xf801;

/// Modbus function "read holding registers".
pub const READ_HOLDINGS: u8 = 0x03;

/// First register that the `FF10` request reads.
pub const FF10_START_REGISTER: u16 = 0xFF10;

/// Register count word of the `FF10` request.
pub const FF10_REGISTER_COUNT: u16 = 0x0100;

/// Broadcast address of the `Start` request.
pub const BROADCAST_ADDRESS: u8 = 0;

/// Function code of the `Start` request.
pub const START_COMMAND: u8 = 0x64;

/// The bytes of a request frame before its CRC.
pub open spec fn request_body(req: Request) -> Seq<u8> {
    match req {
        Request::FF10 => be_bytes(DEVICE_ADDRESS) + seq![READ_HOLDINGS] + be_bytes(
            FF10_START_REGISTER,
        ) + be_bytes(FF10_REGISTER_COUNT),
        Request::Start => seq![BROADCAST_ADDRESS, START_COMMAND] + seq![
            0x03u8,
            0x03u8,
            0u8,
            0u8,
            0xffu8,
        ],
    }
}

/// Where the measurement starts in a response frame.
pub const DATA_OFFSET: usize = 5;

/// Length of the measurement: eight 32-bit floating-point values.
pub const PAYLOAD_LEN: usize = 32;

/// A response frame too short to hold a measurement.
pub open spec fn frame_is_short(data: Seq<u8>) -> bool {
    data.len() < DATA_OFFSET + PAYLOAD_LEN
}

/// The measurement bytes of a response frame, as they came.
pub open spec fn frame_payload(data: Seq<u8>) -> Seq<u8> {
    data.subrange(DATA_OFFSET as int, DATA_OFFSET + PAYLOAD_LEN)
}

/// Every byte of `s` is zero.
pub open spec fn all_zero(s: Seq<u8>) -> bool {
    forall|i: int| 0 <= i < s.len() ==> s[i] == 0
}

/// Where the byte at `i` comes from when each 4-byte word `d` is
/// reordered as `[d[1], d[0], d[3], d[2]]`.
pub open spec fn swapped_index(i: int) -> int {
    let k = i % 4;
    i - k + if k == 0 {
        1int
    } else if k == 1 {
        0int
    } else if k == 2 {
        3int
    } else {
        2int
    }
}

/// `p` with each 4-byte word `d` reordered as `[d[1], d[0], d[3], d[2]]`:
/// the device sends each value as two big-endian 16-bit halves, and this
/// puts the bytes of every value in the order of a little-endian `f32`.
pub open spec fn words_swapped(p: Seq<u8>) -> Seq<u8> {
    Seq::new(p.len(), |i: int| p[swapped_index(i)])
}

/// Reordering the words twice gives the bytes back: a measurement holds
/// every byte of the payload it was read from, only moved.
pub proof fn lemma_words_swapped_involution(p: Seq<u8>)
    requires
        p.len() % 4 == 0,
    ensures
        words_swapped(words_swapped(p)) == p,
{
    let q = words_swapped(p);
    assert forall|i: int| 0 <= i < p.len() implies #[trigger] words_swapped(q)[i] == p[i] by {
        let j = swapped_index(i);
        assert(0 <= j < p.len());
        assert(swapped_index(j) == i);
    }
    assert(words_swapped(q) =~= p);
}

/// A measurement is all zero exactly when the payload it was read from is.
pub proof fn lemma_words_swapped_all_zero(p: Seq<u8>)
    requires
        p.len() % 4 == 0,
    ensures
        all_zero(words_swapped(p)) <==> all_zero(p),
{
    let q = words_swapped(p);
    if all_zero(p) {
        assert forall|i: int| 0 <= i < q.len() implies q[i] == 0 by {
            assert(0 <= swapped_index(i) < p.len());
        }
    }
    if all_zero(q) {
        lemma_words_swapped_involution(p);
        assert forall|i: int| 0 <= i < p.len() implies p[i] == 0 by {
            assert(0 <= swapped_index(i) < q.len());
            assert(words_swapped(q)[i] == q[swapped_index(i)]);
        }
    }
}

/// What a response frame is made of: it is too short exactly when it has
/// fewer than 37 bytes; its measurement is the 32 bytes from offset 5, all
/// zero exactly when those bytes are, each measurement byte taken from the
/// frame with the two bytes of every 16-bit half exchanged.
pub proof fn lemma_response_frame_rules(data: Seq<u8>)
    ensures
        frame_is_short(data) <==> data.len() < 37,
        data.len() >= 37 ==> (all_zero(frame_payload(data)) <==> forall|i: int|
            5 <= i < 37 ==> data[i] == 0),
        data.len() >= 37 ==> words_swapped(frame_payload(data)).len() == 32,
        data.len() >= 37 ==> forall|i: int|
            0 <= i < 32 ==> #[trigger] words_swapped(frame_payload(data))[i] == if i % 2 == 0 {
                data[i + 6]
            } else {
                data[i + 4]
            },
{
    if data.len() >= 37 {
        let p = frame_payload(data);
        if all_zero(p) {
            assert forall|i: int| 5 <= i < 37 implies data[i] == 0 by {
                assert(p[i - 5] == data[i]);
            }
        }
        if forall|i: int| 5 <= i < 37 ==> data[i] == 0 {
            assert forall|i: int| 0 <= i < p.len() implies p[i] == 0 by {
                assert(p[i] == data[i + 5]);
            }
        }
        assert forall|i: int| 0 <= i < 32 implies #[trigger] words_swapped(p)[i] == if i % 2
            == 0 {
            data[i + 6]
        } else {
            data[i + 4]
        } by {
            let j = swapped_index(i);
            assert(0 <= j < 32);
            assert(j == if i % 2 == 0 {
                i + 1
            } else {
                i - 1
            });
        }
    }
}

/// Bytes that follow a complete response frame change nothing of what is
/// read out of it.
pub proof fn lemma_trailing_bytes_ignored(data: Seq<u8>, extra: Seq<u8>)
    requires
        data.len() >= 37,
    ensures
        !frame_is_short(data + extra),
        !frame_is_short(data),
        frame_payload(data + extra) == frame_payload(data),
{
    assert(frame_payload(data + extra) =~= frame_payload(data));
}

/// Every request frame is seven bytes before its CRC.
pub proof fn lemma_request_body_len(req: Request)
    ensures
        request_body(req).len() == 7,
{
}

/// A measurement of the device: eight `f32` values (named, after the
/// vendor's software, `_T_P`, `_error`, `_F`, `_alpha`, `_a`, `_phi`,
/// `_signal`, `_noise`), held as their 32 bytes, each value's four bytes
/// in native `f32` order.
pub struct DataResponce {
    values: Vec<u8>,
}

impl DataResponce {
    #[verifier::type_invariant]
    spec fn well_formed(self) -> bool {
        self.values.len() == PAYLOAD_LEN
    }
}

impl View for DataResponce {
    type V = Seq<u8>;

    closed spec fn view(&self) -> Seq<u8> {
        self.values@
    }
}

/// The measurement bytes of `data` (which must be long enough), as they
/// came.
fn payload_of(data: &[u8]) -> (r: Vec<u8>)
    requires
        !frame_is_short(data@),
    ensures
        r@ == frame_payload(data@),
{
    let mut res: Vec<u8> = Vec::with_capacity(PAYLOAD_LEN);
    let mut i: usize = 0;
    while i < PAYLOAD_LEN
        invariant
            !frame_is_short(data@),
            i <= PAYLOAD_LEN,
            res@ =~= data@.subrange(DATA_OFFSET as int, DATA_OFFSET + i),
        decreases PAYLOAD_LEN - i,
    {
        res.push(data[DATA_OFFSET + i]);
        i += 1;
    }
    res
}

/// Whether every byte of `s` is zero.
fn is_all_zero(s: &[u8]) -> (r: bool)
    ensures
        r == all_zero(s@),
{
    let mut i: usize = 0;
    while i < s.len()
        invariant
            i <= s@.len(),
            forall|j: int| 0 <= j < i ==> s@[j] == 0,
        decreases s@.len() - i,
    {
        if s[i] != 0x00 {
            return false;
        }
        i += 1;
    }
    true
}

/// `p` with each 4-byte word reordered (see [`words_swapped`]).
fn swap_words(p: &[u8]) -> (r: Vec<u8>)
    requires
        p@.len() % 4 == 0,
    ensures
        r@ == words_swapped(p@),
{
    let n = p.len();
    let mut out: Vec<u8> = Vec::with_capacity(n);
    let mut base: usize = 0;
    while base < n
        invariant
            n == p@.len(),
            n % 4 == 0,
            base % 4 == 0,
            base <= n,
            out@ =~= words_swapped(p@).take(base as int),
        decreases n - base,
    {
        out.push(p[base + 1]);
        out.push(p[base]);
        out.push(p[base + 3]);
        out.push(p[base + 2]);
        proof {
            assert(swapped_index(base as int) == base + 1);
            assert(swapped_index(base + 1) == base as int);
            assert(swapped_index(base + 2) == base + 3);
            assert(swapped_index(base + 3) == base + 2);
            assert(out@ =~= words_swapped(p@).take(base + 4));
        }
        base += 4;
    }
    proof {
        assert(words_swapped(p@).take(n as int) =~= words_swapped(p@));
    }
    out
}

impl DataResponce {
    /// Reads the measurement out of a response frame, with no check of
    /// its content: `Err(())` when the frame is too short to hold one.
    pub fn from_frame(data: &[u8]) -> (r: Result<DataResponce, ()>)
        ensures
            r is Ok <==> !frame_is_short(data@),
            r matches Ok(d) ==> d@ == words_swapped(frame_payload(data@)),
    {
        if data.len() >= DATA_OFFSET + PAYLOAD_LEN {
            let res = payload_of(data);
            let transformed = swap_words(res.as_slice());
            Ok(DataResponce { values: transformed })
        } else {
            Err(())
        }
    }

    /// Reads the measurement out of a response frame. A frame too short
    /// to hold one gives `EmptyResponce`; a measurement whose bytes are
    /// all zero is no valid data and gives `ZeroResponce`.
    pub fn from_raw(data: &[u8]) -> (r: Result<DataResponce, Error>)
        ensures
            frame_is_short(data@) <==> r matches Err(Error::EmptyResponce),
            (!frame_is_short(data@) && all_zero(frame_payload(data@))) <==> r matches Err(
                Error::ZeroResponce,
            ),
            r is Ok <==> !frame_is_short(data@) && !all_zero(frame_payload(data@)),
            r matches Ok(d) ==> d@ == words_swapped(frame_payload(data@)),
    {
        if data.len() >= DATA_OFFSET + PAYLOAD_LEN {
            let res = payload_of(data);
            // if all data bytes are zero, then it's not a valid data
            if is_all_zero(res.as_slice()) {
                return Err(Error::ZeroResponce);
            }
            let transformed = swap_words(res.as_slice());
            Ok(DataResponce { values: transformed })
        } else {
            Err(Error::EmptyResponce)
        }
    }

    /// The 32 bytes of the measurement: the eight values in field order,
    /// each as the four bytes of an `f32` in native order.
    pub fn as_bytes(&self) -> (r: &[u8])
        ensures
            r@ == self@,
            r@.len() == PAYLOAD_LEN,
    {
        proof {
            use_type_invariant(self);
        }
        self.values.as_slice()
    }
}

/// The errors of the protocol.
#[derive(Debug)]
pub enum Error {
    Timeout,
    InvalidResponce,
    ZeroResponce,
    EmptyResponce,
    UnexpectedEndOfStream,
    Unknown(std::io::Error),
}

impl From<std::io::Error> for Error {
    fn from(value: std::io::Error) -> (r: Self) {
        Error::Unknown(value)
    }
}

impl vstd::std_specs::convert::FromSpecImpl<std::io::Error> for Error {
    open spec fn obeys_from_spec() -> bool {
        true
    }

    open spec fn from_spec(value: std::io::Error) -> Self {
        Error::Unknown(value)
    }
}

} // verus!
