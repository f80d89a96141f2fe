use vstd::prelude::*;

use bytes::{Bytes, BytesMut};

verus! {

// ---------------------------------------------------------------------------
// Outside items: the stream buffer, the frozen byte string and the checksum.
// ---------------------------------------------------------------------------

#[verifier::external_type_specification]
#[verifier::external_body]
pub struct ExBytesMut(BytesMut);

#[verifier::external_type_specification]
#[verifier::external_body]
pub struct ExBytes(Bytes);

/// The bytes that a stream buffer currently holds, front first.
pub uninterp spec fn buffer_bytes(b: BytesMut) -> Seq<u8>;

/// The bytes that a frozen byte string holds.
pub uninterp spec fn frozen_bytes(b: Bytes) -> Seq<u8>;

/// The CRC-16/MODBUS checksum of a byte sequence.
pub uninterp spec fn modbus_crc_of(data: Seq<u8>) -> u16;

/// Relies on crc16::State::<MODBUS>::calculate: the CRC-16/MODBUS value of
/// the message, which depends on the bytes alone.
#[verifier::external_body]
fn modbus_crc(data: &[u8]) -> (r: u16)
    ensures
        r == modbus_crc_of(data@),
{
    crc16::State::<crc16::MODBUS>::calculate(data)
}

/// Relies on BytesMut::len: the number of bytes held.
#[verifier::external_body]
fn buffer_len(b: &BytesMut) -> (r: usize)
    ensures
        r == buffer_bytes(*b).len(),
{
    b.len()
}

/// Relies on BytesMut's `Deref<Target = [u8]>` and slice indexing: the byte
/// at position `i`.
#[verifier::external_body]
fn buffer_byte(b: &BytesMut, i: usize) -> (r: u8)
    requires
        i < buffer_bytes(*b).len(),
    ensures
        r == buffer_bytes(*b)[i as int],
{
    b[i]
}

/// Relies on BytesMut::split_to: the first `n` bytes leave the buffer and the
/// rest stay in order.
#[verifier::external_body]
fn buffer_consume(b: &mut BytesMut, n: usize)
    requires
        n <= buffer_bytes(*old(b)).len(),
    ensures
        buffer_bytes(*final(b)) == buffer_bytes(*old(b)).subrange(
            n as int,
            buffer_bytes(*old(b)).len() as int,
        ),
{
    let _ = b.split_to(n);
}

/// Relies on BytesMut::extend_from_slice: the bytes are appended at the end.
#[verifier::external_body]
fn buffer_extend(b: &mut BytesMut, s: &[u8])
    ensures
        buffer_bytes(*final(b)) == buffer_bytes(*old(b)) + s@,
{
    b.extend_from_slice(s)
}

/// Relies on `impl From<Vec<u8>> for Bytes`: the byte string holds the
/// vector's bytes.
#[verifier::external_body]
fn bytes_from_vec(v: Vec<u8>) -> (r: Bytes)
    ensures
        frozen_bytes(r) == v@,
{
    Bytes::from(v)
}

// ---------------------------------------------------------------------------
// The frame format.
// ---------------------------------------------------------------------------

/// Read coils, read discrete inputs, read holding registers, read input
/// registers: the responses that carry a byte count in their third byte.
pub open spec fn has_byte_count(function_code: u8) -> bool {
    1 <= function_code <= 4
}

/// The length of the frame at the front of `b`, as its header declares it.
pub open spec fn frame_len_of(b: Seq<u8>) -> int
    recommends
        b.len() >= 3,
{
    if has_byte_count(b[1]) {
        5 + b[2]
    } else {
        8
    }
}

/// The buffer holds a whole frame: the header and as many bytes as it declares.
pub open spec fn frame_ready(b: Seq<u8>) -> bool {
    b.len() >= 4 && b.len() >= frame_len_of(b)
}

/// The checksum carried by the two bytes before position `end`, low byte first.
pub open spec fn received_crc_of(b: Seq<u8>, end: int) -> u16 {
    (b[end - 2] + 256 * b[end - 1]) as u16
}

/// The checksum carried by the frame at the front of `b` is the checksum of
/// the bytes it covers.
pub open spec fn crc_matches(b: Seq<u8>) -> bool {
    received_crc_of(b, frame_len_of(b)) == modbus_crc_of(b.subrange(0, frame_len_of(b) - 2))
}

/// The wire form of a frame: unit id, function code, data, then the checksum
/// of all of these, low byte first.
pub open spec fn encoded_frame(unit_id: u8, function_code: u8, data: Seq<u8>) -> Seq<u8> {
    let body = seq![unit_id, function_code] + data;
    let crc = modbus_crc_of(body);
    body + seq![(crc % 256) as u8, (crc / 256) as u8]
}

/// Each register as two bytes, high byte first.
pub open spec fn register_bytes(regs: Seq<u16>) -> Seq<u8> {
    Seq::new(
        2 * regs.len(),
        |i: int|
            if i % 2 == 0 {
                (regs[i / 2] / 256) as u8
            } else {
                (regs[i / 2] % 256) as u8
            },
    )
}

/// The register values that big-endian byte pairs encode.
pub open spec fn registers_of(bytes: Seq<u8>) -> Seq<u16> {
    Seq::new(bytes.len() / 2, |i: int| (256 * bytes[2 * i] + bytes[2 * i + 1]) as u16)
}

/// The data part of a read-register response: the byte count, which keeps its
/// low eight bits only, then the registers.
pub open spec fn read_response_data(regs: Seq<u16>) -> Seq<u8> {
    seq![((2 * regs.len()) % 256) as u8] + register_bytes(regs)
}

/// Why a frame could not be decoded or read.
#[derive(Debug, Clone, PartialEq, Eq)]
pub enum FrameError {
    /// The checksum that came with the frame is not that of its bytes.
    ChecksumMismatch { received: u16, calculated: u16 },
    /// Only read-register responses carry registers.
    UnsupportedFunction { function_code: u8 },
    /// The frame has no data part.
    EmptyData,
    /// The byte count does not match the data that follows it.
    ByteCountMismatch { expected: usize, actual: usize },
    /// Registers come in byte pairs.
    OddByteCount { byte_count: usize },
    /// The buffer does not hold a whole frame yet.
    Incomplete,
}

/// One unit of the TCP binary protocol: unit id, function code, data and
/// checksum, with the frame's total length in bytes.
#[derive(Debug, Clone)]
pub struct ModbusFrame {
    pub unit_id: u8,
    pub function_code: u8,
    pub data: Vec<u8>,
    pub crc: u16,
    pub len: usize,
}

impl ModbusFrame {
    /// An empty frame of the minimal length: unit id, function code, checksum.
    pub fn new() -> (r: Self)
        ensures
            r.unit_id == 0,
            r.function_code == 0,
            r.data@.len() == 0,
            r.crc == 0,
            r.len == 4,
    {
        ModbusFrame { unit_id: 0, function_code: 0, data: Vec::new(), crc: 0, len: 4 }
    }

    /// A read-register response holding the given registers; its checksum is
    /// computed when it is encoded.
    pub fn new_read_response(unit_id: u8, function_code: u8, register_data: &[u16]) -> (r: Self)
        requires
            2 * register_data@.len() + 5 <= usize::MAX,
        ensures
            r.unit_id == unit_id,
            r.function_code == function_code,
            r.data@ == read_response_data(register_data@),
            r.crc == 0,
            r.len == 4 + r.data@.len(),
    {
        let n = register_data.len();
        let byte_count: u8 = ((n % 128) * 2) as u8;
        let mut data: Vec<u8> = Vec::new();
        data.push(byte_count);
        let mut i: usize = 0;
        while i < n
            invariant
                i <= n,
                n == register_data@.len(),
                data@.len() == 1 + 2 * i,
                data@[0] == byte_count,
                forall|j: int|
                    0 <= j < 2 * i ==> data@[1 + j] == #[trigger] register_bytes(register_data@)[j],
            decreases n - i,
        {
            let v = register_data[i];
            data.push((v / 256) as u8);
            data.push((v % 256) as u8);
            proof {
                assert(register_bytes(register_data@)[2 * i as int] == (v / 256) as u8);
                assert(register_bytes(register_data@)[2 * i as int + 1] == (v % 256) as u8);
            }
            i = i + 1;
        }
        proof {
            assert(((2 * n) % 256) as u8 == byte_count) by {
                assert((2 * n) % 256 == (n % 128) * 2) by (nonlinear_arith);
            }
            assert(data@ =~= read_response_data(register_data@));
        }
        let len = 4 + data.len();
        ModbusFrame { unit_id, function_code, data, crc: 0, len }
    }

    /// Decodes the frame at the front of a stream buffer.
    ///
    /// `Ok(false)` means that the buffer does not hold a whole frame yet;
    /// buffer and frame are left as they were. A checksum that does not match
    /// is an error, and leaves them as they were too. Otherwise the frame's
    /// bytes leave the buffer, this frame takes their contents and the result
    /// is `Ok(true)`.
    pub fn parse_frame(&mut self, buffer: &mut BytesMut) -> (r: Result<bool, FrameError>)
        ensures
            ({
                let b = buffer_bytes(*old(buffer));
                let n = frame_len_of(b);
                &&& !frame_ready(b) ==> {
                    &&& r == Ok::<bool, FrameError>(false)
                    &&& buffer_bytes(*final(buffer)) == b
                    &&& *final(self) == *old(self)
                }
                &&& frame_ready(b) && !crc_matches(b) ==> {
                    &&& r == Err::<bool, FrameError>(
                        FrameError::ChecksumMismatch {
                            received: received_crc_of(b, n),
                            calculated: modbus_crc_of(b.subrange(0, n - 2)),
                        },
                    )
                    &&& buffer_bytes(*final(buffer)) == b
                    &&& *final(self) == *old(self)
                }
                &&& frame_ready(b) && crc_matches(b) ==> {
                    &&& r == Ok::<bool, FrameError>(true)
                    &&& buffer_bytes(*final(buffer)) == b.subrange(n, b.len() as int)
                    &&& final(self).unit_id == b[0]
                    &&& final(self).function_code == b[1]
                    &&& final(self).data@ == b.subrange(2, n - 2)
                    &&& final(self).crc == received_crc_of(b, n)
                    &&& final(self).len == n
                }
            }),
    {
        let ghost b = buffer_bytes(*buffer);
        let total = buffer_len(buffer);
        if total < 4 {
            return Ok(false);
        }
        let function_code = buffer_byte(buffer, 1);
        let expected: usize = if 1 <= function_code && function_code <= 4 {
            5 + buffer_byte(buffer, 2) as usize
        } else {
            8
        };
        assert(expected == frame_len_of(b));
        assert(expected >= 5);
        if total < expected {
            return Ok(false);
        }
        let mut covered: Vec<u8> = Vec::new();
        let mut i: usize = 0;
        while i < expected - 2
            invariant
                i <= expected - 2,
                expected <= total,
                total == b.len(),
                b == buffer_bytes(*buffer),
                covered@ == b.subrange(0, i as int),
            decreases expected - 2 - i,
        {
            covered.push(buffer_byte(buffer, i));
            assert(covered@ =~= b.subrange(0, i + 1));
            i = i + 1;
        }
        let calculated = modbus_crc(covered.as_slice());
        let low = buffer_byte(buffer, expected - 2);
        let high = buffer_byte(buffer, expected - 1);
        let received: u16 = low as u16 + 256 * high as u16;
        if received != calculated {
            return Err(FrameError::ChecksumMismatch { received, calculated });
        }
        let mut data: Vec<u8> = Vec::new();
        let mut k: usize = 2;
        while k < expected - 2
            invariant
                2 <= k <= expected - 2,
                expected <= b.len(),
                expected - 2 == covered@.len(),
                covered@ == b.subrange(0, expected - 2),
                data@ == b.subrange(2, k as int),
            decreases expected - 2 - k,
        {
            data.push(covered[k]);
            assert(covered@[k as int] == b[k as int]);
            assert(data@ =~= b.subrange(2, k + 1));
            k = k + 1;
        }
        assert(data@ =~= b.subrange(2, expected - 2));
        self.unit_id = covered[0];
        self.function_code = function_code;
        self.data = data;
        self.crc = received;
        self.len = expected;
        buffer_consume(buffer, expected);
        Ok(true)
    }

    /// Decodes the frame at the front of a stream buffer into a new frame;
    /// a buffer without a whole frame is an error here.
    pub fn try_from_buffer(buffer: &mut BytesMut) -> (r: Result<ModbusFrame, FrameError>)
        ensures
            ({
                let b = buffer_bytes(*old(buffer));
                let n = frame_len_of(b);
                &&& !frame_ready(b) ==> r is Err && r->Err_0 == FrameError::Incomplete
                    && buffer_bytes(*final(buffer)) == b
                &&& frame_ready(b) && !crc_matches(b) ==> r is Err && r->Err_0 == (
                FrameError::ChecksumMismatch {
                    received: received_crc_of(b, n),
                    calculated: modbus_crc_of(b.subrange(0, n - 2)),
                }) && buffer_bytes(*final(buffer)) == b
                &&& frame_ready(b) && crc_matches(b) ==> {
                    &&& r is Ok
                    &&& r->Ok_0.unit_id == b[0]
                    &&& r->Ok_0.function_code == b[1]
                    &&& r->Ok_0.data@ == b.subrange(2, n - 2)
                    &&& r->Ok_0.crc == received_crc_of(b, n)
                    &&& r->Ok_0.len == n
                    &&& buffer_bytes(*final(buffer)) == b.subrange(n, b.len() as int)
                }
            }),
    {
        let mut frame = ModbusFrame::new();
        match frame.parse_frame(buffer) {
            Ok(true) => Ok(frame),
            Ok(false) => Err(FrameError::Incomplete),
            Err(e) => Err(e),
        }
    }

    /// The register values of a read-holding-register or read-input-register
    /// response.
    pub fn parse_read_response(&self) -> (r: Result<Vec<u16>, FrameError>)
        ensures
            ({
                let d = self.data@;
                &&& self.function_code != 3 && self.function_code != 4 ==> r == Err::<Vec<u16>, FrameError>(
                    FrameError::UnsupportedFunction { function_code: self.function_code },
                )
                &&& (self.function_code == 3 || self.function_code == 4) && d.len() == 0 ==> r
                    == Err::<Vec<u16>, FrameError>(FrameError::EmptyData)
                &&& (self.function_code == 3 || self.function_code == 4) && d.len() > 0 && d[0] + 1
                    != d.len() ==> r == Err::<Vec<u16>, FrameError>(
                    FrameError::ByteCountMismatch { expected: (d[0] + 1) as usize, actual: d.len() as usize },
                )
                &&& (self.function_code == 3 || self.function_code == 4) && d.len() > 0 && d[0] + 1
                    == d.len() && d[0] % 2 != 0 ==> r == Err::<Vec<u16>, FrameError>(
                    FrameError::OddByteCount { byte_count: d[0] as usize },
                )
                &&& (self.function_code == 3 || self.function_code == 4) && d.len() > 0 && d[0] + 1
                    == d.len() && d[0] % 2 == 0 ==> (r matches Ok(v) && v@ == registers_of(
                    d.subrange(1, d.len() as int),
                ))
            }),
    {
        if self.function_code != 3 && self.function_code != 4 {
            return Err(FrameError::UnsupportedFunction { function_code: self.function_code });
        }
        if self.data.len() == 0 {
            return Err(FrameError::EmptyData);
        }
        let byte_count = self.data[0] as usize;
        if byte_count + 1 != self.data.len() {
            return Err(
                FrameError::ByteCountMismatch { expected: byte_count + 1, actual: self.data.len() },
            );
        }
        if byte_count % 2 != 0 {
            return Err(FrameError::OddByteCount { byte_count });
        }
        let ghost payload = self.data@.subrange(1, self.data@.len() as int);
        let count = byte_count / 2;
        let mut registers: Vec<u16> = Vec::new();
        let mut i: usize = 0;
        while i < count
            invariant
                i <= count,
                count == payload.len() / 2,
                byte_count + 1 == self.data@.len(),
                payload == self.data@.subrange(1, self.data@.len() as int),
                registers@.len() == i,
                forall|j: int| 0 <= j < i ==> registers@[j] == #[trigger] registers_of(payload)[j],
            decreases count - i,
        {
            let hi = self.data[1 + 2 * i];
            let lo = self.data[2 + 2 * i];
            registers.push(256 * hi as u16 + lo as u16);
            i = i + 1;
        }
        assert(registers@ =~= registers_of(payload));
        Ok(registers)
    }

    /// The byte count that opens the data part of a read response.
    pub fn get_byte_count(&self) -> (r: Result<u8, FrameError>)
        ensures
            self.data@.len() == 0 ==> r == Err::<u8, FrameError>(FrameError::EmptyData),
            self.data@.len() > 0 ==> r == Ok::<u8, FrameError>(self.data@[0]),
    {
        if self.data.len() == 0 {
            return Err(FrameError::EmptyData);
        }
        Ok(self.data[0])
    }

    /// The frame's total length in bytes.
    pub fn total_length(&self) -> (r: usize)
        ensures
            r == self.len,
    {
        self.len
    }

    /// Sets the total length from the data part: unit id, function code and
    /// checksum take four bytes.
    pub fn update_length(&mut self)
        requires
            old(self).data@.len() + 4 <= usize::MAX,
        ensures
            final(self).len == old(self).data@.len() + 4,
            final(self).unit_id == old(self).unit_id,
            final(self).function_code == old(self).function_code,
            final(self).data == old(self).data,
            final(self).crc == old(self).crc,
    {
        self.len = 4 + self.data.len();
    }

    /// The wire form of this frame, with a freshly computed checksum.
    pub fn encode_frame(&self) -> (r: Bytes)
        ensures
            frozen_bytes(r) == encoded_frame(self.unit_id, self.function_code, self.data@),
    {
        let out = self.encode_to_vec();
        bytes_from_vec(out)
    }

    /// The wire form of this frame as a vector of bytes.
    pub fn encode_to_vec(&self) -> (r: Vec<u8>)
        ensures
            r@ == encoded_frame(self.unit_id, self.function_code, self.data@),
    {
        let mut out: Vec<u8> = Vec::new();
        out.push(self.unit_id);
        out.push(self.function_code);
        let mut i: usize = 0;
        while i < self.data.len()
            invariant
                i <= self.data@.len(),
                out@ == seq![self.unit_id, self.function_code] + self.data@.subrange(0, i as int),
            decreases self.data@.len() - i,
        {
            out.push(self.data[i]);
            assert(out@ =~= seq![self.unit_id, self.function_code] + self.data@.subrange(0, i + 1));
            i = i + 1;
        }
        assert(self.data@.subrange(0, self.data@.len() as int) =~= self.data@);
        let crc = modbus_crc(out.as_slice());
        out.push((crc % 256) as u8);
        out.push((crc / 256) as u8);
        assert(out@ =~= encoded_frame(self.unit_id, self.function_code, self.data@));
        out
    }
}

/// Decoder of the frames that arrive on a connection.
pub struct RequestCodec;

impl RequestCodec {
    /// The next frame of the stream: `Ok(None)` while the buffer does not hold
    /// a whole one.
    pub fn decode(&mut self, src: &mut BytesMut) -> (r: Result<Option<ModbusFrame>, FrameError>)
        ensures
            ({
                let b = buffer_bytes(*old(src));
                let n = frame_len_of(b);
                &&& !frame_ready(b) ==> r == Ok::<Option<ModbusFrame>, FrameError>(None)
                    && buffer_bytes(*final(src)) == b
                &&& frame_ready(b) && !crc_matches(b) ==> r is Err && buffer_bytes(*final(src)) == b
                &&& frame_ready(b) && crc_matches(b) ==> {
                    &&& r matches Ok(Some(f)) && f.unit_id == b[0] && f.function_code == b[1]
                        && f.data@ == b.subrange(2, n - 2) && f.crc == received_crc_of(b, n)
                        && f.len == n
                    &&& buffer_bytes(*final(src)) == b.subrange(n, b.len() as int)
                }
            }),
    {
        if buffer_len(src) == 0 {
            return Ok(None);
        }
        let mut frame = ModbusFrame::new();
        match frame.parse_frame(src) {
            Ok(true) => Ok(Some(frame)),
            Ok(false) => Ok(None),
            Err(e) => Err(e),
        }
    }
}

/// Encoder of the frames that are written to a connection.
pub struct ResponseCodec;

impl ResponseCodec {
    /// Appends the wire form of the frame to the output buffer.
    pub fn encode(&mut self, item: ModbusFrame, dst: &mut BytesMut) -> (r: Result<(), FrameError>)
        ensures
            r is Ok,
            buffer_bytes(*final(dst)) == buffer_bytes(*old(dst)) + encoded_frame(
                item.unit_id,
                item.function_code,
                item.data@,
            ),
    {
        let encoded = item.encode_to_vec();
        buffer_extend(dst, encoded.as_slice());
        Ok(())
    }
}

// ---------------------------------------------------------------------------
// Laws of the frame format.
// ---------------------------------------------------------------------------

/// A read-register response, encoded and followed by any other bytes, is a
/// whole frame whose checksum matches; decoding it gives back exactly its
/// data, whose byte count is consistent and even, and whose registers are the
/// ones encoded.
pub proof fn lemma_read_response_round_trip(
    unit_id: u8,
    function_code: u8,
    regs: Seq<u16>,
    rest: Seq<u8>,
)
    requires
        function_code == 3 || function_code == 4,
        regs.len() <= 127,
    ensures
        ({
            let data = read_response_data(regs);
            let wire = encoded_frame(unit_id, function_code, data);
            let b = wire + rest;
            &&& frame_ready(b)
            &&& crc_matches(b)
            &&& frame_len_of(b) == wire.len()
            &&& b[0] == unit_id
            &&& b[1] == function_code
            &&& b.subrange(2, frame_len_of(b) - 2) == data
            &&& b.subrange(frame_len_of(b), b.len() as int) == rest
            &&& data.len() > 0
            &&& data[0] + 1 == data.len()
            &&& data[0] % 2 == 0
            &&& registers_of(data.subrange(1, data.len() as int)) == regs
        }),
{
    let data = read_response_data(regs);
    let body = seq![unit_id, function_code] + data;
    let crc = modbus_crc_of(body);
    let wire = encoded_frame(unit_id, function_code, data);
    let b = wire + rest;
    assert((2 * regs.len()) % 256 == 2 * regs.len());
    assert(data[0] == 2 * regs.len());
    assert(data.len() == 1 + 2 * regs.len());
    assert(b[1] == function_code);
    assert(b[2] == data[0]);
    assert(frame_len_of(b) == wire.len());
    let n = frame_len_of(b);
    assert(b.subrange(0, n - 2) =~= body);
    assert(b[n - 2] == (crc % 256) as u8);
    assert(b[n - 1] == (crc / 256) as u8);
    assert(received_crc_of(b, n) == crc);
    assert(b.subrange(2, n - 2) =~= data);
    assert(b.subrange(n, b.len() as int) =~= rest);
    let payload = data.subrange(1, data.len() as int);
    assert(payload =~= register_bytes(regs));
    assert forall|i: int| 0 <= i < regs.len() implies #[trigger] registers_of(payload)[i]
        == regs[i] by {
        assert(payload[2 * i] == (regs[i] / 256) as u8);
        assert(payload[2 * i + 1] == (regs[i] % 256) as u8);
    }
    assert(registers_of(payload) =~= regs);
}

/// Changing one byte of a frame's register data, in a way that changes the
/// checksum of the covered bytes, never passes as a valid frame: the buffer
/// still holds a whole frame of the same length, and its checksum no longer
/// matches.
pub proof fn lemma_corrupted_payload_rejected(b: Seq<u8>, pos: int, v: u8)
    requires
        frame_ready(b),
        crc_matches(b),
        has_byte_count(b[1]),
        3 <= pos < frame_len_of(b) - 2,
        modbus_crc_of(b.update(pos, v).subrange(0, frame_len_of(b) - 2)) != modbus_crc_of(
            b.subrange(0, frame_len_of(b) - 2),
        ),
    ensures
        frame_ready(b.update(pos, v)),
        frame_len_of(b.update(pos, v)) == frame_len_of(b),
        !crc_matches(b.update(pos, v)),
{
    let c = b.update(pos, v);
    assert(c[1] == b[1]);
    assert(c[2] == b[2]);
    let n = frame_len_of(b);
    assert(c[n - 2] == b[n - 2]);
    assert(c[n - 1] == b[n - 1]);
}

/// A buffer shorter than the frame that its header declares, and any buffer
/// of fewer than four bytes, is a request for more data and never an error.
pub proof fn lemma_prefix_needs_more_data(b: Seq<u8>, k: int)
    requires
        frame_ready(b),
        0 <= k < frame_len_of(b),
    ensures
        !frame_ready(b.subrange(0, k)),
{
    let p = b.subrange(0, k);
    if p.len() >= 4 {
        assert(p[1] == b[1]);
        assert(p[2] == b[2]);
    }
}

} // verus!
