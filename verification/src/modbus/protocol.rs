//! Modbus protocol data units and frames.
//!
//! A PDU is a function code and its data. Modbus RTU frames wrap a PDU with
//! a slave address and a CRC-16 (low byte first); Modbus TCP frames prefix
//! it with a seven-byte MBAP header whose fields are big-endian.

use bytes::BytesMut;
use vstd::prelude::*;

use crate::byte_buffer::{
    bytes_mut_contents,
    bytes_mut_extend_from_slice,
    bytes_mut_put_u16,
    bytes_mut_put_u8,
    bytes_mut_with_capacity,
};
use crate::text::{decimal, push_decimal, push_str};

verus! {

// ============================================================================
// Error type
// ============================================================================

/// Errors of PDU and frame handling.
#[allow(inconsistent_fields)]
#[derive(Debug, Clone, PartialEq)]
pub enum ModbusError {
    InvalidFunctionCode(u8),
    InvalidDataLength(usize),
    CrcMismatch { expected: u16, got: u16 },
    IncompleteFrame { got: usize, expected: usize },
    MbapParseError(String),
    InvalidPdu(String),
    DeviceError(u8),
    Timeout,
    IoError(String),
}

// ============================================================================
// Constants
// ============================================================================

pub const READ_COILS: u8 = 0x01;
pub const READ_DISCRETE_INPUTS: u8 = 0x02;
pub const READ_HOLDING_REGISTERS: u8 = 0x03;
pub const READ_INPUT_REGISTERS: u8 = 0x04;
pub const WRITE_SINGLE_COIL: u8 = 0x05;
pub const WRITE_SINGLE_REGISTER: u8 = 0x06;
pub const WRITE_MULTIPLE_COILS: u8 = 0x0F;
pub const WRITE_MULTIPLE_REGISTERS: u8 = 0x10;
pub const MASK_WRITE_REGISTER: u8 = 0x16;
pub const READ_WRITE_MULTIPLE: u8 = 0x17;

pub const EXCEPTION_NONE: u8 = 0x00;
pub const EXCEPTION_ILLEGAL_FUNCTION: u8 = 0x01;
pub const EXCEPTION_ILLEGAL_DATA_ADDRESS: u8 = 0x02;
pub const EXCEPTION_ILLEGAL_DATA_VALUE: u8 = 0x03;
pub const EXCEPTION_SERVER_FAILURE: u8 = 0x04;
pub const EXCEPTION_ACKNOWLEDGE: u8 = 0x05;
pub const EXCEPTION_SERVER_BUSY: u8 = 0x06;
pub const EXCEPTION_MEMORY_PARITY_ERROR: u8 = 0x08;
pub const EXCEPTION_GATEWAY_PATH_UNAVAILABLE: u8 = 0x0A;
pub const EXCEPTION_GATEWAY_TARGET_FAILED: u8 = 0x0B;

/// Modbus TCP default port.
pub const DEFAULT_PORT: u16 = 502;

/// RTU frame timeout in milliseconds.
pub const RTU_FRAME_TIMEOUT_MS: u64 = 1000;

/// Maximum number of coils/registers in a single read.
pub const MAX_READ_COUNT: u16 = 2000;

/// Maximum number of coils in a single write.
pub const MAX_WRITE_COILS: u16 = 1968;

/// Maximum number of registers in a single write.
pub const MAX_WRITE_REGISTERS: u16 = 123;

// ============================================================================
// Byte-order helpers
// ============================================================================

/// The two bytes of `v`, high byte first.
pub open spec fn be16(v: u16) -> Seq<u8> {
    seq![(v / 256) as u8, (v % 256) as u8]
}

/// The 16-bit value whose high byte is `hi` and low byte is `lo`.
pub open spec fn u16_of(hi: u8, lo: u8) -> u16 {
    (hi as int * 256 + lo as int) as u16
}

/// The big-endian 16-bit value stored at `s[i]`, `s[i + 1]`.
pub open spec fn be16_at(s: Seq<u8>, i: int) -> u16 {
    u16_of(s[i], s[i + 1])
}

/// The concatenated big-endian encodings of `vs`.
pub open spec fn be16s(vs: Seq<u16>) -> Seq<u8>
    decreases vs.len(),
{
    if vs.len() == 0 {
        Seq::empty()
    } else {
        be16s(vs.drop_last()) + be16(vs.last())
    }
}

/// The two big-endian bytes of a value decode back to it.
pub proof fn lemma_be16_decode(v: u16)
    ensures
        be16(v).len() == 2,
        u16_of(be16(v)[0], be16(v)[1]) == v,
{
}

/// Encoding values big-endian gives two bytes per value, value `i` at
/// offset `2 * i`.
pub proof fn lemma_be16s_len_index(vs: Seq<u16>)
    ensures
        be16s(vs).len() == 2 * vs.len(),
        forall|i: int| 0 <= i < vs.len() ==> #[trigger] be16_at(be16s(vs), 2 * i) == vs[i],
    decreases vs.len(),
{
    if vs.len() > 0 {
        lemma_be16s_len_index(vs.drop_last());
        lemma_be16_decode(vs.last());
        let prev = be16s(vs.drop_last());
        assert forall|i: int| 0 <= i < vs.len() implies #[trigger] be16_at(be16s(vs), 2 * i)
            == vs[i] by {
            if i < vs.len() - 1 {
                assert(be16_at(prev, 2 * i) == vs.drop_last()[i]);
            }
        }
    }
}

/// Appends `x` high byte first (the behaviour of `BufMut::put_u16`).
fn put_u16(v: &mut Vec<u8>, x: u16)
    ensures
        final(v)@ == old(v)@ + be16(x),
{
    v.push((x / 256) as u8);
    v.push((x % 256) as u8);
    assert(v@ =~= old(v)@ + be16(x));
}

fn u16_from_be(hi: u8, lo: u8) -> (r: u16)
    ensures
        r == u16_of(hi, lo),
{
    (hi as u16) * 256 + (lo as u16)
}

/// A copy of `s[start..end]`.
fn copy_range(s: &[u8], start: usize, end: usize) -> (r: Vec<u8>)
    requires
        start <= end <= s@.len(),
    ensures
        r@ == s@.subrange(start as int, end as int),
{
    let mut r: Vec<u8> = Vec::new();
    let mut i = start;
    while i < end
        invariant
            start <= i <= end <= s@.len(),
            r@ == s@.subrange(start as int, i as int),
        decreases end - i,
    {
        r.push(s[i]);
        i = i + 1;
        assert(r@ =~= s@.subrange(start as int, i as int));
    }
    r
}

// ============================================================================
// Messages
// ============================================================================

/// The message for an MBAP header with a protocol id other than 0.
pub open spec fn protocol_id_message(protocol_id: u16) -> Seq<char> {
    "Invalid protocol_id: "@ + decimal(protocol_id as nat) + ", expected 0"@
}

/// The message for a write response that does not echo the request.
pub open spec fn echo_mismatch_message(e1: u16, e2: u16, g1: u16, g2: u16) -> Seq<char> {
    "Echo mismatch: expected ("@ + decimal(e1 as nat) + ", "@ + decimal(e2 as nat)
        + "), got ("@ + decimal(g1 as nat) + ", "@ + decimal(g2 as nat) + ")"@
}

fn protocol_id_error(protocol_id: u16) -> (e: ModbusError)
    ensures
        e matches ModbusError::MbapParseError(m) && m@ == protocol_id_message(protocol_id),
{
    let mut m = String::new();
    push_str(&mut m, "Invalid protocol_id: ");
    push_decimal(&mut m, protocol_id as u64);
    push_str(&mut m, ", expected 0");
    assert(m@ =~= protocol_id_message(protocol_id));
    ModbusError::MbapParseError(m)
}

fn echo_mismatch_error(e1: u16, e2: u16, g1: u16, g2: u16) -> (e: ModbusError)
    ensures
        e matches ModbusError::InvalidPdu(m) && m@ == echo_mismatch_message(e1, e2, g1, g2),
{
    let mut m = String::new();
    push_str(&mut m, "Echo mismatch: expected (");
    push_decimal(&mut m, e1 as u64);
    push_str(&mut m, ", ");
    push_decimal(&mut m, e2 as u64);
    push_str(&mut m, "), got (");
    push_decimal(&mut m, g1 as u64);
    push_str(&mut m, ", ");
    push_decimal(&mut m, g2 as u64);
    push_str(&mut m, ")");
    assert(m@ =~= echo_mismatch_message(e1, e2, g1, g2));
    ModbusError::InvalidPdu(m)
}

fn empty_data_error() -> (e: ModbusError)
    ensures
        e matches ModbusError::InvalidPdu(m) && m@ == "Empty data"@,
{
    let mut m = String::new();
    push_str(&mut m, "Empty data");
    assert(m@ =~= "Empty data"@);
    ModbusError::InvalidPdu(m)
}

// ============================================================================
// PDU
// ============================================================================

/// Modbus PDU (Protocol Data Unit): a function code and its data.
#[derive(Debug, PartialEq)]
pub struct ModbusPdu {
    pub function_code: u8,
    pub data: Vec<u8>,
}

impl Clone for ModbusPdu {
    fn clone(&self) -> (r: Self)
        ensures
            r.function_code == self.function_code,
            r.data@ == self.data@,
    {
        ModbusPdu { function_code: self.function_code, data: copy_range(self.data.as_slice(), 0, self.data.len()) }
    }
}

impl ModbusPdu {
    /// Create a new PDU.
    pub fn new(function_code: u8, data: Vec<u8>) -> (r: Self)
        ensures
            r.function_code == function_code,
            r.data == data,
    {
        Self { function_code, data }
    }

    /// The request function code of an exception response: the function
    /// code without its high bit, or `None` when the high bit is clear.
    pub fn exception_code(&self) -> (r: Option<u8>)
        ensures
            r == (if self.function_code >= 0x80 {
                Some((self.function_code - 0x80) as u8)
            } else {
                None
            }),
    {
        if self.function_code >= 0x80 {
            Some(self.function_code - 0x80)
        } else {
            None
        }
    }

    /// Whether this is an exception response (high bit of the function code set).
    pub fn is_exception(&self) -> (r: bool)
        ensures
            r == (self.function_code >= 0x80),
    {
        self.function_code >= 0x80
    }

    /// The exception code carried in the data: its first byte, if any.
    pub fn get_exception_code(&self) -> (r: Option<u8>)
        ensures
            r == (if self.data@.len() > 0 {
                Some(self.data@[0])
            } else {
                None
            }),
    {
        if self.data.len() > 0 {
            Some(self.data[0])
        } else {
            None
        }
    }
}

// ============================================================================
// MBAP header
// ============================================================================

/// Modbus TCP MBAP (Modbus Application Protocol) header.
#[derive(Debug, Clone, Copy, PartialEq, Eq)]
pub struct MbapHeader {
    /// Transaction identifier (set by client)
    pub transaction_id: u16,
    /// Protocol identifier (0 for Modbus)
    pub protocol_id: u16,
    /// Length of the following bytes (unit id, function code and data)
    pub length: u16,
    /// Unit identifier
    pub unit_id: u8,
}

/// The header read from the first seven bytes of `s`.
pub open spec fn mbap_of(s: Seq<u8>) -> MbapHeader {
    MbapHeader {
        transaction_id: be16_at(s, 0),
        protocol_id: be16_at(s, 2),
        length: be16_at(s, 4),
        unit_id: s[6],
    }
}

/// The seven bytes of a header on the wire.
pub open spec fn mbap_bytes(h: MbapHeader) -> Seq<u8> {
    be16(h.transaction_id) + be16(h.protocol_id) + be16(h.length) + seq![h.unit_id]
}

impl MbapHeader {
    /// Parse an MBAP header from the first seven bytes of `buf`.
    pub fn parse(buf: &[u8]) -> (r: Result<Self, ModbusError>)
        ensures
            buf@.len() < 7 ==> r == Err::<MbapHeader, ModbusError>(
                ModbusError::IncompleteFrame { got: buf@.len() as usize, expected: 7 },
            ),
            buf@.len() >= 7 && be16_at(buf@, 2) != 0 ==> (r matches Err(
                ModbusError::MbapParseError(m),
            ) && m@ == protocol_id_message(be16_at(buf@, 2))),
            buf@.len() >= 7 && be16_at(buf@, 2) == 0 ==> r == Ok::<MbapHeader, ModbusError>(
                mbap_of(buf@),
            ),
    {
        if buf.len() < 7 {
            return Err(ModbusError::IncompleteFrame { got: buf.len(), expected: 7 });
        }
        let transaction_id = u16_from_be(buf[0], buf[1]);
        let protocol_id = u16_from_be(buf[2], buf[3]);
        if protocol_id != 0 {
            return Err(protocol_id_error(protocol_id));
        }
        let length = u16_from_be(buf[4], buf[5]);
        let unit_id = buf[6];
        Ok(Self { transaction_id, protocol_id, length, unit_id })
    }

    /// Append the header's seven bytes to `buf`.
    pub fn write(&self, buf: &mut BytesMut)
        requires
            bytes_mut_contents(*old(buf)).len() + 7 <= isize::MAX,
        ensures
            bytes_mut_contents(*final(buf)) == bytes_mut_contents(*old(buf)) + mbap_bytes(*self),
    {
        bytes_mut_put_u16(buf, self.transaction_id);
        bytes_mut_put_u16(buf, self.protocol_id);
        bytes_mut_put_u16(buf, self.length);
        bytes_mut_put_u8(buf, self.unit_id);
        assert(bytes_mut_contents(*buf) =~= bytes_mut_contents(*old(buf)) + mbap_bytes(*self));
    }

    /// Total frame length: the seven header bytes plus the `length - 1`
    /// bytes of function code and data.
    pub fn total_length(&self) -> (r: usize)
        requires
            self.length >= 1,
        ensures
            r == 6 + self.length,
    {
        7 + (self.length - 1) as usize
    }
}

// ============================================================================
// TCP frame
// ============================================================================

/// Modbus TCP frame (MBAP header + PDU).
#[derive(Debug, Clone, PartialEq)]
pub struct ModbusTcpFrame {
    pub mbap: MbapHeader,
    pub pdu: ModbusPdu,
}

/// `ModbusTcpFrame::parse` is defined on `s`: its header, when valid,
/// announces a length of at least 2 (unit id and function code).
pub open spec fn tcp_parse_defined(s: Seq<u8>) -> bool {
    s.len() < 7 || be16_at(s, 2) != 0 || be16_at(s, 4) >= 2
}

/// `s` holds a complete TCP frame with a valid header.
pub open spec fn tcp_accepts(s: Seq<u8>) -> bool {
    &&& s.len() >= 7
    &&& be16_at(s, 2) == 0
    &&& s.len() >= 6 + be16_at(s, 4)
}

/// `f` is the frame decoded from `s`.
pub open spec fn tcp_decodes(f: ModbusTcpFrame, s: Seq<u8>) -> bool {
    &&& f.mbap == mbap_of(s)
    &&& f.pdu.function_code == s[7]
    &&& f.pdu.data@ == s.subrange(8, 6 + be16_at(s, 4))
}

/// The MBAP length field written by `ModbusTcpFrame::encode`: two (unit id
/// and function code) plus the data length, the latter taken modulo 2^16.
pub open spec fn tcp_length_field(f: ModbusTcpFrame) -> u16 {
    (f.pdu.data@.len() % 65536 + 2) as u16
}

/// The bytes `ModbusTcpFrame::encode` produces for `f`: protocol id 0 and
/// a recomputed length, whatever `f.mbap` holds in those fields.
pub open spec fn tcp_frame_bytes(f: ModbusTcpFrame) -> Seq<u8> {
    mbap_bytes(
        MbapHeader {
            transaction_id: f.mbap.transaction_id,
            protocol_id: 0,
            length: tcp_length_field(f),
            unit_id: f.mbap.unit_id,
        },
    ) + seq![f.pdu.function_code] + f.pdu.data@
}

impl ModbusTcpFrame {
    /// Parse a TCP frame from bytes.
    pub fn parse(buf: &[u8]) -> (r: Result<Self, ModbusError>)
        requires
            tcp_parse_defined(buf@),
        ensures
            buf@.len() < 7 ==> r == Err::<ModbusTcpFrame, ModbusError>(
                ModbusError::IncompleteFrame { got: buf@.len() as usize, expected: 7 },
            ),
            buf@.len() >= 7 && be16_at(buf@, 2) != 0 ==> (r matches Err(
                ModbusError::MbapParseError(m),
            ) && m@ == protocol_id_message(be16_at(buf@, 2))),
            buf@.len() >= 7 && be16_at(buf@, 2) == 0 && buf@.len() < 6 + be16_at(buf@, 4) ==> r
                == Err::<ModbusTcpFrame, ModbusError>(
                ModbusError::IncompleteFrame {
                    got: buf@.len() as usize,
                    expected: (6 + be16_at(buf@, 4)) as usize,
                },
            ),
            tcp_accepts(buf@) ==> (r matches Ok(f) && tcp_decodes(f, buf@)),
    {
        let mbap = match MbapHeader::parse(buf) {
            Ok(h) => h,
            Err(e) => return Err(e),
        };
        let pdu_start: usize = 7;
        let pdu_len = (mbap.length - 1) as usize;
        if buf.len() < pdu_start + pdu_len {
            return Err(ModbusError::IncompleteFrame { got: buf.len(), expected: pdu_start + pdu_len });
        }
        let function_code = buf[pdu_start];
        let data = copy_range(buf, pdu_start + 1, pdu_start + pdu_len);
        Ok(Self { mbap, pdu: ModbusPdu::new(function_code, data) })
    }

    /// Encode the frame to bytes: an MBAP header with protocol id 0 and the
    /// length recomputed from the data, then the function code and data.
    pub fn encode(&self) -> (b: BytesMut)
        requires
            self.pdu.data@.len() % 65536 + 2 <= 65535,
            self.pdu.data@.len() + 9 <= isize::MAX,
        ensures
            bytes_mut_contents(b) == tcp_frame_bytes(*self),
    {
        let n = self.pdu.data.len();
        let mut buf = bytes_mut_with_capacity(7 + n + 2);
        let length = (n % 65536) as u16 + 2;
        let mbap = MbapHeader {
            transaction_id: self.mbap.transaction_id,
            protocol_id: 0,
            length,
            unit_id: self.mbap.unit_id,
        };
        mbap.write(&mut buf);
        bytes_mut_put_u8(&mut buf, self.pdu.function_code);
        bytes_mut_extend_from_slice(&mut buf, self.pdu.data.as_slice());
        buf
    }
}

/// Decoding the bytes of an encoded TCP frame gives back its transaction
/// id, unit id, function code and data, with protocol id 0 and length
/// `2 + data length`.
pub proof fn lemma_tcp_frame_roundtrip(f: ModbusTcpFrame)
    requires
        f.pdu.data@.len() <= 65533,
    ensures
        tcp_parse_defined(tcp_frame_bytes(f)),
        tcp_accepts(tcp_frame_bytes(f)),
        mbap_of(tcp_frame_bytes(f)) == (MbapHeader {
            transaction_id: f.mbap.transaction_id,
            protocol_id: 0,
            length: (f.pdu.data@.len() + 2) as u16,
            unit_id: f.mbap.unit_id,
        }),
        tcp_frame_bytes(f)[7] == f.pdu.function_code,
        tcp_frame_bytes(f).subrange(8, 6 + be16_at(tcp_frame_bytes(f), 4)) == f.pdu.data@,
{
    let s = tcp_frame_bytes(f);
    let n = f.pdu.data@.len();
    lemma_be16_decode(f.mbap.transaction_id);
    lemma_be16_decode(0);
    lemma_be16_decode((n + 2) as u16);
    assert(be16_at(s, 0) == f.mbap.transaction_id);
    assert(be16_at(s, 2) == 0);
    assert(be16_at(s, 4) == n + 2);
    assert(s.subrange(8, 8 + n as int) =~= f.pdu.data@);
}

// ============================================================================
// RTU frame and CRC
// ============================================================================

/// One shift step of the Modbus CRC-16 (reflected polynomial 0xA001).
pub open spec fn crc_shift(c: u16) -> u16 {
    if (c & 1) != 0 {
        (c >> 1) ^ 0xA001
    } else {
        c >> 1
    }
}

/// `k` shift steps applied to `c`.
pub open spec fn crc_shifts(c: u16, k: nat) -> u16
    decreases k,
{
    if k == 0 {
        c
    } else {
        crc_shift(crc_shifts(c, (k - 1) as nat))
    }
}

/// The CRC register after absorbing byte `b`.
pub open spec fn crc_absorb(c: u16, b: u8) -> u16 {
    crc_shifts(c ^ (b as u16), 8)
}

/// Modbus CRC-16 of `s`: start from 0xFFFF and absorb the bytes in order.
pub open spec fn crc16(s: Seq<u8>) -> u16
    decreases s.len(),
{
    if s.len() == 0 {
        0xFFFF
    } else {
        crc_absorb(crc16(s.drop_last()), s.last())
    }
}

/// The RTU bytes of a frame: address, function code, data, then the CRC of
/// those bytes, low byte first.
pub open spec fn rtu_frame_bytes(slave_address: u8, function_code: u8, data: Seq<u8>) -> Seq<u8> {
    let body = seq![slave_address, function_code] + data;
    body + seq![(crc16(body) % 256) as u8, (crc16(body) / 256) as u8]
}

/// The CRC stored in the last two bytes of `s` (low byte first).
pub open spec fn rtu_stored_crc(s: Seq<u8>) -> u16 {
    u16_of(s[s.len() - 1], s[s.len() - 2])
}

/// The CRC computed over all but the last two bytes of `s`.
pub open spec fn rtu_computed_crc(s: Seq<u8>) -> u16 {
    crc16(s.take(s.len() - 2))
}

/// `f` holds the address, function code and data of the RTU bytes `s`.
pub open spec fn rtu_splits(f: ModbusRtuFrame, s: Seq<u8>) -> bool {
    &&& f.slave_address == s[0]
    &&& f.pdu.function_code == s[1]
    &&& f.pdu.data@ == s.subrange(2, s.len() - 2)
}

/// Modbus RTU frame.
#[derive(Debug, Clone, PartialEq)]
pub struct ModbusRtuFrame {
    pub slave_address: u8,
    pub pdu: ModbusPdu,
}

impl ModbusRtuFrame {
    /// Parse an RTU frame, checking its CRC.
    pub fn parse(buf: &[u8]) -> (r: Result<Self, ModbusError>)
        ensures
            buf@.len() < 4 ==> r == Err::<ModbusRtuFrame, ModbusError>(
                ModbusError::IncompleteFrame { got: buf@.len() as usize, expected: 4 },
            ),
            buf@.len() >= 4 && rtu_computed_crc(buf@) != rtu_stored_crc(buf@) ==> r == Err::<
                ModbusRtuFrame,
                ModbusError,
            >(
                ModbusError::CrcMismatch {
                    expected: rtu_computed_crc(buf@),
                    got: rtu_stored_crc(buf@),
                },
            ),
            buf@.len() >= 4 && rtu_computed_crc(buf@) == rtu_stored_crc(buf@) ==> (r matches Ok(
                f,
            ) && rtu_splits(f, buf@)),
    {
        if buf.len() < 4 {
            return Err(ModbusError::IncompleteFrame { got: buf.len(), expected: 4 });
        }
        let slave_address = buf[0];
        let function_code = buf[1];
        let data_len = buf.len() - 2;
        let crc_pos = data_len;
        let calculated_crc = Self::calculate_crc(&buf[0..data_len]);
        let frame_crc = u16_from_be(buf[crc_pos + 1], buf[crc_pos]);
        if calculated_crc != frame_crc {
            return Err(ModbusError::CrcMismatch { expected: calculated_crc, got: frame_crc });
        }
        let data = copy_range(buf, 2, data_len);
        Ok(Self { slave_address, pdu: ModbusPdu::new(function_code, data) })
    }

    /// The frame's bytes without CRC: address, function code, data.
    pub fn encode_without_crc(&self) -> (r: Vec<u8>)
        ensures
            r@ == seq![self.slave_address, self.pdu.function_code] + self.pdu.data@,
    {
        let mut buf: Vec<u8> = Vec::new();
        buf.push(self.slave_address);
        buf.push(self.pdu.function_code);
        let n = self.pdu.data.len();
        let mut i: usize = 0;
        while i < n
            invariant
                n == self.pdu.data@.len(),
                i <= n,
                buf@ == seq![self.slave_address, self.pdu.function_code] + self.pdu.data@.take(
                    i as int,
                ),
            decreases n - i,
        {
            buf.push(self.pdu.data[i]);
            i = i + 1;
            assert(buf@ =~= seq![self.slave_address, self.pdu.function_code]
                + self.pdu.data@.take(i as int));
        }
        assert(self.pdu.data@.take(n as int) =~= self.pdu.data@);
        buf
    }

    /// The frame's bytes with the CRC appended, low byte first.
    pub fn encode(&self) -> (r: Vec<u8>)
        ensures
            r@ == rtu_frame_bytes(self.slave_address, self.pdu.function_code, self.pdu.data@),
    {
        let mut buf = self.encode_without_crc();
        let crc = Self::calculate_crc(buf.as_slice());
        buf.push((crc % 256) as u8);
        buf.push((crc / 256) as u8);
        assert(buf@ =~= rtu_frame_bytes(self.slave_address, self.pdu.function_code, self.pdu.data@));
        buf
    }

    /// Modbus CRC-16 of `data`.
    pub fn calculate_crc(data: &[u8]) -> (r: u16)
        ensures
            r == crc16(data@),
    {
        let mut crc: u16 = 0xFFFF;
        let n = data.len();
        let mut i: usize = 0;
        assert(data@.take(0) =~= Seq::<u8>::empty());
        while i < n
            invariant
                n == data@.len(),
                i <= n,
                crc == crc16(data@.take(i as int)),
            decreases n - i,
        {
            let start: u16 = crc ^ (data[i] as u16);
            crc = start;
            let mut j: u32 = 0;
            while j < 8
                invariant
                    j <= 8,
                    crc == crc_shifts(start, j as nat),
                decreases 8 - j,
            {
                if (crc & 1) != 0 {
                    crc = (crc >> 1) ^ 0xA001;
                } else {
                    crc = crc >> 1;
                }
                j = j + 1;
            }
            assert(data@.take(i + 1).drop_last() =~= data@.take(i as int));
            i = i + 1;
        }
        assert(data@.take(n as int) =~= data@);
        crc
    }
}

/// An encoded RTU frame passes its own CRC check and splits back into the
/// address, function code and data it was built from.
pub proof fn lemma_rtu_frame_roundtrip(slave_address: u8, function_code: u8, data: Seq<u8>)
    ensures
        ({
            let s = rtu_frame_bytes(slave_address, function_code, data);
            &&& s.len() == data.len() + 4
            &&& rtu_computed_crc(s) == rtu_stored_crc(s)
            &&& s[0] == slave_address
            &&& s[1] == function_code
            &&& s.subrange(2, s.len() - 2) == data
        }),
{
    let body = seq![slave_address, function_code] + data;
    let s = rtu_frame_bytes(slave_address, function_code, data);
    assert(s.take(s.len() - 2) =~= body);
    assert(s.subrange(2, s.len() - 2) =~= data);
}

/// Eight shift steps spelled out.
proof fn lemma_crc_shifts_eight(c: u16)
    ensures
        crc_shifts(c, 8) == crc_shift(
            crc_shift(crc_shift(crc_shift(crc_shift(crc_shift(crc_shift(crc_shift(c))))))),
        ),
{
    reveal_with_fuel(crc_shifts, 9);
}

/// Absorbing the two bytes of a CRC register's own value, low byte first,
/// clears it.
proof fn lemma_crc_residue_bits(
    c: u16,
    a0: u16,
    a1: u16,
    a2: u16,
    a3: u16,
    a4: u16,
    a5: u16,
    a6: u16,
    a7: u16,
    a8: u16,
    b0: u16,
    b1: u16,
    b2: u16,
    b3: u16,
    b4: u16,
    b5: u16,
    b6: u16,
    b7: u16,
    b8: u16,
) by (bit_vector)
    requires
        a0 == c ^ (c & 0xff),
        a1 == (if a0 & 1 != 0 { (a0 >> 1) ^ 0xA001 } else { a0 >> 1 }),
        a2 == (if a1 & 1 != 0 { (a1 >> 1) ^ 0xA001 } else { a1 >> 1 }),
        a3 == (if a2 & 1 != 0 { (a2 >> 1) ^ 0xA001 } else { a2 >> 1 }),
        a4 == (if a3 & 1 != 0 { (a3 >> 1) ^ 0xA001 } else { a3 >> 1 }),
        a5 == (if a4 & 1 != 0 { (a4 >> 1) ^ 0xA001 } else { a4 >> 1 }),
        a6 == (if a5 & 1 != 0 { (a5 >> 1) ^ 0xA001 } else { a5 >> 1 }),
        a7 == (if a6 & 1 != 0 { (a6 >> 1) ^ 0xA001 } else { a6 >> 1 }),
        a8 == (if a7 & 1 != 0 { (a7 >> 1) ^ 0xA001 } else { a7 >> 1 }),
        b0 == a8 ^ (c >> 8),
        b1 == (if b0 & 1 != 0 { (b0 >> 1) ^ 0xA001 } else { b0 >> 1 }),
        b2 == (if b1 & 1 != 0 { (b1 >> 1) ^ 0xA001 } else { b1 >> 1 }),
        b3 == (if b2 & 1 != 0 { (b2 >> 1) ^ 0xA001 } else { b2 >> 1 }),
        b4 == (if b3 & 1 != 0 { (b3 >> 1) ^ 0xA001 } else { b3 >> 1 }),
        b5 == (if b4 & 1 != 0 { (b4 >> 1) ^ 0xA001 } else { b4 >> 1 }),
        b6 == (if b5 & 1 != 0 { (b5 >> 1) ^ 0xA001 } else { b5 >> 1 }),
        b7 == (if b6 & 1 != 0 { (b6 >> 1) ^ 0xA001 } else { b6 >> 1 }),
        b8 == (if b7 & 1 != 0 { (b7 >> 1) ^ 0xA001 } else { b7 >> 1 }),
    ensures
        b8 == 0,
{
}

/// A message followed by its own CRC, low byte first, has CRC residue 0.
pub proof fn lemma_crc_residue(s: Seq<u8>)
    ensures
        crc16(s + seq![(crc16(s) % 256) as u8, (crc16(s) / 256) as u8]) == 0,
{
    let c = crc16(s);
    let lo = (c % 256) as u8;
    let hi = (c / 256) as u8;
    let t = s + seq![lo, hi];
    assert(t.drop_last() =~= s.push(lo));
    assert(s.push(lo).drop_last() =~= s);
    assert(t.last() == hi);
    assert(s.push(lo).last() == lo);
    assert(crc16(s.push(lo)) == crc_absorb(c, lo));
    assert(crc16(t) == crc_absorb(crc_absorb(c, lo), hi));
    assert((lo as u16) == (c & 0xff)) by (bit_vector)
        requires
            lo == (c % 256) as u8,
    ;
    assert((hi as u16) == (c >> 8)) by (bit_vector)
        requires
            hi == (c / 256) as u8,
    ;
    let a0 = c ^ (lo as u16);
    lemma_crc_shifts_eight(a0);
    let a1 = crc_shift(a0);
    let a2 = crc_shift(a1);
    let a3 = crc_shift(a2);
    let a4 = crc_shift(a3);
    let a5 = crc_shift(a4);
    let a6 = crc_shift(a5);
    let a7 = crc_shift(a6);
    let a8 = crc_shift(a7);
    let b0 = a8 ^ (hi as u16);
    lemma_crc_shifts_eight(b0);
    let b1 = crc_shift(b0);
    let b2 = crc_shift(b1);
    let b3 = crc_shift(b2);
    let b4 = crc_shift(b3);
    let b5 = crc_shift(b4);
    let b6 = crc_shift(b5);
    let b7 = crc_shift(b6);
    let b8 = crc_shift(b7);
    lemma_crc_residue_bits(c, a0, a1, a2, a3, a4, a5, a6, a7, a8, b0, b1, b2, b3, b4, b5, b6, b7, b8);
}

// ============================================================================
// PDU builders
// ============================================================================

fn read_request(function_code: u8, address: u16, count: u16) -> (r: Result<ModbusPdu, ModbusError>)
    ensures
        count == 0 || count > MAX_READ_COUNT ==> r == Err::<ModbusPdu, ModbusError>(
            ModbusError::InvalidDataLength(count as usize),
        ),
        0 < count <= MAX_READ_COUNT ==> (r matches Ok(p) && p.function_code == function_code
            && p.data@ == be16(address) + be16(count)),
{
    if count == 0 || count > MAX_READ_COUNT {
        return Err(ModbusError::InvalidDataLength(count as usize));
    }
    let mut data: Vec<u8> = Vec::with_capacity(4);
    put_u16(&mut data, address);
    put_u16(&mut data, count);
    Ok(ModbusPdu::new(function_code, data))
}

/// The packed register values of a Write Multiple Registers request with
/// `count` registers.
pub open spec fn write_registers_data(address: u16, count: u16, values: Seq<u16>) -> Seq<u8> {
    be16(address) + be16(count) + seq![(count * 2) as u8] + be16s(values)
}

impl ModbusPdu {
    /// Build a Read Coils request (FC01).
    pub fn read_coils(address: u16, count: u16) -> (r: Result<Self, ModbusError>)
        ensures
            count == 0 || count > MAX_READ_COUNT ==> r == Err::<ModbusPdu, ModbusError>(
                ModbusError::InvalidDataLength(count as usize),
            ),
            0 < count <= MAX_READ_COUNT ==> (r matches Ok(p) && p.function_code == READ_COILS
                && p.data@ == be16(address) + be16(count)),
    {
        read_request(READ_COILS, address, count)
    }

    /// Build a Read Holding Registers request (FC03).
    pub fn read_holding_registers(address: u16, count: u16) -> (r: Result<Self, ModbusError>)
        ensures
            count == 0 || count > MAX_READ_COUNT ==> r == Err::<ModbusPdu, ModbusError>(
                ModbusError::InvalidDataLength(count as usize),
            ),
            0 < count <= MAX_READ_COUNT ==> (r matches Ok(p) && p.function_code
                == READ_HOLDING_REGISTERS && p.data@ == be16(address) + be16(count)),
    {
        read_request(READ_HOLDING_REGISTERS, address, count)
    }

    /// Build a Read Input Registers request (FC04).
    pub fn read_input_registers(address: u16, count: u16) -> (r: Result<Self, ModbusError>)
        ensures
            count == 0 || count > MAX_READ_COUNT ==> r == Err::<ModbusPdu, ModbusError>(
                ModbusError::InvalidDataLength(count as usize),
            ),
            0 < count <= MAX_READ_COUNT ==> (r matches Ok(p) && p.function_code
                == READ_INPUT_REGISTERS && p.data@ == be16(address) + be16(count)),
    {
        read_request(READ_INPUT_REGISTERS, address, count)
    }

    /// Build a Write Single Coil request (FC05): 0xFF00 for ON, 0x0000 for OFF.
    pub fn write_single_coil(address: u16, value: bool) -> (r: Result<Self, ModbusError>)
        ensures
            r matches Ok(p) && p.function_code == WRITE_SINGLE_COIL && p.data@ == be16(address)
                + be16(if value { 0xFF00u16 } else { 0x0000u16 }),
    {
        let mut data: Vec<u8> = Vec::with_capacity(4);
        put_u16(&mut data, address);
        put_u16(&mut data, if value { 0xFF00 } else { 0x0000 });
        Ok(Self::new(WRITE_SINGLE_COIL, data))
    }

    /// Build a Write Single Register request (FC06).
    pub fn write_single_register(address: u16, value: u16) -> (r: Result<Self, ModbusError>)
        ensures
            r matches Ok(p) && p.function_code == WRITE_SINGLE_REGISTER && p.data@ == be16(address)
                + be16(value),
    {
        let mut data: Vec<u8> = Vec::with_capacity(4);
        put_u16(&mut data, address);
        put_u16(&mut data, value);
        Ok(Self::new(WRITE_SINGLE_REGISTER, data))
    }

    /// Build a Write Multiple Registers request (FC16). The register count
    /// is the number of values taken modulo 2^16; it must be 1..=123.
    pub fn write_multiple_registers(address: u16, values: &[u16]) -> (r: Result<Self, ModbusError>)
        ensures
            ({
                let count = (values@.len() % 65536) as u16;
                &&& (count == 0 || count > MAX_WRITE_REGISTERS) ==> r == Err::<
                    ModbusPdu,
                    ModbusError,
                >(ModbusError::InvalidDataLength(count as usize))
                &&& (0 < count <= MAX_WRITE_REGISTERS) ==> (r matches Ok(p) && p.function_code
                    == WRITE_MULTIPLE_REGISTERS && p.data@ == write_registers_data(
                    address,
                    count,
                    values@,
                ))
                &&& (0 < count <= MAX_WRITE_REGISTERS) ==> (r matches Ok(p) && be16_at(p.data@, 0)
                    == address && be16_at(p.data@, 2) == count && p.data@[4] == 2 * count
                    && p.data@.len() == 5 + 2 * values@.len() && forall|i: int|
                    0 <= i < values@.len() ==> be16_at(p.data@, 5 + 2 * i) == #[trigger] values@[i])
            }),
    {
        let count = (values.len() % 65536) as u16;
        if count == 0 || count > MAX_WRITE_REGISTERS {
            return Err(ModbusError::InvalidDataLength(count as usize));
        }
        let byte_count = count * 2;
        let mut data: Vec<u8> = Vec::new();
        put_u16(&mut data, address);
        put_u16(&mut data, count);
        data.push(byte_count as u8);
        let ghost head = data@;
        let n = values.len();
        let mut i: usize = 0;
        assert(values@.take(0) =~= Seq::<u16>::empty());
        assert(data@ =~= head + be16s(values@.take(0)));
        while i < n
            invariant
                n == values@.len(),
                i <= n,
                data@ == head + be16s(values@.take(i as int)),
            decreases n - i,
        {
            put_u16(&mut data, values[i]);
            assert(values@.take(i + 1).drop_last() =~= values@.take(i as int));
            i = i + 1;
            assert(data@ =~= head + be16s(values@.take(i as int)));
        }
        assert(values@.take(n as int) =~= values@);
        assert(data@ =~= write_registers_data(address, count, values@));
        proof {
            lemma_write_registers_layout(address, count, values@);
        }
        Ok(Self::new(WRITE_MULTIPLE_REGISTERS, data))
    }
}

// ============================================================================
// Response parsers
// ============================================================================

/// Bit `k` (0 = least significant) of `b`.
pub open spec fn bit_of(b: u8, k: int) -> bool {
    ((b >> (k as u8)) & 1u8) == 1u8
}

/// The bits of `data[1 .. 1 + byte_count]`, least significant bit of each
/// byte first.
pub open spec fn unpacked_bits(data: Seq<u8>, byte_count: int) -> Seq<bool> {
    Seq::new((byte_count * 8) as nat, |i: int| bit_of(data[1 + i / 8], i % 8))
}

/// The big-endian 16-bit values in `data[1..]`, one per complete pair of
/// bytes.
pub open spec fn unpacked_registers(data: Seq<u8>) -> Seq<u16> {
    Seq::new(((data.len() - 1) / 2) as nat, |i: int| be16_at(data, 1 + 2 * i))
}

/// The address and value (or count) echoed in the four data bytes of a
/// write response.
pub open spec fn echo_fields(data: Seq<u8>) -> (u16, u16) {
    (be16_at(data, 0), be16_at(data, 2))
}

impl ModbusPdu {
    /// Parse a Read Coils / Read Discrete Inputs response: a byte count
    /// followed by packed bits. Returns eight bits per counted byte.
    pub fn parse_read_bits(&self) -> (r: Result<Vec<bool>, ModbusError>)
        ensures
            self.function_code != READ_COILS && self.function_code != READ_DISCRETE_INPUTS ==> r
                == Err::<Vec<bool>, ModbusError>(
                ModbusError::InvalidFunctionCode(self.function_code),
            ),
            (self.function_code == READ_COILS || self.function_code == READ_DISCRETE_INPUTS)
                && self.data@.len() == 0 ==> (r matches Err(ModbusError::InvalidPdu(m)) && m@
                == "Empty data"@),
            (self.function_code == READ_COILS || self.function_code == READ_DISCRETE_INPUTS)
                && self.data@.len() > 0 && self.data@.len() < self.data@[0] + 1 ==> r == Err::<
                Vec<bool>,
                ModbusError,
            >(ModbusError::InvalidDataLength(self.data@.len() as usize)),
            (self.function_code == READ_COILS || self.function_code == READ_DISCRETE_INPUTS)
                && self.data@.len() > 0 && self.data@.len() >= self.data@[0] + 1 ==> (r matches Ok(
                bits,
            ) && bits@ == unpacked_bits(self.data@, self.data@[0] as int)),
    {
        if self.function_code != READ_COILS && self.function_code != READ_DISCRETE_INPUTS {
            return Err(ModbusError::InvalidFunctionCode(self.function_code));
        }
        if self.data.len() == 0 {
            return Err(empty_data_error());
        }
        let byte_count = self.data[0] as usize;
        if self.data.len() < byte_count + 1 {
            return Err(ModbusError::InvalidDataLength(self.data.len()));
        }
        let ghost target = unpacked_bits(self.data@, byte_count as int);
        let mut result: Vec<bool> = Vec::with_capacity(byte_count * 8);
        let mut i: usize = 0;
        while i < byte_count
            invariant
                byte_count == self.data@[0],
                self.data@.len() >= byte_count + 1,
                i <= byte_count,
                target == unpacked_bits(self.data@, byte_count as int),
                result@.len() == 8 * i,
                forall|k: int| 0 <= k < result@.len() ==> result@[k] == #[trigger] target[k],
            decreases byte_count - i,
        {
            let byte = self.data[1 + i];
            let mut bit: u8 = 0;
            while bit < 8
                invariant
                    byte_count == self.data@[0],
                    self.data@.len() >= byte_count + 1,
                    i < byte_count,
                    byte == self.data@[1 + i],
                    bit <= 8,
                    target == unpacked_bits(self.data@, byte_count as int),
                    result@.len() == 8 * i + bit,
                    forall|k: int| 0 <= k < result@.len() ==> result@[k] == #[trigger] target[k],
                decreases 8 - bit,
            {
                result.push(((byte >> bit) & 1) == 1);
                proof {
                    let k = 8 * i + bit;
                    assert(k / 8 == i as int);
                    assert(k % 8 == bit as int);
                    assert(result@[k] == target[k]);
                }
                bit = bit + 1;
            }
            i = i + 1;
        }
        assert(result@ =~= target);
        Ok(result)
    }

    /// Parse a Read Holding / Input Registers response: a byte count (which
    /// must be even and covered by the data) followed by big-endian
    /// registers. Every complete pair of bytes after the count is decoded.
    pub fn parse_read_registers(&self) -> (r: Result<Vec<u16>, ModbusError>)
        ensures
            self.function_code != READ_HOLDING_REGISTERS && self.function_code
                != READ_INPUT_REGISTERS ==> r == Err::<Vec<u16>, ModbusError>(
                ModbusError::InvalidFunctionCode(self.function_code),
            ),
            (self.function_code == READ_HOLDING_REGISTERS || self.function_code
                == READ_INPUT_REGISTERS) && self.data@.len() == 0 ==> (r matches Err(
                ModbusError::InvalidPdu(m),
            ) && m@ == "Empty data"@),
            (self.function_code == READ_HOLDING_REGISTERS || self.function_code
                == READ_INPUT_REGISTERS) && self.data@.len() > 0 && (self.data@.len()
                < self.data@[0] + 1 || self.data@[0] % 2 != 0) ==> r == Err::<
                Vec<u16>,
                ModbusError,
            >(ModbusError::InvalidDataLength(self.data@.len() as usize)),
            (self.function_code == READ_HOLDING_REGISTERS || self.function_code
                == READ_INPUT_REGISTERS) && self.data@.len() > 0 && self.data@.len()
                >= self.data@[0] + 1 && self.data@[0] % 2 == 0 ==> (r matches Ok(regs) && regs@
                == unpacked_registers(self.data@)),
    {
        if self.function_code != READ_HOLDING_REGISTERS && self.function_code != READ_INPUT_REGISTERS {
            return Err(ModbusError::InvalidFunctionCode(self.function_code));
        }
        if self.data.len() == 0 {
            return Err(empty_data_error());
        }
        let byte_count = self.data[0] as usize;
        if self.data.len() < byte_count + 1 || byte_count % 2 != 0 {
            return Err(ModbusError::InvalidDataLength(self.data.len()));
        }
        let ghost target = unpacked_registers(self.data@);
        let mut result: Vec<u16> = Vec::with_capacity(byte_count / 2);
        let n = self.data.len();
        let mut pos: usize = 1;
        while n - pos >= 2
            invariant
                n == self.data@.len(),
                1 <= pos <= n,
                pos == 1 + 2 * result@.len(),
                target == unpacked_registers(self.data@),
                forall|k: int| 0 <= k < result@.len() ==> result@[k] == #[trigger] target[k],
            decreases n - pos,
        {
            result.push(u16_from_be(self.data[pos], self.data[pos + 1]));
            pos = pos + 2;
        }
        assert(result@ =~= target);
        Ok(result)
    }

    /// Check a Write Single Register response, which echoes the request's
    /// address and value; returns them when they match the expected ones.
    pub fn parse_write_single_register(&self, expected_address: u16, expected_value: u16) -> (r:
        Result<(u16, u16), ModbusError>)
        ensures
            self.function_code != WRITE_SINGLE_REGISTER ==> r == Err::<(u16, u16), ModbusError>(
                ModbusError::InvalidFunctionCode(self.function_code),
            ),
            self.function_code == WRITE_SINGLE_REGISTER && self.data@.len() != 4 ==> r == Err::<
                (u16, u16),
                ModbusError,
            >(ModbusError::InvalidDataLength(self.data@.len() as usize)),
            self.function_code == WRITE_SINGLE_REGISTER && self.data@.len() == 4 && echo_fields(
                self.data@,
            ) != (expected_address, expected_value) ==> (r matches Err(ModbusError::InvalidPdu(m))
                && m@ == echo_mismatch_message(
                expected_address,
                expected_value,
                echo_fields(self.data@).0,
                echo_fields(self.data@).1,
            )),
            self.function_code == WRITE_SINGLE_REGISTER && self.data@.len() == 4 && echo_fields(
                self.data@,
            ) == (expected_address, expected_value) ==> r == Ok::<(u16, u16), ModbusError>(
                (expected_address, expected_value),
            ),
    {
        if self.function_code != WRITE_SINGLE_REGISTER {
            return Err(ModbusError::InvalidFunctionCode(self.function_code));
        }
        check_echo(&self.data, expected_address, expected_value)
    }

    /// Check a Write Multiple Registers response, which echoes the request's
    /// address and register count; returns them when they match.
    pub fn parse_write_multiple_registers(&self, expected_address: u16, expected_count: u16) -> (r:
        Result<(u16, u16), ModbusError>)
        ensures
            self.function_code != WRITE_MULTIPLE_REGISTERS ==> r == Err::<(u16, u16), ModbusError>(
                ModbusError::InvalidFunctionCode(self.function_code),
            ),
            self.function_code == WRITE_MULTIPLE_REGISTERS && self.data@.len() != 4 ==> r == Err::<
                (u16, u16),
                ModbusError,
            >(ModbusError::InvalidDataLength(self.data@.len() as usize)),
            self.function_code == WRITE_MULTIPLE_REGISTERS && self.data@.len() == 4 && echo_fields(
                self.data@,
            ) != (expected_address, expected_count) ==> (r matches Err(ModbusError::InvalidPdu(m))
                && m@ == echo_mismatch_message(
                expected_address,
                expected_count,
                echo_fields(self.data@).0,
                echo_fields(self.data@).1,
            )),
            self.function_code == WRITE_MULTIPLE_REGISTERS && self.data@.len() == 4 && echo_fields(
                self.data@,
            ) == (expected_address, expected_count) ==> r == Ok::<(u16, u16), ModbusError>(
                (expected_address, expected_count),
            ),
    {
        if self.function_code != WRITE_MULTIPLE_REGISTERS {
            return Err(ModbusError::InvalidFunctionCode(self.function_code));
        }
        check_echo(&self.data, expected_address, expected_count)
    }

    /// Create an exception response: the function code with its high bit
    /// set, and the exception code as the only data byte.
    pub fn exception(function_code: u8, exception_code: u8) -> (r: Self)
        ensures
            r.function_code == (if function_code >= 0x80 {
                function_code
            } else {
                (function_code + 0x80) as u8
            }),
            r.data@ == seq![exception_code],
    {
        let code = if function_code >= 0x80 {
            function_code
        } else {
            function_code + 0x80
        };
        let mut data: Vec<u8> = Vec::new();
        data.push(exception_code);
        assert(data@ =~= seq![exception_code]);
        Self::new(code, data)
    }
}

fn check_echo(data: &Vec<u8>, expected_first: u16, expected_second: u16) -> (r: Result<
    (u16, u16),
    ModbusError,
>)
    ensures
        data@.len() != 4 ==> r == Err::<(u16, u16), ModbusError>(
            ModbusError::InvalidDataLength(data@.len() as usize),
        ),
        data@.len() == 4 && echo_fields(data@) != (expected_first, expected_second) ==> (r matches Err(
            ModbusError::InvalidPdu(m),
        ) && m@ == echo_mismatch_message(
            expected_first,
            expected_second,
            echo_fields(data@).0,
            echo_fields(data@).1,
        )),
        data@.len() == 4 && echo_fields(data@) == (expected_first, expected_second) ==> r == Ok::<
            (u16, u16),
            ModbusError,
        >((expected_first, expected_second)),
{
    if data.len() != 4 {
        return Err(ModbusError::InvalidDataLength(data.len()));
    }
    let first = u16_from_be(data[0], data[1]);
    let second = u16_from_be(data[2], data[3]);
    if first != expected_first || second != expected_second {
        return Err(echo_mismatch_error(expected_first, expected_second, first, second));
    }
    Ok((first, second))
}

// ============================================================================
// Laws relating builders and parsers
// ============================================================================

/// The response to a single-register write echoes the request PDU, so the
/// request built for `(address, value)` is accepted as the response for
/// that address and value.
pub proof fn lemma_write_single_register_echo(address: u16, value: u16, request: ModbusPdu)
    requires
        request.function_code == WRITE_SINGLE_REGISTER,
        request.data@ == be16(address) + be16(value),
    ensures
        request.data@.len() == 4,
        echo_fields(request.data@) == (address, value),
{
    lemma_be16_decode(address);
    lemma_be16_decode(value);
}

/// A register read response carrying `2 * n` bytes of big-endian values
/// decodes to exactly those `n` values.
pub proof fn lemma_read_registers_roundtrip(values: Seq<u16>)
    requires
        values.len() <= 127,
    ensures
        ({
            let data = seq![(2 * values.len()) as u8] + be16s(values);
            &&& data.len() >= data[0] + 1
            &&& data[0] % 2 == 0
            &&& unpacked_registers(data) == values
        }),
{
    let data = seq![(2 * values.len()) as u8] + be16s(values);
    lemma_be16s_len_index(values);
    assert forall|i: int| 0 <= i < values.len() implies #[trigger] unpacked_registers(data)[i]
        == values[i] by {
        assert(be16_at(data, 1 + 2 * i) == be16_at(be16s(values), 2 * i));
    }
    assert(unpacked_registers(data) =~= values);
}

/// Coil `8 * i + b` of a bit read response is bit `b` (least significant
/// first) of data byte `1 + i`: each counted data byte carries its own
/// eight coils, and there are eight per counted byte.
pub proof fn lemma_unpacked_bit(data: Seq<u8>, byte_count: int, i: int, b: int)
    requires
        0 <= i < byte_count,
        0 <= b < 8,
    ensures
        unpacked_bits(data, byte_count).len() == 8 * byte_count,
        unpacked_bits(data, byte_count)[8 * i + b] == (((data[1 + i] >> (b as u8)) & 1u8) == 1u8),
{
    assert((8 * i + b) / 8 == i && (8 * i + b) % 8 == b) by (nonlinear_arith)
        requires
            0 <= i,
            0 <= b < 8,
    ;
    assert(0 <= 8 * i + b < 8 * byte_count);
}

/// A Write Multiple Registers request carries the start address, then the
/// register count, then the byte count, then each value big-endian: the
/// first two bytes decode to the start address whatever it is, the next
/// two to the count, byte 4 is twice the count (for counts that fit), and
/// value `i` decodes from offset `5 + 2 * i`.
pub proof fn lemma_write_registers_layout(address: u16, count: u16, values: Seq<u16>)
    ensures
        ({
            let d = write_registers_data(address, count, values);
            &&& d.len() == 5 + 2 * values.len()
            &&& be16_at(d, 0) == address
            &&& be16_at(d, 2) == count
            &&& count <= 127 ==> d[4] == 2 * count
            &&& forall|i: int| 0 <= i < values.len() ==> be16_at(d, 5 + 2 * i) == #[trigger] values[i]
        }),
{
    let d = write_registers_data(address, count, values);
    let head = be16(address) + be16(count) + seq![(count * 2) as u8];
    lemma_be16_decode(address);
    lemma_be16_decode(count);
    lemma_be16s_len_index(values);
    assert(d[0] == be16(address)[0] && d[1] == be16(address)[1]);
    assert(d[2] == be16(count)[0] && d[3] == be16(count)[1]);
    if count <= 127 {
        assert(d[4] == (count * 2) as u8);
        assert((count * 2) as u8 == 2 * count) by (bit_vector)
            requires
                count <= 127,
        ;
    }
    assert forall|i: int| 0 <= i < values.len() implies be16_at(d, 5 + 2 * i) == #[trigger] values[i] by {
        assert(be16_at(be16s(values), 2 * i) == values[i]);
        assert(d[5 + 2 * i] == be16s(values)[2 * i]);
        assert(d[5 + 2 * i + 1] == be16s(values)[2 * i + 1]);
    }
}

/// An exception response built for a request function code reports that
/// function code (without the high bit) and carries the exception code.
pub proof fn lemma_exception_response(function_code: u8, exception_code: u8, response: ModbusPdu)
    requires
        function_code < 0x80,
        response.function_code == function_code + 0x80,
        response.data@ == seq![exception_code],
    ensures
        response.function_code >= 0x80,
        response.function_code - 0x80 == function_code,
        response.data@.len() > 0 && response.data@[0] == exception_code,
{
}

} // verus!
