//! Modbus RTU framing: assembling frames from a serial byte stream.
//!
//! The framer delimits frames by the length their function code implies.
//! Checking the CRC of a delimited frame is a separate step
//! (`RtuFramer::validate_crc`).

use std::time::{Duration, Instant};
use vstd::prelude::*;

use crate::clock::{duration_from_millis, duration_of_millis, instant_now, nanos_between};
use crate::modbus::protocol::{
    crc16,
    rtu_computed_crc,
    rtu_frame_bytes,
    rtu_splits,
    rtu_stored_crc,
    u16_of,
    ModbusError,
    ModbusPdu,
    ModbusRtuFrame,
};

verus! {

/// Minimum inter-character timeout for Modbus RTU (1.5 character times).
pub const RTU_INTER_CHAR_TIMEOUT_MS: u64 = 2;

/// Frame timeout: 3.5 character times of silence mark the end of a frame.
pub const RTU_FRAME_TIMEOUT_MS: u64 = 4;

/// Minimum frame size: address (1) + function code (1) + CRC (2).
pub const MIN_RTU_FRAME_SIZE: usize = 4;

// ============================================================================
// Frame length and timing rules
// ============================================================================

/// The length of the frame that starts with the bytes `buf` (none, or at
/// least two of them), as far as those bytes determine it:
/// - no bytes yet: the minimum frame size;
/// - read functions (1..=4): a request (8 bytes) when the byte after the
///   function code is 0, which no read response has, else a response of
///   `3 + byte_count + 2` bytes; 4 until that byte is present;
/// - single writes (5, 6): 8 bytes;
/// - multiple writes (0x0F, 0x10): `7 + byte_count + 2` (address, function
///   code, start, count, byte count, data, CRC) with the byte count at
///   offset 6; 0, standing for "not known yet", until that byte is present;
/// - exception responses (high bit set): 5 bytes;
/// - anything else: the minimum frame size.
pub open spec fn frame_length(buf: Seq<u8>) -> int {
    if buf.len() == 0 {
        4
    } else {
        let fc = buf[1];
        if 1 <= fc <= 4 {
            if buf.len() < 3 {
                4
            } else if buf[2] == 0 {
                8
            } else {
                3 + buf[2] + 2
            }
        } else if fc == 5 || fc == 6 {
            8
        } else if fc == 0x0F || fc == 0x10 {
            if buf.len() < 7 {
                0
            } else {
                7 + buf[6] + 2
            }
        } else if fc >= 0x80 {
            5
        } else {
            4
        }
    }
}

/// `buf` holds a complete frame: its length is known and reached.
pub open spec fn holds_frame(buf: Seq<u8>) -> bool {
    buf.len() >= 4 && frame_length(buf) >= 4 && buf.len() >= frame_length(buf)
}

/// The bytes buffered after `byte` arrives: after a silence longer than the
/// inter-character timeout the earlier bytes are discarded.
pub open spec fn after_byte(buf: Seq<u8>, byte: u8, silence: bool) -> Seq<u8> {
    if silence {
        seq![byte]
    } else {
        buf.push(byte)
    }
}

/// Feeding `bytes` one at a time into a framer holding `buf`, with
/// `silences[i]` telling whether the inter-character timeout elapsed before
/// `bytes[i]`: the raw frames completed, in order, and the bytes left.
pub open spec fn feed(buf: Seq<u8>, bytes: Seq<u8>, silences: Seq<bool>) -> (Seq<Seq<u8>>, Seq<u8>)
    decreases bytes.len(),
{
    if bytes.len() == 0 {
        (Seq::empty(), buf)
    } else {
        let (frames, rest) = feed(buf, bytes.drop_last(), silences.drop_last());
        let next = after_byte(rest, bytes.last(), silences.last());
        if holds_frame(next) {
            (frames.push(next), Seq::empty())
        } else {
            (frames, next)
        }
    }
}

/// Character time in whole milliseconds at `baud_rate` (10 bits per
/// character; a baud rate of 0 counts as 1).
pub open spec fn char_time_of(baud_rate: u32) -> u64 {
    (10000int / (if baud_rate == 0 { 1int } else { baud_rate as int })) as u64
}

/// Inter-character timeout in milliseconds: 1.5 character times rounded
/// up, at least 1.
pub open spec fn inter_char_ms(baud_rate: u32) -> u64 {
    let t = ((char_time_of(baud_rate) * 3 + 1) / 2) as u64;
    if t < 1 {
        1
    } else {
        t
    }
}

/// Frame timeout in milliseconds: 3.5 character times rounded up, at
/// least 4.
pub open spec fn frame_ms(baud_rate: u32) -> u64 {
    let t = ((char_time_of(baud_rate) * 7 + 1) / 2) as u64;
    if t < 4 {
        4
    } else {
        t
    }
}

fn char_time_for(baud_rate: u32) -> (r: u64)
    ensures
        r == char_time_of(baud_rate),
        r <= 10000,
{
    let divisor: u64 = if baud_rate == 0 { 1 } else { baud_rate as u64 };
    10000u64 / divisor
}

fn inter_char_ms_for(baud_rate: u32) -> (r: u64)
    ensures
        r == inter_char_ms(baud_rate),
{
    let t = (char_time_for(baud_rate) * 3 + 1) / 2;
    if t < 1 {
        1
    } else {
        t
    }
}

fn frame_ms_for(baud_rate: u32) -> (r: u64)
    ensures
        r == frame_ms(baud_rate),
{
    let t = (char_time_for(baud_rate) * 7 + 1) / 2;
    if t < 4 {
        4
    } else {
        t
    }
}

/// The inter-character timeout never exceeds the frame timeout.
pub proof fn lemma_inter_char_within_frame_timeout(baud_rate: u32)
    ensures
        1 <= inter_char_ms(baud_rate) <= frame_ms(baud_rate),
{
}

// ============================================================================
// Framer
// ============================================================================

/// RTU frame assembler: accumulates bytes from a serial stream and emits
/// each complete frame.
#[derive(Debug)]
pub struct RtuFramer {
    /// Accumulated bytes of the current frame
    buffer: Vec<u8>,
    /// When the last byte arrived
    last_byte_time: Option<Instant>,
    /// Baud rate for character time calculation
    baud_rate: u32,
}

impl RtuFramer {
    /// The bytes of the frame being assembled.
    pub closed spec fn buffered(&self) -> Seq<u8> {
        self.buffer@
    }

    /// Whether a byte has arrived since creation or the last reset.
    pub closed spec fn timestamped(&self) -> bool {
        self.last_byte_time.is_some()
    }

    /// The configured baud rate.
    pub closed spec fn spec_baud_rate(&self) -> u32 {
        self.baud_rate
    }

    /// The buffer never holds a complete frame: each one is emitted as
    /// soon as its last byte arrives.
    pub open spec fn wf(&self) -> bool {
        !holds_frame(self.buffered())
    }

    /// Create a framer at 9600 baud.
    pub fn new() -> (r: Self)
        ensures
            r.wf(),
            r.buffered() == Seq::<u8>::empty(),
            !r.timestamped(),
            r.spec_baud_rate() == 9600,
    {
        Self::with_baud_rate(9600)
    }

    /// Create a framer for the given baud rate.
    pub fn with_baud_rate(baud_rate: u32) -> (r: Self)
        ensures
            r.wf(),
            r.buffered() == Seq::<u8>::empty(),
            !r.timestamped(),
            r.spec_baud_rate() == baud_rate,
    {
        Self { buffer: Vec::with_capacity(260), last_byte_time: None, baud_rate }
    }

    /// The configured baud rate.
    pub fn baud_rate(&self) -> (r: u32)
        ensures
            r == self.spec_baud_rate(),
    {
        self.baud_rate
    }

    /// Character time in whole milliseconds (10 bits per character).
    pub fn char_time_ms(&self) -> (r: u64)
        ensures
            r == char_time_of(self.spec_baud_rate()),
    {
        char_time_for(self.baud_rate)
    }

    /// Inter-character timeout: 1.5 character times, rounded up, at least 1 ms.
    pub fn inter_char_timeout(&self) -> (r: Duration)
        ensures
            r == duration_of_millis(inter_char_ms(self.spec_baud_rate())),
    {
        duration_from_millis(inter_char_ms_for(self.baud_rate))
    }

    /// Frame timeout: 3.5 character times, rounded up, at least 4 ms.
    pub fn frame_timeout(&self) -> (r: Duration)
        ensures
            r == duration_of_millis(frame_ms(self.spec_baud_rate())),
    {
        duration_from_millis(frame_ms_for(self.baud_rate))
    }

    /// Whether a silence of `elapsed_nanos` nanoseconds exceeds the
    /// inter-character timeout.
    pub fn inter_char_timeout_exceeded(&self, elapsed_nanos: u128) -> (r: bool)
        ensures
            r == (elapsed_nanos > inter_char_ms(self.spec_baud_rate()) * 1_000_000),
    {
        let limit: u128 = (inter_char_ms_for(self.baud_rate) as u128) * 1_000_000;
        elapsed_nanos > limit
    }

    /// Whether a silence of `elapsed_nanos` nanoseconds exceeds the frame
    /// timeout.
    pub fn frame_timeout_exceeded(&self, elapsed_nanos: u128) -> (r: bool)
        ensures
            r == (elapsed_nanos > frame_ms(self.spec_baud_rate()) * 1_000_000),
    {
        let limit: u128 = (frame_ms_for(self.baud_rate) as u128) * 1_000_000;
        elapsed_nanos > limit
    }

    /// Take in one byte, given whether the inter-character timeout elapsed
    /// since the previous one; emits the frame this byte completes.
    pub fn accept_byte(&mut self, byte: u8, silence_elapsed: bool) -> (r: Result<
        Option<ModbusRtuFrame>,
        ModbusError,
    >)
        requires
            old(self).wf(),
        ensures
            final(self).wf(),
            final(self).spec_baud_rate() == old(self).spec_baud_rate(),
            final(self).timestamped() == old(self).timestamped(),
            ({
                let next = after_byte(old(self).buffered(), byte, silence_elapsed);
                if holds_frame(next) {
                    &&& r matches Ok(Some(f)) && rtu_splits(f, next)
                    &&& final(self).buffered() == Seq::<u8>::empty()
                } else {
                    &&& r == Ok::<Option<ModbusRtuFrame>, ModbusError>(None)
                    &&& final(self).buffered() == next
                }
            }),
    {
        if silence_elapsed {
            self.buffer.clear();
        }
        self.buffer.push(byte);
        proof {
            assert(self.buffer@ =~= after_byte(old(self).buffered(), byte, silence_elapsed));
            lemma_completion_takes_all(old(self).buffered(), byte, silence_elapsed);
        }
        self.try_extract_frame()
    }

    /// Emit the buffered frame if it is complete.
    fn try_extract_frame(&mut self) -> (r: Result<Option<ModbusRtuFrame>, ModbusError>)
        requires
            old(self).buffered().len() >= 1,
            holds_frame(old(self).buffered()) ==> frame_length(old(self).buffered())
                == old(self).buffered().len(),
        ensures
            final(self).spec_baud_rate() == old(self).spec_baud_rate(),
            final(self).timestamped() == old(self).timestamped(),
            holds_frame(old(self).buffered()) ==> (r matches Ok(Some(f)) && rtu_splits(
                f,
                old(self).buffered(),
            ) && final(self).buffered() == Seq::<u8>::empty()),
            !holds_frame(old(self).buffered()) ==> (r == Ok::<Option<ModbusRtuFrame>, ModbusError>(
                None,
            ) && final(self).buffered() == old(self).buffered()),
    {
        if self.buffer.len() < MIN_RTU_FRAME_SIZE {
            return Ok(None);
        }
        let expected_len = match self.expected_frame_length() {
            Ok(n) => n,
            Err(e) => return Err(e),
        };
        if expected_len < MIN_RTU_FRAME_SIZE || self.buffer.len() < expected_len {
            return Ok(None);
        }
        let frame = split_frame(&self.buffer, expected_len);
        self.buffer = tail_after(&self.buffer, expected_len);
        proof {
            assert(old(self).buffered().take(expected_len as int) =~= old(self).buffered());
            assert(self.buffer@ =~= Seq::<u8>::empty());
        }
        Ok(Some(frame))
    }

    /// The length of the frame being assembled, as its first bytes imply
    /// (0 while they do not determine it yet).
    fn expected_frame_length(&self) -> (r: Result<usize, ModbusError>)
        requires
            self.buffered().len() != 1,
        ensures
            r == Ok::<usize, ModbusError>(frame_length(self.buffered()) as usize),
    {
        if self.buffer.len() == 0 {
            return Ok(MIN_RTU_FRAME_SIZE);
        }
        let function_code = self.buffer[1];
        if function_code >= 1 && function_code <= 4 {
            if self.buffer.len() < 3 {
                return Ok(MIN_RTU_FRAME_SIZE);
            }
            let byte_count = self.buffer[2] as usize;
            if byte_count == 0 {
                Ok(8)
            } else {
                Ok(3 + byte_count + 2)
            }
        } else if function_code == 0x05 || function_code == 0x06 {
            Ok(6 + 2)
        } else if function_code == 0x0F || function_code == 0x10 {
            if self.buffer.len() < 7 {
                return Ok(0);
            }
            let byte_count = self.buffer[6] as usize;
            Ok(7 + byte_count + 2)
        } else if function_code >= 0x80 {
            Ok(3 + 2)
        } else {
            Ok(MIN_RTU_FRAME_SIZE)
        }
    }

    /// Push a byte received now; the buffer is discarded first when the
    /// inter-character timeout elapsed since the previous byte. Returns the
    /// frame this byte completes, if any.
    pub fn push_byte(&mut self, byte: u8) -> (r: Result<Option<ModbusRtuFrame>, ModbusError>)
        requires
            old(self).wf(),
        ensures
            final(self).wf(),
            final(self).spec_baud_rate() == old(self).spec_baud_rate(),
            final(self).timestamped(),
            exists|silence: bool|
                {
                    &&& silence ==> old(self).timestamped()
                    &&& byte_outcome(old(self).buffered(), byte, silence, r, final(self).buffered())
                },
    {
        let now = instant_now();
        let silence = match &self.last_byte_time {
            Some(last) => self.inter_char_timeout_exceeded(nanos_between(last, &now)),
            None => false,
        };
        let r = self.accept_byte(byte, silence);
        self.last_byte_time = Some(now);
        if let Ok(Some(_)) = &r {
            self.last_byte_time = Some(instant_now());
        }
        assert(silence ==> old(self).timestamped());
        assert(byte_outcome(old(self).buffered(), byte, silence, r, self.buffered()));
        r
    }

    /// Push several bytes in order; returns the frames they complete.
    pub fn push_bytes(&mut self, bytes: &[u8]) -> (r: Result<Vec<ModbusRtuFrame>, ModbusError>)
        requires
            old(self).wf(),
        ensures
            final(self).wf(),
            final(self).spec_baud_rate() == old(self).spec_baud_rate(),
            bytes@.len() > 0 ==> final(self).timestamped(),
            bytes@.len() == 0 ==> final(self).timestamped() == old(self).timestamped(),
            exists|silences: Seq<bool>|
                #![trigger stream_outcome(old(self).buffered(), bytes@, silences, r, final(self).buffered())]
                {
                    &&& silences.len() == bytes@.len()
                    &&& silences.len() > 0 && silences[0] ==> old(self).timestamped()
                    &&& stream_outcome(old(self).buffered(), bytes@, silences, r, final(self).buffered())
                },
    {
        let mut frames: Vec<ModbusRtuFrame> = Vec::new();
        let ghost start = self.buffered();
        let ghost start_stamped = self.timestamped();
        let ghost mut silences: Seq<bool> = Seq::empty();
        let n = bytes.len();
        let mut i: usize = 0;
        assert(bytes@.take(0) =~= Seq::<u8>::empty());
        while i < n
            invariant
                n == bytes@.len(),
                i <= n,
                self.wf(),
                self.spec_baud_rate() == old(self).spec_baud_rate(),
                i == 0 ==> self.timestamped() == start_stamped,
                i > 0 ==> self.timestamped(),
                start == old(self).buffered(),
                start_stamped == old(self).timestamped(),
                silences.len() == i,
                silences.len() > 0 && silences[0] ==> start_stamped,
                frames_match(frames@, feed(start, bytes@.take(i as int), silences).0),
                self.buffered() == feed(start, bytes@.take(i as int), silences).1,
            decreases n - i,
        {
            let ghost before = self.buffered();
            let ghost stamped = self.timestamped();
            let step = self.push_byte(bytes[i]);
            let ghost silence = choose|silence: bool|
                {
                    &&& silence ==> stamped
                    &&& byte_outcome(before, bytes@[i as int], silence, step, self.buffered())
                };
            proof {
                let taken = bytes@.take(i + 1);
                assert(taken.drop_last() =~= bytes@.take(i as int));
                assert(silences.push(silence).drop_last() =~= silences);
                silences = silences.push(silence);
            }
            match step {
                Ok(Some(frame)) => {
                    frames.push(frame);
                },
                Ok(None) => {},
                Err(e) => {
                    return Err(e);
                },
            }
            i = i + 1;
        }
        assert(bytes@.take(n as int) =~= bytes@);
        let r = Ok(frames);
        assert(silences.len() == bytes@.len());
        assert(silences.len() > 0 && silences[0] ==> old(self).timestamped());
        assert(stream_outcome(old(self).buffered(), bytes@, silences, r, self.buffered()));
        r
    }

    /// Whether the frame timeout elapsed since the last byte (never before
    /// the first byte).
    pub fn is_frame_complete(&self) -> (r: bool)
        ensures
            !self.timestamped() ==> !r,
    {
        match &self.last_byte_time {
            Some(last) => {
                let now = instant_now();
                self.frame_timeout_exceeded(nanos_between(last, &now))
            },
            None => false,
        }
    }

    /// Discard the buffered bytes and forget the last byte time.
    pub fn reset(&mut self)
        ensures
            final(self).wf(),
            final(self).buffered() == Seq::<u8>::empty(),
            !final(self).timestamped(),
            final(self).spec_baud_rate() == old(self).spec_baud_rate(),
    {
        self.buffer.clear();
        self.last_byte_time = None;
    }

    /// Number of bytes currently buffered.
    pub fn buffer_len(&self) -> (r: usize)
        ensures
            r == self.buffered().len(),
    {
        self.buffer.len()
    }
}

impl Default for RtuFramer {
    fn default() -> (r: Self)
        ensures
            r.wf(),
            r.buffered() == Seq::<u8>::empty(),
            !r.timestamped(),
            r.spec_baud_rate() == 9600,
    {
        Self::new()
    }
}

/// `r` and `after` are what taking in `byte` does to a framer holding `before`.
pub open spec fn byte_outcome(
    before: Seq<u8>,
    byte: u8,
    silence: bool,
    r: Result<Option<ModbusRtuFrame>, ModbusError>,
    after: Seq<u8>,
) -> bool {
    let next = after_byte(before, byte, silence);
    if holds_frame(next) {
        &&& r matches Ok(Some(f)) && rtu_splits(f, next)
        &&& after == Seq::<u8>::empty()
    } else {
        &&& r == Ok::<Option<ModbusRtuFrame>, ModbusError>(None)
        &&& after == next
    }
}

/// The frames in `frames` split the raw frames `raw`, one for one.
pub open spec fn frames_match(frames: Seq<ModbusRtuFrame>, raw: Seq<Seq<u8>>) -> bool {
    &&& frames.len() == raw.len()
    &&& forall|i: int| 0 <= i < frames.len() ==> rtu_splits(#[trigger] frames[i], raw[i])
}

/// `r` and `after` are what feeding `bytes` does to a framer holding `before`.
pub open spec fn stream_outcome(
    before: Seq<u8>,
    bytes: Seq<u8>,
    silences: Seq<bool>,
    r: Result<Vec<ModbusRtuFrame>, ModbusError>,
    after: Seq<u8>,
) -> bool {
    &&& r matches Ok(frames) && frames_match(frames@, feed(before, bytes, silences).0)
    &&& after == feed(before, bytes, silences).1
}

/// When a byte completes a frame, the frame is the whole buffer.
proof fn lemma_completion_takes_all(before: Seq<u8>, byte: u8, silence: bool)
    requires
        !holds_frame(before),
    ensures
        ({
            let next = after_byte(before, byte, silence);
            holds_frame(next) ==> frame_length(next) == next.len()
        }),
{
    let next = after_byte(before, byte, silence);
    if holds_frame(next) && !silence && before.len() >= 4 {
        assert(next.subrange(0, before.len() as int) == before);
        assert(next[1] == before[1]);
        assert(next[2] == before[2]);
        if before.len() >= 7 {
            assert(next[6] == before[6]);
        }
    }
}

/// The frame of `len` bytes at the start of `buf`, without CRC check.
fn split_frame(buf: &Vec<u8>, len: usize) -> (f: ModbusRtuFrame)
    requires
        4 <= len <= buf@.len(),
    ensures
        rtu_splits(f, buf@.take(len as int)),
{
    let mut data: Vec<u8> = Vec::new();
    let mut i: usize = 2;
    while i < len - 2
        invariant
            4 <= len <= buf@.len(),
            2 <= i <= len - 2,
            data@ == buf@.subrange(2, i as int),
        decreases len - 2 - i,
    {
        data.push(buf[i]);
        i = i + 1;
        assert(data@ =~= buf@.subrange(2, i as int));
    }
    assert(data@ =~= buf@.take(len as int).subrange(2, len - 2));
    ModbusRtuFrame { slave_address: buf[0], pdu: ModbusPdu::new(buf[1], data) }
}

/// The bytes of `buf` after its first `start`.
fn tail_after(buf: &Vec<u8>, start: usize) -> (r: Vec<u8>)
    requires
        start <= buf@.len(),
    ensures
        r@ == buf@.subrange(start as int, buf@.len() as int),
{
    let mut r: Vec<u8> = Vec::new();
    let mut i = start;
    while i < buf.len()
        invariant
            start <= i <= buf@.len(),
            r@ == buf@.subrange(start as int, i as int),
        decreases buf@.len() - i,
    {
        r.push(buf[i]);
        i = i + 1;
        assert(r@ =~= buf@.subrange(start as int, i as int));
    }
    r
}

impl RtuFramer {
    /// Build an RTU frame for sending: address, PDU, CRC.
    pub fn build_frame(slave_address: u8, pdu: &ModbusPdu) -> (r: Vec<u8>)
        ensures
            r@ == rtu_frame_bytes(slave_address, pdu.function_code, pdu.data@),
    {
        let frame = ModbusRtuFrame { slave_address, pdu: pdu.clone() };
        frame.encode()
    }

    /// Check the CRC in the last two bytes (low byte first) of a received frame.
    pub fn validate_crc(data: &[u8]) -> (r: Result<(), ModbusError>)
        ensures
            data@.len() < MIN_RTU_FRAME_SIZE ==> r == Err::<(), ModbusError>(
                ModbusError::IncompleteFrame { got: data@.len() as usize, expected: MIN_RTU_FRAME_SIZE },
            ),
            data@.len() >= MIN_RTU_FRAME_SIZE && rtu_computed_crc(data@) != rtu_stored_crc(data@)
                ==> r == Err::<(), ModbusError>(
                ModbusError::CrcMismatch {
                    expected: rtu_computed_crc(data@),
                    got: rtu_stored_crc(data@),
                },
            ),
            data@.len() >= MIN_RTU_FRAME_SIZE && rtu_computed_crc(data@) == rtu_stored_crc(data@)
                ==> r == Ok::<(), ModbusError>(()),
    {
        if data.len() < MIN_RTU_FRAME_SIZE {
            return Err(ModbusError::IncompleteFrame { got: data.len(), expected: MIN_RTU_FRAME_SIZE });
        }
        let data_len = data.len() - 2;
        let calculated_crc = ModbusRtuFrame::calculate_crc(&data[0..data_len]);
        let frame_crc = (data[data_len + 1] as u16) * 256 + (data[data_len] as u16);
        if calculated_crc != frame_crc {
            return Err(ModbusError::CrcMismatch { expected: calculated_crc, got: frame_crc });
        }
        Ok(())
    }

    /// Inter-character timeout for a baud rate: 1.5 character times,
    /// rounded up, at least 1 ms.
    pub fn calc_inter_char_timeout(baud_rate: u32) -> (r: Duration)
        ensures
            r == duration_of_millis(inter_char_ms(baud_rate)),
    {
        duration_from_millis(inter_char_ms_for(baud_rate))
    }

    /// Frame timeout for a baud rate: 3.5 character times, rounded up,
    /// at least 4 ms.
    pub fn calc_frame_timeout(baud_rate: u32) -> (r: Duration)
        ensures
            r == duration_of_millis(frame_ms(baud_rate)),
    {
        duration_from_millis(frame_ms_for(baud_rate))
    }
}

// ============================================================================
// Laws
// ============================================================================

/// A frame built for sending passes the CRC check on reception.
pub proof fn lemma_built_frame_validates(slave_address: u8, pdu: ModbusPdu)
    ensures
        ({
            let s = rtu_frame_bytes(slave_address, pdu.function_code, pdu.data@);
            &&& s.len() >= MIN_RTU_FRAME_SIZE
            &&& rtu_computed_crc(s) == rtu_stored_crc(s)
        }),
{
    crate::modbus::protocol::lemma_rtu_frame_roundtrip(slave_address, pdu.function_code, pdu.data@);
}

/// A frame whose first four bytes announce its full length, fed byte by
/// byte without pauses into an empty framer, comes out whole as the only
/// frame, leaving the framer empty.
pub proof fn lemma_whole_frame_comes_out(s: Seq<u8>)
    requires
        s.len() >= 4,
        frame_length(s.take(4)) == s.len(),
    ensures
        feed(Seq::empty(), s, Seq::new(s.len(), |i: int| false)) == (
            seq![s],
            Seq::<u8>::empty(),
        ),
{
    let quiet = Seq::new(s.len(), |i: int| false);
    lemma_feed_prefix_pending(s, (s.len() - 1) as nat);
    assert(s.drop_last() =~= s.take(s.len() - 1));
    assert(quiet.drop_last() =~= Seq::new((s.len() - 1) as nat, |i: int| false));
    let prev = s.take(s.len() - 1);
    assert(prev.push(s.last()) =~= s);
    assert(s.take(4) =~= s.subrange(0, 4));
}

/// Feeding the first `k < s.len()` bytes of such a frame completes nothing
/// and leaves exactly those bytes buffered.
proof fn lemma_feed_prefix_pending(s: Seq<u8>, k: nat)
    requires
        s.len() >= 4,
        frame_length(s.take(4)) == s.len(),
        k < s.len(),
    ensures
        feed(Seq::empty(), s.take(k as int), Seq::new(k, |i: int| false)) == (
            Seq::<Seq<u8>>::empty(),
            s.take(k as int),
        ),
    decreases k,
{
    if k > 0 {
        lemma_feed_prefix_pending(s, (k - 1) as nat);
        let pre = s.take(k as int);
        assert(pre.drop_last() =~= s.take(k - 1));
        assert(Seq::new(k, |i: int| false).drop_last() =~= Seq::new((k - 1) as nat, |i: int| false));
        assert(s.take(k - 1).push(pre.last()) =~= pre);
        if k >= 4 {
            assert(pre[1] == s[1]);
            assert(s.take(4)[1] == s[1]);
            assert(s.take(4)[2] == s[2]);
            assert(pre[2] == s[2]);
        }
    }
    assert(Seq::<u8>::empty().take(0) =~= Seq::<u8>::empty());
}

/// Bytes that hold a complete frame of exactly their length, none of whose
/// shorter prefixes holds one, fed byte by byte without pauses into an
/// empty framer, come out whole as the only frame and leave the framer
/// empty.
pub proof fn lemma_complete_frame_comes_out(s: Seq<u8>)
    requires
        holds_frame(s),
        frame_length(s) == s.len(),
        forall|k: int| 0 <= k < s.len() ==> !#[trigger] holds_frame(s.take(k)),
    ensures
        feed(Seq::empty(), s, Seq::new(s.len(), |i: int| false)) == (
            seq![s],
            Seq::<u8>::empty(),
        ),
{
    let quiet = Seq::new(s.len(), |i: int| false);
    lemma_feed_unframed_prefix(s, (s.len() - 1) as nat);
    assert(s.drop_last() =~= s.take(s.len() - 1));
    assert(quiet.drop_last() =~= Seq::new((s.len() - 1) as nat, |i: int| false));
    let prev = s.take(s.len() - 1);
    assert(prev.push(s.last()) =~= s);
}

/// Feeding the first `k < s.len()` bytes of bytes none of whose proper
/// prefixes holds a frame completes nothing and leaves those bytes
/// buffered.
proof fn lemma_feed_unframed_prefix(s: Seq<u8>, k: nat)
    requires
        k < s.len(),
        forall|j: int| 0 <= j < s.len() ==> !#[trigger] holds_frame(s.take(j)),
    ensures
        feed(Seq::empty(), s.take(k as int), Seq::new(k, |i: int| false)) == (
            Seq::<Seq<u8>>::empty(),
            s.take(k as int),
        ),
    decreases k,
{
    if k > 0 {
        lemma_feed_unframed_prefix(s, (k - 1) as nat);
        let pre = s.take(k as int);
        assert(pre.drop_last() =~= s.take(k - 1));
        assert(Seq::new(k, |i: int| false).drop_last() =~= Seq::new((k - 1) as nat, |i: int| false));
        assert(s.take(k - 1).push(pre.last()) =~= pre);
        assert(!holds_frame(s.take(k as int)));
    } else {
        assert(s.take(0) =~= Seq::<u8>::empty());
    }
}

/// Every frame the function codes delimit comes out whole: a read response
/// (`3 + byte_count + 2` bytes, byte count at offset 2), a read request
/// (8 bytes; its offset-2 byte is 0, which no read response has), a
/// single write (8 bytes) or an exception response (5 bytes), encoded and
/// fed without pauses into an empty framer, is the only frame that comes
/// out, splitting back into exactly what it was built from, and leaves the
/// framer empty.
pub proof fn lemma_fixed_layout_frame_comes_out(slave_address: u8, function_code: u8, data: Seq<u8>)
    requires
        (1 <= function_code <= 4 && data.len() >= 2 && data[0] == data.len() - 1)
            || (1 <= function_code <= 4 && data.len() == 4 && data[0] == 0) || ((function_code == 5
            || function_code == 6) && data.len() == 4) || (function_code >= 0x80 && data.len()
            == 1),
    ensures
        ({
            let s = rtu_frame_bytes(slave_address, function_code, data);
            &&& feed(Seq::empty(), s, Seq::new(s.len(), |i: int| false)) == (
                seq![s],
                Seq::<u8>::empty(),
            )
            &&& forall|f: ModbusRtuFrame| #[trigger]
                rtu_splits(f, s) ==> f.slave_address == slave_address && f.pdu.function_code
                    == function_code && f.pdu.data@ == data
        }),
{
    crate::modbus::protocol::lemma_rtu_frame_roundtrip(slave_address, function_code, data);
    let s = rtu_frame_bytes(slave_address, function_code, data);
    assert(s.subrange(2, s.len() - 2)[0] == s[2]);
    assert(frame_length(s) == s.len());
    assert forall|k: int| 0 <= k < s.len() implies !#[trigger] holds_frame(s.take(k)) by {
        if k >= 4 {
            assert(s.take(k)[1] == s[1]);
            assert(s.take(k)[2] == s[2]);
        }
    }
    lemma_complete_frame_comes_out(s);
}

/// A Write Multiple Coils / Registers frame is `7 + byte_count + 2` bytes
/// long (address, function code, start, count, byte count at offset 6,
/// data, CRC). Encoded from a PDU whose data is start, count, a byte count
/// and that many bytes, and fed without pauses into an empty framer, it
/// comes out whole as the only frame, splitting back into exactly the
/// address, function code and data it was built from, and leaves the
/// framer empty.
pub proof fn lemma_multiple_write_frame_comes_out(slave_address: u8, function_code: u8, data: Seq<u8>)
    requires
        function_code == 0x0F || function_code == 0x10,
        data.len() >= 5,
        data[4] == data.len() - 5,
    ensures
        ({
            let s = rtu_frame_bytes(slave_address, function_code, data);
            &&& s.len() == 7 + data[4] + 2
            &&& s[6] == data[4]
            &&& feed(Seq::empty(), s, Seq::new(s.len(), |i: int| false)) == (
                seq![s],
                Seq::<u8>::empty(),
            )
            &&& forall|f: ModbusRtuFrame| #[trigger]
                rtu_splits(f, s) ==> f.slave_address == slave_address && f.pdu.function_code
                    == function_code && f.pdu.data@ == data
        }),
{
    crate::modbus::protocol::lemma_rtu_frame_roundtrip(slave_address, function_code, data);
    let s = rtu_frame_bytes(slave_address, function_code, data);
    assert(s.subrange(2, s.len() - 2)[4] == s[6]);
    assert(frame_length(s) == s.len());
    assert forall|k: int| 0 <= k < s.len() implies !#[trigger] holds_frame(s.take(k)) by {
        if k >= 4 {
            assert(s.take(k)[1] == s[1]);
            if k >= 7 {
                assert(s.take(k)[6] == s[6]);
            }
        }
    }
    lemma_complete_frame_comes_out(s);
}

} // verus!
