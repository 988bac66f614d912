use modbus_tool::modbus::protocol::{ModbusError, ModbusPdu, ModbusRtuFrame};
use modbus_tool::modbus::rtu::RtuFramer;
use std::time::Duration;

#[test]
fn test_framer_new() {
    let framer = RtuFramer::new();
    assert_eq!(framer.buffer_len(), 0);
    assert_eq!(framer.baud_rate(), 9600);
}

#[test]
fn test_framer_with_baud_rate() {
    let framer = RtuFramer::with_baud_rate(115200);
    assert_eq!(framer.baud_rate(), 115200);
}

#[test]
fn test_char_time_calculation() {
    let framer = RtuFramer::with_baud_rate(9600);
    assert_eq!(framer.char_time_ms(), 1);

    let framer = RtuFramer::with_baud_rate(115200);
    assert_eq!(framer.char_time_ms(), 0); // rounds to 0 for high baud
}

#[test]
fn test_inter_char_timeout() {
    let framer = RtuFramer::with_baud_rate(9600);
    let timeout = framer.inter_char_timeout();
    assert_eq!(timeout, Duration::from_millis(2));
}

#[test]
fn test_frame_timeout() {
    let framer = RtuFramer::with_baud_rate(9600);
    let timeout = framer.frame_timeout();
    assert_eq!(timeout, Duration::from_millis(4));
}

#[test]
fn test_push_byte_incomplete() {
    let mut framer = RtuFramer::new();
    let result = framer.push_byte(0x01);
    assert!(result.is_ok());
    assert!(result.unwrap().is_none());
    assert_eq!(framer.buffer_len(), 1);
}

#[test]
fn test_push_byte_complete_frame() {
    let mut framer = RtuFramer::new();
    let pdu = ModbusPdu::read_holding_registers(0, 10).unwrap();
    let frame = ModbusRtuFrame { slave_address: 1, pdu };
    let encoded = frame.encode();

    let result = framer.push_bytes(&encoded);
    assert!(result.is_ok());
    let frames = result.unwrap();
    assert_eq!(frames.len(), 1);
    assert_eq!(frames[0].slave_address, 1);
}

#[test]
fn test_framer_reset() {
    let mut framer = RtuFramer::new();
    framer.push_byte(0x01).unwrap();
    framer.push_byte(0x03).unwrap();
    assert_eq!(framer.buffer_len(), 2);

    framer.reset();
    assert_eq!(framer.buffer_len(), 0);
}

#[test]
fn test_calc_inter_char_timeout() {
    let timeout = RtuFramer::calc_inter_char_timeout(9600);
    assert_eq!(timeout, Duration::from_millis(2));
}

#[test]
fn test_calc_frame_timeout() {
    let timeout = RtuFramer::calc_frame_timeout(9600);
    assert_eq!(timeout, Duration::from_millis(4));
}

#[test]
fn test_build_frame() {
    let pdu = ModbusPdu::read_holding_registers(0, 10).unwrap();
    let frame_bytes = RtuFramer::build_frame(1, &pdu);

    assert_eq!(frame_bytes.len(), 8);
    assert_eq!(frame_bytes[0], 0x01);
    assert_eq!(frame_bytes[1], 0x03);

    let result = RtuFramer::validate_crc(&frame_bytes);
    assert!(result.is_ok());
}

#[test]
fn test_validate_crc_invalid() {
    let invalid_frame = vec![0x01, 0x03, 0x00, 0x00, 0x00, 0x0A, 0x00, 0x00];
    let result = RtuFramer::validate_crc(&invalid_frame);
    assert!(matches!(result, Err(ModbusError::CrcMismatch { .. })));
}

#[test]
fn test_validate_crc_incomplete() {
    let short_frame = vec![0x01, 0x03];
    let result = RtuFramer::validate_crc(&short_frame);
    assert!(matches!(result, Err(ModbusError::IncompleteFrame { .. })));
}

#[test]
fn test_framer_multiple_frames() {
    let mut framer = RtuFramer::new();

    let pdu1 = ModbusPdu::read_holding_registers(0, 10).unwrap();
    let frame1 = ModbusRtuFrame { slave_address: 1, pdu: pdu1 };
    let encoded1 = frame1.encode();

    let pdu2 = ModbusPdu::write_single_register(100, 0x1234).unwrap();
    let frame2 = ModbusRtuFrame { slave_address: 1, pdu: pdu2 };
    let encoded2 = frame2.encode();

    let mut combined = encoded1.clone();
    combined.extend_from_slice(&encoded2);

    let result = framer.push_bytes(&combined);
    assert!(result.is_ok());
    let frames = result.unwrap();
    assert_eq!(frames.len(), 2);
}

#[test]
fn test_framer_exception_response() {
    let mut framer = RtuFramer::new();
    let exception_frame = vec![0x01, 0x83, 0x02, 0x90, 0x09];
    let result = framer.push_bytes(&exception_frame);
    assert!(result.is_ok());
    let frames = result.unwrap();
    assert_eq!(frames.len(), 1);
    assert!(frames[0].pdu.is_exception());
    assert_eq!(frames[0].pdu.get_exception_code(), Some(0x02));
}

#[test]
fn test_calc_timeout_high_baud() {
    let timeout = RtuFramer::calc_inter_char_timeout(115200);
    assert_eq!(timeout, Duration::from_millis(1));
}

#[test]
fn test_framer_is_frame_complete() {
    let framer = RtuFramer::new();
    assert!(!framer.is_frame_complete());
}

// ---------- further cases ----------

#[test]
fn frame_timeout_at_low_baud() {
    // 1200 baud: 8 ms per character; 1.5 and 3.5 characters round up.
    assert_eq!(RtuFramer::calc_inter_char_timeout(1200), Duration::from_millis(12));
    assert_eq!(RtuFramer::calc_frame_timeout(1200), Duration::from_millis(28));
    assert_eq!(RtuFramer::with_baud_rate(1200).char_time_ms(), 8);
}

#[test]
fn inter_char_timeout_never_exceeds_frame_timeout() {
    for baud in [0u32, 1, 300, 1200, 9600, 19200, 115200, 921600] {
        assert!(RtuFramer::calc_inter_char_timeout(baud) <= RtuFramer::calc_frame_timeout(baud));
    }
}

#[test]
fn frame_comes_out_after_its_last_byte() {
    let mut framer = RtuFramer::default();
    let bytes = RtuFramer::build_frame(7, &ModbusPdu::write_single_register(1, 2).unwrap());
    for b in &bytes[..bytes.len() - 1] {
        assert!(framer.accept_byte(*b, false).unwrap().is_none());
    }
    assert_eq!(framer.buffer_len(), bytes.len() - 1);
    let frame = framer.accept_byte(bytes[bytes.len() - 1], false).unwrap().unwrap();
    assert_eq!(frame.slave_address, 7);
    assert_eq!(frame.pdu.function_code, 0x06);
    assert_eq!(frame.pdu.data, vec![0x00, 0x01, 0x00, 0x02]);
    assert_eq!(framer.buffer_len(), 0);
}

#[test]
fn silence_discards_partial_frame() {
    let mut framer = RtuFramer::new();
    assert!(framer.accept_byte(0x01, false).unwrap().is_none());
    assert!(framer.accept_byte(0x03, false).unwrap().is_none());
    assert!(framer.accept_byte(0x11, true).unwrap().is_none());
    assert_eq!(framer.buffer_len(), 1);
}

#[test]
fn read_response_length_follows_byte_count() {
    let mut framer = RtuFramer::new();
    // slave 1, FC03, byte count 4, four data bytes, two CRC bytes
    let response = [0x01, 0x03, 0x04, 0x00, 0x01, 0x00, 0x02, 0xAA, 0xBB];
    let frames = framer.push_bytes(&response).unwrap();
    assert_eq!(frames.len(), 1);
    assert_eq!(frames[0].pdu.data, vec![0x04, 0x00, 0x01, 0x00, 0x02]);
}

#[test]
fn validate_crc_reports_values() {
    assert_eq!(
        RtuFramer::validate_crc(&[0x01, 0x03, 0x00, 0x00, 0x00, 0x0A, 0x00, 0x00]),
        Err(ModbusError::CrcMismatch { expected: 0xCDC5, got: 0x0000 })
    );
    assert_eq!(
        RtuFramer::validate_crc(&[0x01, 0x03]),
        Err(ModbusError::IncompleteFrame { got: 2, expected: 4 })
    );
    assert_eq!(
        RtuFramer::validate_crc(&[0x01, 0x03, 0x00, 0x00, 0x00, 0x0A, 0xC5, 0xCD]),
        Ok(())
    );
}

#[test]
fn silence_thresholds_in_nanoseconds() {
    let framer = RtuFramer::with_baud_rate(9600);
    assert!(!framer.inter_char_timeout_exceeded(2_000_000));
    assert!(framer.inter_char_timeout_exceeded(2_000_001));
    assert!(!framer.frame_timeout_exceeded(4_000_000));
    assert!(framer.frame_timeout_exceeded(4_000_001));
}
