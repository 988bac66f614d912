use modbus_tool::modbus::protocol::{
    MbapHeader, ModbusError, ModbusPdu, ModbusRtuFrame, ModbusTcpFrame, READ_COILS,
    READ_HOLDING_REGISTERS, READ_INPUT_REGISTERS, WRITE_MULTIPLE_REGISTERS, WRITE_SINGLE_COIL,
    WRITE_SINGLE_REGISTER,
};

#[test]
fn test_crc_calculation() {
    // Known test vector from Modbus specification
    let data = [0x01, 0x03, 0x00, 0x00, 0x00, 0x0A];
    let crc = ModbusRtuFrame::calculate_crc(&data);
    assert_ne!(crc, 0xFFFF); // CRC computed
}

#[test]
fn test_crc_empty() {
    let crc = ModbusRtuFrame::calculate_crc(&[]);
    assert_eq!(crc, 0xFFFF);
}

#[test]
fn test_crc_single_byte() {
    let crc = ModbusRtuFrame::calculate_crc(&[0x01]);
    assert_ne!(crc, 0xFFFF); // CRC computed
}

#[test]
fn test_read_holding_registers_build() {
    let pdu = ModbusPdu::read_holding_registers(0, 10).unwrap();
    assert_eq!(pdu.function_code, READ_HOLDING_REGISTERS);
    assert_eq!(pdu.data, vec![0x00, 0x00, 0x00, 0x0A]);
}

#[test]
fn test_read_holding_registers_invalid_count() {
    let result = ModbusPdu::read_holding_registers(0, 0);
    assert!(result.is_err());

    let result = ModbusPdu::read_holding_registers(0, 2001);
    assert!(result.is_err());
}

#[test]
fn test_write_single_register_build() {
    let pdu = ModbusPdu::write_single_register(100, 0x1234).unwrap();
    assert_eq!(pdu.function_code, WRITE_SINGLE_REGISTER);
    assert_eq!(pdu.data, vec![0x00, 0x64, 0x12, 0x34]);
}

#[test]
fn test_write_multiple_registers_build() {
    let values = [0x0001, 0x0002, 0x0003];
    let pdu = ModbusPdu::write_multiple_registers(0, &values).unwrap();
    assert_eq!(pdu.function_code, WRITE_MULTIPLE_REGISTERS);
    assert_eq!(
        pdu.data,
        vec![0x00, 0x00, 0x00, 0x03, 0x06, 0x00, 0x01, 0x00, 0x02, 0x00, 0x03]
    );
}

#[test]
fn test_parse_read_registers() {
    let pdu = ModbusPdu::new(READ_HOLDING_REGISTERS, vec![0x04, 0x00, 0x01, 0x00, 0x02]);
    let registers = pdu.parse_read_registers().unwrap();
    assert_eq!(registers, vec![1, 2]);
}

#[test]
fn test_parse_read_bits() {
    // byte_count=2, coil_data=[0xAC, 0x00] = 16 bits total
    let pdu = ModbusPdu::new(READ_COILS, vec![0x02, 0xAC, 0x00]);
    let bits = pdu.parse_read_bits().unwrap();
    assert_eq!(bits.len(), 16);
    assert!(!bits[0]);
    assert!(!bits[1]);
    assert!(bits[2]);
    assert!(bits[3]);
}

#[test]
fn test_mbap_header() {
    let data = [0x00, 0x01, 0x00, 0x00, 0x00, 0x05, 0x01];
    let mbap = MbapHeader::parse(&data).unwrap();
    assert_eq!(mbap.transaction_id, 1);
    assert_eq!(mbap.protocol_id, 0);
    assert_eq!(mbap.length, 5);
    assert_eq!(mbap.unit_id, 1);
}

#[test]
fn test_mbap_header_invalid_protocol() {
    let data = [0x00, 0x01, 0x00, 0x01, 0x00, 0x05, 0x01];
    let result = MbapHeader::parse(&data);
    assert!(result.is_err());
}

#[test]
fn test_mbap_header_incomplete() {
    let data = [0x00, 0x01, 0x00];
    let result = MbapHeader::parse(&data);
    assert!(result.is_err());
}

#[test]
fn test_pdu_is_exception() {
    let normal = ModbusPdu::new(0x03, vec![]);
    assert!(!normal.is_exception());

    let exception = ModbusPdu::new(0x83, vec![0x02]);
    assert!(exception.is_exception());
    assert_eq!(exception.exception_code(), Some(0x03));
}

#[test]
fn test_write_single_coil_on() {
    let pdu = ModbusPdu::write_single_coil(0, true).unwrap();
    assert_eq!(pdu.data, vec![0x00, 0x00, 0xFF, 0x00]);
}

#[test]
fn test_write_single_coil_off() {
    let pdu = ModbusPdu::write_single_coil(0, false).unwrap();
    assert_eq!(pdu.data, vec![0x00, 0x00, 0x00, 0x00]);
}

#[test]
fn test_rtu_frame_encode() {
    let pdu = ModbusPdu::new(READ_HOLDING_REGISTERS, vec![0x00, 0x00, 0x00, 0x0A]);
    let frame = ModbusRtuFrame { slave_address: 1, pdu };
    let encoded = frame.encode();

    let data_without_crc = &encoded[..encoded.len() - 2];
    let crc = ModbusRtuFrame::calculate_crc(data_without_crc);
    let frame_crc = u16::from_le_bytes([encoded[encoded.len() - 2], encoded[encoded.len() - 1]]);
    assert_eq!(crc, frame_crc);
}

#[test]
fn test_rtu_frame_parse() {
    let pdu = ModbusPdu::read_holding_registers(0, 10).unwrap();
    let frame = ModbusRtuFrame { slave_address: 1, pdu };
    let encoded = frame.encode();

    let parsed = ModbusRtuFrame::parse(&encoded).unwrap();
    assert_eq!(parsed.slave_address, 1);
    assert_eq!(parsed.pdu.function_code, READ_HOLDING_REGISTERS);
    assert_eq!(parsed.pdu.data, vec![0x00, 0x00, 0x00, 0x0A]);
}

#[test]
fn test_rtu_frame_crc_error() {
    let data = vec![0x01, 0x03, 0x00, 0x00, 0x00, 0x0A, 0x00, 0x00];
    let result = ModbusRtuFrame::parse(&data);
    assert!(matches!(result, Err(ModbusError::CrcMismatch { .. })));
}

#[test]
fn test_tcp_frame_roundtrip() {
    let pdu = ModbusPdu::read_holding_registers(0, 10).unwrap();
    let sent = ModbusTcpFrame {
        mbap: MbapHeader { transaction_id: 1, protocol_id: 0, length: 6, unit_id: 1 },
        pdu,
    };

    let encoded = sent.encode();
    let parsed = ModbusTcpFrame::parse(&encoded).unwrap();

    assert_eq!(parsed.mbap.transaction_id, sent.mbap.transaction_id);
    assert_eq!(parsed.mbap.unit_id, sent.mbap.unit_id);
    assert_eq!(parsed.pdu.function_code, sent.pdu.function_code);
    assert_eq!(parsed.pdu.data, sent.pdu.data);
}

// ---------- further cases ----------

#[test]
fn crc_of_standard_request_is_known_value() {
    // 01 03 00 00 00 0A is sent on the wire as ... C5 CD (low byte first).
    let crc = ModbusRtuFrame::calculate_crc(&[0x01, 0x03, 0x00, 0x00, 0x00, 0x0A]);
    assert_eq!(crc, 0xCDC5);
}

#[test]
fn rtu_encode_appends_crc_low_byte_first() {
    let frame = ModbusRtuFrame {
        slave_address: 1,
        pdu: ModbusPdu::new(READ_HOLDING_REGISTERS, vec![0x00, 0x00, 0x00, 0x0A]),
    };
    assert_eq!(frame.encode(), vec![0x01, 0x03, 0x00, 0x00, 0x00, 0x0A, 0xC5, 0xCD]);
    assert_eq!(frame.encode_without_crc(), vec![0x01, 0x03, 0x00, 0x00, 0x00, 0x0A]);
}

#[test]
fn rtu_parse_short_frame_is_incomplete() {
    let result = ModbusRtuFrame::parse(&[0x01, 0x03, 0x00]);
    assert_eq!(result, Err(ModbusError::IncompleteFrame { got: 3, expected: 4 }));
}

#[test]
fn rtu_crc_mismatch_reports_both_values() {
    let result = ModbusRtuFrame::parse(&[0x01, 0x03, 0x00, 0x00, 0x00, 0x0A, 0x00, 0x00]);
    assert_eq!(result, Err(ModbusError::CrcMismatch { expected: 0xCDC5, got: 0x0000 }));
}

#[test]
fn read_requests_respect_count_limits() {
    assert!(ModbusPdu::read_coils(0, 2000).is_ok());
    assert_eq!(ModbusPdu::read_coils(0, 2001), Err(ModbusError::InvalidDataLength(2001)));
    assert_eq!(ModbusPdu::read_input_registers(7, 0), Err(ModbusError::InvalidDataLength(0)));
    let pdu = ModbusPdu::read_input_registers(0x0102, 3).unwrap();
    assert_eq!(pdu.function_code, READ_INPUT_REGISTERS);
    assert_eq!(pdu.data, vec![0x01, 0x02, 0x00, 0x03]);
}

#[test]
fn write_multiple_registers_limits() {
    let none: [u16; 0] = [];
    assert_eq!(
        ModbusPdu::write_multiple_registers(0, &none),
        Err(ModbusError::InvalidDataLength(0))
    );
    let too_many = vec![0u16; 124];
    assert_eq!(
        ModbusPdu::write_multiple_registers(0, &too_many),
        Err(ModbusError::InvalidDataLength(124))
    );
    let most = vec![0u16; 123];
    assert!(ModbusPdu::write_multiple_registers(0, &most).is_ok());
}

#[test]
fn write_single_coil_function_code() {
    let pdu = ModbusPdu::write_single_coil(0x0010, true).unwrap();
    assert_eq!(pdu.function_code, WRITE_SINGLE_COIL);
    assert_eq!(pdu.data, vec![0x00, 0x10, 0xFF, 0x00]);
}

#[test]
fn parse_read_registers_errors() {
    let wrong_fc = ModbusPdu::new(READ_COILS, vec![0x02, 0x00, 0x01]);
    assert_eq!(wrong_fc.parse_read_registers(), Err(ModbusError::InvalidFunctionCode(READ_COILS)));
    let empty = ModbusPdu::new(READ_HOLDING_REGISTERS, vec![]);
    assert_eq!(
        empty.parse_read_registers(),
        Err(ModbusError::InvalidPdu("Empty data".to_string()))
    );
    let odd = ModbusPdu::new(READ_HOLDING_REGISTERS, vec![0x03, 0x00, 0x01, 0x02]);
    assert_eq!(odd.parse_read_registers(), Err(ModbusError::InvalidDataLength(4)));
    let short = ModbusPdu::new(READ_HOLDING_REGISTERS, vec![0x04, 0x00, 0x01]);
    assert_eq!(short.parse_read_registers(), Err(ModbusError::InvalidDataLength(3)));
}

#[test]
fn parse_read_bits_errors() {
    let wrong_fc = ModbusPdu::new(READ_HOLDING_REGISTERS, vec![0x01, 0xFF]);
    assert_eq!(
        wrong_fc.parse_read_bits(),
        Err(ModbusError::InvalidFunctionCode(READ_HOLDING_REGISTERS))
    );
    let short = ModbusPdu::new(READ_COILS, vec![0x02, 0xFF]);
    assert_eq!(short.parse_read_bits(), Err(ModbusError::InvalidDataLength(2)));
}

#[test]
fn write_single_register_echo() {
    let request = ModbusPdu::write_single_register(100, 0x1234).unwrap();
    let response = ModbusPdu::new(WRITE_SINGLE_REGISTER, request.data.clone());
    assert_eq!(response.parse_write_single_register(100, 0x1234), Ok((100, 0x1234)));
    assert_eq!(
        response.parse_write_single_register(101, 0x1234),
        Err(ModbusError::InvalidPdu("Echo mismatch: expected (101, 4660), got (100, 4660)".to_string()))
    );
    let short = ModbusPdu::new(WRITE_SINGLE_REGISTER, vec![0x00]);
    assert_eq!(short.parse_write_single_register(0, 0), Err(ModbusError::InvalidDataLength(1)));
}

#[test]
fn write_multiple_registers_echo() {
    let response = ModbusPdu::new(WRITE_MULTIPLE_REGISTERS, vec![0x00, 0x00, 0x00, 0x03]);
    assert_eq!(response.parse_write_multiple_registers(0, 3), Ok((0, 3)));
    assert!(matches!(
        response.parse_write_multiple_registers(0, 4),
        Err(ModbusError::InvalidPdu(_))
    ));
    let wrong_fc = ModbusPdu::new(WRITE_SINGLE_REGISTER, vec![0x00, 0x00, 0x00, 0x03]);
    assert_eq!(
        wrong_fc.parse_write_multiple_registers(0, 3),
        Err(ModbusError::InvalidFunctionCode(WRITE_SINGLE_REGISTER))
    );
}

#[test]
fn exception_response_sets_high_bit() {
    let pdu = ModbusPdu::exception(0x03, 0x02);
    assert_eq!(pdu.function_code, 0x83);
    assert!(pdu.is_exception());
    assert_eq!(pdu.get_exception_code(), Some(0x02));
    let already = ModbusPdu::exception(0x83, 0x01);
    assert_eq!(already.function_code, 0x83);
}

#[test]
fn mbap_header_total_length_and_errors() {
    let h = MbapHeader { transaction_id: 9, protocol_id: 0, length: 6, unit_id: 1 };
    assert_eq!(h.total_length(), 12);
    assert_eq!(
        MbapHeader::parse(&[0x00, 0x01, 0x00]),
        Err(ModbusError::IncompleteFrame { got: 3, expected: 7 })
    );
    assert_eq!(
        MbapHeader::parse(&[0x00, 0x01, 0x00, 0x01, 0x00, 0x05, 0x01]),
        Err(ModbusError::MbapParseError("Invalid protocol_id: 1, expected 0".to_string()))
    );
}

#[test]
fn tcp_encode_recomputes_length_and_protocol() {
    let frame = ModbusTcpFrame {
        mbap: MbapHeader { transaction_id: 0x0102, protocol_id: 7, length: 99, unit_id: 5 },
        pdu: ModbusPdu::new(READ_HOLDING_REGISTERS, vec![0x00, 0x00, 0x00, 0x0A]),
    };
    let encoded = frame.encode();
    assert_eq!(
        encoded.to_vec(),
        vec![0x01, 0x02, 0x00, 0x00, 0x00, 0x06, 0x05, 0x03, 0x00, 0x00, 0x00, 0x0A]
    );
}

#[test]
fn tcp_parse_incomplete_body() {
    let data = [0x00, 0x01, 0x00, 0x00, 0x00, 0x06, 0x01, 0x03];
    assert_eq!(
        ModbusTcpFrame::parse(&data),
        Err(ModbusError::IncompleteFrame { got: 8, expected: 12 })
    );
}

#[test]
fn mbap_write_appends_seven_bytes() {
    let h = MbapHeader { transaction_id: 0xABCD, protocol_id: 0, length: 3, unit_id: 0x11 };
    let mut buf = bytes::BytesMut::new();
    h.write(&mut buf);
    assert_eq!(buf.to_vec(), vec![0xAB, 0xCD, 0x00, 0x00, 0x00, 0x03, 0x11]);
}

#[test]
fn crc_residue_of_framed_message_is_zero() {
    for data in [vec![], vec![0x01], vec![0x01, 0x03, 0x00, 0x00, 0x00, 0x0A], vec![0xFF; 40]] {
        let crc = ModbusRtuFrame::calculate_crc(&data);
        let mut framed = data.clone();
        framed.push((crc & 0xFF) as u8);
        framed.push((crc >> 8) as u8);
        assert_eq!(ModbusRtuFrame::calculate_crc(&framed), 0);
    }
}
