use modbus_tool::modbus::protocol::{MbapHeader, ModbusError, ModbusPdu, DEFAULT_PORT};
use modbus_tool::modbus::tcp::{
    ConnectionInfo, ConnectionState, ModbusTcpSession, TransactionManager,
};

#[test]
fn test_connection_state_display() {
    assert_eq!(ConnectionState::Disconnected.to_string(), "Disconnected");
    assert_eq!(ConnectionState::Connecting.to_string(), "Connecting");
    assert_eq!(ConnectionState::Connected.to_string(), "Connected");
    assert_eq!(
        ConnectionState::Error("timeout".to_string()).to_string(),
        "Error: timeout"
    );
}

#[test]
fn test_transaction_manager_new() {
    let tm = TransactionManager::new();
    assert_eq!(tm.pending_count(), 0);
}

#[test]
fn test_transaction_manager_next_id() {
    let mut tm = TransactionManager::new();
    let id1 = tm.next_transaction_id();
    let id2 = tm.next_transaction_id();
    assert_eq!(id2, id1 + 1);
}

#[test]
fn test_transaction_manager_begin_end() {
    let mut tm = TransactionManager::new();
    let pdu = ModbusPdu::read_holding_registers(0, 10).unwrap();

    let tid = tm.begin_transaction(pdu.clone(), 1, 5);
    assert_eq!(tm.pending_count(), 1);

    let tx = tm.end_transaction(tid);
    assert!(tx.is_some());
    assert_eq!(tm.pending_count(), 0);
}

#[test]
fn test_transaction_manager_get() {
    let mut tm = TransactionManager::new();
    let pdu = ModbusPdu::read_holding_registers(0, 10).unwrap();

    let tid = tm.begin_transaction(pdu.clone(), 1, 5);
    let tx = tm.get_transaction(tid);
    assert!(tx.is_some());
    assert_eq!(tx.unwrap().unit_id, 1);
}

#[test]
fn test_transaction_manager_clear() {
    let mut tm = TransactionManager::new();
    let pdu = ModbusPdu::read_holding_registers(0, 10).unwrap();
    tm.begin_transaction(pdu.clone(), 1, 5);
    assert_eq!(tm.pending_count(), 1);

    tm.clear();
    assert_eq!(tm.pending_count(), 0);
}

#[test]
fn test_mbap_header_validate() {
    let mbap = MbapHeader { transaction_id: 1, protocol_id: 0, length: 6, unit_id: 1 };
    assert!(mbap.validate().is_ok());
}

#[test]
fn test_mbap_header_validate_invalid_protocol() {
    let mbap = MbapHeader { transaction_id: 1, protocol_id: 1, length: 6, unit_id: 1 };
    assert!(mbap.validate().is_err());
}

#[test]
fn test_mbap_header_validate_invalid_length() {
    let mbap = MbapHeader { transaction_id: 1, protocol_id: 0, length: 1, unit_id: 1 };
    assert!(mbap.validate().is_err());
}

#[test]
fn test_mbap_is_complete() {
    let mbap = MbapHeader { transaction_id: 1, protocol_id: 0, length: 6, unit_id: 1 };
    assert!(!mbap.is_complete(5));
    assert!(mbap.is_complete(12));
}

#[test]
fn test_mbap_size_constant() {
    assert_eq!(MbapHeader::MBAP_SIZE, 7);
}

#[test]
fn test_session_new() {
    let session = ModbusTcpSession::new();
    assert!(session.connection.is_none());
    assert_eq!(session.default_unit_id, 0xFF);
    assert_eq!(session.port, 502);
}

#[test]
fn test_session_with_unit_id() {
    let session = ModbusTcpSession::with_unit_id(5);
    assert_eq!(session.default_unit_id, 5);
}

#[test]
fn test_session_build_request() {
    let mut session = ModbusTcpSession::with_unit_id(1);
    let pdu = ModbusPdu::read_holding_registers(0, 10).unwrap();
    let frame = session.build_request(&pdu);

    assert_eq!(frame.mbap.protocol_id, 0);
    assert_eq!(frame.mbap.unit_id, 1);
    assert_eq!(frame.mbap.length, 6);
}

#[test]
fn test_session_register_request() {
    let mut session = ModbusTcpSession::with_unit_id(1);
    let pdu = ModbusPdu::read_holding_registers(0, 10).unwrap();
    let tid = session.register_request(&pdu);
    assert_eq!(session.transactions.pending_count(), 1);

    session.complete_transaction(tid);
    assert_eq!(session.transactions.pending_count(), 0);
}

#[test]
fn test_session_is_connected() {
    let session = ModbusTcpSession::new();
    assert!(!session.is_connected());
}

#[test]
fn test_mbap_const_size() {
    let data = [0x00, 0x01, 0x00, 0x00, 0x00, 0x05, 0x01];
    assert_eq!(data.len(), MbapHeader::MBAP_SIZE);
    let mbap = MbapHeader::parse(&data).unwrap();
    assert_eq!(mbap.transaction_id, 1);
}

#[test]
fn test_session_default_port() {
    assert_eq!(DEFAULT_PORT, 502);
}

// ---------- further cases ----------

#[test]
fn transaction_ids_wrap_after_65535() {
    let mut tm = TransactionManager::default();
    let mut last = 0;
    for _ in 0..65535 {
        last = tm.next_transaction_id();
    }
    assert_eq!(last, 65535);
    assert_eq!(tm.next_transaction_id(), 0);
    assert_eq!(tm.next_transaction_id(), 1);
}

#[test]
fn end_undoes_begin_and_get_copies_request() {
    let mut tm = TransactionManager::new();
    let pdu = ModbusPdu::write_single_register(3, 4).unwrap();
    let tid = tm.begin_transaction(pdu.clone(), 9, 12);
    assert_eq!(tid, 1);
    let copy = tm.get_transaction(tid).unwrap();
    assert_eq!(copy.pdu, pdu);
    assert_eq!(copy.expected_len, 12);
    let ended = tm.end_transaction(tid).unwrap();
    assert_eq!(ended.unit_id, 9);
    assert!(tm.get_transaction(tid).is_none());
    assert!(tm.end_transaction(tid).is_none());
}

#[test]
fn full_manager_drops_oldest_half() {
    let mut tm = TransactionManager::new();
    let pdu = ModbusPdu::read_coils(0, 1).unwrap();
    for _ in 0..100 {
        tm.begin_transaction(pdu.clone(), 1, 3);
    }
    assert_eq!(tm.pending_count(), 100);
    let newest = tm.begin_transaction(pdu.clone(), 1, 3);
    assert_eq!(newest, 101);
    assert_eq!(tm.pending_count(), 51);
    assert!(tm.get_transaction(newest).is_some());
}

#[test]
fn mbap_validate_messages() {
    let bad_protocol = MbapHeader { transaction_id: 1, protocol_id: 3, length: 6, unit_id: 1 };
    assert_eq!(
        bad_protocol.validate(),
        Err(ModbusError::MbapParseError("Invalid protocol_id: 3, expected 0 for Modbus".to_string()))
    );
    let short = MbapHeader { transaction_id: 1, protocol_id: 0, length: 1, unit_id: 1 };
    assert_eq!(
        short.validate(),
        Err(ModbusError::MbapParseError("Invalid length: 1, minimum is 2".to_string()))
    );
}

#[test]
fn session_connection_lifecycle() {
    let mut session = ModbusTcpSession::default();
    session.set_connected("10.0.0.2:502".to_string(), "10.0.0.1:50000".to_string());
    assert!(session.is_connected());
    let pdu = ModbusPdu::read_coils(0, 8).unwrap();
    let tid = session.register_request(&pdu);
    assert_eq!(tid, 1);
    session.set_error("timeout".to_string());
    assert!(!session.is_connected());
    assert_eq!(
        session.connection.as_ref().unwrap().state,
        ConnectionState::Error("timeout".to_string())
    );
    session.set_disconnected();
    assert_eq!(session.connection.as_ref().unwrap().state, ConnectionState::Disconnected);
    assert_eq!(session.transactions.pending_count(), 0);
}

#[test]
fn session_build_request_uses_next_id_and_unit() {
    let mut session = ModbusTcpSession::with_unit_id(17);
    let pdu = ModbusPdu::write_single_coil(2, true).unwrap();
    let first = session.build_request(&pdu);
    let second = session.build_request(&pdu);
    assert_eq!(first.mbap.transaction_id, 1);
    assert_eq!(second.mbap.transaction_id, 2);
    assert_eq!(second.mbap.unit_id, 17);
    assert_eq!(second.pdu, pdu);
}

#[test]
fn session_parse_response_roundtrip() {
    let session = ModbusTcpSession::new();
    let data = [0x00, 0x05, 0x00, 0x00, 0x00, 0x05, 0x01, 0x03, 0x02, 0x00, 0x2A];
    let frame = session.parse_response(&data).unwrap();
    assert_eq!(frame.mbap.transaction_id, 5);
    assert_eq!(frame.pdu.function_code, 0x03);
    assert_eq!(frame.pdu.data, vec![0x02, 0x00, 0x2A]);
    assert_eq!(frame.pdu.parse_read_registers(), Ok(vec![42]));
}

#[test]
fn connection_info_starts_connected() {
    let info = ConnectionInfo::new("1.2.3.4:502".to_string(), "5.6.7.8:4000".to_string());
    assert_eq!(info.state, ConnectionState::Connected);
    assert_eq!(info.bytes_sent, 0);
    assert_eq!(info.bytes_received, 0);
    assert_eq!(ConnectionState::default(), ConnectionState::Disconnected);
}

#[test]
fn eviction_keeps_the_newest_half() {
    let mut tm = TransactionManager::new();
    let pdu = ModbusPdu::read_coils(0, 1).unwrap();
    // ids 1..=100 made at times 1000 - id: the highest ids are the oldest
    for id in 1u64..=100 {
        tm.begin_transaction_at(pdu.clone(), 1, 3, 1000 - id);
    }
    let newest = tm.begin_transaction_at(pdu.clone(), 1, 3, 2000);
    assert_eq!(newest, 101);
    assert_eq!(tm.pending_count(), 51);
    for id in 1u16..=50 {
        assert!(tm.get_transaction(id).is_some());
    }
    for id in 51u16..=100 {
        assert!(tm.get_transaction(id).is_none());
    }
    assert_eq!(tm.get_transaction(newest).unwrap().request_time, 2000);
}

#[test]
fn pending_count_never_exceeds_capacity() {
    let mut tm = TransactionManager::new();
    let pdu = ModbusPdu::read_coils(0, 1).unwrap();
    for _ in 0..350 {
        tm.begin_transaction(pdu.clone(), 1, 3);
        assert!(tm.pending_count() <= 100);
    }
}
