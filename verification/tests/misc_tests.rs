use modbus_tool::commands::{
    CommandResponse, DataBits, FlowControl, Parity, SerialConfig, StopBits, TcpConfig,
};
use modbus_tool::error::Error;
use modbus_tool::modbus::ModbusMode;
use modbus_tool::registers::RegisterMap;

#[test]
fn error_codes_by_family() {
    assert_eq!(Error::SerialPort("x".into()).code(), 1000);
    assert_eq!(Error::SerialPortNotOpen.code(), 1003);
    assert_eq!(Error::TcpConnection("x".into()).code(), 2000);
    assert_eq!(Error::TcpWrite("x".into()).code(), 2004);
    assert_eq!(Error::ModbusCrcError { expected: 1, got: 2 }.code(), 3002);
    assert_eq!(Error::ModbusInvalidFunction(7).code(), 3004);
    assert_eq!(Error::Io("x".into()).code(), 4000);
    assert_eq!(Error::Config("x".into()).code(), 4002);
    assert_eq!(Error::NotConnected.code(), 5001);
    assert_eq!(Error::Other("x".into()).code(), 5100);
}

#[test]
fn serial_config_default_and_settings() {
    let config = SerialConfig::default();
    assert_eq!(config.baud_rate, 9600);
    assert_eq!(config.data_bits, "8");
    assert_eq!(config.parity, "none");
    assert_eq!(config.timeout_ms, 1000);
    let settings = config.port_settings();
    assert_eq!(settings.data_bits, DataBits::Eight);
    assert_eq!(settings.stop_bits, StopBits::One);
    assert_eq!(settings.parity, Parity::NoParity);
    assert_eq!(settings.flow_control, FlowControl::NoFlowControl);

    let custom = SerialConfig {
        path: "/dev/ttyUSB0".into(),
        baud_rate: 19200,
        data_bits: "7".into(),
        stop_bits: "2".into(),
        parity: "even".into(),
        flow_control: "hardware".into(),
        timeout_ms: 250,
    };
    let s = custom.port_settings();
    assert_eq!(s.path, "/dev/ttyUSB0");
    assert_eq!(s.baud_rate, 19200);
    assert_eq!(s.data_bits, DataBits::Seven);
    assert_eq!(s.stop_bits, StopBits::Two);
    assert_eq!(s.parity, Parity::Even);
    assert_eq!(s.flow_control, FlowControl::Hardware);
    assert_eq!(s.timeout_ms, 250);

    let odd = SerialConfig { data_bits: "9".into(), parity: "odd".into(), flow_control: "software".into(), ..SerialConfig::default() };
    let s = odd.port_settings();
    assert_eq!(s.data_bits, DataBits::Eight);
    assert_eq!(s.parity, Parity::Odd);
    assert_eq!(s.flow_control, FlowControl::Software);
}

#[test]
fn tcp_config_address() {
    let config = TcpConfig::default();
    assert_eq!(config.host, "127.0.0.1");
    assert_eq!(config.port, 502);
    assert_eq!(config.timeout_ms, 5000);
    assert_eq!(config.address(), "127.0.0.1:502");
    let other = TcpConfig { host: "plc.local".into(), port: 1502, timeout_ms: 10 };
    assert_eq!(other.address(), "plc.local:1502");
}

#[test]
fn command_responses() {
    let ok = CommandResponse::ok(5u32);
    assert!(ok.success);
    assert_eq!(ok.data, Some(5));
    assert!(ok.error.is_none());
    let err: CommandResponse<u32> = CommandResponse::err(2000, "refused".into());
    assert!(!err.success);
    assert!(err.data.is_none());
    let e = err.error.unwrap();
    assert_eq!(e.code, 2000);
    assert_eq!(e.message, "refused");
}

#[test]
fn modbus_mode_names() {
    assert_eq!(ModbusMode::default(), ModbusMode::Rtu);
    assert_eq!(ModbusMode::Rtu.to_string(), "RTU");
    assert_eq!(ModbusMode::Tcp.to_string(), "TCP");
    assert_eq!(ModbusMode::Ascii.to_string(), "ASCII");
    assert_eq!(ModbusMode::Udp.to_string(), "UDP");
}

#[test]
fn register_map_insert_get() {
    let mut m = RegisterMap::new();
    assert_eq!(m.len(), 0);
    m.insert("40001".into(), 5);
    m.insert("40002".into(), 6);
    m.insert("40001".into(), 7);
    assert_eq!(m.len(), 2);
    assert_eq!(m.get(&"40001".to_string()), Some(7));
    assert_eq!(m.get(&"40003".to_string()), None);
    assert!(m.contains_key(&"40002".to_string()));
    let copy = m.clone();
    assert_eq!(copy.get(&"40002".to_string()), Some(6));
    let (name, value) = m.entry(1);
    assert_eq!(name, "40002");
    assert_eq!(value, 6);
}

#[test]
fn error_messages() {
    assert_eq!(Error::Parse("bad".into()).to_string(), "Parse error: bad");
    assert_eq!(
        Error::ModbusCrcError { expected: 0xCDC5, got: 0x0 }.to_string(),
        "Modbus CRC error: expected 0xcdc5, got 0x0"
    );
    assert_eq!(Error::ModbusInvalidFunction(7).to_string(), "Modbus invalid function code: 7");
    assert_eq!(Error::SerialPortNotOpen.to_string(), "Serial port not open");
    assert_eq!(Error::Cancelled.to_string(), "Operation cancelled");
    assert_eq!(Error::Other("plain".into()).to_string(), "plain");
    assert_eq!(Error::Io("disk".into()).to_string(), "IO error: disk");
}

#[test]
fn serial_config_builds_a_port_builder() {
    assert!(SerialConfig::default().to_serialport_config().is_ok());
}

#[test]
fn serial_builder_holds_the_chosen_settings() {
    let config = SerialConfig {
        path: "/dev/ttyS3".into(),
        baud_rate: 19200,
        data_bits: "7".into(),
        stop_bits: "2".into(),
        parity: "even".into(),
        flow_control: "hardware".into(),
        timeout_ms: 100,
    };
    let shown = format!("{:?}", config.to_serialport_config().unwrap());
    assert!(shown.contains("\"/dev/ttyS3\""));
    assert!(shown.contains("baud_rate: 19200"));
    assert!(shown.contains("data_bits: Seven"));
    assert!(shown.contains("stop_bits: Two"));
    assert!(shown.contains("parity: Even"));
    assert!(shown.contains("flow_control: Hardware"));
}
