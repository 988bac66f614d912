//! Error type of the application layer, with a numeric code per variant.

use vstd::prelude::*;

use crate::text::{decimal, lower_hex, push_decimal, push_lower_hex, push_str};

verus! {

/// Application-level error.
///
/// Payloads that carried foreign error values hold their rendered message.
#[derive(Debug)]
pub enum Error {
    SerialPort(String),
    SerialPortList(String),
    SerialPortOpen(String),
    SerialPortNotOpen,
    SerialPortAlreadyOpen(String),
    TcpConnection(String),
    TcpConnectionNotFound(String),
    TcpConnectionAlreadyExists(String),
    TcpRead(String),
    TcpWrite(String),
    Modbus(String),
    InvalidModbusResponse(String),
    ModbusCrcError { expected: u16, got: u16 },
    ModbusTimeout,
    ModbusInvalidFunction(u8),
    Io(String),
    Parse(String),
    Config(String),
    Connection(String),
    NotConnected,
    Cancelled,
    Timeout(String),
    Other(String),
}

impl Error {
    /// The code shown to users for this error: serial errors are in
    /// 1000..1999, TCP errors in 2000..2999, Modbus errors in 3000..3999,
    /// I/O and configuration errors in 4000..4999, general errors from 5000.
    pub open spec fn spec_code(&self) -> i32 {
        match self {
            Error::SerialPort(_) => 1000,
            Error::SerialPortList(_) => 1001,
            Error::SerialPortOpen(_) => 1002,
            Error::SerialPortNotOpen => 1003,
            Error::SerialPortAlreadyOpen(_) => 1004,
            Error::TcpConnection(_) => 2000,
            Error::TcpConnectionNotFound(_) => 2001,
            Error::TcpConnectionAlreadyExists(_) => 2002,
            Error::TcpRead(_) => 2003,
            Error::TcpWrite(_) => 2004,
            Error::Modbus(_) => 3000,
            Error::InvalidModbusResponse(_) => 3001,
            Error::ModbusCrcError { .. } => 3002,
            Error::ModbusTimeout => 3003,
            Error::ModbusInvalidFunction(_) => 3004,
            Error::Io(_) => 4000,
            Error::Parse(_) => 4001,
            Error::Config(_) => 4002,
            Error::Connection(_) => 5000,
            Error::NotConnected => 5001,
            Error::Cancelled => 5002,
            Error::Timeout(_) => 5003,
            Error::Other(_) => 5100,
        }
    }

    /// Error code for display in the user interface.
    pub fn code(&self) -> (c: i32)
        ensures
            c == self.spec_code(),
    {
        match self {
            Error::SerialPort(_) => 1000,
            Error::SerialPortList(_) => 1001,
            Error::SerialPortOpen(_) => 1002,
            Error::SerialPortNotOpen => 1003,
            Error::SerialPortAlreadyOpen(_) => 1004,
            Error::TcpConnection(_) => 2000,
            Error::TcpConnectionNotFound(_) => 2001,
            Error::TcpConnectionAlreadyExists(_) => 2002,
            Error::TcpRead(_) => 2003,
            Error::TcpWrite(_) => 2004,
            Error::Modbus(_) => 3000,
            Error::InvalidModbusResponse(_) => 3001,
            Error::ModbusCrcError { .. } => 3002,
            Error::ModbusTimeout => 3003,
            Error::ModbusInvalidFunction(_) => 3004,
            Error::Io(_) => 4000,
            Error::Parse(_) => 4001,
            Error::Config(_) => 4002,
            Error::Connection(_) => 5000,
            Error::NotConnected => 5001,
            Error::Cancelled => 5002,
            Error::Timeout(_) => 5003,
            Error::Other(_) => 5100,
        }
    }
}

/// The message shown for an error.
pub open spec fn error_message(e: Error) -> Seq<char> {
    match e {
        Error::SerialPort(m) => "Serial port error: "@ + m@,
        Error::SerialPortList(m) => "Failed to list serial ports: "@ + m@,
        Error::SerialPortOpen(m) => "Failed to open serial port: "@ + m@,
        Error::SerialPortNotOpen => "Serial port not open"@,
        Error::SerialPortAlreadyOpen(m) => "Serial port already open: "@ + m@,
        Error::TcpConnection(m) => "TCP connection error: "@ + m@,
        Error::TcpConnectionNotFound(m) => "TCP connection not found: "@ + m@,
        Error::TcpConnectionAlreadyExists(m) => "TCP connection already exists: "@ + m@,
        Error::TcpRead(m) => "TCP read error: "@ + m@,
        Error::TcpWrite(m) => "TCP write error: "@ + m@,
        Error::Modbus(m) => "Modbus error: "@ + m@,
        Error::InvalidModbusResponse(m) => "Invalid Modbus response: "@ + m@,
        Error::ModbusCrcError { expected, got } => "Modbus CRC error: expected 0x"@ + lower_hex(
            expected as nat,
        ) + ", got 0x"@ + lower_hex(got as nat),
        Error::ModbusTimeout => "Modbus timeout"@,
        Error::ModbusInvalidFunction(c) => "Modbus invalid function code: "@ + decimal(c as nat),
        Error::Io(m) => "IO error: "@ + m@,
        Error::Parse(m) => "Parse error: "@ + m@,
        Error::Config(m) => "Invalid configuration: "@ + m@,
        Error::Connection(m) => "Connection error: "@ + m@,
        Error::NotConnected => "Not connected"@,
        Error::Cancelled => "Operation cancelled"@,
        Error::Timeout(m) => "Timeout: "@ + m@,
        Error::Other(m) => m@,
    }
}

impl Error {
    /// The error's message, e.g. `"Parse error: Invalid UUID: x"`.
    pub fn to_string(&self) -> (r: String)
        ensures
            r@ == error_message(*self),
    {
        let mut s = String::new();
        match self {
            Error::SerialPort(m) => {
                push_str(&mut s, "Serial port error: ");
                push_str(&mut s, m.as_str());
            },
            Error::SerialPortList(m) => {
                push_str(&mut s, "Failed to list serial ports: ");
                push_str(&mut s, m.as_str());
            },
            Error::SerialPortOpen(m) => {
                push_str(&mut s, "Failed to open serial port: ");
                push_str(&mut s, m.as_str());
            },
            Error::SerialPortNotOpen => push_str(&mut s, "Serial port not open"),
            Error::SerialPortAlreadyOpen(m) => {
                push_str(&mut s, "Serial port already open: ");
                push_str(&mut s, m.as_str());
            },
            Error::TcpConnection(m) => {
                push_str(&mut s, "TCP connection error: ");
                push_str(&mut s, m.as_str());
            },
            Error::TcpConnectionNotFound(m) => {
                push_str(&mut s, "TCP connection not found: ");
                push_str(&mut s, m.as_str());
            },
            Error::TcpConnectionAlreadyExists(m) => {
                push_str(&mut s, "TCP connection already exists: ");
                push_str(&mut s, m.as_str());
            },
            Error::TcpRead(m) => {
                push_str(&mut s, "TCP read error: ");
                push_str(&mut s, m.as_str());
            },
            Error::TcpWrite(m) => {
                push_str(&mut s, "TCP write error: ");
                push_str(&mut s, m.as_str());
            },
            Error::Modbus(m) => {
                push_str(&mut s, "Modbus error: ");
                push_str(&mut s, m.as_str());
            },
            Error::InvalidModbusResponse(m) => {
                push_str(&mut s, "Invalid Modbus response: ");
                push_str(&mut s, m.as_str());
            },
            Error::ModbusCrcError { expected, got } => {
                push_str(&mut s, "Modbus CRC error: expected 0x");
                push_lower_hex(&mut s, *expected as u64);
                push_str(&mut s, ", got 0x");
                push_lower_hex(&mut s, *got as u64);
            },
            Error::ModbusTimeout => push_str(&mut s, "Modbus timeout"),
            Error::ModbusInvalidFunction(c) => {
                push_str(&mut s, "Modbus invalid function code: ");
                push_decimal(&mut s, *c as u64);
            },
            Error::Io(m) => {
                push_str(&mut s, "IO error: ");
                push_str(&mut s, m.as_str());
            },
            Error::Parse(m) => {
                push_str(&mut s, "Parse error: ");
                push_str(&mut s, m.as_str());
            },
            Error::Config(m) => {
                push_str(&mut s, "Invalid configuration: ");
                push_str(&mut s, m.as_str());
            },
            Error::Connection(m) => {
                push_str(&mut s, "Connection error: ");
                push_str(&mut s, m.as_str());
            },
            Error::NotConnected => push_str(&mut s, "Not connected"),
            Error::Cancelled => push_str(&mut s, "Operation cancelled"),
            Error::Timeout(m) => {
                push_str(&mut s, "Timeout: ");
                push_str(&mut s, m.as_str());
            },
            Error::Other(m) => push_str(&mut s, m.as_str()),
        }
        assert(s@ =~= error_message(*self));
        s
    }
}

} // verus!
