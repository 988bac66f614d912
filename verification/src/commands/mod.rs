//! Plain data exchanged with the user interface: command errors, serial
//! and TCP connection settings, and what is reported back about ports and
//! connections.

pub mod script;

use vstd::prelude::*;
use vstd::string::StringExecFns;

use serialport::SerialPortBuilder;

use crate::error::{error_message, Error};
use crate::text::{decimal, push_decimal, push_str};

verus! {

/// An error reported to the user interface.
#[derive(Debug, Clone)]
pub struct CommandError {
    pub code: i32,
    pub message: String,
}

/// The answer to a user-interface command: the data on success, the error
/// otherwise.
#[derive(Debug)]
pub struct CommandResponse<T> {
    pub success: bool,
    pub data: Option<T>,
    pub error: Option<CommandError>,
}

impl<T> CommandResponse<T> {
    /// A successful response carrying `data`.
    pub fn ok(data: T) -> (r: Self)
        ensures
            r.success,
            r.data == Some(data),
            r.error.is_none(),
    {
        Self { success: true, data: Some(data), error: None }
    }

    /// A failed response carrying an error with the given code and message.
    pub fn err(code: i32, message: String) -> (r: Self)
        ensures
            !r.success,
            r.data.is_none(),
            r.error matches Some(e) && e.code == code && e.message == message,
    {
        Self { success: false, data: None, error: Some(CommandError { code, message }) }
    }
}

/// The response for a command's result: its data, or its error's code and
/// message.
pub fn respond<T>(result: Result<T, Error>) -> (r: CommandResponse<T>)
    ensures
        result matches Ok(d) ==> r.success && r.data == Some(d) && r.error is None,
        result matches Err(e) ==> !r.success && r.data is None && (r.error matches Some(ce) && ce.code
            == e.spec_code() && ce.message@ == error_message(e)),
{
    match result {
        Ok(data) => CommandResponse::ok(data),
        Err(e) => {
            let code = e.code();
            let message = e.to_string();
            CommandResponse::err(code, message)
        },
    }
}

/// The response to a read into `buffer`: the first `n` bytes when `n`
/// bytes were read, or the read's error.
pub fn read_response(buffer: Vec<u8>, read: Result<usize, Error>) -> (r: CommandResponse<Vec<u8>>)
    ensures
        read matches Ok(n) ==> r.success && r.error is None && (r.data matches Some(d) && d@
            == buffer@.take(if n < buffer@.len() { n as int } else { buffer@.len() as int })),
        read matches Err(e) ==> !r.success && r.data is None && (r.error matches Some(ce) && ce.code
            == e.spec_code() && ce.message@ == error_message(e)),
{
    match read {
        Ok(n) => {
            let mut buffer = buffer;
            buffer.truncate(n);
            CommandResponse::ok(buffer)
        },
        Err(e) => respond(Err(e)),
    }
}

/// Serial port configuration, as entered in the user interface.
#[derive(Debug, Clone)]
pub struct SerialConfig {
    pub path: String,
    pub baud_rate: u32,
    pub data_bits: String,
    pub stop_bits: String,
    pub parity: String,
    pub flow_control: String,
    pub timeout_ms: u64,
}

/// Number of data bits per character.
#[derive(Debug, Clone, Copy, PartialEq, Eq)]
pub enum DataBits {
    Five,
    Six,
    Seven,
    Eight,
}

/// Number of stop bits.
#[derive(Debug, Clone, Copy, PartialEq, Eq)]
pub enum StopBits {
    One,
    Two,
}

/// Parity checking mode.
#[derive(Debug, Clone, Copy, PartialEq, Eq)]
pub enum Parity {
    NoParity,
    Odd,
    Even,
}

/// Flow control mode.
#[derive(Debug, Clone, Copy, PartialEq, Eq)]
pub enum FlowControl {
    NoFlowControl,
    Software,
    Hardware,
}

/// The settings a serial port is opened with.
#[derive(Debug, Clone)]
pub struct PortSettings {
    pub path: String,
    pub baud_rate: u32,
    pub data_bits: DataBits,
    pub stop_bits: StopBits,
    pub parity: Parity,
    pub flow_control: FlowControl,
    pub timeout_ms: u64,
}

/// Data bits named by `s`: "5", "6", "7"; anything else means eight.
pub open spec fn data_bits_of(s: Seq<char>) -> DataBits {
    if s == "5"@ {
        DataBits::Five
    } else if s == "6"@ {
        DataBits::Six
    } else if s == "7"@ {
        DataBits::Seven
    } else {
        DataBits::Eight
    }
}

/// Stop bits named by `s`: "2"; anything else means one.
pub open spec fn stop_bits_of(s: Seq<char>) -> StopBits {
    if s == "2"@ {
        StopBits::Two
    } else {
        StopBits::One
    }
}

/// Parity named by `s`: "odd", "even"; anything else means none.
pub open spec fn parity_of(s: Seq<char>) -> Parity {
    if s == "odd"@ {
        Parity::Odd
    } else if s == "even"@ {
        Parity::Even
    } else {
        Parity::NoParity
    }
}

/// Flow control named by `s`: "hardware", "software"; anything else means
/// none.
pub open spec fn flow_control_of(s: Seq<char>) -> FlowControl {
    if s == "hardware"@ {
        FlowControl::Hardware
    } else if s == "software"@ {
        FlowControl::Software
    } else {
        FlowControl::NoFlowControl
    }
}

/// Whether `s` holds exactly the text `literal`.
fn is(s: &String, literal: &str) -> (r: bool)
    ensures
        r == (s@ == literal@),
{
    let other = String::from_str(literal);
    *s == other
}

impl Default for SerialConfig {
    fn default() -> (r: Self)
        ensures
            r.path@ == Seq::<char>::empty(),
            r.baud_rate == 9600,
            r.data_bits@ == "8"@,
            r.stop_bits@ == "1"@,
            r.parity@ == "none"@,
            r.flow_control@ == "none"@,
            r.timeout_ms == 1000,
    {
        Self {
            path: String::new(),
            baud_rate: 9600,
            data_bits: String::from_str("8"),
            stop_bits: String::from_str("1"),
            parity: String::from_str("none"),
            flow_control: String::from_str("none"),
            timeout_ms: 1000,
        }
    }
}

impl SerialConfig {
    /// The port settings this configuration selects; unrecognised names
    /// fall back to 8 data bits, 1 stop bit, no parity, no flow control.
    pub fn port_settings(&self) -> (r: PortSettings)
        ensures
            r.path@ == self.path@,
            r.baud_rate == self.baud_rate,
            r.data_bits == data_bits_of(self.data_bits@),
            r.stop_bits == stop_bits_of(self.stop_bits@),
            r.parity == parity_of(self.parity@),
            r.flow_control == flow_control_of(self.flow_control@),
            r.timeout_ms == self.timeout_ms,
    {
        let data_bits = if is(&self.data_bits, "5") {
            DataBits::Five
        } else if is(&self.data_bits, "6") {
            DataBits::Six
        } else if is(&self.data_bits, "7") {
            DataBits::Seven
        } else {
            DataBits::Eight
        };
        let stop_bits = if is(&self.stop_bits, "2") {
            StopBits::Two
        } else {
            StopBits::One
        };
        let parity = if is(&self.parity, "odd") {
            Parity::Odd
        } else if is(&self.parity, "even") {
            Parity::Even
        } else {
            Parity::NoParity
        };
        let flow_control = if is(&self.flow_control, "hardware") {
            FlowControl::Hardware
        } else if is(&self.flow_control, "software") {
            FlowControl::Software
        } else {
            FlowControl::NoFlowControl
        };
        PortSettings {
            path: self.path.clone(),
            baud_rate: self.baud_rate,
            data_bits,
            stop_bits,
            parity,
            flow_control,
            timeout_ms: self.timeout_ms,
        }
    }
}

#[verifier::external_type_specification]
#[verifier::external_body]
pub struct ExSerialPortBuilder(serialport::SerialPortBuilder);

/// The port path a `SerialPortBuilder` holds.
pub uninterp spec fn builder_path(b: SerialPortBuilder) -> Seq<char>;

/// The baud rate a `SerialPortBuilder` holds.
pub uninterp spec fn builder_baud_rate(b: SerialPortBuilder) -> u32;

/// The data bits a `SerialPortBuilder` holds.
pub uninterp spec fn builder_data_bits_setting(b: SerialPortBuilder) -> DataBits;

/// The stop bits a `SerialPortBuilder` holds.
pub uninterp spec fn builder_stop_bits_setting(b: SerialPortBuilder) -> StopBits;

/// The parity a `SerialPortBuilder` holds.
pub uninterp spec fn builder_parity_setting(b: SerialPortBuilder) -> Parity;

/// The flow control a `SerialPortBuilder` holds.
pub uninterp spec fn builder_flow_control_setting(b: SerialPortBuilder) -> FlowControl;

/// `serialport::new`: a builder for the port at `path` and `baud_rate`,
/// with the crate's defaults for the rest: 8 data bits, 1 stop bit, no
/// parity, no flow control. (Its timeout, DTR and exclusivity settings are
/// not modelled.)
#[verifier::external_body]
fn serial_builder_new(path: &str, baud_rate: u32) -> (b: SerialPortBuilder)
    ensures
        builder_path(b) == path@,
        builder_baud_rate(b) == baud_rate,
        builder_data_bits_setting(b) == DataBits::Eight,
        builder_stop_bits_setting(b) == StopBits::One,
        builder_parity_setting(b) == Parity::NoParity,
        builder_flow_control_setting(b) == FlowControl::NoFlowControl,
{
    serialport::new(path, baud_rate)
}

/// `SerialPortBuilder::data_bits`: the builder with the given data bits,
/// its other settings kept.
#[verifier::external_body]
fn builder_data_bits(builder: SerialPortBuilder, data_bits: DataBits) -> (b: SerialPortBuilder)
    ensures
        builder_path(b) == builder_path(builder),
        builder_baud_rate(b) == builder_baud_rate(builder),
        builder_data_bits_setting(b) == data_bits,
        builder_stop_bits_setting(b) == builder_stop_bits_setting(builder),
        builder_parity_setting(b) == builder_parity_setting(builder),
        builder_flow_control_setting(b) == builder_flow_control_setting(builder),
{
    builder.data_bits(
        match data_bits {
            DataBits::Five => serialport::DataBits::Five,
            DataBits::Six => serialport::DataBits::Six,
            DataBits::Seven => serialport::DataBits::Seven,
            DataBits::Eight => serialport::DataBits::Eight,
        },
    )
}

/// `SerialPortBuilder::stop_bits`: the builder with the given stop bits,
/// its other settings kept.
#[verifier::external_body]
fn builder_stop_bits(builder: SerialPortBuilder, stop_bits: StopBits) -> (b: SerialPortBuilder)
    ensures
        builder_path(b) == builder_path(builder),
        builder_baud_rate(b) == builder_baud_rate(builder),
        builder_data_bits_setting(b) == builder_data_bits_setting(builder),
        builder_stop_bits_setting(b) == stop_bits,
        builder_parity_setting(b) == builder_parity_setting(builder),
        builder_flow_control_setting(b) == builder_flow_control_setting(builder),
{
    builder.stop_bits(
        match stop_bits {
            StopBits::One => serialport::StopBits::One,
            StopBits::Two => serialport::StopBits::Two,
        },
    )
}

/// `SerialPortBuilder::parity`: the builder with the given parity, its
/// other settings kept.
#[verifier::external_body]
fn builder_parity(builder: SerialPortBuilder, parity: Parity) -> (b: SerialPortBuilder)
    ensures
        builder_path(b) == builder_path(builder),
        builder_baud_rate(b) == builder_baud_rate(builder),
        builder_data_bits_setting(b) == builder_data_bits_setting(builder),
        builder_stop_bits_setting(b) == builder_stop_bits_setting(builder),
        builder_parity_setting(b) == parity,
        builder_flow_control_setting(b) == builder_flow_control_setting(builder),
{
    builder.parity(
        match parity {
            Parity::NoParity => serialport::Parity::None,
            Parity::Odd => serialport::Parity::Odd,
            Parity::Even => serialport::Parity::Even,
        },
    )
}

/// `SerialPortBuilder::flow_control`: the builder with the given flow
/// control, its other settings kept.
#[verifier::external_body]
fn builder_flow_control(builder: SerialPortBuilder, flow_control: FlowControl) -> (b: SerialPortBuilder)
    ensures
        builder_path(b) == builder_path(builder),
        builder_baud_rate(b) == builder_baud_rate(builder),
        builder_data_bits_setting(b) == builder_data_bits_setting(builder),
        builder_stop_bits_setting(b) == builder_stop_bits_setting(builder),
        builder_parity_setting(b) == builder_parity_setting(builder),
        builder_flow_control_setting(b) == flow_control,
{
    builder.flow_control(
        match flow_control {
            FlowControl::NoFlowControl => serialport::FlowControl::None,
            FlowControl::Software => serialport::FlowControl::Software,
            FlowControl::Hardware => serialport::FlowControl::Hardware,
        },
    )
}

impl SerialConfig {
    /// The `serialport` builder for this configuration: its path and baud
    /// rate, and the data bits, stop bits, parity and flow control that
    /// `port_settings` selects.
    pub fn to_serialport_config(&self) -> (r: Result<SerialPortBuilder, Error>)
        ensures
            r matches Ok(b) && builder_path(b) == self.path@ && builder_baud_rate(b)
                == self.baud_rate && builder_data_bits_setting(b) == data_bits_of(self.data_bits@)
                && builder_stop_bits_setting(b) == stop_bits_of(self.stop_bits@)
                && builder_parity_setting(b) == parity_of(self.parity@)
                && builder_flow_control_setting(b) == flow_control_of(self.flow_control@),
    {
        let settings = self.port_settings();
        let mut builder = serial_builder_new(settings.path.as_str(), settings.baud_rate);
        builder = builder_data_bits(builder, settings.data_bits);
        builder = builder_stop_bits(builder, settings.stop_bits);
        builder = builder_parity(builder, settings.parity);
        builder = builder_flow_control(builder, settings.flow_control);
        Ok(builder)
    }
}

/// Serial port info for the user interface.
#[derive(Debug, Clone)]
pub struct SerialPortInfo {
    pub name: String,
    pub port_type: String,
}

/// TCP connection configuration.
#[derive(Debug, Clone)]
pub struct TcpConfig {
    pub host: String,
    pub port: u16,
    pub timeout_ms: u64,
}

/// The `host:port` address a configuration connects to.
pub open spec fn tcp_address(host: Seq<char>, port: u16) -> Seq<char> {
    host + ":"@ + decimal(port as nat)
}

impl Default for TcpConfig {
    fn default() -> (r: Self)
        ensures
            r.host@ == "127.0.0.1"@,
            r.port == 502,
            r.timeout_ms == 5000,
    {
        Self { host: String::from_str("127.0.0.1"), port: 502, timeout_ms: 5000 }
    }
}

impl TcpConfig {
    /// The address to connect to, `host:port`.
    pub fn address(&self) -> (r: String)
        ensures
            r@ == tcp_address(self.host@, self.port),
    {
        let mut s = self.host.clone();
        push_str(&mut s, ":");
        push_decimal(&mut s, self.port as u64);
        s
    }
}

/// Connection info for the user interface.
#[derive(Debug, Clone)]
pub struct TcpConnectionInfo {
    pub id: String,
    pub addr: String,
    pub connected: bool,
}

} // verus!
