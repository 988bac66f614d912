//! Modbus protocol: PDU encoding/decoding, RTU framing, TCP sessions.

pub mod protocol;
pub mod rtu;
pub mod tcp;

use vstd::prelude::*;

use crate::text::push_str;

verus! {

/// Modbus communication mode.
#[derive(Debug, Clone, Copy, PartialEq, Eq)]
pub enum ModbusMode {
    /// Modbus RTU over serial (RS-232/RS-485)
    Rtu,
    /// Modbus TCP over Ethernet
    Tcp,
    /// Modbus ASCII over serial
    Ascii,
    /// Modbus UDP over Ethernet
    Udp,
}

/// The display name of a mode.
pub open spec fn mode_name(m: ModbusMode) -> Seq<char> {
    match m {
        ModbusMode::Rtu => "RTU"@,
        ModbusMode::Tcp => "TCP"@,
        ModbusMode::Ascii => "ASCII"@,
        ModbusMode::Udp => "UDP"@,
    }
}

impl Default for ModbusMode {
    fn default() -> (r: Self)
        ensures
            r == ModbusMode::Rtu,
    {
        ModbusMode::Rtu
    }
}

impl ModbusMode {
    /// The mode's display name, e.g. `"RTU"`.
    pub fn to_string(&self) -> (r: String)
        ensures
            r@ == mode_name(*self),
    {
        let mut s = String::new();
        match self {
            ModbusMode::Rtu => push_str(&mut s, "RTU"),
            ModbusMode::Tcp => push_str(&mut s, "TCP"),
            ModbusMode::Ascii => push_str(&mut s, "ASCII"),
            ModbusMode::Udp => push_str(&mut s, "UDP"),
        }
        assert(s@ =~= mode_name(*self));
        s
    }
}

} // verus!
