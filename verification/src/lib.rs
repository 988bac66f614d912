//! Modbus protocol toolkit: PDU and frame encoding/decoding for Modbus RTU
//! and Modbus TCP, an RTU stream framer, TCP transaction bookkeeping, and a
//! trigger/action automation engine for register values.

pub mod error;
pub mod text;
pub mod byte_buffer;
pub mod modbus;
pub mod clock;
pub mod commands;
pub mod registers;
pub mod ids;
pub mod script;
pub mod maps;
pub mod automation;
