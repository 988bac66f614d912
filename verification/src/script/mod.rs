//! Trigger-action automation scripts for Modbus registers.

pub mod action;
pub mod engine;
pub mod script;
pub mod trigger;

pub use action::{Action, SoundType};
pub use engine::ScriptEngine;
pub use script::{Script, ScriptStatus};
pub use trigger::{CompareOp, Trigger};
