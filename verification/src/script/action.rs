//! Actions that automation scripts execute when triggered.

use vstd::prelude::*;

use crate::text::{decimal, push_decimal, push_str};

verus! {

/// Sound types for notification sounds.
#[derive(Debug, Clone, Copy, PartialEq, Eq)]
pub enum SoundType {
    Alert,
    Success,
    Warning,
}

/// The name of a sound type as shown to users.
pub open spec fn sound_name(s: SoundType) -> Seq<char> {
    match s {
        SoundType::Alert => "Alert"@,
        SoundType::Success => "Success"@,
        SoundType::Warning => "Warning"@,
    }
}

/// Actions that can be executed when a trigger fires.
#[derive(Debug, Clone, PartialEq)]
pub enum Action {
    /// Write a specific value to a register
    WriteValue { register: String, value: u16 },
    /// Write 0xFF00 (ON) to a coil/register
    WriteOn { register: String },
    /// Write 0x0000 (OFF) to a coil/register
    WriteOff { register: String },
    /// Toggle a coil (ON->OFF or OFF->ON)
    Toggle { register: String },
    /// Show a desktop notification
    ShowNotification { title: String, message: String },
    /// Play a sound
    PlaySound { sound: SoundType },
    /// Log a message
    Log { message: String },
    /// Run another script by ID
    RunScript { script_id: String },
    /// Stop a running script by ID
    StopScript { script_id: String },
    /// Delay execution for N seconds
    Delay { seconds: u64 },
}

/// The text describing an action.
pub open spec fn action_description(a: Action) -> Seq<char> {
    match a {
        Action::WriteValue { register, value } => "Write "@ + decimal(value as nat) + " to "@
            + register@,
        Action::WriteOn { register } => "Turn ON "@ + register@,
        Action::WriteOff { register } => "Turn OFF "@ + register@,
        Action::Toggle { register } => "Toggle "@ + register@,
        Action::ShowNotification { title, message } => "Notify: "@ + title@ + " - "@ + message@,
        Action::PlaySound { sound } => "Play sound: "@ + sound_name(sound),
        Action::Log { message } => "Log: "@ + message@,
        Action::RunScript { script_id } => "Run script: "@ + script_id@,
        Action::StopScript { script_id } => "Stop script: "@ + script_id@,
        Action::Delay { seconds } => "Wait "@ + decimal(seconds as nat) + "s"@,
    }
}

/// The register an action writes, if it writes one.
pub open spec fn action_register(a: Action) -> Option<Seq<char>> {
    match a {
        Action::WriteValue { register, .. } => Some(register@),
        Action::WriteOn { register } => Some(register@),
        Action::WriteOff { register } => Some(register@),
        Action::Toggle { register } => Some(register@),
        _ => None,
    }
}

impl Action {
    /// Human-readable description, e.g. `"Write 100 to 40001"`.
    pub fn description(&self) -> (r: String)
        ensures
            r@ == action_description(*self),
    {
        let mut s = String::new();
        match self {
            Action::WriteValue { register, value } => {
                push_str(&mut s, "Write ");
                push_decimal(&mut s, *value as u64);
                push_str(&mut s, " to ");
                push_str(&mut s, register.as_str());
            },
            Action::WriteOn { register } => {
                push_str(&mut s, "Turn ON ");
                push_str(&mut s, register.as_str());
            },
            Action::WriteOff { register } => {
                push_str(&mut s, "Turn OFF ");
                push_str(&mut s, register.as_str());
            },
            Action::Toggle { register } => {
                push_str(&mut s, "Toggle ");
                push_str(&mut s, register.as_str());
            },
            Action::ShowNotification { title, message } => {
                push_str(&mut s, "Notify: ");
                push_str(&mut s, title.as_str());
                push_str(&mut s, " - ");
                push_str(&mut s, message.as_str());
            },
            Action::PlaySound { sound } => {
                push_str(&mut s, "Play sound: ");
                match sound {
                    SoundType::Alert => push_str(&mut s, "Alert"),
                    SoundType::Success => push_str(&mut s, "Success"),
                    SoundType::Warning => push_str(&mut s, "Warning"),
                }
            },
            Action::Log { message } => {
                push_str(&mut s, "Log: ");
                push_str(&mut s, message.as_str());
            },
            Action::RunScript { script_id } => {
                push_str(&mut s, "Run script: ");
                push_str(&mut s, script_id.as_str());
            },
            Action::StopScript { script_id } => {
                push_str(&mut s, "Stop script: ");
                push_str(&mut s, script_id.as_str());
            },
            Action::Delay { seconds } => {
                push_str(&mut s, "Wait ");
                push_decimal(&mut s, *seconds);
                push_str(&mut s, "s");
            },
        }
        assert(s@ =~= action_description(*self));
        s
    }

    /// Whether this action writes to a register.
    pub fn has_register(&self) -> (r: bool)
        ensures
            r == action_register(*self).is_some(),
    {
        match self {
            Action::WriteValue { .. } | Action::WriteOn { .. } | Action::WriteOff { .. }
            | Action::Toggle { .. } => true,
            _ => false,
        }
    }

    /// The register this action writes, if any.
    pub fn register(&self) -> (r: Option<&str>)
        ensures
            r.is_some() == action_register(*self).is_some(),
            r matches Some(name) ==> Some(name@) == action_register(*self),
    {
        match self {
            Action::WriteValue { register, .. } => Some(register.as_str()),
            Action::WriteOn { register } => Some(register.as_str()),
            Action::WriteOff { register } => Some(register.as_str()),
            Action::Toggle { register } => Some(register.as_str()),
            _ => None,
        }
    }
}

/// Whether `a` writes a register is exactly whether it names one.
pub proof fn lemma_register_presence(a: Action)
    ensures
        action_register(a).is_some() <==> (a is WriteValue || a is WriteOn || a is WriteOff
            || a is Toggle),
{
}

} // verus!
