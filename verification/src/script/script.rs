//! Script definitions and execution status.

use vstd::prelude::*;
use vstd::string::StringExecFns;

use crate::ids::{new_uuid, now_millis};
use crate::script::action::Action;
use crate::script::trigger::Trigger;

verus! {

/// Automation script definition. The id is the 128-bit value of a UUID;
/// timestamps are milliseconds since the Unix epoch.
#[derive(Debug, Clone, PartialEq)]
pub struct Script {
    /// Unique identifier
    pub id: u128,
    /// Display name
    pub name: String,
    /// Optional description
    pub description: String,
    /// Trigger condition
    pub trigger: Trigger,
    /// Actions to execute when triggered
    pub actions: Vec<Action>,
    /// Whether the script is enabled
    pub enabled: bool,
    /// Creation timestamp
    pub created_at: i64,
    /// Last update timestamp
    pub updated_at: i64,
}

impl Script {
    /// A new enabled script with the given name and trigger, no actions and
    /// an empty description, under a fresh random id.
    pub fn new(name: String, trigger: Trigger) -> (r: Self)
        ensures
            r.name == name,
            r.description@ == Seq::<char>::empty(),
            r.trigger == trigger,
            r.actions@ == Seq::<Action>::empty(),
            r.enabled,
            r.created_at == r.updated_at,
    {
        let now = now_millis();
        Self {
            id: new_uuid(),
            name,
            description: String::new(),
            trigger,
            actions: Vec::new(),
            enabled: true,
            created_at: now,
            updated_at: now,
        }
    }

    /// Append an action (and refresh the update time).
    pub fn add_action(&mut self, action: Action)
        ensures
            final(self).actions@ == old(self).actions@.push(action),
            final(self).id == old(self).id,
            final(self).name == old(self).name,
            final(self).description == old(self).description,
            final(self).trigger == old(self).trigger,
            final(self).enabled == old(self).enabled,
            final(self).created_at == old(self).created_at,
    {
        self.actions.push(action);
        self.updated_at = now_millis();
    }

    /// Remove and return the action at `index`, if there is one (the update
    /// time is refreshed only then).
    pub fn remove_action(&mut self, index: usize) -> (r: Option<Action>)
        ensures
            index < old(self).actions@.len() ==> r == Some(old(self).actions@[index as int])
                && final(self).actions@ == old(self).actions@.remove(index as int),
            index >= old(self).actions@.len() ==> r.is_none() && *final(self) == *old(self),
            final(self).id == old(self).id,
            final(self).name == old(self).name,
            final(self).description == old(self).description,
            final(self).trigger == old(self).trigger,
            final(self).enabled == old(self).enabled,
            final(self).created_at == old(self).created_at,
    {
        if index < self.actions.len() {
            self.updated_at = now_millis();
            Some(self.actions.remove(index))
        } else {
            None
        }
    }

    /// Set the description (and refresh the update time).
    pub fn set_description(&mut self, description: String)
        ensures
            final(self).description == description,
            final(self).id == old(self).id,
            final(self).name == old(self).name,
            final(self).trigger == old(self).trigger,
            final(self).actions == old(self).actions,
            final(self).enabled == old(self).enabled,
            final(self).created_at == old(self).created_at,
    {
        self.description = description;
        self.updated_at = now_millis();
    }

    /// Enable or disable the script (and refresh the update time).
    pub fn set_enabled(&mut self, enabled: bool)
        ensures
            final(self).enabled == enabled,
            final(self).id == old(self).id,
            final(self).name == old(self).name,
            final(self).description == old(self).description,
            final(self).trigger == old(self).trigger,
            final(self).actions == old(self).actions,
            final(self).created_at == old(self).created_at,
    {
        self.enabled = enabled;
        self.updated_at = now_millis();
    }

    /// A script is valid when it has at least one action.
    pub fn is_valid(&self) -> (r: bool)
        ensures
            r == (self.actions@.len() > 0),
    {
        self.actions.len() > 0
    }
}

impl Default for Script {
    fn default() -> (r: Self)
        ensures
            r.name@ == "New Script"@,
            r.description@ == Seq::<char>::empty(),
            r.trigger matches Trigger::Changed { register } && register@ == "40001"@,
            r.actions@ == Seq::<Action>::empty(),
            r.enabled,
    {
        Self::new(String::from_str("New Script"), Trigger::Changed { register: String::from_str("40001") })
    }
}

/// Script execution status.
#[derive(Debug, Clone, PartialEq)]
pub struct ScriptStatus {
    pub script_id: u128,
    pub running: bool,
    pub last_triggered: Option<i64>,
    pub last_error: Option<String>,
}

impl ScriptStatus {
    /// A status that was never triggered and holds no error.
    pub fn new(script_id: u128) -> (r: Self)
        ensures
            r == (ScriptStatus { script_id, running: false, last_triggered: None, last_error: None }),
    {
        Self { script_id, running: false, last_triggered: None, last_error: None }
    }

    /// Record a trigger now; clears the last error.
    pub fn mark_triggered(&mut self)
        ensures
            final(self).last_triggered.is_some(),
            final(self).last_error.is_none(),
            final(self).script_id == old(self).script_id,
            final(self).running == old(self).running,
    {
        self.last_triggered = Some(now_millis());
        self.last_error = None;
    }

    /// Record an error message.
    pub fn mark_error(&mut self, error: String)
        ensures
            final(self).last_error == Some(error),
            final(self).script_id == old(self).script_id,
            final(self).running == old(self).running,
            final(self).last_triggered == old(self).last_triggered,
    {
        self.last_error = Some(error);
    }
}

} // verus!
