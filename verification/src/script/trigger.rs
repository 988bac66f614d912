//! Trigger conditions of automation scripts.

use vstd::prelude::*;
use vstd::string::StringExecFns;

use crate::text::{decimal, push_decimal, push_signed_decimal, push_str, signed_decimal};

verus! {

/// Comparison operators for trigger conditions.
#[derive(Debug, Clone, Copy, PartialEq, Eq)]
pub enum CompareOp {
    /// greater than (>)
    GT,
    /// less than (<)
    LT,
    /// equal (=)
    EQ,
    /// not equal (≠)
    NEQ,
    /// greater than or equal (≥)
    GTE,
    /// less than or equal (≤)
    LTE,
}

impl CompareOp {
    /// Whether `actual <op> expected` holds.
    pub open spec fn holds(self, actual: int, expected: int) -> bool {
        match self {
            CompareOp::GT => actual > expected,
            CompareOp::LT => actual < expected,
            CompareOp::EQ => actual == expected,
            CompareOp::NEQ => actual != expected,
            CompareOp::GTE => actual >= expected,
            CompareOp::LTE => actual <= expected,
        }
    }

    /// The display symbol.
    pub open spec fn symbol_text(self) -> Seq<char> {
        match self {
            CompareOp::GT => ">"@,
            CompareOp::LT => "<"@,
            CompareOp::EQ => "="@,
            CompareOp::NEQ => "≠"@,
            CompareOp::GTE => "≥"@,
            CompareOp::LTE => "≤"@,
        }
    }

    /// Evaluate `actual <op> expected`.
    pub fn evaluate(&self, actual: i64, expected: i64) -> (r: bool)
        ensures
            r == self.holds(actual as int, expected as int),
    {
        match self {
            CompareOp::GT => actual > expected,
            CompareOp::LT => actual < expected,
            CompareOp::EQ => actual == expected,
            CompareOp::NEQ => actual != expected,
            CompareOp::GTE => actual >= expected,
            CompareOp::LTE => actual <= expected,
        }
    }

    /// The display symbol.
    pub fn symbol(&self) -> (r: &'static str)
        ensures
            r@ == self.symbol_text(),
    {
        match self {
            CompareOp::GT => ">",
            CompareOp::LT => "<",
            CompareOp::EQ => "=",
            CompareOp::NEQ => "≠",
            CompareOp::GTE => "≥",
            CompareOp::LTE => "≤",
        }
    }
}

/// Trigger conditions for automation scripts.
#[derive(Debug, PartialEq)]
pub enum Trigger {
    /// Compare a register value against a threshold
    Compare { register: String, operator: CompareOp, value: i64 },
    /// Trigger when any value change is detected
    Changed { register: String },
    /// Trigger when a coil/input becomes ON (value != 0)
    BecameOn { register: String },
    /// Trigger when a coil/input becomes OFF (value == 0)
    BecameOff { register: String },
    /// Trigger when value remains stable for N seconds
    Stable { register: String, seconds: u64 },
}

/// The register a trigger watches.
pub open spec fn trigger_register(t: Trigger) -> Seq<char> {
    match t {
        Trigger::Compare { register, .. } => register@,
        Trigger::Changed { register } => register@,
        Trigger::BecameOn { register } => register@,
        Trigger::BecameOff { register } => register@,
        Trigger::Stable { register, .. } => register@,
    }
}

/// The text describing a trigger.
pub open spec fn trigger_description(t: Trigger) -> Seq<char> {
    match t {
        Trigger::Compare { register, operator, value } => register@ + " "@ + operator.symbol_text()
            + " "@ + signed_decimal(value as int),
        Trigger::Changed { register } => register@ + " changed"@,
        Trigger::BecameOn { register } => register@ + " became ON"@,
        Trigger::BecameOff { register } => register@ + " became OFF"@,
        Trigger::Stable { register, seconds } => register@ + " stable for "@ + decimal(
            seconds as nat,
        ) + "s"@,
    }
}

/// `a` and `b` are the same trigger (registers compared by content).
pub open spec fn same_trigger(a: Trigger, b: Trigger) -> bool {
    match (a, b) {
        (
            Trigger::Compare { register: r1, operator: o1, value: v1 },
            Trigger::Compare { register: r2, operator: o2, value: v2 },
        ) => r1@ == r2@ && o1 == o2 && v1 == v2,
        (Trigger::Changed { register: r1 }, Trigger::Changed { register: r2 }) => r1@ == r2@,
        (Trigger::BecameOn { register: r1 }, Trigger::BecameOn { register: r2 }) => r1@ == r2@,
        (Trigger::BecameOff { register: r1 }, Trigger::BecameOff { register: r2 }) => r1@ == r2@,
        (
            Trigger::Stable { register: r1, seconds: s1 },
            Trigger::Stable { register: r2, seconds: s2 },
        ) => r1@ == r2@ && s1 == s2,
        _ => false,
    }
}

impl Clone for Trigger {
    fn clone(&self) -> (r: Self)
        ensures
            same_trigger(r, *self),
            trigger_register(r) == trigger_register(*self),
    {
        match self {
            Trigger::Compare { register, operator, value } => Trigger::Compare {
                register: register.clone(),
                operator: *operator,
                value: *value,
            },
            Trigger::Changed { register } => Trigger::Changed { register: register.clone() },
            Trigger::BecameOn { register } => Trigger::BecameOn { register: register.clone() },
            Trigger::BecameOff { register } => Trigger::BecameOff { register: register.clone() },
            Trigger::Stable { register, seconds } => Trigger::Stable {
                register: register.clone(),
                seconds: *seconds,
            },
        }
    }
}

impl Trigger {
    /// The register address this trigger monitors.
    pub fn register(&self) -> (r: &str)
        ensures
            r@ == trigger_register(*self),
    {
        match self {
            Trigger::Compare { register, .. } => register.as_str(),
            Trigger::Changed { register } => register.as_str(),
            Trigger::BecameOn { register } => register.as_str(),
            Trigger::BecameOff { register } => register.as_str(),
            Trigger::Stable { register, .. } => register.as_str(),
        }
    }

    /// Check a register value against a threshold value. Only comparison
    /// triggers can be decided from the two values alone: they compare
    /// `register_value <operator> trigger_value`; every other trigger
    /// gives `false`.
    pub fn check_trigger(&self, register_value: u16, trigger_value: u16) -> (r: bool)
        ensures
            r == (match *self {
                Trigger::Compare { operator, .. } => operator.holds(
                    register_value as int,
                    trigger_value as int,
                ),
                _ => false,
            }),
    {
        match self {
            Trigger::Compare { operator, .. } => {
                let reg = register_value as i64;
                let tgt = trigger_value as i64;
                operator.evaluate(reg, tgt)
            },
            Trigger::Changed { .. } => false,
            Trigger::BecameOn { .. } => false,
            Trigger::BecameOff { .. } => false,
            Trigger::Stable { .. } => false,
        }
    }

    /// Human-readable description, e.g. `"40001 > 30"`.
    pub fn description(&self) -> (r: String)
        ensures
            r@ == trigger_description(*self),
    {
        let mut s = String::new();
        match self {
            Trigger::Compare { register, operator, value } => {
                push_str(&mut s, register.as_str());
                push_str(&mut s, " ");
                push_str(&mut s, operator.symbol());
                push_str(&mut s, " ");
                push_signed_decimal(&mut s, *value);
            },
            Trigger::Changed { register } => {
                push_str(&mut s, register.as_str());
                push_str(&mut s, " changed");
            },
            Trigger::BecameOn { register } => {
                push_str(&mut s, register.as_str());
                push_str(&mut s, " became ON");
            },
            Trigger::BecameOff { register } => {
                push_str(&mut s, register.as_str());
                push_str(&mut s, " became OFF");
            },
            Trigger::Stable { register, seconds } => {
                push_str(&mut s, register.as_str());
                push_str(&mut s, " stable for ");
                push_decimal(&mut s, *seconds);
                push_str(&mut s, "s");
            },
        }
        assert(s@ =~= trigger_description(*self));
        s
    }
}

} // verus!
