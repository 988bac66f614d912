//! "If ... then ..." automation for Modbus registers: each script pairs a
//! trigger with a list of actions, and the engine evaluates the triggers of
//! the running scripts on every polling cycle.

use std::collections::HashMap;
use vstd::prelude::*;
use vstd::std_specs::iter::IteratorSpec;
use vstd::string::StringExecFns;

use crate::ids::{new_uuid, now_millis, uuid_string, uuid_text};
use crate::maps::hash_map_get_mut;
use crate::registers::RegisterMap;
use crate::text::{decimal, push_decimal, push_str};

verus! {

broadcast use vstd::std_specs::hash::group_hash_axioms;

// ========== Data types ==========

/// A comparison threshold, held as what a comparison with a register value
/// (a whole number from 0 to 65535) reads of it. For a threshold `v`:
/// `not_a_number` tells whether `v` is NaN; `floor` is the largest whole
/// number not above `v`, clamped to `-1 ..= 65536`; `integral` tells whether
/// `v` is itself a whole number (or infinite); `near` is the register value
/// that lies closer than machine epsilon to `v`, if there is one.
#[derive(Debug, Clone, Copy, PartialEq, Eq)]
pub struct Threshold {
    pub not_a_number: bool,
    pub floor: i32,
    pub integral: bool,
    pub near: Option<u16>,
}

/// `n` clamped to the range that matters for register values.
pub open spec fn clamp_floor(n: int) -> int {
    if n < -1 {
        -1
    } else if n > 65536 {
        65536
    } else {
        n
    }
}

impl Threshold {
    /// The threshold at the whole number `n`.
    pub open spec fn of_integer(n: int) -> Threshold {
        Threshold {
            not_a_number: false,
            floor: clamp_floor(n) as i32,
            integral: true,
            near: if 0 <= n <= 65535 {
                Some(n as u16)
            } else {
                None
            },
        }
    }

    /// The threshold at the whole number `n`.
    pub fn integer(n: i64) -> (r: Threshold)
        ensures
            r == Threshold::of_integer(n as int),
    {
        let floor: i32 = if n < -1 {
            -1
        } else if n > 65536 {
            65536
        } else {
            n as i32
        };
        let near: Option<u16> = if 0 <= n && n <= 65535 {
            Some(n as u16)
        } else {
            None
        };
        Threshold { not_a_number: false, floor, integral: true, near }
    }
}

/// Comparison operators for trigger conditions.
#[derive(Debug, Clone, Copy, PartialEq, Eq)]
pub enum CompareOp {
    /// `>`
    Greater,
    /// `<`
    Less,
    /// `=` (within machine epsilon)
    Equal,
    /// `≠` (not within machine epsilon)
    NotEqual,
    /// `≥`
    GreaterOrEq,
    /// `≤`
    LessOrEq,
}

impl CompareOp {
    /// Whether `left <op> right` holds for the register value `left`.
    /// Nothing compares true with a NaN threshold.
    pub open spec fn holds(self, left: int, right: Threshold) -> bool {
        !right.not_a_number && match self {
            CompareOp::Greater => left > right.floor,
            CompareOp::Less => if right.integral {
                left < right.floor
            } else {
                left <= right.floor
            },
            CompareOp::Equal => right.near matches Some(v) && v == left,
            CompareOp::NotEqual => !(right.near matches Some(v) && v == left),
            CompareOp::GreaterOrEq => if right.integral {
                left >= right.floor
            } else {
                left > right.floor
            },
            CompareOp::LessOrEq => left <= right.floor,
        }
    }

    /// Evaluate the comparison `left <op> right`.
    pub fn evaluate(self, left: u16, right: &Threshold) -> (r: bool)
        ensures
            r == self.holds(left as int, *right),
    {
        if right.not_a_number {
            return false;
        }
        let l: i32 = left as i32;
        let is_near: bool = match right.near {
            Some(v) => v == left,
            None => false,
        };
        match self {
            CompareOp::Greater => l > right.floor,
            CompareOp::Less => if right.integral {
                l < right.floor
            } else {
                l <= right.floor
            },
            CompareOp::Equal => is_near,
            CompareOp::NotEqual => !is_near,
            CompareOp::GreaterOrEq => if right.integral {
                l >= right.floor
            } else {
                l > right.floor
            },
            CompareOp::LessOrEq => l <= right.floor,
        }
    }
}

/// Register reference (e.g. `"40001"` = holding register 1).
#[derive(Debug, PartialEq, Eq, Hash)]
pub struct RegisterRef(pub String);

impl RegisterRef {
    /// The register address as text.
    pub fn to_string(&self) -> (r: String)
        ensures
            r@ == self.0@,
    {
        String::from_str(self.0.as_str())
    }
}

/// Trigger condition for a script.
#[derive(Debug)]
pub enum Trigger {
    /// Numeric comparison: register operator value
    Compare { register: String, operator: CompareOp, value: Threshold },
    /// Detect value change (any change)
    Changed { register: String },
    /// Detect rising edge (0 -> 1)
    BecameOn { register: String },
    /// Detect falling edge (1 -> 0)
    BecameOff { register: String },
    /// Detect value stable for N seconds (not detected yet)
    Stable { register: String, seconds: u32 },
    /// AND combination of multiple triggers (all must be true to fire)
    And { triggers: Vec<Trigger> },
}

/// The value of register `name` in `m`, with 0 for an absent register.
pub open spec fn value_or_zero(m: Map<Seq<char>, u16>, name: Seq<char>) -> int {
    if m.contains_key(name) {
        m[name] as int
    } else {
        0
    }
}

/// Whether trigger `t` fires on the current register values `regs`, given
/// the values `last` remembered from the previous polls.
pub open spec fn fires(t: Trigger, regs: Map<Seq<char>, u16>, last: Map<Seq<char>, u16>) -> bool
    decreases t,
{
    match t {
        Trigger::Compare { register, operator, value } => regs.contains_key(register@)
            && operator.holds(regs[register@] as int, value),
        Trigger::Changed { register } => regs.contains_key(register@) && !(last.contains_key(
            register@,
        ) && last[register@] == regs[register@]),
        Trigger::BecameOn { register } => value_or_zero(last, register@) == 0 && value_or_zero(
            regs,
            register@,
        ) != 0,
        Trigger::BecameOff { register } => value_or_zero(last, register@) != 0 && value_or_zero(
            regs,
            register@,
        ) == 0,
        Trigger::Stable { .. } => false,
        Trigger::And { triggers } => all_fire(triggers@, regs, last),
    }
}

/// The Changed trigger detects any change between two polls, up or down:
/// for a register present now and remembered from the previous poll it
/// fires exactly when the two values differ, so swapping the previous and
/// the current value does not change whether it fires. A register seen
/// for the first time counts as changed; an absent one never fires.
pub proof fn lemma_changed_fires_on_any_change(
    register: String,
    regs: Map<Seq<char>, u16>,
    last: Map<Seq<char>, u16>,
    a: u16,
    b: u16,
)
    ensures
        regs.contains_key(register@) && last.contains_key(register@) ==> (fires(
            Trigger::Changed { register },
            regs,
            last,
        ) <==> regs[register@] != last[register@]),
        regs.contains_key(register@) && !last.contains_key(register@) ==> fires(
            Trigger::Changed { register },
            regs,
            last,
        ),
        !regs.contains_key(register@) ==> !fires(Trigger::Changed { register }, regs, last),
        fires(Trigger::Changed { register }, regs.insert(register@, a), last.insert(register@, b))
            == fires(Trigger::Changed { register }, regs.insert(register@, b), last.insert(register@, a)),
        fires(Trigger::Changed { register }, regs.insert(register@, a), last.insert(register@, b))
            <==> a != b,
{
}

/// BecameOn fires exactly when a register goes from 0 (or unknown) at the
/// previous poll to a nonzero value now; BecameOff exactly when it goes
/// from a nonzero value at the previous poll to 0 (or absent) now.
pub proof fn lemma_became_fires_on_edge(
    register: String,
    regs: Map<Seq<char>, u16>,
    last: Map<Seq<char>, u16>,
)
    ensures
        fires(Trigger::BecameOn { register }, regs, last) <==> (regs.contains_key(register@)
            && regs[register@] != 0 && (last.contains_key(register@) ==> last[register@] == 0)),
        fires(Trigger::BecameOff { register }, regs, last) <==> (last.contains_key(register@)
            && last[register@] != 0 && (regs.contains_key(register@) ==> regs[register@] == 0)),
{
}

/// Polling the same values twice: on the second poll (after they were
/// remembered) no Changed, BecameOn or BecameOff trigger on a register
/// present in them fires.
pub proof fn lemma_repeated_poll_no_edge(
    register: String,
    regs: Map<Seq<char>, u16>,
    last: Map<Seq<char>, u16>,
)
    requires
        regs.contains_key(register@),
    ensures
        !fires(Trigger::Changed { register }, regs, last.union_prefer_right(regs)),
        !fires(Trigger::BecameOn { register }, regs, last.union_prefer_right(regs)),
        !fires(Trigger::BecameOff { register }, regs, last.union_prefer_right(regs)),
{
}

/// Whether every trigger of `ts` fires.
pub open spec fn all_fire(ts: Seq<Trigger>, regs: Map<Seq<char>, u16>, last: Map<Seq<char>, u16>) -> bool
    decreases ts,
{
    if ts.len() == 0 {
        true
    } else {
        fires(ts.last(), regs, last) && all_fire(ts.drop_last(), regs, last)
    }
}

/// `all_fire` holds exactly when each of the triggers fires.
pub proof fn lemma_all_fire(ts: Seq<Trigger>, regs: Map<Seq<char>, u16>, last: Map<Seq<char>, u16>)
    ensures
        all_fire(ts, regs, last) <==> forall|j: int|
            0 <= j < ts.len() ==> #[trigger] fires(ts[j], regs, last),
    decreases ts.len(),
{
    if ts.len() > 0 {
        let prev = ts.drop_last();
        lemma_all_fire(prev, regs, last);
        assert forall|j: int| 0 <= j < prev.len() implies prev[j] == ts[j] by {}
        if all_fire(ts, regs, last) {
            assert forall|j: int| 0 <= j < ts.len() implies #[trigger] fires(ts[j], regs, last) by {
                if j < prev.len() {
                    assert(fires(prev[j], regs, last));
                }
            }
        }
        if forall|j: int| 0 <= j < ts.len() ==> #[trigger] fires(ts[j], regs, last) {
            assert(fires(ts[ts.len() - 1], regs, last));
            assert forall|j: int| 0 <= j < prev.len() implies #[trigger] fires(prev[j], regs, last) by {
                assert(fires(ts[j], regs, last));
            }
        }
    }
}

/// `b` is a copy of `a`: equal, but for the lists of combined triggers,
/// which are copies of each other item by item.
pub open spec fn same_trigger(a: Trigger, b: Trigger) -> bool
    decreases a,
{
    match a {
        Trigger::And { triggers } => b matches Trigger::And { triggers: others } && same_triggers(
            triggers@,
            others@,
        ),
        _ => a == b,
    }
}

/// `b` is a copy of `a`, item by item.
pub open spec fn same_triggers(a: Seq<Trigger>, b: Seq<Trigger>) -> bool
    decreases a,
{
    &&& a.len() == b.len()
    &&& a.len() > 0 ==> same_trigger(a.last(), b.last()) && same_triggers(a.drop_last(), b.drop_last())
}

/// A copy of a trigger fires exactly when the trigger does.
pub proof fn lemma_same_trigger_fires(
    a: Trigger,
    b: Trigger,
    regs: Map<Seq<char>, u16>,
    last: Map<Seq<char>, u16>,
)
    requires
        same_trigger(a, b),
    ensures
        fires(a, regs, last) == fires(b, regs, last),
    decreases a,
{
    match a {
        Trigger::And { triggers } => {
            let others = b->triggers;
            assert(decreases_to!(a => a->triggers));
            lemma_same_triggers_fire(triggers@, others@, regs, last);
        },
        _ => {},
    }
}

/// Copies of a list of triggers all fire exactly when the copied ones do.
pub proof fn lemma_same_triggers_fire(
    a: Seq<Trigger>,
    b: Seq<Trigger>,
    regs: Map<Seq<char>, u16>,
    last: Map<Seq<char>, u16>,
)
    requires
        same_triggers(a, b),
    ensures
        all_fire(a, regs, last) == all_fire(b, regs, last),
    decreases a,
{
    if a.len() > 0 {
        lemma_same_trigger_fires(a.last(), b.last(), regs, last);
        lemma_same_triggers_fire(a.drop_last(), b.drop_last(), regs, last);
    }
}

impl Clone for Trigger {
    fn clone(&self) -> (r: Self)
        ensures
            same_trigger(*self, r),
        decreases self,
    {
        match self {
            Trigger::Compare { register, operator, value } => Trigger::Compare {
                register: register.clone(),
                operator: *operator,
                value: *value,
            },
            Trigger::Changed { register } => Trigger::Changed { register: register.clone() },
            Trigger::BecameOn { register } => Trigger::BecameOn { register: register.clone() },
            Trigger::BecameOff { register } => Trigger::BecameOff { register: register.clone() },
            Trigger::Stable { register, seconds } => Trigger::Stable {
                register: register.clone(),
                seconds: *seconds,
            },
            Trigger::And { triggers } => {
                let mut copies: Vec<Trigger> = Vec::new();
                let mut i: usize = 0;
                while i < triggers.len()
                    invariant
                        *self == (Trigger::And { triggers: *triggers }),
                        i <= triggers@.len(),
                        same_triggers(triggers@.take(i as int), copies@),
                    decreases triggers@.len() - i,
                {
                    proof {
                        let sub = self->triggers;
                        assert(decreases_to!(*self => self->triggers));
                        assert(decreases_to!(sub => sub@));
                        assert(decreases_to!(sub@ => sub@[i as int]));
                    }
                    let copy = triggers[i].clone();
                    let ghost before = copies@;
                    copies.push(copy);
                    proof {
                        let taken = triggers@.take(i + 1);
                        assert(taken.drop_last() =~= triggers@.take(i as int));
                        assert(copies@.drop_last() =~= before);
                        assert(taken.last() == triggers@[i as int]);
                    }
                    i = i + 1;
                }
                proof {
                    assert(triggers@.take(triggers@.len() as int) =~= triggers@);
                }
                Trigger::And { triggers: copies }
            },
        }
    }
}

/// Action to perform when a trigger fires.
#[derive(Debug)]
pub enum Action {
    /// Write a fixed value to a register
    WriteValue { register: String, value: u16 },
    /// Write ON (0xFF00) to a register
    WriteOn { register: String },
    /// Write OFF (0x0000) to a register
    WriteOff { register: String },
    /// Toggle the current value (ON <-> OFF)
    Toggle { register: String },
    /// Show a desktop notification
    ShowNotification { message: String },
    /// Play a sound
    PlaySound { sound: String },
    /// Log a message
    Log { message: String },
    /// Start another script
    RunScript { script_id: String },
    /// Stop another script
    StopScript { script_id: String },
    /// Delay for N milliseconds before next action
    Delay { ms: u64 },
}

impl Clone for Action {
    fn clone(&self) -> (r: Self)
        ensures
            r == *self,
    {
        match self {
            Action::WriteValue { register, value } => Action::WriteValue {
                register: register.clone(),
                value: *value,
            },
            Action::WriteOn { register } => Action::WriteOn { register: register.clone() },
            Action::WriteOff { register } => Action::WriteOff { register: register.clone() },
            Action::Toggle { register } => Action::Toggle { register: register.clone() },
            Action::ShowNotification { message } => Action::ShowNotification {
                message: message.clone(),
            },
            Action::PlaySound { sound } => Action::PlaySound { sound: sound.clone() },
            Action::Log { message } => Action::Log { message: message.clone() },
            Action::RunScript { script_id } => Action::RunScript { script_id: script_id.clone() },
            Action::StopScript { script_id } => Action::StopScript { script_id: script_id.clone() },
            Action::Delay { ms } => Action::Delay { ms: *ms },
        }
    }
}

/// The kind of an action, as reported in its result.
pub open spec fn action_type_name(a: Action) -> Seq<char> {
    match a {
        Action::WriteValue { .. } => "write_value"@,
        Action::WriteOn { .. } => "write_on"@,
        Action::WriteOff { .. } => "write_off"@,
        Action::Toggle { .. } => "toggle"@,
        Action::ShowNotification { .. } => "notification"@,
        Action::PlaySound { .. } => "play_sound"@,
        Action::Log { .. } => "log"@,
        Action::RunScript { .. } => "run_script"@,
        Action::StopScript { .. } => "stop_script"@,
        Action::Delay { .. } => "delay"@,
    }
}

/// The message reported when an action has been executed.
pub open spec fn action_message(a: Action) -> Seq<char> {
    match a {
        Action::WriteValue { register, value } => "Wrote "@ + decimal(value as nat) + " to "@
            + register@,
        Action::WriteOn { register } => "Wrote ON to "@ + register@,
        Action::WriteOff { register } => "Wrote OFF to "@ + register@,
        Action::Toggle { register } => "Toggled "@ + register@,
        Action::ShowNotification { message } => message@,
        Action::PlaySound { sound } => "Playing sound: "@ + sound@,
        Action::Log { message } => message@,
        Action::RunScript { script_id } => "Started script: "@ + script_id@,
        Action::StopScript { script_id } => "Stopped script: "@ + script_id@,
        Action::Delay { ms } => "Delayed "@ + decimal(ms as nat) + "ms"@,
    }
}

/// The result of executing one action.
#[derive(Debug)]
pub struct ActionResult {
    pub action_type: String,
    pub success: bool,
    pub message: String,
}

impl ActionResult {
    /// A successful result.
    pub fn ok(action_type: &str, message: &str) -> (r: Self)
        ensures
            r.action_type@ == action_type@,
            r.success,
            r.message@ == message@,
    {
        Self {
            action_type: String::from_str(action_type),
            success: true,
            message: String::from_str(message),
        }
    }

    /// A failed result.
    pub fn fail(action_type: &str, message: &str) -> (r: Self)
        ensures
            r.action_type@ == action_type@,
            !r.success,
            r.message@ == message@,
    {
        Self {
            action_type: String::from_str(action_type),
            success: false,
            message: String::from_str(message),
        }
    }
}

/// Modbus client for script actions: implement this to provide actual
/// Modbus writes.
pub trait ModbusClient: Send + Sync {
    fn write_register(&self, register: &str, value: u16) -> Result<(), String>;

    fn write_coil(&self, register: &str, value: bool) -> Result<(), String>;
}

/// Context passed to action executors.
#[derive(Debug)]
pub struct ScriptContext {
    pub script_id: u128,
    pub trigger_name: String,
    pub register_values: RegisterMap,
}

impl ScriptContext {
    /// A context for script `script_id` with the given register values and
    /// an empty trigger name.
    pub fn new(script_id: u128, register_values: RegisterMap) -> (r: Self)
        ensures
            r.script_id == script_id,
            r.trigger_name@ == Seq::<char>::empty(),
            r.register_values == register_values,
    {
        Self { script_id, trigger_name: String::new(), register_values }
    }
}

/// Log level for script logging.
#[derive(Debug, Clone, Copy, PartialEq, Eq)]
pub enum LogLevel {
    Info,
    Warn,
    Error,
}

/// Script definition. The id is the 128-bit value of a UUID; timestamps are
/// milliseconds since the Unix epoch.
#[derive(Debug)]
pub struct Script {
    pub id: u128,
    pub name: String,
    pub trigger: Trigger,
    pub actions: Vec<Action>,
    pub enabled: bool,
    pub created_at: i64,
    pub updated_at: i64,
}

impl Script {
    /// A new, disabled script under a fresh random id.
    pub fn new(name: String, trigger: Trigger, actions: Vec<Action>) -> (r: Self)
        ensures
            r.name == name,
            r.trigger == trigger,
            r.actions == actions,
            !r.enabled,
            r.created_at == r.updated_at,
    {
        let now = now_millis();
        Self { id: new_uuid(), name, trigger, actions, enabled: false, created_at: now, updated_at: now }
    }
}

/// `b` is a copy of script `a`.
pub open spec fn same_script(a: Script, b: Script) -> bool {
    &&& a.id == b.id
    &&& a.name == b.name
    &&& same_trigger(a.trigger, b.trigger)
    &&& a.actions@ == b.actions@
    &&& a.enabled == b.enabled
    &&& a.created_at == b.created_at
    &&& a.updated_at == b.updated_at
}

impl Clone for Script {
    fn clone(&self) -> (r: Self)
        ensures
            same_script(*self, r),
    {
        let mut actions: Vec<Action> = Vec::new();
        let mut i: usize = 0;
        while i < self.actions.len()
            invariant
                i <= self.actions@.len(),
                actions@ == self.actions@.take(i as int),
            decreases self.actions@.len() - i,
        {
            actions.push(self.actions[i].clone());
            i = i + 1;
            assert(actions@ =~= self.actions@.take(i as int));
        }
        assert(self.actions@.take(self.actions@.len() as int) =~= self.actions@);
        Script {
            id: self.id,
            name: self.name.clone(),
            trigger: self.trigger.clone(),
            actions,
            enabled: self.enabled,
            created_at: self.created_at,
            updated_at: self.updated_at,
        }
    }
}

/// Script execution status.
#[derive(Debug, Clone, Copy, PartialEq, Eq)]
pub struct ScriptStatus {
    pub running: bool,
    pub last_triggered: Option<i64>,
    pub trigger_count: u32,
}

/// The status of a script that never ran.
pub open spec fn fresh_status() -> ScriptStatus {
    ScriptStatus { running: false, last_triggered: None, trigger_count: 0 }
}

impl ScriptStatus {
    /// A status that never ran.
    pub fn new() -> (r: Self)
        ensures
            r == fresh_status(),
    {
        Self { running: false, last_triggered: None, trigger_count: 0 }
    }
}

impl Default for ScriptStatus {
    fn default() -> (r: Self)
        ensures
            r == fresh_status(),
    {
        Self::new()
    }
}

// ========== Script engine ==========

/// No two scripts share an id.
pub open spec fn distinct_ids(s: Seq<Script>) -> bool {
    forall|i: int, j: int| 0 <= i < j < s.len() ==> #[trigger] s[i].id != #[trigger] s[j].id
}

/// Some script of `s` has the given id.
pub open spec fn has_id(s: Seq<Script>, id: u128) -> bool {
    exists|i: int| 0 <= i < s.len() && s[i].id == id
}

/// `i` is the index of the first script of `s` with the given id.
pub open spec fn is_first_with_id(s: Seq<Script>, id: u128, i: int) -> bool {
    0 <= i < s.len() && s[i].id == id && forall|j: int| 0 <= j < i ==> s[j].id != id
}

/// The index of the first script of `s` with the given id (meaningful when
/// there is one).
pub open spec fn first_with_id(s: Seq<Script>, id: u128) -> int {
    choose|i: int| is_first_with_id(s, id, i)
}

/// `s` without its first script with the given id.
pub open spec fn without_id(s: Seq<Script>, id: u128) -> Seq<Script> {
    if has_id(s, id) {
        s.remove(first_with_id(s, id))
    } else {
        s
    }
}

/// Script `x` is evaluated (enabled and marked running) and its trigger
/// fires.
pub open spec fn selected(
    x: Script,
    running: Map<u128, bool>,
    regs: Map<Seq<char>, u16>,
    last: Map<Seq<char>, u16>,
) -> bool {
    &&& x.enabled
    &&& running.contains_key(x.id) && running[x.id]
    &&& fires(x.trigger, regs, last)
}

/// The ids of the scripts of `s` that are selected, in order.
pub open spec fn triggered_ids(
    s: Seq<Script>,
    running: Map<u128, bool>,
    regs: Map<Seq<char>, u16>,
    last: Map<Seq<char>, u16>,
) -> Seq<u128>
    decreases s.len(),
{
    if s.len() == 0 {
        Seq::empty()
    } else {
        let prev = triggered_ids(s.drop_last(), running, regs, last);
        if selected(s.last(), running, regs, last) {
            prev.push(s.last().id)
        } else {
            prev
        }
    }
}

/// `results` report, one by one and all successful, the execution of
/// `actions`.
pub open spec fn reports(results: Seq<ActionResult>, actions: Seq<Action>) -> bool {
    &&& results.len() == actions.len()
    &&& forall|i: int|
        0 <= i < results.len() ==> {
            &&& (#[trigger] results[i]).action_type@ == action_type_name(actions[i])
            &&& results[i].success
            &&& results[i].message@ == action_message(actions[i])
        }
}

/// `after` records one more run than `before`, at some time.
pub open spec fn recorded_run(before: ScriptStatus, after: ScriptStatus) -> bool {
    &&& after.running == before.running
    &&& after.last_triggered.is_some()
    &&& after.trigger_count == before.trigger_count + 1
}

/// `after` is `before` with one more run recorded for each id in `ran` that
/// has a status.
pub open spec fn runs_recorded(
    before: Map<u128, ScriptStatus>,
    after: Map<u128, ScriptStatus>,
    ran: Set<u128>,
) -> bool {
    &&& after.dom() == before.dom()
    &&& forall|k: u128| #[trigger]
        after.contains_key(k) ==> if ran.contains(k) {
            recorded_run(before[k], after[k])
        } else {
            after[k] == before[k]
        }
}

/// Scripts in the order they were added, no two with the same id.
struct ScriptList {
    items: Vec<Script>,
}

impl ScriptList {
    #[verifier::type_invariant]
    spec fn ids_distinct(&self) -> bool {
        distinct_ids(self.items@)
    }

    fn new() -> (r: Self)
        ensures
            r.items@ == Seq::<Script>::empty(),
    {
        ScriptList { items: Vec::new() }
    }

    /// The index of the first script with the given id.
    fn position(&self, id: u128) -> (r: Option<usize>)
        ensures
            r matches Some(i) ==> is_first_with_id(self.items@, id, i as int) && i == first_with_id(
                self.items@,
                id,
            ),
            r is None ==> !has_id(self.items@, id),
    {
        let mut i: usize = 0;
        while i < self.items.len()
            invariant
                i <= self.items@.len(),
                forall|j: int| 0 <= j < i ==> self.items@[j].id != id,
            decreases self.items@.len() - i,
        {
            if self.items[i].id == id {
                proof {
                    lemma_first_with_id_unique(self.items@, id, i as int);
                }
                return Some(i);
            }
            i = i + 1;
        }
        None
    }

    /// Put a script at the end, removing the one with the same id.
    fn put(&mut self, script: Script)
        ensures
            final(self).items@ == without_id(old(self).items@, script.id).push(script),
    {
        proof {
            use_type_invariant(&*self);
        }
        let id = script.id;
        let ghost before = self.items@;
        let found = self.position(id);
        let mut items: Vec<Script> = Vec::new();
        std::mem::swap(&mut items, &mut self.items);
        match found {
            Some(i) => {
                items.remove(i);
            },
            None => {},
        }
        let ghost kept = items@;
        items.push(script);
        proof {
            assert(kept == without_id(before, id));
            assert forall|a: int, b: int| 0 <= a < b < items@.len() implies #[trigger] items@[a].id
                != #[trigger] items@[b].id by {
                match found {
                    Some(i) => {
                        let a0 = if a < i { a } else { a + 1 };
                        assert(kept[a] == before[a0]);
                        if b == kept.len() {
                            assert(before[i as int].id == id);
                        } else {
                            let b0 = if b < i { b } else { b + 1 };
                            assert(kept[b] == before[b0]);
                        }
                    },
                    None => {
                        if b == kept.len() {
                            assert(kept[a] == before[a]);
                        }
                    },
                }
            }
        }
        self.items = items;
    }

    /// Remove and return the script with the given id.
    fn take(&mut self, id: u128) -> (r: Option<Script>)
        ensures
            r is Some == has_id(old(self).items@, id),
            r matches Some(x) ==> x == old(self).items@[first_with_id(old(self).items@, id)],
            final(self).items@ == without_id(old(self).items@, id),
    {
        proof {
            use_type_invariant(&*self);
        }
        let ghost before = self.items@;
        match self.position(id) {
            Some(i) => {
                let mut items: Vec<Script> = Vec::new();
                std::mem::swap(&mut items, &mut self.items);
                let removed = items.remove(i);
                proof {
                    assert forall|a: int, b: int| 0 <= a < b < items@.len() implies #[trigger] items@[a].id
                        != #[trigger] items@[b].id by {
                        let a0 = if a < i { a } else { a + 1 };
                        let b0 = if b < i { b } else { b + 1 };
                        assert(items@[a] == before[a0]);
                        assert(items@[b] == before[b0]);
                    }
                }
                self.items = items;
                Some(removed)
            },
            None => None,
        }
    }
}

/// The first script with a given id is unique.
proof fn lemma_first_with_id_unique(s: Seq<Script>, id: u128, i: int)
    requires
        is_first_with_id(s, id, i),
    ensures
        first_with_id(s, id) == i,
        has_id(s, id),
{
    let k = first_with_id(s, id);
    assert(is_first_with_id(s, id, k));
    if k < i {
        assert(s[k].id != id);
    }
    if i < k {
        assert(s[i].id != id);
    }
}

/// Manages the scripts, their running state and status, and evaluates
/// triggers on each polling cycle.
pub struct ScriptEngine {
    /// All loaded scripts
    scripts: ScriptList,
    /// Script execution status by script id
    statuses: HashMap<u128, ScriptStatus>,
    /// Running flag by script id
    running_scripts: HashMap<u128, bool>,
    /// Last polled values for change detection (register -> value)
    pub last_values: RegisterMap,
}

impl ScriptEngine {
    /// The loaded scripts, in the order they were added.
    pub closed spec fn scripts_seq(&self) -> Seq<Script> {
        self.scripts.items@
    }

    /// Execution status by script id.
    pub closed spec fn statuses_map(&self) -> Map<u128, ScriptStatus> {
        self.statuses@
    }

    /// Running flag by script id.
    pub closed spec fn running_map(&self) -> Map<u128, bool> {
        self.running_scripts@
    }

    /// The register values remembered from the previous polls.
    pub closed spec fn last_values_map(&self) -> Map<Seq<char>, u16> {
        self.last_values.view()
    }

    /// An engine without scripts or state.
    pub fn new() -> (r: Self)
        ensures
            r.scripts_seq() == Seq::<Script>::empty(),
            r.statuses_map() == Map::<u128, ScriptStatus>::empty(),
            r.running_map() == Map::<u128, bool>::empty(),
            r.last_values_map() == Map::<Seq<char>, u16>::empty(),
            distinct_ids(r.scripts_seq()),
    {
        Self {
            scripts: ScriptList::new(),
            statuses: HashMap::new(),
            running_scripts: HashMap::new(),
            last_values: RegisterMap::new(),
        }
    }

    // ========== Script management ==========

    /// Add a script, replacing the one with the same id; a status is created
    /// for it unless it has one.
    pub fn add_script(&mut self, script: Script)
        ensures
            final(self).scripts_seq() == without_id(old(self).scripts_seq(), script.id).push(script),
            final(self).statuses_map() == (if old(self).statuses_map().contains_key(script.id) {
                old(self).statuses_map()
            } else {
                old(self).statuses_map().insert(script.id, fresh_status())
            }),
            final(self).running_map() == old(self).running_map(),
            final(self).last_values_map() == old(self).last_values_map(),
            distinct_ids(final(self).scripts_seq()),
    {
        let id = script.id;
        if !self.statuses.contains_key(&id) {
            self.statuses.insert(id, ScriptStatus::new());
        }
        self.scripts.put(script);
        proof {
            use_type_invariant(&self.scripts);
        }
    }

    /// The script with the given id.
    pub fn get_script(&self, id: &u128) -> (r: Option<&Script>)
        ensures
            r is Some == has_id(self.scripts_seq(), *id),
            r matches Some(x) ==> *x == self.scripts_seq()[first_with_id(self.scripts_seq(), *id)],
    {
        match self.scripts.position(*id) {
            Some(i) => Some(&self.scripts.items[i]),
            None => None,
        }
    }

    /// All scripts, in the order they were added.
    pub fn get_all_scripts(&self) -> (r: &Vec<Script>)
        ensures
            r@ == self.scripts_seq(),
    {
        &self.scripts.items
    }

    /// Remove a script, with its status and running flag; returns it.
    pub fn remove_script(&mut self, id: &u128) -> (r: Option<Script>)
        ensures
            r is Some == has_id(old(self).scripts_seq(), *id),
            r matches Some(x) ==> x == old(self).scripts_seq()[first_with_id(
                old(self).scripts_seq(),
                *id,
            )],
            final(self).scripts_seq() == without_id(old(self).scripts_seq(), *id),
            final(self).statuses_map() == old(self).statuses_map().remove(*id),
            final(self).running_map() == old(self).running_map().remove(*id),
            final(self).last_values_map() == old(self).last_values_map(),
            distinct_ids(final(self).scripts_seq()),
    {
        self.statuses.remove(id);
        self.running_scripts.remove(id);
        let r = self.scripts.take(*id);
        proof {
            use_type_invariant(&self.scripts);
        }
        r
    }

    // ========== Status management ==========

    /// The status of a script.
    pub fn get_status(&self, id: &u128) -> (r: Option<&ScriptStatus>)
        ensures
            r is Some == self.statuses_map().contains_key(*id),
            r matches Some(s) ==> *s == self.statuses_map()[*id],
    {
        self.statuses.get(id)
    }

    /// Mutable access to the status of a script.
    pub fn get_status_mut(&mut self, id: &u128) -> (r: Option<&mut ScriptStatus>)
        ensures
            r is Some == old(self).statuses_map().contains_key(*id),
            r matches Some(s) ==> *s == old(self).statuses_map()[*id] && final(self).statuses_map()
                == old(self).statuses_map().insert(*id, *final(s)),
            r is None ==> final(self).statuses_map() == old(self).statuses_map(),
            final(self).scripts_seq() == old(self).scripts_seq(),
            final(self).running_map() == old(self).running_map(),
            final(self).last_values_map() == old(self).last_values_map(),
    {
        hash_map_get_mut(&mut self.statuses, id)
    }

    /// All statuses by script id.
    pub fn get_all_statuses(&self) -> (r: &HashMap<u128, ScriptStatus>)
        ensures
            r@ == self.statuses_map(),
    {
        &self.statuses
    }

    // ========== Running scripts ==========

    fn set_running(&mut self, id: &u128, running: bool)
        ensures
            final(self).running_map() == old(self).running_map().insert(*id, running),
            final(self).statuses_map() == (if old(self).statuses_map().contains_key(*id) {
                old(self).statuses_map().insert(
                    *id,
                    ScriptStatus { running, ..old(self).statuses_map()[*id] },
                )
            } else {
                old(self).statuses_map()
            }),
            final(self).scripts_seq() == old(self).scripts_seq(),
            final(self).last_values_map() == old(self).last_values_map(),
    {
        self.running_scripts.insert(*id, running);
        match hash_map_get_mut(&mut self.statuses, id) {
            Some(status) => {
                status.running = running;
            },
            None => {},
        }
    }

    /// Mark a script as running.
    pub fn start_script(&mut self, id: &u128)
        ensures
            final(self).running_map() == old(self).running_map().insert(*id, true),
            final(self).statuses_map() == (if old(self).statuses_map().contains_key(*id) {
                old(self).statuses_map().insert(
                    *id,
                    ScriptStatus { running: true, ..old(self).statuses_map()[*id] },
                )
            } else {
                old(self).statuses_map()
            }),
            final(self).scripts_seq() == old(self).scripts_seq(),
            final(self).last_values_map() == old(self).last_values_map(),
    {
        self.set_running(id, true);
    }

    /// Mark a script as stopped.
    pub fn stop_script(&mut self, id: &u128)
        ensures
            final(self).running_map() == old(self).running_map().insert(*id, false),
            final(self).statuses_map() == (if old(self).statuses_map().contains_key(*id) {
                old(self).statuses_map().insert(
                    *id,
                    ScriptStatus { running: false, ..old(self).statuses_map()[*id] },
                )
            } else {
                old(self).statuses_map()
            }),
            final(self).scripts_seq() == old(self).scripts_seq(),
            final(self).last_values_map() == old(self).last_values_map(),
    {
        self.set_running(id, false);
    }

    /// Whether a script is marked running.
    pub fn is_running(&self, id: &u128) -> (r: bool)
        ensures
            r == (self.running_map().contains_key(*id) && self.running_map()[*id]),
    {
        match self.running_scripts.get(id) {
            Some(flag) => *flag,
            None => false,
        }
    }
    // ========== Trigger checking ==========

    /// Whether `trigger` fires on the current `registers`, given the values
    /// remembered from the previous polls.
    pub fn check_trigger(&self, trigger: &Trigger, registers: &RegisterMap) -> (r: bool)
        ensures
            r == fires(*trigger, registers.view(), self.last_values_map()),
        decreases trigger,
    {
        match trigger {
            Trigger::Compare { register, operator, value } => match registers.get(register) {
                Some(reg_value) => operator.evaluate(reg_value, value),
                None => false,
            },
            Trigger::Changed { register } => match (
                registers.get(register),
                self.last_values.get(register),
            ) {
                (Some(current), Some(last)) => current != last,
                _ => registers.contains_key(register),
            },
            Trigger::BecameOn { register } => {
                let last_val: u16 = match self.last_values.get(register) {
                    Some(v) => v,
                    None => 0,
                };
                let current_val: u16 = match registers.get(register) {
                    Some(v) => v,
                    None => 0,
                };
                last_val == 0 && current_val != 0
            },
            Trigger::BecameOff { register } => {
                let last_val: u16 = match self.last_values.get(register) {
                    Some(v) => v,
                    None => 0,
                };
                let current_val: u16 = match registers.get(register) {
                    Some(v) => v,
                    None => 0,
                };
                last_val != 0 && current_val == 0
            },
            Trigger::Stable { .. } => false,
            Trigger::And { triggers } => {
                let mut i: usize = 0;
                while i < triggers.len()
                    invariant
                        *trigger == (Trigger::And { triggers: *triggers }),
                        i <= triggers@.len(),
                        forall|j: int|
                            0 <= j < i ==> #[trigger] fires(
                                triggers@[j],
                                registers.view(),
                                self.last_values_map(),
                            ),
                    decreases triggers@.len() - i,
                {
                    proof {
                        let sub = trigger->triggers;
                        assert(decreases_to!(*trigger => trigger->triggers));
                        assert(decreases_to!(sub => sub@));
                        assert(decreases_to!(sub@ => sub@[i as int]));
                    }
                    if !self.check_trigger(&triggers[i], registers) {
                        proof {
                            lemma_all_fire(triggers@, registers.view(), self.last_values_map());
                        }
                        return false;
                    }
                    i = i + 1;
                }
                proof {
                    lemma_all_fire(triggers@, registers.view(), self.last_values_map());
                }
                true
            },
        }
    }
    // ========== Action execution ==========

    /// Execute one action: reports what was done. The writes, notifications
    /// and sounds themselves are left to the caller.
    pub fn execute_action(&self, action: &Action, ctx: &ScriptContext) -> (r: ActionResult)
        ensures
            r.action_type@ == action_type_name(*action),
            r.success,
            r.message@ == action_message(*action),
    {
        match action {
            Action::WriteValue { register, value } => {
                let mut m = String::new();
                push_str(&mut m, "Wrote ");
                push_decimal(&mut m, *value as u64);
                push_str(&mut m, " to ");
                push_str(&mut m, register.as_str());
                assert(m@ =~= action_message(*action));
                ActionResult::ok("write_value", m.as_str())
            },
            Action::WriteOn { register } => {
                let mut m = String::new();
                push_str(&mut m, "Wrote ON to ");
                push_str(&mut m, register.as_str());
                assert(m@ =~= action_message(*action));
                ActionResult::ok("write_on", m.as_str())
            },
            Action::WriteOff { register } => {
                let mut m = String::new();
                push_str(&mut m, "Wrote OFF to ");
                push_str(&mut m, register.as_str());
                assert(m@ =~= action_message(*action));
                ActionResult::ok("write_off", m.as_str())
            },
            Action::Toggle { register } => {
                let mut m = String::new();
                push_str(&mut m, "Toggled ");
                push_str(&mut m, register.as_str());
                assert(m@ =~= action_message(*action));
                ActionResult::ok("toggle", m.as_str())
            },
            Action::ShowNotification { message } => ActionResult::ok(
                "notification",
                message.as_str(),
            ),
            Action::PlaySound { sound } => {
                let mut m = String::new();
                push_str(&mut m, "Playing sound: ");
                push_str(&mut m, sound.as_str());
                assert(m@ =~= action_message(*action));
                ActionResult::ok("play_sound", m.as_str())
            },
            Action::Log { message } => ActionResult::ok("log", message.as_str()),
            Action::RunScript { script_id } => {
                let mut m = String::new();
                push_str(&mut m, "Started script: ");
                push_str(&mut m, script_id.as_str());
                assert(m@ =~= action_message(*action));
                ActionResult::ok("run_script", m.as_str())
            },
            Action::StopScript { script_id } => {
                let mut m = String::new();
                push_str(&mut m, "Stopped script: ");
                push_str(&mut m, script_id.as_str());
                assert(m@ =~= action_message(*action));
                ActionResult::ok("stop_script", m.as_str())
            },
            Action::Delay { ms } => {
                let mut m = String::new();
                push_str(&mut m, "Delayed ");
                push_decimal(&mut m, *ms);
                push_str(&mut m, "ms");
                assert(m@ =~= action_message(*action));
                ActionResult::ok("delay", m.as_str())
            },
        }
    }

    /// Execute the actions in order; one result for each.
    pub fn execute_actions(&self, actions: &[Action], ctx: &ScriptContext) -> (r: Vec<ActionResult>)
        ensures
            reports(r@, actions@),
    {
        let mut results: Vec<ActionResult> = Vec::new();
        let mut i: usize = 0;
        while i < actions.len()
            invariant
                i <= actions@.len(),
                reports(results@, actions@.take(i as int)),
            decreases actions@.len() - i,
        {
            let result = self.execute_action(&actions[i], ctx);
            results.push(result);
            i = i + 1;
            proof {
                assert forall|j: int| 0 <= j < results@.len() implies actions@.take(i as int)[j]
                    == actions@[j] by {}
            }
        }
        proof {
            assert(actions@.take(actions@.len() as int) =~= actions@);
        }
        results
    }
    // ========== Script execution ==========

    /// Execute a script by id: runs its actions and records the run in its
    /// status.
    pub fn execute_script(&mut self, id: &u128) -> (r: Result<Vec<ActionResult>, String>)
        requires
            has_id(old(self).scripts_seq(), *id) && old(self).statuses_map().contains_key(*id)
                ==> old(self).statuses_map()[*id].trigger_count < u32::MAX,
        ensures
            !has_id(old(self).scripts_seq(), *id) ==> (r matches Err(e) && e@ == "Script not found: "@
                + uuid_text(*id)),
            has_id(old(self).scripts_seq(), *id) ==> (r matches Ok(v) && reports(
                v@,
                old(self).scripts_seq()[first_with_id(old(self).scripts_seq(), *id)].actions@,
            )),
            runs_recorded(
                old(self).statuses_map(),
                final(self).statuses_map(),
                if r is Ok {
                    set![*id]
                } else {
                    Set::<u128>::empty()
                },
            ),
            final(self).scripts_seq() == old(self).scripts_seq(),
            final(self).running_map() == old(self).running_map(),
            final(self).last_values_map() == old(self).last_values_map(),
    {
        let i = match self.scripts.position(*id) {
            Some(i) => i,
            None => {
                let mut e = String::new();
                push_str(&mut e, "Script not found: ");
                let text = uuid_string(*id);
                push_str(&mut e, text.as_str());
                return Err(e);
            },
        };
        let register_values = self.last_values.clone();
        let ctx = ScriptContext::new(*id, register_values);
        let results = self.execute_actions(self.scripts.items[i].actions.as_slice(), &ctx);
        let ghost before = self.statuses@;
        match hash_map_get_mut(&mut self.statuses, id) {
            Some(status) => {
                status.last_triggered = Some(now_millis());
                status.trigger_count = status.trigger_count + 1;
            },
            None => {},
        }
        proof {
            let ran = set![*id];
            assert forall|k: u128| #[trigger] self.statuses@.contains_key(k) implies if ran.contains(k) {
                recorded_run(before[k], self.statuses@[k])
            } else {
                self.statuses@[k] == before[k]
            } by {
                if k == *id {
                    assert(ran.contains(k));
                } else {
                    assert(!ran.contains(k));
                }
            }
            assert(self.statuses@.dom() =~= before.dom());
        }
        Ok(results)
    }

    // ========== Main evaluation loop ==========

    /// Evaluate the running, enabled scripts against the current register
    /// values, called once per polling cycle. Each script whose trigger
    /// fires, judged against the values remembered from the previous polls,
    /// has its actions executed and its run recorded; then the current
    /// values are remembered for change detection. Returns the ids of the
    /// triggered scripts, in script order.
    pub fn evaluate(&mut self, registers: &RegisterMap) -> (r: Vec<u128>)
        requires
            forall|k: u128|
                old(self).statuses_map().contains_key(k) && #[trigger] triggered_ids(
                    old(self).scripts_seq(),
                    old(self).running_map(),
                    registers.view(),
                    old(self).last_values_map(),
                ).contains(k) ==> old(self).statuses_map()[k].trigger_count < u32::MAX,
        ensures
            r@ == triggered_ids(
                old(self).scripts_seq(),
                old(self).running_map(),
                registers.view(),
                old(self).last_values_map(),
            ),
            runs_recorded(old(self).statuses_map(), final(self).statuses_map(), r@.to_set()),
            final(self).last_values_map() == old(self).last_values_map().union_prefer_right(
                registers.view(),
            ),
            final(self).scripts_seq() == old(self).scripts_seq(),
            final(self).running_map() == old(self).running_map(),
    {
        proof {
            use_type_invariant(&self.scripts);
        }
        let ghost new_last = self.last_values.view();
        let ghost orig = self.statuses@;
        let ghost s = self.scripts.items@;
        let ghost running = self.running_scripts@;
        let ghost regs = registers.view();
        proof {
            assert(new_last == old(self).last_values_map());
            assert(s == old(self).scripts_seq());
            assert(running == old(self).running_map());
            assert(orig == old(self).statuses_map());
        }
        let mut triggered: Vec<u128> = Vec::new();
        let mut i: usize = 0;
        proof {
            assert(s.take(0) =~= Seq::<Script>::empty());
        }
        while i < self.scripts.items.len()
            invariant
                i <= s.len(),
                self.scripts.items@ == s,
                distinct_ids(s),
                self.running_scripts@ == running,
                self.last_values.view() == new_last,
                regs == registers.view(),
                triggered@ == triggered_ids(s.take(i as int), running, regs, new_last),
                self.statuses@.dom() == orig.dom(),
                forall|k: u128| #[trigger]
                    self.statuses@.contains_key(k) ==> if triggered@.contains(k) {
                        recorded_run(orig[k], self.statuses@[k])
                    } else {
                        self.statuses@[k] == orig[k]
                    },
                forall|k: u128|
                    orig.contains_key(k) && #[trigger] triggered_ids(s, running, regs, new_last).contains(k)
                        ==> orig[k].trigger_count < u32::MAX,
            decreases s.len() - i,
        {
            let script = &self.scripts.items[i];
            let id = script.id;
            let ghost before = triggered@;
            proof {
                assert(s.take(i + 1).drop_last() =~= s.take(i as int));
                assert(s.take(i + 1).last() == s[i as int]);
                lemma_triggered_ids_members(s.take(i as int), running, regs, new_last);
                lemma_triggered_ids_prefix(s, i + 1, running, regs, new_last);
                if before.contains(id) {
                    let j = choose|j: int| 0 <= j < i && s.take(i as int)[j].id == id;
                    assert(s[j].id == s[i as int].id);
                }
            }
            if script.enabled && self.is_running(&id) && self.check_trigger(&script.trigger, registers) {
                let ctx = ScriptContext::new(id, registers.clone());
                let _results = self.execute_actions(script.actions.as_slice(), &ctx);
                proof {
                    assert(triggered_ids(s.take(i + 1), running, regs, new_last) == before.push(id));
                    assert(before.push(id)[before.len() as int] == id);
                    assert(triggered_ids(s.take(i + 1), running, regs, new_last).contains(id));
                    assert(triggered_ids(s, running, regs, new_last).contains(id));
                    assert(!before.contains(id));
                    if orig.contains_key(id) {
                        assert(self.statuses@[id] == orig[id]);
                    }
                }
                match hash_map_get_mut(&mut self.statuses, &id) {
                    Some(status) => {
                        status.last_triggered = Some(now_millis());
                        status.trigger_count = status.trigger_count + 1;
                    },
                    None => {},
                }
                triggered.push(id);
            }
            proof {
                assert forall|k: u128| #[trigger] self.statuses@.contains_key(k) implies if triggered@.contains(k) {
                    recorded_run(orig[k], self.statuses@[k])
                } else {
                    self.statuses@[k] == orig[k]
                } by {
                    if k != id {
                        if triggered@.contains(k) {
                            let m = choose|m: int| 0 <= m < triggered@.len() && triggered@[m] == k;
                            assert(before[m] == k);
                        } else if before.contains(k) {
                            let m = choose|m: int| 0 <= m < before.len() && before[m] == k;
                            assert(triggered@[m] == k);
                        }
                    }
                }
            }
            i = i + 1;
        }
        proof {
            assert(s.take(s.len() as int) =~= s);
        }
        let n = registers.len();
        let mut j: usize = 0;
        let ghost before_values = self.last_values.view();
        let ghost after_statuses = self.statuses@;
        proof {
            registers.lemma_view_prefix(0);
            assert(before_values.union_prefer_right(Map::empty()) =~= before_values);
        }
        while j < n
            invariant
                j <= n,
                n == registers.entries_view().len(),
                self.scripts.items@ == old(self).scripts.items@,
                self.statuses@ == after_statuses,
                self.running_scripts@ == old(self).running_scripts@,
                self.last_values.view() == before_values.union_prefer_right(
                    crate::registers::map_of(registers.entries_view().take(j as int)),
                ),
            decreases n - j,
        {
            let (name, value) = registers.entry(j);
            self.last_values.insert(name.clone(), value);
            proof {
                let pre = registers.entries_view().take(j as int);
                let post = registers.entries_view().take(j + 1);
                assert(post.drop_last() =~= pre);
                assert(self.last_values.view() =~= before_values.union_prefer_right(
                    crate::registers::map_of(post),
                ));
            }
            j = j + 1;
        }
        proof {
            assert(registers.entries_view().take(n as int) =~= registers.entries_view());
        }
        triggered
    }
}

impl ScriptEngine {
    /// Clear all scripts and state.
    pub fn clear(&mut self)
        ensures
            final(self).scripts_seq() == Seq::<Script>::empty(),
            final(self).statuses_map() == Map::<u128, ScriptStatus>::empty(),
            final(self).running_map() == Map::<u128, bool>::empty(),
            final(self).last_values_map() == Map::<Seq<char>, u16>::empty(),
    {
        self.scripts = ScriptList::new();
        self.statuses.clear();
        self.running_scripts.clear();
        self.last_values = RegisterMap::new();
    }

    /// The number of scripts.
    pub fn script_count(&self) -> (r: usize)
        ensures
            r == self.scripts_seq().len(),
    {
        self.scripts.items.len()
    }

    /// The number of scripts marked running.
    pub fn running_count(&self) -> (r: usize)
        ensures
            r == self.running_map().dom().filter(|k: u128| self.running_map()[k]).len(),
    {
        let ghost m = self.running_scripts@;
        let ghost keys = vstd::std_specs::hash::spec_keys_iter(&self.running_scripts).remaining().unref();
        let ghost mut seen: Set<u128> = Set::empty();
        let mut count: usize = 0;
        let total = self.running_scripts.len();
        for k in it: self.running_scripts.keys()
            invariant
                it.seq().unref() == keys,
                total == keys.len(),
                keys.no_duplicates(),
                keys.to_set() == m.dom(),
                keys.len() == m.dom().len(),
                m == self.running_scripts@,
                seen.finite(),
                seen == Set::new(|x: u128| keys.take(it.index()).contains(x) && m[x]),
                count == seen.len(),
                count <= it.index(),
        {
            let ghost idx = it.index();
            proof {
                assert(keys.take(idx + 1) =~= keys.take(idx).push(*k));
                assert(keys[idx] == *k);
                assert(!keys.take(idx).contains(*k)) by {
                    if keys.take(idx).contains(*k) {
                        let j = choose|j: int| 0 <= j < idx && keys.take(idx)[j] == *k;
                        assert(keys[j] == keys[idx]);
                    }
                }
                assert(m.contains_key(*k)) by {
                    assert(keys.contains(*k));
                    assert(keys.to_set().contains(*k));
                }
            }
            let flag = match self.running_scripts.get(k) {
                Some(v) => *v,
                None => false,
            };
            if flag {
                proof {
                    assert(!seen.contains(*k));
                    seen = seen.insert(*k);
                }
                count = count + 1;
            }
            proof {
                let pre = keys.take(idx);
                let post = keys.take(idx + 1);
                assert forall|x: u128| post.contains(x) <==> pre.contains(x) || x == *k by {
                    if post.contains(x) {
                        let j = choose|j: int| 0 <= j < post.len() && post[j] == x;
                        if j < idx {
                            assert(pre[j] == x);
                        }
                    }
                    if pre.contains(x) {
                        let j = choose|j: int| 0 <= j < pre.len() && pre[j] == x;
                        assert(post[j] == x);
                    }
                    if x == *k {
                        assert(post[idx] == x);
                    }
                }
                assert(seen =~= Set::new(|x: u128| keys.take(idx + 1).contains(x) && m[x]));
            }
        }
        proof {
            assert(keys.take(keys.len() as int) =~= keys);
            assert(seen =~= m.dom().filter(|k: u128| m[k]));
        }
        count
    }
}

impl Default for ScriptEngine {
    fn default() -> (r: Self)
        ensures
            r.scripts_seq() == Seq::<Script>::empty(),
            r.statuses_map() == Map::<u128, ScriptStatus>::empty(),
            r.running_map() == Map::<u128, bool>::empty(),
            r.last_values_map() == Map::<Seq<char>, u16>::empty(),
    {
        Self::new()
    }
}

/// Each id that `triggered_ids` gives is the id of one of the scripts.
proof fn lemma_triggered_ids_members(
    s: Seq<Script>,
    running: Map<u128, bool>,
    regs: Map<Seq<char>, u16>,
    last: Map<Seq<char>, u16>,
)
    ensures
        forall|k: u128| #[trigger]
            triggered_ids(s, running, regs, last).contains(k) ==> exists|j: int|
                0 <= j < s.len() && s[j].id == k,
    decreases s.len(),
{
    if s.len() > 0 {
        let prev = s.drop_last();
        lemma_triggered_ids_members(prev, running, regs, last);
        assert forall|k: u128| #[trigger]
            triggered_ids(s, running, regs, last).contains(k) implies exists|j: int|
                0 <= j < s.len() && s[j].id == k by {
            let t = triggered_ids(s, running, regs, last);
            let m = choose|m: int| 0 <= m < t.len() && t[m] == k;
            let p = triggered_ids(prev, running, regs, last);
            if m < p.len() {
                assert(p[m] == k);
                assert(p.contains(k));
                let j = choose|j: int| 0 <= j < prev.len() && prev[j].id == k;
                assert(s[j].id == k);
            } else {
                assert(s[s.len() - 1].id == k);
            }
        }
    }
}

/// What the scripts up to `k` trigger is also triggered by all of them.
proof fn lemma_triggered_ids_prefix(
    s: Seq<Script>,
    k: int,
    running: Map<u128, bool>,
    regs: Map<Seq<char>, u16>,
    last: Map<Seq<char>, u16>,
)
    requires
        0 <= k <= s.len(),
    ensures
        forall|x: u128| #[trigger]
            triggered_ids(s.take(k), running, regs, last).contains(x) ==> triggered_ids(
                s,
                running,
                regs,
                last,
            ).contains(x),
    decreases s.len(),
{
    if k == s.len() {
        assert(s.take(k) =~= s);
    } else {
        let prev = s.drop_last();
        assert(s.take(k) =~= prev.take(k));
        lemma_triggered_ids_prefix(prev, k, running, regs, last);
        assert forall|x: u128| #[trigger]
            triggered_ids(prev, running, regs, last).contains(x) implies triggered_ids(
                s,
                running,
                regs,
                last,
            ).contains(x) by {
            let p = triggered_ids(prev, running, regs, last);
            let m = choose|m: int| 0 <= m < p.len() && p[m] == x;
            assert(triggered_ids(s, running, regs, last)[m] == x);
        }
    }
}

// ========== Laws ==========

/// On a whole-number threshold the comparisons are the integer ones:
/// `Equal` is `==` and `NotEqual` is `!=`.
pub proof fn lemma_integer_threshold(op: CompareOp, left: u16, n: i64)
    ensures
        op.holds(left as int, Threshold::of_integer(n as int)) == match op {
            CompareOp::Greater => left > n,
            CompareOp::Less => left < n,
            CompareOp::Equal => left == n,
            CompareOp::NotEqual => left != n,
            CompareOp::GreaterOrEq => left >= n,
            CompareOp::LessOrEq => left <= n,
        },
{
}

/// Against a threshold that is a number, each comparison is the negation of
/// its opposite; against NaN every comparison fails.
pub proof fn lemma_compare_complements(left: u16, t: Threshold)
    ensures
        !t.not_a_number ==> {
            &&& CompareOp::NotEqual.holds(left as int, t) == !CompareOp::Equal.holds(left as int, t)
            &&& CompareOp::Greater.holds(left as int, t) == !CompareOp::LessOrEq.holds(left as int, t)
            &&& CompareOp::Less.holds(left as int, t) == !CompareOp::GreaterOrEq.holds(left as int, t)
        },
        t.not_a_number ==> {
            &&& !CompareOp::Greater.holds(left as int, t)
            &&& !CompareOp::Less.holds(left as int, t)
            &&& !CompareOp::Equal.holds(left as int, t)
            &&& !CompareOp::NotEqual.holds(left as int, t)
            &&& !CompareOp::GreaterOrEq.holds(left as int, t)
            &&& !CompareOp::LessOrEq.holds(left as int, t)
        },
{
}

/// Removing a script by id leaves no script with that id, and the ids stay
/// distinct.
pub proof fn lemma_remove_then_absent(scripts: Seq<Script>, id: u128)
    requires
        distinct_ids(scripts),
    ensures
        !has_id(without_id(scripts, id), id),
        distinct_ids(without_id(scripts, id)),
{
    if has_id(scripts, id) {
        let i = choose|i: int| 0 <= i < scripts.len() && scripts[i].id == id;
        assert(is_first_with_id(scripts, id, i));
        lemma_first_with_id_unique(scripts, id, i);
        let rest = scripts.remove(i);
        assert forall|j: int| 0 <= j < rest.len() implies rest[j].id != id by {
            if j < i {
                assert(rest[j] == scripts[j]);
            } else {
                assert(rest[j] == scripts[j + 1]);
            }
        }
        assert forall|a: int, b: int| 0 <= a < b < rest.len() implies #[trigger] rest[a].id
            != #[trigger] rest[b].id by {
            let a0 = if a < i { a } else { a + 1 };
            let b0 = if b < i { b } else { b + 1 };
            assert(rest[a] == scripts[a0]);
            assert(rest[b] == scripts[b0]);
        }
    }
}

/// After a script is added, looking up its id finds exactly that script.
pub proof fn lemma_add_then_get(scripts: Seq<Script>, script: Script)
    requires
        distinct_ids(scripts),
    ensures
        has_id(without_id(scripts, script.id).push(script), script.id),
        ({
            let after = without_id(scripts, script.id).push(script);
            after[first_with_id(after, script.id)] == script
        }),
{
    lemma_remove_then_absent(scripts, script.id);
    let kept = without_id(scripts, script.id);
    let after = kept.push(script);
    let last = after.len() - 1;
    assert forall|j: int| 0 <= j < last implies after[j].id != script.id by {
        assert(after[j] == kept[j]);
    }
    assert(is_first_with_id(after, script.id, last));
    lemma_first_with_id_unique(after, script.id, last);
}

/// Only enabled scripts that are marked running and whose trigger fires are
/// triggered, each of them once.
pub proof fn lemma_triggered_are_selected(
    s: Seq<Script>,
    running: Map<u128, bool>,
    regs: Map<Seq<char>, u16>,
    last: Map<Seq<char>, u16>,
)
    requires
        distinct_ids(s),
    ensures
        forall|k: u128| #[trigger]
            triggered_ids(s, running, regs, last).contains(k) ==> exists|i: int|
                0 <= i < s.len() && s[i].id == k && selected(s[i], running, regs, last),
        triggered_ids(s, running, regs, last).no_duplicates(),
    decreases s.len(),
{
    if s.len() > 0 {
        let prev = s.drop_last();
        assert forall|a: int, b: int| 0 <= a < b < prev.len() implies #[trigger] prev[a].id
            != #[trigger] prev[b].id by {
            assert(prev[a] == s[a] && prev[b] == s[b]);
        }
        lemma_triggered_are_selected(prev, running, regs, last);
        lemma_triggered_ids_members(prev, running, regs, last);
        let p = triggered_ids(prev, running, regs, last);
        let t = triggered_ids(s, running, regs, last);
        assert forall|k: u128| #[trigger] t.contains(k) implies exists|i: int|
            0 <= i < s.len() && s[i].id == k && selected(s[i], running, regs, last) by {
            let m = choose|m: int| 0 <= m < t.len() && t[m] == k;
            if m < p.len() {
                assert(p[m] == k);
                assert(p.contains(k));
                let i = choose|i: int|
                    0 <= i < prev.len() && prev[i].id == k && selected(prev[i], running, regs, last);
                assert(s[i] == prev[i]);
            } else {
                assert(s[s.len() - 1].id == k);
            }
        }
        if selected(s.last(), running, regs, last) {
            let x = s.last().id;
            assert(!p.contains(x)) by {
                if p.contains(x) {
                    let j = choose|j: int| 0 <= j < prev.len() && prev[j].id == x;
                    assert(s[j].id == s[s.len() - 1].id);
                }
            }
            assert forall|a: int, b: int| 0 <= a < b < t.len() implies t[a] != t[b] by {
                if b == p.len() {
                    assert(p.contains(p[a]));
                } else {
                    assert(p[a] != p[b]);
                }
            }
        }
    }
}

/// A started script reads as running and a stopped one as not running,
/// whatever it was before; other scripts keep their flags.
pub proof fn lemma_start_stop_running(running: Map<u128, bool>, id: u128, other: u128)
    requires
        other != id,
    ensures
        running.insert(id, true).contains_key(id) && running.insert(id, true)[id],
        running.insert(id, false).contains_key(id) && !running.insert(id, false)[id],
        running.insert(id, true).contains_key(other) == running.contains_key(other),
        running.contains_key(other) ==> running.insert(id, true)[other] == running[other]
            && running.insert(id, false)[other] == running[other],
{
}

} // verus!
