//! Script execution engine: holds scripts by id with their status, and
//! the register values seen at the previous evaluation.

use std::collections::HashMap;
use vstd::prelude::*;
use vstd::std_specs::iter::IteratorSpec;
use vstd::string::StringExecFns;

use crate::ids::now_millis;
use crate::maps::hash_map_get_mut;
use crate::registers::RegisterMap;
use crate::script::action::{action_description, Action};
use crate::script::script::{Script, ScriptStatus};
use crate::script::trigger::{CompareOp, Trigger};

verus! {

broadcast use vstd::std_specs::hash::group_hash_axioms;

/// Register `name` changed: it is present now and was absent or different
/// before.
pub open spec fn changed(name: Seq<char>, regs: Map<Seq<char>, u16>, last: Map<Seq<char>, u16>) -> bool {
    regs.contains_key(name) && !(last.contains_key(name) && last[name] == regs[name])
}

/// Whether trigger `t` fires on the current register values `regs`, given
/// the values `last` of the previous evaluation.
pub open spec fn fires(t: Trigger, regs: Map<Seq<char>, u16>, last: Map<Seq<char>, u16>) -> bool {
    match t {
        Trigger::Compare { register, operator, value } => regs.contains_key(register@)
            && operator.holds(regs[register@] as int, value as int),
        Trigger::Changed { register } => changed(register@, regs, last),
        Trigger::BecameOn { register } => changed(register@, regs, last) && regs[register@] != 0,
        Trigger::BecameOff { register } => changed(register@, regs, last) && regs[register@] == 0,
        Trigger::Stable { register, .. } => regs.contains_key(register@),
    }
}

/// The status a script gets when it is added.
pub open spec fn fresh_status(id: u128) -> ScriptStatus {
    ScriptStatus { script_id: id, running: false, last_triggered: None, last_error: None }
}

/// Script execution engine.
pub struct ScriptEngine {
    scripts: HashMap<u128, Script>,
    statuses: HashMap<u128, ScriptStatus>,
    last_values: RegisterMap,
}

impl ScriptEngine {
    /// The scripts by id.
    pub closed spec fn scripts_map(&self) -> Map<u128, Script> {
        self.scripts@
    }

    /// The execution status of each script by id.
    pub closed spec fn statuses_map(&self) -> Map<u128, ScriptStatus> {
        self.statuses@
    }

    /// The register values seen at the previous evaluations.
    pub closed spec fn last_values_map(&self) -> Map<Seq<char>, u16> {
        self.last_values.view()
    }

    /// An engine without scripts or remembered values.
    pub fn new() -> (r: Self)
        ensures
            r.scripts_map() == Map::<u128, Script>::empty(),
            r.statuses_map() == Map::<u128, ScriptStatus>::empty(),
            r.last_values_map() == Map::<Seq<char>, u16>::empty(),
    {
        Self { scripts: HashMap::new(), statuses: HashMap::new(), last_values: RegisterMap::new() }
    }

    /// Add a script under its id (replacing one with the same id) with a
    /// fresh status.
    pub fn add_script(&mut self, script: Script)
        ensures
            final(self).scripts_map() == old(self).scripts_map().insert(script.id, script),
            final(self).statuses_map() == old(self).statuses_map().insert(script.id, fresh_status(script.id)),
            final(self).last_values_map() == old(self).last_values_map(),
    {
        let id = script.id;
        self.scripts.insert(id, script);
        self.statuses.insert(id, ScriptStatus::new(id));
    }

    /// Remove a script and its status; returns the script.
    pub fn remove_script(&mut self, id: &u128) -> (r: Option<Script>)
        ensures
            r == old(self).scripts_map().get(*id),
            final(self).scripts_map() == old(self).scripts_map().remove(*id),
            final(self).statuses_map() == old(self).statuses_map().remove(*id),
            final(self).last_values_map() == old(self).last_values_map(),
    {
        self.statuses.remove(id);
        self.scripts.remove(id)
    }

    /// The script with the given id.
    pub fn get_script(&self, id: &u128) -> (r: Option<&Script>)
        ensures
            r.is_some() == self.scripts_map().contains_key(*id),
            r matches Some(s) ==> *s == self.scripts_map()[*id],
    {
        self.scripts.get(id)
    }

    /// Mutable access to the script with the given id.
    pub fn get_script_mut(&mut self, id: &u128) -> (r: Option<&mut Script>)
        ensures
            r.is_some() == old(self).scripts_map().contains_key(*id),
            r matches Some(s) ==> *s == old(self).scripts_map()[*id] && final(self).scripts_map()
                == old(self).scripts_map().insert(*id, *final(s)),
            r is None ==> final(self).scripts_map() == old(self).scripts_map(),
            final(self).statuses_map() == old(self).statuses_map(),
            final(self).last_values_map() == old(self).last_values_map(),
    {
        hash_map_get_mut(&mut self.scripts, id)
    }

    /// All scripts, in no particular order.
    pub fn get_all_scripts(&self) -> (r: Vec<&Script>)
        ensures
            r@.len() == self.scripts_map().dom().len(),
            r@.unref().to_set() == self.scripts_map().values(),
    {
        let ghost all = vstd::std_specs::hash::spec_values_iter(&self.scripts).remaining();
        let mut r: Vec<&Script> = Vec::new();
        for s in it: self.scripts.values()
            invariant
                it.seq() == all,
                r@ == all.take(it.index()),
        {
            r.push(s);
            assert(r@ =~= all.take(it.index() + 1));
        }
        assert(r@ =~= all);
        r
    }

    /// The status of the script with the given id.
    pub fn get_status(&self, id: &u128) -> (r: Option<&ScriptStatus>)
        ensures
            r.is_some() == self.statuses_map().contains_key(*id),
            r matches Some(s) ==> *s == self.statuses_map()[*id],
    {
        self.statuses.get(id)
    }

    /// Evaluate all enabled scripts against the current register values,
    /// marking each triggered script's status; then remember the values for
    /// change detection. Returns the ids of the triggered scripts, in no
    /// particular order.
    pub fn evaluate(&mut self, registers: &RegisterMap) -> (r: Vec<u128>)
        ensures
            r@.no_duplicates(),
            forall|id: u128|
                #[trigger] r@.contains(id) <==> (old(self).scripts_map().contains_key(id)
                    && old(self).scripts_map()[id].enabled && fires(
                    old(self).scripts_map()[id].trigger,
                    registers.view(),
                    old(self).last_values_map(),
                )),
            final(self).scripts_map() == old(self).scripts_map(),
            final(self).statuses_map().dom() == old(self).statuses_map().dom(),
            forall|id: u128| #[trigger]
                final(self).statuses_map().contains_key(id) ==> if r@.contains(id) {
                    &&& final(self).statuses_map()[id].last_triggered.is_some()
                    &&& final(self).statuses_map()[id].last_error.is_none()
                    &&& final(self).statuses_map()[id].script_id == old(self).statuses_map()[id].script_id
                    &&& final(self).statuses_map()[id].running == old(self).statuses_map()[id].running
                } else {
                    final(self).statuses_map()[id] == old(self).statuses_map()[id]
                },
            final(self).last_values_map() == old(self).last_values_map().union_prefer_right(
                registers.view(),
            ),
    {
        let ghost orig_statuses = self.statuses@;
        let ghost all = vstd::std_specs::hash::spec_keys_iter(&self.scripts).remaining();
        let mut ids: Vec<u128> = Vec::new();
        for k in it: self.scripts.keys()
            invariant
                it.seq() == all,
                ids@ == all.take(it.index()).unref(),
        {
            ids.push(*k);
            assert(ids@ =~= all.take(it.index() + 1).unref());
        }
        proof {
            assert(ids@ =~= all.unref());
        }
        let mut triggered: Vec<u128> = Vec::new();
        let mut i: usize = 0;
        while i < ids.len()
            invariant
                i <= ids@.len(),
                ids@.no_duplicates(),
                ids@.to_set() == self.scripts@.dom(),
                self.scripts@ == old(self).scripts@,
                self.last_values.view() == old(self).last_values.view(),
                self.statuses@.dom() == orig_statuses.dom(),
                orig_statuses == old(self).statuses@,
                triggered@.no_duplicates(),
                forall|id: u128|
                    #[trigger] triggered@.contains(id) <==> (ids@.take(i as int).contains(id)
                        && self.scripts@[id].enabled && fires(
                        self.scripts@[id].trigger,
                        registers.view(),
                        self.last_values.view(),
                    )),
                forall|id: u128| #[trigger]
                    self.statuses@.contains_key(id) ==> if triggered@.contains(id) {
                        &&& self.statuses@[id].last_triggered.is_some()
                        &&& self.statuses@[id].last_error.is_none()
                        &&& self.statuses@[id].script_id == orig_statuses[id].script_id
                        &&& self.statuses@[id].running == orig_statuses[id].running
                    } else {
                        self.statuses@[id] == orig_statuses[id]
                    },
            decreases ids@.len() - i,
        {
            let id = ids[i];
            proof {
                assert(ids@.to_set().contains(id));
                assert(!ids@.take(i as int).contains(id)) by {
                    if ids@.take(i as int).contains(id) {
                        let j = choose|j: int| 0 <= j < i && ids@.take(i as int)[j] == id;
                        assert(ids@[j] == ids@[i as int]);
                    }
                }
                assert(ids@.take(i + 1) =~= ids@.take(i as int).push(id));
            }
            let ghost tr_before = triggered@;
            let ghost st_before = self.statuses@;
            let fire = match self.scripts.get(&id) {
                Some(script) => script.enabled && self.check_trigger(&script.trigger, registers),
                None => false,
            };
            if fire {
                match hash_map_get_mut(&mut self.statuses, &id) {
                    Some(status) => status.mark_triggered(),
                    None => {},
                }
                triggered.push(id);
                proof {
                    assert(triggered@ == tr_before.push(id));
                    assert forall|a: int, b: int| 0 <= a < b < triggered@.len() implies triggered@[a]
                        != triggered@[b] by {
                        if b == tr_before.len() {
                            assert(tr_before.contains(tr_before[a]));
                        } else {
                            assert(tr_before[a] != tr_before[b]);
                        }
                    }
                }
            }
            proof {
                let post = ids@.take(i + 1);
                let pre = ids@.take(i as int);
                assert forall|x: u128| #[trigger] triggered@.contains(x) <==> (ids@.take(i + 1).contains(x)
                    && self.scripts@[x].enabled && fires(
                    self.scripts@[x].trigger,
                    registers.view(),
                    self.last_values.view(),
                )) by {
                    if x == id {
                        if fire {
                            assert(triggered@[tr_before.len() as int] == x);
                        }
                        assert(ids@.take(i + 1)[i as int] == x);
                    } else {
                        if triggered@.contains(x) {
                            let k = choose|k: int| 0 <= k < triggered@.len() && triggered@[k] == x;
                            assert(tr_before[k] == x);
                            assert(tr_before.contains(x));
                            let m = choose|m: int| 0 <= m < pre.len() && pre[m] == x;
                            assert(post[m] == x);
                        }
                        if post.contains(x) {
                            let m = choose|m: int| 0 <= m < post.len() && post[m] == x;
                            assert(pre[m] == x);
                            assert(pre.contains(x));
                        }
                        if tr_before.contains(x) {
                            let k = choose|k: int| 0 <= k < tr_before.len() && tr_before[k] == x;
                            assert(triggered@[k] == x);
                        }
                    }
                }
                assert forall|x: u128| #[trigger] self.statuses@.contains_key(x) implies if triggered@.contains(x) {
                    &&& self.statuses@[x].last_triggered.is_some()
                    &&& self.statuses@[x].last_error.is_none()
                    &&& self.statuses@[x].script_id == orig_statuses[x].script_id
                    &&& self.statuses@[x].running == orig_statuses[x].running
                } else {
                    self.statuses@[x] == orig_statuses[x]
                } by {
                    if x != id {
                        assert(self.statuses@[x] == st_before[x]);
                        if triggered@.contains(x) {
                            let k = choose|k: int| 0 <= k < triggered@.len() && triggered@[k] == x;
                            assert(tr_before[k] == x);
                            assert(tr_before.contains(x));
                        } else if tr_before.contains(x) {
                            let k = choose|k: int| 0 <= k < tr_before.len() && tr_before[k] == x;
                            assert(triggered@[k] == x);
                        }
                    } else {
                        assert(!tr_before.contains(x));
                        assert(st_before[x] == orig_statuses[x]);
                        if fire {
                            assert(triggered@[tr_before.len() as int] == x);
                        }
                    }
                }
            }
            i = i + 1;
        }
        proof {
            assert(ids@.take(ids@.len() as int) =~= ids@);
            assert forall|id: u128| #[trigger] triggered@.contains(id) <==> (old(self).scripts_map().contains_key(id)
                && old(self).scripts_map()[id].enabled && fires(
                old(self).scripts_map()[id].trigger,
                registers.view(),
                old(self).last_values_map(),
            )) by {
                if old(self).scripts_map().contains_key(id) {
                    assert(ids@.to_set().contains(id));
                }
            }
        }
        let n = registers.len();
        let mut j: usize = 0;
        let ghost before_values = self.last_values.view();
        let ghost after_statuses = self.statuses@;
        proof {
            registers.lemma_view_prefix(0);
            assert(before_values.union_prefer_right(Map::empty()) =~= before_values);
        }
        while j < n
            invariant
                j <= n,
                n == registers.entries_view().len(),
                self.scripts@ == old(self).scripts@,
                self.statuses@ == after_statuses,
                self.last_values.view() == before_values.union_prefer_right(
                    crate::registers::map_of(registers.entries_view().take(j as int)),
                ),
            decreases n - j,
        {
            let (name, value) = registers.entry(j);
            self.last_values.insert(name.clone(), value);
            proof {
                let pre = registers.entries_view().take(j as int);
                let post = registers.entries_view().take(j + 1);
                assert(post.drop_last() =~= pre);
                assert(self.last_values.view() =~= before_values.union_prefer_right(
                    crate::registers::map_of(post),
                ));
            }
            j = j + 1;
        }
        proof {
            assert(registers.entries_view().take(n as int) =~= registers.entries_view());
        }
        triggered
    }

    /// Whether `trigger` fires on `registers` given the remembered values.
    pub fn check_trigger(&self, trigger: &Trigger, registers: &RegisterMap) -> (r: bool)
        ensures
            r == fires(*trigger, registers.view(), self.last_values_map()),
    {
        match trigger {
            Trigger::Compare { register, operator, value } => {
                self.check_compare(register, *operator, *value, registers)
            },
            Trigger::Changed { register } => self.check_changed(register, registers),
            Trigger::BecameOn { register } => self.check_became(register, true, registers),
            Trigger::BecameOff { register } => self.check_became(register, false, registers),
            Trigger::Stable { register, .. } => registers.contains_key(register),
        }
    }

    fn check_compare(&self, register: &String, operator: CompareOp, expected: i64, registers: &RegisterMap) -> (r: bool)
        ensures
            r == (registers.view().contains_key(register@) && operator.holds(
                registers.view()[register@] as int,
                expected as int,
            )),
    {
        match registers.get(register) {
            Some(value) => operator.evaluate(value as i64, expected),
            None => false,
        }
    }

    fn check_changed(&self, register: &String, registers: &RegisterMap) -> (r: bool)
        ensures
            r == changed(register@, registers.view(), self.last_values_map()),
    {
        match registers.get(register) {
            Some(current) => match self.last_values.get(register) {
                Some(last) => last != current,
                None => true,
            },
            None => false,
        }
    }

    fn check_became(&self, register: &String, became_on: bool, registers: &RegisterMap) -> (r: bool)
        ensures
            r == (changed(register@, registers.view(), self.last_values_map()) && (if became_on {
                registers.view()[register@] != 0
            } else {
                registers.view()[register@] == 0
            })),
    {
        match registers.get(register) {
            Some(current) => {
                let became_state = if became_on {
                    current != 0
                } else {
                    current == 0
                };
                let unchanged = match self.last_values.get(register) {
                    Some(last) => last == current,
                    None => false,
                };
                became_state && !unchanged
            },
            None => false,
        }
    }

    /// Execute the actions of a script: returns their descriptions in order,
    /// and records the run in the script's status.
    pub fn execute_script(&mut self, id: &u128) -> (r: Result<Vec<String>, String>)
        ensures
            !old(self).scripts_map().contains_key(*id) ==> (r matches Err(m) && m@
                == "Script not found"@),
            old(self).scripts_map().contains_key(*id) && !old(self).scripts_map()[*id].enabled ==> (
            r matches Err(m) && m@ == "Script is disabled"@),
            old(self).scripts_map().contains_key(*id) && old(self).scripts_map()[*id].enabled ==> (
            r matches Ok(v) && v@.len() == old(self).scripts_map()[*id].actions@.len() && forall|
                i: int,
            |
                0 <= i < v@.len() ==> #[trigger] v@[i]@ == action_description(
                    old(self).scripts_map()[*id].actions@[i],
                )),
            final(self).scripts_map() == old(self).scripts_map(),
            final(self).last_values_map() == old(self).last_values_map(),
            final(self).statuses_map().dom() == old(self).statuses_map().dom(),
            forall|k: u128| #[trigger]
                final(self).statuses_map().contains_key(k) ==> if k == *id && r.is_ok() {
                    &&& !final(self).statuses_map()[k].running
                    &&& final(self).statuses_map()[k].last_triggered.is_some()
                    &&& final(self).statuses_map()[k].script_id == old(self).statuses_map()[k].script_id
                    &&& final(self).statuses_map()[k].last_error == old(self).statuses_map()[k].last_error
                } else {
                    final(self).statuses_map()[k] == old(self).statuses_map()[k]
                },
    {
        let script = match self.scripts.get(id) {
            Some(s) => s,
            None => return Err(String::from_str("Script not found")),
        };
        if !script.enabled {
            return Err(String::from_str("Script is disabled"));
        }
        match hash_map_get_mut(&mut self.statuses, id) {
            Some(status) => {
                status.running = true;
            },
            None => {},
        }
        let mut executed: Vec<String> = Vec::new();
        let mut i: usize = 0;
        while i < script.actions.len()
            invariant
                i <= script.actions@.len(),
                executed@.len() == i,
                forall|j: int| 0 <= j < i ==> #[trigger] executed@[j]@ == action_description(
                    script.actions@[j],
                ),
            decreases script.actions@.len() - i,
        {
            let desc = script.actions[i].description();
            executed.push(desc);
            i = i + 1;
        }
        match hash_map_get_mut(&mut self.statuses, id) {
            Some(status) => {
                status.running = false;
                status.last_triggered = Some(now_millis());
            },
            None => {},
        }
        Ok(executed)
    }

    /// The descriptions of a script's actions, in order.
    pub fn get_script_actions(&self, id: &u128) -> (r: Option<Vec<String>>)
        ensures
            r.is_some() == self.scripts_map().contains_key(*id),
            r matches Some(v) ==> v@.len() == self.scripts_map()[*id].actions@.len() && forall|i: int|
                0 <= i < v@.len() ==> #[trigger] v@[i]@ == action_description(
                    self.scripts_map()[*id].actions@[i],
                ),
    {
        match self.scripts.get(id) {
            Some(s) => {
                let mut out: Vec<String> = Vec::new();
                let mut i: usize = 0;
                while i < s.actions.len()
                    invariant
                        i <= s.actions@.len(),
                        out@.len() == i,
                        forall|j: int| 0 <= j < i ==> #[trigger] out@[j]@ == action_description(
                            s.actions@[j],
                        ),
                    decreases s.actions@.len() - i,
                {
                    out.push(s.actions[i].description());
                    i = i + 1;
                }
                Some(out)
            },
            None => None,
        }
    }
}

impl Default for ScriptEngine {
    fn default() -> (r: Self)
        ensures
            r.scripts_map() == Map::<u128, Script>::empty(),
            r.statuses_map() == Map::<u128, ScriptStatus>::empty(),
            r.last_values_map() == Map::<Seq<char>, u16>::empty(),
    {
        Self::new()
    }
}

/// Register triggers fire only on a transition. Changed fires when the
/// register is present and differs from the value remembered at the
/// previous evaluation (or none was remembered), up or down alike;
/// BecameOn and BecameOff fire on such a change that lands on a nonzero
/// value, respectively on 0.
pub proof fn lemma_register_triggers_fire_on_transition(
    register: String,
    regs: Map<Seq<char>, u16>,
    last: Map<Seq<char>, u16>,
)
    ensures
        fires(Trigger::Changed { register }, regs, last) <==> (regs.contains_key(register@) && (
        last.contains_key(register@) ==> last[register@] != regs[register@])),
        fires(Trigger::BecameOn { register }, regs, last) <==> (regs.contains_key(register@)
            && regs[register@] != 0 && (last.contains_key(register@) ==> last[register@]
            != regs[register@])),
        fires(Trigger::BecameOff { register }, regs, last) <==> (regs.contains_key(register@)
            && regs[register@] == 0 && (last.contains_key(register@) ==> last[register@] != 0)),
        regs.contains_key(register@) && last.contains_key(register@) ==> (fires(
            Trigger::Changed { register },
            regs,
            last,
        ) == fires(
            Trigger::Changed { register },
            last.insert(register@, regs[register@]),
            regs.insert(register@, last[register@]),
        )),
{
}

/// Evaluating the same register values twice: the second evaluation sees
/// them remembered, so no Changed, BecameOn or BecameOff trigger on a
/// register among them fires again (a register that stays at 0 triggers
/// BecameOff once, not on every poll).
pub proof fn lemma_repeated_evaluation_no_transition(
    register: String,
    regs: Map<Seq<char>, u16>,
    last: Map<Seq<char>, u16>,
)
    ensures
        !fires(Trigger::Changed { register }, regs, last.union_prefer_right(regs)),
        !fires(Trigger::BecameOn { register }, regs, last.union_prefer_right(regs)),
        !fires(Trigger::BecameOff { register }, regs, last.union_prefer_right(regs)),
{
}

/// Adding a script makes it the one found under its id; removing that id
/// again leaves what removing it before would have left.
pub proof fn lemma_add_then_get_and_remove(scripts: Map<u128, Script>, script: Script)
    ensures
        scripts.insert(script.id, script).contains_key(script.id),
        scripts.insert(script.id, script)[script.id] == script,
        scripts.insert(script.id, script).remove(script.id) == scripts.remove(script.id),
        !scripts.remove(script.id).contains_key(script.id),
{
    assert(scripts.insert(script.id, script).remove(script.id) =~= scripts.remove(script.id));
}

} // verus!
