use modbus_tool::automation::{
    Action, ActionResult, CompareOp, LogLevel, RegisterRef, Script, ScriptContext, ScriptEngine,
    ScriptStatus, Threshold, Trigger,
};
use modbus_tool::registers::RegisterMap;

fn make_registers(values: &[(&str, u16)]) -> RegisterMap {
    let mut m = RegisterMap::new();
    for (k, v) in values {
        m.insert(k.to_string(), *v);
    }
    m
}

// ---------- Trigger: Compare tests ----------

#[test]
fn test_compare_greater_true() {
    let engine = ScriptEngine::new();
    let registers = make_registers(&[("40001", 50)]);
    let trigger = Trigger::Compare {
        register: "40001".into(),
        operator: CompareOp::Greater,
        value: Threshold::integer(30),
    };
    assert!(engine.check_trigger(&trigger, &registers));
}

#[test]
fn test_compare_greater_false() {
    let engine = ScriptEngine::new();
    let registers = make_registers(&[("40001", 20)]);
    let trigger = Trigger::Compare {
        register: "40001".into(),
        operator: CompareOp::Greater,
        value: Threshold::integer(30),
    };
    assert!(!engine.check_trigger(&trigger, &registers));
}

#[test]
fn test_compare_less() {
    let engine = ScriptEngine::new();
    let registers = make_registers(&[("40001", 20)]);
    let trigger = Trigger::Compare {
        register: "40001".into(),
        operator: CompareOp::Less,
        value: Threshold::integer(30),
    };
    assert!(engine.check_trigger(&trigger, &registers));
}

#[test]
fn test_compare_equal() {
    let engine = ScriptEngine::new();
    let registers = make_registers(&[("40001", 30)]);
    let trigger = Trigger::Compare {
        register: "40001".into(),
        operator: CompareOp::Equal,
        value: Threshold::integer(30),
    };
    assert!(engine.check_trigger(&trigger, &registers));
}

#[test]
fn test_compare_not_equal() {
    let engine = ScriptEngine::new();
    let registers = make_registers(&[("40001", 31)]);
    let trigger = Trigger::Compare {
        register: "40001".into(),
        operator: CompareOp::NotEqual,
        value: Threshold::integer(30),
    };
    assert!(engine.check_trigger(&trigger, &registers));
}

#[test]
fn test_compare_greater_or_eq() {
    let engine = ScriptEngine::new();
    let registers = make_registers(&[("40001", 30)]);
    let trigger = Trigger::Compare {
        register: "40001".into(),
        operator: CompareOp::GreaterOrEq,
        value: Threshold::integer(30),
    };
    assert!(engine.check_trigger(&trigger, &registers));
}

#[test]
fn test_compare_less_or_eq() {
    let engine = ScriptEngine::new();
    let registers = make_registers(&[("40001", 30)]);
    let trigger = Trigger::Compare {
        register: "40001".into(),
        operator: CompareOp::LessOrEq,
        value: Threshold::integer(30),
    };
    assert!(engine.check_trigger(&trigger, &registers));
}

#[test]
fn test_compare_missing_register() {
    let engine = ScriptEngine::new();
    let registers = make_registers(&[]);
    let trigger = Trigger::Compare {
        register: "40001".into(),
        operator: CompareOp::Greater,
        value: Threshold::integer(30),
    };
    assert!(!engine.check_trigger(&trigger, &registers));
}

// ---------- Trigger: Change detection tests ----------

#[test]
fn test_became_on_rising_edge() {
    let mut engine = ScriptEngine::new();
    engine.last_values.insert("40001".into(), 0);
    let registers = make_registers(&[("40001", 1)]);
    let trigger = Trigger::BecameOn { register: "40001".into() };
    assert!(engine.check_trigger(&trigger, &registers));
}

#[test]
fn test_became_on_already_on() {
    let mut engine = ScriptEngine::new();
    engine.last_values.insert("40001".into(), 1);
    let registers = make_registers(&[("40001", 1)]);
    let trigger = Trigger::BecameOn { register: "40001".into() };
    assert!(!engine.check_trigger(&trigger, &registers));
}

#[test]
fn test_became_off_falling_edge() {
    let mut engine = ScriptEngine::new();
    engine.last_values.insert("40001".into(), 1);
    let registers = make_registers(&[("40001", 0)]);
    let trigger = Trigger::BecameOff { register: "40001".into() };
    assert!(engine.check_trigger(&trigger, &registers));
}

#[test]
fn test_changed_detected() {
    let mut engine = ScriptEngine::new();
    engine.last_values.insert("40001".into(), 100);
    let registers = make_registers(&[("40001", 200)]);
    let trigger = Trigger::Changed { register: "40001".into() };
    assert!(engine.check_trigger(&trigger, &registers));
}

#[test]
fn test_changed_not_changed() {
    let mut engine = ScriptEngine::new();
    engine.last_values.insert("40001".into(), 100);
    let registers = make_registers(&[("40001", 100)]);
    let trigger = Trigger::Changed { register: "40001".into() };
    assert!(!engine.check_trigger(&trigger, &registers));
}

// ---------- Evaluate tests ----------

#[test]
fn test_evaluate_runs_only_running_scripts() {
    let mut engine = ScriptEngine::new();
    let script = Script::new(
        "Test Script".into(),
        Trigger::Compare {
            register: "40001".into(),
            operator: CompareOp::Greater,
            value: Threshold::integer(30),
        },
        vec![Action::ShowNotification { message: "Triggered!".into() }],
    );
    let _script_id = script.id;
    engine.add_script(script);
    let registers = make_registers(&[("40001", 50)]);

    assert!(engine.evaluate(&registers).is_empty());
}

#[test]
fn test_evaluate_triggers_running_enabled_script() {
    let mut engine = ScriptEngine::new();
    let mut script = Script::new(
        "Test Script".into(),
        Trigger::Compare {
            register: "40001".into(),
            operator: CompareOp::Greater,
            value: Threshold::integer(30),
        },
        vec![Action::ShowNotification { message: "Triggered!".into() }],
    );
    script.enabled = true;
    let script_id = script.id;
    engine.add_script(script);
    engine.start_script(&script_id);

    let registers = make_registers(&[("40001", 50)]);
    let triggered = engine.evaluate(&registers);
    assert_eq!(triggered, vec![script_id]);
}

#[test]
fn test_evaluate_disabled_script_not_triggered() {
    let mut engine = ScriptEngine::new();
    let script = Script::new(
        "Test Script".into(),
        Trigger::Compare {
            register: "40001".into(),
            operator: CompareOp::Greater,
            value: Threshold::integer(30),
        },
        vec![],
    );
    let script_id = script.id;
    engine.add_script(script);
    engine.start_script(&script_id);

    let registers = make_registers(&[("40001", 50)]);
    assert!(engine.evaluate(&registers).is_empty());
}

// ---------- Script management tests ----------

#[test]
fn test_add_and_get_script() {
    let mut engine = ScriptEngine::new();
    let script = Script::new("Test".into(), Trigger::Changed { register: "40001".into() }, vec![]);
    let id = script.id;
    engine.add_script(script);
    assert_eq!(engine.get_script(&id).unwrap().name, "Test");
}

#[test]
fn test_remove_script() {
    let mut engine = ScriptEngine::new();
    let script = Script::new("Test".into(), Trigger::Changed { register: "40001".into() }, vec![]);
    let id = script.id;
    engine.add_script(script);
    engine.start_script(&id);
    let removed = engine.remove_script(&id);
    assert!(removed.is_some());
    assert!(engine.get_script(&id).is_none());
    assert!(!engine.is_running(&id));
}

#[test]
fn test_script_engine_ref_type() {
    let engine: std::sync::Arc<parking_lot::Mutex<ScriptEngine>> =
        std::sync::Arc::new(parking_lot::Mutex::new(ScriptEngine::new()));
    let _ = engine.lock();
}

// ---------- further cases ----------

fn script_with(trigger: Trigger, actions: Vec<Action>) -> Script {
    let mut s = Script::new("s".into(), trigger, actions);
    s.enabled = true;
    s
}

#[test]
fn integer_threshold_fields() {
    let t = Threshold::integer(30);
    assert_eq!(t, Threshold { not_a_number: false, floor: 30, integral: true, near: Some(30) });
    let low = Threshold::integer(-7);
    assert_eq!(low.floor, -1);
    assert_eq!(low.near, None);
    let high = Threshold::integer(70000);
    assert_eq!(high.floor, 65536);
    assert_eq!(high.near, None);
}

#[test]
fn fractional_and_nan_thresholds() {
    // 30.5: floor 30, not a whole number, no register value within epsilon.
    let t = Threshold { not_a_number: false, floor: 30, integral: false, near: None };
    assert!(CompareOp::Greater.evaluate(31, &t));
    assert!(!CompareOp::Greater.evaluate(30, &t));
    assert!(CompareOp::Less.evaluate(30, &t));
    assert!(!CompareOp::GreaterOrEq.evaluate(30, &t));
    assert!(CompareOp::GreaterOrEq.evaluate(31, &t));
    assert!(CompareOp::LessOrEq.evaluate(30, &t));
    assert!(!CompareOp::Equal.evaluate(30, &t));
    assert!(CompareOp::NotEqual.evaluate(30, &t));
    let nan = Threshold { not_a_number: true, floor: 0, integral: false, near: None };
    for op in [
        CompareOp::Greater,
        CompareOp::Less,
        CompareOp::Equal,
        CompareOp::NotEqual,
        CompareOp::GreaterOrEq,
        CompareOp::LessOrEq,
    ] {
        assert!(!op.evaluate(5, &nan));
    }
}

#[test]
fn integer_threshold_comparisons_match_integers() {
    let ops = [
        CompareOp::Greater,
        CompareOp::Less,
        CompareOp::Equal,
        CompareOp::NotEqual,
        CompareOp::GreaterOrEq,
        CompareOp::LessOrEq,
    ];
    for n in [-3i64, 0, 1, 29, 30, 31, 65535, 70000] {
        let t = Threshold::integer(n);
        for left in [0u16, 1, 30, 65535] {
            let l = left as i64;
            let expected = [l > n, l < n, l == n, l != n, l >= n, l <= n];
            for (op, want) in ops.iter().zip(expected.iter()) {
                assert_eq!(op.evaluate(left, &t), *want);
            }
        }
    }
}

#[test]
fn changed_counts_new_registers() {
    let engine = ScriptEngine::new();
    let trigger = Trigger::Changed { register: "40001".into() };
    assert!(engine.check_trigger(&trigger, &make_registers(&[("40001", 5)])));
    assert!(!engine.check_trigger(&trigger, &make_registers(&[])));
}

#[test]
fn became_edges_treat_absent_as_zero() {
    let mut engine = ScriptEngine::new();
    let on = Trigger::BecameOn { register: "1".into() };
    let off = Trigger::BecameOff { register: "1".into() };
    assert!(engine.check_trigger(&on, &make_registers(&[("1", 3)])));
    assert!(!engine.check_trigger(&off, &make_registers(&[])));
    engine.last_values.insert("1".into(), 9);
    assert!(engine.check_trigger(&off, &make_registers(&[])));
}

#[test]
fn stable_never_fires_and_and_needs_all() {
    let engine = ScriptEngine::new();
    let regs = make_registers(&[("1", 10), ("2", 0)]);
    assert!(!engine.check_trigger(&Trigger::Stable { register: "1".into(), seconds: 3 }, &regs));
    let both = Trigger::And {
        triggers: vec![
            Trigger::Compare { register: "1".into(), operator: CompareOp::Greater, value: Threshold::integer(5) },
            Trigger::Compare { register: "2".into(), operator: CompareOp::Equal, value: Threshold::integer(0) },
        ],
    };
    assert!(engine.check_trigger(&both, &regs));
    let one_fails = Trigger::And {
        triggers: vec![
            Trigger::Compare { register: "1".into(), operator: CompareOp::Greater, value: Threshold::integer(5) },
            Trigger::Compare { register: "2".into(), operator: CompareOp::Equal, value: Threshold::integer(1) },
        ],
    };
    assert!(!engine.check_trigger(&one_fails, &regs));
    assert!(engine.check_trigger(&Trigger::And { triggers: vec![] }, &regs));
}

#[test]
fn execute_action_messages() {
    let engine = ScriptEngine::new();
    let ctx = ScriptContext::new(1, RegisterMap::new());
    let cases = vec![
        (Action::WriteValue { register: "40001".into(), value: 7 }, "write_value", "Wrote 7 to 40001"),
        (Action::WriteOn { register: "1".into() }, "write_on", "Wrote ON to 1"),
        (Action::WriteOff { register: "2".into() }, "write_off", "Wrote OFF to 2"),
        (Action::Toggle { register: "3".into() }, "toggle", "Toggled 3"),
        (Action::ShowNotification { message: "hello".into() }, "notification", "hello"),
        (Action::PlaySound { sound: "beep".into() }, "play_sound", "Playing sound: beep"),
        (Action::Log { message: "note".into() }, "log", "note"),
        (Action::RunScript { script_id: "a".into() }, "run_script", "Started script: a"),
        (Action::StopScript { script_id: "b".into() }, "stop_script", "Stopped script: b"),
        (Action::Delay { ms: 250 }, "delay", "Delayed 250ms"),
    ];
    for (action, kind, message) in &cases {
        let r = engine.execute_action(action, &ctx);
        assert_eq!(r.action_type, *kind);
        assert!(r.success);
        assert_eq!(r.message, *message);
    }
    let actions: Vec<Action> = cases.into_iter().map(|(a, _, _)| a).collect();
    assert_eq!(engine.execute_actions(&actions, &ctx).len(), 10);
}

#[test]
fn action_results_ok_and_fail() {
    let ok = ActionResult::ok("log", "done");
    assert!(ok.success);
    assert_eq!(ok.action_type, "log");
    assert_eq!(ok.message, "done");
    let fail = ActionResult::fail("write_on", "no link");
    assert!(!fail.success);
    assert_eq!(fail.message, "no link");
}

#[test]
fn execute_script_records_run() {
    let mut engine = ScriptEngine::new();
    let script = script_with(
        Trigger::Changed { register: "1".into() },
        vec![Action::Log { message: "x".into() }, Action::Delay { ms: 5 }],
    );
    let id = script.id;
    engine.add_script(script);
    let results = engine.execute_script(&id).unwrap();
    assert_eq!(results.len(), 2);
    assert_eq!(results[1].message, "Delayed 5ms");
    let status = engine.get_status(&id).unwrap();
    assert_eq!(status.trigger_count, 1);
    assert!(status.last_triggered.is_some());
    engine.execute_script(&id).unwrap();
    assert_eq!(engine.get_status(&id).unwrap().trigger_count, 2);
}

#[test]
fn execute_unknown_script_names_the_id() {
    let mut engine = ScriptEngine::new();
    let id: u128 = 0x0123_4567_89ab_cdef_0123_4567_89ab_cdef;
    assert_eq!(
        engine.execute_script(&id).unwrap_err(),
        "Script not found: 01234567-89ab-cdef-0123-456789abcdef"
    );
}

#[test]
fn evaluate_detects_changes_between_polls() {
    let mut engine = ScriptEngine::new();
    let script = script_with(Trigger::Changed { register: "1".into() }, vec![]);
    let id = script.id;
    engine.add_script(script);
    engine.start_script(&id);
    engine.last_values.insert("1".into(), 100);
    assert_eq!(engine.evaluate(&make_registers(&[("1", 200)])), vec![id]);
    assert_eq!(engine.last_values.get(&"1".to_string()), Some(200));
    // Same value on the next poll: no change.
    assert!(engine.evaluate(&make_registers(&[("1", 200)])).is_empty());
    assert_eq!(engine.get_status(&id).unwrap().trigger_count, 1);
}

#[test]
fn evaluate_fires_rising_edge_between_polls() {
    let mut engine = ScriptEngine::new();
    let script = script_with(Trigger::BecameOn { register: "40001".into() }, vec![]);
    let id = script.id;
    engine.add_script(script);
    engine.start_script(&id);
    assert!(engine.evaluate(&make_registers(&[("40001", 0)])).is_empty());
    assert_eq!(engine.evaluate(&make_registers(&[("40001", 1)])), vec![id]);
    assert!(engine.evaluate(&make_registers(&[("40001", 1)])).is_empty());
}

#[test]
fn evaluate_counts_triggers_in_order() {
    let mut engine = ScriptEngine::new();
    let a = script_with(
        Trigger::Compare { register: "1".into(), operator: CompareOp::Greater, value: Threshold::integer(0) },
        vec![],
    );
    let b = script_with(
        Trigger::Compare { register: "1".into(), operator: CompareOp::Less, value: Threshold::integer(0) },
        vec![],
    );
    let c = script_with(
        Trigger::Compare { register: "1".into(), operator: CompareOp::LessOrEq, value: Threshold::integer(9) },
        vec![],
    );
    let (ida, idb, idc) = (a.id, b.id, c.id);
    engine.add_script(a);
    engine.add_script(b);
    engine.add_script(c);
    for id in [ida, idb, idc] {
        engine.start_script(&id);
    }
    assert_eq!(engine.running_count(), 3);
    let regs = make_registers(&[("1", 5)]);
    assert_eq!(engine.evaluate(&regs), vec![ida, idc]);
    assert_eq!(engine.evaluate(&regs), vec![ida, idc]);
    assert_eq!(engine.get_status(&ida).unwrap().trigger_count, 2);
    assert_eq!(engine.get_status(&idb).unwrap().trigger_count, 0);
    engine.stop_script(&idc);
    assert!(!engine.get_status(&idc).unwrap().running);
    assert_eq!(engine.running_count(), 2);
    assert_eq!(engine.evaluate(&regs), vec![ida]);
}

#[test]
fn adding_same_id_replaces_script() {
    let mut engine = ScriptEngine::default();
    let first = Script::new("first".into(), Trigger::Changed { register: "1".into() }, vec![]);
    let id = first.id;
    engine.add_script(first);
    engine.get_status_mut(&id).unwrap().trigger_count = 5;
    let mut second = Script::new("second".into(), Trigger::Changed { register: "2".into() }, vec![]);
    second.id = id;
    engine.add_script(second);
    assert_eq!(engine.script_count(), 1);
    assert_eq!(engine.get_script(&id).unwrap().name, "second");
    // The existing status is kept.
    assert_eq!(engine.get_status(&id).unwrap().trigger_count, 5);
    assert_eq!(engine.get_all_statuses().len(), 1);
}

#[test]
fn clear_empties_everything() {
    let mut engine = ScriptEngine::new();
    let s = script_with(Trigger::Changed { register: "1".into() }, vec![]);
    let id = s.id;
    engine.add_script(s);
    engine.start_script(&id);
    engine.last_values.insert("1".into(), 3);
    engine.clear();
    assert_eq!(engine.script_count(), 0);
    assert_eq!(engine.running_count(), 0);
    assert!(engine.get_status(&id).is_none());
    assert!(engine.get_all_scripts().is_empty());
    assert_eq!(engine.last_values.len(), 0);
}

#[test]
fn plain_types() {
    assert_eq!(RegisterRef("40001".into()).to_string(), "40001");
    assert_eq!(ScriptStatus::new(), ScriptStatus::default());
    assert_eq!(ScriptStatus::new().trigger_count, 0);
    let ctx = ScriptContext::new(7, make_registers(&[("1", 2)]));
    assert_eq!(ctx.script_id, 7);
    assert_eq!(ctx.trigger_name, "");
    assert_ne!(LogLevel::Info, LogLevel::Error);
    let s = Script::new("n".into(), Trigger::Changed { register: "1".into() }, vec![]);
    assert!(!s.enabled);
    assert_eq!(s.created_at, s.updated_at);
}
