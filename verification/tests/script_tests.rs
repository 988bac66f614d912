use modbus_tool::registers::RegisterMap;
use modbus_tool::script::{Action, CompareOp, Script, ScriptEngine, SoundType, Trigger};

fn registers(values: &[(&str, u16)]) -> RegisterMap {
    let mut m = RegisterMap::new();
    for (k, v) in values {
        m.insert(k.to_string(), *v);
    }
    m
}

// ---------- action ----------

#[test]
fn test_action_description() {
    let a1 = Action::WriteValue { register: "40001".to_string(), value: 100 };
    assert_eq!(a1.description(), "Write 100 to 40001");

    let a2 = Action::ShowNotification {
        title: "Alert".to_string(),
        message: "Temperature high!".to_string(),
    };
    assert_eq!(a2.description(), "Notify: Alert - Temperature high!");
}

#[test]
fn test_action_register() {
    let a1 = Action::WriteOn { register: "00001".to_string() };
    assert_eq!(a1.register(), Some("00001"));

    let a2 = Action::Log { message: "Test".to_string() };
    assert_eq!(a2.register(), None);
}

#[test]
fn action_descriptions_of_every_kind() {
    assert_eq!(Action::WriteOff { register: "1".into() }.description(), "Turn OFF 1");
    assert_eq!(Action::Toggle { register: "2".into() }.description(), "Toggle 2");
    assert_eq!(Action::PlaySound { sound: SoundType::Warning }.description(), "Play sound: Warning");
    assert_eq!(Action::Log { message: "hi".into() }.description(), "Log: hi");
    assert_eq!(Action::RunScript { script_id: "a".into() }.description(), "Run script: a");
    assert_eq!(Action::StopScript { script_id: "b".into() }.description(), "Stop script: b");
    assert_eq!(Action::Delay { seconds: 15 }.description(), "Wait 15s");
}

#[test]
fn has_register_agrees_with_register() {
    let actions = vec![
        Action::WriteValue { register: "1".into(), value: 0 },
        Action::WriteOff { register: "2".into() },
        Action::Toggle { register: "3".into() },
        Action::PlaySound { sound: SoundType::Alert },
        Action::Delay { seconds: 1 },
    ];
    for a in &actions {
        assert_eq!(a.has_register(), a.register().is_some());
    }
}

// ---------- trigger ----------

#[test]
fn test_compare_op_evaluate() {
    assert!(CompareOp::GT.evaluate(10, 5));
    assert!(!CompareOp::GT.evaluate(5, 10));
    assert!(CompareOp::LT.evaluate(5, 10));
    assert!(CompareOp::EQ.evaluate(10, 10));
    assert!(CompareOp::NEQ.evaluate(10, 5));
    assert!(CompareOp::GTE.evaluate(10, 10));
    assert!(CompareOp::LTE.evaluate(10, 10));
}

#[test]
fn test_compare_op_symbol() {
    assert_eq!(CompareOp::GT.symbol(), ">");
    assert_eq!(CompareOp::LT.symbol(), "<");
    assert_eq!(CompareOp::EQ.symbol(), "=");
    assert_eq!(CompareOp::NEQ.symbol(), "≠");
    assert_eq!(CompareOp::GTE.symbol(), "≥");
    assert_eq!(CompareOp::LTE.symbol(), "≤");
}

#[test]
fn test_trigger_description() {
    let t1 = Trigger::Compare { register: "40001".to_string(), operator: CompareOp::GT, value: 30 };
    assert_eq!(t1.description(), "40001 > 30");

    let t2 = Trigger::BecameOn { register: "00001".to_string() };
    assert_eq!(t2.description(), "00001 became ON");
}

#[test]
fn test_check_trigger_gt() {
    let trigger = Trigger::Compare { register: "40001".to_string(), operator: CompareOp::GT, value: 30 };
    assert!(trigger.check_trigger(31, 30));
    assert!(!trigger.check_trigger(30, 30));
    assert!(!trigger.check_trigger(29, 30));
}

#[test]
fn test_check_trigger_lt() {
    let trigger = Trigger::Compare { register: "40001".to_string(), operator: CompareOp::LT, value: 100 };
    assert!(trigger.check_trigger(99, 100));
    assert!(!trigger.check_trigger(100, 100));
    assert!(!trigger.check_trigger(101, 100));
}

#[test]
fn test_check_trigger_eq() {
    let trigger = Trigger::Compare { register: "40001".to_string(), operator: CompareOp::EQ, value: 42 };
    assert!(trigger.check_trigger(42, 42));
    assert!(!trigger.check_trigger(41, 42));
    assert!(!trigger.check_trigger(43, 42));
}

#[test]
fn test_check_trigger_neq() {
    let trigger = Trigger::Compare { register: "40001".to_string(), operator: CompareOp::NEQ, value: 0 };
    assert!(trigger.check_trigger(1, 0));
    assert!(!trigger.check_trigger(0, 0));
}

#[test]
fn test_check_trigger_gte() {
    let trigger = Trigger::Compare { register: "40001".to_string(), operator: CompareOp::GTE, value: 80 };
    assert!(trigger.check_trigger(80, 80));
    assert!(trigger.check_trigger(81, 80));
    assert!(!trigger.check_trigger(79, 80));
}

#[test]
fn test_check_trigger_lte() {
    let trigger = Trigger::Compare { register: "40001".to_string(), operator: CompareOp::LTE, value: 20 };
    assert!(trigger.check_trigger(20, 20));
    assert!(trigger.check_trigger(19, 20));
    assert!(!trigger.check_trigger(21, 20));
}

#[test]
fn test_check_trigger_non_comparison() {
    let changed = Trigger::Changed { register: "40001".to_string() };
    assert!(!changed.check_trigger(1, 0));

    let became_on = Trigger::BecameOn { register: "00001".to_string() };
    assert!(!became_on.check_trigger(1, 0));

    let became_off = Trigger::BecameOff { register: "00001".to_string() };
    assert!(!became_off.check_trigger(0, 1));

    let stable = Trigger::Stable { register: "40001".to_string(), seconds: 10 };
    assert!(!stable.check_trigger(100, 100));
}

#[test]
fn test_check_trigger_edge_cases() {
    let gt_trigger = Trigger::Compare { register: "0".into(), operator: CompareOp::GT, value: 0 };
    assert!(gt_trigger.check_trigger(u16::MAX, 0));
    assert!(!gt_trigger.check_trigger(0, 0));

    let lt_trigger = Trigger::Compare { register: "0".into(), operator: CompareOp::LT, value: u16::MAX as i64 };
    assert!(lt_trigger.check_trigger(0, u16::MAX));
    assert!(!lt_trigger.check_trigger(u16::MAX, u16::MAX));

    let eq_trigger = Trigger::Compare { register: "0".into(), operator: CompareOp::EQ, value: 0 };
    assert!(eq_trigger.check_trigger(0, 0));

    let neq_trigger = Trigger::Compare { register: "0".into(), operator: CompareOp::NEQ, value: 0 };
    assert!(neq_trigger.check_trigger(1, 0));
}

#[test]
fn trigger_descriptions_and_registers() {
    let t = Trigger::Compare { register: "40002".into(), operator: CompareOp::LTE, value: -5 };
    assert_eq!(t.description(), "40002 ≤ -5");
    assert_eq!(t.register(), "40002");
    assert_eq!(Trigger::Changed { register: "7".into() }.description(), "7 changed");
    assert_eq!(Trigger::BecameOff { register: "8".into() }.description(), "8 became OFF");
    assert_eq!(
        Trigger::Stable { register: "9".into(), seconds: 30 }.description(),
        "9 stable for 30s"
    );
    let copy = t.clone();
    assert_eq!(copy, t);
}

// ---------- script ----------

#[test]
fn test_script_new() {
    let trigger = Trigger::Changed { register: "40001".to_string() };
    let script = Script::new("Test Script".to_string(), trigger.clone());

    assert_eq!(script.name, "Test Script");
    assert_eq!(script.trigger, trigger);
    assert!(script.enabled);
    assert!(script.actions.is_empty());
}

#[test]
fn test_script_add_action() {
    let mut script = Script::default();
    script.add_action(Action::WriteOn { register: "00001".to_string() });

    assert_eq!(script.actions.len(), 1);
    assert!(script.is_valid());
}

#[test]
fn test_script_remove_action() {
    let mut script = Script::default();
    script.add_action(Action::WriteOn { register: "00001".to_string() });

    let action = script.remove_action(0);
    assert!(action.is_some());
    assert!(script.actions.is_empty());
    assert!(!script.is_valid());
}

#[test]
fn script_defaults_and_setters() {
    let mut script = Script::default();
    assert_eq!(script.name, "New Script");
    assert_eq!(script.trigger, Trigger::Changed { register: "40001".to_string() });
    assert!(script.remove_action(3).is_none());
    script.set_description("pump guard".to_string());
    assert_eq!(script.description, "pump guard");
    script.set_enabled(false);
    assert!(!script.enabled);
}

#[test]
fn script_status_records_trigger_and_error() {
    let mut status = modbus_tool::script::ScriptStatus::new(42);
    assert!(status.last_triggered.is_none());
    status.mark_error("bad value".to_string());
    assert_eq!(status.last_error, Some("bad value".to_string()));
    status.mark_triggered();
    assert!(status.last_triggered.is_some());
    assert!(status.last_error.is_none());
    assert_eq!(status.script_id, 42);
}

// ---------- engine ----------

#[test]
fn test_engine_add_script() {
    let mut engine = ScriptEngine::new();
    let script = Script::new("Test".to_string(), Trigger::Changed { register: "40001".to_string() });
    engine.add_script(script);
    assert_eq!(engine.get_all_scripts().len(), 1);
}

#[test]
fn test_check_compare() {
    let engine = ScriptEngine::new();
    let registers = registers(&[("40001", 50)]);

    let trigger = Trigger::Compare { register: "40001".to_string(), operator: CompareOp::GT, value: 30 };
    assert!(engine.check_trigger(&trigger, &registers));
}

#[test]
fn test_evaluate_triggered() {
    let mut engine = ScriptEngine::new();
    let script = Script::new(
        "Test".to_string(),
        Trigger::Compare { register: "40001".to_string(), operator: CompareOp::GT, value: 30 },
    );
    let id = script.id;
    engine.add_script(script);

    let registers = registers(&[("40001", 50)]);

    let triggered = engine.evaluate(&registers);
    assert_eq!(triggered.len(), 1);
    assert_eq!(triggered[0], id);
}

#[test]
fn test_evaluate_not_triggered() {
    let mut engine = ScriptEngine::new();
    let script = Script::new(
        "Test".to_string(),
        Trigger::Compare { register: "40001".to_string(), operator: CompareOp::GT, value: 30 },
    );
    engine.add_script(script);

    let registers = registers(&[("40001", 20)]);

    let triggered = engine.evaluate(&registers);
    assert!(triggered.is_empty());
}

#[test]
fn test_execute_script() {
    let mut engine = ScriptEngine::new();
    let mut script = Script::new("Test".to_string(), Trigger::Changed { register: "40001".to_string() });
    script.add_action(Action::WriteOn { register: "00001".to_string() });
    script.add_action(Action::ShowNotification {
        title: "Alert".to_string(),
        message: "Triggered!".to_string(),
    });
    let id = script.id;
    engine.add_script(script);

    let result = engine.execute_script(&id);
    assert!(result.is_ok());
    let actions = result.unwrap();
    assert_eq!(actions.len(), 2);
    assert_eq!(actions[0], "Turn ON 00001");
    assert_eq!(actions[1], "Notify: Alert - Triggered!");
}

#[test]
fn test_execute_nonexistent_script() {
    let mut engine = ScriptEngine::new();
    let id = uuid::Uuid::new_v4().as_u128();

    let result = engine.execute_script(&id);
    assert!(result.is_err());
    assert_eq!(result.unwrap_err(), "Script not found");
}

#[test]
fn engine_change_detection_across_polls() {
    let mut engine = ScriptEngine::default();
    let script = Script::new("edge".into(), Trigger::BecameOn { register: "00001".into() });
    let id = script.id;
    engine.add_script(script);
    assert!(engine.evaluate(&registers(&[("00001", 0)])).is_empty());
    assert_eq!(engine.evaluate(&registers(&[("00001", 1)])), vec![id]);
    // Unchanged value: no new edge.
    assert!(engine.evaluate(&registers(&[("00001", 1)])).is_empty());
    assert!(engine.get_status(&id).unwrap().last_triggered.is_some());
}

#[test]
fn engine_disabled_script_and_removal() {
    let mut engine = ScriptEngine::new();
    let mut script = Script::new("x".into(), Trigger::Stable { register: "1".into(), seconds: 5 });
    script.set_enabled(false);
    let id = script.id;
    engine.add_script(script);
    assert!(engine.evaluate(&registers(&[("1", 3)])).is_empty());
    assert_eq!(engine.execute_script(&id), Err("Script is disabled".to_string()));
    engine.get_script_mut(&id).unwrap().set_enabled(true);
    assert_eq!(engine.evaluate(&registers(&[("1", 3)])), vec![id]);
    assert_eq!(engine.get_script_actions(&id), Some(vec![]));
    assert!(engine.remove_script(&id).is_some());
    assert!(engine.get_script(&id).is_none());
    assert!(engine.get_status(&id).is_none());
    assert!(engine.get_script_actions(&id).is_none());
}
