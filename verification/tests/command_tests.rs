use modbus_tool::automation::{Action, Script, ScriptEngine, Trigger};
use modbus_tool::commands::script::{
    checked_script_id, script_delete, script_delete_inner, script_get, script_get_inner,
    script_list, script_list_inner, script_save, script_save_inner, script_start,
    script_start_inner, script_status, script_status_inner, script_stop, script_stop_inner,
};
use modbus_tool::error::Error;

fn text_of(id: u128) -> String {
    uuid::Uuid::from_u128(id).to_string()
}

fn sample(name: &str) -> Script {
    Script::new(
        name.to_string(),
        Trigger::Changed { register: "40001".into() },
        vec![Action::Log { message: "hi".into() }],
    )
}

#[test]
fn checked_id_maps_missing_parse_to_error() {
    assert_eq!(checked_script_id(Some(5), "whatever").unwrap(), 5);
    match checked_script_id(None, "nope") {
        Err(Error::Parse(m)) => assert_eq!(m, "Invalid UUID: nope"),
        other => panic!("unexpected {:?}", other),
    }
}

#[test]
fn invalid_id_is_reported() {
    let mut engine = ScriptEngine::new();
    let r = script_get(&engine, "not-a-uuid".into());
    assert!(!r.success);
    let e = r.error.unwrap();
    assert_eq!(e.code, 4001);
    assert_eq!(e.message, "Parse error: Invalid UUID: not-a-uuid");
    assert!(script_delete(&mut engine, "x".into()).error.is_some());
    assert!(script_status_inner(&engine, "x").is_err());
    assert!(script_start_inner(&mut engine, "x").is_err());
    assert!(script_stop_inner(&mut engine, "x").is_err());
}

#[test]
fn save_get_delete_roundtrip() {
    let mut engine = ScriptEngine::new();
    let script = sample("guard");
    let id = script.id;
    let saved = script_save_inner(&mut engine, script).unwrap();
    assert_eq!(saved.id, id);
    assert_eq!(script_list_inner(&engine).unwrap().len(), 1);
    let got = script_get_inner(&engine, &text_of(id)).unwrap().unwrap();
    assert_eq!(got.name, "guard");
    assert_eq!(got.actions.len(), 1);
    // Simple (unhyphenated) form parses too.
    let simple = format!("{:032x}", id);
    assert!(script_get_inner(&engine, &simple).unwrap().is_some());
    assert!(matches!(script_delete_inner(&mut engine, &text_of(id)), Ok(true)));
    assert!(matches!(script_delete_inner(&mut engine, &text_of(id)), Ok(false)));
    assert!(script_get_inner(&engine, &text_of(id)).unwrap().is_none());
}

#[test]
fn start_and_stop_touch_only_the_status() {
    let mut engine = ScriptEngine::new();
    let script = sample("s");
    let id = script.id;
    engine.add_script(script);
    assert!(script_start_inner(&mut engine, &text_of(id)).is_ok());
    assert!(script_status_inner(&engine, &text_of(id)).unwrap().unwrap().running);
    assert!(!engine.is_running(&id));
    assert!(script_stop_inner(&mut engine, &text_of(id)).is_ok());
    assert!(!script_status_inner(&engine, &text_of(id)).unwrap().unwrap().running);
}

#[test]
fn command_responses_wrap_results() {
    let mut engine = ScriptEngine::new();
    let script = sample("c");
    let id = script.id;
    let saved = script_save(&mut engine, script);
    assert!(saved.success);
    assert_eq!(saved.data.unwrap().id, id);
    let listed = script_list(&engine);
    assert_eq!(listed.data.unwrap().len(), 1);
    let status = script_status(&engine, text_of(id));
    assert_eq!(status.data.unwrap().unwrap().trigger_count, 0);
    assert_eq!(script_start(&mut engine, text_of(id)).data, Some(true));
    assert_eq!(script_stop(&mut engine, text_of(id)).data, Some(true));
    let deleted = script_delete(&mut engine, text_of(id));
    assert_eq!(deleted.data, Some(true));
    let missing = script_get(&engine, text_of(id));
    assert!(missing.success);
    assert!(missing.data.unwrap().is_none());
}
