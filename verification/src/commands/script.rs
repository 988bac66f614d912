//! Script management commands of the user interface. Scripts are named by
//! the text of their UUID; each command works on the engine it is given.

use vstd::prelude::*;

use crate::automation::{
    first_with_id, fresh_status, has_id, same_script, without_id, Script, ScriptEngine,
    ScriptStatus,
};
use crate::commands::{respond, CommandResponse};
use crate::error::Error;
use crate::ids::now_millis;
use crate::text::push_str;

verus! {

/// The 128-bit value of the UUID that the text `s` spells, or `None` when
/// `s` is not a UUID in one of the forms the uuid crate reads.
pub uninterp spec fn uuid_parse(s: Seq<char>) -> Option<u128>;

/// `Uuid::parse_str`: its result is the named parse of `s`, the UUID taken
/// as its 128-bit value (`as_u128`).
#[verifier::external_body]
fn parse_uuid(s: &str) -> (r: Option<u128>)
    ensures
        r == uuid_parse(s@),
{
    match uuid::Uuid::parse_str(s) {
        Ok(u) => Some(u.as_u128()),
        Err(_) => None,
    }
}

/// The message for a script id that is not a UUID.
pub open spec fn invalid_uuid_message(id: Seq<char>) -> Seq<char> {
    "Invalid UUID: "@ + id
}

/// The script id that the text `id` parsed to (`parsed`), or the parse
/// error for it.
pub fn checked_script_id(parsed: Option<u128>, id: &str) -> (r: Result<u128, Error>)
    ensures
        parsed matches Some(u) ==> r == Ok::<u128, Error>(u),
        parsed is None ==> (r matches Err(Error::Parse(m)) && m@ == invalid_uuid_message(id@)),
{
    match parsed {
        Some(u) => Ok(u),
        None => {
            let mut m = String::new();
            push_str(&mut m, "Invalid UUID: ");
            push_str(&mut m, id);
            Err(Error::Parse(m))
        },
    }
}

fn script_id(id: &str) -> (r: Result<u128, Error>)
    ensures
        uuid_parse(id@) matches Some(u) ==> r == Ok::<u128, Error>(u),
        uuid_parse(id@) is None ==> (r matches Err(Error::Parse(m)) && m@ == invalid_uuid_message(
            id@,
        )),
{
    checked_script_id(parse_uuid(id), id)
}

/// `engine` is unchanged from `before`.
pub open spec fn unchanged(before: ScriptEngine, after: ScriptEngine) -> bool {
    &&& after.scripts_seq() == before.scripts_seq()
    &&& after.statuses_map() == before.statuses_map()
    &&& after.running_map() == before.running_map()
    &&& after.last_values_map() == before.last_values_map()
}

/// `r` reports that `id` is not a UUID.
pub open spec fn invalid_id_response<T>(r: CommandResponse<T>, id: Seq<char>) -> bool {
    &&& !r.success
    &&& r.data is None
    &&& r.error matches Some(e) && e.code == 4001 && e.message@ == "Parse error: "@
        + invalid_uuid_message(id)
}

// ========== Commands ==========

/// Copies of all scripts, in order.
pub fn script_list_inner(engine: &ScriptEngine) -> (r: Result<Vec<Script>, Error>)
    ensures
        r matches Ok(v) && v@.len() == engine.scripts_seq().len() && forall|i: int|
            0 <= i < v@.len() ==> same_script(engine.scripts_seq()[i], #[trigger] v@[i]),
{
    let all = engine.get_all_scripts();
    let mut copies: Vec<Script> = Vec::new();
    let mut i: usize = 0;
    while i < all.len()
        invariant
            all@ == engine.scripts_seq(),
            i <= all@.len(),
            copies@.len() == i,
            forall|j: int| 0 <= j < i ==> same_script(all@[j], #[trigger] copies@[j]),
        decreases all@.len() - i,
    {
        copies.push(all[i].clone());
        i = i + 1;
    }
    Ok(copies)
}

/// List all scripts.
pub fn script_list(engine: &ScriptEngine) -> (r: CommandResponse<Vec<Script>>)
    ensures
        r.success,
        r.error is None,
        r.data matches Some(v) && v@.len() == engine.scripts_seq().len() && forall|i: int|
            0 <= i < v@.len() ==> same_script(engine.scripts_seq()[i], #[trigger] v@[i]),
{
    respond(script_list_inner(engine))
}

/// A copy of the script with the given id.
pub fn script_get_inner(engine: &ScriptEngine, id: &str) -> (r: Result<Option<Script>, Error>)
    ensures
        uuid_parse(id@) is None ==> (r matches Err(Error::Parse(m)) && m@ == invalid_uuid_message(
            id@,
        )),
        uuid_parse(id@) matches Some(u) ==> (r matches Ok(found) && found is Some == has_id(
            engine.scripts_seq(),
            u,
        ) && (found matches Some(s) ==> same_script(
            engine.scripts_seq()[first_with_id(engine.scripts_seq(), u)],
            s,
        ))),
{
    let uuid = match script_id(id) {
        Ok(u) => u,
        Err(e) => return Err(e),
    };
    match engine.get_script(&uuid) {
        Some(s) => Ok(Some(s.clone())),
        None => Ok(None),
    }
}

/// Get a single script by id.
pub fn script_get(engine: &ScriptEngine, id: String) -> (r: CommandResponse<Option<Script>>)
    ensures
        uuid_parse(id@) is None ==> invalid_id_response(r, id@),
        uuid_parse(id@) matches Some(u) ==> r.success && r.error is None && (r.data matches Some(
            found,
        ) && found is Some == has_id(engine.scripts_seq(), u) && (found matches Some(s)
            ==> same_script(engine.scripts_seq()[first_with_id(engine.scripts_seq(), u)], s))),
{
    respond(script_get_inner(engine, id.as_str()))
}

/// Save a script (create or replace), stamped with the current time as its
/// update time; returns the saved script.
pub fn script_save_inner(engine: &mut ScriptEngine, script: Script) -> (r: Result<Script, Error>)
    ensures
        r matches Ok(s) && s.id == script.id && s.name == script.name && s.trigger == script.trigger
            && s.actions == script.actions && s.enabled == script.enabled && s.created_at
            == script.created_at && same_script(s, final(engine).scripts_seq().last()),
        final(engine).scripts_seq().drop_last() == without_id(old(engine).scripts_seq(), script.id),
        final(engine).scripts_seq().len() > 0,
        final(engine).statuses_map() == (if old(engine).statuses_map().contains_key(script.id) {
            old(engine).statuses_map()
        } else {
            old(engine).statuses_map().insert(script.id, fresh_status())
        }),
        final(engine).running_map() == old(engine).running_map(),
        final(engine).last_values_map() == old(engine).last_values_map(),
{
    let mut script = script;
    script.updated_at = now_millis();
    let copy = script.clone();
    let ghost stored = copy;
    engine.add_script(copy);
    proof {
        assert(engine.scripts_seq().drop_last() =~= without_id(old(engine).scripts_seq(), script.id));
        assert(engine.scripts_seq().last() == stored);
    }
    Ok(script)
}

/// Create or update a script.
pub fn script_save(engine: &mut ScriptEngine, script: Script) -> (r: CommandResponse<Script>)
    ensures
        r.success,
        r.error is None,
        r.data matches Some(s) && s.id == script.id && same_script(
            s,
            final(engine).scripts_seq().last(),
        ),
        final(engine).scripts_seq().drop_last() == without_id(old(engine).scripts_seq(), script.id),
        final(engine).scripts_seq().len() > 0,
        final(engine).statuses_map() == (if old(engine).statuses_map().contains_key(script.id) {
            old(engine).statuses_map()
        } else {
            old(engine).statuses_map().insert(script.id, fresh_status())
        }),
        final(engine).running_map() == old(engine).running_map(),
        final(engine).last_values_map() == old(engine).last_values_map(),
{
    respond(script_save_inner(engine, script))
}

/// Delete a script; tells whether there was one.
pub fn script_delete_inner(engine: &mut ScriptEngine, id: &str) -> (r: Result<bool, Error>)
    ensures
        uuid_parse(id@) is None ==> (r matches Err(Error::Parse(m)) && m@ == invalid_uuid_message(
            id@,
        )) && unchanged(*old(engine), *final(engine)),
        uuid_parse(id@) matches Some(u) ==> {
            &&& r == Ok::<bool, Error>(has_id(old(engine).scripts_seq(), u))
            &&& final(engine).scripts_seq() == without_id(old(engine).scripts_seq(), u)
            &&& final(engine).statuses_map() == old(engine).statuses_map().remove(u)
            &&& final(engine).running_map() == old(engine).running_map().remove(u)
            &&& final(engine).last_values_map() == old(engine).last_values_map()
        },
{
    let uuid = match script_id(id) {
        Ok(u) => u,
        Err(e) => return Err(e),
    };
    Ok(engine.remove_script(&uuid).is_some())
}

/// Delete a script.
pub fn script_delete(engine: &mut ScriptEngine, id: String) -> (r: CommandResponse<bool>)
    ensures
        uuid_parse(id@) is None ==> invalid_id_response(r, id@) && unchanged(
            *old(engine),
            *final(engine),
        ),
        uuid_parse(id@) matches Some(u) ==> {
            &&& r.success && r.error is None
            &&& r.data == Some(has_id(old(engine).scripts_seq(), u))
            &&& final(engine).scripts_seq() == without_id(old(engine).scripts_seq(), u)
            &&& final(engine).statuses_map() == old(engine).statuses_map().remove(u)
            &&& final(engine).running_map() == old(engine).running_map().remove(u)
            &&& final(engine).last_values_map() == old(engine).last_values_map()
        },
{
    respond(script_delete_inner(engine, id.as_str()))
}

/// The execution status of a script.
pub fn script_status_inner(engine: &ScriptEngine, id: &str) -> (r: Result<
    Option<ScriptStatus>,
    Error,
>)
    ensures
        uuid_parse(id@) is None ==> (r matches Err(Error::Parse(m)) && m@ == invalid_uuid_message(
            id@,
        )),
        uuid_parse(id@) matches Some(u) ==> r == Ok::<Option<ScriptStatus>, Error>(
            engine.statuses_map().get(u),
        ),
{
    let uuid = match script_id(id) {
        Ok(u) => u,
        Err(e) => return Err(e),
    };
    match engine.get_status(&uuid) {
        Some(s) => Ok(Some(*s)),
        None => Ok(None),
    }
}

/// Get the execution status of a script.
pub fn script_status(engine: &ScriptEngine, id: String) -> (r: CommandResponse<
    Option<ScriptStatus>,
>)
    ensures
        uuid_parse(id@) is None ==> invalid_id_response(r, id@),
        uuid_parse(id@) matches Some(u) ==> r.success && r.error is None && r.data == Some(
            engine.statuses_map().get(u),
        ),
{
    respond(script_status_inner(engine, id.as_str()))
}

/// Set the running flag in the status of a script, if it has one.
fn set_status_running(engine: &mut ScriptEngine, id: &str, running: bool) -> (r: Result<(), Error>)
    ensures
        uuid_parse(id@) is None ==> (r matches Err(Error::Parse(m)) && m@ == invalid_uuid_message(
            id@,
        )) && unchanged(*old(engine), *final(engine)),
        uuid_parse(id@) matches Some(u) ==> {
            &&& r is Ok
            &&& final(engine).statuses_map() == (if old(engine).statuses_map().contains_key(u) {
                old(engine).statuses_map().insert(
                    u,
                    ScriptStatus { running, ..old(engine).statuses_map()[u] },
                )
            } else {
                old(engine).statuses_map()
            })
            &&& final(engine).scripts_seq() == old(engine).scripts_seq()
            &&& final(engine).running_map() == old(engine).running_map()
            &&& final(engine).last_values_map() == old(engine).last_values_map()
        },
{
    let uuid = match script_id(id) {
        Ok(u) => u,
        Err(e) => return Err(e),
    };
    match engine.get_status_mut(&uuid) {
        Some(status) => {
            status.running = running;
        },
        None => {},
    }
    Ok(())
}

/// Mark a script's status as running (its running flag in the engine is
/// left as it is).
pub fn script_start_inner(engine: &mut ScriptEngine, id: &str) -> (r: Result<(), Error>)
    ensures
        uuid_parse(id@) is None ==> (r matches Err(Error::Parse(m)) && m@ == invalid_uuid_message(
            id@,
        )) && unchanged(*old(engine), *final(engine)),
        uuid_parse(id@) matches Some(u) ==> {
            &&& r is Ok
            &&& final(engine).statuses_map() == (if old(engine).statuses_map().contains_key(u) {
                old(engine).statuses_map().insert(
                    u,
                    ScriptStatus { running: true, ..old(engine).statuses_map()[u] },
                )
            } else {
                old(engine).statuses_map()
            })
            &&& final(engine).scripts_seq() == old(engine).scripts_seq()
            &&& final(engine).running_map() == old(engine).running_map()
            &&& final(engine).last_values_map() == old(engine).last_values_map()
        },
{
    set_status_running(engine, id, true)
}

/// Start a script.
pub fn script_start(engine: &mut ScriptEngine, id: String) -> (r: CommandResponse<bool>)
    ensures
        uuid_parse(id@) is None ==> invalid_id_response(r, id@) && unchanged(
            *old(engine),
            *final(engine),
        ),
        uuid_parse(id@) matches Some(u) ==> {
            &&& r.success && r.error is None && r.data == Some(true)
            &&& final(engine).statuses_map() == (if old(engine).statuses_map().contains_key(u) {
                old(engine).statuses_map().insert(
                    u,
                    ScriptStatus { running: true, ..old(engine).statuses_map()[u] },
                )
            } else {
                old(engine).statuses_map()
            })
            &&& final(engine).scripts_seq() == old(engine).scripts_seq()
            &&& final(engine).running_map() == old(engine).running_map()
            &&& final(engine).last_values_map() == old(engine).last_values_map()
        },
{
    match script_start_inner(engine, id.as_str()) {
        Ok(()) => CommandResponse::ok(true),
        Err(e) => respond(Err(e)),
    }
}

/// Mark a script's status as stopped (its running flag in the engine is
/// left as it is).
pub fn script_stop_inner(engine: &mut ScriptEngine, id: &str) -> (r: Result<(), Error>)
    ensures
        uuid_parse(id@) is None ==> (r matches Err(Error::Parse(m)) && m@ == invalid_uuid_message(
            id@,
        )) && unchanged(*old(engine), *final(engine)),
        uuid_parse(id@) matches Some(u) ==> {
            &&& r is Ok
            &&& final(engine).statuses_map() == (if old(engine).statuses_map().contains_key(u) {
                old(engine).statuses_map().insert(
                    u,
                    ScriptStatus { running: false, ..old(engine).statuses_map()[u] },
                )
            } else {
                old(engine).statuses_map()
            })
            &&& final(engine).scripts_seq() == old(engine).scripts_seq()
            &&& final(engine).running_map() == old(engine).running_map()
            &&& final(engine).last_values_map() == old(engine).last_values_map()
        },
{
    set_status_running(engine, id, false)
}

/// Stop a script.
pub fn script_stop(engine: &mut ScriptEngine, id: String) -> (r: CommandResponse<bool>)
    ensures
        uuid_parse(id@) is None ==> invalid_id_response(r, id@) && unchanged(
            *old(engine),
            *final(engine),
        ),
        uuid_parse(id@) matches Some(u) ==> {
            &&& r.success && r.error is None && r.data == Some(true)
            &&& final(engine).statuses_map() == (if old(engine).statuses_map().contains_key(u) {
                old(engine).statuses_map().insert(
                    u,
                    ScriptStatus { running: false, ..old(engine).statuses_map()[u] },
                )
            } else {
                old(engine).statuses_map()
            })
            &&& final(engine).scripts_seq() == old(engine).scripts_seq()
            &&& final(engine).running_map() == old(engine).running_map()
            &&& final(engine).last_values_map() == old(engine).last_values_map()
        },
{
    match script_stop_inner(engine, id.as_str()) {
        Ok(()) => CommandResponse::ok(true),
        Err(e) => respond(Err(e)),
    }
}

} // verus!
