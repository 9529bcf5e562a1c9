//! The control lane's decisions: which extension call a plugin command
//! makes, and what each command's reply means for the UI. The lane itself
//! (sending the request and awaiting the reply) is the connection's work.

use vstd::prelude::*;
use crate::acp_auth::{
    acp_error_message, auth_failure_spec, auth_meta_plan, authenticate_meta_from_method, error_message_spec, first_with_id,
    is_auth_required_error, meta_shape, AcpErrorInfo, AuthMethodInfo, ACP_AUTH_REQUIRED_CODE,
};
use crate::strmap::StringMap;
use crate::text::{chars_of, join_seq, push_joined_chars, string_of};
use crate::bus::Cmd;
use crate::demo::{jn, jstr, o3, o4, obj3, obj4, vn, vs};
use crate::json::{Json, JsonV};

verus! {

/// A failed request: the error as the library reads it, and its display
/// text.
pub struct ControlError {
    pub info: AcpErrorInfo,
    pub text: String,
}

/// An extension call a plugin command makes: its method, its params, and
/// whether it goes as a notification (no reply awaited) or a request.
pub struct PluginCall {
    pub method: &'static str,
    pub params: Json,
    pub notify: bool,
}

/// The extension call of a plugin command: `commands/invoke` with the
/// command's name and arguments, `theme/selected` with the agent and theme
/// ids, or `overlay/event` with the overlay id, the event and its value
/// where it has one (a `change` goes as a notification); none for other
/// commands.
pub fn plugin_call(cmd: Cmd) -> (r: Option<PluginCall>)
    ensures
        match cmd {
            Cmd::InvokePluginCommand { name, args } => r matches Some(c) && c.method == crate::cordis::COMMAND_INVOKE
                && !c.notify && c.params@ == o3("protocol"@, vn(0), "name"@, vs(name@), "args"@, vs(args@)),
            Cmd::PluginThemeSelected { agent_id, id } => r matches Some(c) && c.method == crate::cordis::THEME_SELECTED
                && !c.notify && c.params@ == o3("protocol"@, vn(0), "agentId"@, vs(agent_id@), "id"@, vs(id@)),
            Cmd::PluginOverlayEvent { id, event, value } => r matches Some(c) && c.method == crate::cordis::OVERLAY_EVENT
                && c.notify == (event@ == "change"@)
                && c.params@ == match value {
                    Some(v) => o4("protocol"@, vn(0), "id"@, vs(id@), "event"@, vs(event@), "value"@, v@),
                    None => o3("protocol"@, vn(0), "id"@, vs(id@), "event"@, vs(event@)),
                },
            _ => r is None,
        },
{
    match cmd {
        Cmd::InvokePluginCommand { name, args } => Some(PluginCall {
            method: crate::cordis::COMMAND_INVOKE,
            params: obj3("protocol", jn(0), "name", jstr(name), "args", jstr(args)),
            notify: false,
        }),
        Cmd::PluginThemeSelected { agent_id, id } => Some(PluginCall {
            method: crate::cordis::THEME_SELECTED,
            params: obj3("protocol", jn(0), "agentId", jstr(agent_id), "id", jstr(id)),
            notify: false,
        }),
        Cmd::PluginOverlayEvent { id, event, value } => {
            let notify = crate::text::str_eq(event.as_str(), "change");
            let params = match value {
                Some(v) => obj4("protocol", jn(0), "id", jstr(id), "event", jstr(event), "value", v),
                None => obj3("protocol", jn(0), "id", jstr(id), "event", jstr(event)),
            };
            Some(PluginCall { method: crate::cordis::OVERLAY_EVENT, params, notify })
        },
        _ => None,
    }
}

/// What a command's reply means for the UI: nothing to report; a done or
/// failed tip; the sign-in prompt with the error's message; the agent
/// preset now set; or, for a permission the agent refused as a mode, a
/// retry as the `mode` config option followed by the given done tip.
pub enum ControlOutcome {
    Quiet,
    Done(String),
    Failed(String),
    NeedsAuth(String),
    PresetSet(String),
    PermissionFallback { preset: String, note: String },
}

/// A control outcome with its strings as character sequences.
pub enum ControlOutcomeV {
    Quiet,
    Done(Seq<char>),
    Failed(Seq<char>),
    NeedsAuth(Seq<char>),
    PresetSet(Seq<char>),
    PermissionFallback { preset: Seq<char>, note: Seq<char> },
}

impl View for ControlOutcome {
    type V = ControlOutcomeV;

    open spec fn view(&self) -> ControlOutcomeV {
        match self {
            ControlOutcome::Quiet => ControlOutcomeV::Quiet,
            ControlOutcome::Done(s) => ControlOutcomeV::Done(s@),
            ControlOutcome::Failed(s) => ControlOutcomeV::Failed(s@),
            ControlOutcome::NeedsAuth(s) => ControlOutcomeV::NeedsAuth(s@),
            ControlOutcome::PresetSet(s) => ControlOutcomeV::PresetSet(s@),
            ControlOutcome::PermissionFallback { preset, note } => ControlOutcomeV::PermissionFallback { preset: preset@, note: note@ },
        }
    }
}

/// Whether an error asks the user to sign in.
pub open spec fn auth_required_spec(info: AcpErrorInfo) -> bool {
    info.auth_required_code || info.code == ACP_AUTH_REQUIRED_CODE || auth_failure_spec(error_message_spec(info))
}

/// The outcome of a failed request whose non-sign-in failure is reported
/// as `prefix` followed by the error's text.
pub open spec fn failure_or_auth(e: ControlError, prefix: Seq<char>) -> ControlOutcomeV {
    if auth_required_spec(e.info) {
        ControlOutcomeV::NeedsAuth(error_message_spec(e.info))
    } else {
        ControlOutcomeV::Failed(prefix + e.text@)
    }
}

/// What the reply to `cmd` means: a plugin call's error is a failed tip; a
/// permission set reports itself done, or on a non-sign-in error retries
/// as the `mode` config option noting the error; a preset set reports the
/// preset, or fails the composition switch; a config option set is quiet
/// when it succeeds (its reply updates the surface) and fails otherwise;
/// sign-in errors of the session calls open the sign-in prompt.
pub open spec fn outcome_spec(cmd: Cmd, reply: Result<JsonV, ControlError>) -> ControlOutcomeV {
    match cmd {
        Cmd::InvokePluginCommand { .. } => match reply {
            Ok(_) => ControlOutcomeV::Quiet,
            Err(e) => ControlOutcomeV::Failed("plugin command failed: "@ + e.text@),
        },
        Cmd::PluginThemeSelected { .. } => match reply {
            Ok(_) => ControlOutcomeV::Quiet,
            Err(e) => ControlOutcomeV::Failed("theme Plugin selection failed: "@ + e.text@),
        },
        Cmd::PluginOverlayEvent { .. } => match reply {
            Ok(_) => ControlOutcomeV::Quiet,
            Err(e) => ControlOutcomeV::Failed("plugin overlay event failed: "@ + e.text@),
        },
        Cmd::SetPermission { preset, .. } => match reply {
            Ok(_) => ControlOutcomeV::Done("permission → "@ + preset@),
            Err(e) => if auth_required_spec(e.info) {
                ControlOutcomeV::NeedsAuth(error_message_spec(e.info))
            } else {
                ControlOutcomeV::PermissionFallback {
                    preset: preset@,
                    note: "permission → "@ + preset@ + " ("@ + e.text@ + ")"@,
                }
            },
        },
        Cmd::SetPreset { preset, .. } => match reply {
            Ok(_) => ControlOutcomeV::PresetSet(preset@),
            Err(e) => failure_or_auth(e, "composition switch failed: "@),
        },
        Cmd::SetConfigOption { .. } => match reply {
            Ok(_) => ControlOutcomeV::Quiet,
            Err(e) => failure_or_auth(e, "config option switch failed: "@),
        },
        _ => ControlOutcomeV::Quiet,
    }
}

/// The reply with its success value as a view.
pub open spec fn reply_view(reply: Result<Json, ControlError>) -> Result<JsonV, ControlError> {
    match reply {
        Ok(v) => Ok(v@),
        Err(e) => Err(e),
    }
}

/// `prefix` followed by `text`.
fn joined(prefix: &str, text: &str) -> (r: String)
    ensures
        r@ == prefix@ + text@,
{
    let mut s = prefix.to_string();
    s.append(text);
    s
}

/// A failed session call's outcome (see `failure_or_auth`).
fn fail_or_auth(e: &ControlError, prefix: &str) -> (r: ControlOutcome)
    ensures
        r@ == failure_or_auth(*e, prefix@),
{
    if is_auth_required_error(&e.info) {
        ControlOutcome::NeedsAuth(acp_error_message(&e.info))
    } else {
        ControlOutcome::Failed(joined(prefix, e.text.as_str()))
    }
}

/// What the reply to `cmd` means for the UI (see `outcome_spec`).
pub fn control_outcome(cmd: &Cmd, reply: Result<Json, ControlError>) -> (r: ControlOutcome)
    ensures
        r@ == outcome_spec(*cmd, reply_view(reply)),
{
    proof {
        reveal_strlit("plugin command failed: ");
        reveal_strlit("theme Plugin selection failed: ");
        reveal_strlit("plugin overlay event failed: ");
        reveal_strlit("permission → ");
        reveal_strlit(" (");
        reveal_strlit(")");
        reveal_strlit("composition switch failed: ");
        reveal_strlit("config option switch failed: ");
    }
    match cmd {
        Cmd::InvokePluginCommand { .. } => match &reply {
            Ok(_) => ControlOutcome::Quiet,
            Err(e) => ControlOutcome::Failed(joined("plugin command failed: ", e.text.as_str())),
        },
        Cmd::PluginThemeSelected { .. } => match &reply {
            Ok(_) => ControlOutcome::Quiet,
            Err(e) => ControlOutcome::Failed(joined("theme Plugin selection failed: ", e.text.as_str())),
        },
        Cmd::PluginOverlayEvent { .. } => match &reply {
            Ok(_) => ControlOutcome::Quiet,
            Err(e) => ControlOutcome::Failed(joined("plugin overlay event failed: ", e.text.as_str())),
        },
        Cmd::SetPermission { preset, .. } => match &reply {
            Ok(_) => ControlOutcome::Done(joined("permission → ", preset.as_str())),
            Err(e) => {
                if is_auth_required_error(&e.info) {
                    ControlOutcome::NeedsAuth(acp_error_message(&e.info))
                } else {
                    let mut note = joined("permission → ", preset.as_str());
                    note.append(" (");
                    note.append(e.text.as_str());
                    note.append(")");
                    ControlOutcome::PermissionFallback { preset: preset.clone(), note }
                }
            },
        },
        Cmd::SetPreset { preset, .. } => match &reply {
            Ok(_) => ControlOutcome::PresetSet(preset.clone()),
            Err(e) => fail_or_auth(e, "composition switch failed: "),
        },
        Cmd::SetConfigOption { .. } => match &reply {
            Ok(_) => ControlOutcome::Quiet,
            Err(e) => fail_or_auth(e, "config option switch failed: "),
        },
        _ => ControlOutcome::Quiet,
    }
}


/// The sign-in method `authenticate` uses: the one named `id` where it is
/// advertised, else the first advertised.
pub open spec fn chosen_method(methods: Seq<AuthMethodInfo>, id: Seq<char>) -> Option<AuthMethodInfo> {
    if id.len() > 0 && first_with_id(methods, id) is Some {
        first_with_id(methods, id)
    } else if methods.len() > 0 {
        Some(methods[0])
    } else {
        None
    }
}

/// How an `authenticate` command goes: it fails with a message before any
/// request, or it sends `authenticate` for the advertised method at
/// `index` with the meta its values make.
pub enum AuthPlan {
    Fail(String),
    Send { index: usize, meta: Option<Vec<(String, Json)>> },
}

/// The names of a method's credential variables joined by `, `.
pub open spec fn var_names(m: AuthMethodInfo) -> Seq<char> {
    join_seq(m.vars@.map_values(|v: crate::acp_auth::AuthVar| v.name@), ", "@)
}

/// Skipping entries with another id leaves the first with `id` unchanged.
proof fn lemma_first_with_id_skip(ms: Seq<AuthMethodInfo>, id: Seq<char>, i: int)
    requires
        0 <= i <= ms.len(),
        forall|j: int| 0 <= j < i ==> ms[j].id@ != id,
    ensures
        first_with_id(ms, id) == first_with_id(ms.subrange(i, ms.len() as int), id),
    decreases i,
{
    if i == 0 {
        assert(ms.subrange(0, ms.len() as int) =~= ms);
    } else {
        lemma_first_with_id_skip(ms.drop_first(), id, i - 1);
        assert(ms.drop_first().subrange(i - 1, ms.len() - 1) =~= ms.subrange(i, ms.len() as int));
    }
}

/// Where the first method with `id` stands.
fn index_with_id(methods: &Vec<AuthMethodInfo>, id: &str) -> (r: Option<usize>)
    ensures
        match r {
            Some(i) => i < methods@.len() && first_with_id(methods@, id@) == Some(methods@[i as int]),
            None => first_with_id(methods@, id@) is None,
        },
{
    let mut i: usize = 0;
    while i < methods.len()
        invariant
            i <= methods@.len(),
            forall|j: int| 0 <= j < i ==> methods@[j].id@ != id@,
        decreases methods@.len() - i,
    {
        if crate::text::str_eq(methods[i].id.as_str(), id) {
            proof {
                lemma_first_with_id_skip(methods@, id@, i as int);
            }
            return Some(i);
        }
        i += 1;
    }
    proof {
        lemma_first_with_id_skip(methods@, id@, i as int);
    }
    None
}

/// Plans `authenticate` with method `method_id` and the typed `values`:
/// the method named (or else the first advertised); none advertised
/// fails; a method that reads environment variables cannot be started as
/// a sign-in flow; a form method whose values make no meta asks for them;
/// any other goes out with the meta its values make.
pub fn plan_authenticate(methods: &Vec<AuthMethodInfo>, method_id: &str, values: &StringMap) -> (r: AuthPlan)
    ensures
        match chosen_method(methods@, method_id@) {
            None => r matches AuthPlan::Fail(m) && m@ == (if method_id@.len() == 0 {
                "no supported ACP auth method is available"@
            } else {
                "ACP auth method is unavailable or not supported: "@ + method_id@
            }),
            Some(m) => if m.auth_type@ == "env_var"@ {
                r matches AuthPlan::Fail(f) && f@ == (if m.vars@.len() == 0 {
                    "ACP auth method "@ + m.id@ + " requires credential variables and cannot be started as a sign-in flow."@
                } else {
                    "ACP auth method "@ + m.id@ + " requires credential variables ("@ + var_names(m)
                        + ") and cannot be started as a sign-in flow."@
                })
            } else if m.form && auth_meta_plan(m, values@) is NoMeta {
                r matches AuthPlan::Fail(f) && f@ == "sign-in needs values — /auth <api-key> (gateway: /auth <base-url> <api-key>)"@
            } else {
                r matches AuthPlan::Send { index, meta } && index < methods@.len() && methods@[index as int] == m
                    && meta_shape(meta, auth_meta_plan(m, values@))
            },
        },
{
    let found = if method_id.unicode_len() > 0 { index_with_id(methods, method_id) } else { None };
    let index = match found {
        Some(i) => i,
        None => {
            if methods.len() == 0 {
                if method_id.unicode_len() == 0 {
                    return AuthPlan::Fail("no supported ACP auth method is available".to_string());
                }
                let mut m = "ACP auth method is unavailable or not supported: ".to_string();
                m.append(method_id);
                return AuthPlan::Fail(m);
            }
            0
        },
    };
    let method = &methods[index];
    if method.is_env_prompt() {
        let mut names: Vec<Vec<char>> = Vec::new();
        let mut k: usize = 0;
        while k < method.vars.len()
            invariant
                k <= method.vars@.len(),
                names@.map_values(|p: Vec<char>| p@) == method.vars@.subrange(0, k as int).map_values(|v: crate::acp_auth::AuthVar| v.name@),
            decreases method.vars@.len() - k,
        {
            let ghost before = names@.map_values(|p: Vec<char>| p@);
            names.push(chars_of(method.vars[k].name.as_str()));
            proof {
                assert(names@.map_values(|p: Vec<char>| p@) =~= before.push(method.vars@[k as int].name@));
                assert(method.vars@.subrange(0, k + 1).map_values(|v: crate::acp_auth::AuthVar| v.name@)
                    =~= method.vars@.subrange(0, k as int).map_values(|v: crate::acp_auth::AuthVar| v.name@).push(method.vars@[k as int].name@));
            }
            k += 1;
        }
        assert(method.vars@.subrange(0, method.vars@.len() as int) =~= method.vars@);
        let mut out: Vec<char> = Vec::new();
        let mut msg = "ACP auth method ".to_string();
        msg.append(method.id.as_str());
        if method.vars.len() == 0 {
            msg.append(" requires credential variables and cannot be started as a sign-in flow.");
        } else {
            push_joined_chars(&mut out, &names, ", ");
            assert(out@ =~= var_names(*method));
            msg.append(" requires credential variables (");
            msg.append(string_of(out.as_slice()).as_str());
            msg.append(") and cannot be started as a sign-in flow.");
        }
        return AuthPlan::Fail(msg);
    }
    let meta = authenticate_meta_from_method(method, values);
    if method.form && meta.is_none() {
        proof {
            if !(auth_meta_plan(*method, values@) is NoMeta) {
                assert(meta_shape(meta, auth_meta_plan(*method, values@)));
            }
        }
        return AuthPlan::Fail("sign-in needs values — /auth <api-key> (gateway: /auth <base-url> <api-key>)".to_string());
    }
    proof {
        if method.form && auth_meta_plan(*method, values@) is NoMeta {
            assert(meta is None);
        }
    }
    AuthPlan::Send { index, meta }
}

} // verus!
