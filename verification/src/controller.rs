//! The pure part of the harness controller: reading the runtime's
//! `initialize`, `tui/catalog` and `tui/skills` results, and the stock
//! presets the demo catalog shows.

use vstd::prelude::*;
use vstd::string::*;
use crate::bus::{CatalogModel, CatalogModelView, CatalogPreset, CatalogPresetView, SkillInfo, SkillInfoView};
use crate::events::{models_view, presets_view, skills_view};
use crate::json::{Json, JsonV, as_bool, as_str, entry_views, get, get_opt, json_views, str_field};
use crate::bus::{Cmd, CtlEvent, PromptBlock};
use crate::demo::{arr1, element, js, member, o1, o2, obj1, obj2, vs};
use crate::text::str_eq;

verus! {

/// A string, or a default when absent.
pub open spec fn text_or(v: Option<Seq<char>>, d: Seq<char>) -> Seq<char> {
    match v {
        Some(s) => s,
        None => d,
    }
}

/// `name vversion` of the runtime's `serverInfo`, defaulting to
/// `deepseek-harness` and `?`.
pub open spec fn server_spec(result: Json) -> Seq<char> {
    let info = get(result, "serverInfo"@);
    text_or(as_str(get_opt(info, "name"@)), "deepseek-harness"@) + " v"@ + text_or(as_str(get_opt(info, "version"@)), "?"@)
}

fn text_member(v: Option<&Json>) -> (r: Option<&str>)
    ensures
        crate::app::str_opt_view(r) == as_str(crate::json::deref_opt(v)),
{
    match v {
        Some(Json::String(s)) => Some(s.as_str()),
        _ => None,
    }
}

/// The runtime's name and version from its `initialize` result.
pub fn describe_server(result: &Json) -> (s: String)
    ensures
        s@ == server_spec(*result),
{
    let info = result.get("serverInfo");
    let name = match text_member(crate::json::get_in(info, "name")) {
        Some(n) => n,
        None => "deepseek-harness",
    };
    let version = match text_member(crate::json::get_in(info, "version")) {
        Some(v) => v,
        None => "?",
    };
    let mut s = String::from_str(name);
    s.append(" v");
    s.append(version);
    s
}

/// The named skills of a `tui/skills` result, in order.
pub open spec fn skills_rows(items: Seq<Json>) -> Seq<SkillInfoView>
    decreases items.len(),
{
    if items.len() == 0 {
        Seq::empty()
    } else {
        let prev = skills_rows(items.drop_last());
        let s = items.last();
        match as_str(get(s, "name"@)) {
            Some(name) => prev.push(SkillInfoView {
                name,
                description: text_or(as_str(get(s, "description"@)), Seq::empty()),
                config_action: None,
                client_command: false,
            }),
            None => prev,
        }
    }
}

/// The skills a `tui/skills` result lists under `skills`.
pub open spec fn parse_skills_spec(value: Json) -> Seq<SkillInfoView> {
    match get(value, "skills"@) {
        Some(Json::Array(a)) => skills_rows(a@),
        _ => Seq::empty(),
    }
}

/// The user-invocable skills of a `tui/skills` result: each named entry
/// with its description; nameless entries are skipped.
pub fn parse_skills(value: &Json) -> (r: Vec<SkillInfo>)
    ensures
        skills_view(r@) == parse_skills_spec(*value),
{
    let mut out: Vec<SkillInfo> = Vec::new();
    if let Some(Json::Array(arr)) = value.get("skills") {
        let mut i: usize = 0;
        while i < arr.len()
            invariant
                i <= arr@.len(),
                skills_view(out@) == skills_rows(arr@.subrange(0, i as int)),
            decreases arr@.len() - i,
        {
            let s = &arr[i];
            let ghost before = skills_view(out@);
            assert(arr@.subrange(0, i + 1).drop_last() =~= arr@.subrange(0, i as int));
            assert(arr@.subrange(0, i + 1).last() == *s);
            if let Some(name) = text_member(s.get("name")) {
                let skill = SkillInfo {
                    name: String::from_str(name),
                    description: str_field(s, "description"),
                    config_action: None,
                    client_command: false,
                };
                out.push(skill);
                assert(skills_view(out@) =~= before.push(skill@));
            }
            i += 1;
        }
        assert(arr@.subrange(0, arr@.len() as int) =~= arr@);
    } else {
        assert(skills_view(out@) =~= Seq::<SkillInfoView>::empty());
    }
    out
}

/// The models of a `tui/catalog` result that carry an id.
pub open spec fn catalog_models(items: Seq<Json>) -> Seq<CatalogModelView>
    decreases items.len(),
{
    if items.len() == 0 {
        Seq::empty()
    } else {
        let prev = catalog_models(items.drop_last());
        let m = items.last();
        match as_str(get(m, "id"@)) {
            Some(id) => prev.push(CatalogModelView {
                provider: text_or(as_str(get(m, "provider"@)), Seq::empty()),
                id,
                name: text_or(as_str(get(m, "name"@)), id),
                vision: as_bool(get(m, "vision"@)) == Some(true),
            }),
            None => prev,
        }
    }
}

/// The presets of a `tui/catalog` result that carry an id.
pub open spec fn catalog_presets(items: Seq<Json>) -> Seq<CatalogPresetView>
    decreases items.len(),
{
    if items.len() == 0 {
        Seq::empty()
    } else {
        let prev = catalog_presets(items.drop_last());
        let p = items.last();
        match as_str(get(p, "id"@)) {
            Some(id) => prev.push(CatalogPresetView {
                id,
                name: text_or(as_str(get(p, "name"@)), id),
                description: text_or(as_str(get(p, "description"@)), Seq::empty()),
                broken: as_bool(get(p, "broken"@)) == Some(true),
            }),
            None => prev,
        }
    }
}

/// The models and presets of a `tui/catalog` result.
pub open spec fn parse_catalog_spec(value: Json) -> (Seq<CatalogModelView>, Seq<CatalogPresetView>) {
    let models = match get(value, "models"@) {
        Some(Json::Array(a)) => catalog_models(a@),
        _ => Seq::empty(),
    };
    let presets = match get(value, "presets"@) {
        Some(Json::Array(a)) => catalog_presets(a@),
        _ => Seq::empty(),
    };
    (models, presets)
}

/// Reads a `tui/catalog` result into displayable models and presets:
/// entries without an id are skipped, a name defaults to the id, a
/// description to empty, and the vision and broken flags to false.
pub fn parse_catalog(value: &Json) -> (r: (Vec<CatalogModel>, Vec<CatalogPreset>))
    ensures
        (models_view(r.0@), presets_view(r.1@)) == parse_catalog_spec(*value),
{
    let mut out: Vec<CatalogModel> = Vec::new();
    if let Some(Json::Array(arr)) = value.get("models") {
        let mut i: usize = 0;
        while i < arr.len()
            invariant
                i <= arr@.len(),
                models_view(out@) == catalog_models(arr@.subrange(0, i as int)),
            decreases arr@.len() - i,
        {
            let m = &arr[i];
            let ghost before = models_view(out@);
            assert(arr@.subrange(0, i + 1).drop_last() =~= arr@.subrange(0, i as int));
            assert(arr@.subrange(0, i + 1).last() == *m);
            if let Some(id) = text_member(m.get("id")) {
                let name = match text_member(m.get("name")) {
                    Some(n) => n,
                    None => id,
                };
                let vision = match m.get("vision") {
                    Some(Json::Bool(b)) => *b,
                    _ => false,
                };
                let model = CatalogModel {
                    provider: str_field(m, "provider"),
                    id: String::from_str(id),
                    name: String::from_str(name),
                    vision,
                };
                out.push(model);
                assert(models_view(out@) =~= before.push(model@));
            }
            i += 1;
        }
        assert(arr@.subrange(0, arr@.len() as int) =~= arr@);
    } else {
        assert(models_view(out@) =~= Seq::<CatalogModelView>::empty());
    }
    let mut presets: Vec<CatalogPreset> = Vec::new();
    if let Some(Json::Array(arr)) = value.get("presets") {
        let mut i: usize = 0;
        while i < arr.len()
            invariant
                i <= arr@.len(),
                presets_view(presets@) == catalog_presets(arr@.subrange(0, i as int)),
            decreases arr@.len() - i,
        {
            let p = &arr[i];
            let ghost before = presets_view(presets@);
            assert(arr@.subrange(0, i + 1).drop_last() =~= arr@.subrange(0, i as int));
            assert(arr@.subrange(0, i + 1).last() == *p);
            if let Some(id) = text_member(p.get("id")) {
                let name = match text_member(p.get("name")) {
                    Some(n) => n,
                    None => id,
                };
                let broken = match p.get("broken") {
                    Some(Json::Bool(b)) => *b,
                    _ => false,
                };
                let preset = CatalogPreset {
                    id: String::from_str(id),
                    name: String::from_str(name),
                    description: str_field(p, "description"),
                    broken,
                };
                presets.push(preset);
                assert(presets_view(presets@) =~= before.push(preset@));
            }
            i += 1;
        }
        assert(arr@.subrange(0, arr@.len() as int) =~= arr@);
    } else {
        assert(presets_view(presets@) =~= Seq::<CatalogPresetView>::empty());
    }
    (out, presets)
}

/// The stock agent modes as catalog presets (none broken), as the demo
/// catalog shows them.
pub fn stock_presets() -> (r: Vec<CatalogPreset>)
    ensures
        presets_view(r@) == crate::app::agent_mode_table().map_values(
            |t: (Seq<char>, Seq<char>, Seq<char>)| CatalogPresetView { id: t.0, name: t.1, description: t.2, broken: false },
        ),
{
    let modes = crate::app::agent_modes();
    let ghost table = crate::app::agent_mode_table();
    let ghost target = table.map_values(
        |t: (Seq<char>, Seq<char>, Seq<char>)| CatalogPresetView { id: t.0, name: t.1, description: t.2, broken: false },
    );
    let mut out: Vec<CatalogPreset> = Vec::new();
    let mut i: usize = 0;
    while i < modes.len()
        invariant
            i <= modes@.len(),
            modes@.map_values(|t: (&str, &str, &str)| crate::app::triple_view(t)) == table,
            target == table.map_values(
                |t: (Seq<char>, Seq<char>, Seq<char>)| CatalogPresetView { id: t.0, name: t.1, description: t.2, broken: false },
            ),
            presets_view(out@) == target.subrange(0, i as int),
        decreases modes@.len() - i,
    {
        let (id, name, desc) = modes[i];
        assert(crate::app::triple_view(modes@[i as int]) == table[i as int]);
        let ghost before = presets_view(out@);
        let p = CatalogPreset {
            id: String::from_str(id),
            name: String::from_str(name),
            description: String::from_str(desc),
            broken: false,
        };
        out.push(p);
        assert(presets_view(out@) =~= before.push(p@));
        i += 1;
        assert(presets_view(out@) =~= target.subrange(0, i as int));
    }
    assert(target.subrange(0, target.len() as int) =~= target);
    out
}

// ----- what the controller loop sends and tells -----

/// The effort ids of `tui/model-info`'s `reasoning.efforts` entries that
/// carry a string `id`.
pub open spec fn effort_ids(items: Seq<Json>) -> Seq<Seq<char>>
    decreases items.len(),
{
    if items.len() == 0 {
        Seq::empty()
    } else {
        let rest = effort_ids(items.drop_last());
        match as_str(get(items.last(), "id"@)) {
            Some(id) => rest.push(id),
            None => rest,
        }
    }
}

/// The efforts a `tui/model-info` result advertises and its default effort.
pub open spec fn model_info_efforts_spec(v: Json) -> (Seq<Seq<char>>, Option<Seq<char>>) {
    let reasoning = get(v, "reasoning"@);
    (
        match get_opt(reasoning, "efforts"@) {
            Some(Json::Array(a)) => effort_ids(a@),
            _ => Seq::empty(),
        },
        as_str(get_opt(reasoning, "defaultEffort"@)),
    )
}

/// The efforts a `tui/model-info` result advertises and its default effort.
pub fn model_info_efforts(value: &Json) -> (r: (Vec<String>, Option<String>))
    ensures
        crate::acp::strings_view(r.0@) == model_info_efforts_spec(*value).0,
        crate::text::opt_view(r.1) == model_info_efforts_spec(*value).1,
{
    proof {
        reveal_strlit("reasoning");
        reveal_strlit("efforts");
        reveal_strlit("defaultEffort");
        reveal_strlit("id");
    }
    let reasoning = value.get("reasoning");
    let mut efforts: Vec<String> = Vec::new();
    match crate::json::get_in(reasoning, "efforts") {
        Some(Json::Array(a)) => {
            let mut i: usize = 0;
            while i < a.len()
                invariant
                    i <= a@.len(),
                    crate::acp::strings_view(efforts@) == effort_ids(a@.subrange(0, i as int)),
                decreases a@.len() - i,
            {
                let ghost before = efforts@;
                assert(a@.subrange(0, i + 1).drop_last() =~= a@.subrange(0, i as int));
                assert(a@.subrange(0, i + 1).last() == a@[i as int]);
                if let Some(id) = text_member(a[i].get("id")) {
                    efforts.push(String::from_str(id));
                    assert(crate::acp::strings_view(efforts@) =~= crate::acp::strings_view(before).push(id@));
                }
                i += 1;
            }
            assert(a@.subrange(0, a@.len() as int) =~= a@);
        },
        _ => {},
    }
    let default = match text_member(crate::json::get_in(reasoning, "defaultEffort")) {
        Some(d) => Some(String::from_str(d)),
        None => None,
    };
    (efforts, default)
}

/// The efforts offered where the runtime offers none: off, high, max.
pub fn stock_efforts() -> (r: Vec<String>)
    ensures
        crate::acp::strings_view(r@) == seq!["off"@, "high"@, "max"@],
{
    let r = vec![String::from_str("off"), String::from_str("high"), String::from_str("max")];
    assert(crate::acp::strings_view(r@) =~= seq!["off"@, "high"@, "max"@]);
    r
}

/// The approval policy the demo pairs with a permission preset: never ask
/// under full access, ask otherwise.
pub open spec fn demo_approval(preset: Seq<char>) -> Seq<char> {
    if preset == "danger-full-access"@ { "never"@ } else { "ask"@ }
}

/// The `session.event` params of one demo event.
pub open spec fn demo_event_params(session: Seq<char>, t: Seq<char>, data: JsonV) -> JsonV {
    o2("sessionId"@, vs(session), "event"@, o2("type"@, vs(t), "data"@, data))
}

/// The three durable facts the host would append for a permission switch,
/// as `session.event` params: the preset, the sandbox mode, and the
/// approval policy.
pub open spec fn demo_permission_spec(session: Seq<char>, preset: Seq<char>) -> Seq<JsonV> {
    seq![
        demo_event_params(session, "permission/preset"@, o1("preset"@, vs(preset))),
        demo_event_params(session, "sandbox/mode"@, o1("mode"@, vs(preset))),
        demo_event_params(session, "approval/policy"@, o1("policy"@, vs(demo_approval(preset)))),
    ]
}

fn demo_event(session: &str, t: &str, data: Json) -> (r: Json)
    ensures
        r@ == demo_event_params(session@, t@, data@),
{
    obj2("sessionId", js(session), "event", obj2("type", js(t), "data", data))
}

/// The demo's answer to a permission switch: the host's three facts.
pub fn demo_permission_events(session: &str, preset: &str) -> (r: Vec<Json>)
    ensures
        json_views(r@) == demo_permission_spec(session@, preset@),
{
    proof {
        reveal_strlit("danger-full-access");
    }
    let approval = if str_eq(preset, "danger-full-access") { "never" } else { "ask" };
    let mut out: Vec<Json> = Vec::new();
    assert(json_views(out@) =~= Seq::<JsonV>::empty());
    element(&mut out, demo_event(session, "permission/preset", obj1("preset", js(preset))));
    element(&mut out, demo_event(session, "sandbox/mode", obj1("mode", js(preset))));
    element(&mut out, demo_event(session, "approval/policy", obj1("policy", js(approval))));
    assert(json_views(out@) =~= demo_permission_spec(session@, preset@));
    out
}

/// The demo's answer to an agent preset pick: the fact the host records
/// when the preset composes on the first prompt.
pub fn demo_preset_event(session: &str, preset: &str) -> (r: Json)
    ensures
        r@ == demo_event_params(session@, "agent-preset/selected"@, o1("agentPreset"@, vs(preset@))),
{
    demo_event(session, "agent-preset/selected", obj1("agentPreset", js(preset)))
}

/// What a successful permission switch reports: staged switches apply from
/// the first prompt.
pub open spec fn permission_done_spec(preset: Seq<char>, result: Json) -> Seq<char> {
    if as_str(get(result, "applied"@)) == Some("on-first-prompt"@) {
        "permission → "@ + preset + " · staged, applies from the first prompt"@
    } else {
        "permission → "@ + preset
    }
}

/// What a successful permission switch reports.
pub fn permission_done_message(preset: &str, result: &Json) -> (r: String)
    ensures
        r@ == permission_done_spec(preset@, *result),
{
    proof {
        reveal_strlit("applied");
        reveal_strlit("on-first-prompt");
    }
    let staged = match text_member(result.get("applied")) {
        Some(a) => str_eq(a, "on-first-prompt"),
        None => false,
    };
    let mut s = String::from_str("permission → ");
    s.append(preset);
    if staged {
        s.append(" · staged, applies from the first prompt");
    }
    s
}

/// What a failed permission switch reports: the error, and a pointer to
/// the picker when the preset is unknown.
pub open spec fn permission_failed_spec(err: Seq<char>) -> Seq<char> {
    "permission switch failed: "@ + err + if crate::text::contains_seq(err, "unknown permission preset"@)
        || crate::text::contains_seq(err, "unknown preset"@) {
        " — /permission opens the preset picker"@
    } else {
        Seq::empty()
    }
}

/// What a failed permission switch reports, given the error's text.
pub fn permission_failed_message(err: &str) -> (r: String)
    ensures
        r@ == permission_failed_spec(err@),
{
    let cs = crate::text::chars_of(err);
    let unknown = crate::text::contains_str(cs.as_slice(), "unknown permission preset")
        || crate::text::contains_str(cs.as_slice(), "unknown preset");
    let mut s = String::from_str("permission switch failed: ");
    s.append(err);
    if unknown {
        s.append(" — /permission opens the preset picker");
    }
    s
}

/// What a failed agent-mode switch reports: the error, and the way out
/// when the host has locked the preset.
pub open spec fn mode_failed_spec(err: Seq<char>) -> Seq<char> {
    "mode switch failed: "@ + err + if crate::text::contains_seq(err, "locked"@) {
        " — /new starts a fresh session, then pick the mode"@
    } else {
        Seq::empty()
    }
}

/// What a failed agent-mode switch reports, given the error's text.
pub fn mode_failed_message(err: &str) -> (r: String)
    ensures
        r@ == mode_failed_spec(err@),
{
    let cs = crate::text::chars_of(err);
    let locked = crate::text::contains_str(cs.as_slice(), "locked");
    let mut s = String::from_str("mode switch failed: ");
    s.append(err);
    if locked {
        s.append(" — /new starts a fresh session, then pick the mode");
    }
    s
}

/// The texts of a prompt's blocks, joined (what the demo answers to; its
/// images are dropped).
pub open spec fn prompt_text_spec(blocks: Seq<PromptBlock>) -> Seq<char>
    decreases blocks.len(),
{
    if blocks.len() == 0 {
        Seq::empty()
    } else {
        prompt_text_spec(blocks.drop_last()) + match blocks.last() {
            PromptBlock::Text(t) => t@,
            PromptBlock::Image(_) => Seq::empty(),
        }
    }
}

/// The texts of a prompt's blocks, joined.
pub fn prompt_text(blocks: &Vec<PromptBlock>) -> (r: String)
    ensures
        r@ == prompt_text_spec(blocks@),
{
    let mut s = String::new();
    let mut i: usize = 0;
    while i < blocks.len()
        invariant
            i <= blocks@.len(),
            s@ == prompt_text_spec(blocks@.subrange(0, i as int)),
        decreases blocks@.len() - i,
    {
        assert(blocks@.subrange(0, i + 1).drop_last() =~= blocks@.subrange(0, i as int));
        assert(blocks@.subrange(0, i + 1).last() == blocks@[i as int]);
        match &blocks[i] {
            PromptBlock::Text(t) => {
                s.append(t.as_str());
            },
            PromptBlock::Image(_) => {
                assert(s@ + Seq::<char>::empty() =~= s@);
            },
        }
        i += 1;
    }
    assert(blocks@.subrange(0, blocks@.len() as int) =~= blocks@);
    s
}

/// The `session/prompt` params of a text prompt.
pub fn text_prompt_params(session: &str, text: &str) -> (r: Json)
    ensures
        r@ == o2("sessionId"@, vs(session@), "contentBlocks"@, JsonV::Array(seq![crate::demo::text_block(text@)])),
{
    obj2("sessionId", js(session), "contentBlocks", arr1(obj2("type", js("text"), "text", js(text))))
}

/// The message id a `session/prompt` result names, empty when none.
pub fn queued_message_id(result: &Json) -> (r: String)
    ensures
        r@ == text_or(as_str(get(*result, "messageId"@)), Seq::empty()),
{
    proof {
        reveal_strlit("messageId");
    }
    match text_member(result.get("messageId")) {
        Some(m) => String::from_str(m),
        None => String::new(),
    }
}


/// The controller's standing state: the model it runs, and whether it
/// plays the demo or drives an attached runtime (else a spawned legacy
/// runtime).
pub struct ControllerState {
    pub model: String,
    pub provider: String,
    pub demo: bool,
    pub attached: bool,
}

/// What the controller does for one command.
pub enum ControllerAction {
    /// Play a demo turn for this text.
    DemoTurn { session_id: String, text: String },
    /// Prompt the attached runtime (readying it first).
    PromptAttached { session_id: String, text: String },
    /// Run the prompt on the spawned legacy runtime.
    PromptLegacy { session_id: String, text: String },
    /// Attach the images to the attached runtime, then prompt with them.
    ImagesAttached { session_id: String, blocks: Vec<PromptBlock> },
    /// Ask the attached runtime (if one is running) to interrupt the
    /// session's turn, then report the turn interrupted.
    InterruptAttached { session_id: String },
    /// Kill the legacy runtime (if one is running), then report the turn
    /// interrupted.
    InterruptLegacy,
    /// Kill the legacy runtime so the next prompt restarts it, and report
    /// the given tip.
    RestartRuntime(String),
    /// Send `method` with `params` to the attached runtime and read its
    /// reply (or, for a model switch with no runtime running, do nothing).
    Request { method: &'static str, params: Json },
    /// Report these `session.event` params, as the demo host would.
    DemoEvents(Vec<Json>),
    /// Report this status update.
    Report(CtlEvent),
    /// Report this tip.
    Done(String),
    /// Report this failure.
    Failed(String),
    /// Nothing to do.
    Nothing,
    /// Shut the runtime down and stop.
    Shutdown,
}

/// The params of a live model switch: the session, then the provider, the
/// model and the reasoning effort that were given.
pub open spec fn select_model_params(session: Seq<char>, provider: Option<String>, model: Option<String>, effort: Option<String>) -> JsonV {
    JsonV::Object(
        seq![("sessionId"@, vs(session))]
            + (match provider { Some(p) => seq![("provider"@, vs(p@))], None => Seq::empty() })
            + (match model { Some(m) => seq![("model"@, vs(m@))], None => Seq::empty() })
            + (match effort { Some(e) => seq![("reasoningEffort"@, vs(e@))], None => Seq::empty() }),
    )
}

/// The demo catalog's models.
pub open spec fn demo_models_spec() -> Seq<CatalogModelView> {
    seq![
        CatalogModelView { provider: "deepseek-official"@, id: "deepseek-v4-flash"@, name: "DeepSeek V4 Flash"@, vision: false },
        CatalogModelView { provider: "deepseek-official"@, id: "deepseek-v4-pro"@, name: "DeepSeek V4 Pro"@, vision: true },
    ]
}

/// The demo's skills.
pub open spec fn demo_skills_spec() -> Seq<SkillInfoView> {
    seq![
        SkillInfoView { name: "commit-helper"@, description: "draft a conventional commit from the diff"@, config_action: None, client_command: false },
        SkillInfoView { name: "code-review"@, description: "structured review of the working tree"@, config_action: None, client_command: false },
    ]
}

/// The empty JSON object.
pub open spec fn empty_obj() -> JsonV {
    JsonV::Object(Seq::empty())
}

/// A request to the attached runtime where it runs, else the failure.
pub open spec fn request_or(live: bool, r: ControllerAction, method: Seq<char>, params: JsonV, failure: Seq<char>) -> bool {
    if live {
        r matches ControllerAction::Request { method: m, params: p } && m@ == method && p@ == params
    } else {
        r matches ControllerAction::Failed(f) && f@ == failure
    }
}

/// What the controller does for `cmd` (the state before the command is
/// `st`, the model after it `model`): see `controller_step`.
pub open spec fn controller_step_spec(st: ControllerState, cmd: Cmd, present: bool, alive: bool, model: Seq<char>, r: ControllerAction) -> bool {
    let live = st.attached && present && alive;
    match cmd {
        Cmd::Prompt { session_id, text } => if st.demo {
            r matches ControllerAction::DemoTurn { session_id: s, text: t } && s == session_id && t == text
        } else if st.attached {
            r matches ControllerAction::PromptAttached { session_id: s, text: t } && s == session_id && t == text
        } else {
            r matches ControllerAction::PromptLegacy { session_id: s, text: t } && s == session_id && t == text
        },
        Cmd::Steer { session_id, text, .. } => if st.demo {
            r matches ControllerAction::DemoTurn { session_id: s, text: t } && s == session_id && t == text
        } else if st.attached {
            r matches ControllerAction::PromptAttached { session_id: s, text: t } && s == session_id && t == text
        } else {
            r matches ControllerAction::PromptLegacy { session_id: s, text: t } && s == session_id && t == text
        },
        Cmd::PromptImages { session_id, blocks } => if st.demo {
            r matches ControllerAction::DemoTurn { session_id: s, text: t } && s == session_id && t@ == prompt_text_spec(blocks@)
        } else if st.attached {
            r matches ControllerAction::ImagesAttached { session_id: s, blocks: b } && s == session_id && b@ == blocks@
        } else {
            r matches ControllerAction::Failed(f) && f@ == "image attachments are unavailable on the legacy demo transport"@
        },
        Cmd::SteerImages { session_id, blocks, .. } => if st.demo {
            r matches ControllerAction::DemoTurn { session_id: s, text: t } && s == session_id && t@ == prompt_text_spec(blocks@)
        } else if st.attached {
            r matches ControllerAction::ImagesAttached { session_id: s, blocks: b } && s == session_id && b@ == blocks@
        } else {
            r matches ControllerAction::Failed(f) && f@ == "image attachments are unavailable on the legacy demo transport"@
        },
        Cmd::Interrupt { session_id } => if st.attached {
            r matches ControllerAction::InterruptAttached { session_id: s } && s == session_id
        } else {
            r is InterruptLegacy
        },
        Cmd::SelectModel { session_id, provider, model: m, effort } => if st.demo {
            r matches ControllerAction::Done(d) && d@ == "model → "@ + model + " (demo)"@
        } else if st.attached {
            if present {
                r matches ControllerAction::Request { method, params } && method@ == "tui/select-model"@
                    && params@ == select_model_params(session_id@, provider, m, effort)
            } else {
                r is Nothing
            }
        } else {
            r matches ControllerAction::RestartRuntime(d) && d@ == "model → "@ + model + " (runtime restarts on next prompt)"@
        },
        Cmd::FetchCatalog => if st.demo {
            r matches ControllerAction::Report(CtlEvent::Catalog { models, presets })
                && models_view(models@) == demo_models_spec()
                && presets_view(presets@) == crate::app::agent_mode_table().map_values(
                    |t: (Seq<char>, Seq<char>, Seq<char>)| CatalogPresetView { id: t.0, name: t.1, description: t.2, broken: false })
        } else {
            request_or(live, r, "tui/catalog"@, empty_obj(), "catalog is unavailable on the legacy demo transport"@)
        },
        Cmd::FetchSkills => if st.demo {
            r matches ControllerAction::Report(CtlEvent::Skills { skills }) && skills_view(skills@) == demo_skills_spec()
        } else if live {
            r matches ControllerAction::Request { method, params } && method@ == "tui/skills"@ && params@ == empty_obj()
        } else {
            r matches ControllerAction::Report(CtlEvent::Skills { skills }) && skills@.len() == 0
        },
        Cmd::FetchPlugins { .. } => r matches ControllerAction::Report(CtlEvent::Plugins { plugins }) && plugins@.len() == 0,
        Cmd::SetPluginEnabled { .. } => r matches ControllerAction::Failed(f) && f@ == "dynamic plugins require the ACP transport"@,
        Cmd::InvokePluginCommand { .. } => r matches ControllerAction::Failed(f)
            && f@ == "client plugin commands require the ACP compositor transport"@,
        Cmd::PluginThemeSelected { .. } => r matches ControllerAction::Failed(f)
            && f@ == "client themes require the ACP compositor transport"@,
        Cmd::PluginOverlayEvent { .. } => r matches ControllerAction::Failed(f)
            && f@ == "client plugin overlays require the ACP compositor transport"@,
        Cmd::FetchEfforts { provider, model: m } => if st.demo {
            r matches ControllerAction::Report(CtlEvent::Efforts { efforts, default })
                && crate::acp::strings_view(efforts@) == seq!["off"@, "high"@, "max"@]
                && (default matches Some(d) && d@ == "high"@)
        } else if live {
            r matches ControllerAction::Request { method, params } && method@ == "tui/model-info"@
                && params@ == o2("provider"@, vs(provider@), "model"@, vs(m@))
        } else {
            r matches ControllerAction::Report(CtlEvent::Efforts { efforts, default })
                && crate::acp::strings_view(efforts@) == seq!["off"@, "high"@, "max"@] && default is None
        },
        Cmd::SetPermission { session_id, preset } => if st.demo {
            r matches ControllerAction::DemoEvents(es) && json_views(es@) == demo_permission_spec(session_id@, preset@)
        } else {
            request_or(live, r, "tui/permission"@, o2("sessionId"@, vs(session_id@), "preset"@, vs(preset@)),
                "permission presets are unavailable on the legacy demo transport"@)
        },
        Cmd::SetPreset { session_id, preset } => if st.demo {
            r matches ControllerAction::DemoEvents(es) && json_views(es@)
                == seq![demo_event_params(session_id@, "agent-preset/selected"@, o1("agentPreset"@, vs(preset@)))]
        } else {
            request_or(live, r, "tui/preset"@, o2("sessionId"@, vs(session_id@), "agentPreset"@, vs(preset@)),
                "agent modes are unavailable on the legacy demo transport"@)
        },
        Cmd::Authenticate { .. } => r matches ControllerAction::Failed(f)
            && f@ == "ACP authenticate is only available on a live ACP connection"@,
        Cmd::SetConfigOption { .. } => r matches ControllerAction::Failed(f)
            && f@ == "session/set_config_option needs a live ACP connection"@,
        Cmd::NewSession => r matches ControllerAction::Failed(f)
            && f@ == "session/new, session/list, and session/load need a live ACP connection"@,
        Cmd::ListSessions { .. } => r matches ControllerAction::Failed(f)
            && f@ == "session/new, session/list, and session/load need a live ACP connection"@,
        Cmd::LoadSession { .. } => r matches ControllerAction::Failed(f)
            && f@ == "session/new, session/list, and session/load need a live ACP connection"@,
        Cmd::Shutdown => r is Shutdown,
    }
}


/// `prefix`, then `mid`, then `suffix`.
fn join3(prefix: &str, mid: &str, suffix: &str) -> (r: String)
    ensures
        r@ == prefix@ + mid@ + suffix@,
{
    let mut s = prefix.to_string();
    s.append(mid);
    s.append(suffix);
    s
}

/// A failure tip.
fn failed(msg: &str) -> (r: ControllerAction)
    ensures
        r matches ControllerAction::Failed(f) && f@ == msg@,
{
    ControllerAction::Failed(msg.to_string())
}

/// A request to the attached runtime where it runs, else the failure.
fn request_or_fail(live: bool, method: &'static str, params: Json, failure: &str) -> (r: ControllerAction)
    ensures
        request_or(live, r, method@, params@, failure@),
{
    if live { ControllerAction::Request { method, params } } else { failed(failure) }
}

/// One step of the controller: what it does for `cmd`, given whether a
/// runtime is `present` and `alive`. The demo answers everything itself;
/// prompts go to the attached runtime or the legacy one (images only to an
/// attached runtime); a model pick updates the state's model and provider
/// and is switched live on an attached runtime or by a legacy restart;
/// catalog, skills, model info, permission and preset requests go to a
/// running attached runtime, with the legacy transport's answer otherwise;
/// plugin, authentication, config-option and session commands need the
/// ACP transport and fail here.
pub fn controller_step(st: &mut ControllerState, cmd: Cmd, present: bool, alive: bool) -> (r: ControllerAction)
    ensures
        final(st).demo == old(st).demo,
        final(st).attached == old(st).attached,
        final(st).model == (match cmd { Cmd::SelectModel { model: Some(m), .. } => m, _ => old(st).model }),
        final(st).provider == (match cmd { Cmd::SelectModel { provider: Some(p), .. } => p, _ => old(st).provider }),
        controller_step_spec(*old(st), cmd, present, alive, final(st).model@, r),
{
    proof {
        reveal_strlit("model → ");
        reveal_strlit(" (demo)");
        reveal_strlit(" (runtime restarts on next prompt)");
    }
    let live = st.attached && present && alive;
    match cmd {
        Cmd::Prompt { session_id, text } | Cmd::Steer { session_id, text, .. } => {
            if st.demo {
                ControllerAction::DemoTurn { session_id, text }
            } else if st.attached {
                ControllerAction::PromptAttached { session_id, text }
            } else {
                ControllerAction::PromptLegacy { session_id, text }
            }
        },
        Cmd::PromptImages { session_id, blocks } | Cmd::SteerImages { session_id, blocks, .. } => {
            if st.demo {
                let text = prompt_text(&blocks);
                ControllerAction::DemoTurn { session_id, text }
            } else if st.attached {
                ControllerAction::ImagesAttached { session_id, blocks }
            } else {
                failed("image attachments are unavailable on the legacy demo transport")
            }
        },
        Cmd::Interrupt { session_id } => {
            if st.attached {
                ControllerAction::InterruptAttached { session_id }
            } else {
                ControllerAction::InterruptLegacy
            }
        },
        Cmd::SelectModel { session_id, provider, model, effort } => {
            let ghost p0 = provider;
            let ghost m0 = model;
            let ghost e0 = effort;
            let mut es: Vec<(String, Json)> = Vec::new();
            assert(entry_views(es@) =~= Seq::<(Seq<char>, JsonV)>::empty());
            member(&mut es, "sessionId", js(session_id.as_str()));
            match &provider {
                Some(p) => {
                    st.provider = p.clone();
                    member(&mut es, "provider", js(p.as_str()));
                },
                None => {},
            }
            match &model {
                Some(m) => {
                    st.model = m.clone();
                    member(&mut es, "model", js(m.as_str()));
                },
                None => {},
            }
            match &effort {
                Some(e) => {
                    member(&mut es, "reasoningEffort", js(e.as_str()));
                },
                None => {},
            }
            proof {
                assert(entry_views(es@) =~= seq![("sessionId"@, vs(session_id@))]
                    + (match p0 { Some(p) => seq![("provider"@, vs(p@))], None => Seq::empty() })
                    + (match m0 { Some(m) => seq![("model"@, vs(m@))], None => Seq::empty() })
                    + (match e0 { Some(e) => seq![("reasoningEffort"@, vs(e@))], None => Seq::empty() }));
            }
            if st.demo {
                ControllerAction::Done(join3("model → ", st.model.as_str(), " (demo)"))
            } else if st.attached {
                if present {
                    let params = Json::Object(es);
                    ControllerAction::Request { method: "tui/select-model", params }
                } else {
                    ControllerAction::Nothing
                }
            } else {
                ControllerAction::RestartRuntime(join3("model → ", st.model.as_str(), " (runtime restarts on next prompt)"))
            }
        },
        Cmd::FetchCatalog => {
            if st.demo {
                let mut models: Vec<CatalogModel> = Vec::new();
                models.push(CatalogModel {
                    provider: "deepseek-official".to_string(),
                    id: "deepseek-v4-flash".to_string(),
                    name: "DeepSeek V4 Flash".to_string(),
                    vision: false,
                });
                models.push(CatalogModel {
                    provider: "deepseek-official".to_string(),
                    id: "deepseek-v4-pro".to_string(),
                    name: "DeepSeek V4 Pro".to_string(),
                    vision: true,
                });
                assert(models_view(models@) =~= demo_models_spec());
                ControllerAction::Report(CtlEvent::Catalog { models, presets: stock_presets() })
            } else {
                request_or_fail(live, "tui/catalog", Json::Object(Vec::new()), "catalog is unavailable on the legacy demo transport")
            }
        },
        Cmd::FetchSkills => {
            if st.demo {
                let mut skills: Vec<SkillInfo> = Vec::new();
                skills.push(SkillInfo {
                    name: "commit-helper".to_string(),
                    description: "draft a conventional commit from the diff".to_string(),
                    config_action: None,
                    client_command: false,
                });
                skills.push(SkillInfo {
                    name: "code-review".to_string(),
                    description: "structured review of the working tree".to_string(),
                    config_action: None,
                    client_command: false,
                });
                assert(skills_view(skills@) =~= demo_skills_spec());
                ControllerAction::Report(CtlEvent::Skills { skills })
            } else if live {
                let params = Json::Object(Vec::new());
                assert(params@ =~= empty_obj());
                ControllerAction::Request { method: "tui/skills", params }
            } else {
                ControllerAction::Report(CtlEvent::Skills { skills: Vec::new() })
            }
        },
        Cmd::FetchPlugins { .. } => ControllerAction::Report(CtlEvent::Plugins { plugins: Vec::new() }),
        Cmd::SetPluginEnabled { .. } => failed("dynamic plugins require the ACP transport"),
        Cmd::InvokePluginCommand { .. } => failed("client plugin commands require the ACP compositor transport"),
        Cmd::PluginThemeSelected { .. } => failed("client themes require the ACP compositor transport"),
        Cmd::PluginOverlayEvent { .. } => failed("client plugin overlays require the ACP compositor transport"),
        Cmd::FetchEfforts { provider, model } => {
            if st.demo {
                ControllerAction::Report(CtlEvent::Efforts { efforts: stock_efforts(), default: Some("high".to_string()) })
            } else if live {
                ControllerAction::Request { method: "tui/model-info", params: obj2("provider", js(provider.as_str()), "model", js(model.as_str())) }
            } else {
                ControllerAction::Report(CtlEvent::Efforts { efforts: stock_efforts(), default: None })
            }
        },
        Cmd::SetPermission { session_id, preset } => {
            if st.demo {
                ControllerAction::DemoEvents(demo_permission_events(session_id.as_str(), preset.as_str()))
            } else {
                request_or_fail(live, "tui/permission", obj2("sessionId", js(session_id.as_str()), "preset", js(preset.as_str())),
                    "permission presets are unavailable on the legacy demo transport")
            }
        },
        Cmd::SetPreset { session_id, preset } => {
            if st.demo {
                let mut es: Vec<Json> = Vec::new();
                assert(json_views(es@) =~= Seq::<JsonV>::empty());
                element(&mut es, demo_preset_event(session_id.as_str(), preset.as_str()));
                ControllerAction::DemoEvents(es)
            } else {
                request_or_fail(live, "tui/preset", obj2("sessionId", js(session_id.as_str()), "agentPreset", js(preset.as_str())),
                    "agent modes are unavailable on the legacy demo transport")
            }
        },
        Cmd::Authenticate { .. } => failed("ACP authenticate is only available on a live ACP connection"),
        Cmd::SetConfigOption { .. } => failed("session/set_config_option needs a live ACP connection"),
        Cmd::NewSession | Cmd::ListSessions { .. } | Cmd::LoadSession { .. } =>
            failed("session/new, session/list, and session/load need a live ACP connection"),
        Cmd::Shutdown => ControllerAction::Shutdown,
    }
}

/// Whether a `tui/catalog` row carries a string id.
pub open spec fn row_has_id(m: Json) -> bool {
    as_str(get(m, "id"@)) is Some
}

/// The rows of a `tui/catalog` model list that carry a string id.
pub open spec fn id_rows(items: Seq<Json>) -> Seq<Json> {
    items.filter(|m: Json| row_has_id(m))
}

/// Whether `model` is what catalog row `row` says: its id, its string
/// `provider` (empty when there is none), its string `name` (the id when
/// there is none), and vision exactly when the row says `vision: true`.
pub open spec fn reads_row(row: Json, model: CatalogModelView) -> bool {
    &&& as_str(get(row, "id"@)) == Some(model.id)
    &&& match as_str(get(row, "provider"@)) {
        Some(p) => model.provider == p,
        None => model.provider.len() == 0,
    }
    &&& match as_str(get(row, "name"@)) {
        Some(n) => model.name == n,
        None => model.name == model.id,
    }
    &&& model.vision == (as_bool(get(row, "vision"@)) == Some(true))
}

/// The models of a `tui/catalog` result are its rows that carry a string
/// id, one for one and in order, each model saying what its row says.
pub proof fn law_catalog_models_read_their_rows(items: Seq<Json>)
    ensures
        catalog_models(items).len() == id_rows(items).len(),
        forall|i: int| 0 <= i < catalog_models(items).len() ==> reads_row(id_rows(items)[i], #[trigger] catalog_models(items)[i]),
    decreases items.len(),
{
    if items.len() > 0 {
        let rest = items.drop_last();
        law_catalog_models_read_their_rows(rest);
        assert(items =~= rest.push(items.last()));
        rest.lemma_filter_push(items.last(), |m: Json| row_has_id(m));
        assert(id_rows(items) == (if row_has_id(items.last()) { id_rows(rest).push(items.last()) } else { id_rows(rest) }));
    }
}

/// Whether `preset` is what catalog row `row` says: its id, its string
/// `name` (the id when there is none), its string `description` (empty
/// when there is none), and broken exactly when the row says
/// `broken: true`.
pub open spec fn reads_preset_row(row: Json, preset: CatalogPresetView) -> bool {
    &&& as_str(get(row, "id"@)) == Some(preset.id)
    &&& match as_str(get(row, "name"@)) {
        Some(n) => preset.name == n,
        None => preset.name == preset.id,
    }
    &&& match as_str(get(row, "description"@)) {
        Some(d) => preset.description == d,
        None => preset.description.len() == 0,
    }
    &&& preset.broken == (as_bool(get(row, "broken"@)) == Some(true))
}

/// The presets of a `tui/catalog` result are its rows that carry a string
/// id, one for one and in order, each preset saying what its row says.
pub proof fn law_catalog_presets_read_their_rows(items: Seq<Json>)
    ensures
        catalog_presets(items).len() == id_rows(items).len(),
        forall|i: int| 0 <= i < catalog_presets(items).len() ==> reads_preset_row(id_rows(items)[i], #[trigger] catalog_presets(items)[i]),
    decreases items.len(),
{
    if items.len() > 0 {
        let rest = items.drop_last();
        law_catalog_presets_read_their_rows(rest);
        assert(items =~= rest.push(items.last()));
        rest.lemma_filter_push(items.last(), |m: Json| row_has_id(m));
        assert(id_rows(items) == (if row_has_id(items.last()) { id_rows(rest).push(items.last()) } else { id_rows(rest) }));
    }
}

} // verus!
