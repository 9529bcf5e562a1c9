//! The semantic UI events that the agent's JSON-RPC notifications carry:
//! the harness's `session.*` events and the standard ACP `session/update`
//! stream, decoded into one event model. Unknown methods and malformed
//! payloads yield no events.

use vstd::prelude::*;
use vstd::string::*;
use crate::bus::{
    CatalogModel, CatalogModelView, CatalogPreset, CatalogPresetView, CommandConfigAction,
    CommandConfigActionView, SkillInfo, SkillInfoView, action_view,
};
use crate::json::{
    Json, as_array, as_bool, as_str, as_u64, deref_opt, get, get_in, get_opt, json_text,
    json_to_string, lemma_get_decreases, str_field, str_or_empty,
};
use crate::text::{join_seq, opt_view, push_char, starts_with, starts_with_str, str_eq, sub_string, trim_seq};

verus! {

/// One decoded UI event.
#[derive(Debug, Clone, PartialEq)]
pub enum UiEvent {
    SessionStatus { session: String, running: bool },
    TurnStart { session: String, turn: u64 },
    TurnEnd { session: String, kind: String },
    TextDelta { session: String, text: String },
    ReasoningDelta { session: String, text: String },
    AssistantFinal { session: String, text: String, model: Option<String> },
    ToolCall { session: String, call_id: String, name: String, arguments: String },
    ToolResult { session: String, call_id: String, is_error: bool, text: String, error: Option<String> },
    Usage { session: String, input: u64, output: u64, cached: u64, reasoning: u64 },
    UserInjected { session: String, source: String, preview: String },
    SubagentStarted { parent: String, child: String },
    SubagentFinished { child: String },
    /// ACP `user_message_chunk` (a `session/load` replay needs the user lines).
    UserMessage { session: String, text: String },
    /// ACP `session_info_update` title.
    SessionTitle { session: String, title: String },
    /// ACP `plan` / `plan_update` snapshot (todo entries, not `plan/mode`).
    Plan { session: String, summary: String },
    /// `plan/mode`: the plan-mode collaboration state (the last one wins).
    PlanMode { session: String, active: bool },
    /// `sandbox/mode`: read-only | workspace-write | danger-full-access.
    SandboxMode { session: String, mode: String },
    /// `approval/policy`: ask | never.
    ApprovalPolicy { session: String, policy: String },
    /// `permission/preset`: the bundled permission preset's name.
    PermissionPreset { session: String, preset: String },
    /// `agent-preset/selected`: the agent composition preset (standard, code, …).
    AgentPreset { session: String, preset: String },
    /// `approval/asked`: one pending approval request.
    ApprovalAsked { session: String, tool: String, reason: Option<String> },
    /// `approval/decided`: its outcome.
    ApprovalDecided { session: String, outcome: String },
}

/// A UI event with its strings taken as character sequences.
pub enum UiEventV {
    SessionStatus { session: Seq<char>, running: bool },
    TurnStart { session: Seq<char>, turn: u64 },
    TurnEnd { session: Seq<char>, kind: Seq<char> },
    TextDelta { session: Seq<char>, text: Seq<char> },
    ReasoningDelta { session: Seq<char>, text: Seq<char> },
    AssistantFinal { session: Seq<char>, text: Seq<char>, model: Option<Seq<char>> },
    ToolCall { session: Seq<char>, call_id: Seq<char>, name: Seq<char>, arguments: Seq<char> },
    ToolResult { session: Seq<char>, call_id: Seq<char>, is_error: bool, text: Seq<char>, error: Option<Seq<char>> },
    Usage { session: Seq<char>, input: u64, output: u64, cached: u64, reasoning: u64 },
    UserInjected { session: Seq<char>, source: Seq<char>, preview: Seq<char> },
    SubagentStarted { parent: Seq<char>, child: Seq<char> },
    SubagentFinished { child: Seq<char> },
    UserMessage { session: Seq<char>, text: Seq<char> },
    SessionTitle { session: Seq<char>, title: Seq<char> },
    Plan { session: Seq<char>, summary: Seq<char> },
    PlanMode { session: Seq<char>, active: bool },
    SandboxMode { session: Seq<char>, mode: Seq<char> },
    ApprovalPolicy { session: Seq<char>, policy: Seq<char> },
    PermissionPreset { session: Seq<char>, preset: Seq<char> },
    AgentPreset { session: Seq<char>, preset: Seq<char> },
    ApprovalAsked { session: Seq<char>, tool: Seq<char>, reason: Option<Seq<char>> },
    ApprovalDecided { session: Seq<char>, outcome: Seq<char> },
}

impl View for UiEvent {
    type V = UiEventV;

    open spec fn view(&self) -> UiEventV {
        match *self {
            UiEvent::SessionStatus { session, running } => UiEventV::SessionStatus { session: session@, running },
            UiEvent::TurnStart { session, turn } => UiEventV::TurnStart { session: session@, turn },
            UiEvent::TurnEnd { session, kind } => UiEventV::TurnEnd { session: session@, kind: kind@ },
            UiEvent::TextDelta { session, text } => UiEventV::TextDelta { session: session@, text: text@ },
            UiEvent::ReasoningDelta { session, text } => UiEventV::ReasoningDelta { session: session@, text: text@ },
            UiEvent::AssistantFinal { session, text, model } =>
                UiEventV::AssistantFinal { session: session@, text: text@, model: opt_view(model) },
            UiEvent::ToolCall { session, call_id, name, arguments } =>
                UiEventV::ToolCall { session: session@, call_id: call_id@, name: name@, arguments: arguments@ },
            UiEvent::ToolResult { session, call_id, is_error, text, error } =>
                UiEventV::ToolResult { session: session@, call_id: call_id@, is_error, text: text@, error: opt_view(error) },
            UiEvent::Usage { session, input, output, cached, reasoning } =>
                UiEventV::Usage { session: session@, input, output, cached, reasoning },
            UiEvent::UserInjected { session, source, preview } =>
                UiEventV::UserInjected { session: session@, source: source@, preview: preview@ },
            UiEvent::SubagentStarted { parent, child } => UiEventV::SubagentStarted { parent: parent@, child: child@ },
            UiEvent::SubagentFinished { child } => UiEventV::SubagentFinished { child: child@ },
            UiEvent::UserMessage { session, text } => UiEventV::UserMessage { session: session@, text: text@ },
            UiEvent::SessionTitle { session, title } => UiEventV::SessionTitle { session: session@, title: title@ },
            UiEvent::Plan { session, summary } => UiEventV::Plan { session: session@, summary: summary@ },
            UiEvent::PlanMode { session, active } => UiEventV::PlanMode { session: session@, active },
            UiEvent::SandboxMode { session, mode } => UiEventV::SandboxMode { session: session@, mode: mode@ },
            UiEvent::ApprovalPolicy { session, policy } => UiEventV::ApprovalPolicy { session: session@, policy: policy@ },
            UiEvent::PermissionPreset { session, preset } =>
                UiEventV::PermissionPreset { session: session@, preset: preset@ },
            UiEvent::AgentPreset { session, preset } => UiEventV::AgentPreset { session: session@, preset: preset@ },
            UiEvent::ApprovalAsked { session, tool, reason } =>
                UiEventV::ApprovalAsked { session: session@, tool: tool@, reason: opt_view(reason) },
            UiEvent::ApprovalDecided { session, outcome } =>
                UiEventV::ApprovalDecided { session: session@, outcome: outcome@ },
        }
    }
}

/// The views of a list of events.
pub open spec fn events_view(es: Seq<UiEvent>) -> Seq<UiEventV> {
    es.map_values(|e: UiEvent| e@)
}

// ----- the document model the parsers read -----

/// A string member's text, or empty (`str_field`).
pub open spec fn sf(v: Json, key: Seq<char>) -> Seq<char> {
    str_or_empty(get(v, key))
}

/// A present value, else `null` (`unwrap_or(&Value::Null)`).
pub open spec fn or_null(v: Option<Json>) -> Json {
    match v {
        Some(j) => j,
        None => Json::Null,
    }
}

/// `a.or_else(|| b)`.
pub open spec fn or_else(a: Option<Json>, b: Option<Json>) -> Option<Json> {
    if a is Some { a } else { b }
}

/// A string, or a default when absent.
pub open spec fn str_or(v: Option<Seq<char>>, d: Seq<char>) -> Seq<char> {
    match v {
        Some(s) => s,
        None => d,
    }
}

/// The text of the first of `keys` whose member is a non-empty string.
pub open spec fn first_str_spec(v: Json, keys: Seq<Seq<char>>) -> Seq<char>
    decreases keys.len(),
{
    if keys.len() == 0 {
        Seq::empty()
    } else if sf(v, keys[0]).len() > 0 {
        sf(v, keys[0])
    } else {
        first_str_spec(v, keys.drop_first())
    }
}

/// The `.text` of the `type == "text"` blocks among `blocks`, concatenated.
pub open spec fn text_blocks(blocks: Seq<Json>) -> Seq<char>
    decreases blocks.len(),
{
    if blocks.len() == 0 {
        Seq::empty()
    } else {
        let b = blocks.last();
        let t = if as_str(get(b, "type"@)) == Some("text"@) { str_or_empty(get(b, "text"@)) } else { Seq::empty() };
        text_blocks(blocks.drop_last()) + t
    }
}

/// The text of a content array (`concat_text_blocks`); empty for other values.
pub open spec fn concat_text_spec(content: Json) -> Seq<char> {
    match content {
        Json::Array(a) => text_blocks(a@),
        _ => Seq::empty(),
    }
}

/// ACP content: a single `{text}` block, else the text blocks of an array.
pub open spec fn acp_text_spec(content: Option<Json>) -> Seq<char> {
    match content {
        None => Seq::empty(),
        Some(c) => match as_str(get(c, "text"@)) {
            Some(t) => t,
            None => concat_text_spec(c),
        },
    }
}

/// A `currentValue` (or `current_value`) member's text.
pub open spec fn current_value(o: Json) -> Option<Seq<char>> {
    as_str(or_else(get(o, "currentValue"@), get(o, "current_value"@)))
}

/// The first element satisfying `p`.
pub open spec fn find_first(items: Seq<Json>, p: spec_fn(Json) -> bool) -> Option<Json>
    decreases items.len(),
{
    if items.len() == 0 {
        None
    } else if p(items[0]) {
        Some(items[0])
    } else {
        find_first(items.drop_first(), p)
    }
}

/// An element whose `id` is `id`.
pub open spec fn id_is(id: Seq<char>) -> spec_fn(Json) -> bool {
    |o: Json| as_str(get(o, "id"@)) == Some(id)
}

/// A composition select named `agent`, `preset` or `agent-preset`.
pub open spec fn named_composition() -> spec_fn(Json) -> bool {
    |o: Json| {
        let id = as_str(get(o, "id"@));
        id == Some("agent"@) || id == Some("preset"@) || id == Some("agent-preset"@)
    }
}

/// An uncategorized select that is not mode, model, effort or collaboration.
pub open spec fn unnamed_composition() -> spec_fn(Json) -> bool {
    |o: Json| {
        let id = as_str(get(o, "id"@));
        &&& as_str(get(o, "type"@)) == Some("select"@)
        &&& as_str(get(o, "category"@)) is None
        &&& !(id == Some("mode"@) || id == Some("model"@) || id == Some("effort"@)
            || id == Some("collaboration_mode"@))
    }
}

/// The composition select, if the agent advertised one: a named one first,
/// else the first uncategorized select that is not mode/model/effort.
pub open spec fn composition_spec(options: Json) -> Option<Json> {
    match options {
        Json::Array(a) => match find_first(a@, named_composition()) {
            Some(o) => Some(o),
            None => find_first(a@, unnamed_composition()),
        },
        _ => None,
    }
}

/// Whether the `collaboration_mode` select currently reads `plan`.
pub open spec fn collaboration_spec(options: Json) -> Option<bool> {
    match options {
        Json::Array(a) => match find_first(a@, id_is("collaboration_mode"@)) {
            Some(o) => match current_value(o) {
                Some(v) => Some(v == "plan"@),
                None => None,
            },
            None => None,
        },
        _ => None,
    }
}

/// The composition select's current value.
pub open spec fn composition_current_spec(options: Json) -> Option<Seq<char>> {
    match composition_spec(options) {
        Some(o) => current_value(o),
        None => None,
    }
}

/// The facts a complete ACP `configOptions` snapshot carries for the
/// composer chrome: plan mode, then the composition preset.
pub open spec fn config_events_spec(session: Seq<char>, options: Json) -> Seq<UiEventV> {
    let a = match collaboration_spec(options) {
        Some(active) => seq![UiEventV::PlanMode { session, active }],
        None => Seq::empty(),
    };
    let b = match composition_current_spec(options) {
        Some(preset) => seq![UiEventV::AgentPreset { session, preset }],
        None => Seq::empty(),
    };
    a + b
}

/// One flattened select choice: value, display name and description.
pub open spec fn choice_view(c: (String, String, String)) -> (Seq<char>, Seq<char>, Seq<char>) {
    (c.0@, c.1@, c.2@)
}

/// The views of a list of choices.
pub open spec fn choices_view(cs: Seq<(String, String, String)>) -> Seq<(Seq<char>, Seq<char>, Seq<char>)> {
    cs.map_values(|c: (String, String, String)| choice_view(c))
}

/// The number of elements of an array value.
pub open spec fn arr_len(v: Json) -> int {
    match v {
        Json::Array(a) => a@.len() as int,
        _ => 0,
    }
}

/// The choices of the first `n` rows of a select's `options` array; a
/// `{ group, options }` row contributes its nested rows, a row without a
/// string `value` nothing.
pub open spec fn flatten_upto(options: Json, n: int) -> Seq<(Seq<char>, Seq<char>, Seq<char>)>
    decreases options, n,
{
    match options {
        Json::Array(a) => if n <= 0 || n > a@.len() {
            Seq::empty()
        } else {
            let prev = flatten_upto(options, n - 1);
            let item = a@[n - 1];
            match get(item, "options"@) {
                Some(nested) => {
                    proof {
                        lemma_get_decreases(item, "options"@);
                        assert(decreases_to!(options => a));
                        assert(decreases_to!(a => a@));
                        assert(decreases_to!(a@ => a@[n - 1]));
                    }
                    prev + flatten_upto(nested, arr_len(nested))
                },
                None => match as_str(get(item, "value"@)) {
                    Some(v) => prev.push((v, str_or(as_str(get(item, "name"@)), v), sf(item, "description"@))),
                    None => prev,
                },
            }
        },
        _ => Seq::empty(),
    }
}

/// All choices of a select's `options`, groups flattened in order.
pub open spec fn flatten_spec(options: Json) -> Seq<(Seq<char>, Seq<char>, Seq<char>)> {
    flatten_upto(options, arr_len(options))
}

/// A string member's text as an owned `String`, if it is a string.
fn str_member(v: &Json, key: &str) -> (r: Option<String>)
    ensures
        opt_view(r) == as_str(get(*v, key@)),
{
    match v.get(key) {
        Some(Json::String(s)) => Some(s.clone()),
        _ => None,
    }
}

/// Flattens ACP select options, including `{ group, options }` rows, into
/// `(value, name, description)` triples; the name defaults to the value
/// and the description to empty.
pub fn flatten_select_options(options: &Json) -> (r: Vec<(String, String, String)>)
    ensures
        choices_view(r@) == flatten_spec(*options),
    decreases *options,
{
    let mut out: Vec<(String, String, String)> = Vec::new();
    let arr = match options {
        Json::Array(a) => a,
        _ => return out,
    };
    let mut i: usize = 0;
    while i < arr.len()
        invariant
            *options == Json::Array(*arr),
            i <= arr@.len(),
            choices_view(out@) == flatten_upto(*options, i as int),
        decreases arr@.len() - i,
    {
        let item = &arr[i];
        let ghost prev = out@;
        if let Some(nested) = item.get("options") {
            proof {
                lemma_get_decreases(*item, "options"@);
                assert(decreases_to!(*options => *arr));
                assert(decreases_to!(*arr => arr@));
                assert(decreases_to!(arr@ => arr@[i as int]));
            }
            let inner = flatten_select_options(nested);
            let mut k: usize = 0;
            while k < inner.len()
                invariant
                    k <= inner@.len(),
                    choices_view(out@) == choices_view(prev) + choices_view(inner@).subrange(0, k as int),
                decreases inner@.len() - k,
            {
                let c = &inner[k];
                let ghost before = out@;
                out.push((c.0.clone(), c.1.clone(), c.2.clone()));
                assert(choice_view(out@.last()) == choices_view(inner@)[k as int]);
                assert(choices_view(out@) =~= choices_view(before).push(choice_view(out@.last())));
                assert(choices_view(inner@).subrange(0, k + 1) =~= choices_view(inner@).subrange(0, k as int).push(choices_view(inner@)[k as int]));
                k += 1;
            }
            assert(choices_view(inner@).subrange(0, inner@.len() as int) =~= choices_view(inner@));
        } else if let Some(value) = str_member(item, "value") {
            let name = match str_member(item, "name") {
                Some(n) => n,
                None => value.clone(),
            };
            let description = str_field(item, "description");
            out.push((value, name, description));
            assert(choices_view(out@) =~= choices_view(prev).push(choice_view(out@.last())));
        }
        i += 1;
    }
    out
}

/// Whether `o`'s member `key` is the string `val`.
fn member_is(o: &Json, key: &str, val: &str) -> (b: bool)
    ensures
        b == (as_str(get(*o, key@)) == Some(val@)),
{
    match o.get(key) {
        Some(Json::String(s)) => str_eq(s.as_str(), val),
        _ => false,
    }
}

/// Which select a search over `configOptions` looks for.
enum Pick<'a> {
    Id(&'a str),
    NamedComposition,
    UnnamedComposition,
}

spec fn pick_pred(p: Pick) -> spec_fn(Json) -> bool {
    match p {
        Pick::Id(id) => id_is(id@),
        Pick::NamedComposition => named_composition(),
        Pick::UnnamedComposition => unnamed_composition(),
    }
}

fn picks(p: &Pick, o: &Json) -> (b: bool)
    ensures
        b == pick_pred(*p)(*o),
{
    match p {
        Pick::Id(id) => member_is(o, "id", id),
        Pick::NamedComposition => member_is(o, "id", "agent") || member_is(o, "id", "preset")
            || member_is(o, "id", "agent-preset"),
        Pick::UnnamedComposition => {
            let category = match o.get("category") {
                Some(Json::String(_)) => true,
                _ => false,
            };
            member_is(o, "type", "select") && !category && !(member_is(o, "id", "mode")
                || member_is(o, "id", "model") || member_is(o, "id", "effort")
                || member_is(o, "id", "collaboration_mode"))
        },
    }
}

/// The first element of `arr` that `p` picks.
fn find_pick<'a>(arr: &'a Vec<Json>, p: Pick) -> (r: Option<&'a Json>)
    ensures
        deref_opt(r) == find_first(arr@, pick_pred(p)),
{
    let mut i: usize = 0;
    assert(arr@.subrange(0, arr@.len() as int) =~= arr@);
    while i < arr.len()
        invariant
            i <= arr@.len(),
            find_first(arr@.subrange(i as int, arr@.len() as int), pick_pred(p)) == find_first(arr@, pick_pred(p)),
        decreases arr@.len() - i,
    {
        let ghost rest = arr@.subrange(i as int, arr@.len() as int);
        assert(rest[0] == arr@[i as int]);
        if picks(&p, &arr[i]) {
            return Some(&arr[i]);
        }
        assert(arr@.subrange(i + 1, arr@.len() as int) =~= rest.drop_first());
        i += 1;
    }
    assert(arr@.subrange(i as int, arr@.len() as int) =~= Seq::<Json>::empty());
    None
}

/// The extra composition select, if the agent advertised one. Prefers
/// `agent` / `preset` / `agent-preset`; else the first uncategorized select
/// that is not mode/model/effort.
pub fn composition_option(options: &Json) -> (r: Option<&Json>)
    ensures
        deref_opt(r) == composition_spec(*options),
{
    let arr = match options {
        Json::Array(a) => a,
        _ => return None,
    };
    let named = find_pick(arr, Pick::NamedComposition);
    if named.is_some() {
        return named;
    }
    find_pick(arr, Pick::UnnamedComposition)
}

/// A select's `currentValue` (or `current_value`) text.
fn current_value_of(option: &Json) -> (r: Option<String>)
    ensures
        opt_view(r) == current_value(*option),
{
    let v = match option.get("currentValue") {
        Some(v) => Some(v),
        None => option.get("current_value"),
    };
    match v {
        Some(Json::String(s)) => Some(s.clone()),
        _ => None,
    }
}

fn composition_current_value(options: &Json) -> (r: Option<String>)
    ensures
        opt_view(r) == composition_current_spec(*options),
{
    match composition_option(options) {
        Some(option) => current_value_of(option),
        None => None,
    }
}

fn collaboration_mode_active(options: &Json) -> (r: Option<bool>)
    ensures
        r == collaboration_spec(*options),
{
    let arr = match options {
        Json::Array(a) => a,
        _ => return None,
    };
    let option = match find_pick(arr, Pick::Id("collaboration_mode")) {
        Some(o) => o,
        None => return None,
    };
    match current_value_of(option) {
        Some(v) => Some(str_eq(v.as_str(), "plan")),
        None => None,
    }
}

/// Folds a complete ACP `configOptions` snapshot into the client-facing
/// facts that drive the composer chrome: the plan-mode state, then the
/// composition preset. Used for setup responses and for later
/// `config_option_update` notifications.
pub fn config_option_events(session: String, options: &Json) -> (r: Vec<UiEvent>)
    ensures
        events_view(r@) == config_events_spec(session@, *options),
{
    let mut events: Vec<UiEvent> = Vec::new();
    if let Some(active) = collaboration_mode_active(options) {
        events.push(UiEvent::PlanMode { session: session.clone(), active });
    }
    if let Some(preset) = composition_current_value(options) {
        events.push(UiEvent::AgentPreset { session, preset });
    }
    assert(events_view(events@) =~= config_events_spec(session@, *options));
    events
}

/// The text of the first of `keys` whose member is a non-empty string,
/// else empty.
fn first_str(v: &Json, keys: &[&str]) -> (s: String)
    ensures
        s@ == first_str_spec(*v, keys@.map_values(|k: &str| k@)),
{
    let ghost ks = keys@.map_values(|k: &str| k@);
    let mut i: usize = 0;
    assert(ks.subrange(0, ks.len() as int) =~= ks);
    while i < keys.len()
        invariant
            i <= keys@.len(),
            ks == keys@.map_values(|k: &str| k@),
            first_str_spec(*v, ks.subrange(i as int, ks.len() as int)) == first_str_spec(*v, ks),
        decreases keys@.len() - i,
    {
        let ghost rest = ks.subrange(i as int, ks.len() as int);
        assert(rest[0] == keys@[i as int]@);
        let s = str_field(v, keys[i]);
        if s.as_str().unicode_len() > 0 {
            return s;
        }
        assert(ks.subrange(i + 1, ks.len() as int) =~= rest.drop_first());
        i += 1;
    }
    assert(ks.subrange(i as int, ks.len() as int) =~= Seq::<Seq<char>>::empty());
    String::new()
}

/// The position of the first `c` in `s`.
pub open spec fn char_index(s: Seq<char>, c: char) -> Option<int>
    decreases s.len(),
{
    if s.len() == 0 {
        None
    } else if s[0] == c {
        Some(0)
    } else {
        match char_index(s.drop_first(), c) {
            Some(k) => Some(k + 1),
            None => None,
        }
    }
}

/// `id.split_once('/')` as `(provider, model)`; an id without a slash has
/// no provider.
pub open spec fn split_model_id(id: Seq<char>) -> (Seq<char>, Seq<char>) {
    match char_index(id, '/') {
        Some(k) => (id.subrange(0, k), id.subrange(k + 1, id.len() as int)),
        None => (Seq::empty(), id),
    }
}

/// A model catalog row for each model choice.
pub open spec fn models_of(cs: Seq<(Seq<char>, Seq<char>, Seq<char>)>) -> Seq<CatalogModelView> {
    cs.map_values(|c: (Seq<char>, Seq<char>, Seq<char>)| CatalogModelView {
        provider: split_model_id(c.0).0,
        id: split_model_id(c.0).1,
        name: c.1,
        vision: false,
    })
}

/// A preset row for each composition choice; a description that starts
/// with `Broken:` marks it broken.
pub open spec fn presets_of(cs: Seq<(Seq<char>, Seq<char>, Seq<char>)>) -> Seq<CatalogPresetView> {
    cs.map_values(|c: (Seq<char>, Seq<char>, Seq<char>)| CatalogPresetView {
        id: c.0,
        name: c.1,
        description: c.2,
        broken: starts_with(c.2, "Broken:"@),
    })
}

/// Models, composition presets and the composition select's id from ACP
/// `configOptions`.
pub open spec fn catalog_spec(options: Json) -> (Seq<CatalogModelView>, Seq<CatalogPresetView>, Option<Seq<char>>) {
    let models = match options {
        Json::Array(a) => match find_first(a@, id_is("model"@)) {
            Some(m) => models_of(flatten_spec(or_null(get(m, "options"@)))),
            None => Seq::empty(),
        },
        _ => Seq::empty(),
    };
    match composition_spec(options) {
        Some(o) => (models, presets_of(flatten_spec(or_null(get(o, "options"@)))), as_str(get(o, "id"@))),
        None => (models, Seq::empty(), None),
    }
}

/// The views of a list of models.
pub open spec fn models_view(ms: Seq<CatalogModel>) -> Seq<CatalogModelView> {
    ms.map_values(|m: CatalogModel| m@)
}

/// The views of a list of presets.
pub open spec fn presets_view(ps: Seq<CatalogPreset>) -> Seq<CatalogPresetView> {
    ps.map_values(|p: CatalogPreset| p@)
}

/// `id.split_once('/')`, with the empty provider when there is no slash.
fn split_model(id: &str) -> (r: (String, String))
    ensures
        (r.0@, r.1@) == split_model_id(id@),
{
    let cs = crate::text::chars_of(id);
    let n = cs.len();
    let mut k: usize = 0;
    assert(cs@.subrange(0, n as int) =~= cs@);
    while k < n
        invariant
            n == cs@.len(),
            cs@ == id@,
            k <= n,
            match char_index(cs@.subrange(k as int, n as int), '/') {
                Some(j) => char_index(cs@, '/') == Some(j + k),
                None => char_index(cs@, '/') is None,
            },
        decreases n - k,
    {
        let ghost rest = cs@.subrange(k as int, n as int);
        assert(rest[0] == cs@[k as int]);
        if cs[k] == '/' {
            return (sub_string(&cs, 0, k), sub_string(&cs, k + 1, n));
        }
        assert(cs@.subrange(k + 1, n as int) =~= rest.drop_first());
        k += 1;
    }
    assert(cs@.subrange(k as int, n as int) =~= Seq::<char>::empty());
    (String::new(), sub_string(&cs, 0, n))
}

/// Models and composition choices from ACP `configOptions`: the `model`
/// select's choices split into provider and model id, the composition
/// select's choices as presets, and that select's id.
pub fn catalog_from_config_options(options: &Json) -> (r: (Vec<CatalogModel>, Vec<CatalogPreset>, Option<String>))
    ensures
        (models_view(r.0@), presets_view(r.1@), opt_view(r.2)) == catalog_spec(*options),
{
    let mut models: Vec<CatalogModel> = Vec::new();
    if let Json::Array(arr) = options {
        if let Some(model) = find_pick(arr, Pick::Id("model")) {
            let null = Json::Null;
            let choices = flatten_select_options(match model.get("options") {
                Some(o) => o,
                None => &null,
            });
            let ghost cv = choices_view(choices@);
            let mut i: usize = 0;
            while i < choices.len()
                invariant
                    i <= choices@.len(),
                    cv == choices_view(choices@),
                    models_view(models@) == models_of(cv.subrange(0, i as int)),
                decreases choices@.len() - i,
            {
                let (provider, model_id) = split_model(choices[i].0.as_str());
                let ghost before = models@;
                models.push(CatalogModel { provider, id: model_id, name: choices[i].1.clone(), vision: false });
                assert(cv.subrange(0, i + 1) =~= cv.subrange(0, i as int).push(cv[i as int]));
                assert(models_view(models@) =~= models_view(before).push(models@.last()@));
                i += 1;
                assert(models_view(models@) =~= models_of(cv.subrange(0, i as int)));
            }
            assert(cv.subrange(0, choices@.len() as int) =~= cv);
        }
    }
    let composition = composition_option(options);
    let composition_id = match composition {
        Some(o) => str_member(o, "id"),
        None => None,
    };
    let mut presets: Vec<CatalogPreset> = Vec::new();
    if let Some(option) = composition {
        let null = Json::Null;
        let choices = flatten_select_options(match option.get("options") {
            Some(o) => o,
            None => &null,
        });
        let ghost cv = choices_view(choices@);
        let mut i: usize = 0;
        while i < choices.len()
            invariant
                i <= choices@.len(),
                cv == choices_view(choices@),
                presets_view(presets@) == presets_of(cv.subrange(0, i as int)),
            decreases choices@.len() - i,
        {
            let c = &choices[i];
            let broken = starts_with_str(c.2.as_str(), "Broken:");
            let ghost before = presets@;
            presets.push(CatalogPreset { id: c.0.clone(), name: c.1.clone(), description: c.2.clone(), broken });
            assert(cv.subrange(0, i + 1) =~= cv.subrange(0, i as int).push(cv[i as int]));
            assert(presets_view(presets@) =~= presets_view(before).push(presets@.last()@));
            i += 1;
            assert(presets_view(presets@) =~= presets_of(cv.subrange(0, i as int)));
        }
        assert(cv.subrange(0, choices@.len() as int) =~= cv);
    } else {
        assert(presets_view(presets@) =~= Seq::<CatalogPresetView>::empty());
    }
    proof {
        if !(*options is Array) {
            assert(models_view(models@) =~= Seq::<CatalogModelView>::empty());
        }
    }
    (models, presets, composition_id)
}

/// The preset rows of `availableModes` entries that carry a string `id`.
pub open spec fn modes_fold(items: Seq<Json>) -> Seq<CatalogPresetView>
    decreases items.len(),
{
    if items.len() == 0 {
        Seq::empty()
    } else {
        let prev = modes_fold(items.drop_last());
        let m = items.last();
        match as_str(get(m, "id"@)) {
            Some(id) => prev.push(CatalogPresetView {
                id,
                name: str_or(as_str(get(m, "name"@)), id),
                description: sf(m, "description"@),
                broken: false,
            }),
            None => prev,
        }
    }
}

/// The current mode id, if one is named.
pub open spec fn current_mode_spec(modes: Json) -> Option<Seq<char>> {
    let c = first_str_spec(modes, seq!["currentModeId"@, "current_mode_id"@]);
    if c.len() == 0 { None } else { Some(c) }
}

/// ACP session modes: the advertised modes and the current one.
pub open spec fn session_modes_spec(modes: Json) -> (Seq<CatalogPresetView>, Option<Seq<char>>) {
    let list = match as_array(or_else(get(modes, "availableModes"@), get(modes, "available_modes"@))) {
        Some(a) => modes_fold(a),
        None => Seq::empty(),
    };
    (list, current_mode_spec(modes))
}

/// ACP session modes (`session/new.modes`): the advertised modes, each
/// named by its `name` or else its id, and the current mode id.
pub fn session_modes_from_value(modes: &Json) -> (r: (Vec<CatalogPreset>, Option<String>))
    ensures
        (presets_view(r.0@), opt_view(r.1)) == session_modes_spec(*modes),
{
    let keys = ["currentModeId", "current_mode_id"];
    assert(keys@.map_values(|k: &str| k@) =~= seq!["currentModeId"@, "current_mode_id"@]);
    let current = first_str(modes, &keys);
    let current = if current.as_str().unicode_len() == 0 { None } else { Some(current) };
    let mut out: Vec<CatalogPreset> = Vec::new();
    let list = match modes.get("availableModes") {
        Some(l) => Some(l),
        None => modes.get("available_modes"),
    };
    let arr = match list {
        Some(Json::Array(a)) => a,
        _ => {
            assert(presets_view(out@) =~= Seq::<CatalogPresetView>::empty());
            return (out, current);
        },
    };
    let mut i: usize = 0;
    while i < arr.len()
        invariant
            i <= arr@.len(),
            presets_view(out@) == modes_fold(arr@.subrange(0, i as int)),
        decreases arr@.len() - i,
    {
        let mode = &arr[i];
        let ghost before = out@;
        assert(arr@.subrange(0, i + 1).drop_last() =~= arr@.subrange(0, i as int));
        assert(arr@.subrange(0, i + 1).last() == *mode);
        if let Some(id) = str_member(mode, "id") {
            let name = match str_member(mode, "name") {
                Some(n) => n,
                None => id.clone(),
            };
            let description = str_field(mode, "description");
            out.push(CatalogPreset { name, description, id, broken: false });
            assert(presets_view(out@) =~= presets_view(before).push(out@.last()@));
        }
        i += 1;
    }
    assert(arr@.subrange(0, arr@.len() as int) =~= arr@);
    (out, current)
}

/// What a carrier's `commandAction` decides: `None` to look at the next
/// carrier, `Some(r)` to answer `r`. A carrier without a `commandAction`
/// answers `None`, as does a `setConfigOption` action without string
/// `configId` and `value`.
pub open spec fn carrier_action(carrier: Json) -> Option<Option<CommandConfigActionView>> {
    match get(carrier, "commandAction"@) {
        None => Some(None),
        Some(a) => if as_str(get(a, "kind"@)) != Some("setConfigOption"@) {
            None
        } else {
            match (as_str(get(a, "configId"@)), as_str(get(a, "value"@))) {
                (Some(config_id), Some(value)) => Some(Some(CommandConfigActionView {
                    config_id,
                    value,
                    reset_value: as_str(get(a, "resetValue"@)),
                })),
                _ => Some(None),
            }
        },
    }
}

/// The standard config change a command stands for, read from its
/// `metadata`, then its `_meta`.
pub open spec fn config_action_spec(command: Json) -> Option<CommandConfigActionView> {
    let first = match get(command, "metadata"@) {
        Some(m) => carrier_action(m),
        None => None,
    };
    match first {
        Some(r) => r,
        None => match get(command, "_meta"@) {
            Some(m) => match carrier_action(m) {
                Some(r) => r,
                None => None,
            },
            None => None,
        },
    }
}

/// Whether a carrier's `commandAction` is a client command.
pub open spec fn is_client_carrier(carrier: Option<Json>) -> bool {
    as_str(get_opt(get_opt(carrier, "commandAction"@), "kind"@)) == Some("clientCommand"@)
}

/// Whether a command is handled by the local client plane.
pub open spec fn client_action_spec(command: Json) -> bool {
    is_client_carrier(get(command, "metadata"@)) || is_client_carrier(get(command, "_meta"@))
}

fn carrier_config_action(carrier: &Json) -> (r: Option<Option<CommandConfigAction>>)
    ensures
        match r {
            Some(a) => carrier_action(*carrier) == Some(action_view(a)),
            None => carrier_action(*carrier) is None,
        },
{
    let action = match carrier.get("commandAction") {
        Some(a) => a,
        None => return Some(None),
    };
    if !member_is(action, "kind", "setConfigOption") {
        return None;
    }
    let config_id = match str_member(action, "configId") {
        Some(c) => c,
        None => return Some(None),
    };
    let value = match str_member(action, "value") {
        Some(v) => v,
        None => return Some(None),
    };
    let reset_value = str_member(action, "resetValue");
    Some(Some(CommandConfigAction { config_id, value, reset_value }))
}

fn command_config_action(command: &Json) -> (r: Option<CommandConfigAction>)
    ensures
        action_view(r) == config_action_spec(*command),
{
    if let Some(m) = command.get("metadata") {
        if let Some(r) = carrier_config_action(m) {
            return r;
        }
    }
    if let Some(m) = command.get("_meta") {
        if let Some(r) = carrier_config_action(m) {
            return r;
        }
    }
    None
}

fn client_carrier(carrier: Option<&Json>) -> (b: bool)
    ensures
        b == is_client_carrier(deref_opt(carrier)),
{
    match get_in(carrier, "commandAction") {
        Some(a) => member_is(a, "kind", "clientCommand"),
        None => false,
    }
}

fn command_client_action(command: &Json) -> (b: bool)
    ensures
        b == client_action_spec(*command),
{
    client_carrier(command.get("metadata")) || client_carrier(command.get("_meta"))
}

/// The skills of `available_commands_update` entries that carry a string `name`.
pub open spec fn skills_fold(items: Seq<Json>) -> Seq<SkillInfoView>
    decreases items.len(),
{
    if items.len() == 0 {
        Seq::empty()
    } else {
        let prev = skills_fold(items.drop_last());
        let c = items.last();
        match as_str(get(c, "name"@)) {
            Some(name) => prev.push(SkillInfoView {
                name,
                description: sf(c, "description"@),
                config_action: config_action_spec(c),
                client_command: client_action_spec(c),
            }),
            None => prev,
        }
    }
}

/// The skills of a command list; empty for other values.
pub open spec fn skills_spec(commands: Json) -> Seq<SkillInfoView> {
    match commands {
        Json::Array(a) => skills_fold(a@),
        _ => Seq::empty(),
    }
}

/// The views of a list of skills.
pub open spec fn skills_view(ss: Seq<SkillInfo>) -> Seq<SkillInfoView> {
    ss.map_values(|s: SkillInfo| s@)
}

/// Slash entries from `available_commands_update`: each named command with
/// its description and the config change or client command it stands for.
pub fn skills_from_available_commands(commands: &Json) -> (r: Vec<SkillInfo>)
    ensures
        skills_view(r@) == skills_spec(*commands),
{
    let mut out: Vec<SkillInfo> = Vec::new();
    let arr = match commands {
        Json::Array(a) => a,
        _ => {
            assert(skills_view(out@) =~= Seq::<SkillInfoView>::empty());
            return out;
        },
    };
    let mut i: usize = 0;
    while i < arr.len()
        invariant
            *commands == Json::Array(*arr),
            i <= arr@.len(),
            skills_view(out@) == skills_fold(arr@.subrange(0, i as int)),
        decreases arr@.len() - i,
    {
        let command = &arr[i];
        let ghost before = out@;
        assert(arr@.subrange(0, i + 1).drop_last() =~= arr@.subrange(0, i as int));
        assert(arr@.subrange(0, i + 1).last() == *command);
        if let Some(name) = str_member(command, "name") {
            let skill = SkillInfo {
                name,
                description: str_field(command, "description"),
                config_action: command_config_action(command),
                client_command: command_client_action(command),
            };
            out.push(skill);
            assert(skills_view(out@) =~= skills_view(before).push(out@.last()@));
        }
        i += 1;
    }
    assert(arr@.subrange(0, arr@.len() as int) =~= arr@);
    out
}

/// A `u64` member (`u64_field`).
pub open spec fn u64_member(v: Json, key: Seq<char>) -> Option<u64> {
    as_u64(get(v, key))
}

/// A count, or zero when absent.
pub open spec fn or0(v: Option<u64>) -> u64 {
    match v {
        Some(n) => n,
        None => 0,
    }
}

/// The first `n` characters of `s` (`chars().take(n)`).
pub open spec fn take_chars(s: Seq<char>, n: int) -> Seq<char> {
    if s.len() <= n { s } else { s.subrange(0, n) }
}

/// The events of an `assistant/chunk` payload.
pub open spec fn chunk_spec(session: Seq<char>, data: Json) -> Seq<UiEventV> {
    match get(data, "chunk"@) {
        None => Seq::empty(),
        Some(chunk) => {
            let t = as_str(get(chunk, "type"@));
            if t == Some("text-delta"@) {
                seq![UiEventV::TextDelta { session, text: sf(chunk, "text"@) }]
            } else if t == Some("reasoning-delta"@) {
                seq![UiEventV::ReasoningDelta { session, text: sf(chunk, "text"@) }]
            } else if t == Some("usage"@) {
                let usage = or_null(get(chunk, "usage"@));
                let cached = match u64_member(usage, "cacheReadTokens"@) {
                    Some(c) => c,
                    None => match u64_member(usage, "cachedInputTokens"@) {
                        Some(c) => c,
                        None => or0(u64_member(usage, "cacheReadInputTokens"@)),
                    },
                };
                seq![UiEventV::Usage {
                    session,
                    input: or0(u64_member(usage, "inputTokens"@)),
                    output: or0(u64_member(usage, "outputTokens"@)),
                    cached,
                    reasoning: or0(u64_member(usage, "reasoningTokens"@)),
                }]
            } else {
                Seq::empty()
            }
        },
    }
}

/// What the `tool-result` blocks of a tool message say, in order: whether
/// one is flagged an error, the first one's call id, and each one's text.
pub open spec fn tool_blocks(bs: Seq<Json>) -> (bool, Option<Seq<char>>, Seq<Seq<char>>)
    decreases bs.len(),
{
    if bs.len() == 0 {
        (false, None, Seq::empty())
    } else {
        let p = tool_blocks(bs.drop_last());
        let b = bs.last();
        if as_str(get(b, "type"@)) != Some("tool-result"@) {
            p
        } else {
            (
                p.0 || as_bool(get(b, "isError"@)) == Some(true),
                if p.1 is None { Some(sf(b, "toolCallId"@)) } else { p.1 },
                p.2.push(concat_text_spec(or_null(get(b, "content"@)))),
            )
        }
    }
}

/// An error code as text: a string as is, a number as printed.
pub open spec fn code_text(c: Option<Json>) -> Seq<char> {
    match c {
        Some(Json::String(s)) => s@,
        Some(Json::Number(n)) => n.text@,
        _ => Seq::empty(),
    }
}

/// `name (code)` of a non-null `error` member.
pub open spec fn tool_error_spec(data: Json) -> Option<Seq<char>> {
    match get(data, "error"@) {
        Some(err) => if err is Null {
            None
        } else {
            Some(sf(err, "name"@) + " ("@ + code_text(get(err, "code"@)) + ")"@)
        },
        None => None,
    }
}

/// The one `ToolResult` of a `tool/result` payload.
pub open spec fn tool_result_spec(session: Seq<char>, data: Json) -> Seq<UiEventV> {
    let blocks = match as_array(get_opt(get(data, "message"@), "content"@)) {
        Some(a) => a,
        None => Seq::empty(),
    };
    let t = tool_blocks(blocks);
    let error = tool_error_spec(data);
    seq![UiEventV::ToolResult {
        session,
        call_id: str_or(t.1, Seq::empty()),
        is_error: t.0 || error is Some,
        text: join_seq(t.2, "\n"@),
        error,
    }]
}

/// A `user/message` payload: nothing for the user's own lines, else the
/// injected text's source and its first 160 characters.
pub open spec fn user_message_spec(session: Seq<char>, data: Json) -> Seq<UiEventV> {
    match as_str(get_opt(get(data, "source"@), "kind"@)) {
        None => Seq::empty(),
        Some(kind) => if kind == "user"@ {
            Seq::empty()
        } else {
            let full = concat_text_spec(or_null(get(data, "content"@)));
            seq![UiEventV::UserInjected { session, source: kind, preview: take_chars(full, 160) }]
        },
    }
}

/// An `approval/decided` outcome: a string as is, an object's `kind`, else
/// `decided`.
pub open spec fn outcome_spec(o: Option<Json>) -> Seq<char> {
    match o {
        Some(Json::String(s)) => s@,
        Some(Json::Object(es)) => str_or(as_str(get(Json::Object(es), "kind"@)), "decided"@),
        _ => "decided"@,
    }
}

/// A string member as a one-event list, else nothing.
pub open spec fn str_event(v: Option<Seq<char>>, f: spec_fn(Seq<char>) -> UiEventV) -> Seq<UiEventV> {
    match v {
        Some(x) => seq![f(x)],
        None => Seq::empty(),
    }
}

/// The events of one harness `session.event` of type `t` with payload `data`.
pub open spec fn event_body_spec(session: Seq<char>, t: Seq<char>, data: Json) -> Seq<UiEventV> {
    if t == "turn/start"@ {
        seq![UiEventV::TurnStart { session, turn: or0(u64_member(data, "turn"@)) }]
    } else if t == "turn/end"@ {
        seq![UiEventV::TurnEnd { session, kind: str_or(as_str(get_opt(get(data, "reason"@), "kind"@)), "unknown"@) }]
    } else if t == "assistant/chunk"@ {
        chunk_spec(session, data)
    } else if t == "plan/mode"@ {
        match as_bool(get(data, "active"@)) {
            Some(active) => seq![UiEventV::PlanMode { session, active }],
            None => Seq::empty(),
        }
    } else if t == "sandbox/mode"@ {
        str_event(as_str(get(data, "mode"@)), |m: Seq<char>| UiEventV::SandboxMode { session, mode: m })
    } else if t == "approval/policy"@ {
        str_event(as_str(get(data, "policy"@)), |p: Seq<char>| UiEventV::ApprovalPolicy { session, policy: p })
    } else if t == "permission/preset"@ {
        str_event(as_str(get(data, "preset"@)), |p: Seq<char>| UiEventV::PermissionPreset { session, preset: p })
    } else if t == "agent-preset/selected"@ {
        str_event(as_str(get(data, "agentPreset"@)), |p: Seq<char>| UiEventV::AgentPreset { session, preset: p })
    } else if t == "approval/asked"@ {
        seq![UiEventV::ApprovalAsked {
            session,
            tool: str_or(as_str(get(data, "toolName"@)), "tool"@),
            reason: as_str(get(data, "reason"@)),
        }]
    } else if t == "approval/decided"@ {
        seq![UiEventV::ApprovalDecided { session, outcome: outcome_spec(get(data, "outcome"@)) }]
    } else if t == "assistant/message"@ {
        let msg = match get(data, "message"@) {
            Some(m) => m,
            None => data,
        };
        seq![UiEventV::AssistantFinal {
            session,
            text: concat_text_spec(or_null(get(msg, "content"@))),
            model: as_str(get_opt(get(msg, "source"@), "model"@)),
        }]
    } else if t == "tool/call"@ {
        seq![UiEventV::ToolCall {
            session,
            call_id: sf(data, "callId"@),
            name: sf(data, "name"@),
            arguments: sf(data, "arguments"@),
        }]
    } else if t == "tool/result"@ {
        tool_result_spec(session, data)
    } else if t == "user/message"@ {
        user_message_spec(session, data)
    } else {
        Seq::empty()
    }
}

/// The events of a harness `session.event` notification.
pub open spec fn session_event_spec(params: Json) -> Seq<UiEventV> {
    match get(params, "event"@) {
        None => Seq::empty(),
        Some(event) => match as_str(get(event, "type"@)) {
            None => Seq::empty(),
            Some(t) => event_body_spec(sf(params, "sessionId"@), t, or_null(get(event, "data"@))),
        },
    }
}

/// Concatenates the `.text` of the `type == "text"` blocks of a content
/// array.
fn concat_text_blocks(content: &Json) -> (s: String)
    ensures
        s@ == concat_text_spec(*content),
{
    let mut out = String::new();
    if let Json::Array(blocks) = content {
        let mut i: usize = 0;
        while i < blocks.len()
            invariant
                i <= blocks@.len(),
                out@ == text_blocks(blocks@.subrange(0, i as int)),
            decreases blocks@.len() - i,
        {
            let block = &blocks[i];
            assert(blocks@.subrange(0, i + 1).drop_last() =~= blocks@.subrange(0, i as int));
            assert(blocks@.subrange(0, i + 1).last() == *block);
            if member_is(block, "type", "text") {
                if let Some(Json::String(t)) = block.get("text") {
                    out.append(t.as_str());
                } else {
                    assert(out@ =~= out@ + Seq::<char>::empty());
                }
            } else {
                assert(out@ =~= out@ + Seq::<char>::empty());
            }
            i += 1;
        }
        assert(blocks@.subrange(0, blocks@.len() as int) =~= blocks@);
    }
    out
}

/// A `u64` member.
fn u64_field(v: &Json, key: &str) -> (r: Option<u64>)
    ensures
        r == u64_member(*v, key@),
{
    match v.get(key) {
        Some(n) => n.as_u64(),
        None => None,
    }
}

fn or_zero(v: Option<u64>) -> (n: u64)
    ensures
        n == or0(v),
{
    match v {
        Some(n) => n,
        None => 0,
    }
}

fn parse_assistant_chunk(session: String, data: &Json) -> (r: Vec<UiEvent>)
    ensures
        events_view(r@) == chunk_spec(session@, *data),
{
    let chunk = match data.get("chunk") {
        Some(c) => c,
        None => {
            let r: Vec<UiEvent> = Vec::new();
            assert(events_view(r@) =~= Seq::<UiEventV>::empty());
            return r;
        },
    };
    let r = if member_is(chunk, "type", "text-delta") {
        vec![UiEvent::TextDelta { session, text: str_field(chunk, "text") }]
    } else if member_is(chunk, "type", "reasoning-delta") {
        vec![UiEvent::ReasoningDelta { session, text: str_field(chunk, "text") }]
    } else if member_is(chunk, "type", "usage") {
        let null = Json::Null;
        let usage = match chunk.get("usage") {
            Some(u) => u,
            None => &null,
        };
        let cached = match u64_field(usage, "cacheReadTokens") {
            Some(c) => c,
            None => match u64_field(usage, "cachedInputTokens") {
                Some(c) => c,
                None => or_zero(u64_field(usage, "cacheReadInputTokens")),
            },
        };
        vec![UiEvent::Usage {
            session,
            input: or_zero(u64_field(usage, "inputTokens")),
            output: or_zero(u64_field(usage, "outputTokens")),
            cached,
            reasoning: or_zero(u64_field(usage, "reasoningTokens")),
        }]
    } else {
        Vec::new()
    };
    assert(events_view(r@) =~= chunk_spec(session@, *data));
    r
}

/// The views of a list of strings.
pub open spec fn string_views(v: Seq<String>) -> Seq<Seq<char>> {
    v.map_values(|s: String| s@)
}

/// The strings joined with `sep` between consecutive ones.
fn join_strings(parts: &Vec<String>, sep: &str) -> (s: String)
    ensures
        s@ == join_seq(string_views(parts@), sep@),
{
    let ghost views = string_views(parts@);
    let mut out = String::new();
    let mut i: usize = 0;
    while i < parts.len()
        invariant
            i <= parts@.len(),
            views == string_views(parts@),
            out@ == join_seq(views.subrange(0, i as int), sep@),
        decreases parts@.len() - i,
    {
        if i > 0 {
            out.append(sep);
        }
        out.append(parts[i].as_str());
        i += 1;
        proof {
            let pre = views.subrange(0, i - 1 as int);
            let cur = views.subrange(0, i as int);
            assert(cur.drop_last() =~= pre);
            assert(cur.last() == parts@[i - 1]@);
            if i == 1 {
                assert(pre =~= Seq::<Seq<char>>::empty());
                assert(join_seq(cur, sep@) == cur[0]);
                assert(out@ =~= cur[0]);
            }
        }
    }
    assert(views.subrange(0, parts@.len() as int) =~= views);
    out
}

fn parse_tool_result(session: String, data: &Json) -> (r: Vec<UiEvent>)
    ensures
        events_view(r@) == tool_result_spec(session@, *data),
{
    let empty: Vec<Json> = Vec::new();
    let blocks = match get_in(data.get("message"), "content") {
        Some(Json::Array(a)) => a,
        _ => &empty,
    };
    let ghost bs = blocks@;
    assert(bs == match as_array(get_opt(get(*data, "message"@), "content"@)) {
        Some(a) => a,
        None => Seq::<Json>::empty(),
    });
    let mut is_error = false;
    let mut call_id = String::new();
    let mut have_call_id = false;
    let mut texts: Vec<String> = Vec::new();
    let mut i: usize = 0;
    while i < blocks.len()
        invariant
            bs == blocks@,
            i <= bs.len(),
            ({
                let t = tool_blocks(bs.subrange(0, i as int));
                &&& t.0 == is_error
                &&& t.1 == (if have_call_id { Some(call_id@) } else { None })
                &&& t.2 == string_views(texts@)
            }),
            !have_call_id ==> call_id@ == Seq::<char>::empty(),
        decreases bs.len() - i,
    {
        let block = &blocks[i];
        assert(bs.subrange(0, i + 1).drop_last() =~= bs.subrange(0, i as int));
        assert(bs.subrange(0, i + 1).last() == *block);
        if member_is(block, "type", "tool-result") {
            if let Some(Json::Bool(true)) = block.get("isError") {
                is_error = true;
            }
            if !have_call_id {
                call_id = str_field(block, "toolCallId");
                have_call_id = true;
            }
            let null = Json::Null;
            let text = concat_text_blocks(match block.get("content") {
                Some(c) => c,
                None => &null,
            });
            let ghost before = texts@;
            texts.push(text);
            assert(string_views(texts@) =~= string_views(before).push(texts@.last()@));
        }
        i += 1;
    }
    assert(bs.subrange(0, bs.len() as int) =~= bs);
    let mut error: Option<String> = None;
    if let Some(err) = data.get("error") {
        if !err.is_null() {
            let mut msg = str_field(err, "name");
            let code = match err.get("code") {
                Some(Json::String(s)) => s.clone(),
                Some(Json::Number(n)) => n.text.clone(),
                _ => String::new(),
            };
            msg.append(" (");
            msg.append(code.as_str());
            msg.append(")");
            error = Some(msg);
            is_error = true;
        }
    }
    let text = join_strings(&texts, "\n");
    let r = vec![UiEvent::ToolResult { session, call_id, is_error, text, error }];
    proof {
        let t = tool_blocks(bs);
        assert(str_or(t.1, Seq::empty()) == call_id@);
    }
    assert(events_view(r@) =~= tool_result_spec(session@, *data));
    r
}

fn parse_user_message(session: String, data: &Json) -> (r: Vec<UiEvent>)
    ensures
        events_view(r@) == user_message_spec(session@, *data),
{
    let kind = match get_in(data.get("source"), "kind") {
        Some(Json::String(k)) => k,
        _ => {
            let r: Vec<UiEvent> = Vec::new();
            assert(events_view(r@) =~= Seq::<UiEventV>::empty());
            return r;
        },
    };
    if str_eq(kind.as_str(), "user") {
        let r: Vec<UiEvent> = Vec::new();
        assert(events_view(r@) =~= Seq::<UiEventV>::empty());
        return r;
    }
    let null = Json::Null;
    let full = concat_text_blocks(match data.get("content") {
        Some(c) => c,
        None => &null,
    });
    let cs = crate::text::chars_of(full.as_str());
    let preview = if cs.len() <= 160 { full } else { sub_string(&cs, 0, 160) };
    let r = vec![UiEvent::UserInjected { session, source: kind.clone(), preview }];
    assert(events_view(r@) =~= user_message_spec(session@, *data));
    r
}

fn event_body(session: String, t: &str, data: &Json) -> (r: Vec<UiEvent>)
    ensures
        events_view(r@) == event_body_spec(session@, t@, *data),
{
    let r = if str_eq(t, "turn/start") {
        vec![UiEvent::TurnStart { session, turn: or_zero(u64_field(data, "turn")) }]
    } else if str_eq(t, "turn/end") {
        let kind = match get_in(data.get("reason"), "kind") {
            Some(Json::String(k)) => k.clone(),
            _ => String::from_str("unknown"),
        };
        vec![UiEvent::TurnEnd { session, kind }]
    } else if str_eq(t, "assistant/chunk") {
        return parse_assistant_chunk(session, data);
    } else if str_eq(t, "plan/mode") {
        match data.get("active") {
            Some(Json::Bool(active)) => vec![UiEvent::PlanMode { session, active: *active }],
            _ => Vec::new(),
        }
    } else if str_eq(t, "sandbox/mode") {
        match str_member(data, "mode") {
            Some(mode) => vec![UiEvent::SandboxMode { session, mode }],
            None => Vec::new(),
        }
    } else if str_eq(t, "approval/policy") {
        match str_member(data, "policy") {
            Some(policy) => vec![UiEvent::ApprovalPolicy { session, policy }],
            None => Vec::new(),
        }
    } else if str_eq(t, "permission/preset") {
        match str_member(data, "preset") {
            Some(preset) => vec![UiEvent::PermissionPreset { session, preset }],
            None => Vec::new(),
        }
    } else if str_eq(t, "agent-preset/selected") {
        match str_member(data, "agentPreset") {
            Some(preset) => vec![UiEvent::AgentPreset { session, preset }],
            None => Vec::new(),
        }
    } else if str_eq(t, "approval/asked") {
        let tool = match str_member(data, "toolName") {
            Some(tool) => tool,
            None => String::from_str("tool"),
        };
        let reason = str_member(data, "reason");
        vec![UiEvent::ApprovalAsked { session, tool, reason }]
    } else if str_eq(t, "approval/decided") {
        let outcome = match data.get("outcome") {
            Some(Json::String(s)) => s.clone(),
            Some(o) => if let Json::Object(_) = o {
                match str_member(o, "kind") {
                    Some(k) => k,
                    None => String::from_str("decided"),
                }
            } else {
                String::from_str("decided")
            },
            None => String::from_str("decided"),
        };
        vec![UiEvent::ApprovalDecided { session, outcome }]
    } else if str_eq(t, "assistant/message") {
        let msg = match data.get("message") {
            Some(m) => m,
            None => data,
        };
        let null = Json::Null;
        let text = concat_text_blocks(match msg.get("content") {
            Some(c) => c,
            None => &null,
        });
        let model = match get_in(msg.get("source"), "model") {
            Some(Json::String(m)) => Some(m.clone()),
            _ => None,
        };
        vec![UiEvent::AssistantFinal { session, text, model }]
    } else if str_eq(t, "tool/call") {
        vec![UiEvent::ToolCall {
            session,
            call_id: str_field(data, "callId"),
            name: str_field(data, "name"),
            arguments: str_field(data, "arguments"),
        }]
    } else if str_eq(t, "tool/result") {
        return parse_tool_result(session, data);
    } else if str_eq(t, "user/message") {
        return parse_user_message(session, data);
    } else {
        Vec::new()
    };
    assert(events_view(r@) =~= event_body_spec(session@, t@, *data));
    r
}

fn parse_session_event(params: &Json) -> (r: Vec<UiEvent>)
    ensures
        events_view(r@) == session_event_spec(*params),
{
    let session = str_field(params, "sessionId");
    let event = match params.get("event") {
        Some(e) => e,
        None => {
            let r: Vec<UiEvent> = Vec::new();
            assert(events_view(r@) =~= Seq::<UiEventV>::empty());
            return r;
        },
    };
    let event_type = match event.get("type") {
        Some(Json::String(t)) => t,
        _ => {
            let r: Vec<UiEvent> = Vec::new();
            assert(events_view(r@) =~= Seq::<UiEventV>::empty());
            return r;
        },
    };
    let null = Json::Null;
    let data = match event.get("data") {
        Some(d) => d,
        None => &null,
    };
    event_body(session, event_type.as_str(), data)
}

/// The `_meta.dsh` extension object of an ACP update.
pub open spec fn dsh_meta(update: Json) -> Option<Json> {
    get_opt(get(update, "_meta"@), "dsh"@)
}

/// The `_meta.dsh.subagent` block of an ACP update.
pub open spec fn subagent_of(update: Json) -> Option<Json> {
    get_opt(dsh_meta(update), "subagent"@)
}

/// Whether the dsh extension names the event `e`.
pub open spec fn dsh_event_is(dsh: Option<Json>, e: Seq<char>) -> bool {
    as_str(get_opt(dsh, "event"@)) == Some(e)
}

/// The text a finished tool call shows: non-empty terminal output, else
/// the raw output (a string, its `output` string, or its JSON text), else
/// the text blocks of its content.
pub open spec fn tool_output_spec(update: Json) -> Seq<char> {
    let term = as_str(get_opt(get_opt(get(update, "_meta"@), "terminal_output"@), "data"@));
    if term is Some && term.unwrap().len() > 0 {
        term.unwrap()
    } else {
        match or_else(get(update, "rawOutput"@), get(update, "raw_output"@)) {
            Some(raw) => match as_str(Some(raw)) {
                Some(s) => s,
                None => match as_str(get(raw, "output"@)) {
                    Some(s) => s,
                    None => json_text(raw),
                },
            },
            None => match get(update, "content"@) {
                Some(c) => concat_text_spec(c),
                None => Seq::empty(),
            },
        }
    }
}

/// Each plan entry with string `content`, as `content` or `content [status]`.
pub open spec fn plan_parts(es: Seq<Json>) -> Seq<Seq<char>>
    decreases es.len(),
{
    if es.len() == 0 {
        Seq::empty()
    } else {
        let prev = plan_parts(es.drop_last());
        let e = es.last();
        match as_str(get(e, "content"@)) {
            None => prev,
            Some(c) => {
                let st = sf(e, "status"@);
                prev.push(if st.len() == 0 { c } else { c + " ["@ + st + "]"@ })
            },
        }
    }
}

/// The one-line summary of an ACP plan: its entries joined with ` · `, or
/// else the plan's (or the update's) `content` text.
pub open spec fn plan_summary_spec(update: Json) -> Seq<char> {
    match as_array(or_else(get(update, "entries"@), get_opt(get(update, "plan"@), "entries"@))) {
        Some(es) => join_seq(plan_parts(es), " · "@),
        None => match as_str(get_opt(get(update, "plan"@), "content"@)) {
            Some(s) => s,
            None => sf(update, "content"@),
        },
    }
}

/// The token usage a dsh `prompt/usage` session-info update carries.
pub open spec fn info_usage(update: Json) -> Option<Json> {
    let dsh = dsh_meta(update);
    if dsh_event_is(dsh, "prompt/usage"@) { get_opt(dsh, "usage"@) } else { None }
}

/// The events of an ACP `session_info_update`: a usage snapshot, an
/// injected-context line, or the session's new title.
pub open spec fn info_spec(session: Seq<char>, update: Json) -> Seq<UiEventV> {
    match info_usage(update) {
        Some(u) => seq![UiEventV::Usage {
            session,
            input: or0(u64_member(u, "inputTokens"@)),
            output: or0(u64_member(u, "outputTokens"@)),
            cached: (or0(u64_member(u, "cachedReadTokens"@)) + or0(u64_member(u, "cachedWriteTokens"@))) as u64,
            reasoning: or0(u64_member(u, "thoughtTokens"@)),
        }],
        None => match dsh_meta(update) {
            Some(dsh) if dsh_event_is(Some(dsh), "user/message"@) => seq![UiEventV::UserInjected {
                session,
                source: sf(dsh, "source"@),
                preview: sf(dsh, "preview"@),
            }],
            _ => {
                let title = trim_seq(str_or_empty(get(update, "title"@)));
                if title.len() == 0 { Seq::empty() } else { seq![UiEventV::SessionTitle { session, title }] }
            },
        },
    }
}

/// Whether the cache counts of a usage snapshot sum within `u64`.
pub open spec fn counts_fit(update: Json) -> bool {
    match info_usage(update) {
        Some(u) => or0(u64_member(u, "cachedReadTokens"@)) + or0(u64_member(u, "cachedWriteTokens"@)) <= u64::MAX,
        None => true,
    }
}

/// The `update` object of a `session/update` (the params themselves when absent).
pub open spec fn update_of(params: Json) -> Json {
    match get(params, "update"@) {
        Some(u) => u,
        None => params,
    }
}

/// A `session/update` that the decoder can take: a usage snapshot whose
/// cache counts overflow a `u64` is left out.
pub open spec fn update_decodable(params: Json) -> bool {
    sf(update_of(params), "sessionUpdate"@) == "session_info_update"@ ==> counts_fit(update_of(params))
}

/// The events of one ACP update of kind `kind`; `root` is the notified
/// session, `session` the one the update belongs to (a subagent's child
/// session, when the dsh extension names one).
pub open spec fn update_body_spec(root: Seq<char>, session: Seq<char>, kind: Seq<char>, update: Json) -> Seq<UiEventV> {
    let sub = subagent_of(update);
    let state = as_str(get_opt(sub, "state"@));
    if kind == "agent_message_chunk"@ {
        let text = acp_text_spec(get(update, "content"@));
        let dsh = dsh_meta(update);
        let a = if text.len() > 0 { seq![UiEventV::TextDelta { session, text }] } else { Seq::empty() };
        let b = if dsh_event_is(dsh, "assistant_message"@) {
            seq![UiEventV::AssistantFinal { session, text: Seq::empty(), model: as_str(get_opt(dsh, "model"@)) }]
        } else {
            Seq::empty()
        };
        a + b
    } else if kind == "agent_thought_chunk"@ {
        let text = acp_text_spec(get(update, "content"@));
        if text.len() > 0 { seq![UiEventV::ReasoningDelta { session, text }] } else { Seq::empty() }
    } else if kind == "user_message_chunk"@ {
        let text = acp_text_spec(get(update, "content"@));
        if text.len() > 0 { seq![UiEventV::UserMessage { session, text }] } else { Seq::empty() }
    } else if kind == "session_info_update"@ {
        info_spec(session, update)
    } else if kind == "plan"@ || kind == "plan_update"@ {
        let summary = plan_summary_spec(update);
        if summary.len() == 0 && as_array(get(update, "entries"@)) is None {
            Seq::empty()
        } else {
            seq![UiEventV::Plan { session, summary }]
        }
    } else if kind == "plan_removed"@ {
        seq![UiEventV::Plan { session, summary: Seq::empty() }]
    } else if kind == "tool_call"@ {
        if state == Some("started"@) {
            seq![UiEventV::SubagentStarted { parent: root, child: session }]
        } else {
            seq![UiEventV::ToolCall {
                session,
                call_id: first_str_spec(update, seq!["toolCallId"@, "tool_call_id"@]),
                name: first_str_spec(update, seq!["title"@, "kind"@, "toolName"@]),
                arguments: match or_else(get(update, "rawInput"@), get(update, "raw_input"@)) {
                    Some(v) => json_text(v),
                    None => Seq::empty(),
                },
            }]
        }
    } else if kind == "tool_call_update"@ {
        if state == Some("finished"@) {
            seq![UiEventV::SubagentFinished { child: session }]
        } else {
            let status = first_str_spec(update, seq!["status"@]);
            if status != "completed"@ && status != "failed"@ {
                Seq::empty()
            } else {
                seq![UiEventV::ToolResult {
                    session,
                    call_id: first_str_spec(update, seq!["toolCallId"@, "tool_call_id"@]),
                    is_error: status == "failed"@,
                    text: tool_output_spec(update),
                    error: None,
                }]
            }
        }
    } else if kind == "current_mode_update"@ {
        let mode = first_str_spec(update, seq!["currentModeId"@, "current_mode_id"@]);
        if mode.len() == 0 {
            Seq::empty()
        } else {
            seq![UiEventV::PermissionPreset { session, preset: mode }, UiEventV::SandboxMode { session, mode }]
        }
    } else if kind == "config_option_update"@ {
        match or_else(get(update, "configOptions"@), get(update, "config_options"@)) {
            Some(o) => config_events_spec(session, o),
            None => Seq::empty(),
        }
    } else {
        Seq::empty()
    }
}

/// The events of an ACP `session/update` notification.
pub open spec fn session_update_spec(params: Json) -> Seq<UiEventV> {
    let root = sf(params, "sessionId"@);
    let update = update_of(params);
    let session = str_or(as_str(get_opt(subagent_of(update), "childSessionId"@)), root);
    update_body_spec(root, session, sf(update, "sessionUpdate"@), update)
}

fn acp_text_content(content: Option<&Json>) -> (s: String)
    ensures
        s@ == acp_text_spec(deref_opt(content)),
{
    let content = match content {
        Some(c) => c,
        None => return String::new(),
    };
    if let Some(t) = str_member(content, "text") {
        return t;
    }
    concat_text_blocks(content)
}

fn acp_tool_output_text(update: &Json) -> (s: String)
    ensures
        s@ == tool_output_spec(*update),
{
    if let Some(Json::String(data)) = get_in(get_in(update.get("_meta"), "terminal_output"), "data") {
        if data.as_str().unicode_len() > 0 {
            return data.clone();
        }
    }
    let raw = match update.get("rawOutput") {
        Some(r) => Some(r),
        None => update.get("raw_output"),
    };
    if let Some(raw) = raw {
        if let Json::String(s) = raw {
            return s.clone();
        }
        if let Some(s) = str_member(raw, "output") {
            return s;
        }
        return json_to_string(raw);
    }
    if let Some(content) = update.get("content") {
        return concat_text_blocks(content);
    }
    String::new()
}

fn plan_summary(update: &Json) -> (s: String)
    ensures
        s@ == plan_summary_spec(*update),
{
    let entries = match update.get("entries") {
        Some(e) => Some(e),
        None => get_in(update.get("plan"), "entries"),
    };
    if let Some(Json::Array(es)) = entries {
        let mut parts: Vec<String> = Vec::new();
        let mut i: usize = 0;
        while i < es.len()
            invariant
                i <= es@.len(),
                string_views(parts@) == plan_parts(es@.subrange(0, i as int)),
            decreases es@.len() - i,
        {
            let entry = &es[i];
            let ghost before = parts@;
            assert(es@.subrange(0, i + 1).drop_last() =~= es@.subrange(0, i as int));
            assert(es@.subrange(0, i + 1).last() == *entry);
            if let Some(content) = str_member(entry, "content") {
                let status = str_field(entry, "status");
                let part = if status.as_str().unicode_len() == 0 {
                    content
                } else {
                    let mut p = content;
                    p.append(" [");
                    p.append(status.as_str());
                    p.append("]");
                    p
                };
                parts.push(part);
                assert(string_views(parts@) =~= string_views(before).push(parts@.last()@));
            }
            i += 1;
        }
        assert(es@.subrange(0, es@.len() as int) =~= es@);
        return join_strings(&parts, " · ");
    }
    match get_in(update.get("plan"), "content") {
        Some(Json::String(s)) => s.clone(),
        _ => str_field(update, "content"),
    }
}

fn session_info_events(session: String, update: &Json) -> (r: Vec<UiEvent>)
    requires
        counts_fit(*update),
    ensures
        events_view(r@) == info_spec(session@, *update),
{
    let dsh = get_in(update.get("_meta"), "dsh");
    let is_usage = match dsh {
        Some(d) => member_is(d, "event", "prompt/usage"),
        None => false,
    };
    let usage = if is_usage { get_in(dsh, "usage") } else { None };
    assert(deref_opt(usage) == info_usage(*update));
    if let Some(u) = usage {
        let r = vec![UiEvent::Usage {
            session,
            input: or_zero(u64_field(u, "inputTokens")),
            output: or_zero(u64_field(u, "outputTokens")),
            cached: or_zero(u64_field(u, "cachedReadTokens")) + or_zero(u64_field(u, "cachedWriteTokens")),
            reasoning: or_zero(u64_field(u, "thoughtTokens")),
        }];
        assert(events_view(r@) =~= info_spec(session@, *update));
        return r;
    }
    if let Some(d) = dsh {
        if member_is(d, "event", "user/message") {
            let r = vec![UiEvent::UserInjected {
                session,
                source: str_field(d, "source"),
                preview: str_field(d, "preview"),
            }];
            assert(events_view(r@) =~= info_spec(session@, *update));
            return r;
        }
    }
    let raw = match update.get("title") {
        Some(Json::String(t)) => crate::text::chars_of(t.as_str()),
        _ => Vec::new(),
    };
    let title = crate::text::trimmed(raw.as_slice());
    let r = if title.len() == 0 {
        Vec::new()
    } else {
        vec![UiEvent::SessionTitle { session, title: crate::text::string_of(title.as_slice()) }]
    };
    assert(events_view(r@) =~= info_spec(session@, *update));
    r
}

/// Whether the dsh `subagent` block's `state` is `state`.
fn subagent_state_is(sub: Option<&Json>, state: &str) -> (b: bool)
    ensures
        b == (as_str(get_opt(deref_opt(sub), "state"@)) == Some(state@)),
{
    match sub {
        Some(s) => member_is(s, "state", state),
        None => false,
    }
}

fn update_body(root: String, session: String, kind: &str, update: &Json) -> (r: Vec<UiEvent>)
    requires
        kind@ == "session_info_update"@ ==> counts_fit(*update),
    ensures
        events_view(r@) == update_body_spec(root@, session@, kind@, *update),
{
    let sub = get_in(get_in(update.get("_meta"), "dsh"), "subagent");
    let r = if str_eq(kind, "agent_message_chunk") {
        let text = acp_text_content(update.get("content"));
        let dsh = get_in(update.get("_meta"), "dsh");
        let mut events: Vec<UiEvent> = Vec::new();
        if text.as_str().unicode_len() > 0 {
            events.push(UiEvent::TextDelta { session: session.clone(), text });
        }
        if let Some(d) = dsh {
            if member_is(d, "event", "assistant_message") {
                let model = str_member(d, "model");
                events.push(UiEvent::AssistantFinal { session, text: String::new(), model });
            }
        }
        events
    } else if str_eq(kind, "agent_thought_chunk") {
        let text = acp_text_content(update.get("content"));
        if text.as_str().unicode_len() == 0 { Vec::new() } else { vec![UiEvent::ReasoningDelta { session, text }] }
    } else if str_eq(kind, "user_message_chunk") {
        let text = acp_text_content(update.get("content"));
        if text.as_str().unicode_len() == 0 { Vec::new() } else { vec![UiEvent::UserMessage { session, text }] }
    } else if str_eq(kind, "session_info_update") {
        return session_info_events(session, update);
    } else if str_eq(kind, "plan") || str_eq(kind, "plan_update") {
        let summary = plan_summary(update);
        let has_entries = match update.get("entries") {
            Some(Json::Array(_)) => true,
            _ => false,
        };
        if summary.as_str().unicode_len() == 0 && !has_entries {
            Vec::new()
        } else {
            vec![UiEvent::Plan { session, summary }]
        }
    } else if str_eq(kind, "plan_removed") {
        vec![UiEvent::Plan { session, summary: String::new() }]
    } else if str_eq(kind, "tool_call") {
        if subagent_state_is(sub, "started") {
            vec![UiEvent::SubagentStarted { parent: root, child: session }]
        } else {
            let id_keys = ["toolCallId", "tool_call_id"];
            let name_keys = ["title", "kind", "toolName"];
            assert(id_keys@.map_values(|k: &str| k@) =~= seq!["toolCallId"@, "tool_call_id"@]);
            assert(name_keys@.map_values(|k: &str| k@) =~= seq!["title"@, "kind"@, "toolName"@]);
            let raw = match update.get("rawInput") {
                Some(v) => Some(v),
                None => update.get("raw_input"),
            };
            let arguments = match raw {
                Some(v) => json_to_string(v),
                None => String::new(),
            };
            vec![UiEvent::ToolCall {
                session,
                call_id: first_str(update, &id_keys),
                name: first_str(update, &name_keys),
                arguments,
            }]
        }
    } else if str_eq(kind, "tool_call_update") {
        if subagent_state_is(sub, "finished") {
            vec![UiEvent::SubagentFinished { child: session }]
        } else {
            let status_keys = ["status"];
            assert(status_keys@.map_values(|k: &str| k@) =~= seq!["status"@]);
            let status = first_str(update, &status_keys);
            let completed = str_eq(status.as_str(), "completed");
            let failed = str_eq(status.as_str(), "failed");
            if !completed && !failed {
                Vec::new()
            } else {
                let id_keys = ["toolCallId", "tool_call_id"];
                assert(id_keys@.map_values(|k: &str| k@) =~= seq!["toolCallId"@, "tool_call_id"@]);
                let text = acp_tool_output_text(update);
                vec![UiEvent::ToolResult {
                    session,
                    call_id: first_str(update, &id_keys),
                    is_error: failed,
                    text,
                    error: None,
                }]
            }
        }
    } else if str_eq(kind, "current_mode_update") {
        let mode_keys = ["currentModeId", "current_mode_id"];
        assert(mode_keys@.map_values(|k: &str| k@) =~= seq!["currentModeId"@, "current_mode_id"@]);
        let mode = first_str(update, &mode_keys);
        if mode.as_str().unicode_len() == 0 {
            Vec::new()
        } else {
            vec![
                UiEvent::PermissionPreset { session: session.clone(), preset: mode.clone() },
                UiEvent::SandboxMode { session, mode },
            ]
        }
    } else if str_eq(kind, "config_option_update") {
        let options = match update.get("configOptions") {
            Some(o) => Some(o),
            None => update.get("config_options"),
        };
        match options {
            Some(o) => return config_option_events(session, o),
            None => Vec::new(),
        }
    } else {
        Vec::new()
    };
    assert(events_view(r@) =~= update_body_spec(root@, session@, kind@, *update));
    r
}

fn parse_session_update(params: &Json) -> (r: Vec<UiEvent>)
    requires
        update_decodable(*params),
    ensures
        events_view(r@) == session_update_spec(*params),
{
    let root_session = str_field(params, "sessionId");
    let update = match params.get("update") {
        Some(u) => u,
        None => params,
    };
    let sub = get_in(get_in(update.get("_meta"), "dsh"), "subagent");
    let session = match get_in(sub, "childSessionId") {
        Some(Json::String(c)) => c.clone(),
        _ => root_session.clone(),
    };
    let kind = str_field(update, "sessionUpdate");
    update_body(root_session, session, kind.as_str(), update)
}

/// The events of a JSON-RPC notification `method` with `params`.
pub open spec fn notification_spec(method: Seq<char>, params: Json) -> Seq<UiEventV> {
    if method == "session.status"@ {
        match as_str(get(params, "status"@)) {
            Some(status) => seq![UiEventV::SessionStatus { session: sf(params, "sessionId"@), running: status == "running"@ }],
            None => Seq::empty(),
        }
    } else if method == "subagent.started"@ {
        seq![UiEventV::SubagentStarted { parent: sf(params, "parentSessionId"@), child: sf(params, "childSessionId"@) }]
    } else if method == "subagent.finished"@ {
        seq![UiEventV::SubagentFinished { child: sf(params, "childSessionId"@) }]
    } else if method == "session.event"@ {
        session_event_spec(params)
    } else if method == "session/update"@ {
        session_update_spec(params)
    } else {
        Seq::empty()
    }
}

/// A notification that the decoder can take: every one but a
/// `session/update` usage snapshot whose cache counts overflow a `u64`.
pub open spec fn notification_decodable(method: Seq<char>, params: Json) -> bool {
    method == "session/update"@ ==> update_decodable(params)
}

/// Whether `parse_notification` can take this notification (see
/// `notification_decodable`).
pub fn decodable(method: &str, params: &Json) -> (b: bool)
    ensures
        b == notification_decodable(method@, *params),
{
    if !str_eq(method, "session/update") {
        return true;
    }
    let update = match params.get("update") {
        Some(u) => u,
        None => params,
    };
    if !member_is(update, "sessionUpdate", "session_info_update") {
        proof {
            reveal_strlit("session_info_update");
            assert("session_info_update"@.len() > 0);
            assert(*update == update_of(*params));
            assert(sf(*update, "sessionUpdate"@) != "session_info_update"@);
        }
        return true;
    }
    let dsh = get_in(update.get("_meta"), "dsh");
    let is_usage = match dsh {
        Some(d) => member_is(d, "event", "prompt/usage"),
        None => false,
    };
    let usage = if is_usage { get_in(dsh, "usage") } else { None };
    match usage {
        Some(u) => {
            let read = or_zero(u64_field(u, "cachedReadTokens"));
            let write = or_zero(u64_field(u, "cachedWriteTokens"));
            read <= u64::MAX - write
        },
        None => true,
    }
}

/// Parses a JSON-RPC notification into zero or more UI events: the
/// harness's `session.status`, `subagent.*` and `session.event`
/// notifications and the standard ACP `session/update`. Unknown methods
/// and malformed payloads yield no events.
pub fn parse_notification(method: &str, params: &Json) -> (r: Vec<UiEvent>)
    requires
        notification_decodable(method@, *params),
    ensures
        events_view(r@) == notification_spec(method@, *params),
{
    let r = if str_eq(method, "session.status") {
        match str_member(params, "status") {
            Some(status) => vec![UiEvent::SessionStatus {
                session: str_field(params, "sessionId"),
                running: str_eq(status.as_str(), "running"),
            }],
            None => Vec::new(),
        }
    } else if str_eq(method, "subagent.started") {
        vec![UiEvent::SubagentStarted {
            parent: str_field(params, "parentSessionId"),
            child: str_field(params, "childSessionId"),
        }]
    } else if str_eq(method, "subagent.finished") {
        vec![UiEvent::SubagentFinished { child: str_field(params, "childSessionId") }]
    } else if str_eq(method, "session.event") {
        return parse_session_event(params);
    } else if str_eq(method, "session/update") {
        return parse_session_update(params);
    } else {
        Vec::new()
    };
    assert(events_view(r@) =~= notification_spec(method@, *params));
    r
}

/// Unknown notification methods decode to no events.
pub proof fn law_unknown_methods_yield_no_events(method: Seq<char>, params: Json)
    requires
        method != "session.status"@,
        method != "subagent.started"@,
        method != "subagent.finished"@,
        method != "session.event"@,
        method != "session/update"@,
    ensures
        notification_spec(method, params) == Seq::<UiEventV>::empty(),
{
}

/// A harness `session.event`, `session.status` or ACP `session/update`
/// whose params are not an object decodes to no events.
pub proof fn law_malformed_params_yield_no_events(method: Seq<char>, params: Json)
    requires
        !(params is Object),
        method == "session.event"@ || method == "session.status"@ || method == "session/update"@,
    ensures
        notification_spec(method, params) == Seq::<UiEventV>::empty(),
{
    reveal_strlit("session/update");
    reveal_strlit("session.event");
    reveal_strlit("session.status");
    reveal_strlit("subagent.started");
    reveal_strlit("subagent.finished");
    if method == "session/update"@ {
        assert(get(params, "update"@) is None);
        assert(update_of(params) == params);
        let kind = sf(params, "sessionUpdate"@);
        assert(kind == Seq::<char>::empty());
        reveal_strlit("agent_message_chunk");
        reveal_strlit("agent_thought_chunk");
        reveal_strlit("user_message_chunk");
        reveal_strlit("session_info_update");
        reveal_strlit("plan");
        reveal_strlit("plan_update");
        reveal_strlit("plan_removed");
        reveal_strlit("tool_call");
        reveal_strlit("tool_call_update");
        reveal_strlit("current_mode_update");
        reveal_strlit("config_option_update");
        assert(kind != "agent_message_chunk"@);
        assert(kind != "plan"@);
        let root = sf(params, "sessionId"@);
        let session = str_or(as_str(get_opt(subagent_of(params), "childSessionId"@)), root);
        assert(update_body_spec(root, session, kind, params) == Seq::<UiEventV>::empty());
        assert(session_update_spec(params) == Seq::<UiEventV>::empty());
        assert(method[7] != "session.status"@[7]);
        assert(method != "session.status"@);
        assert(method != "subagent.started"@);
        assert(method != "subagent.finished"@);
        assert(method != "session.event"@);
        assert(notification_spec(method, params) == session_update_spec(params));
    } else if method == "session.event"@ {
        assert(session_event_spec(params) == Seq::<UiEventV>::empty());
        assert(method.len() != "session.status"@.len());
        assert(notification_spec(method, params) == session_event_spec(params));
    } else {
        assert(method == "session.status"@);
        assert(as_str(get(params, "status"@)) is None);
    }
}

/// The session an event of an update belongs to, if any.
pub open spec fn event_session(e: UiEventV) -> Option<Seq<char>> {
    match e {
        UiEventV::SubagentStarted { child, .. } => Some(child),
        UiEventV::SubagentFinished { child } => Some(child),
        UiEventV::SessionStatus { session, .. } => Some(session),
        UiEventV::TurnStart { session, .. } => Some(session),
        UiEventV::TurnEnd { session, .. } => Some(session),
        UiEventV::TextDelta { session, .. } => Some(session),
        UiEventV::ReasoningDelta { session, .. } => Some(session),
        UiEventV::AssistantFinal { session, .. } => Some(session),
        UiEventV::ToolCall { session, .. } => Some(session),
        UiEventV::ToolResult { session, .. } => Some(session),
        UiEventV::Usage { session, .. } => Some(session),
        UiEventV::UserInjected { session, .. } => Some(session),
        UiEventV::UserMessage { session, .. } => Some(session),
        UiEventV::SessionTitle { session, .. } => Some(session),
        UiEventV::Plan { session, .. } => Some(session),
        UiEventV::PlanMode { session, .. } => Some(session),
        UiEventV::SandboxMode { session, .. } => Some(session),
        UiEventV::ApprovalPolicy { session, .. } => Some(session),
        UiEventV::PermissionPreset { session, .. } => Some(session),
        UiEventV::AgentPreset { session, .. } => Some(session),
        UiEventV::ApprovalAsked { session, .. } => Some(session),
        UiEventV::ApprovalDecided { session, .. } => Some(session),
    }
}

/// Every event an ACP `session/update` decodes to belongs to the session
/// the update is attributed to: the subagent's child session when the dsh
/// extension names one, else the notified session.
pub proof fn law_updates_belong_to_their_session(params: Json)
    ensures
        forall|k: int| 0 <= k < session_update_spec(params).len() ==> event_session(#[trigger] session_update_spec(params)[k])
            == Some(str_or(as_str(get_opt(subagent_of(update_of(params)), "childSessionId"@)), sf(params, "sessionId"@))),
{
}

/// A tool result whose payload carries a non-null `error` is an error.
pub proof fn law_tool_error_forces_is_error(session: Seq<char>, data: Json)
    requires
        get(data, "error"@) matches Some(err) && !(err is Null),
    ensures
        tool_result_spec(session, data)[0] matches UiEventV::ToolResult { is_error, error, .. } && is_error && error is Some,
{
}

/// An injected user message's preview is at most 160 characters, and a
/// prefix of the message's text.
pub proof fn law_injected_preview_is_bounded(session: Seq<char>, data: Json)
    ensures
        forall|k: int| 0 <= k < user_message_spec(session, data).len() ==> (#[trigger] user_message_spec(session, data)[k]
            matches UiEventV::UserInjected { preview, .. } && preview.len() <= 160
            && preview == concat_text_spec(or_null(get(data, "content"@))).subrange(0, preview.len() as int)),
{
    let full = concat_text_spec(or_null(get(data, "content"@)));
    assert(full.subrange(0, full.len() as int) =~= full);
}

proof fn lemma_char_index(s: Seq<char>, c: char)
    ensures
        match char_index(s, c) {
            Some(k) => 0 <= k < s.len() && s[k] == c && forall|j: int| 0 <= j < k ==> s[j] != c,
            None => !s.contains(c),
        },
    decreases s.len(),
{
    if s.len() > 0 {
        lemma_char_index(s.drop_first(), c);
        if s[0] != c {
            match char_index(s.drop_first(), c) {
                Some(k) => {
                    assert forall|j: int| 0 <= j < k + 1 implies s[j] != c by {
                        if j > 0 {
                            assert(s[j] == s.drop_first()[j - 1]);
                        }
                    }
                },
                None => {
                    assert forall|j: int| 0 <= j < s.len() implies s[j] != c by {
                        if j > 0 {
                            assert(s[j] == s.drop_first()[j - 1]);
                        }
                    }
                },
            }
        }
    }
}

/// Splitting a model choice's value at its first `/` loses nothing: the
/// provider (which holds no `/`), a `/` and the model id give back the
/// value; a value without `/` is all model id, with no provider.
pub proof fn law_model_id_split_is_lossless(id: Seq<char>)
    ensures
        id.contains('/') ==> split_model_id(id).0 + seq!['/'] + split_model_id(id).1 == id
            && !split_model_id(id).0.contains('/'),
        !id.contains('/') ==> split_model_id(id).0.len() == 0 && split_model_id(id).1 == id,
{
    lemma_char_index(id, '/');
    match char_index(id, '/') {
        Some(k) => {
            let (p, m) = split_model_id(id);
            assert(p + seq!['/'] + m =~= id);
            assert forall|j: int| 0 <= j < p.len() implies p[j] != '/' by {}
        },
        None => {},
    }
}

/// Each model row of a config-option catalog keeps its choice: the row's
/// name is the choice's name, it claims no vision, and for a value with a
/// `/` its provider, a `/` and its id spell the value, the provider
/// holding no `/`.
pub proof fn law_catalog_models_keep_their_choice(cs: Seq<(Seq<char>, Seq<char>, Seq<char>)>, i: int)
    requires
        0 <= i < cs.len(),
    ensures
        models_of(cs).len() == cs.len(),
        models_of(cs)[i].name == cs[i].1,
        !models_of(cs)[i].vision,
        cs[i].0.contains('/') ==> models_of(cs)[i].provider + seq!['/'] + models_of(cs)[i].id == cs[i].0
            && !models_of(cs)[i].provider.contains('/'),
        !cs[i].0.contains('/') ==> models_of(cs)[i].provider.len() == 0 && models_of(cs)[i].id == cs[i].0,
{
    law_model_id_split_is_lossless(cs[i].0);
}

} // verus!
