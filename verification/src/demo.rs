//! The scripted demo turn: the harness notifications a demo session plays
//! back, and how its answer is cut into streaming pieces.

use vstd::prelude::*;
use vstd::string::*;
use crate::json::{Json, JsonNumber, JsonV, entry_views, json_text, json_to_string, json_views};
use crate::text::{chars_of, decimal, push_decimal, string_of, sub_string};

verus! {

/// The pieces of `s` of `step` characters each (the last may be shorter).
pub open spec fn chunks_of(s: Seq<char>, step: int) -> Seq<Seq<char>>
    decreases s.len(),
{
    if s.len() == 0 || step <= 0 {
        Seq::empty()
    } else if s.len() <= step {
        seq![s]
    } else {
        seq![s.subrange(0, step)] + chunks_of(s.subrange(step, s.len() as int), step)
    }
}

/// The piece length for a text of `n` characters: a sixth of it, at least 24.
pub open spec fn piece_step(n: int) -> int {
    if n / 6 >= 24 { n / 6 } else { 24 }
}

/// Breaks `text` into a handful of streaming pieces: chunks of a sixth of
/// its length (at least 24 characters each), in order.
pub fn split_pieces(text: &str) -> (r: Vec<String>)
    ensures
        crate::events::string_views(r@) == chunks_of(text@, piece_step(text@.len() as int)),
{
    let chars = chars_of(text);
    let n = chars.len();
    let step = if n / 6 >= 24 { n / 6 } else { 24 };
    let mut out: Vec<String> = Vec::new();
    let mut i: usize = 0;
    assert(chars@.subrange(0, n as int) =~= chars@);
    while i < n
        invariant
            n == chars@.len(),
            chars@ == text@,
            step == piece_step(n as int),
            step >= 24,
            i <= n,
            crate::events::string_views(out@) + chunks_of(chars@.subrange(i as int, n as int), step as int)
                == chunks_of(text@, step as int),
        decreases n - i,
    {
        let hi = if n - i <= step { n } else { i + step };
        let piece = sub_string(&chars, i, hi);
        let ghost rest = chars@.subrange(i as int, n as int);
        let ghost o = crate::events::string_views(out@);
        out.push(piece);
        assert(crate::events::string_views(out@) =~= o.push(piece@));
        if n - i <= step {
            assert(piece@ =~= rest);
            assert(chunks_of(rest, step as int) == seq![rest]);
            assert(chars@.subrange(n as int, n as int) =~= Seq::<char>::empty());
            assert(o + seq![rest] =~= o.push(piece@));
        } else {
            assert(piece@ =~= rest.subrange(0, step as int));
            assert(rest.subrange(step as int, rest.len() as int) =~= chars@.subrange(i + step, n as int));
            assert(o.push(piece@) + chunks_of(chars@.subrange(i + step, n as int), step as int)
                =~= o + chunks_of(rest, step as int));
        }
        i = hi;
    }
    assert(chars@.subrange(n as int, n as int) =~= Seq::<char>::empty());
    assert(crate::events::string_views(out@) + Seq::<Seq<char>>::empty() =~= crate::events::string_views(out@));
    out
}

/// The long demo answer: a walkthrough with a fenced code block, long
/// enough to exercise wrapping and collapsing.
pub open spec fn long_conclusion_text() -> Seq<char> {
    "Here is the full walkthrough of the entrypoint.\n\nStartup path:\n1. `main` parses argv.\n2. Terminal enters raw mode.\n3. The event bus channel is created.\n4. The runtime subprocess is spawned.\n5. The render loop begins.\n\nRelevant code:\n\n```rust\nfn main() {\n    let args = std::env::args();\n    // set up the bus and the runtime\n    let (tx, rx) = std::sync::mpsc::channel();\n    spawn_runtime(tx.clone());\n    // hand control to the UI loop\n    run(args, tx, rx)\n}\n```\n\nNotes:\n- The loop is single-threaded; everything arrives via AppEvent.\n- Stderr lines are kept for diagnostics.\n- Shell commands report back as ShellDone.\n- Controller updates flow through CtlEvent.\n- Nothing blocks the render path.\n\nLonger lines follow to exercise soft wrapping in narrow panes: this sentence intentionally rambles on well past any reasonable terminal width so the wrapping logic has something to chew on.\n\nThat's the whole story — the DeepSeek whale breached, gave a cheerful spout of approval, and slipped back beneath the waves. 🐋\n"@
}

/// The long demo answer (about thirty lines, with a rust code block).
pub fn long_conclusion() -> (s: String)
    ensures
        s@ == long_conclusion_text(),
{
    String::from_str("Here is the full walkthrough of the entrypoint.\n\nStartup path:\n1. `main` parses argv.\n2. Terminal enters raw mode.\n3. The event bus channel is created.\n4. The runtime subprocess is spawned.\n5. The render loop begins.\n\nRelevant code:\n\n```rust\nfn main() {\n    let args = std::env::args();\n    // set up the bus and the runtime\n    let (tx, rx) = std::sync::mpsc::channel();\n    spawn_runtime(tx.clone());\n    // hand control to the UI loop\n    run(args, tx, rx)\n}\n```\n\nNotes:\n- The loop is single-threaded; everything arrives via AppEvent.\n- Stderr lines are kept for diagnostics.\n- Shell commands report back as ShellDone.\n- Controller updates flow through CtlEvent.\n- Nothing blocks the render path.\n\nLonger lines follow to exercise soft wrapping in narrow panes: this sentence intentionally rambles on well past any reasonable terminal width so the wrapping logic has something to chew on.\n\nThat's the whole story — the DeepSeek whale breached, gave a cheerful spout of approval, and slipped back beneath the waves. 🐋\n")
}

// ----- document builders -----

/// A string value.
pub open spec fn vs(x: Seq<char>) -> JsonV {
    JsonV::Str(x)
}

/// A small non-negative number.
pub open spec fn vn(k: u64) -> JsonV {
    JsonV::Number(Some(k), Some(k as i64), decimal(k as nat))
}

pub(crate) fn js(s: &str) -> (r: Json)
    ensures
        r@ == vs(s@),
{
    Json::String(String::from_str(s))
}

pub(crate) fn jstr(s: String) -> (r: Json)
    ensures
        r@ == vs(s@),
{
    Json::String(s)
}

pub(crate) fn jn(k: u64) -> (r: Json)
    requires
        k <= 0x7fff_ffff,
    ensures
        r@ == vn(k),
{
    let mut digits: Vec<char> = Vec::new();
    push_decimal(&mut digits, k);
    assert(digits@ =~= decimal(k as nat));
    Json::Number(JsonNumber { as_u64: Some(k), as_i64: Some(k as i64), text: string_of(digits.as_slice()) })
}

/// Appends a member to an object under construction.
pub(crate) fn member(es: &mut Vec<(String, Json)>, k: &str, v: Json)
    ensures
        entry_views(final(es)@) == entry_views(old(es)@).push((k@, v@)),
{
    let ghost before = es@;
    es.push((String::from_str(k), v));
    assert(es@.subrange(0, es@.len() - 1) =~= before);
}

/// Appends an element to an array under construction.
pub(crate) fn element(vs: &mut Vec<Json>, v: Json)
    ensures
        json_views(final(vs)@) == json_views(old(vs)@).push(v@),
{
    let ghost before = vs@;
    vs.push(v);
    assert(vs@.subrange(0, vs@.len() - 1) =~= before);
}

/// A one-member object.
pub open spec fn o1(k1: Seq<char>, v1: JsonV) -> JsonV {
    JsonV::Object(seq![(k1, v1)])
}

/// A two-member object.
pub open spec fn o2(k1: Seq<char>, v1: JsonV, k2: Seq<char>, v2: JsonV) -> JsonV {
    JsonV::Object(seq![(k1, v1), (k2, v2)])
}

/// A three-member object.
pub open spec fn o3(k1: Seq<char>, v1: JsonV, k2: Seq<char>, v2: JsonV, k3: Seq<char>, v3: JsonV) -> JsonV {
    JsonV::Object(seq![(k1, v1), (k2, v2), (k3, v3)])
}

/// A four-member object.
pub open spec fn o4(k1: Seq<char>, v1: JsonV, k2: Seq<char>, v2: JsonV, k3: Seq<char>, v3: JsonV, k4: Seq<char>, v4: JsonV) -> JsonV {
    JsonV::Object(seq![(k1, v1), (k2, v2), (k3, v3), (k4, v4)])
}

pub(crate) fn obj1(k1: &str, v1: Json) -> (r: Json)
    ensures
        r@ == o1(k1@, v1@),
{
    let mut es: Vec<(String, Json)> = Vec::new();
    assert(entry_views(es@) =~= Seq::<(Seq<char>, JsonV)>::empty());
    member(&mut es, k1, v1);
    let r = Json::Object(es);
    assert(entry_views(es@) =~= seq![(k1@, v1@)]);
    r
}

pub(crate) fn obj2(k1: &str, v1: Json, k2: &str, v2: Json) -> (r: Json)
    ensures
        r@ == o2(k1@, v1@, k2@, v2@),
{
    let mut es: Vec<(String, Json)> = Vec::new();
    assert(entry_views(es@) =~= Seq::<(Seq<char>, JsonV)>::empty());
    member(&mut es, k1, v1);
    member(&mut es, k2, v2);
    assert(entry_views(es@) =~= seq![(k1@, v1@), (k2@, v2@)]);
    Json::Object(es)
}

pub(crate) fn obj3(k1: &str, v1: Json, k2: &str, v2: Json, k3: &str, v3: Json) -> (r: Json)
    ensures
        r@ == o3(k1@, v1@, k2@, v2@, k3@, v3@),
{
    let mut es: Vec<(String, Json)> = Vec::new();
    assert(entry_views(es@) =~= Seq::<(Seq<char>, JsonV)>::empty());
    member(&mut es, k1, v1);
    member(&mut es, k2, v2);
    member(&mut es, k3, v3);
    assert(entry_views(es@) =~= seq![(k1@, v1@), (k2@, v2@), (k3@, v3@)]);
    Json::Object(es)
}

pub(crate) fn obj4(k1: &str, v1: Json, k2: &str, v2: Json, k3: &str, v3: Json, k4: &str, v4: Json) -> (r: Json)
    ensures
        r@ == o4(k1@, v1@, k2@, v2@, k3@, v3@, k4@, v4@),
{
    let mut es: Vec<(String, Json)> = Vec::new();
    assert(entry_views(es@) =~= Seq::<(Seq<char>, JsonV)>::empty());
    member(&mut es, k1, v1);
    member(&mut es, k2, v2);
    member(&mut es, k3, v3);
    member(&mut es, k4, v4);
    assert(entry_views(es@) =~= seq![(k1@, v1@), (k2@, v2@), (k3@, v3@), (k4@, v4@)]);
    Json::Object(es)
}

pub(crate) fn arr1(v1: Json) -> (r: Json)
    ensures
        r@ == JsonV::Array(seq![v1@]),
{
    let mut vs: Vec<Json> = Vec::new();
    assert(json_views(vs@) =~= Seq::<JsonV>::empty());
    element(&mut vs, v1);
    assert(json_views(vs@) =~= seq![v1@]);
    Json::Array(vs)
}

// ----- the demo script -----

/// A text content block.
pub open spec fn text_block(t: Seq<char>) -> JsonV {
    o2("type"@, vs("text"@), "text"@, vs(t))
}

/// The model that the demo's assistant messages name.
pub open spec fn demo_source() -> JsonV {
    o3("kind"@, vs("model"@), "provider"@, vs("deepseek-official"@), "model"@, vs("deepseek-v4-flash"@))
}

/// An assembled assistant message of a step.
pub open spec fn assistant_message(step: u64, id: Seq<char>, text: Seq<char>) -> JsonV {
    o2("type"@, vs("assistant/message"@), "data"@, o3(
        "turn"@, vn(1), "step"@, vn(step), "message"@,
        o4("id"@, vs(id), "role"@, vs("assistant"@), "content"@, JsonV::Array(seq![text_block(text)]), "source"@, demo_source()),
    ))
}

/// A `session.event` notification for `session`.
pub open spec fn event_note(session: Seq<char>, e: JsonV) -> (Seq<char>, JsonV) {
    ("session.event"@, o2("sessionId"@, vs(session), "event"@, e))
}

/// An `assistant/chunk` event carrying `c`.
pub open spec fn chunk_event(c: JsonV) -> JsonV {
    o2("type"@, vs("assistant/chunk"@), "data"@, o3("turn"@, vn(1), "step"@, vn(0), "chunk"@, c))
}

/// A streamed text delta at block `index`.
pub open spec fn text_delta(index: u64, text: Seq<char>) -> JsonV {
    o3("type"@, vs("text-delta"@), "index"@, vn(index), "text"@, vs(text))
}

/// A `session.status` notification.
pub open spec fn status_note(session: Seq<char>, status: Seq<char>) -> (Seq<char>, JsonV) {
    ("session.status"@, o2("sessionId"@, vs(session), "status"@, vs(status)))
}

/// A tool result event for a call: one `tool-result` block of text,
/// optionally flagged an error with the step's error.
pub open spec fn tool_result_event(call: Seq<char>, is_error: bool, text: Seq<char>, error: Option<JsonV>) -> JsonV {
    let block = o4("type"@, vs("tool-result"@), "toolCallId"@, vs(call), "isError"@, JsonV::Bool(is_error), "content"@,
        JsonV::Array(seq![text_block(text)]));
    let message = o2("role"@, vs("user"@), "content"@, JsonV::Array(seq![block]));
    let data = match error {
        Some(e) => o4("turn"@, vn(1), "step"@, vn(0), "error"@, e, "message"@, message),
        None => o3("turn"@, vn(1), "step"@, vn(0), "message"@, message),
    };
    o2("type"@, vs("tool/result"@), "data"@, data)
}

/// A tool call event whose arguments are the JSON text of `args`.
pub open spec fn tool_call_event(call: Seq<char>, name: Seq<char>, args: Json) -> JsonV {
    o2("type"@, vs("tool/call"@), "data"@, JsonV::Object(seq![
        ("turn"@, vn(1)), ("step"@, vn(0)), ("callId"@, vs(call)), ("name"@, vs(name)), ("arguments"@, vs(json_text(args))),
    ]))
}

/// The reasoning the demo streams, quoting the prompt's first 32 characters.
pub open spec fn reasoning_texts(prompt: Seq<char>) -> Seq<Seq<char>> {
    seq![
        "User asks: \""@ + crate::events::take_chars(prompt, 32) + "\"."@,
        " Need to inspect the entrypoint first."@,
        " Plan: locate fn main, then read"@,
        " the surrounding lines."@,
        " rg is fastest for that."@,
        " Then view the file to confirm"@,
        " structure before answering."@,
        " Keep the reply short."@,
    ]
}

/// `str::to_lowercase` (full Unicode lower-casing).
pub uninterp spec fn unicode_lower(s: Seq<char>) -> Seq<char>;

/// `str::to_lowercase`: the Unicode lower-case form of a string. The
/// contract names it; Unicode's case tables are not restated here.
#[verifier::external_body]
fn to_lowercase(s: &str) -> (r: String)
    ensures
        r@ == unicode_lower(s@),
{
    s.to_lowercase()
}

/// Whether the lower-cased prompt asks for a variation.
pub open spec fn wants(prompt: Seq<char>, word: Seq<char>) -> bool {
    crate::text::contains_seq(unicode_lower(prompt), word)
}

/// The short demo answer.
pub open spec fn short_conclusion() -> Seq<char> {
    "The entrypoint is a thin `fn main` at src/main.rs:12 that hands off to `run`. All clear — the DeepSeek whale surfaced, nodded approvingly, and dove back down. 🐋"@
}

/// The demo's answer: the long walkthrough when the prompt asks for it.
pub open spec fn conclusion_of(prompt: Seq<char>) -> Seq<char> {
    if wants(prompt, "long"@) { long_conclusion_text() } else { short_conclusion() }
}

/// The opening of a demo turn: the session runs, the mode facts arrive
/// (plan mode when asked for), the turn starts, injected context arrives
/// when asked for.
pub open spec fn seg_open(session: Seq<char>, prompt: Seq<char>) -> Seq<(Seq<char>, JsonV)> {
    let modes = seq![
        status_note(session, "running"@),
        event_note(session, o2("type"@, vs("permission/preset"@), "data"@, o1("preset"@, vs("workspace-write"@)))),
        event_note(session, o2("type"@, vs("sandbox/mode"@), "data"@, o1("mode"@, vs("workspace-write"@)))),
        event_note(session, o2("type"@, vs("approval/policy"@), "data"@, o1("policy"@, vs("ask"@)))),
    ];
    let plan = if wants(prompt, "plan"@) {
        seq![event_note(session, o2("type"@, vs("plan/mode"@), "data"@, o1("active"@, JsonV::Bool(true))))]
    } else {
        Seq::empty()
    };
    let start = seq![event_note(session, o2("type"@, vs("turn/start"@), "data"@, o1("turn"@, vn(1))))];
    let inject = if wants(prompt, "inject"@) {
        seq![event_note(session, o2("type"@, vs("user/message"@), "data"@, o4(
            "id"@, vs("m-inj"@), "role"@, vs("user"@), "content"@,
            JsonV::Array(seq![text_block("AGENTS.md: keep functions small."@)]), "source"@,
            o2("kind"@, vs("plugin"@), "plugin"@, vs("dsh-workspace"@)),
        )))]
    } else {
        Seq::empty()
    };
    modes + plan + start + inject
}

/// The reasoning and intro text of a demo turn, then its first step's
/// assembled message and first tool call.
pub open spec fn seg_stream(session: Seq<char>, prompt: Seq<char>, args1: Json) -> Seq<(Seq<char>, JsonV)> {
    let reasoning = reasoning_texts(prompt).map_values(|t: Seq<char>| event_note(session, chunk_event(
        o3("type"@, vs("reasoning-delta"@), "index"@, vn(0), "text"@, vs(t)),
    )));
    let intro = seq!["I looked at the entrypoint "@, "and traced how the "@, "program starts. "@].map_values(
        |t: Seq<char>| event_note(session, chunk_event(text_delta(1, t))),
    );
    let step0 = seq![
        event_note(session, assistant_message(0, "m-demo-0"@, "I looked at the entrypoint and traced how the program starts. "@)),
        event_note(session, tool_call_event("demo-call-1"@, "bash"@, args1)),
    ];
    reasoning + intro + step0
}

/// The tool results of a demo turn: an approval exchange when asked for,
/// the first call's result (a failure when an error is asked for), and
/// the second tool call with its result.
pub open spec fn seg_tools(session: Seq<char>, prompt: Seq<char>, args2: Json) -> Seq<(Seq<char>, JsonV)> {
    let approve = if wants(prompt, "approve"@) {
        seq![
            event_note(session, o2("type"@, vs("approval/asked"@), "data"@, o3(
                "id"@, vs("demo-approval-1"@), "toolName"@, vs("bash"@), "reason"@, vs("writes outside the workspace"@),
            ))),
            event_note(session, o2("type"@, vs("approval/decided"@), "data"@, o2(
                "id"@, vs("demo-approval-1"@), "outcome"@, vs("allowed-once"@),
            ))),
        ]
    } else {
        Seq::empty()
    };
    let result1 = if wants(prompt, "error"@) {
        event_note(session, tool_result_event("demo-call-1"@, true,
            "rg: exec failed: No such file or directory (os error 2)\nexit status 127"@,
            Some(o2("name"@, vs("ToolFailed"@), "code"@, vs("EEXEC"@)))))
    } else {
        event_note(session, tool_result_event("demo-call-1"@, false, "src/main.rs:12:fn main() {"@, None))
    };
    let pair2 = seq![
        event_note(session, tool_call_event("demo-call-2"@, "str_replace_editor"@, args2)),
        event_note(session, tool_result_event("demo-call-2"@, false,
            "    10  mod bus;\n    11\n    12  fn main() {\n    13      let args = std::env::args();\n    14      run(args)\n    15  }"@,
            None)),
    ];
    approve + seq![result1] + pair2
}

/// A short child-session exchange, when the prompt asks for a subagent.
pub open spec fn seg_sub(session: Seq<char>, prompt: Seq<char>) -> Seq<(Seq<char>, JsonV)> {
    let child = session + "-child"@;
    if wants(prompt, "sub"@) {
        seq![
            ("subagent.started"@, o2("parentSessionId"@, vs(session), "childSessionId"@, vs(child))),
            event_note(child, chunk_event(text_delta(0, "Child scanning the "@))),
            event_note(child, chunk_event(text_delta(0, "module tree now."@))),
            event_note(child, assistant_message(1, "m-demo-child"@, "Child scanning the module tree now."@)),
            ("subagent.finished"@, o1("childSessionId"@, vs(child))),
        ]
    } else {
        Seq::empty()
    }
}

/// The close of a demo turn: the answer streams in pieces and is
/// assembled, usage is reported, the turn ends (with `error` when an
/// error was asked for) and the session goes idle.
pub open spec fn seg_close(session: Seq<char>, prompt: Seq<char>) -> Seq<(Seq<char>, JsonV)> {
    let conclusion = conclusion_of(prompt);
    let answer = chunks_of(conclusion, piece_step(conclusion.len() as int)).map_values(
        |t: Seq<char>| event_note(session, chunk_event(text_delta(1, t))),
    );
    let end = seq![
        event_note(session, assistant_message(1, "m-demo"@, conclusion)),
        event_note(session, chunk_event(o2("type"@, vs("usage"@), "usage"@, o4(
            "inputTokens"@, vn(1834), "outputTokens"@, vn(412), "cachedInputTokens"@, vn(1200), "reasoningTokens"@, vn(96),
        )))),
        event_note(session, o2("type"@, vs("turn/end"@), "data"@, o2(
            "turn"@, vn(1), "reason"@, o1("kind"@, vs(if wants(prompt, "error"@) { "error"@ } else { "completed"@ })),
        ))),
        status_note(session, "idle"@),
    ];
    answer + end
}

/// The notifications of one demo turn for `session` and `prompt`, in the
/// order they are played back; `args1` and `args2` are the two tool calls'
/// argument documents.
pub open spec fn demo_spec(session: Seq<char>, prompt: Seq<char>, args1: Json, args2: Json) -> Seq<(Seq<char>, JsonV)> {
    seg_open(session, prompt) + seg_stream(session, prompt, args1) + seg_tools(session, prompt, args2)
        + seg_sub(session, prompt) + seg_close(session, prompt)
}

/// A notification: its JSON-RPC method and params.
pub struct Notification {
    pub method: String,
    pub params: Json,
}

/// The views of notifications.
pub open spec fn notes_view(ns: Seq<Notification>) -> Seq<(Seq<char>, JsonV)> {
    ns.map_values(|n: Notification| (n.method@, n.params@))
}

/// The arguments of the demo's first tool call.
pub open spec fn first_args() -> JsonV {
    o1("command"@, vs("rg -n 'fn main' src/"@))
}

/// The arguments of the demo's second tool call.
pub open spec fn second_args() -> JsonV {
    o2("command"@, vs("view"@), "path"@, vs("src/main.rs"@))
}

fn note(out: &mut Vec<Notification>, method: &str, params: Json)
    ensures
        notes_view(final(out)@) == notes_view(old(out)@).push((method@, params@)),
{
    let ghost before = notes_view(out@);
    out.push(Notification { method: String::from_str(method), params });
    assert(notes_view(out@) =~= before.push((method@, params@)));
}

fn event(out: &mut Vec<Notification>, session: &str, e: Json)
    ensures
        notes_view(final(out)@) == notes_view(old(out)@).push(event_note(session@, e@)),
{
    note(out, "session.event", obj2("sessionId", js(session), "event", e));
}

fn chunk(out: &mut Vec<Notification>, session: &str, c: Json)
    ensures
        notes_view(final(out)@) == notes_view(old(out)@).push(event_note(session@, chunk_event(c@))),
{
    event(out, session, obj2("type", js("assistant/chunk"), "data", obj3("turn", jn(1), "step", jn(0), "chunk", c)));
}

fn delta(index: u64, text: &str) -> (r: Json)
    requires
        index <= 1,
    ensures
        r@ == text_delta(index, text@),
{
    obj3("type", js("text-delta"), "index", jn(index), "text", js(text))
}

fn message_event(step: u64, id: &str, text: &str) -> (r: Json)
    requires
        step <= 1,
    ensures
        r@ == assistant_message(step, id@, text@),
{
    let source = obj3("kind", js("model"), "provider", js("deepseek-official"), "model", js("deepseek-v4-flash"));
    let content = arr1(obj2("type", js("text"), "text", js(text)));
    let message = obj4("id", js(id), "role", js("assistant"), "content", content, "source", source);
    obj2("type", js("assistant/message"), "data", obj3("turn", jn(1), "step", jn(step), "message", message))
}

fn tool_call(call: &str, name: &str, args: &Json) -> (r: Json)
    ensures
        r@ == tool_call_event(call@, name@, *args),
{
    let mut es: Vec<(String, Json)> = Vec::new();
    assert(entry_views(es@) =~= Seq::<(Seq<char>, JsonV)>::empty());
    member(&mut es, "turn", jn(1));
    member(&mut es, "step", jn(0));
    member(&mut es, "callId", js(call));
    member(&mut es, "name", js(name));
    member(&mut es, "arguments", jstr(json_to_string(args)));
    assert(entry_views(es@) =~= seq![
        ("turn"@, vn(1)), ("step"@, vn(0)), ("callId"@, vs(call@)), ("name"@, vs(name@)), ("arguments"@, vs(json_text(*args))),
    ]);
    obj2("type", js("tool/call"), "data", Json::Object(es))
}

fn tool_result(call: &str, is_error: bool, text: &str, error: Option<Json>) -> (r: Json)
    ensures
        r@ == tool_result_event(call@, is_error, text@, match error { Some(e) => Some(e@), None => None }),
{
    let content = arr1(obj2("type", js("text"), "text", js(text)));
    let block = obj4("type", js("tool-result"), "toolCallId", js(call), "isError", Json::Bool(is_error), "content", content);
    let message = obj2("role", js("user"), "content", arr1(block));
    let data = match error {
        Some(e) => obj4("turn", jn(1), "step", jn(0), "error", e, "message", message),
        None => obj3("turn", jn(1), "step", jn(0), "message", message),
    };
    obj2("type", js("tool/result"), "data", data)
}

fn contains_word(lower: &str, word: &str) -> (b: bool)
    ensures
        b == crate::text::contains_seq(lower@, word@),
{
    let cs = chars_of(lower);
    crate::text::contains_str(cs.as_slice(), word)
}

/// The first tool call's arguments document.
fn args_one() -> (r: Json)
    ensures
        r@ == first_args(),
{
    obj1("command", js("rg -n 'fn main' src/"))
}

/// The second tool call's arguments document.
fn args_two() -> (r: Json)
    ensures
        r@ == second_args(),
{
    obj2("command", js("view"), "path", js("src/main.rs"))
}

fn play_open(out: &mut Vec<Notification>, session: &str, prompt: &str, lower: &str)
    requires
        lower@ == unicode_lower(prompt@),
    ensures
        notes_view(final(out)@) == notes_view(old(out)@) + seg_open(session@, prompt@),
{
    let ghost before = notes_view(out@);
    note(out, "session.status", obj2("sessionId", js(session), "status", js("running")));
    event(out, session, obj2("type", js("permission/preset"), "data", obj1("preset", js("workspace-write"))));
    event(out, session, obj2("type", js("sandbox/mode"), "data", obj1("mode", js("workspace-write"))));
    event(out, session, obj2("type", js("approval/policy"), "data", obj1("policy", js("ask"))));
    let ghost after_modes = notes_view(out@);
    let plan = contains_word(lower, "plan");
    if plan {
        event(out, session, obj2("type", js("plan/mode"), "data", obj1("active", Json::Bool(true))));
    }
    let ghost after_plan = notes_view(out@);
    event(out, session, obj2("type", js("turn/start"), "data", obj1("turn", jn(1))));
    let ghost after_start = notes_view(out@);
    if contains_word(lower, "inject") {
        let content = arr1(obj2("type", js("text"), "text", js("AGENTS.md: keep functions small.")));
        let source = obj2("kind", js("plugin"), "plugin", js("dsh-workspace"));
        let data = obj4("id", js("m-inj"), "role", js("user"), "content", content, "source", source);
        event(out, session, obj2("type", js("user/message"), "data", data));
    }
    let ghost sp = seg_open(session@, prompt@);
    assert(notes_view(out@) =~= before + sp);
}

fn play_stream(out: &mut Vec<Notification>, session: &str, prompt: &str, args1: &Json)
    ensures
        notes_view(final(out)@) == notes_view(old(out)@) + seg_stream(session@, prompt@, *args1),
{
    let ghost before = notes_view(out@);
    let cs = chars_of(prompt);
    let take = if cs.len() <= 32 { cs.len() } else { 32 };
    let mut first = String::from_str("User asks: \"");
    first.append(sub_string(&cs, 0, take).as_str());
    first.append("\".");
    proof {
        if cs@.len() <= 32 {
            assert(cs@.subrange(0, take as int) =~= cs@);
        }
    }
    let texts = [
        first.as_str(),
        " Need to inspect the entrypoint first.",
        " Plan: locate fn main, then read",
        " the surrounding lines.",
        " rg is fastest for that.",
        " Then view the file to confirm",
        " structure before answering.",
        " Keep the reply short.",
    ];
    let ghost tv = reasoning_texts(prompt@);
    assert(texts@.map_values(|t: &str| t@) =~= tv);
    let mut i: usize = 0;
    while i < 8
        invariant
            i <= 8,
            texts@.len() == 8,
            texts@.map_values(|t: &str| t@) == tv,
            tv == reasoning_texts(prompt@),
            notes_view(out@) == before + tv.subrange(0, i as int).map_values(|t: Seq<char>| event_note(session@, chunk_event(
                o3("type"@, vs("reasoning-delta"@), "index"@, vn(0), "text"@, vs(t)),
            ))),
        decreases 8 - i,
    {
        let t = texts[i];
        assert(t@ == tv[i as int]);
        chunk(out, session, obj3("type", js("reasoning-delta"), "index", jn(0), "text", js(t)));
        assert(tv.subrange(0, i + 1) =~= tv.subrange(0, i as int).push(tv[i as int]));
        i += 1;
    }
    assert(tv.subrange(0, 8) =~= tv);
    let ghost after_reasoning = notes_view(out@);
    chunk(out, session, delta(1, "I looked at the entrypoint "));
    chunk(out, session, delta(1, "and traced how the "));
    chunk(out, session, delta(1, "program starts. "));
    event(out, session, message_event(0, "m-demo-0", "I looked at the entrypoint and traced how the program starts. "));
    event(out, session, tool_call("demo-call-1", "bash", args1));
    assert(notes_view(out@) =~= before + seg_stream(session@, prompt@, *args1));
}

fn play_tools(out: &mut Vec<Notification>, session: &str, prompt: &str, lower: &str, args2: &Json)
    requires
        lower@ == unicode_lower(prompt@),
    ensures
        notes_view(final(out)@) == notes_view(old(out)@) + seg_tools(session@, prompt@, *args2),
{
    let ghost before = notes_view(out@);
    if contains_word(lower, "approve") {
        event(out, session, obj2("type", js("approval/asked"), "data", obj3(
            "id", js("demo-approval-1"), "toolName", js("bash"), "reason", js("writes outside the workspace"),
        )));
        event(out, session, obj2("type", js("approval/decided"), "data", obj2(
            "id", js("demo-approval-1"), "outcome", js("allowed-once"),
        )));
    }
    let ghost after_approve = notes_view(out@);
    if contains_word(lower, "error") {
        let error = obj2("name", js("ToolFailed"), "code", js("EEXEC"));
        event(out, session, tool_result("demo-call-1", true,
            "rg: exec failed: No such file or directory (os error 2)\nexit status 127", Some(error)));
    } else {
        event(out, session, tool_result("demo-call-1", false, "src/main.rs:12:fn main() {", None));
    }
    event(out, session, tool_call("demo-call-2", "str_replace_editor", args2));
    event(out, session, tool_result("demo-call-2", false,
        "    10  mod bus;\n    11\n    12  fn main() {\n    13      let args = std::env::args();\n    14      run(args)\n    15  }",
        None));
    assert(notes_view(out@) =~= before + seg_tools(session@, prompt@, *args2));
}

fn play_sub(out: &mut Vec<Notification>, session: &str, prompt: &str, lower: &str)
    requires
        lower@ == unicode_lower(prompt@),
    ensures
        notes_view(final(out)@) == notes_view(old(out)@) + seg_sub(session@, prompt@),
{
    let ghost before = notes_view(out@);
    if contains_word(lower, "sub") {
        let mut child = String::from_str(session);
        child.append("-child");
        note(out, "subagent.started", obj2("parentSessionId", js(session), "childSessionId", js(child.as_str())));
        chunk(out, child.as_str(), delta(0, "Child scanning the "));
        chunk(out, child.as_str(), delta(0, "module tree now."));
        event(out, child.as_str(), message_event(1, "m-demo-child", "Child scanning the module tree now."));
        note(out, "subagent.finished", obj1("childSessionId", js(child.as_str())));
    }
    assert(notes_view(out@) =~= before + seg_sub(session@, prompt@));
}

fn play_close(out: &mut Vec<Notification>, session: &str, prompt: &str, lower: &str)
    requires
        lower@ == unicode_lower(prompt@),
    ensures
        notes_view(final(out)@) == notes_view(old(out)@) + seg_close(session@, prompt@),
{
    let ghost before = notes_view(out@);
    let conclusion = if contains_word(lower, "long") {
        long_conclusion()
    } else {
        String::from_str("The entrypoint is a thin `fn main` at src/main.rs:12 that hands off to `run`. All clear — the DeepSeek whale surfaced, nodded approvingly, and dove back down. 🐋")
    };
    assert(conclusion@ == conclusion_of(prompt@));
    let pieces = split_pieces(conclusion.as_str());
    let ghost pv = chunks_of(conclusion@, piece_step(conclusion@.len() as int));
    let mut i: usize = 0;
    while i < pieces.len()
        invariant
            i <= pieces@.len(),
            crate::events::string_views(pieces@) == pv,
            notes_view(out@) == before + pv.subrange(0, i as int).map_values(
                |t: Seq<char>| event_note(session@, chunk_event(text_delta(1, t))),
            ),
        decreases pieces@.len() - i,
    {
        assert(pieces@[i as int]@ == pv[i as int]);
        chunk(out, session, delta(1, pieces[i].as_str()));
        assert(pv.subrange(0, i + 1) =~= pv.subrange(0, i as int).push(pv[i as int]));
        i += 1;
    }
    assert(pv.subrange(0, pieces@.len() as int) =~= pv);
    event(out, session, message_event(1, "m-demo", conclusion.as_str()));
    chunk(out, session, obj2("type", js("usage"), "usage", obj4(
        "inputTokens", jn(1834), "outputTokens", jn(412), "cachedInputTokens", jn(1200), "reasoningTokens", jn(96),
    )));
    let kind = if contains_word(lower, "error") { "error" } else { "completed" };
    event(out, session, obj2("type", js("turn/end"), "data", obj2("turn", jn(1), "reason", obj1("kind", js(kind)))));
    note(out, "session.status", obj2("sessionId", js(session), "status", js("idle")));
    assert(notes_view(out@) =~= before + seg_close(session@, prompt@));
}

/// The notifications of one demo turn for `session` answering `prompt`,
/// in playback order (see `demo_spec`); the tool calls' arguments are the
/// JSON text of `{"command": "rg -n 'fn main' src/"}` and
/// `{"command": "view", "path": "src/main.rs"}`.
pub fn demo_script(session: &str, prompt: &str) -> (r: Vec<Notification>)
    ensures
        exists|a1: Json, a2: Json| a1@ == first_args() && a2@ == second_args()
            && notes_view(r@) == demo_spec(session@, prompt@, a1, a2),
{
    let lower = to_lowercase(prompt);
    let args1 = args_one();
    let args2 = args_two();
    let mut out: Vec<Notification> = Vec::new();
    let ghost start = notes_view(out@);
    assert(start =~= Seq::<(Seq<char>, JsonV)>::empty());
    play_open(&mut out, session, prompt, lower.as_str());
    play_stream(&mut out, session, prompt, &args1);
    play_tools(&mut out, session, prompt, lower.as_str(), &args2);
    play_sub(&mut out, session, prompt, lower.as_str());
    play_close(&mut out, session, prompt, lower.as_str());
    assert(notes_view(out@) =~= demo_spec(session@, prompt@, args1, args2));
    out
}

} // verus!
