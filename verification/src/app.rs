//! The pure part of the terminal app's state model: the builtin command
//! tables, permission presets and their labels, picker rows, mouse
//! selections, select overlays, composer attachment splitting, and the
//! display-cell text helpers that selection copying uses.

use vstd::prelude::*;
use vstd::string::*;
use crate::attachments::Attachment;
use crate::bus::{CatalogPreset, CatalogPresetView, SessionListItem};
use crate::text::{
    chars_eq, chars_of, char_vec_views, contains_seq, find_chars, occurs_at, decimal, eq_char, is_ws, join_seq, lemma_split_nonempty, lower_seq, lowered,
    push_decimal, push_joined_chars, split_on, sub_string, trimmed, split_spec, starts_with, starts_with_str, str_eq, string_of, token_of,
    trim_seq,
};

verus! {

/// One builtin `/` command: its name, usage line and description.
pub struct SlashCommand {
    pub name: &'static str,
    pub usage: &'static str,
    pub desc: &'static str,
}

/// The builtin slash commands, in menu order: name, usage line, description.
pub open spec fn slash_table() -> Seq<(Seq<char>, Seq<char>, Seq<char>)> {
    seq![
        ("help"@, "/help"@, "show help and tips"@),
        ("keys"@, "/keys"@, "keyboard shortcuts"@),
        ("new"@, "/new [id]"@, "start a fresh session"@),
        ("resume"@, "/resume [id]"@, "resume a durable session from this workspace"@),
        ("clear"@, "/clear"@, "clear the scrollback"@),
        ("model"@, "/model [id]"@, "switch model · live over ACP"@),
        ("agent"@, "/agent [id]"@, "switch agent preset · ctrl+shift+a"@),
        ("effort"@, "/effort [off|high|max]"@, "reasoning effort for this session"@),
        ("permission"@, "/permission [preset]"@, "permission preset picker · shift+tab cycles"@),
        ("plan"@, "/plan [on|off]"@, "toggle host plan mode"@),
        ("image"@, "/image <path> [text]"@, "send a local image (png/jpeg/webp/gif)"@),
        ("clip"@, "/clip [text]"@, "attach the clipboard image (macOS/Linux)"@),
        ("theme"@, "/theme [id]"@, "switch theme plugin · ctrl+t toggles dark/light"@),
        ("ui"@, "/ui [id]"@, "switch UI Plugin"@),
        ("plugins"@, "/plugins"@, "show static Host plugins"@),
        ("cordis-plugins"@, "/cordis-plugins"@, "review or manage dynamic Cordis plugins"@),
        ("session"@, "/session"@, "show session + runtime info"@),
        ("auth"@, "/auth [method|api-key]"@, "ACP sign-in (Backchat authenticate)"@),
        ("lang"@, "/lang [zh|en]"@, "switch interface language"@),
        ("liang"@, "/liang [on|off]"@, "召唤小难梁 — 🤫 idle · ⌨︎ working"@),
        ("quit"@, "/quit"@, "exit dsh-tui"@),
    ]
}

/// The view of a slash command: name, usage and description.
pub open spec fn slash_view(c: SlashCommand) -> (Seq<char>, Seq<char>, Seq<char>) {
    (c.name@, c.usage@, c.desc@)
}

/// The builtin slash commands, in menu order.
pub fn slash_commands() -> (r: Vec<SlashCommand>)
    ensures
        r@.map_values(|c: SlashCommand| slash_view(c)) == slash_table(),
{
    let mut v: Vec<SlashCommand> = Vec::new();
    v.push(SlashCommand { name: "help", usage: "/help", desc: "show help and tips" });
    v.push(SlashCommand { name: "keys", usage: "/keys", desc: "keyboard shortcuts" });
    v.push(SlashCommand { name: "new", usage: "/new [id]", desc: "start a fresh session" });
    v.push(SlashCommand { name: "resume", usage: "/resume [id]", desc: "resume a durable session from this workspace" });
    v.push(SlashCommand { name: "clear", usage: "/clear", desc: "clear the scrollback" });
    v.push(SlashCommand { name: "model", usage: "/model [id]", desc: "switch model · live over ACP" });
    v.push(SlashCommand { name: "agent", usage: "/agent [id]", desc: "switch agent preset · ctrl+shift+a" });
    v.push(SlashCommand { name: "effort", usage: "/effort [off|high|max]", desc: "reasoning effort for this session" });
    v.push(SlashCommand { name: "permission", usage: "/permission [preset]", desc: "permission preset picker · shift+tab cycles" });
    v.push(SlashCommand { name: "plan", usage: "/plan [on|off]", desc: "toggle host plan mode" });
    v.push(SlashCommand { name: "image", usage: "/image <path> [text]", desc: "send a local image (png/jpeg/webp/gif)" });
    v.push(SlashCommand { name: "clip", usage: "/clip [text]", desc: "attach the clipboard image (macOS/Linux)" });
    v.push(SlashCommand { name: "theme", usage: "/theme [id]", desc: "switch theme plugin · ctrl+t toggles dark/light" });
    v.push(SlashCommand { name: "ui", usage: "/ui [id]", desc: "switch UI Plugin" });
    v.push(SlashCommand { name: "plugins", usage: "/plugins", desc: "show static Host plugins" });
    v.push(SlashCommand { name: "cordis-plugins", usage: "/cordis-plugins", desc: "review or manage dynamic Cordis plugins" });
    v.push(SlashCommand { name: "session", usage: "/session", desc: "show session + runtime info" });
    v.push(SlashCommand { name: "auth", usage: "/auth [method|api-key]", desc: "ACP sign-in (Backchat authenticate)" });
    v.push(SlashCommand { name: "lang", usage: "/lang [zh|en]", desc: "switch interface language" });
    v.push(SlashCommand { name: "liang", usage: "/liang [on|off]", desc: "召唤小难梁 — 🤫 idle · ⌨︎ working" });
    v.push(SlashCommand { name: "quit", usage: "/quit", desc: "exit dsh-tui" });
    assert(v@.map_values(|c: SlashCommand| slash_view(c)) =~= slash_table());
    v
}

/// The model ids offered when no model catalog has arrived.
pub open spec fn model_preset_ids() -> Seq<Seq<char>> {
    seq!["deepseek-v4-flash"@, "deepseek-v4"@, "deepseek-v3.2"@, "deepseek-chat"@, "deepseek-reasoner"@]
}

/// The model ids offered when no model catalog has arrived.
pub fn model_presets() -> (r: Vec<&'static str>)
    ensures
        r@.map_values(|s: &str| s@) == model_preset_ids(),
{
    let v = vec!["deepseek-v4-flash", "deepseek-v4", "deepseek-v3.2", "deepseek-chat", "deepseek-reasoner"];
    assert(v@.map_values(|s: &str| s@) =~= model_preset_ids());
    v
}

/// The stock agent modes (id, name, description), used as `/agent` seeds
/// when no agent catalog has arrived; live ACP replaces them with the
/// composition select the agent advertised.
pub open spec fn agent_mode_table() -> Seq<(Seq<char>, Seq<char>, Seq<char>)> {
    seq![
        ("standard"@, "Standard mode"@, "full coding agent · files, shell, search, skills, subagents"@),
        ("code"@, "Code mode"@, "standard tools driven from one TypeScript program"@),
        ("minimal"@, "Minimal mode"@, "two tools · persistent bash + str_replace_editor"@),
        ("cordis"@, "Creator mode"@, "standard + runtime inspection and preset authoring"@),
    ]
}

/// The view of a table row of three strings.
pub open spec fn triple_view(t: (&str, &str, &str)) -> (Seq<char>, Seq<char>, Seq<char>) {
    (t.0@, t.1@, t.2@)
}

/// The stock agent modes: id, name and description.
pub fn agent_modes() -> (r: Vec<(&'static str, &'static str, &'static str)>)
    ensures
        r@.map_values(|t: (&str, &str, &str)| triple_view(t)) == agent_mode_table(),
{
    let v = vec![
        ("standard", "Standard mode", "full coding agent · files, shell, search, skills, subagents"),
        ("code", "Code mode", "standard tools driven from one TypeScript program"),
        ("minimal", "Minimal mode", "two tools · persistent bash + str_replace_editor"),
        ("cordis", "Creator mode", "standard + runtime inspection and preset authoring"),
    ];
    assert(v@.map_values(|t: (&str, &str, &str)| triple_view(t)) =~= agent_mode_table());
    v
}

/// The stock permission presets (id, one-line meaning). Shift+Tab cycles
/// them; `/permission <name>` passes any other id through.
pub open spec fn permission_preset_table() -> Seq<(Seq<char>, Seq<char>)> {
    seq![
        ("read-only"@, "read only — no file writes"@),
        ("workspace-write"@, "write inside the workspace · wider actions ask for approval"@),
        ("danger-full-access"@, "full file access · approval prompts off — trusted dirs only"@),
    ]
}

/// The stock permission presets: id and one-line meaning.
pub fn permission_presets() -> (r: Vec<(&'static str, &'static str)>)
    ensures
        r@.map_values(|t: (&str, &str)| (t.0@, t.1@)) == permission_preset_table(),
{
    let v = vec![
        ("read-only", "read only — no file writes"),
        ("workspace-write", "write inside the workspace · wider actions ask for approval"),
        ("danger-full-access", "full file access · approval prompts off — trusted dirs only"),
    ];
    assert(v@.map_values(|t: (&str, &str)| (t.0@, t.1@)) =~= permission_preset_table());
    v
}

/// The view of an optional string slice.
pub open spec fn str_opt_view(o: Option<&str>) -> Option<Seq<char>> {
    match o {
        Some(s) => Some(s@),
        None => None,
    }
}

/// The stock preset id that a spelling names: the argument is trimmed and
/// ASCII-lower-cased, then matched against the known spellings.
pub open spec fn normalize_spec(arg: Seq<char>) -> Option<Seq<char>> {
    let t = lower_seq(trim_seq(arg));
    if t == "read-only"@ || t == "readonly"@ || t == "read"@ || t == "ro"@ {
        Some("read-only"@)
    } else if t == "workspace-write"@ || t == "workspace"@ || t == "write"@ || t == "ws"@ || t == "safe"@
        || t == "sandbox"@ {
        Some("workspace-write"@)
    } else if t == "danger-full-access"@ || t == "full-access"@ || t == "full"@ || t == "danger"@ || t == "yolo"@ {
        Some("danger-full-access"@)
    } else {
        None
    }
}

/// Maps common spellings onto the stock preset ids (`full` →
/// `danger-full-access`, `ws` → `workspace-write`, `ro` → `read-only`, …).
pub fn normalize_permission(arg: &str) -> (r: Option<&'static str>)
    ensures
        str_opt_view(r) == normalize_spec(arg@),
{
    let t = token_of(arg);
    let t = t.as_slice();
    if chars_eq(t, "read-only") || chars_eq(t, "readonly") || chars_eq(t, "read") || chars_eq(t, "ro") {
        Some("read-only")
    } else if chars_eq(t, "workspace-write") || chars_eq(t, "workspace") || chars_eq(t, "write") || chars_eq(t, "ws")
        || chars_eq(t, "safe") || chars_eq(t, "sandbox") {
        Some("workspace-write")
    } else if chars_eq(t, "danger-full-access") || chars_eq(t, "full-access") || chars_eq(t, "full")
        || chars_eq(t, "danger") || chars_eq(t, "yolo") {
        Some("danger-full-access")
    } else {
        None
    }
}

/// A character a kebab-case key is made of: an ASCII lower-case letter or digit.
pub open spec fn is_key_char(c: char) -> bool {
    ('a' <= c && c <= 'z') || ('0' <= c && c <= '9')
}

/// Whether `id` is a kebab-case key: non-empty `-`-separated segments of
/// lower-case letters and digits.
pub open spec fn is_kebab(id: Seq<char>) -> bool {
    let segs = split_spec(id, eq_char('-'));
    &&& id.len() > 0
    &&& forall|k: int| 0 <= k < segs.len() ==> #[trigger] segs[k].len() > 0
    &&& forall|k: int, j: int| 0 <= k < segs.len() && 0 <= j < segs[k].len() ==> is_key_char(#[trigger] segs[k][j])
}

/// ASCII upper-casing of one character.
pub open spec fn upper_char(c: char) -> char {
    if 'a' <= c && c <= 'z' { ((c as u32) - 32) as char } else { c }
}

/// A segment with its first character upper-cased.
pub open spec fn capitalize(seg: Seq<char>) -> Seq<char> {
    if seg.len() == 0 { seg } else { seq![upper_char(seg[0])] + seg.drop_first() }
}

/// The user-facing label of a permission preset id.
pub open spec fn label_spec(id: Seq<char>) -> Seq<char> {
    if id == "danger-full-access"@ {
        "Full access"@
    } else if !is_kebab(id) {
        id
    } else {
        join_seq(split_spec(id, eq_char('-')).map_values(|seg: Seq<char>| capitalize(seg)), " "@)
    }
}

/// User-facing permission label: `danger-full-access` is "Full access",
/// other kebab-case keys are title-cased (`read-only` → "Read Only"), and
/// anything else is shown as is.
pub fn permission_label(id: &str) -> (r: String)
    ensures
        r@ == label_spec(id@),
{
    if str_eq(id, "danger-full-access") {
        return String::from_str("Full access");
    }
    let cs = chars_of(id);
    let segs = split_on(cs.as_slice(), '-');
    let ghost sv = split_spec(id@, eq_char('-'));
    assert(char_vec_views(segs@) == sv);
    let mut kebab = cs.len() > 0;
    let mut k: usize = 0;
    while k < segs.len()
        invariant
            k <= segs@.len(),
            char_vec_views(segs@) == sv,
            kebab == (id@.len() > 0 && (forall|m: int| 0 <= m < k ==> #[trigger] sv[m].len() > 0)
                && (forall|m: int, j: int| 0 <= m < k && 0 <= j < sv[m].len() ==> is_key_char(#[trigger] sv[m][j]))),
            cs@ == id@,
        decreases segs@.len() - k,
    {
        let seg = &segs[k];
        assert(seg@ == sv[k as int]);
        let mut ok = seg.len() > 0;
        let mut j: usize = 0;
        while j < seg.len()
            invariant
                j <= seg@.len(),
                seg@ == sv[k as int],
                ok == (seg@.len() > 0 && forall|t: int| 0 <= t < j ==> is_key_char(#[trigger] seg@[t])),
            decreases seg@.len() - j,
        {
            let c = seg[j];
            if !(('a' <= c && c <= 'z') || ('0' <= c && c <= '9')) {
                ok = false;
            }
            j += 1;
        }
        kebab = kebab && ok;
        k += 1;
    }
    if !kebab {
        return String::from_str(id);
    }
    let mut caps: Vec<Vec<char>> = Vec::new();
    let mut k: usize = 0;
    while k < segs.len()
        invariant
            k <= segs@.len(),
            char_vec_views(segs@) == sv,
            char_vec_views(caps@) == sv.subrange(0, k as int).map_values(|seg: Seq<char>| capitalize(seg)),
        decreases segs@.len() - k,
    {
        let seg = &segs[k];
        assert(seg@ == sv[k as int]);
        let mut cap: Vec<char> = Vec::new();
        let mut j: usize = 0;
        while j < seg.len()
            invariant
                j <= seg@.len(),
                cap@ == capitalize(seg@).subrange(0, j as int),
                seg@.len() > 0 ==> capitalize(seg@).len() == seg@.len(),
            decreases seg@.len() - j,
        {
            let c = seg[j];
            let d = if j == 0 && 'a' <= c && c <= 'z' { ((c as u8) - 32) as char } else { c };
            cap.push(d);
            j += 1;
            assert(cap@ =~= capitalize(seg@).subrange(0, j as int));
        }
        assert(cap@ =~= capitalize(seg@));
        let ghost c0 = char_vec_views(caps@);
        caps.push(cap);
        k += 1;
        assert(char_vec_views(caps@) =~= c0.push(capitalize(sv[k - 1])));
        assert(sv.subrange(0, k as int).map_values(|seg: Seq<char>| capitalize(seg))
            =~= sv.subrange(0, k - 1 as int).map_values(|seg: Seq<char>| capitalize(seg)).push(capitalize(sv[k - 1])));
    }
    assert(sv.subrange(0, segs@.len() as int) =~= sv);
    let mut out: Vec<char> = Vec::new();
    push_joined_chars(&mut out, &caps, " ");
    assert(out@ =~= join_seq(char_vec_views(caps@), " "@));
    string_of(out.as_slice())
}

/// The extension of a path: the text after its last `.` (all of it when
/// there is none).
pub open spec fn extension(path: Seq<char>) -> Seq<char> {
    split_spec(path, eq_char('.')).last()
}

/// The attachment media type the host accepts for a path's extension.
pub open spec fn media_spec(path: Seq<char>) -> Option<Seq<char>> {
    let e = lower_seq(extension(path));
    if e == "png"@ {
        Some("image/png"@)
    } else if e == "jpg"@ || e == "jpeg"@ {
        Some("image/jpeg"@)
    } else if e == "webp"@ {
        Some("image/webp"@)
    } else if e == "gif"@ {
        Some("image/gif"@)
    } else {
        None
    }
}

/// Maps a file extension (any case) to the attachment media type the host
/// accepts: png, jpeg, webp or gif.
pub fn media_type_for(path: &str) -> (r: Option<&'static str>)
    ensures
        str_opt_view(r) == media_spec(path@),
{
    let cs = chars_of(path);
    let segs = split_on(cs.as_slice(), '.');
    proof {
        lemma_split_nonempty(path@, eq_char('.'));
    }
    let last = &segs[segs.len() - 1];
    assert(last@ == extension(path@));
    let e = lowered(last.as_slice());
    let e = e.as_slice();
    if chars_eq(e, "png") {
        Some("image/png")
    } else if chars_eq(e, "jpg") || chars_eq(e, "jpeg") {
        Some("image/jpeg")
    } else if chars_eq(e, "webp") {
        Some("image/webp")
    } else if chars_eq(e, "gif") {
        Some("image/gif")
    } else {
        None
    }
}

/// Whether the run loop is idle, starting the runtime, or in a turn.
#[derive(Debug, Clone, Copy, PartialEq, Eq, Structural)]
pub enum RunState {
    Idle,
    Starting,
    Running,
}

/// One endpoint of a mouse selection in chat-layout coordinates: `line`
/// indexes the full wrapped layout, `col` is a display-cell column within
/// the chat pane.
#[derive(Clone, Copy, PartialEq, Eq, Debug, Structural)]
pub struct SelPoint {
    pub line: usize,
    pub col: usize,
}

/// An in-app mouse selection: `anchor` is where the drag started; `head`
/// follows the pointer and may precede the anchor.
#[derive(Clone, Copy, Debug)]
pub struct Selection {
    pub anchor: SelPoint,
    pub head: SelPoint,
}

/// Whether `a` comes before `b` in document order (line, then column).
pub open spec fn point_before(a: SelPoint, b: SelPoint) -> bool {
    a.line < b.line || (a.line == b.line && a.col < b.col)
}

impl Selection {
    /// The endpoints in document order; the end is inclusive (the cell
    /// under the pointer is part of the selection).
    pub fn ordered(&self) -> (r: (SelPoint, SelPoint))
        ensures
            r == (if point_before(self.head, self.anchor) { (self.head, self.anchor) } else { (self.anchor, self.head) }),
            !point_before(r.1, r.0),
    {
        if self.head.line < self.anchor.line || (self.head.line == self.anchor.line && self.head.col < self.anchor.col) {
            (self.head, self.anchor)
        } else {
            (self.anchor, self.head)
        }
    }

    /// Whether the selection is a caret (both ends on one cell).
    pub fn is_caret(&self) -> (b: bool)
        ensures
            b == (self.anchor == self.head),
    {
        self.anchor.line == self.head.line && self.anchor.col == self.head.col
    }
}

/// What an open picker chooses.
#[derive(Clone, Copy, PartialEq, Eq, Debug, Structural)]
pub enum PickerKind {
    Model,
    Effort,
    Mode,
    Theme,
    UiPlugin,
    Permission,
    Session,
    Subagent,
    Auth,
    StaticPlugin,
    CordisPlugin,
    CordisApproval,
}

/// One picker row.
#[derive(Clone, Debug)]
pub struct PickerItem {
    pub id: String,
    pub label: String,
    pub meta: String,
    pub provider: Option<String>,
}

/// A picker row with its strings as character sequences.
#[verifier::ext_equal]
pub struct PickerItemView {
    pub id: Seq<char>,
    pub label: Seq<char>,
    pub meta: Seq<char>,
    pub provider: Option<Seq<char>>,
}

impl View for PickerItem {
    type V = PickerItemView;

    open spec fn view(&self) -> PickerItemView {
        PickerItemView { id: self.id@, label: self.label@, meta: self.meta@, provider: crate::text::opt_view(self.provider) }
    }
}

/// Fixed display width of the picker label column.
pub const PICKER_LABEL_COL: usize = 30;

/// An open picker: what it chooses, its title, the highlighted row and
/// the rows.
pub struct Picker {
    pub kind: PickerKind,
    pub title: String,
    pub sel: usize,
    pub items: Vec<PickerItem>,
}

/// The rows of a picker as views.
pub open spec fn items_view(items: Seq<PickerItem>) -> Seq<PickerItemView> {
    items.map_values(|i: PickerItem| i@)
}

/// The ids of picker rows.
pub open spec fn item_ids(items: Seq<PickerItemView>) -> Seq<Seq<char>> {
    items.map_values(|i: PickerItemView| i.id)
}

/// The row a picker opens on: the one whose id is `current`, else the
/// first.
pub open spec fn picker_sel(items: Seq<PickerItemView>, current: Seq<char>) -> int {
    match position_of(item_ids(items), current) {
        Some(i) => i,
        None => 0,
    }
}

/// A row whose label is its id, with no meta and no provider.
pub open spec fn plain_item(id: Seq<char>) -> PickerItemView {
    PickerItemView { id: id, label: id, meta: Seq::empty(), provider: None }
}

/// The model picker's rows: one per offered model, with the current model
/// first where it is not among them.
pub open spec fn model_items_spec(ids: Seq<Seq<char>>, current: Seq<char>) -> Seq<PickerItemView> {
    let base = ids.map_values(|id: Seq<char>| plain_item(id));
    if position_of(ids, current) is Some { base } else { seq![plain_item(current)] + base }
}

/// The effort picker's rows: one per advertised effort, the default one
/// marked, or the stock `off`, `high`, `max` where none is advertised.
pub open spec fn effort_items_spec(efforts: Seq<Seq<char>>, default: Option<Seq<char>>, default_word: Seq<char>) -> Seq<PickerItemView> {
    if efforts.len() == 0 {
        seq![plain_item("off"@), plain_item("high"@), plain_item("max"@)]
    } else {
        efforts.map_values(|e: Seq<char>| PickerItemView {
            id: e,
            label: e,
            meta: if default == Some(e) { default_word } else { Seq::empty() },
            provider: None,
        })
    }
}

/// The agent picker's rows: the stock modes in the demo, else the
/// advertised presets under their names, a broken one flagged.
pub open spec fn mode_items_spec(demo: bool, presets: Seq<CatalogPresetView>) -> Seq<PickerItemView> {
    if demo {
        agent_mode_table().map_values(|t: (Seq<char>, Seq<char>, Seq<char>)| PickerItemView {
            id: t.0,
            label: t.1,
            meta: t.2,
            provider: None,
        })
    } else {
        presets.map_values(|p: CatalogPresetView| PickerItemView {
            id: p.id,
            label: p.name,
            meta: if p.broken { "⚠ broken · "@ + p.description } else { p.description },
            provider: None,
        })
    }
}

/// The permission picker's rows where the session advertised no modes:
/// the stock presets, the reported or default one marked.
pub open spec fn stock_permission_items_spec(reported: Option<Seq<char>>, current: Seq<char>) -> Seq<PickerItemView> {
    permission_preset_table().map_values(|t: (Seq<char>, Seq<char>)| PickerItemView {
        id: t.0,
        label: label_spec(t.0),
        meta: t.1 + permission_mark(t.0, reported, current),
        provider: None,
    })
}

/// Where the row with id `current` stands, else 0.
fn sel_for(items: &Vec<PickerItem>, current: &str) -> (r: usize)
    ensures
        r == picker_sel(items_view(items@), current@),
{
    let ghost ids = item_ids(items_view(items@));
    let mut i: usize = 0;
    while i < items.len()
        invariant
            i <= items@.len(),
            ids == item_ids(items_view(items@)),
            ids.len() == items@.len(),
            forall|j: int| 0 <= j < i ==> ids[j] != current@,
        decreases items@.len() - i,
    {
        assert(ids[i as int] == items@[i as int].id@);
        if str_eq(items[i].id.as_str(), current) {
            proof {
                lemma_position_of(ids, current@, i as int);
            }
            return i;
        }
        i += 1;
    }
    proof {
        lemma_position_of(ids, current@, i as int);
    }
    0
}

/// A row whose label is its id.
fn plain_row(id: &str) -> (r: PickerItem)
    ensures
        r@ == plain_item(id@),
{
    PickerItem { id: id.to_string(), label: id.to_string(), meta: String::new(), provider: None }
}

/// Where `x` first stands among `ids`.
fn find_id(ids: &Vec<String>, x: &str) -> (r: Option<usize>)
    ensures
        match r {
            Some(i) => i < ids@.len() && position_of(ids@.map_values(|s: String| s@), x@) == Some(i as int),
            None => position_of(ids@.map_values(|s: String| s@), x@) is None,
        },
{
    let ghost idv = ids@.map_values(|s: String| s@);
    let mut i: usize = 0;
    while i < ids.len()
        invariant
            i <= ids@.len(),
            idv == ids@.map_values(|s: String| s@),
            forall|j: int| 0 <= j < i ==> idv[j] != x@,
        decreases ids@.len() - i,
    {
        if str_eq(ids[i].as_str(), x) {
            proof {
                lemma_position_of(idv, x@, i as int);
            }
            return Some(i);
        }
        i += 1;
    }
    proof {
        lemma_position_of(idv, x@, i as int);
    }
    None
}

/// The stock model ids as strings.
fn stock_model_ids() -> (r: Vec<String>)
    ensures
        r@.map_values(|s: String| s@) == model_preset_ids(),
{
    let presets = model_presets();
    let mut out: Vec<String> = Vec::new();
    let mut i: usize = 0;
    while i < presets.len()
        invariant
            i <= presets@.len(),
            presets@.map_values(|s: &str| s@) == model_preset_ids(),
            out@.map_values(|s: String| s@) == model_preset_ids().subrange(0, i as int),
        decreases presets@.len() - i,
    {
        let ghost before = out@.map_values(|s: String| s@);
        out.push(presets[i].to_string());
        proof {
            assert(presets@.map_values(|s: &str| s@)[i as int] == presets@[i as int]@);
            assert(out@.map_values(|s: String| s@) =~= before.push(presets@[i as int]@));
            assert(model_preset_ids().subrange(0, i + 1) =~= model_preset_ids().subrange(0, i as int).push(model_preset_ids()[i as int]));
        }
        i += 1;
    }
    assert(model_preset_ids().subrange(0, presets@.len() as int) =~= model_preset_ids());
    out
}

/// One plain row per id.
fn plain_rows(ids: &Vec<String>) -> (r: Vec<PickerItem>)
    ensures
        items_view(r@) == ids@.map_values(|s: String| s@).map_values(|id: Seq<char>| plain_item(id)),
{
    let ghost idv = ids@.map_values(|s: String| s@);
    let mut items: Vec<PickerItem> = Vec::new();
    let mut i: usize = 0;
    while i < ids.len()
        invariant
            i <= ids@.len(),
            idv == ids@.map_values(|s: String| s@),
            items_view(items@) == idv.subrange(0, i as int).map_values(|id: Seq<char>| plain_item(id)),
        decreases ids@.len() - i,
    {
        let ghost before = items_view(items@);
        items.push(plain_row(ids[i].as_str()));
        proof {
            assert(items_view(items@) =~= before.push(plain_item(idv[i as int])));
            assert(idv.subrange(0, i + 1).map_values(|id: Seq<char>| plain_item(id))
                =~= idv.subrange(0, i as int).map_values(|id: Seq<char>| plain_item(id)).push(plain_item(idv[i as int])));
        }
        i += 1;
    }
    assert(idv.subrange(0, ids@.len() as int) =~= idv);
    items
}

/// The `/model` picker: the host's model list (or, without one, the stock
/// presets) with the current model first where it is missing, opened on
/// the current model.
pub fn model_picker(host_models: Option<Vec<String>>, current: &str, locale: crate::locale::Locale) -> (r: Picker)
    ensures
        r.kind == PickerKind::Model,
        r.title@ == (if locale == crate::locale::Locale::En { " model · enter select · esc close "@ } else { " 模型 · enter 选择 · esc 关闭 "@ }),
        items_view(r.items@) == model_items_spec(
            match host_models { Some(v) => v@.map_values(|s: String| s@), None => model_preset_ids() },
            current@,
        ),
        r.sel == picker_sel(items_view(r.items@), current@),
{
    let ids: Vec<String> = match host_models {
        Some(v) => v,
        None => stock_model_ids(),
    };
    let mut items = plain_rows(&ids);
    if find_id(&ids, current).is_none() {
        let ghost before = items_view(items@);
        items.insert(0, plain_row(current));
        assert(items_view(items@) =~= seq![plain_item(current@)] + before);
    }
    let sel = sel_for(&items, current);
    let title = locale.tr(" model · enter select · esc close ", " 模型 · enter 选择 · esc 关闭 ");
    Picker { kind: PickerKind::Model, title: title.to_string(), sel, items }
}

/// The `/effort` picker: the efforts the model advertises, the default
/// one marked, or the stock `off`, `high`, `max` where it advertises none;
/// opened on the first row.
pub fn effort_picker(efforts: Vec<String>, default: Option<String>, locale: crate::locale::Locale) -> (r: Picker)
    ensures
        r.kind == PickerKind::Effort,
        r.title@ == (if locale == crate::locale::Locale::En {
            " reasoning effort · enter select · esc close "@
        } else {
            " 推理强度 · enter 选择 · esc 关闭 "@
        }),
        items_view(r.items@) == effort_items_spec(
            efforts@.map_values(|s: String| s@),
            crate::text::opt_view(default),
            (if locale == crate::locale::Locale::En { "default"@ } else { "默认"@ }),
        ),
        r.sel == 0,
{
    let word = locale.tr("default", "默认");
    let ghost ev = efforts@.map_values(|s: String| s@);
    let ghost dv = crate::text::opt_view(default);
    let mut items: Vec<PickerItem> = Vec::new();
    let mut i: usize = 0;
    while i < efforts.len()
        invariant
            i <= efforts@.len(),
            ev == efforts@.map_values(|s: String| s@),
            dv == crate::text::opt_view(default),
            items_view(items@) == ev.subrange(0, i as int).map_values(|e: Seq<char>| PickerItemView {
                id: e,
                label: e,
                meta: if dv == Some(e) { word@ } else { Seq::empty() },
                provider: None,
            }),
        decreases efforts@.len() - i,
    {
        let e = &efforts[i];
        let is_default = match &default {
            Some(d) => str_eq(d.as_str(), e.as_str()),
            None => false,
        };
        let meta = if is_default { word.to_string() } else { String::new() };
        let ghost before = items_view(items@);
        let item = PickerItem { id: e.clone(), label: e.clone(), meta, provider: None };
        items.push(item);
        proof {
            assert(items_view(items@) =~= before.push(item@));
            assert(ev.subrange(0, i + 1) =~= ev.subrange(0, i as int).push(ev[i as int]));
        }
        i += 1;
    }
    assert(ev.subrange(0, efforts@.len() as int) =~= ev);
    if items.len() == 0 {
        items.push(plain_row("off"));
        items.push(plain_row("high"));
        items.push(plain_row("max"));
        assert(items_view(items@) =~= seq![plain_item("off"@), plain_item("high"@), plain_item("max"@)]);
    }
    let title = locale.tr(" reasoning effort · enter select · esc close ", " 推理强度 · enter 选择 · esc 关闭 ");
    Picker { kind: PickerKind::Effort, title: title.to_string(), sel: 0, items }
}

/// The `/agent` picker: the stock modes in the demo, else the advertised
/// presets (a broken one flagged), opened on the agent preset in effect.
pub fn mode_picker(modes: &Modes, demo: bool, presets: &Vec<CatalogPreset>, locale: crate::locale::Locale) -> (r: Picker)
    ensures
        r.kind == PickerKind::Mode,
        r.title@ == (if locale == crate::locale::Locale::En { " agent · enter select · esc close "@ } else { " Agent · enter 选择 · esc 关闭 "@ }),
        items_view(r.items@) == mode_items_spec(demo, presets@.map_values(|p: CatalogPreset| p@)),
        r.sel == picker_sel(items_view(r.items@), current_mode_spec(*modes, demo, presets@)),
{
    let ghost pv = presets@.map_values(|p: CatalogPreset| p@);
    let mut items: Vec<PickerItem> = Vec::new();
    if demo {
        let table = agent_modes();
        let mut i: usize = 0;
        while i < table.len()
            invariant
                i <= table@.len(),
                table@.map_values(|t: (&str, &str, &str)| triple_view(t)) == agent_mode_table(),
                items_view(items@) == agent_mode_table().subrange(0, i as int).map_values(|t: (Seq<char>, Seq<char>, Seq<char>)| PickerItemView {
                    id: t.0,
                    label: t.1,
                    meta: t.2,
                    provider: None,
                }),
            decreases table@.len() - i,
        {
            let (id, name, desc) = table[i];
            let ghost before = items_view(items@);
            let item = PickerItem { id: id.to_string(), label: name.to_string(), meta: desc.to_string(), provider: None };
            items.push(item);
            proof {
                assert(table@.map_values(|t: (&str, &str, &str)| triple_view(t))[i as int] == triple_view(table@[i as int]));
                assert(items_view(items@) =~= before.push(item@));
                assert(agent_mode_table().subrange(0, i + 1) =~= agent_mode_table().subrange(0, i as int).push(agent_mode_table()[i as int]));
            }
            i += 1;
        }
        assert(agent_mode_table().subrange(0, table@.len() as int) =~= agent_mode_table());
    } else {
        let mut i: usize = 0;
        while i < presets.len()
            invariant
                i <= presets@.len(),
                pv == presets@.map_values(|p: CatalogPreset| p@),
                items_view(items@) == pv.subrange(0, i as int).map_values(|p: CatalogPresetView| PickerItemView {
                    id: p.id,
                    label: p.name,
                    meta: if p.broken { "⚠ broken · "@ + p.description } else { p.description },
                    provider: None,
                }),
            decreases presets@.len() - i,
        {
            let p = &presets[i];
            let meta = if p.broken {
                let mut m = String::from_str("⚠ broken · ");
                proof {
                    reveal_strlit("⚠ broken · ");
                }
                m.append(p.description.as_str());
                m
            } else {
                p.description.clone()
            };
            let ghost before = items_view(items@);
            let item = PickerItem { id: p.id.clone(), label: p.name.clone(), meta, provider: None };
            items.push(item);
            proof {
                assert(items_view(items@) =~= before.push(item@));
                assert(pv.subrange(0, i + 1) =~= pv.subrange(0, i as int).push(pv[i as int]));
            }
            i += 1;
        }
        assert(pv.subrange(0, presets@.len() as int) =~= pv);
    }
    let current = modes.current_mode(demo, presets);
    let sel = sel_for(&items, current.as_str());
    let title = locale.tr(" agent · enter select · esc close ", " Agent · enter 选择 · esc 关闭 ");
    Picker { kind: PickerKind::Mode, title: title.to_string(), sel, items }
}

/// The `/permission` picker: the advertised session modes, or the stock
/// presets where none are advertised, each marked as the reported or
/// default preset; opened on the preset in effect.
pub fn permission_picker(modes: &Modes, choices: &Vec<CatalogPreset>, locale: crate::locale::Locale) -> (r: Picker)
    ensures
        r.kind == PickerKind::Permission,
        r.title@ == (if locale == crate::locale::Locale::En {
            " permission · enter apply · esc close "@
        } else {
            " 权限 · enter 应用 · esc 关闭 "@
        }),
        items_view(r.items@) == (if choices@.len() == 0 {
            stock_permission_items_spec(crate::text::opt_view(modes.permission), current_permission_spec(*modes))
        } else {
            permission_items_spec(choices@.map_values(|p: CatalogPreset| p@), crate::text::opt_view(modes.permission), current_permission_spec(*modes))
        }),
        r.sel == picker_sel(items_view(r.items@), current_permission_spec(*modes)),
{
    let current = modes.current_permission();
    let reported: Option<&str> = match &modes.permission {
        Some(p) => Some(p.as_str()),
        None => None,
    };
    assert(str_opt_view(reported) == crate::text::opt_view(modes.permission));
    let items = if choices.len() == 0 {
        let table = permission_presets();
        let ghost rv = str_opt_view(reported);
        let mut out: Vec<PickerItem> = Vec::new();
        let mut i: usize = 0;
        while i < table.len()
            invariant
                i <= table@.len(),
                rv == str_opt_view(reported),
                table@.map_values(|t: (&str, &str)| (t.0@, t.1@)) == permission_preset_table(),
                items_view(out@) == permission_preset_table().subrange(0, i as int).map_values(|t: (Seq<char>, Seq<char>)| PickerItemView {
                    id: t.0,
                    label: label_spec(t.0),
                    meta: t.1 + permission_mark(t.0, rv, current@),
                    provider: None,
                }),
            decreases table@.len() - i,
        {
            let (id, desc) = table[i];
            let mut meta = desc.to_string();
            let is_reported = match reported {
                Some(r) => str_eq(r, id),
                None => false,
            };
            if is_reported {
                meta.append(" · current");
            } else if reported.is_none() && str_eq(id, current) {
                meta.append(" · default");
            } else {
                assert(meta@ =~= meta@ + Seq::<char>::empty());
            }
            let ghost before = items_view(out@);
            let item = PickerItem { id: id.to_string(), label: permission_label(id), meta, provider: None };
            out.push(item);
            proof {
                assert(table@.map_values(|t: (&str, &str)| (t.0@, t.1@))[i as int] == (id@, desc@));
                assert(items_view(out@) =~= before.push(item@));
                assert(permission_preset_table().subrange(0, i + 1)
                    =~= permission_preset_table().subrange(0, i as int).push(permission_preset_table()[i as int]));
            }
            i += 1;
        }
        assert(permission_preset_table().subrange(0, table@.len() as int) =~= permission_preset_table());
        out
    } else {
        let out = permission_picker_items(choices.as_slice(), reported, current);
        assert(items_view(out@) == out@.map_values(|i: PickerItem| i@));
        out
    };
    let sel = sel_for(&items, current);
    let title = locale.tr(" permission · enter apply · esc close ", " 权限 · enter 应用 · esc 关闭 ");
    Picker { kind: PickerKind::Permission, title: title.to_string(), sel, items }
}

/// The sign-in picker's rows: each advertised method under its name (its
/// id where it has none), its kind as meta.
pub open spec fn auth_items_spec(methods: Seq<crate::acp_auth::AuthMethodInfo>) -> Seq<PickerItemView> {
    methods.map_values(|m: crate::acp_auth::AuthMethodInfo| PickerItemView {
        id: m.id@,
        label: match m.name { Some(n) => n@, None => m.id@ },
        meta: m.auth_type@,
        provider: None,
    })
}

/// The `/auth` picker over the advertised sign-in methods, opened on the
/// method in use; none where the agent advertises no method.
pub fn auth_picker(auth: &crate::acp_auth::AuthSnapshot, locale: crate::locale::Locale) -> (r: Option<Picker>)
    ensures
        auth.methods@.len() == 0 <==> r is None,
        r matches Some(p) ==> {
            &&& p.kind == PickerKind::Auth
            &&& p.title@ == (if locale == crate::locale::Locale::En { " sign in · enter select · esc close "@ } else { " 登录 · enter 选择 · esc 关闭 "@ })
            &&& items_view(p.items@) == auth_items_spec(auth.methods@)
            &&& p.sel == match auth.method_id { Some(id) => picker_sel(items_view(p.items@), id@), None => 0 }
        },
{
    let mut items: Vec<PickerItem> = Vec::new();
    let mut i: usize = 0;
    while i < auth.methods.len()
        invariant
            i <= auth.methods@.len(),
            items_view(items@) == auth_items_spec(auth.methods@.subrange(0, i as int)),
        decreases auth.methods@.len() - i,
    {
        let m = &auth.methods[i];
        let label = match &m.name {
            Some(n) => n.clone(),
            None => m.id.clone(),
        };
        let item = PickerItem { id: m.id.clone(), label, meta: m.auth_type.clone(), provider: None };
        let ghost before = items_view(items@);
        items.push(item);
        proof {
            assert(items_view(items@) =~= before.push(item@));
            assert(auth.methods@.subrange(0, i + 1) =~= auth.methods@.subrange(0, i as int).push(auth.methods@[i as int]));
        }
        i += 1;
    }
    assert(auth.methods@.subrange(0, auth.methods@.len() as int) =~= auth.methods@);
    if items.len() == 0 {
        return None;
    }
    let sel = match &auth.method_id {
        Some(id) => sel_for(&items, id.as_str()),
        None => 0,
    };
    let title = locale.tr(" sign in · enter select · esc close ", " 登录 · enter 选择 · esc 关闭 ");
    Some(Picker { kind: PickerKind::Auth, title: title.to_string(), sel, items })
}

/// The picker that decides a Cordis plugin approval request: allow this
/// version, allow future versions, or reject, each carrying the request id.
pub fn cordis_approval_picker(request_id: String, locale: crate::locale::Locale) -> (r: Picker)
    ensures
        r.kind == PickerKind::CordisApproval,
        r.title@ == (if locale == crate::locale::Locale::En { " plugin approval · enter decide "@ } else { " 插件审批 · enter 决定 "@ }),
        r.sel == 0,
        items_view(r.items@) == seq![
            PickerItemView {
                id: "allow-version"@,
                label: if locale == crate::locale::Locale::En { "Allow this version"@ } else { "允许当前版本"@ },
                meta: Seq::empty(),
                provider: Some(request_id@),
            },
            PickerItemView {
                id: "allow-future"@,
                label: if locale == crate::locale::Locale::En { "Allow future versions"@ } else { "允许后续版本"@ },
                meta: Seq::empty(),
                provider: Some(request_id@),
            },
            PickerItemView {
                id: "reject"@,
                label: if locale == crate::locale::Locale::En { "Reject"@ } else { "拒绝"@ },
                meta: Seq::empty(),
                provider: Some(request_id@),
            },
        ],
{
    let mut items: Vec<PickerItem> = Vec::new();
    items.push(PickerItem {
        id: "allow-version".to_string(),
        label: locale.tr("Allow this version", "允许当前版本").to_string(),
        meta: String::new(),
        provider: Some(request_id.clone()),
    });
    items.push(PickerItem {
        id: "allow-future".to_string(),
        label: locale.tr("Allow future versions", "允许后续版本").to_string(),
        meta: String::new(),
        provider: Some(request_id.clone()),
    });
    items.push(PickerItem {
        id: "reject".to_string(),
        label: locale.tr("Reject", "拒绝").to_string(),
        meta: String::new(),
        provider: Some(request_id),
    });
    let title = locale.tr(" plugin approval · enter decide ", " 插件审批 · enter 决定 ");
    let r = Picker { kind: PickerKind::CordisApproval, title: title.to_string(), sel: 0, items };
    assert(items_view(r.items@) =~= seq![r.items@[0]@, r.items@[1]@, r.items@[2]@]);
    r
}

/// The meta of a static Host plugin row: `static · enabled|disabled ·
/// <fiber phase or inactive>`.
pub open spec fn static_meta(p: crate::bus::StaticPluginItem) -> Seq<char> {
    "static · "@ + (if p.enabled { "enabled"@ } else { "disabled"@ }) + " · "@
        + match p.fiber_phase { Some(f) => f@, None => "inactive"@ }
}

/// The read-only picker listing the static Host plugins.
pub fn static_plugin_picker(plugins: &Vec<crate::bus::StaticPluginItem>, locale: crate::locale::Locale) -> (r: Picker)
    ensures
        r.kind == PickerKind::StaticPlugin,
        r.title@ == (if locale == crate::locale::Locale::En {
            " Host plugins · static · read only · esc close "@
        } else {
            " Host 插件 · 静态 · 只读 · esc 关闭 "@
        }),
        r.sel == 0,
        items_view(r.items@) == plugins@.map_values(|p: crate::bus::StaticPluginItem| PickerItemView {
            id: p.entry_id@,
            label: p.module_name@,
            meta: static_meta(p),
            provider: None,
        }),
{
    let mut items: Vec<PickerItem> = Vec::new();
    let mut i: usize = 0;
    while i < plugins.len()
        invariant
            i <= plugins@.len(),
            items_view(items@) == plugins@.subrange(0, i as int).map_values(|p: crate::bus::StaticPluginItem| PickerItemView {
                id: p.entry_id@,
                label: p.module_name@,
                meta: static_meta(p),
                provider: None,
            }),
        decreases plugins@.len() - i,
    {
        let p = &plugins[i];
        let mut meta = String::from_str("static · ");
        proof {
            reveal_strlit("static · ");
        }
        meta.append(if p.enabled { "enabled" } else { "disabled" });
        meta.append(" · ");
        match &p.fiber_phase {
            Some(f) => meta.append(f.as_str()),
            None => meta.append("inactive"),
        }
        assert(meta@ == static_meta(*p));
        let item = PickerItem { id: p.entry_id.clone(), label: p.module_name.clone(), meta, provider: None };
        let ghost before = items_view(items@);
        items.push(item);
        proof {
            assert(items_view(items@) =~= before.push(item@));
            assert(plugins@.subrange(0, i + 1) =~= plugins@.subrange(0, i as int).push(plugins@[i as int]));
        }
        i += 1;
    }
    assert(plugins@.subrange(0, plugins@.len() as int) =~= plugins@);
    let title = locale.tr(" Host plugins · static · read only · esc close ", " Host 插件 · 静态 · 只读 · esc 关闭 ");
    Picker { kind: PickerKind::StaticPlugin, title: title.to_string(), sel: 0, items }
}

/// The meta of a Cordis plugin row: what its status is and what Enter
/// does with it.
pub open spec fn cordis_meta(status: Seq<char>) -> Seq<char> {
    if status == "awaiting-approval"@ {
        "dynamic · awaiting approval · enter review"@
    } else if status == "running"@ || status == "waiting"@ {
        "dynamic · running · enter stop"@
    } else if status == "starting-host"@ || status == "client-pending"@ {
        "dynamic · starting"@
    } else if status == "failed"@ {
        "dynamic · failed · enter retry"@
    } else {
        "dynamic · stopped · enter restore"@
    }
}

/// The row meta for a Cordis plugin status.
fn cordis_meta_of(status: &str) -> (r: &'static str)
    ensures
        r@ == cordis_meta(status@),
{
    if str_eq(status, "awaiting-approval") {
        "dynamic · awaiting approval · enter review"
    } else if str_eq(status, "running") || str_eq(status, "waiting") {
        "dynamic · running · enter stop"
    } else if str_eq(status, "starting-host") || str_eq(status, "client-pending") {
        "dynamic · starting"
    } else if str_eq(status, "failed") {
        "dynamic · failed · enter retry"
    } else {
        "dynamic · stopped · enter restore"
    }
}

/// The picker listing the dynamic Cordis plugins with their status.
pub fn cordis_plugin_picker(plugins: &Vec<crate::bus::CordisPluginItem>, locale: crate::locale::Locale) -> (r: Picker)
    ensures
        r.kind == PickerKind::CordisPlugin,
        r.title@ == (if locale == crate::locale::Locale::En {
            " Cordis plugins · dynamic · enter manage · esc close "@
        } else {
            " Cordis 插件 · 动态 · enter 管理 · esc 关闭 "@
        }),
        r.sel == 0,
        items_view(r.items@) == plugins@.map_values(|p: crate::bus::CordisPluginItem| PickerItemView {
            id: p.id@,
            label: p.name@,
            meta: cordis_meta(p.status@),
            provider: None,
        }),
{
    let mut items: Vec<PickerItem> = Vec::new();
    let mut i: usize = 0;
    while i < plugins.len()
        invariant
            i <= plugins@.len(),
            items_view(items@) == plugins@.subrange(0, i as int).map_values(|p: crate::bus::CordisPluginItem| PickerItemView {
                id: p.id@,
                label: p.name@,
                meta: cordis_meta(p.status@),
                provider: None,
            }),
        decreases plugins@.len() - i,
    {
        let p = &plugins[i];
        let item = PickerItem {
            id: p.id.clone(),
            label: p.name.clone(),
            meta: cordis_meta_of(p.status.as_str()).to_string(),
            provider: None,
        };
        let ghost before = items_view(items@);
        items.push(item);
        proof {
            assert(items_view(items@) =~= before.push(item@));
            assert(plugins@.subrange(0, i + 1) =~= plugins@.subrange(0, i as int).push(plugins@[i as int]));
        }
        i += 1;
    }
    assert(plugins@.subrange(0, plugins@.len() as int) =~= plugins@);
    let title = locale.tr(" Cordis plugins · dynamic · enter manage · esc close ", " Cordis 插件 · 动态 · enter 管理 · esc 关闭 ");
    Picker { kind: PickerKind::CordisPlugin, title: title.to_string(), sel: 0, items }
}

/// A subagent the session started, as the agent switcher lists it (its
/// transcript belongs to the painter).
#[derive(Clone, Debug)]
pub struct SubagentView {
    pub id: String,
    pub parent: String,
    pub label: String,
    pub running: bool,
}

/// The agent switcher's rows: the main session first, then each subagent
/// as running or finished.
pub open spec fn switcher_items_spec(session_id: Seq<char>, subagents: Seq<SubagentView>, zh: bool) -> Seq<PickerItemView> {
    seq![PickerItemView {
        id: session_id,
        label: if zh { "主会话"@ } else { "main"@ },
        meta: if zh { "当前会话"@ } else { "current session"@ },
        provider: None,
    }] + subagents.map_values(|v: SubagentView| PickerItemView {
        id: v.id@,
        label: v.label@,
        meta: if v.running {
            if zh { "运行中"@ } else { "running"@ }
        } else {
            if zh { "已完成"@ } else { "finished"@ }
        },
        provider: None,
    })
}

/// The agent switcher: the main session and its subagents, opened on the
/// row after the one on view (the active subagent, else the main session),
/// wrapping around.
pub fn subagent_switcher(session_id: &str, subagents: &Vec<SubagentView>, active: Option<&str>, locale: crate::locale::Locale) -> (r: Picker)
    ensures
        r.kind == PickerKind::Subagent,
        r.title@ == (if locale == crate::locale::Locale::En {
            " agents · ↑/↓ select · enter open · esc close "@
        } else {
            " Agent · ↑/↓ 选择 · enter 打开 · esc 关闭 "@
        }),
        items_view(r.items@) == switcher_items_spec(session_id@, subagents@, locale == crate::locale::Locale::Zh),
        r.sel == (picker_sel(items_view(r.items@), match active { Some(a) => a@, None => session_id@ }) + 1) % (r.items@.len() as int),
{
    let ghost zh = locale == crate::locale::Locale::Zh;
    let mut items: Vec<PickerItem> = Vec::new();
    items.push(PickerItem {
        id: session_id.to_string(),
        label: locale.tr("main", "主会话").to_string(),
        meta: locale.tr("current session", "当前会话").to_string(),
        provider: None,
    });
    let ghost head = items_view(items@);
    let mut i: usize = 0;
    while i < subagents.len()
        invariant
            i <= subagents@.len(),
            zh == (locale == crate::locale::Locale::Zh),
            head.len() == 1,
            head == switcher_items_spec(session_id@, Seq::empty(), zh).subrange(0, 1),
            items_view(items@) == switcher_items_spec(session_id@, subagents@.subrange(0, i as int), zh),
        decreases subagents@.len() - i,
    {
        let v = &subagents[i];
        let meta = if v.running { locale.tr("running", "运行中") } else { locale.tr("finished", "已完成") };
        let item = PickerItem { id: v.id.clone(), label: v.label.clone(), meta: meta.to_string(), provider: None };
        let ghost before = items_view(items@);
        items.push(item);
        proof {
            assert(subagents@.subrange(0, i + 1) =~= subagents@.subrange(0, i as int).push(subagents@[i as int]));
            assert(items_view(items@) =~= before.push(item@));
            assert(switcher_items_spec(session_id@, subagents@.subrange(0, i + 1), zh)
                =~= switcher_items_spec(session_id@, subagents@.subrange(0, i as int), zh).push(item@));
        }
        i += 1;
    }
    assert(subagents@.subrange(0, subagents@.len() as int) =~= subagents@);
    let current = match active {
        Some(a) => a,
        None => session_id,
    };
    let at = sel_for(&items, current);
    proof {
        lemma_position_of_bound(item_ids(items_view(items@)), current@);
        assert(item_ids(items_view(items@)).len() == items@.len());
        assert(items@.len() >= 1);
        assert(at < items@.len());
    }
    let n = items.len();
    let sel = (at + 1) % n;
    let title = locale.tr(" agents · ↑/↓ select · enter open · esc close ", " Agent · ↑/↓ 选择 · enter 打开 · esc 关闭 ");
    Picker { kind: PickerKind::Subagent, title: title.to_string(), sel, items }
}

/// What `/plan` does: switch the agent's declared plan config option, or
/// send the command to the agent as an ordinary prompt.
pub enum PlanCommand {
    SetConfigOption { config_id: String, value: String },
    SendText(String),
}

/// The first skill named `name`.
pub open spec fn skill_named(skills: Seq<crate::bus::SkillInfo>, name: Seq<char>) -> Option<crate::bus::SkillInfo>
    decreases skills.len(),
{
    if skills.len() == 0 {
        None
    } else if skills[0].name@ == name {
        Some(skills[0])
    } else {
        skill_named(skills.drop_first(), name)
    }
}

proof fn lemma_skill_named_skip(skills: Seq<crate::bus::SkillInfo>, name: Seq<char>, i: int)
    requires
        0 <= i <= skills.len(),
        forall|j: int| 0 <= j < i ==> skills[j].name@ != name,
    ensures
        skill_named(skills, name) == skill_named(skills.subrange(i, skills.len() as int), name),
    decreases i,
{
    if i == 0 {
        assert(skills.subrange(0, skills.len() as int) =~= skills);
    } else {
        lemma_skill_named_skip(skills.drop_first(), name, i - 1);
        assert(skills.drop_first().subrange(i - 1, skills.len() - 1) =~= skills.subrange(i, skills.len() as int));
    }
}

/// The config value `/plan arg` asks for under the plan skill's declared
/// action: bare `/plan` toggles, `on` sets, `off` resets; other arguments
/// ask for none.
pub open spec fn plan_value(a: crate::bus::CommandConfigActionView, plan_active: bool, arg: Seq<char>) -> Option<Seq<char>> {
    if arg.len() == 0 && plan_active {
        a.reset_value
    } else if arg.len() == 0 || arg == "on"@ {
        Some(a.value)
    } else if arg == "off"@ {
        a.reset_value
    } else {
        None
    }
}

/// What `/plan arg` does: with a plan skill that declares a config action
/// and an argument it understands, switch that option; otherwise send
/// `/plan` (with the argument) to the agent.
pub open spec fn plan_spec(skills: Seq<crate::bus::SkillInfo>, plan_active: bool, arg: Seq<char>) -> (Option<(Seq<char>, Seq<char>)>, Seq<char>) {
    let act = match skill_named(skills, "plan"@) {
        Some(s) => crate::bus::action_view(s.config_action),
        None => None,
    };
    let text = if arg.len() == 0 { "/plan"@ } else { "/plan "@ + arg };
    match act {
        Some(a) => match plan_value(a, plan_active, arg) {
            Some(v) => (Some((a.config_id, v)), text),
            None => (None, text),
        },
        None => (None, text),
    }
}

/// What `/plan arg` does, given the host skills and whether plan mode is on.
pub fn plan_command(skills: &Vec<crate::bus::SkillInfo>, plan_active: bool, arg: &str) -> (r: PlanCommand)
    ensures
        match plan_spec(skills@, plan_active, arg@).0 {
            Some((id, v)) => r matches PlanCommand::SetConfigOption { config_id, value } && config_id@ == id && value@ == v,
            None => r matches PlanCommand::SendText(t) && t@ == plan_spec(skills@, plan_active, arg@).1,
        },
{
    proof {
        reveal_strlit("plan");
        reveal_strlit("on");
        reveal_strlit("off");
        reveal_strlit("/plan");
        reveal_strlit("/plan ");
        reveal_strlit(" ");
    }
    let mut i: usize = 0;
    let mut found: Option<usize> = None;
    while i < skills.len() && found.is_none()
        invariant
            i <= skills@.len(),
            found matches Some(j) ==> j < skills@.len() && skill_named(skills@, "plan"@) == Some(skills@[j as int]),
            found is None ==> forall|j: int| 0 <= j < i ==> skills@[j].name@ != "plan"@,
        decreases skills@.len() - i,
    {
        if str_eq(skills[i].name.as_str(), "plan") {
            proof {
                lemma_skill_named_skip(skills@, "plan"@, i as int);
            }
            found = Some(i);
        }
        i += 1;
    }
    if found.is_none() {
        proof {
            lemma_skill_named_skip(skills@, "plan"@, i as int);
        }
    }
    if let Some(j) = found {
        if let Some(a) = &skills[j].config_action {
            let empty = arg.unicode_len() == 0;
            let value = if empty && plan_active {
                crate::text::clone_opt(&a.reset_value)
            } else if empty || str_eq(arg, "on") {
                Some(a.value.clone())
            } else if str_eq(arg, "off") {
                crate::text::clone_opt(&a.reset_value)
            } else {
                None
            };
            if let Some(v) = value {
                return PlanCommand::SetConfigOption { config_id: a.config_id.clone(), value: v };
            }
        }
    }
    let mut text = String::from_str("/plan");
    if arg.unicode_len() > 0 {
        text.append(" ");
        text.append(arg);
        assert(text@ =~= "/plan "@ + arg@);
    }
    PlanCommand::SendText(text)
}

/// Whether the pet shows after `/liang arg`: `on`/`show` shows it,
/// `off`/`hide` hides it, anything else toggles.
pub fn liang_visible(arg: &str, visible: bool) -> (r: bool)
    ensures
        r == (if arg@ == "on"@ || arg@ == "show"@ { true } else if arg@ == "off"@ || arg@ == "hide"@ { false } else { !visible }),
{
    if str_eq(arg, "on") || str_eq(arg, "show") {
        true
    } else if str_eq(arg, "off") || str_eq(arg, "hide") {
        false
    } else {
        !visible
    }
}

/// What a key did to an open picker: nothing more, closed it, or chose a
/// row (which also closes it).
pub enum PickerStep {
    Stay,
    Close,
    Choose(PickerItem),
}

/// A copy of a picker row.
fn copy_item(it: &PickerItem) -> (r: PickerItem)
    ensures
        r@ == it@,
{
    PickerItem {
        id: it.id.clone(),
        label: it.label.clone(),
        meta: it.meta.clone(),
        provider: match &it.provider {
            Some(p) => Some(p.clone()),
            None => None,
        },
    }
}

/// Where a navigation key moves the picker selection among `n` rows
/// (at least one) with `page` rows to a screen (at least one): ↑/↓ wrap,
/// page keys jump without wrapping, Home/End go to the ends; other keys
/// leave it.
pub open spec fn picker_sel_after(sel: int, n: int, page: int, code: crate::input::keys::KeyCode) -> int {
    match code {
        crate::input::keys::KeyCode::Up => if sel == 0 { n - 1 } else { sel - 1 },
        crate::input::keys::KeyCode::Down => (sel + 1) % n,
        crate::input::keys::KeyCode::PageUp => if sel >= page { sel - page } else { 0 },
        crate::input::keys::KeyCode::PageDown => if sel + page < n - 1 { sel + page } else { n - 1 },
        crate::input::keys::KeyCode::Home => 0,
        crate::input::keys::KeyCode::End => n - 1,
        _ => sel,
    }
}

impl Picker {
    /// A key on the open picker, whose screen shows `page_rows` rows: Esc
    /// closes it; Enter chooses the selected row (or just closes it when
    /// the selection is past the rows); the navigation keys move the
    /// selection as `picker_sel_after` says; other keys do nothing.
    pub fn navigate(&mut self, code: crate::input::keys::KeyCode, page_rows: usize) -> (r: PickerStep)
        ensures
            final(self).kind == old(self).kind,
            final(self).title == old(self).title,
            final(self).items == old(self).items,
            code == crate::input::keys::KeyCode::Esc ==> r is Close && final(self).sel == old(self).sel,
            code == crate::input::keys::KeyCode::Enter ==> final(self).sel == old(self).sel && (if old(self).sel < old(self).items@.len() {
                r matches PickerStep::Choose(it) && it@ == old(self).items@[old(self).sel as int]@
            } else {
                r is Close
            }),
            code != crate::input::keys::KeyCode::Esc && code != crate::input::keys::KeyCode::Enter ==> r is Stay
                && final(self).sel == picker_sel_after(
                    old(self).sel as int,
                    if old(self).items@.len() > 0 { old(self).items@.len() as int } else { 1 },
                    if page_rows > 0 { page_rows as int } else { 1 },
                    code,
                ),
    {
        let n: usize = if self.items.len() > 0 { self.items.len() } else { 1 };
        let page: usize = if page_rows > 0 { page_rows } else { 1 };
        let sel = self.sel;
        match code {
            crate::input::keys::KeyCode::Esc => PickerStep::Close,
            crate::input::keys::KeyCode::Enter => {
                if sel < self.items.len() {
                    PickerStep::Choose(copy_item(&self.items[sel]))
                } else {
                    PickerStep::Close
                }
            },
            crate::input::keys::KeyCode::Up => {
                self.sel = if sel == 0 { n - 1 } else { sel - 1 };
                PickerStep::Stay
            },
            crate::input::keys::KeyCode::Down => {
                let next = (sel % n + 1) % n;
                proof {
                    vstd::arithmetic::div_mod::lemma_add_mod_noop(sel as int, 1, n as int);
                    vstd::arithmetic::div_mod::lemma_mod_bound(sel as int, n as int);
                    if n > 1 {
                        vstd::arithmetic::div_mod::lemma_small_mod(1, n as nat);
                    } else {
                        vstd::arithmetic::div_mod::lemma_mod_self_0(1);
                    }
                }
                self.sel = next;
                PickerStep::Stay
            },
            crate::input::keys::KeyCode::PageUp => {
                self.sel = if sel >= page { sel - page } else { 0 };
                PickerStep::Stay
            },
            crate::input::keys::KeyCode::PageDown => {
                self.sel = if sel < n - 1 && page < n - 1 - sel { sel + page } else { n - 1 };
                PickerStep::Stay
            },
            crate::input::keys::KeyCode::Home => {
                self.sel = 0;
                PickerStep::Stay
            },
            crate::input::keys::KeyCode::End => {
                self.sel = n - 1;
                PickerStep::Stay
            },
            _ => PickerStep::Stay,
        }
    }
}

/// What choosing a row of the `/cordis-plugins` picker asks for: answering
/// its pending approval; nothing but a notice while it is already starting;
/// stopping a running or waiting plugin and restoring any other.
pub enum CordisPluginAction {
    Approve(String),
    AlreadyStarting(String),
    SetEnabled { plugin_id: String, enabled: bool },
    Unknown,
}

/// The first plugin with id `id`.
pub open spec fn cordis_plugin_named(ps: Seq<crate::bus::CordisPluginItem>, id: Seq<char>) -> Option<crate::bus::CordisPluginItem>
    decreases ps.len(),
{
    if ps.len() == 0 {
        None
    } else if ps[0].id@ == id {
        Some(ps[0])
    } else {
        cordis_plugin_named(ps.drop_first(), id)
    }
}

proof fn lemma_cordis_named_skip(ps: Seq<crate::bus::CordisPluginItem>, id: Seq<char>, i: int)
    requires
        0 <= i <= ps.len(),
        forall|j: int| 0 <= j < i ==> ps[j].id@ != id,
    ensures
        cordis_plugin_named(ps, id) == cordis_plugin_named(ps.subrange(i, ps.len() as int), id),
    decreases i,
{
    if i == 0 {
        assert(ps.subrange(0, ps.len() as int) =~= ps);
    } else {
        lemma_cordis_named_skip(ps.drop_first(), id, i - 1);
        assert(ps.drop_first().subrange(i - 1, ps.len() - 1) =~= ps.subrange(i, ps.len() as int));
    }
}

/// What choosing plugin `id` of the list asks for.
pub fn cordis_plugin_action(plugins: &Vec<crate::bus::CordisPluginItem>, id: &str) -> (r: CordisPluginAction)
    ensures
        match cordis_plugin_named(plugins@, id@) {
            None => r is Unknown,
            Some(p) => match p.approval_request_id {
                Some(req) => r matches CordisPluginAction::Approve(x) && x@ == req@,
                None => if p.status@ == "starting-host"@ || p.status@ == "client-pending"@ {
                    r matches CordisPluginAction::AlreadyStarting(x) && x@ == p.id@
                } else {
                    r matches CordisPluginAction::SetEnabled { plugin_id, enabled } && plugin_id@ == p.id@
                        && enabled == !(p.status@ == "running"@ || p.status@ == "waiting"@)
                },
            },
        },
{
    let mut i: usize = 0;
    while i < plugins.len()
        invariant
            i <= plugins@.len(),
            forall|j: int| 0 <= j < i ==> plugins@[j].id@ != id@,
        decreases plugins@.len() - i,
    {
        if str_eq(plugins[i].id.as_str(), id) {
            proof {
                lemma_cordis_named_skip(plugins@, id@, i as int);
            }
            let p = &plugins[i];
            if let Some(req) = &p.approval_request_id {
                return CordisPluginAction::Approve(req.clone());
            }
            let status = p.status.as_str();
            if str_eq(status, "starting-host") || str_eq(status, "client-pending") {
                return CordisPluginAction::AlreadyStarting(p.id.clone());
            }
            let enabled = !(str_eq(status, "running") || str_eq(status, "waiting"));
            return CordisPluginAction::SetEnabled { plugin_id: p.id.clone(), enabled };
        }
        i += 1;
    }
    proof {
        lemma_cordis_named_skip(plugins@, id@, i as int);
    }
    CordisPluginAction::Unknown
}

/// One `/` menu entry: a builtin command or a host skill. Builtins win a
/// name collision.
#[derive(Clone, Debug)]
pub struct SlashEntry {
    pub name: String,
    pub usage: String,
    pub desc: String,
    pub skill: bool,
    pub plugin: bool,
    /// Full composer text for an argument candidate; command-name rows
    /// leave this empty.
    pub completion: Option<String>,
}

/// Folded per-session mode state: the facts the mode chips read.
#[derive(Default, Clone, PartialEq, Debug)]
pub struct Modes {
    pub plan: bool,
    pub sandbox: Option<String>,
    pub approval: Option<String>,
    pub permission: Option<String>,
    pub agent_preset: Option<String>,
    /// Reasoning effort as last requested from this client.
    pub effort: Option<String>,
}

/// The first position of `x` in `s`.
pub open spec fn position_of<A>(s: Seq<A>, x: A) -> Option<int>
    decreases s.len(),
{
    if s.len() == 0 {
        None
    } else if s[0] == x {
        Some(0)
    } else {
        match position_of(s.drop_first(), x) {
            Some(i) => Some(i + 1),
            None => None,
        }
    }
}

pub proof fn lemma_position_of<A>(s: Seq<A>, x: A, i: int)
    requires
        0 <= i <= s.len(),
        forall|j: int| 0 <= j < i ==> s[j] != x,
    ensures
        i < s.len() && s[i] == x ==> position_of(s, x) == Some(i),
        i == s.len() ==> position_of(s, x) is None,
    decreases i,
{
    if i > 0 {
        lemma_position_of(s.drop_first(), x, i - 1);
    }
}

pub proof fn lemma_position_of_bound<A>(s: Seq<A>, x: A)
    ensures
        position_of(s, x) matches Some(i) ==> 0 <= i < s.len() && s[i] == x,
    decreases s.len(),
{
    if s.len() > 0 {
        lemma_position_of_bound(s.drop_first(), x);
    }
}

/// The ids of presets.
pub open spec fn preset_ids(ps: Seq<CatalogPreset>) -> Seq<Seq<char>> {
    ps.map_values(|p: CatalogPreset| p.id@)
}

/// The ids of the stock agent modes.
pub open spec fn stock_mode_ids() -> Seq<Seq<char>> {
    agent_mode_table().map_values(|t: (Seq<char>, Seq<char>, Seq<char>)| t.0)
}

/// The ids of the stock permission presets.
pub open spec fn stock_permission_ids() -> Seq<Seq<char>> {
    permission_preset_table().map_values(|t: (Seq<char>, Seq<char>)| t.0)
}

/// The permission preset in effect: the one the session reported, else
/// the harness default `workspace-write`.
pub open spec fn current_permission_spec(m: Modes) -> Seq<char> {
    match m.permission {
        Some(p) => p@,
        None => "workspace-write"@,
    }
}

/// The agent preset in effect: the one chosen, else the stock `standard`
/// mode in the demo, else the first advertised preset, else nothing.
pub open spec fn current_mode_spec(m: Modes, demo: bool, presets: Seq<CatalogPreset>) -> Seq<char> {
    match m.agent_preset {
        Some(p) => p@,
        None => if demo {
            "standard"@
        } else if presets.len() > 0 {
            presets[0].id@
        } else {
            Seq::empty()
        },
    }
}

/// The display name of agent preset `id`: its name in the advertised
/// catalog, else (in the demo) its stock name, else the id itself.
pub open spec fn agent_label_spec(id: Seq<char>, presets: Seq<CatalogPreset>, demo: bool) -> Seq<char> {
    match position_of(preset_ids(presets), id) {
        Some(i) => presets[i].name@,
        None => if demo && position_of(stock_mode_ids(), id) is Some {
            agent_mode_table()[position_of(stock_mode_ids(), id).unwrap()].1
        } else {
            id
        },
    }
}

/// The agent preset after `current` in the cycle (the stock modes in the
/// demo, the advertised presets otherwise): the next one, wrapping around,
/// or the first when `current` is not among them; none without presets.
pub open spec fn next_agent_spec(current: Seq<char>, demo: bool, presets: Seq<CatalogPreset>) -> Option<Seq<char>> {
    let choices = if demo { stock_mode_ids() } else { preset_ids(presets) };
    match position_of(choices, current) {
        Some(i) => Some(choices[(i + 1) % (choices.len() as int)]),
        None => if choices.len() > 0 { Some(choices[0]) } else { None },
    }
}

/// The permission preset after `current`: the next advertised one
/// (wrapping, from the first when `current` is not advertised) when at
/// least two are advertised, else the next stock preset.
pub open spec fn next_permission_spec(current: Seq<char>, choices: Seq<CatalogPreset>) -> Seq<char> {
    let ids = if choices.len() >= 2 { preset_ids(choices) } else { stock_permission_ids() };
    let idx = match position_of(ids, current) {
        Some(i) => i,
        None => 0,
    };
    ids[(idx + 1) % (ids.len() as int)]
}

/// Where `x` first stands among the ids of `ps`.
fn find_preset(ps: &Vec<CatalogPreset>, x: &str) -> (r: Option<usize>)
    ensures
        match r {
            Some(i) => i < ps@.len() && position_of(preset_ids(ps@), x@) == Some(i as int),
            None => position_of(preset_ids(ps@), x@) is None,
        },
{
    let ghost ids = preset_ids(ps@);
    let mut i: usize = 0;
    while i < ps.len()
        invariant
            i <= ps@.len(),
            ids == preset_ids(ps@),
            forall|j: int| 0 <= j < i ==> ids[j] != x@,
        decreases ps@.len() - i,
    {
        if str_eq(ps[i].id.as_str(), x) {
            proof {
                lemma_position_of(ids, x@, i as int);
            }
            return Some(i);
        }
        i += 1;
    }
    proof {
        lemma_position_of(ids, x@, i as int);
    }
    None
}

/// Where `x` first stands among the ids of a static table.
fn find_in_ids(ids: &Vec<&'static str>, x: &str) -> (r: Option<usize>)
    ensures
        match r {
            Some(i) => i < ids@.len() && position_of(ids@.map_values(|s: &str| s@), x@) == Some(i as int),
            None => position_of(ids@.map_values(|s: &str| s@), x@) is None,
        },
{
    let ghost v = ids@.map_values(|s: &str| s@);
    let mut i: usize = 0;
    while i < ids.len()
        invariant
            i <= ids@.len(),
            v == ids@.map_values(|s: &str| s@),
            forall|j: int| 0 <= j < i ==> v[j] != x@,
        decreases ids@.len() - i,
    {
        if str_eq(ids[i], x) {
            proof {
                lemma_position_of(v, x@, i as int);
            }
            return Some(i);
        }
        i += 1;
    }
    proof {
        lemma_position_of(v, x@, i as int);
    }
    None
}

/// The ids of the stock agent modes, in order.
fn stock_modes() -> (r: Vec<&'static str>)
    ensures
        r@.map_values(|s: &str| s@) == stock_mode_ids(),
{
    let t = agent_modes();
    let mut out: Vec<&'static str> = Vec::new();
    let mut i: usize = 0;
    while i < t.len()
        invariant
            i <= t@.len(),
            t@.map_values(|x: (&str, &str, &str)| triple_view(x)) == agent_mode_table(),
            out@.map_values(|s: &str| s@) == stock_mode_ids().subrange(0, i as int),
        decreases t@.len() - i,
    {
        assert(stock_mode_ids()[i as int] == t@[i as int].0@);
        let ghost before = out@;
        out.push(t[i].0);
        assert(out@.map_values(|s: &str| s@) =~= before.map_values(|s: &str| s@).push(t@[i as int].0@));
        assert(stock_mode_ids().subrange(0, i + 1) =~= stock_mode_ids().subrange(0, i as int).push(stock_mode_ids()[i as int]));
        i += 1;
    }
    assert(stock_mode_ids().subrange(0, t@.len() as int) =~= stock_mode_ids());
    out
}

/// The ids of the stock permission presets, in order.
fn stock_permissions() -> (r: Vec<&'static str>)
    ensures
        r@.map_values(|s: &str| s@) == stock_permission_ids(),
{
    let t = permission_presets();
    let mut out: Vec<&'static str> = Vec::new();
    let mut i: usize = 0;
    while i < t.len()
        invariant
            i <= t@.len(),
            t@.map_values(|x: (&str, &str)| (x.0@, x.1@)) == permission_preset_table(),
            out@.map_values(|s: &str| s@) == stock_permission_ids().subrange(0, i as int),
        decreases t@.len() - i,
    {
        assert(stock_permission_ids()[i as int] == t@[i as int].0@);
        let ghost before = out@;
        out.push(t[i].0);
        assert(out@.map_values(|s: &str| s@) =~= before.map_values(|s: &str| s@).push(t@[i as int].0@));
        assert(stock_permission_ids().subrange(0, i + 1) =~= stock_permission_ids().subrange(0, i as int).push(stock_permission_ids()[i as int]));
        i += 1;
    }
    assert(stock_permission_ids().subrange(0, t@.len() as int) =~= stock_permission_ids());
    out
}

impl Modes {
    /// The permission preset in effect.
    pub fn current_permission(&self) -> (r: &str)
        ensures
            r@ == current_permission_spec(*self),
    {
        match &self.permission {
            Some(p) => p.as_str(),
            None => "workspace-write",
        }
    }

    /// The agent preset in effect, given whether this is the demo and the
    /// advertised presets.
    pub fn current_mode(&self, demo: bool, presets: &Vec<CatalogPreset>) -> (r: String)
        ensures
            r@ == current_mode_spec(*self, demo, presets@),
    {
        match &self.agent_preset {
            Some(p) => p.clone(),
            None => if demo {
                String::from_str("standard")
            } else if presets.len() > 0 {
                presets[0].id.clone()
            } else {
                String::new()
            },
        }
    }
}

/// The display name of agent preset `id`.
pub fn agent_label(id: &str, presets: &Vec<CatalogPreset>, demo: bool) -> (r: String)
    ensures
        r@ == agent_label_spec(id@, presets@, demo),
{
    if let Some(i) = find_preset(presets, id) {
        return presets[i].name.clone();
    }
    if demo {
        let ids = stock_modes();
        if let Some(i) = find_in_ids(&ids, id) {
            let t = agent_modes();
            assert(agent_mode_table()[i as int] == triple_view(t@[i as int]));
            return String::from_str(t[i].1);
        }
    }
    String::from_str(id)
}

/// The agent preset the shortcut cycles to from `current`; none when no
/// presets are known (the caller then asks for the catalog).
pub fn next_agent_preset(current: &str, demo: bool, presets: &Vec<CatalogPreset>) -> (r: Option<String>)
    ensures
        match r {
            Some(n) => next_agent_spec(current@, demo, presets@) == Some(n@),
            None => next_agent_spec(current@, demo, presets@) is None,
        },
{
    if demo {
        let ids = stock_modes();
        let n = ids.len();
        match find_in_ids(&ids, current) {
            Some(i) => Some(String::from_str(ids[(i + 1) % n])),
            None => if n > 0 { Some(String::from_str(ids[0])) } else { None },
        }
    } else {
        let n = presets.len();
        match find_preset(presets, current) {
            Some(i) => Some(presets[(i + 1) % n].id.clone()),
            None => if n > 0 { Some(presets[0].id.clone()) } else { None },
        }
    }
}

/// The permission preset Shift+Tab cycles to from `current`.
pub fn next_permission(current: &str, choices: &Vec<CatalogPreset>) -> (r: String)
    ensures
        r@ == next_permission_spec(current@, choices@),
{
    if choices.len() >= 2 {
        let idx = match find_preset(choices, current) {
            Some(i) => i,
            None => 0,
        };
        choices[(idx + 1) % choices.len()].id.clone()
    } else {
        let ids = stock_permissions();
        let idx = match find_in_ids(&ids, current) {
            Some(i) => i,
            None => 0,
        };
        String::from_str(ids[(idx + 1) % ids.len()])
    }
}

/// Shift+Tab always lands on a preset of the cycle: an advertised one when
/// at least two are advertised, a stock one otherwise.
pub proof fn law_next_permission_is_a_choice(current: Seq<char>, choices: Seq<CatalogPreset>)
    ensures
        choices.len() >= 2 ==> preset_ids(choices).contains(next_permission_spec(current, choices)),
        choices.len() < 2 ==> stock_permission_ids().contains(next_permission_spec(current, choices)),
{
    let ids = if choices.len() >= 2 { preset_ids(choices) } else { stock_permission_ids() };
    lemma_position_of_bound(ids, current);
    let idx = match position_of(ids, current) {
        Some(i) => i,
        None => 0,
    };
    assert(0 <= (idx + 1) % (ids.len() as int) < ids.len());
    assert(ids[(idx + 1) % (ids.len() as int)] == next_permission_spec(current, choices));
}

/// With fewer than two advertised presets, three presses of Shift+Tab
/// bring a stock preset back to itself.
pub proof fn law_stock_permission_cycle(current: Seq<char>, choices: Seq<CatalogPreset>)
    requires
        choices.len() < 2,
        stock_permission_ids().contains(current),
    ensures
        next_permission_spec(next_permission_spec(next_permission_spec(current, choices), choices), choices) == current,
{
    reveal_strlit("read-only");
    reveal_strlit("workspace-write");
    reveal_strlit("danger-full-access");
    reveal_with_fuel(position_of, 4);
    let ids = stock_permission_ids();
    assert(ids =~= seq!["read-only"@, "workspace-write"@, "danger-full-access"@]);
    assert(ids.drop_first() =~= seq!["workspace-write"@, "danger-full-access"@]);
    assert(ids.drop_first().drop_first() =~= seq!["danger-full-access"@]);
    assert(ids.drop_first().drop_first().drop_first() =~= Seq::<Seq<char>>::empty());
}

/// The marker a permission picker row carries: the preset the agent
/// reported is `current`; with no report, the client's own choice is the
/// `default`.
pub open spec fn permission_mark(id: Seq<char>, reported: Option<Seq<char>>, current: Seq<char>) -> Seq<char> {
    if reported == Some(id) {
        " · current"@
    } else if reported is None && id == current {
        " · default"@
    } else {
        Seq::empty()
    }
}

/// The permission picker's rows for the advertised session modes.
pub open spec fn permission_items_spec(modes: Seq<CatalogPresetView>, reported: Option<Seq<char>>, current: Seq<char>) -> Seq<PickerItemView> {
    modes.map_values(|p: CatalogPresetView| PickerItemView {
        id: p.id,
        label: label_spec(p.id),
        meta: p.description + permission_mark(p.id, reported, current),
        provider: None,
    })
}

/// The permission picker's rows: each advertised mode under its label,
/// its description marked as the reported or default preset.
pub fn permission_picker_items(modes: &[CatalogPreset], reported: Option<&str>, current: &str) -> (r: Vec<PickerItem>)
    ensures
        r@.map_values(|i: PickerItem| i@) == permission_items_spec(
            modes@.map_values(|p: CatalogPreset| p@), str_opt_view(reported), current@),
{
    let ghost mv = modes@.map_values(|p: CatalogPreset| p@);
    let mut out: Vec<PickerItem> = Vec::new();
    let mut i: usize = 0;
    while i < modes.len()
        invariant
            i <= modes@.len(),
            mv == modes@.map_values(|p: CatalogPreset| p@),
            out@.map_values(|it: PickerItem| it@) == permission_items_spec(mv.subrange(0, i as int), str_opt_view(reported), current@),
        decreases modes@.len() - i,
    {
        let p = &modes[i];
        let is_reported = match reported {
            Some(r) => str_eq(r, p.id.as_str()),
            None => false,
        };
        let mut meta = p.description.clone();
        if is_reported {
            meta.append(" · current");
        } else if reported.is_none() && str_eq(p.id.as_str(), current) {
            meta.append(" · default");
        } else {
            assert(meta@ =~= meta@ + Seq::<char>::empty());
        }
        let item = PickerItem { id: p.id.clone(), label: permission_label(p.id.as_str()), meta, provider: None };
        let ghost before = out@.map_values(|it: PickerItem| it@);
        out.push(item);
        assert(out@.map_values(|it: PickerItem| it@) =~= before.push(item@));
        assert(mv.subrange(0, i + 1) =~= mv.subrange(0, i as int).push(mv[i as int]));
        i += 1;
        assert(out@.map_values(|it: PickerItem| it@) =~= permission_items_spec(mv.subrange(0, i as int), str_opt_view(reported), current@));
    }
    assert(mv.subrange(0, modes@.len() as int) =~= mv);
    out
}

/// One option of a single-select overlay.
#[derive(Clone, Debug)]
pub struct SelectOption {
    pub value: String,
    pub label: String,
    pub description: Option<String>,
}

/// A client plugin's single-select form.
#[derive(Clone, Debug)]
pub struct SelectOverlay {
    pub id: String,
    pub title: String,
    pub value: String,
    pub options: Vec<SelectOption>,
    pub sel: usize,
}

/// One node of a view overlay. The library reads no node's content: the
/// built-in key help is one markdown node, and the nodes of a plugin's
/// view are carried as the documents they arrived as.
#[derive(Debug)]
pub enum ViewNode {
    Markdown { id: String, text: String, streaming: bool },
    Document(crate::json::Json),
}

/// A read-only view overlay: a client plugin's node tree, or the built-in
/// keyboard help. `scroll` is the first row shown (the painter clamps it
/// to the content height); `notify_plugin` says whether closing it is
/// reported to the plugin that opened it.
#[derive(Debug)]
pub struct ViewOverlay {
    pub id: String,
    pub title: String,
    pub nodes: Vec<ViewNode>,
    pub scroll: usize,
    pub notify_plugin: bool,
}

/// What a key did to a view overlay: it stays open (perhaps scrolled), or
/// it closes, with the event to send its plugin where it has one.
pub enum ViewStep {
    Stay,
    Close(Option<crate::bus::Cmd>),
}

/// `scroll + delta`, saturating at both ends of `usize`.
pub open spec fn scrolled(scroll: usize, delta: int) -> int {
    let v = scroll + delta;
    if v < 0 { 0 } else if v > usize::MAX { usize::MAX as int } else { v }
}

/// The event a closing view sends its plugin, if it reports to one.
pub open spec fn view_close_event(id: Seq<char>, notify: bool, event: Seq<char>, c: Option<crate::bus::Cmd>) -> bool {
    if notify {
        c matches Some(crate::bus::Cmd::PluginOverlayEvent { id: i, event: e, value }) && i@ == id && e@ == event && value is None
    } else {
        c is None
    }
}

impl ViewOverlay {
    /// Scrolls by `delta` rows, saturating at both ends.
    pub fn scroll_by(&mut self, delta: i64)
        ensures
            final(self).scroll == scrolled(old(self).scroll, delta as int),
            final(self).id == old(self).id,
            final(self).title == old(self).title,
            final(self).nodes == old(self).nodes,
            final(self).notify_plugin == old(self).notify_plugin,
    {
        let v: i128 = self.scroll as i128 + delta as i128;
        self.scroll = if v < 0 {
            0
        } else if v > usize::MAX as i128 {
            usize::MAX
        } else {
            v as usize
        };
    }

    /// A key on the view overlay. ↑/↓ scroll one row and PageUp/PageDown
    /// five, Home goes to the top and End to the bottom, whatever modifiers
    /// come with them. Of the rest, unchorded Esc closes the view as a
    /// cancel and Enter as a submit (a plugin's view tells its plugin);
    /// every other key is ignored.
    pub fn handle_key(&mut self, key: crate::input::keys::KeyEvent) -> (r: ViewStep)
        ensures
            final(self).id == old(self).id,
            final(self).title == old(self).title,
            final(self).nodes == old(self).nodes,
            final(self).notify_plugin == old(self).notify_plugin,
            ({
                let code = key.code;
                let s = old(self).scroll;
                if code == crate::input::keys::KeyCode::Up {
                    r is Stay && final(self).scroll == scrolled(s, -1)
                } else if code == crate::input::keys::KeyCode::Down {
                    r is Stay && final(self).scroll == scrolled(s, 1)
                } else if code == crate::input::keys::KeyCode::PageUp {
                    r is Stay && final(self).scroll == scrolled(s, -5)
                } else if code == crate::input::keys::KeyCode::PageDown {
                    r is Stay && final(self).scroll == scrolled(s, 5)
                } else if code == crate::input::keys::KeyCode::Home {
                    r is Stay && final(self).scroll == 0
                } else if code == crate::input::keys::KeyCode::End {
                    r is Stay && final(self).scroll == usize::MAX
                } else if key.modifiers == crate::input::keys::no_mods() && code == crate::input::keys::KeyCode::Esc {
                    &&& r matches ViewStep::Close(c) && view_close_event(old(self).id@, old(self).notify_plugin, "cancel"@, c)
                    &&& final(self).scroll == s
                } else if key.modifiers == crate::input::keys::no_mods() && code == crate::input::keys::KeyCode::Enter {
                    &&& r matches ViewStep::Close(c) && view_close_event(old(self).id@, old(self).notify_plugin, "submit"@, c)
                    &&& final(self).scroll == s
                } else {
                    r is Stay && final(self).scroll == s
                }
            }),
    {
        match key.code {
            crate::input::keys::KeyCode::Up => {
                self.scroll_by(-1);
                return ViewStep::Stay;
            },
            crate::input::keys::KeyCode::Down => {
                self.scroll_by(1);
                return ViewStep::Stay;
            },
            crate::input::keys::KeyCode::PageUp => {
                self.scroll_by(-5);
                return ViewStep::Stay;
            },
            crate::input::keys::KeyCode::PageDown => {
                self.scroll_by(5);
                return ViewStep::Stay;
            },
            crate::input::keys::KeyCode::Home => {
                self.scroll = 0;
                return ViewStep::Stay;
            },
            crate::input::keys::KeyCode::End => {
                self.scroll = usize::MAX;
                return ViewStep::Stay;
            },
            _ => {},
        }
        if !key.modifiers.is_empty() {
            return ViewStep::Stay;
        }
        let event: &str = match key.code {
            crate::input::keys::KeyCode::Esc => "cancel",
            crate::input::keys::KeyCode::Enter => "submit",
            _ => {
                return ViewStep::Stay;
            },
        };
        if self.notify_plugin {
            ViewStep::Close(Some(crate::bus::Cmd::PluginOverlayEvent {
                id: self.id.clone(),
                event: event.to_string(),
                value: None,
            }))
        } else {
            ViewStep::Close(None)
        }
    }
}

/// The `/keys` view: the built-in keyboard help as one markdown node,
/// titled in `locale`, reporting to no plugin.
pub fn keys_view(locale: crate::locale::Locale, mac: bool) -> (r: ViewOverlay)
    ensures
        r.id@ == "builtin.keys"@,
        r.title@ == (if locale == crate::locale::Locale::En { "Keyboard shortcuts"@ } else { "快捷键"@ }),
        r.nodes@.len() == 1,
        r.nodes@[0] matches ViewNode::Markdown { id, text, streaming }
            && id@ == "keys"@ && !streaming
            && text@ == crate::input::keymap::keys_markdown_spec(locale == crate::locale::Locale::Zh, mac),
        r.scroll == 0,
        !r.notify_plugin,
{
    let text = crate::input::keymap::keys_markdown(locale == crate::locale::Locale::Zh, mac);
    let title = locale.tr("Keyboard shortcuts", "快捷键");
    let mut nodes: Vec<ViewNode> = Vec::new();
    nodes.push(ViewNode::Markdown { id: "keys".to_string(), text, streaming: false });
    ViewOverlay { id: "builtin.keys".to_string(), title: title.to_string(), nodes, scroll: 0, notify_plugin: false }
}

/// What a key did to a plugin select overlay: nothing; submitted or
/// cancelled it with the selected value (either closes it); or moved the
/// selection to another value, which the plugin is told.
pub enum SelectStep {
    Nothing,
    Submit(String),
    Cancel(String),
    Change(String),
}

impl SelectOverlay {
    /// A key on the select overlay. Chorded keys are ignored; Enter submits
    /// and Esc cancels with the selected value; ↑/↓ step (without
    /// wrapping), Home/End jump, and a move to another row makes that row's
    /// value the current one.
    pub fn handle_key(&mut self, key: crate::input::keys::KeyEvent) -> (r: SelectStep)
        requires
            old(self).sel < old(self).options@.len(),
        ensures
            final(self).id == old(self).id,
            final(self).title == old(self).title,
            final(self).options == old(self).options,
            final(self).sel < final(self).options@.len(),
            ({
                let n = old(self).options@.len() as int;
                let sel = old(self).sel as int;
                let code = key.code;
                let moved = if code == crate::input::keys::KeyCode::Up {
                    if sel > 0 { sel - 1 } else { 0 }
                } else if code == crate::input::keys::KeyCode::Down {
                    if sel + 1 < n { sel + 1 } else { n - 1 }
                } else if code == crate::input::keys::KeyCode::Home {
                    0
                } else if code == crate::input::keys::KeyCode::End {
                    n - 1
                } else {
                    sel
                };
                if key.modifiers != crate::input::keys::no_mods() {
                    r is Nothing && *final(self) == *old(self)
                } else if code == crate::input::keys::KeyCode::Enter {
                    r matches SelectStep::Submit(v) && v@ == old(self).options@[sel].value@ && *final(self) == *old(self)
                } else if code == crate::input::keys::KeyCode::Esc {
                    r matches SelectStep::Cancel(v) && v@ == old(self).options@[sel].value@ && *final(self) == *old(self)
                } else if moved == sel {
                    r is Nothing && *final(self) == *old(self)
                } else {
                    &&& final(self).sel == moved
                    &&& final(self).value@ == old(self).options@[moved].value@
                    &&& r matches SelectStep::Change(v) && v@ == final(self).value@
                }
            }),
    {
        if !key.modifiers.is_empty() {
            return SelectStep::Nothing;
        }
        let code = key.code;
        if code == crate::input::keys::KeyCode::Enter {
            return SelectStep::Submit(self.options[self.sel].value.clone());
        }
        if code == crate::input::keys::KeyCode::Esc {
            return SelectStep::Cancel(self.options[self.sel].value.clone());
        }
        let n = self.options.len();
        let sel = self.sel;
        let moved = if code == crate::input::keys::KeyCode::Up {
            if sel > 0 { sel - 1 } else { 0 }
        } else if code == crate::input::keys::KeyCode::Down {
            if sel + 1 < n { sel + 1 } else { n - 1 }
        } else if code == crate::input::keys::KeyCode::Home {
            0
        } else if code == crate::input::keys::KeyCode::End {
            n - 1
        } else {
            sel
        };
        if moved == sel {
            return SelectStep::Nothing;
        }
        self.sel = moved;
        self.value = self.options[moved].value.clone();
        SelectStep::Change(self.value.clone())
    }
}

/// Whether a select overlay is well formed: an id, a title, and at least
/// one option, every option with a value and a label, no value twice.
pub open spec fn select_valid(s: SelectOverlay) -> bool {
    let o = s.options@;
    &&& s.id@.len() > 0
    &&& s.title@.len() > 0
    &&& o.len() > 0
    &&& forall|i: int| 0 <= i < o.len() ==> (#[trigger] o[i]).value@.len() > 0 && o[i].label@.len() > 0
    &&& forall|i: int, j: int| 0 <= i < j < o.len() ==> (#[trigger] o[i]).value@ != (#[trigger] o[j]).value@
}

/// The row a well-formed select starts on: the first option holding its
/// current value, if any; nothing for a malformed select.
pub fn select_initial_index(select: &SelectOverlay) -> (r: Option<usize>)
    ensures
        !select_valid(*select) ==> r is None,
        select_valid(*select) ==> match r {
            Some(i) => i < select.options@.len() && select.options@[i as int].value@ == select.value@
                && forall|j: int| 0 <= j < i ==> (#[trigger] select.options@[j]).value@ != select.value@,
            None => forall|j: int| 0 <= j < select.options@.len() ==> (#[trigger] select.options@[j]).value@ != select.value@,
        },
{
    let o = &select.options;
    if select.id.as_str().unicode_len() == 0 || select.title.as_str().unicode_len() == 0 || o.len() == 0 {
        return None;
    }
    let mut i: usize = 0;
    while i < o.len()
        invariant
            i <= o@.len(),
            o == select.options,
            forall|k: int| 0 <= k < i ==> (#[trigger] o@[k]).value@.len() > 0 && o@[k].label@.len() > 0,
            forall|k: int, j: int| 0 <= k < j < i ==> (#[trigger] o@[k]).value@ != (#[trigger] o@[j]).value@,
        decreases o@.len() - i,
    {
        if o[i].value.as_str().unicode_len() == 0 || o[i].label.as_str().unicode_len() == 0 {
            return None;
        }
        let mut j: usize = 0;
        while j < i
            invariant
                j <= i < o@.len(),
                o == select.options,
                forall|k: int| 0 <= k < j ==> (#[trigger] o@[k]).value@ != o@[i as int].value@,
            decreases i - j,
        {
            if str_eq(o[j].value.as_str(), o[i].value.as_str()) {
                return None;
            }
            j += 1;
        }
        i += 1;
    }
    assert(select_valid(*select));
    let mut k: usize = 0;
    while k < o.len()
        invariant
            k <= o@.len(),
            o == select.options,
            select_valid(*select),
            forall|j: int| 0 <= j < k ==> (#[trigger] o@[j]).value@ != select.value@,
        decreases o@.len() - k,
    {
        if str_eq(o[k].value.as_str(), select.value.as_str()) {
            return Some(k);
        }
        k += 1;
    }
    None
}

/// The first index of `pending` whose shell id is `id`.
pub open spec fn first_shell(pending: Seq<(u64, usize)>, id: u64) -> Option<int> {
    if exists|i: int| 0 <= i < pending.len() && (#[trigger] pending[i]).0 == id {
        Some(choose|i: int| 0 <= i < pending.len() && (#[trigger] pending[i]).0 == id
            && forall|j: int| 0 <= j < i ==> (#[trigger] pending[j]).0 != id)
    } else {
        None
    }
}

/// A shell command finished: take the transcript cell of the first pending
/// shell with its id, if any is still pending.
pub fn take_shell_cell(pending: &mut Vec<(u64, usize)>, id: u64) -> (r: Option<usize>)
    ensures
        match first_shell(old(pending)@, id) {
            Some(i) => 0 <= i < old(pending)@.len() && old(pending)@[i].0 == id
                && (forall|j: int| 0 <= j < i ==> (#[trigger] old(pending)@[j]).0 != id)
                && r == Some(old(pending)@[i].1) && final(pending)@ == old(pending)@.remove(i),
            None => r is None && final(pending)@ == old(pending)@,
        },
{
    let mut k: usize = 0;
    while k < pending.len()
        invariant
            k <= pending@.len(),
            pending@ == old(pending)@,
            forall|j: int| 0 <= j < k ==> (#[trigger] pending@[j]).0 != id,
        decreases pending@.len() - k,
    {
        if pending[k].0 == id {
            let ghost p0 = pending@;
            proof {
                assert(0 <= k < p0.len() && p0[k as int].0 == id && forall|j: int| 0 <= j < k ==> (#[trigger] p0[j]).0 != id);
                let c = choose|i: int| 0 <= i < p0.len() && (#[trigger] p0[i]).0 == id
                    && forall|j: int| 0 <= j < i ==> (#[trigger] p0[j]).0 != id;
                assert(c == k as int) by {
                    if c < k as int {
                        assert(p0[c].0 != id);
                    } else if c > k as int {
                        assert(p0[k as int].0 != id);
                    }
                }
            }
            let (_, cell) = pending.remove(k);
            return Some(cell);
        }
        k += 1;
    }
    None
}

/// What a plugin's overlay update asks to show, decoded. A slider's bounds
/// are floating point and a view's node tree follows the slot schema, so
/// for those the caller says whether the request is well formed.
pub enum OverlayRequest {
    Select(SelectOverlay),
    Slider { well_formed: bool },
    View { view: ViewOverlay, well_formed: bool },
}

/// The plugin overlay open after an update: the select, the slider the
/// caller decoded, the view, or none.
pub enum OpenOverlay {
    Select(SelectOverlay),
    Slider,
    View(ViewOverlay),
    Nothing,
}

/// What an overlay update does: the overlay now open, and the tip shown
/// when the request was malformed.
pub struct OverlayUpdate {
    pub open: OpenOverlay,
    pub tip: Option<String>,
}

/// What an overlay update under `protocol` asking for `request` does (see
/// `overlay_update`); `None` when it is ignored.
pub open spec fn overlay_update_spec(protocol: u64, request: Option<OverlayRequest>, r: Option<OverlayUpdate>) -> bool {
    if protocol != 0 {
        r is None
    } else {
        r matches Some(u) && match request {
            None => u.open is Nothing && u.tip is None,
            Some(OverlayRequest::Select(s)) => if select_valid(s) && exists|i: int|
                0 <= i < s.options@.len() && (#[trigger] s.options@[i]).value@ == s.value@ {
                u.tip is None && (u.open matches OpenOverlay::Select(t)
                    && t.id == s.id && t.title == s.title && t.value == s.value && t.options == s.options
                    && t.sel < s.options@.len() && s.options@[t.sel as int].value@ == s.value@
                    && forall|j: int| 0 <= j < t.sel ==> (#[trigger] s.options@[j]).value@ != s.value@)
            } else {
                u.open is Nothing && (u.tip matches Some(t) && t@ == "overlay ignored: invalid select"@)
            },
            Some(OverlayRequest::Slider { well_formed }) => if well_formed {
                u.open is Slider && u.tip is None
            } else {
                u.open is Nothing && (u.tip matches Some(t) && t@ == "overlay ignored: invalid slider"@)
            },
            Some(OverlayRequest::View { view, well_formed }) => if well_formed && view.id@.len() > 0 && view.title@.len() > 0 {
                u.tip is None && (u.open matches OpenOverlay::View(v)
                    && v.id == view.id && v.title == view.title && v.nodes == view.nodes && v.scroll == view.scroll
                    && v.notify_plugin)
            } else {
                u.open is Nothing && (u.tip matches Some(t) && t@ == "overlay ignored: invalid view"@)
            },
        }
    }
}

/// Apply a plugin's overlay update: only protocol 0 is read. A well-formed
/// select opens on the row holding its value; a well-formed slider or view
/// (a view with an id and a title) opens, the view reporting its close to
/// the plugin; a malformed request closes every overlay with a tip; no
/// request closes every overlay.
pub fn overlay_update(protocol: u64, request: Option<OverlayRequest>) -> (r: Option<OverlayUpdate>)
    ensures
        overlay_update_spec(protocol, request, r),
{
    if protocol != 0 {
        return None;
    }
    let u = match request {
        None => OverlayUpdate { open: OpenOverlay::Nothing, tip: None },
        Some(OverlayRequest::Select(s)) => {
            let ghost s0 = s;
            match select_initial_index(&s) {
                Some(i) => {
                    let mut t = s;
                    t.sel = i;
                    OverlayUpdate { open: OpenOverlay::Select(t), tip: None }
                },
                None => {
                    proof {
                        if select_valid(s0) {
                            assert(forall|j: int| 0 <= j < s0.options@.len() ==> (#[trigger] s0.options@[j]).value@ != s0.value@);
                        }
                    }
                    OverlayUpdate { open: OpenOverlay::Nothing, tip: Some(String::from_str("overlay ignored: invalid select")) }
                },
            }
        },
        Some(OverlayRequest::Slider { well_formed }) => if well_formed {
            OverlayUpdate { open: OpenOverlay::Slider, tip: None }
        } else {
            OverlayUpdate { open: OpenOverlay::Nothing, tip: Some(String::from_str("overlay ignored: invalid slider")) }
        },
        Some(OverlayRequest::View { view, well_formed }) => {
            if well_formed && view.id.as_str().unicode_len() > 0 && view.title.as_str().unicode_len() > 0 {
                let mut v = view;
                v.notify_plugin = true;
                OverlayUpdate { open: OpenOverlay::View(v), tip: None }
            } else {
                OverlayUpdate { open: OpenOverlay::Nothing, tip: Some(String::from_str("overlay ignored: invalid view")) }
            }
        },
    };
    Some(u)
}

/// The first eight characters of a session id: the picker's short handle.
pub fn short_id(id: &str) -> (r: String)
    ensures
        r@ == (if id@.len() <= 8 { id@ } else { id@.subrange(0, 8) }),
{
    let n = id.unicode_len();
    let m = if n <= 8 { n } else { 8 };
    let mut out = String::new();
    let mut i: usize = 0;
    while i < m
        invariant
            m <= n == id@.len(),
            m == (if n <= 8 { n } else { 8 }),
            i <= m,
            out@ == id@.subrange(0, i as int),
        decreases m - i,
    {
        crate::text::push_char(&mut out, id.get_char(i));
        i += 1;
        assert(out@ =~= id@.subrange(0, i as int));
    }
    assert(n <= 8 ==> id@.subrange(0, n as int) =~= id@);
    out
}

/// `value` with each `'` spelled `'\"'\"'`.
pub open spec fn quote_body(value: Seq<char>) -> Seq<char>
    decreases value.len(),
{
    if value.len() == 0 {
        Seq::empty()
    } else {
        let c = value.last();
        quote_body(value.drop_last()) + (if c == '\'' { "'\\\"'\\\"'"@ } else { seq![c] })
    }
}

/// `value` wrapped in single quotes for the local shell, each inner `'`
/// spelled `'\"'\"'`.
pub fn shell_quote(value: &str) -> (r: String)
    ensures
        r@ == "'"@ + quote_body(value@) + "'"@,
{
    let mut out = String::from_str("'");
    let n = value.unicode_len();
    let mut i: usize = 0;
    while i < n
        invariant
            n == value@.len(),
            i <= n,
            out@ == "'"@ + quote_body(value@.subrange(0, i as int)),
        decreases n - i,
    {
        let c = value.get_char(i);
        assert(value@.subrange(0, i + 1).drop_last() =~= value@.subrange(0, i as int));
        assert(value@.subrange(0, i + 1).last() == c);
        if c == '\'' {
            out.append("'\\\"'\\\"'");
        } else {
            crate::text::push_char(&mut out, c);
        }
        i += 1;
        assert(out@ =~= "'"@ + quote_body(value@.subrange(0, i as int)));
    }
    assert(value@.subrange(0, n as int) =~= value@);
    out.append("'");
    out
}

/// Whether `needle` occurs in `hay` at byte position `i`.
pub open spec fn bytes_at(hay: Seq<u8>, needle: Seq<u8>, i: int) -> bool {
    0 <= i && i + needle.len() <= hay.len() && hay.subrange(i, i + needle.len()) == needle
}

/// The first position of `needle` in `hay` (`windows(n).position(..)`);
/// the needle is non-empty, as `windows` requires.
pub fn find_bytes(haystack: &[u8], needle: &[u8]) -> (r: Option<usize>)
    requires
        needle@.len() > 0,
    ensures
        r matches Some(i) ==> bytes_at(haystack@, needle@, i as int)
            && forall|j: int| 0 <= j < i ==> !bytes_at(haystack@, needle@, j),
        r is None ==> forall|j: int| !bytes_at(haystack@, needle@, j),
{
    let n = haystack.len();
    let m = needle.len();
    if m > n {
        return None;
    }
    let mut i: usize = 0;
    while i <= n - m
        invariant
            n == haystack@.len(),
            m == needle@.len(),
            0 < m <= n,
            i <= n - m + 1,
            forall|j: int| 0 <= j < i ==> !bytes_at(haystack@, needle@, j),
        decreases n - m + 1 - i,
    {
        let mut k: usize = 0;
        let mut same = true;
        while k < m
            invariant
                n == haystack@.len(),
                m == needle@.len(),
                i + m <= n,
                k <= m,
                same == forall|t: int| 0 <= t < k ==> haystack@[i + t] == needle@[t],
            decreases m - k,
        {
            if haystack[i + k] != needle[k] {
                same = false;
            }
            k += 1;
        }
        if same {
            assert(haystack@.subrange(i as int, i + m) =~= needle@);
            return Some(i);
        }
        assert(!bytes_at(haystack@, needle@, i as int)) by {
            let t = choose|t: int| 0 <= t < m && haystack@[i + t] != needle@[t];
            if haystack@.subrange(i as int, i + m) == needle@ {
                assert(haystack@.subrange(i as int, i + m)[t] == haystack@[i + t]);
            }
        }
        i += 1;
    }
    assert forall|j: int| !bytes_at(haystack@, needle@, j) by {
        if 0 <= j && j + m <= n {
            assert(j < i);
        }
    }
    None
}

/// The views of a `Result` of strings.
pub open spec fn result_view(r: Result<String, String>) -> Result<Seq<char>, Seq<char>> {
    match r {
        Ok(s) => Ok(s@),
        Err(e) => Err(e@),
    }
}

/// The ids of listed sessions.
pub open spec fn session_ids(sessions: Seq<SessionListItem>) -> Seq<Seq<char>> {
    sessions.map_values(|s: SessionListItem| s.id@)
}

/// The predicate "starts with `prefix`".
pub open spec fn has_prefix(prefix: Seq<char>) -> spec_fn(Seq<char>) -> bool {
    |id: Seq<char>| starts_with(id, prefix)
}

/// What `/resume <prefix>` resolves to among listed sessions: the one
/// session whose id starts with the prefix; among several, the one whose
/// id is the prefix itself; otherwise an error saying why.
pub open spec fn session_match_spec(ids: Seq<Seq<char>>, prefix: Seq<char>) -> Result<Seq<char>, Seq<char>> {
    let m = ids.filter(has_prefix(prefix));
    if m.len() == 1 {
        Ok(m[0])
    } else if m.len() == 0 {
        Err("no session matches “"@ + prefix + "” — /resume lists them"@)
    } else if m.contains(prefix) {
        Ok(prefix)
    } else {
        Err("“"@ + prefix + "” is ambiguous ("@ + decimal(m.len()) + " matches) — /resume lists them"@)
    }
}

/// Resolves a `/resume` id prefix against the ACP session list.
pub fn unique_session_list_match(sessions: &[SessionListItem], prefix: &str) -> (r: Result<String, String>)
    ensures
        result_view(r) == session_match_spec(session_ids(sessions@), prefix@),
{
    let ghost ids = session_ids(sessions@);
    let ghost pred = has_prefix(prefix@);
    let mut matches: Vec<String> = Vec::new();
    let mut i: usize = 0;
    assert(ids.subrange(0, 0).filter(pred) =~= Seq::<Seq<char>>::empty());
    assert(crate::events::string_views(matches@) =~= Seq::<Seq<char>>::empty());
    while i < sessions.len()
        invariant
            i <= sessions@.len(),
            ids == session_ids(sessions@),
            pred == has_prefix(prefix@),
            crate::events::string_views(matches@) == ids.subrange(0, i as int).filter(pred),
        decreases sessions@.len() - i,
    {
        let id = &sessions[i].id;
        let ghost before = ids.subrange(0, i as int).filter(pred);
        let ghost o = crate::events::string_views(matches@);
        let hit = starts_with_str(id.as_str(), prefix);
        assert(pred(id@) == hit);
        if hit {
            matches.push(id.clone());
            assert(crate::events::string_views(matches@) =~= o.push(id@));
        }
        proof {
            reveal_with_fuel(Seq::filter, 1);
            assert(ids.subrange(0, i + 1).drop_last() =~= ids.subrange(0, i as int));
            assert(ids.subrange(0, i + 1).last() == id@);
        }
        i += 1;
    }
    assert(ids.subrange(0, sessions@.len() as int) =~= ids);
    let ghost m = crate::events::string_views(matches@);
    if matches.len() == 1 {
        return Ok(matches[0].clone());
    }
    if matches.len() == 0 {
        let mut e = String::from_str("no session matches “");
        e.append(prefix);
        e.append("” — /resume lists them");
        return Err(e);
    }
    let mut k: usize = 0;
    while k < matches.len()
        invariant
            k <= matches@.len(),
            m == crate::events::string_views(matches@),
            m == ids.filter(pred),
            ids == session_ids(sessions@),
            pred == has_prefix(prefix@),
            m.len() > 1,
            forall|j: int| 0 <= j < k ==> m[j] != prefix@,
        decreases matches@.len() - k,
    {
        if str_eq(matches[k].as_str(), prefix) {
            assert(m[k as int] == prefix@);
            assert(m.contains(prefix@));
            return Ok(String::from_str(prefix));
        }
        k += 1;
    }
    assert(!m.contains(prefix@));
    let mut digits: Vec<char> = Vec::new();
    push_decimal(&mut digits, matches.len() as u64);
    let mut e = String::from_str("“");
    e.append(prefix);
    e.append("” is ambiguous (");
    e.append(string_of(digits.as_slice()).as_str());
    e.append(" matches) — /resume lists them");
    assert(digits@ =~= decimal(m.len()));
    Err(e)
}

/// The lower-case hexadecimal digit for `d < 16`.
pub open spec fn hex_digit(d: nat) -> char {
    if d < 10 { crate::text::digit_char(d) } else if d == 10 { 'a' } else if d == 11 { 'b' } else if d == 12 { 'c' }
    else if d == 13 { 'd' } else if d == 14 { 'e' } else { 'f' }
}

/// Lower-case hexadecimal rendering of a number, without leading zeros
/// (what `format!("{n:x}")` prints).
pub open spec fn hex(n: nat) -> Seq<char>
    decreases n,
{
    if n < 16 { seq![hex_digit(n)] } else { hex(n / 16).push(hex_digit(n % 16)) }
}

fn hex_char(d: u64) -> (c: char)
    requires
        d < 16,
    ensures
        c == hex_digit(d as nat),
{
    if d == 0 { '0' } else if d == 1 { '1' } else if d == 2 { '2' } else if d == 3 { '3' }
    else if d == 4 { '4' } else if d == 5 { '5' } else if d == 6 { '6' } else if d == 7 { '7' }
    else if d == 8 { '8' } else if d == 9 { '9' } else if d == 10 { 'a' } else if d == 11 { 'b' }
    else if d == 12 { 'c' } else if d == 13 { 'd' } else if d == 14 { 'e' } else { 'f' }
}

fn push_hex(out: &mut Vec<char>, n: u64)
    ensures
        final(out)@ == old(out)@ + hex(n as nat),
    decreases n,
{
    if n < 16 {
        out.push(hex_char(n));
    } else {
        push_hex(out, n / 16);
        out.push(hex_char(n % 16));
        assert(final(out)@ =~= old(out)@ + hex(n as nat));
    }
}

/// A Unix time in seconds as the lower-case hexadecimal the client stamps
/// its files and ids with.
pub fn hex_seconds(secs: u64) -> (s: String)
    ensures
        s@ == hex(secs as nat),
{
    let mut v: Vec<char> = Vec::new();
    push_hex(&mut v, secs);
    assert(v@ =~= hex(secs as nat));
    string_of(v.as_slice())
}

/// `SystemTime::now()` as whole seconds since the Unix epoch (0 for a
/// clock set before it). Nothing is stated of the value: it is the time.
#[verifier::external_body]
fn unix_seconds() -> u64 {
    std::time::SystemTime::now().duration_since(std::time::UNIX_EPOCH).map(|d| d.as_secs()).unwrap_or(0)
}

/// The current Unix time in seconds, in lower-case hexadecimal.
pub fn timestamp() -> (s: String)
    ensures
        exists|secs: u64| s@ == hex(secs as nat),
{
    let secs = unix_seconds();
    hex_seconds(secs)
}

/// UTF-8 encodes a concatenation piecewise.
pub proof fn lemma_encode_utf8_concat(a: Seq<char>, b: Seq<char>)
    ensures
        vstd::utf8::encode_utf8(a + b) == vstd::utf8::encode_utf8(a) + vstd::utf8::encode_utf8(b),
    decreases a.len(),
{
    if a.len() == 0 {
        assert(a + b =~= b);
        assert(vstd::utf8::encode_utf8(a) =~= Seq::<u8>::empty());
        assert(vstd::utf8::encode_utf8(a) + vstd::utf8::encode_utf8(b) =~= vstd::utf8::encode_utf8(b));
    } else {
        lemma_encode_utf8_concat(a.drop_first(), b);
        assert((a + b).drop_first() =~= a.drop_first() + b);
        assert((a + b)[0] == a[0]);
    }
}

/// The number of bytes `c` takes in UTF-8.
pub(crate) fn utf8_len(c: char) -> (n: usize)
    ensures
        n == vstd::utf8::encode_scalar(c as u32).len(),
{
    let u = c as u32;
    if u <= 0x7f {
        1
    } else if u <= 0x7ff {
        2
    } else if u <= 0xffff {
        3
    } else {
        4
    }
}

/// The byte offset of character `i` of `s`: the UTF-8 length of the
/// characters before it, or the whole string's when `i` is past the end.
pub open spec fn byte_of_spec(s: Seq<char>, i: int) -> int {
    if i < s.len() {
        vstd::utf8::encode_utf8(s.subrange(0, i)).len() as int
    } else {
        vstd::utf8::encode_utf8(s).len() as int
    }
}

/// Byte offset of character index `i` in `s` (end of string when past it).
pub fn byte_of(s: &str, i: usize) -> (b: usize)
    ensures
        b == byte_of_spec(s@, i as int),
{
    let n = s.unicode_len();
    let total = s.as_bytes().len();
    let m = if i < n { i } else { n };
    let mut k: usize = 0;
    let mut b: usize = 0;
    proof {
        assert(s@.subrange(0, 0) =~= Seq::<char>::empty());
        assert(s.spec_bytes() == vstd::utf8::encode_utf8(s@));
        lemma_encode_utf8_concat(s@.subrange(0, m as int), s@.subrange(m as int, n as int));
        assert(s@.subrange(0, m as int) + s@.subrange(m as int, n as int) =~= s@);
    }
    while k < m
        invariant
            n == s@.len(),
            m <= n,
            k <= m,
            b == vstd::utf8::encode_utf8(s@.subrange(0, k as int)).len(),
            vstd::utf8::encode_utf8(s@.subrange(0, m as int)).len() <= vstd::utf8::encode_utf8(s@).len(),
            vstd::utf8::encode_utf8(s@).len() == s.spec_bytes().len(),
            total == s.spec_bytes().len(),
        decreases m - k,
    {
        let c = s.get_char(k);
        proof {
            lemma_encode_utf8_concat(s@.subrange(0, k as int), seq![c]);
            assert(s@.subrange(0, k + 1) =~= s@.subrange(0, k as int) + seq![c]);
            assert(seq![c].drop_first() =~= Seq::<char>::empty());
            reveal_with_fuel(vstd::utf8::encode_utf8, 2);
            assert(vstd::utf8::encode_utf8(seq![c]) =~= vstd::utf8::encode_scalar(c as u32));
            lemma_encode_utf8_concat(s@.subrange(0, k + 1), s@.subrange(k + 1, m as int));
            assert(s@.subrange(0, k + 1) + s@.subrange(k + 1, m as int) =~= s@.subrange(0, m as int));
        }
        b = b + utf8_len(c);
        k += 1;
    }
    proof {
        if m == n {
            assert(s@.subrange(0, n as int) =~= s@);
        }
    }
    b
}

/// The session an event belongs to; subagent lifecycle events belong to none.
pub open spec fn ui_session_spec(e: crate::events::UiEventV) -> Option<Seq<char>> {
    match e {
        crate::events::UiEventV::SubagentStarted { .. } => None,
        crate::events::UiEventV::SubagentFinished { .. } => None,
        crate::events::UiEventV::SessionStatus { session, .. } => Some(session),
        crate::events::UiEventV::TurnStart { session, .. } => Some(session),
        crate::events::UiEventV::TurnEnd { session, .. } => Some(session),
        crate::events::UiEventV::TextDelta { session, .. } => Some(session),
        crate::events::UiEventV::ReasoningDelta { session, .. } => Some(session),
        crate::events::UiEventV::AssistantFinal { session, .. } => Some(session),
        crate::events::UiEventV::ToolCall { session, .. } => Some(session),
        crate::events::UiEventV::ToolResult { session, .. } => Some(session),
        crate::events::UiEventV::Usage { session, .. } => Some(session),
        crate::events::UiEventV::UserInjected { session, .. } => Some(session),
        crate::events::UiEventV::UserMessage { session, .. } => Some(session),
        crate::events::UiEventV::SessionTitle { session, .. } => Some(session),
        crate::events::UiEventV::Plan { session, .. } => Some(session),
        crate::events::UiEventV::PlanMode { session, .. } => Some(session),
        crate::events::UiEventV::SandboxMode { session, .. } => Some(session),
        crate::events::UiEventV::ApprovalPolicy { session, .. } => Some(session),
        crate::events::UiEventV::PermissionPreset { session, .. } => Some(session),
        crate::events::UiEventV::AgentPreset { session, .. } => Some(session),
        crate::events::UiEventV::ApprovalAsked { session, .. } => Some(session),
        crate::events::UiEventV::ApprovalDecided { session, .. } => Some(session),
    }
}

/// The session an event belongs to.
pub fn ui_session(event: &crate::events::UiEvent) -> (r: Option<&str>)
    ensures
        str_opt_view(r) == ui_session_spec(event@),
{
    match event {
        crate::events::UiEvent::SubagentStarted { .. } | crate::events::UiEvent::SubagentFinished { .. } => None,
        crate::events::UiEvent::SessionStatus { session, .. } => Some(session.as_str()),
        crate::events::UiEvent::TurnStart { session, .. } => Some(session.as_str()),
        crate::events::UiEvent::TurnEnd { session, .. } => Some(session.as_str()),
        crate::events::UiEvent::TextDelta { session, .. } => Some(session.as_str()),
        crate::events::UiEvent::ReasoningDelta { session, .. } => Some(session.as_str()),
        crate::events::UiEvent::AssistantFinal { session, .. } => Some(session.as_str()),
        crate::events::UiEvent::ToolCall { session, .. } => Some(session.as_str()),
        crate::events::UiEvent::ToolResult { session, .. } => Some(session.as_str()),
        crate::events::UiEvent::Usage { session, .. } => Some(session.as_str()),
        crate::events::UiEvent::UserInjected { session, .. } => Some(session.as_str()),
        crate::events::UiEvent::UserMessage { session, .. } => Some(session.as_str()),
        crate::events::UiEvent::SessionTitle { session, .. } => Some(session.as_str()),
        crate::events::UiEvent::Plan { session, .. } => Some(session.as_str()),
        crate::events::UiEvent::PlanMode { session, .. } => Some(session.as_str()),
        crate::events::UiEvent::SandboxMode { session, .. } => Some(session.as_str()),
        crate::events::UiEvent::ApprovalPolicy { session, .. } => Some(session.as_str()),
        crate::events::UiEvent::PermissionPreset { session, .. } => Some(session.as_str()),
        crate::events::UiEvent::AgentPreset { session, .. } => Some(session.as_str()),
        crate::events::UiEvent::ApprovalAsked { session, .. } => Some(session.as_str()),
        crate::events::UiEvent::ApprovalDecided { session, .. } => Some(session.as_str()),
    }
}

/// Lexicographic order on `(start, end, index)` spans.
pub open spec fn span_le(a: (usize, usize, usize), b: (usize, usize, usize)) -> bool {
    a.0 < b.0 || (a.0 == b.0 && (a.1 < b.1 || (a.1 == b.1 && a.2 <= b.2)))
}

/// Whether spans are in ascending order.
pub open spec fn spans_sorted(s: Seq<(usize, usize, usize)>) -> bool {
    forall|i: int, j: int| 0 <= i < j < s.len() ==> span_le(#[trigger] s[i], #[trigger] s[j])
}

/// The position of the first occurrence of `needle` in `hay`.
pub open spec fn first_occurrence(hay: Seq<char>, needle: Seq<char>) -> int {
    choose|i: int| occurs_at(hay, needle, i) && forall|j: int| 0 <= j < i ==> !occurs_at(hay, needle, j)
}

/// For each token (in attachment order) that occurs in the draft, the
/// character span of its first occurrence and the attachment's index.
pub open spec fn found_spans(buf: Seq<char>, tokens: Seq<Seq<char>>) -> Seq<(usize, usize, usize)>
    decreases tokens.len(),
{
    if tokens.len() == 0 {
        Seq::empty()
    } else {
        let p = found_spans(buf, tokens.drop_last());
        let t = tokens.last();
        if contains_seq(buf, t) {
            let start = first_occurrence(buf, t);
            p.push((start as usize, (start + t.len()) as usize, (tokens.len() - 1) as usize))
        } else {
            p
        }
    }
}

/// The draft tokens of attachments.
pub open spec fn tokens_of(atts: Seq<Attachment>) -> Seq<Seq<char>> {
    atts.map_values(|a: Attachment| a.token@)
}

/// Inserts `x` into a sorted list, after the entries not above it.
fn insert_sorted(out: &mut Vec<(usize, usize, usize)>, x: (usize, usize, usize))
    requires
        spans_sorted(old(out)@),
    ensures
        spans_sorted(final(out)@),
        final(out)@.to_multiset() == old(out)@.to_multiset().insert(x),
{
    let mut pos: usize = 0;
    let mut found = false;
    while pos < out.len() && !found
        invariant
            pos <= out@.len(),
            forall|k: int| 0 <= k < pos ==> span_le(#[trigger] out@[k], x),
            found ==> pos < out@.len() && !span_le(out@[pos as int], x),
        decreases out@.len() - pos + (if found { 0int } else { 1int }),
    {
        let y = out[pos];
        if x.0 < y.0 || (x.0 == y.0 && (x.1 < y.1 || (x.1 == y.1 && x.2 < y.2))) {
            found = true;
        } else {
            pos += 1;
        }
    }
    let ghost before = out@;
    proof {
        broadcast use vstd::seq_lib::to_multiset_insert;
        assert(before.insert(pos as int, x).to_multiset() == before.to_multiset().insert(x));
    }
    out.insert(pos, x);
    assert forall|i: int, j: int| 0 <= i < j < out@.len() implies span_le(#[trigger] out@[i], #[trigger] out@[j]) by {
        if i < pos && j < pos {
            assert(out@[i] == before[i] && out@[j] == before[j]);
        } else if i < pos && j == pos {
            assert(out@[i] == before[i]);
        } else if i < pos && j > pos {
            assert(out@[i] == before[i] && out@[j] == before[j - 1]);
            assert(span_le(before[i], before[j - 1]));
        } else if i == pos {
            assert(out@[j] == before[j - 1]);
            assert(found);
            assert(span_le(before[pos as int], before[j - 1]) || j - 1 == pos);
        } else {
            assert(out@[i] == before[i - 1] && out@[j] == before[j - 1]);
        }
    }
}

/// The `(start, end, index)` character spans of the attachments' tokens
/// in the draft (each token's first occurrence), in ascending order.
pub fn token_spans_in(buf: &str, attachments: &[Attachment]) -> (r: Vec<(usize, usize, usize)>)
    ensures
        spans_sorted(r@),
        r@.to_multiset() == found_spans(buf@, tokens_of(attachments@)).to_multiset(),
{
    let hay = chars_of(buf);
    let ghost toks = tokens_of(attachments@);
    let mut spans: Vec<(usize, usize, usize)> = Vec::new();
    let mut idx: usize = 0;
    proof {
        broadcast use vstd::seq_lib::to_multiset_build;
        assert(toks.subrange(0, 0) =~= Seq::<Seq<char>>::empty());
        assert(spans@.to_multiset() =~= Seq::<(usize, usize, usize)>::empty().to_multiset());
    }
    while idx < attachments.len()
        invariant
            idx <= attachments@.len(),
            hay@ == buf@,
            toks == tokens_of(attachments@),
            spans_sorted(spans@),
            spans@.to_multiset() == found_spans(buf@, toks.subrange(0, idx as int)).to_multiset(),
        decreases attachments@.len() - idx,
    {
        let needle = chars_of(attachments[idx].token.as_str());
        let ghost prev = found_spans(buf@, toks.subrange(0, idx as int));
        proof {
            assert(toks.subrange(0, idx + 1).drop_last() =~= toks.subrange(0, idx as int));
            assert(toks.subrange(0, idx + 1).last() == needle@);
        }
        match find_chars(hay.as_slice(), needle.as_slice()) {
            Some(start) => {
                let len = needle.len();
                let total = hay.len();
                assert(start + len <= total);
                proof {
                    assert(occurs_at(buf@, needle@, start as int));
                    assert(contains_seq(buf@, needle@));
                    let f = first_occurrence(buf@, needle@);
                    assert(occurs_at(buf@, needle@, f) && forall|j: int| 0 <= j < f ==> !occurs_at(buf@, needle@, j));
                    assert(f == start as int) by {
                        if f < start {
                        } else if f > start {
                        }
                    }
                    broadcast use vstd::seq_lib::to_multiset_build;
                    assert(found_spans(buf@, toks.subrange(0, idx + 1)) == prev.push((start, (start + len) as usize, idx)));
                }
                insert_sorted(&mut spans, (start, start + len, idx));
            },
            None => {
                assert(found_spans(buf@, toks.subrange(0, idx + 1)) == prev);
            },
        }
        idx += 1;
    }
    assert(toks.subrange(0, attachments@.len() as int) =~= toks);
    spans
}

/// One piece of a composer draft after its `[image N]` chips are split
/// out, in reading order.
pub enum StagedBlock {
    Text(String),
    Image(Attachment),
}

/// A staged block with its text as a character sequence.
pub enum StagedView {
    Text(Seq<char>),
    Image(Attachment),
}

impl View for StagedBlock {
    type V = StagedView;

    open spec fn view(&self) -> StagedView {
        match *self {
            StagedBlock::Text(t) => StagedView::Text(t@),
            StagedBlock::Image(a) => StagedView::Image(a),
        }
    }
}

/// The views of a list of staged blocks.
pub open spec fn staged_views(bs: Seq<StagedBlock>) -> Seq<StagedView> {
    bs.map_values(|b: StagedBlock| b@)
}

/// A text block that is only whitespace.
pub open spec fn blank_text(b: StagedView) -> bool {
    b matches StagedView::Text(t) && trim_seq(t).len() == 0
}

/// The blocks without their leading whitespace-only text blocks.
pub open spec fn drop_leading_blank(bs: Seq<StagedView>) -> Seq<StagedView>
    decreases bs.len(),
{
    if bs.len() > 0 && blank_text(bs[0]) { drop_leading_blank(bs.drop_first()) } else { bs }
}

/// The blocks without their trailing whitespace-only text blocks.
pub open spec fn drop_trailing_blank(bs: Seq<StagedView>) -> Seq<StagedView>
    decreases bs.len(),
{
    if bs.len() > 0 && blank_text(bs.last()) { drop_trailing_blank(bs.drop_last()) } else { bs }
}

/// A block with its text trimmed.
pub open spec fn trim_block(b: StagedView) -> StagedView {
    match b {
        StagedView::Text(t) => StagedView::Text(trim_seq(t)),
        StagedView::Image(a) => StagedView::Image(a),
    }
}

/// The blocks with the first and the last one's text trimmed.
pub open spec fn trim_ends(bs: Seq<StagedView>) -> Seq<StagedView> {
    if bs.len() == 0 {
        bs
    } else {
        let a = bs.update(0, trim_block(bs[0]));
        a.update(a.len() - 1, trim_block(a.last()))
    }
}

/// A block that is not an empty text.
pub open spec fn not_empty_text() -> spec_fn(StagedView) -> bool {
    |b: StagedView| !(b matches StagedView::Text(t) && t.len() == 0)
}

/// A draft's blocks trimmed: whitespace-only text at either end dropped,
/// the end texts trimmed, empty texts removed.
pub open spec fn trim_staged_spec(bs: Seq<StagedView>) -> Seq<StagedView> {
    trim_ends(drop_trailing_blank(drop_leading_blank(bs))).filter(not_empty_text())
}

fn is_blank_text(b: &StagedBlock) -> (r: bool)
    ensures
        r == blank_text(b@),
{
    match b {
        StagedBlock::Text(t) => {
            let cs = chars_of(t.as_str());
            trimmed(cs.as_slice()).len() == 0
        },
        StagedBlock::Image(_) => false,
    }
}

fn trim_text_block(b: StagedBlock) -> (r: StagedBlock)
    ensures
        r@ == trim_block(b@),
{
    match b {
        StagedBlock::Text(t) => {
            let cs = chars_of(t.as_str());
            StagedBlock::Text(string_of(trimmed(cs.as_slice()).as_slice()))
        },
        StagedBlock::Image(a) => StagedBlock::Image(a),
    }
}

/// Trims a draft's blocks: whitespace-only text at either end is dropped,
/// the remaining end texts are trimmed, and empty texts are removed.
pub fn trim_staged_blocks(blocks: &mut Vec<StagedBlock>)
    ensures
        staged_views(final(blocks)@) == trim_staged_spec(staged_views(old(blocks)@)),
{
    let ghost orig = staged_views(blocks@);
    let mut v: Vec<StagedBlock> = Vec::new();
    std::mem::swap(&mut v, blocks);
    assert(staged_views(v@) == orig);
    while v.len() > 0 && is_blank_text(&v[0])
        invariant
            drop_leading_blank(staged_views(v@)) == drop_leading_blank(orig),
        decreases v@.len(),
    {
        let ghost pre = staged_views(v@);
        let _ = v.remove(0);
        assert(staged_views(v@) =~= pre.drop_first());
    }
    let ghost lead = staged_views(v@);
    assert(drop_leading_blank(lead) == lead);
    while v.len() > 0 && is_blank_text(&v[v.len() - 1])
        invariant
            drop_trailing_blank(staged_views(v@)) == drop_trailing_blank(lead),
            drop_leading_blank(orig) == lead,
        decreases v@.len(),
    {
        let ghost pre = staged_views(v@);
        let _ = v.pop();
        assert(staged_views(v@) =~= pre.drop_last());
    }
    let ghost mid = staged_views(v@);
    assert(drop_trailing_blank(mid) == mid);
    let n = v.len();
    if n > 0 {
        let first = v.remove(0);
        v.insert(0, trim_text_block(first));
        let last = v.pop().unwrap();
        v.push(trim_text_block(last));
    }
    let ghost ends = staged_views(v@);
    assert(ends =~= trim_ends(mid));
    let mut out: Vec<StagedBlock> = Vec::new();
    let ghost pred = not_empty_text();
    let ghost total = ends.len();
    assert(ends.subrange(0, 0).filter(pred) =~= Seq::<StagedView>::empty());
    assert(staged_views(out@) =~= Seq::<StagedView>::empty());
    while v.len() > 0
        invariant
            pred == not_empty_text(),
            total == ends.len(),
            v@.len() <= total,
            staged_views(v@) == ends.subrange(total - v@.len(), total as int),
            staged_views(out@) == ends.subrange(0, total - v@.len()).filter(pred),
            ends == trim_ends(mid),
            mid == drop_trailing_blank(lead),
            lead == drop_leading_blank(orig),
        decreases v@.len(),
    {
        let ghost k = total - v@.len();
        let ghost pre = staged_views(v@);
        let ghost o = staged_views(out@);
        assert(pre[0] == v@[0]@);
        assert(pre[0] == ends.subrange(k, total as int)[0]);
        let b = v.remove(0);
        assert(staged_views(v@) =~= pre.drop_first());
        assert(b@ == ends[k]);
        let keep = match &b {
            StagedBlock::Text(t) => t.as_str().unicode_len() > 0,
            StagedBlock::Image(_) => true,
        };
        assert(keep == pred(b@));
        if keep {
            out.push(b);
            assert(staged_views(out@) =~= o.push(ends[k]));
        }
        proof {
            reveal_with_fuel(Seq::filter, 1);
            assert(ends.subrange(0, k + 1).drop_last() =~= ends.subrange(0, k));
            assert(ends.subrange(0, k + 1).last() == ends[k]);
            assert(ends.subrange(total - v@.len(), total as int) =~= pre.drop_first());
        }
    }
    assert(ends.subrange(0, total as int) =~= ends);
    *blocks = out;
}

/// The smaller of two integers.
pub open spec fn min_int(a: int, b: int) -> int {
    if a <= b { a } else { b }
}

/// One span's step of splitting a draft: the text since the last chip (if
/// any), then the chip's attachment (the first time it is claimed); the
/// position moves past the chip.
pub open spec fn draft_step(
    chars: Seq<char>,
    st: (int, Seq<StagedView>, Seq<Option<Attachment>>),
    span: (usize, usize, usize),
) -> (int, Seq<StagedView>, Seq<Option<Attachment>>) {
    let ci = st.0;
    let start = span.0 as int;
    let idx = span.2 as int;
    let bs1 = if start > ci {
        let t = chars.subrange(ci, min_int(start, chars.len() as int));
        if t.len() > 0 { st.1.push(StagedView::Text(t)) } else { st.1 }
    } else {
        st.1
    };
    if idx < st.2.len() && st.2[idx] is Some {
        (min_int(span.1 as int, chars.len() as int), bs1.push(StagedView::Image(st.2[idx].unwrap())), st.2.update(idx, None))
    } else {
        (min_int(span.1 as int, chars.len() as int), bs1, st.2)
    }
}

/// The state after splitting a draft at the given spans, in order.
pub open spec fn draft_fold(chars: Seq<char>, slots: Seq<Option<Attachment>>, spans: Seq<(usize, usize, usize)>) -> (int, Seq<StagedView>, Seq<Option<Attachment>>)
    decreases spans.len(),
{
    if spans.len() == 0 {
        (0, Seq::empty(), slots)
    } else {
        draft_step(chars, draft_fold(chars, slots, spans.drop_last()), spans.last())
    }
}

/// A draft split at the given chip spans into text and image blocks, in
/// reading order, then trimmed.
pub open spec fn split_draft_spec(chars: Seq<char>, atts: Seq<Attachment>, spans: Seq<(usize, usize, usize)>) -> Seq<StagedView> {
    let st = draft_fold(chars, atts.map_values(|a: Attachment| Some(a)), spans);
    let bs = if st.0 < chars.len() {
        let t = chars.subrange(st.0, chars.len() as int);
        if t.len() > 0 { st.1.push(StagedView::Text(t)) } else { st.1 }
    } else {
        st.1
    };
    trim_staged_spec(bs)
}

/// Splits a composer draft on its inline image chips, keeping text and
/// images in reading order (the chips' spans are those `token_spans_in`
/// finds: each token's first occurrence, in ascending order).
pub fn split_draft_into_staged_blocks(buf: &str, attachments: Vec<Attachment>) -> (r: Vec<StagedBlock>)
    ensures
        exists|spans: Seq<(usize, usize, usize)>| {
            &&& spans_sorted(spans)
            &&& spans.to_multiset() == found_spans(buf@, tokens_of(attachments@)).to_multiset()
            &&& staged_views(r@) == split_draft_spec(buf@, attachments@, spans)
        },
{
    let spans = token_spans_in(buf, attachments.as_slice());
    let chars = chars_of(buf);
    let n = chars.len();
    let ghost init = attachments@.map_values(|a: Attachment| Some(a));
    let mut atts = attachments;
    let mut slots: Vec<Option<Attachment>> = Vec::new();
    let ghost all = atts@;
    while atts.len() > 0
        invariant
            slots@.len() + atts@.len() == all.len(),
            slots@ == init.subrange(0, slots@.len() as int),
            atts@ == all.subrange(slots@.len() as int, all.len() as int),
            init == all.map_values(|a: Attachment| Some(a)),
        decreases atts@.len(),
    {
        let ghost k: int = slots@.len() as int;
        assert(atts@[0] == all[k]);
        let a = atts.remove(0);
        slots.push(Some(a));
        assert(slots@ =~= init.subrange(0, k + 1));
        assert(atts@ =~= all.subrange(k + 1, all.len() as int));
    }
    assert(slots@ =~= init);
    let mut blocks: Vec<StagedBlock> = Vec::new();
    let mut char_i: usize = 0;
    let mut i: usize = 0;
    assert(spans@.subrange(0, 0) =~= Seq::<(usize, usize, usize)>::empty());
    assert(staged_views(blocks@) =~= Seq::<StagedView>::empty());
    while i < spans.len()
        invariant
            i <= spans@.len(),
            n == chars@.len(),
            chars@ == buf@,
            char_i <= n,
            ({
                let st = draft_fold(buf@, init, spans@.subrange(0, i as int));
                &&& st.0 == char_i as int
                &&& st.1 == staged_views(blocks@)
                &&& st.2 == slots@
            }),
        decreases spans@.len() - i,
    {
        let (start, end, idx) = spans[i];
        let ghost st = draft_fold(buf@, init, spans@.subrange(0, i as int));
        assert(spans@.subrange(0, i + 1).drop_last() =~= spans@.subrange(0, i as int));
        assert(spans@.subrange(0, i + 1).last() == (start, end, idx));
        if start > char_i {
            let hi = if start < n { start } else { n };
            let text = sub_string(&chars, char_i, hi);
            if text.as_str().unicode_len() > 0 {
                let ghost o = staged_views(blocks@);
                blocks.push(StagedBlock::Text(text));
                assert(staged_views(blocks@) =~= o.push(StagedView::Text(chars@.subrange(char_i as int, hi as int))));
            }
        }
        if idx < slots.len() {
            let slot = slots.remove(idx);
            match slot {
                Some(a) => {
                    let ghost o = staged_views(blocks@);
                    slots.insert(idx, None);
                    blocks.push(StagedBlock::Image(a));
                    assert(staged_views(blocks@) =~= o.push(StagedView::Image(a)));
                    assert(slots@ =~= st.2.update(idx as int, None));
                },
                None => {
                    slots.insert(idx, None);
                    assert(slots@ =~= st.2);
                },
            }
        }
        char_i = if end < n { end } else { n };
        i += 1;
    }
    assert(spans@.subrange(0, spans@.len() as int) =~= spans@);
    if char_i < n {
        let text = sub_string(&chars, char_i, n);
        if text.as_str().unicode_len() > 0 {
            let ghost o = staged_views(blocks@);
            blocks.push(StagedBlock::Text(text));
            assert(staged_views(blocks@) =~= o.push(StagedView::Text(chars@.subrange(char_i as int, n as int))));
        }
    }
    trim_staged_blocks(&mut blocks);
    blocks
}

/// `UnicodeWidthChar::width`: a character's displayed width in columns,
/// `None` for control characters.
pub uninterp spec fn char_width(c: char) -> Option<usize>;

/// `unicode_width`'s `UnicodeWidthChar::width` for one character. The
/// contract names the result and states what the crate's source shows
/// plainly: `None` exactly for the C0 controls, DEL and the C1 controls,
/// one column for the other ASCII characters, at most three columns for
/// any character. The widths beyond ASCII come from Unicode tables and are
/// left unsaid.
#[verifier::external_body]
fn char_width_of(c: char) -> (w: Option<usize>)
    ensures
        w == char_width(c),
        w is None <==> ((c as u32) < 0x20 || (0x7f <= (c as u32) && (c as u32) < 0xa0)),
        (0x20 <= (c as u32) && (c as u32) < 0x7f) ==> w == Some(1usize),
        w matches Some(n) ==> n <= 3,
{
    unicode_width::UnicodeWidthChar::width(c)
}

/// The cells a character covers on screen: its width, at least one.
pub open spec fn cells(c: char) -> int {
    match char_width(c) {
        Some(w) => if w >= 1 { w as int } else { 1 },
        None => 1,
    }
}

fn cell_width(c: char) -> (n: usize)
    ensures
        n == cells(c),
        1 <= n <= 3,
{
    match char_width_of(c) {
        Some(w) => if w >= 1 { w } else { 1 },
        None => 1,
    }
}

/// The characters of `s` (starting at column `w`) whose cells overlap the
/// column range `[c0, c1)`; the scan stops once it reaches `c1`.
pub open spec fn slice_cells(s: Seq<char>, w: int, c0: int, c1: int) -> Seq<char>
    decreases s.len(),
{
    if s.len() == 0 {
        Seq::empty()
    } else {
        let cw = cells(s[0]);
        let keep = if w + cw > c0 && w < c1 { seq![s[0]] } else { Seq::empty() };
        if w + cw >= c1 { keep } else { keep + slice_cells(s.drop_first(), w + cw, c0, c1) }
    }
}

/// Slices `s` by the display-cell range `[c0, c1)`: a character is kept
/// when its cells overlap the range, so a double-width character straddling
/// a boundary is kept (it is what the highlight covers).
pub fn slice_by_cells(s: &str, c0: usize, c1: usize) -> (r: String)
    ensures
        r@ == slice_cells(s@, 0, c0 as int, c1 as int),
{
    let mut out = String::new();
    let n = s.unicode_len();
    let lo = c0 as u128;
    let hi = c1 as u128;
    let mut w: u128 = 0;
    let mut i: usize = 0;
    let mut done = false;
    assert(s@.subrange(0, n as int) =~= s@);
    while i < n && !done
        invariant
            n == s@.len(),
            i <= n,
            lo == c0 as int,
            hi == c1 as int,
            w <= 3 * i,
            done ==> out@ == slice_cells(s@, 0, c0 as int, c1 as int),
            !done ==> out@ + slice_cells(s@.subrange(i as int, n as int), w as int, c0 as int, c1 as int)
                == slice_cells(s@, 0, c0 as int, c1 as int),
        decreases n - i + (if done { 0int } else { 1int }),
    {
        let ch = s.get_char(i);
        let cw = cell_width(ch) as u128;
        let ghost rest = s@.subrange(i as int, n as int);
        assert(rest[0] == ch);
        assert(rest.drop_first() =~= s@.subrange(i + 1, n as int));
        let ghost before = out@;
        if w + cw > lo && w < hi {
            crate::text::push_char(&mut out, ch);
        }
        assert(out@ =~= before + (if w + cw > lo && w < hi { seq![ch] } else { Seq::<char>::empty() }));
        w = w + cw;
        i += 1;
        if w >= hi {
            done = true;
        }
    }
    proof {
        if !done {
            assert(s@.subrange(i as int, n as int) =~= Seq::<char>::empty());
            assert(out@ =~= out@ + Seq::<char>::empty());
        }
    }
    out
}

/// The total cells of a character sequence.
pub open spec fn cells_sum(s: Seq<char>) -> int
    decreases s.len(),
{
    if s.len() == 0 { 0 } else { cells_sum(s.drop_last()) + cells(s.last()) }
}

/// The first character at or after position `k` (which starts at column
/// `w`) whose cells reach past column `col`.
pub open spec fn hit_from(chars: Seq<char>, k: int, w: int, col: int) -> Option<int>
    decreases chars.len() - k,
{
    if k < 0 || k >= chars.len() {
        None
    } else if col < w + cells(chars[k]) {
        Some(k)
    } else {
        hit_from(chars, k + 1, w + cells(chars[k]), col)
    }
}

/// The start of the whitespace-delimited word holding position `i`.
pub open spec fn word_start(chars: Seq<char>, i: int) -> int
    decreases i,
{
    if i > 0 && i <= chars.len() && !is_ws(chars[i - 1]) { word_start(chars, i - 1) } else { i }
}

/// The last position of the whitespace-delimited word holding position `i`.
pub open spec fn word_end(chars: Seq<char>, i: int) -> int
    decreases chars.len() - i,
{
    if 0 <= i && i + 1 < chars.len() && !is_ws(chars[i + 1]) { word_end(chars, i + 1) } else { i }
}

/// The word under display column `col`: its start column, its width in
/// cells and its text; nothing on whitespace or past the end.
pub open spec fn word_span_spec(chars: Seq<char>, col: int) -> Option<(int, int, Seq<char>)> {
    match hit_from(chars, 0, 0, col) {
        None => None,
        Some(i) => if is_ws(chars[i]) {
            None
        } else {
            let a = word_start(chars, i);
            let b = word_end(chars, i);
            Some((cells_sum(chars.subrange(0, a)), cells_sum(chars.subrange(a, b + 1)), chars.subrange(a, b + 1)))
        },
    }
}

fn sum_cells(chars: &Vec<char>, lo: usize, hi: usize) -> (n: usize)
    requires
        lo <= hi <= chars@.len(),
        3 * chars@.len() <= usize::MAX,
    ensures
        n == cells_sum(chars@.subrange(lo as int, hi as int)),
{
    let mut n: usize = 0;
    let mut k: usize = lo;
    while k < hi
        invariant
            lo <= k <= hi <= chars@.len(),
            3 * chars@.len() <= usize::MAX,
            n == cells_sum(chars@.subrange(lo as int, k as int)),
            n <= 3 * (k - lo),
        decreases hi - k,
    {
        proof {
            assert(chars@.subrange(lo as int, k + 1).drop_last() =~= chars@.subrange(lo as int, k as int));
        }
        n = n + cell_width(chars[k]);
        k += 1;
    }
    n
}

/// The whitespace-delimited word covering display column `col` of `line`:
/// `(start_col, cell_width, word)`; `None` on whitespace or past the end.
pub fn word_span(line: &str, col: usize) -> (r: Option<(usize, usize, String)>)
    requires
        3 * line@.len() <= usize::MAX,
    ensures
        match r {
            Some((a, w, t)) => word_span_spec(line@, col as int) == Some((a as int, w as int, t@)),
            None => word_span_spec(line@, col as int) is None,
        },
{
    let chars = chars_of(line);
    let n = chars.len();
    let c = col as u128;
    let mut w: u128 = 0;
    let mut i: usize = 0;
    let mut hit = false;
    while i < n && !hit
        invariant
            n == chars@.len(),
            chars@ == line@,
            i <= n,
            c == col as int,
            w <= 3 * i,
            hit ==> i < n && hit_from(chars@, 0, 0, col as int) == Some(i as int),
            !hit ==> hit_from(chars@, i as int, w as int, col as int) == hit_from(chars@, 0, 0, col as int),
        decreases n - i + (if hit { 0int } else { 1int }),
    {
        let cw = cell_width(chars[i]) as u128;
        if c < w + cw {
            hit = true;
        } else {
            w = w + cw;
            i += 1;
        }
    }
    if !hit {
        return None;
    }
    if crate::text::is_whitespace(chars[i]) {
        return None;
    }
    let mut a = i;
    while a > 0 && !crate::text::is_whitespace(chars[a - 1])
        invariant
            a <= i < n,
            n == chars@.len(),
            word_start(chars@, a as int) == word_start(chars@, i as int),
        decreases a,
    {
        a -= 1;
    }
    let mut b = i;
    while b + 1 < n && !crate::text::is_whitespace(chars[b + 1])
        invariant
            i <= b < n,
            n == chars@.len(),
            word_end(chars@, b as int) == word_end(chars@, i as int),
        decreases n - b,
    {
        b += 1;
    }
    let start_col = sum_cells(&chars, 0, a);
    let width = sum_cells(&chars, a, b + 1);
    let word = sub_string(&chars, a, b + 1);
    Some((start_col, width, word))
}

/// Every spelling `normalize_permission` accepts names one of the stock
/// permission presets.
pub proof fn law_normalized_permissions_are_stock(arg: Seq<char>)
    ensures
        normalize_spec(arg) matches Some(id) ==> exists|k: int| 0 <= k < permission_preset_table().len()
            && (#[trigger] permission_preset_table()[k]).0 == id,
{
    if let Some(id) = normalize_spec(arg) {
        let t = permission_preset_table();
        if id == "read-only"@ {
            assert(t[0].0 == id);
        } else if id == "workspace-write"@ {
            assert(t[1].0 == id);
        } else {
            assert(t[2].0 == id);
        }
    }
}

/// An element of a filtered sequence is an element of the sequence.
pub proof fn lemma_filter_member<A>(s: Seq<A>, pred: spec_fn(A) -> bool, k: int)
    requires
        0 <= k < s.filter(pred).len(),
    ensures
        s.contains(s.filter(pred)[k]),
    decreases s.len(),
{
    reveal_with_fuel(Seq::filter, 1);
    if s.len() > 0 {
        let rest = s.drop_last().filter(pred);
        if k < rest.len() {
            lemma_filter_member(s.drop_last(), pred, k);
            let j = choose|j: int| 0 <= j < s.drop_last().len() && s.drop_last()[j] == rest[k];
            assert(s[j] == s.filter(pred)[k]);
        } else {
            assert(s[s.len() - 1] == s.filter(pred)[k]);
        }
    }
}

/// What `/resume <prefix>` resolves to is a listed session whose id starts
/// with the prefix.
pub proof fn law_resume_match_is_listed(ids: Seq<Seq<char>>, prefix: Seq<char>)
    ensures
        session_match_spec(ids, prefix) matches Ok(id) ==> ids.contains(id) && starts_with(id, prefix),
{
    let m = ids.filter(has_prefix(prefix));
    if let Ok(id) = session_match_spec(ids, prefix) {
        assert(m.contains(id)) by {
            if m.len() == 1 {
                assert(m[0] == id);
            }
        }
        let k = choose|k: int| 0 <= k < m.len() && m[k] == id;
        ids.lemma_filter_pred(has_prefix(prefix), k);
        lemma_filter_member(ids, has_prefix(prefix), k);
    }
}

/// `String::from_utf8_lossy`: the text of some bytes, invalid sequences
/// replaced by U+FFFD.
pub uninterp spec fn lossy_text(bytes: Seq<u8>) -> Seq<char>;

/// `String::from_utf8_lossy(..).into_owned()`. The contract names the
/// result and states what the documentation promises plainly: valid UTF-8
/// decodes to its own characters. How invalid sequences are replaced is
/// left to the name.
#[verifier::external_body]
pub(crate) fn utf8_lossy(bytes: &[u8]) -> (r: String)
    ensures
        r@ == lossy_text(bytes@),
        vstd::utf8::valid_utf8(bytes@) ==> r@ == vstd::utf8::decode_utf8(bytes@),
{
    String::from_utf8_lossy(bytes).into_owned()
}

/// The most bytes of shell output the transcript keeps.
pub const SHELL_OUTPUT_LIMIT: usize = 16384;

/// The longest prefix of `s` whose UTF-8 encoding fits in `limit` bytes.
pub open spec fn fitting_prefix_len(s: Seq<char>, limit: int) -> int
    decreases s.len(),
{
    if s.len() == 0 || vstd::utf8::encode_utf8(s).len() <= limit {
        s.len() as int
    } else {
        fitting_prefix_len(s.drop_last(), limit)
    }
}

/// Shell output as the transcript shows it: output over the limit is cut
/// at the last character that fits and marked truncated.
pub open spec fn clipped_output(s: Seq<char>) -> Seq<char> {
    if vstd::utf8::encode_utf8(s).len() <= SHELL_OUTPUT_LIMIT {
        s
    } else {
        s.subrange(0, fitting_prefix_len(s, SHELL_OUTPUT_LIMIT as int)) + "\n… (truncated)"@
    }
}

/// The characters fitting in `limit` bytes are exactly the prefix before
/// the first character that would overflow it.
proof fn lemma_fitting_prefix(s: Seq<char>, limit: int, k: int)
    requires
        0 <= k < s.len(),
        limit >= 0,
        vstd::utf8::encode_utf8(s.subrange(0, k)).len() <= limit,
        vstd::utf8::encode_utf8(s.subrange(0, k + 1)).len() > limit,
    ensures
        fitting_prefix_len(s, limit) == k,
    decreases s.len(),
{
    if s.len() == k + 1 {
        assert(s.subrange(0, k + 1) =~= s);
        assert(s.drop_last() =~= s.subrange(0, k));
        if k > 0 {
            assert(fitting_prefix_len(s.drop_last(), limit) == k) by {
                assert(s.drop_last().subrange(0, k) =~= s.drop_last());
            }
        }
    } else {
        lemma_encode_utf8_concat(s.subrange(0, k + 1), s.subrange(k + 1, s.len() as int));
        assert(s.subrange(0, k + 1) + s.subrange(k + 1, s.len() as int) =~= s);
        assert(s.drop_last().subrange(0, k) =~= s.subrange(0, k));
        assert(s.drop_last().subrange(0, k + 1) =~= s.subrange(0, k + 1));
        lemma_fitting_prefix(s.drop_last(), limit, k);
    }
}

/// The transcript text of a local shell command's output bytes: decoded
/// lossily, and cut at the last character within 16 KiB with a
/// `… (truncated)` marker when longer.
pub fn shell_output(bytes: Vec<u8>) -> (r: String)
    ensures
        r@ == clipped_output(lossy_text(bytes@)),
{
    let output = utf8_lossy(bytes.as_slice());
    let text = output.as_str();
    let total = text.as_bytes().len();
    proof {
        assert(text.spec_bytes() == vstd::utf8::encode_utf8(text@));
    }
    if total <= SHELL_OUTPUT_LIMIT {
        return output;
    }
    let n = output.as_str().unicode_len();
    let mut k: usize = 0;
    let mut b: usize = 0;
    let mut done = false;
    proof {
        assert(output@.subrange(0, 0) =~= Seq::<char>::empty());
    }
    while k < n && !done
        invariant
            n == output@.len(),
            k <= n,
            b == vstd::utf8::encode_utf8(output@.subrange(0, k as int)).len(),
            b <= SHELL_OUTPUT_LIMIT,
            total == vstd::utf8::encode_utf8(output@).len(),
            total > SHELL_OUTPUT_LIMIT,
            done ==> k < n && vstd::utf8::encode_utf8(output@.subrange(0, k + 1)).len() > SHELL_OUTPUT_LIMIT,
        decreases n - k + (if done { 0int } else { 1int }),
    {
        let c = output.as_str().get_char(k);
        proof {
            lemma_encode_utf8_concat(output@.subrange(0, k as int), seq![c]);
            assert(output@.subrange(0, k + 1) =~= output@.subrange(0, k as int) + seq![c]);
            assert(seq![c].drop_first() =~= Seq::<char>::empty());
            reveal_with_fuel(vstd::utf8::encode_utf8, 2);
            assert(vstd::utf8::encode_utf8(seq![c]) =~= vstd::utf8::encode_scalar(c as u32));
        }
        let w = utf8_len(c);
        if b + w > SHELL_OUTPUT_LIMIT {
            done = true;
        } else {
            b = b + w;
            k += 1;
        }
    }
    proof {
        if !done {
            assert(output@.subrange(0, n as int) =~= output@);
        }
        lemma_fitting_prefix(output@, SHELL_OUTPUT_LIMIT as int, k as int);
    }
    let cs = chars_of(output.as_str());
    let mut clipped = sub_string(&cs, 0, k);
    clipped.append("\n… (truncated)");
    clipped
}


/// The app's run and session state that controller events move: the run
/// state and its note, whether a prompt awaits its first reply, how many
/// prompts wait behind the turn, the server banner, the bound session,
/// what the agent advertised, and the auth state.
pub struct AppState {
    pub demo: bool,
    pub state: RunState,
    pub prompt_pending: bool,
    pub queued: usize,
    pub state_note: String,
    pub server_info: Option<String>,
    pub session_id: String,
    pub session_bound: bool,
    pub load_session: bool,
    pub skills: Vec<crate::bus::SkillInfo>,
    pub last_models: Vec<crate::bus::CatalogModel>,
    pub last_presets: Vec<CatalogPreset>,
    pub permission_choices: Vec<CatalogPreset>,
    pub effort_choices: Vec<String>,
    pub modes: Modes,
    pub auth: crate::acp_auth::AuthSnapshot,
}

/// What applying a controller event asks of the painter and the loop.
pub enum AppEffect {
    /// Raise a transcript notice at this level.
    Info(String),
    Warn(String),
    Error(String),
    /// Cancel the transcript's open tool work.
    CancelOpenWork,
    /// Forget the cells of the queued prompts and of the pending steers.
    DropQueuedCells,
    /// The oldest queued prompt went out: mark its cells delivered.
    MarkQueuedDelivered,
    /// A steer settled; a deferred one joins the queue.
    SteerSettled { message_id: u64, deferred: bool },
    /// Refresh an open model or agent picker from the new catalog.
    RefreshCatalogPickers,
    /// Refresh an open permission picker from the new choices.
    RefreshPermissionPicker,
    /// Open the effort picker over these efforts.
    OpenEffortPicker { efforts: Vec<String>, default: Option<String> },
    /// Show the agent's dynamic plugins.
    ShowPlugins(Vec<crate::bus::DynamicPluginItem>),
    /// Close an open sign-in picker.
    CloseAuthPicker,
    /// Open the sign-in surface.
    OpenAuth,
    /// The bound session changed: drop the subagent views.
    ResetSubagents,
    /// Send this command to the controller.
    Send(crate::bus::Cmd),
    /// Hand a session list (or its failure) to the resume flow.
    SessionList { sessions: Vec<SessionListItem>, prefix: Option<String> },
    SessionListUnavailable { prefix: Option<String>, error: String },
}

/// `new` is `old` with only the run fields changed to the given values.
pub open spec fn run_moved(old: AppState, new: AppState, state: RunState, pending: bool, queued: int) -> bool {
    new == AppState { state: state, prompt_pending: pending, queued: queued as usize, state_note: new.state_note, ..old }
}

/// What the runtime's exit with `code` asks of the painter: drop the
/// queued cells, then, for a failure code, warn.
pub open spec fn exit_effects(code: Option<i32>, effects: Seq<AppEffect>) -> bool {
    &&& effects.len() >= 1
    &&& (effects[0] is DropQueuedCells)
    &&& match code {
        Some(c) if c != 0 => effects.len() == 2 && (effects[1] matches AppEffect::Warn(w)
            && w@ == "runtime exited with code "@ + crate::elicitation::int_text(c as i64) + " — next prompt restarts it"@),
        _ => effects.len() == 1,
    }
}

impl AppState {
    /// Applies one controller event (see the clauses for each).
    pub fn on_ctl(&mut self, ev: crate::bus::CtlEvent) -> (effects: Vec<AppEffect>)
        ensures
            match ev {
                crate::bus::CtlEvent::Starting { .. } => run_moved(*old(self), *final(self), RunState::Starting,
                    old(self).prompt_pending, old(self).queued as int)
                    && final(self).state_note@ == "starting runtime"@ && effects@.len() == 0,
                crate::bus::CtlEvent::Ready { server } => {
                    &&& *final(self) == AppState {
                        server_info: Some(server),
                        state: if old(self).prompt_pending { old(self).state } else { RunState::Idle },
                        state_note: final(self).state_note,
                        ..*old(self)
                    }
                    &&& final(self).state_note@ == (if old(self).prompt_pending { old(self).state_note@ } else { Seq::empty() })
                    &&& effects@.len() == 0
                },
                crate::bus::CtlEvent::PromptQueued { .. } => {
                    let started = !old(self).prompt_pending && old(self).queued > 0;
                    &&& run_moved(*old(self), *final(self),
                        if old(self).state == RunState::Starting { RunState::Running } else { old(self).state },
                        false, if started { old(self).queued - 1 } else { old(self).queued as int })
                    &&& final(self).state_note@ == Seq::<char>::empty()
                    &&& effects@.len() == (if started { 1int } else { 0int })
                    &&& started ==> effects@[0] is MarkQueuedDelivered
                },
                crate::bus::CtlEvent::SteerSettled { message_id, deferred } => *final(self) == *old(self) && effects@.len() == 1
                    && (effects@[0] matches AppEffect::SteerSettled { message_id: m, deferred: d } && m == message_id && d == deferred),
                crate::bus::CtlEvent::Error(err) => run_moved(*old(self), *final(self), RunState::Idle, false, old(self).queued as int)
                    && final(self).state_note == old(self).state_note
                    && effects@.len() == 1 && (effects@[0] matches AppEffect::Error(e) && e == err),
                crate::bus::CtlEvent::CancelRequested => run_moved(*old(self), *final(self), old(self).state,
                    old(self).prompt_pending, old(self).queued as int)
                    && final(self).state_note@ == "cancelling"@ && effects@.len() == 1 && effects@[0] is CancelOpenWork,
                crate::bus::CtlEvent::Interrupted => run_moved(*old(self), *final(self), RunState::Idle, false, old(self).queued as int)
                    && final(self).state_note@ == Seq::<char>::empty() && effects@.len() == 2 && effects@[0] is CancelOpenWork
                    && (effects@[1] matches AppEffect::Warn(w) && w@ == "interrupted — turn cancelled"@),
                crate::bus::CtlEvent::Catalog { models, presets } => {
                    &&& *final(self) == AppState {
                        last_models: if models@.len() > 0 { models } else { old(self).last_models },
                        last_presets: if presets@.len() > 0 { presets } else { old(self).last_presets },
                        ..*old(self)
                    }
                    &&& effects@.len() == 1 && effects@[0] is RefreshCatalogPickers
                },
                crate::bus::CtlEvent::Skills { skills } => *final(self) == AppState { skills: skills, ..*old(self) } && effects@.len() == 0,
                crate::bus::CtlEvent::Plugins { plugins } => *final(self) == *old(self) && effects@.len() == 1
                    && (effects@[0] matches AppEffect::ShowPlugins(p) && p == plugins),
                crate::bus::CtlEvent::SessionModes { modes, current } => {
                    &&& *final(self) == AppState {
                        permission_choices: if modes@.len() > 0 { modes } else { old(self).permission_choices },
                        modes: Modes { permission: if current is Some { current } else { old(self).modes.permission }, ..old(self).modes },
                        ..*old(self)
                    }
                    &&& effects@.len() == 1 && effects@[0] is RefreshPermissionPicker
                },
                crate::bus::CtlEvent::Efforts { efforts, default } => {
                    &&& final(self).effort_choices@.map_values(|e: String| e@)
                        == (if efforts@.len() > 0 { efforts@ } else { old(self).effort_choices@ }).map_values(|e: String| e@)
                    &&& *final(self) == AppState { effort_choices: final(self).effort_choices, ..*old(self) }
                    &&& effects@.len() == 1
                    &&& effects@[0] matches AppEffect::OpenEffortPicker { efforts: e, default: d } && e == efforts && d == default
                },
                crate::bus::CtlEvent::PresetSet { preset } => {
                    &&& *final(self) == AppState { modes: Modes { agent_preset: Some(preset), ..old(self).modes }, ..*old(self) }
                    &&& effects@.len() == 1
                    &&& effects@[0] matches AppEffect::Info(t) && t@ == "⚙ agent → "@
                        + agent_label_spec(preset@, old(self).last_presets@, old(self).demo) + " · composes on this session's first prompt"@
                },
                crate::bus::CtlEvent::TuiOpDone(d) => *final(self) == *old(self) && effects@.len() == 1
                    && (effects@[0] matches AppEffect::Info(t) && t == d),
                crate::bus::CtlEvent::TuiOpFailed(d) => *final(self) == *old(self) && effects@.len() == 1
                    && (effects@[0] matches AppEffect::Warn(t) && t == d),
                crate::bus::CtlEvent::Auth(snap) => {
                    let needs = snap.status == crate::acp_auth::AuthStatus::NeedsAuth;
                    let retrying = old(self).state == RunState::Running || old(self).prompt_pending;
                    &&& needs ==> run_moved(AppState { auth: snap, ..*old(self) }, *final(self), RunState::Idle, retrying, old(self).queued as int)
                        && final(self).state_note@ == Seq::<char>::empty()
                    &&& !needs ==> *final(self) == AppState { auth: snap, ..*old(self) }
                    &&& effects@.len() == (if snap.status == crate::acp_auth::AuthStatus::Unknown || needs { 1int } else { 0int })
                        + (if snap.status == crate::acp_auth::AuthStatus::Configured { 1int } else { 0int })
                    &&& (snap.status == crate::acp_auth::AuthStatus::Unknown || needs) ==> (effects@[0] matches AppEffect::Warn(w)
                        && w@ == crate::acp_auth::auth_notice_text(snap))
                    &&& snap.status == crate::acp_auth::AuthStatus::Configured ==> effects@[0] is CloseAuthPicker
                },
                crate::bus::CtlEvent::OpenAuth => *final(self) == *old(self) && effects@.len() == 1 && effects@[0] is OpenAuth,
                crate::bus::CtlEvent::AgentCaps { load_session } => *final(self) == AppState { load_session: load_session, ..*old(self) }
                    && effects@.len() == 0,
                crate::bus::CtlEvent::SessionBound { session_id, notice } => {
                    let changed = old(self).session_id@ != session_id@;
                    &&& *final(self) == AppState { session_id: session_id, session_bound: true, ..*old(self) }
                    &&& effects@.len() == (if changed { 1int } else { 0int }) + (if notice is Some { 1int } else { 0int }) + 1
                    &&& changed ==> effects@[0] is ResetSubagents
                    &&& notice matches Some(n) ==> (effects@[effects@.len() - 2] matches AppEffect::Info(t) && t == n)
                    &&& effects@.last() matches AppEffect::Send(c) && c is FetchSkills
                },
                crate::bus::CtlEvent::SessionList { sessions, prefix } => *final(self) == *old(self) && effects@.len() == 1
                    && (effects@[0] matches AppEffect::SessionList { sessions: s, prefix: p } && s == sessions && p == prefix),
                crate::bus::CtlEvent::SessionListUnavailable { prefix, error } => *final(self) == *old(self) && effects@.len() == 1
                    && (effects@[0] matches AppEffect::SessionListUnavailable { prefix: p, error: e } && p == prefix && e == error),
            },
    {
        let mut effects: Vec<AppEffect> = Vec::new();
        match ev {
            crate::bus::CtlEvent::Starting { .. } => {
                self.state = RunState::Starting;
                self.state_note = "starting runtime".to_string();
            },
            crate::bus::CtlEvent::Ready { server } => {
                self.server_info = Some(server);
                if !self.prompt_pending {
                    self.state = RunState::Idle;
                    self.state_note = String::new();
                }
            },
            crate::bus::CtlEvent::PromptQueued { .. } => {
                let started = !self.prompt_pending && self.queued > 0;
                self.prompt_pending = false;
                if self.state == RunState::Starting {
                    self.state = RunState::Running;
                }
                self.state_note = String::new();
                if started {
                    self.queued = self.queued - 1;
                    effects.push(AppEffect::MarkQueuedDelivered);
                }
            },
            crate::bus::CtlEvent::SteerSettled { message_id, deferred } => {
                effects.push(AppEffect::SteerSettled { message_id, deferred });
            },
            crate::bus::CtlEvent::Error(err) => {
                self.prompt_pending = false;
                self.state = RunState::Idle;
                effects.push(AppEffect::Error(err));
            },
            crate::bus::CtlEvent::CancelRequested => {
                self.state_note = "cancelling".to_string();
                effects.push(AppEffect::CancelOpenWork);
            },
            crate::bus::CtlEvent::Interrupted => {
                self.prompt_pending = false;
                self.state = RunState::Idle;
                self.state_note = String::new();
                effects.push(AppEffect::CancelOpenWork);
                effects.push(AppEffect::Warn("interrupted — turn cancelled".to_string()));
            },
            crate::bus::CtlEvent::Catalog { models, presets } => {
                if presets.len() > 0 {
                    self.last_presets = presets;
                }
                if models.len() > 0 {
                    self.last_models = models;
                }
                effects.push(AppEffect::RefreshCatalogPickers);
            },
            crate::bus::CtlEvent::Skills { skills } => {
                self.skills = skills;
            },
            crate::bus::CtlEvent::Plugins { plugins } => {
                effects.push(AppEffect::ShowPlugins(plugins));
            },
            crate::bus::CtlEvent::SessionModes { modes, current } => {
                if modes.len() > 0 {
                    self.permission_choices = modes;
                }
                if current.is_some() {
                    self.modes.permission = current;
                }
                effects.push(AppEffect::RefreshPermissionPicker);
            },
            crate::bus::CtlEvent::Efforts { efforts, default } => {
                if efforts.len() > 0 {
                    self.effort_choices = copy_strings(&efforts);
                }
                effects.push(AppEffect::OpenEffortPicker { efforts, default });
            },
            crate::bus::CtlEvent::PresetSet { preset } => {
                let label = agent_label(preset.as_str(), &self.last_presets, self.demo);
                let mut t = "⚙ agent → ".to_string();
                t.append(label.as_str());
                t.append(" · composes on this session's first prompt");
                self.modes.agent_preset = Some(preset);
                effects.push(AppEffect::Info(t));
            },
            crate::bus::CtlEvent::TuiOpDone(d) => {
                effects.push(AppEffect::Info(d));
            },
            crate::bus::CtlEvent::TuiOpFailed(d) => {
                effects.push(AppEffect::Warn(d));
            },
            crate::bus::CtlEvent::Auth(snap) => {
                let retrying = self.state == RunState::Running || self.prompt_pending;
                match snap.notice() {
                    Some((_, text)) => effects.push(AppEffect::Warn(text)),
                    None => {},
                }
                if snap.status == crate::acp_auth::AuthStatus::Configured {
                    effects.push(AppEffect::CloseAuthPicker);
                }
                if snap.status == crate::acp_auth::AuthStatus::NeedsAuth {
                    self.prompt_pending = retrying;
                    self.state = RunState::Idle;
                    self.state_note = String::new();
                }
                self.auth = snap;
            },
            crate::bus::CtlEvent::OpenAuth => {
                effects.push(AppEffect::OpenAuth);
            },
            crate::bus::CtlEvent::AgentCaps { load_session } => {
                self.load_session = load_session;
            },
            crate::bus::CtlEvent::SessionBound { session_id, notice } => {
                if !str_eq(self.session_id.as_str(), session_id.as_str()) {
                    effects.push(AppEffect::ResetSubagents);
                }
                self.session_id = session_id;
                self.session_bound = true;
                match notice {
                    Some(n) => effects.push(AppEffect::Info(n)),
                    None => {},
                }
                effects.push(AppEffect::Send(crate::bus::Cmd::FetchSkills));
            },
            crate::bus::CtlEvent::SessionList { sessions, prefix } => {
                effects.push(AppEffect::SessionList { sessions, prefix });
            },
            crate::bus::CtlEvent::SessionListUnavailable { prefix, error } => {
                effects.push(AppEffect::SessionListUnavailable { prefix, error });
            },
        }
        effects
    }

    /// The agent runtime exited with `code`: nothing is pending or queued
    /// any more and the run is idle; a failure code is warned about.
    pub fn on_runtime_exited(&mut self, code: Option<i32>) -> (effects: Vec<AppEffect>)
        ensures
            *final(self) == (AppState { state: RunState::Idle, prompt_pending: false, queued: 0, ..*old(self) }),
            exit_effects(code, effects@),
    {
        self.prompt_pending = false;
        self.queued = 0;
        self.state = RunState::Idle;
        let mut effects: Vec<AppEffect> = Vec::new();
        effects.push(AppEffect::DropQueuedCells);
        match code {
            Some(c) => if c != 0 {
                let mut w = String::from_str("runtime exited with code ");
                w.append(crate::elicitation::int_string(c as i64).as_str());
                w.append(" — next prompt restarts it");
                effects.push(AppEffect::Warn(w));
            },
            None => {},
        }
        effects
    }
}

/// A copy of a list of strings.
fn copy_strings(v: &Vec<String>) -> (r: Vec<String>)
    ensures
        r@.map_values(|e: String| e@) == v@.map_values(|e: String| e@),
{
    let mut out: Vec<String> = Vec::new();
    let mut i: usize = 0;
    while i < v.len()
        invariant
            i <= v@.len(),
            out@.map_values(|e: String| e@) == v@.subrange(0, i as int).map_values(|e: String| e@),
        decreases v@.len() - i,
    {
        let ghost before = out@.map_values(|e: String| e@);
        out.push(v[i].clone());
        proof {
            assert(out@.map_values(|e: String| e@) =~= before.push(v@[i as int]@));
            assert(v@.subrange(0, i + 1).map_values(|e: String| e@) =~= v@.subrange(0, i as int).map_values(|e: String| e@).push(v@[i as int]@));
        }
        i += 1;
    }
    assert(v@.subrange(0, v@.len() as int) =~= v@);
    out
}


/// What the app knows when a picker row is chosen.
pub struct PickerContext {
    pub session_id: String,
    pub model: String,
    pub provider: String,
    pub resume_via_acp: bool,
    pub subagent_ids: Vec<String>,
    pub cordis_plugins: Vec<crate::bus::CordisPluginItem>,
}

/// What choosing a picker row does.
pub enum PickerChoice {
    /// A model row: switch to it where it differs from the model (or
    /// provider) in use (`switch` is the command that does), then offer the
    /// efforts of the model now in use (`fetch`); `model` and `provider` are
    /// the model and provider now in use.
    Model { switch: Option<crate::bus::Cmd>, fetch: crate::bus::Cmd, model: String, provider: String },
    /// Pick this agent preset.
    Mode(String),
    /// Pick this theme palette.
    Palette(String),
    /// Tell the agent this UI Plugin was picked.
    UiPlugin(String),
    /// Apply this permission preset.
    Permission(String),
    /// Load this session over ACP.
    LoadSession(String),
    /// Replay this session's local transcript.
    ResumeLocal(String),
    /// View this subagent, or the main session (`None`).
    ViewAgent(Option<String>),
    /// Ask for this reasoning effort, record it, and note it.
    Effort { effort: String, cmd: crate::bus::Cmd, notice: String },
    /// Start signing in with this method.
    Auth(String),
    /// Review the approval request of a Cordis plugin.
    ReviewApproval(String),
    /// Stop or restore a Cordis plugin, with the tip.
    SetPlugin { cmd: crate::bus::Cmd, tip: String },
    /// Show this tip.
    Tip(String),
    /// Answer a Cordis plugin approval request with this decision.
    Decide { request_id: String, decision: String },
    /// Nothing to do.
    Nothing,
}

/// What choosing row `item` of a picker of `kind` does (see
/// `picker_choice`).
pub open spec fn picker_choice_spec(kind: PickerKind, item: PickerItem, ctx: PickerContext, r: PickerChoice) -> bool {
    match kind {
        PickerKind::Model => {
            let switch = item.id@ != ctx.model@ || (item.provider matches Some(p) && p@ != ctx.provider@);
            let provider = if switch && item.provider is Some { item.provider.unwrap()@ } else { ctx.provider@ };
            let model = if switch { item.id@ } else { ctx.model@ };
            r matches PickerChoice::Model { switch: sw, fetch, model: m, provider: p }
                && m@ == model && p@ == provider
                && (fetch matches crate::bus::Cmd::FetchEfforts { provider: fp, model: fm } && fp@ == provider && fm@ == model)
                && (if switch {
                    sw matches Some(crate::bus::Cmd::SelectModel { session_id, provider: sp, model: sm, effort })
                        && session_id@ == ctx.session_id@ && crate::text::opt_view(sp) == crate::text::opt_view(item.provider)
                        && crate::text::opt_view(sm) == Some(item.id@) && effort is None
                } else {
                    sw is None
                })
        },
        PickerKind::Mode => r matches PickerChoice::Mode(x) && x@ == item.id@,
        PickerKind::Theme => r matches PickerChoice::Palette(x) && x@ == item.id@,
        PickerKind::UiPlugin => r matches PickerChoice::UiPlugin(x) && x@ == item.id@,
        PickerKind::Permission => r matches PickerChoice::Permission(x) && x@ == item.id@,
        PickerKind::Session => if ctx.resume_via_acp {
            r matches PickerChoice::LoadSession(x) && x@ == item.id@
        } else {
            r matches PickerChoice::ResumeLocal(x) && x@ == item.id@
        },
        PickerKind::Subagent => r matches PickerChoice::ViewAgent(v) && (
            if item.id@ != ctx.session_id@ && ctx.subagent_ids@.map_values(|s: String| s@).contains(item.id@) {
                v matches Some(x) && x@ == item.id@
            } else {
                v is None
            }),
        PickerKind::Effort => r matches PickerChoice::Effort { effort, cmd, notice } && effort@ == item.id@
            && (cmd matches crate::bus::Cmd::SelectModel { session_id, provider, model, effort: e }
                && session_id@ == ctx.session_id@ && provider is None && model is None && crate::text::opt_view(e) == Some(item.id@))
            && notice@ == "reasoning effort → "@ + item.id@,
        PickerKind::Auth => r matches PickerChoice::Auth(x) && x@ == item.id@,
        PickerKind::StaticPlugin => r is Nothing,
        PickerKind::CordisPlugin => match cordis_plugin_named(ctx.cordis_plugins@, item.id@) {
            None => r is Nothing,
            Some(p) => match p.approval_request_id {
                Some(req) => r matches PickerChoice::ReviewApproval(x) && x@ == req@,
                None => if p.status@ == "starting-host"@ || p.status@ == "client-pending"@ {
                    r matches PickerChoice::Tip(t) && t@ == "plugin "@ + p.id@ + " is already starting"@
                } else {
                    let enabled = !(p.status@ == "running"@ || p.status@ == "waiting"@);
                    r matches PickerChoice::SetPlugin { cmd, tip }
                        && (cmd matches crate::bus::Cmd::SetPluginEnabled { agent_id, plugin_id, enabled: en }
                            && agent_id@ == ctx.session_id@ && plugin_id@ == p.id@ && en == enabled)
                        && tip@ == (if enabled { "restoring plugin "@ } else { "stopping plugin "@ }) + p.id@ + "…"@
                },
            },
        },
        PickerKind::CordisApproval => match item.provider {
            Some(req) => r matches PickerChoice::Decide { request_id, decision } && request_id@ == req@ && decision@ == item.id@,
            None => r is Nothing,
        },
    }
}

/// `a`, then `b`, then `c`.
fn cat_three(a: &str, b: &str, c: &str) -> (r: String)
    ensures
        r@ == a@ + b@ + c@,
{
    let mut s = a.to_string();
    s.append(b);
    s.append(c);
    s
}

/// Whether `x` is one of `ids`.
fn id_listed(ids: &Vec<String>, x: &str) -> (b: bool)
    ensures
        b == ids@.map_values(|s: String| s@).contains(x@),
{
    let ghost v = ids@.map_values(|s: String| s@);
    let mut i: usize = 0;
    while i < ids.len()
        invariant
            i <= ids@.len(),
            v == ids@.map_values(|s: String| s@),
            forall|j: int| 0 <= j < i ==> ids@[j]@ != x@,
        decreases ids@.len() - i,
    {
        if str_eq(ids[i].as_str(), x) {
            assert(v[i as int] == x@);
            return true;
        }
        i += 1;
    }
    proof {
        if v.contains(x@) {
            let j = choose|j: int| 0 <= j < v.len() && v[j] == x@;
            assert(ids@[j]@ == x@);
        }
    }
    false
}

/// What choosing row `item` of a picker of `kind` does: a model row
/// switches the model where it differs and then offers its efforts; an
/// agent, theme, UI Plugin, permission or sign-in row picks its id; a
/// session row loads the session over ACP or replays it locally; a
/// subagent row views that subagent (the main session where it is the main
/// session or no known subagent); an effort row asks for the effort and
/// notes it; a Cordis plugin row reviews its approval request, reports it
/// already starting, or stops or restores it; an approval row answers its
/// request.
pub fn picker_choice(kind: PickerKind, item: PickerItem, ctx: &PickerContext) -> (r: PickerChoice)
    ensures
        picker_choice_spec(kind, item, *ctx, r),
{
    proof {
        reveal_strlit("reasoning effort → ");
        reveal_strlit("plugin ");
        reveal_strlit(" is already starting");
        reveal_strlit("restoring plugin ");
        reveal_strlit("stopping plugin ");
        reveal_strlit("…");
    }
    match kind {
        PickerKind::Model => {
            let changed_provider = match &item.provider {
                Some(p) => !str_eq(p.as_str(), ctx.provider.as_str()),
                None => false,
            };
            let switch = !str_eq(item.id.as_str(), ctx.model.as_str()) || changed_provider;
            if switch {
                let provider = match &item.provider {
                    Some(p) => p.clone(),
                    None => ctx.provider.clone(),
                };
                let sel = crate::bus::Cmd::SelectModel {
                    session_id: ctx.session_id.clone(),
                    provider: crate::text::clone_opt(&item.provider),
                    model: Some(item.id.clone()),
                    effort: None,
                };
                let fetch = crate::bus::Cmd::FetchEfforts { provider: provider.clone(), model: item.id.clone() };
                PickerChoice::Model { switch: Some(sel), fetch, model: item.id, provider }
            } else {
                let fetch = crate::bus::Cmd::FetchEfforts { provider: ctx.provider.clone(), model: ctx.model.clone() };
                PickerChoice::Model { switch: None, fetch, model: ctx.model.clone(), provider: ctx.provider.clone() }
            }
        },
        PickerKind::Mode => PickerChoice::Mode(item.id),
        PickerKind::Theme => PickerChoice::Palette(item.id),
        PickerKind::UiPlugin => PickerChoice::UiPlugin(item.id),
        PickerKind::Permission => PickerChoice::Permission(item.id),
        PickerKind::Session => {
            if ctx.resume_via_acp { PickerChoice::LoadSession(item.id) } else { PickerChoice::ResumeLocal(item.id) }
        },
        PickerKind::Subagent => {
            if !str_eq(item.id.as_str(), ctx.session_id.as_str()) && id_listed(&ctx.subagent_ids, item.id.as_str()) {
                PickerChoice::ViewAgent(Some(item.id))
            } else {
                PickerChoice::ViewAgent(None)
            }
        },
        PickerKind::Effort => {
            let cmd = crate::bus::Cmd::SelectModel {
                session_id: ctx.session_id.clone(),
                provider: None,
                model: None,
                effort: Some(item.id.clone()),
            };
            let mut notice = "reasoning effort → ".to_string();
            notice.append(item.id.as_str());
            PickerChoice::Effort { effort: item.id, cmd, notice }
        },
        PickerKind::Auth => PickerChoice::Auth(item.id),
        PickerKind::StaticPlugin => PickerChoice::Nothing,
        PickerKind::CordisPlugin => {
            match cordis_plugin_action(&ctx.cordis_plugins, item.id.as_str()) {
                CordisPluginAction::Approve(req) => PickerChoice::ReviewApproval(req),
                CordisPluginAction::AlreadyStarting(id) => PickerChoice::Tip(cat_three("plugin ", id.as_str(), " is already starting")),
                CordisPluginAction::SetEnabled { plugin_id, enabled } => {
                    let tip = if enabled {
                        cat_three("restoring plugin ", plugin_id.as_str(), "…")
                    } else {
                        cat_three("stopping plugin ", plugin_id.as_str(), "…")
                    };
                    let cmd = crate::bus::Cmd::SetPluginEnabled { agent_id: ctx.session_id.clone(), plugin_id, enabled };
                    PickerChoice::SetPlugin { cmd, tip }
                },
                CordisPluginAction::Unknown => PickerChoice::Nothing,
            }
        },
        PickerKind::CordisApproval => match item.provider {
            Some(req) => PickerChoice::Decide { request_id: req, decision: item.id },
            None => PickerChoice::Nothing,
        },
    }
}

} // verus!
