//! The composer's `/` menu: which builtin commands, Client Plugin commands
//! and host skills a typed prefix offers, and which argument candidates a
//! typed `/name arg` offers.

use vstd::prelude::*;
use vstd::string::*;
use crate::acp::strings_view;
use crate::acp_auth::AuthMethodInfo;
use crate::editor::Input;
use crate::app::{
    agent_mode_table, agent_modes, model_preset_ids, model_presets, permission_preset_table,
    permission_presets, slash_commands, slash_table, slash_view, triple_view, PlanCommand, SlashCommand, SlashEntry,
};
use crate::bus::{CatalogModel, CatalogPreset, SkillInfo};
use crate::input::keys::first_index_of;
use crate::json::{as_str, get, json_parsed, parse_json, Json};
use crate::locale::{command_desc_zh, Locale};
use crate::text::{chars_eq, chars_of, is_whitespace, is_ws, lower_seq, lowered, starts_with, starts_with_str, str_eq, string_of};

verus! {

/// One argument a Client Plugin command offers.
pub struct PluginCommandOption {
    pub value: String,
    pub label: Option<String>,
    pub description: Option<String>,
}

/// The argument a Client Plugin command takes: a hint and its candidates.
pub struct PluginCommandInput {
    pub hint: String,
    pub options: Vec<PluginCommandOption>,
}

/// A Client Plugin command; it lives as long as its owning plugin.
pub struct PluginCommand {
    pub name: String,
    pub description: String,
    pub input: Option<PluginCommandInput>,
}

/// A theme palette the `/theme` argument menu offers.
pub struct PaletteChoice {
    pub id: String,
    pub label: String,
    /// The palette's plugin is running.
    pub loaded: bool,
}

/// A UI plugin the `/ui` argument menu offers.
pub struct UiPluginChoice {
    pub id: String,
    pub label: String,
    pub source: String,
    pub status: String,
}

/// What the `/` menu reads of the app: the interface language, the Client
/// Plugin commands and host skills, the last advertised catalogs, the
/// configured model, the host's model list, palettes, UI plugins and the
/// agent's sign-in methods.
pub struct SlashContext {
    pub locale: Locale,
    pub plugin_commands: Vec<PluginCommand>,
    pub skills: Vec<SkillInfo>,
    pub last_models: Vec<CatalogModel>,
    /// The host-provided model ids, when the host provides a non-empty list.
    pub host_models: Option<Vec<String>>,
    /// The configured model.
    pub model: String,
    pub last_presets: Vec<CatalogPreset>,
    pub effort_choices: Vec<String>,
    pub permission_choices: Vec<CatalogPreset>,
    pub palettes: Vec<PaletteChoice>,
    pub ui_plugins: Vec<UiPluginChoice>,
    pub auth_methods: Vec<AuthMethodInfo>,
}

/// A menu entry as character sequences.
pub struct SlashEntryView {
    pub name: Seq<char>,
    pub usage: Seq<char>,
    pub desc: Seq<char>,
    pub skill: bool,
    pub plugin: bool,
    pub completion: Option<Seq<char>>,
}

/// The view of a menu entry.
pub open spec fn entry_view(e: SlashEntry) -> SlashEntryView {
    SlashEntryView {
        name: e.name@,
        usage: e.usage@,
        desc: e.desc@,
        skill: e.skill,
        plugin: e.plugin,
        completion: crate::text::opt_view(e.completion),
    }
}

/// The views of menu entries.
pub open spec fn entries_view(v: Seq<SlashEntry>) -> Seq<SlashEntryView> {
    v.map_values(|e: SlashEntry| entry_view(e))
}

/// The views of (value, label, description) rows.
pub open spec fn rows_view(v: Seq<(String, String, String)>) -> Seq<(Seq<char>, Seq<char>, Seq<char>)> {
    v.map_values(|t: (String, String, String)| (t.0@, t.1@, t.2@))
}

/// The description a builtin command shows in `locale`.
pub open spec fn command_desc_spec(locale: Locale, name: Seq<char>, fallback: Seq<char>) -> Seq<char> {
    if locale == Locale::En {
        fallback
    } else {
        match command_desc_zh(name) {
            Some(d) => d,
            None => fallback,
        }
    }
}

/// Whether `name` is a builtin command.
pub open spec fn is_builtin_name(name: Seq<char>) -> bool {
    exists|i: int| 0 <= i < slash_table().len() && (#[trigger] slash_table()[i]).0 == name
}

/// Whether a Client Plugin command named `name` is live.
pub open spec fn plugin_active_spec(cmds: Seq<PluginCommand>, name: Seq<char>) -> bool {
    exists|i: int| 0 <= i < cmds.len() && (#[trigger] cmds[i]).name@ == name
}

/// The first Client Plugin command named `name`.
pub open spec fn plugin_named(cmds: Seq<PluginCommand>, name: Seq<char>) -> Option<PluginCommand>
    decreases cmds.len(),
{
    if cmds.len() == 0 {
        None
    } else if cmds[0].name@ == name {
        Some(cmds[0])
    } else {
        plugin_named(cmds.drop_first(), name)
    }
}

/// The builtin rows whose name starts with `prefix`.
pub open spec fn builtin_rows(t: Seq<(Seq<char>, Seq<char>, Seq<char>)>, locale: Locale, prefix: Seq<char>) -> Seq<SlashEntryView>
    decreases t.len(),
{
    if t.len() == 0 {
        Seq::empty()
    } else {
        let rest = builtin_rows(t.drop_last(), locale, prefix);
        let c = t.last();
        if starts_with(c.0, prefix) {
            rest.push(SlashEntryView {
                name: c.0,
                usage: c.1,
                desc: command_desc_spec(locale, c.0, c.2),
                skill: false,
                plugin: false,
                completion: None,
            })
        } else {
            rest
        }
    }
}

/// The usage line of a Client Plugin command.
pub open spec fn plugin_usage(c: PluginCommand) -> Seq<char> {
    match c.input {
        Some(input) => "/"@ + c.name@ + " ["@ + input.hint@ + "]"@,
        None => "/"@ + c.name@,
    }
}

/// The live Client Plugin commands whose name starts with `prefix` and
/// that no builtin shadows.
pub open spec fn plugin_rows(cmds: Seq<PluginCommand>, prefix: Seq<char>) -> Seq<SlashEntryView>
    decreases cmds.len(),
{
    if cmds.len() == 0 {
        Seq::empty()
    } else {
        let rest = plugin_rows(cmds.drop_last(), prefix);
        let c = cmds.last();
        if starts_with(c.name@, prefix) && !is_builtin_name(c.name@) {
            rest.push(SlashEntryView {
                name: c.name@,
                usage: plugin_usage(c),
                desc: c.description@,
                skill: false,
                plugin: true,
                completion: None,
            })
        } else {
            rest
        }
    }
}

/// The host skills whose name starts with `prefix`, minus `logout` (any
/// ASCII case) and names that a builtin or a live Client Plugin command
/// already takes.
pub open spec fn skill_rows(skills: Seq<SkillInfo>, cmds: Seq<PluginCommand>, prefix: Seq<char>) -> Seq<SlashEntryView>
    decreases skills.len(),
{
    if skills.len() == 0 {
        Seq::empty()
    } else {
        let rest = skill_rows(skills.drop_last(), cmds, prefix);
        let s = skills.last();
        if lower_seq(s.name@) != "logout"@ && starts_with(s.name@, prefix) && !is_builtin_name(s.name@)
            && !plugin_active_spec(cmds, s.name@) {
            rest.push(SlashEntryView {
                name: s.name@,
                usage: "/"@ + s.name@,
                desc: s.description@,
                skill: !s.client_command,
                plugin: s.client_command,
                completion: None,
            })
        } else {
            rest
        }
    }
}

/// The entries named exactly `prefix` first, then the others, each group
/// in its original order (a stable sort on `name != prefix`).
pub open spec fn exact_first(v: Seq<SlashEntryView>, prefix: Seq<char>) -> Seq<SlashEntryView> {
    v.filter(|e: SlashEntryView| e.name == prefix) + v.filter(|e: SlashEntryView| e.name != prefix)
}

/// The model ids the `/model` argument menu offers without a catalog: the
/// host's list or the presets, with the configured model first when it is
/// missing from them.
pub open spec fn model_ids_spec(ctx: SlashContext) -> Seq<Seq<char>> {
    let ids = match ctx.host_models {
        Some(h) => strings_view(h@),
        None => model_preset_ids(),
    };
    if ids.contains(ctx.model@) { ids } else { seq![ctx.model@] + ids }
}

/// (value, value, description) rows.
pub open spec fn plain(v: Seq<char>, d: Seq<char>) -> (Seq<char>, Seq<char>, Seq<char>) {
    (v, v, d)
}

/// The status a palette shows in the `/theme` argument menu.
pub open spec fn palette_status(loaded: bool) -> Seq<char> {
    if loaded { "theme plugin"@ } else { "theme plugin · stopped"@ }
}

/// The argument candidates (value, label, description) of builtin command
/// `name`: the last advertised catalogs where there are any, the stock
/// tables otherwise, the fixed choices of the toggles, and none for
/// commands without arguments.
pub open spec fn builtin_options_spec(ctx: SlashContext, name: Seq<char>) -> Seq<(Seq<char>, Seq<char>, Seq<char>)> {
    if name == "model"@ {
        if ctx.last_models@.len() > 0 {
            ctx.last_models@.map_values(|m: CatalogModel| (m.id@, m.name@, m.provider@))
        } else {
            model_ids_spec(ctx).map_values(|id: Seq<char>| (id, id, Seq::<char>::empty()))
        }
    } else if name == "agent"@ {
        if ctx.last_presets@.len() > 0 {
            ctx.last_presets@.map_values(|p: CatalogPreset| (p.id@, p.name@, p.description@))
        } else {
            agent_mode_table()
        }
    } else if name == "effort"@ {
        if ctx.effort_choices@.len() > 0 {
            ctx.effort_choices@.map_values(|e: String| (e@, e@, Seq::<char>::empty()))
        } else {
            seq![
                plain("off"@, "disable extended reasoning"@),
                plain("high"@, "high reasoning effort"@),
                plain("max"@, "maximum reasoning effort"@),
            ]
        }
    } else if name == "permission"@ {
        if ctx.permission_choices@.len() > 0 {
            ctx.permission_choices@.map_values(|p: CatalogPreset| (p.id@, p.name@, p.description@))
        } else {
            permission_preset_table().map_values(|t: (Seq<char>, Seq<char>)| plain(t.0, t.1))
        }
    } else if name == "plan"@ {
        seq![plain("on"@, "enable plan mode"@), plain("off"@, "disable plan mode"@)]
    } else if name == "theme"@ {
        ctx.palettes@.map_values(|p: PaletteChoice| (p.id@, p.label@, palette_status(p.loaded)))
    } else if name == "ui"@ {
        ctx.ui_plugins@.map_values(|u: UiPluginChoice| (u.id@, u.label@, u.source@ + " · "@ + u.status@))
    } else if name == "auth"@ {
        ctx.auth_methods@.map_values(|m: AuthMethodInfo| (
            m.id@,
            match m.name { Some(n) => n@, None => m.id@ },
            match m.description { Some(d) => d@, None => Seq::<char>::empty() },
        ))
    } else if name == "lang"@ {
        seq![plain("zh"@, "中文"@), plain("en"@, "English"@)]
    } else if name == "liang"@ {
        seq![plain("on"@, "show pet"@), plain("off"@, "hide pet"@)]
    } else {
        Seq::empty()
    }
}

/// The builtin argument rows whose value starts with `prefix`, as entries
/// that complete to `/name value`.
pub open spec fn option_entries(rows: Seq<(Seq<char>, Seq<char>, Seq<char>)>, name: Seq<char>, prefix: Seq<char>) -> Seq<SlashEntryView>
    decreases rows.len(),
{
    if rows.len() == 0 {
        Seq::empty()
    } else {
        let rest = option_entries(rows.drop_last(), name, prefix);
        let r = rows.last();
        if starts_with(r.0, prefix) {
            rest.push(SlashEntryView {
                name,
                usage: r.1,
                desc: r.2,
                skill: false,
                plugin: false,
                completion: Some("/"@ + name + " "@ + r.0),
            })
        } else {
            rest
        }
    }
}

/// The Client Plugin command's candidates whose value starts with
/// `prefix`, as entries that complete to `/name value`.
pub open spec fn plugin_option_entries(opts: Seq<PluginCommandOption>, name: Seq<char>, prefix: Seq<char>) -> Seq<SlashEntryView>
    decreases opts.len(),
{
    if opts.len() == 0 {
        Seq::empty()
    } else {
        let rest = plugin_option_entries(opts.drop_last(), name, prefix);
        let o = opts.last();
        if starts_with(o.value@, prefix) {
            rest.push(SlashEntryView {
                name,
                usage: match o.label { Some(l) => l@, None => o.value@ },
                desc: match o.description { Some(d) => d@, None => Seq::empty() },
                skill: false,
                plugin: true,
                completion: Some("/"@ + name + " "@ + o.value@),
            })
        } else {
            rest
        }
    }
}

/// Whether `s` holds a whitespace character.
pub open spec fn has_ws(s: Seq<char>) -> bool {
    exists|i: int| 0 <= i < s.len() && is_ws(#[trigger] s[i])
}

/// The candidates for the argument `arg` of command `name`: none once the
/// argument holds inner whitespace; a live Client Plugin command's own
/// candidates when no builtin takes the name; the builtin candidates
/// otherwise.
pub open spec fn argument_matches_spec(ctx: SlashContext, name: Seq<char>, arg: Seq<char>) -> Seq<SlashEntryView> {
    let prefix = crate::text::trim_start_seq(arg);
    if has_ws(prefix) {
        Seq::empty()
    } else if !is_builtin_name(name) && plugin_named(ctx.plugin_commands@, name) is Some {
        match plugin_named(ctx.plugin_commands@, name).unwrap().input {
            Some(input) => plugin_option_entries(input.options@, name, prefix),
            None => Seq::empty(),
        }
    } else {
        option_entries(builtin_options_spec(ctx, name), name, prefix)
    }
}

/// The `/` menu for the composer text `buf`: nothing unless it starts with
/// `/`; the argument candidates once a space follows the command name;
/// otherwise the builtins, live Client Plugin commands and host skills
/// whose name starts with the typed prefix, an exact name first.
pub open spec fn slash_matches_spec(ctx: SlashContext, buf: Seq<char>) -> Seq<SlashEntryView> {
    if !(buf.len() > 0 && buf[0] == '/') {
        Seq::empty()
    } else {
        let rest = buf.drop_first();
        match first_index_of(rest, ' ') {
            Some(i) => argument_matches_spec(ctx, rest.subrange(0, i), rest.subrange(i + 1, rest.len() as int)),
            None => exact_first(
                builtin_rows(slash_table(), ctx.locale, rest) + plugin_rows(ctx.plugin_commands@, rest)
                    + skill_rows(ctx.skills@, ctx.plugin_commands@, rest),
                rest,
            ),
        }
    }
}

/// `a`, then `b`, then `c`, as a new string.
fn concat3(a: &str, b: &str, c: &str) -> (r: String)
    ensures
        r@ == a@ + b@ + c@,
{
    let mut s = String::from_str(a);
    s.append(b);
    s.append(c);
    s
}

/// Whether `name` is a builtin command.
pub fn builtin_named(name: &str) -> (r: bool)
    ensures
        r == is_builtin_name(name@),
{
    let table = slash_commands();
    let mut i: usize = 0;
    while i < table.len()
        invariant
            i <= table@.len(),
            table@.map_values(|c: SlashCommand| slash_view(c)) == slash_table(),
            forall|j: int| 0 <= j < i ==> (#[trigger] slash_table()[j]).0 != name@,
        decreases table@.len() - i,
    {
        assert(slash_table()[i as int] == slash_view(table@[i as int]));
        if str_eq(table[i].name, name) {
            return true;
        }
        i += 1;
    }
    false
}

impl SlashContext {
    /// Whether a live Client Plugin command is named `name`.
    pub fn plugin_command_active(&self, name: &str) -> (r: bool)
        ensures
            r == plugin_active_spec(self.plugin_commands@, name@),
    {
        let mut i: usize = 0;
        while i < self.plugin_commands.len()
            invariant
                i <= self.plugin_commands@.len(),
                forall|j: int| 0 <= j < i ==> (#[trigger] self.plugin_commands@[j]).name@ != name@,
            decreases self.plugin_commands@.len() - i,
        {
            if str_eq(self.plugin_commands[i].name.as_str(), name) {
                return true;
            }
            i += 1;
        }
        false
    }
}

/// (id, name, provider) rows of catalog models.
fn model_rows(v: &Vec<CatalogModel>) -> (r: Vec<(String, String, String)>)
    ensures
        rows_view(r@) == v@.map_values(|m: CatalogModel| (m.id@, m.name@, m.provider@)),
{
    let ghost f = |m: CatalogModel| (m.id@, m.name@, m.provider@);
    let mut out: Vec<(String, String, String)> = Vec::new();
    let mut i: usize = 0;
    while i < v.len()
        invariant
            i <= v@.len(),
            f == (|m: CatalogModel| (m.id@, m.name@, m.provider@)),
            rows_view(out@) == v@.subrange(0, i as int).map_values(f),
        decreases v@.len() - i,
    {
        let m = &v[i];
        let ghost before = out@;
        out.push((m.id.clone(), m.name.clone(), m.provider.clone()));
        assert(rows_view(out@) =~= rows_view(before).push(f(v@[i as int])));
        assert(v@.subrange(0, i + 1).map_values(f) =~= v@.subrange(0, i as int).map_values(f).push(f(v@[i as int])));
        i += 1;
    }
    assert(v@.subrange(0, v@.len() as int) =~= v@);
    out
}

/// (id, name, description) rows of catalog presets.
fn preset_rows(v: &Vec<CatalogPreset>) -> (r: Vec<(String, String, String)>)
    ensures
        rows_view(r@) == v@.map_values(|p: CatalogPreset| (p.id@, p.name@, p.description@)),
{
    let ghost f = |p: CatalogPreset| (p.id@, p.name@, p.description@);
    let mut out: Vec<(String, String, String)> = Vec::new();
    let mut i: usize = 0;
    while i < v.len()
        invariant
            i <= v@.len(),
            f == (|p: CatalogPreset| (p.id@, p.name@, p.description@)),
            rows_view(out@) == v@.subrange(0, i as int).map_values(f),
        decreases v@.len() - i,
    {
        let p = &v[i];
        let ghost before = out@;
        out.push((p.id.clone(), p.name.clone(), p.description.clone()));
        assert(rows_view(out@) =~= rows_view(before).push(f(v@[i as int])));
        assert(v@.subrange(0, i + 1).map_values(f) =~= v@.subrange(0, i as int).map_values(f).push(f(v@[i as int])));
        i += 1;
    }
    assert(v@.subrange(0, v@.len() as int) =~= v@);
    out
}

/// (s, s, "") rows of plain strings.
fn string_rows(v: &Vec<String>) -> (r: Vec<(String, String, String)>)
    ensures
        rows_view(r@) == strings_view(v@).map_values(|e: Seq<char>| (e, e, Seq::<char>::empty())),
{
    let ghost f = |e: Seq<char>| (e, e, Seq::<char>::empty());
    let mut out: Vec<(String, String, String)> = Vec::new();
    let mut i: usize = 0;
    while i < v.len()
        invariant
            i <= v@.len(),
            f == (|e: Seq<char>| (e, e, Seq::<char>::empty())),
            rows_view(out@) == strings_view(v@.subrange(0, i as int)).map_values(f),
        decreases v@.len() - i,
    {
        let ghost before = out@;
        out.push((v[i].clone(), v[i].clone(), String::new()));
        assert(rows_view(out@) =~= rows_view(before).push(f(v@[i as int]@)));
        assert(strings_view(v@.subrange(0, i + 1)).map_values(f) =~= strings_view(v@.subrange(0, i as int)).map_values(f).push(f(v@[i as int]@)));
        i += 1;
    }
    assert(v@.subrange(0, v@.len() as int) =~= v@);
    out
}

/// (value, label, description) rows of a static table.
fn table_rows(v: Vec<(&'static str, &'static str, &'static str)>) -> (r: Vec<(String, String, String)>)
    ensures
        rows_view(r@) == v@.map_values(|t: (&str, &str, &str)| triple_view(t)),
{
    let mut out: Vec<(String, String, String)> = Vec::new();
    let mut i: usize = 0;
    while i < v.len()
        invariant
            i <= v@.len(),
            rows_view(out@) == v@.subrange(0, i as int).map_values(|t: (&str, &str, &str)| triple_view(t)),
        decreases v@.len() - i,
    {
        let t = v[i];
        let ghost before = out@;
        out.push((String::from_str(t.0), String::from_str(t.1), String::from_str(t.2)));
        assert(rows_view(out@) =~= rows_view(before).push(triple_view(v@[i as int])));
        assert(v@.subrange(0, i + 1).map_values(|t: (&str, &str, &str)| triple_view(t))
            =~= v@.subrange(0, i as int).map_values(|t: (&str, &str, &str)| triple_view(t)).push(triple_view(v@[i as int])));
        i += 1;
    }
    assert(v@.subrange(0, v@.len() as int) =~= v@);
    out
}

/// (id, id, description) rows of a static two-column table.
fn plain_table_rows(v: Vec<(&'static str, &'static str)>) -> (r: Vec<(String, String, String)>)
    ensures
        rows_view(r@) == v@.map_values(|t: (&str, &str)| plain(t.0@, t.1@)),
{
    let mut out: Vec<(String, String, String)> = Vec::new();
    let mut i: usize = 0;
    while i < v.len()
        invariant
            i <= v@.len(),
            rows_view(out@) == v@.subrange(0, i as int).map_values(|t: (&str, &str)| plain(t.0@, t.1@)),
        decreases v@.len() - i,
    {
        let t = v[i];
        let ghost before = out@;
        out.push((String::from_str(t.0), String::from_str(t.0), String::from_str(t.1)));
        assert(rows_view(out@) =~= rows_view(before).push(plain(v@[i as int].0@, v@[i as int].1@)));
        assert(v@.subrange(0, i + 1).map_values(|t: (&str, &str)| plain(t.0@, t.1@))
            =~= v@.subrange(0, i as int).map_values(|t: (&str, &str)| plain(t.0@, t.1@)).push(plain(v@[i as int].0@, v@[i as int].1@)));
        i += 1;
    }
    assert(v@.subrange(0, v@.len() as int) =~= v@);
    out
}

/// Rows of fixed (value, description) choices.
fn plain_pair(value: &str, desc: &str) -> (r: (String, String, String))
    ensures
        (r.0@, r.1@, r.2@) == plain(value@, desc@),
{
    (String::from_str(value), String::from_str(value), String::from_str(desc))
}

impl SlashContext {
    /// The model ids for `/model` without a catalog: the host's list or the
    /// presets, the configured model first when missing.
    fn model_ids(&self) -> (r: Vec<String>)
        ensures
            strings_view(r@) == model_ids_spec(*self),
    {
        let mut ids: Vec<String> = Vec::new();
        match &self.host_models {
            Some(h) => {
                let mut i: usize = 0;
                while i < h.len()
                    invariant
                        i <= h@.len(),
                        strings_view(ids@) == strings_view(h@.subrange(0, i as int)),
                    decreases h@.len() - i,
                {
                    let ghost before = ids@;
                    ids.push(h[i].clone());
                    assert(strings_view(ids@) =~= strings_view(before).push(h@[i as int]@));
                    assert(strings_view(h@.subrange(0, i + 1)) =~= strings_view(h@.subrange(0, i as int)).push(h@[i as int]@));
                    i += 1;
                }
                assert(h@.subrange(0, h@.len() as int) =~= h@);
            },
            None => {
                let presets = model_presets();
                let mut i: usize = 0;
                while i < presets.len()
                    invariant
                        i <= presets@.len(),
                        presets@.map_values(|s: &str| s@) == model_preset_ids(),
                        strings_view(ids@) == model_preset_ids().subrange(0, i as int),
                    decreases presets@.len() - i,
                {
                    assert(model_preset_ids()[i as int] == presets@[i as int]@);
                    let ghost before = ids@;
                    ids.push(String::from_str(presets[i]));
                    assert(strings_view(ids@) =~= strings_view(before).push(presets@[i as int]@));
                    assert(model_preset_ids().subrange(0, i + 1) =~= model_preset_ids().subrange(0, i as int).push(model_preset_ids()[i as int]));
                    i += 1;
                }
                assert(model_preset_ids().subrange(0, presets@.len() as int) =~= model_preset_ids());
            },
        }
        let ghost base = strings_view(ids@);
        let mut found = false;
        let mut i: usize = 0;
        while i < ids.len() && !found
            invariant
                i <= ids@.len(),
                base == strings_view(ids@),
                found ==> base.contains(self.model@),
                !found ==> forall|j: int| 0 <= j < i ==> base[j] != self.model@,
            decreases ids@.len() - i,
        {
            if str_eq(ids[i].as_str(), self.model.as_str()) {
                found = true;
                assert(base[i as int] == self.model@);
            }
            i += 1;
        }
        if !found {
            ids.insert(0, self.model.clone());
            assert(strings_view(ids@) =~= seq![self.model@] + base);
        }
        ids
    }

    /// The argument candidates (value, label, description) of builtin
    /// command `name`.
    pub fn builtin_argument_options(&self, name: &str) -> (r: Vec<(String, String, String)>)
        ensures
            rows_view(r@) == builtin_options_spec(*self, name@),
    {
        proof {
            reveal_strlit("model");
            reveal_strlit("agent");
            reveal_strlit("effort");
            reveal_strlit("permission");
            reveal_strlit("plan");
            reveal_strlit("theme");
            reveal_strlit("ui");
            reveal_strlit("auth");
            reveal_strlit("lang");
            reveal_strlit("liang");
        }
        if str_eq(name, "model") {
            if self.last_models.len() > 0 {
                return model_rows(&self.last_models);
            }
            let ids = self.model_ids();
            return string_rows(&ids);
        }
        if str_eq(name, "agent") {
            if self.last_presets.len() > 0 {
                return preset_rows(&self.last_presets);
            }
            let r = table_rows(agent_modes());
            return r;
        }
        if str_eq(name, "effort") {
            if self.effort_choices.len() > 0 {
                return string_rows(&self.effort_choices);
            }
            let r = vec![
                plain_pair("off", "disable extended reasoning"),
                plain_pair("high", "high reasoning effort"),
                plain_pair("max", "maximum reasoning effort"),
            ];
            assert(rows_view(r@) =~= builtin_options_spec(*self, name@));
            return r;
        }
        if str_eq(name, "permission") {
            if self.permission_choices.len() > 0 {
                return preset_rows(&self.permission_choices);
            }
            return plain_table_rows(permission_presets());
        }
        if str_eq(name, "plan") {
            let r = vec![plain_pair("on", "enable plan mode"), plain_pair("off", "disable plan mode")];
            assert(rows_view(r@) =~= builtin_options_spec(*self, name@));
            return r;
        }
        if str_eq(name, "theme") {
            let ghost f = |p: PaletteChoice| (p.id@, p.label@, palette_status(p.loaded));
            let mut out: Vec<(String, String, String)> = Vec::new();
            let mut i: usize = 0;
            while i < self.palettes.len()
                invariant
                    i <= self.palettes@.len(),
                    f == (|p: PaletteChoice| (p.id@, p.label@, palette_status(p.loaded))),
                    rows_view(out@) == self.palettes@.subrange(0, i as int).map_values(f),
                decreases self.palettes@.len() - i,
            {
                let p = &self.palettes[i];
                let status = if p.loaded { String::from_str("theme plugin") } else { String::from_str("theme plugin · stopped") };
                let ghost before = out@;
                out.push((p.id.clone(), p.label.clone(), status));
                assert(rows_view(out@) =~= rows_view(before).push(f(self.palettes@[i as int])));
                assert(self.palettes@.subrange(0, i + 1).map_values(f)
                    =~= self.palettes@.subrange(0, i as int).map_values(f).push(f(self.palettes@[i as int])));
                i += 1;
            }
            assert(self.palettes@.subrange(0, self.palettes@.len() as int) =~= self.palettes@);
            return out;
        }
        if str_eq(name, "ui") {
            let ghost f = |u: UiPluginChoice| (u.id@, u.label@, u.source@ + " · "@ + u.status@);
            let mut out: Vec<(String, String, String)> = Vec::new();
            let mut i: usize = 0;
            while i < self.ui_plugins.len()
                invariant
                    i <= self.ui_plugins@.len(),
                    f == (|u: UiPluginChoice| (u.id@, u.label@, u.source@ + " · "@ + u.status@)),
                    rows_view(out@) == self.ui_plugins@.subrange(0, i as int).map_values(f),
                decreases self.ui_plugins@.len() - i,
            {
                let u = &self.ui_plugins[i];
                let desc = concat3(u.source.as_str(), " · ", u.status.as_str());
                let ghost before = out@;
                out.push((u.id.clone(), u.label.clone(), desc));
                assert(rows_view(out@) =~= rows_view(before).push(f(self.ui_plugins@[i as int])));
                assert(self.ui_plugins@.subrange(0, i + 1).map_values(f)
                    =~= self.ui_plugins@.subrange(0, i as int).map_values(f).push(f(self.ui_plugins@[i as int])));
                i += 1;
            }
            assert(self.ui_plugins@.subrange(0, self.ui_plugins@.len() as int) =~= self.ui_plugins@);
            return out;
        }
        if str_eq(name, "auth") {
            let ghost f = |m: AuthMethodInfo| (
                m.id@,
                match m.name { Some(n) => n@, None => m.id@ },
                match m.description { Some(d) => d@, None => Seq::<char>::empty() },
            );
            let mut out: Vec<(String, String, String)> = Vec::new();
            let mut i: usize = 0;
            while i < self.auth_methods.len()
                invariant
                    i <= self.auth_methods@.len(),
                    f == (|m: AuthMethodInfo| (
                        m.id@,
                        match m.name { Some(n) => n@, None => m.id@ },
                        match m.description { Some(d) => d@, None => Seq::<char>::empty() },
                    )),
                    rows_view(out@) == self.auth_methods@.subrange(0, i as int).map_values(f),
                decreases self.auth_methods@.len() - i,
            {
                let m = &self.auth_methods[i];
                let label = match &m.name {
                    Some(n) => n.clone(),
                    None => m.id.clone(),
                };
                let desc = match &m.description {
                    Some(d) => d.clone(),
                    None => String::new(),
                };
                let ghost before = out@;
                out.push((m.id.clone(), label, desc));
                assert(rows_view(out@) =~= rows_view(before).push(f(self.auth_methods@[i as int])));
                assert(self.auth_methods@.subrange(0, i + 1).map_values(f)
                    =~= self.auth_methods@.subrange(0, i as int).map_values(f).push(f(self.auth_methods@[i as int])));
                i += 1;
            }
            assert(self.auth_methods@.subrange(0, self.auth_methods@.len() as int) =~= self.auth_methods@);
            return out;
        }
        if str_eq(name, "lang") {
            let r = vec![plain_pair("zh", "中文"), plain_pair("en", "English")];
            assert(rows_view(r@) =~= builtin_options_spec(*self, name@));
            return r;
        }
        if str_eq(name, "liang") {
            let r = vec![plain_pair("on", "show pet"), plain_pair("off", "hide pet")];
            assert(rows_view(r@) =~= builtin_options_spec(*self, name@));
            return r;
        }
        let r: Vec<(String, String, String)> = Vec::new();
        assert(rows_view(r@) =~= builtin_options_spec(*self, name@));
        r
    }
}

/// A copy of a menu entry.
fn copy_entry(e: &SlashEntry) -> (r: SlashEntry)
    ensures
        entry_view(r) == entry_view(*e),
{
    SlashEntry {
        name: e.name.clone(),
        usage: e.usage.clone(),
        desc: e.desc.clone(),
        skill: e.skill,
        plugin: e.plugin,
        completion: match &e.completion {
            Some(c) => Some(c.clone()),
            None => None,
        },
    }
}

/// `s` without its leading whitespace.
fn trim_start_chars(s: &[char]) -> (r: Vec<char>)
    ensures
        r@ == crate::text::trim_start_seq(s@),
{
    let mut k: usize = 0;
    assert(s@.subrange(0, s@.len() as int) =~= s@);
    while k < s.len() && is_whitespace(s[k])
        invariant
            k <= s@.len(),
            crate::text::trim_start_seq(s@) == crate::text::trim_start_seq(s@.subrange(k as int, s@.len() as int)),
        decreases s@.len() - k,
    {
        assert(s@.subrange(k as int, s@.len() as int).drop_first() =~= s@.subrange(k + 1, s@.len() as int));
        k += 1;
    }
    let mut out: Vec<char> = Vec::new();
    let mut i: usize = k;
    while i < s.len()
        invariant
            k <= i <= s@.len(),
            out@ == s@.subrange(k as int, i as int),
        decreases s@.len() - i,
    {
        out.push(s[i]);
        i += 1;
        assert(out@ =~= s@.subrange(k as int, i as int));
    }
    out
}

/// Whether `s` holds a whitespace character.
fn any_whitespace(s: &[char]) -> (r: bool)
    ensures
        r == has_ws(s@),
{
    let mut i: usize = 0;
    while i < s.len()
        invariant
            i <= s@.len(),
            forall|j: int| 0 <= j < i ==> !is_ws(#[trigger] s@[j]),
        decreases s@.len() - i,
    {
        if is_whitespace(s[i]) {
            return true;
        }
        i += 1;
    }
    false
}

/// `/name value`.
fn completion_of(name: &str, value: &str) -> (r: String)
    ensures
        r@ == "/"@ + name@ + " "@ + value@,
{
    let mut c = String::from_str("/");
    c.append(name);
    c.append(" ");
    c.append(value);
    c
}

/// Entries for the argument rows whose value starts with `prefix`.
fn option_entries_of(rows: &Vec<(String, String, String)>, name: &str, prefix: &str) -> (r: Vec<SlashEntry>)
    ensures
        entries_view(r@) == option_entries(rows_view(rows@), name@, prefix@),
{
    let mut out: Vec<SlashEntry> = Vec::new();
    let mut i: usize = 0;
    while i < rows.len()
        invariant
            i <= rows@.len(),
            entries_view(out@) == option_entries(rows_view(rows@.subrange(0, i as int)), name@, prefix@),
        decreases rows@.len() - i,
    {
        let r = &rows[i];
        let ghost before = out@;
        assert(rows_view(rows@.subrange(0, i + 1)).drop_last() =~= rows_view(rows@.subrange(0, i as int)));
        assert(rows_view(rows@.subrange(0, i + 1)).last() == (r.0@, r.1@, r.2@));
        if starts_with_str(r.0.as_str(), prefix) {
            out.push(SlashEntry {
                name: String::from_str(name),
                usage: r.1.clone(),
                desc: r.2.clone(),
                skill: false,
                plugin: false,
                completion: Some(completion_of(name, r.0.as_str())),
            });
            assert(entries_view(out@) =~= entries_view(before).push(entry_view(out@.last())));
        }
        i += 1;
    }
    assert(rows@.subrange(0, rows@.len() as int) =~= rows@);
    out
}

/// Entries for a Client Plugin command's candidates whose value starts
/// with `prefix`.
fn plugin_option_entries_of(opts: &Vec<PluginCommandOption>, name: &str, prefix: &str) -> (r: Vec<SlashEntry>)
    ensures
        entries_view(r@) == plugin_option_entries(opts@, name@, prefix@),
{
    let mut out: Vec<SlashEntry> = Vec::new();
    let mut i: usize = 0;
    while i < opts.len()
        invariant
            i <= opts@.len(),
            entries_view(out@) == plugin_option_entries(opts@.subrange(0, i as int), name@, prefix@),
        decreases opts@.len() - i,
    {
        let o = &opts[i];
        let ghost before = out@;
        assert(opts@.subrange(0, i + 1).drop_last() =~= opts@.subrange(0, i as int));
        if starts_with_str(o.value.as_str(), prefix) {
            let usage = match &o.label {
                Some(l) => l.clone(),
                None => o.value.clone(),
            };
            let desc = match &o.description {
                Some(d) => d.clone(),
                None => String::new(),
            };
            out.push(SlashEntry {
                name: String::from_str(name),
                usage,
                desc,
                skill: false,
                plugin: true,
                completion: Some(completion_of(name, o.value.as_str())),
            });
            assert(entries_view(out@) =~= entries_view(before).push(entry_view(out@.last())));
        }
        i += 1;
    }
    assert(opts@.subrange(0, opts@.len() as int) =~= opts@);
    out
}

proof fn lemma_plugin_named_skip(cmds: Seq<PluginCommand>, name: Seq<char>, i: int)
    requires
        0 <= i <= cmds.len(),
        forall|j: int| 0 <= j < i ==> (#[trigger] cmds[j]).name@ != name,
    ensures
        plugin_named(cmds, name) == plugin_named(cmds.subrange(i, cmds.len() as int), name),
    decreases i,
{
    if i == 0 {
        assert(cmds.subrange(0, cmds.len() as int) =~= cmds);
    } else {
        assert forall|j: int| 0 <= j < i - 1 implies (#[trigger] cmds.drop_first()[j]).name@ != name by {
            assert(cmds.drop_first()[j] == cmds[j + 1]);
        }
        lemma_plugin_named_skip(cmds.drop_first(), name, i - 1);
        assert(cmds.drop_first().subrange(i - 1, cmds.len() - 1) =~= cmds.subrange(i, cmds.len() as int));
    }
}

impl SlashContext {
    /// Where the first live Client Plugin command named `name` stands.
    fn plugin_index(&self, name: &str) -> (r: Option<usize>)
        ensures
            match r {
                Some(i) => i < self.plugin_commands@.len() && plugin_named(self.plugin_commands@, name@) == Some(self.plugin_commands@[i as int]),
                None => plugin_named(self.plugin_commands@, name@) is None,
            },
    {
        let mut i: usize = 0;
        while i < self.plugin_commands.len()
            invariant
                i <= self.plugin_commands@.len(),
                forall|j: int| 0 <= j < i ==> (#[trigger] self.plugin_commands@[j]).name@ != name@,
            decreases self.plugin_commands@.len() - i,
        {
            if str_eq(self.plugin_commands[i].name.as_str(), name) {
                proof {
                    lemma_plugin_named_skip(self.plugin_commands@, name@, i as int);
                }
                return Some(i);
            }
            i += 1;
        }
        proof {
            lemma_plugin_named_skip(self.plugin_commands@, name@, i as int);
        }
        None
    }

    /// The candidates for the argument `arg` of command `name`.
    pub fn slash_argument_matches(&self, name: &str, arg: &str) -> (r: Vec<SlashEntry>)
        ensures
            entries_view(r@) == argument_matches_spec(*self, name@, arg@),
    {
        let prefix_chars = trim_start_chars(chars_of(arg).as_slice());
        if any_whitespace(prefix_chars.as_slice()) {
            return Vec::new();
        }
        let prefix = string_of(prefix_chars.as_slice());
        if !builtin_named(name) {
            if let Some(i) = self.plugin_index(name) {
                return match &self.plugin_commands[i].input {
                    Some(input) => plugin_option_entries_of(&input.options, name, prefix.as_str()),
                    None => Vec::new(),
                };
            }
        }
        let rows = self.builtin_argument_options(name);
        option_entries_of(&rows, name, prefix.as_str())
    }

    /// The builtin commands whose name starts with `prefix`.
    fn builtin_entries(&self, prefix: &str) -> (r: Vec<SlashEntry>)
        ensures
            entries_view(r@) == builtin_rows(slash_table(), self.locale, prefix@),
    {
        let table = slash_commands();
        let mut out: Vec<SlashEntry> = Vec::new();
        let mut i: usize = 0;
        while i < table.len()
            invariant
                i <= table@.len(),
                table@.map_values(|c: SlashCommand| slash_view(c)) == slash_table(),
                entries_view(out@) == builtin_rows(slash_table().subrange(0, i as int), self.locale, prefix@),
            decreases table@.len() - i,
        {
            let c = &table[i];
            let ghost before = out@;
            assert(slash_table().subrange(0, i + 1).drop_last() =~= slash_table().subrange(0, i as int));
            assert(slash_table().subrange(0, i + 1).last() == slash_view(*c));
            if starts_with_str(c.name, prefix) {
                let desc = self.locale.command_desc(c.name, c.desc);
                out.push(SlashEntry {
                    name: String::from_str(c.name),
                    usage: String::from_str(c.usage),
                    desc: String::from_str(desc),
                    skill: false,
                    plugin: false,
                    completion: None,
                });
                assert(entries_view(out@) =~= entries_view(before).push(entry_view(out@.last())));
            }
            i += 1;
        }
        assert(slash_table().subrange(0, table@.len() as int) =~= slash_table());
        out
    }

    /// The live Client Plugin commands whose name starts with `prefix` and
    /// that no builtin shadows.
    fn plugin_entries(&self, prefix: &str) -> (r: Vec<SlashEntry>)
        ensures
            entries_view(r@) == plugin_rows(self.plugin_commands@, prefix@),
    {
        let mut out: Vec<SlashEntry> = Vec::new();
        let mut i: usize = 0;
        while i < self.plugin_commands.len()
            invariant
                i <= self.plugin_commands@.len(),
                entries_view(out@) == plugin_rows(self.plugin_commands@.subrange(0, i as int), prefix@),
            decreases self.plugin_commands@.len() - i,
        {
            let c = &self.plugin_commands[i];
            let ghost before = out@;
            assert(self.plugin_commands@.subrange(0, i + 1).drop_last() =~= self.plugin_commands@.subrange(0, i as int));
            if starts_with_str(c.name.as_str(), prefix) && !builtin_named(c.name.as_str()) {
                let usage = match &c.input {
                    Some(input) => {
                        let mut u = String::from_str("/");
                        u.append(c.name.as_str());
                        u.append(" [");
                        u.append(input.hint.as_str());
                        u.append("]");
                        u
                    },
                    None => {
                        let mut u = String::from_str("/");
                        u.append(c.name.as_str());
                        u
                    },
                };
                out.push(SlashEntry {
                    name: c.name.clone(),
                    usage,
                    desc: c.description.clone(),
                    skill: false,
                    plugin: true,
                    completion: None,
                });
                assert(entries_view(out@) =~= entries_view(before).push(entry_view(out@.last())));
            }
            i += 1;
        }
        assert(self.plugin_commands@.subrange(0, self.plugin_commands@.len() as int) =~= self.plugin_commands@);
        out
    }

    /// The host skills the menu offers for `prefix`.
    fn skill_entries(&self, prefix: &str) -> (r: Vec<SlashEntry>)
        ensures
            entries_view(r@) == skill_rows(self.skills@, self.plugin_commands@, prefix@),
    {
        proof {
            reveal_strlit("logout");
        }
        let mut out: Vec<SlashEntry> = Vec::new();
        let mut i: usize = 0;
        while i < self.skills.len()
            invariant
                i <= self.skills@.len(),
                entries_view(out@) == skill_rows(self.skills@.subrange(0, i as int), self.plugin_commands@, prefix@),
            decreases self.skills@.len() - i,
        {
            let sk = &self.skills[i];
            let ghost before = out@;
            assert(self.skills@.subrange(0, i + 1).drop_last() =~= self.skills@.subrange(0, i as int));
            let lower = lowered(chars_of(sk.name.as_str()).as_slice());
            let logout = chars_eq(lower.as_slice(), "logout");
            if !logout && starts_with_str(sk.name.as_str(), prefix) && !builtin_named(sk.name.as_str())
                && !self.plugin_command_active(sk.name.as_str()) {
                let mut usage = String::from_str("/");
                usage.append(sk.name.as_str());
                out.push(SlashEntry {
                    name: sk.name.clone(),
                    usage,
                    desc: sk.description.clone(),
                    skill: !sk.client_command,
                    plugin: sk.client_command,
                    completion: None,
                });
                assert(entries_view(out@) =~= entries_view(before).push(entry_view(out@.last())));
            }
            i += 1;
        }
        assert(self.skills@.subrange(0, self.skills@.len() as int) =~= self.skills@);
        out
    }

    /// The `/` menu for the composer text `buf`.
    pub fn slash_matches(&self, buf: &str) -> (r: Vec<SlashEntry>)
        ensures
            entries_view(r@) == slash_matches_spec(*self, buf@),
    {
        let cs = chars_of(buf);
        if cs.len() == 0 || cs[0] != '/' {
            return Vec::new();
        }
        let ghost rest = buf@.drop_first();
        let mut p: usize = 1;
        while p < cs.len() && cs[p] != ' '
            invariant
                1 <= p <= cs@.len(),
                cs@ == buf@,
                forall|j: int| 1 <= j < p ==> cs@[j] != ' ',
            decreases cs@.len() - p,
        {
            p += 1;
        }
        proof {
            assert forall|j: int| 0 <= j < p - 1 implies rest[j] != ' ' by {
                assert(rest[j] == cs@[j + 1]);
            }
            crate::input::keys::lemma_first_index_of(rest, ' ', p - 1);
        }
        if p < cs.len() {
            let name = string_of(&cs[1..p]);
            let arg = string_of(&cs[p + 1..cs.len()]);
            assert(name@ =~= rest.subrange(0, p - 1));
            assert(arg@ =~= rest.subrange(p as int, rest.len() as int));
            return self.slash_argument_matches(name.as_str(), arg.as_str());
        }
        let prefix = string_of(&cs[1..cs.len()]);
        assert(prefix@ =~= rest);
        let mut all = self.builtin_entries(prefix.as_str());
        let mut plugins = self.plugin_entries(prefix.as_str());
        let mut skills = self.skill_entries(prefix.as_str());
        let ghost a = all@;
        let ghost b = plugins@;
        let ghost c = skills@;
        all.append(&mut plugins);
        all.append(&mut skills);
        assert(all@ =~= a + b + c);
        assert(entries_view(all@) =~= entries_view(a) + entries_view(b) + entries_view(c));
        let ghost v = entries_view(all@);
        let ghost eq = |e: SlashEntryView| e.name == prefix@;
        let ghost ne = |e: SlashEntryView| e.name != prefix@;
        let mut exact: Vec<SlashEntry> = Vec::new();
        let mut others: Vec<SlashEntry> = Vec::new();
        let mut i: usize = 0;
        while i < all.len()
            invariant
                i <= all@.len(),
                v == entries_view(all@),
                eq == (|e: SlashEntryView| e.name == prefix@),
                ne == (|e: SlashEntryView| e.name != prefix@),
                entries_view(exact@) == v.subrange(0, i as int).filter(eq),
                entries_view(others@) == v.subrange(0, i as int).filter(ne),
            decreases all@.len() - i,
        {
            let e = copy_entry(&all[i]);
            proof {
                reveal_with_fuel(Seq::filter, 1);
                assert(v.subrange(0, i + 1).drop_last() =~= v.subrange(0, i as int));
                assert(v.subrange(0, i + 1).last() == entry_view(all@[i as int]));
            }
            let ghost x = exact@;
            let ghost y = others@;
            if str_eq(e.name.as_str(), prefix.as_str()) {
                exact.push(e);
                assert(entries_view(exact@) =~= entries_view(x).push(entry_view(exact@.last())));
            } else {
                others.push(e);
                assert(entries_view(others@) =~= entries_view(y).push(entry_view(others@.last())));
            }
            i += 1;
        }
        assert(v.subrange(0, all@.len() as int) =~= v);
        let ghost ex = exact@;
        let ghost ot = others@;
        exact.append(&mut others);
        assert(entries_view(exact@) =~= entries_view(ex) + entries_view(ot));
        exact
    }
}

/// The model ids of a host catalog document: each string item, and the
/// string `id` of each object item; none for a non-array or an empty list.
pub open spec fn catalog_ids_fold(items: Seq<Json>) -> Seq<Seq<char>>
    decreases items.len(),
{
    if items.len() == 0 {
        Seq::empty()
    } else {
        let rest = catalog_ids_fold(items.drop_last());
        match items.last() {
            Json::String(s) => rest.push(s@),
            Json::Object(_) => match as_str(get(items.last(), "id"@)) {
                Some(id) => rest.push(id),
                None => rest,
            },
            _ => rest,
        }
    }
}

/// The model ids a host catalog document lists, none unless it is a
/// non-empty-yielding array.
pub open spec fn catalog_ids_spec(v: Json) -> Option<Seq<Seq<char>>> {
    match v {
        Json::Array(a) => if catalog_ids_fold(a@).len() > 0 { Some(catalog_ids_fold(a@)) } else { None },
        _ => None,
    }
}

/// The model ids a host catalog document lists.
pub fn catalog_model_ids(v: &Json) -> (r: Option<Vec<String>>)
    ensures
        match r {
            Some(ids) => catalog_ids_spec(*v) == Some(strings_view(ids@)),
            None => catalog_ids_spec(*v) is None,
        },
{
    proof {
        reveal_strlit("id");
    }
    let a = match v {
        Json::Array(a) => a,
        _ => return None,
    };
    let mut out: Vec<String> = Vec::new();
    let mut i: usize = 0;
    while i < a.len()
        invariant
            i <= a@.len(),
            strings_view(out@) == catalog_ids_fold(a@.subrange(0, i as int)),
        decreases a@.len() - i,
    {
        let item = &a[i];
        let ghost before = out@;
        assert(a@.subrange(0, i + 1).drop_last() =~= a@.subrange(0, i as int));
        assert(a@.subrange(0, i + 1).last() == *item);
        match item {
            Json::String(s) => {
                out.push(s.clone());
                assert(strings_view(out@) =~= strings_view(before).push(s@));
            },
            Json::Object(_) => {
                if let Some(x) = item.get("id") {
                    if let Some(id) = x.as_str() {
                        out.push(String::from_str(id));
                        assert(strings_view(out@) =~= strings_view(before).push(id@));
                    }
                }
            },
            _ => {},
        }
        i += 1;
    }
    assert(a@.subrange(0, a@.len() as int) =~= a@);
    if out.len() == 0 {
        return None;
    }
    Some(out)
}

/// The model ids listed by a host catalog text (a JSON array of ids or of
/// objects with an `id`), none when it is no such list.
pub fn host_catalog_models_from(raw: &str) -> (r: Option<Vec<String>>)
    ensures
        match json_parsed(raw@) {
            Some(v) => match r {
                Some(ids) => catalog_ids_spec(v) == Some(strings_view(ids@)),
                None => catalog_ids_spec(v) is None,
            },
            None => r is None,
        },
{
    match parse_json(raw) {
        Some(v) => catalog_model_ids(&v),
        None => None,
    }
}

/// What accepting a menu entry does after the composer was updated: invoke
/// a Client Plugin command, submit the composer as a prompt, leave a
/// completed `/skill ` for the user to go on typing, or run a builtin.
#[derive(Debug, PartialEq, Eq)]
pub enum SlashAccept {
    InvokePlugin { name: String, args: String },
    Submit,
    Completed,
    Run { name: String, args: String },
}

/// The argument text after `/name` on a command line (trimmed), empty
/// when the line does not start with `/name`.
pub open spec fn slash_rest(line: Seq<char>, name: Seq<char>) -> Seq<char> {
    let p = "/"@ + name;
    if starts_with(line, p) { crate::text::trim_seq(line.subrange(p.len() as int, line.len() as int)) } else { Seq::empty() }
}

/// The argument text after `/name` on a command line.
fn rest_after(line: &str, name: &str) -> (r: String)
    ensures
        r@ == slash_rest(line@, name@),
{
    let mut p = String::from_str("/");
    p.append(name);
    if !starts_with_str(line, p.as_str()) {
        return String::new();
    }
    let cs = chars_of(line);
    let n = p.as_str().unicode_len();
    let tail = crate::text::trimmed(&cs[n..cs.len()]);
    string_of(tail.as_slice())
}

/// Accepts a `/` menu entry: a candidate with a completion first replaces
/// the composer with it. A Client Plugin command is then invoked with the
/// text after its name (the line enters the history, the composer
/// empties); a host skill whose `/name` is already on the line is
/// submitted, else the composer becomes `/name `; a builtin runs with the
/// text after its name and the composer empties.
pub fn accept_slash(input: &mut Input, entry: &SlashEntry) -> (r: SlashAccept)
    ensures
        ({
            let line = match entry.completion { Some(c) => c@, None => old(input).buf@ };
            let full = "/"@ + entry.name@;
            let trimmed_line = crate::text::trim_seq(line);
            if entry.plugin {
                &&& r matches SlashAccept::InvokePlugin { name, args } && name@ == entry.name@ && args@ == slash_rest(line, entry.name@)
                &&& final(input).buf@.len() == 0
                &&& final(input).history@.map_values(|h: String| h@) == old(input).history@.map_values(|h: String| h@).push(line)
            } else if entry.skill {
                if trimmed_line == full || starts_with(trimmed_line, full + " "@) {
                    r is Submit && final(input).buf@ == line
                } else {
                    r is Completed && final(input).buf@ == full + " "@ && final(input).cursor == full.len() + 1
                }
            } else {
                &&& r matches SlashAccept::Run { name, args } && name@ == entry.name@ && args@ == slash_rest(line, entry.name@)
                &&& final(input).buf@.len() == 0
                &&& final(input).history == old(input).history
            }
        }),
{
    proof {
        reveal_strlit("/");
        reveal_strlit(" ");
    }
    if let Some(c) = &entry.completion {
        input.set(c.clone());
    }
    if entry.plugin {
        let line = input.buf.clone();
        let args = rest_after(line.as_str(), entry.name.as_str());
        let ghost h0 = input.history@;
        input.history.push(line);
        input.clear();
        proof {
            assert(input.history@.map_values(|h: String| h@) =~= h0.map_values(|h: String| h@).push(input.history@.last()@));
        }
        return SlashAccept::InvokePlugin { name: entry.name.clone(), args };
    }
    if entry.skill {
        let mut full = String::from_str("/");
        full.append(entry.name.as_str());
        let t = crate::text::trimmed(chars_of(input.buf.as_str()).as_slice());
        let ts = string_of(t.as_slice());
        let mut full_sp = String::from_str("/");
        full_sp.append(entry.name.as_str());
        full_sp.append(" ");
        if str_eq(ts.as_str(), full.as_str()) || starts_with_str(ts.as_str(), full_sp.as_str()) {
            return SlashAccept::Submit;
        }
        input.set(full_sp);
        return SlashAccept::Completed;
    }
    let line = input.buf.clone();
    let args = rest_after(line.as_str(), entry.name.as_str());
    input.clear();
    SlashAccept::Run { name: entry.name.clone(), args }
}


/// What the app knows when it runs a `/` command.
pub struct SlashState {
    pub demo: bool,
    pub locale: Locale,
    pub pet_visible: bool,
    pub load_session: bool,
    pub provider: String,
    pub model: String,
    pub plan_active: bool,
    pub skills: Vec<SkillInfo>,
    pub ui_plugin_ids: Vec<String>,
}

/// What running a `/` command does. The app carries it out: it shows the
/// help, key or info panels, opens the pickers, switches state, sends the
/// commands named, and shows the tips given.
pub enum SlashStep {
    ShowHelp,
    ShowKeys,
    /// Switch the interface language, save the settings, and show the tip.
    SwitchLocale { locale: Locale, tip: &'static str },
    /// Show this usage tip.
    Usage(&'static str),
    /// Clear the scrollback and the selection, then note it.
    ClearScrollback(&'static str),
    Quit,
    /// Show or hide the pet, with the tip.
    Pet { visible: bool, tip: &'static str },
    /// Apply a `/theme` argument.
    Theme(String),
    UiPicker,
    /// Tell the agent a UI Plugin was picked.
    UiSelect(String),
    /// Show this tip.
    Tip(String),
    /// Read the Host's static plugins, showing the tip meanwhile.
    StaticPlugins(&'static str),
    /// Read the agent's dynamic Cordis plugins, showing the tip meanwhile.
    CordisPlugins(&'static str),
    ModelPicker,
    SetModel(String),
    ModePicker,
    SetMode(String),
    /// Start a demo session with this id (a fresh `dsh-<time>` id where none).
    NewDemoSession(Option<String>),
    /// Reset the session UI and ask the agent for a new session.
    NewSession,
    SessionInfo,
    StatusInfo,
    StartAuth(String),
    ResumePicker,
    /// List the agent's sessions whose id starts with this prefix.
    ListSessions(String),
    /// Replay the local transcript of this session, with the tip first
    /// where there is one.
    ReplayLocal { id: String, tip: Option<&'static str> },
    FetchEfforts { provider: String, model: String },
    /// Ask for this reasoning effort and record it.
    SelectEffort(String),
    PermissionPicker,
    SetPermission(String),
    Plan(PlanCommand),
    SendImage(String),
    Clip(String),
    /// Warn of an unknown command.
    Unknown(String),
}

/// The tip after switching the interface language.
pub open spec fn switched_tip(l: Locale) -> Seq<char> {
    if l == Locale::En { "Language switched to English"@ } else { "界面语言已切换为中文"@ }
}

/// What `/name arg` does (see `slash_step`).
pub open spec fn slash_step_spec(st: SlashState, name: Seq<char>, arg: Seq<char>, r: SlashStep) -> bool {
    let en = st.locale == Locale::En;
    if name == "help"@ {
        r is ShowHelp
    } else if name == "keys"@ {
        r is ShowKeys
    } else if name == "lang"@ {
        let next = if crate::text::trim_seq(arg).len() == 0 {
            Some(crate::locale::alternate_spec(st.locale))
        } else {
            crate::locale::parse_spec(arg)
        };
        match next {
            Some(l) => r matches SlashStep::SwitchLocale { locale, tip } && locale == l && tip@ == switched_tip(l),
            None => r matches SlashStep::Usage(u) && u@ == (if en { "usage: /lang [zh|en]"@ } else { "用法：/lang [zh|en]"@ }),
        }
    } else if name == "clear"@ {
        r matches SlashStep::ClearScrollback(n) && n@ == (if en { "scrollback cleared"@ } else { "滚动区已清空"@ })
    } else if name == "quit"@ {
        r is Quit
    } else if name == "liang"@ {
        let v = if arg == "on"@ || arg == "show"@ { true } else if arg == "off"@ || arg == "hide"@ { false } else { !st.pet_visible };
        r matches SlashStep::Pet { visible, tip } && visible == v
            && tip@ == (if v { "🤫 小难梁已召唤 — 安静，他在想 AGI · /liang 收回"@ } else { "小难梁去隆基市场买卡了 — /liang 再次召唤"@ })
    } else if name == "theme"@ {
        r matches SlashStep::Theme(a) && a@ == arg
    } else if name == "ui"@ {
        if arg.len() == 0 {
            r is UiPicker
        } else if strings_view(st.ui_plugin_ids@).contains(arg) {
            r matches SlashStep::UiSelect(a) && a@ == arg
        } else {
            r matches SlashStep::Tip(t) && t@ == "unknown UI Plugin: "@ + arg
        }
    } else if name == "plugins"@ {
        r matches SlashStep::StaticPlugins(t) && t@ == (if en { "reading static plugins from Host…"@ } else { "正在从 Host 读取静态插件…"@ })
    } else if name == "cordis-plugins"@ {
        r matches SlashStep::CordisPlugins(t)
            && t@ == (if en { "reading dynamic Cordis plugins from Host…"@ } else { "正在从 Host 读取动态 Cordis 插件…"@ })
    } else if name == "model"@ {
        if arg.len() == 0 { r is ModelPicker } else { r matches SlashStep::SetModel(a) && a@ == arg }
    } else if name == "agent"@ {
        if arg.len() == 0 { r is ModePicker } else { r matches SlashStep::SetMode(a) && a@ == arg }
    } else if name == "new"@ {
        if st.demo {
            r matches SlashStep::NewDemoSession(id) && (if arg.len() == 0 { id is None } else { id matches Some(i) && i@ == arg })
        } else {
            r is NewSession
        }
    } else if name == "session"@ {
        r is SessionInfo
    } else if name == "status"@ {
        r is StatusInfo
    } else if name == "auth"@ {
        r matches SlashStep::StartAuth(a) && a@ == arg
    } else if name == "resume"@ {
        if arg.len() == 0 {
            r is ResumePicker
        } else if !st.demo && st.load_session {
            r matches SlashStep::ListSessions(p) && p@ == arg
        } else {
            r matches SlashStep::ReplayLocal { id, tip } && id@ == arg
                && (if st.demo { tip is None } else { tip matches Some(t) && t@ == "agent did not advertise loadSession — replaying local JSONL"@ })
        }
    } else if name == "effort"@ {
        if arg.len() == 0 {
            r matches SlashStep::FetchEfforts { provider, model } && provider@ == st.provider@ && model@ == st.model@
        } else {
            r matches SlashStep::SelectEffort(e) && e@ == arg
        }
    } else if name == "permission"@ {
        if arg.len() == 0 {
            r is PermissionPicker
        } else {
            r matches SlashStep::SetPermission(p) && p@ == (match crate::app::normalize_spec(arg) { Some(n) => n, None => arg })
        }
    } else if name == "plan"@ {
        r matches SlashStep::Plan(c) && match crate::app::plan_spec(st.skills@, st.plan_active, arg).0 {
            Some((id, v)) => c matches PlanCommand::SetConfigOption { config_id, value } && config_id@ == id && value@ == v,
            None => c matches PlanCommand::SendText(t) && t@ == crate::app::plan_spec(st.skills@, st.plan_active, arg).1,
        }
    } else if name == "image"@ {
        r matches SlashStep::SendImage(a) && a@ == arg
    } else if name == "clip"@ {
        r matches SlashStep::Clip(a) && a@ == arg
    } else {
        r matches SlashStep::Unknown(m) && m@ == (if en {
            "unknown command /"@ + name + " — /help lists commands"@
        } else {
            "未知命令 /"@ + name + " — 使用 /help 查看命令"@
        })
    }
}

/// Whether `x` is one of `ids`.
fn has_id(ids: &Vec<String>, x: &str) -> (b: bool)
    ensures
        b == strings_view(ids@).contains(x@),
{
    let mut i: usize = 0;
    while i < ids.len()
        invariant
            i <= ids@.len(),
            forall|j: int| 0 <= j < i ==> ids@[j]@ != x@,
        decreases ids@.len() - i,
    {
        if str_eq(ids[i].as_str(), x) {
            assert(strings_view(ids@)[i as int] == x@);
            return true;
        }
        i += 1;
    }
    proof {
        if strings_view(ids@).contains(x@) {
            let j = choose|j: int| 0 <= j < strings_view(ids@).len() && strings_view(ids@)[j] == x@;
            assert(ids@[j]@ == x@);
        }
    }
    false
}

/// `a`, `b`, `c` joined.
fn cat3(a: &str, b: &str, c: &str) -> (r: String)
    ensures
        r@ == a@ + b@ + c@,
{
    let mut s = a.to_string();
    s.append(b);
    s.append(c);
    s
}

/// Runs the `/` command `name` with the argument `arg`: what it does in
/// the app's state `st` (see `slash_step_spec`).
pub fn slash_step(st: &SlashState, name: &str, arg: &str) -> (r: SlashStep)
    ensures
        slash_step_spec(*st, name@, arg@, r),
{
    proof {
        reveal_strlit("help");
        reveal_strlit("keys");
        reveal_strlit("lang");
        reveal_strlit("clear");
        reveal_strlit("quit");
        reveal_strlit("liang");
        reveal_strlit("theme");
        reveal_strlit("ui");
        reveal_strlit("plugins");
        reveal_strlit("cordis-plugins");
        reveal_strlit("model");
        reveal_strlit("agent");
        reveal_strlit("new");
        reveal_strlit("session");
        reveal_strlit("status");
        reveal_strlit("auth");
        reveal_strlit("resume");
        reveal_strlit("effort");
        reveal_strlit("permission");
        reveal_strlit("plan");
        reveal_strlit("image");
        reveal_strlit("clip");
        reveal_strlit("");
        reveal_strlit("on");
        reveal_strlit("show");
        reveal_strlit("off");
        reveal_strlit("hide");
        reveal_strlit("unknown UI Plugin: ");
        reveal_strlit("unknown command /");
        reveal_strlit(" — /help lists commands");
        reveal_strlit("未知命令 /");
        reveal_strlit(" — 使用 /help 查看命令");
    }
    if str_eq(name, "help") {
        SlashStep::ShowHelp
    } else if str_eq(name, "keys") {
        SlashStep::ShowKeys
    } else if str_eq(name, "lang") {
        let t = crate::text::trimmed(crate::text::chars_of(arg).as_slice());
        let next = if t.len() == 0 { Some(st.locale.alternate()) } else { Locale::parse(arg) };
        match next {
            Some(l) => {
                let tip = match l {
                    Locale::En => "Language switched to English",
                    Locale::Zh => "界面语言已切换为中文",
                };
                SlashStep::SwitchLocale { locale: l, tip }
            },
            None => SlashStep::Usage(st.locale.tr("usage: /lang [zh|en]", "用法：/lang [zh|en]")),
        }
    } else if str_eq(name, "clear") {
        SlashStep::ClearScrollback(st.locale.tr("scrollback cleared", "滚动区已清空"))
    } else if str_eq(name, "quit") {
        SlashStep::Quit
    } else if str_eq(name, "liang") {
        let visible = crate::app::liang_visible(arg, st.pet_visible);
        let tip = if visible { "🤫 小难梁已召唤 — 安静，他在想 AGI · /liang 收回" } else { "小难梁去隆基市场买卡了 — /liang 再次召唤" };
        SlashStep::Pet { visible, tip }
    } else if str_eq(name, "theme") {
        SlashStep::Theme(arg.to_string())
    } else if str_eq(name, "ui") {
        if arg.unicode_len() == 0 {
            SlashStep::UiPicker
        } else if has_id(&st.ui_plugin_ids, arg) {
            SlashStep::UiSelect(arg.to_string())
        } else {
            SlashStep::Tip(cat3("unknown UI Plugin: ", arg, ""))
        }
    } else if str_eq(name, "plugins") {
        SlashStep::StaticPlugins(st.locale.tr("reading static plugins from Host…", "正在从 Host 读取静态插件…"))
    } else if str_eq(name, "cordis-plugins") {
        SlashStep::CordisPlugins(st.locale.tr("reading dynamic Cordis plugins from Host…", "正在从 Host 读取动态 Cordis 插件…"))
    } else if str_eq(name, "model") {
        if arg.unicode_len() == 0 { SlashStep::ModelPicker } else { SlashStep::SetModel(arg.to_string()) }
    } else if str_eq(name, "agent") {
        if arg.unicode_len() == 0 { SlashStep::ModePicker } else { SlashStep::SetMode(arg.to_string()) }
    } else if str_eq(name, "new") {
        if st.demo {
            if arg.unicode_len() == 0 { SlashStep::NewDemoSession(None) } else { SlashStep::NewDemoSession(Some(arg.to_string())) }
        } else {
            SlashStep::NewSession
        }
    } else if str_eq(name, "session") {
        SlashStep::SessionInfo
    } else if str_eq(name, "status") {
        SlashStep::StatusInfo
    } else if str_eq(name, "auth") {
        SlashStep::StartAuth(arg.to_string())
    } else if str_eq(name, "resume") {
        if arg.unicode_len() == 0 {
            SlashStep::ResumePicker
        } else if !st.demo && st.load_session {
            SlashStep::ListSessions(arg.to_string())
        } else {
            let tip = if st.demo { None } else { Some("agent did not advertise loadSession — replaying local JSONL") };
            SlashStep::ReplayLocal { id: arg.to_string(), tip }
        }
    } else if str_eq(name, "effort") {
        if arg.unicode_len() == 0 {
            SlashStep::FetchEfforts { provider: st.provider.clone(), model: st.model.clone() }
        } else {
            SlashStep::SelectEffort(arg.to_string())
        }
    } else if str_eq(name, "permission") {
        if arg.unicode_len() == 0 {
            SlashStep::PermissionPicker
        } else {
            match crate::app::normalize_permission(arg) {
                Some(p) => SlashStep::SetPermission(p.to_string()),
                None => SlashStep::SetPermission(arg.to_string()),
            }
        }
    } else if str_eq(name, "plan") {
        SlashStep::Plan(crate::app::plan_command(&st.skills, st.plan_active, arg))
    } else if str_eq(name, "image") {
        SlashStep::SendImage(arg.to_string())
    } else if str_eq(name, "clip") {
        SlashStep::Clip(arg.to_string())
    } else if st.locale == Locale::Zh {
        SlashStep::Unknown(cat3("未知命令 /", name, " — 使用 /help 查看命令"))
    } else {
        SlashStep::Unknown(cat3("unknown command /", name, " — /help lists commands"))
    }
}

} // verus!
