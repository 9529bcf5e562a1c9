use dsh_tui::acp_auth::AuthMethodInfo;
use dsh_tui::app::SlashEntry;
use dsh_tui::bus::{CatalogModel, CatalogPreset, SkillInfo};
use dsh_tui::locale::Locale;
use dsh_tui::editor::Input;
use dsh_tui::slash::{slash_step, SlashState, SlashStep};
use dsh_tui::app::PlanCommand;
use dsh_tui::slash::{
    accept_slash, host_catalog_models_from, SlashAccept, PaletteChoice, PluginCommand, PluginCommandInput, PluginCommandOption, SlashContext,
    UiPluginChoice,
};

fn ctx() -> SlashContext {
    SlashContext {
        locale: Locale::En,
        plugin_commands: Vec::new(),
        skills: Vec::new(),
        last_models: Vec::new(),
        host_models: None,
        model: "deepseek-v4".to_string(),
        last_presets: Vec::new(),
        effort_choices: Vec::new(),
        permission_choices: Vec::new(),
        palettes: Vec::new(),
        ui_plugins: Vec::new(),
        auth_methods: Vec::new(),
    }
}

fn skill(name: &str, client_command: bool) -> SkillInfo {
    SkillInfo { name: name.to_string(), description: format!("{name} skill"), config_action: None, client_command }
}

fn names(entries: &[SlashEntry]) -> Vec<String> {
    entries.iter().map(|e| e.name.clone()).collect()
}

fn completions(entries: &[SlashEntry]) -> Vec<String> {
    entries.iter().map(|e| e.completion.clone().unwrap_or_default()).collect()
}

#[test]
fn only_slash_text_opens_the_menu() {
    assert!(ctx().slash_matches("help").is_empty());
    assert!(ctx().slash_matches("").is_empty());
    let all = ctx().slash_matches("/");
    assert_eq!(all.len(), 21);
    assert_eq!(all[0].name, "help");
    assert_eq!(all[0].usage, "/help");
    assert!(all.iter().all(|e| !e.skill && !e.plugin && e.completion.is_none()));
}

#[test]
fn prefix_filters_builtins_plugins_and_skills() {
    let mut c = ctx();
    c.plugin_commands.push(PluginCommand { name: "help".into(), description: "shadowed".into(), input: None });
    c.plugin_commands.push(PluginCommand {
        name: "hue".into(),
        description: "tint".into(),
        input: Some(PluginCommandInput { hint: "color".into(), options: Vec::new() }),
    });
    c.skills.push(skill("hue", false));
    c.skills.push(skill("hunt", false));
    c.skills.push(skill("Logout", false));
    c.skills.push(skill("hook", true));
    let m = c.slash_matches("/h");
    assert_eq!(names(&m), vec!["help", "hue", "hunt", "hook"]);
    assert_eq!(m[1].usage, "/hue [color]");
    assert!(m[1].plugin && !m[1].skill);
    assert!(m[2].skill && !m[2].plugin);
    assert_eq!(m[2].usage, "/hunt");
    assert!(m[3].plugin && !m[3].skill);
    assert!(c.slash_matches("/lo").iter().all(|e| e.name != "Logout"));
}

#[test]
fn an_exact_name_comes_first() {
    let mut c = ctx();
    c.skills.push(skill("mod", false));
    let m = c.slash_matches("/mod");
    assert_eq!(names(&m), vec!["mod", "model"]);
}

#[test]
fn chinese_locale_translates_builtin_descriptions() {
    let mut c = ctx();
    c.locale = Locale::Zh;
    let m = c.slash_matches("/help");
    assert_eq!(m[0].desc, "显示帮助和使用提示");
    assert_eq!(ctx().slash_matches("/help")[0].desc, "show help and tips");
}

#[test]
fn model_arguments_fall_back_to_presets_with_the_configured_model() {
    let mut c = ctx();
    c.model = "my-model".into();
    let m = c.slash_matches("/model ");
    assert_eq!(
        names(&m).len(),
        6
    );
    assert_eq!(m[0].usage, "my-model");
    assert_eq!(m[1].usage, "deepseek-v4-flash");
    assert_eq!(m[0].completion.as_deref(), Some("/model my-model"));
    let narrowed = c.slash_matches("/model deepseek-v4");
    assert_eq!(completions(&narrowed), vec!["/model deepseek-v4-flash", "/model deepseek-v4"]);
    // The configured model is not repeated when the list has it.
    let d = ctx().slash_matches("/model ");
    assert_eq!(d.len(), 5);
}

#[test]
fn model_arguments_prefer_the_catalog_then_the_host_list() {
    let mut c = ctx();
    c.host_models = Some(vec!["h1".into(), "deepseek-v4".into()]);
    assert_eq!(completions(&c.slash_matches("/model ")), vec!["/model h1", "/model deepseek-v4"]);
    c.last_models.push(CatalogModel { provider: "ds".into(), id: "ds/v3".into(), name: "V3".into(), vision: false });
    let m = c.slash_matches("/model ");
    assert_eq!(m.len(), 1);
    assert_eq!(m[0].usage, "V3");
    assert_eq!(m[0].desc, "ds");
    assert_eq!(m[0].completion.as_deref(), Some("/model ds/v3"));
}

#[test]
fn argument_prefix_trims_leading_space_and_refuses_inner_space() {
    let m = ctx().slash_matches("/effort   h");
    assert_eq!(completions(&m), vec!["/effort high"]);
    assert!(ctx().slash_matches("/effort h x").is_empty());
    assert!(ctx().slash_matches("/quit now").is_empty());
}

#[test]
fn plugin_commands_offer_their_own_arguments() {
    let mut c = ctx();
    c.plugin_commands.push(PluginCommand {
        name: "pick".into(),
        description: "choose".into(),
        input: Some(PluginCommandInput {
            hint: "item".into(),
            options: vec![
                PluginCommandOption { value: "bar".into(), label: Some("Bar".into()), description: Some("first".into()) },
                PluginCommandOption { value: "baz".into(), label: None, description: None },
                PluginCommandOption { value: "qux".into(), label: None, description: None },
            ],
        }),
    });
    let m = c.slash_matches("/pick ba");
    assert_eq!(completions(&m), vec!["/pick bar", "/pick baz"]);
    assert_eq!(m[0].usage, "Bar");
    assert_eq!(m[0].desc, "first");
    assert_eq!(m[1].usage, "baz");
    assert_eq!(m[1].desc, "");
    assert!(m.iter().all(|e| e.plugin));
}

#[test]
fn builtin_argument_tables() {
    let mut c = ctx();
    c.palettes.push(PaletteChoice { id: "ember".into(), label: "Ember".into(), loaded: true });
    c.palettes.push(PaletteChoice { id: "ice".into(), label: "Ice".into(), loaded: false });
    c.ui_plugins.push(UiPluginChoice { id: "u".into(), label: "U".into(), source: "host".into(), status: "on".into() });
    c.auth_methods.push(AuthMethodInfo {
        id: "key".into(),
        name: None,
        description: Some("api key".into()),
        auth_type: "agent".into(),
        form: false,
        vars: Vec::new(),
        link: None,
        terminal_launch: None,
    });
    c.effort_choices = vec!["low".into()];
    c.permission_choices.push(CatalogPreset { id: "p".into(), name: "P".into(), description: "d".into(), broken: false });
    let theme = c.builtin_argument_options("theme");
    assert_eq!(theme[0], ("ember".to_string(), "Ember".to_string(), "theme plugin".to_string()));
    assert_eq!(theme[1].2, "theme plugin · stopped");
    assert_eq!(c.builtin_argument_options("ui")[0].2, "host · on");
    assert_eq!(c.builtin_argument_options("auth")[0], ("key".to_string(), "key".to_string(), "api key".to_string()));
    assert_eq!(c.builtin_argument_options("effort"), vec![("low".to_string(), "low".to_string(), String::new())]);
    assert_eq!(c.builtin_argument_options("permission")[0].1, "P");
    assert_eq!(ctx().builtin_argument_options("permission").len(), 3);
    assert_eq!(ctx().builtin_argument_options("permission")[0].0, "read-only");
    assert_eq!(ctx().builtin_argument_options("agent").len(), 4);
    assert_eq!(ctx().builtin_argument_options("lang")[0].2, "中文");
    assert_eq!(ctx().builtin_argument_options("plan").len(), 2);
    assert_eq!(ctx().builtin_argument_options("liang")[1].2, "hide pet");
    assert!(ctx().builtin_argument_options("help").is_empty());
}

#[test]
fn host_catalog_lists_ids_and_objects() {
    assert_eq!(
        host_catalog_models_from(r#"["a", {"id": "b"}, 3, {"name": "x"}]"#),
        Some(vec!["a".to_string(), "b".to_string()])
    );
    assert_eq!(host_catalog_models_from("[]"), None);
    assert_eq!(host_catalog_models_from("[1, 2]"), None);
    assert_eq!(host_catalog_models_from("{\"id\": \"a\"}"), None);
    assert_eq!(host_catalog_models_from("not json"), None);
}

fn entry(name: &str, skill: bool, plugin: bool, completion: Option<&str>) -> SlashEntry {
    SlashEntry {
        name: name.to_string(),
        usage: format!("/{name}"),
        desc: String::new(),
        skill,
        plugin,
        completion: completion.map(|c| c.to_string()),
    }
}

#[test]
fn accepting_a_builtin_runs_it_with_its_arguments() {
    let mut input = Input::new();
    input.set("/model   fast ".to_string());
    let r = accept_slash(&mut input, &entry("model", false, false, None));
    assert_eq!(r, SlashAccept::Run { name: "model".into(), args: "fast".into() });
    assert_eq!(input.buf, "");
    assert!(input.history.is_empty());
}

#[test]
fn accepting_a_candidate_uses_its_completion() {
    let mut input = Input::new();
    input.set("/mo".to_string());
    let r = accept_slash(&mut input, &entry("model", false, false, Some("/model deepseek-v4")));
    assert_eq!(r, SlashAccept::Run { name: "model".into(), args: "deepseek-v4".into() });
    assert_eq!(input.buf, "");
}

#[test]
fn accepting_a_plugin_command_invokes_it_and_records_history() {
    let mut input = Input::new();
    input.set("/hue red".to_string());
    let r = accept_slash(&mut input, &entry("hue", false, true, None));
    assert_eq!(r, SlashAccept::InvokePlugin { name: "hue".into(), args: "red".into() });
    assert_eq!(input.buf, "");
    assert_eq!(input.history, vec!["/hue red".to_string()]);
}

#[test]
fn accepting_a_skill_completes_then_submits() {
    let mut input = Input::new();
    input.set("/hu".to_string());
    let r = accept_slash(&mut input, &entry("hunt", true, false, None));
    assert_eq!(r, SlashAccept::Completed);
    assert_eq!(input.buf, "/hunt ");
    assert_eq!(input.cursor, 6);
    input.set("/hunt deer".to_string());
    let r = accept_slash(&mut input, &entry("hunt", true, false, None));
    assert_eq!(r, SlashAccept::Submit);
    assert_eq!(input.buf, "/hunt deer");
}

#[test]
fn a_line_without_the_name_runs_with_no_arguments() {
    let mut input = Input::new();
    input.set("/he".to_string());
    let r = accept_slash(&mut input, &entry("help", false, false, None));
    assert_eq!(r, SlashAccept::Run { name: "help".into(), args: String::new() });
}

fn app_state(demo: bool) -> SlashState {
    SlashState {
        demo,
        locale: Locale::En,
        pet_visible: false,
        load_session: true,
        provider: "deepseek-official".into(),
        model: "deepseek-v4".into(),
        plan_active: false,
        skills: Vec::new(),
        ui_plugin_ids: vec!["glass".into()],
    }
}

#[test]
fn slash_commands_map_to_their_steps() {
    let st = app_state(false);
    assert!(matches!(slash_step(&st, "help", ""), SlashStep::ShowHelp));
    assert!(matches!(slash_step(&st, "lang", " "), SlashStep::SwitchLocale { locale: Locale::Zh, tip } if tip == "界面语言已切换为中文"));
    assert!(matches!(slash_step(&st, "lang", "en"), SlashStep::SwitchLocale { locale: Locale::En, .. }));
    assert!(matches!(slash_step(&st, "lang", "fr"), SlashStep::Usage(u) if u == "usage: /lang [zh|en]"));
    assert!(matches!(slash_step(&st, "liang", ""), SlashStep::Pet { visible: true, .. }));
    assert!(matches!(slash_step(&st, "liang", "off"), SlashStep::Pet { visible: false, tip } if tip.starts_with("小难梁去")));
    assert!(matches!(slash_step(&st, "ui", "glass"), SlashStep::UiSelect(id) if id == "glass"));
    assert!(matches!(slash_step(&st, "ui", "fog"), SlashStep::Tip(t) if t == "unknown UI Plugin: fog"));
    assert!(matches!(slash_step(&st, "model", ""), SlashStep::ModelPicker));
    assert!(matches!(slash_step(&st, "model", "m2"), SlashStep::SetModel(m) if m == "m2"));
    assert!(matches!(slash_step(&st, "new", "x"), SlashStep::NewSession));
    assert!(matches!(slash_step(&app_state(true), "new", ""), SlashStep::NewDemoSession(None)));
    assert!(matches!(slash_step(&app_state(true), "new", "abc"), SlashStep::NewDemoSession(Some(id)) if id == "abc"));
    assert!(matches!(slash_step(&st, "resume", "ab"), SlashStep::ListSessions(p) if p == "ab"));
    let mut no_load = app_state(false);
    no_load.load_session = false;
    assert!(matches!(slash_step(&no_load, "resume", "ab"), SlashStep::ReplayLocal { tip: Some(_), .. }));
    assert!(matches!(slash_step(&app_state(true), "resume", "ab"), SlashStep::ReplayLocal { tip: None, .. }));
    assert!(matches!(slash_step(&st, "effort", ""), SlashStep::FetchEfforts { model, .. } if model == "deepseek-v4"));
    assert!(matches!(slash_step(&st, "effort", "max"), SlashStep::SelectEffort(e) if e == "max"));
    assert!(matches!(slash_step(&st, "permission", "yolo"), SlashStep::SetPermission(p) if p == "danger-full-access"));
    assert!(matches!(slash_step(&st, "permission", "custom"), SlashStep::SetPermission(p) if p == "custom"));
    assert!(matches!(slash_step(&st, "plan", "go"), SlashStep::Plan(PlanCommand::SendText(t)) if t == "/plan go"));
    assert!(matches!(slash_step(&st, "frob", ""), SlashStep::Unknown(m) if m == "unknown command /frob — /help lists commands"));
    let mut zh = app_state(false);
    zh.locale = Locale::Zh;
    assert!(matches!(slash_step(&zh, "frob", ""), SlashStep::Unknown(m) if m == "未知命令 /frob — 使用 /help 查看命令"));
    assert!(matches!(slash_step(&zh, "clear", ""), SlashStep::ClearScrollback(n) if n == "滚动区已清空"));
}
