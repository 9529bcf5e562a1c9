//! Built-in client localisation. Agent and plugin payloads stay as their
//! owner wrote them; this module only localises client-owned chrome and
//! the built-in commands.

use vstd::prelude::*;
use crate::text::{chars_eq, lower_seq, str_eq, token_of, trim_seq};

verus! {

#[derive(Clone, Copy, Debug, Default, PartialEq, Eq, Structural)]
pub enum Locale {
    #[default]
    En,
    Zh,
}

/// The locale a setting value names, matched after trimming and ASCII
/// lower-casing.
pub open spec fn parse_spec(value: Seq<char>) -> Option<Locale> {
    let t = lower_seq(trim_seq(value));
    if t == "en"@ || t == "en-us"@ || t == "en_us"@ {
        Some(Locale::En)
    } else if t == "zh"@ || t == "zh-cn"@ || t == "zh_cn"@ || t == "cn"@ {
        Some(Locale::Zh)
    } else {
        None
    }
}

/// Chinese description of a built-in slash command, if it has one.
pub open spec fn command_desc_zh(name: Seq<char>) -> Option<Seq<char>> {
    if name == "help"@ { Some("显示帮助和使用提示"@) }
    else if name == "keys"@ { Some("查看键盘快捷键"@) }
    else if name == "new"@ { Some("开始一个新会话"@) }
    else if name == "resume"@ { Some("恢复当前工作区的持久会话"@) }
    else if name == "clear"@ { Some("清空对话滚动区"@) }
    else if name == "model"@ { Some("通过 ACP 实时切换模型"@) }
    else if name == "agent"@ { Some("切换 Agent 预设 · option+a"@) }
    else if name == "effort"@ { Some("设置当前会话的推理强度"@) }
    else if name == "permission"@ { Some("选择权限预设 · shift+tab 轮换"@) }
    else if name == "plan"@ { Some("切换 Host 计划模式"@) }
    else if name == "image"@ { Some("发送本地图片（png/jpeg/webp/gif）"@) }
    else if name == "clip"@ { Some("附加剪贴板图片（macOS/Linux）"@) }
    else if name == "theme"@ { Some("切换明暗模式或主题包"@) }
    else if name == "plugins"@ { Some("停用或恢复动态插件"@) }
    else if name == "session"@ { Some("显示会话和运行时信息"@) }
    else if name == "auth"@ { Some("ACP 登录（Backchat authenticate）"@) }
    else if name == "lang"@ { Some("切换界面语言"@) }
    else if name == "logo"@ { Some("让鲸鱼重新出现"@) }
    else if name == "liang"@ { Some("召唤小难梁 — 🤫 空闲 · ⌨︎ 工作中"@) }
    else if name == "quit"@ { Some("退出 dsh-tui"@) }
    else { None }
}

/// Number of rotating ambient tips.
pub const AMBIENT_TIP_COUNT: usize = 8;

/// The `i`-th English ambient tip (`i < 8`).
pub open spec fn tip_en(i: int) -> Seq<char> {
    if i == 0 { "esc interrupts a running turn — your draft survives"@ }
    else if i == 1 { "type ! to run a command in the session's persistent local shell"@ }
    else if i == 2 { "enter queues a follow-up; ctrl+x steers the active turn now"@ }
    else if i == 3 { "click a tool to expand it · wheel always scrolls the conversation"@ }
    else if i == 4 { "the footer under the composer shows token usage + cache hit rate"@ }
    else if i == 5 { "answers render markdown: headings, code, links, and images"@ }
    else if i == 6 { "/agent or option+a switches the agent preset"@ }
    else { "/new starts a fresh session · /theme switches packs · ctrl+t toggles dark/light"@ }
}

/// The `i`-th Chinese ambient tip (`i < 8`).
pub open spec fn tip_zh(i: int) -> Seq<char> {
    if i == 0 { "esc 可中断当前轮次，草稿会保留"@ }
    else if i == 1 { "输入 ! 可直接运行本地命令，不经过 Agent"@ }
    else if i == 2 { "enter 会排队后续消息；ctrl+x 立即 steer 当前轮次"@ }
    else if i == 3 { "点击工具可展开 · 滚轮始终滚动对话"@ }
    else if i == 4 { "输入框下方显示 token 用量和缓存命中率"@ }
    else if i == 5 { "回答支持 Markdown：标题、代码、链接和图片"@ }
    else if i == 6 { "/agent 或 option+a 可切换 Agent 预设"@ }
    else { "/new 新建会话 · /theme 切换主题包 · ctrl+t 切换明暗模式"@ }
}

fn tip_en_at(i: usize) -> (r: &'static str)
    requires
        i < 8,
    ensures
        r@ == tip_en(i as int),
{
    if i == 0 { "esc interrupts a running turn — your draft survives" }
    else if i == 1 { "type ! to run a command in the session's persistent local shell" }
    else if i == 2 { "enter queues a follow-up; ctrl+x steers the active turn now" }
    else if i == 3 { "click a tool to expand it · wheel always scrolls the conversation" }
    else if i == 4 { "the footer under the composer shows token usage + cache hit rate" }
    else if i == 5 { "answers render markdown: headings, code, links, and images" }
    else if i == 6 { "/agent or option+a switches the agent preset" }
    else { "/new starts a fresh session · /theme switches packs · ctrl+t toggles dark/light" }
}

fn tip_zh_at(i: usize) -> (r: &'static str)
    requires
        i < 8,
    ensures
        r@ == tip_zh(i as int),
{
    if i == 0 { "esc 可中断当前轮次，草稿会保留" }
    else if i == 1 { "输入 ! 可直接运行本地命令，不经过 Agent" }
    else if i == 2 { "enter 会排队后续消息；ctrl+x 立即 steer 当前轮次" }
    else if i == 3 { "点击工具可展开 · 滚轮始终滚动对话" }
    else if i == 4 { "输入框下方显示 token 用量和缓存命中率" }
    else if i == 5 { "回答支持 Markdown：标题、代码、链接和图片" }
    else if i == 6 { "/agent 或 option+a 可切换 Agent 预设" }
    else { "/new 新建会话 · /theme 切换主题包 · ctrl+t 切换明暗模式" }
}

impl Locale {
    /// The locale a setting value names (`en`, `en-us`, `en_us`; `zh`,
    /// `zh-cn`, `zh_cn`, `cn`), ignoring surrounding whitespace and ASCII
    /// case.
    pub fn parse(value: &str) -> (r: Option<Self>)
        ensures
            r == parse_spec(value@),
    {
        let t = token_of(value);
        let t = t.as_slice();
        if chars_eq(t, "en") || chars_eq(t, "en-us") || chars_eq(t, "en_us") {
            Some(Locale::En)
        } else if chars_eq(t, "zh") || chars_eq(t, "zh-cn") || chars_eq(t, "zh_cn") || chars_eq(t, "cn") {
            Some(Locale::Zh)
        } else {
            None
        }
    }

    /// The other locale.
    pub fn alternate(self) -> (r: Self)
        ensures
            r == alternate_spec(self),
    {
        match self {
            Locale::En => Locale::Zh,
            Locale::Zh => Locale::En,
        }
    }

    /// Picks the text written for this locale.
    pub fn tr(self, en: &'static str, zh: &'static str) -> (r: &'static str)
        ensures
            r == (if self == Locale::En { en } else { zh }),
    {
        match self {
            Locale::En => en,
            Locale::Zh => zh,
        }
    }

    /// Description of the built-in slash command `name`: the caller's
    /// English `fallback` in English, else the Chinese text when there is
    /// one.
    pub fn command_desc(self, name: &str, fallback: &'static str) -> (r: &'static str)
        ensures
            self == Locale::En ==> r == fallback,
            self == Locale::Zh ==> r@ == (match command_desc_zh(name@) {
                Some(d) => d,
                None => fallback@,
            }),
    {
        if self == Locale::En {
            return fallback;
        }
        if str_eq(name, "help") { "显示帮助和使用提示" }
        else if str_eq(name, "keys") { "查看键盘快捷键" }
        else if str_eq(name, "new") { "开始一个新会话" }
        else if str_eq(name, "resume") { "恢复当前工作区的持久会话" }
        else if str_eq(name, "clear") { "清空对话滚动区" }
        else if str_eq(name, "model") { "通过 ACP 实时切换模型" }
        else if str_eq(name, "agent") { "切换 Agent 预设 · option+a" }
        else if str_eq(name, "effort") { "设置当前会话的推理强度" }
        else if str_eq(name, "permission") { "选择权限预设 · shift+tab 轮换" }
        else if str_eq(name, "plan") { "切换 Host 计划模式" }
        else if str_eq(name, "image") { "发送本地图片（png/jpeg/webp/gif）" }
        else if str_eq(name, "clip") { "附加剪贴板图片（macOS/Linux）" }
        else if str_eq(name, "theme") { "切换明暗模式或主题包" }
        else if str_eq(name, "plugins") { "停用或恢复动态插件" }
        else if str_eq(name, "session") { "显示会话和运行时信息" }
        else if str_eq(name, "auth") { "ACP 登录（Backchat authenticate）" }
        else if str_eq(name, "lang") { "切换界面语言" }
        else if str_eq(name, "logo") { "让鲸鱼重新出现" }
        else if str_eq(name, "liang") { "召唤小难梁 — 🤫 空闲 · ⌨︎ 工作中" }
        else if str_eq(name, "quit") { "退出 dsh-tui" }
        else { fallback }
    }

    /// The ambient tip shown in rotation slot `index` (slots repeat every
    /// eight).
    pub fn ambient_tip(self, index: usize) -> (r: &'static str)
        ensures
            self == Locale::En ==> r@ == tip_en((index % 8) as int),
            self == Locale::Zh ==> r@ == tip_zh((index % 8) as int),
    {
        match self {
            Locale::En => tip_en_at(index % 8),
            Locale::Zh => tip_zh_at(index % 8),
        }
    }
}

/// Persisted interface settings.
#[derive(Clone, Copy, Debug, Default)]
pub struct LocaleSettings {
    pub language: Locale,
}

/// The other locale.
pub open spec fn alternate_spec(l: Locale) -> Locale {
    match l {
        Locale::En => Locale::Zh,
        Locale::Zh => Locale::En,
    }
}

/// Switching locale always changes it, and switching twice returns to the
/// starting locale.
pub proof fn law_alternate_is_an_involution(l: Locale)
    ensures
        alternate_spec(l) != l,
        alternate_spec(alternate_spec(l)) == l,
{
}

} // verus!
