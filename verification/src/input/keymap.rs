//! The one key-event-to-action table: a pure function with no app
//! access, so every binding is visible and provable in one place. OS
//! conventions live here: command/option chords for macOS (delivered by
//! kitty-protocol terminals or rescued from the modifier probe), ctrl and
//! arrows elsewhere, and the readline control codes macOS terminals send
//! for command chords. The `/keys` documentation rows are checked against
//! the table: each displayed chord resolves to its row's action.

use vstd::prelude::*;
use crate::input::keys::{KeyCode, KeyEvent, KeyModifiers, no_mods};
use crate::text::{join_seq, push_joined, push_str_chars, string_of};

verus! {

/// What a key press should do. Overlays and the slash menu intercept keys
/// before classification.
#[derive(Debug, Clone, Copy, PartialEq, Eq, Structural)]
pub enum Action {
    Insert(char),
    Newline,
    Enter,
    Esc,
    CtrlC,
    Quit,
    ClearScrollback,
    ToggleTheme,
    ToggleExpandAll,
    SendNow,
    AttachClipboard,
    ModelPicker,
    CycleAgent,
    /// Show the shortcut list (`/keys`).
    ShowKeys,
    CyclePermission,
    TabComplete,
    HistoryPrev,
    HistoryNext,
    ScrollHalfUp,
    ScrollHalfDown,
    PageUp,
    PageDown,
    JumpTop,
    JumpTail,
    CursorLeft,
    CursorRight,
    CursorUp,
    CursorDown,
    WordLeft,
    WordRight,
    LineStart,
    LineEnd,
    Backspace,
    DeleteForward,
    DeleteWordBack,
    KillToEnd,
    KillToStart,
}

/// The composer facts the mapping depends on: dual-use keys scroll when
/// the draft is empty and edit when it is not.
#[derive(Debug, Clone, Copy, Default, PartialEq, Eq, Structural)]
pub struct KeyCtx {
    pub input_empty: bool,
}

/// The action of a character key under the given modifiers.
pub open spec fn char_action(c: char, ctrl: bool, alt: bool, shift: bool, sup: bool, ctx: KeyCtx) -> Option<Action> {
    if c == 'c' && ctrl { Some(Action::CtrlC) }
    else if c == 'q' && ctrl { Some(Action::Quit) }
    else if c == 'l' && ctrl { Some(Action::ClearScrollback) }
    else if c == 't' && ctrl { Some(Action::ToggleTheme) }
    else if c == 'o' && ctrl { Some(Action::ToggleExpandAll) }
    else if c == 'x' && ctrl { Some(Action::SendNow) }
    else if c == 'v' && ctrl { Some(Action::AttachClipboard) }
    else if c == 'p' && ctrl { Some(Action::ModelPicker) }
    else if c == 'a' && alt { Some(Action::CycleAgent) }
    else if c == 'a' && ctrl && shift { Some(Action::CycleAgent) }
    else if c == 'a' && ctrl { Some(Action::LineStart) }
    else if c == '.' && ctrl { Some(Action::ShowKeys) }
    else if c == 'u' && ctrl && !ctx.input_empty { Some(Action::KillToStart) }
    else if c == 'd' && ctrl && !ctx.input_empty { Some(Action::DeleteForward) }
    else if c == 'u' && ctrl { Some(Action::ScrollHalfUp) }
    else if c == 'd' && ctrl { Some(Action::ScrollHalfDown) }
    else if c == 'k' && ctrl { Some(Action::KillToEnd) }
    else if c == 'w' && ctrl { Some(Action::DeleteWordBack) }
    else if c == 'e' && ctrl { Some(Action::LineEnd) }
    else if c == 'b' && ctrl { Some(Action::CursorLeft) }
    else if c == 'f' && ctrl { Some(Action::CursorRight) }
    else if c == 'b' && alt { Some(Action::WordLeft) }
    else if c == 'f' && alt { Some(Action::WordRight) }
    else if !ctrl && !alt && !sup { Some(Action::Insert(c)) }
    else { None }
}

/// The key table. `None` means unbound: unrecognised control, option and
/// command chords are ignored rather than typing their base letter.
pub open spec fn classify_spec(key: KeyEvent, ctx: KeyCtx) -> Option<Action> {
    let m = key.modifiers;
    let ctrl = m.control;
    let alt = m.alt;
    let shift = m.shift;
    let sup = m.super_key || m.meta;
    match key.code {
        KeyCode::Enter => if shift { Some(Action::Newline) } else { Some(Action::Enter) },
        KeyCode::Esc => Some(Action::Esc),
        KeyCode::Char(c) => char_action(c, ctrl, alt, shift, sup, ctx),
        KeyCode::BackTab => Some(Action::CyclePermission),
        KeyCode::Tab => if shift { Some(Action::CyclePermission) } else { Some(Action::TabComplete) },
        KeyCode::PageUp => Some(Action::PageUp),
        KeyCode::PageDown => Some(Action::PageDown),
        KeyCode::Home => if ctx.input_empty { Some(Action::JumpTop) } else { Some(Action::LineStart) },
        KeyCode::End => if ctx.input_empty { Some(Action::JumpTail) } else { Some(Action::LineEnd) },
        KeyCode::Left => if sup { Some(Action::LineStart) } else if alt || ctrl { Some(Action::WordLeft) } else { Some(Action::CursorLeft) },
        KeyCode::Right => if sup { Some(Action::LineEnd) } else if alt || ctrl { Some(Action::WordRight) } else { Some(Action::CursorRight) },
        KeyCode::Up => if sup { Some(Action::JumpTop) } else if ctx.input_empty { Some(Action::HistoryPrev) } else { Some(Action::CursorUp) },
        KeyCode::Down => if sup { Some(Action::JumpTail) } else if ctx.input_empty { Some(Action::HistoryNext) } else { Some(Action::CursorDown) },
        KeyCode::Backspace => if sup { Some(Action::KillToStart) } else if alt || ctrl { Some(Action::DeleteWordBack) } else { Some(Action::Backspace) },
        KeyCode::Delete => Some(Action::DeleteForward),
        _ => None,
    }
}

/// Classifies one key event.
pub fn classify(key: &KeyEvent, ctx: KeyCtx) -> (r: Option<Action>)
    ensures
        r == classify_spec(*key, ctx),
{
    let m = key.modifiers;
    let ctrl = m.control;
    let alt = m.alt;
    let shift = m.shift;
    let sup = m.super_key || m.meta;
    match key.code {
        KeyCode::Enter => if shift { Some(Action::Newline) } else { Some(Action::Enter) },
        KeyCode::Esc => Some(Action::Esc),
        KeyCode::Char(c) => {
            if c == 'c' && ctrl { Some(Action::CtrlC) }
            else if c == 'q' && ctrl { Some(Action::Quit) }
            else if c == 'l' && ctrl { Some(Action::ClearScrollback) }
            else if c == 't' && ctrl { Some(Action::ToggleTheme) }
            else if c == 'o' && ctrl { Some(Action::ToggleExpandAll) }
            else if c == 'x' && ctrl { Some(Action::SendNow) }
            else if c == 'v' && ctrl { Some(Action::AttachClipboard) }
            else if c == 'p' && ctrl { Some(Action::ModelPicker) }
            else if c == 'a' && alt { Some(Action::CycleAgent) }
            else if c == 'a' && ctrl && shift { Some(Action::CycleAgent) }
            else if c == 'a' && ctrl { Some(Action::LineStart) }
            else if c == '.' && ctrl { Some(Action::ShowKeys) }
            else if c == 'u' && ctrl && !ctx.input_empty { Some(Action::KillToStart) }
            else if c == 'd' && ctrl && !ctx.input_empty { Some(Action::DeleteForward) }
            else if c == 'u' && ctrl { Some(Action::ScrollHalfUp) }
            else if c == 'd' && ctrl { Some(Action::ScrollHalfDown) }
            else if c == 'k' && ctrl { Some(Action::KillToEnd) }
            else if c == 'w' && ctrl { Some(Action::DeleteWordBack) }
            else if c == 'e' && ctrl { Some(Action::LineEnd) }
            else if c == 'b' && ctrl { Some(Action::CursorLeft) }
            else if c == 'f' && ctrl { Some(Action::CursorRight) }
            else if c == 'b' && alt { Some(Action::WordLeft) }
            else if c == 'f' && alt { Some(Action::WordRight) }
            else if !ctrl && !alt && !sup { Some(Action::Insert(c)) }
            else { None }
        },
        KeyCode::BackTab => Some(Action::CyclePermission),
        KeyCode::Tab => if shift { Some(Action::CyclePermission) } else { Some(Action::TabComplete) },
        KeyCode::PageUp => Some(Action::PageUp),
        KeyCode::PageDown => Some(Action::PageDown),
        KeyCode::Home => if ctx.input_empty { Some(Action::JumpTop) } else { Some(Action::LineStart) },
        KeyCode::End => if ctx.input_empty { Some(Action::JumpTail) } else { Some(Action::LineEnd) },
        KeyCode::Left => if sup { Some(Action::LineStart) } else if alt || ctrl { Some(Action::WordLeft) } else { Some(Action::CursorLeft) },
        KeyCode::Right => if sup { Some(Action::LineEnd) } else if alt || ctrl { Some(Action::WordRight) } else { Some(Action::CursorRight) },
        KeyCode::Up => if sup { Some(Action::JumpTop) } else if ctx.input_empty { Some(Action::HistoryPrev) } else { Some(Action::CursorUp) },
        KeyCode::Down => if sup { Some(Action::JumpTail) } else if ctx.input_empty { Some(Action::HistoryNext) } else { Some(Action::CursorDown) },
        KeyCode::Backspace => if sup { Some(Action::KillToStart) } else if alt || ctrl { Some(Action::DeleteWordBack) } else { Some(Action::Backspace) },
        KeyCode::Delete => Some(Action::DeleteForward),
        _ => None,
    }
}

/// When a binding applies. Context rows are dual-use keys whose meaning
/// changes when the draft is empty.
#[derive(Debug, Clone, Copy, PartialEq, Eq, Structural)]
pub enum CtxNote {
    Always,
    EmptyPrompt,
    Typing,
}

pub open spec fn tag_spec(n: CtxNote, zh: bool) -> Seq<char> {
    match n {
        CtxNote::Always => ""@,
        CtxNote::EmptyPrompt => if zh { "[空输入时]"@ } else { "[empty]"@ },
        CtxNote::Typing => if zh { "[输入时]"@ } else { "[typing]"@ },
    }
}

impl CtxNote {
    /// The context tag printed after a binding's chords.
    pub fn tag(self, zh: bool) -> (r: &'static str)
        ensures
            r@ == tag_spec(self, zh),
    {
        match self {
            CtxNote::Always => "",
            CtxNote::EmptyPrompt => if zh { "[空输入时]" } else { "[empty]" },
            CtxNote::Typing => if zh { "[输入时]" } else { "[typing]" },
        }
    }
}

/// The `/keys` groups, in display order.
#[derive(Debug, Clone, Copy, PartialEq, Eq, Structural)]
pub enum KeyGroup {
    Send,
    Navigate,
    Edit,
    App,
    Mouse,
}

pub open spec fn title_spec(g: KeyGroup, zh: bool) -> Seq<char> {
    match g {
        KeyGroup::Send => if zh { "发送 · 中断"@ } else { "send · interrupt"@ },
        KeyGroup::Navigate => if zh { "滚动 · 导航"@ } else { "scroll · navigate"@ },
        KeyGroup::Edit => if zh { "编辑 · readline"@ } else { "edit · readline"@ },
        KeyGroup::App => if zh { "应用快捷键"@ } else { "app shortcuts"@ },
        KeyGroup::Mouse => if zh { "鼠标"@ } else { "mouse"@ },
    }
}

impl KeyGroup {
    /// The group's heading.
    pub fn title(self, zh: bool) -> (r: &'static str)
        ensures
            r@ == title_spec(self, zh),
    {
        match self {
            KeyGroup::Send => if zh { "发送 · 中断" } else { "send · interrupt" },
            KeyGroup::Navigate => if zh { "滚动 · 导航" } else { "scroll · navigate" },
            KeyGroup::Edit => if zh { "编辑 · readline" } else { "edit · readline" },
            KeyGroup::App => if zh { "应用快捷键" } else { "app shortcuts" },
            KeyGroup::Mouse => if zh { "鼠标" } else { "mouse" },
        }
    }
}

/// One concrete event (code, modifiers, draft empty) that a documented
/// chord stands for.
pub type Probe = (KeyCode, KeyModifiers, bool);

/// One documented key binding.
pub struct KeyRow {
    pub action: Action,
    pub group: KeyGroup,
    /// Display spellings; the platform set is picked when rendering.
    pub chords_mac: Vec<&'static str>,
    pub chords_other: Vec<&'static str>,
    pub ctx: CtxNote,
    pub desc_en: &'static str,
    pub desc_zh: &'static str,
    /// One concrete event per displayed chord, which `classify` maps back
    /// to `action`.
    pub probes: Vec<Probe>,
}

/// The mathematical content of a documented key binding.
#[verifier::ext_equal]
pub struct KeyRowView {
    pub action: Action,
    pub group: KeyGroup,
    pub chords_mac: Seq<Seq<char>>,
    pub chords_other: Seq<Seq<char>>,
    pub ctx: CtxNote,
    pub desc_en: Seq<char>,
    pub desc_zh: Seq<char>,
    pub probes: Seq<Probe>,
}

impl View for KeyRow {
    type V = KeyRowView;

    open spec fn view(&self) -> KeyRowView {
        KeyRowView {
            action: self.action,
            group: self.group,
            chords_mac: self.chords_mac@.map_values(|s: &'static str| s@),
            chords_other: self.chords_other@.map_values(|s: &'static str| s@),
            ctx: self.ctx,
            desc_en: self.desc_en@,
            desc_zh: self.desc_zh@,
            probes: self.probes@,
        }
    }
}

/// The chord spellings shown on one platform.
pub open spec fn chords_spec(r: KeyRowView, mac: bool) -> Seq<Seq<char>> {
    if mac { r.chords_mac } else { r.chords_other }
}

impl KeyRow {
    /// The chord spellings shown on one platform.
    pub fn chords(&self, mac: bool) -> (r: &Vec<&'static str>)
        ensures
            r@.map_values(|s: &'static str| s@) == chords_spec(self@, mac),
    {
        if mac { &self.chords_mac } else { &self.chords_other }
    }
}

/// Mouse affordances live in the app's event path, not in `classify`, so
/// they carry no probes and are documented only.
pub struct MouseRow {
    pub chords: Vec<&'static str>,
    pub desc_en: &'static str,
    pub desc_zh: &'static str,
}

#[verifier::ext_equal]
pub struct MouseRowView {
    pub chords: Seq<Seq<char>>,
    pub desc_en: Seq<char>,
    pub desc_zh: Seq<char>,
}

impl View for MouseRow {
    type V = MouseRowView;

    open spec fn view(&self) -> MouseRowView {
        MouseRowView {
            chords: self.chords@.map_values(|s: &'static str| s@),
            desc_en: self.desc_en@,
            desc_zh: self.desc_zh@,
        }
    }
}

/// Number of documented key bindings.
pub const KEY_ROW_COUNT: usize = 36;

/// The documented binding at position `i` of the `/keys` table.
#[verifier::opaque]
pub open spec fn key_row_spec(i: int) -> KeyRowView {
    if i == 0 {
        KeyRowView {
            action: Action::Enter,
            group: KeyGroup::Send,
            chords_mac: seq!["enter"@],
            chords_other: seq!["enter"@],
            ctx: CtxNote::Always,
            desc_en: "send · follow-ups queue while a turn runs"@,
            desc_zh: "发送；轮次运行时后续输入排队"@,
            probes: seq![(KeyCode::Enter, no_mods(), false)],
        }
    } else if i == 1 {
        KeyRowView {
            action: Action::Newline,
            group: KeyGroup::Send,
            chords_mac: seq!["shift+enter"@],
            chords_other: seq!["shift+enter"@],
            ctx: CtxNote::Always,
            desc_en: "newline in the draft"@,
            desc_zh: "草稿内换行"@,
            probes: seq![(KeyCode::Enter, KeyModifiers { shift: true, ..no_mods() }, false)],
        }
    } else if i == 2 {
        KeyRowView {
            action: Action::SendNow,
            group: KeyGroup::Send,
            chords_mac: seq!["ctrl+x"@],
            chords_other: seq!["ctrl+x"@],
            ctx: CtxNote::Always,
            desc_en: "send now — steers the active turn"@,
            desc_zh: "立即发送（steer 当前轮次）"@,
            probes: seq![(KeyCode::Char('x'), KeyModifiers { control: true, ..no_mods() }, false)],
        }
    } else if i == 3 {
        KeyRowView {
            action: Action::Esc,
            group: KeyGroup::Send,
            chords_mac: seq!["esc"@],
            chords_other: seq!["esc"@],
            ctx: CtxNote::Always,
            desc_en: "interrupt · draft survives; clears when idle"@,
            desc_zh: "中断（草稿保留）；空闲时清除草稿"@,
            probes: seq![(KeyCode::Esc, no_mods(), false)],
        }
    } else if i == 4 {
        KeyRowView {
            action: Action::CtrlC,
            group: KeyGroup::Send,
            chords_mac: seq!["ctrl+c"@],
            chords_other: seq!["ctrl+c"@],
            ctx: CtxNote::Always,
            desc_en: "clear draft · 2× quits with no draft"@,
            desc_zh: "清草稿；无草稿时连按 2 次退出"@,
            probes: seq![(KeyCode::Char('c'), KeyModifiers { control: true, ..no_mods() }, false)],
        }
    } else if i == 5 {
        KeyRowView {
            action: Action::Quit,
            group: KeyGroup::Send,
            chords_mac: seq!["ctrl+q"@],
            chords_other: seq!["ctrl+q"@],
            ctx: CtxNote::Always,
            desc_en: "quit dsh-tui"@,
            desc_zh: "退出 dsh-tui"@,
            probes: seq![(KeyCode::Char('q'), KeyModifiers { control: true, ..no_mods() }, false)],
        }
    } else if i == 6 {
        KeyRowView {
            action: Action::HistoryPrev,
            group: KeyGroup::Navigate,
            chords_mac: seq!["↑"@],
            chords_other: seq!["↑"@],
            ctx: CtxNote::EmptyPrompt,
            desc_en: "previous prompt"@,
            desc_zh: "上一条历史"@,
            probes: seq![(KeyCode::Up, no_mods(), true)],
        }
    } else if i == 7 {
        KeyRowView {
            action: Action::HistoryNext,
            group: KeyGroup::Navigate,
            chords_mac: seq!["↓"@],
            chords_other: seq!["↓"@],
            ctx: CtxNote::EmptyPrompt,
            desc_en: "next prompt"@,
            desc_zh: "下一条历史"@,
            probes: seq![(KeyCode::Down, no_mods(), true)],
        }
    } else if i == 8 {
        KeyRowView {
            action: Action::JumpTop,
            group: KeyGroup::Navigate,
            chords_mac: seq!["home"@, "⌘↑"@],
            chords_other: seq!["home"@],
            ctx: CtxNote::EmptyPrompt,
            desc_en: "transcript top"@,
            desc_zh: "对话顶部"@,
            probes: seq![(KeyCode::Home, no_mods(), true), (KeyCode::Up, KeyModifiers { super_key: true, ..no_mods() }, false)],
        }
    } else if i == 9 {
        KeyRowView {
            action: Action::JumpTail,
            group: KeyGroup::Navigate,
            chords_mac: seq!["end"@, "⌘↓"@],
            chords_other: seq!["end"@],
            ctx: CtxNote::EmptyPrompt,
            desc_en: "transcript tail"@,
            desc_zh: "对话底部"@,
            probes: seq![(KeyCode::End, no_mods(), true), (KeyCode::Down, KeyModifiers { super_key: true, ..no_mods() }, false)],
        }
    } else if i == 10 {
        KeyRowView {
            action: Action::ScrollHalfUp,
            group: KeyGroup::Navigate,
            chords_mac: seq!["ctrl+u"@],
            chords_other: seq!["ctrl+u"@],
            ctx: CtxNote::EmptyPrompt,
            desc_en: "scroll up half a page"@,
            desc_zh: "上翻半页"@,
            probes: seq![(KeyCode::Char('u'), KeyModifiers { control: true, ..no_mods() }, true)],
        }
    } else if i == 11 {
        KeyRowView {
            action: Action::ScrollHalfDown,
            group: KeyGroup::Navigate,
            chords_mac: seq!["ctrl+d"@],
            chords_other: seq!["ctrl+d"@],
            ctx: CtxNote::EmptyPrompt,
            desc_en: "scroll down half a page"@,
            desc_zh: "下翻半页"@,
            probes: seq![(KeyCode::Char('d'), KeyModifiers { control: true, ..no_mods() }, true)],
        }
    } else if i == 12 {
        KeyRowView {
            action: Action::PageUp,
            group: KeyGroup::Navigate,
            chords_mac: seq!["pgup"@],
            chords_other: seq!["pgup"@],
            ctx: CtxNote::Always,
            desc_en: "page up"@,
            desc_zh: "上一页"@,
            probes: seq![(KeyCode::PageUp, no_mods(), false)],
        }
    } else if i == 13 {
        KeyRowView {
            action: Action::PageDown,
            group: KeyGroup::Navigate,
            chords_mac: seq!["pgdn"@],
            chords_other: seq!["pgdn"@],
            ctx: CtxNote::Always,
            desc_en: "page down"@,
            desc_zh: "下一页"@,
            probes: seq![(KeyCode::PageDown, no_mods(), false)],
        }
    } else if i == 14 {
        KeyRowView {
            action: Action::LineStart,
            group: KeyGroup::Edit,
            chords_mac: seq!["home"@, "⌘←"@, "ctrl+a"@],
            chords_other: seq!["home"@, "ctrl+a"@],
            ctx: CtxNote::Typing,
            desc_en: "line start"@,
            desc_zh: "行首"@,
            probes: seq![(KeyCode::Home, no_mods(), false), (KeyCode::Left, KeyModifiers { super_key: true, ..no_mods() }, false), (KeyCode::Char('a'), KeyModifiers { control: true, ..no_mods() }, false)],
        }
    } else if i == 15 {
        KeyRowView {
            action: Action::LineEnd,
            group: KeyGroup::Edit,
            chords_mac: seq!["end"@, "⌘→"@, "ctrl+e"@],
            chords_other: seq!["end"@, "ctrl+e"@],
            ctx: CtxNote::Typing,
            desc_en: "line end"@,
            desc_zh: "行尾"@,
            probes: seq![(KeyCode::End, no_mods(), false), (KeyCode::Right, KeyModifiers { super_key: true, ..no_mods() }, false), (KeyCode::Char('e'), KeyModifiers { control: true, ..no_mods() }, false)],
        }
    } else if i == 16 {
        KeyRowView {
            action: Action::CursorLeft,
            group: KeyGroup::Edit,
            chords_mac: seq!["ctrl+b"@],
            chords_other: seq!["ctrl+b"@],
            ctx: CtxNote::Typing,
            desc_en: "cursor left"@,
            desc_zh: "光标左移"@,
            probes: seq![(KeyCode::Char('b'), KeyModifiers { control: true, ..no_mods() }, false)],
        }
    } else if i == 17 {
        KeyRowView {
            action: Action::CursorRight,
            group: KeyGroup::Edit,
            chords_mac: seq!["ctrl+f"@],
            chords_other: seq!["ctrl+f"@],
            ctx: CtxNote::Typing,
            desc_en: "cursor right"@,
            desc_zh: "光标右移"@,
            probes: seq![(KeyCode::Char('f'), KeyModifiers { control: true, ..no_mods() }, false)],
        }
    } else if i == 18 {
        KeyRowView {
            action: Action::CursorUp,
            group: KeyGroup::Edit,
            chords_mac: seq!["↑"@],
            chords_other: seq!["↑"@],
            ctx: CtxNote::Typing,
            desc_en: "cursor up"@,
            desc_zh: "光标上移"@,
            probes: seq![(KeyCode::Up, no_mods(), false)],
        }
    } else if i == 19 {
        KeyRowView {
            action: Action::CursorDown,
            group: KeyGroup::Edit,
            chords_mac: seq!["↓"@],
            chords_other: seq!["↓"@],
            ctx: CtxNote::Typing,
            desc_en: "cursor down"@,
            desc_zh: "光标下移"@,
            probes: seq![(KeyCode::Down, no_mods(), false)],
        }
    } else if i == 20 {
        KeyRowView {
            action: Action::WordLeft,
            group: KeyGroup::Edit,
            chords_mac: seq!["⌥←"@, "esc-b"@],
            chords_other: seq!["ctrl+←"@],
            ctx: CtxNote::Typing,
            desc_en: "word back"@,
            desc_zh: "按词左移"@,
            probes: seq![(KeyCode::Left, KeyModifiers { alt: true, ..no_mods() }, false), (KeyCode::Char('b'), KeyModifiers { alt: true, ..no_mods() }, false), (KeyCode::Left, KeyModifiers { control: true, ..no_mods() }, false)],
        }
    } else if i == 21 {
        KeyRowView {
            action: Action::WordRight,
            group: KeyGroup::Edit,
            chords_mac: seq!["⌥→"@, "esc-f"@],
            chords_other: seq!["ctrl+→"@],
            ctx: CtxNote::Typing,
            desc_en: "word forward"@,
            desc_zh: "按词右移"@,
            probes: seq![(KeyCode::Right, KeyModifiers { alt: true, ..no_mods() }, false), (KeyCode::Char('f'), KeyModifiers { alt: true, ..no_mods() }, false), (KeyCode::Right, KeyModifiers { control: true, ..no_mods() }, false)],
        }
    } else if i == 22 {
        KeyRowView {
            action: Action::KillToStart,
            group: KeyGroup::Edit,
            chords_mac: seq!["ctrl+u"@, "⌘⌫"@],
            chords_other: seq!["ctrl+u"@],
            ctx: CtxNote::Typing,
            desc_en: "kill to line start"@,
            desc_zh: "删除到行首"@,
            probes: seq![(KeyCode::Char('u'), KeyModifiers { control: true, ..no_mods() }, false), (KeyCode::Backspace, KeyModifiers { super_key: true, ..no_mods() }, false)],
        }
    } else if i == 23 {
        KeyRowView {
            action: Action::KillToEnd,
            group: KeyGroup::Edit,
            chords_mac: seq!["ctrl+k"@],
            chords_other: seq!["ctrl+k"@],
            ctx: CtxNote::Typing,
            desc_en: "kill to line end"@,
            desc_zh: "删除到行尾"@,
            probes: seq![(KeyCode::Char('k'), KeyModifiers { control: true, ..no_mods() }, false)],
        }
    } else if i == 24 {
        KeyRowView {
            action: Action::DeleteWordBack,
            group: KeyGroup::Edit,
            chords_mac: seq!["ctrl+w"@, "⌥⌫"@],
            chords_other: seq!["ctrl+w"@, "ctrl+⌫"@],
            ctx: CtxNote::Typing,
            desc_en: "delete word back"@,
            desc_zh: "删除前一词"@,
            probes: seq![(KeyCode::Char('w'), KeyModifiers { control: true, ..no_mods() }, false), (KeyCode::Backspace, KeyModifiers { alt: true, ..no_mods() }, false), (KeyCode::Backspace, KeyModifiers { control: true, ..no_mods() }, false)],
        }
    } else if i == 25 {
        KeyRowView {
            action: Action::DeleteForward,
            group: KeyGroup::Edit,
            chords_mac: seq!["delete"@, "ctrl+d"@],
            chords_other: seq!["delete"@, "ctrl+d"@],
            ctx: CtxNote::Typing,
            desc_en: "delete forward"@,
            desc_zh: "删除光标后字符"@,
            probes: seq![(KeyCode::Delete, no_mods(), false), (KeyCode::Char('d'), KeyModifiers { control: true, ..no_mods() }, false)],
        }
    } else if i == 26 {
        KeyRowView {
            action: Action::Backspace,
            group: KeyGroup::Edit,
            chords_mac: seq!["⌫"@],
            chords_other: seq!["⌫"@],
            ctx: CtxNote::Typing,
            desc_en: "backspace"@,
            desc_zh: "退格"@,
            probes: seq![(KeyCode::Backspace, no_mods(), false)],
        }
    } else if i == 27 {
        KeyRowView {
            action: Action::CycleAgent,
            group: KeyGroup::App,
            chords_mac: seq!["option+a"@],
            chords_other: seq!["ctrl+shift+a"@],
            ctx: CtxNote::Always,
            desc_en: "cycle agent preset"@,
            desc_zh: "切换 Agent 预设"@,
            probes: seq![(KeyCode::Char('a'), KeyModifiers { alt: true, ..no_mods() }, false), (KeyCode::Char('a'), KeyModifiers { control: true, shift: true, ..no_mods() }, false)],
        }
    } else if i == 28 {
        KeyRowView {
            action: Action::CyclePermission,
            group: KeyGroup::App,
            chords_mac: seq!["shift+tab"@],
            chords_other: seq!["shift+tab"@],
            ctx: CtxNote::Always,
            desc_en: "cycle permission preset (/permission)"@,
            desc_zh: "轮换权限预设（/permission）"@,
            probes: seq![(KeyCode::BackTab, no_mods(), false)],
        }
    } else if i == 29 {
        KeyRowView {
            action: Action::ModelPicker,
            group: KeyGroup::App,
            chords_mac: seq!["ctrl+p"@],
            chords_other: seq!["ctrl+p"@],
            ctx: CtxNote::Always,
            desc_en: "model picker → effort picker"@,
            desc_zh: "模型选择器 → 推理强度"@,
            probes: seq![(KeyCode::Char('p'), KeyModifiers { control: true, ..no_mods() }, false)],
        }
    } else if i == 30 {
        KeyRowView {
            action: Action::ToggleTheme,
            group: KeyGroup::App,
            chords_mac: seq!["ctrl+t"@],
            chords_other: seq!["ctrl+t"@],
            ctx: CtxNote::Always,
            desc_en: "toggle dark/light"@,
            desc_zh: "切换明暗主题"@,
            probes: seq![(KeyCode::Char('t'), KeyModifiers { control: true, ..no_mods() }, false)],
        }
    } else if i == 31 {
        KeyRowView {
            action: Action::ToggleExpandAll,
            group: KeyGroup::App,
            chords_mac: seq!["ctrl+o"@],
            chords_other: seq!["ctrl+o"@],
            ctx: CtxNote::Always,
            desc_en: "expand/collapse thoughts + tool output"@,
            desc_zh: "展开/折叠思考与工具输出"@,
            probes: seq![(KeyCode::Char('o'), KeyModifiers { control: true, ..no_mods() }, false)],
        }
    } else if i == 32 {
        KeyRowView {
            action: Action::ClearScrollback,
            group: KeyGroup::App,
            chords_mac: seq!["ctrl+l"@],
            chords_other: seq!["ctrl+l"@],
            ctx: CtxNote::Always,
            desc_en: "clear scrollback"@,
            desc_zh: "清屏"@,
            probes: seq![(KeyCode::Char('l'), KeyModifiers { control: true, ..no_mods() }, false)],
        }
    } else if i == 33 {
        KeyRowView {
            action: Action::ShowKeys,
            group: KeyGroup::App,
            chords_mac: seq!["ctrl+."@],
            chords_other: seq!["ctrl+."@],
            ctx: CtxNote::Always,
            desc_en: "this shortcut list (/keys)"@,
            desc_zh: "本快捷键列表（/keys）"@,
            probes: seq![(KeyCode::Char('.'), KeyModifiers { control: true, ..no_mods() }, false)],
        }
    } else if i == 34 {
        KeyRowView {
            action: Action::TabComplete,
            group: KeyGroup::App,
            chords_mac: seq!["tab"@],
            chords_other: seq!["tab"@],
            ctx: CtxNote::Always,
            desc_en: "complete /commands"@,
            desc_zh: "补全 / 命令"@,
            probes: seq![(KeyCode::Tab, no_mods(), false)],
        }
    } else {
        KeyRowView {
            action: Action::AttachClipboard,
            group: KeyGroup::App,
            chords_mac: seq!["ctrl+v"@],
            chords_other: seq!["ctrl+v"@],
            ctx: CtxNote::Always,
            desc_en: "attach the clipboard image"@,
            desc_zh: "粘贴剪贴板图片"@,
            probes: seq![(KeyCode::Char('v'), KeyModifiers { control: true, ..no_mods() }, false)],
        }
    }
}

/// The whole `/keys` table, in display order.
pub open spec fn key_rows_spec() -> Seq<KeyRowView> {
    Seq::new(KEY_ROW_COUNT as nat, |i: int| key_row_spec(i))
}

fn key_row_0() -> (r: KeyRow)
    ensures
        r@ == key_row_spec(0),
{
    let r = KeyRow {
        action: Action::Enter,
        group: KeyGroup::Send,
        chords_mac: vec!["enter"],
        chords_other: vec!["enter"],
        ctx: CtxNote::Always,
        desc_en: "send · follow-ups queue while a turn runs",
        desc_zh: "发送；轮次运行时后续输入排队",
        probes: vec![(KeyCode::Enter, KeyModifiers::none(), false)],
    };
    reveal(key_row_spec);
    assert(r@ =~= key_row_spec(0));
    r
}

fn key_row_1() -> (r: KeyRow)
    ensures
        r@ == key_row_spec(1),
{
    let r = KeyRow {
        action: Action::Newline,
        group: KeyGroup::Send,
        chords_mac: vec!["shift+enter"],
        chords_other: vec!["shift+enter"],
        ctx: CtxNote::Always,
        desc_en: "newline in the draft",
        desc_zh: "草稿内换行",
        probes: vec![(KeyCode::Enter, KeyModifiers::shift(), false)],
    };
    reveal(key_row_spec);
    assert(r@ =~= key_row_spec(1));
    r
}

fn key_row_2() -> (r: KeyRow)
    ensures
        r@ == key_row_spec(2),
{
    let r = KeyRow {
        action: Action::SendNow,
        group: KeyGroup::Send,
        chords_mac: vec!["ctrl+x"],
        chords_other: vec!["ctrl+x"],
        ctx: CtxNote::Always,
        desc_en: "send now — steers the active turn",
        desc_zh: "立即发送（steer 当前轮次）",
        probes: vec![(KeyCode::Char('x'), KeyModifiers::control(), false)],
    };
    reveal(key_row_spec);
    assert(r@ =~= key_row_spec(2));
    r
}

fn key_row_3() -> (r: KeyRow)
    ensures
        r@ == key_row_spec(3),
{
    let r = KeyRow {
        action: Action::Esc,
        group: KeyGroup::Send,
        chords_mac: vec!["esc"],
        chords_other: vec!["esc"],
        ctx: CtxNote::Always,
        desc_en: "interrupt · draft survives; clears when idle",
        desc_zh: "中断（草稿保留）；空闲时清除草稿",
        probes: vec![(KeyCode::Esc, KeyModifiers::none(), false)],
    };
    reveal(key_row_spec);
    assert(r@ =~= key_row_spec(3));
    r
}

fn key_row_4() -> (r: KeyRow)
    ensures
        r@ == key_row_spec(4),
{
    let r = KeyRow {
        action: Action::CtrlC,
        group: KeyGroup::Send,
        chords_mac: vec!["ctrl+c"],
        chords_other: vec!["ctrl+c"],
        ctx: CtxNote::Always,
        desc_en: "clear draft · 2× quits with no draft",
        desc_zh: "清草稿；无草稿时连按 2 次退出",
        probes: vec![(KeyCode::Char('c'), KeyModifiers::control(), false)],
    };
    reveal(key_row_spec);
    assert(r@ =~= key_row_spec(4));
    r
}

fn key_row_5() -> (r: KeyRow)
    ensures
        r@ == key_row_spec(5),
{
    let r = KeyRow {
        action: Action::Quit,
        group: KeyGroup::Send,
        chords_mac: vec!["ctrl+q"],
        chords_other: vec!["ctrl+q"],
        ctx: CtxNote::Always,
        desc_en: "quit dsh-tui",
        desc_zh: "退出 dsh-tui",
        probes: vec![(KeyCode::Char('q'), KeyModifiers::control(), false)],
    };
    reveal(key_row_spec);
    assert(r@ =~= key_row_spec(5));
    r
}

fn key_row_6() -> (r: KeyRow)
    ensures
        r@ == key_row_spec(6),
{
    let r = KeyRow {
        action: Action::HistoryPrev,
        group: KeyGroup::Navigate,
        chords_mac: vec!["↑"],
        chords_other: vec!["↑"],
        ctx: CtxNote::EmptyPrompt,
        desc_en: "previous prompt",
        desc_zh: "上一条历史",
        probes: vec![(KeyCode::Up, KeyModifiers::none(), true)],
    };
    reveal(key_row_spec);
    assert(r@ =~= key_row_spec(6));
    r
}

fn key_row_7() -> (r: KeyRow)
    ensures
        r@ == key_row_spec(7),
{
    let r = KeyRow {
        action: Action::HistoryNext,
        group: KeyGroup::Navigate,
        chords_mac: vec!["↓"],
        chords_other: vec!["↓"],
        ctx: CtxNote::EmptyPrompt,
        desc_en: "next prompt",
        desc_zh: "下一条历史",
        probes: vec![(KeyCode::Down, KeyModifiers::none(), true)],
    };
    reveal(key_row_spec);
    assert(r@ =~= key_row_spec(7));
    r
}

fn key_row_8() -> (r: KeyRow)
    ensures
        r@ == key_row_spec(8),
{
    let r = KeyRow {
        action: Action::JumpTop,
        group: KeyGroup::Navigate,
        chords_mac: vec!["home", "⌘↑"],
        chords_other: vec!["home"],
        ctx: CtxNote::EmptyPrompt,
        desc_en: "transcript top",
        desc_zh: "对话顶部",
        probes: vec![(KeyCode::Home, KeyModifiers::none(), true), (KeyCode::Up, KeyModifiers::super_key(), false)],
    };
    reveal(key_row_spec);
    assert(r@ =~= key_row_spec(8));
    r
}

fn key_row_9() -> (r: KeyRow)
    ensures
        r@ == key_row_spec(9),
{
    let r = KeyRow {
        action: Action::JumpTail,
        group: KeyGroup::Navigate,
        chords_mac: vec!["end", "⌘↓"],
        chords_other: vec!["end"],
        ctx: CtxNote::EmptyPrompt,
        desc_en: "transcript tail",
        desc_zh: "对话底部",
        probes: vec![(KeyCode::End, KeyModifiers::none(), true), (KeyCode::Down, KeyModifiers::super_key(), false)],
    };
    reveal(key_row_spec);
    assert(r@ =~= key_row_spec(9));
    r
}

fn key_row_10() -> (r: KeyRow)
    ensures
        r@ == key_row_spec(10),
{
    let r = KeyRow {
        action: Action::ScrollHalfUp,
        group: KeyGroup::Navigate,
        chords_mac: vec!["ctrl+u"],
        chords_other: vec!["ctrl+u"],
        ctx: CtxNote::EmptyPrompt,
        desc_en: "scroll up half a page",
        desc_zh: "上翻半页",
        probes: vec![(KeyCode::Char('u'), KeyModifiers::control(), true)],
    };
    reveal(key_row_spec);
    assert(r@ =~= key_row_spec(10));
    r
}

fn key_row_11() -> (r: KeyRow)
    ensures
        r@ == key_row_spec(11),
{
    let r = KeyRow {
        action: Action::ScrollHalfDown,
        group: KeyGroup::Navigate,
        chords_mac: vec!["ctrl+d"],
        chords_other: vec!["ctrl+d"],
        ctx: CtxNote::EmptyPrompt,
        desc_en: "scroll down half a page",
        desc_zh: "下翻半页",
        probes: vec![(KeyCode::Char('d'), KeyModifiers::control(), true)],
    };
    reveal(key_row_spec);
    assert(r@ =~= key_row_spec(11));
    r
}

fn key_row_12() -> (r: KeyRow)
    ensures
        r@ == key_row_spec(12),
{
    let r = KeyRow {
        action: Action::PageUp,
        group: KeyGroup::Navigate,
        chords_mac: vec!["pgup"],
        chords_other: vec!["pgup"],
        ctx: CtxNote::Always,
        desc_en: "page up",
        desc_zh: "上一页",
        probes: vec![(KeyCode::PageUp, KeyModifiers::none(), false)],
    };
    reveal(key_row_spec);
    assert(r@ =~= key_row_spec(12));
    r
}

fn key_row_13() -> (r: KeyRow)
    ensures
        r@ == key_row_spec(13),
{
    let r = KeyRow {
        action: Action::PageDown,
        group: KeyGroup::Navigate,
        chords_mac: vec!["pgdn"],
        chords_other: vec!["pgdn"],
        ctx: CtxNote::Always,
        desc_en: "page down",
        desc_zh: "下一页",
        probes: vec![(KeyCode::PageDown, KeyModifiers::none(), false)],
    };
    reveal(key_row_spec);
    assert(r@ =~= key_row_spec(13));
    r
}

fn key_row_14() -> (r: KeyRow)
    ensures
        r@ == key_row_spec(14),
{
    let r = KeyRow {
        action: Action::LineStart,
        group: KeyGroup::Edit,
        chords_mac: vec!["home", "⌘←", "ctrl+a"],
        chords_other: vec!["home", "ctrl+a"],
        ctx: CtxNote::Typing,
        desc_en: "line start",
        desc_zh: "行首",
        probes: vec![(KeyCode::Home, KeyModifiers::none(), false), (KeyCode::Left, KeyModifiers::super_key(), false), (KeyCode::Char('a'), KeyModifiers::control(), false)],
    };
    reveal(key_row_spec);
    assert(r@ =~= key_row_spec(14));
    r
}

fn key_row_15() -> (r: KeyRow)
    ensures
        r@ == key_row_spec(15),
{
    let r = KeyRow {
        action: Action::LineEnd,
        group: KeyGroup::Edit,
        chords_mac: vec!["end", "⌘→", "ctrl+e"],
        chords_other: vec!["end", "ctrl+e"],
        ctx: CtxNote::Typing,
        desc_en: "line end",
        desc_zh: "行尾",
        probes: vec![(KeyCode::End, KeyModifiers::none(), false), (KeyCode::Right, KeyModifiers::super_key(), false), (KeyCode::Char('e'), KeyModifiers::control(), false)],
    };
    reveal(key_row_spec);
    assert(r@ =~= key_row_spec(15));
    r
}

fn key_row_16() -> (r: KeyRow)
    ensures
        r@ == key_row_spec(16),
{
    let r = KeyRow {
        action: Action::CursorLeft,
        group: KeyGroup::Edit,
        chords_mac: vec!["ctrl+b"],
        chords_other: vec!["ctrl+b"],
        ctx: CtxNote::Typing,
        desc_en: "cursor left",
        desc_zh: "光标左移",
        probes: vec![(KeyCode::Char('b'), KeyModifiers::control(), false)],
    };
    reveal(key_row_spec);
    assert(r@ =~= key_row_spec(16));
    r
}

fn key_row_17() -> (r: KeyRow)
    ensures
        r@ == key_row_spec(17),
{
    let r = KeyRow {
        action: Action::CursorRight,
        group: KeyGroup::Edit,
        chords_mac: vec!["ctrl+f"],
        chords_other: vec!["ctrl+f"],
        ctx: CtxNote::Typing,
        desc_en: "cursor right",
        desc_zh: "光标右移",
        probes: vec![(KeyCode::Char('f'), KeyModifiers::control(), false)],
    };
    reveal(key_row_spec);
    assert(r@ =~= key_row_spec(17));
    r
}

fn key_row_18() -> (r: KeyRow)
    ensures
        r@ == key_row_spec(18),
{
    let r = KeyRow {
        action: Action::CursorUp,
        group: KeyGroup::Edit,
        chords_mac: vec!["↑"],
        chords_other: vec!["↑"],
        ctx: CtxNote::Typing,
        desc_en: "cursor up",
        desc_zh: "光标上移",
        probes: vec![(KeyCode::Up, KeyModifiers::none(), false)],
    };
    reveal(key_row_spec);
    assert(r@ =~= key_row_spec(18));
    r
}

fn key_row_19() -> (r: KeyRow)
    ensures
        r@ == key_row_spec(19),
{
    let r = KeyRow {
        action: Action::CursorDown,
        group: KeyGroup::Edit,
        chords_mac: vec!["↓"],
        chords_other: vec!["↓"],
        ctx: CtxNote::Typing,
        desc_en: "cursor down",
        desc_zh: "光标下移",
        probes: vec![(KeyCode::Down, KeyModifiers::none(), false)],
    };
    reveal(key_row_spec);
    assert(r@ =~= key_row_spec(19));
    r
}

fn key_row_20() -> (r: KeyRow)
    ensures
        r@ == key_row_spec(20),
{
    let r = KeyRow {
        action: Action::WordLeft,
        group: KeyGroup::Edit,
        chords_mac: vec!["⌥←", "esc-b"],
        chords_other: vec!["ctrl+←"],
        ctx: CtxNote::Typing,
        desc_en: "word back",
        desc_zh: "按词左移",
        probes: vec![(KeyCode::Left, KeyModifiers::alt(), false), (KeyCode::Char('b'), KeyModifiers::alt(), false), (KeyCode::Left, KeyModifiers::control(), false)],
    };
    reveal(key_row_spec);
    assert(r@ =~= key_row_spec(20));
    r
}

fn key_row_21() -> (r: KeyRow)
    ensures
        r@ == key_row_spec(21),
{
    let r = KeyRow {
        action: Action::WordRight,
        group: KeyGroup::Edit,
        chords_mac: vec!["⌥→", "esc-f"],
        chords_other: vec!["ctrl+→"],
        ctx: CtxNote::Typing,
        desc_en: "word forward",
        desc_zh: "按词右移",
        probes: vec![(KeyCode::Right, KeyModifiers::alt(), false), (KeyCode::Char('f'), KeyModifiers::alt(), false), (KeyCode::Right, KeyModifiers::control(), false)],
    };
    reveal(key_row_spec);
    assert(r@ =~= key_row_spec(21));
    r
}

fn key_row_22() -> (r: KeyRow)
    ensures
        r@ == key_row_spec(22),
{
    let r = KeyRow {
        action: Action::KillToStart,
        group: KeyGroup::Edit,
        chords_mac: vec!["ctrl+u", "⌘⌫"],
        chords_other: vec!["ctrl+u"],
        ctx: CtxNote::Typing,
        desc_en: "kill to line start",
        desc_zh: "删除到行首",
        probes: vec![(KeyCode::Char('u'), KeyModifiers::control(), false), (KeyCode::Backspace, KeyModifiers::super_key(), false)],
    };
    reveal(key_row_spec);
    assert(r@ =~= key_row_spec(22));
    r
}

fn key_row_23() -> (r: KeyRow)
    ensures
        r@ == key_row_spec(23),
{
    let r = KeyRow {
        action: Action::KillToEnd,
        group: KeyGroup::Edit,
        chords_mac: vec!["ctrl+k"],
        chords_other: vec!["ctrl+k"],
        ctx: CtxNote::Typing,
        desc_en: "kill to line end",
        desc_zh: "删除到行尾",
        probes: vec![(KeyCode::Char('k'), KeyModifiers::control(), false)],
    };
    reveal(key_row_spec);
    assert(r@ =~= key_row_spec(23));
    r
}

fn key_row_24() -> (r: KeyRow)
    ensures
        r@ == key_row_spec(24),
{
    let r = KeyRow {
        action: Action::DeleteWordBack,
        group: KeyGroup::Edit,
        chords_mac: vec!["ctrl+w", "⌥⌫"],
        chords_other: vec!["ctrl+w", "ctrl+⌫"],
        ctx: CtxNote::Typing,
        desc_en: "delete word back",
        desc_zh: "删除前一词",
        probes: vec![(KeyCode::Char('w'), KeyModifiers::control(), false), (KeyCode::Backspace, KeyModifiers::alt(), false), (KeyCode::Backspace, KeyModifiers::control(), false)],
    };
    reveal(key_row_spec);
    assert(r@ =~= key_row_spec(24));
    r
}

fn key_row_25() -> (r: KeyRow)
    ensures
        r@ == key_row_spec(25),
{
    let r = KeyRow {
        action: Action::DeleteForward,
        group: KeyGroup::Edit,
        chords_mac: vec!["delete", "ctrl+d"],
        chords_other: vec!["delete", "ctrl+d"],
        ctx: CtxNote::Typing,
        desc_en: "delete forward",
        desc_zh: "删除光标后字符",
        probes: vec![(KeyCode::Delete, KeyModifiers::none(), false), (KeyCode::Char('d'), KeyModifiers::control(), false)],
    };
    reveal(key_row_spec);
    assert(r@ =~= key_row_spec(25));
    r
}

fn key_row_26() -> (r: KeyRow)
    ensures
        r@ == key_row_spec(26),
{
    let r = KeyRow {
        action: Action::Backspace,
        group: KeyGroup::Edit,
        chords_mac: vec!["⌫"],
        chords_other: vec!["⌫"],
        ctx: CtxNote::Typing,
        desc_en: "backspace",
        desc_zh: "退格",
        probes: vec![(KeyCode::Backspace, KeyModifiers::none(), false)],
    };
    reveal(key_row_spec);
    assert(r@ =~= key_row_spec(26));
    r
}

fn key_row_27() -> (r: KeyRow)
    ensures
        r@ == key_row_spec(27),
{
    let r = KeyRow {
        action: Action::CycleAgent,
        group: KeyGroup::App,
        chords_mac: vec!["option+a"],
        chords_other: vec!["ctrl+shift+a"],
        ctx: CtxNote::Always,
        desc_en: "cycle agent preset",
        desc_zh: "切换 Agent 预设",
        probes: vec![(KeyCode::Char('a'), KeyModifiers::alt(), false), (KeyCode::Char('a'), KeyModifiers::control().with(KeyModifiers::shift()), false)],
    };
    reveal(key_row_spec);
    assert(r@ =~= key_row_spec(27));
    r
}

fn key_row_28() -> (r: KeyRow)
    ensures
        r@ == key_row_spec(28),
{
    let r = KeyRow {
        action: Action::CyclePermission,
        group: KeyGroup::App,
        chords_mac: vec!["shift+tab"],
        chords_other: vec!["shift+tab"],
        ctx: CtxNote::Always,
        desc_en: "cycle permission preset (/permission)",
        desc_zh: "轮换权限预设（/permission）",
        probes: vec![(KeyCode::BackTab, KeyModifiers::none(), false)],
    };
    reveal(key_row_spec);
    assert(r@ =~= key_row_spec(28));
    r
}

fn key_row_29() -> (r: KeyRow)
    ensures
        r@ == key_row_spec(29),
{
    let r = KeyRow {
        action: Action::ModelPicker,
        group: KeyGroup::App,
        chords_mac: vec!["ctrl+p"],
        chords_other: vec!["ctrl+p"],
        ctx: CtxNote::Always,
        desc_en: "model picker → effort picker",
        desc_zh: "模型选择器 → 推理强度",
        probes: vec![(KeyCode::Char('p'), KeyModifiers::control(), false)],
    };
    reveal(key_row_spec);
    assert(r@ =~= key_row_spec(29));
    r
}

fn key_row_30() -> (r: KeyRow)
    ensures
        r@ == key_row_spec(30),
{
    let r = KeyRow {
        action: Action::ToggleTheme,
        group: KeyGroup::App,
        chords_mac: vec!["ctrl+t"],
        chords_other: vec!["ctrl+t"],
        ctx: CtxNote::Always,
        desc_en: "toggle dark/light",
        desc_zh: "切换明暗主题",
        probes: vec![(KeyCode::Char('t'), KeyModifiers::control(), false)],
    };
    reveal(key_row_spec);
    assert(r@ =~= key_row_spec(30));
    r
}

fn key_row_31() -> (r: KeyRow)
    ensures
        r@ == key_row_spec(31),
{
    let r = KeyRow {
        action: Action::ToggleExpandAll,
        group: KeyGroup::App,
        chords_mac: vec!["ctrl+o"],
        chords_other: vec!["ctrl+o"],
        ctx: CtxNote::Always,
        desc_en: "expand/collapse thoughts + tool output",
        desc_zh: "展开/折叠思考与工具输出",
        probes: vec![(KeyCode::Char('o'), KeyModifiers::control(), false)],
    };
    reveal(key_row_spec);
    assert(r@ =~= key_row_spec(31));
    r
}

fn key_row_32() -> (r: KeyRow)
    ensures
        r@ == key_row_spec(32),
{
    let r = KeyRow {
        action: Action::ClearScrollback,
        group: KeyGroup::App,
        chords_mac: vec!["ctrl+l"],
        chords_other: vec!["ctrl+l"],
        ctx: CtxNote::Always,
        desc_en: "clear scrollback",
        desc_zh: "清屏",
        probes: vec![(KeyCode::Char('l'), KeyModifiers::control(), false)],
    };
    reveal(key_row_spec);
    assert(r@ =~= key_row_spec(32));
    r
}

fn key_row_33() -> (r: KeyRow)
    ensures
        r@ == key_row_spec(33),
{
    let r = KeyRow {
        action: Action::ShowKeys,
        group: KeyGroup::App,
        chords_mac: vec!["ctrl+."],
        chords_other: vec!["ctrl+."],
        ctx: CtxNote::Always,
        desc_en: "this shortcut list (/keys)",
        desc_zh: "本快捷键列表（/keys）",
        probes: vec![(KeyCode::Char('.'), KeyModifiers::control(), false)],
    };
    reveal(key_row_spec);
    assert(r@ =~= key_row_spec(33));
    r
}

fn key_row_34() -> (r: KeyRow)
    ensures
        r@ == key_row_spec(34),
{
    let r = KeyRow {
        action: Action::TabComplete,
        group: KeyGroup::App,
        chords_mac: vec!["tab"],
        chords_other: vec!["tab"],
        ctx: CtxNote::Always,
        desc_en: "complete /commands",
        desc_zh: "补全 / 命令",
        probes: vec![(KeyCode::Tab, KeyModifiers::none(), false)],
    };
    reveal(key_row_spec);
    assert(r@ =~= key_row_spec(34));
    r
}

fn key_row_35() -> (r: KeyRow)
    ensures
        r@ == key_row_spec(35),
{
    let r = KeyRow {
        action: Action::AttachClipboard,
        group: KeyGroup::App,
        chords_mac: vec!["ctrl+v"],
        chords_other: vec!["ctrl+v"],
        ctx: CtxNote::Always,
        desc_en: "attach the clipboard image",
        desc_zh: "粘贴剪贴板图片",
        probes: vec![(KeyCode::Char('v'), KeyModifiers::control(), false)],
    };
    reveal(key_row_spec);
    assert(r@ =~= key_row_spec(35));
    r
}

fn key_row(i: usize) -> (r: KeyRow)
    requires
        i < KEY_ROW_COUNT,
    ensures
        r@ == key_row_spec(i as int),
{
    if i == 0 {
        key_row_0()
    } else if i == 1 {
        key_row_1()
    } else if i == 2 {
        key_row_2()
    } else if i == 3 {
        key_row_3()
    } else if i == 4 {
        key_row_4()
    } else if i == 5 {
        key_row_5()
    } else if i == 6 {
        key_row_6()
    } else if i == 7 {
        key_row_7()
    } else if i == 8 {
        key_row_8()
    } else if i == 9 {
        key_row_9()
    } else if i == 10 {
        key_row_10()
    } else if i == 11 {
        key_row_11()
    } else if i == 12 {
        key_row_12()
    } else if i == 13 {
        key_row_13()
    } else if i == 14 {
        key_row_14()
    } else if i == 15 {
        key_row_15()
    } else if i == 16 {
        key_row_16()
    } else if i == 17 {
        key_row_17()
    } else if i == 18 {
        key_row_18()
    } else if i == 19 {
        key_row_19()
    } else if i == 20 {
        key_row_20()
    } else if i == 21 {
        key_row_21()
    } else if i == 22 {
        key_row_22()
    } else if i == 23 {
        key_row_23()
    } else if i == 24 {
        key_row_24()
    } else if i == 25 {
        key_row_25()
    } else if i == 26 {
        key_row_26()
    } else if i == 27 {
        key_row_27()
    } else if i == 28 {
        key_row_28()
    } else if i == 29 {
        key_row_29()
    } else if i == 30 {
        key_row_30()
    } else if i == 31 {
        key_row_31()
    } else if i == 32 {
        key_row_32()
    } else if i == 33 {
        key_row_33()
    } else if i == 34 {
        key_row_34()
    } else {
        key_row_35()
    }
}

/// The `/keys` table, in display order.
pub fn key_rows() -> (rows: Vec<KeyRow>)
    ensures
        rows@.len() == KEY_ROW_COUNT,
        forall|i: int| 0 <= i < KEY_ROW_COUNT ==> #[trigger] rows@[i]@ == key_row_spec(i),
{
    let mut rows: Vec<KeyRow> = Vec::new();
    let mut i: usize = 0;
    while i < KEY_ROW_COUNT
        invariant
            i <= KEY_ROW_COUNT,
            rows@.len() == i,
            forall|j: int| 0 <= j < i ==> #[trigger] rows@[j]@ == key_row_spec(j),
        decreases KEY_ROW_COUNT - i,
    {
        rows.push(key_row(i));
        i += 1;
    }
    rows
}

/// Number of documented mouse affordances.
pub const MOUSE_ROW_COUNT: usize = 4;

/// The documented mouse affordance at position `i`.
#[verifier::opaque]
pub open spec fn mouse_row_spec(i: int) -> MouseRowView {
    if i == 0 {
        MouseRowView { chords: seq!["click"@], desc_en: "expand/collapse a tool · wheel scrolls"@, desc_zh: "点击展开/折叠工具 · 滚轮滚动"@ }
    } else if i == 1 {
        MouseRowView { chords: seq!["drag"@], desc_en: "select text · copies on release"@, desc_zh: "拖动选择文本，松开即复制"@ }
    } else if i == 2 {
        MouseRowView { chords: seq!["2×click"@], desc_en: "copy a word"@, desc_zh: "双击复制单词"@ }
    } else {
        MouseRowView { chords: seq!["shift+drag"@], desc_en: "terminal-native selection"@, desc_zh: "终端原生选择"@ }
    }
}

fn mouse_row(i: usize) -> (r: MouseRow)
    requires
        i < MOUSE_ROW_COUNT,
    ensures
        r@ == mouse_row_spec(i as int),
{
    if i == 0 {
        let r = MouseRow { chords: vec!["click"], desc_en: "expand/collapse a tool · wheel scrolls", desc_zh: "点击展开/折叠工具 · 滚轮滚动" };
        reveal(mouse_row_spec);
        assert(r@ =~= mouse_row_spec(i as int));
        r
    } else if i == 1 {
        let r = MouseRow { chords: vec!["drag"], desc_en: "select text · copies on release", desc_zh: "拖动选择文本，松开即复制" };
        reveal(mouse_row_spec);
        assert(r@ =~= mouse_row_spec(i as int));
        r
    } else if i == 2 {
        let r = MouseRow { chords: vec!["2×click"], desc_en: "copy a word", desc_zh: "双击复制单词" };
        reveal(mouse_row_spec);
        assert(r@ =~= mouse_row_spec(i as int));
        r
    } else {
        let r = MouseRow { chords: vec!["shift+drag"], desc_en: "terminal-native selection", desc_zh: "终端原生选择" };
        reveal(mouse_row_spec);
        assert(r@ =~= mouse_row_spec(i as int));
        r
    }
}

/// The documented mouse affordances, in display order.
pub fn mouse_rows() -> (rows: Vec<MouseRow>)
    ensures
        rows@.len() == MOUSE_ROW_COUNT,
        forall|i: int| 0 <= i < MOUSE_ROW_COUNT ==> #[trigger] rows@[i]@ == mouse_row_spec(i),
{
    let mut rows: Vec<MouseRow> = Vec::new();
    let mut i: usize = 0;
    while i < MOUSE_ROW_COUNT
        invariant
            i <= MOUSE_ROW_COUNT,
            rows@.len() == i,
            forall|j: int| 0 <= j < i ==> #[trigger] rows@[j]@ == mouse_row_spec(j),
        decreases MOUSE_ROW_COUNT - i,
    {
        rows.push(mouse_row(i));
        i += 1;
    }
    rows
}

/// Whether the `j`-th probe of a documented row classifies to the row's
/// action.
pub open spec fn probe_resolves(r: KeyRowView, j: int) -> bool {
    let p = r.probes[j];
    classify_spec(KeyEvent { code: p.0, modifiers: p.1 }, KeyCtx { input_empty: p.2 }) == Some(r.action)
}

/// The `/keys` table cannot drift from the key table: every displayed
/// chord's probe classifies back to its row's action.
pub proof fn law_documented_chords_resolve_to_their_action()
    ensures
        forall|i: int, j: int| 0 <= i < KEY_ROW_COUNT && 0 <= j < key_row_spec(i).probes.len()
            ==> #[trigger] probe_resolves(key_row_spec(i), j),
{
    assert forall|i: int, j: int| 0 <= i < KEY_ROW_COUNT && 0 <= j < key_row_spec(i).probes.len()
        implies #[trigger] probe_resolves(key_row_spec(i), j) by {
        lemma_row_probes_resolve(i);
    }
}

proof fn lemma_row_probes_resolve(i: int)
    requires
        0 <= i < KEY_ROW_COUNT,
    ensures
        forall|j: int| 0 <= j < key_row_spec(i).probes.len() ==> #[trigger] probe_resolves(key_row_spec(i), j),
{
    reveal(key_row_spec);
    let r = key_row_spec(i);
    assert forall|j: int| 0 <= j < r.probes.len() implies #[trigger] probe_resolves(r, j) by {
        if j == 0 {
            assert(probe_resolves(r, 0));
        } else if j == 1 {
            assert(probe_resolves(r, 1));
        } else {
            assert(probe_resolves(r, 2));
        }
    }
}

/// Whether documented row `i` stands for `a`.
pub open spec fn documents(i: int, a: Action) -> bool {
    key_row_spec(i).action == a
}

/// Every action except typing a character has exactly one documented row,
/// and no row documents typing.
pub proof fn law_each_action_documented_once(a: Action)
    ensures
        !(a is Insert) ==> exists|i: int| 0 <= i < KEY_ROW_COUNT && #[trigger] documents(i, a),
        forall|i: int, k: int| 0 <= i < KEY_ROW_COUNT && 0 <= k < KEY_ROW_COUNT && i != k
            ==> #[trigger] key_row_spec(i).action != #[trigger] key_row_spec(k).action,
        forall|i: int| 0 <= i < KEY_ROW_COUNT ==> !(#[trigger] key_row_spec(i).action is Insert),
{
    lemma_action_has_row(a);
    assert forall|i: int, k: int| 0 <= i < KEY_ROW_COUNT && 0 <= k < KEY_ROW_COUNT && i != k
        implies #[trigger] key_row_spec(i).action != #[trigger] key_row_spec(k).action by {
        lemma_row_action_index(i);
        lemma_row_action_index(k);
    }
    assert forall|i: int| 0 <= i < KEY_ROW_COUNT implies !(#[trigger] key_row_spec(i).action is Insert) by {
        lemma_row_action_index(i);
    }
}

/// A numbering of the documented actions.
pub open spec fn action_index(a: Action) -> int {
    match a {
        Action::Insert(_) => -1,
        Action::Enter => 0,
        Action::Newline => 1,
        Action::SendNow => 2,
        Action::Esc => 3,
        Action::CtrlC => 4,
        Action::Quit => 5,
        Action::HistoryPrev => 6,
        Action::HistoryNext => 7,
        Action::JumpTop => 8,
        Action::JumpTail => 9,
        Action::ScrollHalfUp => 10,
        Action::ScrollHalfDown => 11,
        Action::PageUp => 12,
        Action::PageDown => 13,
        Action::LineStart => 14,
        Action::LineEnd => 15,
        Action::CursorLeft => 16,
        Action::CursorRight => 17,
        Action::CursorUp => 18,
        Action::CursorDown => 19,
        Action::WordLeft => 20,
        Action::WordRight => 21,
        Action::KillToStart => 22,
        Action::KillToEnd => 23,
        Action::DeleteWordBack => 24,
        Action::DeleteForward => 25,
        Action::Backspace => 26,
        Action::CycleAgent => 27,
        Action::CyclePermission => 28,
        Action::ModelPicker => 29,
        Action::ToggleTheme => 30,
        Action::ToggleExpandAll => 31,
        Action::ClearScrollback => 32,
        Action::ShowKeys => 33,
        Action::TabComplete => 34,
        Action::AttachClipboard => 35,
    }
}

proof fn lemma_row_action_index(i: int)
    requires
        0 <= i < KEY_ROW_COUNT,
    ensures
        action_index(key_row_spec(i).action) == i,
{
    reveal(key_row_spec);
}

proof fn lemma_action_has_row(a: Action)
    ensures
        !(a is Insert) ==> exists|i: int| 0 <= i < KEY_ROW_COUNT && #[trigger] documents(i, a),
{
    if !(a is Insert) {
        let i = action_index(a);
        lemma_row_action_index(i);
        assert(documents(i, a));
    }
}

/// The markdown heading that opens the `/keys` text.
pub open spec fn keys_header(zh: bool) -> Seq<char> {
    if zh {
        "## 快捷键\n\n双用途键：`[空输入时]` 滚动，`[输入时]` 编辑。\n\n"@
    } else {
        "## keys — shortcut map\n\nDual-use keys: `[empty]` scrolls, `[typing]` edits.\n\n"@
    }
}

/// One binding line: `- chords [ctx] · description`.
pub open spec fn row_line(r: KeyRowView, zh: bool, mac: bool) -> Seq<char> {
    let tag = tag_spec(r.ctx, zh);
    "- "@ + join_seq(chords_spec(r, mac), " / "@) + (if tag.len() == 0 { Seq::empty() } else { " "@ + tag })
        + " · "@ + (if zh { r.desc_zh } else { r.desc_en }) + "\n"@
}

/// The heading printed before a row of group `g` when the previous row
/// belonged to `prev`: a new heading whenever the group changes, separated
/// by a blank line from an earlier group.
pub open spec fn heading_after(prev: Option<KeyGroup>, g: KeyGroup, zh: bool) -> Seq<char> {
    if prev != Some(g) {
        (if prev is None { Seq::empty() } else { "\n"@ }) + "### "@ + title_spec(g, zh) + "\n\n"@
    } else {
        Seq::empty()
    }
}

/// The group heading that precedes row `i`.
pub open spec fn group_heading(rows: Seq<KeyRowView>, i: int, zh: bool) -> Seq<char> {
    heading_after(if i == 0 { None } else { Some(rows[i - 1].group) }, rows[i].group, zh)
}

fn push_heading(out: &mut Vec<char>, prev: Option<KeyGroup>, g: KeyGroup, zh: bool)
    ensures
        final(out)@ == old(out)@ + heading_after(prev, g, zh),
{
    let same = match prev {
        Some(p) => p == g,
        None => false,
    };
    if !same {
        if prev.is_some() {
            push_str_chars(out, "\n");
        }
        push_str_chars(out, "### ");
        push_str_chars(out, g.title(zh));
        push_str_chars(out, "\n\n");
        assert(out@ =~= old(out)@ + heading_after(prev, g, zh));
    } else {
        assert(out@ =~= old(out)@ + heading_after(prev, g, zh));
    }
}

fn push_row_line(out: &mut Vec<char>, row: &KeyRow, zh: bool, mac: bool)
    ensures
        final(out)@ == old(out)@ + row_line(row@, zh, mac),
{
    push_str_chars(out, "- ");
    push_joined(out, row.chords(mac).as_slice(), " / ");
    let tag = row.ctx.tag(zh);
    if tag.unicode_len() != 0 {
        push_str_chars(out, " ");
        push_str_chars(out, tag);
    }
    push_str_chars(out, " · ");
    push_str_chars(out, if zh { row.desc_zh } else { row.desc_en });
    push_str_chars(out, "\n");
    proof {
        assert(out@ =~= old(out)@ + row_line(row@, zh, mac));
    }
}

fn push_mouse_row(out: &mut Vec<char>, m: &MouseRow, zh: bool)
    ensures
        final(out)@ == old(out)@ + mouse_line(m@, zh),
{
    let ghost before = out@;
    push_str_chars(out, "- ");
    push_joined(out, m.chords.as_slice(), " / ");
    push_str_chars(out, " · ");
    push_str_chars(out, if zh { m.desc_zh } else { m.desc_en });
    push_str_chars(out, "\n");
    proof {
        assert(out@ =~= before + mouse_line(m@, zh));
    }
}

/// The rendered text of the first `n` binding rows.
pub open spec fn rows_md(rows: Seq<KeyRowView>, n: int, zh: bool, mac: bool) -> Seq<char>
    decreases n,
{
    if n <= 0 {
        Seq::empty()
    } else {
        rows_md(rows, n - 1, zh, mac) + group_heading(rows, n - 1, zh) + row_line(rows[n - 1], zh, mac)
    }
}

/// One mouse line: `- chords · description`.
pub open spec fn mouse_line(m: MouseRowView, zh: bool) -> Seq<char> {
    "- "@ + join_seq(m.chords, " / "@) + " · "@ + (if zh { m.desc_zh } else { m.desc_en }) + "\n"@
}

/// The rendered text of the first `n` mouse rows.
pub open spec fn mouse_md(n: int, zh: bool) -> Seq<char>
    decreases n,
{
    if n <= 0 { Seq::empty() } else { mouse_md(n - 1, zh) + mouse_line(mouse_row_spec(n - 1), zh) }
}

/// The whole `/keys` text for one language and platform.
pub open spec fn keys_markdown_spec(zh: bool, mac: bool) -> Seq<char> {
    keys_header(zh) + rows_md(key_rows_spec(), KEY_ROW_COUNT as int, zh, mac) + "\n"@ + "### "@
        + title_spec(KeyGroup::Mouse, zh) + "\n\n"@ + mouse_md(MOUSE_ROW_COUNT as int, zh)
}

/// Renders the `/keys` map as a single-column markdown list: one `### group`
/// heading per group, then one `- chords [ctx] · description` item per
/// binding, then the mouse affordances.
#[verifier::rlimit(40)]
pub fn keys_markdown(zh: bool, mac: bool) -> (md: String)
    ensures
        md@ == keys_markdown_spec(zh, mac),
{
    let mut out: Vec<char> = Vec::new();
    if zh {
        push_str_chars(&mut out, "## 快捷键\n\n双用途键：`[空输入时]` 滚动，`[输入时]` 编辑。\n\n");
    } else {
        push_str_chars(&mut out, "## keys — shortcut map\n\nDual-use keys: `[empty]` scrolls, `[typing]` edits.\n\n");
    }
    let rows = key_rows();
    let ghost spec_rows = key_rows_spec();
    let mut i: usize = 0;
    while i < rows.len()
        invariant
            rows@.len() == KEY_ROW_COUNT,
            spec_rows == key_rows_spec(),
            forall|j: int| 0 <= j < KEY_ROW_COUNT ==> #[trigger] rows@[j]@ == key_row_spec(j),
            i <= KEY_ROW_COUNT,
            out@ == keys_header(zh) + rows_md(spec_rows, i as int, zh, mac),
        decreases KEY_ROW_COUNT - i,
    {
        let ghost before = out@;
        let prev = if i == 0 { None } else { Some(rows[i - 1].group) };
        proof {
            if i > 0 {
                assert(rows@[i - 1]@ == spec_rows[i - 1]);
            }
            assert(rows@[i as int]@ == spec_rows[i as int]);
        }
        push_heading(&mut out, prev, rows[i].group, zh);
        push_row_line(&mut out, &rows[i], zh, mac);
        proof {
            let h = heading_after(prev, rows@[i as int].group, zh);
            let l = row_line(rows@[i as int]@, zh, mac);
            assert(group_heading(spec_rows, i as int, zh) == h);
            assert(l == row_line(spec_rows[i as int], zh, mac));
            assert(rows_md(spec_rows, i + 1, zh, mac) == rows_md(spec_rows, i as int, zh, mac) + h + l);
            assert(out@ == before + h + l);
            assert(out@ =~= keys_header(zh) + rows_md(spec_rows, i + 1, zh, mac));
        }
        i += 1;
    }
    let ghost after_rows = out@;
    push_str_chars(&mut out, "\n");
    push_str_chars(&mut out, "### ");
    push_str_chars(&mut out, KeyGroup::Mouse.title(zh));
    push_str_chars(&mut out, "\n\n");
    let ghost prefix = out@;
    assert(after_rows == keys_header(zh) + rows_md(key_rows_spec(), KEY_ROW_COUNT as int, zh, mac));
    assert(prefix =~= keys_header(zh) + rows_md(key_rows_spec(), KEY_ROW_COUNT as int, zh, mac) + "\n"@ + "### "@
        + title_spec(KeyGroup::Mouse, zh) + "\n\n"@);
    let mouse = mouse_rows();
    let mut k: usize = 0;
    while k < mouse.len()
        invariant
            mouse@.len() == MOUSE_ROW_COUNT,
            forall|j: int| 0 <= j < MOUSE_ROW_COUNT ==> #[trigger] mouse@[j]@ == mouse_row_spec(j),
            k <= MOUSE_ROW_COUNT,
            out@ == prefix + mouse_md(k as int, zh),
            prefix == keys_header(zh) + rows_md(key_rows_spec(), KEY_ROW_COUNT as int, zh, mac) + "\n"@ + "### "@
                + title_spec(KeyGroup::Mouse, zh) + "\n\n"@,
        decreases MOUSE_ROW_COUNT - k,
    {
        proof {
            assert(mouse@[k as int]@ == mouse_row_spec(k as int));
        }
        push_mouse_row(&mut out, &mouse[k], zh);
        k += 1;
    }
    proof {
        assert(out@ =~= keys_markdown_spec(zh, mac));
    }
    string_of(out.as_slice())
}

/// Typing: a character key pressed without control, option, command or
/// meta types that very character, shifted or not and whatever the draft
/// holds.
pub proof fn law_plain_char_key_types_itself(c: char, shift: bool, hyper: bool, ctx: KeyCtx)
    ensures
        classify_spec(
            KeyEvent { code: KeyCode::Char(c), modifiers: KeyModifiers { shift, control: false, alt: false, super_key: false, hyper, meta: false } },
            ctx,
        ) == Some(Action::Insert(c)),
{
}

/// Only typing inserts: a key that classifies to inserting `x` is the
/// character key `x` pressed without control, option, command or meta.
pub proof fn law_insert_comes_from_its_char_key(key: KeyEvent, ctx: KeyCtx, x: char)
    requires
        classify_spec(key, ctx) == Some(Action::Insert(x)),
    ensures
        key.code == KeyCode::Char(x),
        !key.modifiers.control && !key.modifiers.alt && !key.modifiers.super_key && !key.modifiers.meta,
{
}

} // verus!
