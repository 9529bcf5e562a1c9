use dsh_tui::locale::{Locale, LocaleSettings, AMBIENT_TIP_COUNT};

#[test]
fn parse_accepts_spellings_case_and_whitespace() {
    assert_eq!(Locale::parse("en"), Some(Locale::En));
    assert_eq!(Locale::parse("  EN-us\t"), Some(Locale::En));
    assert_eq!(Locale::parse("en_US"), Some(Locale::En));
    assert_eq!(Locale::parse("zh"), Some(Locale::Zh));
    assert_eq!(Locale::parse(" Zh-CN "), Some(Locale::Zh));
    assert_eq!(Locale::parse("cn"), Some(Locale::Zh));
    assert_eq!(Locale::parse("fr"), None);
    assert_eq!(Locale::parse(""), None);
}

#[test]
fn alternate_flips_and_tr_picks() {
    assert_eq!(Locale::En.alternate(), Locale::Zh);
    assert_eq!(Locale::Zh.alternate().alternate(), Locale::Zh);
    assert_eq!(Locale::En.tr("hi", "你好"), "hi");
    assert_eq!(Locale::Zh.tr("hi", "你好"), "你好");
    assert_eq!(LocaleSettings::default().language, Locale::En);
}

#[test]
fn command_desc_localizes_builtins_only() {
    assert_eq!(Locale::En.command_desc("help", "show help"), "show help");
    assert_eq!(Locale::Zh.command_desc("help", "show help"), "显示帮助和使用提示");
    assert_eq!(Locale::Zh.command_desc("quit", "exit"), "退出 dsh-tui");
    assert_eq!(Locale::Zh.command_desc("mystery", "fallback"), "fallback");
}

#[test]
fn ambient_tips_rotate_every_eight() {
    assert_eq!(AMBIENT_TIP_COUNT, 8);
    assert_eq!(Locale::En.ambient_tip(0), "esc interrupts a running turn — your draft survives");
    assert_eq!(Locale::En.ambient_tip(9), Locale::En.ambient_tip(1));
    assert_eq!(Locale::Zh.ambient_tip(7), "/new 新建会话 · /theme 切换主题包 · ctrl+t 切换明暗模式");
}
