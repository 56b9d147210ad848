use aerowm::input::{build_combo, builtin_binding, KeyAction, Modifiers};
use aerowm::ipc::{acknowledges, plan_command, IpcAction, IpcCommand, WorkspaceAction};
use aerowm::rules::{evaluate_rules, text_contains, RuleEntry, RuleMatch, WindowRules};
use aerowm::text::to_decimal;

fn mods(logo: bool, alt: bool, ctrl: bool, shift: bool) -> Modifiers {
    Modifiers { logo, alt, ctrl, shift }
}

#[test]
fn combos_are_canonical() {
    assert_eq!(build_combo(mods(true, false, false, false), "Return"), "Super+Return");
    assert_eq!(build_combo(mods(true, false, false, true), "Q"), "Super+Shift+q");
    assert_eq!(build_combo(mods(true, true, true, true), "x"), "Super+Alt+Control+Shift+x");
    assert_eq!(build_combo(mods(false, false, false, false), "F1"), "F1");
    assert_eq!(build_combo(mods(false, true, false, false), "Ä"), "Alt+Ä");
}

#[test]
fn builtin_bindings() {
    assert_eq!(builtin_binding("Super+q"), Some(KeyAction::KillActive));
    assert_eq!(builtin_binding("Super+Tab"), Some(KeyAction::FocusNext));
    assert_eq!(builtin_binding("Super+j"), Some(KeyAction::FocusNext));
    assert_eq!(builtin_binding("Super+k"), Some(KeyAction::FocusPrev));
    assert_eq!(builtin_binding("Super+Return"), Some(KeyAction::SpawnTerminal));
    assert_eq!(builtin_binding("Super+m"), Some(KeyAction::SwapMaster));
    assert_eq!(builtin_binding("Super+comma"), Some(KeyAction::PrevWorkspace));
    assert_eq!(builtin_binding("Super+period"), Some(KeyAction::NextWorkspace));
    assert_eq!(builtin_binding("Super+Shift+q"), Some(KeyAction::Exit));
    assert_eq!(builtin_binding("Super+1"), Some(KeyAction::SwitchWorkspace(0)));
    assert_eq!(builtin_binding("Super+9"), Some(KeyAction::SwitchWorkspace(8)));
    assert_eq!(builtin_binding("Super+0"), None);
    assert_eq!(builtin_binding("Super+12"), None);
    assert_eq!(builtin_binding("Alt+1"), None);
    assert_eq!(builtin_binding("Super+x"), None);
}

#[test]
fn ipc_commands_plan_actions() {
    let ws = |action| IpcCommand::Workspace { action };
    assert_eq!(plan_command(ws(WorkspaceAction::Switch(3))), IpcAction::SwitchWorkspace(2));
    assert_eq!(plan_command(ws(WorkspaceAction::Switch(0))), IpcAction::SwitchWorkspace(0));
    assert_eq!(plan_command(ws(WorkspaceAction::Next)), IpcAction::NextWorkspace);
    assert_eq!(plan_command(IpcCommand::Subscribe), IpcAction::Subscribe);
    assert_eq!(plan_command(IpcCommand::GetState), IpcAction::GetState);
    assert!(!acknowledges(IpcAction::Subscribe));
    assert!(acknowledges(IpcAction::Exit));
}

fn rule(class: Option<&str>, title: Option<&str>, set: WindowRules) -> RuleEntry {
    RuleEntry {
        matcher: Some(RuleMatch {
            class: class.map(|s| s.to_string()),
            title: title.map(|s| s.to_string()),
        }),
        set: Some(set),
    }
}

#[test]
fn test_window_rules() {
    let rules = vec![
        rule(
            Some("kitty"),
            None,
            WindowRules { floating: Some(true), workspace: Some(3), scratchpad: None },
        ),
        rule(
            Some("firefox"),
            Some("YouTube"),
            WindowRules { floating: None, workspace: Some(4), scratchpad: None },
        ),
    ];

    let r1 = evaluate_rules(&rules, "kitty", None);
    assert_eq!(r1.floating, Some(true));
    assert_eq!(r1.workspace, Some(3));

    let r2 = evaluate_rules(&rules, "firefox", Some("YouTube - Mozilla Firefox"));
    assert_eq!(r2.workspace, Some(4));
    assert_eq!(r2.floating, None);
}

#[test]
fn later_rules_override_and_titles_need_a_title() {
    let rules = vec![
        rule(None, None, WindowRules { floating: Some(true), workspace: Some(1), scratchpad: None }),
        rule(Some("x"), None, WindowRules { floating: Some(false), workspace: None, scratchpad: Some(true) }),
        rule(None, Some("t"), WindowRules { floating: None, workspace: Some(5), scratchpad: None }),
        RuleEntry { matcher: None, set: Some(WindowRules { floating: None, workspace: Some(9), scratchpad: None }) },
    ];
    let r = evaluate_rules(&rules, "x", None);
    assert_eq!(r, WindowRules { floating: Some(false), workspace: Some(1), scratchpad: Some(true) });
    let r = evaluate_rules(&rules, "y", Some("at"));
    assert_eq!(r, WindowRules { floating: Some(true), workspace: Some(5), scratchpad: None });
}

#[test]
fn substring_search() {
    assert!(text_contains("YouTube - Mozilla Firefox", "YouTube"));
    assert!(text_contains("abc", ""));
    assert!(text_contains("abc", "bc"));
    assert!(!text_contains("abc", "abcd"));
    assert!(!text_contains("abc", "ac"));
}

#[test]
fn decimal_names() {
    assert_eq!(to_decimal(0), "0");
    assert_eq!(to_decimal(7), "7");
    assert_eq!(to_decimal(1234), "1234");
}
