//! Putting new settings to use.

use rs_sc::error::AppError;
use rs_sc::hotkeys::{
    apply_hotkey, registration_error, save_settings, swap_hotkey, unregister_hotkey,
    validate_settings, ApplyStep, SwapAction, SwapEvent,
};
use rs_sc::settings::Settings;

fn settings(hotkey: &str, settings_hotkey: &str) -> Settings {
    Settings {
        base_url: "u".to_string(),
        api_key: String::new(),
        model: "m".to_string(),
        prompt: String::new(),
        hotkey: hotkey.to_string(),
        settings_hotkey: settings_hotkey.to_string(),
    }
}

fn complaint(s: &Settings, ink: &str) -> String {
    match validate_settings(s, ink) {
        Ok(()) => String::new(),
        Err(AppError::Capture(m)) => m,
        Err(_) => unreachable!(),
    }
}

#[test]
fn blank_values_are_refused_in_order() {
    let mut s = settings(" ", "");
    s.base_url = " \t".to_string();
    s.model = String::new();
    assert_eq!(complaint(&s, ""), "Base URL 不能为空");
    s.base_url = "u".to_string();
    assert_eq!(complaint(&s, ""), "Model 不能为空");
    s.model = "m".to_string();
    assert_eq!(complaint(&s, ""), "截屏快捷键不能为空");
    s.hotkey = "a".to_string();
    assert_eq!(complaint(&s, ""), "设置快捷键不能为空");
    s.settings_hotkey = "b".to_string();
    assert_eq!(complaint(&s, " "), "手写快捷键不能为空");
    assert_eq!(complaint(&s, "c"), "");
}

#[test]
fn equal_hotkeys_are_refused() {
    let same = "截屏、设置、手写三个快捷键必须两两不同";
    assert_eq!(complaint(&settings("Ctrl+A", " ctrl+a "), "x"), same);
    assert_eq!(complaint(&settings("Ctrl+A", "b"), "CTRL+A"), same);
    assert_eq!(complaint(&settings("a", "Ctrl+B"), "ctrl+b"), same);
    assert_eq!(complaint(&settings("a", "b"), "c"), "");
}

fn show(steps: &[ApplyStep]) -> Vec<String> {
    steps
        .iter()
        .map(|s| match s {
            ApplyStep::SetConfig(c) => format!("config {}", c.base_url),
            ApplyStep::SwapHotkey { slot, old, new } => format!("{:?} {} {}", slot, old, new),
            ApplyStep::Persist => "persist".to_string(),
        })
        .collect()
}

#[test]
fn changed_hotkeys_are_swapped_and_the_disk_comes_last() {
    let old = settings("a", "b");
    let i = "i".to_string();
    let steps = save_settings(&old, &i, &settings("a", "b"), &i).unwrap();
    assert_eq!(show(&steps), vec!["config u", "persist"]);
    let steps = save_settings(&old, &i, &settings("x", "y"), &"z".to_string()).unwrap();
    assert_eq!(
        show(&steps),
        vec!["config u", "Capture a x", "Settings b y", "Ink i z", "persist"]
    );
    let steps = save_settings(&old, &i, &settings("a", "b "), &i).unwrap();
    assert_eq!(show(&steps), vec!["config u", "Settings b b ", "persist"]);
}

#[test]
fn refused_settings_do_nothing() {
    let old = settings("a", "b");
    let i = "i".to_string();
    assert!(save_settings(&old, &i, &settings("a", "a"), &i).is_err());
}

#[test]
fn hotkeys_are_registered_without_white_space() {
    assert_eq!(apply_hotkey(" Ctrl+A\n").unwrap(), "Ctrl+A");
    match apply_hotkey("  ") {
        Err(AppError::Capture(m)) => assert_eq!(m, "empty hotkey"),
        _ => unreachable!(),
    }
    assert_eq!(unregister_hotkey(" Ctrl+A "), Some("Ctrl+A".to_string()));
    assert_eq!(unregister_hotkey(" "), None);
    assert_eq!(registration_error("taken").message(), "capture error: register hotkey: taken");
}

fn swap(old: &str, new: &str, event: SwapEvent) -> String {
    match swap_hotkey(old, new, event) {
        SwapAction::Register(c) => format!("register {}", c),
        SwapAction::Unregister(c) => format!("unregister {}", c),
        SwapAction::Finish(Ok(())) => "done".to_string(),
        SwapAction::Finish(Err(e)) => e.message(),
    }
}

#[test]
fn new_hotkey_is_registered_before_the_old_one_goes() {
    assert_eq!(swap(" a ", " b ", SwapEvent::Started), "register b");
    assert_eq!(swap(" a ", " b ", SwapEvent::Registered), "unregister a");
    assert_eq!(swap(" a ", " b ", SwapEvent::Unregistered), "done");
    assert_eq!(swap(" ", "b", SwapEvent::Registered), "done");
}

#[test]
fn failed_swap_keeps_the_old_hotkey() {
    assert_eq!(
        swap("a", "b", SwapEvent::RegisterFailed { error: "taken".to_string() }),
        "capture error: 新快捷键 'b' 注册失败: capture error: register hotkey: taken（已保留旧快捷键 'a'）"
    );
    assert_eq!(
        swap("a", " ", SwapEvent::Started),
        "capture error: 新快捷键 ' ' 注册失败: capture error: empty hotkey（已保留旧快捷键 'a'）"
    );
}
