use floating_memo::shell::{
    menu_command, shortcut_toggles, toggle_after_focus, toggle_after_visibility, toggle_shortcut,
    tray_click_toggles, MenuCommand, PointerButton, PressState, ShortcutKey, ToggleStep,
};

#[test]
fn toggle_steps() {
    assert!(matches!(toggle_after_visibility(true), ToggleStep::CheckFocus));
    assert!(matches!(toggle_after_visibility(false), ToggleStep::ShowAndFocus));
    assert!(matches!(toggle_after_focus(true), ToggleStep::Hide));
    assert!(matches!(toggle_after_focus(false), ToggleStep::Focus));
}

#[test]
fn tray_menu_and_clicks() {
    assert!(matches!(menu_command("toggle_window"), MenuCommand::ToggleWindow));
    assert!(matches!(menu_command("quit"), MenuCommand::Quit));
    assert!(matches!(menu_command("other"), MenuCommand::Ignore));
    assert!(tray_click_toggles(PointerButton::Left, PressState::Up));
    assert!(!tray_click_toggles(PointerButton::Left, PressState::Down));
    assert!(!tray_click_toggles(PointerButton::Right, PressState::Up));
    assert!(!tray_click_toggles(PointerButton::Middle, PressState::Up));
}

#[test]
fn global_shortcut() {
    let c = toggle_shortcut();
    assert!(c.control && c.shift && !c.alt && !c.meta);
    assert!(matches!(c.key, ShortcutKey::Space));
    assert!(shortcut_toggles(true, true));
    assert!(!shortcut_toggles(true, false));
    assert!(!shortcut_toggles(false, true));
}
