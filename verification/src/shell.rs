use vstd::prelude::*;
use crate::text::same_text;

verus! {

/// Label of the main window.
pub const MAIN_LABEL: &'static str = "main";
/// Id of the tray icon.
pub const TRAY_ID: &'static str = "main-tray";
/// Tooltip of the tray icon.
pub const TRAY_TOOLTIP: &'static str = "FloatingMemo";
/// Id of the tray menu item that shows or hides the window.
pub const MENU_TOGGLE_ID: &'static str = "toggle_window";
/// Id of the tray menu item that quits.
pub const MENU_QUIT_ID: &'static str = "quit";

/// What toggling the main window does next.
pub enum ToggleStep {
    /// The window is visible: ask whether it has the focus.
    CheckFocus,
    /// Visible and focused: hide it.
    Hide,
    /// Visible but not focused: give it the focus.
    Focus,
    /// Not visible (or its state is unknown): show it, restore it from the
    /// taskbar and give it the focus.
    ShowAndFocus,
}

/// First step of a toggle, given whether the window reported itself visible.
pub fn toggle_after_visibility(visible: bool) -> (s: ToggleStep)
    ensures
        s == (if visible {
            ToggleStep::CheckFocus
        } else {
            ToggleStep::ShowAndFocus
        }),
{
    if visible {
        ToggleStep::CheckFocus
    } else {
        ToggleStep::ShowAndFocus
    }
}

/// Second step of a toggle of a visible window, given whether it reported
/// itself focused: a focused window is hidden, another one is focused.
pub fn toggle_after_focus(focused: bool) -> (s: ToggleStep)
    ensures
        s == (if focused {
            ToggleStep::Hide
        } else {
            ToggleStep::Focus
        }),
{
    if focused {
        ToggleStep::Hide
    } else {
        ToggleStep::Focus
    }
}

/// What a tray menu item does.
pub enum MenuCommand {
    ToggleWindow,
    /// Quit the application with exit code 0.
    Quit,
    Ignore,
}

/// The command of the tray menu item `id`.
pub fn menu_command(id: &str) -> (c: MenuCommand)
    ensures
        id@ == MENU_TOGGLE_ID@ ==> c == MenuCommand::ToggleWindow,
        id@ == MENU_QUIT_ID@ ==> c == MenuCommand::Quit,
        id@ != MENU_TOGGLE_ID@ && id@ != MENU_QUIT_ID@ ==> c == MenuCommand::Ignore,
{
    if same_text(id, MENU_TOGGLE_ID) {
        proof {
            reveal_strlit("toggle_window");
            reveal_strlit("quit");
            assert(MENU_TOGGLE_ID@.len() != MENU_QUIT_ID@.len());
        }
        MenuCommand::ToggleWindow
    } else if same_text(id, MENU_QUIT_ID) {
        MenuCommand::Quit
    } else {
        MenuCommand::Ignore
    }
}

/// A mouse button.
pub enum PointerButton {
    Left,
    Right,
    Middle,
}

/// Whether a mouse button went down or up.
pub enum PressState {
    Down,
    Up,
}

/// Whether a click on the tray icon toggles the window: only the left
/// button, when it is released.
pub fn tray_click_toggles(button: PointerButton, state: PressState) -> (t: bool)
    ensures
        t == (button is Left && state is Up),
{
    match (button, state) {
        (PointerButton::Left, PressState::Up) => true,
        _ => false,
    }
}

/// A key that a global shortcut can use.
pub enum ShortcutKey {
    Space,
}

/// A global keyboard shortcut: modifiers and a key.
pub struct ShortcutChord {
    pub control: bool,
    pub shift: bool,
    pub alt: bool,
    pub meta: bool,
    pub key: ShortcutKey,
}

/// The shortcut that shows or hides the window: Ctrl+Shift+Space.
pub fn toggle_shortcut() -> (c: ShortcutChord)
    ensures
        c.control && c.shift && !c.alt && !c.meta,
        c.key is Space,
{
    ShortcutChord { control: true, shift: true, alt: false, meta: false, key: ShortcutKey::Space }
}

/// Whether a global shortcut event toggles the window: it is the toggle
/// shortcut, and it was pressed (not released).
pub fn shortcut_toggles(is_toggle_shortcut: bool, pressed: bool) -> (t: bool)
    ensures
        t == (is_toggle_shortcut && pressed),
{
    is_toggle_shortcut && pressed
}

} // verus!
