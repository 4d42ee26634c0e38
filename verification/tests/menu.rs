use gameboy_core::menu::{
    focus_move, settings_button, settings_index_of, settings_items, Bind, NavInput, SetItem,
    SETTINGS_BUTTON_COUNT, SHADER_CONTROLS,
};
use gameboy_core::{JoypadButton, JoypadState};

#[test]
fn settings_list_layout() {
    let items = settings_items();
    assert_eq!(items.len(), 3 + 2 * SETTINGS_BUTTON_COUNT + SHADER_CONTROLS);
    assert_eq!(items[0], SetItem::ChangeFolder);
    assert_eq!(items[1], SetItem::Device);
    assert_eq!(items[2], SetItem::Binding(Bind::Pad(JoypadButton::Up), false));
    assert_eq!(items[3], SetItem::Binding(Bind::Pad(JoypadButton::Up), true));
    assert_eq!(items[20], SetItem::Binding(Bind::Pause, false));
    assert_eq!(items[22], SetItem::Palette);
    assert_eq!(items[30], SetItem::Shader(7));
    for (i, item) in items.iter().enumerate() {
        assert_eq!(settings_index_of(*item), Some(i));
    }
    assert_eq!(settings_index_of(SetItem::Shader(8)), None);
}

#[test]
fn settings_buttons_in_order() {
    assert_eq!(settings_button(0), Bind::Pad(JoypadButton::Up));
    assert_eq!(settings_button(7), Bind::Pad(JoypadButton::Select));
    assert_eq!(settings_button(8), Bind::Menu);
    assert_eq!(settings_button(9), Bind::Pause);
}

#[test]
fn focus_switches_binding_column() {
    let key = SetItem::Binding(Bind::Menu, false);
    assert_eq!(focus_move(key, false, false, false, true), Some(SetItem::Binding(Bind::Menu, true)));
    assert_eq!(focus_move(key, false, false, true, false), None);
    let pad = SetItem::Binding(Bind::Menu, true);
    assert_eq!(focus_move(pad, false, false, true, false), Some(key));
}

#[test]
fn focus_moves_between_rows_and_wraps() {
    assert_eq!(focus_move(SetItem::ChangeFolder, true, false, false, false), Some(SetItem::Shader(7)));
    assert_eq!(focus_move(SetItem::Shader(7), false, true, false, false), Some(SetItem::ChangeFolder));
    assert_eq!(
        focus_move(SetItem::Device, false, true, false, false),
        Some(SetItem::Binding(Bind::Pad(JoypadButton::Up), false))
    );
    assert_eq!(
        focus_move(SetItem::Binding(Bind::Pause, true), false, true, false, false),
        Some(SetItem::Palette)
    );
    assert_eq!(
        focus_move(SetItem::Palette, true, false, false, false),
        Some(SetItem::Binding(Bind::Pause, false))
    );
    assert_eq!(
        focus_move(SetItem::Binding(Bind::Pad(JoypadButton::Down), true), true, false, false, false),
        Some(SetItem::Binding(Bind::Pad(JoypadButton::Up), true))
    );
    assert_eq!(focus_move(SetItem::Shader(0), true, false, false, false), Some(SetItem::Palette));
    assert_eq!(focus_move(SetItem::Palette, false, false, false, false), None);
}

#[test]
fn focus_down_then_up_returns() {
    let items = settings_items();
    for (i, item) in items.iter().enumerate() {
        let next = focus_move(*item, false, true, false, false).expect("down moves");
        let back = focus_move(next, true, false, false, false).expect("up moves");
        if i == 21 {
            assert_eq!(back, SetItem::Binding(Bind::Pause, false));
        } else {
            assert_eq!(back, *item);
        }
    }
}

#[test]
fn nav_input_reads_new_presses_only() {
    let before = JoypadState::new().with(JoypadButton::Up, true);
    let now = before
        .with(JoypadButton::Down, true)
        .with(JoypadButton::Start, true)
        .with(JoypadButton::Select, true);
    let nav = NavInput::between(before, now);
    assert!(!nav.up);
    assert!(nav.down);
    assert!(nav.select);
    assert!(nav.menu);
    assert!(!nav.back);
    assert!(!nav.left && !nav.right);
}
