use gameboy_core::input::{
    add_missing_controls, mappings, menu_pressed, read_joypad_state, rebind_key, rebind_pad,
    AxisDirection, ControlBinding, InputBinding, MAPPING_COUNT,
};
use gameboy_core::menu::Bind;
use gameboy_core::JoypadButton;
use gameboy_core::input::gamepad_code_label;

type Binding = InputBinding<char, u8, u32, u8>;
type Control = ControlBinding<char, u8, u32, u8>;

fn control(button: Bind, inputs: Vec<Binding>) -> Control {
    ControlBinding { button, inputs }
}

fn keys(c: &Control) -> Vec<char> {
    c.inputs
        .iter()
        .filter_map(|i| match i {
            InputBinding::Keyboard(k) => Some(*k),
            _ => None,
        })
        .collect()
}

#[test]
fn rebind_key_replaces_first_key() {
    let mut controls = vec![control(
        Bind::Pad(JoypadButton::A),
        vec![InputBinding::GamepadButton(1), InputBinding::Keyboard('z'), InputBinding::Keyboard('k')],
    )];
    rebind_key(&mut controls, Bind::Pad(JoypadButton::A), 'j');
    assert_eq!(keys(&controls[0]), vec!['j', 'k']);
    assert_eq!(controls[0].inputs.len(), 3);
}

#[test]
fn rebind_key_adds_when_none() {
    let mut controls = vec![control(Bind::Menu, vec![InputBinding::GamepadButton(4)])];
    rebind_key(&mut controls, Bind::Menu, 'q');
    assert_eq!(keys(&controls[0]), vec!['q']);
    rebind_key(&mut controls, Bind::Pause, 'p');
    assert_eq!(controls.len(), 1);
    assert_eq!(controls[0].inputs.len(), 2);
}

#[test]
fn rebind_pad_uses_code_for_unknown_button() {
    let mut controls = vec![control(
        Bind::Pad(JoypadButton::B),
        vec![
            InputBinding::Keyboard('x'),
            InputBinding::GamepadAxis { axis: 0, direction: AxisDirection::Positive },
            InputBinding::GamepadCode(9),
        ],
    )];
    rebind_pad(&mut controls, Bind::Pad(JoypadButton::B), 7, 77, false);
    assert!(matches!(controls[0].inputs[2], InputBinding::GamepadCode(77)));
    rebind_pad(&mut controls, Bind::Pad(JoypadButton::B), 7, 77, true);
    assert!(matches!(controls[0].inputs[2], InputBinding::GamepadButton(7)));
    assert_eq!(controls[0].inputs.len(), 3);
}

#[test]
fn defaults_fill_missing_controls_only() {
    let mut controls = vec![control(Bind::Pad(JoypadButton::A), vec![InputBinding::Keyboard('a')])];
    let defaults = vec![
        control(Bind::Pad(JoypadButton::A), vec![InputBinding::Keyboard('z')]),
        control(Bind::Menu, vec![InputBinding::Keyboard('m')]),
        control(Bind::Menu, vec![InputBinding::Keyboard('n')]),
    ];
    add_missing_controls(&mut controls, defaults);
    assert_eq!(controls.len(), 2);
    assert_eq!(keys(&controls[0]), vec!['a']);
    assert_eq!(controls[1].button, Bind::Menu);
    assert_eq!(keys(&controls[1]), vec!['m']);
}

#[test]
fn joypad_from_pressed_inputs() {
    let controls = vec![
        control(Bind::Pad(JoypadButton::Up), vec![InputBinding::Keyboard('w'), InputBinding::Keyboard('i')]),
        control(Bind::Menu, vec![InputBinding::Keyboard('m')]),
        control(Bind::Pad(JoypadButton::A), vec![InputBinding::Keyboard('z')]),
    ];
    let pressed = vec![vec![false, true], vec![true], vec![false]];
    let state = read_joypad_state(&controls, &pressed);
    assert!(state.is_pressed(JoypadButton::Up));
    assert!(!state.is_pressed(JoypadButton::A));
    assert!(!state.is_pressed(JoypadButton::Start));
    assert!(menu_pressed(&controls, &pressed));
    assert!(!menu_pressed(&controls, &vec![vec![true, true], vec![false], vec![true]]));
}

#[test]
fn later_control_decides_button() {
    let controls = vec![
        control(Bind::Pad(JoypadButton::A), vec![InputBinding::Keyboard('z')]),
        control(Bind::Pad(JoypadButton::A), vec![InputBinding::Keyboard('y')]),
    ];
    let state = read_joypad_state(&controls, &vec![vec![true], vec![false]]);
    assert!(!state.is_pressed(JoypadButton::A));
}

#[test]
fn mapping_table_shows_first_inputs() {
    let controls = vec![control(
        Bind::Pad(JoypadButton::Start),
        vec![InputBinding::GamepadCode(5), InputBinding::Keyboard('e'), InputBinding::GamepadButton(2)],
    )];
    let rows = mappings(&controls);
    assert_eq!(rows.len(), MAPPING_COUNT);
    assert_eq!(rows[0].button, "D-Pad Up");
    assert!(rows[0].keyboard.is_none() && rows[0].gamepad.is_none());
    assert_eq!(rows[6].id, Bind::Pad(JoypadButton::Start));
    assert_eq!(rows[6].button, "Start");
    assert!(matches!(rows[6].keyboard, Some(InputBinding::Keyboard('e'))));
    assert!(matches!(rows[6].gamepad, Some(InputBinding::GamepadCode(5))));
    assert_eq!(rows[8].id, Bind::Menu);
    assert_eq!(rows[8].button, "Menu");
}

#[test]
fn raw_code_labels() {
    assert_eq!(gamepad_code_label("EvCode(7)"), "L2");
    assert_eq!(gamepad_code_label("EvCode( 8 )"), "R2");
    assert_eq!(gamepad_code_label("x(14)"), "Touchpad");
    assert_eq!(gamepad_code_label("Code(305)"), "Btn 305");
    assert_eq!(gamepad_code_label("Code(+2)"), "Btn 2");
    assert_eq!(gamepad_code_label("Code(x)"), "Btn Code(x)");
    assert_eq!(gamepad_code_label("plain"), "Btn plain");
    assert_eq!(gamepad_code_label("open(12"), "Btn open(12");
    assert_eq!(gamepad_code_label("a(b)(3)"), "Btn a(b)(3)");
}
