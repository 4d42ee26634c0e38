use vstd::prelude::*;
use crate::joypad::{JoypadButton, JoypadState};

verus! {

/// How many picture-filter controls the settings list has.
pub const SHADER_CONTROLS: usize = 8;
/// How many bindable controls the settings list has.
pub const SETTINGS_BUTTON_COUNT: usize = 10;

/// A control that inputs can be bound to.
#[derive(Debug, Clone, Copy, PartialEq, Eq, Structural)]
pub enum Bind {
    Pad(JoypadButton),
    Menu,
    Pause,
}

/// A row (and, for a binding, a column) of the settings list.
#[derive(Debug, Clone, Copy, PartialEq, Eq, Structural)]
pub enum SetItem {
    ChangeFolder,
    Device,
    /// The keyboard (`false`) or gamepad (`true`) binding of a control.
    Binding(Bind, bool),
    Palette,
    Shader(usize),
}

/// The buttons that went down since the previous frame, as the menus read
/// them: the directions, A or Start to choose, B to go back and Select for
/// the menu.
#[derive(Debug, Clone, Copy, PartialEq, Eq, Structural)]
pub struct NavInput {
    pub up: bool,
    pub down: bool,
    pub left: bool,
    pub right: bool,
    pub select: bool,
    pub back: bool,
    pub menu: bool,
}

/// `button` is held in `now` and was not in `before`.
pub open spec fn went_down(before: JoypadState, now: JoypadState, button: JoypadButton) -> bool {
    now.pressed(button) && !before.pressed(button)
}

impl NavInput {
    /// The menu input of a frame whose joypad reads `now` after `before`.
    pub fn between(before: JoypadState, now: JoypadState) -> (input: Self)
        ensures
            input.up == went_down(before, now, JoypadButton::Up),
            input.down == went_down(before, now, JoypadButton::Down),
            input.left == went_down(before, now, JoypadButton::Left),
            input.right == went_down(before, now, JoypadButton::Right),
            input.select == (went_down(before, now, JoypadButton::A) || went_down(
                before,
                now,
                JoypadButton::Start,
            )),
            input.back == went_down(before, now, JoypadButton::B),
            input.menu == went_down(before, now, JoypadButton::Select),
    {
        let up = now.is_pressed(JoypadButton::Up) && !before.is_pressed(JoypadButton::Up);
        let down = now.is_pressed(JoypadButton::Down) && !before.is_pressed(JoypadButton::Down);
        let left = now.is_pressed(JoypadButton::Left) && !before.is_pressed(JoypadButton::Left);
        let right = now.is_pressed(JoypadButton::Right) && !before.is_pressed(JoypadButton::Right);
        let a = now.is_pressed(JoypadButton::A) && !before.is_pressed(JoypadButton::A);
        let start = now.is_pressed(JoypadButton::Start) && !before.is_pressed(JoypadButton::Start);
        let back = now.is_pressed(JoypadButton::B) && !before.is_pressed(JoypadButton::B);
        let menu = now.is_pressed(JoypadButton::Select) && !before.is_pressed(JoypadButton::Select);
        NavInput { up, down, left, right, select: a || start, back, menu }
    }
}

/// The controls in the order the settings list shows them.
pub open spec fn settings_button_at(index: int) -> Bind {
    if index == 0 {
        Bind::Pad(JoypadButton::Up)
    } else if index == 1 {
        Bind::Pad(JoypadButton::Down)
    } else if index == 2 {
        Bind::Pad(JoypadButton::Left)
    } else if index == 3 {
        Bind::Pad(JoypadButton::Right)
    } else if index == 4 {
        Bind::Pad(JoypadButton::A)
    } else if index == 5 {
        Bind::Pad(JoypadButton::B)
    } else if index == 6 {
        Bind::Pad(JoypadButton::Start)
    } else if index == 7 {
        Bind::Pad(JoypadButton::Select)
    } else if index == 8 {
        Bind::Menu
    } else {
        Bind::Pause
    }
}

/// Where a control stands in the settings list.
pub open spec fn settings_position(button: Bind) -> int {
    match button {
        Bind::Pad(JoypadButton::Up) => 0,
        Bind::Pad(JoypadButton::Down) => 1,
        Bind::Pad(JoypadButton::Left) => 2,
        Bind::Pad(JoypadButton::Right) => 3,
        Bind::Pad(JoypadButton::A) => 4,
        Bind::Pad(JoypadButton::B) => 5,
        Bind::Pad(JoypadButton::Start) => 6,
        Bind::Pad(JoypadButton::Select) => 7,
        Bind::Menu => 8,
        Bind::Pause => 9,
    }
}

/// The control at `index` of the settings list.
pub fn settings_button(index: usize) -> (button: Bind)
    requires
        index < SETTINGS_BUTTON_COUNT,
    ensures
        button == settings_button_at(index as int),
{
    match index {
        0 => Bind::Pad(JoypadButton::Up),
        1 => Bind::Pad(JoypadButton::Down),
        2 => Bind::Pad(JoypadButton::Left),
        3 => Bind::Pad(JoypadButton::Right),
        4 => Bind::Pad(JoypadButton::A),
        5 => Bind::Pad(JoypadButton::B),
        6 => Bind::Pad(JoypadButton::Start),
        7 => Bind::Pad(JoypadButton::Select),
        8 => Bind::Menu,
        _ => Bind::Pause,
    }
}

/// Where a control stands in the settings list.
fn settings_index(button: Bind) -> (index: usize)
    ensures
        index == settings_position(button),
        index < SETTINGS_BUTTON_COUNT,
        settings_button_at(index as int) == button,
{
    match button {
        Bind::Pad(JoypadButton::Up) => 0,
        Bind::Pad(JoypadButton::Down) => 1,
        Bind::Pad(JoypadButton::Left) => 2,
        Bind::Pad(JoypadButton::Right) => 3,
        Bind::Pad(JoypadButton::A) => 4,
        Bind::Pad(JoypadButton::B) => 5,
        Bind::Pad(JoypadButton::Start) => 6,
        Bind::Pad(JoypadButton::Select) => 7,
        Bind::Menu => 8,
        Bind::Pause => 9,
    }
}

/// The item at `index` of the settings list: the folder and device rows,
/// each control's keyboard and gamepad binding, the palette, and the
/// picture-filter controls.
pub open spec fn settings_item_at(index: int) -> SetItem {
    if index == 0 {
        SetItem::ChangeFolder
    } else if index == 1 {
        SetItem::Device
    } else if index < 2 + 2 * SETTINGS_BUTTON_COUNT {
        SetItem::Binding(settings_button_at((index - 2) / 2), (index - 2) % 2 == 1)
    } else if index == 2 + 2 * SETTINGS_BUTTON_COUNT {
        SetItem::Palette
    } else {
        SetItem::Shader((index - 3 - 2 * SETTINGS_BUTTON_COUNT) as usize)
    }
}

/// The number of items in the settings list.
pub open spec fn settings_item_count() -> int {
    3 + 2 * SETTINGS_BUTTON_COUNT + SHADER_CONTROLS
}

/// The settings list, in order.
pub fn settings_items() -> (items: Vec<SetItem>)
    ensures
        items@.len() == settings_item_count(),
        forall|i: int| 0 <= i < items@.len() ==> items@[i] == #[trigger] settings_item_at(i),
{
    let mut items: Vec<SetItem> = Vec::new();
    items.push(SetItem::ChangeFolder);
    items.push(SetItem::Device);
    let mut b: usize = 0;
    while b < SETTINGS_BUTTON_COUNT
        invariant
            b <= SETTINGS_BUTTON_COUNT,
            items@.len() == 2 + 2 * b,
            forall|i: int| 0 <= i < items@.len() ==> items@[i] == #[trigger] settings_item_at(i),
        decreases SETTINGS_BUTTON_COUNT - b,
    {
        let button = settings_button(b);
        items.push(SetItem::Binding(button, false));
        items.push(SetItem::Binding(button, true));
        b += 1;
    }
    items.push(SetItem::Palette);
    let mut k: usize = 0;
    while k < SHADER_CONTROLS
        invariant
            k <= SHADER_CONTROLS,
            items@.len() == 3 + 2 * SETTINGS_BUTTON_COUNT + k,
            forall|i: int| 0 <= i < items@.len() ==> items@[i] == #[trigger] settings_item_at(i),
        decreases SHADER_CONTROLS - k,
    {
        items.push(SetItem::Shader(k));
        k += 1;
    }
    items
}

/// Where the focus of the settings list moves from `current` on the
/// directions pressed, if anywhere. On a binding, right and left switch
/// between its keyboard and gamepad column; otherwise down takes the next
/// row and up the previous one, the list wrapping from the last filter
/// control to the folder row. Moving between binding rows keeps the
/// column; entering them from elsewhere lands on the keyboard column.
pub open spec fn focus_target(current: SetItem, up: bool, down: bool, left: bool, right: bool) -> Option<SetItem> {
    let last = (SETTINGS_BUTTON_COUNT - 1) as int;
    match current {
        SetItem::Binding(button, gamepad) => {
            let index = settings_position(button);
            if right && !gamepad {
                Some(SetItem::Binding(button, true))
            } else if left && gamepad {
                Some(SetItem::Binding(button, false))
            } else if down {
                Some(
                    if index < last {
                        SetItem::Binding(settings_button_at(index + 1), gamepad)
                    } else {
                        SetItem::Palette
                    },
                )
            } else if up {
                Some(
                    if index > 0 {
                        SetItem::Binding(settings_button_at(index - 1), gamepad)
                    } else {
                        SetItem::Device
                    },
                )
            } else {
                None
            }
        },
        SetItem::ChangeFolder => if down {
            Some(SetItem::Device)
        } else if up {
            Some(SetItem::Shader((SHADER_CONTROLS - 1) as usize))
        } else {
            None
        },
        SetItem::Device => if down {
            Some(SetItem::Binding(settings_button_at(0), false))
        } else if up {
            Some(SetItem::ChangeFolder)
        } else {
            None
        },
        SetItem::Palette => if down {
            Some(SetItem::Shader(0))
        } else if up {
            Some(SetItem::Binding(settings_button_at(last), false))
        } else {
            None
        },
        SetItem::Shader(k) => if down {
            Some(
                if k + 1 < SHADER_CONTROLS {
                    SetItem::Shader((k + 1) as usize)
                } else {
                    SetItem::ChangeFolder
                },
            )
        } else if up {
            Some(
                if k > 0 {
                    SetItem::Shader((k - 1) as usize)
                } else {
                    SetItem::Palette
                },
            )
        } else {
            None
        },
    }
}

/// Where the focus of the settings list moves (see `focus_target`).
pub fn focus_move(current: SetItem, up: bool, down: bool, left: bool, right: bool) -> (target: Option<SetItem>)
    ensures
        target == focus_target(current, up, down, left, right),
{
    let last_button = SETTINGS_BUTTON_COUNT - 1;
    match current {
        SetItem::Binding(button, is_gamepad) => {
            let index = settings_index(button);
            if right && !is_gamepad {
                Some(SetItem::Binding(button, true))
            } else if left && is_gamepad {
                Some(SetItem::Binding(button, false))
            } else if down {
                Some(
                    if index < last_button {
                        SetItem::Binding(settings_button(index + 1), is_gamepad)
                    } else {
                        SetItem::Palette
                    },
                )
            } else if up {
                Some(
                    if index > 0 {
                        SetItem::Binding(settings_button(index - 1), is_gamepad)
                    } else {
                        SetItem::Device
                    },
                )
            } else {
                None
            }
        },
        SetItem::ChangeFolder => {
            if down {
                Some(SetItem::Device)
            } else if up {
                Some(SetItem::Shader(SHADER_CONTROLS - 1))
            } else {
                None
            }
        },
        SetItem::Device => {
            if down {
                Some(SetItem::Binding(settings_button(0), false))
            } else if up {
                Some(SetItem::ChangeFolder)
            } else {
                None
            }
        },
        SetItem::Palette => {
            if down {
                Some(SetItem::Shader(0))
            } else if up {
                Some(SetItem::Binding(settings_button(last_button), false))
            } else {
                None
            }
        },
        SetItem::Shader(k) => {
            if down {
                Some(
                    if k < SHADER_CONTROLS - 1 {
                        SetItem::Shader(k + 1)
                    } else {
                        SetItem::ChangeFolder
                    },
                )
            } else if up {
                Some(
                    if k > 0 {
                        SetItem::Shader(k - 1)
                    } else {
                        SetItem::Palette
                    },
                )
            } else {
                None
            }
        },
    }
}

/// Moving the focus down and then up (or up and then down) from an item
/// of the settings list returns to where it started; the one exception
/// each way is the gamepad column of the last (first) binding row, whose
/// neighbour row leads back to the keyboard column.
pub proof fn lemma_focus_moves_undo(index: int)
    requires
        0 <= index < settings_item_count(),
    ensures
        index != 21 ==> (focus_target(settings_item_at(index), false, true, false, false) matches Some(next)
            && focus_target(next, true, false, false, false) == Some(settings_item_at(index))),
        index != 3 ==> (focus_target(settings_item_at(index), true, false, false, false) matches Some(
            previous,
        ) && focus_target(previous, false, true, false, false) == Some(settings_item_at(index))),
{
    let count = settings_item_count();
    let next_index = if index + 1 < count {
        index + 1
    } else {
        0
    };
    let previous_index = if index > 0 {
        index - 1
    } else {
        count - 1
    };
    if 2 <= index < 2 + 2 * SETTINGS_BUTTON_COUNT {
        let b = (index - 2) / 2;
        let gamepad = (index - 2) % 2 == 1;
        assert(settings_position(settings_button_at(b)) == b);
        if b + 1 < SETTINGS_BUTTON_COUNT {
            assert(settings_position(settings_button_at(b + 1)) == b + 1);
            let j = 2 + 2 * (b + 1) + (if gamepad { 1int } else { 0 });
            assert(settings_item_at(j) == SetItem::Binding(settings_button_at(b + 1), gamepad));
        } else {
            assert(settings_item_at(2 + 2 * SETTINGS_BUTTON_COUNT) == SetItem::Palette);
        }
        if b > 0 {
            assert(settings_position(settings_button_at(b - 1)) == b - 1);
            let j = 2 + 2 * (b - 1) + (if gamepad { 1int } else { 0 });
            assert(settings_item_at(j) == SetItem::Binding(settings_button_at(b - 1), gamepad));
        } else {
            assert(settings_item_at(1) == SetItem::Device);
        }
    } else {
        assert(settings_item_at(next_index) == settings_item_at(next_index));
        assert(settings_item_at(previous_index) == settings_item_at(previous_index));
        assert(settings_position(settings_button_at(0)) == 0);
        assert(settings_position(settings_button_at(9)) == 9);
        assert(settings_item_at(2) == SetItem::Binding(settings_button_at(0), false));
        assert(settings_item_at(20int) == SetItem::Binding(settings_button_at(9), false));
        assert(settings_item_at(0) == SetItem::ChangeFolder);
        assert(settings_item_at(1) == SetItem::Device);
        assert(settings_item_at(22) == SetItem::Palette);
    }
}

/// Where `item` stands in the settings list, if it is there.
pub open spec fn settings_item_position(item: SetItem) -> Option<int> {
    match item {
        SetItem::ChangeFolder => Some(0),
        SetItem::Device => Some(1),
        SetItem::Binding(button, gamepad) => Some(
            2 + 2 * settings_position(button) + if gamepad {
                1int
            } else {
                0
            },
        ),
        SetItem::Palette => Some(2 + 2 * SETTINGS_BUTTON_COUNT),
        SetItem::Shader(k) => if k < SHADER_CONTROLS {
            Some(3 + 2 * SETTINGS_BUTTON_COUNT + k)
        } else {
            None
        },
    }
}

/// Every item of the settings list stands in it once, where
/// `settings_item_position` says; an item that position gives no place to
/// is not in the list.
pub proof fn lemma_settings_positions(item: SetItem, index: int)
    requires
        0 <= index < settings_item_count(),
    ensures
        settings_item_position(item) matches Some(p) ==> 0 <= p < settings_item_count()
            && settings_item_at(p) == item,
        settings_item_at(index) == item <==> settings_item_position(item) == Some(index),
{
    if let SetItem::Binding(button, gamepad) = item {
        let b = settings_position(button);
        let p = 2 + 2 * b + if gamepad {
            1int
        } else {
            0
        };
        assert((p - 2) / 2 == b && ((p - 2) % 2 == 1) == gamepad);
        assert(settings_button_at(b) == button);
    }
    if 2 <= index < 2 + 2 * SETTINGS_BUTTON_COUNT {
        let b = (index - 2) / 2;
        assert(settings_position(settings_button_at(b)) == b);
    }
}

/// Where `item` stands in the settings list, if it is there.
pub fn settings_index_of(item: SetItem) -> (index: Option<usize>)
    ensures
        index matches Some(i) ==> settings_item_position(item) == Some(i as int),
        index is None ==> settings_item_position(item) is None,
{
    match item {
        SetItem::ChangeFolder => Some(0),
        SetItem::Device => Some(1),
        SetItem::Binding(button, gamepad) => Some(
            2 + 2 * settings_index(button) + if gamepad {
                1
            } else {
                0
            },
        ),
        SetItem::Palette => Some(2 + 2 * SETTINGS_BUTTON_COUNT),
        SetItem::Shader(k) => if k < SHADER_CONTROLS {
            Some(3 + 2 * SETTINGS_BUTTON_COUNT + k)
        } else {
            None
        },
    }
}

} // verus!
