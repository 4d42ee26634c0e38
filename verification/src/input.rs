use vstd::prelude::*;
use crate::joypad::{JoypadButton, JoypadState};
use crate::menu::Bind;
use crate::error::{decimal, describe_one, joined};
use crate::states::{parse_slot_number, parse_u32};

verus! {

/// Which way a stick must be pushed to count as pressed.
#[derive(Debug, Clone, Copy, PartialEq, Eq, Structural)]
pub enum AxisDirection {
    Negative,
    Positive,
}

/// An input that can press a control: a key, a gamepad button (known by
/// name, or by its raw code), or a stick pushed one way. The key, button,
/// code and axis types are those of the windowing and gamepad libraries.
#[derive(Debug, Clone, Copy)]
pub enum InputBinding<K, B, C, A> {
    Keyboard(K),
    GamepadButton(B),
    GamepadCode(C),
    GamepadAxis { axis: A, direction: AxisDirection },
}

/// The inputs bound to one control.
#[derive(Debug, Clone)]
pub struct ControlBinding<K, B, C, A> {
    pub button: Bind,
    pub inputs: Vec<InputBinding<K, B, C, A>>,
}

/// The index of the first control bound for `button`, if any.
pub open spec fn first_control<K, B, C, A>(controls: Seq<ControlBinding<K, B, C, A>>, button: Bind) -> Option<int> {
    if exists|i: int| 0 <= i < controls.len() && controls[i].button == button {
        Some(
            choose|i: int|
                0 <= i < controls.len() && controls[i].button == button && forall|k: int|
                    0 <= k < i ==> controls[k].button != button,
        )
    } else {
        None
    }
}

/// `binding` is a gamepad button or code (not a key or a stick).
pub open spec fn is_pad_button<K, B, C, A>(binding: InputBinding<K, B, C, A>) -> bool {
    binding is GamepadButton || binding is GamepadCode
}

/// Accepts the keys (`keyboard`) or the gamepad buttons and codes.
pub open spec fn input_kind<K, B, C, A>(keyboard: bool) -> spec_fn(InputBinding<K, B, C, A>) -> bool {
    |b: InputBinding<K, B, C, A>| if keyboard {
        b is Keyboard
    } else {
        is_pad_button(b)
    }
}

/// The index of the first input of `inputs` that `kind` accepts, if any.
pub open spec fn first_input<K, B, C, A>(
    inputs: Seq<InputBinding<K, B, C, A>>,
    kind: spec_fn(InputBinding<K, B, C, A>) -> bool,
) -> Option<int> {
    if exists|i: int| 0 <= i < inputs.len() && kind(inputs[i]) {
        Some(
            choose|i: int|
                0 <= i < inputs.len() && kind(inputs[i]) && forall|k: int| 0 <= k < i ==> !kind(inputs[k]),
        )
    } else {
        None
    }
}

/// `inputs` with `new` in place of the first input that `kind` accepts, or
/// added at the end when there is none.
pub open spec fn replaced_input<K, B, C, A>(
    inputs: Seq<InputBinding<K, B, C, A>>,
    kind: spec_fn(InputBinding<K, B, C, A>) -> bool,
    new: InputBinding<K, B, C, A>,
) -> Seq<InputBinding<K, B, C, A>> {
    match first_input(inputs, kind) {
        Some(i) => inputs.update(i, new),
        None => inputs.push(new),
    }
}

/// `controls` after binding `new` to the first control for `button` in
/// place of its first input of the kind `kind` accepts; unchanged when no
/// control is for `button`.
pub open spec fn rebound<K, B, C, A>(
    before: Seq<ControlBinding<K, B, C, A>>,
    after: Seq<ControlBinding<K, B, C, A>>,
    button: Bind,
    kind: spec_fn(InputBinding<K, B, C, A>) -> bool,
    new: InputBinding<K, B, C, A>,
) -> bool {
    &&& after.len() == before.len()
    &&& forall|j: int| 0 <= j < after.len() ==> (#[trigger] after[j]).button == before[j].button
    &&& match first_control(before, button) {
        Some(i) => {
            &&& after[i].inputs@ == replaced_input(before[i].inputs@, kind, new)
            &&& forall|j: int| 0 <= j < after.len() && j != i ==> (#[trigger] after[j]).inputs@ == before[j].inputs@
        },
        None => forall|j: int| 0 <= j < after.len() ==> (#[trigger] after[j]).inputs@ == before[j].inputs@,
    }
}

proof fn lemma_first_control_is<K, B, C, A>(controls: Seq<ControlBinding<K, B, C, A>>, button: Bind, i: int)
    requires
        0 <= i < controls.len(),
        controls[i].button == button,
        forall|k: int| 0 <= k < i ==> controls[k].button != button,
    ensures
        first_control(controls, button) == Some(i),
{
    let c = choose|j: int|
        0 <= j < controls.len() && controls[j].button == button && forall|k: int|
            0 <= k < j ==> controls[k].button != button;
    assert(0 <= i < controls.len() && controls[i].button == button && forall|k: int|
        0 <= k < i ==> controls[k].button != button);
    if c < i {
    } else if c > i {
    }
}

proof fn lemma_first_input_is<K, B, C, A>(
    inputs: Seq<InputBinding<K, B, C, A>>,
    kind: spec_fn(InputBinding<K, B, C, A>) -> bool,
    i: int,
)
    requires
        0 <= i < inputs.len(),
        kind(inputs[i]),
        forall|k: int| 0 <= k < i ==> !kind(inputs[k]),
    ensures
        first_input(inputs, kind) == Some(i),
{
    let c = choose|j: int| 0 <= j < inputs.len() && kind(inputs[j]) && forall|k: int| 0 <= k < j ==> !kind(inputs[k]);
    assert(0 <= i < inputs.len() && kind(inputs[i]) && forall|k: int| 0 <= k < i ==> !kind(inputs[k]));
    if c < i {
    } else if c > i {
    }
}

/// The index of the first control for `button`, if any.
fn find_control<K, B, C, A>(controls: &Vec<ControlBinding<K, B, C, A>>, button: Bind) -> (found: Option<usize>)
    ensures
        match found {
            Some(k) => k < controls@.len() && controls@[k as int].button == button && first_control(
                controls@,
                button,
            ) == Some(k as int),
            None => first_control(controls@, button) is None,
        },
{
    let mut i: usize = 0;
    while i < controls.len()
        invariant
            i <= controls@.len(),
            forall|k: int| 0 <= k < i ==> controls@[k].button != button,
        decreases controls.len() - i,
    {
        if controls[i].button == button {
            proof {
                lemma_first_control_is(controls@, button, i as int);
            }
            return Some(i);
        }
        i += 1;
    }
    None
}

/// The index of the first input of `inputs` that is a key (`keyboard`) or
/// a gamepad button or code (otherwise), if any.
fn find_input<K, B, C, A>(inputs: &Vec<InputBinding<K, B, C, A>>, keyboard: bool) -> (found: Option<usize>)
    ensures
        match found {
            Some(j) => j < inputs@.len() && first_input(inputs@, input_kind(keyboard)) == Some(j as int),
            None => first_input(inputs@, input_kind(keyboard)) is None,
        },
{
    let ghost kind = input_kind::<K, B, C, A>(keyboard);
    let mut j: usize = 0;
    while j < inputs.len()
        invariant
            j <= inputs@.len(),
            kind == input_kind::<K, B, C, A>(keyboard),
            forall|k: int| 0 <= k < j ==> !kind(inputs@[k]),
        decreases inputs.len() - j,
    {
        let matches = match &inputs[j] {
            InputBinding::Keyboard(_) => keyboard,
            InputBinding::GamepadButton(_) => !keyboard,
            InputBinding::GamepadCode(_) => !keyboard,
            InputBinding::GamepadAxis { .. } => false,
        };
        if matches {
            proof {
                lemma_first_input_is(inputs@, kind, j as int);
            }
            return Some(j);
        }
        j += 1;
    }
    None
}

/// Binds `new` to the control for `button` in place of its first input
/// that is a key (`keyboard`) or a gamepad button or code (otherwise).
fn rebind<K, B, C, A>(
    controls: &mut Vec<ControlBinding<K, B, C, A>>,
    button: Bind,
    keyboard: bool,
    new: InputBinding<K, B, C, A>,
)
    ensures
        rebound(old(controls)@, final(controls)@, button, input_kind(keyboard), new),
{
    let found = find_control(controls, button);
    let i = match found {
        Some(i) => i,
        None => {
            return;
        },
    };
    let ghost before = controls@;
    match find_input(&controls[i].inputs, keyboard) {
        Some(j) => {
            controls[i].inputs.set(j, new);
        },
        None => {
            controls[i].inputs.push(new);
        },
    }
    proof {
        assert forall|k: int| 0 <= k < controls@.len() && k != i implies (#[trigger] controls@[k]).inputs@
            == before[k].inputs@ by {
            assert(controls@[k] == before[k]);
        }
    }
}

/// Binds the caught `key` to the control for `button`, in place of its
/// first key (or as a new input when it has none). Nothing changes when no
/// control is for `button`.
pub fn rebind_key<K, B, C, A>(controls: &mut Vec<ControlBinding<K, B, C, A>>, button: Bind, key: K)
    ensures
        rebound(old(controls)@, final(controls)@, button, input_kind(true), InputBinding::Keyboard(key)),
{
    rebind(controls, button, true, InputBinding::Keyboard(key));
}

/// Binds a caught gamepad button to the control for `button`, in place of
/// its first gamepad button or code (or as a new input when it has none):
/// by its raw `code` when the gamepad library does not know the button
/// (`known` is false), else as `pad_button`.
pub fn rebind_pad<K, B, C, A>(
    controls: &mut Vec<ControlBinding<K, B, C, A>>,
    button: Bind,
    pad_button: B,
    code: C,
    known: bool,
)
    ensures
        rebound(
            old(controls)@,
            final(controls)@,
            button,
            input_kind(false),
            if known {
                InputBinding::GamepadButton(pad_button)
            } else {
                InputBinding::GamepadCode(code)
            },
        ),
{
    let new = if known {
        InputBinding::GamepadButton(pad_button)
    } else {
        InputBinding::GamepadCode(code)
    };
    rebind(controls, button, false, new);
}

/// Some control of `controls` is for `button`.
pub open spec fn has_control<K, B, C, A>(controls: Seq<ControlBinding<K, B, C, A>>, button: Bind) -> bool {
    exists|i: int| 0 <= i < controls.len() && controls[i].button == button
}

/// `controls` with each of `defaults` added in turn, at the end, when no
/// control yet is for its button.
pub open spec fn with_defaults<K, B, C, A>(
    controls: Seq<ControlBinding<K, B, C, A>>,
    defaults: Seq<ControlBinding<K, B, C, A>>,
) -> Seq<ControlBinding<K, B, C, A>>
    decreases defaults.len(),
{
    if defaults.len() == 0 {
        controls
    } else {
        let added = with_defaults(controls, defaults.drop_last());
        if has_control(added, defaults.last().button) {
            added
        } else {
            added.push(defaults.last())
        }
    }
}

/// Adds each default control whose button no control covers yet, in the
/// defaults' order, after the stored ones.
pub fn add_missing_controls<K, B, C, A>(
    controls: &mut Vec<ControlBinding<K, B, C, A>>,
    defaults: Vec<ControlBinding<K, B, C, A>>,
)
    ensures
        final(controls)@ == with_defaults(old(controls)@, defaults@),
{
    let ghost start = controls@;
    let ghost all_defaults = defaults@;
    let mut rest = defaults;
    let ghost mut done: int = 0;
    assert(all_defaults.take(0) =~= Seq::<ControlBinding<K, B, C, A>>::empty());
    while rest.len() > 0
        invariant
            0 <= done <= all_defaults.len(),
            rest@ == all_defaults.skip(done),
            controls@ == with_defaults(start, all_defaults.take(done)),
        decreases rest.len(),
    {
        let default = rest.remove(0);
        proof {
            assert(default == all_defaults[done]);
            assert(rest@ =~= all_defaults.skip(done + 1));
            assert(all_defaults.take(done + 1).drop_last() =~= all_defaults.take(done));
            assert(all_defaults.take(done + 1).last() == default);
        }
        let present = find_control(controls, default.button);
        if present.is_none() {
            controls.push(default);
        } else {
            proof {
                let i = present->0 as int;
                assert(controls@[i].button == default.button);
            }
        }
        proof {
            done = done + 1;
        }
    }
    assert(all_defaults.take(done) =~= all_defaults);
}

/// Which buttons the controls hold: a button is held when any input of a
/// control for it is pressed, the last control for it deciding.
/// `pressed@[i]@[j]` tells whether the `j`-th input of the `i`-th control is
/// pressed now.
pub open spec fn held_by(controls: Seq<Bind>, pressed: Seq<Seq<bool>>, button: JoypadButton) -> bool
    decreases controls.len(),
{
    if controls.len() == 0 {
        false
    } else if controls.last() == Bind::Pad(button) {
        any_set(pressed[controls.len() - 1])
    } else {
        held_by(controls.drop_last(), pressed, button)
    }
}

/// Some flag of `flags` is set.
pub open spec fn any_set(flags: Seq<bool>) -> bool {
    exists|j: int| 0 <= j < flags.len() && #[trigger] flags[j]
}

/// The buttons of `controls` as a sequence.
pub open spec fn buttons_of<K, B, C, A>(controls: Seq<ControlBinding<K, B, C, A>>) -> Seq<Bind> {
    controls.map_values(|c: ControlBinding<K, B, C, A>| c.button)
}

/// Whether any of `flags` is set.
fn any(flags: &Vec<bool>) -> (set: bool)
    ensures
        set == any_set(flags@),
{
    let mut j: usize = 0;
    while j < flags.len()
        invariant
            j <= flags@.len(),
            forall|k: int| 0 <= k < j ==> !flags@[k],
        decreases flags.len() - j,
    {
        if flags[j] {
            return true;
        }
        j += 1;
    }
    false
}

/// The joypad the controls hold this frame (see `held_by`); the menu
/// control holds no button.
pub fn read_joypad_state<K, B, C, A>(controls: &Vec<ControlBinding<K, B, C, A>>, pressed: &Vec<Vec<bool>>) -> (state: JoypadState)
    requires
        pressed@.len() == controls@.len(),
    ensures
        forall|b: JoypadButton| #[trigger] state.pressed(b) == held_by(
            buttons_of(controls@),
            pressed@.map_values(|p: Vec<bool>| p@),
            b,
        ),
{
    let ghost flags = pressed@.map_values(|p: Vec<bool>| p@);
    let mut state = JoypadState::new();
    let mut i: usize = 0;
    while i < controls.len()
        invariant
            i <= controls@.len(),
            pressed@.len() == controls@.len(),
            flags == pressed@.map_values(|p: Vec<bool>| p@),
            forall|b: JoypadButton| #[trigger] state.pressed(b) == held_by(
                buttons_of(controls@).take(i as int),
                flags,
                b,
            ),
        decreases controls.len() - i,
    {
        let ghost prefix = buttons_of(controls@).take(i + 1);
        proof {
            assert(prefix.drop_last() =~= buttons_of(controls@).take(i as int));
            assert(prefix.last() == controls@[i as int].button);
            assert(flags[i as int] == pressed@[i as int]@);
        }
        match controls[i].button {
            Bind::Pad(button) => {
                let held = any(&pressed[i]);
                state.set(button, held);
            },
            _ => {},
        }
        i += 1;
    }
    proof {
        assert(buttons_of(controls@).take(i as int) =~= buttons_of(controls@));
    }
    state
}

/// Whether the menu control is pressed: some input of the first control
/// for it (`pressed` as for `read_joypad_state`).
pub fn menu_pressed<K, B, C, A>(controls: &Vec<ControlBinding<K, B, C, A>>, pressed: &Vec<Vec<bool>>) -> (held: bool)
    requires
        pressed@.len() == controls@.len(),
    ensures
        held == match first_control(controls@, Bind::Menu) {
            Some(i) => any_set(pressed@[i]@),
            None => false,
        },
{
    match find_control(controls, Bind::Menu) {
        Some(i) => any(&pressed[i]),
        None => false,
    }
}

/// How many controls the mapping table lists.
pub const MAPPING_COUNT: usize = 9;

/// The control on row `index` of the mapping table: the eight buttons, then
/// the menu.
pub open spec fn mapping_bind(index: int) -> Bind {
    if index == 0 {
        Bind::Pad(JoypadButton::Up)
    } else if index == 1 {
        Bind::Pad(JoypadButton::Down)
    } else if index == 2 {
        Bind::Pad(JoypadButton::Left)
    } else if index == 3 {
        Bind::Pad(JoypadButton::Right)
    } else if index == 4 {
        Bind::Pad(JoypadButton::A)
    } else if index == 5 {
        Bind::Pad(JoypadButton::B)
    } else if index == 6 {
        Bind::Pad(JoypadButton::Start)
    } else if index == 7 {
        Bind::Pad(JoypadButton::Select)
    } else {
        Bind::Menu
    }
}

/// The name row `index` of the mapping table shows for its control.
pub open spec fn mapping_label(index: int) -> Seq<char> {
    if index == 0 {
        "D-Pad Up"@
    } else if index == 1 {
        "D-Pad Down"@
    } else if index == 2 {
        "D-Pad Left"@
    } else if index == 3 {
        "D-Pad Right"@
    } else if index == 4 {
        "A"@
    } else if index == 5 {
        "B"@
    } else if index == 6 {
        "Start"@
    } else if index == 7 {
        "Select"@
    } else {
        "Menu"@
    }
}

/// A row of the mapping table: the control, its name, and the key and
/// gamepad input shown for it (the first of each kind bound to it).
#[derive(Debug, Clone, Copy)]
pub struct Mapping<K, B, C, A> {
    pub id: Bind,
    pub button: &'static str,
    pub keyboard: Option<InputBinding<K, B, C, A>>,
    pub gamepad: Option<InputBinding<K, B, C, A>>,
}

/// The first input of `inputs` of the kind (see `input_kind`), if any.
pub open spec fn first_of_kind<K, B, C, A>(inputs: Seq<InputBinding<K, B, C, A>>, keyboard: bool) -> Option<
    InputBinding<K, B, C, A>,
> {
    match first_input(inputs, input_kind(keyboard)) {
        Some(j) => Some(inputs[j]),
        None => None,
    }
}

/// The key and gamepad input a mapping row shows for `button`: those of
/// the first control for it, none when no control is for it.
pub open spec fn shown_input<K, B, C, A>(controls: Seq<ControlBinding<K, B, C, A>>, button: Bind, keyboard: bool) -> Option<
    InputBinding<K, B, C, A>,
> {
    match first_control(controls, button) {
        Some(i) => first_of_kind(controls[i].inputs@, keyboard),
        None => None,
    }
}

fn mapping_row(index: usize) -> (row: (Bind, &'static str))
    requires
        index < MAPPING_COUNT,
    ensures
        row.0 == mapping_bind(index as int),
        row.1@ == mapping_label(index as int),
{
    match index {
        0 => {
            proof {
                reveal_strlit("D-Pad Up");
            }
            (Bind::Pad(JoypadButton::Up), "D-Pad Up")
        },
        1 => {
            proof {
                reveal_strlit("D-Pad Down");
            }
            (Bind::Pad(JoypadButton::Down), "D-Pad Down")
        },
        2 => {
            proof {
                reveal_strlit("D-Pad Left");
            }
            (Bind::Pad(JoypadButton::Left), "D-Pad Left")
        },
        3 => {
            proof {
                reveal_strlit("D-Pad Right");
            }
            (Bind::Pad(JoypadButton::Right), "D-Pad Right")
        },
        4 => {
            proof {
                reveal_strlit("A");
            }
            (Bind::Pad(JoypadButton::A), "A")
        },
        5 => {
            proof {
                reveal_strlit("B");
            }
            (Bind::Pad(JoypadButton::B), "B")
        },
        6 => {
            proof {
                reveal_strlit("Start");
            }
            (Bind::Pad(JoypadButton::Start), "Start")
        },
        7 => {
            proof {
                reveal_strlit("Select");
            }
            (Bind::Pad(JoypadButton::Select), "Select")
        },
        _ => {
            proof {
                reveal_strlit("Menu");
            }
            (Bind::Menu, "Menu")
        },
    }
}

/// The mapping table: a row for each of the eight buttons and the menu, in
/// that order, with the key and gamepad input shown for each.
pub fn mappings<K: Copy, B: Copy, C: Copy, A: Copy>(controls: &Vec<ControlBinding<K, B, C, A>>) -> (rows: Vec<
    Mapping<K, B, C, A>,
>)
    ensures
        rows@.len() == MAPPING_COUNT,
        forall|i: int|
            0 <= i < MAPPING_COUNT ==> {
                &&& (#[trigger] rows@[i]).id == mapping_bind(i)
                &&& rows@[i].button@ == mapping_label(i)
                &&& rows@[i].keyboard == shown_input(controls@, mapping_bind(i), true)
                &&& rows@[i].gamepad == shown_input(controls@, mapping_bind(i), false)
            },
{
    let mut rows: Vec<Mapping<K, B, C, A>> = Vec::new();
    let mut index: usize = 0;
    while index < MAPPING_COUNT
        invariant
            index <= MAPPING_COUNT,
            rows@.len() == index,
            forall|i: int|
                0 <= i < index ==> {
                    &&& (#[trigger] rows@[i]).id == mapping_bind(i)
                    &&& rows@[i].button@ == mapping_label(i)
                    &&& rows@[i].keyboard == shown_input(controls@, mapping_bind(i), true)
                    &&& rows@[i].gamepad == shown_input(controls@, mapping_bind(i), false)
                },
        decreases MAPPING_COUNT - index,
    {
        let (id, label) = mapping_row(index);
        let (keyboard, gamepad) = match find_control(controls, id) {
            Some(c) => {
                let inputs = &controls[c].inputs;
                let keyboard = match find_input(inputs, true) {
                    Some(j) => Some(inputs[j]),
                    None => None,
                };
                let gamepad = match find_input(inputs, false) {
                    Some(j) => Some(inputs[j]),
                    None => None,
                };
                (keyboard, gamepad)
            },
            None => (None, None),
        };
        rows.push(Mapping { id, button: label, keyboard, gamepad });
        index += 1;
    }
    rows
}

/// Text with white space taken off both ends (what `str::trim` gives).
pub uninterp spec fn trimmed_text(text: Seq<char>) -> Seq<char>;

/// Calls `str::trim` and takes the text as an owned string; the result is
/// named by `trimmed_text`.
#[verifier::external_body]
fn trimmed(text: &str) -> (trimmed: String)
    ensures
        trimmed@ == trimmed_text(text@),
{
    text.trim().to_string()
}

/// Where the first `c` among the first `upto` characters of `text` stands.
pub open spec fn first_index_of(text: Seq<char>, c: char, upto: int) -> Option<int>
    decreases upto,
{
    if upto <= 0 {
        None
    } else {
        match first_index_of(text, c, upto - 1) {
            Some(i) => Some(i),
            None => if text[upto - 1] == c {
                Some(upto - 1)
            } else {
                None
            },
        }
    }
}

/// The number a gamepad library writes between the first `(` and a closing
/// `)` at the end of a raw button code's text, when there is one.
pub open spec fn code_usage(text: Seq<char>) -> Option<u32> {
    match first_index_of(text, '(', text.len() as int) {
        Some(i) => {
            let rest = text.skip(i + 1);
            if rest.len() > 0 && rest.last() == ')' {
                parse_u32(trimmed_text(rest.drop_last()))
            } else {
                None
            }
        },
        None => None,
    }
}

/// How the mapping table names a raw gamepad code with text `text`.
pub open spec fn code_label(text: Seq<char>) -> Seq<char> {
    match code_usage(text) {
        Some(n) => if n == 7 {
            "L2"@
        } else if n == 8 {
            "R2"@
        } else if n == 14 {
            "Touchpad"@
        } else {
            "Btn "@ + decimal(n as nat) + ""@
        },
        None => "Btn "@ + text,
    }
}

/// Names a raw gamepad code for the mapping table, from the text the
/// gamepad library writes for it (see `code_label`).
pub fn gamepad_code_label(text: &str) -> (label: String)
    ensures
        label@ == code_label(text@),
{
    let n = text.unicode_len();
    let mut i: usize = 0;
    while i < n && text.get_char(i) != '('
        invariant
            i <= n == text@.len(),
            first_index_of(text@, '(', i as int) is None,
        decreases n - i,
    {
        i += 1;
    }
    let ghost whole = text@;
    proof {
        lemma_first_index_of_found(whole, '(', i as int, n as int);
    }
    let usage = if i < n && n - i >= 2 && text.get_char(n - 1) == ')' {
        let inner = text.substring_char(i + 1, n - 1);
        let inner_trimmed = trimmed(inner);
        let m = inner_trimmed.unicode_len();
        proof {
            let rest = whole.skip(i + 1);
            assert(rest.drop_last() =~= whole.subrange(i + 1, n - 1));
            assert(inner_trimmed@.subrange(0, m as int) =~= inner_trimmed@);
        }
        parse_slot_number(inner_trimmed.as_str(), 0, m)
    } else {
        proof {
            if i < n {
                let rest = whole.skip(i + 1);
                if rest.len() > 0 {
                    assert(rest.last() == whole[n - 1]);
                }
            }
        }
        None
    };
    match usage {
        Some(7) => String::from_str("L2"),
        Some(8) => String::from_str("R2"),
        Some(14) => String::from_str("Touchpad"),
        Some(number) => describe_one("Btn ", number as usize, ""),
        None => joined("Btn ", text),
    }
}

proof fn lemma_first_index_of_found(text: Seq<char>, c: char, i: int, n: int)
    requires
        0 <= i <= n == text.len(),
        first_index_of(text, c, i) is None,
        i < n ==> text[i] == c,
    ensures
        i < n ==> first_index_of(text, c, n) == Some(i),
        i == n ==> first_index_of(text, c, n) is None,
    decreases n - i,
{
    if i < n {
        lemma_first_index_of_keeps(text, c, i + 1, n);
    }
}

proof fn lemma_first_index_of_keeps(text: Seq<char>, c: char, from: int, upto: int)
    requires
        0 < from <= upto <= text.len(),
        first_index_of(text, c, from) is Some,
    ensures
        first_index_of(text, c, upto) == first_index_of(text, c, from),
    decreases upto - from,
{
    if from < upto {
        lemma_first_index_of_keeps(text, c, from, upto - 1);
    }
}

} // verus!
