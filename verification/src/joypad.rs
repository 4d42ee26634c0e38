use vstd::prelude::*;
use crate::bits::{lemma_byte_bits, lemma_word_bits};

verus! {

/// One of the eight buttons of the handheld.
#[derive(Debug, Clone, Copy, PartialEq, Eq, Structural)]
pub enum JoypadButton {
    Right,
    Left,
    Up,
    Down,
    A,
    B,
    Select,
    Start,
}

/// Which buttons are held, one bit per button.
#[derive(Debug, Clone, Copy, PartialEq, Eq, Structural)]
pub struct JoypadState {
    bits: u8,
}

impl JoypadButton {
    /// The bit that stands for this button in a `JoypadState`.
    pub open spec fn bit_index(self) -> nat {
        match self {
            JoypadButton::Right => 0,
            JoypadButton::Left => 1,
            JoypadButton::Up => 2,
            JoypadButton::Down => 3,
            JoypadButton::A => 4,
            JoypadButton::B => 5,
            JoypadButton::Select => 6,
            JoypadButton::Start => 7,
        }
    }

    pub open spec fn spec_mask(self) -> u8 {
        match self {
            JoypadButton::Right => 0x01,
            JoypadButton::Left => 0x02,
            JoypadButton::Up => 0x04,
            JoypadButton::Down => 0x08,
            JoypadButton::A => 0x10,
            JoypadButton::B => 0x20,
            JoypadButton::Select => 0x40,
            JoypadButton::Start => 0x80,
        }
    }

    fn mask(self) -> (m: u8)
        ensures
            m == self.spec_mask(),
    {
        match self {
            JoypadButton::Right => 0x01,
            JoypadButton::Left => 0x02,
            JoypadButton::Up => 0x04,
            JoypadButton::Down => 0x08,
            JoypadButton::A => 0x10,
            JoypadButton::B => 0x20,
            JoypadButton::Select => 0x40,
            JoypadButton::Start => 0x80,
        }
    }
}

impl JoypadState {
    /// Whether `button` is held in this state.
    pub open spec fn pressed(self, button: JoypadButton) -> bool {
        self.spec_bits() & button.spec_mask() != 0
    }

    /// The raw bit set, one bit per button as `JoypadButton::bit_index` gives.
    pub closed spec fn spec_bits(self) -> u8 {
        self.bits
    }

    /// A state with no button held.
    pub fn new() -> (state: Self)
        ensures
            forall|b: JoypadButton| !state.pressed(b),
    {
        let state = JoypadState { bits: 0 };
        assert forall|b: JoypadButton| !state.pressed(b) by {
            assert(0u8 & b.spec_mask() == 0) by {
            lemma_byte_bits();
            lemma_word_bits();
        }
        }
        state
    }

    /// This state with `button` held or released as `pressed` says.
    pub fn with(self, button: JoypadButton, pressed: bool) -> (state: Self)
        ensures
            state.pressed(button) == pressed,
            forall|b: JoypadButton| b != button ==> state.pressed(b) == self.pressed(b),
    {
        let mut state = self;
        state.set(button, pressed);
        state
    }

    /// Holds or releases `button`, leaving the other buttons as they were.
    pub fn set(&mut self, button: JoypadButton, pressed: bool)
        ensures
            final(self).pressed(button) == pressed,
            forall|b: JoypadButton| b != button ==> final(self).pressed(b) == old(self).pressed(b),
    {
        let m = button.mask();
        let old_bits = self.bits;
        if pressed {
            self.bits = self.bits | m;
        } else {
            self.bits = self.bits & !m;
        }
        let new_bits = self.bits;
        assert forall|b: JoypadButton| b != button implies (new_bits & b.spec_mask() != 0) == (
        old_bits & b.spec_mask() != 0) by {
            let n = b.spec_mask();
            assert(m != n);
            lemma_single_bits_independent(old_bits, new_bits, m, n, pressed);
        }
        proof {
            lemma_single_bit_set(old_bits, new_bits, m, pressed);
        }
    }

    pub fn is_pressed(self, button: JoypadButton) -> (held: bool)
        ensures
            held == self.pressed(button),
    {
        self.bits & button.mask() != 0
    }

    /// The low nibble of the joypad register for the action buttons: bit 0
    /// for A, 1 for B, 2 for Select, 3 for Start, each 0 while held.
    pub fn action_nibble(self) -> (nibble: u8)
        ensures
            nibble == action_nibble_of(self),
    {
        (!(self.bits >> 4)) & 0x0F
    }

    /// The low nibble of the joypad register for the directions: bit 0 for
    /// Right, 1 for Left, 2 for Up, 3 for Down, each 0 while held.
    pub fn direction_nibble(self) -> (nibble: u8)
        ensures
            nibble == direction_nibble_of(self),
    {
        (!self.bits) & 0x0F
    }
}

/// Active-low nibble of the action buttons.
pub open spec fn action_nibble_of(state: JoypadState) -> u8 {
    (!(state.spec_bits() >> 4)) & 0x0F
}

proof fn lemma_nibble_bits(b: u8)
    by (bit_vector)
    ensures
        (!b) & 0x0F == ((if b & 0x01 != 0 { 0u8 } else { 1u8 }) | (if b & 0x02 != 0 { 0u8 } else { 2u8 }) | (
        if b & 0x04 != 0 {
            0u8
        } else {
            4u8
        }) | (if b & 0x08 != 0 { 0u8 } else { 8u8 })),
        (!(b >> 4u8)) & 0x0F == ((if b & 0x10 != 0 { 0u8 } else { 1u8 }) | (if b & 0x20 != 0 { 0u8 } else { 2u8 })
            | (if b & 0x40 != 0 { 0u8 } else { 4u8 }) | (if b & 0x80 != 0 { 0u8 } else { 8u8 })),
{
}

/// The nibbles the joypad register shows are active low: bit 0 to 3 of the
/// direction nibble are clear exactly while Right, Left, Up and Down are
/// held, and those of the action nibble while A, B, Select and Start are.
pub proof fn lemma_nibbles_pressed(state: JoypadState)
    ensures
        direction_nibble_of(state) == ((if state.pressed(JoypadButton::Right) { 0u8 } else { 1u8 }) | (
        if state.pressed(JoypadButton::Left) {
            0u8
        } else {
            2u8
        }) | (if state.pressed(JoypadButton::Up) { 0u8 } else { 4u8 }) | (if state.pressed(JoypadButton::Down) {
            0u8
        } else {
            8u8
        })),
        action_nibble_of(state) == ((if state.pressed(JoypadButton::A) { 0u8 } else { 1u8 }) | (
        if state.pressed(JoypadButton::B) {
            0u8
        } else {
            2u8
        }) | (if state.pressed(JoypadButton::Select) { 0u8 } else { 4u8 }) | (if state.pressed(
            JoypadButton::Start,
        ) {
            0u8
        } else {
            8u8
        })),
{
    lemma_nibble_bits(state.spec_bits());
}

/// Active-low nibble of the direction buttons.
pub open spec fn direction_nibble_of(state: JoypadState) -> u8 {
    (!state.spec_bits()) & 0x0F
}

impl Default for JoypadState {
    fn default() -> (state: Self)
        ensures
            forall|b: JoypadButton| !state.pressed(b),
    {
        JoypadState::new()
    }
}

proof fn lemma_single_bit_set(old_bits: u8, new_bits: u8, m: u8, pressed: bool)
    requires
        m == 1 || m == 2 || m == 4 || m == 8 || m == 16 || m == 32 || m == 64 || m == 128,
        pressed ==> new_bits == old_bits | m,
        !pressed ==> new_bits == old_bits & !m,
    ensures
        (new_bits & m != 0) == pressed,
{
    if pressed {
        assert(new_bits & m != 0) by (bit_vector)
            requires
                new_bits == old_bits | m,
                m == 1 || m == 2 || m == 4 || m == 8 || m == 16 || m == 32 || m == 64 || m == 128,
        ;
    } else {
        assert(new_bits & m == 0) by (bit_vector)
            requires
                new_bits == old_bits & !m,
        ;
    }
}

proof fn lemma_single_bits_independent(old_bits: u8, new_bits: u8, m: u8, n: u8, pressed: bool)
    requires
        m == 1 || m == 2 || m == 4 || m == 8 || m == 16 || m == 32 || m == 64 || m == 128,
        n == 1 || n == 2 || n == 4 || n == 8 || n == 16 || n == 32 || n == 64 || n == 128,
        m != n,
        pressed ==> new_bits == old_bits | m,
        !pressed ==> new_bits == old_bits & !m,
    ensures
        (new_bits & n != 0) == (old_bits & n != 0),
{
    if pressed {
        assert((new_bits & n != 0) == (old_bits & n != 0)) by (bit_vector)
            requires
                new_bits == old_bits | m,
                m == 1 || m == 2 || m == 4 || m == 8 || m == 16 || m == 32 || m == 64 || m
                    == 128,
                n == 1 || n == 2 || n == 4 || n == 8 || n == 16 || n == 32 || n == 64 || n
                    == 128,
                m != n,
        ;
    } else {
        assert((new_bits & n != 0) == (old_bits & n != 0)) by (bit_vector)
            requires
                new_bits == old_bits & !m,
                m == 1 || m == 2 || m == 4 || m == 8 || m == 16 || m == 32 || m == 64 || m
                    == 128,
                n == 1 || n == 2 || n == 4 || n == 8 || n == 16 || n == 32 || n == 64 || n
                    == 128,
                m != n,
        ;
    }
}

} // verus!
