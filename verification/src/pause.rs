use vstd::prelude::*;
use crate::menu::NavInput;
use crate::states::SAVE_SLOTS;

verus! {

/// How many play speeds the pause menu offers.
pub const SPEED_COUNT: usize = 5;
/// How many entries the pause menu lists.
pub const PAUSE_ITEM_COUNT: usize = 3;

/// What the pause overlay shows: its list, or the slots to save to or
/// load from.
#[derive(Debug, Clone, Copy, PartialEq, Eq, Structural)]
pub enum PauseView {
    Menu,
    Save,
    Load,
}

/// An entry of the pause menu's list.
#[derive(Debug, Clone, Copy, PartialEq, Eq, Structural)]
pub enum PauseItem {
    Speed,
    Save,
    Load,
}

/// The entry at `index` of the pause menu's list.
pub open spec fn pause_item_at(index: int) -> PauseItem {
    if index == 0 {
        PauseItem::Speed
    } else if index == 1 {
        PauseItem::Save
    } else {
        PauseItem::Load
    }
}

/// What the player asked of the pause menu that the caller carries out.
#[derive(Debug, Clone, Copy, PartialEq, Eq, Structural)]
pub enum PauseAction {
    /// Nothing beyond the menu's own state.
    Stay,
    /// The slot view opened: the slots shown need reading again.
    ShowSlots,
    /// Save the game into the numbered slot (1 to 4), then read the slots again.
    SaveSlot(u32),
    /// Load the game from the numbered slot (1 to 4).
    LoadSlot(u32),
}

/// The pause state of a game being played.
#[derive(Debug, Clone, Copy, PartialEq, Eq, Structural)]
pub struct PauseMenu {
    /// Play is paused and the overlay shown.
    pub paused: bool,
    /// The pause control was held on the previous frame.
    pub toggle_held: bool,
    pub view: PauseView,
    /// The highlighted entry of the list.
    pub selected: usize,
    /// The highlighted slot, 0 to 3.
    pub slot: usize,
    /// The chosen play speed, an index into the speeds offered.
    pub speed_index: usize,
}

/// The slot a step of the slot cursor lands on: right and left move by one,
/// down and up by a row of two, wrapping around the four slots.
pub open spec fn slot_after(slot: int, input: NavInput) -> int {
    if input.right {
        (slot + 1) % SAVE_SLOTS as int
    } else if input.left {
        (slot + SAVE_SLOTS - 1) % SAVE_SLOTS as int
    } else if input.down || input.up {
        (slot + 2) % SAVE_SLOTS as int
    } else {
        slot
    }
}

/// The list entry highlighted after `input`: down and up move by one,
/// wrapping around.
pub open spec fn selection_after(selected: int, input: NavInput) -> int {
    if input.down {
        (selected + 1) % PAUSE_ITEM_COUNT as int
    } else if input.up {
        (selected + PAUSE_ITEM_COUNT - 1) % PAUSE_ITEM_COUNT as int
    } else {
        selected
    }
}

/// The speed chosen after `input` on the speed entry: right speeds up and
/// left slows down, stopping at either end.
pub open spec fn speed_after(speed: int, input: NavInput) -> int {
    if input.right {
        if speed + 1 < SPEED_COUNT {
            speed + 1
        } else {
            SPEED_COUNT - 1
        }
    } else if input.left {
        if speed > 0 {
            speed - 1
        } else {
            0
        }
    } else {
        speed
    }
}

impl PauseMenu {
    /// The indices stay in range.
    pub open spec fn inv(&self) -> bool {
        &&& self.selected < PAUSE_ITEM_COUNT
        &&& self.slot < SAVE_SLOTS
        &&& self.speed_index < SPEED_COUNT
    }

    /// Play running at normal speed, the list's first entry highlighted.
    pub fn new() -> (menu: Self)
        ensures
            menu.inv(),
            !menu.paused,
            !menu.toggle_held,
            menu.view == PauseView::Menu,
            menu.selected == 0,
            menu.slot == 0,
            menu.speed_index == 0,
    {
        PauseMenu {
            paused: false,
            toggle_held: false,
            view: PauseView::Menu,
            selected: 0,
            slot: 0,
            speed_index: 0,
        }
    }

    /// Shows the list again with its first entry and the first slot
    /// highlighted (as on pausing).
    pub fn enter(&mut self)
        requires
            old(self).inv(),
        ensures
            *final(self) == (PauseMenu { view: PauseView::Menu, selected: 0, slot: 0, ..*old(self) }),
            final(self).inv(),
    {
        self.view = PauseView::Menu;
        self.selected = 0;
        self.slot = 0;
    }

    /// Back to normal speed and running play, the list's first entry
    /// highlighted (as when a game starts).
    pub fn reset(&mut self)
        requires
            old(self).inv(),
        ensures
            *final(self) == (PauseMenu {
                speed_index: 0,
                paused: false,
                view: PauseView::Menu,
                selected: 0,
                ..*old(self)
            }),
            final(self).inv(),
    {
        self.speed_index = 0;
        self.paused = false;
        self.view = PauseView::Menu;
        self.selected = 0;
    }

    /// Play stopped: not paused, the pause control taken as released.
    pub fn leave(&mut self)
        requires
            old(self).inv(),
        ensures
            *final(self) == (PauseMenu { paused: false, toggle_held: false, ..*old(self) }),
            final(self).inv(),
    {
        self.paused = false;
        self.toggle_held = false;
    }

    /// Reads the pause control for a frame: pressing it (held now, not on
    /// the previous frame) pauses or resumes play, and pausing shows the
    /// list afresh. Returns whether play was just paused.
    pub fn toggle(&mut self, pause_held: bool) -> (paused_now: bool)
        requires
            old(self).inv(),
        ensures
            final(self).inv(),
            final(self).toggle_held == pause_held,
            paused_now == (pause_held && !old(self).toggle_held && !old(self).paused),
            pause_held && !old(self).toggle_held ==> final(self).paused == !old(self).paused,
            !(pause_held && !old(self).toggle_held) ==> final(self).paused == old(self).paused,
            paused_now ==> final(self).view == PauseView::Menu && final(self).selected == 0
                && final(self).slot == 0,
            !paused_now ==> final(self).view == old(self).view && final(self).selected == old(
                self,
            ).selected && final(self).slot == old(self).slot,
            final(self).speed_index == old(self).speed_index,
    {
        let mut paused_now = false;
        if pause_held && !self.toggle_held {
            self.paused = !self.paused;
            if self.paused {
                self.enter();
                paused_now = true;
            }
        }
        self.toggle_held = pause_held;
        paused_now
    }

    /// Takes one frame of menu input while paused. `filled` tells which of
    /// the four slots hold a state.
    ///
    /// In the list, B resumes play; down and up move the highlight; on the
    /// speed entry right and left change the speed; choosing the save or
    /// load entry opens the slots with the first one highlighted. In the
    /// slots, B goes back to the list; the directions move the slot cursor;
    /// choosing saves into the highlighted slot, or loads from it when it
    /// holds a state.
    pub fn handle(&mut self, input: NavInput, filled: &[bool; 4]) -> (action: PauseAction)
        requires
            old(self).inv(),
        ensures
            final(self).inv(),
            final(self).toggle_held == old(self).toggle_held,
            old(self).view == PauseView::Menu && input.back ==> *final(self) == (PauseMenu {
                paused: false,
                ..*old(self)
            }) && action == PauseAction::Stay,
            old(self).view == PauseView::Menu && !input.back ==> ({
                let selected = selection_after(old(self).selected as int, input);
                &&& final(self).selected == selected
                &&& final(self).paused == old(self).paused
                &&& final(self).speed_index == if pause_item_at(selected) == PauseItem::Speed {
                    speed_after(old(self).speed_index as int, input)
                } else {
                    old(self).speed_index as int
                }
                &&& if input.select && pause_item_at(selected) != PauseItem::Speed {
                    &&& final(self).view == if pause_item_at(selected) == PauseItem::Save {
                        PauseView::Save
                    } else {
                        PauseView::Load
                    }
                    &&& final(self).slot == 0
                    &&& action == PauseAction::ShowSlots
                } else {
                    &&& final(self).view == PauseView::Menu
                    &&& final(self).slot == old(self).slot
                    &&& action == PauseAction::Stay
                }
            }),
            old(self).view != PauseView::Menu && input.back ==> *final(self) == (PauseMenu {
                view: PauseView::Menu,
                ..*old(self)
            }) && action == PauseAction::Stay,
            old(self).view != PauseView::Menu && !input.back ==> ({
                let slot = slot_after(old(self).slot as int, input);
                &&& *final(self) == (PauseMenu { slot: slot as usize, ..*old(self) })
                &&& action == if !input.select {
                    PauseAction::Stay
                } else if old(self).view == PauseView::Save {
                    PauseAction::SaveSlot((slot + 1) as u32)
                } else if filled@[slot] {
                    PauseAction::LoadSlot((slot + 1) as u32)
                } else {
                    PauseAction::Stay
                }
            }),
    {
        if self.view == PauseView::Menu {
            if input.back {
                self.paused = false;
                return PauseAction::Stay;
            }
            if input.down {
                self.selected = (self.selected + 1) % PAUSE_ITEM_COUNT;
            } else if input.up {
                self.selected = (self.selected + PAUSE_ITEM_COUNT - 1) % PAUSE_ITEM_COUNT;
            }
            if self.selected == 0 {
                if input.right {
                    if self.speed_index + 1 < SPEED_COUNT {
                        self.speed_index = self.speed_index + 1;
                    } else {
                        self.speed_index = SPEED_COUNT - 1;
                    }
                } else if input.left {
                    if self.speed_index > 0 {
                        self.speed_index = self.speed_index - 1;
                    }
                }
                PauseAction::Stay
            } else if input.select {
                self.view = if self.selected == 1 {
                    PauseView::Save
                } else {
                    PauseView::Load
                };
                self.slot = 0;
                PauseAction::ShowSlots
            } else {
                PauseAction::Stay
            }
        } else {
            if input.back {
                self.view = PauseView::Menu;
                return PauseAction::Stay;
            }
            if input.right {
                self.slot = (self.slot + 1) % SAVE_SLOTS;
            } else if input.left {
                self.slot = (self.slot + SAVE_SLOTS - 1) % SAVE_SLOTS;
            } else if input.down || input.up {
                self.slot = (self.slot + 2) % SAVE_SLOTS;
            }
            if !input.select {
                PauseAction::Stay
            } else {
                let number = (self.slot + 1) as u32;
                if self.view == PauseView::Save {
                    PauseAction::SaveSlot(number)
                } else if filled[self.slot] {
                    PauseAction::LoadSlot(number)
                } else {
                    PauseAction::Stay
                }
            }
        }
    }
}

/// Moving the slot cursor one way and then back returns it to where it
/// was: right then left, left then right, and a row down then up (two row
/// moves in either direction).
pub proof fn lemma_slot_moves_undo(slot: int)
    requires
        0 <= slot < SAVE_SLOTS,
    ensures
        ({
            let right = NavInput { up: false, down: false, left: false, right: true, select: false, back: false, menu: false };
            let left = NavInput { right: false, left: true, ..right };
            let down = NavInput { right: false, down: true, ..right };
            let up = NavInput { right: false, up: true, ..right };
            &&& slot_after(slot_after(slot, right), left) == slot
            &&& slot_after(slot_after(slot, left), right) == slot
            &&& slot_after(slot_after(slot, down), up) == slot
            &&& slot_after(slot_after(slot, up), up) == slot
        }),
{
}

/// Moving the highlight of the pause list down and then up, or up and then
/// down, returns it to where it was.
pub proof fn lemma_selection_moves_undo(selected: int)
    requires
        0 <= selected < PAUSE_ITEM_COUNT,
    ensures
        ({
            let down = NavInput { up: false, down: true, left: false, right: false, select: false, back: false, menu: false };
            let up = NavInput { down: false, up: true, ..down };
            &&& selection_after(selection_after(selected, down), up) == selected
            &&& selection_after(selection_after(selected, up), down) == selected
        }),
{
}

} // verus!
