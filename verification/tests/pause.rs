use gameboy_core::menu::NavInput;
use gameboy_core::pause::{PauseAction, PauseMenu, PauseView, SPEED_COUNT};

fn nav() -> NavInput {
    NavInput { up: false, down: false, left: false, right: false, select: false, back: false, menu: false }
}

#[test]
fn toggle_pauses_on_press_edge_only() {
    let mut m = PauseMenu::new();
    assert!(m.toggle(true));
    assert!(m.paused);
    assert!(!m.toggle(true));
    assert!(m.paused);
    assert!(!m.toggle(false));
    assert!(!m.toggle(true));
    assert!(!m.paused);
}

#[test]
fn back_in_list_resumes() {
    let mut m = PauseMenu::new();
    m.toggle(true);
    let a = m.handle(NavInput { back: true, ..nav() }, &[false; 4]);
    assert_eq!(a, PauseAction::Stay);
    assert!(!m.paused);
}

#[test]
fn speed_changes_and_clamps() {
    let mut m = PauseMenu::new();
    m.toggle(true);
    for _ in 0..10 {
        m.handle(NavInput { right: true, ..nav() }, &[false; 4]);
    }
    assert_eq!(m.speed_index, SPEED_COUNT - 1);
    m.handle(NavInput { left: true, ..nav() }, &[false; 4]);
    assert_eq!(m.speed_index, SPEED_COUNT - 2);
    for _ in 0..10 {
        m.handle(NavInput { left: true, ..nav() }, &[false; 4]);
    }
    assert_eq!(m.speed_index, 0);
}

#[test]
fn list_selection_wraps() {
    let mut m = PauseMenu::new();
    m.toggle(true);
    m.handle(NavInput { up: true, ..nav() }, &[false; 4]);
    assert_eq!(m.selected, 2);
    m.handle(NavInput { down: true, ..nav() }, &[false; 4]);
    assert_eq!(m.selected, 0);
}

#[test]
fn save_slot_flow() {
    let mut m = PauseMenu::new();
    m.toggle(true);
    assert_eq!(m.handle(NavInput { down: true, select: true, ..nav() }, &[false; 4]), PauseAction::ShowSlots);
    assert_eq!(m.view, PauseView::Save);
    assert_eq!(m.slot, 0);
    assert_eq!(m.handle(NavInput { down: true, ..nav() }, &[false; 4]), PauseAction::Stay);
    assert_eq!(m.slot, 2);
    assert_eq!(m.handle(NavInput { right: true, select: true, ..nav() }, &[false; 4]), PauseAction::SaveSlot(4));
    assert_eq!(m.handle(NavInput { back: true, ..nav() }, &[false; 4]), PauseAction::Stay);
    assert_eq!(m.view, PauseView::Menu);
    assert!(m.paused);
}

#[test]
fn load_needs_a_filled_slot() {
    let mut m = PauseMenu::new();
    m.toggle(true);
    m.handle(NavInput { up: true, select: true, ..nav() }, &[false; 4]);
    assert_eq!(m.view, PauseView::Load);
    let filled = [false, true, false, false];
    assert_eq!(m.handle(NavInput { select: true, ..nav() }, &filled), PauseAction::Stay);
    assert_eq!(m.handle(NavInput { left: true, ..nav() }, &filled), PauseAction::Stay);
    assert_eq!(m.slot, 3);
    assert_eq!(m.handle(NavInput { right: true, ..nav() }, &filled), PauseAction::Stay);
    assert_eq!(m.handle(NavInput { right: true, select: true, ..nav() }, &filled), PauseAction::LoadSlot(2));
}

#[test]
fn reset_and_enter() {
    let mut m = PauseMenu::new();
    m.toggle(true);
    m.handle(NavInput { right: true, ..nav() }, &[false; 4]);
    m.handle(NavInput { down: true, ..nav() }, &[false; 4]);
    m.enter();
    assert_eq!(m.selected, 0);
    assert_eq!(m.speed_index, 1);
    m.reset();
    assert_eq!(m.speed_index, 0);
    assert!(!m.paused);
    m.toggle(false);
    m.toggle(true);
    m.leave();
    assert!(!m.paused && !m.toggle_held);
}

#[test]
fn slot_cursor_moves_undo() {
    for start in 0..4 {
        let mut m = PauseMenu::new();
        m.toggle(true);
        m.handle(NavInput { down: true, select: true, ..nav() }, &[false; 4]);
        for _ in 0..start {
            m.handle(NavInput { right: true, ..nav() }, &[false; 4]);
        }
        assert_eq!(m.slot, start);
        m.handle(NavInput { right: true, ..nav() }, &[false; 4]);
        m.handle(NavInput { left: true, ..nav() }, &[false; 4]);
        assert_eq!(m.slot, start);
        m.handle(NavInput { down: true, ..nav() }, &[false; 4]);
        m.handle(NavInput { up: true, ..nav() }, &[false; 4]);
        assert_eq!(m.slot, start);
    }
}
