use gameboy_core::menu::{Bind, NavInput};
use gameboy_core::navigation::{
    library_rows, LibRow, Listening, MenuAction, MenuEvent, MenuState, Screen, ShaderSwitches,
};
use gameboy_core::states::{StateMeta, StateStore};
use gameboy_core::JoypadButton;

fn nav() -> NavInput {
    NavInput { up: false, down: false, left: false, right: false, select: false, back: false, menu: false }
}

fn event(nav: NavInput) -> MenuEvent {
    MenuEvent {
        nav,
        escape: false,
        key_captured: false,
        pad_captured: false,
        folder_ok: true,
        gamepads: 2,
        palettes: 3,
    }
}

fn switches() -> ShaderSwitches {
    ShaderSwitches { color_correct: false, ghosting: false, pixel_aa: false, integer_scale: false, lcd_grid: false }
}

fn library() -> MenuState {
    let mut m = MenuState::new(0, switches());
    assert_eq!(m.after_boot(true), MenuAction::Stay);
    m
}

#[test]
fn boot_goes_to_browser_without_folder() {
    let mut m = MenuState::new(1, switches());
    assert_eq!(m.screen, Screen::Boot);
    assert_eq!(m.after_boot(false), MenuAction::OpenBrowser);
    assert_eq!(m.screen, Screen::Browser);
    assert_eq!(m.browser_from, Screen::Library);
}

#[test]
fn library_moves_and_activates() {
    let rows = [LibRow::Rom(0), LibRow::Rom(1), LibRow::Orphan(0)];
    let mut m = library();
    assert_eq!(m.handle(event(NavInput { down: true, ..nav() }), &rows), MenuAction::Stay);
    assert_eq!(m.selected, 1);
    m.handle(event(NavInput { down: true, ..nav() }), &rows);
    assert_eq!(m.handle(event(NavInput { down: true, select: true, ..nav() }), &rows), MenuAction::Activate(LibRow::Rom(0)));
    assert_eq!(m.selected, 0);
    m.handle(event(NavInput { up: true, ..nav() }), &rows);
    assert!(m.gear_focus);
    m.handle(event(NavInput { down: true, ..nav() }), &rows);
    assert!(!m.gear_focus);
    assert_eq!(m.selected, 0);
}

#[test]
fn stale_selection_is_clamped() {
    let rows = [LibRow::Rom(0), LibRow::Orphan(3)];
    let mut m = library();
    m.selected = 7;
    assert_eq!(m.handle(event(NavInput { select: true, ..nav() }), &rows), MenuAction::Activate(LibRow::Orphan(3)));
    assert_eq!(m.selected, 1);
    m.scan_finished(0);
    assert_eq!(m.selected, 0);
}

#[test]
fn settings_open_and_close() {
    let rows: [LibRow; 0] = [];
    let mut m = library();
    m.handle(event(NavInput { menu: true, ..nav() }), &rows);
    assert_eq!(m.screen, Screen::Settings);
    assert_eq!(m.settings_focus, 0);
    assert!(m.settings_scroll);
    m.handle(event(NavInput { back: true, ..nav() }), &rows);
    assert_eq!(m.screen, Screen::Library);
}

#[test]
fn settings_change_folder_opens_browser() {
    let rows: [LibRow; 0] = [];
    let mut m = library();
    m.open_settings();
    assert_eq!(m.handle(event(NavInput { select: true, ..nav() }), &rows), MenuAction::OpenBrowser);
    assert_eq!(m.screen, Screen::Browser);
    let mut esc = event(nav());
    esc.escape = true;
    m.handle(esc, &rows);
    assert_eq!(m.screen, Screen::Settings);
}

#[test]
fn browser_stays_without_folder() {
    let rows: [LibRow; 0] = [];
    let mut m = MenuState::new(0, switches());
    m.after_boot(false);
    let mut esc = event(nav());
    esc.escape = true;
    esc.folder_ok = false;
    m.handle(esc, &rows);
    assert_eq!(m.screen, Screen::Browser);
}

#[test]
fn binding_waits_and_rebinds() {
    let rows: [LibRow; 0] = [];
    let mut m = library();
    m.open_settings();
    m.handle(event(NavInput { down: true, ..nav() }), &rows);
    m.handle(event(NavInput { down: true, ..nav() }), &rows);
    assert_eq!(m.settings_focus, 2);
    m.handle(event(NavInput { select: true, ..nav() }), &rows);
    assert_eq!(m.listening, Listening::Key(Bind::Pad(JoypadButton::Up)));
    assert_eq!(m.handle(event(nav()), &rows), MenuAction::Stay);
    let mut caught = event(nav());
    caught.key_captured = true;
    assert_eq!(m.handle(caught, &rows), MenuAction::RebindKey(Bind::Pad(JoypadButton::Up)));
    assert_eq!(m.listening, Listening::Idle);
    m.handle(event(NavInput { right: true, ..nav() }), &rows);
    assert_eq!(m.settings_focus, 3);
    m.handle(event(NavInput { select: true, ..nav() }), &rows);
    assert_eq!(m.listening, Listening::Pad(Bind::Pad(JoypadButton::Up)));
    let mut esc = event(nav());
    esc.escape = true;
    assert_eq!(m.handle(esc, &rows), MenuAction::Stay);
    assert_eq!(m.listening, Listening::Idle);
    assert_eq!(m.screen, Screen::Settings);
}

#[test]
fn device_and_palette_cycle() {
    let rows: [LibRow; 0] = [];
    let mut m = library();
    m.open_settings();
    m.settings_focus = 1;
    m.handle(event(NavInput { left: true, ..nav() }), &rows);
    assert_eq!(m.device_index, 1);
    m.handle(event(NavInput { right: true, ..nav() }), &rows);
    assert_eq!(m.device_index, 0);
    m.settings_focus = 22;
    m.handle(event(NavInput { left: true, ..nav() }), &rows);
    assert_eq!(m.palette_index, 2);
    m.handle(event(NavInput { select: true, ..nav() }), &rows);
    assert_eq!(m.palette_index, 0);
}

#[test]
fn filter_rows_flip_and_nudge() {
    let rows: [LibRow; 0] = [];
    let mut m = library();
    m.open_settings();
    m.settings_focus = 23;
    m.handle(event(NavInput { select: true, ..nav() }), &rows);
    assert!(m.switches.color_correct);
    m.settings_focus = 24;
    assert_eq!(m.handle(event(NavInput { left: true, ..nav() }), &rows), MenuAction::Nudge(1, true));
    m.settings_focus = 28;
    m.handle(event(NavInput { right: true, ..nav() }), &rows);
    assert!(m.switches.integer_scale);
    m.settings_focus = 27;
    m.handle(event(NavInput { right: true, ..nav() }), &rows);
    assert!(!m.switches.pixel_aa);
    m.settings_focus = 30;
    assert_eq!(m.handle(event(NavInput { select: true, ..nav() }), &rows), MenuAction::Nudge(7, false));
}

#[test]
fn focus_past_end_restarts_list() {
    let rows: [LibRow; 0] = [];
    let mut m = library();
    m.open_settings();
    m.settings_focus = 99;
    m.handle(event(nav()), &rows);
    assert_eq!(m.settings_focus, 0);
}

fn state(slug: &str, slot: u32, time: u64) -> StateMeta {
    StateMeta::new(
        String::from("/r/x.gb"),
        String::from("X"),
        String::from("MBC1"),
        false,
        0,
        Vec::new(),
        slot,
        String::from(slug),
        time,
    )
}

#[test]
fn library_rows_add_orphans() {
    let mut store = StateStore::new();
    store.save(state("a_s0", 0, 10));
    store.save(state("b_s0", 0, 20));
    store.save(state("c_s1", 1, 30));
    let rom_slugs = vec![String::from("a_s0"), String::from("z_s0")];
    let rows = library_rows(&store, &rom_slugs);
    assert_eq!(rows, vec![LibRow::Rom(0), LibRow::Rom(1), LibRow::Orphan(0)]);
}

#[test]
fn chip_click_toggles_listening() {
    use_toggle();
}

fn use_toggle() {
    let target = Listening::Key(Bind::Menu);
    assert_eq!(gameboy_core::navigation::toggle_listen(true, target), Listening::Idle);
    assert_eq!(gameboy_core::navigation::toggle_listen(false, target), target);
}
