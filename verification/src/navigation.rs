use vstd::prelude::*;
use crate::menu::{
    Bind, NavInput, SetItem, focus_move, focus_target, settings_index_of, settings_item_at,
    settings_item_count, settings_item_position, settings_items, SETTINGS_BUTTON_COUNT,
    SHADER_CONTROLS,
};
use crate::states::{automatic, StateStore};

verus! {

/// The screen the front end shows.
#[derive(Debug, Clone, Copy, PartialEq, Eq, Structural)]
pub enum Screen {
    Boot,
    Library,
    Settings,
    Browser,
    Playing,
}

/// Which new input, if any, the settings screen waits for to bind to a
/// control.
#[derive(Debug, Clone, Copy, PartialEq, Eq, Structural)]
pub enum Listening {
    Idle,
    Key(Bind),
    Pad(Bind),
}

/// A row of the library: a ROM of the scanned folder, or a suspended game
/// whose ROM the folder does not hold (by its index among the automatic
/// states).
#[derive(Debug, Clone, Copy, PartialEq, Eq, Structural)]
pub enum LibRow {
    Rom(usize),
    Orphan(usize),
}

/// The on/off settings of the picture filters.
#[derive(Debug, Clone, Copy, PartialEq, Eq, Structural)]
pub struct ShaderSwitches {
    pub color_correct: bool,
    pub ghosting: bool,
    pub pixel_aa: bool,
    pub integer_scale: bool,
    pub lcd_grid: bool,
}

/// One frame of input to the menus, with what the caller knows of the
/// world: whether Escape was pressed, whether a key or a gamepad button
/// was caught this frame, whether the ROM folder is a directory, and how
/// many gamepads and palettes there are.
#[derive(Debug, Clone, Copy, PartialEq, Eq, Structural)]
pub struct MenuEvent {
    pub nav: NavInput,
    pub escape: bool,
    pub key_captured: bool,
    pub pad_captured: bool,
    pub folder_ok: bool,
    pub gamepads: usize,
    pub palettes: usize,
}

/// What the caller carries out after a frame of menu input.
#[derive(Debug, Clone, Copy, PartialEq, Eq, Structural)]
pub enum MenuAction {
    /// Nothing beyond the menus' own state.
    Stay,
    /// Bind the key caught this frame to the control.
    RebindKey(Bind),
    /// Bind the gamepad button caught this frame to the control.
    RebindPad(Bind),
    /// Start or resume the game of the library row.
    Activate(LibRow),
    /// The folder browser opened: start it afresh at the ROM folder.
    OpenBrowser,
    /// Move the filter slider of the settings row down (`true`) or up a step.
    Nudge(usize, bool),
}

/// Where the front end's menus stand.
#[derive(Debug, Clone, Copy, PartialEq, Eq, Structural)]
pub struct MenuState {
    pub screen: Screen,
    pub listening: Listening,
    /// The settings button of the library has the focus.
    pub gear_focus: bool,
    /// The highlighted library row.
    pub selected: usize,
    /// The focused item of the settings list.
    pub settings_focus: usize,
    /// The settings list should scroll the focused item into view.
    pub settings_scroll: bool,
    /// The screen the folder browser returns to.
    pub browser_from: Screen,
    /// The gamepad shown in the settings.
    pub device_index: usize,
    /// The chosen palette, an index into the palettes offered.
    pub palette_index: usize,
    pub switches: ShaderSwitches,
}

/// The menus with the settings screen opened at its first item.
pub open spec fn with_settings_open(s: MenuState) -> MenuState {
    MenuState {
        gear_focus: false,
        settings_focus: 0,
        settings_scroll: true,
        screen: Screen::Settings,
        ..s
    }
}

/// The menus with the folder browser opened, to return to `from`.
pub open spec fn with_browser_open(s: MenuState, from: Screen) -> MenuState {
    MenuState { browser_from: from, screen: Screen::Browser, ..s }
}

/// A step through `count` things from `index`, forward or back, wrapping.
pub open spec fn cycled(index: int, count: int, forward: bool) -> int {
    if forward {
        (index + 1) % count
    } else {
        (index + count - 1) % count
    }
}

/// A frame of input on a picture-filter row `control` of the settings:
/// choosing, left or right flips a switch (the anti-aliasing one only while
/// integer scaling is off) or moves a slider, down for left and up
/// otherwise.
pub open spec fn shader_step(s: MenuState, control: int, nav: NavInput) -> (MenuState, MenuAction) {
    let flip = nav.select || nav.left || nav.right;
    let w = s.switches;
    if !flip {
        (s, MenuAction::Stay)
    } else if control == 1 || control == 3 || control == 7 {
        (s, MenuAction::Nudge(control as usize, nav.left))
    } else {
        let switches = if control == 0 {
            ShaderSwitches { color_correct: !w.color_correct, ..w }
        } else if control == 2 {
            ShaderSwitches { ghosting: !w.ghosting, ..w }
        } else if control == 4 && !w.integer_scale {
            ShaderSwitches { pixel_aa: !w.pixel_aa, ..w }
        } else if control == 5 {
            ShaderSwitches { integer_scale: !w.integer_scale, ..w }
        } else if control == 6 {
            ShaderSwitches { lcd_grid: !w.lcd_grid, ..w }
        } else {
            w
        };
        (MenuState { switches, ..s }, MenuAction::Stay)
    }
}

/// A frame of input on the settings list (the focus past the end of the
/// list is taken as the first item): a direction that `focus_target` maps
/// moves the focus; otherwise the focused item acts on it.
pub open spec fn settings_step(s0: MenuState, nav: NavInput, gamepads: int, palettes: int) -> (
    MenuState,
    MenuAction,
) {
    let focus = if s0.settings_focus < settings_item_count() {
        s0.settings_focus as int
    } else {
        0
    };
    let s = MenuState { settings_focus: focus as usize, ..s0 };
    let current = settings_item_at(focus);
    match focus_target(current, nav.up, nav.down, nav.left, nav.right) {
        Some(target) => match settings_item_position(target) {
            Some(p) => (MenuState { settings_focus: p as usize, settings_scroll: true, ..s }, MenuAction::Stay),
            None => (s, MenuAction::Stay),
        },
        None => item_step(s, current, nav, gamepads, palettes),
    }
}

/// A frame of input that moves no focus, on the focused settings item
/// `current`: choosing the folder row opens the browser; right and left
/// cycle the gamepads and the palettes (choosing cycles the palette
/// forward too); choosing a binding waits for an input to bind; the filter
/// rows act as `shader_step` says.
pub open spec fn item_step(s: MenuState, current: SetItem, nav: NavInput, gamepads: int, palettes: int) -> (
    MenuState,
    MenuAction,
) {
    match current {
        SetItem::ChangeFolder => if nav.select {
            (with_browser_open(s, Screen::Settings), MenuAction::OpenBrowser)
        } else {
            (s, MenuAction::Stay)
        },
        SetItem::Device => if gamepads > 0 && (nav.right || nav.left) {
            (
                MenuState {
                    device_index: cycled(s.device_index as int, gamepads, nav.right) as usize,
                    ..s
                },
                MenuAction::Stay,
            )
        } else {
            (s, MenuAction::Stay)
        },
        SetItem::Binding(button, gamepad) => if nav.select {
            (
                MenuState {
                    listening: if gamepad {
                        Listening::Pad(button)
                    } else {
                        Listening::Key(button)
                    },
                    ..s
                },
                MenuAction::Stay,
            )
        } else {
            (s, MenuAction::Stay)
        },
        SetItem::Palette => {
            let from = if s.palette_index < palettes {
                s.palette_index as int
            } else {
                0
            };
            if nav.right || nav.select || nav.left {
                (
                    MenuState {
                        palette_index: cycled(from, palettes, nav.right || nav.select) as usize,
                        ..s
                    },
                    MenuAction::Stay,
                )
            } else {
                (s, MenuAction::Stay)
            }
        },
        SetItem::Shader(k) => shader_step(s, k as int, nav),
    }
}

/// A frame of input on the library: Select opens the settings; while the
/// settings button has the focus, choosing opens them and down leaves the
/// button; up on the first row (or on an empty library) focuses the
/// button; otherwise down and up move the highlight (down wrapping from
/// the last row to the first) and choosing starts the highlighted row's
/// game. A highlight past the end is first taken back to the last row.
pub open spec fn library_step(s: MenuState, nav: NavInput, rows: Seq<LibRow>) -> (MenuState, MenuAction) {
    let count = rows.len() as int;
    if nav.menu {
        (with_settings_open(s), MenuAction::Stay)
    } else if s.gear_focus {
        if nav.select {
            (with_settings_open(s), MenuAction::Stay)
        } else if nav.down {
            (MenuState { gear_focus: false, ..s }, MenuAction::Stay)
        } else {
            (s, MenuAction::Stay)
        }
    } else if nav.up && (count == 0 || s.selected == 0) {
        (MenuState { gear_focus: true, ..s }, MenuAction::Stay)
    } else if count == 0 {
        (s, MenuAction::Stay)
    } else {
        let from = if s.selected < count {
            s.selected as int
        } else {
            count - 1
        };
        let selected = if nav.down {
            (from + 1) % count
        } else if nav.up {
            from - 1
        } else {
            from
        };
        (
            MenuState { selected: selected as usize, ..s },
            if nav.select {
                MenuAction::Activate(rows[selected])
            } else {
                MenuAction::Stay
            },
        )
    }
}

/// A frame of menu input. While waiting for an input to bind, Escape stops
/// waiting and a caught key (or gamepad button) is bound; nothing else
/// happens that frame. Otherwise Escape or B leaves the settings for the
/// library, and leaves the folder browser for where it was opened from
/// when the ROM folder is usable; the library and the settings screen then
/// take the frame (Select on the settings screen returns to the library).
pub open spec fn menu_step(s: MenuState, e: MenuEvent, rows: Seq<LibRow>) -> (MenuState, MenuAction) {
    match s.listening {
        Listening::Key(button) => if e.escape {
            (MenuState { listening: Listening::Idle, ..s }, MenuAction::Stay)
        } else if e.key_captured {
            (MenuState { listening: Listening::Idle, ..s }, MenuAction::RebindKey(button))
        } else {
            (s, MenuAction::Stay)
        },
        Listening::Pad(button) => if e.escape {
            (MenuState { listening: Listening::Idle, ..s }, MenuAction::Stay)
        } else if e.pad_captured {
            (MenuState { listening: Listening::Idle, ..s }, MenuAction::RebindPad(button))
        } else {
            (s, MenuAction::Stay)
        },
        Listening::Idle => {
            let leave = e.escape || e.nav.back;
            if leave && s.screen == Screen::Settings {
                (MenuState { screen: Screen::Library, ..s }, MenuAction::Stay)
            } else if leave && s.screen == Screen::Browser && e.folder_ok {
                (MenuState { screen: s.browser_from, ..s }, MenuAction::Stay)
            } else if s.screen == Screen::Library {
                library_step(s, e.nav, rows)
            } else if s.screen == Screen::Settings {
                if e.nav.menu {
                    (MenuState { screen: Screen::Library, ..s }, MenuAction::Stay)
                } else {
                    settings_step(s, e.nav, e.gamepads as int, e.palettes as int)
                }
            } else {
                (s, MenuAction::Stay)
            }
        },
    }
}

/// The one input on which a frame of menu input overflows: up (without
/// down) on a one-row library whose highlight is past its end.
pub open spec fn menu_step_overflows(s: MenuState, e: MenuEvent, rows: Seq<LibRow>) -> bool {
    &&& s.listening == Listening::Idle
    &&& s.screen == Screen::Library
    &&& !e.nav.menu
    &&& !s.gear_focus
    &&& e.nav.up
    &&& !e.nav.down
    &&& rows.len() == 1
    &&& s.selected >= 1
}

impl MenuState {
    /// The menus at start-up: the boot screen, with the palette and filter
    /// switches of the stored settings.
    pub fn new(palette_index: usize, switches: ShaderSwitches) -> (s: Self)
        ensures
            s == (MenuState {
                screen: Screen::Boot,
                listening: Listening::Idle,
                gear_focus: false,
                selected: 0,
                settings_focus: 0,
                settings_scroll: false,
                browser_from: Screen::Library,
                device_index: 0,
                palette_index,
                switches,
            }),
    {
        MenuState {
            screen: Screen::Boot,
            listening: Listening::Idle,
            gear_focus: false,
            selected: 0,
            settings_focus: 0,
            settings_scroll: false,
            browser_from: Screen::Library,
            device_index: 0,
            palette_index,
            switches,
        }
    }

    /// Opens the settings at their first item.
    pub fn open_settings(&mut self)
        ensures
            *final(self) == with_settings_open(*old(self)),
    {
        self.gear_focus = false;
        self.settings_focus = 0;
        self.settings_scroll = true;
        self.screen = Screen::Settings;
    }

    /// Opens the folder browser, to return to `from`.
    pub fn open_browser(&mut self, from: Screen)
        ensures
            *final(self) == with_browser_open(*old(self), from),
    {
        self.browser_from = from;
        self.screen = Screen::Browser;
    }

    /// Leaves the boot screen: for the library when the ROM folder is
    /// usable, else for the folder browser.
    pub fn after_boot(&mut self, folder_ok: bool) -> (action: MenuAction)
        ensures
            folder_ok ==> *final(self) == (MenuState { screen: Screen::Library, ..*old(self) })
                && action == MenuAction::Stay,
            !folder_ok ==> *final(self) == with_browser_open(*old(self), Screen::Library)
                && action == MenuAction::OpenBrowser,
    {
        if folder_ok {
            self.screen = Screen::Library;
            MenuAction::Stay
        } else {
            self.open_browser(Screen::Library);
            MenuAction::OpenBrowser
        }
    }

    /// A new scan of the folder found `count` ROMs: the highlight is kept
    /// within them.
    pub fn scan_finished(&mut self, count: usize)
        ensures
            *final(self) == (MenuState {
                selected: if count == 0 {
                    0
                } else if old(self).selected < count {
                    old(self).selected
                } else {
                    (count - 1) as usize
                },
                ..*old(self)
            }),
    {
        let last = if count > 0 {
            count - 1
        } else {
            0
        };
        if self.selected > last {
            self.selected = last;
        }
    }

    /// A frame of input on a picture-filter row.
    fn shader_input(&mut self, control: usize, nav: NavInput) -> (action: MenuAction)
        ensures
            (*final(self), action) == shader_step(*old(self), control as int, nav),
    {
        let flip = nav.select || nav.left || nav.right;
        if !flip {
            return MenuAction::Stay;
        }
        if control == 1 || control == 3 || control == 7 {
            return MenuAction::Nudge(control, nav.left);
        }
        if control == 0 {
            self.switches.color_correct = !self.switches.color_correct;
        } else if control == 2 {
            self.switches.ghosting = !self.switches.ghosting;
        } else if control == 4 && !self.switches.integer_scale {
            self.switches.pixel_aa = !self.switches.pixel_aa;
        } else if control == 5 {
            self.switches.integer_scale = !self.switches.integer_scale;
        } else if control == 6 {
            self.switches.lcd_grid = !self.switches.lcd_grid;
        }
        MenuAction::Stay
    }

    /// A frame of input that moves no focus, on the settings item `current`.
    fn item_input(&mut self, current: SetItem, nav: NavInput, gamepads: usize, palettes: usize) -> (action: MenuAction)
        requires
            palettes > 0,
        ensures
            (*final(self), action) == item_step(*old(self), current, nav, gamepads as int, palettes as int),
    {
        match current {
            SetItem::ChangeFolder => {
                if nav.select {
                    self.open_browser(Screen::Settings);
                    MenuAction::OpenBrowser
                } else {
                    MenuAction::Stay
                }
            },
            SetItem::Device => {
                if gamepads > 0 && (nav.right || nav.left) {
                    let at = self.device_index % gamepads;
                    self.device_index = if nav.right {
                        (at + 1) % gamepads
                    } else if at == 0 {
                        gamepads - 1
                    } else {
                        at - 1
                    };
                    proof {
                        let d = old(self).device_index as int;
                        let n = gamepads as int;
                        assert((d + 1) % n == (d % n + 1) % n) by (nonlinear_arith)
                            requires
                                n > 0,
                                d >= 0,
                        ;
                        assert(d % n == 0 ==> (d + n - 1) % n == n - 1) by (nonlinear_arith)
                            requires
                                n > 0,
                                d >= 0,
                        ;
                        assert(d % n != 0 ==> (d + n - 1) % n == d % n - 1) by (nonlinear_arith)
                            requires
                                n > 0,
                                d >= 0,
                        ;
                    }
                }
                MenuAction::Stay
            },
            SetItem::Binding(button, gamepad) => {
                if nav.select {
                    self.listening = if gamepad {
                        Listening::Pad(button)
                    } else {
                        Listening::Key(button)
                    };
                }
                MenuAction::Stay
            },
            SetItem::Palette => {
                let from = if self.palette_index < palettes {
                    self.palette_index
                } else {
                    0
                };
                if nav.right || nav.select {
                    self.palette_index = (from + 1) % palettes;
                } else if nav.left {
                    self.palette_index = if from == 0 {
                        palettes - 1
                    } else {
                        from - 1
                    };
                    proof {
                        let f = from as int;
                        let n = palettes as int;
                        assert(f == 0 ==> (f + n - 1) % n == n - 1) by (nonlinear_arith)
                            requires
                                n > 0,
                                0 <= f < n,
                        ;
                        assert(f != 0 ==> (f + n - 1) % n == f - 1) by (nonlinear_arith)
                            requires
                                n > 0,
                                0 <= f < n,
                        ;
                    }
                }
                MenuAction::Stay
            },
            SetItem::Shader(k) => self.shader_input(k, nav),
        }
    }

    /// A frame of input on the settings list (see `settings_step`).
    pub fn navigate_settings(&mut self, nav: NavInput, gamepads: usize, palettes: usize) -> (action: MenuAction)
        requires
            palettes > 0,
        ensures
            (*final(self), action) == settings_step(*old(self), nav, gamepads as int, palettes as int),
    {
        let items = settings_items();
        if self.settings_focus >= items.len() {
            self.settings_focus = 0;
        }
        let current = items[self.settings_focus];
        if let Some(target) = focus_move(current, nav.up, nav.down, nav.left, nav.right) {
            if let Some(index) = settings_index_of(target) {
                self.settings_focus = index;
                self.settings_scroll = true;
            }
            return MenuAction::Stay;
        }
        self.item_input(current, nav, gamepads, palettes)
    }

    /// Takes one frame of menu input (see `menu_step`); `rows` are the
    /// library's rows.
    pub fn handle(&mut self, event: MenuEvent, rows: &[LibRow]) -> (action: MenuAction)
        requires
            event.palettes > 0,
            !menu_step_overflows(*old(self), event, rows@),
        ensures
            (*final(self), action) == menu_step(*old(self), event, rows@),
    {
        match self.listening {
            Listening::Key(button) => {
                if event.escape {
                    self.listening = Listening::Idle;
                    return MenuAction::Stay;
                } else if event.key_captured {
                    self.listening = Listening::Idle;
                    return MenuAction::RebindKey(button);
                }
                return MenuAction::Stay;
            },
            Listening::Pad(button) => {
                if event.escape {
                    self.listening = Listening::Idle;
                    return MenuAction::Stay;
                } else if event.pad_captured {
                    self.listening = Listening::Idle;
                    return MenuAction::RebindPad(button);
                }
                return MenuAction::Stay;
            },
            Listening::Idle => {},
        }
        let nav = event.nav;
        if event.escape || nav.back {
            if self.screen == Screen::Settings {
                self.screen = Screen::Library;
                return MenuAction::Stay;
            } else if self.screen == Screen::Browser && event.folder_ok {
                self.screen = self.browser_from;
                return MenuAction::Stay;
            }
        }
        if self.screen == Screen::Library {
            if nav.menu {
                self.open_settings();
                return MenuAction::Stay;
            }
            if self.gear_focus {
                if nav.select {
                    self.open_settings();
                } else if nav.down {
                    self.gear_focus = false;
                }
                return MenuAction::Stay;
            }
            let count = rows.len();
            if nav.up && (count == 0 || self.selected == 0) {
                self.gear_focus = true;
                return MenuAction::Stay;
            }
            if count == 0 {
                return MenuAction::Stay;
            }
            if self.selected >= count {
                self.selected = count - 1;
            }
            if nav.down {
                self.selected = (self.selected + 1) % count;
            } else if nav.up {
                self.selected = self.selected - 1;
            }
            if nav.select {
                MenuAction::Activate(rows[self.selected])
            } else {
                MenuAction::Stay
            }
        } else if self.screen == Screen::Settings {
            if nav.menu {
                self.screen = Screen::Library;
                return MenuAction::Stay;
            }
            self.navigate_settings(nav, event.gamepads, event.palettes)
        } else {
            MenuAction::Stay
        }
    }
}

/// What clicking a binding's chip asks for: to stop waiting when that
/// binding is already waited for (`active`), else to wait for `target`.
pub fn toggle_listen(active: bool, target: Listening) -> (listening: Listening)
    ensures
        listening == if active {
            Listening::Idle
        } else {
            target
        },
{
    if active {
        Listening::Idle
    } else {
        target
    }
}

/// Some ROM of the folder is stored under `slug`.
pub open spec fn slug_taken(rom_slugs: Seq<String>, slug: Seq<char>) -> bool {
    exists|i: int| 0 <= i < rom_slugs.len() && rom_slugs[i]@ == slug
}

/// The rows for the first `upto` automatic states: those whose game is not
/// among the folder's ROMs, by their index.
pub open spec fn orphan_rows(auto: Seq<crate::states::StateMeta>, rom_slugs: Seq<String>, upto: int) -> Seq<LibRow>
    decreases upto,
{
    if upto <= 0 {
        Seq::empty()
    } else {
        let before = orphan_rows(auto, rom_slugs, upto - 1);
        if slug_taken(rom_slugs, auto[upto - 1].spec_slug()) {
            before
        } else {
            before.push(LibRow::Orphan((upto - 1) as usize))
        }
    }
}

/// The library's rows: each ROM of the folder in order, then each
/// suspended game whose ROM is not among them. `rom_slugs` holds, for each
/// ROM, the name its suspended state is stored under.
pub fn library_rows(store: &StateStore, rom_slugs: &Vec<String>) -> (rows: Vec<LibRow>)
    ensures
        rows@.len() >= rom_slugs@.len(),
        forall|i: int| 0 <= i < rom_slugs@.len() ==> rows@[i] == LibRow::Rom(i as usize),
        rows@.skip(rom_slugs@.len() as int) == orphan_rows(
            automatic(store.spec_entries()),
            rom_slugs@,
            automatic(store.spec_entries()).len() as int,
        ),
{
    let auto = store.auto_entries();
    let ghost autos = automatic(store.spec_entries());
    let mut rows: Vec<LibRow> = Vec::new();
    let mut i: usize = 0;
    while i < rom_slugs.len()
        invariant
            i <= rom_slugs@.len(),
            rows@.len() == i,
            forall|k: int| 0 <= k < i ==> rows@[k] == LibRow::Rom(k as usize),
        decreases rom_slugs.len() - i,
    {
        rows.push(LibRow::Rom(i));
        i += 1;
    }
    let n = rom_slugs.len();
    let mut j: usize = 0;
    assert(rows@.skip(n as int) =~= orphan_rows(autos, rom_slugs@, 0));
    while j < auto.len()
        invariant
            j <= auto@.len(),
            auto@.len() == autos.len(),
            forall|k: int| 0 <= k < auto@.len() ==> *auto@[k] == autos[k],
            n == rom_slugs@.len(),
            rows@.len() >= n,
            forall|k: int| 0 <= k < n ==> rows@[k] == LibRow::Rom(k as usize),
            rows@.skip(n as int) == orphan_rows(autos, rom_slugs@, j as int),
        decreases auto.len() - j,
    {
        let slug = &auto[j].slug;
        let mut taken = false;
        let mut r: usize = 0;
        while r < rom_slugs.len()
            invariant
                r <= rom_slugs@.len(),
                slug@ == autos[j as int].spec_slug(),
                taken == exists|k: int| 0 <= k < r && rom_slugs@[k]@ == slug@,
            decreases rom_slugs.len() - r,
        {
            if rom_slugs[r] == *slug {
                taken = true;
            }
            r += 1;
        }
        let ghost before = rows@;
        if !taken {
            rows.push(LibRow::Orphan(j));
            assert(rows@.skip(n as int) =~= before.skip(n as int).push(LibRow::Orphan(j)));
        }
        j += 1;
    }
    rows
}

/// A frame with no input but the directions and buttons of `nav`.
pub open spec fn plain_event(nav: NavInput) -> MenuEvent {
    MenuEvent {
        nav,
        escape: false,
        key_captured: false,
        pad_captured: false,
        folder_ok: true,
        gamepads: 0,
        palettes: 1,
    }
}

/// A frame in which only the directions `up` and `down` given are pressed.
pub open spec fn vertical(up: bool, down: bool) -> NavInput {
    NavInput { up, down, left: false, right: false, select: false, back: false, menu: false }
}

/// In the library, moving the highlight down and then up returns to the
/// same state, from any row but the last (from which down wraps to the
/// first row, where up focuses the settings button).
pub proof fn lemma_library_down_up(s: MenuState, rows: Seq<LibRow>)
    requires
        s.listening == Listening::Idle,
        s.screen == Screen::Library,
        !s.gear_focus,
        s.selected + 1 < rows.len() <= usize::MAX,
    ensures
        ({
            let after_down = menu_step(s, plain_event(vertical(false, true)), rows).0;
            menu_step(after_down, plain_event(vertical(true, false)), rows).0 == s
        }),
{
    let count = rows.len() as int;
    let next = s.selected + 1;
    assert(next % count == next) by (nonlinear_arith)
        requires
            0 < next < count,
    ;
    let after_down = menu_step(s, plain_event(vertical(false, true)), rows).0;
    assert(after_down == (MenuState { selected: next as usize, ..s }));
}

/// In the library, up on the first row focuses the settings button and
/// down gives the focus back to the rows, leaving the state as it was.
pub proof fn lemma_gear_up_down(s: MenuState, rows: Seq<LibRow>)
    requires
        s.listening == Listening::Idle,
        s.screen == Screen::Library,
        !s.gear_focus,
        s.selected == 0,
    ensures
        ({
            let after_up = menu_step(s, plain_event(vertical(true, false)), rows).0;
            &&& after_up.gear_focus
            &&& menu_step(after_up, plain_event(vertical(false, true)), rows).0 == s
        }),
{
}

/// While waiting for an input to bind, Escape stops waiting and changes
/// nothing else.
pub proof fn lemma_escape_stops_listening(s: MenuState, e: MenuEvent, rows: Seq<LibRow>)
    requires
        s.listening != Listening::Idle,
        e.escape,
    ensures
        menu_step(s, e, rows) == (MenuState { listening: Listening::Idle, ..s }, MenuAction::Stay),
{
}

/// Opening the settings from the library with Select and leaving them with
/// B returns to the library, with the settings list at its first item.
pub proof fn lemma_settings_round_trip(s: MenuState, rows: Seq<LibRow>)
    requires
        s.listening == Listening::Idle,
        s.screen == Screen::Library,
    ensures
        ({
            let select = NavInput { menu: true, ..vertical(false, false) };
            let back = NavInput { back: true, ..vertical(false, false) };
            let opened = menu_step(s, plain_event(select), rows).0;
            &&& opened == with_settings_open(s)
            &&& menu_step(opened, plain_event(back), rows).0 == (MenuState {
                screen: Screen::Library,
                ..with_settings_open(s)
            })
        }),
{
}

} // verus!
