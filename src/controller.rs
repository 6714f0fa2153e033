use vstd::prelude::*;
use crate::events::{Event, Key};
use crate::map::MapMeta;

verus! {

/// The dashboard tab on show.
#[derive(Clone, Copy, Debug, PartialEq, Eq, Structural)]
pub enum MenuItem {
    Sheet,
    MapTab,
}

/// The tab's position in the tab bar.
pub open spec fn menu_index(m: MenuItem) -> usize {
    match m {
        MenuItem::Sheet => 0,
        MenuItem::MapTab => 1,
    }
}

impl From<MenuItem> for usize {
    fn from(input: MenuItem) -> usize {
        match input {
            MenuItem::Sheet => 0,
            MenuItem::MapTab => 1,
        }
    }
}

impl vstd::std_specs::convert::FromSpecImpl<MenuItem> for usize {
    open spec fn obeys_from_spec() -> bool {
        true
    }

    open spec fn from_spec(v: MenuItem) -> usize {
        menu_index(v)
    }
}

/// What the map panel shows. `Conflict` and `Converse` exist but have no
/// transitions of their own yet.
#[derive(Clone, Copy, Debug, PartialEq, Eq, Structural)]
pub enum MapState {
    Welcome,
    MapView,
    Conflict,
    Converse,
}

/// A direction of cursor movement on the grid.
#[derive(Clone, Copy, Debug, PartialEq, Eq, Structural)]
pub enum Direction {
    Up,
    Down,
    Left,
    Right,
}

/// A user command that a key may be bound to.
#[derive(Clone, Copy, Debug, PartialEq, Eq, Structural)]
pub enum Command {
    SwitchToMapMenu,
    SwitchToSheetMenu,
    EnterMapView,
    Move(Direction),
    Quit,
}

/// What the event loop does after a command.
#[derive(Clone, Copy, Debug, PartialEq, Eq, Structural)]
pub enum Outcome {
    /// Keep running and draw the next frame.
    Continue,
    /// Release the terminal and end the loop.
    Quit,
    /// The command has no defined meaning in the current map state; nothing
    /// changed.
    NotYetSupported,
}

/// Account details shown on the sheet.
#[derive(Clone, Debug)]
pub struct Login {
    pub uname: String,
    pub password: String,
}

/// The player character the dashboard displays.
#[derive(Clone, Debug)]
pub struct Character {
    pub id: usize,
    pub login: Login,
    pub vitals: u8,
    pub spirit: u8,
}

/// A cell of the map grid: column `x`, row `y`.
#[derive(Clone, Copy, Debug, PartialEq, Eq, Structural)]
pub struct Position {
    pub x: usize,
    pub y: usize,
}

/// Everything the renderer needs besides the map: the tab and map panel on
/// show, the cursor as an absolute cell of the grid, and the character.
#[derive(Clone, Debug)]
pub struct AppState {
    pub active_menu: MenuItem,
    pub active_map_state: MapState,
    pub position: Position,
    pub character: Character,
}

/// A coordinate moved by `delta` and clamped into `[0, n)`; unchanged when
/// the grid has no cells along that axis.
pub open spec fn shift(c: usize, delta: int, n: usize) -> usize {
    if n == 0 {
        c
    } else {
        let t = c + delta;
        if t < 0 {
            0
        } else if t >= n {
            (n - 1) as usize
        } else {
            t as usize
        }
    }
}

pub open spec fn delta_x(d: Direction) -> int {
    match d {
        Direction::Left => -1,
        Direction::Right => 1,
        _ => 0,
    }
}

pub open spec fn delta_y(d: Direction) -> int {
    match d {
        Direction::Up => -1,
        Direction::Down => 1,
        _ => 0,
    }
}

/// The command bound to `key`: the first binding for it, if any.
pub open spec fn lookup_spec(bindings: Seq<(Key, Command)>, key: Key) -> Option<Command>
    decreases bindings.len(),
{
    if bindings.len() == 0 {
        None
    } else if bindings[0].0 == key {
        Some(bindings[0].1)
    } else {
        lookup_spec(bindings.drop_first(), key)
    }
}

/// The default bindings: q quits, m and s switch tabs, e enters the map
/// view, the arrow keys move the cursor.
pub open spec fn standard_bindings() -> Seq<(Key, Command)> {
    seq![
        (Key::Char('q'), Command::Quit),
        (Key::Char('m'), Command::SwitchToMapMenu),
        (Key::Char('s'), Command::SwitchToSheetMenu),
        (Key::Char('e'), Command::EnterMapView),
        (Key::Up, Command::Move(Direction::Up)),
        (Key::Down, Command::Move(Direction::Down)),
        (Key::Left, Command::Move(Direction::Left)),
        (Key::Right, Command::Move(Direction::Right)),
    ]
}

/// A configurable mapping from keys to commands.
#[derive(Clone, Debug)]
pub struct KeyMap {
    pub bindings: Vec<(Key, Command)>,
}

impl KeyMap {
    pub fn standard() -> (r: KeyMap)
        ensures
            r.bindings@ == standard_bindings(),
    {
        let bindings: Vec<(Key, Command)> = vec![
            (Key::Char('q'), Command::Quit),
            (Key::Char('m'), Command::SwitchToMapMenu),
            (Key::Char('s'), Command::SwitchToSheetMenu),
            (Key::Char('e'), Command::EnterMapView),
            (Key::Up, Command::Move(Direction::Up)),
            (Key::Down, Command::Move(Direction::Down)),
            (Key::Left, Command::Move(Direction::Left)),
            (Key::Right, Command::Move(Direction::Right)),
        ];
        assert(bindings@ =~= standard_bindings());
        KeyMap { bindings }
    }

    /// The command bound to `key`, or `None` for an unbound key.
    pub fn lookup(&self, key: Key) -> (r: Option<Command>)
        ensures
            r == lookup_spec(self.bindings@, key),
    {
        let n = self.bindings.len();
        let mut i: usize = 0;
        assert(self.bindings@.subrange(0, n as int) =~= self.bindings@);
        while i < n
            invariant
                n == self.bindings@.len(),
                i <= n,
                lookup_spec(self.bindings@, key) == lookup_spec(self.bindings@.subrange(i as int, n as int), key),
            decreases n - i,
        {
            let ghost rest = self.bindings@.subrange(i as int, n as int);
            assert(rest.drop_first() =~= self.bindings@.subrange(i + 1, n as int));
            assert(rest[0] == self.bindings@[i as int]);
            if self.bindings[i].0 == key {
                return Some(self.bindings[i].1);
            }
            i = i + 1;
        }
        None
    }
}

fn clamp_coord(c: usize, n: usize) -> (r: usize)
    ensures
        r == shift(c, 0, n),
{
    if n == 0 || c < n {
        c
    } else {
        n - 1
    }
}

fn coord_back(c: usize, n: usize) -> (r: usize)
    ensures
        r == shift(c, -1, n),
{
    if n == 0 {
        c
    } else if c == 0 {
        0
    } else if c - 1 >= n {
        n - 1
    } else {
        c - 1
    }
}

fn coord_forward(c: usize, n: usize) -> (r: usize)
    ensures
        r == shift(c, 1, n),
{
    if n == 0 {
        c
    } else if c >= n - 1 {
        n - 1
    } else {
        c + 1
    }
}

impl AppState {
    /// The state after `cmd`, over a map of size `grid`.
    pub open spec fn after(self, cmd: Command, grid: MapMeta) -> AppState {
        match cmd {
            Command::SwitchToMapMenu => AppState { active_menu: MenuItem::MapTab, ..self },
            Command::SwitchToSheetMenu => AppState { active_menu: MenuItem::Sheet, ..self },
            Command::EnterMapView => if self.active_map_state == MapState::Welcome {
                AppState { active_map_state: MapState::MapView, ..self }
            } else {
                self
            },
            Command::Move(d) => if self.active_menu == MenuItem::MapTab && self.active_map_state
                == MapState::MapView {
                AppState {
                    position: Position {
                        x: shift(self.position.x, delta_x(d), grid.width),
                        y: shift(self.position.y, delta_y(d), grid.height),
                    },
                    ..self
                }
            } else {
                self
            },
            Command::Quit => self,
        }
    }

    /// What the loop does after `cmd`.
    pub open spec fn outcome(self, cmd: Command) -> Outcome {
        match cmd {
            Command::Quit => Outcome::Quit,
            Command::EnterMapView => if self.active_map_state == MapState::Conflict
                || self.active_map_state == MapState::Converse {
                Outcome::NotYetSupported
            } else {
                Outcome::Continue
            },
            _ => Outcome::Continue,
        }
    }

    /// The state after one event: a tick or an unbound key changes nothing.
    pub open spec fn after_event(self, ev: Event, bindings: Seq<(Key, Command)>, grid: MapMeta) -> AppState {
        match ev {
            Event::Tick => self,
            Event::Input(k) => match lookup_spec(bindings, k) {
                Some(c) => self.after(c, grid),
                None => self,
            },
        }
    }

    /// What the loop does after one event.
    pub open spec fn event_outcome(self, ev: Event, bindings: Seq<(Key, Command)>) -> Outcome {
        match ev {
            Event::Tick => Outcome::Continue,
            Event::Input(k) => match lookup_spec(bindings, k) {
                Some(c) => self.outcome(c),
                None => Outcome::Continue,
            },
        }
    }

    /// The state at startup: the map tab, its welcome panel, the cursor at
    /// the top left cell.
    pub fn new(character: Character) -> (r: AppState)
        ensures
            r == (AppState {
                active_menu: MenuItem::MapTab,
                active_map_state: MapState::Welcome,
                position: Position { x: 0, y: 0 },
                character,
            }),
    {
        AppState {
            active_menu: MenuItem::MapTab,
            active_map_state: MapState::Welcome,
            position: Position { x: 0, y: 0 },
            character,
        }
    }

    /// Applies one command over a map of size `grid`.
    pub fn dispatch(&mut self, cmd: Command, grid: MapMeta) -> (r: Outcome)
        ensures
            *final(self) == old(self).after(cmd, grid),
            r == old(self).outcome(cmd),
    {
        match cmd {
            Command::SwitchToMapMenu => {
                self.active_menu = MenuItem::MapTab;
                Outcome::Continue
            },
            Command::SwitchToSheetMenu => {
                self.active_menu = MenuItem::Sheet;
                Outcome::Continue
            },
            Command::EnterMapView => {
                match self.active_map_state {
                    MapState::Welcome => {
                        self.active_map_state = MapState::MapView;
                        Outcome::Continue
                    },
                    MapState::MapView => Outcome::Continue,
                    _ => Outcome::NotYetSupported,
                }
            },
            Command::Move(d) => {
                if self.active_menu == MenuItem::MapTab && self.active_map_state == MapState::MapView {
                    let x = self.position.x;
                    let y = self.position.y;
                    let nx = match d {
                        Direction::Left => coord_back(x, grid.width),
                        Direction::Right => coord_forward(x, grid.width),
                        _ => clamp_coord(x, grid.width),
                    };
                    let ny = match d {
                        Direction::Up => coord_back(y, grid.height),
                        Direction::Down => coord_forward(y, grid.height),
                        _ => clamp_coord(y, grid.height),
                    };
                    self.position = Position { x: nx, y: ny };
                }
                Outcome::Continue
            },
            Command::Quit => Outcome::Quit,
        }
    }

    /// Applies one event from the stream: a key goes through `keys`, a tick
    /// or an unbound key changes nothing.
    pub fn handle_event(&mut self, ev: Event, keys: &KeyMap, grid: MapMeta) -> (r: Outcome)
        ensures
            *final(self) == old(self).after_event(ev, keys.bindings@, grid),
            r == old(self).event_outcome(ev, keys.bindings@),
    {
        match ev {
            Event::Tick => Outcome::Continue,
            Event::Input(k) => match keys.lookup(k) {
                Some(c) => self.dispatch(c, grid),
                None => Outcome::Continue,
            },
        }
    }
}

/// Entering the map view from the welcome panel shows the map and changes
/// nothing else.
pub proof fn lemma_enter_map_view_from_welcome(s: AppState, grid: MapMeta)
    requires
        s.active_map_state == MapState::Welcome,
    ensures
        s.after(Command::EnterMapView, grid) == (AppState { active_map_state: MapState::MapView, ..s }),
        s.outcome(Command::EnterMapView) == Outcome::Continue,
{
}

/// Entering the map view again once it is shown changes nothing.
pub proof fn lemma_enter_map_view_again(s: AppState, grid: MapMeta)
    requires
        s.active_map_state == MapState::MapView,
    ensures
        s.after(Command::EnterMapView, grid) == s,
        s.outcome(Command::EnterMapView) == Outcome::Continue,
{
}

/// Moving while the map panel is not showing the map changes nothing.
pub proof fn lemma_move_outside_map_view(s: AppState, d: Direction, grid: MapMeta)
    requires
        s.active_map_state != MapState::MapView,
    ensures
        s.after(Command::Move(d), grid) == s,
        s.outcome(Command::Move(d)) == Outcome::Continue,
{
}

/// Switching tabs never touches the map panel's state.
pub proof fn lemma_menu_switch_keeps_map_state(s: AppState, grid: MapMeta)
    ensures
        s.after(Command::SwitchToMapMenu, grid).active_map_state == s.active_map_state,
        s.after(Command::SwitchToSheetMenu, grid).active_map_state == s.active_map_state,
{
}

/// A move on a non-empty map always leaves the cursor on a cell of it.
pub proof fn lemma_move_stays_on_grid(s: AppState, d: Direction, grid: MapMeta)
    requires
        s.active_menu == MenuItem::MapTab,
        s.active_map_state == MapState::MapView,
        grid.width > 0,
        grid.height > 0,
    ensures
        s.after(Command::Move(d), grid).position.x < grid.width,
        s.after(Command::Move(d), grid).position.y < grid.height,
{
}

} // verus!
