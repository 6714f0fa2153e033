use gibbering_mouther::controller::{
    AppState, Character, Command, Direction, KeyMap, Login, MapState, MenuItem, Outcome, Position,
};
use gibbering_mouther::events::{Event, Key, Poller, TICK_RATE_MS};
use gibbering_mouther::map::MapMeta;

fn hero() -> AppState {
    AppState::new(Character {
        id: 1,
        login: Login { uname: "Samhain".to_owned(), password: "pass".to_owned() },
        vitals: 100,
        spirit: 20,
    })
}

const GRID: MapMeta = MapMeta { height: 3, width: 4 };

#[test]
fn timeout_is_remaining_interval() {
    let p = Poller::new(TICK_RATE_MS, 1000);
    assert_eq!(p.timeout(1000), 200);
    assert_eq!(p.timeout(1150), 50);
    assert_eq!(p.timeout(1200), 0);
    assert_eq!(p.timeout(1500), 0);
    assert_eq!(p.timeout(900), 200);
    assert!(!p.tick_due(1199));
    assert!(p.tick_due(1200));
}

#[test]
fn step_emits_input_then_tick() {
    let mut p = Poller::new(200, 0);
    assert_eq!(p.step(50, Some(Key::Char('a'))), vec![Event::Input(Key::Char('a'))]);
    assert_eq!(p.last_tick_ms, 0);
    assert_eq!(p.step(210, Some(Key::Up)), vec![Event::Input(Key::Up), Event::Tick]);
    assert_eq!(p.last_tick_ms, 210);
    assert_eq!(p.step(300, None), vec![]);
    assert_eq!(p.step(410, None), vec![Event::Tick]);
}

#[test]
fn script_keeps_inputs_in_order_and_ticks_once_per_interval() {
    let p = Poller::new(200, 0);
    let script = vec![
        (20, Some(Key::Char('m'))),
        (90, Some(Key::Char('e'))),
        (200, None),
        (250, Some(Key::Left)),
        (399, None),
        (420, None),
        (430, Some(Key::Char('q'))),
    ];
    let (end, evs) = p.run_script(&script);
    assert_eq!(
        evs,
        vec![
            Event::Input(Key::Char('m')),
            Event::Input(Key::Char('e')),
            Event::Tick,
            Event::Input(Key::Left),
            Event::Tick,
            Event::Input(Key::Char('q')),
        ]
    );
    assert_eq!(end.last_tick_ms, 420);
}

#[test]
fn menu_index_matches_tab_order() {
    assert_eq!(usize::from(MenuItem::Sheet), 0);
    assert_eq!(usize::from(MenuItem::MapTab), 1);
}

#[test]
fn standard_keys_lookup() {
    let k = KeyMap::standard();
    assert_eq!(k.lookup(Key::Char('q')), Some(Command::Quit));
    assert_eq!(k.lookup(Key::Char('m')), Some(Command::SwitchToMapMenu));
    assert_eq!(k.lookup(Key::Char('s')), Some(Command::SwitchToSheetMenu));
    assert_eq!(k.lookup(Key::Char('e')), Some(Command::EnterMapView));
    assert_eq!(k.lookup(Key::Down), Some(Command::Move(Direction::Down)));
    assert_eq!(k.lookup(Key::Char('z')), None);
    assert_eq!(k.lookup(Key::Esc), None);
}

#[test]
fn first_binding_wins() {
    let k = KeyMap { bindings: vec![(Key::Enter, Command::Quit), (Key::Enter, Command::EnterMapView)] };
    assert_eq!(k.lookup(Key::Enter), Some(Command::Quit));
}

#[test]
fn initial_state() {
    let s = hero();
    assert_eq!(s.active_menu, MenuItem::MapTab);
    assert_eq!(s.active_map_state, MapState::Welcome);
    assert_eq!(s.position, Position { x: 0, y: 0 });
}

#[test]
fn enter_map_view_then_again_is_noop() {
    let mut s = hero();
    assert_eq!(s.dispatch(Command::EnterMapView, GRID), Outcome::Continue);
    assert_eq!(s.active_map_state, MapState::MapView);
    assert_eq!(s.dispatch(Command::EnterMapView, GRID), Outcome::Continue);
    assert_eq!(s.active_map_state, MapState::MapView);
}

#[test]
fn enter_map_view_unsupported_from_conflict() {
    let mut s = hero();
    s.active_map_state = MapState::Conflict;
    assert_eq!(s.dispatch(Command::EnterMapView, GRID), Outcome::NotYetSupported);
    assert_eq!(s.active_map_state, MapState::Conflict);
    s.active_map_state = MapState::Converse;
    assert_eq!(s.dispatch(Command::EnterMapView, GRID), Outcome::NotYetSupported);
    assert_eq!(s.active_map_state, MapState::Converse);
}

#[test]
fn move_is_inert_outside_map_view() {
    let mut s = hero();
    for d in [Direction::Up, Direction::Down, Direction::Left, Direction::Right] {
        assert_eq!(s.dispatch(Command::Move(d), GRID), Outcome::Continue);
        assert_eq!(s.position, Position { x: 0, y: 0 });
    }
    s.dispatch(Command::EnterMapView, GRID);
    s.dispatch(Command::SwitchToSheetMenu, GRID);
    s.dispatch(Command::Move(Direction::Right), GRID);
    assert_eq!(s.position, Position { x: 0, y: 0 });
    assert_eq!(s.active_map_state, MapState::MapView);
}

#[test]
fn move_clamps_to_grid() {
    let mut s = hero();
    s.dispatch(Command::EnterMapView, GRID);
    s.dispatch(Command::Move(Direction::Up), GRID);
    s.dispatch(Command::Move(Direction::Left), GRID);
    assert_eq!(s.position, Position { x: 0, y: 0 });
    for _ in 0..10 {
        s.dispatch(Command::Move(Direction::Right), GRID);
        s.dispatch(Command::Move(Direction::Down), GRID);
    }
    assert_eq!(s.position, Position { x: 3, y: 2 });
    s.dispatch(Command::Move(Direction::Left), GRID);
    assert_eq!(s.position, Position { x: 2, y: 2 });
    let small = MapMeta { height: 1, width: 1 };
    s.dispatch(Command::Move(Direction::Up), small);
    assert_eq!(s.position, Position { x: 0, y: 0 });
    let empty = MapMeta { height: 0, width: 0 };
    s.position = Position { x: 5, y: 5 };
    s.dispatch(Command::Move(Direction::Down), empty);
    assert_eq!(s.position, Position { x: 5, y: 5 });
}

#[test]
fn events_drive_state() {
    let mut s = hero();
    let keys = KeyMap::standard();
    assert_eq!(s.handle_event(Event::Tick, &keys, GRID), Outcome::Continue);
    assert_eq!(s.handle_event(Event::Input(Key::Char('x')), &keys, GRID), Outcome::Continue);
    assert_eq!(s.active_menu, MenuItem::MapTab);
    s.handle_event(Event::Input(Key::Char('s')), &keys, GRID);
    assert_eq!(s.active_menu, MenuItem::Sheet);
    assert_eq!(s.active_map_state, MapState::Welcome);
    s.handle_event(Event::Input(Key::Char('m')), &keys, GRID);
    s.handle_event(Event::Input(Key::Char('e')), &keys, GRID);
    s.handle_event(Event::Input(Key::Down), &keys, GRID);
    assert_eq!(s.position, Position { x: 0, y: 1 });
    assert_eq!(s.handle_event(Event::Input(Key::Char('q')), &keys, GRID), Outcome::Quit);
    assert_eq!(s.character.login.uname, "Samhain");
}
