use trainyard::connection::Connection;
use trainyard::gameplay::{Gameplay, Pen, Press};
use trainyard::levels::LevelManager;
use trainyard::tile::tracktile::ConnectionType;
use trainyard::tile::Tile;
use trainyard::yard::{NextAction, YardState};

const CATALOG: &str = "CITY:Abbotsford\n\
Red Line:1\n\
+ 3,1 red down\n\
o 3,5 red up\n\
---\n\
Blank:2\n\
---\n\
----\n";

fn game() -> Gameplay {
    let manager = LevelManager::new(CATALOG).unwrap();
    assert!(manager.has_level("Red Line"));
    assert!(manager.get_level("Red Line").is_valid());
    Gameplay::new(&manager)
}

fn pen(r: usize, c: usize, near: Option<u8>) -> Option<Pen> {
    Some(Pen { r, c, near })
}

fn track(game: &Gameplay, r: usize, c: usize) -> (ConnectionType, Option<Connection>) {
    match game.yard().tile(r, c) {
        Tile::Tracktile(t) => (t.connection_type(), t.active_connection()),
        _ => panic!("track expected"),
    }
}

fn draw_line(game: &mut Gameplay, r: usize, c: usize, from: u8, to: u8) {
    game.update(None, pen(r, c, Some(from)), false);
    game.update(None, pen(r, c, None), false);
    game.update(None, pen(r, c, Some(to)), false);
}

#[test]
fn new_game_starts_on_the_drawing_board() {
    let game = game();
    assert_eq!(game.get_state(), YardState::Drawing);
    assert!(!game.is_erasing());
    assert!(matches!(game.yard().tile(1, 3), Tile::Trainsource(_)));
    assert!(matches!(game.yard().tile(5, 3), Tile::Trainsink(_)));
    assert_eq!(game.get_current_progress().len(), 0);
}

#[test]
fn pen_from_border_to_border_draws_a_connection() {
    let mut game = game();
    game.update(None, pen(2, 3, Some(0)), false);
    assert_eq!(track(&game, 2, 3).0, ConnectionType::Empty);
    game.update(None, pen(2, 3, None), false);
    assert_eq!(track(&game, 2, 3).0, ConnectionType::Empty);
    game.update(None, pen(2, 3, Some(0)), false);
    assert_eq!(track(&game, 2, 3).0, ConnectionType::Empty);
    game.update(None, pen(2, 3, Some(2)), false);
    let (kind, active) = track(&game, 2, 3);
    assert_eq!(kind, ConnectionType::S);
    assert!(active.unwrap() == Connection { dir1: 0, dir2: 2 });
    game.update(None, pen(2, 3, Some(1)), false);
    let (kind, active) = track(&game, 2, 3);
    assert_eq!(kind, ConnectionType::J);
    assert!(active.unwrap() == Connection { dir1: 2, dir2: 1 });
    assert_eq!(game.get_current_progress().len(), 1);
}

#[test]
fn pen_that_changes_cell_draws_nothing_at_first() {
    let mut game = game();
    game.update(None, pen(2, 3, Some(2)), false);
    game.update(None, pen(3, 3, Some(0)), false);
    assert_eq!(track(&game, 3, 3).0, ConnectionType::Empty);
    game.update(None, pen(3, 3, Some(2)), false);
    assert_eq!(track(&game, 3, 3).0, ConnectionType::S);
    assert_eq!(track(&game, 2, 3).0, ConnectionType::Empty);
}

#[test]
fn lifted_pen_forgets_where_it_was() {
    let mut game = game();
    game.update(None, pen(2, 3, Some(0)), false);
    game.update(None, None, false);
    game.update(None, pen(2, 3, Some(2)), false);
    assert_eq!(track(&game, 2, 3).0, ConnectionType::Empty);
    game.update(None, pen(2, 3, Some(3)), false);
    assert_eq!(track(&game, 2, 3).0, ConnectionType::B);
}

#[test]
fn pen_never_draws_on_a_tile_of_the_level() {
    let mut game = game();
    draw_line(&mut game, 1, 3, 0, 2);
    assert!(matches!(game.yard().tile(1, 3), Tile::Trainsource(_)));
    assert_eq!(game.get_current_progress().len(), 0);
}

#[test]
fn erase_button_makes_the_pen_erase() {
    let mut game = game();
    draw_line(&mut game, 2, 3, 0, 2);
    assert_eq!(track(&game, 2, 3).0, ConnectionType::S);
    assert!(!game.update(Some(Press::Erase), None, false));
    assert!(game.is_erasing());
    game.update(None, pen(2, 3, None), false);
    assert_eq!(track(&game, 2, 3).0, ConnectionType::Empty);
    game.update(Some(Press::Erase), None, false);
    assert!(!game.is_erasing());
}

#[test]
fn double_click_throws_the_switch() {
    let mut game = game();
    draw_line(&mut game, 2, 3, 0, 2);
    game.update(None, pen(2, 3, Some(1)), false);
    game.update(None, None, false);
    assert!(track(&game, 2, 3).1.unwrap() == Connection { dir1: 2, dir2: 1 });
    for _ in 0..40 {
        game.update(None, None, false);
    }
    game.update(Some(Press::Cell { r: 2, c: 3 }), None, false);
    assert!(track(&game, 2, 3).1.unwrap() == Connection { dir1: 2, dir2: 1 });
    for _ in 0..32 {
        game.update(None, None, false);
    }
    game.update(Some(Press::Cell { r: 2, c: 3 }), None, false);
    assert!(track(&game, 2, 3).1.unwrap() == Connection { dir1: 0, dir2: 2 });
    for _ in 0..33 {
        game.update(None, None, false);
    }
    game.update(Some(Press::Cell { r: 2, c: 3 }), None, false);
    assert!(track(&game, 2, 3).1.unwrap() == Connection { dir1: 0, dir2: 2 });
}

#[test]
fn early_press_counts_as_double_click() {
    let mut game = game();
    draw_line(&mut game, 2, 3, 0, 2);
    game.update(None, pen(2, 3, Some(1)), false);
    game.update(None, None, false);
    game.update(Some(Press::Cell { r: 2, c: 3 }), None, false);
    assert!(track(&game, 2, 3).1.unwrap() == Connection { dir1: 0, dir2: 2 });
}

#[test]
fn start_button_runs_and_resets_the_yard() {
    let mut game = game();
    for r in 2..5 {
        draw_line(&mut game, r, 3, 0, 2);
    }
    game.update(Some(Press::Erase), None, false);
    assert!(!game.update(Some(Press::StartTrains), None, false));
    assert!(!game.is_erasing());
    assert_eq!(game.get_state(), YardState::Playing { next_step: NextAction::ProcessTick });
    assert!(!game.update(Some(Press::Back), None, false));
    game.update(Some(Press::Erase), pen(3, 3, Some(1)), true);
    assert!(!game.is_erasing());
    assert_eq!(track(&game, 3, 3).0, ConnectionType::S);
    assert_eq!(game.get_state(), YardState::Playing { next_step: NextAction::ProcessEdges });
    assert!(!game.update(Some(Press::StartTrains), None, true));
    assert_eq!(game.get_state(), YardState::Drawing);
    game.update(Some(Press::StartTrains), None, false);
    assert_eq!(game.get_state(), YardState::Playing { next_step: NextAction::ProcessTick });
    let mut frames = 0;
    while frames < 100 && game.get_state() != YardState::Won {
        game.update(None, None, true);
        frames += 1;
    }
    assert_eq!(frames, 11);
    assert!(game.update(Some(Press::StartTrains), None, true));
    assert_eq!(game.get_state(), YardState::Won);
}

#[test]
fn back_button_leaves_from_the_drawing_board() {
    let mut game = game();
    assert!(game.update(Some(Press::Back), None, false));
    assert!(!game.update(Some(Press::Elsewhere), None, false));
    assert_eq!(game.get_state(), YardState::Drawing);
}

#[test]
fn crashed_yard_goes_back_to_drawing_on_start() {
    let mut game = game();
    game.update(Some(Press::StartTrains), None, false);
    game.update(None, None, true);
    game.update(None, None, true);
    assert_eq!(game.get_state(), YardState::Crashed);
    game.update(Some(Press::StartTrains), None, false);
    assert_eq!(game.get_state(), YardState::Drawing);
}

#[test]
fn reset_yard_from_level_loads_another_level() {
    let manager = LevelManager::new(CATALOG).unwrap();
    let mut game = Gameplay::new(&manager);
    game.reset_yard_from_level(manager.get_level("Blank"));
    assert_eq!(game.get_state(), YardState::Drawing);
    assert!(matches!(game.yard().tile(1, 3), Tile::Tracktile(_)));
}
