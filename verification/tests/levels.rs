use trainyard::color::Color;
use trainyard::level_text::{read_lines, LevelError};
use trainyard::levels::{convert_string_to_color, convert_string_to_dir, Level, LevelManager, PositionedTile};
use trainyard::text::{digit, has_prefix, parse_u32, split_text, text_eq};
use trainyard::tile::tracktile::Tracktile;
use trainyard::tile::Tile;
use trainyard::connection::Connection;
use trainyard::yard::{Yard, YardState};

const CATALOG: &str = "// a small catalog\n\
CITY:Abbotsford\n\
Red Line:1\n\
+ 3,1 red down\n\
o 3,5 red up\n\
---\n\
\n\
Mixer:+2\n\
+ 0,0 blue,yellow right\n\
o 6,6 green,green up,left\n\
* 1,1 2,2 3,3\n\
p 4,4 purple up,down\n\
s 5,5 left\n\
---\n\
----\n\
// second city\n\
CITY:Brampton East\n\
----\n";

fn error_of(text: &str) -> LevelError {
    match LevelManager::new(text) {
        Ok(_) => panic!("the text was read as a catalog"),
        Err(e) => e,
    }
}

#[test]
fn color_words_name_colors() {
    assert_eq!(convert_string_to_color("red"), Some(Color::Red));
    assert_eq!(convert_string_to_color("blue"), Some(Color::Blue));
    assert_eq!(convert_string_to_color("yellow"), Some(Color::Yellow));
    assert_eq!(convert_string_to_color("purple"), Some(Color::Purple));
    assert_eq!(convert_string_to_color("green"), Some(Color::Green));
    assert_eq!(convert_string_to_color("orange"), Some(Color::Orange));
    assert_eq!(convert_string_to_color("brown"), Some(Color::Brown));
    assert_eq!(convert_string_to_color("Red"), None);
    assert_eq!(convert_string_to_color("re"), None);
    assert_eq!(convert_string_to_color("reds"), None);
    assert_eq!(convert_string_to_color(""), None);
}

#[test]
fn direction_words_name_borders() {
    assert_eq!(convert_string_to_dir("up"), Some(0));
    assert_eq!(convert_string_to_dir("right"), Some(1));
    assert_eq!(convert_string_to_dir("down"), Some(2));
    assert_eq!(convert_string_to_dir("left"), Some(3));
    assert_eq!(convert_string_to_dir("north"), None);
    assert_eq!(convert_string_to_dir(" up"), None);
}

#[test]
fn split_text_keeps_empty_fields() {
    assert_eq!(split_text("a,b,c", ','), vec!["a", "b", "c"]);
    assert_eq!(split_text("", ','), vec![""]);
    assert_eq!(split_text(",", ','), vec!["", ""]);
    assert_eq!(split_text("a,,b,", ','), vec!["a", "", "b", ""]);
    assert_eq!(split_text("no separator", ','), vec!["no separator"]);
    assert_eq!(split_text("gr\u{fc}n blau", ' '), vec!["gr\u{fc}n", "blau"]);
}

#[test]
fn parse_u32_reads_decimal_numbers() {
    assert_eq!(parse_u32("0"), Some(0));
    assert_eq!(parse_u32("7"), Some(7));
    assert_eq!(parse_u32("+12"), Some(12));
    assert_eq!(parse_u32("007"), Some(7));
    assert_eq!(parse_u32("4294967295"), Some(4294967295));
    assert_eq!(parse_u32("4294967296"), None);
    assert_eq!(parse_u32("99999999999999999999"), None);
    assert_eq!(parse_u32(""), None);
    assert_eq!(parse_u32("+"), None);
    assert_eq!(parse_u32("-1"), None);
    assert_eq!(parse_u32("1 "), None);
    assert_eq!(parse_u32("1+"), None);
    assert_eq!(parse_u32("++1"), None);
    assert_eq!(parse_u32("12a"), None);
}

#[test]
fn parse_u32_agrees_with_the_standard_parser() {
    for s in ["0", "1", "+5", "042", "4294967295", "4294967296", "", "+", "-", "-0", "1_0", "٣"] {
        assert_eq!(parse_u32(s), s.parse::<u32>().ok());
    }
}

#[test]
fn catalog_lists_cities_and_levels() {
    let manager = LevelManager::new(CATALOG).unwrap();
    assert_eq!(manager.get_city_names(), vec!["Abbotsford", "Brampton East"]);
    assert_eq!(manager.get_names_in_city("Abbotsford"), vec!["Red Line", "Mixer"]);
    assert_eq!(manager.get_names_in_city("Brampton East"), Vec::<String>::new());
    assert!(manager.has_city("Abbotsford"));
    assert!(!manager.has_city("abbotsford"));
    assert!(manager.has_level("Mixer"));
    assert!(!manager.has_level("Abbotsford"));
}

#[test]
fn catalog_level_holds_the_tiles_of_its_lines() {
    let manager = LevelManager::new(CATALOG).unwrap();
    let level = manager.get_level("Mixer");
    assert_eq!(level.name, "Mixer");
    assert_eq!(level.num_stars, 2);
    assert_eq!(level.current_progress.len(), 0);
    let info = &level.level_info;
    assert_eq!(info.len(), 7);
    match &info[0] {
        PositionedTile { tile: Tile::Trainsource(s), x: 0, y: 0 } => {
            assert_eq!(s.trains, vec![Some(Color::Blue), Some(Color::Yellow)]);
            assert_eq!(s.dir, 1);
            assert_eq!(s.outgoing_train, None);
        }
        _ => panic!("source expected"),
    }
    match &info[1] {
        PositionedTile { tile: Tile::Trainsink(s), x: 6, y: 6 } => {
            assert_eq!(s.desires, vec![Some(Color::Green), Some(Color::Green)]);
            assert_eq!(s.private_desires, vec![Some(Color::Green), Some(Color::Green)]);
            assert_eq!(s.border_state, [true, false, false, true]);
            assert_eq!(s.incoming_trains, [None, None, None, None]);
        }
        _ => panic!("sink expected"),
    }
    for (k, at) in [(2usize, 1u8), (3, 2), (4, 3)] {
        assert!(matches!(info[k].tile, Tile::Rock(_)));
        assert_eq!((info[k].x, info[k].y), (at, at));
    }
    match &info[5] {
        PositionedTile { tile: Tile::Painter(p), x: 4, y: 4 } => {
            assert_eq!((p.connection.dir1, p.connection.dir2), (0, 2));
            assert_eq!(p.color, Color::Purple);
            assert_eq!((p.train_to_dir1, p.train_to_dir2), (None, None));
        }
        _ => panic!("painter expected"),
    }
    match &info[6] {
        PositionedTile { tile: Tile::Splitter(s), x: 5, y: 5 } => {
            assert_eq!(s.incoming_dir, 3);
            assert_eq!(s.incoming_train, None);
        }
        _ => panic!("splitter expected"),
    }
    assert!(level.is_valid());
}

#[test]
fn catalog_level_can_be_played() {
    let mut manager = LevelManager::new(CATALOG).unwrap();
    let level = manager.get_level("Red Line");
    assert_eq!(level.num_stars, 1);
    assert!(level.is_valid());
    let mut yard = Yard::new(level);
    for r in 2..5 {
        yard.add_connection(r, 3, Connection { dir1: 0, dir2: 2 });
    }
    let progress = yard.get_current_progress();
    manager.set_level_current_progress("Red Line", &progress);
    manager.set_level_current_progress("No Such Line", &progress);
    assert_eq!(manager.get_level("Mixer").current_progress.len(), 0);
    let level = manager.get_level("Red Line");
    assert_eq!(level.current_progress.len(), 3);
    assert_eq!(level.level_info.len(), 2);
    let mut yard = Yard::new(level);
    yard.start_trains();
    let mut frames = 0;
    while frames < 100 && matches!(yard.state(), YardState::Playing { .. }) {
        yard.update(true);
        frames += 1;
    }
    assert_eq!(yard.state(), YardState::Won);
    assert_eq!(frames, 11);
}

#[test]
fn empty_text_is_an_empty_catalog() {
    assert_eq!(LevelManager::new("").unwrap().get_city_names().len(), 0);
    assert_eq!(LevelManager::new("\n\n// nothing\n").unwrap().get_city_names().len(), 0);
}

#[test]
fn catalog_errors_name_the_line() {
    assert_eq!(error_of("Red Line:1\n"), LevelError::ExpectedCity { line: 1 });
    assert_eq!(error_of("\n// c\n city\n"), LevelError::ExpectedCity { line: 3 });
    assert_eq!(error_of("CITY:A\n"), LevelError::UnexpectedEnd);
    assert_eq!(error_of("CITY:A\nL:1\n+ 3,1 red down\n"), LevelError::UnexpectedEnd);
    assert_eq!(error_of("CITY:A\nL:1\n---\n"), LevelError::UnexpectedEnd);
    assert_eq!(error_of("CITY:A\nL\n---\n----\n"), LevelError::ExpectedNameAndStars { line: 2 });
    assert_eq!(
        error_of("CITY:A\nL:1:2\n---\n----\n"),
        LevelError::ExpectedNameAndStars { line: 2 }
    );
    assert_eq!(error_of("CITY:A\nL:one\n---\n----\n"), LevelError::BadStars { line: 2 });
    assert_eq!(error_of("CITY:A\nL: 1\n---\n----\n"), LevelError::BadStars { line: 2 });
    assert_eq!(error_of("CITY:A\nL:1\n+ a,1 red down\n"), LevelError::BadPosition { line: 3 });
    assert_eq!(error_of("CITY:A\nL:1\n+ 3,\n"), LevelError::BadPosition { line: 3 });
    assert_eq!(error_of("CITY:A\nL:1\n--\n"), LevelError::BadPosition { line: 3 });
    assert_eq!(error_of("CITY:A\nL:1\n* 1,1 2\n"), LevelError::BadPosition { line: 3 });
    assert_eq!(error_of("CITY:A\nL:1\n* 1,1  2,2\n"), LevelError::BadPosition { line: 3 });
    assert_eq!(
        error_of("CITY:A\nL:1\n\n+ 3,1 red\n---\n----\n"),
        LevelError::WrongFieldCount { line: 4 }
    );
    assert_eq!(
        error_of("CITY:A\nL:1\ns 3,1 up now\n---\n----\n"),
        LevelError::WrongFieldCount { line: 3 }
    );
    assert_eq!(error_of("CITY:A\nL:1\n+ 3,1 red,pink up\n"), LevelError::BadColor { line: 3 });
    assert_eq!(error_of("CITY:A\nL:1\np 3,1 pink up,down\n"), LevelError::BadColor { line: 3 });
    assert_eq!(error_of("CITY:A\nL:1\n+ 3,1 red up,down\n"), LevelError::BadDirection { line: 3 });
    assert_eq!(error_of("CITY:A\nL:1\no 3,1 red up,\n"), LevelError::BadDirection { line: 3 });
    assert_eq!(error_of("CITY:A\nL:1\ns 3,1 in\n"), LevelError::BadDirection { line: 3 });
    assert_eq!(
        error_of("CITY:A\nL:1\np 3,1 red up\n"),
        LevelError::PainterNeedsTwoDirections { line: 3 }
    );
    assert_eq!(
        error_of("CITY:A\nL:1\np 3,1 red up,down,left\n"),
        LevelError::PainterNeedsTwoDirections { line: 3 }
    );
    assert_eq!(error_of("CITY:A\nL:1\nx 3,1 red up\n"), LevelError::BadLineStart { line: 3 });
    assert_eq!(error_of("CITY:A\nL:1\n+31,2 red up\n"), LevelError::BadLineStart { line: 3 });
}

#[test]
fn level_validity_checks_cells_and_tiles() {
    let ok = Level {
        level_info: vec![PositionedTile {
            tile: Tile::Tracktile(Tracktile::new(Some(Connection { dir1: 0, dir2: 2 }), None)),
            x: 6,
            y: 0,
        }],
        current_progress: vec![],
        name: String::from("ok"),
        num_stars: 0,
    };
    assert!(ok.is_valid());
    let off_board = LevelManager::new("CITY:A\nL:1\n+ 7,1 red up\n---\n----\n").unwrap();
    assert!(!off_board.get_level("L").is_valid());
    let painter = LevelManager::new("CITY:A\nL:1\np 1,1 red up,up\n---\n----\n").unwrap();
    assert!(!painter.get_level("L").is_valid());
    let twice = Level {
        level_info: vec![],
        current_progress: vec![PositionedTile {
            tile: Tile::Tracktile(Tracktile::new(
                Some(Connection { dir1: 0, dir2: 2 }),
                Some(Connection { dir1: 2, dir2: 0 }),
            )),
            x: 1,
            y: 1,
        }],
        name: String::from("twice"),
        num_stars: 0,
    };
    assert!(!twice.is_valid());
    let out_of_range = Level {
        level_info: vec![PositionedTile {
            tile: Tile::Tracktile(Tracktile::new(Some(Connection { dir1: 0, dir2: 4 }), None)),
            x: 1,
            y: 1,
        }],
        current_progress: vec![],
        name: String::from("range"),
        num_stars: 0,
    };
    assert!(!out_of_range.is_valid());
}

#[test]
fn text_comparisons_go_by_characters() {
    assert!(text_eq("", ""));
    assert!(text_eq("gr\u{fc}n", "gr\u{fc}n"));
    assert!(!text_eq("gr\u{fc}n", "grun"));
    assert!(!text_eq("red", "reds"));
    assert!(has_prefix("CITY:Abbotsford", "CITY:"));
    assert!(has_prefix("CITY:", "CITY:"));
    assert!(has_prefix("anything", ""));
    assert!(!has_prefix("CITY", "CITY:"));
    assert!(!has_prefix("city:Abbotsford", "CITY:"));
    assert_eq!(digit('0'), Some(0));
    assert_eq!(digit('7'), Some(7));
    assert_eq!(digit('9'), Some(9));
    assert_eq!(digit('/'), None);
    assert_eq!(digit(':'), None);
    assert_eq!(digit('a'), None);
}

#[test]
fn read_lines_numbers_the_lines_it_keeps() {
    let lines = read_lines("a\n\n// b\nc\n");
    assert_eq!(lines.len(), 2);
    assert_eq!((lines[0].number, lines[0].text), (1, "a"));
    assert_eq!((lines[1].number, lines[1].text), (4, "c"));
    assert_eq!(read_lines("").len(), 0);
    assert_eq!(read_lines("/ still a line").len(), 1);
}
