use trainyard::color::Color;
use trainyard::connection::Connection;
use trainyard::edge::Edge;
use trainyard::tile::painter::Painter;
use trainyard::tile::rock::Rock;
use trainyard::tile::splitter::Splitter;
use trainyard::tile::tracktile::Tracktile;
use trainyard::tile::trainsink::Trainsink;
use trainyard::tile::trainsource::Trainsource;
use trainyard::tile::Tile;

#[test]
fn trainsource_sends_its_trains_in_order() {
    let mut source = Trainsource::new(vec![Color::Red, Color::Blue], 2);
    assert!(!source.is_empty());
    assert_eq!(source.dispatch_trains(), [None, None, None, None]);
    source.process_tick();
    assert_eq!(source.trains, vec![None, Some(Color::Blue)]);
    assert_eq!(source.outgoing_train, Some(Color::Red));
    assert!(!source.is_empty());
    assert_eq!(source.dispatch_trains(), [None, None, Some(Color::Red), None]);
    assert_eq!(source.outgoing_train, None);
    source.process_tick();
    assert!(source.is_empty());
    assert_eq!(source.dispatch_trains(), [None, None, Some(Color::Blue), None]);
    source.process_tick();
    assert_eq!(source.dispatch_trains(), [None, None, None, None]);
}

#[test]
fn trainsource_rejects_every_arrival() {
    let source = Trainsource::new(vec![Color::Red], 1);
    let arriving = [Some(Color::Red), None, Some(Color::Blue), Some(Color::Green)];
    assert_eq!(source.accept_trains(arriving), arriving);
}

#[test]
fn trainsink_takes_wanted_trains_at_open_borders() {
    let mut sink = Trainsink::new(vec![Color::Red, Color::Blue], [true, false, false, true]);
    assert!(!sink.is_satisfied());
    let rejected = sink.accept_trains([Some(Color::Blue), Some(Color::Red), None, None]);
    assert_eq!(rejected, [None, Some(Color::Red), None, None]);
    assert_eq!(sink.private_desires, vec![Some(Color::Red), None]);
    assert_eq!(sink.desires, vec![Some(Color::Red), Some(Color::Blue)]);
    assert_eq!(sink.incoming_trains, [Some(Color::Blue), None, None, None]);
    sink.process_tick();
    assert_eq!(sink.desires, vec![Some(Color::Red), None]);
    assert_eq!(sink.incoming_trains, [None, None, None, None]);
    assert!(!sink.is_satisfied());
    let rejected = sink.accept_trains([None, None, None, Some(Color::Red)]);
    assert_eq!(rejected, [None, None, None, None]);
    assert!(!sink.is_satisfied());
    sink.process_tick();
    assert!(sink.is_satisfied());
    assert_eq!(sink.dispatch_trains(), [None, None, None, None]);
}

#[test]
fn trainsink_with_one_desire_takes_one_of_two_equal_trains() {
    let mut sink = Trainsink::new(vec![Color::Green], [true, true, true, true]);
    let rejected = sink.accept_trains([None, Some(Color::Green), None, Some(Color::Green)]);
    assert_eq!(rejected, [None, None, None, Some(Color::Green)]);
    assert_eq!(sink.incoming_trains, [None, Some(Color::Green), None, None]);
    assert_eq!(sink.private_desires, vec![None]);
}

#[test]
fn trainsink_rejects_unwanted_color() {
    let mut sink = Trainsink::new(vec![Color::Green], [true, true, true, true]);
    let rejected = sink.accept_trains([Some(Color::Red), None, None, None]);
    assert_eq!(rejected, [Some(Color::Red), None, None, None]);
    assert_eq!(sink.private_desires, vec![Some(Color::Green)]);
}

#[test]
fn painter_repaints_what_crosses_it() {
    let mut painter = Painter::new(Connection { dir1: 1, dir2: 3 }, Color::Green);
    let rejected = painter.accept_trains([Some(Color::Red), Some(Color::Blue), None, None]);
    assert_eq!(rejected, [Some(Color::Red), None, None, None]);
    assert_eq!(painter.train_to_dir2, Some(Color::Blue));
    assert_eq!(painter.train_to_dir1, None);
    painter.process_tick();
    assert_eq!(painter.train_to_dir2, Some(Color::Green));
    assert_eq!(painter.train_to_dir1, None);
    assert_eq!(painter.dispatch_trains(), [None, None, None, Some(Color::Green)]);
    assert_eq!(painter.train_to_dir2, None);
    assert_eq!(painter.dispatch_trains(), [None, None, None, None]);
}

#[test]
fn painter_carries_trains_both_ways() {
    let mut painter = Painter::new(Connection { dir1: 0, dir2: 2 }, Color::Yellow);
    let rejected = painter.accept_trains([Some(Color::Red), None, Some(Color::Blue), None]);
    assert_eq!(rejected, [None, None, None, None]);
    painter.process_tick();
    assert_eq!(painter.dispatch_trains(), [Some(Color::Yellow), None, Some(Color::Yellow), None]);
}

#[test]
fn splitter_splits_green_into_blue_and_yellow() {
    let mut splitter = Splitter::new(2);
    let rejected = splitter.accept_trains([None, None, Some(Color::Green), None]);
    assert_eq!(rejected, [None, None, None, None]);
    splitter.process_tick();
    assert_eq!(splitter.incoming_train, None);
    assert_eq!(splitter.train_going_left, Some(Color::Blue));
    assert_eq!(splitter.train_going_right, Some(Color::Yellow));
    assert_eq!(splitter.dispatch_trains(), [None, Some(Color::Yellow), None, Some(Color::Blue)]);
    assert_eq!(splitter.dispatch_trains(), [None, None, None, None]);
}

#[test]
fn splitter_inverts_mixing() {
    assert_eq!(
        Splitter::split(Color::Yellow.mix_with(Color::Red)),
        (Color::Yellow, Color::Red)
    );
    assert_eq!(Splitter::split(Color::Orange), (Color::Yellow, Color::Red));
    assert_eq!(Splitter::split(Color::Blue.mix_with(Color::Red)), (Color::Blue, Color::Red));
    assert_eq!(
        Splitter::split(Color::Blue.mix_with(Color::Yellow)),
        (Color::Blue, Color::Yellow)
    );
    for c in [Color::Brown, Color::Red, Color::Blue, Color::Yellow] {
        assert_eq!(Splitter::split(c), (c, c));
    }
    for c in [
        Color::Brown,
        Color::Red,
        Color::Blue,
        Color::Yellow,
        Color::Purple,
        Color::Green,
        Color::Orange,
    ] {
        let (left, right) = Splitter::split(c);
        assert_eq!(left.mix_with(right), c);
    }
}

#[test]
fn splitter_rejects_trains_at_its_exits() {
    for dir in 0..4u8 {
        let mut splitter = Splitter::new(dir);
        let rejected = splitter.accept_trains([Some(Color::Red); 4]);
        for d in 0..4u8 {
            if d == dir {
                assert_eq!(rejected[d as usize], None);
            } else {
                assert_eq!(rejected[d as usize], Some(Color::Red));
            }
        }
        splitter.process_tick();
        let out = splitter.dispatch_trains();
        for d in 0..4u8 {
            if d == (dir + 1) % 4 || d == (dir + 3) % 4 {
                assert_eq!(out[d as usize], Some(Color::Red));
            } else {
                assert_eq!(out[d as usize], None);
            }
        }
    }
}

#[test]
fn tile_rock_rejects_everything_and_sends_nothing() {
    let mut rock = Tile::Rock(Rock::new());
    let arriving = [Some(Color::Red), Some(Color::Blue), None, Some(Color::Brown)];
    assert_eq!(rock.accept_trains(arriving), arriving);
    rock.process_tick();
    rock.process_end_of_tick();
    assert_eq!(rock.dispatch_trains(), [None, None, None, None]);
    assert_eq!(rock.get_char(), 'R');
}

#[test]
fn tile_dispatches_to_its_variant() {
    let mut source = Tile::Trainsource(Trainsource::new(vec![Color::Red], 0));
    source.process_tick();
    source.process_end_of_tick();
    assert_eq!(source.dispatch_trains(), [Some(Color::Red), None, None, None]);
    assert_eq!(source.get_char(), 'S');
    let mut track = Tile::Tracktile(Tracktile::new(
        Some(Connection { dir1: 0, dir2: 2 }),
        Some(Connection { dir1: 0, dir2: 1 }),
    ));
    assert_eq!(track.get_char(), 'J');
    let rejected = track.accept_trains([None, Some(Color::Blue), Some(Color::Red), Some(Color::Red)]);
    assert_eq!(rejected, [None, None, None, Some(Color::Red)]);
    track.process_tick();
    track.process_end_of_tick();
    assert_eq!(track.dispatch_trains(), [Some(Color::Purple), None, None, None]);
    let mut sink = Tile::Trainsink(Trainsink::new(vec![Color::Red], [true, true, true, true]));
    assert_eq!(sink.get_char(), 'S');
    assert_eq!(sink.accept_trains([Some(Color::Red), None, None, None]), [None, None, None, None]);
    assert_eq!(sink.dispatch_trains(), [None, None, None, None]);
    let painter = Tile::Painter(Painter::new(Connection { dir1: 0, dir2: 2 }, Color::Red));
    assert_eq!(painter.get_char(), 'P');
    let splitter = Tile::Splitter(Splitter::new(0));
    assert_eq!(splitter.get_char(), 'C');
    let copy = track.clone();
    assert_eq!(copy.get_char(), 'J');
}

#[test]
fn edge_mixes_trains_that_meet() {
    let mut edge = Edge::new();
    assert!(edge.is_empty());
    assert_eq!(edge.get_char(), '0');
    edge.train_to_a = Some(Color::Red);
    assert!(!edge.is_empty());
    assert_eq!(edge.get_char(), '1');
    edge.interact_trains();
    assert_eq!(edge.train_to_a, Some(Color::Red));
    assert_eq!(edge.train_to_b, None);
    edge.train_to_b = Some(Color::Yellow);
    assert_eq!(edge.get_char(), '2');
    edge.interact_trains();
    assert_eq!(edge.train_to_a, Some(Color::Orange));
    assert_eq!(edge.train_to_b, Some(Color::Orange));
    edge.clear_trains();
    assert!(edge.is_empty());
}

#[test]
fn tile_tells_whether_it_is_fit_for_its_step() {
    let mut track = Tile::Tracktile(Tracktile::new(
        Some(Connection { dir1: 0, dir2: 2 }),
        Some(Connection { dir1: 0, dir2: 1 }),
    ));
    assert!(track.is_well_formed() && track.is_at_rest() && track.can_dispatch());
    track.accept_trains([None, Some(Color::Blue), Some(Color::Red), None]);
    assert!(track.is_well_formed() && !track.is_at_rest() && !track.can_dispatch());
    let bad_source = Tile::Trainsource(Trainsource::new(vec![Color::Red], 4));
    assert!(!bad_source.is_well_formed() && !bad_source.is_at_rest() && !bad_source.can_dispatch());
    let bad_painter = Tile::Painter(Painter::new(Connection { dir1: 1, dir2: 1 }, Color::Red));
    assert!(!bad_painter.is_well_formed() && !bad_painter.can_dispatch());
    let bad_splitter = Tile::Splitter(Splitter::new(7));
    assert!(!bad_splitter.is_well_formed() && !bad_splitter.can_dispatch());
    let sink = Tile::Trainsink(Trainsink::new(vec![], [false; 4]));
    assert!(sink.is_well_formed() && sink.is_at_rest() && sink.can_dispatch());
    let rock = Tile::Rock(Rock::new());
    assert!(rock.is_well_formed() && rock.is_at_rest() && rock.can_dispatch());
}
