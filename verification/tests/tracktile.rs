use trainyard::color::Color;
use trainyard::connection::Connection;
use trainyard::tile::tracktile::{ConnectionType, TrackImage, TrackSprite, Tracktile};
use trainyard::tile::BorderState;

fn conn(dir1: u8, dir2: u8) -> Connection {
    Connection { dir1, dir2 }
}

fn turned(c: Connection, k: u8, flip: bool) -> Connection {
    let r = c.rot(k);
    if flip {
        conn(r.dir2, r.dir1)
    } else {
        r
    }
}

fn check_pair(first: Connection, second: Connection, expected: ConnectionType) {
    for k in 0..4u8 {
        for flip_first in [false, true] {
            for flip_second in [false, true] {
                let a = turned(first, k, flip_first);
                let p = turned(second, k, flip_second);
                assert_eq!(Tracktile::new(Some(a), Some(p)).connection_type(), expected);
                assert_eq!(Tracktile::new(Some(p), Some(a)).connection_type(), expected);
            }
        }
    }
}

fn check_single(first: Connection, expected: ConnectionType) {
    for k in 0..4u8 {
        for flip in [false, true] {
            let a = turned(first, k, flip);
            assert_eq!(Tracktile::new(Some(a), None).connection_type(), expected);
        }
    }
}

#[test]
fn connection_type_of_no_track_is_empty() {
    assert_eq!(Tracktile::new(None, None).connection_type(), ConnectionType::Empty);
    assert_eq!(Tracktile::new(None, Some(conn(0, 2))).connection_type(), ConnectionType::Empty);
}

#[test]
fn connection_type_of_single_connections() {
    check_single(conn(0, 2), ConnectionType::S);
    check_single(conn(0, 1), ConnectionType::B);
}

#[test]
fn connection_type_of_two_lines_is_h() {
    check_pair(conn(0, 2), conn(1, 3), ConnectionType::H);
}

#[test]
fn connection_type_of_two_separate_bends_is_z() {
    check_pair(conn(0, 1), conn(2, 3), ConnectionType::Z);
}

#[test]
fn connection_type_of_two_touching_bends_is_m() {
    check_pair(conn(0, 1), conn(1, 2), ConnectionType::M);
}

#[test]
fn connection_type_of_line_with_bend_is_j() {
    check_pair(conn(0, 1), conn(0, 2), ConnectionType::J);
    check_pair(conn(0, 3), conn(0, 2), ConnectionType::J);
}

#[test]
fn connection_type_letters() {
    assert_eq!(ConnectionType::Empty.get_char(), '_');
    assert_eq!(ConnectionType::S.get_char(), 'S');
    assert_eq!(ConnectionType::B.get_char(), 'B');
    assert_eq!(ConnectionType::H.get_char(), 'H');
    assert_eq!(ConnectionType::Z.get_char(), 'Z');
    assert_eq!(ConnectionType::M.get_char(), 'M');
    assert_eq!(ConnectionType::J.get_char(), 'J');
}

#[test]
fn rotation_amounts_are_the_least_that_match() {
    let tile = Tracktile::new(Some(conn(1, 2)), Some(conn(3, 0)));
    assert_eq!(tile.has_connection_up_to_rot(conn(0, 1)), 1);
    assert_eq!(tile.has_active_connection_up_to_rot(conn(0, 1)), 1);
    assert_eq!(tile.has_active_connection_up_to_rot(conn(0, 2)), -1);
    assert_eq!(tile.has_connection_up_to_rot(conn(0, 2)), -1);
    assert_eq!(tile.has_connections_up_to_rot(conn(0, 1), conn(2, 3)), 1);
    assert_eq!(tile.has_active_passive_connections_up_to_rot(conn(0, 1), conn(2, 3)), 1);
    assert_eq!(tile.has_active_passive_connections_up_to_rot(conn(2, 3), conn(0, 1)), 3);
    assert_eq!(tile.has_connections_up_to_rot(conn(0, 1), conn(1, 2)), -1);
    let single = Tracktile::new(Some(conn(3, 1)), None);
    assert_eq!(single.has_connection_up_to_rot(conn(0, 2)), 1);
    assert_eq!(single.has_connections_up_to_rot(conn(0, 2), conn(1, 3)), -1);
    let passive_only = Tracktile::new(Some(conn(0, 1)), Some(conn(0, 2)));
    assert_eq!(passive_only.has_connection_up_to_rot(conn(1, 3)), 1);
    assert_eq!(passive_only.has_active_connection_up_to_rot(conn(1, 3)), -1);
    assert!(passive_only.has_connections(conn(2, 0), conn(1, 0)));
    assert!(!passive_only.has_connections(conn(2, 0), conn(1, 3)));
    assert!(passive_only.has_any_connection(2));
    assert!(!passive_only.has_any_connection(3));
}

#[test]
fn tracktile_without_track_on_a_border_rejects_the_train() {
    for dir in 0..4usize {
        let mut blank = Tracktile::new(None, None);
        let mut arriving: BorderState = [None, None, None, None];
        arriving[dir] = Some(Color::Red);
        let rejected = blank.accept_trains(arriving);
        assert_eq!(rejected, arriving);
        assert_eq!(blank.trains().len(), 0);
    }
    let mut line = Tracktile::new(Some(conn(0, 2)), None);
    let rejected = line.accept_trains([None, Some(Color::Blue), None, Some(Color::Green)]);
    assert_eq!(rejected, [None, Some(Color::Blue), None, Some(Color::Green)]);
    assert_eq!(line.trains().len(), 0);
    for dir in 0..4usize {
        let d = dir as u8;
        let a = conn((d + 1) % 4, (d + 2) % 4);
        let p = conn((d + 2) % 4, (d + 3) % 4);
        let mut tile = Tracktile::new(Some(a), Some(p));
        let mut arriving: BorderState = [Some(Color::Red); 4];
        arriving[dir] = Some(Color::Yellow);
        let rejected = tile.accept_trains(arriving);
        let mut expected: BorderState = [None, None, None, None];
        expected[dir] = Some(Color::Yellow);
        assert_eq!(rejected, expected);
        assert_eq!(tile.trains().len(), 3);
    }
}

#[test]
fn accept_routes_over_the_active_connection_first() {
    let mut tile = Tracktile::new(Some(conn(0, 2)), Some(conn(0, 1)));
    let rejected = tile.accept_trains([Some(Color::Red), Some(Color::Blue), Some(Color::Green), None]);
    assert_eq!(rejected, [None, None, None, None]);
    let trains = tile.trains();
    assert_eq!(trains.len(), 3);
    assert_eq!((trains[0].source, trains[0].destination, trains[0].color), (0, 2, Color::Red));
    assert_eq!((trains[1].source, trains[1].destination, trains[1].color), (1, 0, Color::Blue));
    assert_eq!((trains[2].source, trains[2].destination, trains[2].color), (2, 0, Color::Green));
}

#[test]
fn trains_meeting_on_a_crossing_mix() {
    let mut tile = Tracktile::new(Some(conn(0, 2)), Some(conn(1, 3)));
    assert_eq!(tile.connection_type(), ConnectionType::H);
    let rejected = tile.accept_trains([Some(Color::Blue), None, Some(Color::Red), None]);
    assert_eq!(rejected, [None, None, None, None]);
    tile.process_tick();
    assert_eq!(tile.trains().len(), 2);
    assert_eq!(tile.trains()[0].color, Color::Purple);
    assert_eq!(tile.trains()[1].color, Color::Purple);
    tile.interact_trains();
    let out = tile.dispatch_trains();
    assert_eq!(out, [Some(Color::Purple), None, Some(Color::Purple), None]);
    assert_eq!(tile.trains().len(), 0);
}

#[test]
fn three_trains_on_a_crossing_turn_brown() {
    let mut tile = Tracktile::new(Some(conn(0, 2)), Some(conn(1, 3)));
    tile.accept_trains([Some(Color::Blue), Some(Color::Blue), Some(Color::Red), None]);
    tile.process_tick();
    for train in tile.trains() {
        assert_eq!(train.color, Color::Brown);
    }
    tile.interact_trains();
    assert_eq!(tile.connection_type(), ConnectionType::H);
    assert!(tile.active_connection().unwrap() == conn(0, 2));
}

#[test]
fn separate_bends_mix_each_line_on_its_own() {
    let mut tile = Tracktile::new(Some(conn(0, 1)), Some(conn(2, 3)));
    tile.accept_trains([Some(Color::Blue), Some(Color::Red), Some(Color::Yellow), Some(Color::Red)]);
    tile.process_tick();
    let trains = tile.trains();
    assert_eq!(trains[0].color, Color::Purple);
    assert_eq!(trains[1].color, Color::Purple);
    assert_eq!(trains[2].color, Color::Orange);
    assert_eq!(trains[3].color, Color::Orange);
    tile.interact_trains();
    let out = tile.dispatch_trains();
    assert_eq!(
        out,
        [Some(Color::Purple), Some(Color::Purple), Some(Color::Orange), Some(Color::Orange)]
    );
}

#[test]
fn separate_bends_leave_a_lone_train_alone() {
    let mut tile = Tracktile::new(Some(conn(0, 1)), Some(conn(2, 3)));
    tile.accept_trains([Some(Color::Blue), None, Some(Color::Yellow), None]);
    tile.process_tick();
    assert_eq!(tile.trains()[0].color, Color::Blue);
    assert_eq!(tile.trains()[1].color, Color::Yellow);
    tile.interact_trains();
    let out = tile.dispatch_trains();
    assert_eq!(out, [None, Some(Color::Blue), None, Some(Color::Yellow)]);
}

#[test]
fn switch_merges_trains_bound_for_one_exit() {
    let mut tile = Tracktile::new(Some(conn(0, 2)), Some(conn(0, 1)));
    assert_eq!(tile.connection_type(), ConnectionType::J);
    let rejected = tile.accept_trains([None, Some(Color::Blue), Some(Color::Red), None]);
    assert_eq!(rejected, [None, None, None, None]);
    tile.process_tick();
    assert_eq!(tile.trains()[0].color, Color::Blue);
    assert_eq!(tile.trains()[1].color, Color::Red);
    tile.interact_trains();
    assert_eq!(tile.trains().len(), 1);
    assert_eq!(tile.trains()[0].color, Color::Purple);
    assert_eq!(tile.trains()[0].destination, 0);
    assert!(tile.active_connection().unwrap() == conn(0, 2));
    let out = tile.dispatch_trains();
    assert_eq!(out, [Some(Color::Purple), None, None, None]);
}

#[test]
fn switch_with_three_trains_mixes_merges_and_toggles() {
    let mut tile = Tracktile::new(Some(conn(0, 2)), Some(conn(0, 1)));
    tile.accept_trains([Some(Color::Yellow), Some(Color::Blue), Some(Color::Red), None]);
    tile.process_tick();
    let trains = tile.trains();
    assert_eq!(trains[0].color, Color::Orange);
    assert_eq!(trains[1].color, Color::Blue);
    assert_eq!(trains[2].color, Color::Orange);
    tile.interact_trains();
    assert_eq!(tile.trains().len(), 2);
    assert_eq!(tile.trains()[0].color, Color::Orange);
    assert_eq!(tile.trains()[0].destination, 2);
    assert_eq!(tile.trains()[1].color, Color::Brown);
    assert_eq!(tile.trains()[1].destination, 0);
    assert!(tile.active_connection().unwrap() == conn(0, 1));
    assert!(tile.passive_connection().unwrap() == conn(0, 2));
    let out = tile.dispatch_trains();
    assert_eq!(out, [Some(Color::Brown), None, Some(Color::Orange), None]);
}

#[test]
fn switch_toggles_after_one_train_and_not_after_two() {
    let mut tile = Tracktile::new(Some(conn(0, 1)), Some(conn(1, 2)));
    assert_eq!(tile.connection_type(), ConnectionType::M);
    tile.accept_trains([Some(Color::Red), None, None, None]);
    tile.process_tick();
    tile.interact_trains();
    assert!(tile.active_connection().unwrap() == conn(1, 2));
    assert!(tile.passive_connection().unwrap() == conn(0, 1));
    assert_eq!(tile.dispatch_trains(), [None, Some(Color::Red), None, None]);
    tile.accept_trains([Some(Color::Red), None, Some(Color::Blue), None]);
    tile.process_tick();
    tile.interact_trains();
    assert!(tile.active_connection().unwrap() == conn(1, 2));
    assert_eq!(tile.dispatch_trains(), [None, Some(Color::Purple), None, None]);
}

#[test]
fn plain_track_never_toggles() {
    let mut tile = Tracktile::new(Some(conn(0, 1)), Some(conn(2, 3)));
    tile.accept_trains([Some(Color::Red), None, None, None]);
    tile.process_tick();
    tile.interact_trains();
    assert!(tile.active_connection().unwrap() == conn(0, 1));
    assert!(tile.passive_connection().unwrap() == conn(2, 3));
    assert_eq!(tile.dispatch_trains(), [None, Some(Color::Red), None, None]);
}

#[test]
fn switch_active_passive_swaps_only_on_switching_shapes() {
    let mut fork = Tracktile::new(Some(conn(0, 2)), Some(conn(0, 1)));
    fork.switch_active_passive();
    assert!(fork.active_connection().unwrap() == conn(0, 1));
    assert!(fork.passive_connection().unwrap() == conn(0, 2));
    let mut crossing = Tracktile::new(Some(conn(0, 2)), Some(conn(1, 3)));
    crossing.switch_active_passive();
    assert!(crossing.active_connection().unwrap() == conn(0, 2));
    let mut line = Tracktile::new(Some(conn(0, 2)), None);
    line.switch_active_passive();
    assert!(line.active_connection().unwrap() == conn(0, 2));
    assert!(line.passive_connection().is_none());
}

#[test]
fn add_connection_shifts_active_to_passive() {
    let mut tile = Tracktile::new(None, None);
    tile.add_connection(conn(0, 2));
    assert!(tile.active_connection().unwrap() == conn(0, 2));
    assert!(tile.passive_connection().is_none());
    tile.add_connection(conn(2, 0));
    assert!(tile.active_connection().unwrap() == conn(0, 2));
    assert!(tile.passive_connection().is_none());
    tile.add_connection(conn(0, 1));
    assert!(tile.active_connection().unwrap() == conn(0, 1));
    assert!(tile.passive_connection().unwrap() == conn(0, 2));
    tile.add_connection(conn(2, 3));
    assert!(tile.active_connection().unwrap() == conn(2, 3));
    assert!(tile.passive_connection().unwrap() == conn(0, 1));
    tile.clear_connections();
    assert!(tile.active_connection().is_none());
    assert!(tile.passive_connection().is_none());
    assert_eq!(tile.connection_type(), ConnectionType::Empty);
}

#[test]
fn clear_trains_keeps_the_track() {
    let mut tile = Tracktile::new(Some(conn(0, 2)), None);
    tile.accept_trains([Some(Color::Red), None, None, None]);
    assert_eq!(tile.trains().len(), 1);
    tile.clear_trains();
    assert_eq!(tile.trains().len(), 0);
    assert!(tile.active_connection().unwrap() == conn(0, 2));
}

#[test]
fn indices_of_trains_along_finds_the_head_on_pair() {
    let mut tile = Tracktile::new(Some(conn(0, 2)), Some(conn(0, 1)));
    tile.accept_trains([Some(Color::Yellow), Some(Color::Blue), Some(Color::Red), None]);
    let mut i1 = 9;
    let mut i2 = 9;
    assert!(tile.indices_of_trains_along(conn(0, 2), &mut i1, &mut i2));
    assert_eq!((i1, i2), (0, 2));
    assert!(tile.indices_of_trains_along(conn(2, 0), &mut i1, &mut i2));
    assert_eq!((i1, i2), (2, 0));
    let mut j1 = 9;
    let mut j2 = 9;
    assert!(!tile.indices_of_trains_along(conn(0, 1), &mut j1, &mut j2));
    assert_eq!((j1, j2), (9, 9));
}

#[test]
fn cloned_tracktile_has_the_same_content() {
    let mut tile = Tracktile::new(Some(conn(0, 2)), Some(conn(0, 1)));
    tile.accept_trains([Some(Color::Yellow), None, Some(Color::Red), None]);
    let copy = tile.clone();
    assert!(copy.active_connection().unwrap() == conn(0, 2));
    assert!(copy.passive_connection().unwrap() == conn(0, 1));
    assert_eq!(copy.trains().len(), 2);
    assert_eq!(copy.trains()[1].color, Color::Red);
    assert_eq!(copy.trains()[1].source, 2);
}

#[test]
fn sprite_shows_shape_rotation_and_mirroring() {
    let sprite = |a: Option<Connection>, p: Option<Connection>| Tracktile::new(a, p).sprite();
    assert_eq!(sprite(None, None), TrackSprite { image: TrackImage::Blank, rot: 0, h_flip: false });
    assert_eq!(
        sprite(Some(conn(2, 3)), None),
        TrackSprite { image: TrackImage::B, rot: 0, h_flip: false }
    );
    assert_eq!(
        sprite(Some(conn(0, 3)), None),
        TrackSprite { image: TrackImage::B, rot: 1, h_flip: false }
    );
    assert_eq!(
        sprite(Some(conn(0, 2)), None),
        TrackSprite { image: TrackImage::S, rot: 0, h_flip: false }
    );
    assert_eq!(
        sprite(Some(conn(1, 3)), None),
        TrackSprite { image: TrackImage::S, rot: 1, h_flip: false }
    );
    assert_eq!(
        sprite(Some(conn(0, 2)), Some(conn(1, 3))),
        TrackSprite { image: TrackImage::H, rot: 0, h_flip: false }
    );
    assert_eq!(
        sprite(Some(conn(1, 3)), Some(conn(0, 2))),
        TrackSprite { image: TrackImage::H, rot: 1, h_flip: false }
    );
    assert_eq!(
        sprite(Some(conn(0, 1)), Some(conn(2, 3))),
        TrackSprite { image: TrackImage::Z, rot: 0, h_flip: false }
    );
    assert_eq!(
        sprite(Some(conn(1, 2)), Some(conn(3, 0))),
        TrackSprite { image: TrackImage::Z, rot: 1, h_flip: false }
    );
    assert_eq!(
        sprite(Some(conn(2, 3)), Some(conn(1, 2))),
        TrackSprite { image: TrackImage::M, rot: 0, h_flip: false }
    );
    assert_eq!(
        sprite(Some(conn(1, 2)), Some(conn(2, 3))),
        TrackSprite { image: TrackImage::M, rot: 0, h_flip: true }
    );
    assert_eq!(
        sprite(Some(conn(0, 1)), Some(conn(0, 3))),
        TrackSprite { image: TrackImage::M, rot: 2, h_flip: false }
    );
    assert_eq!(
        sprite(Some(conn(0, 2)), Some(conn(3, 2))),
        TrackSprite { image: TrackImage::Js, rot: 0, h_flip: false }
    );
    assert_eq!(
        sprite(Some(conn(3, 2)), Some(conn(0, 2))),
        TrackSprite { image: TrackImage::Jb, rot: 0, h_flip: false }
    );
    assert_eq!(
        sprite(Some(conn(0, 2)), Some(conn(1, 2))),
        TrackSprite { image: TrackImage::Js, rot: 0, h_flip: true }
    );
    assert_eq!(
        sprite(Some(conn(0, 1)), Some(conn(1, 3))),
        TrackSprite { image: TrackImage::Jb, rot: 3, h_flip: true }
    );
    for d1 in 0..4u8 {
        for d2 in 0..4u8 {
            for d3 in 0..4u8 {
                for d4 in 0..4u8 {
                    let (a, p) = (conn(d1, d2), conn(d3, d4));
                    if d1 != d2 && d3 != d4 && a != p {
                        let both = sprite(Some(a), Some(p));
                        assert!((0..4).contains(&both.rot));
                        assert_ne!(both.image, TrackImage::Blank);
                        let single = sprite(Some(a), None);
                        assert!((0..4).contains(&single.rot));
                    }
                }
            }
        }
    }
}

#[test]
fn well_formedness_is_told_at_run_time() {
    assert!(Tracktile::new(None, None).is_well_formed());
    assert!(Tracktile::new(Some(conn(0, 2)), Some(conn(0, 1))).is_well_formed());
    assert!(!Tracktile::new(Some(conn(0, 0)), None).is_well_formed());
    assert!(!Tracktile::new(Some(conn(0, 4)), None).is_well_formed());
    assert!(!Tracktile::new(None, Some(conn(5, 1))).is_well_formed());
    assert!(!Tracktile::new(Some(conn(0, 2)), Some(conn(2, 0))).is_well_formed());
    assert!(conn(3, 0).is_valid());
    assert!(!conn(3, 3).is_valid());
}

#[test]
fn trains_can_leave_unless_two_share_an_exit() {
    let mut fork = Tracktile::new(Some(conn(0, 2)), Some(conn(0, 1)));
    assert!(fork.can_dispatch());
    fork.accept_trains([None, Some(Color::Blue), Some(Color::Red), None]);
    assert!(!fork.can_dispatch());
    fork.process_tick();
    assert!(!fork.can_dispatch());
    fork.interact_trains();
    assert!(fork.can_dispatch());
    let mut crossing = Tracktile::new(Some(conn(0, 2)), Some(conn(1, 3)));
    crossing.accept_trains([Some(Color::Red); 4]);
    assert!(crossing.can_dispatch());
}
