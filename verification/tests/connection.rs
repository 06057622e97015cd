use trainyard::connection::Connection;

fn conn(dir1: u8, dir2: u8) -> Connection {
    Connection { dir1, dir2 }
}

#[test]
fn connection_equality_ignores_order() {
    assert!(conn(0, 2) == conn(2, 0));
    assert!(conn(0, 2) == conn(0, 2));
    assert!(conn(1, 3) != conn(0, 2));
    assert!(conn(0, 1) != conn(0, 2));
}

#[test]
fn rot_adds_the_angle_modulo_four() {
    let c = conn(0, 1).rot(1);
    assert_eq!((c.dir1, c.dir2), (1, 2));
    let c = conn(2, 3).rot(1);
    assert_eq!((c.dir1, c.dir2), (3, 0));
    let c = conn(3, 1).rot(3);
    assert_eq!((c.dir1, c.dir2), (2, 0));
    let c = conn(1, 2).rot(0);
    assert_eq!((c.dir1, c.dir2), (1, 2));
    let c = conn(1, 2).rot(4);
    assert_eq!((c.dir1, c.dir2), (1, 2));
    let c = conn(3, 2).rot(255);
    assert_eq!((c.dir1, c.dir2), (2, 1));
}

#[test]
fn every_rotation_is_equal_up_to_rotation() {
    for d1 in 0..4u8 {
        for d2 in 0..4u8 {
            let c = conn(d1, d2);
            for k in 0..=255u8 {
                assert!(c.rot(k).eq_up_to_rot(&c));
            }
            assert!(c.eq_up_to_rot(&c));
        }
    }
}

#[test]
fn eq_up_to_rot_tells_lines_from_bends() {
    assert!(conn(0, 2).eq_up_to_rot(&conn(1, 3)));
    assert!(conn(0, 1).eq_up_to_rot(&conn(3, 2)));
    assert!(conn(0, 1).eq_up_to_rot(&conn(0, 3)));
    assert!(!conn(0, 2).eq_up_to_rot(&conn(0, 1)));
    assert!(!conn(1, 2).eq_up_to_rot(&conn(1, 3)));
}

#[test]
fn contains_finds_both_ends_only() {
    let c = conn(1, 3);
    assert!(c.contains(1));
    assert!(c.contains(3));
    assert!(!c.contains(0));
    assert!(!c.contains(2));
}
