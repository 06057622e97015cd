use trainyard::color::Color;

const ALL: [Color; 7] = [
    Color::Brown,
    Color::Red,
    Color::Blue,
    Color::Yellow,
    Color::Purple,
    Color::Green,
    Color::Orange,
];

#[test]
fn mix_with_is_commutative_for_every_pair() {
    for a in ALL {
        for b in ALL {
            assert_eq!(a.mix_with(b), b.mix_with(a));
        }
    }
}

#[test]
fn mix_with_itself_keeps_the_color() {
    for a in ALL {
        assert_eq!(a.mix_with(a), a);
    }
}

#[test]
fn mix_with_primary_pairs_gives_secondaries() {
    assert_eq!(Color::Blue.mix_with(Color::Red), Color::Purple);
    assert_eq!(Color::Yellow.mix_with(Color::Red), Color::Orange);
    assert_eq!(Color::Yellow.mix_with(Color::Blue), Color::Green);
}

#[test]
fn mix_with_other_pairs_gives_brown() {
    assert_eq!(Color::Brown.mix_with(Color::Red), Color::Brown);
    assert_eq!(Color::Orange.mix_with(Color::Green), Color::Brown);
    assert_eq!(Color::Purple.mix_with(Color::Blue), Color::Brown);
    assert_eq!(Color::Orange.mix_with(Color::Red), Color::Brown);
    let primaries = [Color::Red, Color::Blue, Color::Yellow];
    for a in ALL {
        for b in ALL {
            if a != b && !(primaries.contains(&a) && primaries.contains(&b)) {
                assert_eq!(a.mix_with(b), Color::Brown);
            }
        }
    }
}

#[test]
fn mix_many_of_one_is_that_color() {
    for a in ALL {
        assert_eq!(Color::mix_many(vec![a]), a);
    }
}

#[test]
fn mix_many_of_two_mixes_the_pair() {
    for a in ALL {
        for b in ALL {
            assert_eq!(Color::mix_many(vec![a, b]), a.mix_with(b));
            assert_eq!(Color::mix_many(vec![a, b]), Color::mix_many(vec![b, a]));
        }
    }
}

#[test]
fn mix_many_of_equal_colors_is_that_color() {
    for a in ALL {
        for len in 1..8 {
            assert_eq!(Color::mix_many(vec![a; len]), a);
        }
    }
}

#[test]
fn mix_many_of_three_unequal_is_brown() {
    assert_eq!(Color::mix_many(vec![Color::Red, Color::Red, Color::Blue]), Color::Brown);
    assert_eq!(Color::mix_many(vec![Color::Blue, Color::Red, Color::Red]), Color::Brown);
    assert_eq!(Color::mix_many(vec![Color::Red, Color::Blue, Color::Red]), Color::Brown);
    assert_eq!(
        Color::mix_many(vec![Color::Yellow, Color::Yellow, Color::Yellow, Color::Blue]),
        Color::Brown
    );
    assert_eq!(Color::mix_many(vec![Color::Red, Color::Blue, Color::Yellow]), Color::Brown);
}
