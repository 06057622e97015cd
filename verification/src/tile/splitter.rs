use vstd::prelude::*;
use crate::color::Color;
use crate::tile::{BorderState, no_trains};

verus! {

/// A tile that takes a train in over one border and sends two out, to its
/// left and to its right, each carrying one component of the color that came in.
#[derive(Debug, Clone, Copy)]
pub struct Splitter {
    pub incoming_dir: u8,
    pub incoming_train: Option<Color>,
    pub train_going_left: Option<Color>,
    pub train_going_right: Option<Color>,
}

/// The two colors into which a train of color `color` splits, left then
/// right: a secondary color gives the two primaries it is mixed from, any
/// other color gives itself twice.
pub open spec fn split_of(color: Color) -> (Color, Color) {
    match color {
        Color::Orange => (Color::Yellow, Color::Red),
        Color::Purple => (Color::Blue, Color::Red),
        Color::Green => (Color::Blue, Color::Yellow),
        _ => (color, color),
    }
}

/// The border a quarter turn clockwise from `dir`.
pub open spec fn left_of(dir: u8) -> u8 {
    ((dir + 1) % 4) as u8
}

/// The border a quarter turn counterclockwise from `dir`.
pub open spec fn right_of(dir: u8) -> u8 {
    ((dir + 3) % 4) as u8
}

impl Splitter {
    /// The entry is a border of the tile.
    pub open spec fn wf(self) -> bool {
        self.incoming_dir < 4
    }

    /// The splitter after the trains of `colors` have arrived: whatever
    /// stands at its entry, a train or none, is now what it holds.
    pub open spec fn accept(self, colors: Seq<Option<Color>>) -> Splitter {
        Splitter {
            incoming_dir: self.incoming_dir,
            incoming_train: if self.incoming_dir < 4 {
                colors[self.incoming_dir as int]
            } else {
                self.incoming_train
            },
            train_going_left: self.train_going_left,
            train_going_right: self.train_going_right,
        }
    }

    /// The arriving trains of `colors` that the splitter turns away: those at
    /// a border other than its entry.
    pub open spec fn rejects(self, colors: Seq<Option<Color>>) -> Seq<Option<Color>> {
        Seq::new(
            4,
            |d: int|
                if self.incoming_dir == d {
                    None
                } else {
                    colors[d]
                },
        )
    }

    /// The splitter after a tick: the train it held, if any, is split.
    pub open spec fn tick(self) -> Splitter {
        if self.incoming_train is Some {
            Splitter {
                incoming_dir: self.incoming_dir,
                incoming_train: None,
                train_going_left: Some(split_of(self.incoming_train.unwrap()).0),
                train_going_right: Some(split_of(self.incoming_train.unwrap()).1),
            }
        } else {
            self
        }
    }

    /// The trains that leave the tile, by border.
    pub open spec fn departures(self) -> Seq<Option<Color>> {
        no_trains().update(left_of(self.incoming_dir) as int, self.train_going_left).update(
            right_of(self.incoming_dir) as int,
            self.train_going_right,
        )
    }

    /// The splitter after its trains have left.
    pub open spec fn dispatched(self) -> Splitter {
        Splitter {
            incoming_dir: self.incoming_dir,
            incoming_train: self.incoming_train,
            train_going_left: None,
            train_going_right: None,
        }
    }

    /// A splitter with its entry at border `dir`, holding no train.
    pub fn new(dir: u8) -> (splitter: Splitter)
        ensures
            splitter == (Splitter {
                incoming_dir: dir,
                incoming_train: None,
                train_going_left: None,
                train_going_right: None,
            }),
    {
        Splitter {
            incoming_dir: dir,
            incoming_train: None,
            train_going_left: None,
            train_going_right: None,
        }
    }

    /// The two colors into which a train of color `color` splits, left then right.
    pub fn split(color: Color) -> (halves: (Color, Color))
        ensures
            halves == split_of(color),
    {
        match color {
            Color::Brown | Color::Blue | Color::Red | Color::Yellow => (color, color),
            Color::Orange => (Color::Yellow, Color::Red),
            Color::Purple => (Color::Blue, Color::Red),
            Color::Green => (Color::Blue, Color::Yellow),
        }
    }

    /// Takes in what arrives at the entry, and hands back the trains that
    /// arrive elsewhere.
    pub fn accept_trains(&mut self, trains: BorderState) -> (rejected: BorderState)
        ensures
            *final(self) == old(self).accept(trains@),
            rejected@ == old(self).rejects(trains@),
    {
        let mut border_state: BorderState = [None, None, None, None];
        let mut dir: u8 = 0;
        while dir < 4
            invariant
                dir <= 4,
                self.incoming_dir == old(self).incoming_dir,
                self.train_going_left == old(self).train_going_left,
                self.train_going_right == old(self).train_going_right,
                self.incoming_train == (if self.incoming_dir < dir {
                    trains@[self.incoming_dir as int]
                } else {
                    old(self).incoming_train
                }),
                forall|d: int|
                    0 <= d < 4 ==> border_state@[d] == (if d < dir {
                        old(self).rejects(trains@)[d]
                    } else {
                        None
                    }),
            decreases 4 - dir,
        {
            let train = trains[dir as usize];
            if dir == self.incoming_dir {
                self.incoming_train = train;
            } else {
                if train.is_some() {
                    border_state[dir as usize] = train;
                }
            }
            dir += 1;
        }
        assert(border_state@ =~= old(self).rejects(trains@));
        border_state
    }

    /// Sends the two halves out, one to the left and one to the right of the entry.
    pub fn dispatch_trains(&mut self) -> (out: BorderState)
        requires
            old(self).wf(),
        ensures
            out@ == old(self).departures(),
            *final(self) == old(self).dispatched(),
    {
        let mut border_state: BorderState = [None, None, None, None];
        let left_exit_dir = ((self.incoming_dir + 1) % 4) as usize;
        let right_exit_dir = ((self.incoming_dir + 3) % 4) as usize;
        border_state[left_exit_dir] = self.train_going_left;
        border_state[right_exit_dir] = self.train_going_right;
        self.train_going_left = None;
        self.train_going_right = None;
        assert(border_state@ =~= old(self).departures());
        border_state
    }

    /// Splits the train that the splitter holds, if any.
    pub fn process_tick(&mut self)
        ensures
            *final(self) == old(self).tick(),
    {
        if let Some(color) = self.incoming_train {
            self.incoming_train = None;
            let (left, right) = Splitter::split(color);
            self.train_going_left = Some(left);
            self.train_going_right = Some(right);
        }
    }
}

/// Splitting undoes mixing: the two halves of any color mix back to that
/// color, and the mix of two different primary colors splits into those two.
pub proof fn law_split_inverts_mix(color: Color, a: Color, b: Color)
    ensures
        split_of(color).0.mix(split_of(color).1) == color,
        a != b && (a == Color::Red || a == Color::Blue || a == Color::Yellow) && (b == Color::Red
            || b == Color::Blue || b == Color::Yellow) ==> (split_of(a.mix(b)) == (a, b)
            || split_of(a.mix(b)) == (b, a)),
        split_of(Color::Yellow.mix(Color::Red)) == (Color::Yellow, Color::Red),
        split_of(Color::Blue.mix(Color::Red)) == (Color::Blue, Color::Red),
        split_of(Color::Blue.mix(Color::Yellow)) == (Color::Blue, Color::Yellow),
{
}

} // verus!
