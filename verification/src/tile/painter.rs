use vstd::prelude::*;
use crate::color::Color;
use crate::connection::Connection;
use crate::tile::BorderState;

verus! {

/// A tile with one fixed connection that repaints every train that crosses
/// it in the painter's color.
///
/// `train_to_dir1` is the train that travels toward the first end of the
/// connection, `train_to_dir2` the one that travels toward the second.
#[derive(Debug, Clone, Copy)]
pub struct Painter {
    pub connection: Connection,
    pub color: Color,
    pub train_to_dir1: Option<Color>,
    pub train_to_dir2: Option<Color>,
}

impl Painter {
    /// The connection joins two distinct borders.
    pub open spec fn wf(self) -> bool {
        self.connection.valid()
    }

    /// The painter after the trains of `colors` have arrived: whatever stands
    /// at an end of the connection, a train or none, is now what travels
    /// toward the other end.
    pub open spec fn accept(self, colors: Seq<Option<Color>>) -> Painter {
        Painter {
            connection: self.connection,
            color: self.color,
            train_to_dir1: if self.connection.dir2 < 4 && self.connection.dir2
                != self.connection.dir1 {
                colors[self.connection.dir2 as int]
            } else {
                self.train_to_dir1
            },
            train_to_dir2: if self.connection.dir1 < 4 {
                colors[self.connection.dir1 as int]
            } else {
                self.train_to_dir2
            },
        }
    }

    /// The arriving trains of `colors` that the painter turns away: those at
    /// a border that is no end of its connection.
    pub open spec fn rejects(self, colors: Seq<Option<Color>>) -> Seq<Option<Color>> {
        Seq::new(
            4,
            |d: int|
                if self.connection.dir1 == d || self.connection.dir2 == d {
                    None
                } else {
                    colors[d]
                },
        )
    }

    /// The painter after a tick: every train it holds has its color.
    pub open spec fn tick(self) -> Painter {
        Painter {
            connection: self.connection,
            color: self.color,
            train_to_dir1: if self.train_to_dir1 is Some {
                Some(self.color)
            } else {
                None
            },
            train_to_dir2: if self.train_to_dir2 is Some {
                Some(self.color)
            } else {
                None
            },
        }
    }

    /// The trains that leave the tile, by border.
    pub open spec fn departures(self) -> Seq<Option<Color>> {
        Seq::new(
            4,
            |d: int|
                if self.connection.dir1 == d {
                    self.train_to_dir1
                } else if self.connection.dir2 == d {
                    self.train_to_dir2
                } else {
                    None
                },
        )
    }

    /// The painter after its trains have left.
    pub open spec fn dispatched(self) -> Painter {
        Painter {
            connection: self.connection,
            color: self.color,
            train_to_dir1: None,
            train_to_dir2: None,
        }
    }

    /// A painter for `color` on the connection `conn`, holding no train.
    pub fn new(conn: Connection, color: Color) -> (painter: Painter)
        ensures
            painter == (Painter {
                connection: conn,
                color,
                train_to_dir1: None,
                train_to_dir2: None,
            }),
    {
        Painter { connection: conn, color, train_to_dir1: None, train_to_dir2: None }
    }

    /// Takes in what arrives at the two ends of the connection, and hands back
    /// the trains that arrive elsewhere.
    pub fn accept_trains(&mut self, trains: BorderState) -> (rejected: BorderState)
        ensures
            *final(self) == old(self).accept(trains@),
            rejected@ == old(self).rejects(trains@),
    {
        let mut border_state: BorderState = [None, None, None, None];
        let mut dir: u8 = 0;
        while dir < 4
            invariant
                dir <= 4,
                self.connection == old(self).connection,
                self.color == old(self).color,
                self.train_to_dir2 == (if self.connection.dir1 < dir {
                    trains@[self.connection.dir1 as int]
                } else {
                    old(self).train_to_dir2
                }),
                self.train_to_dir1 == (if self.connection.dir2 < dir && self.connection.dir2
                    != self.connection.dir1 {
                    trains@[self.connection.dir2 as int]
                } else {
                    old(self).train_to_dir1
                }),
                forall|d: int|
                    0 <= d < 4 ==> border_state@[d] == (if d < dir {
                        old(self).rejects(trains@)[d]
                    } else {
                        None
                    }),
            decreases 4 - dir,
        {
            let train = trains[dir as usize];
            if dir == self.connection.dir1 {
                self.train_to_dir2 = train;
            } else if dir == self.connection.dir2 {
                self.train_to_dir1 = train;
            } else {
                if train.is_some() {
                    border_state[dir as usize] = train;
                }
            }
            dir += 1;
        }
        assert(border_state@ =~= old(self).rejects(trains@));
        border_state
    }

    /// Sends each train out over the end that it travels toward.
    pub fn dispatch_trains(&mut self) -> (out: BorderState)
        requires
            old(self).wf(),
        ensures
            out@ == old(self).departures(),
            *final(self) == old(self).dispatched(),
    {
        let mut border_state: BorderState = [None, None, None, None];
        if let Some(c) = self.train_to_dir1 {
            border_state[self.connection.dir1 as usize] = Some(c);
        }
        if let Some(c) = self.train_to_dir2 {
            border_state[self.connection.dir2 as usize] = Some(c);
        }
        self.train_to_dir1 = None;
        self.train_to_dir2 = None;
        assert(border_state@ =~= old(self).departures());
        border_state
    }

    /// Paints every train that the painter holds.
    pub fn process_tick(&mut self)
        ensures
            *final(self) == old(self).tick(),
    {
        if self.train_to_dir1.is_some() {
            self.train_to_dir1 = Some(self.color);
        }
        if self.train_to_dir2.is_some() {
            self.train_to_dir2 = Some(self.color);
        }
    }
}

} // verus!
