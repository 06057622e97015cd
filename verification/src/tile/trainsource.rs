use vstd::prelude::*;
use crate::color::Color;
use crate::tile::{BorderState, copy_slots, no_trains};

verus! {

/// A tile that sends out its pending trains, one per tick, over one border.
///
/// A pending train that has left stays in the list as an empty slot.
#[derive(Debug)]
pub struct Trainsource {
    pub trains: Vec<Option<Color>>,
    pub dir: u8,
    pub outgoing_train: Option<Color>,
}

/// The mathematical content of a train source.
pub struct TrainsourceView {
    pub trains: Seq<Option<Color>>,
    pub dir: u8,
    pub outgoing_train: Option<Color>,
}

/// The first index at or after `from` of a slot of `slots` that holds a
/// color, or the length of `slots` if there is none.
pub open spec fn first_pending(slots: Seq<Option<Color>>, from: int) -> int
    decreases slots.len() - from,
{
    if from < 0 || from >= slots.len() {
        slots.len() as int
    } else if slots[from] is Some {
        from
    } else {
        first_pending(slots, from + 1)
    }
}

/// Every slot of `slots` is empty.
pub open spec fn all_empty(slots: Seq<Option<Color>>) -> bool {
    forall|i: int| 0 <= i < slots.len() ==> (#[trigger] slots[i]) is None
}

impl TrainsourceView {
    /// The exit is a border of the tile.
    pub open spec fn wf(self) -> bool {
        self.dir < 4
    }

    /// The source after a tick: the first pending train, if any is left, has
    /// moved to the exit.
    pub open spec fn tick(self) -> TrainsourceView {
        let i = first_pending(self.trains, 0);
        if i < self.trains.len() {
            TrainsourceView {
                trains: self.trains.update(i, None),
                dir: self.dir,
                outgoing_train: self.trains[i],
            }
        } else {
            self
        }
    }

    /// The trains that leave the tile, by border.
    pub open spec fn departures(self) -> Seq<Option<Color>> {
        no_trains().update(self.dir as int, self.outgoing_train)
    }

    /// The source after the train at its exit has left.
    pub open spec fn dispatched(self) -> TrainsourceView {
        TrainsourceView { trains: self.trains, dir: self.dir, outgoing_train: None }
    }

    /// No pending train is left.
    pub open spec fn exhausted(self) -> bool {
        all_empty(self.trains)
    }
}

impl View for Trainsource {
    type V = TrainsourceView;

    open spec fn view(&self) -> TrainsourceView {
        TrainsourceView {
            trains: self.trains@,
            dir: self.dir,
            outgoing_train: self.outgoing_train,
        }
    }
}

impl Clone for Trainsource {
    fn clone(&self) -> (copy: Self)
        ensures
            copy@ == self@,
    {
        Trainsource {
            trains: copy_slots(&self.trains),
            dir: self.dir,
            outgoing_train: self.outgoing_train,
        }
    }
}

impl Trainsource {
    /// A source of the trains of `trains`, in that order, with its exit at border `dir`.
    pub fn new(trains: Vec<Color>, dir: u8) -> (source: Trainsource)
        ensures
            source@ == (TrainsourceView {
                trains: Seq::new(trains@.len(), |i: int| Some(trains@[i])),
                dir,
                outgoing_train: None,
            }),
    {
        let mut slots: Vec<Option<Color>> = Vec::new();
        let mut i: usize = 0;
        while i < trains.len()
            invariant
                i <= trains.len(),
                slots@.len() == i,
                forall|j: int| 0 <= j < i ==> slots@[j] == Some(trains@[j]),
            decreases trains.len() - i,
        {
            slots.push(Some(trains[i]));
            i += 1;
        }
        assert(slots@ =~= Seq::new(trains@.len(), |i: int| Some(trains@[i])));
        Trainsource { trains: slots, dir, outgoing_train: None }
    }

    /// Hands back every train of `trains`: a source takes none.
    pub fn accept_trains(&self, trains: BorderState) -> (rejected: BorderState)
        ensures
            rejected == trains,
    {
        trains
    }

    /// Moves the first pending train, if any is left, to the exit.
    pub fn process_tick(&mut self)
        ensures
            final(self)@ == old(self)@.tick(),
    {
        let mut index: usize = 0;
        while index < self.trains.len()
            invariant
                index <= self.trains.len(),
                *self == *old(self),
                first_pending(self.trains@, 0) == first_pending(self.trains@, index as int),
            decreases self.trains.len() - index,
        {
            if let Some(color) = self.trains[index] {
                self.outgoing_train = Some(color);
                self.trains[index] = None;
                return ;
            }
            index += 1;
        }
    }

    /// Sends the train at the exit out.
    pub fn dispatch_trains(&mut self) -> (out: BorderState)
        requires
            old(self)@.wf(),
        ensures
            out@ == old(self)@.departures(),
            final(self)@ == old(self)@.dispatched(),
    {
        let mut border_state: BorderState = [None, None, None, None];
        border_state[self.dir as usize] = self.outgoing_train;
        self.outgoing_train = None;
        assert(border_state@ =~= old(self)@.departures());
        border_state
    }

    /// Whether no pending train is left.
    pub fn is_empty(&self) -> (r: bool)
        ensures
            r == self@.exhausted(),
    {
        let mut i: usize = 0;
        while i < self.trains.len()
            invariant
                i <= self.trains.len(),
                forall|j: int| 0 <= j < i ==> (#[trigger] self.trains@[j]) is None,
            decreases self.trains.len() - i,
        {
            if self.trains[i].is_some() {
                return false;
            }
            i += 1;
        }
        true
    }
}

} // verus!
