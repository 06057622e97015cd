use vstd::prelude::*;
use crate::color::Color;
use crate::tile::trainsource::all_empty;
use crate::tile::{BorderState, copy_slots, no_trains};

verus! {

/// A tile that takes in the trains it desires, over the borders open to it.
///
/// `private_desires` is settled train by train as trains arrive; `desires`
/// follows it only at the next tick, so that between ticks it shows what was
/// still wanted before the last arrivals.
#[derive(Debug)]
pub struct Trainsink {
    pub desires: Vec<Option<Color>>,
    pub private_desires: Vec<Option<Color>>,
    pub incoming_trains: BorderState,
    pub border_state: [bool; 4],
}

/// The mathematical content of a train sink.
pub struct TrainsinkView {
    pub desires: Seq<Option<Color>>,
    pub private_desires: Seq<Option<Color>>,
    pub incoming_trains: Seq<Option<Color>>,
    pub border_state: Seq<bool>,
}

/// The first index at or after `from` of a slot of `desires` that wants a
/// train of color `color`, or the length of `desires` if there is none.
pub open spec fn first_wanting(desires: Seq<Option<Color>>, color: Color, from: int) -> int
    decreases desires.len() - from,
{
    if from < 0 || from >= desires.len() {
        desires.len() as int
    } else if desires[from] == Some(color) {
        from
    } else {
        first_wanting(desires, color, from + 1)
    }
}

impl TrainsinkView {
    /// The two lists of desires have one slot for each desire.
    pub open spec fn wf(self) -> bool {
        &&& self.desires.len() == self.private_desires.len()
        &&& self.incoming_trains.len() == 4
        &&& self.border_state.len() == 4
    }

    /// The sink takes a train of color `color` at border `dir`: the border is
    /// open and a desire for that color is still unsettled.
    pub open spec fn takes(self, dir: u8, color: Color) -> bool {
        self.border_state[dir as int] && first_wanting(self.private_desires, color, 0)
            < self.private_desires.len()
    }

    /// The sink after the train `train`, if any, has arrived at border `dir`:
    /// where the sink takes it, the first desire for its color is settled.
    pub open spec fn accept_one(self, dir: u8, train: Option<Color>) -> TrainsinkView {
        if train is Some && self.takes(dir, train.unwrap()) {
            TrainsinkView {
                desires: self.desires,
                private_desires: self.private_desires.update(
                    first_wanting(self.private_desires, train.unwrap(), 0),
                    None,
                ),
                incoming_trains: self.incoming_trains.update(dir as int, train),
                border_state: self.border_state,
            }
        } else {
            self
        }
    }

    /// The train `train` that has arrived at border `dir`, if the sink turns
    /// it away.
    pub open spec fn reject_one(self, dir: u8, train: Option<Color>) -> Option<Color> {
        if train is Some && !self.takes(dir, train.unwrap()) {
            train
        } else {
            None
        }
    }

    /// The sink after the trains of `colors` have arrived, border by border.
    pub open spec fn accept(self, colors: Seq<Option<Color>>) -> TrainsinkView {
        self.accept_one(0, colors[0]).accept_one(1, colors[1]).accept_one(2, colors[2]).accept_one(
            3,
            colors[3],
        )
    }

    /// The arriving trains of `colors` that the sink turns away, each judged
    /// after the trains at the borders before it have been settled.
    pub open spec fn rejects(self, colors: Seq<Option<Color>>) -> Seq<Option<Color>> {
        let s1 = self.accept_one(0, colors[0]);
        let s2 = s1.accept_one(1, colors[1]);
        let s3 = s2.accept_one(2, colors[2]);
        seq![
            self.reject_one(0, colors[0]),
            s1.reject_one(1, colors[1]),
            s2.reject_one(2, colors[2]),
            s3.reject_one(3, colors[3]),
        ]
    }

    /// The sink after a tick: the shown desires are those still unsettled, and
    /// the arrivals are forgotten.
    pub open spec fn tick(self) -> TrainsinkView {
        TrainsinkView {
            desires: self.private_desires,
            private_desires: self.private_desires,
            incoming_trains: no_trains(),
            border_state: self.border_state,
        }
    }

    /// No shown desire is left.
    pub open spec fn satisfied(self) -> bool {
        all_empty(self.desires)
    }
}

impl View for Trainsink {
    type V = TrainsinkView;

    open spec fn view(&self) -> TrainsinkView {
        TrainsinkView {
            desires: self.desires@,
            private_desires: self.private_desires@,
            incoming_trains: self.incoming_trains@,
            border_state: self.border_state@,
        }
    }
}

impl Clone for Trainsink {
    fn clone(&self) -> (copy: Self)
        ensures
            copy@ == self@,
    {
        Trainsink {
            desires: copy_slots(&self.desires),
            private_desires: copy_slots(&self.private_desires),
            incoming_trains: self.incoming_trains,
            border_state: self.border_state,
        }
    }
}

impl Trainsink {
    /// A sink that desires one train of each color of `desires`, open at the
    /// borders that `border_state` marks.
    pub fn new(desires: Vec<Color>, border_state: [bool; 4]) -> (sink: Trainsink)
        ensures
            sink@ == (TrainsinkView {
                desires: Seq::new(desires@.len(), |i: int| Some(desires@[i])),
                private_desires: Seq::new(desires@.len(), |i: int| Some(desires@[i])),
                incoming_trains: no_trains(),
                border_state: border_state@,
            }),
            sink@.wf(),
    {
        let mut slots: Vec<Option<Color>> = Vec::new();
        let mut i: usize = 0;
        while i < desires.len()
            invariant
                i <= desires.len(),
                slots@.len() == i,
                forall|j: int| 0 <= j < i ==> slots@[j] == Some(desires@[j]),
            decreases desires.len() - i,
        {
            slots.push(Some(desires[i]));
            i += 1;
        }
        assert(slots@ =~= Seq::new(desires@.len(), |i: int| Some(desires@[i])));
        let private_desires = copy_slots(&slots);
        let incoming_trains: BorderState = [None, None, None, None];
        assert(incoming_trains@ =~= no_trains());
        Trainsink { desires: slots, private_desires, incoming_trains, border_state }
    }

    /// Settles the train `train`, if any, that has arrived at border `dir`, or
    /// hands it back where the sink does not take it.
    fn accept_one(&mut self, dir: u8, train: Option<Color>) -> (rejected: Option<Color>)
        requires
            dir < 4,
        ensures
            final(self)@ == old(self)@.accept_one(dir, train),
            rejected == old(self)@.reject_one(dir, train),
    {
        if let Some(color) = train {
            if !self.border_state[dir as usize] {
                return Some(color);
            }
            let mut index: usize = 0;
            while index < self.private_desires.len()
                invariant
                    index <= self.private_desires.len(),
                    *self == *old(self),
                    dir < 4,
                    train == Some(color),
                    self.border_state@[dir as int],
                    first_wanting(self.private_desires@, color, 0) == first_wanting(
                        self.private_desires@,
                        color,
                        index as int,
                    ),
                decreases self.private_desires.len() - index,
            {
                if let Some(wanted) = self.private_desires[index] {
                    if wanted == color {
                        self.incoming_trains[dir as usize] = Some(color);
                        self.private_desires[index] = None;
                        assert(self@.incoming_trains =~= old(self)@.incoming_trains.update(
                            dir as int,
                            train,
                        ));
                        assert(self@.private_desires =~= old(self)@.private_desires.update(
                            index as int,
                            None,
                        ));
                        return None;
                    }
                }
                index += 1;
            }
            return Some(color);
        }
        None
    }

    /// Settles the trains of `trains` border by border, and hands back those
    /// that the sink turns away.
    pub fn accept_trains(&mut self, trains: BorderState) -> (rejected: BorderState)
        ensures
            final(self)@ == old(self)@.accept(trains@),
            rejected@ == old(self)@.rejects(trains@),
    {
        let r0 = self.accept_one(0, trains[0]);
        let r1 = self.accept_one(1, trains[1]);
        let r2 = self.accept_one(2, trains[2]);
        let r3 = self.accept_one(3, trains[3]);
        let rejected: BorderState = [r0, r1, r2, r3];
        assert(rejected@ =~= old(self)@.rejects(trains@));
        rejected
    }

    /// Brings the shown desires up to date and forgets the arrivals.
    pub fn process_tick(&mut self)
        ensures
            final(self)@ == old(self)@.tick(),
    {
        self.desires = copy_slots(&self.private_desires);
        self.incoming_trains = [None, None, None, None];
        assert(self.incoming_trains@ =~= no_trains());
    }

    /// Sends nothing: a sink keeps what it takes.
    pub fn dispatch_trains(&mut self) -> (out: BorderState)
        ensures
            out@ == no_trains(),
            *final(self) == *old(self),
    {
        let out: BorderState = [None, None, None, None];
        assert(out@ =~= no_trains());
        out
    }

    /// Whether no shown desire is left.
    pub fn is_satisfied(&self) -> (r: bool)
        ensures
            r == self@.satisfied(),
    {
        let mut i: usize = 0;
        while i < self.desires.len()
            invariant
                i <= self.desires.len(),
                forall|j: int| 0 <= j < i ==> (#[trigger] self.desires@[j]) is None,
            decreases self.desires.len() - i,
        {
            if self.desires[i].is_some() {
                return false;
            }
            i += 1;
        }
        true
    }
}

/// Where the search for a desire for `color` ends: on the first such desire
/// at or after `from`, or past the last desire if there is none.
pub proof fn lemma_first_wanting(desires: Seq<Option<Color>>, color: Color, from: int)
    requires
        0 <= from <= desires.len(),
    ensures
        from <= first_wanting(desires, color, from) <= desires.len(),
        first_wanting(desires, color, from) < desires.len() ==> desires[first_wanting(
            desires,
            color,
            from,
        )] == Some(color),
        forall|j: int|
            from <= j < first_wanting(desires, color, from) ==> #[trigger] desires[j] != Some(color),
    decreases desires.len() - from,
{
    if from < desires.len() && desires[from] != Some(color) {
        lemma_first_wanting(desires, color, from + 1);
    }
}

/// Taking in trains keeps a sink well formed, leaves its shown desires and
/// its open borders as they were, and settles no desire but by a train of
/// its color.
pub proof fn law_sink_accept_keeps_wf(sink: TrainsinkView, colors: Seq<Option<Color>>)
    requires
        sink.wf(),
        colors.len() == 4,
    ensures
        sink.accept(colors).wf(),
        sink.accept(colors).desires == sink.desires,
        sink.accept(colors).border_state == sink.border_state,
{
    let s1 = sink.accept_one(0, colors[0]);
    let s2 = s1.accept_one(1, colors[1]);
    let s3 = s2.accept_one(2, colors[2]);
    if colors[0] is Some {
        lemma_first_wanting(sink.private_desires, colors[0].unwrap(), 0);
    }
    if colors[1] is Some {
        lemma_first_wanting(s1.private_desires, colors[1].unwrap(), 0);
    }
    if colors[2] is Some {
        lemma_first_wanting(s2.private_desires, colors[2].unwrap(), 0);
    }
    if colors[3] is Some {
        lemma_first_wanting(s3.private_desires, colors[3].unwrap(), 0);
    }
}

} // verus!
