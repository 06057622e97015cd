use vstd::prelude::*;
use crate::color::Color;
use crate::tile::painter::Painter;
use crate::tile::rock::Rock;
use crate::tile::splitter::Splitter;
use crate::tile::track_laws::{law_accept_keeps_order, law_exits_cleared_at_end_of_tick, law_tick_changes_colors_only};
use crate::tile::tracktile::{Tracktile, TracktileView};
use crate::tile::trainsink::{Trainsink, TrainsinkView, law_sink_accept_keeps_wf};
use crate::tile::trainsource::{Trainsource, TrainsourceView};

pub mod tracktile;
pub mod track_laws;
pub mod trainsource;
pub mod trainsink;
pub mod painter;
pub mod splitter;
pub mod rock;

verus! {

/// What crosses the four borders of a tile in one direction of travel: one
/// optional train per border, indexed by border number.
pub type BorderState = [Option<Color>; 4];

/// The border state in which no border carries a train.
pub open spec fn no_trains() -> Seq<Option<Color>> {
    seq![None, None, None, None]
}

/// A copy of a list of optional colors.
pub fn copy_slots(slots: &Vec<Option<Color>>) -> (copy: Vec<Option<Color>>)
    ensures
        copy@ == slots@,
{
    let mut copy: Vec<Option<Color>> = Vec::new();
    let mut i: usize = 0;
    while i < slots.len()
        invariant
            i <= slots.len(),
            copy@ == slots@.subrange(0, i as int),
        decreases slots.len() - i,
    {
        copy.push(slots[i]);
        assert(copy@ =~= slots@.subrange(0, i + 1));
        i += 1;
    }
    assert(copy@ =~= slots@);
    copy
}

/// One cell of the yard: a closed choice among the six kinds of tile.
#[derive(Debug)]
pub enum Tile {
    Tracktile(Tracktile),
    Trainsource(Trainsource),
    Trainsink(Trainsink),
    Rock(Rock),
    Painter(Painter),
    Splitter(Splitter),
}

/// The mathematical content of a tile.
pub enum TileView {
    Tracktile(TracktileView),
    Trainsource(TrainsourceView),
    Trainsink(TrainsinkView),
    Rock,
    Painter(Painter),
    Splitter(Splitter),
}

impl TileView {
    /// Well-formedness of the tile, by kind.
    pub open spec fn wf(self) -> bool {
        match self {
            TileView::Tracktile(t) => t.wf(),
            TileView::Trainsource(s) => s.wf(),
            TileView::Trainsink(s) => s.wf(),
            TileView::Rock => true,
            TileView::Painter(p) => p.wf(),
            TileView::Splitter(s) => s.wf(),
        }
    }

    /// The tile is well formed and, if it is track, holds its trains as they
    /// were taken in.
    pub open spec fn ready(self) -> bool {
        match self {
            TileView::Tracktile(t) => t.wf() && t.routed(),
            _ => self.wf(),
        }
    }

    /// The tile is well formed and, if it is track, holds no train.
    pub open spec fn at_rest(self) -> bool {
        match self {
            TileView::Tracktile(t) => t.wf() && t.trains.len() == 0,
            _ => self.wf(),
        }
    }

    /// The tile after the trains of `colors` have arrived at its borders.
    pub open spec fn accept(self, colors: Seq<Option<Color>>) -> TileView {
        match self {
            TileView::Tracktile(t) => TileView::Tracktile(t.accept(colors)),
            TileView::Trainsource(s) => self,
            TileView::Trainsink(s) => TileView::Trainsink(s.accept(colors)),
            TileView::Rock => self,
            TileView::Painter(p) => TileView::Painter(p.accept(colors)),
            TileView::Splitter(s) => TileView::Splitter(s.accept(colors)),
        }
    }

    /// The arriving trains of `colors` that the tile turns away. A source and
    /// a rock turn every train away.
    pub open spec fn rejects(self, colors: Seq<Option<Color>>) -> Seq<Option<Color>> {
        match self {
            TileView::Tracktile(t) => t.rejects(colors),
            TileView::Trainsource(s) => colors,
            TileView::Trainsink(s) => s.rejects(colors),
            TileView::Rock => colors,
            TileView::Painter(p) => p.rejects(colors),
            TileView::Splitter(s) => s.rejects(colors),
        }
    }

    /// The tile after a tick.
    pub open spec fn tick(self) -> TileView {
        match self {
            TileView::Tracktile(t) => TileView::Tracktile(t.tick()),
            TileView::Trainsource(s) => TileView::Trainsource(s.tick()),
            TileView::Trainsink(s) => TileView::Trainsink(s.tick()),
            TileView::Rock => self,
            TileView::Painter(p) => TileView::Painter(p.tick()),
            TileView::Splitter(s) => TileView::Splitter(s.tick()),
        }
    }

    /// The tile as its trains reach the exits: only track does anything then.
    pub open spec fn end_of_tick(self) -> TileView {
        match self {
            TileView::Tracktile(t) => TileView::Tracktile(t.end_of_tick()),
            _ => self,
        }
    }

    /// The trains of the tile can leave: the tile is well formed enough to
    /// say where each goes, and no two go over the same border.
    pub open spec fn can_dispatch(self) -> bool {
        match self {
            TileView::Tracktile(t) => t.trains_in_range() && t.exits_distinct(),
            TileView::Trainsource(s) => s.wf(),
            TileView::Painter(p) => p.wf(),
            TileView::Splitter(s) => s.wf(),
            _ => true,
        }
    }

    /// The trains that leave the tile, by border.
    pub open spec fn departures(self) -> Seq<Option<Color>> {
        match self {
            TileView::Tracktile(t) => t.departures(),
            TileView::Trainsource(s) => s.departures(),
            TileView::Painter(p) => p.departures(),
            TileView::Splitter(s) => s.departures(),
            _ => no_trains(),
        }
    }

    /// The tile after its trains have left.
    pub open spec fn dispatched(self) -> TileView {
        match self {
            TileView::Tracktile(t) => TileView::Tracktile(
                TracktileView { active: t.active, passive: t.passive, trains: Seq::empty() },
            ),
            TileView::Trainsource(s) => TileView::Trainsource(s.dispatched()),
            TileView::Painter(p) => TileView::Painter(p.dispatched()),
            TileView::Splitter(s) => TileView::Splitter(s.dispatched()),
            _ => self,
        }
    }

    /// The letter that stands for the tile in a text rendering.
    pub open spec fn letter(self) -> char {
        match self {
            TileView::Tracktile(t) => t.kind().letter(),
            TileView::Trainsource(_) => 'S',
            TileView::Trainsink(_) => 'S',
            TileView::Rock => 'R',
            TileView::Painter(_) => 'P',
            TileView::Splitter(_) => 'C',
        }
    }

    /// Some train of `colors` is turned away by the tile.
    pub open spec fn crashes_on(self, colors: Seq<Option<Color>>) -> bool {
        let rejected = self.rejects(colors);
        rejected[0] is Some || rejected[1] is Some || rejected[2] is Some || rejected[3] is Some
    }
}

impl View for Tile {
    type V = TileView;

    open spec fn view(&self) -> TileView {
        match self {
            Tile::Tracktile(t) => TileView::Tracktile(t@),
            Tile::Trainsource(s) => TileView::Trainsource(s@),
            Tile::Trainsink(s) => TileView::Trainsink(s@),
            Tile::Rock(_) => TileView::Rock,
            Tile::Painter(p) => TileView::Painter(*p),
            Tile::Splitter(s) => TileView::Splitter(*s),
        }
    }
}

impl Clone for Tile {
    fn clone(&self) -> (copy: Self)
        ensures
            copy@ == self@,
    {
        match self {
            Tile::Tracktile(t) => Tile::Tracktile(t.clone()),
            Tile::Trainsource(s) => Tile::Trainsource(s.clone()),
            Tile::Trainsink(s) => Tile::Trainsink(s.clone()),
            Tile::Rock(r) => Tile::Rock(*r),
            Tile::Painter(p) => Tile::Painter(*p),
            Tile::Splitter(s) => Tile::Splitter(*s),
        }
    }
}

impl Tile {
    /// Lets the tile take in the trains of `trains` that it can take, and hands
    /// back those that it turns away.
    pub fn accept_trains(&mut self, trains: BorderState) -> (rejected: BorderState)
        ensures
            final(self)@ == old(self)@.accept(trains@),
            rejected@ == old(self)@.rejects(trains@),
    {
        match self {
            Tile::Tracktile(tracktile) => tracktile.accept_trains(trains),
            Tile::Trainsource(trainsource) => trainsource.accept_trains(trains),
            Tile::Trainsink(trainsink) => trainsink.accept_trains(trains),
            Tile::Rock(_) => trains,
            Tile::Painter(painter) => painter.accept_trains(trains),
            Tile::Splitter(splitter) => splitter.accept_trains(trains),
        }
    }

    /// Sends the trains that are ready to leave out of the tile, by border.
    pub fn dispatch_trains(&mut self) -> (out: BorderState)
        requires
            old(self)@.can_dispatch(),
        ensures
            out@ == old(self)@.departures(),
            final(self)@ == old(self)@.dispatched(),
    {
        match self {
            Tile::Tracktile(tracktile) => tracktile.dispatch_trains(),
            Tile::Trainsource(trainsource) => trainsource.dispatch_trains(),
            Tile::Trainsink(trainsink) => trainsink.dispatch_trains(),
            Tile::Rock(_) => {
                let out: BorderState = [None, None, None, None];
                assert(out@ =~= no_trains());
                out
            },
            Tile::Painter(painter) => painter.dispatch_trains(),
            Tile::Splitter(splitter) => splitter.dispatch_trains(),
        }
    }

    /// Lets the trains in the tile reach the exits: track merges trains that
    /// share an exit and throws its switch; other tiles do nothing.
    pub fn process_end_of_tick(&mut self)
        requires
            old(self)@.wf(),
        ensures
            final(self)@ == old(self)@.end_of_tick(),
    {
        match self {
            Tile::Tracktile(tracktile) => {
                tracktile.interact_trains();
            },
            _ => {},
        }
    }

    /// Takes the tile through a tick: track mixes the trains that meet, a source
    /// readies its next train, a sink settles its desires, a painter paints, and
    /// a splitter splits.
    pub fn process_tick(&mut self)
        requires
            old(self)@.wf(),
        ensures
            final(self)@ == old(self)@.tick(),
    {
        match self {
            Tile::Tracktile(tracktile) => {
                tracktile.process_tick();
            },
            Tile::Trainsource(trainsource) => {
                trainsource.process_tick();
            },
            Tile::Trainsink(trainsink) => {
                trainsink.process_tick();
            },
            Tile::Painter(painter) => { painter.process_tick() },
            Tile::Splitter(splitter) => { splitter.process_tick() },
            Tile::Rock(_) => {},
        }
    }

    /// Whether the tile is well formed.
    pub fn is_well_formed(&self) -> (r: bool)
        ensures
            r == self@.wf(),
    {
        match self {
            Tile::Tracktile(tracktile) => tracktile.is_well_formed(),
            Tile::Trainsource(trainsource) => trainsource.dir < 4,
            Tile::Trainsink(trainsink) => trainsink.desires.len()
                == trainsink.private_desires.len(),
            Tile::Rock(_) => true,
            Tile::Painter(painter) => painter.connection.is_valid(),
            Tile::Splitter(splitter) => splitter.incoming_dir < 4,
        }
    }

    /// Whether the trains of the tile can leave.
    pub fn can_dispatch(&self) -> (r: bool)
        ensures
            r == self@.can_dispatch(),
    {
        match self {
            Tile::Tracktile(tracktile) => tracktile.can_dispatch(),
            Tile::Trainsource(trainsource) => trainsource.dir < 4,
            Tile::Painter(painter) => painter.connection.is_valid(),
            Tile::Splitter(splitter) => splitter.incoming_dir < 4,
            _ => true,
        }
    }

    /// Whether the tile is well formed and, if it is track, holds no train.
    pub fn is_at_rest(&self) -> (r: bool)
        ensures
            r == self@.at_rest(),
    {
        match self {
            Tile::Tracktile(tracktile) => tracktile.is_well_formed() && tracktile.trains().len()
                == 0,
            Tile::Trainsource(trainsource) => trainsource.dir < 4,
            Tile::Trainsink(trainsink) => trainsink.desires.len()
                == trainsink.private_desires.len(),
            Tile::Rock(_) => true,
            Tile::Painter(painter) => painter.connection.is_valid(),
            Tile::Splitter(splitter) => splitter.incoming_dir < 4,
        }
    }

    /// The letter that stands for the tile in a text rendering.
    pub fn get_char(&self) -> (c: char)
        requires
            self@.wf(),
        ensures
            c == self@.letter(),
    {
        match self {
            Tile::Tracktile(tracktile) => tracktile.connection_type().get_char(),
            Tile::Trainsource(_) => 'S',
            Tile::Trainsink(_) => 'S',
            Tile::Rock(_) => 'R',
            Tile::Painter(_) => 'P',
            Tile::Splitter(_) => 'C',
        }
    }
}

/// One round of a tile's life keeps it fit for the next: a ready tile is
/// ready after a tick; when its trains reach the exits they can leave; once
/// they have left the tile is at rest; and a tile at rest is ready again
/// after it has taken in whatever arrives.
pub proof fn law_tile_round(tile: TileView, colors: Seq<Option<Color>>)
    requires
        tile.ready(),
        colors.len() == 4,
    ensures
        tile.tick().ready(),
        tile.end_of_tick().wf(),
        tile.end_of_tick().can_dispatch(),
        tile.end_of_tick().dispatched().at_rest(),
        tile.at_rest() ==> tile.accept(colors).ready(),
{
    match tile {
        TileView::Tracktile(t) => {
            law_tick_changes_colors_only(t);
            law_exits_cleared_at_end_of_tick(t);
            if t.trains.len() == 0 {
                law_accept_keeps_order(t, colors);
            }
        },
        TileView::Trainsink(s) => {
            law_sink_accept_keeps_wf(s, colors);
        },
        _ => {},
    }
}

} // verus!
