use vstd::prelude::*;
use crate::color::Color;
use crate::connection::Connection;
use crate::edge::Edge;
use crate::levels::{
    Level, LevelInfo, PositionedTile, PositionedTileView, copy_level_info, placements,
    placements_wf,
};
use crate::tile::tracktile::{ConnectionType, Tracktile, TracktileView};
use crate::tile::{BorderState, Tile, TileView, law_tile_round};

verus! {

/// The number of rows of tiles in the yard.
pub const NUM_ROWS: usize = 7;

/// The number of columns of tiles in the yard.
pub const NUM_COLS: usize = 7;

/// The half step that a running yard takes next.
#[derive(Copy, Clone, PartialEq, Eq, Debug, Structural)]
pub enum NextAction {
    ProcessTick,
    ProcessEdges,
}

/// The state of the yard: being drawn on, running, or stopped by a crash or
/// by success.
#[derive(Copy, Clone, PartialEq, Eq, Debug, Structural)]
pub enum YardState {
    Drawing,
    Playing { next_step: NextAction },
    Crashed,
    Won,
}

/// The board: seven rows of seven tiles, with an edge on each side of every
/// tile.
///
/// Tiles are stored row by row: the tile in row `r` and column `c` has index
/// `7 r + c`. The horizontal edges, those above and below tiles, form eight
/// rows of seven: the edge above the tile with index `i` has index `i`, the
/// edge below it `i + 7`. The vertical edges, those left and right of tiles,
/// form seven rows of eight: the edge left of the tile in row `r` and column
/// `c` has index `8 r + c`, the edge right of it `8 r + c + 1`.
///
/// Beside the tiles as they stand, the yard keeps a record of the track that
/// the player has drawn, cell by cell, which running trains never change,
/// and the layout of the level, from which its tiles are restored.
pub struct Yard {
    tiles: Vec<Tile>,
    drawn_tiles: Vec<Tracktile>,
    h_edges: Vec<Edge>,
    v_edges: Vec<Edge>,
    state: YardState,
    level_info: LevelInfo,
}

/// The mathematical content of a yard.
pub struct YardView {
    pub tiles: Seq<TileView>,
    pub drawn_tiles: Seq<TracktileView>,
    pub h_edges: Seq<Edge>,
    pub v_edges: Seq<Edge>,
    pub state: YardState,
    pub level_info: Seq<PositionedTileView>,
}

/// The mathematical content of a list of tiles.
pub open spec fn tile_views(tiles: Seq<Tile>) -> Seq<TileView> {
    Seq::new(tiles.len(), |i: int| tiles[i]@)
}

/// The mathematical content of a list of track tiles.
pub open spec fn track_views(tiles: Seq<Tracktile>) -> Seq<TracktileView> {
    Seq::new(tiles.len(), |i: int| tiles[i]@)
}

/// The index of the tile in row `r` and column `c`.
pub open spec fn tile_index(r: int, c: int) -> int {
    r * 7 + c
}

/// The tile `tile` with its trains in flight, if it is track, removed.
pub open spec fn without_trains(tile: TileView) -> TileView {
    match tile {
        TileView::Tracktile(t) => TileView::Tracktile(
            TracktileView { active: t.active, passive: t.passive, trains: Seq::empty() },
        ),
        _ => tile,
    }
}

/// The track of `tile`, if it is track, and no track otherwise.
pub open spec fn track_of(tile: TileView) -> TracktileView {
    match tile {
        TileView::Tracktile(t) => t,
        _ => TracktileView::blank(),
    }
}

/// `tile` with `conn` drawn on it, if it is track.
pub open spec fn with_connection(tile: TileView, conn: Connection) -> TileView {
    match tile {
        TileView::Tracktile(t) => TileView::Tracktile(t.with_connection(conn)),
        _ => tile,
    }
}

/// `tile` with its switch thrown, if it is track.
pub open spec fn switched(tile: TileView) -> TileView {
    match tile {
        TileView::Tracktile(t) => TileView::Tracktile(t.switched()),
        _ => tile,
    }
}

/// `tile` with its connections erased, if it is track.
pub open spec fn without_connections(tile: TileView) -> TileView {
    match tile {
        TileView::Tracktile(t) => TileView::Tracktile(
            TracktileView { active: None, passive: None, trains: t.trains },
        ),
        _ => tile,
    }
}

/// The tiles `tiles` after the first `n` placements of `info` have been set
/// on their cells, one after the other.
pub open spec fn placed(tiles: Seq<TileView>, info: Seq<PositionedTileView>, n: int) -> Seq<
    TileView,
>
    decreases n,
{
    if n <= 0 {
        tiles
    } else {
        placed(tiles, info, n - 1).update(
            tile_index(info[n - 1].y as int, info[n - 1].x as int),
            info[n - 1].tile,
        )
    }
}

impl YardView {
    /// The tile in row `r` and column `c`.
    pub open spec fn tile(self, r: int, c: int) -> TileView {
        self.tiles[tile_index(r, c)]
    }

    /// The edge above the tile in row `r` and column `c`; with `r` equal to
    /// seven, the edge below the last row.
    pub open spec fn h_edge(self, r: int, c: int) -> Edge {
        self.h_edges[r * 7 + c]
    }

    /// The edge left of the tile in row `r` and column `c`; with `c` equal to
    /// seven, the edge right of the last column.
    pub open spec fn v_edge(self, r: int, c: int) -> Edge {
        self.v_edges[r * 8 + c]
    }

    /// The board has its fixed size.
    pub open spec fn sized(self) -> bool {
        &&& self.tiles.len() == 49
        &&& self.drawn_tiles.len() == 49
        &&& self.h_edges.len() == 56
        &&& self.v_edges.len() == 56
    }

    /// No train stands on an edge at the rim of the board heading inward.
    pub open spec fn nothing_enters(self) -> bool {
        &&& forall|c: int| 0 <= c < 7 ==> (#[trigger] self.h_edges[c]).train_to_b is None
        &&& forall|c: int| 0 <= c < 7 ==> (#[trigger] self.h_edges[49 + c]).train_to_a is None
        &&& forall|r: int| 0 <= r < 7 ==> (#[trigger] self.v_edges[r * 8]).train_to_b is None
        &&& forall|r: int| 0 <= r < 7 ==> (#[trigger] self.v_edges[r * 8 + 7]).train_to_a is None
    }

    /// Well-formedness of the yard: the board has its size; every tile is
    /// ready for a step; while the yard is drawn on no track holds a train;
    /// the record of the drawn track holds connections only; the level's
    /// layout is well formed; and nothing enters from outside.
    pub open spec fn wf(self) -> bool {
        &&& self.sized()
        &&& forall|i: int| 0 <= i < 49 ==> (#[trigger] self.tiles[i]).ready()
        &&& self.state is Drawing ==> forall|i: int|
            0 <= i < 49 ==> (#[trigger] self.tiles[i]).at_rest()
        &&& forall|i: int|
            0 <= i < 49 ==> (#[trigger] self.drawn_tiles[i]).wf() && self.drawn_tiles[i].trains.len()
                == 0
        &&& placements_wf(self.level_info)
        &&& self.nothing_enters()
    }

    /// Every sink is satisfied, every source is exhausted, and every edge is empty.
    pub open spec fn won(self) -> bool {
        &&& forall|i: int|
            0 <= i < self.tiles.len() ==> match #[trigger] self.tiles[i] {
                TileView::Trainsink(s) => s.satisfied(),
                TileView::Trainsource(s) => s.exhausted(),
                _ => true,
            }
        &&& forall|e: int| 0 <= e < self.h_edges.len() ==> (#[trigger] self.h_edges[e]).empty()
        &&& forall|e: int| 0 <= e < self.v_edges.len() ==> (#[trigger] self.v_edges[e]).empty()
    }

    /// The yard with a blank tile on every cell, ready to be drawn on.
    pub open spec fn blank() -> YardView {
        YardView {
            tiles: Seq::new(49, |i: int| TileView::Tracktile(TracktileView::blank())),
            drawn_tiles: Seq::new(49, |i: int| TracktileView::blank()),
            h_edges: Seq::new(56, |e: int| Edge { train_to_a: None, train_to_b: None }),
            v_edges: Seq::new(56, |e: int| Edge { train_to_a: None, train_to_b: None }),
            state: YardState::Drawing,
            level_info: Seq::empty(),
        }
    }

    /// The yard after `conn` has been drawn on the cell in row `r` and column
    /// `c`: on the tile, if it is track, and then also on the record of the
    /// drawn track.
    pub open spec fn with_connection(self, r: int, c: int, conn: Connection) -> YardView {
        let i = tile_index(r, c);
        if self.tiles[i] is Tracktile {
            YardView {
                tiles: self.tiles.update(i, with_connection(self.tiles[i], conn)),
                drawn_tiles: self.drawn_tiles.update(i, self.drawn_tiles[i].with_connection(conn)),
                ..self
            }
        } else {
            self
        }
    }

    /// The yard after the switch on the cell in row `r` and column `c` has
    /// been thrown: on the tile, if it is track, and then also on the record
    /// of the drawn track.
    pub open spec fn with_switch_thrown(self, r: int, c: int) -> YardView {
        let i = tile_index(r, c);
        if self.tiles[i] is Tracktile {
            YardView {
                tiles: self.tiles.update(i, switched(self.tiles[i])),
                drawn_tiles: self.drawn_tiles.update(i, self.drawn_tiles[i].switched()),
                ..self
            }
        } else {
            self
        }
    }

    /// The yard after the connections on the cell in row `r` and column `c`
    /// have been erased: on the tile, if it is track, and on the record of
    /// the drawn track.
    pub open spec fn with_cell_erased(self, r: int, c: int) -> YardView {
        let i = tile_index(r, c);
        YardView {
            tiles: self.tiles.update(i, without_connections(self.tiles[i])),
            drawn_tiles: self.drawn_tiles.update(
                i,
                TracktileView { active: None, passive: None, trains: self.drawn_tiles[i].trains },
            ),
            ..self
        }
    }

    /// The yard after the tick half step: every tile has ticked, and the yard
    /// has won if then every sink is satisfied, every source exhausted and
    /// every edge empty.
    pub open spec fn ticked(self) -> YardView {
        let after = YardView {
            tiles: Seq::new(self.tiles.len(), |i: int| self.tiles[i].tick()),
            ..self
        };
        if after.won() {
            YardView { state: YardState::Won, ..after }
        } else {
            after
        }
    }
}

impl YardView {
    /// The tile with index `i` as its trains reach the exits.
    pub open spec fn at_exits(self, i: int) -> TileView {
        self.tiles[i].end_of_tick()
    }

    /// The trains that leave the tile with index `i`, by border.
    pub open spec fn leaving(self, i: int) -> Seq<Option<Color>> {
        self.at_exits(i).departures()
    }

    /// The horizontal edge with index `e` once the tiles have sent out their
    /// trains: what heads up comes from the tile below the edge, what heads
    /// down from the tile above it.
    pub open spec fn h_loaded(self, e: int) -> Edge {
        Edge {
            train_to_a: if e < 49 {
                self.leaving(e)[0]
            } else {
                self.h_edges[e].train_to_a
            },
            train_to_b: if e >= 7 {
                self.leaving(e - 7)[2]
            } else {
                self.h_edges[e].train_to_b
            },
        }
    }

    /// The vertical edge with index `e` once the tiles have sent out their
    /// trains: what heads left comes from the tile right of the edge, what
    /// heads right from the tile left of it.
    pub open spec fn v_loaded(self, e: int) -> Edge {
        Edge {
            train_to_a: if e % 8 < 7 {
                self.leaving((e / 8) * 7 + e % 8)[3]
            } else {
                self.v_edges[e].train_to_a
            },
            train_to_b: if e % 8 >= 1 {
                self.leaving((e / 8) * 7 + e % 8 - 1)[1]
            } else {
                self.v_edges[e].train_to_b
            },
        }
    }

    /// The horizontal edge with index `e` after the trains on it have met.
    pub open spec fn h_met(self, e: int) -> Edge {
        self.h_loaded(e).interacted()
    }

    /// The vertical edge with index `e` after the trains on it have met.
    pub open spec fn v_met(self, e: int) -> Edge {
        self.v_loaded(e).interacted()
    }

    /// The trains that arrive at the tile with index `i`, by border: from
    /// above what heads down, from the right what heads left, from below what
    /// heads up, from the left what heads right.
    pub open spec fn arriving(self, i: int) -> Seq<Option<Color>> {
        seq![
            self.h_met(i).train_to_b,
            self.v_met((i / 7) * 8 + i % 7 + 1).train_to_a,
            self.h_met(i + 7).train_to_a,
            self.v_met((i / 7) * 8 + i % 7).train_to_b,
        ]
    }

    /// A train leaves the board at the top or at the bottom of column `c`.
    pub open spec fn leaves_column(self, c: int) -> bool {
        self.h_met(c).train_to_a is Some || self.h_met(49 + c).train_to_b is Some
    }

    /// A train leaves the board at the left or at the right of row `r`.
    pub open spec fn leaves_row(self, r: int) -> bool {
        self.v_met(r * 8).train_to_a is Some || self.v_met(r * 8 + 7).train_to_b is Some
    }

    /// Some train leaves the board.
    pub open spec fn leaves_board(self) -> bool {
        (exists|c: int| 0 <= c < 7 && #[trigger] self.leaves_column(c)) || (exists|r: int|
            0 <= r < 7 && #[trigger] self.leaves_row(r))
    }

    /// The tile with index `i` turns away a train that arrives at it.
    pub open spec fn turned_away_at(self, i: int) -> bool {
        self.at_exits(i).dispatched().crashes_on(self.arriving(i))
    }

    /// Some tile turns away a train that arrives at it.
    pub open spec fn turned_away(self) -> bool {
        exists|i: int| 0 <= i < 49 && #[trigger] self.turned_away_at(i)
    }

    /// The tile with index `i` after the edges half step.
    pub open spec fn tile_after_edges(self, i: int) -> TileView {
        self.at_exits(i).dispatched().accept(self.arriving(i))
    }

    /// The yard after the edges half step: the trains in every tile reach the
    /// exits, leave the tiles for the edges, meet there, and arrive at the
    /// tiles beyond; the yard has crashed if a train leaves the board or is
    /// turned away where it arrives.
    pub open spec fn after_edges(self) -> YardView {
        YardView {
            tiles: Seq::new(49, |i: int| self.tile_after_edges(i)),
            h_edges: Seq::new(56, |e: int| self.h_met(e)),
            v_edges: Seq::new(56, |e: int| self.v_met(e)),
            state: if self.leaves_board() || self.turned_away() {
                YardState::Crashed
            } else {
                self.state
            },
            ..self
        }
    }
}

/// The edge that holds no train.
pub open spec fn empty_edge() -> Edge {
    Edge { train_to_a: None, train_to_b: None }
}

/// The half step that follows `step`.
pub open spec fn step_after(step: NextAction) -> NextAction {
    match step {
        NextAction::ProcessTick => NextAction::ProcessEdges,
        NextAction::ProcessEdges => NextAction::ProcessTick,
    }
}

/// `tile` after a tick if it is a sink, and unchanged otherwise.
pub open spec fn with_sink_ticked(tile: TileView) -> TileView {
    match tile {
        TileView::Trainsink(s) => TileView::Trainsink(s.tick()),
        _ => tile,
    }
}

impl YardView {
    /// The yard made from the layout `level_info` of a level and the track
    /// `progress` drawn earlier: on a blank board the tiles of the level are
    /// placed, then those of the drawn track, and the track that then stands
    /// is recorded as drawn.
    pub open spec fn made_from(
        level_info: Seq<PositionedTileView>,
        progress: Seq<PositionedTileView>,
    ) -> YardView {
        let tiles = placed(
            placed(YardView::blank().tiles, level_info, level_info.len() as int),
            progress,
            progress.len() as int,
        );
        YardView {
            tiles,
            drawn_tiles: Seq::new(49, |i: int| track_of(tiles[i])),
            h_edges: YardView::blank().h_edges,
            v_edges: YardView::blank().v_edges,
            state: YardState::Drawing,
            level_info,
        }
    }

    /// The tile with index `i` after the yard is reset: the drawn track of
    /// the cell where there is any, else the tile of the level or the tile
    /// that stood there, without trains in flight.
    pub open spec fn tile_after_reset(self, i: int) -> TileView {
        if self.drawn_tiles[i].kind() != ConnectionType::Empty {
            TileView::Tracktile(self.drawn_tiles[i])
        } else {
            without_trains(placed(self.tiles, self.level_info, self.level_info.len() as int)[i])
        }
    }

    /// The yard back on the drawing board: the tiles of the level are as the
    /// level made them, no train is in flight in a tile or on an edge, and
    /// the drawn track lies where it was drawn.
    pub open spec fn reset(self) -> YardView {
        YardView {
            tiles: Seq::new(49, |i: int| self.tile_after_reset(i)),
            h_edges: YardView::blank().h_edges,
            v_edges: YardView::blank().v_edges,
            state: YardState::Drawing,
            ..self
        }
    }

    /// The drawn track on the first `n` cells, row by row: one placement for
    /// each cell with any track on it.
    pub open spec fn progress(self, n: int) -> Seq<PositionedTileView>
        decreases n,
    {
        if n <= 0 {
            Seq::empty()
        } else if self.drawn_tiles[n - 1].kind() != ConnectionType::Empty {
            self.progress(n - 1).push(
                PositionedTileView {
                    tile: TileView::Tracktile(self.drawn_tiles[n - 1]),
                    x: ((n - 1) % 7) as u8,
                    y: ((n - 1) / 7) as u8,
                },
            )
        } else {
            self.progress(n - 1)
        }
    }

    /// The yard after the half step that is due next.
    pub open spec fn stepped(self, next_step: NextAction) -> YardView {
        let moved = match next_step {
            NextAction::ProcessEdges => self.after_edges(),
            NextAction::ProcessTick => self.ticked(),
        };
        if moved.state is Crashed || moved.state is Won {
            moved
        } else {
            YardView { state: YardState::Playing { next_step: step_after(next_step) }, ..moved }
        }
    }

    /// The yard after one frame. A running yard takes its next half step if
    /// one is due; a crashed yard lets its sinks tick; any other yard stays
    /// as it is.
    pub open spec fn updated(self, phase_due: bool) -> YardView {
        match self.state {
            YardState::Playing { next_step } => if phase_due {
                self.stepped(next_step)
            } else {
                self
            },
            YardState::Crashed => YardView {
                tiles: Seq::new(49, |i: int| with_sink_ticked(self.tiles[i])),
                ..self
            },
            _ => self,
        }
    }
}

impl YardView {
    /// The character in row `row` and column `col` of the text rendering of
    /// the yard: rows of edges above and below tiles alternate with rows of
    /// tiles, and in a row of tiles the edges left and right of tiles
    /// alternate with the tiles. An edge shows as the number of its trains
    /// and a tile as the letter of its kind; the corners are blank.
    pub open spec fn text_char(self, row: int, col: int) -> char {
        if row % 2 == 0 {
            if col % 2 == 0 {
                ' '
            } else {
                self.h_edges[(row / 2) * 7 + col / 2].digit()
            }
        } else {
            if col % 2 == 0 {
                self.v_edges[(row / 2) * 8 + col / 2].digit()
            } else {
                self.tiles[(row / 2) * 7 + col / 2].letter()
            }
        }
    }

    /// Row `row` of the text rendering of the yard: fifteen characters.
    pub open spec fn text_row(self, row: int) -> Seq<char> {
        Seq::new(15, |col: int| self.text_char(row, col))
    }
}

impl View for Yard {
    type V = YardView;

    closed spec fn view(&self) -> YardView {
        YardView {
            tiles: tile_views(self.tiles@),
            drawn_tiles: track_views(self.drawn_tiles@),
            h_edges: self.h_edges@,
            v_edges: self.v_edges@,
            state: self.state,
            level_info: placements(self.level_info@),
        }
    }
}

impl Yard {
    /// A yard with a blank tile on every cell, ready to be drawn on.
    pub fn new_blank() -> (yard: Yard)
        ensures
            yard@ == YardView::blank(),
            yard@.wf(),
    {
        let mut tiles: Vec<Tile> = Vec::new();
        let mut drawn_tiles: Vec<Tracktile> = Vec::new();
        let mut i: usize = 0;
        while i < NUM_ROWS * NUM_COLS
            invariant
                i <= 49,
                tiles@.len() == i,
                drawn_tiles@.len() == i,
                forall|j: int|
                    0 <= j < i ==> (#[trigger] tiles@[j])@ == TileView::Tracktile(
                        TracktileView::blank(),
                    ),
                forall|j: int| 0 <= j < i ==> (#[trigger] drawn_tiles@[j])@ == TracktileView::blank(),
            decreases 49 - i,
        {
            tiles.push(Tile::Tracktile(Tracktile::new(None, None)));
            drawn_tiles.push(Tracktile::new(None, None));
            i += 1;
        }
        let mut h_edges: Vec<Edge> = Vec::new();
        let mut v_edges: Vec<Edge> = Vec::new();
        let mut e: usize = 0;
        while e < (NUM_ROWS + 1) * NUM_COLS
            invariant
                e <= 56,
                h_edges@.len() == e,
                v_edges@.len() == e,
                forall|j: int|
                    0 <= j < e ==> (#[trigger] h_edges@[j]) == (Edge {
                        train_to_a: None,
                        train_to_b: None,
                    }),
                forall|j: int|
                    0 <= j < e ==> (#[trigger] v_edges@[j]) == (Edge {
                        train_to_a: None,
                        train_to_b: None,
                    }),
            decreases 56 - e,
        {
            h_edges.push(Edge::new());
            v_edges.push(Edge::new());
            e += 1;
        }
        let yard = Yard {
            tiles,
            drawn_tiles,
            h_edges,
            v_edges,
            state: YardState::Drawing,
            level_info: Vec::new(),
        };
        assert(yard@.tiles =~= YardView::blank().tiles);
        assert(yard@.drawn_tiles =~= YardView::blank().drawn_tiles);
        assert(yard@.h_edges =~= YardView::blank().h_edges);
        assert(yard@.v_edges =~= YardView::blank().v_edges);
        assert(yard@.level_info =~= YardView::blank().level_info);
        yard
    }

    /// The state of the yard.
    pub fn state(&self) -> (state: YardState)
        ensures
            state == self@.state,
    {
        self.state
    }

    /// The tile in row `r` and column `c`.
    pub fn tile(&self, r: usize, c: usize) -> (tile: &Tile)
        requires
            self@.sized(),
            r < 7,
            c < 7,
        ensures
            tile@ == self@.tile(r as int, c as int),
    {
        &self.tiles[r * 7 + c]
    }

    /// The track that the player has drawn on the cell in row `r` and column `c`.
    pub fn drawn_tile(&self, r: usize, c: usize) -> (tile: &Tracktile)
        requires
            self@.sized(),
            r < 7,
            c < 7,
        ensures
            tile@ == self@.drawn_tiles[tile_index(r as int, c as int)],
    {
        &self.drawn_tiles[r * 7 + c]
    }

    /// The edge above the tile in row `r` and column `c`; with `r` equal to
    /// seven, the edge below the last row.
    pub fn h_edge(&self, r: usize, c: usize) -> (edge: Edge)
        requires
            self@.sized(),
            r <= 7,
            c < 7,
        ensures
            edge == self@.h_edge(r as int, c as int),
    {
        self.h_edges[r * 7 + c]
    }

    /// The edge left of the tile in row `r` and column `c`; with `c` equal to
    /// seven, the edge right of the last column.
    pub fn v_edge(&self, r: usize, c: usize) -> (edge: Edge)
        requires
            self@.sized(),
            r < 7,
            c <= 7,
        ensures
            edge == self@.v_edge(r as int, c as int),
    {
        self.v_edges[r * 8 + c]
    }

    /// The layout of the level that the yard was made from.
    pub fn level_info(&self) -> (info: &LevelInfo)
        ensures
            placements(info@) == self@.level_info,
    {
        &self.level_info
    }

    /// Erases the track on the cell in row `r` and column `c`.
    pub fn clear_connections(&mut self, r: usize, c: usize)
        requires
            old(self)@.wf(),
            old(self)@.state is Drawing,
            r < 7,
            c < 7,
        ensures
            final(self)@ == old(self)@.with_cell_erased(r as int, c as int),
            final(self)@.wf(),
    {
        let i = r * 7 + c;
        if let Tile::Tracktile(tracktile) = &mut self.tiles[i] {
            tracktile.clear_connections();
        }
        self.drawn_tiles[i].clear_connections();
        proof {
            let before = old(self)@;
            assert(before.tiles[i as int].at_rest());
            assert(before.drawn_tiles[i as int].wf());
            assert(self@.tiles =~= before.with_cell_erased(r as int, c as int).tiles);
            assert(self@.drawn_tiles =~= before.with_cell_erased(r as int, c as int).drawn_tiles);
            assert forall|j: int| 0 <= j < 49 implies (#[trigger] self@.tiles[j]).at_rest() by {
                assert(before.tiles[j].at_rest());
            }
            assert forall|j: int| 0 <= j < 49 implies (#[trigger] self@.drawn_tiles[j]).wf()
                && self@.drawn_tiles[j].trains.len() == 0 by {
                assert(before.drawn_tiles[j].wf());
            }
        }
    }

    /// Draws `conn` on the cell in row `r` and column `c`, if track can lie there.
    pub fn add_connection(&mut self, r: usize, c: usize, conn: Connection)
        requires
            old(self)@.wf(),
            old(self)@.state is Drawing,
            r < 7,
            c < 7,
            conn.valid(),
        ensures
            final(self)@ == old(self)@.with_connection(r as int, c as int, conn),
            final(self)@.wf(),
    {
        let i = r * 7 + c;
        if let Tile::Tracktile(tt) = &mut self.tiles[i] {
            tt.add_connection(conn);
            self.drawn_tiles[i].add_connection(conn);
        }
        proof {
            let before = old(self)@;
            assert(before.tiles[i as int].at_rest());
            assert(before.drawn_tiles[i as int].wf());
            assert(self@.tiles =~= before.with_connection(r as int, c as int, conn).tiles);
            assert(self@.drawn_tiles =~= before.with_connection(
                r as int,
                c as int,
                conn,
            ).drawn_tiles);
            assert forall|j: int| 0 <= j < 49 implies (#[trigger] self@.tiles[j]).at_rest() by {
                assert(before.tiles[j].at_rest());
            }
            assert forall|j: int| 0 <= j < 49 implies (#[trigger] self@.drawn_tiles[j]).wf()
                && self@.drawn_tiles[j].trains.len() == 0 by {
                assert(before.drawn_tiles[j].wf());
            }
        }
    }

    /// Throws the switch on the cell in row `r` and column `c`, if there is one.
    pub fn switch_connections(&mut self, r: usize, c: usize)
        requires
            old(self)@.wf(),
            old(self)@.state is Drawing,
            r < 7,
            c < 7,
        ensures
            final(self)@ == old(self)@.with_switch_thrown(r as int, c as int),
            final(self)@.wf(),
    {
        let i = r * 7 + c;
        proof {
            assert(old(self)@.tiles[i as int].at_rest());
            assert(old(self)@.drawn_tiles[i as int].wf());
        }
        if let Tile::Tracktile(tt) = &mut self.tiles[i] {
            tt.switch_active_passive();
            self.drawn_tiles[i].switch_active_passive();
        }
        proof {
            let before = old(self)@;
            assert(self@.tiles =~= before.with_switch_thrown(r as int, c as int).tiles);
            assert(self@.drawn_tiles =~= before.with_switch_thrown(r as int, c as int).drawn_tiles);
            assert forall|j: int| 0 <= j < 49 implies (#[trigger] self@.tiles[j]).at_rest() by {
                assert(before.tiles[j].at_rest());
            }
            assert forall|j: int| 0 <= j < 49 implies (#[trigger] self@.drawn_tiles[j]).wf()
                && self@.drawn_tiles[j].trains.len() == 0 by {
                assert(before.drawn_tiles[j].wf());
            }
        }
    }

    /// Sets the trains going: the yard leaves the drawing state and will take
    /// the tick half step first.
    pub fn start_trains(&mut self)
        requires
            old(self)@.wf(),
            old(self)@.state is Drawing,
        ensures
            final(self)@ == (YardView {
                state: YardState::Playing { next_step: NextAction::ProcessTick },
                ..old(self)@
            }),
            final(self)@.wf(),
    {
        self.state = YardState::Playing { next_step: NextAction::ProcessTick };
        proof {
            assert forall|j: int| 0 <= j < 49 implies (#[trigger] self@.tiles[j]).ready() by {
                assert(old(self)@.tiles[j].ready());
            }
        }
    }

    /// Whether every sink is satisfied, every source exhausted and every edge empty.
    pub fn has_won(&self) -> (won: bool)
        requires
            self@.sized(),
        ensures
            won == self@.won(),
    {
        let mut i: usize = 0;
        while i < NUM_ROWS * NUM_COLS
            invariant
                i <= 49,
                self@.sized(),
                forall|j: int|
                    0 <= j < i ==> match #[trigger] self@.tiles[j] {
                        TileView::Trainsink(s) => s.satisfied(),
                        TileView::Trainsource(s) => s.exhausted(),
                        _ => true,
                    },
            decreases 49 - i,
        {
            match &self.tiles[i] {
                Tile::Trainsink(trainsink) => {
                    if !trainsink.is_satisfied() {
                        assert(!self@.tiles[i as int]->Trainsink_0.satisfied());
                        return false;
                    }
                },
                Tile::Trainsource(trainsource) => {
                    if !trainsource.is_empty() {
                        assert(!self@.tiles[i as int]->Trainsource_0.exhausted());
                        return false;
                    }
                },
                _ => {},
            }
            i += 1;
        }
        let mut e: usize = 0;
        while e < (NUM_ROWS + 1) * NUM_COLS
            invariant
                e <= 56,
                self@.sized(),
                forall|j: int| 0 <= j < e ==> (#[trigger] self@.h_edges[j]).empty(),
            decreases 56 - e,
        {
            if !self.h_edges[e].is_empty() {
                assert(!self@.h_edges[e as int].empty());
                return false;
            }
            e += 1;
        }
        let mut e: usize = 0;
        while e < NUM_ROWS * (NUM_COLS + 1)
            invariant
                e <= 56,
                self@.sized(),
                forall|j: int| 0 <= j < e ==> (#[trigger] self@.v_edges[j]).empty(),
            decreases 56 - e,
        {
            if !self.v_edges[e].is_empty() {
                assert(!self@.v_edges[e as int].empty());
                return false;
            }
            e += 1;
        }
        true
    }

    /// Takes the tick half step: every tile ticks, and the yard wins if it then can.
    pub fn process_tick(&mut self)
        requires
            old(self)@.wf(),
            old(self)@.state is Playing,
        ensures
            final(self)@ == old(self)@.ticked(),
            final(self)@.wf(),
    {
        let mut i: usize = 0;
        while i < NUM_ROWS * NUM_COLS
            invariant
                i <= 49,
                old(self)@.wf(),
                self.tiles@.len() == 49,
                self.drawn_tiles == old(self).drawn_tiles,
                self.h_edges == old(self).h_edges,
                self.v_edges == old(self).v_edges,
                self.state == old(self).state,
                self.level_info == old(self).level_info,
                forall|j: int| 0 <= j < i ==> (#[trigger] self.tiles@[j])@ == old(self)@.tiles[j].tick(),
                forall|j: int| i <= j < 49 ==> (#[trigger] self.tiles@[j])@ == old(self)@.tiles[j],
            decreases 49 - i,
        {
            proof {
                assert(old(self)@.tiles[i as int].ready());
            }
            self.tiles[i].process_tick();
            i += 1;
        }
        proof {
            assert(self@.tiles =~= Seq::new(49, |i: int| old(self)@.tiles[i].tick()));
            assert forall|j: int| 0 <= j < 49 implies (#[trigger] self@.tiles[j]).ready() by {
                assert(old(self)@.tiles[j].ready());
                law_tile_round(old(self)@.tiles[j], crate::tile::no_trains());
            }
        }
        if self.has_won() {
            self.state = YardState::Won;
        }
    }

    /// Lets the trains in every tile reach the exits.
    fn end_tick_in_tiles(&mut self)
        requires
            old(self)@.wf(),
        ensures
            final(self).tiles@.len() == 49,
            forall|j: int| 0 <= j < 49 ==> (#[trigger] final(self).tiles@[j])@ == old(self)@.at_exits(j),
            final(self).drawn_tiles == old(self).drawn_tiles,
            final(self).h_edges == old(self).h_edges,
            final(self).v_edges == old(self).v_edges,
            final(self).state == old(self).state,
            final(self).level_info == old(self).level_info,
    {
        let mut i: usize = 0;
        while i < NUM_ROWS * NUM_COLS
            invariant
                i <= 49,
                old(self)@.wf(),
                self.tiles@.len() == 49,
                self.drawn_tiles == old(self).drawn_tiles,
                self.h_edges == old(self).h_edges,
                self.v_edges == old(self).v_edges,
                self.state == old(self).state,
                self.level_info == old(self).level_info,
                forall|j: int| 0 <= j < i ==> (#[trigger] self.tiles@[j])@ == old(self)@.at_exits(j),
                forall|j: int| i <= j < 49 ==> (#[trigger] self.tiles@[j])@ == old(self)@.tiles[j],
            decreases 49 - i,
        {
            proof {
                assert(old(self)@.tiles[i as int].ready());
            }
            self.tiles[i].process_end_of_tick();
            i += 1;
        }
    }

    /// Sends the trains out of every tile, and hands back what left each tile.
    fn dispatch_from_tiles(&mut self, Ghost(before): Ghost<YardView>) -> (outs: Vec<BorderState>)
        requires
            before.wf(),
            old(self).tiles@.len() == 49,
            forall|j: int| 0 <= j < 49 ==> (#[trigger] old(self).tiles@[j])@ == before.at_exits(j),
        ensures
            final(self).tiles@.len() == 49,
            outs@.len() == 49,
            forall|j: int| 0 <= j < 49 ==> (#[trigger] outs@[j])@ == before.leaving(j),
            forall|j: int|
                0 <= j < 49 ==> (#[trigger] final(self).tiles@[j])@ == before.at_exits(j).dispatched(),
            final(self).drawn_tiles == old(self).drawn_tiles,
            final(self).h_edges == old(self).h_edges,
            final(self).v_edges == old(self).v_edges,
            final(self).state == old(self).state,
            final(self).level_info == old(self).level_info,
    {
        let mut outs: Vec<BorderState> = Vec::new();
        let mut i: usize = 0;
        while i < NUM_ROWS * NUM_COLS
            invariant
                i <= 49,
                before.wf(),
                self.tiles@.len() == 49,
                outs@.len() == i,
                self.drawn_tiles == old(self).drawn_tiles,
                self.h_edges == old(self).h_edges,
                self.v_edges == old(self).v_edges,
                self.state == old(self).state,
                self.level_info == old(self).level_info,
                forall|j: int| 0 <= j < i ==> (#[trigger] outs@[j])@ == before.leaving(j),
                forall|j: int|
                    0 <= j < i ==> (#[trigger] self.tiles@[j])@ == before.at_exits(j).dispatched(),
                forall|j: int| i <= j < 49 ==> (#[trigger] self.tiles@[j])@ == before.at_exits(j),
            decreases 49 - i,
        {
            proof {
                assert(before.tiles[i as int].ready());
                law_tile_round(before.tiles[i as int], crate::tile::no_trains());
            }
            let out = self.tiles[i].dispatch_trains();
            outs.push(out);
            i += 1;
        }
        outs
    }

    /// Puts the trains that left the tiles on the edges, and lets the trains
    /// on every edge meet.
    fn load_edges(&mut self, outs: &Vec<BorderState>, Ghost(before): Ghost<YardView>)
        requires
            before.sized(),
            outs@.len() == 49,
            forall|j: int| 0 <= j < 49 ==> (#[trigger] outs@[j])@ == before.leaving(j),
            old(self).h_edges@ == before.h_edges,
            old(self).v_edges@ == before.v_edges,
        ensures
            final(self).h_edges@.len() == 56,
            final(self).v_edges@.len() == 56,
            forall|e: int| 0 <= e < 56 ==> (#[trigger] final(self).h_edges@[e]) == before.h_met(e),
            forall|e: int| 0 <= e < 56 ==> (#[trigger] final(self).v_edges@[e]) == before.v_met(e),
            final(self).tiles == old(self).tiles,
            final(self).drawn_tiles == old(self).drawn_tiles,
            final(self).state == old(self).state,
            final(self).level_info == old(self).level_info,
    {
        let mut e: usize = 0;
        while e < (NUM_ROWS + 1) * NUM_COLS
            invariant
                e <= 56,
                before.sized(),
                outs@.len() == 49,
                forall|j: int| 0 <= j < 49 ==> (#[trigger] outs@[j])@ == before.leaving(j),
                self.h_edges@.len() == 56,
                self.v_edges == old(self).v_edges,
                self.tiles == old(self).tiles,
                self.drawn_tiles == old(self).drawn_tiles,
                self.state == old(self).state,
                self.level_info == old(self).level_info,
                forall|j: int| 0 <= j < e ==> (#[trigger] self.h_edges@[j]) == before.h_met(j),
                forall|j: int| e <= j < 56 ==> (#[trigger] self.h_edges@[j]) == before.h_edges[j],
            decreases 56 - e,
        {
            let mut edge = self.h_edges[e];
            if e < 49 {
                edge.train_to_a = outs[e][0];
            }
            if e >= 7 {
                edge.train_to_b = outs[e - 7][2];
            }
            assert(edge == before.h_loaded(e as int));
            edge.interact_trains();
            self.h_edges[e] = edge;
            e += 1;
        }
        let mut e: usize = 0;
        while e < NUM_ROWS * (NUM_COLS + 1)
            invariant
                e <= 56,
                before.sized(),
                outs@.len() == 49,
                forall|j: int| 0 <= j < 49 ==> (#[trigger] outs@[j])@ == before.leaving(j),
                self.h_edges@.len() == 56,
                self.v_edges@.len() == 56,
                forall|j: int| 0 <= j < 56 ==> (#[trigger] self.h_edges@[j]) == before.h_met(j),
                self.tiles == old(self).tiles,
                self.drawn_tiles == old(self).drawn_tiles,
                self.state == old(self).state,
                self.level_info == old(self).level_info,
                forall|j: int| 0 <= j < e ==> (#[trigger] self.v_edges@[j]) == before.v_met(j),
                forall|j: int| e <= j < 56 ==> (#[trigger] self.v_edges@[j]) == before.v_edges[j],
            decreases 56 - e,
        {
            let r = e / 8;
            let c = e % 8;
            let mut edge = self.v_edges[e];
            if c < 7 {
                edge.train_to_a = outs[r * 7 + c][3];
            }
            if c >= 1 {
                edge.train_to_b = outs[r * 7 + c - 1][1];
            }
            assert(edge == before.v_loaded(e as int));
            edge.interact_trains();
            self.v_edges[e] = edge;
            e += 1;
        }
    }

    /// Whether a train stands on an edge at the rim of the board heading outward.
    fn train_leaves_board(&self, Ghost(before): Ghost<YardView>) -> (leaves: bool)
        requires
            self.h_edges@.len() == 56,
            self.v_edges@.len() == 56,
            forall|e: int| 0 <= e < 56 ==> (#[trigger] self.h_edges@[e]) == before.h_met(e),
            forall|e: int| 0 <= e < 56 ==> (#[trigger] self.v_edges@[e]) == before.v_met(e),
        ensures
            leaves == before.leaves_board(),
    {
        let mut leaves = false;
        let mut c: usize = 0;
        while c < NUM_COLS
            invariant
                c <= 7,
                self.h_edges@.len() == 56,
                forall|e: int| 0 <= e < 56 ==> (#[trigger] self.h_edges@[e]) == before.h_met(e),
                leaves == (exists|j: int| 0 <= j < c && #[trigger] before.leaves_column(j)),
            decreases 7 - c,
        {
            if self.h_edges[c].train_to_a.is_some() || self.h_edges[NUM_ROWS * NUM_COLS
                + c].train_to_b.is_some() {
                assert(before.leaves_column(c as int));
                leaves = true;
            }
            c += 1;
        }
        let ghost over_columns = leaves;
        let mut r: usize = 0;
        while r < NUM_ROWS
            invariant
                r <= 7,
                self.v_edges@.len() == 56,
                forall|e: int| 0 <= e < 56 ==> (#[trigger] self.v_edges@[e]) == before.v_met(e),
                leaves == (over_columns || (exists|j: int|
                    0 <= j < r && #[trigger] before.leaves_row(j))),
            decreases 7 - r,
        {
            if self.v_edges[r * 8].train_to_a.is_some() || self.v_edges[r * 8
                + 7].train_to_b.is_some() {
                assert(before.leaves_row(r as int));
                leaves = true;
            }
            r += 1;
        }
        leaves
    }

    /// Lets every tile take in the trains that arrive at it, and says whether
    /// any tile turned a train away.
    fn accept_into_tiles(&mut self, Ghost(before): Ghost<YardView>) -> (turned_away: bool)
        requires
            before.wf(),
            old(self).tiles@.len() == 49,
            old(self).h_edges@.len() == 56,
            old(self).v_edges@.len() == 56,
            forall|j: int|
                0 <= j < 49 ==> (#[trigger] old(self).tiles@[j])@ == before.at_exits(j).dispatched(),
            forall|e: int| 0 <= e < 56 ==> (#[trigger] old(self).h_edges@[e]) == before.h_met(e),
            forall|e: int| 0 <= e < 56 ==> (#[trigger] old(self).v_edges@[e]) == before.v_met(e),
        ensures
            turned_away == before.turned_away(),
            final(self).tiles@.len() == 49,
            forall|j: int| 0 <= j < 49 ==> (#[trigger] final(self).tiles@[j])@ == before.tile_after_edges(j),
            final(self).drawn_tiles == old(self).drawn_tiles,
            final(self).h_edges == old(self).h_edges,
            final(self).v_edges == old(self).v_edges,
            final(self).state == old(self).state,
            final(self).level_info == old(self).level_info,
    {
        let mut turned_away = false;
        let mut i: usize = 0;
        while i < NUM_ROWS * NUM_COLS
            invariant
                i <= 49,
                before.wf(),
                self.tiles@.len() == 49,
                self.h_edges@.len() == 56,
                self.v_edges@.len() == 56,
                self.drawn_tiles == old(self).drawn_tiles,
                self.h_edges == old(self).h_edges,
                self.v_edges == old(self).v_edges,
                self.state == old(self).state,
                self.level_info == old(self).level_info,
                forall|e: int| 0 <= e < 56 ==> (#[trigger] self.h_edges@[e]) == before.h_met(e),
                forall|e: int| 0 <= e < 56 ==> (#[trigger] self.v_edges@[e]) == before.v_met(e),
                forall|j: int| 0 <= j < i ==> (#[trigger] self.tiles@[j])@ == before.tile_after_edges(j),
                forall|j: int|
                    i <= j < 49 ==> (#[trigger] self.tiles@[j])@ == before.at_exits(j).dispatched(),
                turned_away == (exists|j: int| 0 <= j < i && #[trigger] before.turned_away_at(j)),
            decreases 49 - i,
        {
            let r = i / 7;
            let c = i % 7;
            let border_state: BorderState = [
                self.h_edges[i].train_to_b,
                self.v_edges[r * 8 + c + 1].train_to_a,
                self.h_edges[i + 7].train_to_a,
                self.v_edges[r * 8 + c].train_to_b,
            ];
            assert(border_state@ =~= before.arriving(i as int));
            let rejected = self.tiles[i].accept_trains(border_state);
            if rejected[0].is_some() || rejected[1].is_some() || rejected[2].is_some()
                || rejected[3].is_some() {
                assert(before.turned_away_at(i as int));
                turned_away = true;
            }
            i += 1;
        }
        turned_away
    }

    /// Takes the edges half step: trains reach the exits of their tiles, cross
    /// the edges, and arrive at the next tiles; the yard crashes if a train
    /// leaves the board or is turned away.
    pub fn process_edges(&mut self)
        requires
            old(self)@.wf(),
            old(self)@.state is Playing,
        ensures
            final(self)@ == old(self)@.after_edges(),
            final(self)@.wf(),
    {
        let ghost before = self@;
        self.end_tick_in_tiles();
        let outs = self.dispatch_from_tiles(Ghost(before));
        self.load_edges(&outs, Ghost(before));
        let leaves = self.train_leaves_board(Ghost(before));
        let turned_away = self.accept_into_tiles(Ghost(before));
        if leaves || turned_away {
            self.state = YardState::Crashed;
        }
        proof {
            let after = before.after_edges();
            assert(self@.tiles =~= after.tiles);
            assert(self@.h_edges =~= after.h_edges);
            assert(self@.v_edges =~= after.v_edges);
            assert(self@.drawn_tiles =~= after.drawn_tiles);
            lemma_after_edges_wf(before);
        }
    }

    /// Sets the tiles of `info` on their cells, one after the other.
    fn place_all(tiles: &mut Vec<Tile>, info: &LevelInfo)
        requires
            old(tiles)@.len() == 49,
            placements_wf(placements(info@)),
        ensures
            final(tiles)@.len() == 49,
            tile_views(final(tiles)@) == placed(
                tile_views(old(tiles)@),
                placements(info@),
                info@.len() as int,
            ),
    {
        let mut k: usize = 0;
        while k < info.len()
            invariant
                k <= info.len(),
                tiles@.len() == 49,
                placements_wf(placements(info@)),
                tile_views(tiles@) == placed(tile_views(old(tiles)@), placements(info@), k as int),
            decreases info.len() - k,
        {
            let ghost before = tile_views(tiles@);
            let placement = &info[k];
            proof {
                assert(placements(info@)[k as int].wf());
            }
            let i = placement.y as usize * 7 + placement.x as usize;
            tiles[i] = placement.tile.clone();
            assert(tile_views(tiles@) =~= before.update(i as int, placement.tile@));
            k += 1;
        }
    }

    /// The yard of `level`, with the track that was drawn on it earlier.
    pub fn new(level: &Level) -> (yard: Yard)
        requires
            level.wf(),
        ensures
            yard@ == YardView::made_from(
                placements(level.level_info@),
                placements(level.current_progress@),
            ),
            yard@.wf(),
    {
        let mut yard = Yard::new_blank();
        proof {
            assert(yard@.tiles.len() == 49 && yard@.drawn_tiles.len() == 49);
            assert forall|j: int| 0 <= j < 49 implies (#[trigger] yard.drawn_tiles@[j])@
                == TracktileView::blank() by {
                assert(yard@.drawn_tiles[j] == TracktileView::blank());
            }
        }
        Yard::place_all(&mut yard.tiles, &level.level_info);
        Yard::place_all(&mut yard.tiles, &level.current_progress);
        let ghost tiles = yard.tiles@;
        let mut i: usize = 0;
        while i < NUM_ROWS * NUM_COLS
            invariant
                i <= 49,
                yard.tiles@ == tiles,
                yard.h_edges@ == YardView::blank().h_edges,
                yard.v_edges@ == YardView::blank().v_edges,
                yard.state == YardState::Drawing,
                yard.tiles@.len() == 49,
                yard.drawn_tiles@.len() == 49,
                forall|j: int|
                    0 <= j < i ==> (#[trigger] yard.drawn_tiles@[j])@ == track_of(yard.tiles@[j]@),
                forall|j: int|
                    i <= j < 49 ==> (#[trigger] yard.drawn_tiles@[j])@ == TracktileView::blank(),
            decreases 49 - i,
        {
            if let Tile::Tracktile(tracktile) = &yard.tiles[i] {
                let copy = tracktile.clone();
                yard.drawn_tiles[i] = copy;
            }
            i += 1;
        }
        yard.level_info = copy_level_info(&level.level_info);
        proof {
            let made = YardView::made_from(
                placements(level.level_info@),
                placements(level.current_progress@),
            );
            assert(yard@.tiles == made.tiles);
            assert(yard@.drawn_tiles =~= made.drawn_tiles);
            assert(yard@.h_edges =~= made.h_edges);
            assert(yard@.v_edges =~= made.v_edges);
            lemma_made_from_wf(
                placements(level.level_info@),
                placements(level.current_progress@),
            );
        }
        yard
    }

    /// Takes the yard back to the drawing board.
    pub fn reset_self(&mut self)
        requires
            old(self)@.wf(),
        ensures
            final(self)@ == old(self)@.reset(),
            final(self)@.wf(),
    {
        let ghost before = self@;
        Yard::place_all(&mut self.tiles, &self.level_info);
        let ghost restored = placed(before.tiles, before.level_info, before.level_info.len() as int);
        let mut i: usize = 0;
        while i < NUM_ROWS * NUM_COLS
            invariant
                i <= 49,
                self.tiles@.len() == 49,
                self.drawn_tiles == old(self).drawn_tiles,
                self.h_edges == old(self).h_edges,
                self.v_edges == old(self).v_edges,
                self.state == old(self).state,
                self.level_info == old(self).level_info,
                restored.len() == 49,
                forall|j: int| 0 <= j < i ==> (#[trigger] self.tiles@[j])@ == without_trains(restored[j]),
                forall|j: int| i <= j < 49 ==> (#[trigger] self.tiles@[j])@ == restored[j],
            decreases 49 - i,
        {
            if let Tile::Tracktile(tracktile) = &mut self.tiles[i] {
                tracktile.clear_trains();
            }
            i += 1;
        }
        let mut e: usize = 0;
        while e < (NUM_ROWS + 1) * NUM_COLS
            invariant
                e <= 56,
                self.h_edges@.len() == 56,
                self.v_edges@.len() == 56,
                self.tiles@.len() == 49,
                self.drawn_tiles == old(self).drawn_tiles,
                self.state == old(self).state,
                self.level_info == old(self).level_info,
                forall|j: int| 0 <= j < 49 ==> (#[trigger] self.tiles@[j])@ == without_trains(restored[j]),
                forall|j: int| 0 <= j < e ==> (#[trigger] self.h_edges@[j]) == empty_edge(),
                forall|j: int| 0 <= j < e ==> (#[trigger] self.v_edges@[j]) == empty_edge(),
            decreases 56 - e,
        {
            self.h_edges[e].clear_trains();
            self.v_edges[e].clear_trains();
            e += 1;
        }
        let mut i: usize = 0;
        while i < NUM_ROWS * NUM_COLS
            invariant
                i <= 49,
                before == old(self)@,
                before.wf(),
                self.tiles@.len() == 49,
                self.drawn_tiles == old(self).drawn_tiles,
                self.h_edges@.len() == 56,
                self.v_edges@.len() == 56,
                forall|j: int| 0 <= j < 56 ==> (#[trigger] self.h_edges@[j]) == empty_edge(),
                forall|j: int| 0 <= j < 56 ==> (#[trigger] self.v_edges@[j]) == empty_edge(),
                self.state == old(self).state,
                self.level_info == old(self).level_info,
                restored == placed(before.tiles, before.level_info, before.level_info.len() as int),
                forall|j: int| 0 <= j < i ==> (#[trigger] self.tiles@[j])@ == before.tile_after_reset(j),
                forall|j: int|
                    i <= j < 49 ==> (#[trigger] self.tiles@[j])@ == without_trains(restored[j]),
            decreases 49 - i,
        {
            proof {
                assert(before.drawn_tiles[i as int].wf());
            }
            if self.drawn_tiles[i].connection_type() != ConnectionType::Empty {
                let copy = self.drawn_tiles[i].clone();
                self.tiles[i] = Tile::Tracktile(copy);
            }
            i += 1;
        }
        self.state = YardState::Drawing;
        proof {
            let after = before.reset();
            assert(self@.tiles =~= after.tiles);
            assert(self@.h_edges =~= after.h_edges);
            assert(self@.v_edges =~= after.v_edges);
            lemma_reset_wf(before);
        }
    }

    /// Takes the yard through one frame; `phase_due` says whether its next
    /// half step is due.
    pub fn update(&mut self, phase_due: bool)
        requires
            old(self)@.wf(),
        ensures
            final(self)@ == old(self)@.updated(phase_due),
            final(self)@.wf(),
    {
        if let YardState::Playing { next_step } = self.state {
            if phase_due {
                let mut next_step = next_step;
                match next_step {
                    NextAction::ProcessEdges => {
                        self.process_edges();
                        next_step = NextAction::ProcessTick;
                    },
                    NextAction::ProcessTick => {
                        self.process_tick();
                        next_step = NextAction::ProcessEdges;
                    },
                }
                if self.state != YardState::Crashed && self.state != YardState::Won {
                    self.state = YardState::Playing { next_step };
                }
                proof {
                    assert(self@.tiles =~= old(self)@.updated(phase_due).tiles);
                    assert forall|j: int| 0 <= j < 49 implies (#[trigger] self@.tiles[j]).ready() by {}
                }
            }
        } else if self.state == YardState::Crashed {
            let ghost before = self@;
            let mut i: usize = 0;
            while i < NUM_ROWS * NUM_COLS
                invariant
                    i <= 49,
                    before == old(self)@,
                    self.tiles@.len() == 49,
                    self.drawn_tiles == old(self).drawn_tiles,
                    self.h_edges == old(self).h_edges,
                    self.v_edges == old(self).v_edges,
                    self.state == old(self).state,
                    self.level_info == old(self).level_info,
                    forall|j: int|
                        0 <= j < i ==> (#[trigger] self.tiles@[j])@ == with_sink_ticked(
                            before.tiles[j],
                        ),
                    forall|j: int| i <= j < 49 ==> (#[trigger] self.tiles@[j])@ == before.tiles[j],
                decreases 49 - i,
            {
                if let Tile::Trainsink(trainsink) = &mut self.tiles[i] {
                    trainsink.process_tick();
                }
                i += 1;
            }
            proof {
                assert(self@.tiles =~= before.updated(phase_due).tiles);
                assert forall|j: int| 0 <= j < 49 implies (#[trigger] self@.tiles[j]).ready() by {
                    assert(before.tiles[j].ready());
                }
            }
        }
    }

    /// The track that the player has drawn, cell by cell, as it is saved with
    /// the level.
    pub fn get_current_progress(&self) -> (progress: LevelInfo)
        requires
            self@.wf(),
        ensures
            placements(progress@) == self@.progress(49),
            placements_wf(placements(progress@)),
    {
        let mut connection_vec: LevelInfo = Vec::new();
        let mut i: usize = 0;
        while i < NUM_ROWS * NUM_COLS
            invariant
                i <= 49,
                self@.wf(),
                placements(connection_vec@) == self@.progress(i as int),
                placements_wf(placements(connection_vec@)),
            decreases 49 - i,
        {
            let ghost so_far = placements(connection_vec@);
            proof {
                assert(self@.drawn_tiles[i as int].wf());
            }
            let tracktile = &self.drawn_tiles[i];
            if tracktile.connection_type() != ConnectionType::Empty {
                let r = i / 7;
                let c = i % 7;
                let placement = PositionedTile {
                    tile: Tile::Tracktile(tracktile.clone()),
                    x: c as u8,
                    y: r as u8,
                };
                connection_vec.push(placement);
                assert(placements(connection_vec@) =~= so_far.push(placement@));
                assert forall|j: int| 0 <= j < connection_vec@.len() implies (#[trigger] placements(
                    connection_vec@,
                )[j]).wf() by {
                    if j < connection_vec@.len() - 1 {
                        assert(so_far[j].wf());
                    }
                }
            }
            i += 1;
        }
        connection_vec
    }

    /// The text rendering of the yard, row by row: fifteen rows of fifteen
    /// characters.
    pub fn display(&self) -> (rows: Vec<Vec<char>>)
        requires
            self@.wf(),
        ensures
            rows@.len() == 15,
            forall|row: int| 0 <= row < 15 ==> (#[trigger] rows@[row])@ == self@.text_row(row),
    {
        let mut rows: Vec<Vec<char>> = Vec::new();
        let mut row: usize = 0;
        while row < 2 * NUM_ROWS + 1
            invariant
                row <= 15,
                self@.wf(),
                rows@.len() == row,
                forall|k: int| 0 <= k < row ==> (#[trigger] rows@[k])@ == self@.text_row(k),
            decreases 15 - row,
        {
            let r = row / 2;
            let mut line: Vec<char> = Vec::new();
            let mut col: usize = 0;
            while col < 2 * NUM_COLS + 1
                invariant
                    col <= 15,
                    row < 15,
                    r == row / 2,
                    self@.wf(),
                    line@.len() == col,
                    forall|k: int|
                        0 <= k < col ==> #[trigger] line@[k] == self@.text_char(row as int, k),
                decreases 15 - col,
            {
                let c = col / 2;
                let symbol = if row % 2 == 0 {
                    if col % 2 == 0 {
                        ' '
                    } else {
                        self.h_edges[r * 7 + c].get_char()
                    }
                } else {
                    if col % 2 == 0 {
                        self.v_edges[r * 8 + c].get_char()
                    } else {
                        proof {
                            assert(self@.tiles[r * 7 + c].ready());
                        }
                        self.tiles[r * 7 + c].get_char()
                    }
                };
                line.push(symbol);
                col += 1;
            }
            assert(line@ =~= self@.text_row(row as int));
            rows.push(line);
            row += 1;
        }
        rows
    }
}

/// Placing well-formed placements on tiles at rest leaves all tiles at rest.
pub proof fn lemma_placed_at_rest(tiles: Seq<TileView>, info: Seq<PositionedTileView>, n: int)
    requires
        tiles.len() == 49,
        0 <= n <= info.len(),
        placements_wf(info),
    ensures
        placed(tiles, info, n).len() == 49,
        forall|i: int|
            0 <= i < 49 ==> (#[trigger] placed(tiles, info, n)[i]) == tiles[i] || placed(
                tiles,
                info,
                n,
            )[i].at_rest(),
    decreases n,
{
    if n > 0 {
        lemma_placed_at_rest(tiles, info, n - 1);
        assert(info[n - 1].wf());
    }
}

/// A yard made from a well-formed level is well formed.
pub proof fn lemma_made_from_wf(
    level_info: Seq<PositionedTileView>,
    progress: Seq<PositionedTileView>,
)
    requires
        placements_wf(level_info),
        placements_wf(progress),
    ensures
        YardView::made_from(level_info, progress).wf(),
{
    let blank = YardView::blank().tiles;
    let first = placed(blank, level_info, level_info.len() as int);
    lemma_placed_at_rest(blank, level_info, level_info.len() as int);
    lemma_placed_at_rest(first, progress, progress.len() as int);
    let made = YardView::made_from(level_info, progress);
    assert forall|i: int| 0 <= i < 49 implies (#[trigger] made.tiles[i]).at_rest() by {
        assert(blank[i].at_rest());
        assert(first[i] == blank[i] || first[i].at_rest());
    }
}

/// A yard that is reset is well formed.
pub proof fn lemma_reset_wf(yard: YardView)
    requires
        yard.wf(),
    ensures
        yard.reset().wf(),
{
    let restored = placed(yard.tiles, yard.level_info, yard.level_info.len() as int);
    lemma_placed_at_rest(yard.tiles, yard.level_info, yard.level_info.len() as int);
    let after = yard.reset();
    assert forall|i: int| 0 <= i < 49 implies (#[trigger] after.tiles[i]).at_rest() by {
        assert(yard.tiles[i].ready());
        assert(yard.drawn_tiles[i].wf());
        assert(restored[i] == yard.tiles[i] || restored[i].at_rest());
    }
    assert forall|i: int| 0 <= i < 49 implies (#[trigger] after.drawn_tiles[i]).wf()
        && after.drawn_tiles[i].trains.len() == 0 by {
        assert(yard.drawn_tiles[i].wf());
    }
}

/// The edges half step keeps a running yard well formed.
pub proof fn lemma_after_edges_wf(yard: YardView)
    requires
        yard.wf(),
        yard.state is Playing,
    ensures
        yard.after_edges().wf(),
{
    let after = yard.after_edges();
    assert forall|i: int| 0 <= i < 49 implies (#[trigger] after.tiles[i]).ready() by {
        assert(yard.tiles[i].ready());
        law_tile_round(yard.tiles[i], yard.arriving(i));
        law_tile_round(yard.at_exits(i).dispatched(), yard.arriving(i));
    }
    assert forall|i: int| 0 <= i < 49 implies (#[trigger] after.drawn_tiles[i]).wf()
        && after.drawn_tiles[i].trains.len() == 0 by {
        assert(yard.drawn_tiles[i].wf());
    }
    assert forall|c: int| 0 <= c < 7 implies (#[trigger] after.h_edges[c]).train_to_b is None by {
        assert(yard.h_edges[c].train_to_b is None);
    }
    assert forall|c: int| 0 <= c < 7 implies (#[trigger] after.h_edges[49 + c]).train_to_a is None by {
        assert(yard.h_edges[49 + c].train_to_a is None);
    }
    assert forall|r: int| 0 <= r < 7 implies (#[trigger] after.v_edges[r * 8]).train_to_b is None by {
        assert(yard.v_edges[r * 8].train_to_b is None);
    }
    assert forall|r: int| 0 <= r < 7 implies (#[trigger] after.v_edges[r * 8 + 7]).train_to_a is None by {
        assert(yard.v_edges[r * 8 + 7].train_to_a is None);
    }
}

} // verus!
