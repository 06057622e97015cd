use vstd::prelude::*;
use crate::color::Color;
use crate::connection::Connection;
use crate::tile::BorderState;

verus! {

/// A train in flight across a track tile: it came in over border `source` and
/// leaves over border `destination`.
#[derive(Debug, Clone, Copy)]
pub struct Train {
    pub color: Color,
    pub source: u8,
    pub destination: u8,
}

/// A tile of player-drawn track: up to two connections, of which the active
/// one takes precedence, and the trains currently crossing the tile.
#[derive(Debug)]
pub struct Tracktile {
    active_connection: Option<Connection>,
    passive_connection: Option<Connection>,
    trains: Vec<Train>,
}

/// The shape that the connections of a track tile form, up to rotation.
#[derive(Copy, Clone, Debug, PartialEq, Eq, Structural)]
pub enum ConnectionType {
    Empty,
    S,
    B,
    H,
    Z,
    M,
    J,
}

/// The pictures of track, one for each shape; a switch has two, by whether
/// its active connection bends or runs straight.
#[derive(Copy, Clone, Debug, PartialEq, Eq, Structural)]
pub enum TrackImage {
    Blank,
    B,
    S,
    H,
    Z,
    M,
    Jb,
    Js,
}

/// How a track tile is drawn: its picture, mirrored left to right where
/// `h_flip` says so, and then turned clockwise by `rot` quarter turns.
#[derive(Copy, Clone, Debug, PartialEq, Eq, Structural)]
pub struct TrackSprite {
    pub image: TrackImage,
    pub rot: i8,
    pub h_flip: bool,
}

/// The mathematical content of a track tile.
pub struct TracktileView {
    pub active: Option<Connection>,
    pub passive: Option<Connection>,
    pub trains: Seq<Train>,
}

/// The first index at or after `from` of a train of `trains` that travels from
/// `source` to `destination`, or the length of `trains` if there is none.
pub open spec fn first_heading(trains: Seq<Train>, source: u8, destination: u8, from: int) -> int
    decreases trains.len() - from,
{
    if from < 0 || from >= trains.len() {
        trains.len() as int
    } else if trains[from].source == source && trains[from].destination == destination {
        from
    } else {
        first_heading(trains, source, destination, from + 1)
    }
}

/// The first index at or after `from`, other than `i`, of a train of `trains`
/// that leaves over the same border as train `i`, or the length of `trains` if
/// there is none.
pub open spec fn partner_of(trains: Seq<Train>, i: int, from: int) -> int
    decreases trains.len() - from,
{
    if from < 0 || from >= trains.len() {
        trains.len() as int
    } else if from != i && trains[from].destination == trains[i].destination {
        from
    } else {
        partner_of(trains, i, from + 1)
    }
}

/// The first index at or after `from` of a train of `trains` that shares its
/// exit border with another train, or the length of `trains` if there is none.
pub open spec fn first_paired(trains: Seq<Train>, from: int) -> int
    decreases trains.len() - from,
{
    if from < 0 || from >= trains.len() {
        trains.len() as int
    } else if partner_of(trains, from, 0) < trains.len() {
        from
    } else {
        first_paired(trains, from + 1)
    }
}

/// The first index at or after `from` of a train of `trains` that leaves over
/// border `dir`, or the length of `trains` if there is none.
pub open spec fn first_bound_for(trains: Seq<Train>, dir: u8, from: int) -> int
    decreases trains.len() - from,
{
    if from < 0 || from >= trains.len() {
        trains.len() as int
    } else if trains[from].destination == dir {
        from
    } else {
        first_bound_for(trains, dir, from + 1)
    }
}

/// The color of the first train at or after `from` that leaves over border
/// `dir`, if there is one.
pub open spec fn departing_from(trains: Seq<Train>, dir: u8, from: int) -> Option<Color> {
    let i = first_bound_for(trains, dir, from);
    if i < trains.len() {
        Some(trains[i].color)
    } else {
        None
    }
}

/// The trains of `trains`, all repainted in `color`.
pub open spec fn repainted(trains: Seq<Train>, color: Color) -> Seq<Train> {
    Seq::new(
        trains.len(),
        |i: int| Train { color, source: trains[i].source, destination: trains[i].destination },
    )
}

/// The colors of `trains`, in order.
pub open spec fn colors_of(trains: Seq<Train>) -> Seq<Color> {
    Seq::new(trains.len(), |i: int| trains[i].color)
}

impl TracktileView {
    /// The tile with no track and no trains.
    pub open spec fn blank() -> TracktileView {
        TracktileView { active: None, passive: None, trains: Seq::empty() }
    }

    /// Each connection joins two distinct borders, and the two connections,
    /// where both are present, are not the same.
    pub open spec fn geometry_wf(self) -> bool {
        &&& self.active is Some ==> self.active.unwrap().valid()
        &&& self.passive is Some ==> self.passive.unwrap().valid()
        &&& self.active is Some && self.passive is Some ==> !self.active.unwrap().same(
            self.passive.unwrap(),
        )
    }

    /// Every train enters and leaves over a border of the tile.
    pub open spec fn trains_in_range(self) -> bool {
        forall|i: int|
            0 <= i < self.trains.len() ==> (#[trigger] self.trains[i]).source < 4
                && self.trains[i].destination < 4
    }

    /// Well-formedness of a track tile.
    pub open spec fn wf(self) -> bool {
        self.geometry_wf() && self.trains_in_range()
    }

    /// Some connection of the tile ends at border `dir`.
    pub open spec fn has_any(self, dir: u8) -> bool {
        (self.active is Some && self.active.unwrap().has(dir)) || (self.passive is Some
            && self.passive.unwrap().has(dir))
    }

    /// The border over which a train that enters at `dir` leaves: the other end
    /// of the active connection if that ends at `dir`, else of the passive one.
    pub open spec fn route(self, dir: u8) -> u8 {
        if self.active is Some && self.active.unwrap().has(dir) {
            self.active.unwrap().other_end(dir)
        } else {
            self.passive.unwrap().other_end(dir)
        }
    }

    /// The trains are as they were taken in: no two came in over the same
    /// border, and each heads where the track leads from its entry.
    pub open spec fn routed(self) -> bool {
        &&& forall|i: int|
            0 <= i < self.trains.len() ==> self.has_any((#[trigger] self.trains[i]).source)
                && self.trains[i].destination == self.route(self.trains[i].source)
        &&& forall|i: int, j: int|
            0 <= i < j < self.trains.len() ==> (#[trigger] self.trains[i]).source != (
            #[trigger] self.trains[j]).source
    }

    /// No two trains leave over the same border.
    pub open spec fn exits_distinct(self) -> bool {
        forall|i: int, j: int|
            0 <= i < j < self.trains.len() ==> (#[trigger] self.trains[i]).destination != (
            #[trigger] self.trains[j]).destination
    }

    /// The tile holds the two connections `c1` and `c2`, in either role.
    pub open spec fn has_pair(self, c1: Connection, c2: Connection) -> bool {
        self.active is Some && self.passive is Some && {
            let a = self.active.unwrap();
            let p = self.passive.unwrap();
            (a.same(c1) && p.same(c2)) || (a.same(c2) && p.same(c1))
        }
    }

    /// The tile holds `c1` and `c2`, both turned by `k` quarter turns, in either role.
    pub open spec fn has_pair_turned(self, c1: Connection, c2: Connection, k: u8) -> bool {
        self.has_pair(c1.rotated(k), c2.rotated(k))
    }

    /// The tile holds `active` and `passive`, both turned by `k` quarter turns,
    /// each in its own role.
    pub open spec fn has_roles_turned(self, active: Connection, passive: Connection, k: u8) -> bool {
        self.active is Some && self.passive is Some && self.active.unwrap().same(
            active.rotated(k),
        ) && self.passive.unwrap().same(passive.rotated(k))
    }

    /// The least number of quarter turns that takes `c` to the active
    /// connection, or else to the passive one; -1 if there is none.
    pub open spec fn turns_to_either(self, c: Connection) -> int {
        if self.active is Some && c.turns_to(self.active.unwrap()) != -1 {
            c.turns_to(self.active.unwrap())
        } else if self.passive is Some {
            c.turns_to(self.passive.unwrap())
        } else {
            -1
        }
    }

    /// The least number of quarter turns that takes `c` to the active
    /// connection; -1 if there is none.
    pub open spec fn turns_to_active(self, c: Connection) -> int {
        if self.active is Some {
            c.turns_to(self.active.unwrap())
        } else {
            -1
        }
    }

    /// The least number of quarter turns that takes `c1` and `c2` together to
    /// the two connections of the tile, in either role; -1 if there is none.
    pub open spec fn turns_to_pair(self, c1: Connection, c2: Connection) -> int {
        if self.has_pair_turned(c1, c2, 0) {
            0
        } else if self.has_pair_turned(c1, c2, 1) {
            1
        } else if self.has_pair_turned(c1, c2, 2) {
            2
        } else if self.has_pair_turned(c1, c2, 3) {
            3
        } else {
            -1
        }
    }

    /// The least number of quarter turns that takes `active` to the active
    /// connection and `passive` to the passive one; -1 if there is none.
    pub open spec fn turns_to_roles(self, active: Connection, passive: Connection) -> int {
        if self.has_roles_turned(active, passive, 0) {
            0
        } else if self.has_roles_turned(active, passive, 1) {
            1
        } else if self.has_roles_turned(active, passive, 2) {
            2
        } else if self.has_roles_turned(active, passive, 3) {
            3
        } else {
            -1
        }
    }

    /// The shape of the track, found by matching it against one pattern per
    /// shape under all four rotations.
    pub open spec fn kind(self) -> ConnectionType {
        if self.active is None {
            ConnectionType::Empty
        } else if self.passive is None {
            if self.turns_to_either(Connection { dir1: 0, dir2: 2 }) != -1 {
                ConnectionType::S
            } else {
                ConnectionType::B
            }
        } else if self.has_pair(Connection { dir1: 0, dir2: 2 }, Connection { dir1: 1, dir2: 3 }) {
            ConnectionType::H
        } else if self.turns_to_pair(Connection { dir1: 0, dir2: 1 }, Connection { dir1: 2, dir2: 3 })
            != -1 {
            ConnectionType::Z
        } else if self.turns_to_pair(Connection { dir1: 0, dir2: 1 }, Connection { dir1: 1, dir2: 2 })
            != -1 {
            ConnectionType::M
        } else {
            ConnectionType::J
        }
    }

    /// How the tile is drawn. Each picture shows its shape in one position:
    /// the rotation is the number of quarter turns from that position to the
    /// track of the tile, and a switch whose branch lies on the other side
    /// than in its picture is mirrored.
    pub open spec fn sprite(self) -> TrackSprite {
        match self.kind() {
            ConnectionType::Empty => TrackSprite { image: TrackImage::Blank, rot: 0, h_flip: false },
            ConnectionType::B => TrackSprite {
                image: TrackImage::B,
                rot: self.turns_to_either(Connection { dir1: 2, dir2: 3 }) as i8,
                h_flip: false,
            },
            ConnectionType::S => TrackSprite {
                image: TrackImage::S,
                rot: self.turns_to_either(Connection { dir1: 0, dir2: 2 }) as i8,
                h_flip: false,
            },
            ConnectionType::H => TrackSprite {
                image: TrackImage::H,
                rot: self.turns_to_active(Connection { dir1: 0, dir2: 2 }) as i8,
                h_flip: false,
            },
            ConnectionType::Z => TrackSprite {
                image: TrackImage::Z,
                rot: self.turns_to_either(Connection { dir1: 0, dir2: 1 }) as i8,
                h_flip: false,
            },
            ConnectionType::M => if self.turns_to_roles(
                Connection { dir1: 2, dir2: 3 },
                Connection { dir1: 1, dir2: 2 },
            ) != -1 {
                TrackSprite {
                    image: TrackImage::M,
                    rot: self.turns_to_roles(
                        Connection { dir1: 2, dir2: 3 },
                        Connection { dir1: 1, dir2: 2 },
                    ) as i8,
                    h_flip: false,
                }
            } else {
                TrackSprite {
                    image: TrackImage::M,
                    rot: self.turns_to_roles(
                        Connection { dir1: 1, dir2: 2 },
                        Connection { dir1: 2, dir2: 3 },
                    ) as i8,
                    h_flip: true,
                }
            },
            ConnectionType::J => {
                let image = if self.turns_to_active(Connection { dir1: 0, dir2: 1 }) != -1 {
                    TrackImage::Jb
                } else {
                    TrackImage::Js
                };
                if self.turns_to_pair(Connection { dir1: 0, dir2: 2 }, Connection { dir1: 3, dir2: 2 })
                    != -1 {
                    TrackSprite {
                        image,
                        rot: self.turns_to_pair(
                            Connection { dir1: 0, dir2: 2 },
                            Connection { dir1: 3, dir2: 2 },
                        ) as i8,
                        h_flip: false,
                    }
                } else {
                    TrackSprite {
                        image,
                        rot: self.turns_to_pair(
                            Connection { dir1: 0, dir2: 2 },
                            Connection { dir1: 1, dir2: 2 },
                        ) as i8,
                        h_flip: true,
                    }
                }
            },
        }
    }

    /// The tile after the train `train`, if any, has arrived at border `dir`:
    /// taken in where track ends at that border, left out otherwise.
    pub open spec fn accept_one(self, dir: u8, train: Option<Color>) -> TracktileView {
        if train is Some && self.has_any(dir) {
            TracktileView {
                active: self.active,
                passive: self.passive,
                trains: self.trains.push(
                    Train { color: train.unwrap(), source: dir, destination: self.route(dir) },
                ),
            }
        } else {
            self
        }
    }

    /// The tile after the trains of `colors` have arrived at its four borders.
    pub open spec fn accept(self, colors: Seq<Option<Color>>) -> TracktileView {
        self.accept_one(0, colors[0]).accept_one(1, colors[1]).accept_one(2, colors[2]).accept_one(
            3,
            colors[3],
        )
    }

    /// The arriving trains of `colors` that the tile turns away: those at a
    /// border where no track ends.
    pub open spec fn rejects(self, colors: Seq<Option<Color>>) -> Seq<Option<Color>> {
        Seq::new(
            4,
            |d: int|
                if self.has_any(d as u8) {
                    None
                } else {
                    colors[d]
                },
        )
    }

    /// Two trains meet head-on on connection `c`.
    pub open spec fn collide_along(self, c: Connection) -> bool {
        first_heading(self.trains, c.dir1, c.dir2, 0) < self.trains.len() && first_heading(
            self.trains,
            c.dir2,
            c.dir1,
            0,
        ) < self.trains.len()
    }

    /// The tile after the first two trains that meet head-on on connection
    /// `c`, if there are such, have both taken their mixed color.
    pub open spec fn mix_along(self, c: Connection) -> TracktileView {
        if self.collide_along(c) {
            let i1 = first_heading(self.trains, c.dir1, c.dir2, 0);
            let i2 = first_heading(self.trains, c.dir2, c.dir1, 0);
            let color = self.trains[i2].color.mix(self.trains[i1].color);
            let t1 = self.trains[i1];
            let t2 = self.trains[i2];
            TracktileView {
                active: self.active,
                passive: self.passive,
                trains: self.trains.update(
                    i1,
                    Train { color, source: t1.source, destination: t1.destination },
                ).update(i2, Train { color, source: t2.source, destination: t2.destination }),
            }
        } else {
            self
        }
    }

    /// The tile after mid-tile mixing: on a single line or a crossing all
    /// trains mix; on two separate bends each line mixes on its own; on a
    /// switch only the active line mixes.
    pub open spec fn tick(self) -> TracktileView {
        if self.trains.len() < 2 {
            self
        } else {
            match self.kind() {
                ConnectionType::H | ConnectionType::S | ConnectionType::B => TracktileView {
                    active: self.active,
                    passive: self.passive,
                    trains: repainted(self.trains, Color::mix_all(colors_of(self.trains))),
                },
                ConnectionType::Z => self.mix_along(self.active.unwrap()).mix_along(
                    self.passive.unwrap(),
                ),
                ConnectionType::J | ConnectionType::M => self.mix_along(self.active.unwrap()),
                ConnectionType::Empty => self,
            }
        }
    }

    /// The tile after the first train that shares its exit with another has
    /// absorbed the first such other train.
    pub open spec fn merge_exits(self) -> TracktileView {
        let i1 = first_paired(self.trains, 0);
        if i1 < self.trains.len() {
            let i2 = partner_of(self.trains, i1, 0);
            let t1 = self.trains[i1];
            let color = self.trains[i2].color.mix(t1.color);
            TracktileView {
                active: self.active,
                passive: self.passive,
                trains: self.trains.update(
                    i1,
                    Train { color, source: t1.source, destination: t1.destination },
                ).remove(i2),
            }
        } else {
            self
        }
    }

    /// The tile with its switch thrown: on the two switching shapes the active
    /// and the passive connection change roles, on any other shape nothing changes.
    pub open spec fn switched(self) -> TracktileView {
        if self.kind() == ConnectionType::M || self.kind() == ConnectionType::J {
            TracktileView { active: self.passive, passive: self.active, trains: self.trains }
        } else {
            self
        }
    }

    /// The shape needs no merging at the exits: a single line, a crossing, or
    /// two separate bends.
    pub open spec fn settled_mid_tile(self) -> bool {
        self.kind() == ConnectionType::H || self.kind() == ConnectionType::S || self.kind()
            == ConnectionType::B || self.kind() == ConnectionType::Z
    }

    /// The tile as its trains reach the exits: where two or more trains are
    /// held on a switching shape, two that share an exit merge; then the
    /// switch is thrown if the number of trains that came through was odd.
    pub open spec fn end_of_tick(self) -> TracktileView {
        let merged = if self.trains.len() >= 2 && !self.settled_mid_tile() {
            self.merge_exits()
        } else {
            self
        };
        if self.trains.len() % 2 == 1 {
            merged.switched()
        } else {
            merged
        }
    }

    /// The train that leaves over border `dir`, if any.
    pub open spec fn departing(self, dir: u8) -> Option<Color> {
        departing_from(self.trains, dir, 0)
    }

    /// The trains that leave the tile, by border.
    pub open spec fn departures(self) -> Seq<Option<Color>> {
        Seq::new(4, |d: int| self.departing(d as u8))
    }

    /// The tile with `conn` drawn on it: the active connection becomes the
    /// passive one and `conn` the active one, except that drawing the active
    /// connection again leaves it as the only one.
    pub open spec fn with_connection(self, conn: Connection) -> TracktileView {
        TracktileView {
            active: Some(conn),
            passive: if self.active is Some && conn.same(self.active.unwrap()) {
                None
            } else {
                self.active
            },
            trains: self.trains,
        }
    }
}

impl View for Tracktile {
    type V = TracktileView;

    closed spec fn view(&self) -> TracktileView {
        TracktileView {
            active: self.active_connection,
            passive: self.passive_connection,
            trains: self.trains@,
        }
    }
}

impl Clone for Tracktile {
    fn clone(&self) -> (copy: Self)
        ensures
            copy@ == self@,
    {
        let mut trains: Vec<Train> = Vec::new();
        let mut i: usize = 0;
        while i < self.trains.len()
            invariant
                i <= self.trains.len(),
                trains@ == self.trains@.subrange(0, i as int),
            decreases self.trains.len() - i,
        {
            trains.push(self.trains[i]);
            assert(trains@ =~= self.trains@.subrange(0, i + 1));
            i += 1;
        }
        assert(trains@ =~= self.trains@);
        Tracktile {
            active_connection: self.active_connection,
            passive_connection: self.passive_connection,
            trains,
        }
    }
}

/// The least number of quarter turns that takes `c` to `target`, or -1.
fn turns_between(c: Connection, target: Connection) -> (turns: i8)
    ensures
        turns == c.turns_to(target),
{
    let mut rot_amt: u8 = 0;
    while rot_amt < 4
        invariant
            rot_amt <= 4,
            forall|k: u8| k < rot_amt ==> !(#[trigger] c.rotated(k)).same(target),
        decreases 4 - rot_amt,
    {
        if c.rot(rot_amt) == target {
            return rot_amt as i8;
        }
        rot_amt += 1;
    }
    -1
}

/// If no train at or after `from` leaves over `dir`, the search for one finds none.
pub proof fn lemma_none_bound_for(trains: Seq<Train>, dir: u8, from: int)
    requires
        0 <= from <= trains.len(),
        forall|j: int| from <= j < trains.len() ==> (#[trigger] trains[j]).destination != dir,
    ensures
        first_bound_for(trains, dir, from) == trains.len(),
    decreases trains.len() - from,
{
    if from < trains.len() {
        lemma_none_bound_for(trains, dir, from + 1);
    }
}

impl Tracktile {
    /// A track tile with the given connections and no trains.
    pub fn new(active_connection: Option<Connection>, passive_connection: Option<Connection>) -> (tile:
        Tracktile)
        ensures
            tile@ == (TracktileView {
                active: active_connection,
                passive: passive_connection,
                trains: Seq::empty(),
            }),
    {
        Tracktile { active_connection, passive_connection, trains: Vec::new() }
    }

    /// The connection that trains take where both connections end at their border.
    pub fn active_connection(&self) -> (c: Option<Connection>)
        ensures
            c == self@.active,
    {
        self.active_connection
    }

    /// The connection that trains take only where the active one does not serve them.
    pub fn passive_connection(&self) -> (c: Option<Connection>)
        ensures
            c == self@.passive,
    {
        self.passive_connection
    }

    /// The trains that are crossing the tile.
    pub fn trains(&self) -> (trains: &Vec<Train>)
        ensures
            trains@ == self@.trains,
    {
        &self.trains
    }

    /// Whether the tile is well formed: its connections join distinct
    /// borders and differ from each other, and every train enters and leaves
    /// over a border.
    pub fn is_well_formed(&self) -> (r: bool)
        ensures
            r == self@.wf(),
    {
        if let Some(a) = self.active_connection {
            if !a.is_valid() {
                return false;
            }
            if let Some(p) = self.passive_connection {
                if a == p {
                    return false;
                }
            }
        }
        if let Some(p) = self.passive_connection {
            if !p.is_valid() {
                return false;
            }
        }
        let mut i: usize = 0;
        while i < self.trains.len()
            invariant
                i <= self.trains.len(),
                forall|j: int|
                    0 <= j < i ==> (#[trigger] self.trains@[j]).source < 4
                        && self.trains@[j].destination < 4,
            decreases self.trains.len() - i,
        {
            if self.trains[i].source >= 4 || self.trains[i].destination >= 4 {
                return false;
            }
            i += 1;
        }
        true
    }

    /// Whether some connection of the tile ends at border `dir`.
    /// Whether the trains can leave: each leaves over a border of the tile, and
    /// no two over the same one.
    pub fn can_dispatch(&self) -> (r: bool)
        ensures
            r == (self@.trains_in_range() && self@.exits_distinct()),
    {
        let mut i: usize = 0;
        while i < self.trains.len()
            invariant
                i <= self.trains.len(),
                forall|k: int|
                    0 <= k < i ==> (#[trigger] self.trains@[k]).source < 4
                        && self.trains@[k].destination < 4,
                forall|k: int, j: int|
                    0 <= k < j < self.trains.len() && k < i ==> (
                    #[trigger] self.trains@[k]).destination != (
                    #[trigger] self.trains@[j]).destination,
            decreases self.trains.len() - i,
        {
            if self.trains[i].source >= 4 || self.trains[i].destination >= 4 {
                return false;
            }
            let mut j: usize = i + 1;
            while j < self.trains.len()
                invariant
                    i < j <= self.trains.len(),
                    forall|m: int|
                        i < m < j ==> self.trains@[i as int].destination != (
                        #[trigger] self.trains@[m]).destination,
                decreases self.trains.len() - j,
            {
                if self.trains[i].destination == self.trains[j].destination {
                    return false;
                }
                j += 1;
            }
            i += 1;
        }
        true
    }

    pub fn has_any_connection(&self, dir: u8) -> (r: bool)
        ensures
            r == self@.has_any(dir),
    {
        if let Some(connection) = self.active_connection {
            if connection.contains(dir) {
                return true;
            }
        }
        if let Some(connection) = self.passive_connection {
            if connection.contains(dir) {
                return true;
            }
        }
        false
    }

    /// Throws the switch: on the two switching shapes the active and the
    /// passive connection change roles.
    pub fn switch_active_passive(&mut self)
        requires
            old(self)@.geometry_wf(),
        ensures
            final(self)@ == old(self)@.switched(),
            final(self)@.geometry_wf(),
    {
        let c = self.connection_type();
        if c == ConnectionType::M || c == ConnectionType::J {
            let temp = self.passive_connection;
            self.passive_connection = self.active_connection;
            self.active_connection = temp;
        }
    }

    /// Whether the tile holds the two connections `c1` and `c2`, in either role.
    pub fn has_connections(&self, c1: Connection, c2: Connection) -> (r: bool)
        ensures
            r == self@.has_pair(c1, c2),
    {
        if let Some(my_c1) = self.active_connection {
            if let Some(my_c2) = self.passive_connection {
                return (my_c1 == c1 && my_c2 == c2) || (my_c1 == c2 && my_c2 == c1);
            }
        }
        false
    }

    /// The least number of quarter turns that takes `c` to the active
    /// connection, or else to the passive one; -1 if there is none.
    pub fn has_connection_up_to_rot(&self, c: Connection) -> (turns: i8)
        ensures
            turns == self@.turns_to_either(c),
    {
        if let Some(my_c) = self.active_connection {
            let turns = turns_between(c, my_c);
            if turns != -1 {
                return turns;
            }
        }
        if let Some(my_c) = self.passive_connection {
            return turns_between(c, my_c);
        }
        -1
    }

    /// The least number of quarter turns that takes `c` to the active
    /// connection; -1 if there is none.
    pub fn has_active_connection_up_to_rot(&self, c: Connection) -> (turns: i8)
        ensures
            turns == self@.turns_to_active(c),
    {
        if let Some(my_c) = self.active_connection {
            return turns_between(c, my_c);
        }
        -1
    }

    /// The least number of quarter turns that takes `c1` and `c2` together to
    /// the two connections of the tile, in either role; -1 if there is none.
    pub fn has_connections_up_to_rot(&self, c1: Connection, c2: Connection) -> (turns: i8)
        ensures
            turns == self@.turns_to_pair(c1, c2),
    {
        if let Some(my_c1) = self.active_connection {
            if let Some(my_c2) = self.passive_connection {
                let mut rot_amt: u8 = 0;
                while rot_amt < 4
                    invariant
                        rot_amt <= 4,
                        self.active_connection == Some(my_c1),
                        self.passive_connection == Some(my_c2),
                        forall|k: u8| k < rot_amt ==> !#[trigger] self@.has_pair_turned(c1, c2, k),
                    decreases 4 - rot_amt,
                {
                    let rot_c1 = c1.rot(rot_amt);
                    let rot_c2 = c2.rot(rot_amt);
                    if (my_c1 == rot_c1 && my_c2 == rot_c2) || (my_c1 == rot_c2 && my_c2 == rot_c1) {
                        return rot_amt as i8;
                    }
                    rot_amt += 1;
                }
            }
        }
        -1
    }

    /// The least number of quarter turns that takes `active` to the active
    /// connection and `passive` to the passive one; -1 if there is none.
    pub fn has_active_passive_connections_up_to_rot(
        &self,
        active: Connection,
        passive: Connection,
    ) -> (turns: i8)
        ensures
            turns == self@.turns_to_roles(active, passive),
    {
        if let Some(my_active) = self.active_connection {
            if let Some(my_passive) = self.passive_connection {
                let mut rot_amt: u8 = 0;
                while rot_amt < 4
                    invariant
                        rot_amt <= 4,
                        self.active_connection == Some(my_active),
                        self.passive_connection == Some(my_passive),
                        forall|k: u8|
                            k < rot_amt ==> !#[trigger] self@.has_roles_turned(active, passive, k),
                    decreases 4 - rot_amt,
                {
                    let rot_active = active.rot(rot_amt);
                    let rot_passive = passive.rot(rot_amt);
                    if my_active == rot_active && my_passive == rot_passive {
                        return rot_amt as i8;
                    }
                    rot_amt += 1;
                }
            }
        }
        -1
    }

    /// The index of the first train that travels from `source` to `destination`,
    /// or the number of trains if there is none.
    fn find_heading(&self, source: u8, destination: u8) -> (index: usize)
        ensures
            index == first_heading(self@.trains, source, destination, 0),
            index <= self@.trains.len(),
    {
        let mut index: usize = 0;
        while index < self.trains.len()
            invariant
                index <= self.trains.len(),
                first_heading(self.trains@, source, destination, 0) == first_heading(
                    self.trains@,
                    source,
                    destination,
                    index as int,
                ),
            decreases self.trains.len() - index,
        {
            if self.trains[index].source == source && self.trains[index].destination
                == destination {
                return index;
            }
            index += 1;
        }
        index
    }

    /// Finds the first two trains that meet head-on on `c`: where there are
    /// such, `i1` becomes the index of the one that came in over the first end
    /// of `c` and `i2` that of the one that came in over the second.
    pub fn indices_of_trains_along(&self, c: Connection, i1: &mut usize, i2: &mut usize) -> (found:
        bool)
        ensures
            found == self@.collide_along(c),
            found ==> *final(i1) == first_heading(self@.trains, c.dir1, c.dir2, 0) && *final(i2)
                == first_heading(self@.trains, c.dir2, c.dir1, 0),
            !found ==> *final(i1) == *old(i1) && *final(i2) == *old(i2),
    {
        let index1 = self.find_heading(c.dir1, c.dir2);
        let index2 = self.find_heading(c.dir2, c.dir1);
        if index1 < self.trains.len() && index2 < self.trains.len() {
            *i1 = index1;
            *i2 = index2;
            return true;
        }
        false
    }

    /// The shape that the connections of the tile form.
    pub fn connection_type(&self) -> (kind: ConnectionType)
        requires
            self@.geometry_wf(),
        ensures
            kind == self@.kind(),
    {
        if self.active_connection.is_none() {
            return ConnectionType::Empty;
        }
        if self.passive_connection.is_none() {
            if self.has_connection_up_to_rot(Connection { dir1: 0, dir2: 2 }) != -1 {
                return ConnectionType::S;
            }
            return ConnectionType::B;
        }
        if self.has_connections(Connection { dir1: 0, dir2: 2 }, Connection { dir1: 1, dir2: 3 }) {
            return ConnectionType::H;
        }
        if self.has_connections_up_to_rot(
            Connection { dir1: 0, dir2: 1 },
            Connection { dir1: 2, dir2: 3 },
        ) != -1 {
            return ConnectionType::Z;
        }
        if self.has_connections_up_to_rot(
            Connection { dir1: 0, dir2: 1 },
            Connection { dir1: 1, dir2: 2 },
        ) != -1 {
            return ConnectionType::M;
        }
        ConnectionType::J
    }

    /// How the tile is drawn: which picture, turned how far, mirrored or not.
    pub fn sprite(&self) -> (sprite: TrackSprite)
        requires
            self@.geometry_wf(),
        ensures
            sprite == self@.sprite(),
    {
        let mut image = TrackImage::Blank;
        let mut h_flip = false;
        let mut rot: i8 = 0;
        match self.connection_type() {
            ConnectionType::Empty => {},
            ConnectionType::B => {
                image = TrackImage::B;
                rot = self.has_connection_up_to_rot(Connection { dir1: 2, dir2: 3 });
            },
            ConnectionType::S => {
                image = TrackImage::S;
                rot = self.has_connection_up_to_rot(Connection { dir1: 0, dir2: 2 });
            },
            ConnectionType::H => {
                image = TrackImage::H;
                rot = self.has_active_connection_up_to_rot(Connection { dir1: 0, dir2: 2 });
            },
            ConnectionType::Z => {
                image = TrackImage::Z;
                rot = self.has_connection_up_to_rot(Connection { dir1: 0, dir2: 1 });
            },
            ConnectionType::M => {
                image = TrackImage::M;
                if self.has_active_passive_connections_up_to_rot(
                    Connection { dir1: 2, dir2: 3 },
                    Connection { dir1: 1, dir2: 2 },
                ) != -1 {
                    h_flip = false;
                    rot = self.has_active_passive_connections_up_to_rot(
                        Connection { dir1: 2, dir2: 3 },
                        Connection { dir1: 1, dir2: 2 },
                    );
                } else {
                    h_flip = true;
                    rot = self.has_active_passive_connections_up_to_rot(
                        Connection { dir1: 1, dir2: 2 },
                        Connection { dir1: 2, dir2: 3 },
                    );
                }
            },
            ConnectionType::J => {
                if self.has_active_connection_up_to_rot(Connection { dir1: 0, dir2: 1 }) != -1 {
                    image = TrackImage::Jb;
                } else {
                    image = TrackImage::Js;
                }
                if self.has_connections_up_to_rot(
                    Connection { dir1: 0, dir2: 2 },
                    Connection { dir1: 3, dir2: 2 },
                ) != -1 {
                    h_flip = false;
                    rot = self.has_connections_up_to_rot(
                        Connection { dir1: 0, dir2: 2 },
                        Connection { dir1: 3, dir2: 2 },
                    );
                } else {
                    h_flip = true;
                    rot = self.has_connections_up_to_rot(
                        Connection { dir1: 0, dir2: 2 },
                        Connection { dir1: 1, dir2: 2 },
                    );
                }
            },
        }
        TrackSprite { image, rot, h_flip }
    }

    /// Gives the first two trains that meet head-on on `c`, if there are such,
    /// their mixed color.
    fn mix_pair(&mut self, c: Connection)
        ensures
            final(self)@ == old(self)@.mix_along(c),
    {
        let mut i1: usize = 0;
        let mut i2: usize = 0;
        if self.indices_of_trains_along(c, &mut i1, &mut i2) {
            let new_color = Color::mix_many(vec![self.trains[i1].color, self.trains[i2].color]);
            self.trains[i1].color = new_color;
            self.trains[i2].color = new_color;
            assert(self@.trains =~= old(self)@.mix_along(c).trains);
        }
    }

    /// Mixes the trains that meet in the middle of the tile.
    pub fn process_tick(&mut self)
        requires
            old(self)@.geometry_wf(),
        ensures
            final(self)@ == old(self)@.tick(),
    {
        let my_type = self.connection_type();
        if self.trains.len() >= 2 {
            if my_type == ConnectionType::H || my_type == ConnectionType::S || my_type
                == ConnectionType::B {
                let mut colors: Vec<Color> = Vec::new();
                let mut i: usize = 0;
                while i < self.trains.len()
                    invariant
                        i <= self.trains.len(),
                        colors@.len() == i,
                        forall|j: int| 0 <= j < i ==> colors@[j] == self.trains@[j].color,
                    decreases self.trains.len() - i,
                {
                    colors.push(self.trains[i].color);
                    i += 1;
                }
                assert(colors@ =~= colors_of(self.trains@));
                let new_color = Color::mix_many(colors);
                let mut i: usize = 0;
                while i < self.trains.len()
                    invariant
                        i <= self.trains.len(),
                        self.trains@.len() == old(self).trains@.len(),
                        self.active_connection == old(self).active_connection,
                        self.passive_connection == old(self).passive_connection,
                        forall|j: int|
                            0 <= j < i ==> self.trains@[j] == repainted(
                                old(self).trains@,
                                new_color,
                            )[j],
                        forall|j: int|
                            i <= j < self.trains.len() ==> self.trains@[j] == old(self).trains@[j],
                    decreases self.trains.len() - i,
                {
                    self.trains[i].color = new_color;
                    i += 1;
                }
                assert(self.trains@ =~= repainted(old(self).trains@, new_color));
                return ;
            }
            if my_type == ConnectionType::Z {
                self.mix_pair(self.active_connection.unwrap());
                self.mix_pair(self.passive_connection.unwrap());
                return ;
            }
            if my_type == ConnectionType::J || my_type == ConnectionType::M {
                self.mix_pair(self.active_connection.unwrap());
            }
        }
    }

    /// The index of the first train other than train `i` that leaves over the
    /// same border, or the number of trains if there is none.
    fn find_partner(&self, i: usize) -> (j: usize)
        requires
            i < self@.trains.len(),
        ensures
            j == partner_of(self@.trains, i as int, 0),
            j <= self@.trains.len(),
    {
        let mut j: usize = 0;
        while j < self.trains.len()
            invariant
                j <= self.trains.len(),
                i < self.trains.len(),
                partner_of(self.trains@, i as int, 0) == partner_of(self.trains@, i as int, j as int),
            decreases self.trains.len() - j,
        {
            if j != i && self.trains[j].destination == self.trains[i].destination {
                return j;
            }
            j += 1;
        }
        j
    }

    /// Lets the trains reach the exits: on a switch two trains that share an
    /// exit merge, and the switch is thrown if an odd number of trains came through.
    pub fn interact_trains(&mut self)
        requires
            old(self)@.geometry_wf(),
        ensures
            final(self)@ == old(self)@.end_of_tick(),
    {
        let my_type = self.connection_type();
        let need_to_switch_active_passive = self.trains.len() % 2 == 1;
        if self.trains.len() >= 2 {
            if my_type == ConnectionType::H || my_type == ConnectionType::S || my_type
                == ConnectionType::B || my_type == ConnectionType::Z {
                return ;
            }
            let mut i1: usize = 0;
            while i1 < self.trains.len()
                invariant_except_break
                    i1 <= self.trains.len(),
                    *self == *old(self),
                    first_paired(self.trains@, 0) == first_paired(self.trains@, i1 as int),
                ensures
                    self@ == old(self)@.merge_exits(),
                decreases self.trains.len() - i1,
            {
                let i2 = self.find_partner(i1);
                if i2 < self.trains.len() {
                    let new_color = Color::mix_many(
                        vec![self.trains[i1].color, self.trains[i2].color],
                    );
                    self.trains[i1].color = new_color;
                    self.trains.remove(i2);
                    assert(self@.trains =~= old(self)@.merge_exits().trains);
                    break ;
                }
                i1 += 1;
            }
        }
        assert(self@ == if old(self)@.trains.len() >= 2 && !old(self)@.settled_mid_tile() {
            old(self)@.merge_exits()
        } else {
            old(self)@
        });
        if need_to_switch_active_passive {
            self.switch_active_passive();
        }
    }

    /// Takes in the train `train`, if any, that has arrived at border `dir`,
    /// or hands it back where no track ends at that border.
    fn accept_one(&mut self, dir: u8, train: Option<Color>) -> (rejected: Option<Color>)
        ensures
            final(self)@ == old(self)@.accept_one(dir, train),
            rejected == if old(self)@.has_any(dir) {
                None
            } else {
                train
            },
    {
        if let Some(color) = train {
            if !self.has_any_connection(dir) {
                return Some(color);
            }
            if let Some(active_conn) = self.active_connection {
                if active_conn.contains(dir) {
                    let other_dir = if active_conn.dir1 == dir {
                        active_conn.dir2
                    } else {
                        active_conn.dir1
                    };
                    self.trains.push(Train { color, source: dir, destination: other_dir });
                    return None;
                }
            }
            if let Some(passive_conn) = self.passive_connection {
                if passive_conn.contains(dir) {
                    let other_dir = if passive_conn.dir1 == dir {
                        passive_conn.dir2
                    } else {
                        passive_conn.dir1
                    };
                    self.trains.push(Train { color, source: dir, destination: other_dir });
                    return None;
                }
            }
        }
        None
    }

    /// Takes in the trains of `colors` that arrive where track ends, each routed
    /// from its entry, and hands back those that arrive where no track ends.
    pub fn accept_trains(&mut self, colors: BorderState) -> (rejected: BorderState)
        ensures
            final(self)@ == old(self)@.accept(colors@),
            rejected@ == old(self)@.rejects(colors@),
    {
        let r0 = self.accept_one(0, colors[0]);
        let r1 = self.accept_one(1, colors[1]);
        let r2 = self.accept_one(2, colors[2]);
        let r3 = self.accept_one(3, colors[3]);
        let rejected: BorderState = [r0, r1, r2, r3];
        assert(rejected@ =~= old(self)@.rejects(colors@));
        rejected
    }

    /// Sends the trains out of the tile, each over its exit.
    pub fn dispatch_trains(&mut self) -> (out: BorderState)
        requires
            old(self)@.trains_in_range(),
            old(self)@.exits_distinct(),
        ensures
            final(self)@ == (TracktileView {
                active: old(self)@.active,
                passive: old(self)@.passive,
                trains: Seq::empty(),
            }),
            out@ == old(self)@.departures(),
    {
        let mut res: BorderState = [None, None, None, None];
        let ghost all = self.trains@;
        while self.trains.len() > 0
            invariant
                self.active_connection == old(self).active_connection,
                self.passive_connection == old(self).passive_connection,
                all == old(self).trains@,
                old(self)@.trains_in_range(),
                old(self)@.exits_distinct(),
                self.trains@.len() <= all.len(),
                self.trains@ == all.subrange(0, self.trains@.len() as int),
                forall|d: u8|
                    d < 4 ==> res@[d as int] == #[trigger] departing_from(
                        all,
                        d,
                        self.trains@.len() as int,
                    ),
            decreases self.trains.len(),
        {
            let ghost n = self.trains@.len() as int;
            let train = self.trains.pop().unwrap();
            let dest = train.destination;
            assert(train == all[n - 1]);
            assert(all[n - 1].destination < 4);
            proof {
                assert forall|j: int| n <= j < all.len() implies (#[trigger] all[j]).destination
                    != dest by {
                    assert(all[n - 1].destination != all[j].destination);
                }
                lemma_none_bound_for(all, dest, n);
            }
            let ghost before = res@;
            res[dest as usize] = Some(train.color);
            assert(self.trains@ =~= all.subrange(0, n - 1));
            assert forall|d: u8| d < 4 implies res@[d as int] == #[trigger] departing_from(
                all,
                d,
                n - 1,
            ) by {
                if d == dest {
                    assert(first_bound_for(all, d, n - 1) == n - 1);
                } else {
                    assert(first_bound_for(all, d, n - 1) == first_bound_for(all, d, n));
                    assert(before[d as int] == departing_from(all, d, n));
                }
            }
        }
        assert(self.trains@ =~= Seq::<Train>::empty());
        assert(res@ =~= old(self)@.departures());
        res
    }

    /// Draws `conn` on the tile.
    pub fn add_connection(&mut self, conn: Connection)
        ensures
            final(self)@ == old(self)@.with_connection(conn),
    {
        self.passive_connection = self.active_connection;
        self.active_connection = Some(conn);
        if let Some(previous) = self.passive_connection {
            if conn == previous {
                self.passive_connection = None;
            }
        }
    }

    /// Removes the trains from the tile.
    pub fn clear_trains(&mut self)
        ensures
            final(self)@ == (TracktileView {
                active: old(self)@.active,
                passive: old(self)@.passive,
                trains: Seq::empty(),
            }),
    {
        self.trains = Vec::new();
    }

    /// Erases the connections of the tile.
    pub fn clear_connections(&mut self)
        ensures
            final(self)@ == (TracktileView {
                active: None,
                passive: None,
                trains: old(self)@.trains,
            }),
    {
        self.active_connection = None;
        self.passive_connection = None;
    }
}

impl ConnectionType {
    /// The letter that stands for a shape of track in a text rendering.
    pub open spec fn letter(self) -> char {
        match self {
            ConnectionType::Empty => '_',
            ConnectionType::S => 'S',
            ConnectionType::B => 'B',
            ConnectionType::H => 'H',
            ConnectionType::Z => 'Z',
            ConnectionType::M => 'M',
            ConnectionType::J => 'J',
        }
    }

    /// The letter that stands for the shape in a text rendering.
    pub fn get_char(&self) -> (c: char)
        ensures
            c == self.letter(),
    {
        match self {
            ConnectionType::Empty => '_',
            ConnectionType::S => 'S',
            ConnectionType::B => 'B',
            ConnectionType::H => 'H',
            ConnectionType::Z => 'Z',
            ConnectionType::M => 'M',
            ConnectionType::J => 'J',
        }
    }
}

} // verus!
