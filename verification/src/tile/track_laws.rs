use vstd::prelude::*;
use crate::color::Color;
use crate::connection::{
    Connection, law_rotation_preserves_shape, lemma_rotated_in_range, turned,
};
use crate::tile::tracktile::{
    ConnectionType, TrackImage, TracktileView, Train, first_bound_for, first_heading, first_paired,
    colors_of, partner_of, repainted,
};

verus! {

/// The track made of `first` and, where given, `second`, both turned by `k`
/// quarter turns; each written with its ends in the other order where its
/// flag says so; `first` active and `second` passive, or the other way round
/// where `exchange` is set.
pub open spec fn arranged(
    first: Connection,
    second: Option<Connection>,
    k: u8,
    flip_first: bool,
    flip_second: bool,
    exchange: bool,
) -> TracktileView {
    let a = if flip_first {
        first.rotated(k).flipped()
    } else {
        first.rotated(k)
    };
    let p = match second {
        Some(s) => Some(
            if flip_second {
                s.rotated(k).flipped()
            } else {
                s.rotated(k)
            },
        ),
        None => None,
    };
    if exchange && p is Some {
        TracktileView { active: p, passive: Some(a), trains: Seq::empty() }
    } else {
        TracktileView { active: Some(a), passive: p, trains: Seq::empty() }
    }
}

/// A tile without an active connection has the empty shape.
pub proof fn law_no_track_is_empty(tile: TracktileView)
    requires
        tile.active is None,
    ensures
        tile.kind() == ConnectionType::Empty,
{
}

/// Each pattern of track has its shape however it is turned, in whichever
/// order the ends of its connections are written, and whichever of two
/// connections is the active one: a line across is S, a bend is B, two lines
/// across are H, two bends apart are Z, two bends that share a border are M,
/// and a line across with a bend off it, to either side, is J.
pub proof fn law_shapes_by_pattern(k: u8, flip_first: bool, flip_second: bool, exchange: bool)
    ensures
        arranged(Connection { dir1: 0, dir2: 2 }, None, k, flip_first, flip_second, exchange).kind()
            == ConnectionType::S,
        arranged(Connection { dir1: 0, dir2: 1 }, None, k, flip_first, flip_second, exchange).kind()
            == ConnectionType::B,
        arranged(
            Connection { dir1: 0, dir2: 2 },
            Some(Connection { dir1: 1, dir2: 3 }),
            k,
            flip_first,
            flip_second,
            exchange,
        ).kind() == ConnectionType::H,
        arranged(
            Connection { dir1: 0, dir2: 1 },
            Some(Connection { dir1: 2, dir2: 3 }),
            k,
            flip_first,
            flip_second,
            exchange,
        ).kind() == ConnectionType::Z,
        arranged(
            Connection { dir1: 0, dir2: 1 },
            Some(Connection { dir1: 1, dir2: 2 }),
            k,
            flip_first,
            flip_second,
            exchange,
        ).kind() == ConnectionType::M,
        arranged(
            Connection { dir1: 0, dir2: 1 },
            Some(Connection { dir1: 0, dir2: 2 }),
            k,
            flip_first,
            flip_second,
            exchange,
        ).kind() == ConnectionType::J,
        arranged(
            Connection { dir1: 0, dir2: 3 },
            Some(Connection { dir1: 0, dir2: 2 }),
            k,
            flip_first,
            flip_second,
            exchange,
        ).kind() == ConnectionType::J,
{
    reveal(turned);
    lemma_rotated_in_range(Connection { dir1: 0, dir2: 2 }, k);
    lemma_rotated_in_range(Connection { dir1: 0, dir2: 1 }, k);
    lemma_rotated_in_range(Connection { dir1: 1, dir2: 3 }, k);
    lemma_rotated_in_range(Connection { dir1: 2, dir2: 3 }, k);
    lemma_rotated_in_range(Connection { dir1: 1, dir2: 2 }, k);
    lemma_rotated_in_range(Connection { dir1: 0, dir2: 3 }, k);
}

/// The shape of well-formed track, told from the connections themselves: one
/// connection is S if it runs straight across and B if it bends; two straight
/// connections are H; two bends are Z if they share no border and M if they
/// share one; a straight connection with a bend is J.
pub proof fn law_shape_by_geometry(tile: TracktileView)
    requires
        tile.geometry_wf(),
        tile.active is Some,
    ensures
        tile.passive is None ==> tile.kind() == (if tile.active.unwrap().straight() {
            ConnectionType::S
        } else {
            ConnectionType::B
        }),
        tile.passive is Some ==> tile.kind() == (if tile.active.unwrap().straight()
            && tile.passive.unwrap().straight() {
            ConnectionType::H
        } else if tile.active.unwrap().straight() || tile.passive.unwrap().straight() {
            ConnectionType::J
        } else if tile.active.unwrap().touches(tile.passive.unwrap()) {
            ConnectionType::M
        } else {
            ConnectionType::Z
        }),
{
    reveal(turned);
}

/// Where the search for a train from `source` to `destination` ends: on the
/// first such train at or after `from`, or past the last train if there is none.
pub proof fn lemma_first_heading(trains: Seq<Train>, source: u8, destination: u8, from: int)
    requires
        0 <= from <= trains.len(),
    ensures
        from <= first_heading(trains, source, destination, from) <= trains.len(),
        first_heading(trains, source, destination, from) < trains.len() ==> {
            let t = trains[first_heading(trains, source, destination, from)];
            t.source == source && t.destination == destination
        },
        forall|j: int|
            from <= j < first_heading(trains, source, destination, from) ==> !((
            #[trigger] trains[j]).source == source && trains[j].destination == destination),
    decreases trains.len() - from,
{
    if from < trains.len() && !(trains[from].source == source && trains[from].destination
        == destination) {
        lemma_first_heading(trains, source, destination, from + 1);
    }
}

/// Where the search for a train that shares its exit with train `i` ends.
pub proof fn lemma_partner_of(trains: Seq<Train>, i: int, from: int)
    requires
        0 <= from <= trains.len(),
    ensures
        from <= partner_of(trains, i, from) <= trains.len(),
        partner_of(trains, i, from) < trains.len() ==> partner_of(trains, i, from) != i
            && trains[partner_of(trains, i, from)].destination == trains[i].destination,
        forall|j: int|
            from <= j < partner_of(trains, i, from) ==> j == i || (#[trigger] trains[j]).destination
                != trains[i].destination,
    decreases trains.len() - from,
{
    if from < trains.len() && !(from != i && trains[from].destination == trains[i].destination) {
        lemma_partner_of(trains, i, from + 1);
    }
}

/// Where the search for a train that shares its exit with any other ends.
pub proof fn lemma_first_paired(trains: Seq<Train>, from: int)
    requires
        0 <= from <= trains.len(),
    ensures
        from <= first_paired(trains, from) <= trains.len(),
        first_paired(trains, from) < trains.len() ==> partner_of(
            trains,
            first_paired(trains, from),
            0,
        ) < trains.len(),
        forall|j: int|
            from <= j < first_paired(trains, from) ==> #[trigger] partner_of(trains, j, 0)
                == trains.len(),
    decreases trains.len() - from,
{
    if from < trains.len() && !(partner_of(trains, from, 0) < trains.len()) {
        lemma_partner_of(trains, from, 0);
        lemma_first_paired(trains, from + 1);
    }
}

/// Where the search for a train that leaves over `dir` ends.
pub proof fn lemma_first_bound_for(trains: Seq<Train>, dir: u8, from: int)
    requires
        0 <= from <= trains.len(),
    ensures
        from <= first_bound_for(trains, dir, from) <= trains.len(),
        first_bound_for(trains, dir, from) < trains.len() ==> trains[first_bound_for(
            trains,
            dir,
            from,
        )].destination == dir,
        forall|j: int|
            from <= j < first_bound_for(trains, dir, from) ==> (#[trigger] trains[j]).destination
                != dir,
    decreases trains.len() - from,
{
    if from < trains.len() && trains[from].destination != dir {
        lemma_first_bound_for(trains, dir, from + 1);
    }
}

/// A train that arrives at a border where no track ends is turned away, and
/// one that arrives where track ends is not, whatever arrives at the other
/// borders; what is turned away is not taken in.
pub proof fn law_border_without_track_rejects(
    tile: TracktileView,
    colors: Seq<Option<Color>>,
    dir: u8,
)
    requires
        colors.len() == 4,
        dir < 4,
    ensures
        !tile.has_any(dir) ==> tile.rejects(colors)[dir as int] == colors[dir as int],
        tile.has_any(dir) ==> tile.rejects(colors)[dir as int] is None,
        !tile.has_any(dir) ==> tile.accept_one(dir, colors[dir as int]) == tile,
{
}

/// Taking in one train keeps the track and the trains already held, and adds
/// at most the one train, routed from its entry.
pub proof fn lemma_accept_one(tile: TracktileView, dir: u8, train: Option<Color>)
    requires
        tile.wf(),
        dir < 4,
    ensures
        tile.accept_one(dir, train).wf(),
        tile.accept_one(dir, train).active == tile.active,
        tile.accept_one(dir, train).passive == tile.passive,
        (tile.routed() && forall|i: int|
            0 <= i < tile.trains.len() ==> (#[trigger] tile.trains[i]).source < dir)
            ==> tile.accept_one(dir, train).routed() && forall|i: int|
            0 <= i < tile.accept_one(dir, train).trains.len() ==> (#[trigger] tile.accept_one(
                dir,
                train,
            ).trains[i]).source <= dir,
{
}

/// Taking in trains keeps a tile well formed and its track unchanged; a tile
/// that held no train then holds its trains as they were taken in.
pub proof fn law_accept_keeps_order(tile: TracktileView, colors: Seq<Option<Color>>)
    requires
        tile.wf(),
        colors.len() == 4,
    ensures
        tile.accept(colors).wf(),
        tile.accept(colors).active == tile.active,
        tile.accept(colors).passive == tile.passive,
        tile.trains.len() == 0 ==> tile.accept(colors).routed(),
{
    let t1 = tile.accept_one(0, colors[0]);
    let t2 = t1.accept_one(1, colors[1]);
    let t3 = t2.accept_one(2, colors[2]);
    lemma_accept_one(tile, 0, colors[0]);
    lemma_accept_one(t1, 1, colors[1]);
    lemma_accept_one(t2, 2, colors[2]);
    lemma_accept_one(t3, 3, colors[3]);
}

/// Mixing along a connection changes colors only.
pub proof fn lemma_mix_along(tile: TracktileView, c: Connection)
    ensures
        tile.mix_along(c).active == tile.active,
        tile.mix_along(c).passive == tile.passive,
        tile.mix_along(c).trains.len() == tile.trains.len(),
        forall|i: int|
            0 <= i < tile.trains.len() ==> (#[trigger] tile.mix_along(c).trains[i]).source
                == tile.trains[i].source && tile.mix_along(c).trains[i].destination
                == tile.trains[i].destination,
{
    lemma_first_heading(tile.trains, c.dir1, c.dir2, 0);
    lemma_first_heading(tile.trains, c.dir2, c.dir1, 0);
}

/// Mid-tile mixing changes colors only: the track, the number of trains, and
/// where each train comes from and goes to stay as they were.
pub proof fn law_tick_changes_colors_only(tile: TracktileView)
    ensures
        tile.tick().active == tile.active,
        tile.tick().passive == tile.passive,
        tile.tick().trains.len() == tile.trains.len(),
        forall|i: int|
            0 <= i < tile.trains.len() ==> (#[trigger] tile.tick().trains[i]).source
                == tile.trains[i].source && tile.tick().trains[i].destination
                == tile.trains[i].destination,
        tile.wf() ==> tile.tick().wf(),
        tile.routed() ==> tile.tick().routed(),
{
    if tile.active is Some {
        lemma_mix_along(tile, tile.active.unwrap());
        if tile.passive is Some {
            lemma_mix_along(tile.mix_along(tile.active.unwrap()), tile.passive.unwrap());
        }
    }
    let after = tile.tick();
    assert forall|i: int| 0 <= i < tile.trains.len() implies (#[trigger] after.trains[i]).source
        == tile.trains[i].source && after.trains[i].destination == tile.trains[i].destination by {}
    if tile.wf() {
        assert forall|i: int| 0 <= i < after.trains.len() implies (#[trigger] after.trains[i]).source
            < 4 && after.trains[i].destination < 4 by {
            assert(tile.trains[i].source < 4);
        }
    }
    if tile.routed() {
        assert forall|i: int| 0 <= i < after.trains.len() implies after.has_any(
            (#[trigger] after.trains[i]).source,
        ) && after.trains[i].destination == after.route(after.trains[i].source) by {
            assert(tile.has_any(tile.trains[i].source));
        }
        assert forall|i: int, j: int| 0 <= i < j < after.trains.len() implies (
        #[trigger] after.trains[i]).source != (#[trigger] after.trains[j]).source by {
            assert(tile.trains[i].source != tile.trains[j].source);
        }
    }
}

/// On well-formed track two different entries lead to one exit only on a
/// switching shape, and there only for one pair of entries.
pub proof fn lemma_shared_exit(tile: TracktileView, x: u8, y: u8, z: u8, w: u8)
    requires
        tile.geometry_wf(),
        x < 4 && y < 4 && z < 4 && w < 4,
        tile.has_any(x) && tile.has_any(y) && tile.has_any(z) && tile.has_any(w),
        x != y && tile.route(x) == tile.route(y),
        z != w && tile.route(z) == tile.route(w),
    ensures
        (x == z && y == w) || (x == w && y == z),
        tile.kind() == ConnectionType::J || tile.kind() == ConnectionType::M,
{
    if tile.active is Some {
        law_shape_by_geometry(tile);
    }
}

/// Trains held as they were taken in leave over different borders, unless the
/// track is a switch and some train shares its exit with another.
pub proof fn lemma_exits_distinct_unless_paired(tile: TracktileView)
    requires
        tile.wf(),
        tile.routed(),
        tile.settled_mid_tile() || tile.kind() == ConnectionType::Empty || first_paired(
            tile.trains,
            0,
        ) >= tile.trains.len(),
    ensures
        tile.exits_distinct(),
{
    let s = tile.trains;
    assert forall|i: int, j: int| 0 <= i < j < s.len() implies (#[trigger] s[i]).destination != (
    #[trigger] s[j]).destination by {
        if s[i].destination == s[j].destination {
            lemma_shared_exit(tile, s[i].source, s[j].source, s[i].source, s[j].source);
            lemma_first_paired(s, 0);
            assert(partner_of(s, i, 0) == s.len());
            lemma_partner_of(s, i, 0);
        }
    }
}

/// Merging at the exits leaves every train with an exit of its own.
pub proof fn lemma_merge_exits(tile: TracktileView)
    requires
        tile.wf(),
        tile.routed(),
    ensures
        tile.merge_exits().wf(),
        tile.merge_exits().exits_distinct(),
        tile.merge_exits().active == tile.active,
        tile.merge_exits().passive == tile.passive,
        tile.merge_exits().trains.len() <= tile.trains.len(),
{
    let s = tile.trains;
    let i1 = first_paired(s, 0);
    lemma_first_paired(s, 0);
    if i1 < s.len() {
        let i2 = partner_of(s, i1, 0);
        lemma_partner_of(s, i1, 0);
        let after = tile.merge_exits().trains;
        assert(after.len() == s.len() - 1);
        assert forall|m: int| 0 <= m < after.len() implies (#[trigger] after[m]).source == s[if m
            < i2 {
            m
        } else {
            m + 1
        }].source && after[m].destination == s[if m < i2 {
            m
        } else {
            m + 1
        }].destination by {}
        assert forall|m: int, n: int| 0 <= m < n < after.len() implies (#[trigger] after[m]).destination
            != (#[trigger] after[n]).destination by {
            let mo = if m < i2 {
                m
            } else {
                m + 1
            };
            let no = if n < i2 {
                n
            } else {
                n + 1
            };
            if after[m].destination == after[n].destination {
                assert(s[mo].source != s[no].source);
                assert(s[i1].source != s[i2].source);
                lemma_shared_exit(tile, s[mo].source, s[no].source, s[i1].source, s[i2].source);
                assert(s[mo].source != s[i2].source);
                assert(s[no].source != s[i2].source);
            }
        }
        assert forall|m: int| 0 <= m < after.len() implies (#[trigger] after[m]).source < 4
            && after[m].destination < 4 by {
            let mo = if m < i2 {
                m
            } else {
                m + 1
            };
            assert(s[mo].source < 4);
        }
    } else {
        lemma_exits_distinct_unless_paired(tile);
    }
}

/// Whatever trains a well-formed track tile has taken in, once they reach the
/// exits no two of them are left to leave over the same border: the two that
/// a switch leads to one exit have merged into one.
pub proof fn law_exits_cleared_at_end_of_tick(tile: TracktileView)
    requires
        tile.wf(),
        tile.routed(),
    ensures
        tile.end_of_tick().wf(),
        tile.end_of_tick().exits_distinct(),
        tile.end_of_tick().trains.len() <= tile.trains.len(),
{
    let merged = if tile.trains.len() >= 2 && !tile.settled_mid_tile() {
        tile.merge_exits()
    } else {
        tile
    };
    if tile.trains.len() >= 2 && !tile.settled_mid_tile() {
        lemma_merge_exits(tile);
        lemma_first_paired(tile.trains, 0);
    } else if tile.trains.len() >= 2 {
        lemma_exits_distinct_unless_paired(tile);
    }
    assert(merged.exits_distinct());
    assert(merged.wf());
}

/// On a single line or a crossing, two or more trains in the tile all take
/// the mix of all their colors; two trains take the mix of the two.
pub proof fn law_trains_on_a_line_mix(tile: TracktileView, i: int)
    requires
        tile.kind() == ConnectionType::H || tile.kind() == ConnectionType::S || tile.kind()
            == ConnectionType::B,
        tile.trains.len() >= 2,
        0 <= i < tile.trains.len(),
    ensures
        tile.tick().trains[i].color == Color::mix_all(colors_of(tile.trains)),
        tile.trains.len() == 2 ==> tile.tick().trains[i].color == tile.trains[0].color.mix(
            tile.trains[1].color,
        ),
{
    assert(repainted(tile.trains, Color::mix_all(colors_of(tile.trains)))[i].color
        == Color::mix_all(colors_of(tile.trains)));
}

/// Where no two trains share an exit, every train leaves over its own exit
/// in its own color, and nothing leaves over a border that no train heads for.
pub proof fn law_every_train_departs(tile: TracktileView, i: int, dir: u8)
    requires
        tile.exits_distinct(),
        0 <= i < tile.trains.len(),
    ensures
        tile.departing(tile.trains[i].destination) == Some(tile.trains[i].color),
        (forall|j: int| 0 <= j < tile.trains.len() ==> (#[trigger] tile.trains[j]).destination
            != dir) ==> tile.departing(dir) is None,
{
    let d = tile.trains[i].destination;
    lemma_first_bound_for(tile.trains, d, 0);
    let f = first_bound_for(tile.trains, d, 0);
    assert(f <= i);
    if f < i {
        assert(tile.trains[f].destination != tile.trains[i].destination);
    }
    lemma_first_bound_for(tile.trains, dir, 0);
}

/// Well-formed track always has a picture that fits: the rotation found for
/// it is one of the four quarter turns, never the mark for none, and the
/// picture is blank exactly where there is no track.
pub proof fn law_sprite_fits(tile: TracktileView)
    requires
        tile.geometry_wf(),
    ensures
        0 <= tile.sprite().rot < 4,
        tile.sprite().image == TrackImage::Blank <==> tile.kind() == ConnectionType::Empty,
{
    reveal(turned);
    if tile.active is Some {
        law_shape_by_geometry(tile);
    }
}

/// The track of `tile`, turned clockwise by `k` quarter turns.
pub open spec fn turned_track(tile: TracktileView, k: u8) -> TracktileView {
    TracktileView {
        active: match tile.active {
            Some(a) => Some(a.rotated(k)),
            None => None,
        },
        passive: match tile.passive {
            Some(p) => Some(p.rotated(k)),
            None => None,
        },
        trains: Seq::empty(),
    }
}

/// Turning well-formed track leaves it well formed and of the same shape.
pub proof fn law_shape_survives_rotation(tile: TracktileView, k: u8)
    requires
        tile.geometry_wf(),
    ensures
        turned_track(tile, k).geometry_wf(),
        turned_track(tile, k).kind() == tile.kind(),
{
    let after = turned_track(tile, k);
    if tile.active is Some {
        let a = tile.active.unwrap();
        lemma_rotated_in_range(a, k);
        law_rotation_preserves_shape(a, k, 0);
        if tile.passive is Some {
            let p = tile.passive.unwrap();
            lemma_rotated_in_range(p, k);
            law_rotation_preserves_shape(p, k, 0);
            assert(a.rotated(k).same(p.rotated(k)) == a.same(p));
            assert(a.rotated(k).touches(p.rotated(k)) == a.touches(p));
        }
        law_shape_by_geometry(tile);
        law_shape_by_geometry(after);
    } else if tile.passive is Some {
        lemma_rotated_in_range(tile.passive.unwrap(), k);
        law_rotation_preserves_shape(tile.passive.unwrap(), k, 0);
    }
}

} // verus!
