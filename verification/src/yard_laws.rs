use vstd::prelude::*;
use crate::tile::tracktile::ConnectionType;
use crate::tile::TileView;
use crate::yard::{NextAction, YardState, YardView, step_after};

verus! {

/// A train that a tile of the top row sends up, a tile of the bottom row
/// down, a tile of the first column left or a tile of the last column right
/// leaves the board, and the yard has crashed after that edges half step.
pub proof fn law_leaving_the_board_crashes(yard: YardView, k: int)
    requires
        yard.sized(),
        0 <= k < 7,
        yard.leaving(k)[0] is Some || yard.leaving(42 + k)[2] is Some || yard.leaving(7 * k)[3]
            is Some || yard.leaving(7 * k + 6)[1] is Some,
    ensures
        yard.after_edges().state == YardState::Crashed,
{
    if yard.leaving(k)[0] is Some {
        assert(yard.h_loaded(k).train_to_a is Some);
        assert(yard.leaves_column(k));
    } else if yard.leaving(42 + k)[2] is Some {
        assert(yard.h_loaded(49 + k).train_to_b is Some);
        assert(yard.leaves_column(k));
    } else if yard.leaving(7 * k)[3] is Some {
        assert((8 * k) % 8 == 0 && (8 * k) / 8 == k);
        assert(yard.v_loaded(k * 8).train_to_a is Some);
        assert(yard.leaves_row(k));
    } else {
        assert((8 * k + 7) % 8 == 7 && (8 * k + 7) / 8 == k);
        assert(yard.v_loaded(k * 8 + 7).train_to_b is Some);
        assert(yard.leaves_row(k));
    }
}

/// A train on an edge at the rim of the board that heads outward after the
/// trains on the edges have met makes the yard crash.
pub proof fn law_train_on_the_rim_crashes(yard: YardView, k: int)
    requires
        0 <= k < 7,
        yard.h_met(k).train_to_a is Some || yard.h_met(49 + k).train_to_b is Some || yard.v_met(
            k * 8,
        ).train_to_a is Some || yard.v_met(k * 8 + 7).train_to_b is Some,
    ensures
        yard.after_edges().state == YardState::Crashed,
{
    if yard.h_met(k).train_to_a is Some || yard.h_met(49 + k).train_to_b is Some {
        assert(yard.leaves_column(k));
    } else {
        assert(yard.leaves_row(k));
    }
}

/// A train that arrives at a tile that turns it away makes the yard crash.
pub proof fn law_turned_away_crashes(yard: YardView, i: int, dir: int)
    requires
        0 <= i < 49,
        0 <= dir < 4,
        yard.at_exits(i).dispatched().rejects(yard.arriving(i))[dir] is Some,
    ensures
        yard.after_edges().state == YardState::Crashed,
{
    assert(yard.turned_away_at(i));
}

/// The edges half step changes the state of the yard only by a crash: where
/// no train leaves the board and none is turned away, the state stays.
pub proof fn law_edges_step_crashes_or_keeps_state(yard: YardView)
    ensures
        yard.after_edges().state == YardState::Crashed || yard.after_edges().state == yard.state,
        !yard.leaves_board() && !yard.turned_away() ==> yard.after_edges().state == yard.state,
        yard.after_edges().drawn_tiles == yard.drawn_tiles,
        yard.after_edges().level_info == yard.level_info,
{
}

/// The tick half step changes the state of the yard only by success, and
/// moves no train on an edge.
pub proof fn law_tick_step_wins_or_keeps_state(yard: YardView)
    ensures
        yard.ticked().state == YardState::Won || yard.ticked().state == yard.state,
        yard.ticked().h_edges == yard.h_edges,
        yard.ticked().v_edges == yard.v_edges,
        yard.ticked().drawn_tiles == yard.drawn_tiles,
        yard.ticked().level_info == yard.level_info,
{
}

/// A running yard takes its two half steps in turn until it crashes or wins,
/// and a frame in which no half step is due changes nothing.
pub proof fn law_half_steps_alternate(yard: YardView, next_step: NextAction)
    requires
        yard.state == (YardState::Playing { next_step }),
    ensures
        yard.updated(false) == yard,
        yard.updated(true).state == YardState::Crashed || yard.updated(true).state
            == YardState::Won || yard.updated(true).state == (YardState::Playing {
            next_step: step_after(next_step),
        }),
        step_after(step_after(next_step)) == next_step,
        next_step == NextAction::ProcessEdges ==> yard.updated(true).state != YardState::Won,
        next_step == NextAction::ProcessTick ==> yard.updated(true).state != YardState::Crashed,
{
}

/// A yard that is drawn on or has won stays as it is from frame to frame, and
/// a crashed yard stays crashed: only its sinks still tick.
pub proof fn law_stopped_yard_stays_stopped(yard: YardView, phase_due: bool)
    requires
        yard.sized(),
    ensures
        yard.state == YardState::Drawing || yard.state == YardState::Won ==> yard.updated(phase_due)
            == yard,
        yard.state == YardState::Crashed ==> yard.updated(phase_due).state == YardState::Crashed
            && yard.updated(phase_due).h_edges == yard.h_edges && yard.updated(phase_due).v_edges
            == yard.v_edges && forall|i: int|
            0 <= i < 49 && !(#[trigger] yard.tiles[i] is Trainsink) ==> yard.updated(
                phase_due,
            ).tiles[i] == yard.tiles[i],
{
}

/// Drawing changes one cell only, never the kind of a tile, and never a tile
/// that is not track.
pub proof fn law_drawing_touches_one_track_tile(
    yard: YardView,
    r: int,
    c: int,
    conn: crate::connection::Connection,
    i: int,
)
    requires
        yard.sized(),
        0 <= r < 7,
        0 <= c < 7,
        0 <= i < 49,
    ensures
        i != 7 * r + c ==> yard.with_connection(r, c, conn).tiles[i] == yard.tiles[i]
            && yard.with_switch_thrown(r, c).tiles[i] == yard.tiles[i] && yard.with_cell_erased(
            r,
            c,
        ).tiles[i] == yard.tiles[i],
        !(yard.tiles[i] is Tracktile) ==> yard.with_connection(r, c, conn).tiles[i] == yard.tiles[i]
            && yard.with_switch_thrown(r, c).tiles[i] == yard.tiles[i] && yard.with_cell_erased(
            r,
            c,
        ).tiles[i] == yard.tiles[i],
        yard.with_connection(r, c, conn).tiles[i] is Tracktile == yard.tiles[i] is Tracktile,
        yard.with_switch_thrown(r, c).tiles[i] is Tracktile == yard.tiles[i] is Tracktile,
        yard.with_cell_erased(r, c).tiles[i] is Tracktile == yard.tiles[i] is Tracktile,
{
}

/// Resetting a yard keeps the record of the drawn track and the level, lays
/// the drawn track on every cell that has any, and leaves no train on an
/// edge or in flight on track.
pub proof fn law_reset_restores_drawn_track(yard: YardView, i: int)
    requires
        yard.wf(),
        0 <= i < 49,
    ensures
        yard.reset().state == YardState::Drawing,
        yard.reset().drawn_tiles == yard.drawn_tiles,
        yard.reset().level_info == yard.level_info,
        yard.drawn_tiles[i].kind() != ConnectionType::Empty ==> yard.reset().tiles[i]
            == TileView::Tracktile(yard.drawn_tiles[i]),
        yard.reset().tiles[i].at_rest(),
        forall|e: int| 0 <= e < 56 ==> (#[trigger] yard.reset().h_edges[e]).empty(),
        forall|e: int| 0 <= e < 56 ==> (#[trigger] yard.reset().v_edges[e]).empty(),
{
    crate::yard::lemma_reset_wf(yard);
    assert(yard.reset().tiles[i].at_rest());
}

/// The saved progress of a yard holds track only: every placement is a track
/// tile with at least one connection, without trains, on a cell of the board.
pub proof fn law_progress_is_track_only(yard: YardView, n: int, k: int)
    requires
        yard.wf(),
        0 <= n <= 49,
        0 <= k < yard.progress(n).len(),
    ensures
        yard.progress(n).len() <= n,
        yard.progress(n)[k].tile is Tracktile,
        yard.progress(n)[k].tile->Tracktile_0.kind() != ConnectionType::Empty,
        yard.progress(n)[k].tile->Tracktile_0.trains.len() == 0,
        yard.progress(n)[k].x < 7 && yard.progress(n)[k].y < 7,
        yard.progress(n)[k].tile == TileView::Tracktile(
            yard.drawn_tiles[7 * yard.progress(n)[k].y + yard.progress(n)[k].x],
        ),
    decreases n,
{
    if n > 0 {
        lemma_progress_len(yard, n - 1);
        if k < yard.progress(n - 1).len() {
            law_progress_is_track_only(yard, n - 1, k);
        } else {
            assert(yard.drawn_tiles[n - 1].wf());
        }
    }
}

/// The saved progress of the first `n` cells has at most `n` placements.
pub proof fn lemma_progress_len(yard: YardView, n: int)
    requires
        0 <= n,
    ensures
        yard.progress(n).len() <= n,
    decreases n,
{
    if n > 0 {
        lemma_progress_len(yard, n - 1);
    }
}

} // verus!
