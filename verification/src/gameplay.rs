use vstd::prelude::*;
use crate::connection::Connection;
use crate::levels::{Level, LevelInfo, LevelManager, has_level_named, level_named, placements};
use crate::levels::placements_wf;
use crate::yard::{NextAction, Yard, YardState, YardView};

verus! {

/// The number of frames within which a second press on the yard counts as a
/// double click.
pub const DOUBLE_CLICK_THRESHOLD: u32 = 34;

/// What the pointer was pressed on in a frame.
#[derive(Copy, Clone, PartialEq, Eq, Debug, Structural)]
pub enum Press {
    /// The button that starts the trains, or takes the player back to the
    /// drawing board or on to the menu.
    StartTrains,
    /// The button that turns erasing on and off.
    Erase,
    /// The button that leads back to the menu.
    Back,
    /// The cell of the yard in row `r` and column `c`.
    Cell { r: usize, c: usize },
    /// Anything else.
    Elsewhere,
}

/// Where the pointer is held down on the yard: on the cell in row `r` and
/// column `c`, and close to the border `near` of that cell, if to any.
#[derive(Copy, Clone, PartialEq, Eq, Debug, Structural)]
pub struct Pen {
    pub r: usize,
    pub c: usize,
    pub near: Option<u8>,
}

/// A level being played: the yard, and what the controls remember from
/// frame to frame.
pub struct Gameplay {
    yard: Yard,
    prev_cell: Option<(usize, usize)>,
    prev_min_dir: Option<u8>,
    is_erasing: bool,
    frame_count: u32,
    last_click_time: u32,
}

/// The mathematical content of a level being played.
pub struct GameplayView {
    pub yard: YardView,
    /// The cell that the pen was on in the frame before.
    pub prev_cell: Option<(usize, usize)>,
    /// The border that the pen was last close to.
    pub prev_min_dir: Option<u8>,
    pub is_erasing: bool,
    pub frame_count: u32,
    pub last_click_time: u32,
}

impl Press {
    /// A pressed cell lies on the board.
    pub open spec fn wf(self) -> bool {
        self matches Press::Cell { r, c } ==> r < 7 && c < 7
    }
}

impl Pen {
    /// The cell lies on the board and the border is one of the four.
    pub open spec fn wf(self) -> bool {
        self.r < 7 && self.c < 7 && (self.near is Some ==> self.near.unwrap() < 4)
    }
}

/// The frame count after `count`: it starts over when it no longer fits.
pub open spec fn next_frame(count: u32) -> u32 {
    if count == u32::MAX {
        0
    } else {
        (count + 1) as u32
    }
}

/// The number of frames from frame `then` to frame `now`, counted the way
/// the frame count runs.
pub open spec fn frames_since(now: u32, then: u32) -> u32 {
    if now >= then {
        (now - then) as u32
    } else {
        (now + 0x1_0000_0000 - then) as u32
    }
}

impl GameplayView {
    /// The yard is well formed and a remembered border is one of the four.
    pub open spec fn wf(self) -> bool {
        self.yard.wf() && (self.prev_min_dir is Some ==> self.prev_min_dir.unwrap() < 4)
    }

    /// A press in this frame on the yard is the second press of a double click.
    pub open spec fn double_click(self) -> bool {
        frames_since(self.frame_count, self.last_click_time) < DOUBLE_CLICK_THRESHOLD
            && self.yard.state is Drawing
    }

    /// The yard after `press`. The start button sets the trains going from
    /// the drawing board and leads back to the drawing board from a running
    /// or crashed yard; a double click on a cell throws the switch there.
    pub open spec fn yard_after_press(self, press: Press) -> YardView {
        match press {
            Press::StartTrains => match self.yard.state {
                YardState::Drawing => YardView {
                    state: YardState::Playing { next_step: NextAction::ProcessTick },
                    ..self.yard
                },
                YardState::Won => self.yard,
                _ => self.yard.reset(),
            },
            Press::Cell { r, c } => if self.double_click() {
                self.yard.with_switch_thrown(r as int, c as int)
            } else {
                self.yard
            },
            _ => self.yard,
        }
    }

    /// The press leads back to the menu: the start button once the yard has
    /// won, or the back button while the yard is drawn on.
    pub open spec fn leaves(self, press: Press) -> bool {
        (press == Press::StartTrains && self.yard.state is Won) || (press == Press::Back
            && self.yard.state is Drawing)
    }

    /// The game after `press`.
    pub open spec fn pressed(self, press: Press) -> GameplayView {
        GameplayView {
            yard: self.yard_after_press(press),
            is_erasing: if self.yard.state is Drawing {
                match press {
                    Press::StartTrains => false,
                    Press::Erase => !self.is_erasing,
                    _ => self.is_erasing,
                }
            } else {
                self.is_erasing
            },
            last_click_time: if press is Cell && self.double_click() {
                self.last_click_time
            } else {
                self.frame_count
            },
            ..self
        }
    }

    /// The pen, on the cell it was on in the frame before, has come close to
    /// another border than the one it was last close to.
    pub open spec fn draws(self, pen: Pen) -> bool {
        self.prev_cell == Some((pen.r, pen.c)) && self.prev_min_dir is Some && pen.near is Some
            && self.prev_min_dir != pen.near
    }

    /// The game after the pen has been held where `pen` says, or lifted.
    /// While the yard is drawn on, a pen that goes from border to border of
    /// one cell draws the connection between the two, or, when erasing,
    /// erases the cell it is on.
    pub open spec fn penned(self, pen: Option<Pen>) -> GameplayView {
        if !(self.yard.state is Drawing) {
            self
        } else if self.is_erasing {
            match pen {
                Some(pen) => GameplayView {
                    yard: self.yard.with_cell_erased(pen.r as int, pen.c as int),
                    ..self
                },
                None => self,
            }
        } else {
            match pen {
                Some(pen) => GameplayView {
                    yard: if self.draws(pen) {
                        self.yard.with_connection(
                            pen.r as int,
                            pen.c as int,
                            Connection { dir1: self.prev_min_dir.unwrap(), dir2: pen.near.unwrap() },
                        )
                    } else {
                        self.yard
                    },
                    prev_cell: Some((pen.r, pen.c)),
                    prev_min_dir: if pen.near is Some {
                        pen.near
                    } else {
                        self.prev_min_dir
                    },
                    ..self
                },
                None => GameplayView { prev_cell: None, prev_min_dir: None, ..self },
            }
        }
    }

    /// The game after one frame: the press, if any, is handled, then the
    /// pen, then the yard is updated, and the frame is counted.
    pub open spec fn updated(self, press: Option<Press>, pen: Option<Pen>, phase_due: bool) -> GameplayView {
        let after_press = match press {
            Some(press) => self.pressed(press),
            None => self,
        };
        let after_pen = after_press.penned(pen);
        GameplayView {
            yard: after_pen.yard.updated(phase_due),
            frame_count: next_frame(self.frame_count),
            ..after_pen
        }
    }
}

impl View for Gameplay {
    type V = GameplayView;

    closed spec fn view(&self) -> GameplayView {
        GameplayView {
            yard: self.yard@,
            prev_cell: self.prev_cell,
            prev_min_dir: self.prev_min_dir,
            is_erasing: self.is_erasing,
            frame_count: self.frame_count,
            last_click_time: self.last_click_time,
        }
    }
}

impl Gameplay {
    /// The game that begins with the level named `Red Line`.
    pub fn new(level_manager: &LevelManager) -> (game: Gameplay)
        requires
            has_level_named(level_manager@, "Red Line"@),
            level_named(level_manager@, "Red Line"@).wf(),
        ensures
            game@ == (GameplayView {
                yard: YardView::made_from(
                    level_named(level_manager@, "Red Line"@).level_info,
                    level_named(level_manager@, "Red Line"@).current_progress,
                ),
                prev_cell: None,
                prev_min_dir: None,
                is_erasing: false,
                frame_count: 0,
                last_click_time: 0,
            }),
            game@.wf(),
    {
        Gameplay {
            yard: Yard::new(level_manager.get_level("Red Line")),
            prev_cell: None,
            prev_min_dir: None,
            is_erasing: false,
            frame_count: 0,
            last_click_time: 0,
        }
    }

    /// Handles a press of the pointer, and says whether it leads back to the menu.
    fn press(&mut self, press: Press) -> (leave: bool)
        requires
            old(self)@.wf(),
            press.wf(),
        ensures
            final(self)@ == old(self)@.pressed(press),
            leave == old(self)@.leaves(press),
            final(self)@.wf(),
    {
        let mut leave = false;
        let mut finished_double_click = false;
        match press {
            Press::StartTrains => {
                match self.yard.state() {
                    YardState::Crashed => {
                        self.yard.reset_self();
                    },
                    YardState::Drawing => {
                        self.is_erasing = false;
                        self.yard.start_trains();
                    },
                    YardState::Playing { .. } => {
                        self.yard.reset_self();
                    },
                    YardState::Won => {
                        leave = true;
                    },
                }
            },
            Press::Erase => {
                match self.yard.state() {
                    YardState::Drawing => {
                        self.is_erasing = !self.is_erasing;
                    },
                    _ => {},
                }
            },
            Press::Back => {
                if self.yard.state() == YardState::Drawing {
                    leave = true;
                }
            },
            Press::Cell { r, c } => {
                if self.frame_count.wrapping_sub(self.last_click_time) < DOUBLE_CLICK_THRESHOLD {
                    match self.yard.state() {
                        YardState::Drawing => {
                            self.yard.switch_connections(r, c);
                            finished_double_click = true;
                        },
                        _ => {},
                    }
                }
            },
            Press::Elsewhere => {},
        }
        if !finished_double_click {
            self.last_click_time = self.frame_count;
        }
        leave
    }

    /// Handles the pen held down on the yard, or lifted.
    fn pen(&mut self, pen: Option<Pen>)
        requires
            old(self)@.wf(),
            pen is Some ==> pen.unwrap().wf(),
        ensures
            final(self)@ == old(self)@.penned(pen),
            final(self)@.wf(),
    {
        if self.yard.state() == YardState::Drawing && !self.is_erasing {
            match pen {
                Some(pen) => {
                    if let Some(cell) = self.prev_cell {
                        if cell.0 == pen.r && cell.1 == pen.c {
                            if let Some(prev_min_dir) = self.prev_min_dir {
                                if let Some(min_dir) = pen.near {
                                    if prev_min_dir != min_dir {
                                        self.yard.add_connection(
                                            pen.r,
                                            pen.c,
                                            Connection { dir1: prev_min_dir, dir2: min_dir },
                                        );
                                    }
                                }
                            }
                        }
                    }
                    self.prev_cell = Some((pen.r, pen.c));
                    if pen.near.is_some() {
                        self.prev_min_dir = pen.near;
                    }
                },
                None => {
                    self.prev_cell = None;
                    self.prev_min_dir = None;
                },
            }
        } else if self.yard.state() == YardState::Drawing && self.is_erasing {
            if let Some(pen) = pen {
                self.yard.clear_connections(pen.r, pen.c);
            }
        }
    }

    /// Takes the game through one frame: `press` is what the pointer was
    /// pressed on in this frame, `pen` where it is held down on the yard, and
    /// `phase_due` whether the yard is due its next half step. Says whether
    /// the player leaves for the menu.
    pub fn update(&mut self, press: Option<Press>, pen: Option<Pen>, phase_due: bool) -> (leave: bool)
        requires
            old(self)@.wf(),
            press is Some ==> press.unwrap().wf(),
            pen is Some ==> pen.unwrap().wf(),
        ensures
            final(self)@ == old(self)@.updated(press, pen, phase_due),
            leave == (press is Some && old(self)@.leaves(press.unwrap())),
            final(self)@.wf(),
    {
        let leave = match press {
            Some(press) => self.press(press),
            None => false,
        };
        self.pen(pen);
        self.yard.update(phase_due);
        self.frame_count = self.frame_count.wrapping_add(1);
        leave
    }

    /// The state of the yard.
    pub fn get_state(&self) -> (state: YardState)
        ensures
            state == self@.yard.state,
    {
        self.yard.state()
    }

    /// The yard of the level being played.
    pub fn yard(&self) -> (yard: &Yard)
        ensures
            yard@ == self@.yard,
    {
        &self.yard
    }

    /// Whether the pen erases.
    pub fn is_erasing(&self) -> (erasing: bool)
        ensures
            erasing == self@.is_erasing,
    {
        self.is_erasing
    }

    /// Puts the yard of `level` in place of the yard that is being played.
    pub fn reset_yard_from_level(&mut self, level: &Level)
        requires
            level.wf(),
            old(self)@.wf(),
        ensures
            final(self)@ == (GameplayView {
                yard: YardView::made_from(level@.level_info, level@.current_progress),
                ..old(self)@
            }),
            final(self)@.wf(),
    {
        self.yard = Yard::new(level);
    }

    /// The track that the player has drawn, as it is saved with the level.
    pub fn get_current_progress(&self) -> (progress: LevelInfo)
        requires
            self@.wf(),
        ensures
            placements(progress@) == self@.yard.progress(49),
            placements_wf(placements(progress@)),
    {
        self.yard.get_current_progress()
    }
}

} // verus!
