//! One frame of an interactive session: what the user's input does to the
//! grid and to the pause state, decided apart from the window that collects
//! the input and shows the result.

use vstd::prelude::*;
use crate::grid::{GollyBuff, GridView};

verus! {

/// What the user asked for since the last frame.
#[derive(Debug, Clone, Copy, PartialEq, Eq)]
pub struct Controls {
    /// The column and row of the cell under the pressed mouse button.
    pub paint: Option<(usize, usize)>,
    /// Pause a running session, or run a paused one.
    pub toggle_pause: bool,
    /// Kill every cell.
    pub clear: bool,
    /// Leave the session.
    pub quit: bool,
    /// Advance one generation while paused.
    pub step: bool,
}

/// The frame rate that a session wants.
#[derive(Debug, Clone, Copy, PartialEq, Eq)]
pub enum Pace {
    /// The rate of a paused session, which only follows the input.
    Idle,
    /// The rate at which generations are to follow one another.
    Running,
}

/// What a frame leaves for the caller to act on.
#[derive(Debug, Clone, Copy, PartialEq, Eq)]
pub struct Outcome {
    /// Whether the session is paused after this frame.
    pub paused: bool,
    /// The frame rate to switch to, where the pause state changed.
    pub pace: Option<Pace>,
    /// Whether to leave without showing the grid again.
    pub quit: bool,
}

/// Whether the session is paused once the controls have been applied.
pub open spec fn paused_after(paused: bool, controls: Controls) -> bool {
    paused != controls.toggle_pause
}

/// What a frame reports back.
pub open spec fn outcome_of(paused: bool, controls: Controls) -> Outcome {
    Outcome {
        paused: paused_after(paused, controls),
        pace: if !controls.toggle_pause {
            None
        } else if paused_after(paused, controls) {
            Some(Pace::Idle)
        } else {
            Some(Pace::Running)
        },
        quit: controls.quit,
    }
}

impl GridView {
    /// The grid with the painted cell, if there is one, brought to life.
    pub open spec fn painted(self, paint: Option<(usize, usize)>) -> GridView {
        match paint {
            Some((x, y)) => self.with_cell(self.index_of(x as int, y as int), true),
            None => self,
        }
    }

    /// This grid, or its next generation where `advance` holds.
    pub open spec fn advanced_if(self, advance: bool, survive: Seq<bool>, born: Seq<bool>) -> GridView {
        if advance {
            self.classic_next(survive, born)
        } else {
            self
        }
    }

    /// The grid after one frame: the painted cell comes alive; a session that
    /// runs advances by a generation; a clear kills every cell; and, unless
    /// the user quits, a paused session advances by a generation on request.
    pub open spec fn after_frame(
        self,
        paused: bool,
        controls: Controls,
        survive: Seq<bool>,
        born: Seq<bool>,
    ) -> GridView {
        let pausing = paused_after(paused, controls);
        let run = self.painted(controls.paint).advanced_if(!pausing, survive, born);
        let kept = if controls.clear {
            GridView::blank(self.width, self.height)
        } else {
            run
        };
        kept.advanced_if(!controls.quit && pausing && controls.step, survive, born)
    }
}

/// Applies one frame's controls to the grid and says what the caller is to do
/// next.
pub fn frame(
    grid: &mut GollyBuff,
    paused: bool,
    controls: &Controls,
    survive_rule: &[bool; 9],
    born_rule: &[bool; 9],
) -> (outcome: Outcome)
    requires
        controls.paint matches Some((x, y)) ==> x < old(grid)@.width && y < old(grid)@.height,
    ensures
        final(grid)@ == old(grid)@.after_frame(paused, *controls, survive_rule@, born_rule@),
        outcome == outcome_of(paused, *controls),
{
    let mut paused = paused;
    let mut pace: Option<Pace> = None;
    match controls.paint {
        Some((x, y)) => {
            let pos = grid.xy_to_pos(x, y);
            grid.set_cell(pos, true);
        },
        None => {},
    }
    if controls.toggle_pause {
        paused = !paused;
        pace = if paused {
            Some(Pace::Idle)
        } else {
            Some(Pace::Running)
        };
    }
    if !paused {
        grid.classic_life(survive_rule, born_rule);
    }
    if controls.clear {
        grid.clear();
    }
    if !controls.quit && paused && controls.step {
        grid.classic_life(survive_rule, born_rule);
    }
    Outcome { paused, pace, quit: controls.quit }
}

} // verus!
