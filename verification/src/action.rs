use vstd::prelude::*;

use crate::error::Error;
use crate::machine::Effect;

verus! {

/// What the driver has to do for the collaborators after a step, before it
/// steps again.
#[derive(Debug, PartialEq, Eq)]
pub enum Action {
    /// Nothing: the instruction was completed inside the machine.
    Continue,
    /// Clear the display.
    ClearDisplay,
    /// Draw the sprite `rows`, one byte a row, at `(x, y)`, and report back
    /// with `Emulator::report_collision` whether that erased a pixel.
    Draw { x: u8, y: u8, rows: Vec<u8> },
    /// The machine is blocked on a key press: update the keys with
    /// `Emulator::set_keys` and step again.
    WaitKey,
}

impl Clone for Action {
    /// A second action that says the same.
    fn clone(&self) -> (copy: Self)
        ensures
            copy@ == self@,
    {
        match self {
            Action::Continue => Action::Continue,
            Action::ClearDisplay => Action::ClearDisplay,
            Action::Draw { x, y, rows } => Action::Draw { x: *x, y: *y, rows: rows.clone() },
            Action::WaitKey => Action::WaitKey,
        }
    }
}

impl View for Action {
    type V = Effect;

    open spec fn view(&self) -> Effect {
        match *self {
            Action::Continue => Effect::Continue,
            Action::ClearDisplay => Effect::ClearDisplay,
            Action::Draw { x, y, rows } => Effect::Draw { x, y, rows: rows@ },
            Action::WaitKey => Effect::WaitKey,
        }
    }
}

/// The mathematical counterpart of what a step returns.
pub open spec fn result_view(result: Result<Action, Error>) -> Result<Effect, Error> {
    match result {
        Ok(action) => Ok(action@),
        Err(error) => Err(error),
    }
}

} // verus!
