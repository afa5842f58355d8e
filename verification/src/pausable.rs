//! The pause switch.

use crate::contract::StatusMessage;
use crate::error::Error;
use crate::guard::require_not_paused;
use crate::model::State;
use vstd::prelude::*;

verus! {

/// Something that can be paused.  The methods are the bare switch: they ask
/// nothing of the caller, so a handler that offers them to the outside has to
/// consult the guard first, as [`StatusMessage::pub_toggle_pause`] does.
pub trait Pausable {
    /// Whether it is paused.
    spec fn paused(&self) -> bool;

    /// Pauses it if it is running, and lets it run if it is paused.
    fn toggle_pause(&mut self)
        ensures
            final(self).paused() == !old(self).paused(),
    ;

    /// Pauses it.
    fn pause(&mut self)
        ensures
            final(self).paused(),
    ;

    /// Lets it run.
    fn unpause(&mut self)
        ensures
            !final(self).paused(),
    ;

    /// Passes exactly when it is not paused, and fails with
    /// [`Error::Paused`] otherwise.
    fn when_not_paused(&self) -> (verdict: Result<(), Error>)
        ensures
            verdict.is_ok() <==> !self.paused(),
            verdict.is_err() ==> verdict == Err::<(), Error>(Error::Paused),
    ;
}

impl Pausable for StatusMessage {
    open spec fn paused(&self) -> bool {
        self@.paused
    }

    fn toggle_pause(&mut self)
        ensures
            final(self)@ == old(self)@.toggled(),
            final(self)@.valid(),
    {
        if !self.get_pause_status() {
            self.pause()
        } else {
            self.unpause()
        }
    }

    fn pause(&mut self)
        ensures
            final(self)@ == (State { paused: true, ..old(self)@ }),
            final(self)@.valid(),
    {
        self.set_pause_status(true);
    }

    fn unpause(&mut self)
        ensures
            final(self)@ == (State { paused: false, ..old(self)@ }),
            final(self)@.valid(),
    {
        self.set_pause_status(false);
    }

    fn when_not_paused(&self) -> (verdict: Result<(), Error>) {
        require_not_paused(self.get_pause_status())
    }
}

} // verus!
