//! Readiness of a pollable: the state of the future a guest waits on, and
//! what each poll of it reports.
use vstd::prelude::*;

verus! {

/// A pollable over some future: whether that future has finished.
///
/// While it has not, each poll first polls the future (outside, since it
/// is async work) and hands the outcome to [`AnyPollable::poll`].
pub struct AnyPollable {
    finished: bool,
}

impl View for AnyPollable {
    type V = bool;

    /// Whether the future has finished.
    closed spec fn view(&self) -> bool {
        self.finished
    }
}

/// What a poll reports, from whether the future had finished before and
/// whether it finished on this poll.
pub open spec fn poll_result(finished: bool, future_ready: bool) -> bool {
    finished || future_ready
}

impl AnyPollable {
    /// A pollable whose future has not finished yet.
    pub fn future() -> (p: Self)
        ensures
            !p@,
    {
        AnyPollable { finished: false }
    }

    /// Whether the future still has to be polled.
    pub fn is_pending(&self) -> (b: bool)
        ensures
            b == !self@,
    {
        !self.finished
    }

    /// Report readiness, given whether the future finished on this poll
    /// (ignored once it has finished): ready from then on.
    pub fn poll(&mut self, future_ready: bool) -> (ready: bool)
        ensures
            ready == poll_result(old(self)@, future_ready),
            final(self)@ == ready,
    {
        if self.finished {
            return true;
        }
        if future_ready {
            self.finished = true;
            return true;
        }
        false
    }
}

/// Once a poll has reported a pollable ready, every later poll reports it
/// ready, whatever its future does.
pub proof fn lemma_ready_stays_ready(finished: bool, first: bool, second: bool)
    requires
        poll_result(finished, first),
    ensures
        poll_result(poll_result(finished, first), second),
{
}

} // verus!
