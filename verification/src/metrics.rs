//! Labels and bookkeeping behind the HTTP request metrics.
use vstd::prelude::*;

verus! {

/// The `Nxx` class label of a numeric HTTP status.
pub open spec fn spec_status_class(status: u16) -> Seq<char> {
    let class = status / 100;
    if class == 1 {
        "1xx"@
    } else if class == 2 {
        "2xx"@
    } else if class == 3 {
        "3xx"@
    } else if class == 4 {
        "4xx"@
    } else if class == 5 {
        "5xx"@
    } else {
        "other"@
    }
}

/// Maps a numeric HTTP status code to its `Nxx` status class (`other` outside
/// `100..=599`).
pub fn status_class(status: u16) -> (res: &'static str)
    ensures
        res@ == spec_status_class(status),
{
    let class = status / 100;
    if class == 1 {
        "1xx"
    } else if class == 2 {
        "2xx"
    } else if class == 3 {
        "3xx"
    } else if class == 4 {
        "4xx"
    } else if class == 5 {
        "5xx"
    } else {
        "other"
    }
}

/// Finishing a request that was (or was not) finished already: the new
/// state, and whether the gauge must be decremented now.
pub open spec fn finish_step(finished: bool) -> (bool, bool) {
    (true, !finished)
}

/// Tracks one in-flight request: the in-flight gauge goes up when it starts
/// and must come down exactly once.
pub struct InFlightRequest {
    finished: bool,
}

impl InFlightRequest {
    /// Whether the gauge has already been decremented for this request.
    pub closed spec fn is_finished(&self) -> bool {
        self.finished
    }

    /// Records a request start; the caller increments the gauge.
    pub fn start() -> (res: Self)
        ensures
            !res.is_finished(),
    {
        InFlightRequest { finished: false }
    }

    /// Marks the request finished. Returns whether the caller must decrement
    /// the gauge now: only on the first call.
    pub fn finish(&mut self) -> (decrement: bool)
        ensures
            (final(self).is_finished(), decrement) == finish_step(old(self).is_finished()),
    {
        let decrement = !self.finished;
        self.finished = true;
        decrement
    }

    /// Whether the request was never finished (a guard dropped early still
    /// owes one decrement).
    pub fn is_pending(&self) -> (res: bool)
        ensures
            res == !self.is_finished(),
    {
        !self.finished
    }
}

} // verus!
