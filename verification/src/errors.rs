use vstd::prelude::*;

verus! {

/// Failure to find a non-overlapping position for a new room.
#[derive(Debug)]
pub struct PlacementError {
    pub details: String,
}

impl PlacementError {
    pub fn new(msg: &str) -> (r: PlacementError)
        ensures
            r.details@ == msg@,
    {
        PlacementError { details: msg.to_owned() }
    }

    /// The failure message.
    pub fn message(&self) -> (r: &str)
        ensures
            r@ == self.details@,
    {
        self.details.as_str()
    }
}

} // verus!
