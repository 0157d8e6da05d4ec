use vstd::prelude::*;

verus! {

/// How long a request may run before it is abandoned.
pub struct RequestTimeout {
    pub timeout_secs: u64,
}

impl RequestTimeout {
    pub fn new(timeout_secs: u64) -> (r: RequestTimeout)
        ensures
            r.timeout_secs == timeout_secs,
    {
        RequestTimeout { timeout_secs }
    }
}

} // verus!
