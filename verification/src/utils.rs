//! Answers that several handlers give.

use vstd::prelude::*;
use vstd::string::*;

verus! {

/// The status of a redirect that is to be followed with a `GET`.
pub const STATUS_SEE_OTHER: u16 = 303;

/// A redirect: its status and the location to go to.
#[derive(Clone, Debug, PartialEq, Eq)]
pub struct Redirect {
    pub status: u16,
    pub location: String,
}

/// A "see other" redirect to `location`.
pub fn see_other(location: &str) -> (r: Redirect)
    ensures
        r.status == STATUS_SEE_OTHER,
        r.location@ == location@,
{
    Redirect { status: STATUS_SEE_OTHER, location: String::from_str(location) }
}

} // verus!
