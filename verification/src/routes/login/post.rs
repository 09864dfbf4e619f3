//! The answer to a submitted login form.

use crate::utils::{see_other, Redirect, STATUS_SEE_OTHER};
use vstd::prelude::*;

verus! {

/// A submitted login form.
#[derive(Clone, Debug, PartialEq, Eq)]
pub struct FormData {
    pub username: String,
    pub password: String,
}

/// Answers a login form: whatever it holds, the client is sent to the home
/// page.
pub fn login(form: &FormData) -> (r: Redirect)
    ensures
        r.status == STATUS_SEE_OTHER,
        r.location@ == "/"@,
{
    see_other("/")
}

} // verus!
