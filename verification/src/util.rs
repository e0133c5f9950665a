//! Small checked assertions over `Result` values, used by tests.

use vstd::prelude::*;

verus! {

/// Accepts only a `Result` that is `Ok`; callers must show the value is
/// not an error before passing it here.
pub fn assert_no_err<T>(given: &Result<T, String>)
    requires
        given is Ok,
{
}

/// Accepts only a `Result` that is `Err`; callers must show the value is
/// an error before passing it here.
pub fn assert_is_err<T, S>(given: &Result<T, S>)
    requires
        given is Err,
{
}

} // verus!
