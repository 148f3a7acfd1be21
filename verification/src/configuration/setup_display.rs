use vstd::prelude::*;

pub use crate::utils::simple_error::SimpleError;

verus! {

/// The error reported when the display driver fails to start.
pub fn display_init_error() -> (e: SimpleError)
    ensures
        e@ == "ESP Init"@,
{
    SimpleError::new("ESP Init")
}

} // verus!
