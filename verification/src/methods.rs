//! The names of the request methods that routes answer.

use vstd::prelude::*;

verus! {

/// The method of a read.
pub const GET: &'static str = "GET";

/// The method of a submission.
pub const POST: &'static str = "POST";

/// The method of a replacement.
pub const PUT: &'static str = "PUT";

/// The method of a removal.
pub const DELETE: &'static str = "DELETE";

} // verus!
