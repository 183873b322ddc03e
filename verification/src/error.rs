//! Top-level error types of the application surface.

use vstd::prelude::*;

verus! {

/// The application failed; the phases below it carry the detail.
#[derive(Debug, Clone, Copy, PartialEq, Eq, Structural)]
pub struct AppError;

/// A hint offered to the user beside an error message.
#[derive(Debug, Clone, Copy)]
pub struct Suggestion(pub &'static str);

} // verus!
