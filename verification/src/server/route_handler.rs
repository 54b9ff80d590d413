//! The result a handler or middleware returns to steer the chain.

use vstd::prelude::*;

verus! {

/// Result of a handler.
///
/// `End` stops the execution of the handler chain; the response is sent as it
/// stands. `Next` continues the execution of the handler chain.
#[derive(Debug, PartialEq, Eq, Structural, Clone, Copy)]
pub enum HandlerResult {
    /// Stops the execution of the handler chain; the response is sent to the
    /// client as it stands.
    End,
    /// Continues the execution of the handler chain.
    Next,
}

} // verus!
