//! Whether the program is to shut down.

use vstd::prelude::*;

verus! {

/// What the channel that announces a shutdown holds when it is looked at.
#[derive(Debug, Clone, Copy, PartialEq, Eq, Structural)]
pub enum ShutdownSignal {
    /// A shutdown was announced.
    Received,
    /// Nobody is left who could announce one.
    Closed,
    Empty,
    /// Announcements were missed.
    Lagged,
}

/// Whether to shut down: it was announced, or nobody is left to announce it.
pub fn check_shotdown(signal: ShutdownSignal) -> (r: bool)
    ensures
        r == (signal == ShutdownSignal::Received || signal == ShutdownSignal::Closed),
{
    match signal {
        ShutdownSignal::Closed => true,
        ShutdownSignal::Empty => false,
        ShutdownSignal::Lagged => false,
        ShutdownSignal::Received => true,
    }
}

} // verus!
