//! The one way in which a machine cycle can fail.

use vstd::prelude::*;

verus! {

/// A failure that ends the current cycle and is handed to the host.
#[derive(Debug, Clone, Copy, PartialEq, Eq, Structural)]
pub enum Fault {
    /// A read or a write reached beyond the end of the address space.
    Memory,
}

} // verus!
