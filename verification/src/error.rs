use vstd::prelude::*;

verus! {

/// Why a step was abandoned. The machine is left as it was before the step.
#[derive(Debug, Clone, Copy, PartialEq, Eq, Structural)]
pub enum Error {
    /// A fetch, a memory access or a stack access would fall outside its bounds.
    AddressOutOfBounds,
    /// The instruction word matches no operation of the instruction set.
    InvalidOpcode,
}

} // verus!
