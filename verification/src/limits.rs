//! Size limits imposed by the bytecode encoding.
use vstd::prelude::*;

verus! {

/// Maximum number of local variables per call frame.
///
/// Local slots are addressed by one byte in the bytecode.
pub const MAX_LOCALS: usize = 256;

/// Number of bits available for the address of a jump instruction.
pub const MAX_JUMP_ADDR_BITS: usize = 24;

/// First bytecode address that a jump instruction can no longer hold.
pub const MAX_JUMP_ADDR: usize = 0x100_0000;

/// Maximum number of up-values a single closure can capture.
pub const MAX_UP_VALUES: usize = 256;

/// Maximum number of entries in a table indexed by a 16-bit identifier:
/// symbols, constants and procedure prototypes.
pub const MAX_TABLE: usize = 0x1_0000;

/// Maximum number of arguments in a single call.
pub const MAX_ARGS: usize = 255;

} // verus!
