//! The hidden `stress` command, which takes up memory.

use vstd::prelude::*;

verus! {

/// What to take up.
#[derive(Debug, Clone, Copy, PartialEq, Eq, Structural)]
pub enum StressCommand {
    Allocate { mb: u64 },
}

/// The bytes to take up: as many megabytes as asked for, or as many bytes as
/// the machine can count.
pub fn run(cmd: &StressCommand) -> (bytes: usize)
    ensures
        bytes == (if cmd->mb * 1_048_576 <= usize::MAX {
            cmd->mb * 1_048_576
        } else {
            usize::MAX as int
        }),
{
    match cmd {
        StressCommand::Allocate { mb } => {
            if *mb > usize::MAX as u64 {
                return usize::MAX;
            }
            let count: usize = *mb as usize;
            match count.checked_mul(1_048_576) {
                Some(bytes) => bytes,
                None => usize::MAX,
            }
        },
    }
}

} // verus!
