use vstd::prelude::*;

verus! {

/// The reasons for which the staking program refuses an instruction.
#[derive(Debug, Clone, Copy, PartialEq, Eq, Structural)]
pub enum StakingError {
    InvalidOwner,
    InvalidAuthority,
    NotStaked,
    InvalidTimestamp,
    FreezePeriodNotElapsed,
    Overflow,
    AlreadyStaked,
}

/// Why an instruction failed: one of the program's own rules, or account data
/// that the Metaplex Core account layout does not decode.
#[derive(Debug, Clone, Copy, PartialEq, Eq, Structural)]
pub enum InstructionError {
    Staking(StakingError),
    AccountData,
}

} // verus!
