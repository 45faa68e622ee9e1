//! The domain failure kinds. Every failing instruction aborts as a whole
//! with one of these; each kind maps one-to-one onto a numeric code for the
//! host ledger's generic failure reporting.

use vstd::prelude::*;

verus! {

/// One failure kind per way an instruction can be rejected. No kind carries
/// a payload; a failed instruction mutates no state.
#[derive(Clone, Copy, Debug, PartialEq, Eq, Structural)]
pub enum BetError {
    /// The instruction buffer has an unknown tag or a payload of the wrong length,
    /// a required account slot is missing, or an operand is malformed.
    InvalidInstructionData,
    /// The supplied market account does not hold the market the operands name.
    MarketNotFound,
    /// The market is no longer open for staking.
    MarketClosedForStaking,
    /// A payout was requested before the market was resolved.
    MarketNotResolved,
    /// The market already left the `Open` state.
    MarketAlreadyResolved,
    /// The required signature is absent or from the wrong authority.
    UnauthorizedSigner,
    /// The funding source or the escrow cannot cover the requested movement.
    InsufficientFunds,
    /// A total or payout would not fit in 64 bits.
    ArithmeticOverflow,
    /// An account's discriminator, owner or size does not match the record
    /// kind expected in its slot.
    AccountOwnershipMismatch,
    /// The position was already claimed once.
    AlreadyClaimed,
    /// The staking deadline is not strictly in the future.
    DeadlinePassed,
    /// Resolution was attempted before the staking deadline was reached.
    DeadlineNotReached,
    /// The chosen outcome side is not one of the market's sides.
    InvalidOutcomeSelection,
    /// A create was attempted against an account that already holds a
    /// record, or whose paired escrow already holds funds.
    AccountAlreadyInitialized,
}

impl BetError {
    /// The numeric code this kind is reported under.
    pub open spec fn spec_code(self) -> u32 {
        match self {
            BetError::InvalidInstructionData => 0,
            BetError::MarketNotFound => 1,
            BetError::MarketClosedForStaking => 2,
            BetError::MarketNotResolved => 3,
            BetError::MarketAlreadyResolved => 4,
            BetError::UnauthorizedSigner => 5,
            BetError::InsufficientFunds => 6,
            BetError::ArithmeticOverflow => 7,
            BetError::AccountOwnershipMismatch => 8,
            BetError::AlreadyClaimed => 9,
            BetError::DeadlinePassed => 10,
            BetError::DeadlineNotReached => 11,
            BetError::InvalidOutcomeSelection => 12,
            BetError::AccountAlreadyInitialized => 13,
        }
    }

    /// Translate the kind into its numeric code; distinct kinds get distinct codes.
    pub fn code(self) -> (r: u32)
        ensures
            r == self.spec_code(),
    {
        match self {
            BetError::InvalidInstructionData => 0,
            BetError::MarketNotFound => 1,
            BetError::MarketClosedForStaking => 2,
            BetError::MarketNotResolved => 3,
            BetError::MarketAlreadyResolved => 4,
            BetError::UnauthorizedSigner => 5,
            BetError::InsufficientFunds => 6,
            BetError::ArithmeticOverflow => 7,
            BetError::AccountOwnershipMismatch => 8,
            BetError::AlreadyClaimed => 9,
            BetError::DeadlinePassed => 10,
            BetError::DeadlineNotReached => 11,
            BetError::InvalidOutcomeSelection => 12,
            BetError::AccountAlreadyInitialized => 13,
        }
    }
}

} // verus!
