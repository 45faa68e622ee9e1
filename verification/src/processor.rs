//! The processor: the per-instruction handlers and the dispatcher. Every
//! handler is a pure transition from the supplied account state to either a
//! fully determined effect or an exact error kind — validate first, move
//! funds last, nothing partial. Each executable handler is proved equal to
//! its spec-level transition function, so every outcome is pinned down for
//! every input.

use vstd::prelude::*;
use crate::error::BetError;
use crate::instruction::BetInstruction;
use crate::state::{Addr, Market, MarketStatus, Position, MARKET_LEN};

verus! {

/// The effect of a successful `PlaceStake`: the updated records and the
/// amount to move from the funding source into escrow.
#[derive(Clone, Copy, Debug, PartialEq, Eq, Structural)]
pub struct StakeEffect {
    /// The market with the chosen side's total raised.
    pub market: Market,
    /// The created or incremented position.
    pub position: Position,
    /// Amount to transfer from the funding source into escrow.
    pub transfer: u64,
    /// The escrow balance once the transfer has happened.
    pub escrow_after: u64,
}

/// The effect of a successful `ClaimPayout`: the updated records and the
/// amount to move from escrow to the destination.
#[derive(Clone, Copy, Debug, PartialEq, Eq, Structural)]
pub struct ClaimEffect {
    /// The market, advanced to `Settled` when the last unit leaves escrow.
    pub market: Market,
    /// The position, now flagged claimed.
    pub position: Position,
    /// Amount to transfer from escrow to the destination.
    pub payout: u64,
    /// The escrow balance once the payout has left.
    pub escrow_after: u64,
}

/// What one instruction asks the host to do on success.
#[derive(Clone, Copy, Debug, PartialEq, Eq, Structural)]
pub enum Effect {
    /// Write a fresh market record.
    MarketCreated(Market),
    /// Write the market and position records and fund the escrow.
    StakePlaced(StakeEffect),
    /// Write the resolved market record.
    MarketResolved(Market),
    /// Write the market and position records and pay the destination.
    PayoutClaimed(ClaimEffect),
    /// Write the cancelled market record.
    MarketCancelled(Market),
}

/// The `CreateMarket` transition. The new record's account must be empty,
/// program-owned and of the exact record size, the paired escrow must start
/// with a zero balance, and the deadline must be strictly in the future;
/// the market then opens with no stake on either side.
pub open spec fn spec_create_market(
    creator: Addr,
    signed: bool,
    initialized: bool,
    owned: bool,
    data_len: nat,
    clock: u64,
    deadline: u64,
    resolver: Addr,
    escrow: Addr,
    escrow_balance: u64,
) -> Result<Market, BetError> {
    if !signed {
        Err(BetError::UnauthorizedSigner)
    } else if initialized {
        Err(BetError::AccountAlreadyInitialized)
    } else if !owned {
        Err(BetError::AccountOwnershipMismatch)
    } else if data_len != MARKET_LEN {
        Err(BetError::InvalidInstructionData)
    } else if escrow_balance != 0 {
        Err(BetError::AccountAlreadyInitialized)
    } else if deadline <= clock {
        Err(BetError::DeadlinePassed)
    } else {
        Ok(
            Market {
                creator,
                resolver,
                escrow,
                deadline,
                total_side_a: 0,
                total_side_b: 0,
                status: MarketStatus::Open,
                winning_side: 0,
            },
        )
    }
}

/// Initialize a market record; see [`spec_create_market`].
pub fn create_market(
    creator: Addr,
    signed: bool,
    initialized: bool,
    owned: bool,
    data_len: usize,
    clock: u64,
    deadline: u64,
    resolver: Addr,
    escrow: Addr,
    escrow_balance: u64,
) -> (r: Result<Market, BetError>)
    ensures
        r == spec_create_market(
            creator,
            signed,
            initialized,
            owned,
            data_len as nat,
            clock,
            deadline,
            resolver,
            escrow,
            escrow_balance,
        ),
{
    if !signed {
        Err(BetError::UnauthorizedSigner)
    } else if initialized {
        Err(BetError::AccountAlreadyInitialized)
    } else if !owned {
        Err(BetError::AccountOwnershipMismatch)
    } else if data_len != MARKET_LEN {
        Err(BetError::InvalidInstructionData)
    } else if escrow_balance != 0 {
        Err(BetError::AccountAlreadyInitialized)
    } else if deadline <= clock {
        Err(BetError::DeadlinePassed)
    } else {
        Ok(
            Market {
                creator,
                resolver,
                escrow,
                deadline,
                total_side_a: 0,
                total_side_b: 0,
                status: MarketStatus::Open,
                winning_side: 0,
            },
        )
    }
}

/// The position a stake lands in before the new amount is added: the
/// existing record if one was supplied, else a fresh zero-amount position
/// for the staker on the chosen side.
pub open spec fn spec_stake_base(
    existing: Option<Position>,
    staker: Addr,
    mkt_key: Addr,
    side: u8,
) -> Position {
    match existing {
        Some(p) => p,
        None => Position { owner: staker, market: mkt_key, amount: 0, side, claimed: false },
    }
}

/// The `PlaceStake` transition. The market must be open and the clock
/// strictly before the deadline (staking exactly at the deadline is
/// rejected); the side must exist, the amount be positive and funded, the
/// supplied position belong to this staker, market and side, and no total
/// may overflow. On success the chosen side's total, the position's amount
/// and the escrow balance all grow by exactly the staked amount.
pub open spec fn spec_place_stake(
    m: Market,
    mkt_key: Addr,
    existing: Option<Position>,
    staker: Addr,
    signed: bool,
    clock: u64,
    side: u8,
    amount: u64,
    funding_balance: u64,
    escrow_balance: u64,
) -> Result<StakeEffect, BetError> {
    let base = spec_stake_base(existing, staker, mkt_key, side);
    if !signed {
        Err(BetError::UnauthorizedSigner)
    } else if !(m.status is Open) {
        Err(BetError::MarketClosedForStaking)
    } else if clock >= m.deadline {
        Err(BetError::DeadlinePassed)
    } else if side >= 2 {
        Err(BetError::InvalidOutcomeSelection)
    } else if amount == 0 {
        Err(BetError::InvalidInstructionData)
    } else if base.owner != staker {
        Err(BetError::UnauthorizedSigner)
    } else if base.market != mkt_key {
        Err(BetError::MarketNotFound)
    } else if base.side != side {
        Err(BetError::InvalidOutcomeSelection)
    } else if base.claimed {
        Err(BetError::AlreadyClaimed)
    } else if funding_balance < amount {
        Err(BetError::InsufficientFunds)
    } else if m.total_side_a + m.total_side_b + amount > u64::MAX {
        Err(BetError::ArithmeticOverflow)
    } else if escrow_balance + amount > u64::MAX {
        Err(BetError::ArithmeticOverflow)
    } else if base.amount + amount > u64::MAX {
        Err(BetError::ArithmeticOverflow)
    } else {
        Ok(
            StakeEffect {
                market: Market {
                    total_side_a: if side == 0 {
                        (m.total_side_a + amount) as u64
                    } else {
                        m.total_side_a
                    },
                    total_side_b: if side == 1 {
                        (m.total_side_b + amount) as u64
                    } else {
                        m.total_side_b
                    },
                    ..m
                },
                position: Position { amount: (base.amount + amount) as u64, ..base },
                transfer: amount,
                escrow_after: (escrow_balance + amount) as u64,
            },
        )
    }
}

/// Stake on an open market; see [`spec_place_stake`].
pub fn place_stake(
    m: Market,
    mkt_key: Addr,
    existing: Option<Position>,
    staker: Addr,
    signed: bool,
    clock: u64,
    side: u8,
    amount: u64,
    funding_balance: u64,
    escrow_balance: u64,
) -> (r: Result<StakeEffect, BetError>)
    ensures
        r == spec_place_stake(
            m,
            mkt_key,
            existing,
            staker,
            signed,
            clock,
            side,
            amount,
            funding_balance,
            escrow_balance,
        ),
{
    let base = match existing {
        Some(p) => p,
        None => Position { owner: staker, market: mkt_key, amount: 0, side, claimed: false },
    };
    if !signed {
        Err(BetError::UnauthorizedSigner)
    } else if !matches!(m.status, MarketStatus::Open) {
        Err(BetError::MarketClosedForStaking)
    } else if clock >= m.deadline {
        Err(BetError::DeadlinePassed)
    } else if side >= 2 {
        Err(BetError::InvalidOutcomeSelection)
    } else if amount == 0 {
        Err(BetError::InvalidInstructionData)
    } else if base.owner != staker {
        Err(BetError::UnauthorizedSigner)
    } else if base.market != mkt_key {
        Err(BetError::MarketNotFound)
    } else if base.side != side {
        Err(BetError::InvalidOutcomeSelection)
    } else if base.claimed {
        Err(BetError::AlreadyClaimed)
    } else if funding_balance < amount {
        Err(BetError::InsufficientFunds)
    } else if m.total_side_a as u128 + m.total_side_b as u128 + amount as u128
        > u64::MAX as u128 {
        Err(BetError::ArithmeticOverflow)
    } else if escrow_balance as u128 + amount as u128 > u64::MAX as u128 {
        Err(BetError::ArithmeticOverflow)
    } else if base.amount as u128 + amount as u128 > u64::MAX as u128 {
        Err(BetError::ArithmeticOverflow)
    } else {
        Ok(
            StakeEffect {
                market: Market {
                    total_side_a: if side == 0 {
                        m.total_side_a + amount
                    } else {
                        m.total_side_a
                    },
                    total_side_b: if side == 1 {
                        m.total_side_b + amount
                    } else {
                        m.total_side_b
                    },
                    ..m
                },
                position: Position { amount: base.amount + amount, ..base },
                transfer: amount,
                escrow_after: escrow_balance + amount,
            },
        )
    }
}

/// The `ResolveMarket` transition. Only the recorded resolution authority
/// may resolve, only once the deadline is reached, only while the market is
/// still open, and only to an existing side. No funds move.
pub open spec fn spec_resolve_market(
    m: Market,
    signer: Addr,
    signed: bool,
    clock: u64,
    outcome: u8,
) -> Result<Market, BetError> {
    if !signed || signer != m.resolver {
        Err(BetError::UnauthorizedSigner)
    } else if !(m.status is Open) {
        Err(BetError::MarketAlreadyResolved)
    } else if clock < m.deadline {
        Err(BetError::DeadlineNotReached)
    } else if outcome >= 2 {
        Err(BetError::InvalidOutcomeSelection)
    } else {
        Ok(Market { status: MarketStatus::Resolved, winning_side: outcome, ..m })
    }
}

/// Declare the outcome of a market; see [`spec_resolve_market`].
pub fn resolve_market(m: Market, signer: Addr, signed: bool, clock: u64, outcome: u8) -> (r:
    Result<Market, BetError>)
    ensures
        r == spec_resolve_market(m, signer, signed, clock, outcome),
{
    if !signed || signer != m.resolver {
        Err(BetError::UnauthorizedSigner)
    } else if !matches!(m.status, MarketStatus::Open) {
        Err(BetError::MarketAlreadyResolved)
    } else if clock < m.deadline {
        Err(BetError::DeadlineNotReached)
    } else if outcome >= 2 {
        Err(BetError::InvalidOutcomeSelection)
    } else {
        Ok(Market { status: MarketStatus::Resolved, winning_side: outcome, ..m })
    }
}

/// The `CancelMarket` transition. A market still open and without any stake
/// may be called off by its creator or its resolver; once stake has been
/// placed, only the resolver may override, and only strictly before the
/// deadline. No funds move; refunds run through the claim path.
pub open spec fn spec_cancel_market(m: Market, signer: Addr, signed: bool, clock: u64) -> Result<
    Market,
    BetError,
> {
    if !signed || (signer != m.creator && signer != m.resolver) {
        Err(BetError::UnauthorizedSigner)
    } else if !(m.status is Open) {
        Err(BetError::MarketAlreadyResolved)
    } else if m.total_side_a == 0 && m.total_side_b == 0 {
        Ok(Market { status: MarketStatus::Cancelled, ..m })
    } else if signer != m.resolver {
        Err(BetError::UnauthorizedSigner)
    } else if clock >= m.deadline {
        Err(BetError::DeadlinePassed)
    } else {
        Ok(Market { status: MarketStatus::Cancelled, ..m })
    }
}

/// Call an open market off; see [`spec_cancel_market`].
pub fn cancel_market(m: Market, signer: Addr, signed: bool, clock: u64) -> (r: Result<
    Market,
    BetError,
>)
    ensures
        r == spec_cancel_market(m, signer, signed, clock),
{
    if !signed || (signer != m.creator && signer != m.resolver) {
        Err(BetError::UnauthorizedSigner)
    } else if !matches!(m.status, MarketStatus::Open) {
        Err(BetError::MarketAlreadyResolved)
    } else if m.total_side_a == 0 && m.total_side_b == 0 {
        Ok(Market { status: MarketStatus::Cancelled, ..m })
    } else if signer != m.resolver {
        Err(BetError::UnauthorizedSigner)
    } else if clock >= m.deadline {
        Err(BetError::DeadlinePassed)
    } else {
        Ok(Market { status: MarketStatus::Cancelled, ..m })
    }
}

/// The total stake recorded across both sides.
pub open spec fn spec_market_total(m: Market) -> int {
    m.total_side_a + m.total_side_b
}

/// The stake recorded on the market's winning side.
pub open spec fn spec_winning_total(m: Market) -> int {
    if m.winning_side == 0 {
        m.total_side_a as int
    } else {
        m.total_side_b as int
    }
}

/// What one position is owed. In a cancelled market, the original stake
/// back. In a resolved market whose winning side carries no stake at all,
/// likewise the original stake back — the refund-all policy that replaces a
/// division by zero. Otherwise a winning position is owed its proportional
/// share `amount * total / winning_total`, truncated toward zero, and a
/// losing position nothing.
pub open spec fn spec_payout(m: Market, p: Position) -> int {
    if m.status is Cancelled {
        p.amount as int
    } else if spec_winning_total(m) == 0 {
        p.amount as int
    } else if p.side == m.winning_side {
        (p.amount as int * spec_market_total(m)) / spec_winning_total(m)
    } else {
        0
    }
}

/// The `ClaimPayout` transition. The market must be past `Open`, the
/// position must belong to the signer and to this market and be unclaimed,
/// the owed amount must fit in 64 bits and in the escrow. On success the
/// position is flagged claimed, the payout leaves escrow, and a resolved
/// market whose escrow just reached zero advances to `Settled`.
pub open spec fn spec_claim_payout(
    m: Market,
    mkt_key: Addr,
    p: Position,
    claimer: Addr,
    signed: bool,
    escrow_balance: u64,
) -> Result<ClaimEffect, BetError> {
    if !signed {
        Err(BetError::UnauthorizedSigner)
    } else if m.status is Open {
        Err(BetError::MarketNotResolved)
    } else if p.owner != claimer {
        Err(BetError::UnauthorizedSigner)
    } else if p.market != mkt_key {
        Err(BetError::MarketNotFound)
    } else if p.claimed {
        Err(BetError::AlreadyClaimed)
    } else if spec_market_total(m) > u64::MAX {
        Err(BetError::ArithmeticOverflow)
    } else {
        let pay = spec_payout(m, p);
        if pay > u64::MAX {
            Err(BetError::ArithmeticOverflow)
        } else if pay > escrow_balance {
            Err(BetError::InsufficientFunds)
        } else {
            Ok(
                ClaimEffect {
                    market: if m.status is Resolved && escrow_balance == pay {
                        Market { status: MarketStatus::Settled, ..m }
                    } else {
                        m
                    },
                    position: Position { claimed: true, ..p },
                    payout: pay as u64,
                    escrow_after: (escrow_balance - pay) as u64,
                },
            )
        }
    }
}

/// Withdraw what a position is owed; see [`spec_claim_payout`].
pub fn claim_payout(
    m: Market,
    mkt_key: Addr,
    p: Position,
    claimer: Addr,
    signed: bool,
    escrow_balance: u64,
) -> (r: Result<ClaimEffect, BetError>)
    ensures
        r == spec_claim_payout(m, mkt_key, p, claimer, signed, escrow_balance),
{
    if !signed {
        return Err(BetError::UnauthorizedSigner);
    }
    if matches!(m.status, MarketStatus::Open) {
        return Err(BetError::MarketNotResolved);
    }
    if p.owner != claimer {
        return Err(BetError::UnauthorizedSigner);
    }
    if p.market != mkt_key {
        return Err(BetError::MarketNotFound);
    }
    if p.claimed {
        return Err(BetError::AlreadyClaimed);
    }
    let total128: u128 = m.total_side_a as u128 + m.total_side_b as u128;
    if total128 > u64::MAX as u128 {
        return Err(BetError::ArithmeticOverflow);
    }
    let win_total: u64 = if m.winning_side == 0 {
        m.total_side_a
    } else {
        m.total_side_b
    };
    let pay128: u128 = if matches!(m.status, MarketStatus::Cancelled) {
        p.amount as u128
    } else if win_total == 0 {
        p.amount as u128
    } else if p.side == m.winning_side {
        proof {
            assert(p.amount as int * (m.total_side_a as int + m.total_side_b as int) <= u64::MAX
                as int * u64::MAX as int) by (nonlinear_arith)
                requires
                    p.amount <= u64::MAX,
                    0 <= m.total_side_a as int + m.total_side_b as int <= u64::MAX as int,
            ;
        }
        let prod: u128 = p.amount as u128 * total128;
        prod / win_total as u128
    } else {
        0
    };
    proof {
        assert(pay128 as int == spec_payout(m, p));
    }
    if pay128 > u64::MAX as u128 {
        return Err(BetError::ArithmeticOverflow);
    }
    let pay: u64 = pay128 as u64;
    if pay > escrow_balance {
        return Err(BetError::InsufficientFunds);
    }
    Ok(
        ClaimEffect {
            market: if matches!(m.status, MarketStatus::Resolved) && escrow_balance == pay {
                Market { status: MarketStatus::Settled, ..m }
            } else {
                m
            },
            position: Position { claimed: true, ..p },
            payout: pay,
            escrow_after: escrow_balance - pay,
        },
    )
}

/// Everything one invocation supplies besides the instruction buffer: the
/// signing authority, the ledger clock, and the already validated plain
/// views of the operand accounts in their fixed slots.
pub struct InvocationCtx {
    /// The authority that signed the instruction, when `signed` holds.
    pub signer: Addr,
    /// Whether the signature of `signer` is present.
    pub signed: bool,
    /// The ledger clock at execution time.
    pub clock: u64,
    /// Address of the market account slot.
    pub market_key: Addr,
    /// Address of the escrow account slot.
    pub escrow_key: Addr,
    /// The decoded market record, when the slot holds one.
    pub market: Option<Market>,
    /// Whether the market account is owned by this program.
    pub market_owned: bool,
    /// Whether the market account already holds data.
    pub market_initialized: bool,
    /// Size of the market account's data region.
    pub market_data_len: usize,
    /// The decoded position record, when the slot holds one.
    pub position: Option<Position>,
    /// Whether the supplied position account is owned by this program;
    /// `true` when the command was given no position slot at all.
    pub position_owned: bool,
    /// Current balance custodied in the escrow account.
    pub escrow_balance: u64,
    /// Current balance of the staker's funding source.
    pub funding_balance: u64,
}

/// The dispatcher's transition: decode the buffer, demand the account slots
/// the command needs — the market account owned by this program, the
/// position account likewise where the command uses one, and the escrow
/// slot holding the very account the market record names — and run the
/// command's handler.
pub open spec fn spec_process(ctx: InvocationCtx, data: Seq<u8>) -> Result<Effect, BetError> {
    match BetInstruction::spec_unpack(data) {
        Err(e) => Err(e),
        Ok(instr) => match instr {
            BetInstruction::CreateMarket { deadline, resolver } => match spec_create_market(
                ctx.signer,
                ctx.signed,
                ctx.market_initialized,
                ctx.market_owned,
                ctx.market_data_len as nat,
                ctx.clock,
                deadline,
                resolver,
                ctx.escrow_key,
                ctx.escrow_balance,
            ) {
                Ok(m) => Ok(Effect::MarketCreated(m)),
                Err(e) => Err(e),
            },
            BetInstruction::PlaceStake { side, amount } => {
                if !ctx.market_owned {
                    Err(BetError::AccountOwnershipMismatch)
                } else if !ctx.position_owned {
                    Err(BetError::AccountOwnershipMismatch)
                } else {
                    match ctx.market {
                        None => Err(BetError::MarketNotFound),
                        Some(m) => if ctx.escrow_key != m.escrow {
                            Err(BetError::AccountOwnershipMismatch)
                        } else {
                            match spec_place_stake(
                                m,
                                ctx.market_key,
                                ctx.position,
                                ctx.signer,
                                ctx.signed,
                                ctx.clock,
                                side,
                                amount,
                                ctx.funding_balance,
                                ctx.escrow_balance,
                            ) {
                                Ok(e) => Ok(Effect::StakePlaced(e)),
                                Err(e) => Err(e),
                            }
                        },
                    }
                }
            },
            BetInstruction::ResolveMarket { outcome } => {
                if !ctx.market_owned {
                    Err(BetError::AccountOwnershipMismatch)
                } else {
                    match ctx.market {
                        None => Err(BetError::MarketNotFound),
                        Some(m) => match spec_resolve_market(
                            m,
                            ctx.signer,
                            ctx.signed,
                            ctx.clock,
                            outcome,
                        ) {
                            Ok(m2) => Ok(Effect::MarketResolved(m2)),
                            Err(e) => Err(e),
                        },
                    }
                }
            },
            BetInstruction::ClaimPayout => {
                if !ctx.market_owned {
                    Err(BetError::AccountOwnershipMismatch)
                } else if !ctx.position_owned {
                    Err(BetError::AccountOwnershipMismatch)
                } else {
                    match ctx.market {
                        None => Err(BetError::MarketNotFound),
                        Some(m) => if ctx.escrow_key != m.escrow {
                            Err(BetError::AccountOwnershipMismatch)
                        } else {
                            match ctx.position {
                                None => Err(BetError::InvalidInstructionData),
                                Some(p) => match spec_claim_payout(
                                    m,
                                    ctx.market_key,
                                    p,
                                    ctx.signer,
                                    ctx.signed,
                                    ctx.escrow_balance,
                                ) {
                                    Ok(e) => Ok(Effect::PayoutClaimed(e)),
                                    Err(e) => Err(e),
                                },
                            }
                        },
                    }
                }
            },
            BetInstruction::CancelMarket => {
                if !ctx.market_owned {
                    Err(BetError::AccountOwnershipMismatch)
                } else {
                    match ctx.market {
                        None => Err(BetError::MarketNotFound),
                        Some(m) => match spec_cancel_market(
                            m,
                            ctx.signer,
                            ctx.signed,
                            ctx.clock,
                        ) {
                            Ok(m2) => Ok(Effect::MarketCancelled(m2)),
                            Err(e) => Err(e),
                        },
                    }
                }
            },
        },
    }
}

/// Decode one instruction buffer and run its handler against the supplied
/// account state; see [`spec_process`]. Pure: the caller applies the effect.
pub fn process(ctx: &InvocationCtx, data: &Vec<u8>) -> (r: Result<Effect, BetError>)
    ensures
        r == spec_process(*ctx, data@),
{
    let instr = match BetInstruction::unpack(data) {
        Ok(i) => i,
        Err(e) => {
            return Err(e);
        },
    };
    match instr {
        BetInstruction::CreateMarket { deadline, resolver } => {
            match create_market(
                ctx.signer,
                ctx.signed,
                ctx.market_initialized,
                ctx.market_owned,
                ctx.market_data_len,
                ctx.clock,
                deadline,
                resolver,
                ctx.escrow_key,
                ctx.escrow_balance,
            ) {
                Ok(m) => Ok(Effect::MarketCreated(m)),
                Err(e) => Err(e),
            }
        },
        BetInstruction::PlaceStake { side, amount } => {
            if !ctx.market_owned {
                return Err(BetError::AccountOwnershipMismatch);
            }
            if !ctx.position_owned {
                return Err(BetError::AccountOwnershipMismatch);
            }
            match ctx.market {
                None => Err(BetError::MarketNotFound),
                Some(m) => {
                    if ctx.escrow_key != m.escrow {
                        return Err(BetError::AccountOwnershipMismatch);
                    }
                    match place_stake(
                        m,
                        ctx.market_key,
                        ctx.position,
                        ctx.signer,
                        ctx.signed,
                        ctx.clock,
                        side,
                        amount,
                        ctx.funding_balance,
                        ctx.escrow_balance,
                    ) {
                        Ok(e) => Ok(Effect::StakePlaced(e)),
                        Err(e) => Err(e),
                    }
                },
            }
        },
        BetInstruction::ResolveMarket { outcome } => {
            if !ctx.market_owned {
                return Err(BetError::AccountOwnershipMismatch);
            }
            match ctx.market {
                None => Err(BetError::MarketNotFound),
                Some(m) => match resolve_market(m, ctx.signer, ctx.signed, ctx.clock, outcome) {
                    Ok(m2) => Ok(Effect::MarketResolved(m2)),
                    Err(e) => Err(e),
                },
            }
        },
        BetInstruction::ClaimPayout => {
            if !ctx.market_owned {
                return Err(BetError::AccountOwnershipMismatch);
            }
            if !ctx.position_owned {
                return Err(BetError::AccountOwnershipMismatch);
            }
            match ctx.market {
                None => Err(BetError::MarketNotFound),
                Some(m) => {
                    if ctx.escrow_key != m.escrow {
                        return Err(BetError::AccountOwnershipMismatch);
                    }
                    match ctx.position {
                        None => Err(BetError::InvalidInstructionData),
                        Some(p) => match claim_payout(
                            m,
                            ctx.market_key,
                            p,
                            ctx.signer,
                            ctx.signed,
                            ctx.escrow_balance,
                        ) {
                            Ok(e) => Ok(Effect::PayoutClaimed(e)),
                            Err(e) => Err(e),
                        },
                    }
                },
            }
        },
        BetInstruction::CancelMarket => {
            if !ctx.market_owned {
                return Err(BetError::AccountOwnershipMismatch);
            }
            match ctx.market {
                None => Err(BetError::MarketNotFound),
                Some(m) => match cancel_market(m, ctx.signer, ctx.signed, ctx.clock) {
                    Ok(m2) => Ok(Effect::MarketCancelled(m2)),
                    Err(e) => Err(e),
                },
            }
        },
    }
}

} // verus!
