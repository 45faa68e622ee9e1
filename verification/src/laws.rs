//! The laws of the state machine, proved once and for all over the spec
//! transitions: lifecycle monotonicity, the accounting balance, claim
//! idempotence, the refund-all policy, the strict deadline, and the
//! resolver's exclusive authority.

use vstd::prelude::*;
use crate::error::BetError;
use crate::processor::{
    spec_cancel_market, spec_claim_payout, spec_create_market, spec_market_total,
    spec_place_stake, spec_process, spec_resolve_market, spec_winning_total, ClaimEffect, Effect,
    InvocationCtx, StakeEffect,
};
use crate::state::{Addr, Market, MarketStatus, Position};

verus! {

/// Status `b` is reachable from status `a` in the lifecycle
/// `Open` to `Resolved` to `Settled`, with `Cancelled` a terminal branch
/// off `Open`. Reachability never moves backward.
pub open spec fn status_le(a: MarketStatus, b: MarketStatus) -> bool {
    match a {
        MarketStatus::Open => true,
        MarketStatus::Resolved => b is Resolved || b is Settled,
        MarketStatus::Settled => b is Settled,
        MarketStatus::Cancelled => b is Cancelled,
    }
}

pub proof fn lemma_status_le_refl(a: MarketStatus)
    ensures
        status_le(a, a),
{
}

pub proof fn lemma_status_le_trans(a: MarketStatus, b: MarketStatus, c: MarketStatus)
    requires
        status_le(a, b),
        status_le(b, c),
    ensures
        status_le(a, c),
{
}

/// Once a market has left `Open`, nothing reachable is `Open` again.
pub proof fn lemma_status_no_regression(a: MarketStatus, b: MarketStatus)
    requires
        status_le(a, b),
        !(a is Open),
    ensures
        !(b is Open),
{
}

/// The market record a successful effect writes back.
pub open spec fn effect_market(e: Effect) -> Market {
    match e {
        Effect::MarketCreated(m) => m,
        Effect::StakePlaced(se) => se.market,
        Effect::MarketResolved(m) => m,
        Effect::PayoutClaimed(ce) => ce.market,
        Effect::MarketCancelled(m) => m,
    }
}

/// Lifecycle monotonicity at the dispatcher: whichever instruction
/// succeeds against an existing market record, the status written back is
/// reachable from the one read — along any sequence of accepted
/// instructions the status never regresses.
pub proof fn lemma_process_status_monotone(
    ctx: InvocationCtx,
    data: Seq<u8>,
    m: Market,
    e: Effect,
)
    requires
        ctx.market == Some(m),
        ctx.market_initialized,
        spec_process(ctx, data) == Ok::<Effect, BetError>(e),
    ensures
        status_le(m.status, effect_market(e).status),
{
}

/// Funds move only through the market's own escrow: whenever the
/// dispatcher lets a stake or a claim through, the account supplied in the
/// escrow slot is exactly the one the market record names — any other
/// account there is rejected before the handler runs, so no instruction
/// can draw on or pay into a different market's escrow.
pub proof fn lemma_escrow_bound(ctx: InvocationCtx, data: Seq<u8>, m: Market, e: Effect)
    requires
        ctx.market == Some(m),
        spec_process(ctx, data) == Ok::<Effect, BetError>(e),
        e is StakePlaced || e is PayoutClaimed,
    ensures
        ctx.escrow_key == m.escrow,
{
}

/// What one position contributes to the live stake of market `mkt`:
/// its amount while it is unclaimed and references `mkt`, else nothing.
pub open spec fn live_stake_of(p: Position, mkt: Addr) -> int {
    if p.market == mkt && !p.claimed {
        p.amount as int
    } else {
        0
    }
}

/// The live stake a set of positions records against market `mkt`.
pub open spec fn stake_sum(ps: Seq<Position>, mkt: Addr) -> int
    decreases ps.len(),
{
    if ps.len() == 0 {
        0
    } else {
        stake_sum(ps.drop_last(), mkt) + live_stake_of(ps.last(), mkt)
    }
}

pub proof fn lemma_stake_sum_push(ps: Seq<Position>, p: Position, mkt: Addr)
    ensures
        stake_sum(ps.push(p), mkt) == stake_sum(ps, mkt) + live_stake_of(p, mkt),
{
    assert(ps.push(p).drop_last() =~= ps);
    assert(ps.push(p).last() == p);
}

pub proof fn lemma_stake_sum_update(ps: Seq<Position>, i: int, q: Position, mkt: Addr)
    requires
        0 <= i < ps.len(),
    ensures
        stake_sum(ps.update(i, q), mkt) == stake_sum(ps, mkt) - live_stake_of(ps[i], mkt) + live_stake_of(
            q,
            mkt,
        ),
    decreases ps.len(),
{
    let ps2 = ps.update(i, q);
    if i == ps.len() - 1 {
        assert(ps2.drop_last() =~= ps.drop_last());
        assert(ps2.last() == q);
    } else {
        assert(ps2.drop_last() =~= ps.drop_last().update(i, q));
        assert(ps2.last() == ps.last());
        lemma_stake_sum_update(ps.drop_last(), i, q, mkt);
        assert(ps.drop_last()[i] == ps[i]);
    }
}

/// No position contributes negatively, so the sum never falls below zero.
pub proof fn lemma_stake_sum_nonneg(ps: Seq<Position>, mkt: Addr)
    ensures
        0 <= stake_sum(ps, mkt),
    decreases ps.len(),
{
    if ps.len() > 0 {
        lemma_stake_sum_nonneg(ps.drop_last(), mkt);
    }
}

/// One position's live stake never exceeds the whole sum.
pub proof fn lemma_stake_sum_element_bound(ps: Seq<Position>, i: int, mkt: Addr)
    requires
        0 <= i < ps.len(),
    ensures
        live_stake_of(ps[i], mkt) <= stake_sum(ps, mkt),
    decreases ps.len(),
{
    if i == ps.len() - 1 {
        lemma_stake_sum_nonneg(ps.drop_last(), mkt);
    } else {
        lemma_stake_sum_element_bound(ps.drop_last(), i, mkt);
        assert(ps.drop_last()[i] == ps[i]);
    }
}

/// The books balance when the live stake recorded by the positions equals
/// the market's recorded total, which equals the escrow balance.
pub open spec fn books_balanced(ps: Seq<Position>, mkt: Addr, m: Market, escrow: int) -> bool {
    stake_sum(ps, mkt) == spec_market_total(m) && spec_market_total(m) == escrow
}

/// A fresh market balances: no positions, zero totals, and an escrow that
/// creation itself demands be empty.
pub proof fn lemma_create_balanced(
    creator: Addr,
    signed: bool,
    initialized: bool,
    owned: bool,
    data_len: nat,
    clock: u64,
    deadline: u64,
    resolver: Addr,
    escrow: Addr,
    escrow_balance: u64,
    mkt: Addr,
    m: Market,
)
    requires
        spec_create_market(
            creator,
            signed,
            initialized,
            owned,
            data_len,
            clock,
            deadline,
            resolver,
            escrow,
            escrow_balance,
        ) == Ok::<Market, BetError>(m),
    ensures
        escrow_balance == 0,
        books_balanced(Seq::<Position>::empty(), mkt, m, escrow_balance as int),
{
}

/// The accounting invariant across a first stake: pushing the freshly
/// created position raises the live stake, the market total and the escrow
/// balance by exactly the staked amount, so the balance is preserved.
pub proof fn lemma_stake_balanced_new(
    ps: Seq<Position>,
    m: Market,
    mkt: Addr,
    staker: Addr,
    signed: bool,
    clock: u64,
    side: u8,
    amount: u64,
    funding_balance: u64,
    escrow_balance: u64,
    se: StakeEffect,
)
    requires
        books_balanced(ps, mkt, m, escrow_balance as int),
        spec_place_stake(
            m,
            mkt,
            None,
            staker,
            signed,
            clock,
            side,
            amount,
            funding_balance,
            escrow_balance,
        ) == Ok::<StakeEffect, BetError>(se),
    ensures
        books_balanced(ps.push(se.position), mkt, se.market, se.escrow_after as int),
{
    lemma_stake_sum_push(ps, se.position, mkt);
}

/// The accounting invariant across a repeated stake: updating the staker's
/// existing position preserves the balance the same way.
pub proof fn lemma_stake_balanced_existing(
    ps: Seq<Position>,
    i: int,
    m: Market,
    mkt: Addr,
    staker: Addr,
    signed: bool,
    clock: u64,
    side: u8,
    amount: u64,
    funding_balance: u64,
    escrow_balance: u64,
    se: StakeEffect,
)
    requires
        0 <= i < ps.len(),
        books_balanced(ps, mkt, m, escrow_balance as int),
        spec_place_stake(
            m,
            mkt,
            Some(ps[i]),
            staker,
            signed,
            clock,
            side,
            amount,
            funding_balance,
            escrow_balance,
        ) == Ok::<StakeEffect, BetError>(se),
    ensures
        books_balanced(ps.update(i, se.position), mkt, se.market, se.escrow_after as int),
{
    lemma_stake_sum_update(ps, i, se.position, mkt);
}

/// The accounting invariant across resolution: no position, total or
/// escrow unit moves.
pub proof fn lemma_resolve_balanced(
    ps: Seq<Position>,
    mkt: Addr,
    m: Market,
    escrow: int,
    signer: Addr,
    signed: bool,
    clock: u64,
    outcome: u8,
    m2: Market,
)
    requires
        books_balanced(ps, mkt, m, escrow),
        spec_resolve_market(m, signer, signed, clock, outcome) == Ok::<Market, BetError>(m2),
    ensures
        books_balanced(ps, mkt, m2, escrow),
{
}

/// The accounting invariant across cancellation: likewise untouched.
pub proof fn lemma_cancel_balanced(
    ps: Seq<Position>,
    mkt: Addr,
    m: Market,
    escrow: int,
    signer: Addr,
    signed: bool,
    clock: u64,
    m2: Market,
)
    requires
        books_balanced(ps, mkt, m, escrow),
        spec_cancel_market(m, signer, signed, clock) == Ok::<Market, BetError>(m2),
    ensures
        books_balanced(ps, mkt, m2, escrow),
{
}

/// What survives of the accounting balance across a claim: exactly the
/// computed payout leaves escrow, it always fits the balance — the escrow
/// can never overdraw — and the position comes back flagged claimed. (A
/// winning claim pays out more than the position's own stake, so the
/// three-way balance itself holds between handlers only until the first
/// claim.)
pub proof fn lemma_claim_escrow_safe(
    m: Market,
    mkt: Addr,
    p: Position,
    claimer: Addr,
    signed: bool,
    escrow_balance: u64,
    ce: ClaimEffect,
)
    requires
        spec_claim_payout(m, mkt, p, claimer, signed, escrow_balance) == Ok::<
            ClaimEffect,
            BetError,
        >(ce),
    ensures
        ce.payout <= escrow_balance,
        ce.escrow_after == escrow_balance - ce.payout,
        ce.position.claimed,
        ce.position.amount == p.amount,
        ce.position.owner == p.owner,
{
}

/// The refund leg of the accounting balance: where a claim pays a position
/// exactly its stake back — a cancelled market, or a resolved one whose
/// winning side holds no stake — the live stake recorded by the positions
/// still matches the escrow balance afterwards.
pub proof fn lemma_refund_claim_balanced(
    ps: Seq<Position>,
    i: int,
    m: Market,
    mkt: Addr,
    claimer: Addr,
    signed: bool,
    escrow_balance: u64,
    ce: ClaimEffect,
)
    requires
        0 <= i < ps.len(),
        stake_sum(ps, mkt) == escrow_balance,
        m.status is Cancelled || spec_winning_total(m) == 0,
        spec_claim_payout(m, mkt, ps[i], claimer, signed, escrow_balance) == Ok::<
            ClaimEffect,
            BetError,
        >(ce),
    ensures
        stake_sum(ps.update(i, ce.position), mkt) == ce.escrow_after,
{
    lemma_stake_sum_update(ps, i, ce.position, mkt);
}

/// Idempotence of claiming: after one successful claim the same position
/// is refused with `AlreadyClaimed`, whatever the escrow holds by then; the
/// failed second attempt moves nothing, so the escrow balance stays as the
/// first claim left it.
pub proof fn lemma_claim_idempotent(
    m: Market,
    mkt: Addr,
    p: Position,
    claimer: Addr,
    signed: bool,
    escrow_balance: u64,
    escrow_later: u64,
    ce: ClaimEffect,
)
    requires
        spec_claim_payout(m, mkt, p, claimer, signed, escrow_balance) == Ok::<
            ClaimEffect,
            BetError,
        >(ce),
    ensures
        spec_claim_payout(ce.market, mkt, ce.position, claimer, signed, escrow_later) == Err::<
            ClaimEffect,
            BetError,
        >(BetError::AlreadyClaimed),
{
}

/// The refund-all policy: in a resolved market whose winning side carries
/// no stake at all, the payout formula's denominator would be zero; instead
/// every position — winning side or not — is owed exactly its original
/// stake, and the claim succeeds whenever the escrow covers it.
pub proof fn lemma_zero_winner_refund(
    m: Market,
    mkt: Addr,
    p: Position,
    claimer: Addr,
    signed: bool,
    escrow_balance: u64,
)
    requires
        m.status is Resolved,
        spec_winning_total(m) == 0,
        spec_market_total(m) <= u64::MAX,
        signed,
        p.owner == claimer,
        p.market == mkt,
        !p.claimed,
        p.amount <= escrow_balance,
    ensures
        spec_claim_payout(m, mkt, p, claimer, signed, escrow_balance) is Ok,
        spec_claim_payout(m, mkt, p, claimer, signed, escrow_balance)->Ok_0.payout == p.amount,
{
}

/// The refund-all policy holds in every balanced state with no side
/// condition: the accounting invariant itself guarantees that the escrow
/// covers an unclaimed position's stake, so resolving onto an empty winning
/// side owes every participant a successful claim of exactly what they
/// staked.
pub proof fn lemma_zero_winner_refund_owed(
    ps: Seq<Position>,
    i: int,
    m: Market,
    mkt: Addr,
    claimer: Addr,
    escrow_balance: u64,
)
    requires
        books_balanced(ps, mkt, m, escrow_balance as int),
        0 <= i < ps.len(),
        m.status is Resolved,
        spec_winning_total(m) == 0,
        ps[i].owner == claimer,
        ps[i].market == mkt,
        !ps[i].claimed,
    ensures
        spec_claim_payout(m, mkt, ps[i], claimer, true, escrow_balance) is Ok,
        spec_claim_payout(m, mkt, ps[i], claimer, true, escrow_balance)->Ok_0.payout == ps[
            i
        ].amount,
{
    lemma_stake_sum_element_bound(ps, i, mkt);
    lemma_zero_winner_refund(m, mkt, ps[i], claimer, true, escrow_balance);
}

/// The deadline is a strict bound: a stake submitted when the clock equals
/// the recorded deadline is rejected with `DeadlinePassed`, whatever the
/// side, amount, funding or position.
pub proof fn lemma_deadline_boundary(
    m: Market,
    mkt: Addr,
    existing: Option<Position>,
    staker: Addr,
    clock: u64,
    side: u8,
    amount: u64,
    funding_balance: u64,
    escrow_balance: u64,
)
    requires
        m.status is Open,
        clock == m.deadline,
    ensures
        spec_place_stake(
            m,
            mkt,
            existing,
            staker,
            true,
            clock,
            side,
            amount,
            funding_balance,
            escrow_balance,
        ) == Err::<StakeEffect, BetError>(BetError::DeadlinePassed),
{
}

/// The resolver's exclusive authority: a resolution attempt without a
/// signature, or signed by anyone but the recorded resolver, fails with
/// `UnauthorizedSigner` before anything else is even examined — and a
/// failing instruction writes nothing back.
pub proof fn lemma_unauthorized_resolve(
    m: Market,
    signer: Addr,
    signed: bool,
    clock: u64,
    outcome: u8,
)
    requires
        !signed || signer != m.resolver,
    ensures
        spec_resolve_market(m, signer, signed, clock, outcome) == Err::<Market, BetError>(
            BetError::UnauthorizedSigner,
        ),
{
}

/// Every handler hands back well-formed records when given well-formed
/// ones, so well-formedness is an invariant of the whole machine.
pub proof fn lemma_create_wf(
    creator: Addr,
    signed: bool,
    initialized: bool,
    owned: bool,
    data_len: nat,
    clock: u64,
    deadline: u64,
    resolver: Addr,
    escrow: Addr,
    escrow_balance: u64,
    m: Market,
)
    requires
        spec_create_market(
            creator,
            signed,
            initialized,
            owned,
            data_len,
            clock,
            deadline,
            resolver,
            escrow,
            escrow_balance,
        ) == Ok::<Market, BetError>(m),
    ensures
        m.wf(),
{
}

pub proof fn lemma_stake_wf(
    m: Market,
    mkt: Addr,
    existing: Option<Position>,
    staker: Addr,
    signed: bool,
    clock: u64,
    side: u8,
    amount: u64,
    funding_balance: u64,
    escrow_balance: u64,
    se: StakeEffect,
)
    requires
        m.wf(),
        spec_place_stake(
            m,
            mkt,
            existing,
            staker,
            signed,
            clock,
            side,
            amount,
            funding_balance,
            escrow_balance,
        ) == Ok::<StakeEffect, BetError>(se),
    ensures
        se.market.wf(),
        se.position.wf(),
{
}

pub proof fn lemma_resolve_wf(
    m: Market,
    signer: Addr,
    signed: bool,
    clock: u64,
    outcome: u8,
    m2: Market,
)
    requires
        m.wf(),
        spec_resolve_market(m, signer, signed, clock, outcome) == Ok::<Market, BetError>(m2),
    ensures
        m2.wf(),
{
}

pub proof fn lemma_cancel_wf(m: Market, signer: Addr, signed: bool, clock: u64, m2: Market)
    requires
        m.wf(),
        spec_cancel_market(m, signer, signed, clock) == Ok::<Market, BetError>(m2),
    ensures
        m2.wf(),
{
}

pub proof fn lemma_claim_wf(
    m: Market,
    mkt: Addr,
    p: Position,
    claimer: Addr,
    signed: bool,
    escrow_balance: u64,
    ce: ClaimEffect,
)
    requires
        m.wf(),
        p.wf(),
        spec_claim_payout(m, mkt, p, claimer, signed, escrow_balance) == Ok::<
            ClaimEffect,
            BetError,
        >(ce),
    ensures
        ce.market.wf(),
        ce.position.wf(),
{
}

} // verus!
