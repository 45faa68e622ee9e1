use psych_betting::error::BetError;
use psych_betting::instruction::BetInstruction;
use psych_betting::processor::{
    cancel_market, claim_payout, create_market, place_stake, process, resolve_market, Effect,
    InvocationCtx,
};
use psych_betting::state::{Addr, Market, MarketStatus, Position, MARKET_LEN};

fn addr(n: u64) -> Addr {
    Addr { w0: n, w1: 0, w2: 0, w3: 0 }
}

fn creator() -> Addr {
    addr(1)
}

fn resolver() -> Addr {
    addr(2)
}

fn escrow_key() -> Addr {
    addr(3)
}

fn market_key() -> Addr {
    addr(4)
}

fn user_x() -> Addr {
    addr(5)
}

fn user_y() -> Addr {
    addr(6)
}

const DEADLINE: u64 = 1_000;

fn new_market() -> Market {
    create_market(
        creator(),
        true,
        false,
        true,
        MARKET_LEN,
        0,
        DEADLINE,
        resolver(),
        escrow_key(),
        0,
    )
    .unwrap()
}

#[test]
fn create_market_initializes_open_and_empty() {
    let m = new_market();
    assert_eq!(m.status, MarketStatus::Open);
    assert_eq!(m.total_side_a, 0);
    assert_eq!(m.total_side_b, 0);
    assert_eq!(m.creator, creator());
    assert_eq!(m.resolver, resolver());
    assert_eq!(m.escrow, escrow_key());
    assert_eq!(m.deadline, DEADLINE);
    assert_eq!(m.winning_side, 0);
}

#[test]
fn create_market_rejects_deadline_not_in_future() {
    let r = create_market(
        creator(),
        true,
        false,
        true,
        MARKET_LEN,
        DEADLINE,
        DEADLINE,
        resolver(),
        escrow_key(),
        0,
    );
    assert_eq!(r, Err(BetError::DeadlinePassed));
}

#[test]
fn create_market_rejects_initialized_account() {
    let r = create_market(
        creator(),
        true,
        true,
        true,
        MARKET_LEN,
        0,
        DEADLINE,
        resolver(),
        escrow_key(),
        0,
    );
    assert_eq!(r, Err(BetError::AccountAlreadyInitialized));
}

#[test]
fn create_market_rejects_unsigned_and_unowned_and_missized() {
    let unsigned = create_market(
        creator(),
        false,
        false,
        true,
        MARKET_LEN,
        0,
        DEADLINE,
        resolver(),
        escrow_key(),
        0,
    );
    assert_eq!(unsigned, Err(BetError::UnauthorizedSigner));
    let unowned = create_market(
        creator(),
        true,
        false,
        false,
        MARKET_LEN,
        0,
        DEADLINE,
        resolver(),
        escrow_key(),
        0,
    );
    assert_eq!(unowned, Err(BetError::AccountOwnershipMismatch));
    let missized = create_market(
        creator(),
        true,
        false,
        true,
        MARKET_LEN - 1,
        0,
        DEADLINE,
        resolver(),
        escrow_key(),
        0,
    );
    assert_eq!(missized, Err(BetError::InvalidInstructionData));
}

#[test]
fn create_market_rejects_prefunded_escrow() {
    let r = create_market(
        creator(),
        true,
        false,
        true,
        MARKET_LEN,
        0,
        DEADLINE,
        resolver(),
        escrow_key(),
        7,
    );
    assert_eq!(r, Err(BetError::AccountAlreadyInitialized));
}

#[test]
fn place_stake_creates_position_and_moves_amount() {
    let m = new_market();
    let se = place_stake(m, market_key(), None, user_x(), true, 10, 0, 100, 500, 0).unwrap();
    assert_eq!(se.market.total_side_a, 100);
    assert_eq!(se.market.total_side_b, 0);
    assert_eq!(se.position.owner, user_x());
    assert_eq!(se.position.market, market_key());
    assert_eq!(se.position.side, 0);
    assert_eq!(se.position.amount, 100);
    assert!(!se.position.claimed);
    assert_eq!(se.transfer, 100);
    assert_eq!(se.escrow_after, 100);
}

#[test]
fn place_stake_increments_existing_position() {
    let m = new_market();
    let se1 = place_stake(m, market_key(), None, user_x(), true, 10, 1, 40, 500, 0).unwrap();
    let se2 = place_stake(
        se1.market,
        market_key(),
        Some(se1.position),
        user_x(),
        true,
        20,
        1,
        60,
        400,
        se1.escrow_after,
    )
    .unwrap();
    assert_eq!(se2.market.total_side_b, 100);
    assert_eq!(se2.position.amount, 100);
    assert_eq!(se2.escrow_after, 100);
}

#[test]
fn place_stake_at_exact_deadline_fails() {
    let m = new_market();
    let r = place_stake(m, market_key(), None, user_x(), true, DEADLINE, 0, 100, 500, 0);
    assert_eq!(r, Err(BetError::DeadlinePassed));
}

#[test]
fn place_stake_rejects_bad_side_zero_amount_and_underfunding() {
    let m = new_market();
    let bad_side = place_stake(m, market_key(), None, user_x(), true, 10, 2, 100, 500, 0);
    assert_eq!(bad_side, Err(BetError::InvalidOutcomeSelection));
    let zero = place_stake(m, market_key(), None, user_x(), true, 10, 0, 0, 500, 0);
    assert_eq!(zero, Err(BetError::InvalidInstructionData));
    let poor = place_stake(m, market_key(), None, user_x(), true, 10, 0, 100, 99, 0);
    assert_eq!(poor, Err(BetError::InsufficientFunds));
}

#[test]
fn place_stake_rejects_foreign_or_mismatched_position() {
    let m = new_market();
    let se = place_stake(m, market_key(), None, user_x(), true, 10, 0, 100, 500, 0).unwrap();
    let stolen = place_stake(
        se.market,
        market_key(),
        Some(se.position),
        user_y(),
        true,
        20,
        0,
        50,
        500,
        se.escrow_after,
    );
    assert_eq!(stolen, Err(BetError::UnauthorizedSigner));
    let wrong_market = place_stake(
        se.market,
        addr(99),
        Some(se.position),
        user_x(),
        true,
        20,
        0,
        50,
        500,
        se.escrow_after,
    );
    assert_eq!(wrong_market, Err(BetError::MarketNotFound));
    let switched_side = place_stake(
        se.market,
        market_key(),
        Some(se.position),
        user_x(),
        true,
        20,
        1,
        50,
        500,
        se.escrow_after,
    );
    assert_eq!(switched_side, Err(BetError::InvalidOutcomeSelection));
}

#[test]
fn place_stake_rejects_total_overflow() {
    let mut m = new_market();
    m.total_side_a = u64::MAX - 10;
    let r = place_stake(m, market_key(), None, user_x(), true, 10, 0, 11, u64::MAX, 0);
    assert_eq!(r, Err(BetError::ArithmeticOverflow));
}

#[test]
fn place_stake_rejects_closed_market() {
    let m = new_market();
    let resolved = resolve_market(m, resolver(), true, DEADLINE, 0).unwrap();
    let r = place_stake(resolved, market_key(), None, user_x(), true, 10, 0, 100, 500, 0);
    assert_eq!(r, Err(BetError::MarketClosedForStaking));
}

#[test]
fn resolve_market_records_outcome() {
    let m = new_market();
    let r = resolve_market(m, resolver(), true, DEADLINE, 1).unwrap();
    assert_eq!(r.status, MarketStatus::Resolved);
    assert_eq!(r.winning_side, 1);
    assert_eq!(r.total_side_a, m.total_side_a);
    assert_eq!(r.total_side_b, m.total_side_b);
}

#[test]
fn resolve_market_rejects_unauthorized_signer() {
    let m = new_market();
    assert_eq!(
        resolve_market(m, user_x(), true, DEADLINE, 0),
        Err(BetError::UnauthorizedSigner)
    );
    assert_eq!(
        resolve_market(m, resolver(), false, DEADLINE, 0),
        Err(BetError::UnauthorizedSigner)
    );
}

#[test]
fn resolve_market_rejects_early_twice_and_bad_outcome() {
    let m = new_market();
    assert_eq!(
        resolve_market(m, resolver(), true, DEADLINE - 1, 0),
        Err(BetError::DeadlineNotReached)
    );
    assert_eq!(
        resolve_market(m, resolver(), true, DEADLINE, 2),
        Err(BetError::InvalidOutcomeSelection)
    );
    let once = resolve_market(m, resolver(), true, DEADLINE, 0).unwrap();
    assert_eq!(
        resolve_market(once, resolver(), true, DEADLINE, 0),
        Err(BetError::MarketAlreadyResolved)
    );
}

#[test]
fn cancel_market_by_creator_before_any_stake() {
    let m = new_market();
    let c = cancel_market(m, creator(), true, 10).unwrap();
    assert_eq!(c.status, MarketStatus::Cancelled);
}

#[test]
fn cancel_market_with_stakes_only_resolver_before_deadline() {
    let m = new_market();
    let se = place_stake(m, market_key(), None, user_x(), true, 10, 0, 100, 500, 0).unwrap();
    assert_eq!(
        cancel_market(se.market, creator(), true, 20),
        Err(BetError::UnauthorizedSigner)
    );
    assert_eq!(
        cancel_market(se.market, resolver(), true, DEADLINE),
        Err(BetError::DeadlinePassed)
    );
    let c = cancel_market(se.market, resolver(), true, 20).unwrap();
    assert_eq!(c.status, MarketStatus::Cancelled);
    assert_eq!(
        cancel_market(c, resolver(), true, 20),
        Err(BetError::MarketAlreadyResolved)
    );
}

#[test]
fn end_to_end_two_sided_market_settles() {
    // stake 100 on side a from x and 300 on side b from y, resolve to a:
    // x is owed 100 * (100 + 300) / 100 = 400, y nothing, escrow drains to zero
    let m = new_market();
    let sx = place_stake(m, market_key(), None, user_x(), true, 10, 0, 100, 1_000, 0).unwrap();
    let sy = place_stake(
        sx.market,
        market_key(),
        None,
        user_y(),
        true,
        20,
        1,
        300,
        1_000,
        sx.escrow_after,
    )
    .unwrap();
    assert_eq!(sy.market.total_side_a, 100);
    assert_eq!(sy.market.total_side_b, 300);
    assert_eq!(sy.escrow_after, 400);

    let resolved = resolve_market(sy.market, resolver(), true, DEADLINE, 0).unwrap();

    let cx = claim_payout(
        resolved,
        market_key(),
        sx.position,
        user_x(),
        true,
        sy.escrow_after,
    )
    .unwrap();
    assert_eq!(cx.payout, 400);
    assert_eq!(cx.escrow_after, 0);
    assert_eq!(cx.market.status, MarketStatus::Settled);
    assert!(cx.position.claimed);

    let cy = claim_payout(
        cx.market,
        market_key(),
        sy.position,
        user_y(),
        true,
        cx.escrow_after,
    )
    .unwrap();
    assert_eq!(cy.payout, 0);
    assert_eq!(cy.escrow_after, 0);
    assert_eq!(cy.market.status, MarketStatus::Settled);
}

#[test]
fn claim_twice_fails_with_already_claimed() {
    let m = new_market();
    let sx = place_stake(m, market_key(), None, user_x(), true, 10, 0, 100, 1_000, 0).unwrap();
    let resolved = resolve_market(sx.market, resolver(), true, DEADLINE, 0).unwrap();
    let c1 = claim_payout(
        resolved,
        market_key(),
        sx.position,
        user_x(),
        true,
        sx.escrow_after,
    )
    .unwrap();
    let again = claim_payout(
        c1.market,
        market_key(),
        c1.position,
        user_x(),
        true,
        c1.escrow_after,
    );
    assert_eq!(again, Err(BetError::AlreadyClaimed));
    // the failed attempt asks for no transfer, so escrow stays where the
    // first claim left it
    assert_eq!(c1.escrow_after, 0);
}

#[test]
fn zero_stake_winning_side_refunds_original_stakes() {
    // everything sits on side b, but side a wins: the refund-all policy
    // hands y its 300 back instead of dividing by zero
    let m = new_market();
    let sy = place_stake(m, market_key(), None, user_y(), true, 10, 1, 300, 1_000, 0).unwrap();
    let resolved = resolve_market(sy.market, resolver(), true, DEADLINE, 0).unwrap();
    assert_eq!(resolved.total_side_a, 0);
    let cy = claim_payout(
        resolved,
        market_key(),
        sy.position,
        user_y(),
        true,
        sy.escrow_after,
    )
    .unwrap();
    assert_eq!(cy.payout, 300);
    assert_eq!(cy.escrow_after, 0);
    assert!(cy.position.claimed);
}

#[test]
fn cancelled_market_refunds_stakes() {
    let m = new_market();
    let sx = place_stake(m, market_key(), None, user_x(), true, 10, 0, 250, 1_000, 0).unwrap();
    let cancelled = cancel_market(sx.market, resolver(), true, 20).unwrap();
    let cx = claim_payout(
        cancelled,
        market_key(),
        sx.position,
        user_x(),
        true,
        sx.escrow_after,
    )
    .unwrap();
    assert_eq!(cx.payout, 250);
    assert_eq!(cx.escrow_after, 0);
    assert_eq!(cx.market.status, MarketStatus::Cancelled);
}

#[test]
fn claim_requires_resolution_ownership_and_market_match() {
    let m = new_market();
    let sx = place_stake(m, market_key(), None, user_x(), true, 10, 0, 100, 1_000, 0).unwrap();
    assert_eq!(
        claim_payout(sx.market, market_key(), sx.position, user_x(), true, 100),
        Err(BetError::MarketNotResolved)
    );
    let resolved = resolve_market(sx.market, resolver(), true, DEADLINE, 0).unwrap();
    assert_eq!(
        claim_payout(resolved, market_key(), sx.position, user_y(), true, 100),
        Err(BetError::UnauthorizedSigner)
    );
    assert_eq!(
        claim_payout(resolved, addr(99), sx.position, user_x(), true, 100),
        Err(BetError::MarketNotFound)
    );
    assert_eq!(
        claim_payout(resolved, market_key(), sx.position, user_x(), true, 10),
        Err(BetError::InsufficientFunds)
    );
}

#[test]
fn payout_truncates_toward_zero() {
    // a one-sided pool pays a position exactly its share back
    let mut m = new_market();
    m = resolve_market(
        Market { total_side_a: 10, total_side_b: 0, ..m },
        resolver(),
        true,
        DEADLINE,
        0,
    )
    .unwrap();
    let p = Position { owner: user_x(), market: market_key(), amount: 7, side: 0, claimed: false };
    let c = claim_payout(m, market_key(), p, user_x(), true, 10).unwrap();
    assert_eq!(c.payout, 7);
    // 2 of the 3 winning units in a 10-unit pool: 2 * 10 / 3 rounds down
    // from 6.66 to 6; the remainder stays in escrow for later claims
    let m2 = Market { total_side_a: 3, total_side_b: 7, ..m };
    let p2 = Position { amount: 2, ..p };
    let c2 = claim_payout(m2, market_key(), p2, user_x(), true, 10).unwrap();
    assert_eq!(c2.payout, 6);
    assert_eq!(c2.escrow_after, 4);
}

fn base_ctx() -> InvocationCtx {
    InvocationCtx {
        signer: creator(),
        signed: true,
        clock: 0,
        market_key: market_key(),
        escrow_key: escrow_key(),
        market: None,
        market_owned: true,
        market_initialized: false,
        market_data_len: MARKET_LEN,
        position: None,
        position_owned: true,
        escrow_balance: 0,
        funding_balance: 1_000,
    }
}

#[test]
fn process_dispatches_create_and_stake() {
    let ctx = base_ctx();
    let data = BetInstruction::CreateMarket { deadline: DEADLINE, resolver: resolver() }.pack();
    let m = match process(&ctx, &data) {
        Ok(Effect::MarketCreated(m)) => m,
        other => panic!("unexpected outcome: {:?}", other),
    };
    assert_eq!(m.status, MarketStatus::Open);

    let mut ctx2 = base_ctx();
    ctx2.signer = user_x();
    ctx2.clock = 10;
    ctx2.market = Some(m);
    ctx2.market_initialized = true;
    let data2 = BetInstruction::PlaceStake { side: 0, amount: 100 }.pack();
    match process(&ctx2, &data2) {
        Ok(Effect::StakePlaced(se)) => {
            assert_eq!(se.market.total_side_a, 100);
            assert_eq!(se.transfer, 100);
        },
        other => panic!("unexpected outcome: {:?}", other),
    }
}

#[test]
fn process_propagates_decode_and_account_errors() {
    let ctx = base_ctx();
    let empty: Vec<u8> = Vec::new();
    assert_eq!(process(&ctx, &empty), Err(BetError::InvalidInstructionData));

    let mut unowned = base_ctx();
    unowned.market_owned = false;
    let data = BetInstruction::CancelMarket.pack();
    assert_eq!(process(&unowned, &data), Err(BetError::AccountOwnershipMismatch));

    let absent = base_ctx();
    assert_eq!(
        process(&absent, &BetInstruction::CancelMarket.pack()),
        Err(BetError::MarketNotFound)
    );

    let mut no_position = base_ctx();
    no_position.market = Some(new_market());
    assert_eq!(
        process(&no_position, &BetInstruction::ClaimPayout.pack()),
        Err(BetError::InvalidInstructionData)
    );

    let mut foreign_position = base_ctx();
    foreign_position.market = Some(new_market());
    foreign_position.position = Some(Position {
        owner: user_x(),
        market: market_key(),
        amount: 5,
        side: 0,
        claimed: false,
    });
    foreign_position.position_owned = false;
    assert_eq!(
        process(&foreign_position, &BetInstruction::ClaimPayout.pack()),
        Err(BetError::AccountOwnershipMismatch)
    );
}

#[test]
fn process_rejects_escrow_not_named_by_the_market() {
    // the market record names escrow_key(); supplying any other account in
    // the escrow slot must fail before a single unit moves
    let m = new_market();
    let mut staking = base_ctx();
    staking.signer = user_x();
    staking.clock = 10;
    staking.market = Some(m);
    staking.market_initialized = true;
    staking.escrow_key = addr(99);
    assert_eq!(
        process(&staking, &BetInstruction::PlaceStake { side: 0, amount: 100 }.pack()),
        Err(BetError::AccountOwnershipMismatch)
    );

    let sx = place_stake(m, market_key(), None, user_x(), true, 10, 0, 100, 1_000, 0).unwrap();
    let resolved = resolve_market(sx.market, resolver(), true, DEADLINE, 0).unwrap();
    let mut claiming = base_ctx();
    claiming.signer = user_x();
    claiming.market = Some(resolved);
    claiming.market_initialized = true;
    claiming.position = Some(sx.position);
    claiming.escrow_balance = sx.escrow_after;
    claiming.escrow_key = addr(99);
    assert_eq!(
        process(&claiming, &BetInstruction::ClaimPayout.pack()),
        Err(BetError::AccountOwnershipMismatch)
    );
    // the same context with the market's own escrow goes through
    claiming.escrow_key = escrow_key();
    match process(&claiming, &BetInstruction::ClaimPayout.pack()) {
        Ok(Effect::PayoutClaimed(ce)) => assert_eq!(ce.payout, 100),
        other => panic!("unexpected outcome: {:?}", other),
    }
}

#[test]
fn process_rejects_unowned_position_slot_for_stake() {
    // an unowned, still-empty position account arrives as no record at all;
    // the dispatcher must refuse to have a fresh position written into it
    let mut ctx = base_ctx();
    ctx.signer = user_x();
    ctx.clock = 10;
    ctx.market = Some(new_market());
    ctx.market_initialized = true;
    ctx.position = None;
    ctx.position_owned = false;
    assert_eq!(
        process(&ctx, &BetInstruction::PlaceStake { side: 0, amount: 100 }.pack()),
        Err(BetError::AccountOwnershipMismatch)
    );
}

#[test]
fn status_never_regresses_over_accepted_instructions() {
    // drive one market through a full accepted history and watch the
    // status only ever march forward
    let rank = |s: MarketStatus| match s {
        MarketStatus::Open => 0,
        MarketStatus::Resolved => 1,
        MarketStatus::Settled => 2,
        MarketStatus::Cancelled => 2,
    };
    let mut m = new_market();
    let mut last = rank(m.status);
    let sx = place_stake(m, market_key(), None, user_x(), true, 10, 0, 100, 1_000, 0).unwrap();
    m = sx.market;
    assert!(rank(m.status) >= last);
    last = rank(m.status);
    m = resolve_market(m, resolver(), true, DEADLINE, 0).unwrap();
    assert!(rank(m.status) >= last);
    last = rank(m.status);
    let cx = claim_payout(m, market_key(), sx.position, user_x(), true, sx.escrow_after).unwrap();
    m = cx.market;
    assert!(rank(m.status) >= last);
    assert_eq!(m.status, MarketStatus::Settled);
}
