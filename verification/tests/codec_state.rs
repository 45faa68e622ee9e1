use psych_betting::codec::{push_le_u64, read_le_u64};
use psych_betting::error::BetError;
use psych_betting::instruction::BetInstruction;
use psych_betting::state::{
    Addr, Market, MarketStatus, Position, MARKET_LEN, POSITION_LEN, TAG_MARKET, TAG_POSITION,
};

fn addr(n: u64) -> Addr {
    Addr { w0: n, w1: n + 1, w2: n + 2, w3: n + 3 }
}

fn sample_market() -> Market {
    Market {
        creator: addr(10),
        resolver: addr(20),
        escrow: addr(30),
        deadline: 1_000,
        total_side_a: 100,
        total_side_b: 300,
        status: MarketStatus::Open,
        winning_side: 0,
    }
}

#[test]
fn le_u64_round_trips() {
    let mut buf: Vec<u8> = Vec::new();
    push_le_u64(&mut buf, 0);
    push_le_u64(&mut buf, u64::MAX);
    push_le_u64(&mut buf, 0x0123_4567_89ab_cdef);
    assert_eq!(buf.len(), 24);
    assert_eq!(read_le_u64(&buf, 0), 0);
    assert_eq!(read_le_u64(&buf, 8), u64::MAX);
    assert_eq!(read_le_u64(&buf, 16), 0x0123_4567_89ab_cdef);
}

#[test]
fn le_u64_exact_bytes() {
    let mut buf: Vec<u8> = Vec::new();
    push_le_u64(&mut buf, 0x0123_4567_89ab_cdef);
    assert_eq!(buf, vec![0xef, 0xcd, 0xab, 0x89, 0x67, 0x45, 0x23, 0x01]);
}

#[test]
fn market_pack_unpack_round_trips() {
    let m = sample_market();
    let bytes = m.pack();
    assert_eq!(bytes.len(), MARKET_LEN);
    assert_eq!(bytes[0], TAG_MARKET);
    assert_eq!(Market::unpack(&bytes), Ok(m));
}

#[test]
fn market_resolved_round_trips() {
    let m = Market {
        status: MarketStatus::Resolved,
        winning_side: 1,
        ..sample_market()
    };
    let bytes = m.pack();
    assert_eq!(Market::unpack(&bytes), Ok(m));
}

#[test]
fn market_unpack_rejects_wrong_length() {
    let mut bytes = sample_market().pack();
    bytes.push(0);
    assert_eq!(Market::unpack(&bytes), Err(BetError::AccountOwnershipMismatch));
}

#[test]
fn market_unpack_rejects_wrong_discriminator() {
    let mut bytes = sample_market().pack();
    bytes[0] = TAG_POSITION;
    assert_eq!(Market::unpack(&bytes), Err(BetError::AccountOwnershipMismatch));
}

#[test]
fn market_unpack_rejects_unknown_status_byte() {
    let mut bytes = sample_market().pack();
    bytes[121] = 9;
    assert_eq!(Market::unpack(&bytes), Err(BetError::InvalidInstructionData));
}

#[test]
fn market_unpack_rejects_ill_formed_winning_side() {
    let mut bytes = sample_market().pack();
    bytes[121] = 1; // resolved
    bytes[122] = 7; // no such side
    assert_eq!(Market::unpack(&bytes), Err(BetError::InvalidInstructionData));
}

#[test]
fn position_pack_unpack_round_trips() {
    let p = Position {
        owner: addr(40),
        market: addr(50),
        amount: 12_345,
        side: 1,
        claimed: false,
    };
    let bytes = p.pack();
    assert_eq!(bytes.len(), POSITION_LEN);
    assert_eq!(bytes[0], TAG_POSITION);
    assert_eq!(Position::unpack(&bytes), Ok(p));
}

#[test]
fn claimed_position_round_trips() {
    let p = Position {
        owner: addr(40),
        market: addr(50),
        amount: 1,
        side: 0,
        claimed: true,
    };
    assert_eq!(Position::unpack(&p.pack()), Ok(p));
}

#[test]
fn position_unpack_rejects_bad_claim_byte() {
    let p = Position {
        owner: addr(40),
        market: addr(50),
        amount: 1,
        side: 0,
        claimed: false,
    };
    let mut bytes = p.pack();
    bytes[74] = 2;
    assert_eq!(Position::unpack(&bytes), Err(BetError::InvalidInstructionData));
}

#[test]
fn position_unpack_rejects_bad_side() {
    let p = Position {
        owner: addr(40),
        market: addr(50),
        amount: 1,
        side: 0,
        claimed: false,
    };
    let mut bytes = p.pack();
    bytes[73] = 3;
    assert_eq!(Position::unpack(&bytes), Err(BetError::InvalidInstructionData));
}

#[test]
fn status_bytes_round_trip() {
    for st in [
        MarketStatus::Open,
        MarketStatus::Resolved,
        MarketStatus::Settled,
        MarketStatus::Cancelled,
    ] {
        assert_eq!(MarketStatus::of_byte(st.to_byte()), Some(st));
    }
    assert_eq!(MarketStatus::of_byte(4), None);
}

#[test]
fn instruction_round_trips() {
    let cases = [
        BetInstruction::CreateMarket { deadline: 77, resolver: addr(20) },
        BetInstruction::PlaceStake { side: 1, amount: 400 },
        BetInstruction::ResolveMarket { outcome: 0 },
        BetInstruction::ClaimPayout,
        BetInstruction::CancelMarket,
    ];
    for i in cases {
        assert_eq!(BetInstruction::unpack(&i.pack()), Ok(i));
    }
}

#[test]
fn instruction_unpack_rejects_empty_buffer() {
    let empty: Vec<u8> = Vec::new();
    assert_eq!(BetInstruction::unpack(&empty), Err(BetError::InvalidInstructionData));
}

#[test]
fn instruction_unpack_rejects_unknown_tag() {
    assert_eq!(BetInstruction::unpack(&vec![9u8]), Err(BetError::InvalidInstructionData));
}

#[test]
fn instruction_unpack_rejects_wrong_payload_length() {
    // a PlaceStake tag with a truncated payload
    assert_eq!(
        BetInstruction::unpack(&vec![1u8, 0, 1, 2]),
        Err(BetError::InvalidInstructionData)
    );
    // a ClaimPayout with a trailing byte
    assert_eq!(BetInstruction::unpack(&vec![3u8, 0]), Err(BetError::InvalidInstructionData));
}

#[test]
fn instruction_exact_encoding() {
    let bytes = BetInstruction::PlaceStake { side: 1, amount: 400 }.pack();
    assert_eq!(bytes, vec![1u8, 1, 0x90, 0x01, 0, 0, 0, 0, 0, 0]);
}

#[test]
fn error_codes_are_distinct() {
    let all = [
        BetError::InvalidInstructionData,
        BetError::MarketNotFound,
        BetError::MarketClosedForStaking,
        BetError::MarketNotResolved,
        BetError::MarketAlreadyResolved,
        BetError::UnauthorizedSigner,
        BetError::InsufficientFunds,
        BetError::ArithmeticOverflow,
        BetError::AccountOwnershipMismatch,
        BetError::AlreadyClaimed,
        BetError::DeadlinePassed,
        BetError::DeadlineNotReached,
        BetError::InvalidOutcomeSelection,
        BetError::AccountAlreadyInitialized,
    ];
    for (i, a) in all.iter().enumerate() {
        for (j, b) in all.iter().enumerate() {
            if i != j {
                assert_ne!(a.code(), b.code());
            }
        }
    }
}
