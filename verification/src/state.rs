//! The persisted state model: fixed-layout records for a betting market and
//! for one participant's stake position, with their well-formedness
//! invariants, byte encodings, validating decoders, and proved round trips.
//!
//! Every record starts with a discriminator byte so that an account holding
//! a record of the wrong kind is rejected instead of being reinterpreted.

use vstd::prelude::*;
use crate::codec::{
    le_bytes, le_value, lemma_le_bytes_len, lemma_le_bytes_of_value, lemma_le_u64_round_trip,
    lemma_le_value_u64_fits, push_le_u64, read_le_u64,
};
use crate::error::BetError;

verus! {

/// Discriminator byte of a market record.
pub const TAG_MARKET: u8 = 1;

/// Discriminator byte of a position record.
pub const TAG_POSITION: u8 = 2;

/// Encoded size of a market record.
pub const MARKET_LEN: usize = 123;

/// Encoded size of a position record.
pub const POSITION_LEN: usize = 75;

/// A ledger account address: a 256-bit key held as four 64-bit words,
/// stored little-endian word by word.
#[derive(Clone, Copy, Debug, PartialEq, Eq, Structural)]
pub struct Addr {
    pub w0: u64,
    pub w1: u64,
    pub w2: u64,
    pub w3: u64,
}

impl Addr {
    /// The 32-byte encoding of the address.
    pub open spec fn spec_bytes(self) -> Seq<u8> {
        le_bytes(self.w0 as nat, 8) + le_bytes(self.w1 as nat, 8) + le_bytes(self.w2 as nat, 8)
            + le_bytes(self.w3 as nat, 8)
    }
}

/// The address whose four words are read at `off`.
pub open spec fn spec_addr_at(s: Seq<u8>, off: int) -> Addr {
    Addr {
        w0: le_value(s.subrange(off, off + 8)) as u64,
        w1: le_value(s.subrange(off + 8, off + 16)) as u64,
        w2: le_value(s.subrange(off + 16, off + 24)) as u64,
        w3: le_value(s.subrange(off + 24, off + 32)) as u64,
    }
}

pub proof fn lemma_addr_bytes_len(a: Addr)
    ensures
        a.spec_bytes().len() == 32,
{
    lemma_le_bytes_len(a.w0 as nat, 8);
    lemma_le_bytes_len(a.w1 as nat, 8);
    lemma_le_bytes_len(a.w2 as nat, 8);
    lemma_le_bytes_len(a.w3 as nat, 8);
}

/// Reading an address back from its own encoding yields the same address.
pub proof fn lemma_addr_round_trip(a: Addr, s: Seq<u8>, off: int)
    requires
        0 <= off,
        off + 32 <= s.len(),
        s.subrange(off, off + 32) == a.spec_bytes(),
    ensures
        spec_addr_at(s, off) == a,
{
    lemma_le_bytes_len(a.w0 as nat, 8);
    lemma_le_bytes_len(a.w1 as nat, 8);
    lemma_le_bytes_len(a.w2 as nat, 8);
    lemma_le_bytes_len(a.w3 as nat, 8);
    let t = s.subrange(off, off + 32);
    assert(s.subrange(off, off + 8) =~= t.subrange(0, 8));
    assert(s.subrange(off + 8, off + 16) =~= t.subrange(8, 16));
    assert(s.subrange(off + 16, off + 24) =~= t.subrange(16, 24));
    assert(s.subrange(off + 24, off + 32) =~= t.subrange(24, 32));
    assert(t.subrange(0, 8) =~= le_bytes(a.w0 as nat, 8));
    assert(t.subrange(8, 16) =~= le_bytes(a.w1 as nat, 8));
    assert(t.subrange(16, 24) =~= le_bytes(a.w2 as nat, 8));
    assert(t.subrange(24, 32) =~= le_bytes(a.w3 as nat, 8));
    lemma_le_u64_round_trip(a.w0);
    lemma_le_u64_round_trip(a.w1);
    lemma_le_u64_round_trip(a.w2);
    lemma_le_u64_round_trip(a.w3);
}

/// An address read from bytes re-encodes to exactly those bytes: the
/// 32-byte encoding is canonical.
pub proof fn lemma_addr_bytes_canonical(s: Seq<u8>, off: int)
    requires
        0 <= off,
        off + 32 <= s.len(),
    ensures
        spec_addr_at(s, off).spec_bytes() == s.subrange(off, off + 32),
{
    let s0 = s.subrange(off, off + 8);
    let s1 = s.subrange(off + 8, off + 16);
    let s2 = s.subrange(off + 16, off + 24);
    let s3 = s.subrange(off + 24, off + 32);
    lemma_le_value_u64_fits(s, off);
    lemma_le_value_u64_fits(s, off + 8);
    lemma_le_value_u64_fits(s, off + 16);
    lemma_le_value_u64_fits(s, off + 24);
    lemma_le_bytes_of_value(s0);
    lemma_le_bytes_of_value(s1);
    lemma_le_bytes_of_value(s2);
    lemma_le_bytes_of_value(s3);
    assert(spec_addr_at(s, off).spec_bytes() =~= s.subrange(off, off + 32));
}

/// Append the 32-byte encoding of `a`.
pub fn push_addr(out: &mut Vec<u8>, a: Addr)
    ensures
        final(out)@ == old(out)@ + a.spec_bytes(),
{
    push_le_u64(out, a.w0);
    push_le_u64(out, a.w1);
    push_le_u64(out, a.w2);
    push_le_u64(out, a.w3);
    proof {
        assert(out@ =~= old(out)@ + a.spec_bytes());
    }
}

/// Read the address encoded at `off`.
pub fn read_addr(s: &Vec<u8>, off: usize) -> (a: Addr)
    requires
        off + 32 <= s@.len(),
    ensures
        a == spec_addr_at(s@, off as int),
{
    let n: usize = s.len();
    proof {
        assert(off + 32 <= n);
    }
    let w0 = read_le_u64(s, off);
    let w1 = read_le_u64(s, off + 8);
    let w2 = read_le_u64(s, off + 16);
    let w3 = read_le_u64(s, off + 24);
    proof {
        lemma_le_value_u64_fits(s@, off as int);
        lemma_le_value_u64_fits(s@, off as int + 8);
        lemma_le_value_u64_fits(s@, off as int + 16);
        lemma_le_value_u64_fits(s@, off as int + 24);
    }
    Addr { w0, w1, w2, w3 }
}

/// The lifecycle of a market. Transitions only ever move forward:
/// `Open` to `Resolved` to `Settled`, or `Open` to `Cancelled`.
#[derive(Clone, Copy, Debug, PartialEq, Eq, Structural)]
pub enum MarketStatus {
    /// Accepting stakes until the deadline.
    Open,
    /// The outcome is declared; payouts may be claimed.
    Resolved,
    /// Every custodied unit has been disbursed.
    Settled,
    /// Called off while open; stakes are refunded.
    Cancelled,
}

impl MarketStatus {
    /// The byte this status is stored as.
    pub open spec fn spec_byte(self) -> u8 {
        match self {
            MarketStatus::Open => 0,
            MarketStatus::Resolved => 1,
            MarketStatus::Settled => 2,
            MarketStatus::Cancelled => 3,
        }
    }

    /// The status a stored byte denotes, if any.
    pub open spec fn spec_of_byte(b: u8) -> Option<MarketStatus> {
        if b == 0 {
            Some(MarketStatus::Open)
        } else if b == 1 {
            Some(MarketStatus::Resolved)
        } else if b == 2 {
            Some(MarketStatus::Settled)
        } else if b == 3 {
            Some(MarketStatus::Cancelled)
        } else {
            None
        }
    }

    pub fn to_byte(self) -> (r: u8)
        ensures
            r == self.spec_byte(),
    {
        match self {
            MarketStatus::Open => 0,
            MarketStatus::Resolved => 1,
            MarketStatus::Settled => 2,
            MarketStatus::Cancelled => 3,
        }
    }

    pub fn of_byte(b: u8) -> (r: Option<MarketStatus>)
        ensures
            r == Self::spec_of_byte(b),
    {
        if b == 0 {
            Some(MarketStatus::Open)
        } else if b == 1 {
            Some(MarketStatus::Resolved)
        } else if b == 2 {
            Some(MarketStatus::Settled)
        } else if b == 3 {
            Some(MarketStatus::Cancelled)
        } else {
            None
        }
    }
}

pub proof fn lemma_status_byte_round_trip(st: MarketStatus)
    ensures
        MarketStatus::spec_of_byte(st.spec_byte()) == Some(st),
{
}

/// One wagering market with two outcome sides, side `0` and side `1`.
#[derive(Clone, Copy, Debug, PartialEq, Eq, Structural)]
pub struct Market {
    /// Authority that created the market.
    pub creator: Addr,
    /// Authority entitled to declare the outcome.
    pub resolver: Addr,
    /// The program-owned account custodying the staked funds.
    pub escrow: Addr,
    /// Ledger clock value up to which (exclusively) stakes are accepted.
    pub deadline: u64,
    /// Total live stake on side `0`.
    pub total_side_a: u64,
    /// Total live stake on side `1`.
    pub total_side_b: u64,
    /// Current lifecycle state.
    pub status: MarketStatus,
    /// The winning side; meaningful only once resolved, zero before.
    pub winning_side: u8,
}

impl Market {
    /// Well-formedness: the winning side names a real side exactly when the
    /// market has been resolved, and the combined stake fits in 64 bits.
    pub open spec fn wf(self) -> bool {
        &&& (self.status is Resolved || self.status is Settled) ==> self.winning_side < 2
        &&& (self.status is Open || self.status is Cancelled) ==> self.winning_side == 0
        &&& self.total_side_a + self.total_side_b <= u64::MAX
    }

    /// Decide well-formedness.
    pub fn check_wf(&self) -> (r: bool)
        ensures
            r == self.wf(),
    {
        let side_ok = match self.status {
            MarketStatus::Resolved => self.winning_side < 2,
            MarketStatus::Settled => self.winning_side < 2,
            MarketStatus::Open => self.winning_side == 0,
            MarketStatus::Cancelled => self.winning_side == 0,
        };
        side_ok && self.total_side_a as u128 + self.total_side_b as u128 <= u64::MAX as u128
    }

    /// The fixed 123-byte encoding of a market record.
    pub open spec fn spec_bytes(self) -> Seq<u8> {
        seq![TAG_MARKET] + self.creator.spec_bytes() + self.resolver.spec_bytes()
            + self.escrow.spec_bytes() + le_bytes(self.deadline as nat, 8)
            + le_bytes(self.total_side_a as nat, 8) + le_bytes(self.total_side_b as nat, 8)
            + seq![self.status.spec_byte()] + seq![self.winning_side]
    }

    /// What decoding a byte string as a market yields: the record when the
    /// length, the discriminator, the status byte and the invariant all
    /// check out, and the exact error kind otherwise.
    pub open spec fn spec_unpack(s: Seq<u8>) -> Result<Market, BetError> {
        if s.len() != MARKET_LEN {
            Err(BetError::AccountOwnershipMismatch)
        } else if s[0] != TAG_MARKET {
            Err(BetError::AccountOwnershipMismatch)
        } else {
            match MarketStatus::spec_of_byte(s[121]) {
                None => Err(BetError::InvalidInstructionData),
                Some(st) => {
                    let m = Market {
                        creator: spec_addr_at(s, 1),
                        resolver: spec_addr_at(s, 33),
                        escrow: spec_addr_at(s, 65),
                        deadline: le_value(s.subrange(97, 105)) as u64,
                        total_side_a: le_value(s.subrange(105, 113)) as u64,
                        total_side_b: le_value(s.subrange(113, 121)) as u64,
                        status: st,
                        winning_side: s[122],
                    };
                    if m.wf() {
                        Ok(m)
                    } else {
                        Err(BetError::InvalidInstructionData)
                    }
                },
            }
        }
    }

    /// Encode the record into its fixed layout.
    pub fn pack(&self) -> (out: Vec<u8>)
        ensures
            out@ == self.spec_bytes(),
            out@.len() == MARKET_LEN,
    {
        let mut out: Vec<u8> = Vec::new();
        out.push(TAG_MARKET);
        push_addr(&mut out, self.creator);
        push_addr(&mut out, self.resolver);
        push_addr(&mut out, self.escrow);
        push_le_u64(&mut out, self.deadline);
        push_le_u64(&mut out, self.total_side_a);
        push_le_u64(&mut out, self.total_side_b);
        out.push(self.status.to_byte());
        out.push(self.winning_side);
        proof {
            lemma_addr_bytes_len(self.creator);
            lemma_addr_bytes_len(self.resolver);
            lemma_addr_bytes_len(self.escrow);
            lemma_le_bytes_len(self.deadline as nat, 8);
            lemma_le_bytes_len(self.total_side_a as nat, 8);
            lemma_le_bytes_len(self.total_side_b as nat, 8);
            assert(out@ =~= self.spec_bytes());
        }
        out
    }

    /// Decode and validate a market record from an account's data.
    pub fn unpack(data: &Vec<u8>) -> (r: Result<Market, BetError>)
        ensures
            r == Self::spec_unpack(data@),
    {
        if data.len() != MARKET_LEN {
            return Err(BetError::AccountOwnershipMismatch);
        }
        if data[0] != TAG_MARKET {
            return Err(BetError::AccountOwnershipMismatch);
        }
        match MarketStatus::of_byte(data[121]) {
            None => Err(BetError::InvalidInstructionData),
            Some(st) => {
                proof {
                    lemma_le_value_u64_fits(data@, 97);
                    lemma_le_value_u64_fits(data@, 105);
                    lemma_le_value_u64_fits(data@, 113);
                }
                let m = Market {
                    creator: read_addr(data, 1),
                    resolver: read_addr(data, 33),
                    escrow: read_addr(data, 65),
                    deadline: read_le_u64(data, 97),
                    total_side_a: read_le_u64(data, 105),
                    total_side_b: read_le_u64(data, 113),
                    status: st,
                    winning_side: data[122],
                };
                if m.check_wf() {
                    Ok(m)
                } else {
                    Err(BetError::InvalidInstructionData)
                }
            },
        }
    }
}

/// Decoding the encoding of a well-formed market yields the market back.
pub proof fn lemma_market_round_trip(m: Market)
    requires
        m.wf(),
    ensures
        Market::spec_unpack(m.spec_bytes()) == Ok::<Market, BetError>(m),
{
    let s = m.spec_bytes();
    lemma_addr_bytes_len(m.creator);
    lemma_addr_bytes_len(m.resolver);
    lemma_addr_bytes_len(m.escrow);
    lemma_le_bytes_len(m.deadline as nat, 8);
    lemma_le_bytes_len(m.total_side_a as nat, 8);
    lemma_le_bytes_len(m.total_side_b as nat, 8);
    assert(s.len() == MARKET_LEN);
    assert(s[0] == TAG_MARKET);
    assert(s[121] == m.status.spec_byte());
    assert(s[122] == m.winning_side);
    lemma_status_byte_round_trip(m.status);
    assert(s.subrange(1, 33) =~= m.creator.spec_bytes());
    assert(s.subrange(33, 65) =~= m.resolver.spec_bytes());
    assert(s.subrange(65, 97) =~= m.escrow.spec_bytes());
    lemma_addr_round_trip(m.creator, s, 1);
    lemma_addr_round_trip(m.resolver, s, 33);
    lemma_addr_round_trip(m.escrow, s, 65);
    assert(s.subrange(97, 105) =~= le_bytes(m.deadline as nat, 8));
    assert(s.subrange(105, 113) =~= le_bytes(m.total_side_a as nat, 8));
    assert(s.subrange(113, 121) =~= le_bytes(m.total_side_b as nat, 8));
    lemma_le_u64_round_trip(m.deadline);
    lemma_le_u64_round_trip(m.total_side_a);
    lemma_le_u64_round_trip(m.total_side_b);
}

/// The market decoder accepts only canonical bytes: whatever byte string
/// it decodes as a market is exactly that market's own encoding, so no two
/// distinct byte strings ever stand for the same record.
pub proof fn lemma_market_bytes_canonical(s: Seq<u8>, m: Market)
    requires
        Market::spec_unpack(s) == Ok::<Market, BetError>(m),
    ensures
        m.spec_bytes() == s,
{
    lemma_addr_bytes_canonical(s, 1);
    lemma_addr_bytes_canonical(s, 33);
    lemma_addr_bytes_canonical(s, 65);
    lemma_le_value_u64_fits(s, 97);
    lemma_le_value_u64_fits(s, 105);
    lemma_le_value_u64_fits(s, 113);
    lemma_le_bytes_of_value(s.subrange(97, 105));
    lemma_le_bytes_of_value(s.subrange(105, 113));
    lemma_le_bytes_of_value(s.subrange(113, 121));
    assert(m.status.spec_byte() == s[121]);
    assert(m.spec_bytes() =~= s);
}

/// One participant's stake in one market on one chosen side.
#[derive(Clone, Copy, Debug, PartialEq, Eq, Structural)]
pub struct Position {
    /// Authority that placed the stake and may claim its payout.
    pub owner: Addr,
    /// The market this stake belongs to.
    pub market: Addr,
    /// The staked amount.
    pub amount: u64,
    /// The chosen outcome side.
    pub side: u8,
    /// Whether the payout or refund was already taken.
    pub claimed: bool,
}

impl Position {
    /// Well-formedness: the chosen side names a real side.
    pub open spec fn wf(self) -> bool {
        self.side < 2
    }

    /// The fixed 75-byte encoding of a position record.
    pub open spec fn spec_bytes(self) -> Seq<u8> {
        seq![TAG_POSITION] + self.owner.spec_bytes() + self.market.spec_bytes()
            + le_bytes(self.amount as nat, 8) + seq![self.side]
            + seq![if self.claimed { 1u8 } else { 0u8 }]
    }

    /// What decoding a byte string as a position yields.
    pub open spec fn spec_unpack(s: Seq<u8>) -> Result<Position, BetError> {
        if s.len() != POSITION_LEN {
            Err(BetError::AccountOwnershipMismatch)
        } else if s[0] != TAG_POSITION {
            Err(BetError::AccountOwnershipMismatch)
        } else if s[74] != 0 && s[74] != 1 {
            Err(BetError::InvalidInstructionData)
        } else {
            let p = Position {
                owner: spec_addr_at(s, 1),
                market: spec_addr_at(s, 33),
                amount: le_value(s.subrange(65, 73)) as u64,
                side: s[73],
                claimed: s[74] == 1,
            };
            if p.wf() {
                Ok(p)
            } else {
                Err(BetError::InvalidInstructionData)
            }
        }
    }

    /// Encode the record into its fixed layout.
    pub fn pack(&self) -> (out: Vec<u8>)
        ensures
            out@ == self.spec_bytes(),
            out@.len() == POSITION_LEN,
    {
        let mut out: Vec<u8> = Vec::new();
        out.push(TAG_POSITION);
        push_addr(&mut out, self.owner);
        push_addr(&mut out, self.market);
        push_le_u64(&mut out, self.amount);
        out.push(self.side);
        out.push(if self.claimed { 1 } else { 0 });
        proof {
            lemma_addr_bytes_len(self.owner);
            lemma_addr_bytes_len(self.market);
            lemma_le_bytes_len(self.amount as nat, 8);
            assert(out@ =~= self.spec_bytes());
        }
        out
    }

    /// Decode and validate a position record from an account's data.
    pub fn unpack(data: &Vec<u8>) -> (r: Result<Position, BetError>)
        ensures
            r == Self::spec_unpack(data@),
    {
        if data.len() != POSITION_LEN {
            return Err(BetError::AccountOwnershipMismatch);
        }
        if data[0] != TAG_POSITION {
            return Err(BetError::AccountOwnershipMismatch);
        }
        let claimed_byte = data[74];
        if claimed_byte != 0 && claimed_byte != 1 {
            return Err(BetError::InvalidInstructionData);
        }
        proof {
            lemma_le_value_u64_fits(data@, 65);
        }
        let p = Position {
            owner: read_addr(data, 1),
            market: read_addr(data, 33),
            amount: read_le_u64(data, 65),
            side: data[73],
            claimed: claimed_byte == 1,
        };
        if p.side < 2 {
            Ok(p)
        } else {
            Err(BetError::InvalidInstructionData)
        }
    }
}

/// The position decoder accepts only canonical bytes, like the market's.
pub proof fn lemma_position_bytes_canonical(s: Seq<u8>, p: Position)
    requires
        Position::spec_unpack(s) == Ok::<Position, BetError>(p),
    ensures
        p.spec_bytes() == s,
{
    lemma_addr_bytes_canonical(s, 1);
    lemma_addr_bytes_canonical(s, 33);
    lemma_le_value_u64_fits(s, 65);
    lemma_le_bytes_of_value(s.subrange(65, 73));
    assert(p.spec_bytes() =~= s);
}

/// Decoding the encoding of a well-formed position yields the position back.
pub proof fn lemma_position_round_trip(p: Position)
    requires
        p.wf(),
    ensures
        Position::spec_unpack(p.spec_bytes()) == Ok::<Position, BetError>(p),
{
    let s = p.spec_bytes();
    lemma_addr_bytes_len(p.owner);
    lemma_addr_bytes_len(p.market);
    lemma_le_bytes_len(p.amount as nat, 8);
    assert(s.len() == POSITION_LEN);
    assert(s[0] == TAG_POSITION);
    assert(s[73] == p.side);
    assert(s[74] == if p.claimed { 1u8 } else { 0u8 });
    assert(s.subrange(1, 33) =~= p.owner.spec_bytes());
    assert(s.subrange(33, 65) =~= p.market.spec_bytes());
    lemma_addr_round_trip(p.owner, s, 1);
    lemma_addr_round_trip(p.market, s, 33);
    assert(s.subrange(65, 73) =~= le_bytes(p.amount as nat, 8));
    lemma_le_u64_round_trip(p.amount);
}

} // verus!
