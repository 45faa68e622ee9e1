//! The instruction decoder: an opaque byte buffer becomes one of the
//! well-known commands, or `InvalidInstructionData` when the tag byte is
//! unknown or the payload length does not match the variant's fixed
//! encoding. Decoding is a pure parse and never mutates state.

use vstd::prelude::*;
use crate::codec::{
    le_bytes, le_value, lemma_le_bytes_len, lemma_le_bytes_of_value, lemma_le_u64_round_trip,
    lemma_le_value_u64_fits, push_le_u64, read_le_u64,
};
use crate::error::BetError;
use crate::state::{
    lemma_addr_bytes_canonical, lemma_addr_bytes_len, lemma_addr_round_trip, push_addr,
    read_addr, spec_addr_at, Addr,
};

verus! {

/// The commands the processor understands.
#[derive(Clone, Copy, Debug, PartialEq, Eq, Structural)]
pub enum BetInstruction {
    /// Open a new market with a staking deadline and a resolution authority.
    CreateMarket { deadline: u64, resolver: Addr },
    /// Stake `amount` on outcome side `side` of an open market.
    PlaceStake { side: u8, amount: u64 },
    /// Declare the winning outcome side of a market past its deadline.
    ResolveMarket { outcome: u8 },
    /// Withdraw the payout or refund owed to one position.
    ClaimPayout,
    /// Call a market off while it is still open.
    CancelMarket,
}

impl BetInstruction {
    /// The fixed encoding of each command: a tag byte then the payload.
    pub open spec fn spec_bytes(self) -> Seq<u8> {
        match self {
            BetInstruction::CreateMarket { deadline, resolver } => seq![0u8] + le_bytes(
                deadline as nat,
                8,
            ) + resolver.spec_bytes(),
            BetInstruction::PlaceStake { side, amount } => seq![1u8, side] + le_bytes(
                amount as nat,
                8,
            ),
            BetInstruction::ResolveMarket { outcome } => seq![2u8, outcome],
            BetInstruction::ClaimPayout => seq![3u8],
            BetInstruction::CancelMarket => seq![4u8],
        }
    }

    /// What decoding a byte buffer yields: the command when the tag is known
    /// and the payload length matches its fixed encoding, and
    /// `InvalidInstructionData` otherwise.
    pub open spec fn spec_unpack(s: Seq<u8>) -> Result<BetInstruction, BetError> {
        if s.len() == 0 {
            Err(BetError::InvalidInstructionData)
        } else if s[0] == 0 {
            if s.len() == 41 {
                Ok(
                    BetInstruction::CreateMarket {
                        deadline: le_value(s.subrange(1, 9)) as u64,
                        resolver: spec_addr_at(s, 9),
                    },
                )
            } else {
                Err(BetError::InvalidInstructionData)
            }
        } else if s[0] == 1 {
            if s.len() == 10 {
                Ok(
                    BetInstruction::PlaceStake {
                        side: s[1],
                        amount: le_value(s.subrange(2, 10)) as u64,
                    },
                )
            } else {
                Err(BetError::InvalidInstructionData)
            }
        } else if s[0] == 2 {
            if s.len() == 2 {
                Ok(BetInstruction::ResolveMarket { outcome: s[1] })
            } else {
                Err(BetError::InvalidInstructionData)
            }
        } else if s[0] == 3 {
            if s.len() == 1 {
                Ok(BetInstruction::ClaimPayout)
            } else {
                Err(BetError::InvalidInstructionData)
            }
        } else if s[0] == 4 {
            if s.len() == 1 {
                Ok(BetInstruction::CancelMarket)
            } else {
                Err(BetError::InvalidInstructionData)
            }
        } else {
            Err(BetError::InvalidInstructionData)
        }
    }

    /// Encode the command into its fixed layout.
    pub fn pack(&self) -> (out: Vec<u8>)
        ensures
            out@ == self.spec_bytes(),
    {
        let mut out: Vec<u8> = Vec::new();
        match *self {
            BetInstruction::CreateMarket { deadline, resolver } => {
                out.push(0);
                push_le_u64(&mut out, deadline);
                push_addr(&mut out, resolver);
            },
            BetInstruction::PlaceStake { side, amount } => {
                out.push(1);
                out.push(side);
                push_le_u64(&mut out, amount);
            },
            BetInstruction::ResolveMarket { outcome } => {
                out.push(2);
                out.push(outcome);
            },
            BetInstruction::ClaimPayout => {
                out.push(3);
            },
            BetInstruction::CancelMarket => {
                out.push(4);
            },
        }
        proof {
            assert(out@ =~= self.spec_bytes());
        }
        out
    }

    /// Decode a command from a raw instruction buffer.
    pub fn unpack(data: &Vec<u8>) -> (r: Result<BetInstruction, BetError>)
        ensures
            r == Self::spec_unpack(data@),
    {
        let n: usize = data.len();
        if n == 0 {
            return Err(BetError::InvalidInstructionData);
        }
        let tag = data[0];
        if tag == 0 {
            if n == 41 {
                proof {
                    lemma_le_value_u64_fits(data@, 1);
                }
                Ok(
                    BetInstruction::CreateMarket {
                        deadline: read_le_u64(data, 1),
                        resolver: read_addr(data, 9),
                    },
                )
            } else {
                Err(BetError::InvalidInstructionData)
            }
        } else if tag == 1 {
            if n == 10 {
                proof {
                    lemma_le_value_u64_fits(data@, 2);
                }
                Ok(BetInstruction::PlaceStake { side: data[1], amount: read_le_u64(data, 2) })
            } else {
                Err(BetError::InvalidInstructionData)
            }
        } else if tag == 2 {
            if n == 2 {
                Ok(BetInstruction::ResolveMarket { outcome: data[1] })
            } else {
                Err(BetError::InvalidInstructionData)
            }
        } else if tag == 3 {
            if n == 1 {
                Ok(BetInstruction::ClaimPayout)
            } else {
                Err(BetError::InvalidInstructionData)
            }
        } else if tag == 4 {
            if n == 1 {
                Ok(BetInstruction::CancelMarket)
            } else {
                Err(BetError::InvalidInstructionData)
            }
        } else {
            Err(BetError::InvalidInstructionData)
        }
    }
}

/// The command decoder accepts only canonical bytes: whatever buffer it
/// decodes as a command is exactly that command's own encoding.
pub proof fn lemma_instruction_bytes_canonical(s: Seq<u8>, i: BetInstruction)
    requires
        BetInstruction::spec_unpack(s) == Ok::<BetInstruction, BetError>(i),
    ensures
        i.spec_bytes() == s,
{
    if s[0] == 0 {
        lemma_le_value_u64_fits(s, 1);
        lemma_le_bytes_of_value(s.subrange(1, 9));
        lemma_addr_bytes_canonical(s, 9);
        assert(i.spec_bytes() =~= s);
    } else if s[0] == 1 {
        lemma_le_value_u64_fits(s, 2);
        lemma_le_bytes_of_value(s.subrange(2, 10));
        assert(i.spec_bytes() =~= s);
    } else {
        assert(i.spec_bytes() =~= s);
    }
}

/// Decoding the encoding of a command yields the command back.
pub proof fn lemma_instruction_round_trip(i: BetInstruction)
    ensures
        BetInstruction::spec_unpack(i.spec_bytes()) == Ok::<BetInstruction, BetError>(i),
{
    let s = i.spec_bytes();
    match i {
        BetInstruction::CreateMarket { deadline, resolver } => {
            lemma_le_bytes_len(deadline as nat, 8);
            lemma_addr_bytes_len(resolver);
            assert(s.len() == 41);
            assert(s[0] == 0);
            assert(s.subrange(1, 9) =~= le_bytes(deadline as nat, 8));
            lemma_le_u64_round_trip(deadline);
            assert(s.subrange(9, 41) =~= resolver.spec_bytes());
            lemma_addr_round_trip(resolver, s, 9);
        },
        BetInstruction::PlaceStake { side, amount } => {
            lemma_le_bytes_len(amount as nat, 8);
            assert(s.len() == 10);
            assert(s[0] == 1);
            assert(s[1] == side);
            assert(s.subrange(2, 10) =~= le_bytes(amount as nat, 8));
            lemma_le_u64_round_trip(amount);
        },
        BetInstruction::ResolveMarket { outcome } => {
            assert(s[0] == 2 && s[1] == outcome && s.len() == 2);
        },
        BetInstruction::ClaimPayout => {
            assert(s[0] == 3 && s.len() == 1);
        },
        BetInstruction::CancelMarket => {
            assert(s[0] == 4 && s.len() == 1);
        },
    }
}

} // verus!
