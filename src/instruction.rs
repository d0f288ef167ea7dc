use vstd::prelude::*;
use crate::error::PoolError;

verus! {

/// Opcode of pool creation.
pub const CREATE_POOL: u8 = 1;
/// Opcode of staking.
pub const STAKE_TOKENS: u8 = 2;
/// Opcode of unstaking.
pub const UNSTAKE_TOKENS: u8 = 3;
/// Opcode of claiming rewards.
pub const CLAIM_REWARDS: u8 = 4;
/// Opcode of a liquidity deposit.
pub const ADD_LIQUIDITY: u8 = 5;
/// Opcode of a liquidity sweep.
pub const REMOVE_LIQUIDITY: u8 = 6;

/// A command to the pool, as framed by its opcode. Payloads in the pool's
/// record encoding are handed on as bytes.
#[derive(Debug, Clone, PartialEq, Eq)]
pub enum Instruction {
    /// The encoded configuration of the new pool.
    CreatePool { config: Vec<u8> },
    /// The encoded stake request.
    StakeTokens { stake: Vec<u8> },
    /// The bump seed of the pool's signing address.
    UnstakeTokens { bump_seed: u8 },
    ClaimRewards,
    /// The amount to deposit.
    AddLiquidity { amount: u64 },
    /// The bump seed of the pool's signing address.
    RemoveLiquidity { bump_seed: u8 },
}

/// The unsigned integer that eight bytes encode, least significant first.
pub open spec fn le_u64(b: Seq<u8>) -> int {
    b[0] + 256 * (b[1] + 256 * (b[2] + 256 * (b[3] + 256 * (b[4] + 256 * (b[5] + 256 * (b[6]
        + 256 * b[7]))))))
}

/// Reads eight bytes as a little-endian unsigned integer.
pub fn read_u64_le(b: &[u8]) -> (r: u64)
    requires
        b@.len() == 8,
    ensures
        r == le_u64(b@),
{
    let mut v: u64 = b[7] as u64;
    v = v * 256 + b[6] as u64;
    v = v * 256 + b[5] as u64;
    v = v * 256 + b[4] as u64;
    v = v * 256 + b[3] as u64;
    v = v * 256 + b[2] as u64;
    v = v * 256 + b[1] as u64;
    v = v * 256 + b[0] as u64;
    v
}

/// Copies `data[from..]`.
fn tail(data: &[u8], from: usize) -> (r: Vec<u8>)
    requires
        from <= data@.len(),
    ensures
        r@ == data@.subrange(from as int, data@.len() as int),
{
    let mut out: Vec<u8> = Vec::new();
    let mut i: usize = from;
    while i < data.len()
        invariant
            from <= i <= data@.len(),
            out@ == data@.subrange(from as int, i as int),
        decreases data@.len() - i,
    {
        out.push(data[i]);
        i = i + 1;
        assert(out@ =~= data@.subrange(from as int, i as int));
    }
    out
}

/// Splits an instruction into its opcode and payload and frames the payload.
/// An empty instruction or an unknown opcode is `InvalidCommand`; a payload
/// too short for its bump seed, or a deposit amount that is not exactly eight
/// bytes, is `MalformedInput`.
pub fn decode_instruction(data: &[u8]) -> (r: Result<Instruction, PoolError>)
    ensures
        data@.len() == 0 ==> r == Err::<Instruction, PoolError>(PoolError::InvalidCommand),
        data@.len() > 0 ==> {
            let op = data@[0];
            let payload = data@.subrange(1, data@.len() as int);
            if op == CREATE_POOL {
                r matches Ok(Instruction::CreatePool { config }) && config@ == payload
            } else if op == STAKE_TOKENS {
                r matches Ok(Instruction::StakeTokens { stake }) && stake@ == payload
            } else if op == UNSTAKE_TOKENS {
                if payload.len() == 0 {
                    r == Err::<Instruction, PoolError>(PoolError::MalformedInput)
                } else {
                    r matches Ok(Instruction::UnstakeTokens { bump_seed }) && bump_seed == payload[0]
                }
            } else if op == CLAIM_REWARDS {
                r matches Ok(Instruction::ClaimRewards)
            } else if op == ADD_LIQUIDITY {
                if payload.len() != 8 {
                    r == Err::<Instruction, PoolError>(PoolError::MalformedInput)
                } else {
                    r matches Ok(Instruction::AddLiquidity { amount }) && amount == le_u64(payload)
                }
            } else if op == REMOVE_LIQUIDITY {
                if payload.len() == 0 {
                    r == Err::<Instruction, PoolError>(PoolError::MalformedInput)
                } else {
                    r matches Ok(Instruction::RemoveLiquidity { bump_seed }) && bump_seed
                        == payload[0]
                }
            } else {
                r == Err::<Instruction, PoolError>(PoolError::InvalidCommand)
            }
        },
{
    if data.len() == 0 {
        return Err(PoolError::InvalidCommand);
    }
    let op = data[0];
    if op == CREATE_POOL {
        Ok(Instruction::CreatePool { config: tail(data, 1) })
    } else if op == STAKE_TOKENS {
        Ok(Instruction::StakeTokens { stake: tail(data, 1) })
    } else if op == UNSTAKE_TOKENS || op == REMOVE_LIQUIDITY {
        if data.len() < 2 {
            return Err(PoolError::MalformedInput);
        }
        let bump_seed = data[1];
        if op == UNSTAKE_TOKENS {
            Ok(Instruction::UnstakeTokens { bump_seed })
        } else {
            Ok(Instruction::RemoveLiquidity { bump_seed })
        }
    } else if op == CLAIM_REWARDS {
        Ok(Instruction::ClaimRewards)
    } else if op == ADD_LIQUIDITY {
        if data.len() != 9 {
            return Err(PoolError::MalformedInput);
        }
        let payload = tail(data, 1);
        let amount = read_u64_le(payload.as_slice());
        Ok(Instruction::AddLiquidity { amount })
    } else {
        Err(PoolError::InvalidCommand)
    }
}

} // verus!
