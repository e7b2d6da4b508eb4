//! The fixed numbers of the market.

use vstd::prelude::*;

verus! {

/// What a whole is in basis points.
pub const BPS_DENOMINATOR: u32 = 10000;

/// The protocol fee that holds until the admin sets one.
pub const DEFAULT_PROTOCOL_FEE_BPS: u32 = 0;

/// How many ledgers a touched entry is kept alive for.
pub const DEFAULT_TTL: u32 = 100000;

/// An entry is extended only when fewer ledgers than this are left to it.
pub const TTL_THRESHOLD: u32 = 50000;

/// The least stake that is accepted until the admin sets one.
pub const DEFAULT_MIN_STAKE: i128 = 1;

/// How many relayers have to agree until the admin says otherwise.
pub const DEFAULT_QUORUM_SIZE: u32 = 1;

/// How many ledgers after its resolution ledger a challenge expires.
pub const DEFAULT_EXPIRY_LEDGERS: u32 = 1000;

/// At this many slashes a relayer is removed.
pub const MAX_SLASH_COUNT: u32 = 3;

/// The vesting time, in seconds, of a user who has none set: no vesting.
pub const DEFAULT_VESTING_DURATION: u64 = 0;

/// The longest vesting time, in seconds: one year.
pub const MAX_VESTING_DURATION: u64 = 31536000;

/// How many ledgers after its resolution ledger a challenge can be disputed.
pub const DISPUTE_WINDOW_LEDGERS: u32 = 100;

/// The least stake that a dispute is filed with.
pub const DISPUTE_STAKE_THRESHOLD: i128 = 100;

/// A successful dispute earns the disputer its stake over this number.
pub const DISPUTE_BONUS_DIVISOR: i128 = 10;

/// The span, in seconds, over which a user's actions are counted.
pub const RATE_LIMIT_WINDOW: u64 = 3600;

pub const MAX_CHALLENGES_PER_WINDOW: u32 = 5;

pub const MAX_STAKES_PER_WINDOW: u32 = 20;

pub const MAX_DISPUTES_PER_WINDOW: u32 = 3;

/// The least number of seconds between two large withdrawals.
pub const FLASH_LOAN_COOLDOWN: u64 = 10;

/// From this amount on a withdrawal counts as large.
pub const FLASH_LOAN_THRESHOLD: i128 = 10000;

pub const MAX_TEMPLATES_PER_USER: u32 = 10;

/// What one step adds to a reward index, in basis points of the index.
pub const REWARD_ACCRUAL_BPS: u32 = 50;

/// Shares are minted in millionths of the liquidity that is already there.
pub const SHARE_SCALE: i128 = 1000000;

} // verus!
