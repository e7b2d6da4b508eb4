//! The values that the market keeps, hands out and asks for.

use vstd::prelude::*;

use crate::numbers::Numbers;
use crate::table::Entry;
use crate::table::Key;

verus! {

/// An account or a contract on the network.
///
/// The market never looks inside an address, it only tells addresses apart:
/// a number that stands for one address and no other is all it needs.
#[derive(Clone, Copy, Debug, PartialEq, Eq, PartialOrd, Ord, Hash, Structural)]
pub struct Address {
    pub id: u64,
}

impl Key for Address {
    fn same(&self, other: &Self) -> (same: bool) {
        self.id == other.id
    }

    fn duplicate(&self) -> (copy: Self) {
        *self
    }
}

/// What kind of network condition a challenge resolves against.
#[derive(Clone, Copy, Debug, PartialEq, Eq, Structural)]
pub enum Condition {
    /// Resolves natively. YES wins if the challenge is resolved within the
    /// given number of seconds of its creation.
    LedgerCloseUnder(u32),
    /// Resolves via oracle. YES wins if the relayer observes at least this
    /// many transactions over the challenge window.
    TxCountAtLeast(u32),
    /// Resolves via oracle. YES wins if the relayer observes a base fee spike
    /// of at least this many stroops.
    BaseFeeAtLeast(i128),
}

/// A question with a YES pool and a NO pool.
#[derive(Debug, PartialEq, Eq)]
pub struct Challenge {
    pub id: u64,
    pub creator: Address,
    pub description: String,
    pub condition: Condition,
    /// The ledger sequence from which on the challenge can be resolved.
    pub resolve_ledger_seq: u32,
    /// The ledger timestamp, in seconds, at creation.
    pub created_timestamp: u64,
    /// The last ledger sequence at which stakes are accepted.
    pub staking_deadline_seq: u32,
    pub token: Address,
    pub pool_yes: i128,
    pub pool_no: i128,
    pub resolved: bool,
    pub cancelled: bool,
    /// Only meaningful once `resolved` holds.
    pub outcome_yes: bool,
    /// The ledger sequence after which an unresolved challenge can be expired.
    pub expiry_seq: u32,
    /// The numbers of the further tokens that the challenge accepts.
    pub additional_tokens: Numbers,
}

/// What a [`Challenge`] is, its texts and lists as sequences.
#[verifier::ext_equal]
pub struct ChallengeView {
    pub id: u64,
    pub creator: Address,
    pub description: Seq<char>,
    pub condition: Condition,
    pub resolve_ledger_seq: u32,
    pub created_timestamp: u64,
    pub staking_deadline_seq: u32,
    pub token: Address,
    pub pool_yes: i128,
    pub pool_no: i128,
    pub resolved: bool,
    pub cancelled: bool,
    pub outcome_yes: bool,
    pub expiry_seq: u32,
    pub additional_tokens: Seq<u64>,
}

impl View for Challenge {
    type V = ChallengeView;

    open spec fn view(&self) -> ChallengeView {
        ChallengeView {
            id: self.id,
            creator: self.creator,
            description: self.description@,
            condition: self.condition,
            resolve_ledger_seq: self.resolve_ledger_seq,
            created_timestamp: self.created_timestamp,
            staking_deadline_seq: self.staking_deadline_seq,
            token: self.token,
            pool_yes: self.pool_yes,
            pool_no: self.pool_no,
            resolved: self.resolved,
            cancelled: self.cancelled,
            outcome_yes: self.outcome_yes,
            expiry_seq: self.expiry_seq,
            additional_tokens: self.additional_tokens@,
        }
    }
}

impl Clone for Challenge {
    fn clone(&self) -> (copy: Self)
        ensures
            copy@ == self@,
    {
        Challenge {
            id: self.id,
            creator: self.creator,
            description: self.description.clone(),
            condition: self.condition,
            resolve_ledger_seq: self.resolve_ledger_seq,
            created_timestamp: self.created_timestamp,
            staking_deadline_seq: self.staking_deadline_seq,
            token: self.token,
            pool_yes: self.pool_yes,
            pool_no: self.pool_no,
            resolved: self.resolved,
            cancelled: self.cancelled,
            outcome_yes: self.outcome_yes,
            expiry_seq: self.expiry_seq,
            additional_tokens: self.additional_tokens.clone(),
        }
    }
}

impl ChallengeView {
    /// The challenge takes no further part in staking or resolution.
    pub open spec fn finalized(self) -> bool {
        self.resolved || self.cancelled
    }
}

/// What one user has put on the two sides of one challenge.
#[derive(Clone, Copy, Debug, PartialEq, Eq, Structural)]
pub struct Stake {
    pub yes_amount: i128,
    pub no_amount: i128,
    pub claimed_yes: bool,
    pub claimed_no: bool,
    pub vesting_start: u64,
    pub vesting_duration: u64,
    pub is_vested: bool,
    pub token: Address,
}

#[derive(Clone, Copy, Debug, PartialEq, Eq, Structural)]
pub struct RelayerQuorum {
    pub required_signatures: u32,
    pub total_relayers: u32,
}

#[derive(Clone, Copy, Debug, PartialEq, Eq, Structural)]
pub struct ChallengeStats {
    pub total_participants: u32,
    pub total_staked: i128,
}

/// What one relayer says of one challenge.
#[derive(Clone, Copy, Debug, PartialEq, Eq, Structural)]
pub struct OracleSubmission {
    pub challenge_id: u64,
    pub outcome_yes: bool,
    pub submitted_by: Address,
}

/// What the relayers said of one challenge, counted.
#[derive(Clone, Copy, Debug, PartialEq, Eq, Structural)]
pub struct AggregatedOracleResult {
    pub challenge_id: u64,
    pub outcome_yes: bool,
    pub yes_votes: u32,
    pub no_votes: u32,
    pub total_oracles: u32,
    pub aggregated_at: u64,
}

#[derive(Debug, PartialEq, Eq)]
pub struct AuditLogEntry {
    pub entry_id: u64,
    pub challenge_id: u64,
    pub action_type: String,
    pub actor: Address,
    pub timestamp: u64,
    pub details: String,
}

/// What an [`AuditLogEntry`] is, its texts as sequences.
#[verifier::ext_equal]
pub struct AuditLogEntryView {
    pub entry_id: u64,
    pub challenge_id: u64,
    pub action_type: Seq<char>,
    pub actor: Address,
    pub timestamp: u64,
    pub details: Seq<char>,
}

impl View for AuditLogEntry {
    type V = AuditLogEntryView;

    open spec fn view(&self) -> AuditLogEntryView {
        AuditLogEntryView {
            entry_id: self.entry_id,
            challenge_id: self.challenge_id,
            action_type: self.action_type@,
            actor: self.actor,
            timestamp: self.timestamp,
            details: self.details@,
        }
    }
}

impl Clone for AuditLogEntry {
    fn clone(&self) -> (copy: Self)
        ensures
            copy@ == self@,
    {
        AuditLogEntry {
            entry_id: self.entry_id,
            challenge_id: self.challenge_id,
            action_type: self.action_type.clone(),
            actor: self.actor,
            timestamp: self.timestamp,
            details: self.details.clone(),
        }
    }
}

/// What a liquidity provider has earned on one challenge.
#[derive(Clone, Copy, Debug, PartialEq, Eq, Structural)]
pub struct RewardAccrual {
    pub provider: Address,
    pub challenge_id: u64,
    pub reward_index: u128,
    pub pending_rewards: i128,
    pub last_update: u64,
}

/// A challenge to be, its ledger sequences counted from the ledger it is
/// created in.
#[derive(Debug, PartialEq, Eq)]
pub struct ChallengeTemplate {
    pub template_id: u64,
    pub creator: Address,
    pub description_template: String,
    pub condition: Condition,
    pub resolve_ledger_offset: u32,
    pub staking_deadline_offset: u32,
    pub token: Address,
    pub category: String,
    pub created_at: u64,
    pub usage_count: u32,
}

/// What a [`ChallengeTemplate`] is, its texts as sequences.
#[verifier::ext_equal]
pub struct ChallengeTemplateView {
    pub template_id: u64,
    pub creator: Address,
    pub description_template: Seq<char>,
    pub condition: Condition,
    pub resolve_ledger_offset: u32,
    pub staking_deadline_offset: u32,
    pub token: Address,
    pub category: Seq<char>,
    pub created_at: u64,
    pub usage_count: u32,
}

impl View for ChallengeTemplate {
    type V = ChallengeTemplateView;

    open spec fn view(&self) -> ChallengeTemplateView {
        ChallengeTemplateView {
            template_id: self.template_id,
            creator: self.creator,
            description_template: self.description_template@,
            condition: self.condition,
            resolve_ledger_offset: self.resolve_ledger_offset,
            staking_deadline_offset: self.staking_deadline_offset,
            token: self.token,
            category: self.category@,
            created_at: self.created_at,
            usage_count: self.usage_count,
        }
    }
}

impl Clone for ChallengeTemplate {
    fn clone(&self) -> (copy: Self)
        ensures
            copy@ == self@,
    {
        ChallengeTemplate {
            template_id: self.template_id,
            creator: self.creator,
            description_template: self.description_template.clone(),
            condition: self.condition,
            resolve_ledger_offset: self.resolve_ledger_offset,
            staking_deadline_offset: self.staking_deadline_offset,
            token: self.token,
            category: self.category.clone(),
            created_at: self.created_at,
            usage_count: self.usage_count,
        }
    }
}

#[derive(Clone, Copy, Debug, PartialEq, Eq, Structural)]
pub struct UserReputation {
    pub user: Address,
    pub score: i32,
    pub challenges_created: u32,
    pub challenges_resolved: u32,
    pub total_staked: i128,
    pub successful_predictions: u32,
    pub last_updated: u64,
}

/// An objection to the outcome of a resolved challenge.
#[derive(Debug, PartialEq, Eq)]
pub struct Dispute {
    pub challenge_id: u64,
    pub disputer: Address,
    pub disputed_outcome: bool,
    pub evidence: String,
    pub stake: i128,
    pub resolved: bool,
    pub successful: bool,
    pub created_at: u64,
}

/// What a [`Dispute`] is, its text as a sequence.
#[verifier::ext_equal]
pub struct DisputeView {
    pub challenge_id: u64,
    pub disputer: Address,
    pub disputed_outcome: bool,
    pub evidence: Seq<char>,
    pub stake: i128,
    pub resolved: bool,
    pub successful: bool,
    pub created_at: u64,
}

impl View for Dispute {
    type V = DisputeView;

    open spec fn view(&self) -> DisputeView {
        DisputeView {
            challenge_id: self.challenge_id,
            disputer: self.disputer,
            disputed_outcome: self.disputed_outcome,
            evidence: self.evidence@,
            stake: self.stake,
            resolved: self.resolved,
            successful: self.successful,
            created_at: self.created_at,
        }
    }
}

impl Clone for Dispute {
    fn clone(&self) -> (copy: Self)
        ensures
            copy@ == self@,
    {
        Dispute {
            challenge_id: self.challenge_id,
            disputer: self.disputer,
            disputed_outcome: self.disputed_outcome,
            evidence: self.evidence.clone(),
            stake: self.stake,
            resolved: self.resolved,
            successful: self.successful,
            created_at: self.created_at,
        }
    }
}

#[derive(Clone, Copy, Debug, PartialEq, Eq, Structural)]
pub struct LiquidityPosition {
    pub provider: Address,
    pub amount: i128,
    pub shares: i128,
    pub reward_debt: i128,
    pub last_update: u64,
}

impl View for Stake {
    type V = Stake;

    open spec fn view(&self) -> Stake {
        *self
    }
}

impl View for ChallengeStats {
    type V = ChallengeStats;

    open spec fn view(&self) -> ChallengeStats {
        *self
    }
}

impl View for OracleSubmission {
    type V = OracleSubmission;

    open spec fn view(&self) -> OracleSubmission {
        *self
    }
}

impl View for AggregatedOracleResult {
    type V = AggregatedOracleResult;

    open spec fn view(&self) -> AggregatedOracleResult {
        *self
    }
}

impl View for RewardAccrual {
    type V = RewardAccrual;

    open spec fn view(&self) -> RewardAccrual {
        *self
    }
}

impl View for UserReputation {
    type V = UserReputation;

    open spec fn view(&self) -> UserReputation {
        *self
    }
}

impl View for LiquidityPosition {
    type V = LiquidityPosition;

    open spec fn view(&self) -> LiquidityPosition {
        *self
    }
}

impl Entry for Challenge {
    fn rewrite(&self) -> (copy: Self) {
        self.clone()
    }
}

impl Entry for AuditLogEntry {
    fn rewrite(&self) -> (copy: Self) {
        self.clone()
    }
}

impl Entry for ChallengeTemplate {
    fn rewrite(&self) -> (copy: Self) {
        self.clone()
    }
}

impl Entry for Dispute {
    fn rewrite(&self) -> (copy: Self) {
        self.clone()
    }
}

impl Entry for Stake {
    fn rewrite(&self) -> (copy: Self) {
        *self
    }
}

impl Entry for ChallengeStats {
    fn rewrite(&self) -> (copy: Self) {
        *self
    }
}

impl Entry for OracleSubmission {
    fn rewrite(&self) -> (copy: Self) {
        *self
    }
}

impl Entry for AggregatedOracleResult {
    fn rewrite(&self) -> (copy: Self) {
        *self
    }
}

impl Entry for RewardAccrual {
    fn rewrite(&self) -> (copy: Self) {
        *self
    }
}

impl Entry for UserReputation {
    fn rewrite(&self) -> (copy: Self) {
        *self
    }
}

impl Entry for LiquidityPosition {
    fn rewrite(&self) -> (copy: Self) {
        *self
    }
}

/// The name under which the host stores each thing that the market keeps.
#[derive(Clone, Copy, Debug, PartialEq, Eq, Structural)]
pub enum DataKey {
    Admin,
    OracleRelayer,
    NextChallengeId,
    ProtocolFeeBps,
    Challenge(u64),
    Stake(u64, Address),
    RelayerQuorum,
    RelayerSet,
    Paused,
    MinStakeAmount,
    TokenWhitelist(Address),
    ChallengeStats(u64),
    ChallengeCategory(u64),
    FeeBalance(Address),
    RelayerSlashCount(Address),
    UserVestingConfig(Address),
    /// A challenge and the user who disputes it.
    Dispute(u64, Address),
    DisputeCount(u64),
    /// A user and the start of a window of time.
    RateLimit(Address, u64),
    ChallengeCreationCount(Address, u64),
    StakeCount(Address, u64),
    DisputeFilingCount(Address, u64),
    /// A challenge and one of its further tokens.
    MultiTokenPool(u64, Address),
    /// A challenge and a liquidity provider.
    LiquidityPool(u64, Address),
    TotalLiquidity(u64),
    /// A challenge and a relayer.
    OracleSubmission(u64, Address),
    OracleAggregation(u64),
    /// A user and a challenge.
    UserLastWithdrawal(Address, u64),
    FlashLoanFlag(Address),
    /// A challenge and an entry of its log.
    AuditLog(u64, u64),
    AuditLogCount(u64),
    AuditLogIndex(u64),
    RewardAccrual(u64, Address),
    GlobalRewardIndex(u64),
    /// A template and its creator.
    ChallengeTemplate(u64, Address),
    TemplateCount(Address),
    NextTemplateId,
    UserReputation(Address),
    ChallengeCreatorReputation(u64),
}

/// Why a request is refused.
#[derive(Clone, Copy, Debug, PartialEq, Eq, PartialOrd, Ord, Structural)]
pub enum Error {
    /// The market is initialized already.
    AlreadyInitialized,
    /// `initialize` has not been called yet.
    NotInitialized,
    /// The caller is neither the admin nor the creator.
    NotAuthorized,
    /// There is no challenge of that number.
    ChallengeNotFound,
    /// The staking deadline has passed.
    StakingClosed,
    /// The ledger from which on this is possible has not been reached.
    TooEarlyToResolve,
    /// The challenge is resolved or cancelled already.
    AlreadyFinalized,
    /// The challenge is not resolved yet.
    NotResolved,
    /// The user has no stake on the challenge.
    NoStake,
    /// The stake has been paid out already.
    AlreadyClaimed,
    /// The user has nothing on the winning side.
    NothingWon,
    /// The amount is out of bounds.
    InvalidAmount,
    /// The challenge's condition resolves the other way.
    WrongConditionForResolutionPath,
    /// A ledger sequence does not lie where it has to.
    InvalidLedgerSequence,
    /// The stake is below the minimum.
    AmountBelowMinimum,
    /// The challenge is cancelled already, or the market is paused already.
    AlreadyCancelled,
    /// The challenge cannot be cancelled since it is resolved already, or
    /// nothing is paid back of it since it is not cancelled.
    CannotCancel,
    /// The market is paused.
    ContractPaused,
    /// The token is barred from the market.
    TokenNotWhitelisted,
    /// More signatures are asked for than there are relayers.
    InsufficientQuorum,
    /// The relayer is not in the set, or is in it already.
    RelayerNotAuthorized,
    /// The relayer has submitted already.
    DuplicateSubmission,
    /// The challenge has expired.
    ChallengeExpired,
    /// The expiry does not come after the resolution ledger.
    InvalidExpirySequence,
    /// The relayer has been slashed too many times.
    RelayerSlashed,
    /// The relayer cannot be slashed.
    CannotSlashRelayer,
    /// The stake is still vesting.
    StakeStillVesting,
    /// The vesting duration is too long.
    InvalidVestingDuration,
    /// The dispute window has closed.
    DisputeWindowClosed,
    /// The dispute's stake is below the threshold.
    InsufficientDisputeStake,
    /// The user has disputed the challenge already.
    DisputeAlreadyExists,
    /// The user has not disputed the challenge.
    NotDisputed,
    /// The dispute is resolved already.
    DisputeAlreadyResolved,
    /// The user has acted too often.
    RateLimitExceeded,
    /// The challenge accepts the token already.
    TokenNotSupported,
    /// The provider does not have that much liquidity.
    InsufficientLiquidity,
    /// The amount of liquidity or shares is not positive.
    InvalidLiquidityAmount,
    /// The oracle is not in the relayer set.
    OracleNotAuthorized,
    /// Too few oracles have submitted.
    InsufficientOracleSubmissions,
    /// The oracle has submitted for this challenge already.
    OracleAlreadySubmitted,
    /// Flash loan activity was detected.
    FlashLoanDetected,
    /// A large withdrawal follows another too soon.
    CooldownNotElapsed,
    /// The audit log is full.
    AuditLogFull,
    /// There are no rewards to claim.
    NoPendingRewards,
    /// There is no such template.
    TemplateNotFound,
    /// The user has as many templates as are allowed.
    TooManyTemplates,
    /// The user's reputation is too low.
    ReputationTooLow,
}

impl Error {
    /// The number by which the host reports the error.
    pub open spec fn number(self) -> u32 {
        match self {
            Error::AlreadyInitialized => 1,
            Error::NotInitialized => 2,
            Error::NotAuthorized => 3,
            Error::ChallengeNotFound => 4,
            Error::StakingClosed => 5,
            Error::TooEarlyToResolve => 6,
            Error::AlreadyFinalized => 7,
            Error::NotResolved => 8,
            Error::NoStake => 9,
            Error::AlreadyClaimed => 10,
            Error::NothingWon => 11,
            Error::InvalidAmount => 12,
            Error::WrongConditionForResolutionPath => 13,
            Error::InvalidLedgerSequence => 14,
            Error::AmountBelowMinimum => 15,
            Error::AlreadyCancelled => 16,
            Error::CannotCancel => 17,
            Error::ContractPaused => 18,
            Error::TokenNotWhitelisted => 19,
            Error::InsufficientQuorum => 20,
            Error::RelayerNotAuthorized => 21,
            Error::DuplicateSubmission => 22,
            Error::ChallengeExpired => 23,
            Error::InvalidExpirySequence => 24,
            Error::RelayerSlashed => 25,
            Error::CannotSlashRelayer => 26,
            Error::StakeStillVesting => 27,
            Error::InvalidVestingDuration => 28,
            Error::DisputeWindowClosed => 29,
            Error::InsufficientDisputeStake => 30,
            Error::DisputeAlreadyExists => 31,
            Error::NotDisputed => 32,
            Error::DisputeAlreadyResolved => 33,
            Error::RateLimitExceeded => 34,
            Error::TokenNotSupported => 35,
            Error::InsufficientLiquidity => 36,
            Error::InvalidLiquidityAmount => 37,
            Error::OracleNotAuthorized => 38,
            Error::InsufficientOracleSubmissions => 39,
            Error::OracleAlreadySubmitted => 40,
            Error::FlashLoanDetected => 41,
            Error::CooldownNotElapsed => 42,
            Error::AuditLogFull => 43,
            Error::NoPendingRewards => 44,
            Error::TemplateNotFound => 45,
            Error::TooManyTemplates => 46,
            Error::ReputationTooLow => 47,
        }
    }

    /// The number by which the host reports the error.
    pub fn code(self) -> (code: u32)
        ensures
            code == self.number(),
    {
        match self {
            Error::AlreadyInitialized => 1,
            Error::NotInitialized => 2,
            Error::NotAuthorized => 3,
            Error::ChallengeNotFound => 4,
            Error::StakingClosed => 5,
            Error::TooEarlyToResolve => 6,
            Error::AlreadyFinalized => 7,
            Error::NotResolved => 8,
            Error::NoStake => 9,
            Error::AlreadyClaimed => 10,
            Error::NothingWon => 11,
            Error::InvalidAmount => 12,
            Error::WrongConditionForResolutionPath => 13,
            Error::InvalidLedgerSequence => 14,
            Error::AmountBelowMinimum => 15,
            Error::AlreadyCancelled => 16,
            Error::CannotCancel => 17,
            Error::ContractPaused => 18,
            Error::TokenNotWhitelisted => 19,
            Error::InsufficientQuorum => 20,
            Error::RelayerNotAuthorized => 21,
            Error::DuplicateSubmission => 22,
            Error::ChallengeExpired => 23,
            Error::InvalidExpirySequence => 24,
            Error::RelayerSlashed => 25,
            Error::CannotSlashRelayer => 26,
            Error::StakeStillVesting => 27,
            Error::InvalidVestingDuration => 28,
            Error::DisputeWindowClosed => 29,
            Error::InsufficientDisputeStake => 30,
            Error::DisputeAlreadyExists => 31,
            Error::NotDisputed => 32,
            Error::DisputeAlreadyResolved => 33,
            Error::RateLimitExceeded => 34,
            Error::TokenNotSupported => 35,
            Error::InsufficientLiquidity => 36,
            Error::InvalidLiquidityAmount => 37,
            Error::OracleNotAuthorized => 38,
            Error::InsufficientOracleSubmissions => 39,
            Error::OracleAlreadySubmitted => 40,
            Error::FlashLoanDetected => 41,
            Error::CooldownNotElapsed => 42,
            Error::AuditLogFull => 43,
            Error::NoPendingRewards => 44,
            Error::TemplateNotFound => 45,
            Error::TooManyTemplates => 46,
            Error::ReputationTooLow => 47,
        }
    }
}

/// What the market tells the world.
#[derive(Debug, PartialEq, Eq)]
pub enum Event {
    Created { challenge_id: u64, creator: Address },
    Staked { challenge_id: u64, who: Address, side_yes: bool, amount: i128 },
    Resolved { challenge_id: u64, outcome_yes: bool },
    Claimed { challenge_id: u64, who: Address, payout: i128 },
    Cancelled { challenge_id: u64, by: Address },
    Refunded { challenge_id: u64, who: Address, amount: i128 },
    Paused,
    Unpaused,
    FeeCollected { token: Address, amount: i128 },
    RelayerAdded { relayer: Address },
    RelayerRemoved { relayer: Address },
    RelayerSlashed { relayer: Address, reason: String },
    VestingConfigured { user: Address, vesting_duration: u64 },
    OddsUpdated { challenge_id: u64, yes_odds: u32, no_odds: u32 },
    DisputeCreated { challenge_id: u64, disputer: Address, disputed_outcome: bool },
    DisputeResolved { challenge_id: u64, disputer: Address, successful: bool },
    LiquidityAdded { challenge_id: u64, provider: Address, amount: i128, shares: i128 },
    LiquidityRemoved { challenge_id: u64, provider: Address, amount: i128, shares: i128 },
    OracleSubmitted { challenge_id: u64, oracle: Address, outcome_yes: bool },
    OracleAggregated { challenge_id: u64, yes_votes: u32, no_votes: u32, outcome_yes: bool },
    FlashLoanDetected { user: Address, challenge_id: u64, amount: i128 },
    RewardClaimed { challenge_id: u64, provider: Address, rewards: i128 },
    TemplateCreated { creator: Address, template_id: u64 },
    TemplateUsed { template_id: u64, creator: Address, challenge_id: u64 },
    ReputationUpdated { user: Address, score: i32 },
}

impl Event {
    /// The name that the event is published under.
    pub open spec fn name(self) -> Seq<char> {
        match self {
            Event::Created { .. } => "created"@,
            Event::Staked { .. } => "staked"@,
            Event::Resolved { .. } => "resolved"@,
            Event::Claimed { .. } => "claimed"@,
            Event::Cancelled { .. } => "cancelled"@,
            Event::Refunded { .. } => "refunded"@,
            Event::Paused => "paused"@,
            Event::Unpaused => "unpaused"@,
            Event::FeeCollected { .. } => "fee_coll"@,
            Event::RelayerAdded { .. } => "rel_add"@,
            Event::RelayerRemoved { .. } => "rel_rem"@,
            Event::RelayerSlashed { .. } => "rel_rem"@,
            Event::VestingConfigured { .. } => "vest_cfg"@,
            Event::OddsUpdated { .. } => "odds_upd"@,
            Event::DisputeCreated { .. } => "disp_cre"@,
            Event::DisputeResolved { .. } => "disp_res"@,
            Event::LiquidityAdded { .. } => "liq_add"@,
            Event::LiquidityRemoved { .. } => "liq_rem"@,
            Event::OracleSubmitted { .. } => "ora_sub"@,
            Event::OracleAggregated { .. } => "ora_agg"@,
            Event::FlashLoanDetected { .. } => "flash_det"@,
            Event::RewardClaimed { .. } => "rew_clm"@,
            Event::TemplateCreated { .. } => "tmpl_cre"@,
            Event::TemplateUsed { .. } => "tmpl_use"@,
            Event::ReputationUpdated { .. } => "rep_upd"@,
        }
    }

    /// The name that the event is published under.
    pub fn topic(&self) -> (topic: &'static str)
        ensures
            topic@ == self.name(),
    {
        match self {
            Event::Created { .. } => "created",
            Event::Staked { .. } => "staked",
            Event::Resolved { .. } => "resolved",
            Event::Claimed { .. } => "claimed",
            Event::Cancelled { .. } => "cancelled",
            Event::Refunded { .. } => "refunded",
            Event::Paused => "paused",
            Event::Unpaused => "unpaused",
            Event::FeeCollected { .. } => "fee_coll",
            Event::RelayerAdded { .. } => "rel_add",
            Event::RelayerRemoved { .. } => "rel_rem",
            Event::RelayerSlashed { .. } => "rel_rem",
            Event::VestingConfigured { .. } => "vest_cfg",
            Event::OddsUpdated { .. } => "odds_upd",
            Event::DisputeCreated { .. } => "disp_cre",
            Event::DisputeResolved { .. } => "disp_res",
            Event::LiquidityAdded { .. } => "liq_add",
            Event::LiquidityRemoved { .. } => "liq_rem",
            Event::OracleSubmitted { .. } => "ora_sub",
            Event::OracleAggregated { .. } => "ora_agg",
            Event::FlashLoanDetected { .. } => "flash_det",
            Event::RewardClaimed { .. } => "rew_clm",
            Event::TemplateCreated { .. } => "tmpl_cre",
            Event::TemplateUsed { .. } => "tmpl_use",
            Event::ReputationUpdated { .. } => "rep_upd",
        }
    }

    /// What the event is about: a challenge, or a template where one is used.
    pub open spec fn about(self) -> Option<u64> {
        match self {
            Event::Created { challenge_id, .. }
            | Event::Staked { challenge_id, .. }
            | Event::Resolved { challenge_id, .. }
            | Event::Claimed { challenge_id, .. }
            | Event::Cancelled { challenge_id, .. }
            | Event::Refunded { challenge_id, .. }
            | Event::OddsUpdated { challenge_id, .. }
            | Event::DisputeCreated { challenge_id, .. }
            | Event::DisputeResolved { challenge_id, .. }
            | Event::LiquidityAdded { challenge_id, .. }
            | Event::LiquidityRemoved { challenge_id, .. }
            | Event::OracleSubmitted { challenge_id, .. }
            | Event::OracleAggregated { challenge_id, .. }
            | Event::RewardClaimed { challenge_id, .. } => Some(challenge_id),
            Event::TemplateUsed { template_id, .. } => Some(template_id),
            _ => None,
        }
    }

    /// What the event is about: a challenge, or a template where one is used.
    pub fn subject(&self) -> (subject: Option<u64>)
        ensures
            subject == self.about(),
    {
        match self {
            Event::Created { challenge_id, .. }
            | Event::Staked { challenge_id, .. }
            | Event::Resolved { challenge_id, .. }
            | Event::Claimed { challenge_id, .. }
            | Event::Cancelled { challenge_id, .. }
            | Event::Refunded { challenge_id, .. }
            | Event::OddsUpdated { challenge_id, .. }
            | Event::DisputeCreated { challenge_id, .. }
            | Event::DisputeResolved { challenge_id, .. }
            | Event::LiquidityAdded { challenge_id, .. }
            | Event::LiquidityRemoved { challenge_id, .. }
            | Event::OracleSubmitted { challenge_id, .. }
            | Event::OracleAggregated { challenge_id, .. }
            | Event::RewardClaimed { challenge_id, .. } => Some(*challenge_id),
            Event::TemplateUsed { template_id, .. } => Some(*template_id),
            _ => None,
        }
    }
}

impl Clone for Event {
    fn clone(&self) -> (copy: Self)
        ensures
            copy == *self,
    {
        match self {
            Event::Created { challenge_id, creator } => Event::Created {
                challenge_id: *challenge_id,
                creator: *creator,
            },
            Event::Staked { challenge_id, who, side_yes, amount } => Event::Staked {
                challenge_id: *challenge_id,
                who: *who,
                side_yes: *side_yes,
                amount: *amount,
            },
            Event::Resolved { challenge_id, outcome_yes } => Event::Resolved {
                challenge_id: *challenge_id,
                outcome_yes: *outcome_yes,
            },
            Event::Claimed { challenge_id, who, payout } => Event::Claimed {
                challenge_id: *challenge_id,
                who: *who,
                payout: *payout,
            },
            Event::Cancelled { challenge_id, by } => Event::Cancelled {
                challenge_id: *challenge_id,
                by: *by,
            },
            Event::Refunded { challenge_id, who, amount } => Event::Refunded {
                challenge_id: *challenge_id,
                who: *who,
                amount: *amount,
            },
            Event::Paused => Event::Paused,
            Event::Unpaused => Event::Unpaused,
            Event::FeeCollected { token, amount } => Event::FeeCollected {
                token: *token,
                amount: *amount,
            },
            Event::RelayerAdded { relayer } => Event::RelayerAdded { relayer: *relayer },
            Event::RelayerRemoved { relayer } => Event::RelayerRemoved { relayer: *relayer },
            Event::RelayerSlashed { relayer, reason } => Event::RelayerSlashed {
                relayer: *relayer,
                reason: reason.clone(),
            },
            Event::VestingConfigured { user, vesting_duration } => Event::VestingConfigured {
                user: *user,
                vesting_duration: *vesting_duration,
            },
            Event::OddsUpdated { challenge_id, yes_odds, no_odds } => Event::OddsUpdated {
                challenge_id: *challenge_id,
                yes_odds: *yes_odds,
                no_odds: *no_odds,
            },
            Event::DisputeCreated { challenge_id, disputer, disputed_outcome } => Event::DisputeCreated {
                challenge_id: *challenge_id,
                disputer: *disputer,
                disputed_outcome: *disputed_outcome,
            },
            Event::DisputeResolved { challenge_id, disputer, successful } => Event::DisputeResolved {
                challenge_id: *challenge_id,
                disputer: *disputer,
                successful: *successful,
            },
            Event::LiquidityAdded { challenge_id, provider, amount, shares } => Event::LiquidityAdded {
                challenge_id: *challenge_id,
                provider: *provider,
                amount: *amount,
                shares: *shares,
            },
            Event::LiquidityRemoved { challenge_id, provider, amount, shares } => Event::LiquidityRemoved {
                challenge_id: *challenge_id,
                provider: *provider,
                amount: *amount,
                shares: *shares,
            },
            Event::OracleSubmitted { challenge_id, oracle, outcome_yes } => Event::OracleSubmitted {
                challenge_id: *challenge_id,
                oracle: *oracle,
                outcome_yes: *outcome_yes,
            },
            Event::OracleAggregated { challenge_id, yes_votes, no_votes, outcome_yes } => Event::OracleAggregated {
                challenge_id: *challenge_id,
                yes_votes: *yes_votes,
                no_votes: *no_votes,
                outcome_yes: *outcome_yes,
            },
            Event::FlashLoanDetected { user, challenge_id, amount } => Event::FlashLoanDetected {
                user: *user,
                challenge_id: *challenge_id,
                amount: *amount,
            },
            Event::RewardClaimed { challenge_id, provider, rewards } => Event::RewardClaimed {
                challenge_id: *challenge_id,
                provider: *provider,
                rewards: *rewards,
            },
            Event::TemplateCreated { creator, template_id } => Event::TemplateCreated {
                creator: *creator,
                template_id: *template_id,
            },
            Event::TemplateUsed { template_id, creator, challenge_id } => Event::TemplateUsed {
                template_id: *template_id,
                creator: *creator,
                challenge_id: *challenge_id,
            },
            Event::ReputationUpdated { user, score } => Event::ReputationUpdated {
                user: *user,
                score: *score,
            },
        }
    }
}

/// What the market asks of the host.
///
/// The host carries actions out in order. Where one fails (an authorization
/// is missing, a balance is too small) the whole request is undone.
#[derive(Debug, PartialEq, Eq)]
pub enum Action {
    /// Fail unless this address has authorized the request.
    RequireAuth(Address),
    Transfer { token: Address, from: Address, to: Address, amount: i128 },
    /// Keep the entry for `extend_to` ledgers if fewer than `threshold` are
    /// left to it.
    ExtendTtl { key: DataKey, threshold: u32, extend_to: u32 },
    Publish(Event),
}

impl Clone for Action {
    fn clone(&self) -> (copy: Self)
        ensures
            copy == *self,
    {
        match self {
            Action::RequireAuth(who) => Action::RequireAuth(*who),
            Action::Transfer { token, from, to, amount } => Action::Transfer {
                token: *token,
                from: *from,
                to: *to,
                amount: *amount,
            },
            Action::ExtendTtl { key, threshold, extend_to } => Action::ExtendTtl {
                key: *key,
                threshold: *threshold,
                extend_to: *extend_to,
            },
            Action::Publish(event) => Action::Publish(event.clone()),
        }
    }
}

} // verus!
