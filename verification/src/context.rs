//! What a request runs in: where the ledger stands, what the market keeps,
//! and what it asks of the host.

use vstd::prelude::*;

use crate::lists::copy_env;
use crate::numbers::Numbers;
use crate::table::Table;
use crate::types::Action;
use crate::types::Address;
use crate::types::AggregatedOracleResult;
use crate::types::AuditLogEntry;
use crate::types::AuditLogEntryView;
use crate::types::Challenge;
use crate::types::ChallengeStats;
use crate::types::ChallengeTemplate;
use crate::types::ChallengeTemplateView;
use crate::types::ChallengeView;
use crate::types::Dispute;
use crate::types::DisputeView;
use crate::types::Event;
use crate::types::LiquidityPosition;
use crate::types::OracleSubmission;
use crate::types::RelayerQuorum;
use crate::types::RewardAccrual;
use crate::types::Stake;
use crate::types::UserReputation;

verus! {

/// The ledger, the market's own entries and the actions asked for so far.
///
/// The host fills in the entries that a request reads before the request,
/// and stores them again and carries out the actions after it.
pub struct Context {
    /// Where new lists are made.
    pub host: soroban_sdk::Env,
    /// The market's own address.
    pub contract: Address,
    /// The time of the current ledger, in seconds.
    pub timestamp: u64,
    /// The number of the current ledger.
    pub sequence: u32,
    /// What the host is asked to do, in order.
    pub actions: Vec<Action>,
    pub admin: Option<Address>,
    pub oracle_relayer: Option<Address>,
    pub next_challenge_id: Option<u64>,
    pub protocol_fee_bps: Option<u32>,
    pub relayer_quorum: Option<RelayerQuorum>,
    /// The numbers of the relayers' addresses.
    pub relayer_set: Option<Numbers>,
    pub relayer_slash_counts: Table<Address, u32>,
    pub paused: Option<bool>,
    pub min_stake: Option<i128>,
    pub token_whitelist: Table<Address, bool>,
    pub fee_balances: Table<Address, i128>,
    pub user_vesting: Table<Address, u64>,
    /// By user and window of time: the start of the window and the count in it.
    pub challenge_creation_counts: Table<(Address, u64), (u64, u32)>,
    pub stake_counts: Table<(Address, u64), (u64, u32)>,
    pub dispute_filing_counts: Table<(Address, u64), (u64, u32)>,
    /// By user and challenge: the time of the last large withdrawal.
    pub last_withdrawals: Table<(Address, u64), u64>,
    pub flash_loan_flags: Table<Address, bool>,
    pub template_counts: Table<Address, u32>,
    pub next_template_id: Option<u64>,
    pub challenges: Table<u64, Challenge>,
    pub stakes: Table<(u64, Address), Stake>,
    pub challenge_stats: Table<u64, ChallengeStats>,
    pub challenge_categories: Table<u64, String>,
    pub disputes: Table<(u64, Address), Dispute>,
    pub dispute_counts: Table<u64, u32>,
    /// By challenge and further token: its YES pool and its NO pool.
    pub multi_token_pools: Table<(u64, Address), (i128, i128)>,
    pub liquidity_positions: Table<(u64, Address), LiquidityPosition>,
    pub total_liquidity: Table<u64, i128>,
    pub oracle_submissions: Table<(u64, Address), OracleSubmission>,
    pub oracle_results: Table<u64, AggregatedOracleResult>,
    pub audit_log: Table<(u64, u64), AuditLogEntry>,
    pub audit_log_counts: Table<u64, u32>,
    pub reward_accruals: Table<(u64, Address), RewardAccrual>,
    pub reward_indices: Table<u64, u128>,
    pub templates: Table<(u64, Address), ChallengeTemplate>,
    pub reputations: Table<Address, UserReputation>,
    pub creator_reputations: Table<u64, i32>,
}

/// What a [`Context`] is: the same, over mathematical maps and sequences.
#[verifier::ext_equal]
pub struct State {
    pub contract: Address,
    pub timestamp: u64,
    pub sequence: u32,
    pub actions: Seq<Action>,
    pub admin: Option<Address>,
    pub oracle_relayer: Option<Address>,
    pub next_challenge_id: Option<u64>,
    pub protocol_fee_bps: Option<u32>,
    pub relayer_quorum: Option<RelayerQuorum>,
    pub relayer_set: Option<Seq<u64>>,
    pub relayer_slash_counts: Map<Address, u32>,
    pub paused: Option<bool>,
    pub min_stake: Option<i128>,
    pub token_whitelist: Map<Address, bool>,
    pub fee_balances: Map<Address, i128>,
    pub user_vesting: Map<Address, u64>,
    pub challenge_creation_counts: Map<(Address, u64), (u64, u32)>,
    pub stake_counts: Map<(Address, u64), (u64, u32)>,
    pub dispute_filing_counts: Map<(Address, u64), (u64, u32)>,
    pub last_withdrawals: Map<(Address, u64), u64>,
    pub flash_loan_flags: Map<Address, bool>,
    pub template_counts: Map<Address, u32>,
    pub next_template_id: Option<u64>,
    pub challenges: Map<u64, ChallengeView>,
    pub stakes: Map<(u64, Address), Stake>,
    pub challenge_stats: Map<u64, ChallengeStats>,
    pub challenge_categories: Map<u64, Seq<char>>,
    pub disputes: Map<(u64, Address), DisputeView>,
    pub dispute_counts: Map<u64, u32>,
    pub multi_token_pools: Map<(u64, Address), (i128, i128)>,
    pub liquidity_positions: Map<(u64, Address), LiquidityPosition>,
    pub total_liquidity: Map<u64, i128>,
    pub oracle_submissions: Map<(u64, Address), OracleSubmission>,
    pub oracle_results: Map<u64, AggregatedOracleResult>,
    pub audit_log: Map<(u64, u64), AuditLogEntryView>,
    pub audit_log_counts: Map<u64, u32>,
    pub reward_accruals: Map<(u64, Address), RewardAccrual>,
    pub reward_indices: Map<u64, u128>,
    pub templates: Map<(u64, Address), ChallengeTemplateView>,
    pub reputations: Map<Address, UserReputation>,
    pub creator_reputations: Map<u64, i32>,
}

/// The items of a list that may be missing.
pub open spec fn optional_items(list: Option<Numbers>) -> Option<Seq<u64>> {
    match list {
        Some(items) => Some(items@),
        None => None,
    }
}

impl View for Context {
    type V = State;

    open spec fn view(&self) -> State {
        State {
            contract: self.contract,
            timestamp: self.timestamp,
            sequence: self.sequence,
            actions: self.actions@,
            admin: self.admin,
            oracle_relayer: self.oracle_relayer,
            next_challenge_id: self.next_challenge_id,
            protocol_fee_bps: self.protocol_fee_bps,
            relayer_quorum: self.relayer_quorum,
            relayer_set: optional_items(self.relayer_set),
            relayer_slash_counts: self.relayer_slash_counts@,
            paused: self.paused,
            min_stake: self.min_stake,
            token_whitelist: self.token_whitelist@,
            fee_balances: self.fee_balances@,
            user_vesting: self.user_vesting@,
            challenge_creation_counts: self.challenge_creation_counts@,
            stake_counts: self.stake_counts@,
            dispute_filing_counts: self.dispute_filing_counts@,
            last_withdrawals: self.last_withdrawals@,
            flash_loan_flags: self.flash_loan_flags@,
            template_counts: self.template_counts@,
            next_template_id: self.next_template_id,
            challenges: self.challenges@,
            stakes: self.stakes@,
            challenge_stats: self.challenge_stats@,
            challenge_categories: self.challenge_categories@,
            disputes: self.disputes@,
            dispute_counts: self.dispute_counts@,
            multi_token_pools: self.multi_token_pools@,
            liquidity_positions: self.liquidity_positions@,
            total_liquidity: self.total_liquidity@,
            oracle_submissions: self.oracle_submissions@,
            oracle_results: self.oracle_results@,
            audit_log: self.audit_log@,
            audit_log_counts: self.audit_log_counts@,
            reward_accruals: self.reward_accruals@,
            reward_indices: self.reward_indices@,
            templates: self.templates@,
            reputations: self.reputations@,
            creator_reputations: self.creator_reputations@,
        }
    }
}

impl State {
    /// The same state with one more action asked of the host.
    pub open spec fn asking(self, action: Action) -> State {
        State { actions: self.actions.push(action), ..self }
    }

    pub open spec fn publishing(self, event: Event) -> State {
        self.asking(Action::Publish(event))
    }

    pub open spec fn is_paused(self) -> bool {
        self.paused == Some(true)
    }
}

/// A market that nothing has happened in yet.
pub open spec fn empty_state(contract: Address, timestamp: u64, sequence: u32) -> State {
    State {
        contract,
        timestamp,
        sequence,
        actions: Seq::empty(),
        admin: None,
        oracle_relayer: None,
        next_challenge_id: None,
        protocol_fee_bps: None,
        relayer_quorum: None,
        relayer_set: None,
        relayer_slash_counts: Map::empty(),
        paused: None,
        min_stake: None,
        token_whitelist: Map::empty(),
        fee_balances: Map::empty(),
        user_vesting: Map::empty(),
        challenge_creation_counts: Map::empty(),
        stake_counts: Map::empty(),
        dispute_filing_counts: Map::empty(),
        last_withdrawals: Map::empty(),
        flash_loan_flags: Map::empty(),
        template_counts: Map::empty(),
        next_template_id: None,
        challenges: Map::empty(),
        stakes: Map::empty(),
        challenge_stats: Map::empty(),
        challenge_categories: Map::empty(),
        disputes: Map::empty(),
        dispute_counts: Map::empty(),
        multi_token_pools: Map::empty(),
        liquidity_positions: Map::empty(),
        total_liquidity: Map::empty(),
        oracle_submissions: Map::empty(),
        oracle_results: Map::empty(),
        audit_log: Map::empty(),
        audit_log_counts: Map::empty(),
        reward_accruals: Map::empty(),
        reward_indices: Map::empty(),
        templates: Map::empty(),
        reputations: Map::empty(),
        creator_reputations: Map::empty(),
    }
}

impl Context {
    /// The context of a request to a market that keeps nothing yet.
    pub fn new(host: soroban_sdk::Env, contract: Address, timestamp: u64, sequence: u32) -> (ctx: Self)
        ensures
            ctx@ == empty_state(contract, timestamp, sequence),
    {
        Context {
            host,
            contract,
            timestamp,
            sequence,
            actions: Vec::new(),
            admin: None,
            oracle_relayer: None,
            next_challenge_id: None,
            protocol_fee_bps: None,
            relayer_quorum: None,
            relayer_set: None,
            relayer_slash_counts: Table::new(),
            paused: None,
            min_stake: None,
            token_whitelist: Table::new(),
            fee_balances: Table::new(),
            user_vesting: Table::new(),
            challenge_creation_counts: Table::new(),
            stake_counts: Table::new(),
            dispute_filing_counts: Table::new(),
            last_withdrawals: Table::new(),
            flash_loan_flags: Table::new(),
            template_counts: Table::new(),
            next_template_id: None,
            challenges: Table::new(),
            stakes: Table::new(),
            challenge_stats: Table::new(),
            challenge_categories: Table::new(),
            disputes: Table::new(),
            dispute_counts: Table::new(),
            multi_token_pools: Table::new(),
            liquidity_positions: Table::new(),
            total_liquidity: Table::new(),
            oracle_submissions: Table::new(),
            oracle_results: Table::new(),
            audit_log: Table::new(),
            audit_log_counts: Table::new(),
            reward_accruals: Table::new(),
            reward_indices: Table::new(),
            templates: Table::new(),
            reputations: Table::new(),
            creator_reputations: Table::new(),
        }
    }

    /// Asks one more action of the host.
    pub fn ask(&mut self, action: Action)
        ensures
            final(self)@ == old(self)@.asking(action),
    {
        self.actions.push(action);
    }

    pub fn publish(&mut self, event: Event)
        ensures
            final(self)@ == old(self)@.publishing(event),
    {
        self.ask(Action::Publish(event));
    }
}

impl Clone for Context {
    fn clone(&self) -> (copy: Self)
        ensures
            copy@ == self@,
    {
        let mut actions: Vec<Action> = Vec::new();
        let mut i: usize = 0;
        while i < self.actions.len()
            invariant
                i <= self.actions@.len(),
                actions@ == self.actions@.take(i as int),
            decreases self.actions@.len() - i,
        {
            actions.push(self.actions[i].clone());
            i = i + 1;
        }
        assert(actions@ =~= self.actions@);
        let relayer_set: Option<Numbers> = match &self.relayer_set {
            Some(set) => Some(set.clone()),
            None => None,
        };
        Context {
            host: copy_env(&self.host),
            contract: self.contract,
            timestamp: self.timestamp,
            sequence: self.sequence,
            actions,
            admin: self.admin,
            oracle_relayer: self.oracle_relayer,
            next_challenge_id: self.next_challenge_id,
            protocol_fee_bps: self.protocol_fee_bps,
            relayer_quorum: self.relayer_quorum,
            relayer_set,
            relayer_slash_counts: self.relayer_slash_counts.duplicate(),
            paused: self.paused,
            min_stake: self.min_stake,
            token_whitelist: self.token_whitelist.duplicate(),
            fee_balances: self.fee_balances.duplicate(),
            user_vesting: self.user_vesting.duplicate(),
            challenge_creation_counts: self.challenge_creation_counts.duplicate(),
            stake_counts: self.stake_counts.duplicate(),
            dispute_filing_counts: self.dispute_filing_counts.duplicate(),
            last_withdrawals: self.last_withdrawals.duplicate(),
            flash_loan_flags: self.flash_loan_flags.duplicate(),
            template_counts: self.template_counts.duplicate(),
            next_template_id: self.next_template_id,
            challenges: self.challenges.duplicate(),
            stakes: self.stakes.duplicate(),
            challenge_stats: self.challenge_stats.duplicate(),
            challenge_categories: self.challenge_categories.duplicate(),
            disputes: self.disputes.duplicate(),
            dispute_counts: self.dispute_counts.duplicate(),
            multi_token_pools: self.multi_token_pools.duplicate(),
            liquidity_positions: self.liquidity_positions.duplicate(),
            total_liquidity: self.total_liquidity.duplicate(),
            oracle_submissions: self.oracle_submissions.duplicate(),
            oracle_results: self.oracle_results.duplicate(),
            audit_log: self.audit_log.duplicate(),
            audit_log_counts: self.audit_log_counts.duplicate(),
            reward_accruals: self.reward_accruals.duplicate(),
            reward_indices: self.reward_indices.duplicate(),
            templates: self.templates.duplicate(),
            reputations: self.reputations.duplicate(),
            creator_reputations: self.creator_reputations.duplicate(),
        }
    }
}

} // verus!
