//! Requests whose numbers are out of range, told beforehand.

use challenge_market::context::Context;
use challenge_market::market::ChallengeMarket;
use challenge_market::types::Address;
use challenge_market::types::ChallengeStats;
use challenge_market::types::Condition;
use challenge_market::types::Dispute;
use challenge_market::types::Error;
use challenge_market::types::LiquidityPosition;
use challenge_market::types::RelayerQuorum;
use challenge_market::types::RewardAccrual;
use challenge_market::types::Stake;
use soroban_sdk::testutils::EnvTestConfig;
use soroban_sdk::Env;

const MARKET: Address = Address { id: 0 };
const ADMIN: Address = Address { id: 1 };
const TOKEN: Address = Address { id: 3 };
const ALICE: Address = Address { id: 10 };
const BOB: Address = Address { id: 11 };

fn with_challenge() -> Context {
    let env = Env::new_with_config(EnvTestConfig { capture_snapshot_at_drop: false });
    let mut ctx = Context::new(env, MARKET, 500, 50);
    ChallengeMarket::initialize(&mut ctx, ADMIN, ADMIN).unwrap();
    ChallengeMarket::create_challenge(
        &mut ctx,
        ALICE,
        String::new(),
        Condition::TxCountAtLeast(1),
        60,
        55,
        TOKEN,
        String::new(),
    )
    .unwrap();
    ctx
}

fn stake_of(yes_amount: i128, no_amount: i128) -> Stake {
    Stake {
        yes_amount,
        no_amount,
        claimed_yes: false,
        claimed_no: false,
        vesting_start: 0,
        vesting_duration: 0,
        is_vested: true,
        token: TOKEN,
    }
}

fn set_pools(ctx: &mut Context, pool_yes: i128, pool_no: i128) {
    let mut challenge = ChallengeMarket::get_challenge(ctx, 0).unwrap();
    challenge.pool_yes = pool_yes;
    challenge.pool_no = pool_no;
    ctx.challenges.set(0, challenge);
}

fn settle(ctx: &mut Context, resolved: bool, cancelled: bool) {
    let mut challenge = ChallengeMarket::get_challenge(ctx, 0).unwrap();
    challenge.resolved = resolved;
    challenge.cancelled = cancelled;
    challenge.outcome_yes = true;
    ctx.challenges.set(0, challenge);
}

#[test]
fn stakes_that_add_up_too_far() {
    let mut ctx = with_challenge();
    assert!(ChallengeMarket::stake_fits(&ctx, BOB, 0, true, 5));
    assert!(!ChallengeMarket::stake_fits(&ctx, BOB, 0, true, i128::MAX));
    // A stake that is refused adds nothing up.
    assert!(ChallengeMarket::stake_fits(&ctx, BOB, 9, true, i128::MAX));
    set_pools(&mut ctx, 0, i128::MAX);
    assert!(!ChallengeMarket::stake_fits(&ctx, BOB, 0, false, 1));
    assert!(!ChallengeMarket::stake_fits(&ctx, BOB, 0, true, 1));
    set_pools(&mut ctx, 0, 0);
    let full = ChallengeStats { total_participants: u32::MAX, total_staked: 0 };
    ctx.challenge_stats.set(0, full);
    assert!(!ChallengeMarket::stake_fits(&ctx, BOB, 0, true, 1));
    ctx.stakes.set((0, BOB), stake_of(1, 0));
    assert!(ChallengeMarket::stake_fits(&ctx, BOB, 0, true, 1));
}

#[test]
fn payouts_that_multiply_too_far() {
    let mut ctx = with_challenge();
    ctx.stakes.set((0, BOB), stake_of(1 << 100, 0));
    set_pools(&mut ctx, 1 << 100, 1 << 100);
    assert!(ChallengeMarket::claim_fits(&ctx, BOB, 0));
    settle(&mut ctx, true, false);
    assert!(!ChallengeMarket::claim_fits(&ctx, BOB, 0));
    set_pools(&mut ctx, 1 << 100, 1 << 20);
    assert!(ChallengeMarket::claim_fits(&ctx, BOB, 0));
    ctx.fee_balances.set(TOKEN, i128::MAX);
    assert!(ChallengeMarket::claim_fits(&ctx, BOB, 0));
    ctx.protocol_fee_bps = Some(10);
    assert!(!ChallengeMarket::claim_fits(&ctx, BOB, 0));
    let mut unvested = stake_of(1, 0);
    unvested.is_vested = false;
    unvested.vesting_start = u64::MAX;
    unvested.vesting_duration = 1;
    ctx.stakes.set((0, BOB), unvested);
    assert!(!ChallengeMarket::claim_fits(&ctx, BOB, 0));
    assert!(!ChallengeMarket::get_stake_vesting_status_fits(&ctx, 0, BOB));
    assert!(ChallengeMarket::get_stake_vesting_status_fits(&ctx, 0, ALICE));
}

#[test]
fn refunds_that_add_up_too_far() {
    let mut ctx = with_challenge();
    ctx.stakes.set((0, BOB), stake_of(i128::MAX, 1));
    assert!(ChallengeMarket::refund_fits(&ctx, BOB, 0));
    settle(&mut ctx, false, true);
    assert!(!ChallengeMarket::refund_fits(&ctx, BOB, 0));
    ctx.stakes.set((0, BOB), stake_of(i128::MAX, 0));
    assert!(ChallengeMarket::refund_fits(&ctx, BOB, 0));
}

#[test]
fn numbers_that_run_out() {
    let mut ctx = with_challenge();
    assert!(ChallengeMarket::create_challenge_fits(&ctx, BOB, 60, 55, TOKEN));
    assert!(ChallengeMarket::create_template_fits(&ctx, BOB, TOKEN));
    assert!(ChallengeMarket::list_user_templates_fits(&ctx, BOB));
    ctx.next_challenge_id = Some(u64::MAX);
    ctx.next_template_id = Some(u64::MAX);
    assert!(!ChallengeMarket::create_challenge_fits(&ctx, BOB, 60, 55, TOKEN));
    assert!(ChallengeMarket::create_challenge_fits(&ctx, BOB, 60, 50, TOKEN));
    assert!(!ChallengeMarket::create_template_fits(&ctx, BOB, TOKEN));
    assert!(ChallengeMarket::list_challenges_fits(&ctx, 0, 10));
    assert!(ChallengeMarket::list_challenges_fits(&ctx, u64::MAX - 3, u64::MAX));
    assert!(ChallengeMarket::add_challenge_token_fits(&ctx, 0, BOB));
    assert!(ChallengeMarket::cleanup_old_challenges_fits(&ctx, 5));
}

#[test]
fn templates_that_reach_too_far() {
    let mut ctx = with_challenge();
    ChallengeMarket::create_template(
        &mut ctx,
        ALICE,
        String::new(),
        Condition::TxCountAtLeast(1),
        10,
        5,
        TOKEN,
        String::new(),
    )
    .unwrap();
    assert!(ChallengeMarket::create_from_template_fits(&ctx, ALICE, 0));
    ctx.sequence = u32::MAX - 1_000;
    assert!(!ChallengeMarket::create_from_template_fits(&ctx, ALICE, 0));
    assert!(ChallengeMarket::create_from_template_fits(&ctx, BOB, 0));
    ctx.sequence = u32::MAX - 4;
    assert!(!ChallengeMarket::create_from_template_fits(&ctx, ALICE, 0));
}

#[test]
fn relayers_that_cannot_be_counted() {
    let mut ctx = with_challenge();
    ChallengeMarket::add_relayer(&mut ctx, BOB).unwrap();
    assert!(ChallengeMarket::add_relayer_fits(&ctx, ALICE));
    assert!(ChallengeMarket::remove_relayer_fits(&ctx, BOB));
    assert!(ChallengeMarket::slash_relayer_fits(&ctx, BOB));
    ctx.relayer_quorum = Some(RelayerQuorum { required_signatures: 1, total_relayers: u32::MAX });
    assert!(!ChallengeMarket::add_relayer_fits(&ctx, ALICE));
    assert!(ChallengeMarket::add_relayer_fits(&ctx, BOB));
    ctx.relayer_quorum = Some(RelayerQuorum { required_signatures: 0, total_relayers: 0 });
    assert!(!ChallengeMarket::remove_relayer_fits(&ctx, BOB));
    assert!(ChallengeMarket::slash_relayer_fits(&ctx, BOB));
    ctx.relayer_slash_counts.set(BOB, 2);
    assert!(!ChallengeMarket::slash_relayer_fits(&ctx, BOB));
}

#[test]
fn liquidity_that_adds_up_too_far() {
    let mut ctx = with_challenge();
    assert!(ChallengeMarket::add_liquidity_fits(&ctx, BOB, 0, i128::MAX));
    ctx.total_liquidity.set(0, 1);
    assert!(!ChallengeMarket::add_liquidity_fits(&ctx, BOB, 0, i128::MAX));
    assert!(ChallengeMarket::add_liquidity_fits(&ctx, BOB, 0, 1_000));
    ctx.total_liquidity.set(0, 1 << 100);
    let position = LiquidityPosition {
        provider: BOB,
        amount: 1 << 100,
        shares: 1 << 100,
        reward_debt: 0,
        last_update: 0,
    };
    ctx.liquidity_positions.set((0, BOB), position);
    assert!(!ChallengeMarket::remove_liquidity_fits(&ctx, BOB, 0, 1 << 100));
    assert!(ChallengeMarket::remove_liquidity_fits(&ctx, BOB, 0, 1 << 20));
    ctx.last_withdrawals.set((BOB, 0), 501);
    assert!(!ChallengeMarket::remove_liquidity_fits(&ctx, BOB, 0, 1 << 20));
    assert!(ChallengeMarket::get_pending_rewards_fits(&ctx, 0, BOB));
    ctx.reward_accruals.set(
        (0, BOB),
        RewardAccrual {
            provider: BOB,
            challenge_id: 0,
            reward_index: 1,
            pending_rewards: 0,
            last_update: 0,
        },
    );
    assert!(!ChallengeMarket::get_pending_rewards_fits(&ctx, 0, BOB));
    assert!(!ChallengeMarket::claim_rewards_fits(&ctx, BOB, 0));
    assert!(ChallengeMarket::claim_rewards_fits(&ctx, ALICE, 0));
    assert!(ChallengeMarket::update_challenge_reward_index_fits(&ctx, 0));
    ctx.reward_indices.set(0, u128::MAX);
    assert!(!ChallengeMarket::update_challenge_reward_index_fits(&ctx, 0));
}

#[test]
fn disputes_that_add_up_too_far() {
    let mut ctx = with_challenge();
    settle(&mut ctx, true, false);
    assert!(ChallengeMarket::file_dispute_fits(&ctx, BOB, 0, 100));
    ctx.dispute_counts.set(0, u32::MAX);
    assert!(!ChallengeMarket::file_dispute_fits(&ctx, BOB, 0, 100));
    assert!(ChallengeMarket::file_dispute_fits(&ctx, BOB, 0, 99));
    ctx.disputes.set(
        (0, BOB),
        Dispute {
            challenge_id: 0,
            disputer: BOB,
            disputed_outcome: false,
            evidence: String::new(),
            stake: i128::MAX,
            resolved: false,
            successful: false,
            created_at: 0,
        },
    );
    assert!(ChallengeMarket::resolve_dispute_fits(&ctx, 0, BOB, false));
    assert!(!ChallengeMarket::resolve_dispute_fits(&ctx, 0, BOB, true));
}

#[test]
fn odds_that_multiply_too_far() {
    let mut ctx = with_challenge();
    assert!(ChallengeMarket::calculate_odds_fits(&ctx, 0));
    assert!(ChallengeMarket::calculate_potential_payout_fits(&ctx, 0, true, i128::MAX));
    set_pools(&mut ctx, i128::MAX, 0);
    assert!(!ChallengeMarket::calculate_odds_fits(&ctx, 0));
    assert!(ChallengeMarket::calculate_odds_fits(&ctx, 9));
    set_pools(&mut ctx, 1, 2);
    assert!(!ChallengeMarket::calculate_potential_payout_fits(&ctx, 0, true, i128::MAX));
    assert!(ChallengeMarket::calculate_potential_payout_fits(&ctx, 0, false, i128::MAX / 2));
}

#[test]
fn several_requests_at_once_are_told_too() {
    let mut ctx = with_challenge();
    let stakes = soroban_sdk::Vec::from_array(&ctx.host, [(0u64, true, 5i128), (0, true, i128::MAX)]);
    assert_eq!(ChallengeMarket::try_batch_stake(&mut ctx, BOB, stakes), None);
    assert_eq!(ChallengeMarket::get_stake(&ctx, 0, BOB), None);
    // One that is refused comes before the one that is out of range.
    let stakes = soroban_sdk::Vec::from_array(&ctx.host, [(9u64, true, 5i128), (0, true, i128::MAX)]);
    assert_eq!(
        ChallengeMarket::try_batch_stake(&mut ctx, BOB, stakes),
        Some(Err(Error::ChallengeNotFound)),
    );
    ctx.stakes.set((0, BOB), stake_of(1 << 100, 0));
    set_pools(&mut ctx, 1 << 100, 1 << 100);
    settle(&mut ctx, true, false);
    let ids = soroban_sdk::Vec::from_array(&ctx.host, [0u64]);
    assert!(ChallengeMarket::try_batch_claim(&mut ctx, BOB, ids).is_none());
}
