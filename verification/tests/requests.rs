//! Single requests: what they answer, what they keep, what they ask for.

use challenge_market::context::Context;
use challenge_market::guards::rate_window;
use challenge_market::market::ChallengeMarket;
use challenge_market::types::Action;
use challenge_market::types::Address;
use challenge_market::types::Condition;
use challenge_market::types::DataKey;
use challenge_market::types::Error;
use challenge_market::types::Event;
use soroban_sdk::testutils::EnvTestConfig;
use soroban_sdk::Env;

const MARKET: Address = Address { id: 0 };
const ADMIN: Address = Address { id: 1 };
const RELAYER: Address = Address { id: 2 };
const TOKEN: Address = Address { id: 3 };
const ALICE: Address = Address { id: 10 };
const BOB: Address = Address { id: 11 };

fn fresh() -> Context {
    let env = Env::new_with_config(EnvTestConfig { capture_snapshot_at_drop: false });
    Context::new(env, MARKET, 1_000, 100)
}

fn set_up() -> Context {
    let mut ctx = fresh();
    ChallengeMarket::initialize(&mut ctx, ADMIN, RELAYER).unwrap();
    ctx.actions = Vec::new();
    ctx
}

fn create(ctx: &mut Context, condition: Condition) -> u64 {
    let id = ChallengeMarket::create_challenge(
        ctx,
        ALICE,
        String::from("a challenge"),
        condition,
        110,
        105,
        TOKEN,
        String::from("fees"),
    )
    .unwrap();
    ctx.actions = Vec::new();
    id
}

fn resolved(ctx: &mut Context, outcome_yes: bool) -> u64 {
    let id = create(ctx, Condition::TxCountAtLeast(5));
    ChallengeMarket::stake(ctx, ALICE, id, true, 30).unwrap();
    ChallengeMarket::stake(ctx, BOB, id, false, 20).unwrap();
    ctx.sequence = 110;
    ChallengeMarket::resolve_via_oracle(ctx, id, outcome_yes).unwrap();
    ctx.actions = Vec::new();
    id
}

#[test]
fn a_market_is_set_up_once() {
    let mut ctx = fresh();
    assert_eq!(ChallengeMarket::get_admin(&ctx), Err(Error::NotInitialized));
    assert_eq!(ChallengeMarket::get_oracle_relayer(&ctx), Err(Error::NotInitialized));
    assert_eq!(ChallengeMarket::get_protocol_fee(&ctx), Err(Error::NotInitialized));
    assert_eq!(ChallengeMarket::get_next_challenge_id(&ctx), Err(Error::NotInitialized));
    assert_eq!(ChallengeMarket::get_admin_opt(&ctx), None);
    assert_eq!(ChallengeMarket::initialize(&mut ctx, ADMIN, RELAYER), Ok(()));
    assert_eq!(ctx.actions, vec![Action::RequireAuth(ADMIN)]);
    assert_eq!(ChallengeMarket::get_admin(&ctx), Ok(ADMIN));
    assert_eq!(ChallengeMarket::get_oracle_relayer_opt(&ctx), Some(RELAYER));
    assert_eq!(ChallengeMarket::get_protocol_fee_opt(&ctx), Some(0));
    assert_eq!(ChallengeMarket::get_next_challenge_id(&ctx), Ok(0));
    assert_eq!(
        ChallengeMarket::initialize(&mut ctx, ALICE, BOB),
        Err(Error::AlreadyInitialized),
    );
    assert_eq!(ChallengeMarket::get_admin(&ctx), Ok(ADMIN));
}

#[test]
fn admin_requests_need_an_admin() {
    let mut ctx = fresh();
    let expected = Err(Error::NotInitialized);
    assert_eq!(ChallengeMarket::set_oracle_relayer(&mut ctx, BOB), expected);
    assert_eq!(ChallengeMarket::set_protocol_fee(&mut ctx, 1), expected);
    assert_eq!(ChallengeMarket::pause(&mut ctx), expected);
    assert_eq!(ChallengeMarket::unpause(&mut ctx), expected);
    assert_eq!(ChallengeMarket::set_min_stake(&mut ctx, 5), expected);
    assert_eq!(ChallengeMarket::add_token_to_whitelist(&mut ctx, TOKEN), expected);
    assert_eq!(ChallengeMarket::remove_token_from_whitelist(&mut ctx, TOKEN), expected);
    assert_eq!(ChallengeMarket::set_user_vesting(&mut ctx, BOB, 5), expected);
    assert_eq!(ChallengeMarket::add_challenge_token(&mut ctx, 0, TOKEN), expected);
    assert_eq!(ChallengeMarket::clear_flash_loan_flag(&mut ctx, BOB), expected);
    assert_eq!(ChallengeMarket::resolve_dispute(&mut ctx, 0, BOB, true), expected);
    assert_eq!(
        ChallengeMarket::collect_fees(&mut ctx, TOKEN, BOB),
        Err(Error::NotInitialized),
    );
    assert_eq!(
        ChallengeMarket::cleanup_old_challenges(&mut ctx, 3),
        Err(Error::NotInitialized),
    );
    assert_eq!(ChallengeMarket::resolve_via_oracle(&mut ctx, 0, true), expected);
    assert_eq!(ctx.actions, Vec::new());
}

#[test]
fn settings_are_kept_within_bounds() {
    let mut ctx = set_up();
    assert_eq!(ChallengeMarket::set_protocol_fee(&mut ctx, 10_001), Err(Error::InvalidAmount));
    assert_eq!(ChallengeMarket::get_protocol_fee(&ctx), Ok(0));
    assert_eq!(ChallengeMarket::set_protocol_fee(&mut ctx, 10_000), Ok(()));
    assert_eq!(ChallengeMarket::get_protocol_fee(&ctx), Ok(10_000));
    assert_eq!(ChallengeMarket::set_min_stake(&mut ctx, 0), Err(Error::InvalidAmount));
    assert_eq!(ChallengeMarket::get_min_stake(&ctx), 1);
    assert_eq!(ChallengeMarket::set_min_stake(&mut ctx, 7), Ok(()));
    assert_eq!(ChallengeMarket::get_min_stake(&ctx), 7);
    assert_eq!(
        ChallengeMarket::set_user_vesting(&mut ctx, BOB, 31_536_001),
        Err(Error::InvalidVestingDuration),
    );
    assert_eq!(ChallengeMarket::set_user_vesting(&mut ctx, BOB, 31_536_000), Ok(()));
    assert_eq!(ChallengeMarket::get_user_vesting(&ctx, BOB), 31_536_000);
    assert_eq!(
        ChallengeMarket::set_self_vesting(&mut ctx, ALICE, 31_536_001),
        Err(Error::InvalidVestingDuration),
    );
    ctx.actions = Vec::new();
    assert_eq!(ChallengeMarket::set_self_vesting(&mut ctx, ALICE, 60), Ok(()));
    assert_eq!(
        ctx.actions,
        vec![
            Action::RequireAuth(ALICE),
            Action::Publish(Event::VestingConfigured { user: ALICE, vesting_duration: 60 }),
        ],
    );
    assert_eq!(ChallengeMarket::get_user_vesting(&ctx, ALICE), 60);
    assert_eq!(ChallengeMarket::set_oracle_relayer(&mut ctx, BOB), Ok(()));
    assert_eq!(ChallengeMarket::get_oracle_relayer(&ctx), Ok(BOB));
}

#[test]
fn a_paused_market_begins_nothing() {
    let mut ctx = set_up();
    let id = create(&mut ctx, Condition::LedgerCloseUnder(6));
    assert_eq!(ChallengeMarket::unpause(&mut ctx), Err(Error::NotAuthorized));
    assert_eq!(ChallengeMarket::pause(&mut ctx), Ok(()));
    assert!(ChallengeMarket::get_paused(&ctx));
    assert_eq!(ChallengeMarket::pause(&mut ctx), Err(Error::AlreadyCancelled));
    let paused = Err(Error::ContractPaused);
    assert_eq!(ChallengeMarket::stake(&mut ctx, BOB, id, true, 5), paused);
    assert_eq!(ChallengeMarket::cancel_challenge(&mut ctx, ALICE, id), paused);
    assert_eq!(ChallengeMarket::add_relayer(&mut ctx, BOB), paused);
    assert_eq!(ChallengeMarket::remove_relayer(&mut ctx, BOB), paused);
    assert_eq!(ChallengeMarket::set_quorum_size(&mut ctx, 1), paused);
    assert_eq!(ChallengeMarket::submit_oracle_outcome(&mut ctx, BOB, id, true), paused);
    assert_eq!(ChallengeMarket::update_challenge_reward_index(&mut ctx, id), paused);
    assert_eq!(
        ChallengeMarket::file_dispute(&mut ctx, BOB, id, true, String::new(), 100),
        paused,
    );
    assert_eq!(
        ChallengeMarket::add_liquidity(&mut ctx, BOB, id, 100),
        Err(Error::ContractPaused),
    );
    assert_eq!(
        ChallengeMarket::create_from_template(&mut ctx, BOB, 0, String::new()),
        Err(Error::ContractPaused),
    );
    assert_eq!(ChallengeMarket::unpause(&mut ctx), Ok(()));
    assert!(!ChallengeMarket::get_paused(&ctx));
    assert_eq!(ChallengeMarket::stake(&mut ctx, BOB, id, true, 5), Ok(()));
}

#[test]
fn a_challenge_lies_in_the_future() {
    let mut ctx = set_up();
    let mut attempt = |resolve: u32, deadline: u32| {
        ChallengeMarket::create_challenge(
            &mut ctx,
            BOB,
            String::new(),
            Condition::LedgerCloseUnder(1),
            resolve,
            deadline,
            TOKEN,
            String::new(),
        )
    };
    assert_eq!(attempt(110, 100), Err(Error::InvalidLedgerSequence));
    assert_eq!(attempt(100, 105), Err(Error::InvalidLedgerSequence));
    assert_eq!(attempt(u32::MAX - 999, 105), Err(Error::InvalidExpirySequence));
    assert_eq!(attempt(u32::MAX - 1000, 105), Ok(0));
}

#[test]
fn a_new_challenge_is_entered_in_the_books() {
    let mut ctx = set_up();
    let id = ChallengeMarket::create_challenge(
        &mut ctx,
        ALICE,
        String::from("a challenge"),
        Condition::BaseFeeAtLeast(500),
        110,
        105,
        TOKEN,
        String::from("fees"),
    )
    .unwrap();
    assert_eq!(
        ctx.actions,
        vec![
            Action::RequireAuth(ALICE),
            Action::ExtendTtl { key: DataKey::Challenge(0), threshold: 50_000, extend_to: 100_000 },
            Action::Publish(Event::ReputationUpdated { user: ALICE, score: 1 }),
            Action::Publish(Event::Created { challenge_id: 0, creator: ALICE }),
        ],
    );
    let challenge = ChallengeMarket::get_challenge(&mut ctx, id).unwrap();
    assert_eq!(challenge.description, "a challenge");
    assert_eq!(challenge.condition, Condition::BaseFeeAtLeast(500));
    assert_eq!(challenge.created_timestamp, 1_000);
    assert_eq!(challenge.expiry_seq, 1_110);
    assert_eq!(challenge.additional_tokens.len(), 0);
    assert_eq!(ChallengeMarket::get_next_challenge_id(&ctx), Ok(1));
    assert_eq!(ChallengeMarket::get_challenge_category(&ctx, id), Some(String::from("fees")));
    assert_eq!(ChallengeMarket::get_challenge_creator_reputation(&ctx, id), Some(1));
    let stats = ChallengeMarket::get_challenge_stats(&mut ctx, id).unwrap();
    assert_eq!((stats.total_participants, stats.total_staked), (0, 0));
    let reputation = ChallengeMarket::get_user_reputation(&ctx, ALICE);
    assert_eq!((reputation.score, reputation.challenges_created), (1, 1));
    assert_eq!(reputation.last_updated, 1_000);
    assert!(ChallengeMarket::check_reputation_threshold(&ctx, ALICE, 1));
    assert!(!ChallengeMarket::check_reputation_threshold(&ctx, BOB, 1));
}

#[test]
fn the_whitelist_bars_tokens() {
    let mut ctx = set_up();
    assert!(ChallengeMarket::is_token_whitelisted(&ctx, TOKEN));
    ChallengeMarket::remove_token_from_whitelist(&mut ctx, TOKEN).unwrap();
    assert!(!ChallengeMarket::is_token_whitelisted(&ctx, TOKEN));
    let refused = ChallengeMarket::create_challenge(
        &mut ctx,
        ALICE,
        String::new(),
        Condition::LedgerCloseUnder(1),
        110,
        105,
        TOKEN,
        String::new(),
    );
    assert_eq!(refused, Err(Error::TokenNotWhitelisted));
    ChallengeMarket::add_token_to_whitelist(&mut ctx, TOKEN).unwrap();
    assert!(ChallengeMarket::is_token_whitelisted(&ctx, TOKEN));
    assert_eq!(create(&mut ctx, Condition::LedgerCloseUnder(1)), 0);
}

#[test]
fn creation_and_staking_are_limited() {
    let mut ctx = set_up();
    for expected in 0..5 {
        assert_eq!(create(&mut ctx, Condition::LedgerCloseUnder(1)), expected);
    }
    let refused = ChallengeMarket::create_challenge(
        &mut ctx,
        ALICE,
        String::new(),
        Condition::LedgerCloseUnder(1),
        110,
        105,
        TOKEN,
        String::new(),
    );
    assert_eq!(refused, Err(Error::RateLimitExceeded));
    for _ in 0..20 {
        assert_eq!(ChallengeMarket::stake(&mut ctx, BOB, 0, true, 1), Ok(()));
    }
    assert_eq!(
        ChallengeMarket::stake(&mut ctx, BOB, 0, true, 1),
        Err(Error::RateLimitExceeded),
    );
    // Nobody else is held to it, and it lasts as long as the window does.
    assert_eq!(ChallengeMarket::stake(&mut ctx, ALICE, 0, true, 1), Ok(()));
    ctx.timestamp = 3_599;
    assert_eq!(
        ChallengeMarket::stake(&mut ctx, BOB, 0, true, 1),
        Err(Error::RateLimitExceeded),
    );
    ctx.timestamp = 3_600;
    assert_eq!(ChallengeMarket::stake(&mut ctx, BOB, 0, true, 1), Ok(()));
    assert_eq!(rate_window(3_599), 0);
    assert_eq!(rate_window(7_205), 7_200);
}

#[test]
fn actions_of_one_window_share_a_count() {
    let mut ctx = set_up();
    let id = create(&mut ctx, Condition::LedgerCloseUnder(1));
    for second in 0..20 {
        ctx.timestamp = 1_000 + second;
        assert_eq!(ChallengeMarket::stake(&mut ctx, BOB, id, true, 1), Ok(()));
    }
    ctx.timestamp = 1_020;
    assert_eq!(
        ChallengeMarket::stake(&mut ctx, BOB, id, true, 1),
        Err(Error::RateLimitExceeded),
    );
    assert_eq!(ctx.stake_counts.get(&(BOB, 0)), Some(&(0, 20)));
}

#[test]
fn stakes_are_examined() {
    let mut ctx = set_up();
    let id = create(&mut ctx, Condition::LedgerCloseUnder(6));
    ChallengeMarket::set_min_stake(&mut ctx, 10).unwrap();
    assert_eq!(ChallengeMarket::stake(&mut ctx, BOB, id, true, 0), Err(Error::InvalidAmount));
    assert_eq!(ChallengeMarket::stake(&mut ctx, BOB, id, true, -5), Err(Error::InvalidAmount));
    assert_eq!(ChallengeMarket::stake(&mut ctx, BOB, id, true, 9), Err(Error::AmountBelowMinimum));
    assert_eq!(ChallengeMarket::stake(&mut ctx, BOB, 9, true, 10), Err(Error::ChallengeNotFound));
    ctx.sequence = 106;
    assert_eq!(ChallengeMarket::stake(&mut ctx, BOB, id, true, 10), Err(Error::StakingClosed));
    ctx.sequence = 105;
    ctx.actions = Vec::new();
    assert_eq!(ChallengeMarket::stake(&mut ctx, BOB, id, true, 10), Ok(()));
    assert_eq!(
        ctx.actions,
        vec![
            Action::RequireAuth(BOB),
            Action::ExtendTtl { key: DataKey::Challenge(0), threshold: 50_000, extend_to: 100_000 },
            Action::Transfer { token: TOKEN, from: BOB, to: MARKET, amount: 10 },
            Action::ExtendTtl {
                key: DataKey::Stake(0, BOB),
                threshold: 50_000,
                extend_to: 100_000,
            },
            Action::Publish(Event::OddsUpdated { challenge_id: 0, yes_odds: 10_000, no_odds: 0 }),
            Action::Publish(Event::Staked {
                challenge_id: 0,
                who: BOB,
                side_yes: true,
                amount: 10,
            }),
            Action::Publish(Event::ReputationUpdated { user: BOB, score: 0 }),
        ],
    );
    assert_eq!(ChallengeMarket::get_user_reputation(&ctx, BOB).total_staked, 10);
    ChallengeMarket::cancel_challenge(&mut ctx, ALICE, id).unwrap();
    assert_eq!(ChallengeMarket::stake(&mut ctx, BOB, id, true, 10), Err(Error::AlreadyFinalized));
}

#[test]
fn odds_follow_the_pools() {
    let mut ctx = set_up();
    assert_eq!(ChallengeMarket::calculate_odds(&ctx, 0), Err(Error::ChallengeNotFound));
    let id = create(&mut ctx, Condition::LedgerCloseUnder(6));
    assert_eq!(ChallengeMarket::calculate_odds(&ctx, id), Ok((5_000, 5_000)));
    assert_eq!(ChallengeMarket::calculate_potential_payout(&ctx, id, true, 40), Ok(40));
    ChallengeMarket::stake(&mut ctx, ALICE, id, true, 1).unwrap();
    ChallengeMarket::stake(&mut ctx, BOB, id, false, 2).unwrap();
    assert_eq!(ChallengeMarket::calculate_odds(&ctx, id), Ok((3_333, 6_667)));
    assert_eq!(ChallengeMarket::calculate_potential_payout(&ctx, id, true, 1), Ok(3));
    assert_eq!(ChallengeMarket::calculate_potential_payout(&ctx, id, false, 3), Ok(4));
    assert_eq!(
        ChallengeMarket::calculate_potential_payout(&ctx, 7, true, 1),
        Err(Error::ChallengeNotFound),
    );
}

#[test]
fn resolution_goes_the_way_of_the_condition() {
    let mut ctx = set_up();
    let native = create(&mut ctx, Condition::LedgerCloseUnder(6));
    let oracle = create(&mut ctx, Condition::TxCountAtLeast(5));
    assert_eq!(ChallengeMarket::resolve_native(&mut ctx, 9), Err(Error::ChallengeNotFound));
    assert_eq!(ChallengeMarket::resolve_native(&mut ctx, native), Err(Error::TooEarlyToResolve));
    assert_eq!(
        ChallengeMarket::resolve_via_oracle(&mut ctx, oracle, true),
        Err(Error::TooEarlyToResolve),
    );
    ctx.sequence = 110;
    assert_eq!(
        ChallengeMarket::resolve_native(&mut ctx, oracle),
        Err(Error::WrongConditionForResolutionPath),
    );
    assert_eq!(
        ChallengeMarket::resolve_via_oracle(&mut ctx, native, true),
        Err(Error::WrongConditionForResolutionPath),
    );
    ctx.timestamp = 1_006;
    ctx.actions = Vec::new();
    assert_eq!(ChallengeMarket::resolve_native(&mut ctx, native), Ok(()));
    // Nobody is asked.
    assert_eq!(
        ctx.actions,
        vec![
            Action::ExtendTtl { key: DataKey::Challenge(0), threshold: 50_000, extend_to: 100_000 },
            Action::Publish(Event::Resolved { challenge_id: 0, outcome_yes: true }),
        ],
    );
    ctx.actions = Vec::new();
    assert_eq!(ChallengeMarket::resolve_via_oracle(&mut ctx, oracle, false), Ok(()));
    assert_eq!(ctx.actions[0], Action::RequireAuth(RELAYER));
    assert_eq!(ChallengeMarket::resolve_native(&mut ctx, native), Err(Error::AlreadyFinalized));
    assert!(!ChallengeMarket::get_challenge(&mut ctx, oracle).unwrap().outcome_yes);
}

#[test]
fn native_resolution_counts_the_seconds() {
    let mut ctx = set_up();
    let first = create(&mut ctx, Condition::LedgerCloseUnder(6));
    let second = create(&mut ctx, Condition::LedgerCloseUnder(6));
    ctx.sequence = 110;
    ctx.timestamp = 1_006;
    ChallengeMarket::resolve_native(&mut ctx, first).unwrap();
    ctx.timestamp = 1_007;
    ChallengeMarket::resolve_native(&mut ctx, second).unwrap();
    assert!(ChallengeMarket::get_challenge(&mut ctx, first).unwrap().outcome_yes);
    assert!(!ChallengeMarket::get_challenge(&mut ctx, second).unwrap().outcome_yes);
}

#[test]
fn claims_are_examined() {
    let mut ctx = set_up();
    assert_eq!(ChallengeMarket::claim(&mut ctx, BOB, 0), Err(Error::ChallengeNotFound));
    let open = create(&mut ctx, Condition::LedgerCloseUnder(6));
    assert_eq!(ChallengeMarket::claim(&mut ctx, BOB, open), Err(Error::NotResolved));
    let id = resolved(&mut ctx, true);
    assert_eq!(ChallengeMarket::claim(&mut ctx, ADMIN, id), Err(Error::NoStake));
    assert_eq!(ChallengeMarket::claim(&mut ctx, BOB, id), Err(Error::NothingWon));
    ctx.actions = Vec::new();
    assert_eq!(ChallengeMarket::claim(&mut ctx, ALICE, id), Ok(50));
    assert!(ctx.actions.contains(&Action::Transfer {
        token: TOKEN,
        from: MARKET,
        to: ALICE,
        amount: 50,
    }));
    let stake = ChallengeMarket::get_stake(&ctx, id, ALICE).unwrap();
    assert!(stake.claimed_yes);
    assert!(!stake.claimed_no);
    assert_eq!(ChallengeMarket::get_user_reputation(&ctx, ALICE).successful_predictions, 1);
    assert_eq!(ChallengeMarket::claim(&mut ctx, ALICE, id), Err(Error::AlreadyClaimed));
}

#[test]
fn vesting_stakes_wait() {
    let mut ctx = set_up();
    ChallengeMarket::set_self_vesting(&mut ctx, ALICE, 60).unwrap();
    let id = resolved(&mut ctx, true);
    assert_eq!(
        ChallengeMarket::get_stake_vesting_status(&ctx, id, ADMIN),
        Err(Error::NoStake),
    );
    assert_eq!(ChallengeMarket::get_stake_vesting_status(&ctx, id, BOB), Ok((true, 0)));
    ctx.timestamp = 1_059;
    assert_eq!(ChallengeMarket::get_stake_vesting_status(&ctx, id, ALICE), Ok((false, 1)));
    assert_eq!(ChallengeMarket::claim(&mut ctx, ALICE, id), Err(Error::StakeStillVesting));
    ctx.timestamp = 1_060;
    assert_eq!(ChallengeMarket::get_stake_vesting_status(&ctx, id, ALICE), Ok((true, 0)));
    assert_eq!(ChallengeMarket::claim(&mut ctx, ALICE, id), Ok(50));
    assert!(ChallengeMarket::get_stake(&ctx, id, ALICE).unwrap().is_vested);
}

#[test]
fn cancelling_is_for_creator_and_admin() {
    let mut ctx = set_up();
    let id = create(&mut ctx, Condition::LedgerCloseUnder(6));
    assert_eq!(
        ChallengeMarket::cancel_challenge(&mut ctx, ALICE, 9),
        Err(Error::ChallengeNotFound),
    );
    assert_eq!(ChallengeMarket::cancel_challenge(&mut ctx, BOB, id), Err(Error::NotAuthorized));
    ctx.sequence = 1_111;
    assert_eq!(
        ChallengeMarket::cancel_challenge(&mut ctx, ALICE, id),
        Err(Error::ChallengeExpired),
    );
    ctx.sequence = 1_110;
    assert_eq!(ChallengeMarket::cancel_challenge(&mut ctx, ALICE, id), Ok(()));
    assert_eq!(
        ChallengeMarket::cancel_challenge(&mut ctx, ADMIN, id),
        Err(Error::AlreadyCancelled),
    );
    assert_eq!(ChallengeMarket::expire_challenge(&mut ctx, id), Err(Error::AlreadyFinalized));
    assert_eq!(ChallengeMarket::claim(&mut ctx, BOB, id), Err(Error::NotResolved));
}

#[test]
fn a_resolved_challenge_cannot_be_cancelled() {
    let mut ctx = set_up();
    let id = resolved(&mut ctx, true);
    assert_eq!(ChallengeMarket::cancel_challenge(&mut ctx, ADMIN, id), Err(Error::CannotCancel));
    let challenge = ChallengeMarket::get_challenge(&mut ctx, id).unwrap();
    assert!(challenge.resolved && !challenge.cancelled);
}

#[test]
fn cancelling_needs_a_market_that_is_set_up() {
    let mut ctx = fresh();
    let id = create(&mut ctx, Condition::LedgerCloseUnder(6));
    assert_eq!(ChallengeMarket::cancel_challenge(&mut ctx, ALICE, id), Err(Error::NotInitialized));
}

#[test]
fn a_resolved_and_cancelled_challenge_pays_nothing() {
    let mut ctx = set_up();
    let id = resolved(&mut ctx, true);
    let mut challenge = ChallengeMarket::get_challenge(&mut ctx, id).unwrap();
    challenge.cancelled = true;
    ctx.challenges.set(id, challenge);
    assert_eq!(ChallengeMarket::claim(&mut ctx, ALICE, id), Err(Error::AlreadyCancelled));
}

#[test]
fn refunds_are_for_cancelled_challenges() {
    let mut ctx = set_up();
    assert_eq!(ChallengeMarket::refund(&mut ctx, BOB, 0), Err(Error::ChallengeNotFound));
    let id = create(&mut ctx, Condition::LedgerCloseUnder(6));
    ChallengeMarket::stake(&mut ctx, BOB, id, true, 8).unwrap();
    ChallengeMarket::stake(&mut ctx, BOB, id, false, 4).unwrap();
    assert_eq!(ChallengeMarket::refund(&mut ctx, BOB, id), Err(Error::CannotCancel));
    ChallengeMarket::cancel_challenge(&mut ctx, ADMIN, id).unwrap();
    assert_eq!(ChallengeMarket::refund(&mut ctx, ALICE, id), Err(Error::NoStake));
    ctx.actions = Vec::new();
    assert_eq!(ChallengeMarket::refund(&mut ctx, BOB, id), Ok(12));
    assert_eq!(
        ctx.actions,
        vec![
            Action::RequireAuth(BOB),
            Action::ExtendTtl { key: DataKey::Challenge(0), threshold: 50_000, extend_to: 100_000 },
            Action::ExtendTtl {
                key: DataKey::Stake(0, BOB),
                threshold: 50_000,
                extend_to: 100_000,
            },
            Action::Transfer { token: TOKEN, from: MARKET, to: BOB, amount: 12 },
            Action::Publish(Event::Refunded { challenge_id: 0, who: BOB, amount: 12 }),
        ],
    );
    assert_eq!(ChallengeMarket::refund(&mut ctx, BOB, id), Err(Error::AlreadyClaimed));
}

#[test]
fn disputes_are_examined() {
    let mut ctx = set_up();
    let text = || String::from("evidence");
    let mut file = |ctx: &mut Context, id: u64, stake: i128| {
        ChallengeMarket::file_dispute(ctx, BOB, id, false, text(), stake)
    };
    assert_eq!(file(&mut ctx, 0, 100), Err(Error::ChallengeNotFound));
    let id = create(&mut ctx, Condition::TxCountAtLeast(5));
    assert_eq!(file(&mut ctx, id, 100), Err(Error::NotResolved));
    ctx.sequence = 110;
    ChallengeMarket::resolve_via_oracle(&mut ctx, id, true).unwrap();
    ctx.timestamp = 4_000;
    ctx.sequence = 211;
    assert_eq!(file(&mut ctx, id, 100), Err(Error::DisputeWindowClosed));
    ctx.sequence = 210;
    assert_eq!(file(&mut ctx, id, 99), Err(Error::InsufficientDisputeStake));
    assert_eq!(
        ChallengeMarket::resolve_dispute(&mut ctx, id, BOB, true),
        Err(Error::NotDisputed),
    );
    assert_eq!(file(&mut ctx, id, 100), Ok(()));
    assert_eq!(file(&mut ctx, id, 100), Err(Error::RateLimitExceeded));
    ctx.timestamp = 7_300;
    assert_eq!(file(&mut ctx, id, 100), Err(Error::DisputeAlreadyExists));
    assert_eq!(ctx.dispute_counts.get(&id), Some(&1));
    ctx.actions = Vec::new();
    assert_eq!(ChallengeMarket::resolve_dispute(&mut ctx, id, BOB, true), Ok(()));
    assert_eq!(
        ctx.actions,
        vec![
            Action::RequireAuth(ADMIN),
            Action::Transfer { token: TOKEN, from: MARKET, to: BOB, amount: 110 },
            Action::Publish(Event::DisputeResolved {
                challenge_id: id,
                disputer: BOB,
                successful: true,
            }),
        ],
    );
    assert!(!ChallengeMarket::get_challenge(&mut ctx, id).unwrap().outcome_yes);
    assert_eq!(
        ChallengeMarket::resolve_dispute(&mut ctx, id, BOB, true),
        Err(Error::DisputeAlreadyResolved),
    );
}

#[test]
fn templates_make_challenges() {
    let mut ctx = set_up();
    let mut template = |ctx: &mut Context, resolve: u32, deadline: u32| {
        ChallengeMarket::create_template(
            ctx,
            ALICE,
            String::from("how many"),
            Condition::TxCountAtLeast(7),
            resolve,
            deadline,
            TOKEN,
            String::from("daily"),
        )
    };
    assert_eq!(template(&mut ctx, 10, 5), Ok(0));
    assert_eq!(template(&mut ctx, 10, 0), Ok(1));
    assert_eq!(template(&mut ctx, 5, 5), Ok(2));
    for expected in 3..10 {
        assert_eq!(template(&mut ctx, 10, 5), Ok(expected));
    }
    assert_eq!(template(&mut ctx, 10, 5), Err(Error::TooManyTemplates));
    ChallengeMarket::remove_token_from_whitelist(&mut ctx, TOKEN).unwrap();
    assert_eq!(template(&mut ctx, 10, 5), Err(Error::TokenNotWhitelisted));

    let text = || String::from("how many today");
    assert_eq!(
        ChallengeMarket::create_from_template(&mut ctx, BOB, 0, text()),
        Err(Error::TemplateNotFound),
    );
    assert_eq!(
        ChallengeMarket::create_from_template(&mut ctx, ALICE, 1, text()),
        Err(Error::InvalidLedgerSequence),
    );
    assert_eq!(
        ChallengeMarket::create_from_template(&mut ctx, ALICE, 2, text()),
        Err(Error::InvalidLedgerSequence),
    );
    ctx.actions = Vec::new();
    assert_eq!(ChallengeMarket::create_from_template(&mut ctx, ALICE, 0, text()), Ok(0));
    assert_eq!(
        ctx.actions,
        vec![
            Action::RequireAuth(ALICE),
            Action::Publish(Event::ReputationUpdated { user: ALICE, score: 1 }),
            Action::Publish(Event::Created { challenge_id: 0, creator: ALICE }),
            Action::Publish(Event::TemplateUsed {
                template_id: 0,
                creator: ALICE,
                challenge_id: 0,
            }),
        ],
    );
    let challenge = ChallengeMarket::get_challenge(&mut ctx, 0).unwrap();
    assert_eq!(challenge.description, "how many today");
    assert_eq!((challenge.staking_deadline_seq, challenge.resolve_ledger_seq), (105, 110));
    assert_eq!(challenge.expiry_seq, 1_110);
    assert_eq!(ChallengeMarket::get_challenge_category(&ctx, 0), Some(String::from("daily")));
    assert_eq!(ChallengeMarket::get_challenge_stats(&mut ctx, 0), None);
    assert_eq!(ChallengeMarket::get_template(&ctx, 0, ALICE).unwrap().usage_count, 1);
    assert_eq!(ChallengeMarket::get_template(&ctx, 0, BOB), None);
}

#[test]
fn further_tokens_join_a_challenge() {
    let mut ctx = set_up();
    let id = create(&mut ctx, Condition::LedgerCloseUnder(6));
    let other = Address { id: 33 };
    assert_eq!(
        ChallengeMarket::add_challenge_token(&mut ctx, 9, other),
        Err(Error::ChallengeNotFound),
    );
    assert_eq!(
        ChallengeMarket::add_challenge_token(&mut ctx, id, TOKEN),
        Err(Error::TokenNotSupported),
    );
    assert_eq!(ChallengeMarket::add_challenge_token(&mut ctx, id, other), Ok(()));
    assert_eq!(
        ChallengeMarket::add_challenge_token(&mut ctx, id, other),
        Err(Error::TokenNotSupported),
    );
    let challenge = ChallengeMarket::get_challenge(&mut ctx, id).unwrap();
    assert_eq!(challenge.additional_tokens.len(), 1);
    assert_eq!(challenge.additional_tokens.get(0), Some(33));
    assert_eq!(ChallengeMarket::get_multi_token_pool(&ctx, id, other), Ok((0, 0)));
    ChallengeMarket::cancel_challenge(&mut ctx, ADMIN, id).unwrap();
    assert_eq!(
        ChallengeMarket::add_challenge_token(&mut ctx, id, Address { id: 34 }),
        Err(Error::AlreadyFinalized),
    );
}

#[test]
fn sweeping_drops_what_is_over() {
    let mut ctx = set_up();
    for _ in 0..3 {
        create(&mut ctx, Condition::LedgerCloseUnder(6));
    }
    ChallengeMarket::cancel_challenge(&mut ctx, ADMIN, 0).unwrap();
    ChallengeMarket::cancel_challenge(&mut ctx, ADMIN, 2).unwrap();
    assert_eq!(ChallengeMarket::cleanup_old_challenges(&mut ctx, 2), Ok(1));
    assert_eq!(ChallengeMarket::get_challenge_category(&ctx, 0), None);
    assert_eq!(ChallengeMarket::get_challenge_category(&ctx, 1), Some(String::from("fees")));
    assert_eq!(ChallengeMarket::get_challenge_category(&ctx, 2), Some(String::from("fees")));
    assert!(ChallengeMarket::get_challenge(&mut ctx, 0).is_ok());
    assert_eq!(ChallengeMarket::cleanup_old_challenges(&mut ctx, 5), Ok(2));
}

#[test]
fn errors_have_numbers() {
    assert_eq!(Error::AlreadyInitialized.code(), 1);
    assert_eq!(Error::AlreadyClaimed.code(), 10);
    assert_eq!(Error::ContractPaused.code(), 18);
    assert_eq!(Error::DuplicateSubmission.code(), 22);
    assert_eq!(Error::RelayerSlashed.code(), 25);
    assert_eq!(Error::CannotSlashRelayer.code(), 26);
    assert_eq!(Error::FlashLoanDetected.code(), 41);
    assert_eq!(Error::AuditLogFull.code(), 43);
    assert_eq!(Error::ReputationTooLow.code(), 47);
}

#[test]
fn events_have_names() {
    let created = Event::Created { challenge_id: 4, creator: ALICE };
    assert_eq!((created.topic(), created.subject()), ("created", Some(4)));
    let slashed = Event::RelayerSlashed { relayer: BOB, reason: String::from("late") };
    assert_eq!((slashed.topic(), slashed.subject()), ("rel_rem", None));
    let used = Event::TemplateUsed { template_id: 6, creator: ALICE, challenge_id: 4 };
    assert_eq!((used.topic(), used.subject()), ("tmpl_use", Some(6)));
    assert_eq!((Event::Paused.topic(), Event::Paused.subject()), ("paused", None));
    assert_eq!(slashed.clone(), slashed);
}
