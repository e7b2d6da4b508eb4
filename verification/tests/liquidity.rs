//! Liquidity and its rewards.

use challenge_market::context::Context;
use challenge_market::liquidity::increment_global_reward_index;
use challenge_market::liquidity::update_reward_accrual;
use challenge_market::market::ChallengeMarket;
use challenge_market::types::Action;
use challenge_market::types::Address;
use challenge_market::types::Condition;
use challenge_market::types::Error;
use challenge_market::types::Event;
use challenge_market::types::RewardAccrual;
use soroban_sdk::testutils::EnvTestConfig;
use soroban_sdk::Env;

const MARKET: Address = Address { id: 0 };
const ADMIN: Address = Address { id: 1 };
const TOKEN: Address = Address { id: 3 };
const ALICE: Address = Address { id: 10 };
const BOB: Address = Address { id: 11 };

fn with_challenge() -> Context {
    let env = Env::new_with_config(EnvTestConfig { capture_snapshot_at_drop: false });
    let mut ctx = Context::new(env, MARKET, 500, 50);
    ChallengeMarket::initialize(&mut ctx, ADMIN, ADMIN).unwrap();
    ChallengeMarket::create_challenge(
        &mut ctx,
        ADMIN,
        String::new(),
        Condition::TxCountAtLeast(1),
        60,
        55,
        TOKEN,
        String::new(),
    )
    .unwrap();
    ctx.actions = Vec::new();
    ctx
}

#[test]
fn shares_are_bought() {
    let mut ctx = with_challenge();
    assert_eq!(
        ChallengeMarket::add_liquidity(&mut ctx, ALICE, 0, 0),
        Err(Error::InvalidLiquidityAmount),
    );
    assert_eq!(
        ChallengeMarket::add_liquidity(&mut ctx, ALICE, 9, 5),
        Err(Error::ChallengeNotFound),
    );
    ctx.actions = Vec::new();
    assert_eq!(ChallengeMarket::add_liquidity(&mut ctx, ALICE, 0, 400), Ok(400));
    assert_eq!(
        ctx.actions,
        vec![
            Action::RequireAuth(ALICE),
            Action::Transfer { token: TOKEN, from: ALICE, to: MARKET, amount: 400 },
            Action::Publish(Event::LiquidityAdded {
                challenge_id: 0,
                provider: ALICE,
                amount: 400,
                shares: 400,
            }),
        ],
    );
    // 300 of 400, in millionths.
    assert_eq!(ChallengeMarket::add_liquidity(&mut ctx, BOB, 0, 300), Ok(750_000));
    assert_eq!(ctx.total_liquidity.get(&0), Some(&700));
    let position = ChallengeMarket::get_liquidity_position(&ctx, 0, BOB).unwrap();
    assert_eq!((position.amount, position.shares, position.reward_debt), (300, 750_000, 0));
    assert_eq!(
        ChallengeMarket::get_liquidity_position(&ctx, 0, ADMIN),
        Err(Error::InsufficientLiquidity),
    );
    ChallengeMarket::cancel_challenge(&mut ctx, ADMIN, 0).unwrap();
    assert_eq!(
        ChallengeMarket::add_liquidity(&mut ctx, ALICE, 0, 5),
        Err(Error::AlreadyFinalized),
    );
}

#[test]
fn shares_are_given_up() {
    let mut ctx = with_challenge();
    ChallengeMarket::add_liquidity(&mut ctx, ALICE, 0, 400).unwrap();
    assert_eq!(
        ChallengeMarket::remove_liquidity(&mut ctx, ALICE, 0, 0),
        Err(Error::InvalidLiquidityAmount),
    );
    assert_eq!(
        ChallengeMarket::remove_liquidity(&mut ctx, ALICE, 9, 5),
        Err(Error::ChallengeNotFound),
    );
    assert_eq!(
        ChallengeMarket::remove_liquidity(&mut ctx, BOB, 0, 5),
        Err(Error::InsufficientLiquidity),
    );
    assert_eq!(
        ChallengeMarket::remove_liquidity(&mut ctx, ALICE, 0, 401),
        Err(Error::InsufficientLiquidity),
    );
    assert_eq!(ChallengeMarket::remove_liquidity(&mut ctx, ALICE, 0, 100), Ok(100));
    let position = ChallengeMarket::get_liquidity_position(&ctx, 0, ALICE).unwrap();
    assert_eq!((position.amount, position.shares), (300, 300));
    // All the shares of a provider are worth all the liquidity.
    ChallengeMarket::add_liquidity(&mut ctx, BOB, 0, 600).unwrap();
    assert_eq!(ChallengeMarket::remove_liquidity(&mut ctx, ALICE, 0, 300), Ok(900));
    assert_eq!(ctx.total_liquidity.get(&0), Some(&0));
    assert_eq!(
        ChallengeMarket::remove_liquidity(&mut ctx, BOB, 0, 5),
        Err(Error::InsufficientLiquidity),
    );
}

#[test]
fn large_withdrawals_are_noted() {
    let mut ctx = with_challenge();
    ChallengeMarket::add_liquidity(&mut ctx, ALICE, 0, 30_000).unwrap();
    assert_eq!(ChallengeMarket::remove_liquidity(&mut ctx, ALICE, 0, 9_999), Ok(9_999));
    assert_eq!(ctx.last_withdrawals.get(&(ALICE, 0)), None);
    assert_eq!(ChallengeMarket::remove_liquidity(&mut ctx, ALICE, 0, 10_000), Ok(10_000));
    assert_eq!(ctx.last_withdrawals.get(&(ALICE, 0)), Some(&500));
    ctx.timestamp = 509;
    ctx.actions = Vec::new();
    assert!(!ChallengeMarket::is_flash_loan_flagged(&ctx, ALICE));
    assert_eq!(
        ChallengeMarket::remove_liquidity(&mut ctx, ALICE, 0, 10_001),
        Err(Error::CooldownNotElapsed),
    );
    assert!(ChallengeMarket::is_flash_loan_flagged(&ctx, ALICE));
    assert_eq!(
        ctx.actions,
        vec![
            Action::RequireAuth(ALICE),
            Action::Publish(Event::FlashLoanDetected {
                user: ALICE,
                challenge_id: 0,
                amount: 10_001,
            }),
        ],
    );
    ChallengeMarket::clear_flash_loan_flag(&mut ctx, ALICE).unwrap();
    assert!(!ChallengeMarket::is_flash_loan_flagged(&ctx, ALICE));
    ctx.timestamp = 510;
    assert_eq!(ChallengeMarket::remove_liquidity(&mut ctx, ALICE, 0, 10_001), Ok(10_001));
}

#[test]
fn providers_earn_rewards() {
    let mut ctx = with_challenge();
    assert_eq!(
        ChallengeMarket::get_pending_rewards(&mut ctx, 0, ALICE),
        Err(Error::NoPendingRewards),
    );
    ChallengeMarket::add_liquidity(&mut ctx, ALICE, 0, 400).unwrap();
    assert_eq!(ChallengeMarket::get_pending_rewards(&mut ctx, 0, ALICE), Ok(0));
    assert_eq!(ChallengeMarket::claim_rewards(&mut ctx, ALICE, 0), Err(Error::NoPendingRewards));
    for index in 1..4 {
        ChallengeMarket::update_challenge_reward_index(&mut ctx, 0).unwrap();
        assert_eq!(ctx.reward_indices.get(&0), Some(&index));
    }
    assert_eq!(ChallengeMarket::get_pending_rewards(&mut ctx, 0, ALICE), Ok(3));
    assert_eq!(ChallengeMarket::claim_rewards(&mut ctx, ALICE, 0), Ok(3));
    assert_eq!(ChallengeMarket::claim_rewards(&mut ctx, ALICE, 0), Err(Error::NoPendingRewards));
    assert_eq!(ChallengeMarket::claim_rewards(&mut ctx, BOB, 0), Err(Error::NoPendingRewards));
    // From there on the rate decides, but the index never stands still.
    for (before, after) in [(199, 200), (200, 201), (399, 400), (400, 402), (10_000, 10_050)] {
        ctx.reward_indices.set(0, before);
        increment_global_reward_index(&mut ctx, 0);
        assert_eq!(ctx.reward_indices.get(&0), Some(&after));
    }
}

#[test]
fn liquidity_is_what_was_provided() {
    let mut ctx = with_challenge();
    let provided = |ctx: &Context| {
        [ALICE, BOB]
            .iter()
            .filter_map(|who| ctx.liquidity_positions.get(&(0, *who)))
            .map(|position| position.amount)
            .sum::<i128>()
    };
    ChallengeMarket::add_liquidity(&mut ctx, ALICE, 0, 400).unwrap();
    ChallengeMarket::add_liquidity(&mut ctx, BOB, 0, 600).unwrap();
    assert_eq!((ctx.total_liquidity.get(&0), provided(&ctx)), (Some(&1_000), 1_000));
    ChallengeMarket::remove_liquidity(&mut ctx, ALICE, 0, 100).unwrap();
    assert_eq!((ctx.total_liquidity.get(&0), provided(&ctx)), (Some(&750), 750));
    ChallengeMarket::add_liquidity(&mut ctx, ALICE, 0, 50).unwrap();
    assert_eq!((ctx.total_liquidity.get(&0), provided(&ctx)), (Some(&800), 800));
}

#[test]
fn an_index_that_moves_earns_rewards() {
    let mut ctx = with_challenge();
    ChallengeMarket::add_liquidity(&mut ctx, ALICE, 0, 400).unwrap();
    ctx.reward_indices.set(0, 1_000);
    increment_global_reward_index(&mut ctx, 0);
    assert_eq!(ctx.reward_indices.get(&0), Some(&1_005));
    ctx.timestamp = 600;
    update_reward_accrual(&mut ctx, 0, ALICE, 100);
    assert_eq!(
        ctx.reward_accruals.get(&(0, ALICE)),
        Some(&RewardAccrual {
            provider: ALICE,
            challenge_id: 0,
            reward_index: 1_005,
            pending_rewards: 251,
            last_update: 600,
        }),
    );
    ctx.actions = Vec::new();
    assert_eq!(ChallengeMarket::claim_rewards(&mut ctx, ALICE, 0), Ok(251));
    assert_eq!(
        ctx.actions,
        vec![
            Action::RequireAuth(ALICE),
            Action::Transfer { token: TOKEN, from: MARKET, to: ALICE, amount: 251 },
            Action::Publish(Event::RewardClaimed {
                challenge_id: 0,
                provider: ALICE,
                rewards: 251,
            }),
        ],
    );
    assert_eq!(ChallengeMarket::claim_rewards(&mut ctx, ALICE, 0), Err(Error::NoPendingRewards));
}

#[test]
fn an_index_that_moves_too_far_counts_backwards() {
    let mut ctx = with_challenge();
    ChallengeMarket::add_liquidity(&mut ctx, ALICE, 0, 400).unwrap();
    ctx.reward_indices.set(0, u128::MAX);
    assert!(ChallengeMarket::get_pending_rewards_fits(&ctx, 0, ALICE));
    assert_eq!(ChallengeMarket::get_pending_rewards(&mut ctx, 0, ALICE), Ok(-1));
    assert_eq!(ctx.reward_accruals.get(&(0, ALICE)).unwrap().reward_index, u128::MAX);
}

#[test]
fn rewards_need_a_challenge() {
    let mut ctx = with_challenge();
    let accrual = RewardAccrual {
        provider: ALICE,
        challenge_id: 9,
        reward_index: 0,
        pending_rewards: 5,
        last_update: 0,
    };
    ctx.reward_accruals.set((9, ALICE), accrual);
    assert_eq!(ChallengeMarket::claim_rewards(&mut ctx, ALICE, 9), Err(Error::ChallengeNotFound));
}
