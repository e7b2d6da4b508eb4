//! Relayers: who they are, what they say, and how it is counted.

use challenge_market::context::Context;
use challenge_market::market::ChallengeMarket;
use challenge_market::types::Action;
use challenge_market::types::Address;
use challenge_market::types::AggregatedOracleResult;
use challenge_market::types::Condition;
use challenge_market::types::Error;
use challenge_market::types::Event;
use challenge_market::types::RelayerQuorum;
use soroban_sdk::testutils::EnvTestConfig;
use soroban_sdk::Env;

const ADMIN: Address = Address { id: 1 };
const TOKEN: Address = Address { id: 3 };
const ONE: Address = Address { id: 21 };
const TWO: Address = Address { id: 22 };
const THREE: Address = Address { id: 23 };

fn set_up() -> Context {
    let env = Env::new_with_config(EnvTestConfig { capture_snapshot_at_drop: false });
    let mut ctx = Context::new(env, Address { id: 0 }, 500, 50);
    ChallengeMarket::initialize(&mut ctx, ADMIN, ONE).unwrap();
    ctx
}

fn with_three() -> Context {
    let mut ctx = set_up();
    for relayer in [ONE, TWO, THREE] {
        ChallengeMarket::add_relayer(&mut ctx, relayer).unwrap();
    }
    ctx.actions = Vec::new();
    ctx
}

fn members(ctx: &Context) -> Vec<u64> {
    ChallengeMarket::get_relayer_set(ctx).iter().collect()
}

fn challenge(ctx: &mut Context) -> u64 {
    ChallengeMarket::create_challenge(
        ctx,
        ADMIN,
        String::new(),
        Condition::TxCountAtLeast(1),
        60,
        55,
        TOKEN,
        String::new(),
    )
    .unwrap()
}

#[test]
fn relayers_come_and_go() {
    let mut ctx = set_up();
    assert_eq!(members(&ctx), Vec::<u64>::new());
    assert_eq!(ChallengeMarket::get_relayer_quorum(&ctx), None);
    assert_eq!(ChallengeMarket::remove_relayer(&mut ctx, ONE), Err(Error::NotInitialized));
    assert_eq!(ChallengeMarket::set_quorum_size(&mut ctx, 1), Err(Error::NotInitialized));
    assert_eq!(
        ChallengeMarket::slash_relayer(&mut ctx, ONE, String::new()),
        Err(Error::NotInitialized),
    );
    assert_eq!(ChallengeMarket::add_relayer(&mut ctx, ONE), Ok(()));
    assert_eq!(ChallengeMarket::add_relayer(&mut ctx, TWO), Ok(()));
    assert_eq!(ChallengeMarket::add_relayer(&mut ctx, ONE), Err(Error::RelayerNotAuthorized));
    assert_eq!(members(&ctx), vec![21, 22]);
    assert_eq!(
        ChallengeMarket::get_relayer_quorum(&ctx),
        Some(RelayerQuorum { required_signatures: 1, total_relayers: 2 }),
    );
    assert_eq!(ChallengeMarket::set_quorum_size(&mut ctx, 3), Err(Error::InsufficientQuorum));
    assert_eq!(ChallengeMarket::set_quorum_size(&mut ctx, 2), Ok(()));
    assert_eq!(ChallengeMarket::remove_relayer(&mut ctx, THREE), Err(Error::RelayerNotAuthorized));
    ctx.actions = Vec::new();
    assert_eq!(ChallengeMarket::remove_relayer(&mut ctx, ONE), Ok(()));
    assert_eq!(
        ctx.actions,
        vec![
            Action::RequireAuth(ADMIN),
            Action::Publish(Event::RelayerRemoved { relayer: ONE }),
        ],
    );
    assert_eq!(members(&ctx), vec![22]);
    // The quorum never asks for more than there are.
    assert_eq!(
        ChallengeMarket::get_relayer_quorum(&ctx),
        Some(RelayerQuorum { required_signatures: 1, total_relayers: 1 }),
    );
}

#[test]
fn the_middle_relayer_leaves() {
    let mut ctx = with_three();
    ChallengeMarket::remove_relayer(&mut ctx, TWO).unwrap();
    assert_eq!(members(&ctx), vec![21, 23]);
    ChallengeMarket::add_relayer(&mut ctx, TWO).unwrap();
    assert_eq!(members(&ctx), vec![21, 23, 22]);
}

#[test]
fn the_third_slash_removes() {
    let mut ctx = with_three();
    let reason = || String::from("wrong");
    assert_eq!(
        ChallengeMarket::slash_relayer(&mut ctx, Address { id: 99 }, reason()),
        Err(Error::RelayerNotAuthorized),
    );
    ctx.actions = Vec::new();
    assert_eq!(ChallengeMarket::slash_relayer(&mut ctx, TWO, reason()), Ok(()));
    assert_eq!(
        ctx.actions,
        vec![
            Action::RequireAuth(ADMIN),
            Action::Publish(Event::RelayerSlashed { relayer: TWO, reason: reason() }),
        ],
    );
    assert_eq!(ChallengeMarket::slash_relayer(&mut ctx, TWO, reason()), Ok(()));
    assert_eq!(ChallengeMarket::get_relayer_slash_count(&ctx, TWO), 2);
    assert_eq!(members(&ctx), vec![21, 22, 23]);
    ChallengeMarket::pause(&mut ctx).unwrap();
    assert_eq!(
        ChallengeMarket::slash_relayer(&mut ctx, TWO, reason()),
        Err(Error::ContractPaused),
    );
    ChallengeMarket::unpause(&mut ctx).unwrap();
    assert_eq!(ChallengeMarket::slash_relayer(&mut ctx, TWO, reason()), Ok(()));
    assert_eq!(ChallengeMarket::get_relayer_slash_count(&ctx, TWO), 0);
    assert_eq!(members(&ctx), vec![21, 23]);
}

#[test]
fn relayers_speak_once_and_in_time() {
    let mut ctx = with_three();
    let id = challenge(&mut ctx);
    let mut submit = |ctx: &mut Context, oracle: Address, id: u64, yes: bool| {
        ChallengeMarket::submit_oracle_outcome(ctx, oracle, id, yes)
    };
    assert_eq!(submit(&mut ctx, ADMIN, id, true), Err(Error::OracleNotAuthorized));
    assert_eq!(submit(&mut ctx, ONE, 9, true), Err(Error::ChallengeNotFound));
    assert_eq!(submit(&mut ctx, ONE, id, true), Err(Error::TooEarlyToResolve));
    ctx.sequence = 60;
    assert_eq!(submit(&mut ctx, ONE, id, true), Ok(()));
    assert_eq!(submit(&mut ctx, ONE, id, false), Err(Error::OracleAlreadySubmitted));
    ChallengeMarket::cancel_challenge(&mut ctx, ADMIN, id).unwrap();
    assert_eq!(submit(&mut ctx, TWO, id, true), Err(Error::AlreadyFinalized));
}

#[test]
fn the_majority_of_a_quorum_decides() {
    let mut ctx = with_three();
    ChallengeMarket::set_quorum_size(&mut ctx, 3).unwrap();
    let id = challenge(&mut ctx);
    ctx.sequence = 60;
    assert_eq!(
        ChallengeMarket::aggregate_oracle_outcomes(&mut ctx, 9),
        Err(Error::ChallengeNotFound),
    );
    ChallengeMarket::submit_oracle_outcome(&mut ctx, ONE, id, true).unwrap();
    ChallengeMarket::submit_oracle_outcome(&mut ctx, TWO, id, false).unwrap();
    assert_eq!(
        ChallengeMarket::aggregate_oracle_outcomes(&mut ctx, id),
        Err(Error::InsufficientOracleSubmissions),
    );
    assert_eq!(ChallengeMarket::get_aggregated_oracle_result(&ctx, id), None);
    ChallengeMarket::submit_oracle_outcome(&mut ctx, THREE, id, true).unwrap();
    ctx.timestamp = 900;
    assert_eq!(ChallengeMarket::aggregate_oracle_outcomes(&mut ctx, id), Ok(()));
    assert_eq!(
        ChallengeMarket::get_aggregated_oracle_result(&ctx, id),
        Some(AggregatedOracleResult {
            challenge_id: id,
            outcome_yes: true,
            yes_votes: 2,
            no_votes: 1,
            total_oracles: 3,
            aggregated_at: 900,
        }),
    );
    let challenge = ChallengeMarket::get_challenge(&mut ctx, id).unwrap();
    assert!(challenge.resolved && challenge.outcome_yes);
    assert_eq!(
        ChallengeMarket::aggregate_oracle_outcomes(&mut ctx, id),
        Err(Error::AlreadyFinalized),
    );
}

#[test]
fn a_tie_is_a_no() {
    let mut ctx = with_three();
    ChallengeMarket::set_quorum_size(&mut ctx, 2).unwrap();
    let id = challenge(&mut ctx);
    ctx.sequence = 60;
    ChallengeMarket::submit_oracle_outcome(&mut ctx, ONE, id, true).unwrap();
    ChallengeMarket::submit_oracle_outcome(&mut ctx, THREE, id, false).unwrap();
    ChallengeMarket::aggregate_oracle_outcomes(&mut ctx, id).unwrap();
    assert!(!ChallengeMarket::get_challenge(&mut ctx, id).unwrap().outcome_yes);
}

#[test]
fn nobody_speaks_for_a_market_without_relayers() {
    let mut ctx = set_up();
    let id = challenge(&mut ctx);
    ctx.sequence = 60;
    assert_eq!(
        ChallengeMarket::submit_oracle_outcome(&mut ctx, ONE, id, true),
        Err(Error::OracleNotAuthorized),
    );
    assert_eq!(
        ChallengeMarket::aggregate_oracle_outcomes(&mut ctx, id),
        Err(Error::InsufficientOracleSubmissions),
    );
}
