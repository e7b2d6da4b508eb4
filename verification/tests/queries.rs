//! Lists, searches, logs, and several requests at once.

use challenge_market::context::Context;
use challenge_market::market::ChallengeMarket;
use challenge_market::types::Action;
use challenge_market::types::Address;
use challenge_market::types::AuditLogEntry;
use challenge_market::types::Condition;
use challenge_market::types::Error;
use soroban_sdk::testutils::EnvTestConfig;
use soroban_sdk::Env;

const MARKET: Address = Address { id: 0 };
const ADMIN: Address = Address { id: 1 };
const TOKEN: Address = Address { id: 3 };
const OTHER_TOKEN: Address = Address { id: 4 };
const ALICE: Address = Address { id: 10 };
const BOB: Address = Address { id: 11 };

fn fresh() -> Context {
    let env = Env::new_with_config(EnvTestConfig { capture_snapshot_at_drop: false });
    Context::new(env, MARKET, 500, 50)
}

fn set_up() -> Context {
    let mut ctx = fresh();
    ChallengeMarket::initialize(&mut ctx, ADMIN, ADMIN).unwrap();
    ctx
}

fn create(ctx: &mut Context, creator: Address, condition: Condition, token: Address, topic: &str) {
    ChallengeMarket::create_challenge(
        ctx,
        creator,
        String::new(),
        condition,
        60,
        55,
        token,
        String::from(topic),
    )
    .unwrap();
}

/// Challenges 0 to 5, of two creators, three kinds, two tokens and two topics.
fn with_challenges() -> Context {
    let mut ctx = set_up();
    create(&mut ctx, ALICE, Condition::LedgerCloseUnder(1), TOKEN, "time");
    create(&mut ctx, BOB, Condition::TxCountAtLeast(1), TOKEN, "load");
    create(&mut ctx, ALICE, Condition::BaseFeeAtLeast(1), OTHER_TOKEN, "load");
    create(&mut ctx, BOB, Condition::LedgerCloseUnder(1), TOKEN, "time");
    create(&mut ctx, ALICE, Condition::TxCountAtLeast(1), OTHER_TOKEN, "load");
    create(&mut ctx, BOB, Condition::TxCountAtLeast(1), TOKEN, "load");
    ctx
}

fn ids(result: Result<soroban_sdk::Vec<u64>, Error>) -> Vec<u64> {
    result.unwrap().iter().collect()
}

#[test]
fn lists_need_a_market_that_is_set_up() {
    let ctx = fresh();
    assert!(matches!(
        ChallengeMarket::list_challenges(&ctx, 0, 5),
        Err(Error::NotInitialized),
    ));
    assert!(matches!(
        ChallengeMarket::list_challenges_by_category(&ctx, String::new(), 0, 5),
        Err(Error::NotInitialized),
    ));
    assert!(matches!(
        ChallengeMarket::list_challenges_by_creator(&ctx, ALICE, 0, 5),
        Err(Error::NotInitialized),
    ));
    assert!(matches!(
        ChallengeMarket::search_challenges_by_status(&ctx, false, false, 0, 5),
        Err(Error::NotInitialized),
    ));
    assert!(matches!(
        ChallengeMarket::search_challenges_by_token(&ctx, TOKEN, 0, 5),
        Err(Error::NotInitialized),
    ));
    assert!(matches!(
        ChallengeMarket::search_challenges_by_condition(&ctx, 0, 0, 5),
        Err(Error::NotInitialized),
    ));
}

#[test]
fn lists_run_from_the_newest() {
    let ctx = with_challenges();
    assert_eq!(ids(ChallengeMarket::list_challenges(&ctx, 0, 10)), vec![5, 4, 3, 2, 1, 0]);
    assert_eq!(ids(ChallengeMarket::list_challenges(&ctx, 0, 2)), vec![5, 4]);
    assert_eq!(ids(ChallengeMarket::list_challenges(&ctx, 2, 2)), vec![3, 2]);
    assert_eq!(ids(ChallengeMarket::list_challenges(&ctx, 4, 2)), vec![1, 0]);
    assert_eq!(ids(ChallengeMarket::list_challenges(&ctx, 4, 10)), vec![1, 0]);
    assert_eq!(ids(ChallengeMarket::list_challenges(&ctx, 6, 10)), Vec::<u64>::new());
    assert_eq!(ids(ChallengeMarket::list_challenges(&ctx, 0, 0)), Vec::<u64>::new());
}

#[test]
fn pages_go_on_where_the_last_one_ended() {
    let mut ctx = set_up();
    for expected in 0..5 {
        create(&mut ctx, if expected % 2 == 0 { ALICE } else { BOB }, Condition::TxCountAtLeast(1), TOKEN, "");
    }
    assert_eq!(ids(ChallengeMarket::list_challenges(&ctx, 0, 2)), vec![4, 3]);
    assert_eq!(ids(ChallengeMarket::list_challenges(&ctx, 2, 2)), vec![2, 1]);
    assert_eq!(ids(ChallengeMarket::list_challenges(&ctx, 4, 2)), vec![0]);
    assert_eq!(ids(ChallengeMarket::list_challenges_by_creator(&ctx, ALICE, 0, 2)), vec![4, 2]);
    assert_eq!(ids(ChallengeMarket::list_challenges_by_creator(&ctx, ALICE, 2, 2)), vec![0]);
    assert_eq!(
        ids(ChallengeMarket::list_challenges_by_creator(&ctx, ALICE, 4, 2)),
        Vec::<u64>::new(),
    );
    let none = || String::new();
    assert_eq!(
        ids(ChallengeMarket::list_challenges_by_category(&ctx, none(), 1, 3)),
        vec![3, 2, 1],
    );
    assert_eq!(ids(ChallengeMarket::list_challenges_by_category(&ctx, none(), 4, 3)), vec![0]);
}

#[test]
fn searches_pass_over_the_newest() {
    let mut ctx = with_challenges();
    let load = || String::from("load");
    assert_eq!(
        ids(ChallengeMarket::list_challenges_by_category(&ctx, load(), 0, 10)),
        vec![5, 4, 2, 1],
    );
    assert_eq!(
        ids(ChallengeMarket::list_challenges_by_category(&ctx, load(), 1, 2)),
        vec![4, 2],
    );
    assert_eq!(
        ids(ChallengeMarket::list_challenges_by_creator(&ctx, ALICE, 0, 10)),
        vec![4, 2, 0],
    );
    assert_eq!(
        ids(ChallengeMarket::list_challenges_by_creator(&ctx, ALICE, 2, 10)),
        vec![0],
    );
    // A search counts the challenges that it passes over, whether they match
    // or not.
    assert_eq!(
        ids(ChallengeMarket::search_challenges_by_token(&ctx, OTHER_TOKEN, 2, 10)),
        vec![2],
    );
    assert_eq!(
        ids(ChallengeMarket::search_challenges_by_token(&ctx, OTHER_TOKEN, 0, 1)),
        vec![4],
    );
    assert_eq!(
        ids(ChallengeMarket::search_challenges_by_condition(&ctx, 0, 0, 10)),
        vec![3, 0],
    );
    assert_eq!(
        ids(ChallengeMarket::search_challenges_by_condition(&ctx, 1, 0, 10)),
        vec![5, 4, 1],
    );
    assert_eq!(ids(ChallengeMarket::search_challenges_by_condition(&ctx, 2, 0, 10)), vec![2]);
    assert_eq!(
        ids(ChallengeMarket::search_challenges_by_condition(&ctx, 3, 0, 10)),
        Vec::<u64>::new(),
    );
    ctx.sequence = 60;
    ChallengeMarket::resolve_native(&mut ctx, 3).unwrap();
    ChallengeMarket::cancel_challenge(&mut ctx, ADMIN, 4).unwrap();
    assert_eq!(
        ids(ChallengeMarket::search_challenges_by_status(&ctx, true, false, 0, 10)),
        vec![3],
    );
    assert_eq!(
        ids(ChallengeMarket::search_challenges_by_status(&ctx, false, true, 0, 10)),
        vec![4],
    );
    assert_eq!(
        ids(ChallengeMarket::search_challenges_by_status(&ctx, false, false, 0, 10)),
        vec![5, 2, 1, 0],
    );
}

#[test]
fn templates_are_listed_by_creator() {
    let mut ctx = set_up();
    for creator in [ALICE, BOB, ALICE] {
        ChallengeMarket::create_template(
            &mut ctx,
            creator,
            String::new(),
            Condition::TxCountAtLeast(1),
            10,
            5,
            TOKEN,
            String::new(),
        )
        .unwrap();
    }
    assert_eq!(ids(ChallengeMarket::list_user_templates(&ctx, ALICE)), vec![0, 2]);
    assert_eq!(ids(ChallengeMarket::list_user_templates(&ctx, BOB)), vec![1]);
    assert_eq!(ids(ChallengeMarket::list_user_templates(&ctx, ADMIN)), Vec::<u64>::new());
}

#[test]
fn the_log_is_read_backwards() {
    let mut ctx = set_up();
    assert_eq!(ChallengeMarket::get_audit_log_count(&ctx, 0), 0);
    assert_eq!(ChallengeMarket::get_audit_log_entry(&ctx, 0, 0), None);
    let entry = |entry_id: u64| AuditLogEntry {
        entry_id,
        challenge_id: 0,
        action_type: String::from("note"),
        actor: ALICE,
        timestamp: 7,
        details: String::from("kept"),
    };
    for entry_id in [0, 1, 3] {
        ctx.audit_log.set((0, entry_id), entry(entry_id));
    }
    ctx.audit_log_counts.set(0, 4);
    assert_eq!(ChallengeMarket::get_audit_log_count(&ctx, 0), 4);
    assert_eq!(ChallengeMarket::get_audit_log_entry(&ctx, 0, 3), Some(entry(3)));
    assert_eq!(
        ChallengeMarket::get_audit_log_entries(&ctx, 0, 0, 10),
        Ok(vec![entry(3), entry(1), entry(0)]),
    );
    assert_eq!(
        ChallengeMarket::get_audit_log_entries(&ctx, 0, 1, 10),
        Ok(vec![entry(1), entry(0)]),
    );
    assert_eq!(ChallengeMarket::get_audit_log_entries(&ctx, 0, 2, 1), Ok(vec![entry(0)]));
    assert_eq!(ChallengeMarket::get_audit_log_entries(&ctx, 0, 3, 1), Ok(vec![]));
    assert_eq!(ChallengeMarket::get_audit_log_entries(&ctx, 0, 0, 1), Ok(vec![entry(3)]));
}

#[test]
fn several_stakes_are_placed_at_once() {
    let mut ctx = with_challenges();
    let stakes = soroban_sdk::Vec::from_array(
        &ctx.host,
        [(0u64, true, 30i128), (1, false, 20), (0, true, 5)],
    );
    ctx.actions = Vec::new();
    assert_eq!(ChallengeMarket::batch_stake(&mut ctx, BOB, stakes.clone()), Ok(()));
    let asked = ctx.actions.iter().filter(|action| **action == Action::RequireAuth(BOB)).count();
    assert_eq!(asked, 1);
    assert_eq!(ChallengeMarket::get_stake(&ctx, 0, BOB).unwrap().yes_amount, 35);
    assert_eq!(ChallengeMarket::get_stake(&ctx, 1, BOB).unwrap().no_amount, 20);
    // The first that is refused ends it.
    let mixed = soroban_sdk::Vec::from_array(
        &ctx.host,
        [(2u64, true, 1i128), (9, true, 1), (3, true, 1)],
    );
    assert_eq!(
        ChallengeMarket::try_batch_stake(&mut ctx, BOB, mixed),
        Some(Err(Error::ChallengeNotFound)),
    );
    assert!(ChallengeMarket::get_stake(&ctx, 2, BOB).is_some());
    assert!(ChallengeMarket::get_stake(&ctx, 3, BOB).is_none());
    ChallengeMarket::pause(&mut ctx).unwrap();
    assert_eq!(
        ChallengeMarket::try_batch_stake(&mut ctx, BOB, stakes),
        Some(Err(Error::ContractPaused)),
    );
}

#[test]
fn several_claims_are_paid_at_once() {
    let mut ctx = with_challenges();
    for (id, amount) in [(1u64, 40i128), (5, 9)] {
        ChallengeMarket::stake(&mut ctx, BOB, id, true, amount).unwrap();
        ChallengeMarket::stake(&mut ctx, ALICE, id, false, 6).unwrap();
    }
    ctx.sequence = 60;
    ChallengeMarket::resolve_via_oracle(&mut ctx, 1, true).unwrap();
    ChallengeMarket::resolve_via_oracle(&mut ctx, 5, true).unwrap();
    let both = soroban_sdk::Vec::from_array(&ctx.host, [5u64, 1]);
    let none = soroban_sdk::Vec::from_array(&ctx.host, [5u64, 9]);
    assert!(matches!(
        ChallengeMarket::try_batch_claim(&mut ctx.clone(), ALICE, none),
        Some(Err(Error::NothingWon)),
    ));
    let payouts = ChallengeMarket::batch_claim(&mut ctx, BOB, both.clone()).unwrap();
    assert_eq!(payouts.iter().collect::<Vec<i128>>(), vec![15, 46]);
    assert!(matches!(
        ChallengeMarket::try_batch_claim(&mut ctx, BOB, both),
        Some(Err(Error::AlreadyClaimed)),
    ));
}
