//! Lists of the host whose items are not what the list says they are.

use challenge_market::context::Context;
use challenge_market::market::ChallengeMarket;
use challenge_market::numbers::reads_as_numbers;
use challenge_market::numbers::Numbers;
use challenge_market::types::Address;
use challenge_market::types::Condition;
use challenge_market::types::Error;
use soroban_sdk::testutils::EnvTestConfig;
use soroban_sdk::Env;
use soroban_sdk::IntoVal;
use soroban_sdk::TryFromVal;
use soroban_sdk::Val;

const MARKET: Address = Address { id: 0 };
const ADMIN: Address = Address { id: 1 };
const TOKEN: Address = Address { id: 3 };
const BOB: Address = Address { id: 11 };

fn with_challenge() -> Context {
    let env = Env::new_with_config(EnvTestConfig { capture_snapshot_at_drop: false });
    let mut ctx = Context::new(env, MARKET, 500, 50);
    ChallengeMarket::initialize(&mut ctx, ADMIN, ADMIN).unwrap();
    ChallengeMarket::create_challenge(
        &mut ctx,
        BOB,
        String::new(),
        Condition::TxCountAtLeast(1),
        60,
        55,
        TOKEN,
        String::new(),
    )
    .unwrap();
    ctx
}

fn numbers(env: &Env, items: &[Val]) -> soroban_sdk::Vec<u64> {
    let raw = soroban_sdk::Vec::<Val>::from_slice(env, items);
    soroban_sdk::Vec::<u64>::try_from_val(env, &&raw).unwrap()
}

fn stakes(env: &Env, items: &[Val]) -> soroban_sdk::Vec<(u64, bool, i128)> {
    let raw = soroban_sdk::Vec::<Val>::from_slice(env, items);
    soroban_sdk::Vec::<(u64, bool, i128)>::try_from_val(env, &&raw).unwrap()
}

#[test]
fn a_list_of_numbers_is_read_or_not() {
    let env = Env::new_with_config(EnvTestConfig { capture_snapshot_at_drop: false });
    let seven: Val = 7u64.into_val(&env);
    let large: Val = u64::MAX.into_val(&env);
    let truth: Val = true.into_val(&env);
    let signed: Val = 7i64.into_val(&env);
    assert!(reads_as_numbers(&numbers(&env, &[])));
    assert!(!reads_as_numbers(&numbers(&env, &[seven, truth])));
    assert!(Numbers::read(numbers(&env, &[signed])).is_none());
    let mut list = Numbers::read(numbers(&env, &[seven, large])).unwrap();
    assert_eq!((list.len(), list.get(0), list.get(1), list.get(2)), (2, Some(7), Some(u64::MAX), None));
    assert!(list.contains(7) && list.contains(u64::MAX) && !list.contains(8));
    let copy = list.clone();
    list.push_back(8);
    list.remove(0);
    assert_eq!(list.into_list().iter().collect::<Vec<u64>>(), vec![u64::MAX, 8]);
    assert_eq!(copy.len(), 2);
}

#[test]
fn claims_that_do_not_read_are_left_alone() {
    let mut ctx = with_challenge();
    let env = ctx.host.clone();
    ChallengeMarket::stake(&mut ctx, BOB, 0, true, 10).unwrap();
    ctx.sequence = 60;
    ChallengeMarket::resolve_via_oracle(&mut ctx, 0, true).unwrap();
    let zero: Val = 0u64.into_val(&env);
    let nine: Val = 9u64.into_val(&env);
    let truth: Val = true.into_val(&env);
    assert!(ChallengeMarket::try_batch_claim(&mut ctx, BOB, numbers(&env, &[zero, truth])).is_none());
    assert!(!ChallengeMarket::get_stake(&ctx, 0, BOB).unwrap().claimed_yes);
    // One that is refused comes before the one that does not read.
    assert!(matches!(
        ChallengeMarket::try_batch_claim(&mut ctx, BOB, numbers(&env, &[nine, truth])),
        Some(Err(Error::ChallengeNotFound)),
    ));
    let paid = ChallengeMarket::try_batch_claim(&mut ctx, BOB, numbers(&env, &[zero]));
    assert_eq!(paid.unwrap().unwrap().get(0), Some(10));
}

#[test]
fn stakes_that_do_not_read_are_left_alone() {
    let mut ctx = with_challenge();
    let env = ctx.host.clone();
    let good: Val = (0u64, true, 5i128).into_val(&env);
    let refused: Val = (9u64, true, 5i128).into_val(&env);
    let short: Val = (0u64, true).into_val(&env);
    let wide: Val = (0u64, true, 5i128, 5i128).into_val(&env);
    let mixed: Val = (0u64, 5i128, true).into_val(&env);
    let bare: Val = 0u64.into_val(&env);
    for bad in [short, wide, mixed, bare] {
        assert_eq!(ChallengeMarket::try_batch_stake(&mut ctx, BOB, stakes(&env, &[good, bad])), None);
        assert_eq!(ChallengeMarket::get_stake(&ctx, 0, BOB), None);
        assert_eq!(
            ChallengeMarket::try_batch_stake(&mut ctx.clone(), BOB, stakes(&env, &[refused, bad])),
            Some(Err(Error::ChallengeNotFound)),
        );
    }
    let placed = ChallengeMarket::try_batch_stake(&mut ctx, BOB, stakes(&env, &[good, good]));
    assert_eq!(placed, Some(Ok(())));
    assert_eq!(ChallengeMarket::get_stake(&ctx, 0, BOB).unwrap().yes_amount, 10);
}
