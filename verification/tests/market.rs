//! Challenges from creation to payout, with real tokens behind the market.

use challenge_market::context::Context;
use challenge_market::market::ChallengeMarket;
use challenge_market::types::Action;
use challenge_market::types::Address;
use challenge_market::types::Challenge;
use challenge_market::types::Condition;
use challenge_market::types::Error;
use soroban_sdk::testutils::Address as _;
use soroban_sdk::testutils::EnvTestConfig;
use soroban_sdk::token;
use soroban_sdk::Env;

/// A market on a host whose accounts and tokens are real.
struct Host {
    env: Env,
    accounts: Vec<soroban_sdk::Address>,
    ctx: Context,
}

impl Host {
    fn new() -> Host {
        let env = Env::new_with_config(EnvTestConfig { capture_snapshot_at_drop: false });
        env.mock_all_auths();
        let market = soroban_sdk::Address::generate(&env);
        let ctx = Context::new(env.clone(), Address { id: 0 }, 0, 0);
        Host { env, accounts: vec![market], ctx }
    }

    fn know(&mut self, account: soroban_sdk::Address) -> Address {
        self.accounts.push(account);
        Address { id: (self.accounts.len() - 1) as u64 }
    }

    fn account(&mut self) -> Address {
        let account = soroban_sdk::Address::generate(&self.env);
        self.know(account)
    }

    fn token(&mut self, admin: Address) -> Address {
        let issuer = self.on_host(admin);
        let contract = self.env.register_stellar_asset_contract_v2(issuer);
        self.know(contract.address())
    }

    fn on_host(&self, address: Address) -> soroban_sdk::Address {
        self.accounts[address.id as usize].clone()
    }

    fn mint(&self, token: Address, to: Address, amount: i128) {
        token::StellarAssetClient::new(&self.env, &self.on_host(token)).mint(&self.on_host(to), &amount);
    }

    fn balance(&self, token: Address, of: Address) -> i128 {
        token::Client::new(&self.env, &self.on_host(token)).balance(&self.on_host(of))
    }

    fn market(&self) -> Address {
        Address { id: 0 }
    }

    fn ledger(&mut self, timestamp: u64, sequence: u32) {
        self.ctx.timestamp = timestamp;
        self.ctx.sequence = sequence;
    }

    /// Serves a request, and undoes it if it is refused.
    fn serve<T>(
        &mut self,
        request: impl FnOnce(&mut Context) -> Result<T, Error>,
    ) -> Result<T, Error> {
        let before = self.ctx.clone();
        self.ctx.actions = Vec::new();
        let result = request(&mut self.ctx);
        if result.is_err() {
            self.ctx = before;
            return result;
        }
        let actions = std::mem::take(&mut self.ctx.actions);
        for action in actions {
            if let Action::Transfer { token, from, to, amount } = action {
                token::Client::new(&self.env, &self.on_host(token)).transfer(
                    &self.on_host(from),
                    &self.on_host(to),
                    &amount,
                );
            }
        }
        result
    }

    fn create(
        &mut self,
        creator: Address,
        description: &str,
        condition: Condition,
        resolve_ledger_seq: u32,
        staking_deadline_seq: u32,
        token: Address,
    ) -> u64 {
        let description = String::from(description);
        self.serve(|ctx| {
            ChallengeMarket::create_challenge(
                ctx,
                creator,
                description,
                condition,
                resolve_ledger_seq,
                staking_deadline_seq,
                token,
                String::new(),
            )
        })
        .unwrap()
    }

    fn stake(&mut self, who: Address, id: u64, side_yes: bool, amount: i128) -> Result<(), Error> {
        self.serve(|ctx| ChallengeMarket::stake(ctx, who, id, side_yes, amount))
    }

    fn claim(&mut self, who: Address, id: u64) -> Result<i128, Error> {
        self.serve(|ctx| ChallengeMarket::claim(ctx, who, id))
    }

    fn challenge(&mut self, id: u64) -> Challenge {
        self.serve(|ctx| ChallengeMarket::get_challenge(ctx, id)).unwrap()
    }
}

#[test]
fn test_ledger_close_under_happy_path() {
    let mut host = Host::new();
    let admin = host.account();
    let relayer = host.account();
    let alice = host.account(); // bets YES (closes under 6s)
    let bob = host.account(); // bets NO
    let token = host.token(admin);
    host.mint(token, alice, 1_000_000);
    host.mint(token, bob, 1_000_000);
    host.serve(|ctx| ChallengeMarket::initialize(ctx, admin, relayer)).unwrap();

    host.ledger(1_000, 100);
    let id = host.create(
        alice,
        "Next ledger closes under 6s",
        Condition::LedgerCloseUnder(6),
        101,
        105,
        token,
    );
    host.stake(alice, id, true, 100).unwrap();
    host.stake(bob, id, false, 50).unwrap();

    // 4 seconds later the next ledger has closed.
    host.ledger(1_004, 101);
    host.serve(|ctx| ChallengeMarket::resolve_native(ctx, id)).unwrap();
    let challenge = host.challenge(id);
    assert!(challenge.resolved);
    assert!(challenge.outcome_yes);

    // The stake (100) and all of the losing pool (50): nobody else was on YES.
    let payout = host.claim(alice, id).unwrap();
    assert_eq!(payout, 150);
    assert_eq!(host.balance(token, alice), 1_000_000 - 100 + 150);

    // Bob lost, nothing to claim.
    let bob_result = host.claim(bob, id);
    assert!(bob_result.is_err());
}

#[test]
fn test_ledger_close_over_threshold_no_wins() {
    let mut host = Host::new();
    let admin = host.account();
    let relayer = host.account();
    let alice = host.account();
    let bob = host.account();
    let token = host.token(admin);
    host.mint(token, alice, 1_000_000);
    host.mint(token, bob, 1_000_000);
    host.serve(|ctx| ChallengeMarket::initialize(ctx, admin, relayer)).unwrap();

    host.ledger(2_000, 200);
    let id = host.create(
        alice,
        "Next ledger closes under 6s",
        Condition::LedgerCloseUnder(6),
        201,
        205,
        token,
    );
    host.stake(alice, id, true, 100).unwrap();
    host.stake(bob, id, false, 50).unwrap();

    // 10 seconds later: slower than the 6s threshold, so NO wins.
    host.ledger(2_010, 201);
    host.serve(|ctx| ChallengeMarket::resolve_native(ctx, id)).unwrap();
    let challenge = host.challenge(id);
    assert!(!challenge.outcome_yes);

    // Bob's 50 back and alice's losing 100.
    let payout = host.claim(bob, id).unwrap();
    assert_eq!(payout, 150);
}

#[test]
fn test_oracle_resolution_path() {
    let mut host = Host::new();
    let admin = host.account();
    let relayer = host.account();
    let alice = host.account();
    let token = host.token(admin);
    host.mint(token, alice, 1_000_000);
    host.serve(|ctx| ChallengeMarket::initialize(ctx, admin, relayer)).unwrap();

    host.ledger(0, 300);
    let id = host.create(
        alice,
        "Tx count spikes above 5000 this window",
        Condition::TxCountAtLeast(5000),
        301,
        305,
        token,
    );
    host.stake(alice, id, true, 200).unwrap();

    host.ledger(0, 301);
    // Only the configured relayer can resolve this path.
    host.serve(|ctx| ChallengeMarket::resolve_via_oracle(ctx, id, true)).unwrap();
    let challenge = host.challenge(id);
    assert!(challenge.resolved);
    assert!(challenge.outcome_yes);
}

#[test]
fn test_staking_closed_after_deadline() {
    let mut host = Host::new();
    let admin = host.account();
    let relayer = host.account();
    let alice = host.account();
    let token = host.token(admin);
    host.mint(token, alice, 1_000_000);
    host.serve(|ctx| ChallengeMarket::initialize(ctx, admin, relayer)).unwrap();

    host.ledger(0, 400);
    let id = host.create(
        alice,
        "Next ledger closes under 6s",
        Condition::LedgerCloseUnder(6),
        402,
        401,
        token,
    );

    // Past the staking deadline.
    host.ledger(0, 402);
    let result = host.stake(alice, id, true, 100);
    assert!(result.is_err());
}

#[test]
fn test_cancel_challenge_by_creator() {
    let mut host = Host::new();
    let admin = host.account();
    let relayer = host.account();
    let alice = host.account(); // creator
    let bob = host.account(); // staker
    let token = host.token(admin);
    host.mint(token, bob, 1_000_000);
    host.serve(|ctx| ChallengeMarket::initialize(ctx, admin, relayer)).unwrap();

    host.ledger(0, 500);
    let id = host.create(
        alice,
        "Next ledger closes under 6s",
        Condition::LedgerCloseUnder(6),
        502,
        501,
        token,
    );
    host.stake(bob, id, true, 100).unwrap();

    host.serve(|ctx| ChallengeMarket::cancel_challenge(ctx, alice, id)).unwrap();
    let challenge = host.challenge(id);
    assert!(challenge.cancelled);
    assert!(!challenge.resolved);

    let refund = host.serve(|ctx| ChallengeMarket::refund(ctx, bob, id)).unwrap();
    assert_eq!(refund, 100);
    assert_eq!(host.balance(token, bob), 1_000_000 - 100 + 100);
}

#[test]
fn test_cancel_challenge_by_admin() {
    let mut host = Host::new();
    let admin = host.account();
    let relayer = host.account();
    let alice = host.account(); // creator
    let bob = host.account(); // staker
    let token = host.token(admin);
    host.mint(token, bob, 1_000_000);
    host.serve(|ctx| ChallengeMarket::initialize(ctx, admin, relayer)).unwrap();

    host.ledger(0, 600);
    let id = host.create(
        alice,
        "Next ledger closes under 6s",
        Condition::LedgerCloseUnder(6),
        602,
        601,
        token,
    );
    host.stake(bob, id, true, 100).unwrap();

    host.serve(|ctx| ChallengeMarket::cancel_challenge(ctx, admin, id)).unwrap();
    let challenge = host.challenge(id);
    assert!(challenge.cancelled);
}

#[test]
fn test_protocol_fee_deduction() {
    let mut host = Host::new();
    let admin = host.account();
    let relayer = host.account();
    let alice = host.account(); // YES staker
    let bob = host.account(); // NO staker
    let token = host.token(admin);
    host.mint(token, alice, 1_000_000);
    host.mint(token, bob, 1_000_000);
    host.serve(|ctx| ChallengeMarket::initialize(ctx, admin, relayer)).unwrap();

    // A protocol fee of 10% (1000 bps).
    host.serve(|ctx| ChallengeMarket::set_protocol_fee(ctx, 1000)).unwrap();

    host.ledger(7_000, 700);
    let id = host.create(
        alice,
        "Next ledger closes under 6s",
        Condition::LedgerCloseUnder(6),
        701,
        705,
        token,
    );
    host.stake(alice, id, true, 100).unwrap();
    host.stake(bob, id, false, 50).unwrap();

    host.ledger(7_004, 701);
    host.serve(|ctx| ChallengeMarket::resolve_native(ctx, id)).unwrap();

    // 150 before the fee, less 10%: 135.
    let payout = host.claim(alice, id).unwrap();
    assert_eq!(payout, 135);
    assert_eq!(host.balance(token, alice), 1_000_000 - 100 + 135);
    let market = host.market();
    assert_eq!(host.balance(token, market), 15); // the fee is kept by the market
}

#[test]
fn fees_are_collected_by_the_admin() {
    let mut host = Host::new();
    let admin = host.account();
    let relayer = host.account();
    let alice = host.account();
    let bob = host.account();
    let token = host.token(admin);
    host.mint(token, alice, 1_000);
    host.mint(token, bob, 1_000);
    host.serve(|ctx| ChallengeMarket::initialize(ctx, admin, relayer)).unwrap();
    host.serve(|ctx| ChallengeMarket::set_protocol_fee(ctx, 250)).unwrap();
    host.ledger(10, 10);
    let id = host.create(alice, "fees", Condition::TxCountAtLeast(1), 12, 11, token);
    host.stake(alice, id, true, 300).unwrap();
    host.stake(bob, id, false, 700).unwrap();
    host.ledger(20, 12);
    host.serve(|ctx| ChallengeMarket::resolve_via_oracle(ctx, id, true)).unwrap();
    // 1000 before the fee, 2.5% of it is 25.
    assert_eq!(host.claim(alice, id), Ok(975));
    let market = host.market();
    assert_eq!(host.balance(token, market), 25);
    assert_eq!(ChallengeMarket::get_fee_balance(&host.ctx, token), 25);
    let collected = host.serve(|ctx| ChallengeMarket::collect_fees(ctx, token, relayer)).unwrap();
    assert_eq!(collected, 25);
    assert_eq!(host.balance(token, relayer), 25);
    assert_eq!(host.balance(token, market), 0);
    let again = host.serve(|ctx| ChallengeMarket::collect_fees(ctx, token, relayer));
    assert_eq!(again, Err(Error::InvalidAmount));
}

#[test]
fn winners_are_paid_from_what_was_staked() {
    let mut host = Host::new();
    let admin = host.account();
    let relayer = host.account();
    let users = [host.account(), host.account(), host.account(), host.account()];
    let token = host.token(admin);
    for user in users {
        host.mint(token, user, 1_000);
    }
    host.serve(|ctx| ChallengeMarket::initialize(ctx, admin, relayer)).unwrap();
    host.ledger(10, 10);
    let id = host.create(users[0], "shares", Condition::TxCountAtLeast(1), 12, 11, token);
    host.stake(users[0], id, true, 3).unwrap();
    host.stake(users[1], id, true, 3).unwrap();
    host.stake(users[2], id, true, 1).unwrap();
    host.stake(users[3], id, false, 100).unwrap();
    host.ledger(20, 12);
    host.serve(|ctx| ChallengeMarket::resolve_via_oracle(ctx, id, true)).unwrap();
    // 3 of 7 parts of 100 are 42, 1 of 7 parts is 14, rounded down.
    assert_eq!(host.claim(users[0], id), Ok(45));
    assert_eq!(host.claim(users[1], id), Ok(45));
    assert_eq!(host.claim(users[2], id), Ok(15));
    assert_eq!(host.claim(users[3], id), Err(Error::NothingWon));
    // What rounding leaves stays with the market.
    let market = host.market();
    assert_eq!(host.balance(token, market), 2);
    assert_eq!(host.claim(users[0], id), Err(Error::AlreadyClaimed));
}

#[test]
fn stakes_on_both_sides_are_kept_apart() {
    let mut host = Host::new();
    let admin = host.account();
    let relayer = host.account();
    let alice = host.account();
    let token = host.token(admin);
    host.mint(token, alice, 1_000);
    host.serve(|ctx| ChallengeMarket::initialize(ctx, admin, relayer)).unwrap();
    host.ledger(10, 10);
    let id = host.create(alice, "both", Condition::TxCountAtLeast(1), 12, 11, token);
    host.stake(alice, id, true, 60).unwrap();
    host.stake(alice, id, false, 40).unwrap();
    host.stake(alice, id, true, 5).unwrap();
    let stake = ChallengeMarket::get_stake(&host.ctx, id, alice).unwrap();
    assert_eq!((stake.yes_amount, stake.no_amount), (65, 40));
    let challenge = host.challenge(id);
    assert_eq!((challenge.pool_yes, challenge.pool_no), (65, 40));
    let stats = ChallengeMarket::get_challenge_stats(&mut host.ctx, id).unwrap();
    assert_eq!((stats.total_participants, stats.total_staked), (1, 105));
    host.ledger(20, 12);
    host.serve(|ctx| ChallengeMarket::resolve_via_oracle(ctx, id, false)).unwrap();
    assert_eq!(host.claim(alice, id), Ok(105));
    assert_eq!(host.balance(token, alice), 1_000);
    assert_eq!(ChallengeMarket::get_challenge_stats(&mut host.ctx, id), None);
}

#[test]
fn expired_challenges_are_paid_back() {
    let mut host = Host::new();
    let admin = host.account();
    let relayer = host.account();
    let alice = host.account();
    let token = host.token(admin);
    host.mint(token, alice, 1_000);
    host.serve(|ctx| ChallengeMarket::initialize(ctx, admin, relayer)).unwrap();
    host.ledger(10, 10);
    let id = host.create(alice, "late", Condition::LedgerCloseUnder(1), 12, 11, token);
    host.stake(alice, id, true, 60).unwrap();
    host.stake(alice, id, false, 40).unwrap();
    host.ledger(20, 1012);
    let early = host.serve(|ctx| ChallengeMarket::expire_challenge(ctx, id));
    assert_eq!(early, Err(Error::TooEarlyToResolve));
    host.ledger(21, 1013);
    let late = host.serve(|ctx| ChallengeMarket::resolve_native(ctx, id));
    assert_eq!(late, Err(Error::ChallengeExpired));
    host.serve(|ctx| ChallengeMarket::expire_challenge(ctx, id)).unwrap();
    assert_eq!(host.serve(|ctx| ChallengeMarket::refund(ctx, alice, id)), Ok(100));
    assert_eq!(host.balance(token, alice), 1_000);
    let again = host.serve(|ctx| ChallengeMarket::refund(ctx, alice, id));
    assert_eq!(again, Err(Error::AlreadyClaimed));
}

#[test]
fn disputes_move_their_stake() {
    let mut host = Host::new();
    let admin = host.account();
    let relayer = host.account();
    let alice = host.account();
    let bob = host.account();
    let token = host.token(admin);
    host.mint(token, alice, 1_000);
    host.mint(token, bob, 1_000);
    host.serve(|ctx| ChallengeMarket::initialize(ctx, admin, relayer)).unwrap();
    host.ledger(10, 10);
    let id = host.create(alice, "disputed", Condition::TxCountAtLeast(1), 12, 11, token);
    host.stake(alice, id, true, 100).unwrap();
    host.stake(bob, id, false, 100).unwrap();
    host.ledger(20, 12);
    host.serve(|ctx| ChallengeMarket::resolve_via_oracle(ctx, id, true)).unwrap();
    host.serve(|ctx| {
        ChallengeMarket::file_dispute(ctx, bob, id, false, String::from("see ledger 12"), 105)
    })
    .unwrap();
    assert_eq!(host.balance(token, bob), 795);
    host.serve(|ctx| {
        ChallengeMarket::file_dispute(ctx, alice, id, true, String::from("no"), 100)
    })
    .unwrap();
    // Alice was wrong: the admin gets the stake.
    host.serve(|ctx| ChallengeMarket::resolve_dispute(ctx, id, alice, false)).unwrap();
    assert_eq!(host.balance(token, admin), 100);
    assert!(host.challenge(id).outcome_yes);
    // Bob was right: 105 and a tenth of it, and the outcome is turned.
    host.serve(|ctx| ChallengeMarket::resolve_dispute(ctx, id, bob, true)).unwrap();
    assert_eq!(host.balance(token, bob), 795 + 115);
    assert!(!host.challenge(id).outcome_yes);
    let again = host.serve(|ctx| ChallengeMarket::resolve_dispute(ctx, id, bob, false));
    assert_eq!(again, Err(Error::DisputeAlreadyResolved));
}

#[test]
fn liquidity_comes_back() {
    let mut host = Host::new();
    let admin = host.account();
    let relayer = host.account();
    let alice = host.account();
    let token = host.token(admin);
    host.mint(token, alice, 50_000);
    host.serve(|ctx| ChallengeMarket::initialize(ctx, admin, relayer)).unwrap();
    host.ledger(10, 10);
    let id = host.create(alice, "deep", Condition::TxCountAtLeast(1), 12, 11, token);
    assert_eq!(host.serve(|ctx| ChallengeMarket::add_liquidity(ctx, alice, id, 40_000)), Ok(40_000));
    assert_eq!(host.balance(token, alice), 10_000);
    let market = host.market();
    assert_eq!(host.balance(token, market), 40_000);
    let part = host.serve(|ctx| ChallengeMarket::remove_liquidity(ctx, alice, id, 20_000));
    assert_eq!(part, Ok(20_000));
    let soon = host.serve(|ctx| ChallengeMarket::remove_liquidity(ctx, alice, id, 20_000));
    assert_eq!(soon, Err(Error::CooldownNotElapsed));
    host.ledger(20, 11);
    let rest = host.serve(|ctx| ChallengeMarket::remove_liquidity(ctx, alice, id, 20_000));
    assert_eq!(rest, Ok(20_000));
    assert_eq!(host.balance(token, alice), 50_000);
}

#[test]
fn the_market_holds_what_it_owes() {
    let mut host = Host::new();
    let admin = host.account();
    let relayer = host.account();
    let alice = host.account();
    let bob = host.account();
    let token = host.token(admin);
    host.mint(token, alice, 1_000);
    host.mint(token, bob, 1_000);
    host.serve(|ctx| ChallengeMarket::initialize(ctx, admin, relayer)).unwrap();
    host.serve(|ctx| ChallengeMarket::set_protocol_fee(ctx, 1_000)).unwrap();
    host.ledger(10, 10);
    let id = host.create(alice, "covered", Condition::TxCountAtLeast(1), 12, 11, token);
    let market = host.market();
    host.stake(alice, id, true, 300).unwrap();
    host.stake(bob, id, false, 200).unwrap();
    host.serve(|ctx| ChallengeMarket::add_liquidity(ctx, bob, id, 40)).unwrap();
    // 500 to the stakers, 40 to the provider.
    assert_eq!(host.balance(token, market), 540);
    host.ledger(20, 12);
    host.serve(|ctx| ChallengeMarket::resolve_via_oracle(ctx, id, true)).unwrap();
    host.serve(|ctx| ChallengeMarket::file_dispute(ctx, bob, id, false, String::from("no"), 100))
        .unwrap();
    assert_eq!(host.balance(token, market), 640);
    // A tenth of 500 stays as a fee.
    assert_eq!(host.claim(alice, id), Ok(450));
    assert_eq!(ChallengeMarket::get_fee_balance(&host.ctx, token), 50);
    assert_eq!(host.balance(token, market), 40 + 100 + 50);
    host.serve(|ctx| ChallengeMarket::resolve_dispute(ctx, id, bob, false)).unwrap();
    assert_eq!(host.balance(token, market), 40 + 50);
    let collected = host.serve(|ctx| ChallengeMarket::collect_fees(ctx, token, admin));
    assert_eq!(collected, Ok(50));
    let withdrawn = host.serve(|ctx| ChallengeMarket::remove_liquidity(ctx, bob, id, 40));
    assert_eq!(withdrawn, Ok(40));
    assert_eq!(host.balance(token, market), 0);
}

#[test]
fn an_upheld_dispute_costs_the_bonus() {
    let mut host = Host::new();
    let admin = host.account();
    let relayer = host.account();
    let alice = host.account();
    let bob = host.account();
    let token = host.token(admin);
    host.mint(token, alice, 1_000);
    host.mint(token, bob, 1_000);
    host.serve(|ctx| ChallengeMarket::initialize(ctx, admin, relayer)).unwrap();
    host.ledger(10, 10);
    let id = host.create(alice, "upheld", Condition::TxCountAtLeast(1), 12, 11, token);
    let market = host.market();
    host.stake(alice, id, true, 300).unwrap();
    host.stake(bob, id, false, 200).unwrap();
    host.ledger(20, 12);
    host.serve(|ctx| ChallengeMarket::resolve_via_oracle(ctx, id, true)).unwrap();
    host.serve(|ctx| ChallengeMarket::file_dispute(ctx, bob, id, false, String::from("no"), 100))
        .unwrap();
    host.serve(|ctx| ChallengeMarket::resolve_dispute(ctx, id, bob, true)).unwrap();
    // Bob has 500 to claim, but 10 of it went to the bonus.
    assert_eq!(host.balance(token, market), 490);
    let mut ctx = host.ctx.clone();
    assert_eq!(ChallengeMarket::claim(&mut ctx, bob, id), Ok(500));
}
