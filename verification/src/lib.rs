//! XLMarket: a pari-mutuel market on what the Stellar network does.
//!
//! A challenge asks a question about the network: will the next ledger close
//! within six seconds, will there be so many transactions, will the base fee
//! spike. Users stake a token on YES or on NO while staking is open. Once the
//! challenge is resolved, whoever was right gets their stake back and a share
//! of the losing pool, in proportion to their part of the winning pool, less a
//! protocol fee.
//!
//! A challenge about time resolves by the ledger's own clock, and anyone can
//! have it resolved ([`challenges`]). One about anything else resolves on the
//! word of a trusted relayer, or of a quorum of relayers ([`relayers`]). An
//! outcome can be disputed ([`disputes`]). A challenge that is cancelled, or
//! that nobody resolves in time, pays its stakes back ([`staking`]).
//!
//! Every request is an associated function of [`market::ChallengeMarket`] on a
//! [`context::Context`]: where the ledger stands, what the market keeps, and
//! the actions that it asks of the host. The host carries these out in order
//! and undoes the whole request where one of them fails, or where the request
//! is refused. What a request comes to is stated exactly, over the mathematical
//! [`context::State`] that a context stands for: for each there is a function
//! that ends in `_step`, from the state before to the state after and the
//! answer. Where a sum or a product could leave its range there is one that
//! ends in `_in_range`, and [`bounds`] has a test for it.
//!
//! What each request does is proved of these functions in plain numbers and
//! fields: what is paid ([`payments`]), how challenges are made ([`offers`]) and
//! settled ([`resolutions`]), what several stakes or claims at once come to
//! ([`batches`]), what liquidity buys and earns ([`provision`]), what the admin
//! and the relayers set ([`administration`]), what lists hold ([`listings`]),
//! what a refusal leaves ([`refusals`]), and what the values of the market are
//! taken for ([`views`]). What holds over several requests, and over all of
//! them, is proved in [`soundness`], [`history`], [`laws`], [`limits`] and
//! [`solvency`].

pub mod administration;
pub mod batches;
pub mod bounds;
pub mod challenges;
pub mod context;
pub mod disputes;
pub mod guards;
pub mod history;
pub mod laws;
pub mod limits;
pub mod liquidity;
pub mod listings;
pub mod lists;
pub mod market;
pub mod numbers;
pub mod offers;
pub mod params;
pub mod payments;
pub mod payouts;
pub mod provision;
pub mod queries;
pub mod refusals;
pub mod relayers;
pub mod reputation;
pub mod requests;
pub mod resolutions;
pub mod settings;
pub mod solvency;
pub mod soundness;
pub mod staking;
pub mod sums;
pub mod table;
pub mod types;
pub mod views;
