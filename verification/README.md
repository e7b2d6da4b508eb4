# challenge-market

A pari-mutuel market on what the Stellar network does, for the Soroban host,
verified with Verus.

Users stake a token on YES or NO of a challenge ("the next ledger closes within
six seconds"). Whoever is right gets their stake back and a share of the losing
pool, in proportion to their part of the winning pool.

## Layout

- `src/` is the market: every rule, with its contract, proved.
  - `market`, `challenges`, `staking`, `relayers`, `disputes`, `liquidity`,
    `settings`, `reputation`, `queries`: the requests.
  - `guards`, `payouts`, `params`, `types`, `table`, `context`: what they are
    made of.
  - `bounds`: whether the numbers that a request makes are in range.
  - `lists`: the lists of the host, and all that is trusted of them. `numbers`:
    reading them.
  - `requests`, `soundness`, `history`, `laws`, `limits`, `solvency`, `sums`:
    what holds over several requests.
- `app/` is the contract around it: it reads the entries of a request from the
  host, has the market serve it, writes back what it leaves and carries out
  what it asks for.
- `tests/` runs the market, with real tokens behind it where tokens move.

## What is proved

- Each request does exactly what its `_step` function says, and fails exactly
  when that says so.
- A market is sound ever after, whatever is asked of it: pools are the sums of
  the stakes in them, liquidity is the sum of what the providers put in,
  statistics agree with the pools, relayers and quorum agree (`soundness`).
- Nothing is taken back: terms stay, amounts only grow, what is resolved, paid
  or decided stays so (`history`).
- What all winners are due together is at most what was staked and falls short
  of it by less than one unit per winner, nobody is paid twice, stakes on a
  cancelled challenge come back in full (`laws`).
- The market holds at least what it owes to stakers, disputers and liquidity
  providers and in fees, as long as no dispute is decided for the disputer and no
  rewards are claimed: nobody pays in the bonus of such a dispute, or the
  rewards (`solvency`).
- Limits hold: how often users act in an hour, how soon they withdraw, how long
  stakes vest. Pages of a list go on where they ended. Reward indices grow, and
  rewards are paid once (`limits`).

An address is a number here: the market only tells addresses apart. A market is
to be set up before its first challenge is created; setting it up starts the
numbers of the challenges over.
