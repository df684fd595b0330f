//! Staking: stake credits the snapshot ledger, unstake moves an amount from
//! the ledger into a claim released after the lock period, and withdraw
//! pays out the released claims.
use vstd::prelude::*;
use crate::keyed::{Entry, index_of, keys_unique, find, lemma_index_of_bounds,
    lemma_index_of_update, lemma_index_of_push};
use crate::ledger::{SnapshotLedger, insert_stake, remove_stake, get_total_staked_per_address_at};
use crate::claims::{Claim, Claims, released_part, locked_part, sum_amounts, all_locked,
    lemma_partition, lemma_locked_stays};
use crate::coin::{Coin, amount_of_denom};

verus! {

/// Settings of the staking ledger.
pub struct Config {
    /// Denomination that is staked.
    pub denom: String,
    /// Seconds between an unstake and the release of its claim.
    pub lock_period: u64,
}

/// Why a staking operation was refused.
#[derive(Debug, PartialEq, Eq, Structural, Clone, Copy)]
pub enum StakingError {
    /// No tokens of the staking denomination were attached.
    InsufficientFunds,
    /// The account holds less stake than it asked to unstake.
    InsufficientStake,
    /// An amount or a time would exceed its integer type.
    Overflow,
}

/// Claims of each account, by address.
pub open spec fn claims_of(s: Seq<Entry<Claims>>, a: Seq<char>) -> Seq<Claim> {
    let i = index_of(s, a);
    if i >= 0 {
        s[i].val.view()
    } else {
        Seq::empty()
    }
}

/// Staked balances, with their history, and pending claims.
pub struct Staking {
    pub config: Config,
    pub ledger: SnapshotLedger,
    pub claims: Vec<Entry<Claims>>,
}

/// The released amount and the claims that remain locked, of an account.
pub struct QueryClaimsResp {
    pub released: Claims,
    pub total_released: u128,
    pub locked: Claims,
    pub total_locked: u128,
    pub total: u128,
}

/// Sum of the funds attached in the staking denomination.
pub fn get_staking_amount_from_funds(denom: &String, funds: &Vec<Coin>) -> (r: Result<u128, StakingError>)
    ensures
        r.is_ok() <==> amount_of_denom(funds@, denom@) <= u128::MAX,
        r.is_ok() ==> r.unwrap() == amount_of_denom(funds@, denom@),
        r.is_err() ==> r == Err::<u128, StakingError>(StakingError::Overflow),
{
    let mut sum: u128 = 0;
    let mut i: usize = 0;
    while i < funds.len()
        invariant
            i <= funds@.len(),
            sum == amount_of_denom(funds@.subrange(0, i as int), denom@),
        decreases funds@.len() - i,
    {
        proof {
            assert(funds@.subrange(0, i + 1).drop_last() =~= funds@.subrange(0, i as int));
            lemma_amount_prefix_grows(funds@, i as int + 1, denom@);
        }
        if funds[i].denom == *denom {
            match sum.checked_add(funds[i].amount) {
                Some(v) => sum = v,
                None => return Err(StakingError::Overflow),
            }
        }
        i = i + 1;
    }
    proof {
        assert(funds@.subrange(0, i as int) =~= funds@);
    }
    Ok(sum)
}

proof fn lemma_amount_prefix_grows(s: Seq<Coin>, n: int, denom: Seq<char>)
    requires
        0 <= n <= s.len(),
    ensures
        amount_of_denom(s.subrange(0, n), denom) <= amount_of_denom(s, denom),
    decreases s.len() - n,
{
    if n < s.len() {
        lemma_amount_prefix_grows(s, n + 1, denom);
        assert(s.subrange(0, n + 1).drop_last() =~= s.subrange(0, n));
    } else {
        assert(s.subrange(0, n) =~= s);
    }
}

/// Nanoseconds in a second.
pub const NANOS_PER_SECOND: u64 = 1_000_000_000;

/// Release time, in nanoseconds, of a claim made at `now` (nanoseconds)
/// under a lock period of `lock_period` seconds.
pub open spec fn release_spec(lock_period: u64, now: u64) -> int {
    now + lock_period * NANOS_PER_SECOND
}

/// Release time of a claim made at `now`: `now` plus the lock period.
pub fn calculate_release_date(lock_period: u64, now: u64) -> (r: Result<u64, StakingError>)
    ensures
        r.is_ok() <==> release_spec(lock_period, now) <= u64::MAX,
        r.is_ok() ==> r.unwrap() == release_spec(lock_period, now),
        r.is_err() ==> r == Err::<u64, StakingError>(StakingError::Overflow),
{
    let span = match lock_period.checked_mul(NANOS_PER_SECOND) {
        Some(v) => v,
        None => return Err(StakingError::Overflow),
    };
    match now.checked_add(span) {
        Some(t) => Ok(t),
        None => Err(StakingError::Overflow),
    }
}

/// Appends a claim of `amount`, released at `release`, to the claims of
/// `address`.
pub fn add_claim(claims: &mut Vec<Entry<Claims>>, address: &String, amount: u128, release: u64)
    requires
        keys_unique(old(claims)@),
    ensures
        keys_unique(final(claims)@),
        forall|b: Seq<char>| #[trigger] claims_of(final(claims)@, b) == if b == address@ {
            claims_of(old(claims)@, b).push(Claim { amount, release })
        } else {
            claims_of(old(claims)@, b)
        },
{
    let c = Claim { amount, release };
    let ghost before = claims@;
    match find(claims, address) {
        Some(i) => {
            let mut e = claims.remove(i);
            e.val.add(c);
            claims.insert(i, e);
            proof {
                assert(claims@ =~= before.update(i as int, e));
                assert forall|b: Seq<char>| #[trigger] claims_of(claims@, b) == if b == address@ {
                    claims_of(before, b).push(c) } else { claims_of(before, b) } by {
                    lemma_index_of_update(before, i as int, e, b);
                    lemma_index_of_bounds(before, b);
                }
            }
        },
        None => {
            let mut v = Claims::new();
            v.add(c);
            put_claims(claims, address, v);
            proof {
                assert(v.view() =~= Seq::<Claim>::empty().push(c));
            }
        },
    }
}

/// Replaces the claims of `address` by `v`.
fn put_claims(claims: &mut Vec<Entry<Claims>>, address: &String, v: Claims)
    requires
        keys_unique(old(claims)@),
    ensures
        keys_unique(final(claims)@),
        forall|b: Seq<char>| #[trigger] claims_of(final(claims)@, b) == if b == address@ {
            v.view()
        } else {
            claims_of(old(claims)@, b)
        },
{
    let ghost before = claims@;
    let ghost vv = v.view();
    match find(claims, address) {
        Some(i) => {
            let e = Entry { key: address.clone(), val: v };
            claims.set(i, e);
            proof {
                assert forall|b: Seq<char>| #[trigger] claims_of(claims@, b) == if b == address@ {
                    vv } else { claims_of(before, b) } by {
                    lemma_index_of_update(before, i as int, e, b);
                    lemma_index_of_bounds(before, b);
                }
            }
        },
        None => {
            let e = Entry { key: address.clone(), val: v };
            claims.push(e);
            proof {
                lemma_index_of_bounds(before, address@);
                assert(claims@ =~= before.push(e));
                assert forall|b: Seq<char>| #[trigger] claims_of(claims@, b) == if b == address@ {
                    vv } else { claims_of(before, b) } by {
                    lemma_index_of_push(before, e, b);
                    assert(claims@[before.len() as int] == e);
                    if b != address@ {
                        lemma_index_of_bounds(before, b);
                        if index_of(before, b) >= 0 {
                            assert(claims@[index_of(before, b)] == before[index_of(before, b)]);
                        }
                    }
                }
            }
        },
    }
}

/// Splits the claims of `address` into those released at `now` and those
/// still locked. An account without claims has two empty parts.
pub fn get_partitioned_claims(claims: &Vec<Entry<Claims>>, address: &String, now: u64) -> (r: (
    Claims,
    Claims,
))
    ensures
        r.0.view() == released_part(claims_of(claims@, address@), now),
        r.1.view() == locked_part(claims_of(claims@, address@), now),
{
    match find(claims, address) {
        Some(i) => claims[i].val.partition(now),
        None => (Claims::new(), Claims::new()),
    }
}

/// Drops the claims of `address` released at `now`, keeps the locked ones,
/// and returns the released amount. Nothing changes where that amount
/// exceeds `u128`.
pub fn remove_released_claims(claims: &mut Vec<Entry<Claims>>, address: &String, now: u64) -> (r:
    Result<u128, StakingError>)
    requires
        keys_unique(old(claims)@),
    ensures
        keys_unique(final(claims)@),
        r.is_ok() <==> sum_amounts(released_part(claims_of(old(claims)@, address@), now))
            <= u128::MAX,
        r.is_ok() ==> r.unwrap() == sum_amounts(released_part(claims_of(old(claims)@, address@), now)),
        r.is_ok() ==> forall|b: Seq<char>| #[trigger] claims_of(final(claims)@, b) == if b == address@ {
            locked_part(claims_of(old(claims)@, b), now)
        } else {
            claims_of(old(claims)@, b)
        },
        r.is_err() ==> r == Err::<u128, StakingError>(StakingError::Overflow) && *final(claims) == *old(
            claims,
        ),
{
    let (rel, loc) = get_partitioned_claims(claims, address, now);
    match rel.total() {
        Some(t) => {
            put_claims(claims, address, loc);
            Ok(t)
        },
        None => Err(StakingError::Overflow),
    }
}

/// Withdrawing twice at the same time pays nothing the second time: after
/// the released claims are dropped, every claim left is locked, and a split
/// at that time leaves them all in place.
pub proof fn lemma_withdraw_leaves_only_locked(s: Seq<Claim>, now: u64)
    ensures
        all_locked(locked_part(s, now), now),
        locked_part(locked_part(s, now), now) == locked_part(s, now),
        sum_amounts(released_part(locked_part(s, now), now)) == 0,
        sum_amounts(released_part(s, now)) + sum_amounts(locked_part(s, now)) == sum_amounts(s),
{
    lemma_partition(s, now);
    lemma_locked_stays(locked_part(s, now), now);
}

impl Staking {
    /// The staking state's invariant.
    pub open spec fn wf(&self) -> bool {
        self.ledger.wf() && keys_unique(self.claims@)
    }

    pub open spec fn claims_spec(&self, a: Seq<char>) -> Seq<Claim> {
        claims_of(self.claims@, a)
    }

    pub fn new(config: Config) -> (r: Staking)
        ensures
            r.wf(),
            r.config == config,
            r.ledger.latest_height == 0,
            forall|a: Seq<char>, h: u64| r.ledger.balance_at_spec(a, h) == 0,
            forall|h: u64| r.ledger.total_at_spec(h) == 0,
            forall|a: Seq<char>| r.claims_spec(a).len() == 0,
    {
        Staking { config, ledger: SnapshotLedger::new(), claims: Vec::new() }
    }

    /// Stakes the funds of the staking denomination attached by `sender`,
    /// recorded at `height`.
    pub fn execute_stake(&mut self, sender: &String, funds: &Vec<Coin>, height: u64) -> (r: Result<
        (),
        StakingError,
    >)
        requires
            old(self).wf(),
            old(self).ledger.latest_height <= height,
        ensures
            final(self).wf(),
            ({
                let amt = amount_of_denom(funds@, old(self).config.denom@);
                &&& r.is_ok() <==> 0 < amt && old(self).ledger.balance_spec(sender@) + amt <= u128::MAX
                    && old(self).ledger.total_spec() + amt <= u128::MAX
                &&& r == Err::<(), StakingError>(StakingError::InsufficientFunds) <==> amt == 0
                &&& r.is_err() ==> *final(self) == *old(self)
                &&& r.is_ok() ==> forall|b: Seq<char>, x: u64| #[trigger]
                    final(self).ledger.balance_at_spec(b, x) == if b == sender@ && x >= height {
                        (old(self).ledger.balance_spec(sender@) + amt) as nat
                    } else {
                        old(self).ledger.balance_at_spec(b, x)
                    }
                &&& r.is_ok() ==> forall|x: u64| #[trigger] final(self).ledger.total_at_spec(x) == if x
                    >= height {
                    (old(self).ledger.total_spec() + amt) as nat
                } else {
                    old(self).ledger.total_at_spec(x)
                }
                &&& r.is_ok() ==> final(self).ledger.latest_height == height
            }),
            final(self).claims@ == old(self).claims@,
            final(self).config == old(self).config,
    {
        let amount = match get_staking_amount_from_funds(&self.config.denom, funds) {
            Ok(a) => a,
            Err(e) => return Err(e),
        };
        if amount == 0 {
            return Err(StakingError::InsufficientFunds);
        }
        match insert_stake(&mut self.ledger, sender, amount, height) {
            Ok(()) => Ok(()),
            Err(_) => Err(StakingError::Overflow),
        }
    }

    /// Unstakes `amount` of `sender` at `height` and queues it as a claim
    /// released at `now` (nanoseconds) plus the lock period.
    pub fn execute_unstake(&mut self, sender: &String, amount: u128, height: u64, now: u64) -> (r:
        Result<(), StakingError>)
        requires
            old(self).wf(),
            old(self).ledger.latest_height <= height,
        ensures
            final(self).wf(),
            r.is_ok() <==> release_spec(old(self).config.lock_period, now) <= u64::MAX && amount
                <= old(self).ledger.balance_spec(sender@) && amount <= old(self).ledger.total_spec(),
            r == Err::<(), StakingError>(StakingError::Overflow) <==> release_spec(
                old(self).config.lock_period,
                now,
            ) > u64::MAX,
            r.is_err() ==> *final(self) == *old(self),
            r.is_ok() ==> forall|b: Seq<char>, x: u64| #[trigger]
                final(self).ledger.balance_at_spec(b, x) == if b == sender@ && x >= height {
                    (old(self).ledger.balance_spec(sender@) - amount) as nat
                } else {
                    old(self).ledger.balance_at_spec(b, x)
                },
            r.is_ok() ==> forall|x: u64| #[trigger] final(self).ledger.total_at_spec(x) == if x
                >= height {
                (old(self).ledger.total_spec() - amount) as nat
            } else {
                old(self).ledger.total_at_spec(x)
            },
            r.is_ok() ==> final(self).ledger.latest_height == height,
            r.is_ok() ==> forall|b: Seq<char>| #[trigger] final(self).claims_spec(b) == if b == sender@ {
                old(self).claims_spec(b).push(
                    Claim { amount, release: release_spec(old(self).config.lock_period, now) as u64 },
                )
            } else {
                old(self).claims_spec(b)
            },
            final(self).config == old(self).config,
    {
        let release = match calculate_release_date(self.config.lock_period, now) {
            Ok(t) => t,
            Err(e) => return Err(e),
        };
        match remove_stake(&mut self.ledger, sender, amount, height) {
            Ok(()) => {},
            Err(_) => return Err(StakingError::InsufficientStake),
        }
        add_claim(&mut self.claims, sender, amount, release);
        Ok(())
    }

    /// Pays out to `sender` the claims released at `now` and keeps the
    /// locked ones. With nothing released it pays zero.
    pub fn execute_withdraw(&mut self, sender: &String, now: u64) -> (r: Result<Coin, StakingError>)
        requires
            old(self).wf(),
        ensures
            final(self).wf(),
            final(self).ledger == old(self).ledger,
            final(self).config == old(self).config,
            r.is_ok() <==> sum_amounts(released_part(old(self).claims_spec(sender@), now))
                <= u128::MAX,
            r.is_ok() ==> r.unwrap().denom@ == old(self).config.denom@ && r.unwrap().amount
                == sum_amounts(released_part(old(self).claims_spec(sender@), now)),
            r.is_ok() ==> forall|b: Seq<char>| #[trigger] final(self).claims_spec(b) == if b == sender@ {
                locked_part(old(self).claims_spec(b), now)
            } else {
                old(self).claims_spec(b)
            },
            r.is_ok() ==> all_locked(final(self).claims_spec(sender@), now),
            r.is_err() ==> *final(self) == *old(self),
    {
        let ghost before = self.claims_spec(sender@);
        let amount = match remove_released_claims(&mut self.claims, sender, now) {
            Ok(a) => a,
            Err(e) => return Err(e),
        };
        proof {
            lemma_partition(before, now);
        }
        Ok(Coin { denom: self.config.denom.clone(), amount })
    }

    /// Released and locked claims of `address` at `now`, with their sums.
    pub fn query_claims(&self, address: &String, now: u64) -> (r: Result<QueryClaimsResp, StakingError>)
        ensures
            ({
                let s = self.claims_spec(address@);
                &&& r.is_ok() <==> sum_amounts(s) <= u128::MAX
                &&& r.is_ok() ==> ({
                    let q = r.unwrap();
                    &&& q.released.view() == released_part(s, now)
                    &&& q.locked.view() == locked_part(s, now)
                    &&& q.total_released == sum_amounts(released_part(s, now))
                    &&& q.total_locked == sum_amounts(locked_part(s, now))
                    &&& q.total == sum_amounts(s)
                })
            }),
    {
        let (released, locked) = get_partitioned_claims(&self.claims, address, now);
        proof {
            lemma_partition(self.claims_spec(address@), now);
        }
        let total_locked = match locked.total() {
            Some(t) => t,
            None => return Err(StakingError::Overflow),
        };
        let total_released = match released.total() {
            Some(t) => t,
            None => return Err(StakingError::Overflow),
        };
        let total = match total_locked.checked_add(total_released) {
            Some(t) => t,
            None => return Err(StakingError::Overflow),
        };
        Ok(QueryClaimsResp { released, total_released, locked, total_locked, total })
    }

    /// Current stake of `address`.
    pub fn query_staked_per_address(&self, address: &String) -> (r: u128)
        ensures
            r == self.ledger.balance_spec(address@),
    {
        self.ledger.balance(address)
    }

    /// Stake of `address` as of `height`.
    pub fn query_staked_at_per_address(&self, address: &String, height: u64) -> (r: u128)
        ensures
            r == self.ledger.balance_at_spec(address@, height),
    {
        get_total_staked_per_address_at(&self.ledger, address, height)
    }

    /// Current aggregate stake.
    pub fn query_total_staked(&self) -> (r: u128)
        ensures
            r == self.ledger.total_spec(),
    {
        self.ledger.total()
    }

    /// Aggregate stake as of `height`.
    pub fn query_total_staked_at(&self, height: u64) -> (r: u128)
        ensures
            r == self.ledger.total_at_spec(height),
    {
        self.ledger.total_at(height)
    }
}

/// The denomination that is staked.
pub fn get_staking_denom(config: &Config) -> (r: String)
    ensures
        r == config.denom,
{
    config.denom.clone()
}

/// Seconds between an unstake and the release of its claim.
pub fn get_lock_period(config: &Config) -> (r: u64)
    ensures
        r == config.lock_period,
{
    config.lock_period
}

} // verus!
