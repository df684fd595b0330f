//! Snapshot ledger: per-account staked balances, and their aggregate, with
//! the full history of values by block height.
use vstd::prelude::*;
use crate::keyed::{Entry, index_of, keys_unique, find, lemma_index_of_bounds,
    lemma_index_of_unique, lemma_index_of_update, lemma_index_of_push};

verus! {

/// A history is a log of `(height, value)` points, latest last.
pub type History = Vec<(u64, u128)>;

/// The value of a history at `h`: that of the latest point at or before
/// `h`, or zero where there is none.
pub open spec fn value_at(s: Seq<(u64, u128)>, h: u64) -> nat
    decreases s.len(),
{
    if s.len() == 0 {
        0
    } else if s.last().0 <= h {
        s.last().1 as nat
    } else {
        value_at(s.drop_last(), h)
    }
}

/// The value recorded last, whatever its height.
pub open spec fn latest_value(s: Seq<(u64, u128)>) -> nat {
    if s.len() == 0 {
        0
    } else {
        s.last().1 as nat
    }
}

/// Every point of the history lies at or before `h`.
pub open spec fn points_until(s: Seq<(u64, u128)>, h: u64) -> bool {
    forall|i: int| 0 <= i < s.len() ==> #[trigger] s[i].0 <= h
}

/// The history of account `a` within a list of accounts (empty if absent).
pub open spec fn history_of(accts: Seq<Entry<History>>, a: Seq<char>) -> Seq<(u64, u128)> {
    let i = index_of(accts, a);
    if i >= 0 {
        accts[i].val@
    } else {
        Seq::empty()
    }
}

/// Sum over the accounts listed of their balance at `h`.
pub open spec fn sum_at(accts: Seq<Entry<History>>, h: u64) -> nat
    decreases accts.len(),
{
    if accts.len() == 0 {
        0
    } else {
        sum_at(accts.drop_last(), h) + value_at(accts.last().val@, h)
    }
}

proof fn lemma_value_at_latest(s: Seq<(u64, u128)>, bound: u64, h: u64)
    requires
        points_until(s, bound),
        bound <= h,
    ensures
        value_at(s, h) == latest_value(s),
{
    if s.len() > 0 {
        assert(s[s.len() - 1].0 <= bound);
    }
}

proof fn lemma_sum_at_update(accts: Seq<Entry<History>>, i: int, e: Entry<History>, h: u64)
    requires
        0 <= i < accts.len(),
    ensures
        sum_at(accts.update(i, e), h) + value_at(accts[i].val@, h)
            == sum_at(accts, h) + value_at(e.val@, h),
    decreases accts.len(),
{
    let t = accts.update(i, e);
    if i < accts.len() - 1 {
        assert(t.drop_last() =~= accts.drop_last().update(i, e));
        lemma_sum_at_update(accts.drop_last(), i, e, h);
    } else {
        assert(t.drop_last() =~= accts.drop_last());
    }
}

/// Records `value` at height `h`: it overwrites a point already at `h`,
/// and is appended otherwise.
fn record(hist: &mut History, h: u64, value: u128)
    ensures
        forall|x: u64| #[trigger] value_at(final(hist)@, x) == if x >= h {
            value as nat
        } else {
            value_at(old(hist)@, x)
        },
        latest_value(final(hist)@) == value,
        forall|b: u64| points_until(old(hist)@, b) && h <= b ==> points_until(final(hist)@, b),
{
    let n = hist.len();
    if n > 0 && hist[n - 1].0 == h {
        hist.set(n - 1, (h, value));
        assert(final(hist)@.drop_last() =~= old(hist)@.drop_last());
    } else {
        hist.push((h, value));
        assert(final(hist)@.drop_last() =~= old(hist)@);
    }
}

/// Why a ledger change was refused.
#[derive(Debug, PartialEq, Eq, Structural, Clone, Copy)]
pub enum LedgerError {
    /// The new balance of the account or of the aggregate would exceed `u128`.
    Overflow,
    /// The account, or the aggregate, holds less than the amount to remove.
    Underflow,
}

/// Staked balances by account and in aggregate, with their history.
pub struct SnapshotLedger {
    pub accounts: Vec<Entry<History>>,
    pub total: History,
    /// The greatest height at which a change was recorded.
    pub latest_height: u64,
}

impl SnapshotLedger {
    /// The ledger's invariant: accounts are listed once, no point lies
    /// after `latest_height`, and the aggregate is the sum of the accounts
    /// at every height.
    pub open spec fn wf(&self) -> bool {
        &&& keys_unique(self.accounts@)
        &&& points_until(self.total@, self.latest_height)
        &&& forall|i: int| 0 <= i < self.accounts@.len()
            ==> points_until(#[trigger] self.accounts@[i].val@, self.latest_height)
        &&& forall|h: u64| #[trigger] value_at(self.total@, h) == sum_at(self.accounts@, h)
    }

    /// Balance of account `a` at height `h`.
    pub open spec fn balance_at_spec(&self, a: Seq<char>, h: u64) -> nat {
        value_at(history_of(self.accounts@, a), h)
    }

    /// Aggregate staked at height `h`.
    pub open spec fn total_at_spec(&self, h: u64) -> nat {
        value_at(self.total@, h)
    }

    /// Current balance of account `a`.
    pub open spec fn balance_spec(&self, a: Seq<char>) -> nat {
        latest_value(history_of(self.accounts@, a))
    }

    /// Current aggregate.
    pub open spec fn total_spec(&self) -> nat {
        latest_value(self.total@)
    }

    /// Sum over all accounts with a history of their balance at `h`.
    pub open spec fn sum_of_balances(&self, h: u64) -> nat {
        sum_at(self.accounts@, h)
    }

    pub fn new() -> (r: SnapshotLedger)
        ensures
            r.wf(),
            r.latest_height == 0,
            forall|a: Seq<char>, h: u64| r.balance_at_spec(a, h) == 0,
            forall|h: u64| r.total_at_spec(h) == 0,
    {
        SnapshotLedger { accounts: Vec::new(), total: Vec::new(), latest_height: 0 }
    }

    /// Balance of `a` at height `h`: the latest value recorded at or
    /// before `h`, zero if none.
    pub fn balance_at(&self, a: &String, h: u64) -> (r: u128)
        ensures
            r == self.balance_at_spec(a@, h),
    {
        match find(&self.accounts, a) {
            Some(i) => lookup(&self.accounts[i].val, h),
            None => 0,
        }
    }

    /// Aggregate at height `h`.
    pub fn total_at(&self, h: u64) -> (r: u128)
        ensures
            r == self.total_at_spec(h),
    {
        lookup(&self.total, h)
    }

    /// Current balance of `a`.
    pub fn balance(&self, a: &String) -> (r: u128)
        ensures
            r == self.balance_spec(a@),
    {
        match find(&self.accounts, a) {
            Some(i) => {
                let n = self.accounts[i].val.len();
                if n == 0 { 0 } else { self.accounts[i].val[n - 1].1 }
            },
            None => 0,
        }
    }

    /// Current aggregate.
    pub fn total(&self) -> (r: u128)
        ensures
            r == self.total_spec(),
    {
        let n = self.total.len();
        if n == 0 { 0 } else { self.total[n - 1].1 }
    }
}

impl SnapshotLedger {
    /// Sets the current balance of `a` to `bal` and the aggregate to
    /// `tot`, recording both at height `h`.
    fn apply(&mut self, a: &String, h: u64, bal: u128, tot: u128)
        requires
            old(self).wf(),
            old(self).latest_height <= h,
            tot + old(self).balance_spec(a@) == old(self).total_spec() + bal,
        ensures
            final(self).wf(),
            final(self).latest_height == h,
            forall|b: Seq<char>, x: u64| #[trigger] final(self).balance_at_spec(b, x) == if b == a@
                && x >= h {
                bal as nat
            } else {
                old(self).balance_at_spec(b, x)
            },
            forall|x: u64| #[trigger] final(self).total_at_spec(x) == if x >= h {
                tot as nat
            } else {
                old(self).total_at_spec(x)
            },
            forall|b: Seq<char>| #[trigger] final(self).balance_spec(b) == if b == a@ {
                bal as nat
            } else {
                old(self).balance_spec(b)
            },
            final(self).total_spec() == tot,
    {
        let ghost old_accts = self.accounts@;
        let ghost old_total = self.total@;
        let ghost lh = self.latest_height;
        record(&mut self.total, h, tot);
        self.latest_height = h;
        match find(&self.accounts, a) {
            Some(i) => {
                let mut e = self.accounts.remove(i);
                let ghost old_hist = e.val@;
                record(&mut e.val, h, bal);
                self.accounts.insert(i, e);
                proof {
                    assert(self.accounts@ =~= old_accts.update(i as int, e));
                    assert(old_accts[i as int].val@ == old_hist);
                    assert(points_until(old_hist, lh));
                    assert forall|b: Seq<char>| #[trigger] index_of(self.accounts@, b) == index_of(old_accts, b) by {
                        lemma_index_of_update(old_accts, i as int, e, b);
                    }
                    assert forall|x: u64| #[trigger] value_at(self.total@, x) == sum_at(self.accounts@, x) by {
                        lemma_sum_at_update(old_accts, i as int, e, x);
                        if x >= h {
                            lemma_value_at_latest(old_hist, lh, x);
                            lemma_value_at_latest(old_total, lh, x);
                        }
                    }
                    assert forall|j: int| 0 <= j < self.accounts@.len()
                        implies points_until(#[trigger] self.accounts@[j].val@, h) by {
                        if j != i {
                            assert(points_until(old_accts[j].val@, lh));
                        }
                    }
                    assert forall|b: Seq<char>, x: u64| #[trigger] self.balance_at_spec(b, x) == if b == a@
                        && x >= h { bal as nat } else { old(self).balance_at_spec(b, x) } by {
                        lemma_index_of_bounds(old_accts, b);
                    }
                    assert forall|b: Seq<char>| #[trigger] self.balance_spec(b) == if b == a@ {
                        bal as nat } else { old(self).balance_spec(b) } by {
                        lemma_index_of_bounds(old_accts, b);
                    }
                }
            },
            None => {
                let mut hist: History = Vec::new();
                let ghost empty = hist@;
                record(&mut hist, h, bal);
                let e = Entry { key: a.clone(), val: hist };
                self.accounts.push(e);
                proof {
                    assert(self.accounts@ =~= old_accts.push(e));
                    assert(self.accounts@.drop_last() =~= old_accts);
                    lemma_index_of_bounds(old_accts, a@);
                    assert forall|b: Seq<char>| #[trigger] index_of(self.accounts@, b) == if e.key@ == b {
                        old_accts.len() as int
                    } else {
                        index_of(old_accts, b)
                    } by {
                        lemma_index_of_push(old_accts, e, b);
                    }
                    assert forall|x: u64| #[trigger] value_at(self.total@, x) == sum_at(self.accounts@, x) by {
                        if x >= h {
                            lemma_value_at_latest(old_total, lh, x);
                        }
                    }
                    assert forall|j: int| 0 <= j < self.accounts@.len()
                        implies points_until(#[trigger] self.accounts@[j].val@, h) by {
                        if j < old_accts.len() {
                            assert(points_until(old_accts[j].val@, lh));
                        }
                    }
                    assert(empty.len() == 0);
                    assert forall|b: Seq<char>, x: u64| #[trigger] self.balance_at_spec(b, x) == if b == a@
                        && x >= h { bal as nat } else { old(self).balance_at_spec(b, x) } by {
                        lemma_index_of_bounds(old_accts, b);
                    }
                    assert forall|b: Seq<char>| #[trigger] self.balance_spec(b) == if b == a@ {
                        bal as nat } else { old(self).balance_spec(b) } by {
                        lemma_index_of_bounds(old_accts, b);
                    }
                }
            },
        }
    }
}

/// Value of a history at `h`, searching from the latest point back.
fn lookup(hist: &History, h: u64) -> (r: u128)
    ensures
        r == value_at(hist@, h),
{
    let mut n: usize = hist.len();
    proof {
        assert(hist@.subrange(0, n as int) =~= hist@);
    }
    while n > 0
        invariant
            n <= hist.len(),
            value_at(hist@, h) == value_at(hist@.subrange(0, n as int), h),
        decreases n,
    {
        proof {
            assert(hist@.subrange(0, n as int).drop_last() =~= hist@.subrange(0, n - 1));
        }
        if hist[n - 1].0 <= h {
            return hist[n - 1].1;
        }
        n = n - 1;
    }
    proof {
        assert(hist@.subrange(0, 0) =~= Seq::<(u64, u128)>::empty());
    }
    0
}

} // verus!

verus! {

/// Adds `amount` to the stake of `address` and to the aggregate, recorded
/// at `height`. Heights before `height` keep their values.
pub fn insert_stake(ledger: &mut SnapshotLedger, address: &String, amount: u128, height: u64) -> (r:
    Result<(), LedgerError>)
    requires
        old(ledger).wf(),
        old(ledger).latest_height <= height,
    ensures
        final(ledger).wf(),
        r.is_ok() <==> old(ledger).balance_spec(address@) + amount <= u128::MAX
            && old(ledger).total_spec() + amount <= u128::MAX,
        r.is_err() ==> r == Err::<(), LedgerError>(LedgerError::Overflow) && *final(ledger) == *old(
            ledger,
        ),
        r.is_ok() ==> final(ledger).latest_height == height,
        r.is_ok() ==> forall|b: Seq<char>, x: u64| #[trigger]
            final(ledger).balance_at_spec(b, x) == if b == address@ && x >= height {
                (old(ledger).balance_spec(address@) + amount) as nat
            } else {
                old(ledger).balance_at_spec(b, x)
            },
        r.is_ok() ==> forall|x: u64| #[trigger] final(ledger).total_at_spec(x) == if x >= height {
            (old(ledger).total_spec() + amount) as nat
        } else {
            old(ledger).total_at_spec(x)
        },
        r.is_ok() ==> final(ledger).balance_spec(address@) == old(ledger).balance_spec(address@)
            + amount,
        r.is_ok() ==> final(ledger).total_spec() == old(ledger).total_spec() + amount,
{
    let stake = ledger.balance(address);
    let total = ledger.total();
    let new_stake = match stake.checked_add(amount) {
        Some(v) => v,
        None => return Err(LedgerError::Overflow),
    };
    let new_total = match total.checked_add(amount) {
        Some(v) => v,
        None => return Err(LedgerError::Overflow),
    };
    ledger.apply(address, height, new_stake, new_total);
    Ok(())
}

/// Takes `amount` from the stake of `address` and from the aggregate,
/// recorded at `height`. Heights before `height` keep their values.
pub fn remove_stake(ledger: &mut SnapshotLedger, address: &String, amount: u128, height: u64) -> (r:
    Result<(), LedgerError>)
    requires
        old(ledger).wf(),
        old(ledger).latest_height <= height,
    ensures
        final(ledger).wf(),
        r.is_ok() <==> amount <= old(ledger).balance_spec(address@) && amount <= old(
            ledger,
        ).total_spec(),
        r.is_err() ==> r == Err::<(), LedgerError>(LedgerError::Underflow) && *final(ledger) == *old(
            ledger,
        ),
        r.is_ok() ==> final(ledger).latest_height == height,
        r.is_ok() ==> forall|b: Seq<char>, x: u64| #[trigger]
            final(ledger).balance_at_spec(b, x) == if b == address@ && x >= height {
                (old(ledger).balance_spec(address@) - amount) as nat
            } else {
                old(ledger).balance_at_spec(b, x)
            },
        r.is_ok() ==> forall|x: u64| #[trigger] final(ledger).total_at_spec(x) == if x >= height {
            (old(ledger).total_spec() - amount) as nat
        } else {
            old(ledger).total_at_spec(x)
        },
        r.is_ok() ==> final(ledger).balance_spec(address@) == old(ledger).balance_spec(address@)
            - amount,
        r.is_ok() ==> final(ledger).total_spec() == old(ledger).total_spec() - amount,
{
    let stake = ledger.balance(address);
    let total = ledger.total();
    let new_stake = match stake.checked_sub(amount) {
        Some(v) => v,
        None => return Err(LedgerError::Underflow),
    };
    let new_total = match total.checked_sub(amount) {
        Some(v) => v,
        None => return Err(LedgerError::Underflow),
    };
    ledger.apply(address, height, new_stake, new_total);
    Ok(())
}

/// Stake of `address` as of `height`: the value of its latest change at or
/// before `height`, zero if there is none.
pub fn get_total_staked_per_address_at(ledger: &SnapshotLedger, address: &String, height: u64) -> (r:
    u128)
    ensures
        r == ledger.balance_at_spec(address@, height),
{
    ledger.balance_at(address, height)
}

/// At every height, the aggregate equals the sum of the balances of all
/// accounts that have a history, each counted once.
pub proof fn lemma_total_is_sum_of_balances(ledger: &SnapshotLedger, h: u64)
    requires
        ledger.wf(),
    ensures
        ledger.total_at_spec(h) == ledger.sum_of_balances(h),
        forall|i: int| 0 <= i < ledger.accounts@.len() ==> #[trigger] history_of(ledger.accounts@, ledger.accounts@[i].key@)
            == ledger.accounts@[i].val@,
{
    assert forall|i: int| 0 <= i < ledger.accounts@.len() implies #[trigger] history_of(ledger.accounts@, ledger.accounts@[i].key@)
        == ledger.accounts@[i].val@ by {
        lemma_index_of_unique(ledger.accounts@, i);
    }
}

} // verus!
