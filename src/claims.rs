//! Pending unlocks: amounts that become withdrawable at a release time.
use vstd::prelude::*;

verus! {

/// An amount that may be withdrawn from `release` (nanoseconds) on.
#[derive(Debug, PartialEq, Eq, Structural, Clone, Copy)]
pub struct Claim {
    pub amount: u128,
    pub release: u64,
}

/// A claim is released once `now` has reached its release time.
pub open spec fn released(c: Claim, now: u64) -> bool {
    now >= c.release
}

/// Sum of the amounts of a list of claims.
pub open spec fn sum_amounts(s: Seq<Claim>) -> nat
    decreases s.len(),
{
    if s.len() == 0 {
        0
    } else {
        sum_amounts(s.drop_last()) + s.last().amount as nat
    }
}

/// The claims of `s` released at `now`, in their order.
pub open spec fn released_part(s: Seq<Claim>, now: u64) -> Seq<Claim>
    decreases s.len(),
{
    if s.len() == 0 {
        s
    } else if released(s.last(), now) {
        released_part(s.drop_last(), now).push(s.last())
    } else {
        released_part(s.drop_last(), now)
    }
}

/// The claims of `s` still locked at `now`, in their order.
pub open spec fn locked_part(s: Seq<Claim>, now: u64) -> Seq<Claim>
    decreases s.len(),
{
    if s.len() == 0 {
        s
    } else if !released(s.last(), now) {
        locked_part(s.drop_last(), now).push(s.last())
    } else {
        locked_part(s.drop_last(), now)
    }
}

/// Every claim of `s` is released at `now`.
pub open spec fn all_released(s: Seq<Claim>, now: u64) -> bool {
    forall|i: int| 0 <= i < s.len() ==> released(#[trigger] s[i], now)
}

/// Every claim of `s` is locked at `now`.
pub open spec fn all_locked(s: Seq<Claim>, now: u64) -> bool {
    forall|i: int| 0 <= i < s.len() ==> !released(#[trigger] s[i], now)
}

/// The parts split off by `now` hold only released, and only locked, claims,
/// and together they hold the whole amount.
pub proof fn lemma_partition(s: Seq<Claim>, now: u64)
    ensures
        all_released(released_part(s, now), now),
        all_locked(locked_part(s, now), now),
        sum_amounts(released_part(s, now)) + sum_amounts(locked_part(s, now)) == sum_amounts(s),
        released_part(s, now).len() + locked_part(s, now).len() == s.len(),
    decreases s.len(),
{
    if s.len() > 0 {
        lemma_partition(s.drop_last(), now);
        let r = released_part(s.drop_last(), now);
        let l = locked_part(s.drop_last(), now);
        assert(r.push(s.last()).drop_last() =~= r);
        assert(l.push(s.last()).drop_last() =~= l);
        assert forall|i: int| 0 <= i < r.len() implies r.push(s.last())[i] == r[i] by {}
        assert forall|i: int| 0 <= i < l.len() implies l.push(s.last())[i] == l[i] by {}
    }
}

/// Splitting claims that are all locked leaves them where they are.
pub proof fn lemma_locked_stays(s: Seq<Claim>, now: u64)
    requires
        all_locked(s, now),
    ensures
        locked_part(s, now) == s,
        released_part(s, now).len() == 0,
    decreases s.len(),
{
    if s.len() > 0 {
        assert(all_locked(s.drop_last(), now)) by {
            assert forall|i: int| 0 <= i < s.len() - 1 implies !released(#[trigger] s.drop_last()[i], now) by {
                assert(s.drop_last()[i] == s[i]);
            }
        }
        lemma_locked_stays(s.drop_last(), now);
        assert(!released(s[s.len() - 1], now));
        assert(s.drop_last().push(s.last()) =~= s);
    }
}

impl Claim {
    pub fn is_released(&self, now: u64) -> (r: bool)
        ensures
            r == released(*self, now),
    {
        now >= self.release
    }
}

/// The claims of one account.
pub struct Claims(pub Vec<Claim>);

impl Claims {
    pub open spec fn view(&self) -> Seq<Claim> {
        self.0@
    }

    pub fn new() -> (r: Claims)
        ensures
            r.view().len() == 0,
    {
        Claims(Vec::new())
    }

    /// Sum of the amounts, or `None` where it exceeds `u128`.
    pub fn total(&self) -> (r: Option<u128>)
        ensures
            r.is_some() <==> sum_amounts(self.view()) <= u128::MAX,
            r.is_some() ==> r.unwrap() == sum_amounts(self.view()),
    {
        let mut sum: u128 = 0;
        let mut i: usize = 0;
        while i < self.0.len()
            invariant
                i <= self.0@.len(),
                sum == sum_amounts(self.0@.subrange(0, i as int)),
            decreases self.0@.len() - i,
        {
            proof {
                assert(self.0@.subrange(0, i + 1).drop_last() =~= self.0@.subrange(0, i as int));
                lemma_sum_prefix_grows(self.0@, i as int + 1);
            }
            match sum.checked_add(self.0[i].amount) {
                Some(v) => sum = v,
                None => {
                    return None;
                },
            }
            i = i + 1;
        }
        proof {
            assert(self.0@.subrange(0, i as int) =~= self.0@);
        }
        Some(sum)
    }

    /// Appends a claim.
    pub fn add(&mut self, other: Claim)
        ensures
            final(self).view() == old(self).view().push(other),
    {
        self.0.push(other);
    }

    /// Splits into the claims released at `now` and those still locked,
    /// each keeping the order of the claims.
    pub fn partition(&self, now: u64) -> (r: (Claims, Claims))
        ensures
            r.0.view() == released_part(self.view(), now),
            r.1.view() == locked_part(self.view(), now),
    {
        let mut rel: Vec<Claim> = Vec::new();
        let mut loc: Vec<Claim> = Vec::new();
        let mut i: usize = 0;
        while i < self.0.len()
            invariant
                i <= self.0@.len(),
                rel@ == released_part(self.0@.subrange(0, i as int), now),
                loc@ == locked_part(self.0@.subrange(0, i as int), now),
            decreases self.0@.len() - i,
        {
            proof {
                assert(self.0@.subrange(0, i + 1).drop_last() =~= self.0@.subrange(0, i as int));
            }
            let c = self.0[i];
            if c.is_released(now) {
                rel.push(c);
            } else {
                loc.push(c);
            }
            i = i + 1;
        }
        proof {
            assert(self.0@.subrange(0, i as int) =~= self.0@);
        }
        (Claims(rel), Claims(loc))
    }
}

/// The sum over a prefix never exceeds the sum over a longer prefix.
proof fn lemma_sum_prefix_grows(s: Seq<Claim>, n: int)
    requires
        0 <= n <= s.len(),
    ensures
        sum_amounts(s.subrange(0, n)) <= sum_amounts(s),
    decreases s.len() - n,
{
    if n < s.len() {
        lemma_sum_prefix_grows(s, n + 1);
        assert(s.subrange(0, n + 1).drop_last() =~= s.subrange(0, n));
    } else {
        assert(s.subrange(0, n) =~= s);
    }
}

} // verus!
