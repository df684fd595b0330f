//! The proposal state machine: submission against a deposit, voting with
//! power pinned to the block before the proposal, resolution by quorum and
//! threshold, delayed execution, expiry and removal.
use vstd::prelude::*;
use crate::coin::Coin;
use crate::config::{Config, UpdateConfig, GovError, parse_update};
use vstd::arithmetic::div_mod::{lemma_div_is_ordered, lemma_div_by_multiple};
use crate::decimal::{DECIMAL_FRACTIONAL, ratio_spec, ratio_atomics, decimal_atomics, parse_decimal};
use crate::ledger::SnapshotLedger;
use crate::proposal::{Proposal, ProposalStatus, ProposalVoteOption, ProposalVotesResponse,
    text_error, opt_view, listed, validate_text, ProposalListResponse};

verus! {

/// Settings given when the governance is set up; quorum and threshold are
/// decimal texts.
pub struct InstantiateMsg {
    pub staking_addr: String,
    pub vesting_addr: String,
    pub gov_token_denom: String,
    pub proposal_voting_period: u64,
    pub proposal_effective_delay: u64,
    pub proposal_expiration_period: u64,
    pub proposal_required_deposit: u128,
    pub proposal_required_quorum: String,
    pub proposal_required_threshold: String,
}

/// A transfer of `amount` to `to_address`.
pub struct BankSend {
    pub to_address: String,
    pub amount: Coin,
}

/// Position of the last proposal with id `id`, or -1.
pub open spec fn pindex<M>(s: Seq<Proposal<M>>, id: u64) -> int
    decreases s.len(),
{
    if s.len() == 0 {
        -1
    } else if s.last().proposal_id == id {
        s.len() - 1
    } else {
        pindex(s.drop_last(), id)
    }
}

proof fn lemma_pindex_bounds<M>(s: Seq<Proposal<M>>, id: u64)
    ensures
        -1 <= pindex(s, id) < s.len(),
        pindex(s, id) >= 0 ==> s[pindex(s, id)].proposal_id == id,
    decreases s.len(),
{
    if s.len() > 0 {
        lemma_pindex_bounds(s.drop_last(), id);
    }
}

fn find_proposal<M>(v: &Vec<Proposal<M>>, id: u64) -> (r: Option<usize>)
    ensures
        match r {
            Some(i) => i < v@.len() && i as int == pindex(v@, id),
            None => pindex(v@, id) == -1,
        },
{
    let mut n: usize = v.len();
    proof {
        assert(v@.subrange(0, n as int) =~= v@);
    }
    while n > 0
        invariant
            n <= v.len(),
            pindex(v@, id) == pindex(v@.subrange(0, n as int), id),
        decreases n,
    {
        proof {
            assert(v@.subrange(0, n as int).drop_last() =~= v@.subrange(0, n - 1));
        }
        if v[n - 1].proposal_id == id {
            return Some(n - 1);
        }
        n = n - 1;
    }
    None
}

/// The first reason a submission is refused, in the order checked.
pub open spec fn submit_error(
    cfg: Config,
    count: u64,
    funds: Seq<Coin>,
    height: u64,
    title: Seq<char>,
    description: Seq<char>,
    link: Option<Seq<char>>,
) -> Option<GovError> {
    if funds.len() != 1 {
        Some(GovError::WrongFundsCount)
    } else if funds[0].denom@ != cfg.gov_token_denom@ {
        Some(GovError::WrongDenom)
    } else if funds[0].amount < cfg.proposal_required_deposit {
        Some(GovError::InsufficientDeposit)
    } else if count == u64::MAX {
        Some(GovError::Overflow)
    } else if height + cfg.proposal_voting_period + cfg.proposal_effective_delay
        + cfg.proposal_expiration_period > u64::MAX {
        Some(GovError::Overflow)
    } else {
        text_error(title, description, link)
    }
}

/// The first reason a vote of `power` by `voter` at `height` is refused.
pub open spec fn vote_error<M>(
    p: Proposal<M>,
    voter: Seq<char>,
    option: ProposalVoteOption,
    height: u64,
    power: u128,
) -> Option<GovError> {
    if p.status != ProposalStatus::Active {
        Some(GovError::ProposalNotActive)
    } else if p.submitter@ == voter {
        Some(GovError::Unauthorized)
    } else if height > p.end_block {
        Some(GovError::VotingPeriodEnded)
    } else if listed(p.yes_voters@, voter) || listed(p.no_voters@, voter) {
        Some(GovError::UserAlreadyVoted)
    } else if power == 0 {
        Some(GovError::NoVotingPower)
    } else if option == ProposalVoteOption::For && p.yes_power + power > u128::MAX {
        Some(GovError::Overflow)
    } else if option == ProposalVoteOption::Against && p.no_power + power > u128::MAX {
        Some(GovError::Overflow)
    } else {
        None
    }
}

/// `q` is `p` with a vote of `power` by `voter` added on the side `option`.
pub open spec fn voted<M>(
    p: Proposal<M>,
    q: Proposal<M>,
    voter: Seq<char>,
    option: ProposalVoteOption,
    power: u128,
) -> bool {
    &&& q.proposal_id == p.proposal_id
    &&& q.submitter == p.submitter
    &&& q.status == p.status
    &&& q.start_block == p.start_block
    &&& q.start_time == p.start_time
    &&& q.end_block == p.end_block
    &&& q.delayed_end_block == p.delayed_end_block
    &&& q.expiration_block == p.expiration_block
    &&& q.title == p.title
    &&& q.description == p.description
    &&& q.link == p.link
    &&& q.messages == p.messages
    &&& q.deposit_amount == p.deposit_amount
    &&& if option == ProposalVoteOption::For {
        &&& q.yes_power == p.yes_power + power
        &&& q.yes_voters@.len() == p.yes_voters@.len() + 1
        &&& q.yes_voters@.drop_last() == p.yes_voters@
        &&& q.yes_voters@.last()@ == voter
        &&& q.no_power == p.no_power
        &&& q.no_voters == p.no_voters
    } else {
        &&& q.no_power == p.no_power + power
        &&& q.no_voters@.len() == p.no_voters@.len() + 1
        &&& q.no_voters@.drop_last() == p.no_voters@
        &&& q.no_voters@.last()@ == voter
        &&& q.yes_power == p.yes_power
        &&& q.yes_voters == p.yes_voters
    }
}

/// Quorum of a tally in atomic units: votes cast over total power, zero
/// when there is no power.
pub open spec fn quorum_spec(yes: u128, no: u128, total: u128) -> int {
    if total == 0 {
        0
    } else {
        ratio_spec((yes + no) as u128, total)
    }
}

/// Threshold of a tally in atomic units: votes for over votes cast, zero
/// when nobody voted.
pub open spec fn threshold_spec(yes: u128, no: u128) -> int {
    if yes + no == 0 {
        0
    } else {
        ratio_spec(yes, (yes + no) as u128)
    }
}

/// A tally passes when its quorum reaches the required quorum and its
/// threshold strictly exceeds the required threshold.
pub open spec fn passes(yes: u128, no: u128, total: u128, quorum: u128, threshold: u128) -> bool {
    quorum_spec(yes, no, total) >= quorum && threshold_spec(yes, no) > threshold
}

/// The first reason ending `p` at `height` with `total` power is refused.
pub open spec fn end_error<M>(p: Proposal<M>, height: u64, total: u128) -> Option<GovError> {
    if p.status != ProposalStatus::Active {
        Some(GovError::ProposalNotActive)
    } else if height <= p.end_block {
        Some(GovError::VotingPeriodNotEnded)
    } else if p.yes_power + p.no_power > u128::MAX {
        Some(GovError::Overflow)
    } else if total > 0 && ratio_spec((p.yes_power + p.no_power) as u128, total) > u128::MAX {
        Some(GovError::Overflow)
    } else {
        None
    }
}

/// A part of a whole, as a ratio, is at most one.
proof fn lemma_part_at_most_whole(part: u128, whole: u128)
    requires
        0 < whole,
        part <= whole,
    ensures
        ratio_spec(part, whole) <= DECIMAL_FRACTIONAL,
{
    let f = DECIMAL_FRACTIONAL as int;
    assert(part as int * f <= whole as int * f) by (nonlinear_arith)
        requires
            part <= whole,
            f >= 0,
    ;
    lemma_div_is_ordered(part as int * f, whole as int * f, whole as int);
    lemma_div_by_multiple(f, whole as int);
    assert(f * whole as int == whole as int * f) by (nonlinear_arith);
}

/// The status that ending `p` with `total` power under `cfg` gives.
pub open spec fn resolved<M>(p: Proposal<M>, total: u128, cfg: Config) -> ProposalStatus {
    if passes(
        p.yes_power,
        p.no_power,
        total,
        cfg.proposal_required_quorum,
        cfg.proposal_required_threshold,
    ) {
        ProposalStatus::Passed
    } else {
        ProposalStatus::Rejected
    }
}

/// The first reason executing `p` at `height` is refused.
pub open spec fn execute_error<M>(p: Proposal<M>, height: u64) -> Option<GovError> {
    if p.status != ProposalStatus::Passed {
        Some(GovError::ProposalNotPassed)
    } else if height < p.delayed_end_block {
        Some(GovError::ProposalDelayNotEnded)
    } else if height > p.expiration_block {
        Some(GovError::ExecuteProposalExpired)
    } else {
        None
    }
}

/// `p` with its status set to `s`.
pub open spec fn with_status<M>(p: Proposal<M>, s: ProposalStatus) -> Proposal<M> {
    Proposal { status: s, ..p }
}

/// The height after which an unexecuted proposal counts as expired, under
/// the current settings.
pub open spec fn expiry_spec<M>(p: Proposal<M>, cfg: Config) -> int {
    p.end_block + cfg.proposal_effective_delay + cfg.proposal_expiration_period
}

/// The first reason removing `p` at `height` is refused. Past its expiry
/// height a proposal that was not executed counts as expired; an executed
/// proposal is final and is never removed.
pub open spec fn remove_error<M>(p: Proposal<M>, height: u64, cfg: Config) -> Option<GovError> {
    if expiry_spec(p, cfg) > u64::MAX {
        Some(GovError::Overflow)
    } else if height > expiry_spec(p, cfg) && p.status != ProposalStatus::Executed {
        None
    } else if p.status != ProposalStatus::Expired && p.status != ProposalStatus::Rejected {
        Some(GovError::ProposalNotCompleted)
    } else {
        None
    }
}

/// Checks that exactly one coin of the governance denomination is attached
/// and returns it.
pub fn validate_funds(denom: &String, coins: &Vec<Coin>) -> (r: Result<Coin, GovError>)
    ensures
        coins@.len() != 1 ==> r == Err::<Coin, GovError>(GovError::WrongFundsCount),
        coins@.len() == 1 && coins@[0].denom@ != denom@ ==> r == Err::<Coin, GovError>(
            GovError::WrongDenom,
        ),
        coins@.len() == 1 && coins@[0].denom@ == denom@ ==> r.is_ok() && r.unwrap().denom@
            == denom@ && r.unwrap().amount == coins@[0].amount,
{
    if coins.len() != 1 {
        return Err(GovError::WrongFundsCount);
    }
    if coins[0].denom != *denom {
        return Err(GovError::WrongDenom);
    }
    Ok(Coin { denom: coins[0].denom.clone(), amount: coins[0].amount })
}

/// Voting power of `voter` on `proposal`: the stake it held at the block
/// before the proposal started.
pub fn calc_voting_power<M>(ledger: &SnapshotLedger, voter: &String, proposal: &Proposal<M>) -> (r:
    u128)
    requires
        proposal.start_block >= 1,
    ensures
        r == ledger.balance_at_spec(voter@, (proposal.start_block - 1) as u64),
{
    ledger.balance_at(voter, proposal.start_block - 1)
}

/// Total voting power on `proposal`: the aggregate stake at the block
/// before the proposal started.
pub fn calc_total_voting_power_at<M>(ledger: &SnapshotLedger, proposal: &Proposal<M>) -> (r: u128)
    requires
        proposal.start_block >= 1,
    ensures
        r == ledger.total_at_spec((proposal.start_block - 1) as u64),
{
    ledger.total_at(proposal.start_block - 1)
}

/// Proposals, their counter and the settings they run under.
pub struct Governance<M> {
    pub config: Config,
    pub proposal_count: u64,
    pub proposals: Vec<Proposal<M>>,
}

impl<M> Proposal<M> {
    /// Each voter is listed once, on one side, and the block markers come
    /// in order: voting end, then delayed end, then expiration.
    pub open spec fn well_kept(&self) -> bool {
        &&& self.voters_distinct()
        &&& self.end_block <= self.delayed_end_block <= self.expiration_block
    }
}

/// Putting in place of a proposal one with the same id that is itself well
/// kept keeps the governance invariant.
proof fn lemma_replace_keeps_wf<M>(before: &Governance<M>, after: &Governance<M>, i: int, q: Proposal<M>)
    requires
        before.wf(),
        0 <= i < before.proposals@.len(),
        after.replaced(before, i, q),
        q.well_kept(),
        q.proposal_id == before.proposals@[i].proposal_id,
    ensures
        after.wf(),
{
    assert forall|k: int| 0 <= k < after.proposals@.len() implies (#[trigger] after.proposals@[k]).well_kept()
        && after.proposals@[k].proposal_id == before.proposals@[k].proposal_id by {
        if k != i {
            assert(after.proposals@[k] == before.proposals@[k]);
        }
    }
    assert forall|a: int, b: int| 0 <= a < b < after.proposals@.len() implies (#[trigger] after.proposals@[a]).proposal_id
        < (#[trigger] after.proposals@[b]).proposal_id by {
        assert(after.proposals@[a].proposal_id == before.proposals@[a].proposal_id);
        assert(after.proposals@[b].proposal_id == before.proposals@[b].proposal_id);
    }
}

impl<M> Governance<M> {
    /// Settings within their bounds; every proposal lists each voter once,
    /// on one side, and has its block markers in order; proposals are kept
    /// in increasing order of id, none above the counter.
    pub open spec fn wf(&self) -> bool {
        &&& self.config.valid()
        &&& forall|i: int| 0 <= i < self.proposals@.len() ==> (#[trigger] self.proposals@[i]).well_kept()
        &&& forall|i: int| 0 <= i < self.proposals@.len() ==> (#[trigger] self.proposals@[i]).proposal_id
            <= self.proposal_count
        &&& forall|i: int, j: int| 0 <= i < j < self.proposals@.len() ==> (#[trigger] self.proposals@[i]).proposal_id
            < (#[trigger] self.proposals@[j]).proposal_id
    }

    /// The proposals after one at position `i` is replaced by `q`, the
    /// others kept.
    pub open spec fn replaced(&self, old_self: &Self, i: int, q: Proposal<M>) -> bool {
        &&& self.proposals@ == old_self.proposals@.update(i, q)
        &&& self.config == old_self.config
        &&& self.proposal_count == old_self.proposal_count
    }

    /// Sets up governance under `config`, with no proposal.
    pub fn new(config: Config) -> (r: Result<Governance<M>, GovError>)
        ensures
            match config.validate_spec() {
                Some(e) => r is Err && r->Err_0 == e,
                None => r.is_ok() && r.unwrap().wf() && r.unwrap().config == config
                    && r.unwrap().proposal_count == 0 && r.unwrap().proposals@.len() == 0,
            },
    {
        match config.validate() {
            Ok(()) => Ok(Governance { config, proposal_count: 0, proposals: Vec::new() }),
            Err(e) => Err(e),
        }
    }

    /// Sets up governance from a message whose quorum and threshold are
    /// decimal texts.
    pub fn instantiate(msg: InstantiateMsg) -> (r: Result<Governance<M>, GovError>)
        ensures
            match (
                decimal_atomics(msg.proposal_required_quorum@),
                decimal_atomics(msg.proposal_required_threshold@),
            ) {
                (Some(q), Some(t)) => {
                    let cfg = Config {
                        staking_addr: msg.staking_addr,
                        vesting_addr: msg.vesting_addr,
                        gov_token_denom: msg.gov_token_denom,
                        proposal_voting_period: msg.proposal_voting_period,
                        proposal_effective_delay: msg.proposal_effective_delay,
                        proposal_expiration_period: msg.proposal_expiration_period,
                        proposal_required_deposit: msg.proposal_required_deposit,
                        proposal_required_quorum: q,
                        proposal_required_threshold: t,
                    };
                    match cfg.validate_spec() {
                        Some(e) => r is Err && r->Err_0 == e,
                        None => r is Ok && r->Ok_0.wf() && r->Ok_0.config == cfg
                            && r->Ok_0.proposal_count == 0 && r->Ok_0.proposals@.len() == 0,
                    }
                },
                _ => r is Err && r->Err_0 == GovError::InvalidDecimal,
            },
    {
        let quorum = match parse_decimal(msg.proposal_required_quorum.as_str()) {
            Some(v) => v,
            None => return Err(GovError::InvalidDecimal),
        };
        let threshold = match parse_decimal(msg.proposal_required_threshold.as_str()) {
            Some(v) => v,
            None => return Err(GovError::InvalidDecimal),
        };
        let config = Config {
            staking_addr: msg.staking_addr,
            vesting_addr: msg.vesting_addr,
            gov_token_denom: msg.gov_token_denom,
            proposal_voting_period: msg.proposal_voting_period,
            proposal_effective_delay: msg.proposal_effective_delay,
            proposal_expiration_period: msg.proposal_expiration_period,
            proposal_required_deposit: msg.proposal_required_deposit,
            proposal_required_quorum: quorum,
            proposal_required_threshold: threshold,
        };
        Self::new(config)
    }
}

impl<M> Governance<M> {
    /// Submits a proposal by `sender` at `height` and `time`, against the
    /// deposit in `funds`. Returns the new proposal's id.
    pub fn submit_proposal(
        &mut self,
        sender: &String,
        funds: &Vec<Coin>,
        height: u64,
        time: u64,
        title: String,
        description: String,
        link: Option<String>,
        messages: Option<Vec<M>>,
    ) -> (r: Result<u64, GovError>)
        requires
            old(self).wf(),
        ensures
            final(self).wf(),
            match submit_error(
                old(self).config,
                old(self).proposal_count,
                funds@,
                height,
                title@,
                description@,
                opt_view(link),
            ) {
                Some(e) => r == Err::<u64, GovError>(e) && *final(self) == *old(self),
                None => {
                    let p = final(self).proposals@.last();
                    let cfg = old(self).config;
                    &&& r == Ok::<u64, GovError>((old(self).proposal_count + 1) as u64)
                    &&& final(self).proposal_count == old(self).proposal_count + 1
                    &&& final(self).config == old(self).config
                    &&& final(self).proposals@.drop_last() == old(self).proposals@
                    &&& final(self).proposals@.len() == old(self).proposals@.len() + 1
                    &&& p.proposal_id == old(self).proposal_count + 1
                    &&& p.submitter@ == sender@
                    &&& p.status == ProposalStatus::Active
                    &&& p.yes_power == 0 && p.no_power == 0
                    &&& p.yes_voters@.len() == 0 && p.no_voters@.len() == 0
                    &&& p.start_block == height
                    &&& p.start_time == time
                    &&& p.end_block == height + cfg.proposal_voting_period
                    &&& p.delayed_end_block == height + cfg.proposal_voting_period
                        + cfg.proposal_effective_delay
                    &&& p.expiration_block == height + cfg.proposal_voting_period
                        + cfg.proposal_effective_delay + cfg.proposal_expiration_period
                    &&& p.title == title
                    &&& p.description == description
                    &&& p.link == link
                    &&& p.messages == messages
                    &&& p.deposit_amount == funds@[0].amount
                },
            },
    {
        let deposit = match validate_funds(&self.config.gov_token_denom, funds) {
            Ok(c) => c,
            Err(e) => return Err(e),
        };
        if deposit.amount < self.config.proposal_required_deposit {
            return Err(GovError::InsufficientDeposit);
        }
        if self.proposal_count == u64::MAX {
            return Err(GovError::Overflow);
        }
        let count = self.proposal_count + 1;
        let end_block = match height.checked_add(self.config.proposal_voting_period) {
            Some(v) => v,
            None => return Err(GovError::Overflow),
        };
        let delayed_end_block = match end_block.checked_add(self.config.proposal_effective_delay) {
            Some(v) => v,
            None => return Err(GovError::Overflow),
        };
        let expiration_block = match delayed_end_block.checked_add(
            self.config.proposal_expiration_period,
        ) {
            Some(v) => v,
            None => return Err(GovError::Overflow),
        };
        match validate_text(&title, &description, &link) {
            Ok(()) => {},
            Err(e) => return Err(e),
        }
        let proposal = Proposal {
            proposal_id: count,
            submitter: sender.clone(),
            status: ProposalStatus::Active,
            yes_power: 0,
            no_power: 0,
            yes_voters: Vec::new(),
            no_voters: Vec::new(),
            start_block: height,
            start_time: time,
            end_block,
            delayed_end_block,
            expiration_block,
            title,
            description,
            link,
            messages,
            deposit_amount: deposit.amount,
        };
        self.proposals.push(proposal);
        self.proposal_count = count;
        proof {
            assert(self.proposals@.drop_last() =~= old(self).proposals@);
            assert forall|i: int| 0 <= i < self.proposals@.len()
                implies (#[trigger] self.proposals@[i]).well_kept() by {
                if i < old(self).proposals@.len() {
                    assert(self.proposals@[i] == old(self).proposals@[i]);
                }
            }
        }
        Ok(count)
    }
}

impl<M> Governance<M> {
    /// What voting leaves, given the voter's power: refused with the first
    /// error that applies and nothing changed, or the vote added to the
    /// proposal with id `id`.
    pub open spec fn vote_outcome(
        &self,
        old_self: &Self,
        r: Result<(), GovError>,
        voter: Seq<char>,
        id: u64,
        option: ProposalVoteOption,
        height: u64,
        power: u128,
    ) -> bool {
        let i = pindex(old_self.proposals@, id);
        if i < 0 {
            r == Err::<(), GovError>(GovError::ProposalNotFound) && *self == *old_self
        } else {
            match vote_error(old_self.proposals@[i], voter, option, height, power) {
                Some(e) => r == Err::<(), GovError>(e) && *self == *old_self,
                None => {
                    &&& r is Ok
                    &&& self.replaced(old_self, i, self.proposals@[i])
                    &&& voted(old_self.proposals@[i], self.proposals@[i], voter, option, power)
                },
            }
        }
    }

    /// Casts the vote of `sender` on proposal `id` at `height`, with the
    /// voting power `power` that the resolver found for it.
    pub fn cast_vote(
        &mut self,
        sender: &String,
        id: u64,
        option: ProposalVoteOption,
        height: u64,
        power: u128,
    ) -> (r: Result<(), GovError>)
        requires
            old(self).wf(),
        ensures
            final(self).wf(),
            final(self).vote_outcome(old(self), r, sender@, id, option, height, power),
    {
        let i = match find_proposal(&self.proposals, id) {
            Some(i) => i,
            None => return Err(GovError::ProposalNotFound),
        };
        {
            let p = &self.proposals[i];
            if p.status != ProposalStatus::Active {
                return Err(GovError::ProposalNotActive);
            }
            if p.submitter == *sender {
                return Err(GovError::Unauthorized);
            }
            if height > p.end_block {
                return Err(GovError::VotingPeriodEnded);
            }
            if p.has_voted(sender) {
                return Err(GovError::UserAlreadyVoted);
            }
            if power == 0 {
                return Err(GovError::NoVotingPower);
            }
            match option {
                ProposalVoteOption::For => {
                    if p.yes_power.checked_add(power).is_none() {
                        return Err(GovError::Overflow);
                    }
                },
                ProposalVoteOption::Against => {
                    if p.no_power.checked_add(power).is_none() {
                        return Err(GovError::Overflow);
                    }
                },
            }
        }
        let ghost before = self.proposals@;
        let mut p = self.proposals.remove(i);
        let ghost prev = p;
        match option {
            ProposalVoteOption::For => {
                p.yes_power = p.yes_power + power;
                p.yes_voters.push(sender.clone());
            },
            ProposalVoteOption::Against => {
                p.no_power = p.no_power + power;
                p.no_voters.push(sender.clone());
            },
        }
        proof {
            assert(prev.voters_distinct());
            assert(!listed(prev.yes_voters@, sender@));
            assert(!listed(prev.no_voters@, sender@));
            if option == ProposalVoteOption::For {
                assert(p.yes_voters@.drop_last() =~= prev.yes_voters@);
                assert forall|a: int, b: int| 0 <= a < p.yes_voters@.len() && 0 <= b
                    < p.yes_voters@.len() && a != b implies p.yes_voters@[a]@ != p.yes_voters@[b]@ by {
                    if a == prev.yes_voters@.len() {
                        assert(p.yes_voters@[b] == prev.yes_voters@[b]);
                    } else if b == prev.yes_voters@.len() {
                        assert(p.yes_voters@[a] == prev.yes_voters@[a]);
                    } else {
                        assert(p.yes_voters@[a] == prev.yes_voters@[a]);
                        assert(p.yes_voters@[b] == prev.yes_voters@[b]);
                    }
                }
                assert forall|a: int, b: int| 0 <= a < p.yes_voters@.len() && 0 <= b
                    < p.no_voters@.len() implies p.yes_voters@[a]@ != p.no_voters@[b]@ by {
                    if a < prev.yes_voters@.len() {
                        assert(p.yes_voters@[a] == prev.yes_voters@[a]);
                    }
                }
            } else {
                assert(p.no_voters@.drop_last() =~= prev.no_voters@);
                assert forall|a: int, b: int| 0 <= a < p.no_voters@.len() && 0 <= b
                    < p.no_voters@.len() && a != b implies p.no_voters@[a]@ != p.no_voters@[b]@ by {
                    if a == prev.no_voters@.len() {
                        assert(p.no_voters@[b] == prev.no_voters@[b]);
                    } else if b == prev.no_voters@.len() {
                        assert(p.no_voters@[a] == prev.no_voters@[a]);
                    } else {
                        assert(p.no_voters@[a] == prev.no_voters@[a]);
                        assert(p.no_voters@[b] == prev.no_voters@[b]);
                    }
                }
                assert forall|a: int, b: int| 0 <= a < p.yes_voters@.len() && 0 <= b
                    < p.no_voters@.len() implies p.yes_voters@[a]@ != p.no_voters@[b]@ by {
                    if b < prev.no_voters@.len() {
                        assert(p.no_voters@[b] == prev.no_voters@[b]);
                    }
                }
            }
            assert(p.voters_distinct());
        }
        self.proposals.insert(i, p);
        proof {
            assert(self.proposals@ =~= before.update(i as int, p));
            lemma_replace_keeps_wf(old(self), self, i as int, p);
        }
        Ok(())
    }

    /// Casts the vote of `sender` with the power the snapshot ledger gives
    /// it at the block before the proposal started. A proposal that started
    /// at height zero has no such block: the vote is refused as an overflow.
    pub fn cast_vote_from_ledger(
        &mut self,
        ledger: &SnapshotLedger,
        sender: &String,
        id: u64,
        option: ProposalVoteOption,
        height: u64,
    ) -> (r: Result<(), GovError>)
        requires
            old(self).wf(),
        ensures
            final(self).wf(),
            ({
                let i = pindex(old(self).proposals@, id);
                if i < 0 {
                    r == Err::<(), GovError>(GovError::ProposalNotFound) && *final(self) == *old(self)
                } else if old(self).proposals@[i].start_block == 0 {
                    r == Err::<(), GovError>(GovError::Overflow) && *final(self) == *old(self)
                } else {
                    final(self).vote_outcome(
                        old(self),
                        r,
                        sender@,
                        id,
                        option,
                        height,
                        ledger.balance_at_spec(
                            sender@,
                            (old(self).proposals@[i].start_block - 1) as u64,
                        ) as u128,
                    )
                }
            }),
    {
        let i = match find_proposal(&self.proposals, id) {
            Some(i) => i,
            None => return Err(GovError::ProposalNotFound),
        };
        if self.proposals[i].start_block == 0 {
            return Err(GovError::Overflow);
        }
        let power = calc_voting_power(ledger, sender, &self.proposals[i]);
        self.cast_vote(sender, id, option, height, power)
    }
}

impl<M> Governance<M> {
    /// What ending proposal `id` at `height` leaves, given the total voting
    /// power `total`: refused with the first error that applies and nothing
    /// changed, or the proposal resolved and its deposit refunded to its
    /// submitter, whatever the outcome.
    pub open spec fn end_outcome(
        &self,
        old_self: &Self,
        r: Result<BankSend, GovError>,
        id: u64,
        height: u64,
        total: u128,
    ) -> bool {
        let i = pindex(old_self.proposals@, id);
        if i < 0 {
            r == Err::<BankSend, GovError>(GovError::ProposalNotFound) && *self == *old_self
        } else {
            let p = old_self.proposals@[i];
            match end_error(p, height, total) {
                Some(e) => r == Err::<BankSend, GovError>(e) && *self == *old_self,
                None => {
                    &&& r is Ok
                    &&& self.replaced(old_self, i, with_status(p, resolved(p, total, old_self.config)))
                    &&& r->Ok_0.to_address@ == p.submitter@
                    &&& r->Ok_0.amount.denom@ == old_self.config.gov_token_denom@
                    &&& r->Ok_0.amount.amount == p.deposit_amount
                },
            }
        }
    }

    /// Ends voting on proposal `id` at `height`, with `total` the total
    /// voting power pinned for it. The proposal passes when its quorum
    /// reaches the required quorum and its threshold strictly exceeds the
    /// required threshold; it is rejected otherwise. The deposit goes back
    /// to the submitter either way.
    pub fn end_proposal(&mut self, id: u64, height: u64, total: u128) -> (r: Result<BankSend, GovError>)
        requires
            old(self).wf(),
        ensures
            final(self).wf(),
            final(self).end_outcome(old(self), r, id, height, total),
    {
        let i = match find_proposal(&self.proposals, id) {
            Some(i) => i,
            None => return Err(GovError::ProposalNotFound),
        };
        let yes = self.proposals[i].yes_power;
        let no = self.proposals[i].no_power;
        if self.proposals[i].status != ProposalStatus::Active {
            return Err(GovError::ProposalNotActive);
        }
        if height <= self.proposals[i].end_block {
            return Err(GovError::VotingPeriodNotEnded);
        }
        let votes = match yes.checked_add(no) {
            Some(v) => v,
            None => return Err(GovError::Overflow),
        };
        let quorum: u128 = if total == 0 {
            0
        } else {
            match ratio_atomics(votes, total) {
                Some(v) => v,
                None => return Err(GovError::Overflow),
            }
        };
        let threshold: u128 = if votes == 0 {
            0
        } else {
            proof {
                lemma_part_at_most_whole(yes, votes);
            }
            match ratio_atomics(yes, votes) {
                Some(v) => v,
                None => return Err(GovError::Overflow),
            }
        };
        let status = if quorum >= self.config.proposal_required_quorum && threshold
            > self.config.proposal_required_threshold {
            ProposalStatus::Passed
        } else {
            ProposalStatus::Rejected
        };
        let ghost before = self.proposals@;
        let mut p = self.proposals.remove(i);
        let ghost prev = p;
        p.status = status;
        let refund = BankSend {
            to_address: p.submitter.clone(),
            amount: Coin { denom: self.config.gov_token_denom.clone(), amount: p.deposit_amount },
        };
        proof {
            assert(p == with_status(prev, status));
        }
        self.proposals.insert(i, p);
        proof {
            assert(self.proposals@ =~= before.update(i as int, p));
            lemma_replace_keeps_wf(old(self), self, i as int, p);
        }
        Ok(refund)
    }

    /// Ends voting on proposal `id` with the total power that the snapshot
    /// ledger gives at the block before the proposal started. A proposal
    /// that started at height zero has no such block: ending it is refused
    /// as an overflow.
    pub fn end_proposal_from_ledger(&mut self, ledger: &SnapshotLedger, id: u64, height: u64) -> (r:
        Result<BankSend, GovError>)
        requires
            old(self).wf(),
        ensures
            final(self).wf(),
            ({
                let i = pindex(old(self).proposals@, id);
                if i < 0 {
                    r == Err::<BankSend, GovError>(GovError::ProposalNotFound) && *final(self) == *old(self)
                } else if old(self).proposals@[i].start_block == 0 {
                    r == Err::<BankSend, GovError>(GovError::Overflow) && *final(self) == *old(self)
                } else {
                    final(self).end_outcome(
                        old(self),
                        r,
                        id,
                        height,
                        ledger.total_at_spec((old(self).proposals@[i].start_block - 1) as u64) as u128,
                    )
                }
            }),
    {
        let i = match find_proposal(&self.proposals, id) {
            Some(i) => i,
            None => return Err(GovError::ProposalNotFound),
        };
        if self.proposals[i].start_block == 0 {
            return Err(GovError::Overflow);
        }
        let total = calc_total_voting_power_at(ledger, &self.proposals[i]);
        self.end_proposal(id, height, total)
    }

    /// Removes proposal `id` once it is rejected or expired. A proposal
    /// whose voting end, delay and expiration period (as now configured)
    /// lie before `height` counts as expired, unless it was executed: an
    /// executed proposal is final and stays.
    pub fn remove_completed_proposal(&mut self, id: u64, height: u64) -> (r: Result<(), GovError>)
        requires
            old(self).wf(),
        ensures
            final(self).wf(),
            ({
                let i = pindex(old(self).proposals@, id);
                if i < 0 {
                    r == Err::<(), GovError>(GovError::ProposalNotFound) && *final(self) == *old(self)
                } else {
                    match remove_error(old(self).proposals@[i], height, old(self).config) {
                        Some(e) => r == Err::<(), GovError>(e) && *final(self) == *old(self),
                        None => {
                            &&& r is Ok
                            &&& final(self).proposals@ == old(self).proposals@.remove(i)
                            &&& final(self).config == old(self).config
                            &&& final(self).proposal_count == old(self).proposal_count
                        },
                    }
                }
            }),
    {
        let i = match find_proposal(&self.proposals, id) {
            Some(i) => i,
            None => return Err(GovError::ProposalNotFound),
        };
        let expiry = match self.proposals[i].end_block.checked_add(
            self.config.proposal_effective_delay,
        ) {
            Some(v) => match v.checked_add(self.config.proposal_expiration_period) {
                Some(w) => w,
                None => return Err(GovError::Overflow),
            },
            None => return Err(GovError::Overflow),
        };
        let status = if height > expiry && self.proposals[i].status != ProposalStatus::Executed {
            ProposalStatus::Expired
        } else {
            self.proposals[i].status
        };
        if status != ProposalStatus::Expired && status != ProposalStatus::Rejected {
            return Err(GovError::ProposalNotCompleted);
        }
        let ghost before = self.proposals@;
        self.proposals.remove(i);
        proof {
            assert forall|k: int| 0 <= k < self.proposals@.len()
                implies (#[trigger] self.proposals@[k]).well_kept() by {
                if k < i {
                    assert(self.proposals@[k] == before[k]);
                } else {
                    assert(self.proposals@[k] == before[k + 1]);
                }
            }
        }
        Ok(())
    }

    /// Applies `patch` to the settings. Only the governance itself may do
    /// so: `sender` must be `contract_addr`, which a passed proposal's
    /// messages reach. The result is checked as a whole; on any error the
    /// settings stay as they were.
    pub fn update_config(&mut self, sender: &String, contract_addr: &String, patch: &UpdateConfig) -> (r:
        Result<(), GovError>)
        requires
            old(self).wf(),
        ensures
            final(self).wf(),
            final(self).proposals == old(self).proposals,
            final(self).proposal_count == old(self).proposal_count,
            sender@ != contract_addr@ ==> r == Err::<(), GovError>(GovError::Unauthorized),
            r.is_err() ==> final(self).config == old(self).config,
            r.is_ok() ==> sender@ == contract_addr@ && ({
                let q = match patch.proposal_required_quorum {
                    Some(t) => decimal_atomics(t@),
                    None => None,
                };
                let t = match patch.proposal_required_threshold {
                    Some(t) => decimal_atomics(t@),
                    None => None,
                };
                final(self).config == old(self).config.patched(patch, q, t)
            }),
            sender@ == contract_addr@ ==> (r.is_ok() <==> ({
                let q = match patch.proposal_required_quorum {
                    Some(t) => Some(decimal_atomics(t@)),
                    None => None,
                };
                let t = match patch.proposal_required_threshold {
                    Some(t) => Some(decimal_atomics(t@)),
                    None => None,
                };
                q != Some(None::<u128>) && t != Some(None::<u128>) && old(self).config.patched(
                    patch,
                    match q {
                        Some(v) => v,
                        None => None,
                    },
                    match t {
                        Some(v) => v,
                        None => None,
                    },
                ).valid()
            })),
    {
        if *sender != *contract_addr {
            return Err(GovError::Unauthorized);
        }
        let (q, t) = match parse_update(patch) {
            Ok(v) => v,
            Err(e) => return Err(e),
        };
        self.config.apply_update(patch, q, t)
    }

    /// The tallies of proposal `id`.
    pub fn query_proposal_votes(&self, id: u64) -> (r: Result<ProposalVotesResponse, GovError>)
        ensures
            ({
                let i = pindex(self.proposals@, id);
                if i < 0 {
                    r == Err::<ProposalVotesResponse, GovError>(GovError::ProposalNotFound)
                } else {
                    r == Ok::<ProposalVotesResponse, GovError>(
                        ProposalVotesResponse {
                            proposal_id: id,
                            for_power: self.proposals@[i].yes_power,
                            against_power: self.proposals@[i].no_power,
                        },
                    )
                }
            }),
    {
        match find_proposal(&self.proposals, id) {
            Some(i) => Ok(
                ProposalVotesResponse {
                    proposal_id: id,
                    for_power: self.proposals[i].yes_power,
                    against_power: self.proposals[i].no_power,
                },
            ),
            None => Err(GovError::ProposalNotFound),
        }
    }
}

impl<M: Clone> Governance<M> {
    /// Executes proposal `id` at `height`: it must have passed, its delay
    /// must have ended and it must not have expired. It becomes executed and
    /// its messages are handed back to be run (none if it has none).
    pub fn execute_proposal(&mut self, id: u64, height: u64) -> (r: Result<Vec<M>, GovError>)
        requires
            old(self).wf(),
        ensures
            final(self).wf(),
            ({
                let i = pindex(old(self).proposals@, id);
                if i < 0 {
                    r == Err::<Vec<M>, GovError>(GovError::ProposalNotFound) && *final(self) == *old(self)
                } else {
                    let p = old(self).proposals@[i];
                    match execute_error(p, height) {
                        Some(e) => r == Err::<Vec<M>, GovError>(e) && *final(self) == *old(self),
                        None => {
                            &&& r is Ok
                            &&& final(self).replaced(old(self), i, with_status(p, ProposalStatus::Executed))
                            &&& match p.messages {
                                Some(m) => r->Ok_0@.len() == m@.len() && forall|k: int|
                                    0 <= k < m@.len() ==> cloned::<M>(m@[k], #[trigger] r->Ok_0@[k]),
                                None => r->Ok_0@.len() == 0,
                            }
                        },
                    }
                }
            }),
    {
        let i = match find_proposal(&self.proposals, id) {
            Some(i) => i,
            None => return Err(GovError::ProposalNotFound),
        };
        if self.proposals[i].status != ProposalStatus::Passed {
            return Err(GovError::ProposalNotPassed);
        }
        if height < self.proposals[i].delayed_end_block {
            return Err(GovError::ProposalDelayNotEnded);
        }
        if height > self.proposals[i].expiration_block {
            return Err(GovError::ExecuteProposalExpired);
        }
        let ghost before = self.proposals@;
        let mut p = self.proposals.remove(i);
        let ghost prev = p;
        p.status = ProposalStatus::Executed;
        let messages = match &p.messages {
            Some(m) => m.clone(),
            None => Vec::new(),
        };
        proof {
            assert(p == with_status(prev, ProposalStatus::Executed));
        }
        self.proposals.insert(i, p);
        proof {
            assert(self.proposals@ =~= before.update(i as int, p));
            lemma_replace_keeps_wf(old(self), self, i as int, p);
        }
        Ok(messages)
    }
}

/// Default number of voters in a page.
pub const DEFAULT_VOTERS_LIMIT: u32 = 100;
/// Greatest number of voters in a page.
pub const MAX_VOTERS_LIMIT: u32 = 250;

impl<M> Governance<M> {
    /// A page of the voters of proposal `id` on the side `option`: from
    /// position `start` (default 0), at most `limit` (default 100, at most
    /// 250) of them, in the order they voted.
    pub fn query_proposal_voters(
        &self,
        id: u64,
        option: ProposalVoteOption,
        start: Option<u64>,
        limit: Option<u32>,
    ) -> (r: Result<Vec<String>, GovError>)
        ensures
            ({
                let i = pindex(self.proposals@, id);
                if i < 0 {
                    r == Err::<Vec<String>, GovError>(GovError::ProposalNotFound)
                } else {
                    let all = if option == ProposalVoteOption::For {
                        self.proposals@[i].yes_voters@
                    } else {
                        self.proposals@[i].no_voters@
                    };
                    let lim = match limit {
                        Some(l) => if l < MAX_VOTERS_LIMIT { l } else { MAX_VOTERS_LIMIT },
                        None => DEFAULT_VOTERS_LIMIT,
                    };
                    let from = match start {
                        Some(s) => if s < all.len() { s as int } else { all.len() as int },
                        None => 0,
                    };
                    let to = if from + lim < all.len() { from + lim } else { all.len() as int };
                    r is Ok && r->Ok_0@ == all.subrange(from, to)
                }
            }),
    {
        let i = match find_proposal(&self.proposals, id) {
            Some(i) => i,
            None => return Err(GovError::ProposalNotFound),
        };
        let all = match option {
            ProposalVoteOption::For => &self.proposals[i].yes_voters,
            ProposalVoteOption::Against => &self.proposals[i].no_voters,
        };
        let lim: u32 = match limit {
            Some(l) => if l < MAX_VOTERS_LIMIT { l } else { MAX_VOTERS_LIMIT },
            None => DEFAULT_VOTERS_LIMIT,
        };
        let n = all.len();
        let from: usize = match start {
            Some(s) => if s < n as u64 { s as usize } else { n },
            None => 0,
        };
        let to: usize = if (lim as usize) < n - from { from + lim as usize } else { n };
        let mut out: Vec<String> = Vec::new();
        let mut k: usize = from;
        while k < to
            invariant
                from <= k <= to <= n,
                n == all@.len(),
                out@ == all@.subrange(from as int, k as int),
            decreases to - k,
        {
            out.push(all[k].clone());
            proof {
                assert(out@ =~= all@.subrange(from as int, k + 1));
            }
            k = k + 1;
        }
        proof {
            assert(out@ =~= all@.subrange(from as int, to as int));
        }
        Ok(out)
    }
}

/// A deposit below the required minimum is always refused; a deposit of
/// exactly the minimum, in one coin of the governance denomination, is
/// accepted when nothing else is wrong with the submission.
pub proof fn lemma_deposit_gate(
    cfg: Config,
    count: u64,
    funds: Seq<Coin>,
    height: u64,
    title: Seq<char>,
    description: Seq<char>,
    link: Option<Seq<char>>,
)
    ensures
        funds.len() == 1 && funds[0].amount < cfg.proposal_required_deposit ==> submit_error(
            cfg,
            count,
            funds,
            height,
            title,
            description,
            link,
        ) is Some,
        funds.len() == 1 && funds[0].denom@ == cfg.gov_token_denom@ && funds[0].amount
            < cfg.proposal_required_deposit ==> submit_error(
            cfg,
            count,
            funds,
            height,
            title,
            description,
            link,
        ) == Some(GovError::InsufficientDeposit),
        funds.len() == 1 && funds[0].denom@ == cfg.gov_token_denom@ && funds[0].amount
            == cfg.proposal_required_deposit && count < u64::MAX && height
            + cfg.proposal_voting_period + cfg.proposal_effective_delay
            + cfg.proposal_expiration_period <= u64::MAX && text_error(title, description, link)
            is None ==> submit_error(cfg, count, funds, height, title, description, link) is None,
{
}

/// Voting power on a proposal is read at the block before it started, so a
/// change of stake recorded at or after its start block leaves the power of
/// every voter, and the total, as they were.
pub proof fn lemma_power_pinned<M>(
    before: &SnapshotLedger,
    after: &SnapshotLedger,
    change_height: u64,
    p: Proposal<M>,
    voter: Seq<char>,
)
    requires
        p.start_block >= 1,
        change_height >= p.start_block,
        forall|b: Seq<char>, x: u64| x < change_height ==> #[trigger] after.balance_at_spec(b, x)
            == before.balance_at_spec(b, x),
        forall|x: u64| x < change_height ==> #[trigger] after.total_at_spec(x)
            == before.total_at_spec(x),
    ensures
        after.balance_at_spec(voter, (p.start_block - 1) as u64) == before.balance_at_spec(
            voter,
            (p.start_block - 1) as u64,
        ),
        after.total_at_spec((p.start_block - 1) as u64) == before.total_at_spec(
            (p.start_block - 1) as u64,
        ),
{
    let x = (p.start_block - 1) as u64;
    assert(after.balance_at_spec(voter, x) == before.balance_at_spec(voter, x));
    assert(after.total_at_spec(x) == before.total_at_spec(x));
}

/// The boundaries of resolution: a quorum exactly at the requirement
/// passes (given a threshold above its own), while a threshold exactly at
/// the requirement fails.
pub proof fn lemma_resolution_boundary(yes: u128, no: u128, total: u128, quorum: u128, threshold: u128)
    ensures
        quorum_spec(yes, no, total) == quorum && threshold_spec(yes, no) > threshold ==> passes(
            yes,
            no,
            total,
            quorum,
            threshold,
        ),
        threshold_spec(yes, no) == threshold ==> !passes(yes, no, total, quorum, threshold),
        quorum_spec(yes, no, total) < quorum ==> !passes(yes, no, total, quorum, threshold),
{
}

/// Ending an active proposal after its voting period, with no more votes
/// cast than the total voting power (as any snapshot of the ledger gives),
/// always succeeds: it resolves by quorum and threshold, and refunds the
/// deposit whatever the outcome.
pub proof fn lemma_end_succeeds<M>(p: Proposal<M>, height: u64, total: u128)
    requires
        p.status == ProposalStatus::Active,
        height > p.end_block,
        p.yes_power + p.no_power <= total,
    ensures
        end_error(p, height, total) is None,
{
    if total > 0 {
        lemma_part_at_most_whole((p.yes_power + p.no_power) as u128, total);
    }
}

/// A passed proposal with its markers in order is refused before its
/// delayed end, refused after its expiration, and executable in between.
pub proof fn lemma_execute_window<M>(p: Proposal<M>, height: u64)
    requires
        p.well_kept(),
        p.status == ProposalStatus::Passed,
    ensures
        height < p.delayed_end_block ==> execute_error(p, height) == Some(
            GovError::ProposalDelayNotEnded,
        ),
        height > p.expiration_block ==> execute_error(p, height) == Some(
            GovError::ExecuteProposalExpired,
        ),
        p.delayed_end_block <= height <= p.expiration_block ==> execute_error(p, height) is None,
{
}

/// A proposal that could be executed at one height, once executed, cannot
/// be executed again at any height: it no longer has passed status.
pub proof fn lemma_execute_once<M>(p: Proposal<M>, h1: u64, h2: u64)
    requires
        execute_error(p, h1) is None,
    ensures
        p.delayed_end_block <= h1 <= p.expiration_block,
        execute_error(with_status(p, ProposalStatus::Executed), h2) == Some(
            GovError::ProposalNotPassed,
        ),
{
}

/// Default number of proposals in a page.
pub const DEFAULT_LIMIT: u32 = 10;
/// Greatest number of proposals in a page.
pub const MAX_LIMIT: u32 = 30;

/// Whether a proposal with id `id` belongs on a page that follows the
/// cursor `start`, the last id already seen (none: the first page).
pub open spec fn on_page(id: u64, start: Option<u64>) -> bool {
    match start {
        Some(x) => id > x,
        None => true,
    }
}

fn is_on_page(id: u64, start: Option<u64>) -> (r: bool)
    ensures
        r == on_page(id, start),
{
    match start {
        Some(x) => id > x,
        None => true,
    }
}

/// Position just after the last proposal that does not belong on the page
/// following `start`.
pub open spec fn first_from<M>(s: Seq<Proposal<M>>, start: Option<u64>) -> int
    decreases s.len(),
{
    if s.len() == 0 {
        0
    } else if on_page(s.last().proposal_id, start) {
        first_from(s.drop_last(), start)
    } else {
        s.len() as int
    }
}

proof fn lemma_first_from<M>(s: Seq<Proposal<M>>, start: Option<u64>)
    requires
        forall|i: int, j: int| 0 <= i < j < s.len() ==> (#[trigger] s[i]).proposal_id < (#[trigger] s[j]).proposal_id,
    ensures
        0 <= first_from(s, start) <= s.len(),
        forall|k: int| first_from(s, start) <= k < s.len() ==> on_page((#[trigger] s[k]).proposal_id, start),
        forall|k: int| 0 <= k < first_from(s, start) ==> !on_page((#[trigger] s[k]).proposal_id, start),
    decreases s.len(),
{
    if s.len() > 0 {
        let t = s.drop_last();
        assert forall|i: int, j: int| 0 <= i < j < t.len() implies (#[trigger] t[i]).proposal_id < (#[trigger] t[j]).proposal_id by {
            assert(t[i] == s[i] && t[j] == s[j]);
        }
        lemma_first_from(t, start);
        if !on_page(s.last().proposal_id, start) {
            assert forall|k: int| 0 <= k < s.len() implies !on_page((#[trigger] s[k]).proposal_id, start) by {
                if k < s.len() - 1 {
                    assert(s[k].proposal_id < s[s.len() - 1].proposal_id);
                }
            }
        } else {
            assert forall|k: int| 0 <= k < t.len() implies t[k] == s[k] by {}
        }
    }
}

impl<M: Clone> Governance<M> {
    /// A page of proposals in increasing order of id: those after the
    /// cursor `start`, the last id already seen (none: from the first), at
    /// most `limit` (default 10, at most 30), with the number of proposals
    /// ever submitted.
    pub fn query_proposals(&self, start: Option<u64>, limit: Option<u32>) -> (r: ProposalListResponse<M>)
        requires
            self.wf(),
        ensures
            ({
                let lim = match limit {
                    Some(l) => if l < MAX_LIMIT { l } else { MAX_LIMIT },
                    None => DEFAULT_LIMIT,
                };
                let s = self.proposals@;
                let from = first_from(s, start);
                let to = if from + lim < s.len() { from + lim } else { s.len() as int };
                &&& r.proposal_count == self.proposal_count
                &&& forall|k: int| 0 <= k < from ==> !on_page((#[trigger] s[k]).proposal_id, start)
                &&& forall|k: int| from <= k < s.len() ==> on_page((#[trigger] s[k]).proposal_id, start)
                &&& r.proposal_list@.len() == to - from
                &&& forall|k: int| 0 <= k < to - from ==> (#[trigger] r.proposal_list@[k]).same_record(&s[from + k])
            }),
    {
        let lim: u32 = match limit {
            Some(l) => if l < MAX_LIMIT { l } else { MAX_LIMIT },
            None => DEFAULT_LIMIT,
        };
        let ghost all = self.proposals@;
        proof {
            lemma_first_from(all, start);
        }
        let mut n: usize = self.proposals.len();
        proof {
            assert(all.subrange(0, n as int) =~= all);
        }
        while n > 0 && is_on_page(self.proposals[n - 1].proposal_id, start)
            invariant
                n <= all.len(),
                all == self.proposals@,
                first_from(all, start) == first_from(all.subrange(0, n as int), start),
            decreases n,
        {
            proof {
                assert(all.subrange(0, n as int).drop_last() =~= all.subrange(0, n - 1));
            }
            n = n - 1;
        }
        proof {
            if n == 0 {
                assert(all.subrange(0, 0).len() == 0);
            } else {
                assert(all.subrange(0, n as int).last() == all[n - 1]);
            }
        }
        let from = n;
        let len = self.proposals.len();
        let to: usize = if (lim as usize) < len - from { from + lim as usize } else { len };
        let mut list: Vec<Proposal<M>> = Vec::new();
        let mut k: usize = from;
        while k < to
            invariant
                from <= k <= to <= len,
                len == all.len(),
                all == self.proposals@,
                list@.len() == k - from,
                forall|x: int| 0 <= x < k - from ==> (#[trigger] list@[x]).same_record(&all[from + x]),
            decreases to - k,
        {
            let p = self.proposals[k].duplicate();
            list.push(p);
            k = k + 1;
        }
        ProposalListResponse { proposal_count: self.proposal_count, proposal_list: list }
    }

    /// A copy of proposal `id`.
    pub fn query_proposal(&self, id: u64) -> (r: Result<Proposal<M>, GovError>)
        ensures
            ({
                let i = pindex(self.proposals@, id);
                if i < 0 {
                    r is Err && r->Err_0 == GovError::ProposalNotFound
                } else {
                    r is Ok && r->Ok_0.same_record(&self.proposals@[i])
                }
            }),
    {
        match find_proposal(&self.proposals, id) {
            Some(i) => Ok(self.proposals[i].duplicate()),
            None => Err(GovError::ProposalNotFound),
        }
    }
}

} // verus!
