//! Proposals: their record, status, votes and text rules.
use vstd::prelude::*;
use crate::config::GovError;
use crate::text::{byte_len, safe_text, safe_link, text_len, is_safe_text, is_safe_link};

verus! {

pub const MIN_TITLE_LENGTH: usize = 4;
pub const MAX_TITLE_LENGTH: usize = 64;
pub const MIN_DESC_LENGTH: usize = 4;
pub const MAX_DESC_LENGTH: usize = 1024;
pub const MIN_LINK_LENGTH: usize = 12;
pub const MAX_LINK_LENGTH: usize = 128;

/// Where a proposal stands in its life.
#[derive(Debug, PartialEq, Eq, Structural, Clone, Copy)]
pub enum ProposalStatus {
    Active,
    Passed,
    Rejected,
    InProgress,
    Failed,
    Executed,
    Expired,
}

/// The name of a status in lower case.
pub open spec fn status_name(s: ProposalStatus) -> Seq<char> {
    match s {
        ProposalStatus::Active => "active"@,
        ProposalStatus::Passed => "passed"@,
        ProposalStatus::Rejected => "rejected"@,
        ProposalStatus::InProgress => "in_progress"@,
        ProposalStatus::Failed => "failed"@,
        ProposalStatus::Executed => "executed"@,
        ProposalStatus::Expired => "expired"@,
    }
}

/// The name of a vote option in lower case.
pub open spec fn option_name(o: ProposalVoteOption) -> Seq<char> {
    match o {
        ProposalVoteOption::For => "for"@,
        ProposalVoteOption::Against => "against"@,
    }
}

impl ProposalStatus {
    /// The status's name in lower case.
    pub fn as_str(&self) -> (r: &'static str)
        ensures
            r@ == status_name(*self),
    {
        match self {
            ProposalStatus::Active => "active",
            ProposalStatus::Passed => "passed",
            ProposalStatus::Rejected => "rejected",
            ProposalStatus::InProgress => "in_progress",
            ProposalStatus::Failed => "failed",
            ProposalStatus::Executed => "executed",
            ProposalStatus::Expired => "expired",
        }
    }
}

/// The side a vote takes.
#[derive(Debug, PartialEq, Eq, Structural, Clone, Copy)]
pub enum ProposalVoteOption {
    For,
    Against,
}

impl ProposalVoteOption {
    /// The option's name in lower case.
    pub fn as_str(&self) -> (r: &'static str)
        ensures
            r@ == option_name(*self),
    {
        match self {
            ProposalVoteOption::For => "for",
            ProposalVoteOption::Against => "against",
        }
    }
}

/// A vote: its option and its power.
#[derive(Debug, PartialEq, Eq, Structural, Clone, Copy)]
pub struct ProposalVote {
    pub option: ProposalVoteOption,
    pub power: u128,
}

/// The tallies of a proposal.
#[derive(Debug, PartialEq, Eq, Structural, Clone, Copy)]
pub struct ProposalVotesResponse {
    pub proposal_id: u64,
    pub for_power: u128,
    pub against_power: u128,
}

/// A page of proposals, with the number of proposals ever submitted.
pub struct ProposalListResponse<M> {
    pub proposal_count: u64,
    pub proposal_list: Vec<Proposal<M>>,
}

/// A proposal, with messages of type `M` to run once it passes.
pub struct Proposal<M> {
    pub proposal_id: u64,
    pub submitter: String,
    pub status: ProposalStatus,
    pub yes_power: u128,
    pub no_power: u128,
    pub yes_voters: Vec<String>,
    pub no_voters: Vec<String>,
    pub start_block: u64,
    pub start_time: u64,
    pub end_block: u64,
    pub delayed_end_block: u64,
    pub expiration_block: u64,
    pub title: String,
    pub description: String,
    pub link: Option<String>,
    pub messages: Option<Vec<M>>,
    pub deposit_amount: u128,
}

/// The first rule that a title, a description and an optional link break,
/// in the order checked.
pub open spec fn text_error(title: Seq<char>, description: Seq<char>, link: Option<Seq<char>>) -> Option<
    GovError,
> {
    if byte_len(title) < MIN_TITLE_LENGTH {
        Some(GovError::TitleTooShort)
    } else if byte_len(title) > MAX_TITLE_LENGTH {
        Some(GovError::TitleTooLong)
    } else if !safe_text(title) {
        Some(GovError::TitleInvalid)
    } else if byte_len(description) < MIN_DESC_LENGTH {
        Some(GovError::DescriptionTooShort)
    } else if byte_len(description) > MAX_DESC_LENGTH {
        Some(GovError::DescriptionTooLong)
    } else if !safe_text(description) {
        Some(GovError::DescriptionInvalid)
    } else {
        match link {
            None => None,
            Some(l) => if byte_len(l) < MIN_LINK_LENGTH {
                Some(GovError::LinkTooShort)
            } else if byte_len(l) > MAX_LINK_LENGTH {
                Some(GovError::LinkTooLong)
            } else if !safe_link(l) {
                Some(GovError::LinkInvalid)
            } else {
                None
            },
        }
    }
}

/// The view of an optional text.
pub open spec fn opt_view(s: Option<String>) -> Option<Seq<char>> {
    match s {
        Some(t) => Some(t@),
        None => None,
    }
}

/// Checks a title, a description and an optional link against the text
/// rules.
pub fn validate_text(title: &String, description: &String, link: &Option<String>) -> (r: Result<
    (),
    GovError,
>)
    ensures
        match text_error(title@, description@, opt_view(*link)) {
            Some(e) => r == Err::<(), GovError>(e),
            None => r.is_ok(),
        },
{
    let n = text_len(title);
    if n < MIN_TITLE_LENGTH {
        return Err(GovError::TitleTooShort);
    }
    if n > MAX_TITLE_LENGTH {
        return Err(GovError::TitleTooLong);
    }
    if !is_safe_text(title.as_str()) {
        return Err(GovError::TitleInvalid);
    }
    let n = text_len(description);
    if n < MIN_DESC_LENGTH {
        return Err(GovError::DescriptionTooShort);
    }
    if n > MAX_DESC_LENGTH {
        return Err(GovError::DescriptionTooLong);
    }
    if !is_safe_text(description.as_str()) {
        return Err(GovError::DescriptionInvalid);
    }
    match link {
        None => Ok(()),
        Some(l) => {
            let n = text_len(l);
            if n < MIN_LINK_LENGTH {
                return Err(GovError::LinkTooShort);
            }
            if n > MAX_LINK_LENGTH {
                return Err(GovError::LinkTooLong);
            }
            if !is_safe_link(l.as_str()) {
                return Err(GovError::LinkInvalid);
            }
            Ok(())
        },
    }
}

/// No address occurs twice in `s`.
pub open spec fn no_repeats(s: Seq<String>) -> bool {
    forall|i: int, j: int| 0 <= i < s.len() && 0 <= j < s.len() && i != j ==> s[i]@ != s[j]@
}

/// No address occurs in both `a` and `b`.
pub open spec fn disjoint(a: Seq<String>, b: Seq<String>) -> bool {
    forall|i: int, j: int| 0 <= i < a.len() && 0 <= j < b.len() ==> a[i]@ != b[j]@
}

/// Whether `a` occurs in `s`.
pub open spec fn listed(s: Seq<String>, a: Seq<char>) -> bool {
    exists|i: int| 0 <= i < s.len() && s[i]@ == a
}

impl<M> Proposal<M> {
    /// Each voter is listed once, on one side only.
    pub open spec fn voters_distinct(&self) -> bool {
        &&& no_repeats(self.yes_voters@)
        &&& no_repeats(self.no_voters@)
        &&& disjoint(self.yes_voters@, self.no_voters@)
    }

    /// Checks the proposal's text.
    pub fn validate(&self) -> (r: Result<(), GovError>)
        ensures
            match text_error(self.title@, self.description@, opt_view(self.link)) {
                Some(e) => r == Err::<(), GovError>(e),
                None => r.is_ok(),
            },
    {
        validate_text(&self.title, &self.description, &self.link)
    }

    /// Whether `voter` is listed on either side.
    pub fn has_voted(&self, voter: &String) -> (r: bool)
        ensures
            r == (listed(self.yes_voters@, voter@) || listed(self.no_voters@, voter@)),
    {
        contains_voter(&self.yes_voters, voter) || contains_voter(&self.no_voters, voter)
    }
}

fn contains_voter(s: &Vec<String>, a: &String) -> (r: bool)
    ensures
        r == listed(s@, a@),
{
    let mut i: usize = 0;
    while i < s.len()
        invariant
            i <= s@.len(),
            forall|j: int| 0 <= j < i ==> s@[j]@ != a@,
        decreases s@.len() - i,
    {
        if s[i] == *a {
            return true;
        }
        i = i + 1;
    }
    false
}

fn clone_addresses(v: &Vec<String>) -> (r: Vec<String>)
    ensures
        r@ == v@,
{
    let r = v.clone();
    proof {
        assert forall|k: int| 0 <= k < v@.len() implies r@[k] == v@[k] by {
            assert(cloned::<String>(v[k], r[k]));
        }
        assert(r@ =~= v@);
    }
    r
}

impl<M: Clone> Proposal<M> {
    /// A copy of the proposal: equal in every field, with its messages
    /// cloned.
    pub fn duplicate(&self) -> (r: Proposal<M>)
        ensures
            r.same_record(self),
    {
        Proposal {
            proposal_id: self.proposal_id,
            submitter: self.submitter.clone(),
            status: self.status,
            yes_power: self.yes_power,
            no_power: self.no_power,
            yes_voters: clone_addresses(&self.yes_voters),
            no_voters: clone_addresses(&self.no_voters),
            start_block: self.start_block,
            start_time: self.start_time,
            end_block: self.end_block,
            delayed_end_block: self.delayed_end_block,
            expiration_block: self.expiration_block,
            title: self.title.clone(),
            description: self.description.clone(),
            link: match &self.link {
                Some(l) => Some(l.clone()),
                None => None,
            },
            messages: match &self.messages {
                Some(m) => Some(m.clone()),
                None => None,
            },
            deposit_amount: self.deposit_amount,
        }
    }
}

impl<M> Proposal<M> {
    /// `self` holds what `p` holds: every field equal, voters as lists of
    /// addresses, and messages cloned one by one.
    pub open spec fn same_record(&self, p: &Proposal<M>) -> bool where M: Clone {
        &&& self.proposal_id == p.proposal_id
        &&& self.submitter == p.submitter
        &&& self.status == p.status
        &&& self.yes_power == p.yes_power
        &&& self.no_power == p.no_power
        &&& self.yes_voters@ == p.yes_voters@
        &&& self.no_voters@ == p.no_voters@
        &&& self.start_block == p.start_block
        &&& self.start_time == p.start_time
        &&& self.end_block == p.end_block
        &&& self.delayed_end_block == p.delayed_end_block
        &&& self.expiration_block == p.expiration_block
        &&& self.title == p.title
        &&& self.description == p.description
        &&& self.link == p.link
        &&& self.deposit_amount == p.deposit_amount
        &&& match p.messages {
            None => self.messages is None,
            Some(m) => self.messages is Some && self.messages->0@.len() == m@.len() && forall|k: int|
                0 <= k < m@.len() ==> cloned::<M>(m@[k], #[trigger] self.messages->0@[k]),
        }
    }
}

} // verus!
