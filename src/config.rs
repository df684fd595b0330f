//! Governance settings and the bounds they must keep.
use vstd::prelude::*;
use crate::decimal::{DECIMAL_FRACTIONAL, decimal_atomics, parse_decimal};

verus! {

/// Least required threshold, in atomic units (33%).
pub const MIN_THRESHOLD: u128 = 330_000_000_000_000_000;
/// Greatest required threshold (100%).
pub const MAX_THRESHOLD: u128 = DECIMAL_FRACTIONAL;
/// Least required quorum (0.01%).
pub const MIN_QUORUM: u128 = 100_000_000_000_000;
/// Greatest required quorum (100%).
pub const MAX_QUORUM: u128 = DECIMAL_FRACTIONAL;
pub const MIN_VOTING_PERIOD: u64 = 12342;
pub const MAX_VOTING_PERIOD: u64 = 86394;
pub const MIN_DELAY: u64 = 6171;
pub const MAX_DELAY: u64 = 14400;
pub const MIN_EXPIRATION_PERIOD: u64 = 12342;
pub const MAX_EXPIRATION_PERIOD: u64 = 100800;
pub const MIN_DEPOSIT: u128 = 10_000_000_000;
pub const MAX_DEPOSIT: u128 = 60_000_000_000;

/// Why a governance operation was refused.
#[derive(Debug, PartialEq, Eq, Structural, Clone, Copy)]
pub enum GovError {
    InvalidThreshold,
    InvalidQuorum,
    InvalidDelay,
    InvalidExpirationPeriod,
    InvalidVotingPeriod,
    InvalidDeposit,
    /// A quorum or threshold text is not a decimal.
    InvalidDecimal,
    /// The funds attached are not exactly one coin.
    WrongFundsCount,
    /// The coin attached is not of the governance denomination.
    WrongDenom,
    InsufficientDeposit,
    TitleTooShort,
    TitleTooLong,
    TitleInvalid,
    DescriptionTooShort,
    DescriptionTooLong,
    DescriptionInvalid,
    LinkTooShort,
    LinkTooLong,
    LinkInvalid,
    ProposalNotFound,
    ProposalNotActive,
    Unauthorized,
    VotingPeriodEnded,
    UserAlreadyVoted,
    NoVotingPower,
    VotingPeriodNotEnded,
    ProposalNotPassed,
    ProposalDelayNotEnded,
    ExecuteProposalExpired,
    ProposalNotCompleted,
    /// A height, count or tally would exceed its integer type.
    Overflow,
}

/// Governance settings. Quorum and threshold are ratios in atomic units.
pub struct Config {
    pub staking_addr: String,
    pub vesting_addr: String,
    pub gov_token_denom: String,
    pub proposal_voting_period: u64,
    pub proposal_effective_delay: u64,
    pub proposal_expiration_period: u64,
    pub proposal_required_deposit: u128,
    pub proposal_required_quorum: u128,
    pub proposal_required_threshold: u128,
}

/// A change of settings: each field present replaces the current one.
pub struct UpdateConfig {
    pub proposal_voting_period: Option<u64>,
    pub proposal_effective_delay: Option<u64>,
    pub proposal_expiration_period: Option<u64>,
    pub proposal_required_deposit: Option<u128>,
    pub proposal_required_quorum: Option<String>,
    pub proposal_required_threshold: Option<String>,
}

impl Config {
    /// The first bound that the settings break, in the order checked.
    pub open spec fn validate_spec(&self) -> Option<GovError> {
        if self.proposal_required_threshold > MAX_THRESHOLD || self.proposal_required_threshold
            < MIN_THRESHOLD {
            Some(GovError::InvalidThreshold)
        } else if self.proposal_required_quorum > MAX_QUORUM || self.proposal_required_quorum
            < MIN_QUORUM {
            Some(GovError::InvalidQuorum)
        } else if !(MIN_DELAY <= self.proposal_effective_delay <= MAX_DELAY) {
            Some(GovError::InvalidDelay)
        } else if !(MIN_EXPIRATION_PERIOD <= self.proposal_expiration_period
            <= MAX_EXPIRATION_PERIOD) {
            Some(GovError::InvalidExpirationPeriod)
        } else if !(MIN_VOTING_PERIOD <= self.proposal_voting_period <= MAX_VOTING_PERIOD) {
            Some(GovError::InvalidVotingPeriod)
        } else if !(MIN_DEPOSIT <= self.proposal_required_deposit <= MAX_DEPOSIT) {
            Some(GovError::InvalidDeposit)
        } else {
            None
        }
    }

    pub open spec fn valid(&self) -> bool {
        self.validate_spec() is None
    }

    /// Checks the settings against their bounds.
    pub fn validate(&self) -> (r: Result<(), GovError>)
        ensures
            match self.validate_spec() {
                Some(e) => r == Err::<(), GovError>(e),
                None => r.is_ok(),
            },
    {
        if self.proposal_required_threshold > MAX_THRESHOLD || self.proposal_required_threshold
            < MIN_THRESHOLD {
            return Err(GovError::InvalidThreshold);
        }
        if self.proposal_required_quorum > MAX_QUORUM || self.proposal_required_quorum
            < MIN_QUORUM {
            return Err(GovError::InvalidQuorum);
        }
        if !(MIN_DELAY <= self.proposal_effective_delay && self.proposal_effective_delay
            <= MAX_DELAY) {
            return Err(GovError::InvalidDelay);
        }
        if !(MIN_EXPIRATION_PERIOD <= self.proposal_expiration_period
            && self.proposal_expiration_period <= MAX_EXPIRATION_PERIOD) {
            return Err(GovError::InvalidExpirationPeriod);
        }
        if !(MIN_VOTING_PERIOD <= self.proposal_voting_period && self.proposal_voting_period
            <= MAX_VOTING_PERIOD) {
            return Err(GovError::InvalidVotingPeriod);
        }
        if !(MIN_DEPOSIT <= self.proposal_required_deposit && self.proposal_required_deposit
            <= MAX_DEPOSIT) {
            return Err(GovError::InvalidDeposit);
        }
        Ok(())
    }

    /// The settings with the fields of `patch` applied, quorum and threshold
    /// given as parsed atomic units.
    pub open spec fn patched(
        &self,
        patch: &UpdateConfig,
        quorum: Option<u128>,
        threshold: Option<u128>,
    ) -> Config {
        Config {
            staking_addr: self.staking_addr,
            vesting_addr: self.vesting_addr,
            gov_token_denom: self.gov_token_denom,
            proposal_voting_period: match patch.proposal_voting_period {
                Some(v) => v,
                None => self.proposal_voting_period,
            },
            proposal_effective_delay: match patch.proposal_effective_delay {
                Some(v) => v,
                None => self.proposal_effective_delay,
            },
            proposal_expiration_period: match patch.proposal_expiration_period {
                Some(v) => v,
                None => self.proposal_expiration_period,
            },
            proposal_required_deposit: match patch.proposal_required_deposit {
                Some(v) => v,
                None => self.proposal_required_deposit,
            },
            proposal_required_quorum: match quorum {
                Some(v) => v,
                None => self.proposal_required_quorum,
            },
            proposal_required_threshold: match threshold {
                Some(v) => v,
                None => self.proposal_required_threshold,
            },
        }
    }

    /// Applies `patch`, with its quorum and threshold already parsed into
    /// atomic units, and checks the result as a whole. On an error the
    /// settings stay as they were.
    pub fn apply_update(
        &mut self,
        patch: &UpdateConfig,
        quorum: Option<u128>,
        threshold: Option<u128>,
    ) -> (r: Result<(), GovError>)
        ensures
            match old(self).patched(patch, quorum, threshold).validate_spec() {
                Some(e) => r == Err::<(), GovError>(e) && *final(self) == *old(self),
                None => r.is_ok() && *final(self) == old(self).patched(patch, quorum, threshold),
            },
    {
        let next = Config {
            staking_addr: self.staking_addr.clone(),
            vesting_addr: self.vesting_addr.clone(),
            gov_token_denom: self.gov_token_denom.clone(),
            proposal_voting_period: match patch.proposal_voting_period {
                Some(v) => v,
                None => self.proposal_voting_period,
            },
            proposal_effective_delay: match patch.proposal_effective_delay {
                Some(v) => v,
                None => self.proposal_effective_delay,
            },
            proposal_expiration_period: match patch.proposal_expiration_period {
                Some(v) => v,
                None => self.proposal_expiration_period,
            },
            proposal_required_deposit: match patch.proposal_required_deposit {
                Some(v) => v,
                None => self.proposal_required_deposit,
            },
            proposal_required_quorum: match quorum {
                Some(v) => v,
                None => self.proposal_required_quorum,
            },
            proposal_required_threshold: match threshold {
                Some(v) => v,
                None => self.proposal_required_threshold,
            },
        };
        match next.validate() {
            Ok(()) => {
                *self = next;
                Ok(())
            },
            Err(e) => Err(e),
        }
    }
}

/// Parses an optional decimal text: `Ok(None)` when absent, an error when
/// present and not a decimal.
fn parse_optional(s: &Option<String>) -> (r: Result<Option<u128>, GovError>)
    ensures
        match s {
            None => r == Ok::<Option<u128>, GovError>(None),
            Some(t) => match decimal_atomics(t@) {
                Some(v) => r == Ok::<Option<u128>, GovError>(Some(v)),
                None => r == Err::<Option<u128>, GovError>(GovError::InvalidDecimal),
            },
        },
{
    match s {
        None => Ok(None),
        Some(t) => match parse_decimal(t.as_str()) {
            Some(v) => Ok(Some(v)),
            None => Err(GovError::InvalidDecimal),
        },
    }
}

/// Parses the quorum and threshold of `patch`: the first text present that
/// is not a decimal gives an error, quorum first.
pub fn parse_update(patch: &UpdateConfig) -> (r: Result<(Option<u128>, Option<u128>), GovError>)
    ensures
        ({
            let q = match patch.proposal_required_quorum {
                Some(t) => Some(decimal_atomics(t@)),
                None => None,
            };
            let t = match patch.proposal_required_threshold {
                Some(t) => Some(decimal_atomics(t@)),
                None => None,
            };
            if q == Some(None::<u128>) || t == Some(None::<u128>) {
                r == Err::<(Option<u128>, Option<u128>), GovError>(GovError::InvalidDecimal)
            } else {
                r == Ok::<(Option<u128>, Option<u128>), GovError>(
                    (
                        match q {
                            Some(v) => v,
                            None => None,
                        },
                        match t {
                            Some(v) => v,
                            None => None,
                        },
                    ),
                )
            }
        }),
{
    let q = match parse_optional(&patch.proposal_required_quorum) {
        Ok(v) => v,
        Err(e) => return Err(e),
    };
    let t = match parse_optional(&patch.proposal_required_threshold) {
        Ok(v) => v,
        Err(e) => return Err(e),
    };
    Ok((q, t))
}

/// The denomination that deposits are paid in.
pub fn get_gov_token_denom(config: &Config) -> (r: String)
    ensures
        r == config.gov_token_denom,
{
    config.gov_token_denom.clone()
}

} // verus!
