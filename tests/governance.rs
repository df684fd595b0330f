use goblin_gov::coin::Coin;
use goblin_gov::config::{Config, GovError, UpdateConfig};
use goblin_gov::governance::{validate_funds, Governance, InstantiateMsg};
use goblin_gov::ledger::{insert_stake, SnapshotLedger};
use goblin_gov::proposal::{validate_text, ProposalStatus, ProposalVoteOption};
use goblin_gov::text::{is_safe_link, validate_links};

const DENOM: &str = "ugob";
const DEPOSIT: u128 = 10_000_000_000;
const E18: u128 = 1_000_000_000_000_000_000;

fn valid_config() -> Config {
    Config {
        staking_addr: "staking".to_string(),
        vesting_addr: "vesting".to_string(),
        gov_token_denom: DENOM.to_string(),
        proposal_voting_period: 12342,
        proposal_effective_delay: 6171,
        proposal_expiration_period: 12342,
        proposal_required_deposit: DEPOSIT,
        proposal_required_quorum: E18 / 10,
        proposal_required_threshold: E18 / 2,
    }
}

fn deposit(amount: u128) -> Vec<Coin> {
    vec![Coin { denom: DENOM.to_string(), amount }]
}

fn s(x: &str) -> String {
    x.to_string()
}

fn submit(g: &mut Governance<String>, who: &str, height: u64) -> Result<u64, GovError> {
    g.submit_proposal(
        &s(who),
        &deposit(DEPOSIT),
        height,
        height * 7,
        s("Raise the cap"),
        s("Raise the cap to ten."),
        None,
        Some(vec![s("msg-one"), s("msg-two")]),
    )
}

fn short_periods() -> Governance<String> {
    let mut cfg = valid_config();
    cfg.proposal_voting_period = 1000;
    cfg.proposal_effective_delay = 500;
    cfg.proposal_expiration_period = 2000;
    Governance { config: cfg, proposal_count: 0, proposals: Vec::new() }
}

/// A governance with one proposal (id 1) submitted at 10000 and passed.
fn passed_at_10000() -> Governance<String> {
    let mut g = short_periods();
    let mut l = SnapshotLedger::new();
    insert_stake(&mut l, &s("voter"), 100, 5000).unwrap();
    assert_eq!(submit(&mut g, "author", 10000), Ok(1));
    g.cast_vote_from_ledger(&l, &s("voter"), 1, ProposalVoteOption::For, 10500).unwrap();
    g.end_proposal_from_ledger(&l, 1, 11001).unwrap();
    assert_eq!(g.proposals[0].status, ProposalStatus::Passed);
    g
}

#[test]
fn block_markers_follow_the_settings() {
    let mut g = short_periods();
    submit(&mut g, "author", 10000).unwrap();
    let p = &g.proposals[0];
    assert_eq!(p.start_block, 10000);
    assert_eq!(p.start_time, 70000);
    assert_eq!(p.end_block, 11000);
    assert_eq!(p.delayed_end_block, 11500);
    assert_eq!(p.expiration_block, 13500);
    assert_eq!(p.status, ProposalStatus::Active);
    assert_eq!(p.deposit_amount, DEPOSIT);
}

#[test]
fn execute_respects_delay_and_runs_once() {
    let mut g = passed_at_10000();
    assert_eq!(g.execute_proposal(1, 11499), Err(GovError::ProposalDelayNotEnded));
    assert_eq!(g.execute_proposal(1, 11500), Ok(vec![s("msg-one"), s("msg-two")]));
    assert_eq!(g.proposals[0].status, ProposalStatus::Executed);
    assert_eq!(g.execute_proposal(1, 11600), Err(GovError::ProposalNotPassed));
}

#[test]
fn execute_after_expiration_fails() {
    let mut g = passed_at_10000();
    assert_eq!(g.execute_proposal(1, 13501), Err(GovError::ExecuteProposalExpired));
    assert_eq!(g.execute_proposal(1, 13500).map(|m| m.len()), Ok(2));
}

#[test]
fn execute_without_messages_gives_none() {
    let mut g = short_periods();
    let mut l = SnapshotLedger::new();
    insert_stake(&mut l, &s("voter"), 100, 1).unwrap();
    g.submit_proposal(&s("author"), &deposit(DEPOSIT), 10, 70, s("Title"), s("Body text"), None, None)
        .unwrap();
    g.cast_vote_from_ledger(&l, &s("voter"), 1, ProposalVoteOption::For, 11).unwrap();
    g.end_proposal_from_ledger(&l, 1, 1011).unwrap();
    assert_eq!(g.execute_proposal(1, 1510), Ok(vec![]));
}

#[test]
fn deposit_below_minimum_fails_and_minimum_succeeds() {
    let mut g = Governance::<String>::new(valid_config()).unwrap();
    let r = g.submit_proposal(
        &s("author"),
        &deposit(DEPOSIT - 1),
        1,
        1,
        s("Title"),
        s("Body text"),
        None,
        None,
    );
    assert_eq!(r, Err(GovError::InsufficientDeposit));
    assert_eq!(g.proposal_count, 0);
    let r = g.submit_proposal(
        &s("author"),
        &deposit(DEPOSIT),
        1,
        1,
        s("Title"),
        s("Body text"),
        None,
        None,
    );
    assert_eq!(r, Ok(1));
    assert_eq!(g.proposal_count, 1);
}

#[test]
fn funds_must_be_one_coin_of_the_denom() {
    let d = s(DENOM);
    assert_eq!(validate_funds(&d, &vec![]).err(), Some(GovError::WrongFundsCount));
    let two = vec![
        Coin { denom: s(DENOM), amount: DEPOSIT },
        Coin { denom: s("x"), amount: 1 },
    ];
    assert_eq!(validate_funds(&d, &two).err(), Some(GovError::WrongFundsCount));
    let wrong = vec![Coin { denom: s("x"), amount: DEPOSIT }];
    assert_eq!(validate_funds(&d, &wrong).err(), Some(GovError::WrongDenom));
    assert_eq!(validate_funds(&d, &deposit(5)).map(|c| c.amount), Ok(5));
}

#[test]
fn text_rules() {
    let t = |title: &str, desc: &str, link: Option<&str>| {
        validate_text(&s(title), &s(desc), &link.map(s))
    };
    assert_eq!(t("abc", "good text", None), Err(GovError::TitleTooShort));
    assert_eq!(t(&"a".repeat(65), "good text", None), Err(GovError::TitleTooLong));
    assert_eq!(t("bad_title", "good text", None), Err(GovError::TitleInvalid));
    assert_eq!(t("Good", "abc", None), Err(GovError::DescriptionTooShort));
    assert_eq!(t("Good", &"a".repeat(1025), None), Err(GovError::DescriptionTooLong));
    assert_eq!(t("Good", "semi;colon", None), Err(GovError::DescriptionInvalid));
    assert_eq!(t("Good", "fine", Some("https://a")), Err(GovError::LinkTooShort));
    let long = format!("https://{}", "a".repeat(130));
    assert_eq!(t("Good", "fine", Some(&long)), Err(GovError::LinkTooLong));
    assert_eq!(t("Good", "fine", Some("https://ex ample.com")), Err(GovError::LinkInvalid));
    assert_eq!(t("Good (v2)!", "A \"quoted\" line.\nNext?", Some("https://example.com/x")), Ok(()));
    // Lengths count bytes: two two-byte characters reach the minimum.
    assert_eq!(t("éé", "good text", None), Err(GovError::TitleInvalid));
    assert_eq!(t(&"a".repeat(64), &"b".repeat(1024), None), Ok(()));
}

#[test]
fn link_characters() {
    assert!(is_safe_link("https://example.com/path?q=1&r=[2]#frag"));
    assert!(!is_safe_link("https://example.com/a b"));
    assert!(!is_safe_link("https://example.com/<x>"));
    assert_eq!(validate_links(&vec![s("https://a.com/"), s("http://b.org/")]), Ok(()));
    assert_eq!(validate_links(&vec![s("https://a.com/"), s("https://acom/")]), Err(1));
    assert_eq!(validate_links(&vec![s("https://a.com")]), Err(0));
}

#[test]
fn voters_are_listed_once_on_one_side() {
    let mut g = short_periods();
    let mut l = SnapshotLedger::new();
    insert_stake(&mut l, &s("v"), 10, 1).unwrap();
    submit(&mut g, "author", 10).unwrap();
    g.cast_vote_from_ledger(&l, &s("v"), 1, ProposalVoteOption::For, 11).unwrap();
    assert_eq!(
        g.cast_vote_from_ledger(&l, &s("v"), 1, ProposalVoteOption::For, 12),
        Err(GovError::UserAlreadyVoted)
    );
    assert_eq!(
        g.cast_vote_from_ledger(&l, &s("v"), 1, ProposalVoteOption::Against, 12),
        Err(GovError::UserAlreadyVoted)
    );
    assert_eq!(g.proposals[0].yes_voters, vec![s("v")]);
    assert!(g.proposals[0].no_voters.is_empty());
    assert_eq!(g.proposals[0].yes_power, 10);
}

#[test]
fn power_is_read_before_the_start_block() {
    let mut g = short_periods();
    let mut l = SnapshotLedger::new();
    insert_stake(&mut l, &s("early"), 10, 99).unwrap();
    insert_stake(&mut l, &s("late"), 10, 100).unwrap();
    submit(&mut g, "author", 100).unwrap();
    insert_stake(&mut l, &s("early"), 1000, 101).unwrap();
    assert_eq!(
        g.cast_vote_from_ledger(&l, &s("late"), 1, ProposalVoteOption::For, 101),
        Err(GovError::NoVotingPower)
    );
    g.cast_vote_from_ledger(&l, &s("early"), 1, ProposalVoteOption::Against, 101).unwrap();
    assert_eq!(g.proposals[0].no_power, 10);
    let v = g.query_proposal_votes(1).unwrap();
    assert_eq!((v.proposal_id, v.for_power, v.against_power), (1, 0, 10));
}

#[test]
fn vote_errors() {
    let mut g = short_periods();
    submit(&mut g, "author", 10).unwrap();
    let f = ProposalVoteOption::For;
    assert_eq!(g.cast_vote(&s("v"), 2, f, 11, 5), Err(GovError::ProposalNotFound));
    assert_eq!(g.cast_vote(&s("author"), 1, f, 11, 5), Err(GovError::Unauthorized));
    assert_eq!(g.cast_vote(&s("v"), 1, f, 1011, 5), Err(GovError::VotingPeriodEnded));
    assert_eq!(g.cast_vote(&s("v"), 1, f, 1010, 0), Err(GovError::NoVotingPower));
    g.cast_vote(&s("v"), 1, f, 1010, u128::MAX).unwrap();
    assert_eq!(g.cast_vote(&s("w"), 1, f, 1010, 1), Err(GovError::Overflow));
    let mut g = short_periods();
    submit(&mut g, "author", 10).unwrap();
    g.end_proposal(1, 1011, 100).unwrap();
    assert_eq!(g.cast_vote(&s("v"), 1, f, 1011, 5), Err(GovError::ProposalNotActive));
}

#[test]
fn quorum_at_minimum_passes() {
    // Quorum 10 of 100 equals the required 0.1; threshold 1.0 exceeds 0.5.
    let mut g = short_periods();
    submit(&mut g, "author", 10).unwrap();
    g.cast_vote(&s("v"), 1, ProposalVoteOption::For, 11, 10).unwrap();
    g.end_proposal(1, 1011, 100).unwrap();
    assert_eq!(g.proposals[0].status, ProposalStatus::Passed);
}

#[test]
fn quorum_below_minimum_rejects() {
    let mut g = short_periods();
    submit(&mut g, "author", 10).unwrap();
    g.cast_vote(&s("v"), 1, ProposalVoteOption::For, 11, 9).unwrap();
    g.end_proposal(1, 1011, 100).unwrap();
    assert_eq!(g.proposals[0].status, ProposalStatus::Rejected);
}

#[test]
fn threshold_at_minimum_rejects() {
    // 50 for and 50 against give a threshold of exactly 0.5.
    let mut g = short_periods();
    submit(&mut g, "author", 10).unwrap();
    g.cast_vote(&s("v"), 1, ProposalVoteOption::For, 11, 50).unwrap();
    g.cast_vote(&s("w"), 1, ProposalVoteOption::Against, 11, 50).unwrap();
    let refund = g.end_proposal(1, 1011, 100).unwrap();
    assert_eq!(g.proposals[0].status, ProposalStatus::Rejected);
    assert_eq!(refund.to_address, "author");
    assert_eq!(refund.amount.amount, DEPOSIT);
    assert_eq!(refund.amount.denom, DENOM);
}

#[test]
fn end_refunds_deposit_when_passed() {
    let mut g = short_periods();
    g.submit_proposal(&s("author"), &deposit(DEPOSIT + 77), 10, 70, s("Title"), s("Body"), None, None)
        .unwrap();
    g.cast_vote(&s("v"), 1, ProposalVoteOption::For, 11, 51).unwrap();
    g.cast_vote(&s("w"), 1, ProposalVoteOption::Against, 11, 49).unwrap();
    let refund = g.end_proposal(1, 1011, 100).unwrap();
    assert_eq!(g.proposals[0].status, ProposalStatus::Passed);
    assert_eq!(refund.to_address, "author");
    assert_eq!(refund.amount.amount, DEPOSIT + 77);
}

#[test]
fn end_with_no_power_rejects() {
    let mut g = short_periods();
    submit(&mut g, "author", 10).unwrap();
    g.end_proposal(1, 1011, 0).unwrap();
    assert_eq!(g.proposals[0].status, ProposalStatus::Rejected);
}

#[test]
fn end_errors() {
    let mut g = short_periods();
    submit(&mut g, "author", 10).unwrap();
    assert_eq!(g.end_proposal(1, 1010, 100).err(), Some(GovError::VotingPeriodNotEnded));
    assert_eq!(g.end_proposal(9, 1011, 100).err(), Some(GovError::ProposalNotFound));
    g.end_proposal(1, 1011, 100).unwrap();
    assert_eq!(g.end_proposal(1, 1012, 100).err(), Some(GovError::ProposalNotActive));
    let mut g = short_periods();
    submit(&mut g, "author", 10).unwrap();
    g.cast_vote(&s("v"), 1, ProposalVoteOption::For, 11, u128::MAX).unwrap();
    assert_eq!(g.end_proposal(1, 1011, 1).err(), Some(GovError::Overflow));
}

#[test]
fn remove_rejected_or_expired_only() {
    let mut g = short_periods();
    submit(&mut g, "author", 10).unwrap();
    assert_eq!(g.remove_completed_proposal(1, 20), Err(GovError::ProposalNotCompleted));
    g.end_proposal(1, 1011, 100).unwrap();
    assert_eq!(g.remove_completed_proposal(1, 1012), Ok(()));
    assert!(g.proposals.is_empty());
    assert_eq!(g.remove_completed_proposal(1, 1012), Err(GovError::ProposalNotFound));

    let mut g = passed_at_10000();
    assert_eq!(g.remove_completed_proposal(1, 13500), Err(GovError::ProposalNotCompleted));
    assert_eq!(g.remove_completed_proposal(1, 13501), Ok(()));
    assert!(g.proposals.is_empty());
}

#[test]
fn executed_proposal_is_never_removed() {
    let mut g = passed_at_10000();
    g.execute_proposal(1, 11500).unwrap();
    assert_eq!(g.remove_completed_proposal(1, 13501), Err(GovError::ProposalNotCompleted));
    assert_eq!(g.remove_completed_proposal(1, 99999), Err(GovError::ProposalNotCompleted));
    assert_eq!(g.proposals.len(), 1);
    assert_eq!(g.proposals[0].status, ProposalStatus::Executed);
}

#[test]
fn active_proposal_past_expiry_is_removed() {
    let mut g = short_periods();
    submit(&mut g, "author", 10).unwrap();
    assert_eq!(g.remove_completed_proposal(1, 3510), Err(GovError::ProposalNotCompleted));
    assert_eq!(g.remove_completed_proposal(1, 3511), Ok(()));
    assert!(g.proposals.is_empty());
}

#[test]
fn voters_page() {
    let mut g = short_periods();
    submit(&mut g, "author", 10).unwrap();
    for i in 0..5 {
        g.cast_vote(&format!("v{i}"), 1, ProposalVoteOption::For, 11, 1).unwrap();
    }
    let f = ProposalVoteOption::For;
    assert_eq!(g.query_proposal_voters(1, f, Some(1), Some(2)), Ok(vec![s("v1"), s("v2")]));
    assert_eq!(g.query_proposal_voters(1, f, None, None).map(|v| v.len()), Ok(5));
    assert_eq!(g.query_proposal_voters(1, f, Some(9), None), Ok(vec![]));
    assert_eq!(g.query_proposal_voters(1, ProposalVoteOption::Against, None, None), Ok(vec![]));
}

#[test]
fn config_bounds() {
    assert_eq!(valid_config().validate(), Ok(()));
    let mut c = valid_config();
    c.proposal_required_threshold = E18 / 100 * 33 - 1;
    assert_eq!(c.validate(), Err(GovError::InvalidThreshold));
    c.proposal_required_threshold = E18 / 100 * 33;
    assert_eq!(c.validate(), Ok(()));
    c.proposal_required_quorum = E18 + 1;
    assert_eq!(c.validate(), Err(GovError::InvalidQuorum));
    c.proposal_required_quorum = E18 / 10_000;
    assert_eq!(c.validate(), Ok(()));
    c.proposal_required_quorum = E18 / 10_000 - 1;
    assert_eq!(c.validate(), Err(GovError::InvalidQuorum));
    let mut c = valid_config();
    c.proposal_effective_delay = 6170;
    assert_eq!(c.validate(), Err(GovError::InvalidDelay));
    let mut c = valid_config();
    c.proposal_expiration_period = 100801;
    assert_eq!(c.validate(), Err(GovError::InvalidExpirationPeriod));
    let mut c = valid_config();
    c.proposal_voting_period = 7 * 12342 + 1;
    assert_eq!(c.validate(), Err(GovError::InvalidVotingPeriod));
    let mut c = valid_config();
    c.proposal_required_deposit = 60_000_000_001;
    assert_eq!(c.validate(), Err(GovError::InvalidDeposit));
    assert!(Governance::<String>::new(c).is_err());
}

fn empty_patch() -> UpdateConfig {
    UpdateConfig {
        proposal_voting_period: None,
        proposal_effective_delay: None,
        proposal_expiration_period: None,
        proposal_required_deposit: None,
        proposal_required_quorum: None,
        proposal_required_threshold: None,
    }
}

#[test]
fn update_config_only_from_itself() {
    let mut g = Governance::<String>::new(valid_config()).unwrap();
    let mut patch = empty_patch();
    patch.proposal_voting_period = Some(20000);
    patch.proposal_required_quorum = Some(s("0.25"));
    assert_eq!(g.update_config(&s("someone"), &s("gov"), &patch), Err(GovError::Unauthorized));
    assert_eq!(g.config.proposal_voting_period, 12342);
    assert_eq!(g.update_config(&s("gov"), &s("gov"), &patch), Ok(()));
    assert_eq!(g.config.proposal_voting_period, 20000);
    assert_eq!(g.config.proposal_required_quorum, E18 / 4);
    assert_eq!(g.config.proposal_required_threshold, E18 / 2);
}

#[test]
fn update_config_rejects_invalid_result_whole() {
    let mut g = Governance::<String>::new(valid_config()).unwrap();
    let mut patch = empty_patch();
    patch.proposal_voting_period = Some(20000);
    patch.proposal_required_threshold = Some(s("0.2"));
    assert_eq!(g.update_config(&s("gov"), &s("gov"), &patch), Err(GovError::InvalidThreshold));
    assert_eq!(g.config.proposal_voting_period, 12342);
    patch.proposal_required_threshold = Some(s("half"));
    assert_eq!(g.update_config(&s("gov"), &s("gov"), &patch), Err(GovError::InvalidDecimal));
}

#[test]
fn apply_update_with_parsed_values() {
    let mut c = valid_config();
    let patch = empty_patch();
    assert_eq!(c.apply_update(&patch, Some(E18 / 5), Some(E18 * 3 / 5)), Ok(()));
    assert_eq!(c.proposal_required_quorum, E18 / 5);
    assert_eq!(c.proposal_required_threshold, E18 * 3 / 5);
    assert_eq!(c.apply_update(&patch, Some(E18 * 2), None), Err(GovError::InvalidQuorum));
    assert_eq!(c.proposal_required_quorum, E18 / 5);
}

#[test]
fn instantiate_parses_decimals() {
    let msg = InstantiateMsg {
        staking_addr: s("staking"),
        vesting_addr: s("vesting"),
        gov_token_denom: s(DENOM),
        proposal_voting_period: 12342,
        proposal_effective_delay: 6171,
        proposal_expiration_period: 12342,
        proposal_required_deposit: DEPOSIT,
        proposal_required_quorum: s("0.01"),
        proposal_required_threshold: s("0.5"),
    };
    let g = Governance::<String>::instantiate(msg).unwrap();
    assert_eq!(g.config.proposal_required_quorum, E18 / 100);
    assert_eq!(g.config.proposal_required_threshold, E18 / 2);
    assert_eq!(g.proposal_count, 0);
}

#[test]
fn status_and_option_names() {
    assert_eq!(ProposalStatus::InProgress.as_str(), "in_progress");
    assert_eq!(ProposalStatus::Expired.as_str(), "expired");
    assert_eq!(ProposalVoteOption::Against.as_str(), "against");
}

#[test]
fn proposals_page_in_id_order() {
    let mut g = short_periods();
    for h in 0..12u64 {
        submit(&mut g, "author", 10 + h).unwrap();
    }
    g.end_proposal(3, 2000, 0).unwrap();
    g.remove_completed_proposal(3, 2000).unwrap();
    let page = g.query_proposals(None, None);
    assert_eq!(page.proposal_count, 12);
    let ids: Vec<u64> = page.proposal_list.iter().map(|p| p.proposal_id).collect();
    assert_eq!(ids, vec![1, 2, 4, 5, 6, 7, 8, 9, 10, 11]);
    let page = g.query_proposals(Some(3), Some(2));
    let ids: Vec<u64> = page.proposal_list.iter().map(|p| p.proposal_id).collect();
    assert_eq!(ids, vec![4, 5]);
    let page = g.query_proposals(Some(4), Some(2));
    let ids: Vec<u64> = page.proposal_list.iter().map(|p| p.proposal_id).collect();
    assert_eq!(ids, vec![5, 6]);
    let page = g.query_proposals(Some(11), Some(100));
    let ids: Vec<u64> = page.proposal_list.iter().map(|p| p.proposal_id).collect();
    assert_eq!(ids, vec![12]);
    assert!(g.query_proposals(Some(12), None).proposal_list.is_empty());
    let p = g.query_proposal(12).unwrap();
    assert_eq!(p.messages, Some(vec![s("msg-one"), s("msg-two")]));
    assert_eq!(p.start_block, 21);
    assert_eq!(g.query_proposal(3).err(), Some(GovError::ProposalNotFound));
}
