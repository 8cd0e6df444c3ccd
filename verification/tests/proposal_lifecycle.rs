use chrono::{Duration, Utc};
use icn_covm::lifecycle::{
    base_vote_value, logic_step, select_logic, ExecutionStatus, LogicAction, LogicEvent, ParseQuorumMethodError, ParseVoteChoiceError,
    ParseVoteWeightingError, ProposalLifecycle, ProposalState, QuorumMethod, VoteChoice, VoteTally,
    VoteWeighting,
};

fn create_test_proposal() -> ProposalLifecycle {
    ProposalLifecycle::new_backwards_compatible(
        "prop-123".to_string(),
        "test_creator".to_string(),
        "Test Proposal".to_string(),
        10,
        5,
        Some(Duration::days(7).num_milliseconds()),
        None,
    )
}

fn voting_proposal_at(now: i64, duration: i64) -> ProposalLifecycle {
    let mut p = ProposalLifecycle::new_backwards_compatible_at(
        now,
        "p".to_string(),
        "c".to_string(),
        "t".to_string(),
        50,
        60,
        None,
        None,
    );
    p.open_for_feedback_at(now);
    p.start_voting_at(now, duration);
    p
}

#[test]
fn test_proposal_creation_state() {
    let proposal = create_test_proposal();
    assert_eq!(proposal.state, ProposalState::Draft);
    assert_eq!(proposal.current_version, 1);
    assert_eq!(proposal.history.len(), 1);
    assert_eq!(proposal.history[0].1, ProposalState::Draft);
}

#[test]
fn test_open_for_feedback_transition() {
    let mut proposal = create_test_proposal();
    assert_eq!(proposal.state, ProposalState::Draft);

    proposal.open_for_feedback();

    assert_eq!(proposal.state, ProposalState::OpenForFeedback);
    assert_eq!(proposal.history.len(), 2);
    assert_eq!(proposal.history[1].1, ProposalState::OpenForFeedback);
}

#[test]
fn test_start_voting_transition() {
    let mut proposal = create_test_proposal();
    proposal.open_for_feedback();
    assert_eq!(proposal.state, ProposalState::OpenForFeedback);
    assert!(proposal.expires_at.is_none());

    let voting_duration = Duration::days(3);
    let expected_expiry_min = Utc::now() + voting_duration - Duration::seconds(1);
    let expected_expiry_max = Utc::now() + voting_duration + Duration::seconds(1);

    proposal.start_voting(voting_duration.num_milliseconds());

    assert_eq!(proposal.state, ProposalState::Voting);
    assert_eq!(proposal.history.len(), 3);
    assert_eq!(proposal.history[2].1, ProposalState::Voting);
    assert!(proposal.expires_at.is_some());
    let expires_at = proposal
        .expires_at
        .expect("Expiry time should be set after start_voting");
    assert!(
        expires_at > expected_expiry_min.timestamp_millis()
            && expires_at < expected_expiry_max.timestamp_millis(),
        "Expiry time not within expected range"
    );
}

#[test]
fn test_invalid_transitions() {
    let mut proposal = create_test_proposal();

    let initial_state = proposal.state.clone();
    let initial_history_len = proposal.history.len();
    proposal.start_voting(Duration::days(1).num_milliseconds());
    assert_eq!(proposal.state, initial_state);
    assert_eq!(proposal.history.len(), initial_history_len);
    assert!(proposal.expires_at.is_none());

    proposal.open_for_feedback();
    proposal.start_voting(Duration::days(1).num_milliseconds());
    assert_eq!(proposal.state, ProposalState::Voting);
    let state_before_invalid = proposal.state.clone();
    let history_len_before_invalid = proposal.history.len();

    proposal.open_for_feedback();

    assert_eq!(proposal.state, state_before_invalid);
    assert_eq!(proposal.history.len(), history_len_before_invalid);
}

#[test]
fn new_records_creation_and_defaults() {
    let p = ProposalLifecycle::new_at(
        1_000,
        "id".to_string(),
        "alice".to_string(),
        "Title".to_string(),
        QuorumMethod::Percentage(40),
        70,
        VoteWeighting::Stake,
        None,
        Some(3),
    );
    assert_eq!(p.created_at, 1_000);
    assert_eq!(p.history, vec![(1_000, ProposalState::Draft)]);
    assert_eq!(p.quorum_method, QuorumMethod::Percentage(40));
    assert_eq!(p.approval_threshold, 70);
    assert_eq!(p.vote_weighting, VoteWeighting::Stake);
    assert_eq!(p.required_participants, Some(3));
    assert_eq!(p.expires_at, None);
    assert!(!p.auto_execute);
    assert!(!p.allow_early_execution);
    assert_eq!(p.min_voting_period, None);
    assert_eq!(p.execution_status, None);
}

#[test]
fn legacy_numbers_map_to_quorum_and_threshold() {
    let mk = |q: u64, t: u64| {
        ProposalLifecycle::new_backwards_compatible_at(
            0,
            "i".to_string(),
            "c".to_string(),
            "t".to_string(),
            q,
            t,
            None,
            None,
        )
    };
    assert_eq!(mk(0, 5).quorum_method, QuorumMethod::NoQuorum);
    assert_eq!(mk(10, 5).quorum_method, QuorumMethod::Percentage(10));
    assert_eq!(mk(100, 5).quorum_method, QuorumMethod::Percentage(100));
    assert_eq!(mk(101, 5).quorum_method, QuorumMethod::FixedNumber(101));
    assert_eq!(mk(10, 5).approval_threshold, 5);
    assert_eq!(mk(10, 150).approval_threshold, 100);
    // Older thresholds above 100 are capped at 100.
    assert_eq!(mk(10, 300).approval_threshold, 100);
    assert_eq!(mk(10, u64::MAX).approval_threshold, 100);
    assert_eq!(mk(10, 100).approval_threshold, 100);
    assert_eq!(mk(10, 99).approval_threshold, 99);
    assert_eq!(mk(10, 5).vote_weighting, VoteWeighting::Equal);
}

#[test]
fn start_voting_respects_minimum_period() {
    let mut p = ProposalLifecycle::new_at(
        0,
        "i".to_string(),
        "c".to_string(),
        "t".to_string(),
        QuorumMethod::NoQuorum,
        50,
        VoteWeighting::Equal,
        None,
        None,
    );
    p.min_voting_period = Some(10_000);
    p.open_for_feedback_at(5);
    p.start_voting_at(100, 2_000);
    assert_eq!(p.expires_at, Some(10_100));
    assert_eq!(
        p.history,
        vec![
            (0, ProposalState::Draft),
            (5, ProposalState::OpenForFeedback),
            (100, ProposalState::Voting)
        ]
    );

    let mut q = voting_proposal_at(100, 50_000);
    assert_eq!(q.expires_at, Some(50_100));
    q.min_voting_period = Some(1);
    assert_eq!(q.state, ProposalState::Voting);
}

#[test]
fn execute_waits_for_voting_period_unless_early_allowed() {
    let mut p = voting_proposal_at(0, 1_000);
    p.execute_at(999);
    assert_eq!(p.state, ProposalState::Voting);
    assert_eq!(p.history.len(), 3);
    p.execute_at(1_000);
    assert_eq!(p.state, ProposalState::Executed);
    assert_eq!(p.history.last(), Some(&(1_000, ProposalState::Executed)));

    let mut early = voting_proposal_at(0, 1_000);
    early.allow_early_execution = true;
    early.execute_at(10);
    assert_eq!(early.state, ProposalState::Executed);
}

#[test]
fn reject_and_expire_only_from_voting() {
    let mut p = voting_proposal_at(0, 1_000);
    p.reject_at(5);
    assert_eq!(p.state, ProposalState::Rejected);
    p.expire_at(5_000);
    assert_eq!(p.state, ProposalState::Rejected);

    let mut q = voting_proposal_at(0, 1_000);
    q.expire_at(1_000);
    assert_eq!(q.state, ProposalState::Voting);
    q.expire_at(1_001);
    assert_eq!(q.state, ProposalState::Expired);
    assert_eq!(q.history.last(), Some(&(1_001, ProposalState::Expired)));

    let mut draft = voting_proposal_at(0, 1_000);
    draft.state = ProposalState::Draft;
    draft.reject_at(1);
    assert_eq!(draft.state, ProposalState::Draft);
}

#[test]
fn check_expiry_reports_whether_it_expired() {
    let mut p = voting_proposal_at(0, 1_000);
    assert!(!p.check_expiry_at(500));
    assert_eq!(p.state, ProposalState::Voting);
    assert!(p.check_expiry_at(2_000));
    assert_eq!(p.state, ProposalState::Expired);
    assert!(!p.check_expiry_at(3_000));
    assert_eq!(p.history.len(), 4);
}

#[test]
fn check_expiry_with_clock() {
    let mut p = voting_proposal_at(0, 1_000);
    assert!(p.check_expiry());
    assert_eq!(p.state, ProposalState::Expired);
    let mut q = create_test_proposal();
    assert!(!q.check_expiry());
}

#[test]
fn update_version_keeps_state_and_records_it() {
    let mut p = voting_proposal_at(0, 1_000);
    p.update_version_at(42);
    assert_eq!(p.current_version, 2);
    assert_eq!(p.state, ProposalState::Voting);
    assert_eq!(p.history.last(), Some(&(42, ProposalState::Voting)));
    p.update_version();
    assert_eq!(p.current_version, 3);
    assert_eq!(p.history.len(), 5);
}

#[test]
fn transitions_after_a_vote() {
    let mut p = voting_proposal_at(0, 1_000);
    assert!(!p.transition_to_rejected_at(10, true));
    assert_eq!(p.state, ProposalState::Voting);
    assert!(p.transition_to_executed_at(10, true));
    assert_eq!(p.state, ProposalState::Executed);
    assert!(!p.transition_to_executed_at(11, true));

    let mut q = voting_proposal_at(0, 1_000);
    assert!(!q.transition_to_executed_at(10, false));
    assert!(q.transition_to_rejected_at(10, false));
    assert_eq!(q.state, ProposalState::Rejected);

    let mut r = voting_proposal_at(0, 1_000);
    assert!(!r.transition_to_expired_at(1_000));
    assert!(r.transition_to_expired_at(1_001));
    assert_eq!(r.state, ProposalState::Expired);

    let mut s = voting_proposal_at(0, 1_000);
    assert!(s.transition_to_executed(true));
    let mut t = voting_proposal_at(0, 1_000);
    assert!(t.transition_to_rejected(false));
    let mut u = voting_proposal_at(0, 1_000);
    assert!(u.transition_to_expired());
}

#[test]
fn terminal_states_stay_put() {
    let mut p = voting_proposal_at(0, 1_000);
    p.reject_at(1);
    let history = p.history.clone();
    p.open_for_feedback_at(2);
    p.start_voting_at(3, 10);
    p.execute_at(4_000);
    p.expire_at(5_000);
    assert!(!p.transition_to_executed_at(6, true));
    assert_eq!(p.state, ProposalState::Rejected);
    assert_eq!(p.history, history);
}

#[test]
fn quorum_methods() {
    let mut p = voting_proposal_at(0, 1);
    p.quorum_method = QuorumMethod::NoQuorum;
    assert!(p.is_quorum_reached(0, 0));
    p.quorum_method = QuorumMethod::Percentage(50);
    assert!(!p.is_quorum_reached(5, 0));
    assert!(p.is_quorum_reached(5, 10));
    assert!(!p.is_quorum_reached(4, 10));
    p.quorum_method = QuorumMethod::Percentage(29);
    assert!(p.is_quorum_reached(29, 100));
    p.quorum_method = QuorumMethod::FixedNumber(3);
    assert!(p.is_quorum_reached(3, 0));
    assert!(!p.is_quorum_reached(2, 100));
}

#[test]
fn approval_threshold() {
    let mut p = voting_proposal_at(0, 1);
    p.approval_threshold = 60;
    assert!(!p.is_threshold_met(0, 0));
    assert!(p.is_threshold_met(6, 10));
    assert!(!p.is_threshold_met(5, 10));
    p.approval_threshold = 0;
    assert!(p.is_threshold_met(0, 1));
    assert!(!p.is_threshold_met(0, 0));
}

#[test]
fn vote_choice_parsing() {
    assert_eq!("yes".parse::<VoteChoice>(), Ok(VoteChoice::Yes));
    assert_eq!("NO".parse::<VoteChoice>(), Ok(VoteChoice::No));
    assert_eq!("Abstain".parse::<VoteChoice>(), Ok(VoteChoice::Abstain));
    assert_eq!("maybe".parse::<VoteChoice>(), Err(ParseVoteChoiceError));
    assert_eq!(VoteChoice::from_lowercase("YES"), Err(ParseVoteChoiceError));
    assert_eq!(VoteChoice::Yes.name(), "Yes");
    assert_eq!(
        ParseVoteChoiceError.message(),
        "Invalid vote choice. Must be 'yes', 'no', or 'abstain'."
    );
}

#[test]
fn vote_weighting_parsing() {
    assert_eq!("equal".parse::<VoteWeighting>(), Ok(VoteWeighting::Equal));
    assert_eq!("Reputation".parse::<VoteWeighting>(), Ok(VoteWeighting::Reputation));
    assert_eq!("STAKE".parse::<VoteWeighting>(), Ok(VoteWeighting::Stake));
    assert_eq!("tenure".parse::<VoteWeighting>(), Ok(VoteWeighting::Tenure));
    assert_eq!("quadratic".parse::<VoteWeighting>(), Ok(VoteWeighting::Quadratic));
    assert_eq!("delegated".parse::<VoteWeighting>(), Ok(VoteWeighting::Delegated));
    assert_eq!(
        "Custom:MyAlgo".parse::<VoteWeighting>(),
        Ok(VoteWeighting::Custom("myalgo".to_string()))
    );
    assert_eq!("custom:".parse::<VoteWeighting>(), Ok(VoteWeighting::Custom(String::new())));
    assert_eq!("weighted".parse::<VoteWeighting>(), Err(ParseVoteWeightingError));
}

#[test]
fn quorum_method_parsing() {
    assert_eq!("percentage:50".parse::<QuorumMethod>(), Ok(QuorumMethod::Percentage(50)));
    assert_eq!("Percentage:+7".parse::<QuorumMethod>(), Ok(QuorumMethod::Percentage(7)));
    assert_eq!("percentage:100".parse::<QuorumMethod>(), Ok(QuorumMethod::Percentage(100)));
    assert_eq!("percentage:101".parse::<QuorumMethod>(), Err(ParseQuorumMethodError));
    assert_eq!("percentage:256".parse::<QuorumMethod>(), Err(ParseQuorumMethodError));
    assert_eq!("percentage:".parse::<QuorumMethod>(), Err(ParseQuorumMethodError));
    assert_eq!("percentage:-1".parse::<QuorumMethod>(), Err(ParseQuorumMethodError));
    assert_eq!("fixed:12".parse::<QuorumMethod>(), Ok(QuorumMethod::FixedNumber(12)));
    assert_eq!(
        "fixed:18446744073709551615".parse::<QuorumMethod>(),
        Ok(QuorumMethod::FixedNumber(u64::MAX))
    );
    assert_eq!("fixed:18446744073709551616".parse::<QuorumMethod>(), Err(ParseQuorumMethodError));
    assert_eq!("fixed: 3".parse::<QuorumMethod>(), Err(ParseQuorumMethodError));
    assert_eq!("NONE".parse::<QuorumMethod>(), Ok(QuorumMethod::NoQuorum));
    assert_eq!("half".parse::<QuorumMethod>(), Err(ParseQuorumMethodError));
}

#[test]
fn tally_filters_and_parses_votes() {
    let p = voting_proposal_at(0, 1_000);
    let entries = vec![
        ("proposals/p/votes/alice".to_string(), "yes".to_string()),
        ("proposals/p/votes/bob".to_string(), "No".to_string()),
        ("proposals/p/votes/carol/extra".to_string(), "yes".to_string()),
        ("proposals/q/votes/dave".to_string(), "yes".to_string()),
        ("proposals/p/votes/erin".to_string(), "perhaps".to_string()),
        ("proposals/p/votes/frank".to_string(), "abstain".to_string()),
    ];
    assert_eq!(
        p.tally_votes(&entries),
        Ok(vec![VoteChoice::Yes, VoteChoice::No, VoteChoice::Abstain])
    );
    assert_eq!(p.votes_prefix(), "proposals/p/votes/");
    assert_eq!(p.logic_key(), "proposals/p/attachments/logic");

    let draft = create_test_proposal();
    assert_eq!(
        draft.tally_votes(&entries),
        Err("Proposal prop-123 is not in Voting state".to_string())
    );
}

#[test]
fn tally_records_last_weight_per_choice() {
    let mut t = VoteTally::new();
    t.record(VoteChoice::Yes, 3);
    t.record(VoteChoice::No, 1);
    t.record(VoteChoice::Yes, 2);
    assert_eq!(t.get(VoteChoice::Yes), Some(2));
    assert_eq!(t.get(VoteChoice::No), Some(1));
    assert_eq!(t.get(VoteChoice::Abstain), None);
    assert_eq!(base_vote_value(VoteChoice::Yes), 1);
    assert_eq!(base_vote_value(VoteChoice::No), 1);
    assert_eq!(base_vote_value(VoteChoice::Abstain), 0);
}

#[test]
fn weight_lookup_keys() {
    let mut p = voting_proposal_at(0, 1_000);
    assert_eq!(p.weight_lookup_key("v"), None);
    p.vote_weighting = VoteWeighting::Reputation;
    assert_eq!(p.weight_lookup_key("v"), Some("identity:v/reputation".to_string()));
    p.vote_weighting = VoteWeighting::Stake;
    assert_eq!(p.weight_lookup_key("v"), Some("identity:v/stake".to_string()));
    p.vote_weighting = VoteWeighting::Tenure;
    assert_eq!(p.weight_lookup_key("v"), Some("identity:v/join_date".to_string()));
    p.vote_weighting = VoteWeighting::Quadratic;
    assert_eq!(p.weight_lookup_key("v"), Some("proposal:p/vote_credits/v".to_string()));
    p.vote_weighting = VoteWeighting::Delegated;
    assert_eq!(p.weight_lookup_key("v"), Some("identity:v/delegated_votes".to_string()));
    p.vote_weighting = VoteWeighting::Custom("algo".to_string());
    assert_eq!(p.weight_lookup_key("v"), Some("weight_algo:algo".to_string()));
}

#[test]
fn attached_logic_selection_and_status() {
    assert_eq!(select_logic(None), None);
    assert_eq!(select_logic(Some("  \n\t ".to_string())), None);
    assert_eq!(select_logic(Some(" push 1 ".to_string())), Some(" push 1 ".to_string()));
    assert_eq!(ExecutionStatus::from_run(Ok(())), ExecutionStatus::Success);
    assert_eq!(
        ExecutionStatus::from_run(Err("stack underflow".to_string())),
        ExecutionStatus::Failure("Runtime error during fork execution: stack underflow".to_string())
    );
}

#[test]
fn logic_execution_commits_or_rolls_back() {
    assert_eq!(logic_step(LogicEvent::NotFound), LogicAction::Commit(ExecutionStatus::Success));
    assert_eq!(
        logic_step(LogicEvent::Read("  \n ".to_string())),
        LogicAction::Commit(ExecutionStatus::Success)
    );
    assert_eq!(
        logic_step(LogicEvent::Read("push 1".to_string())),
        LogicAction::Parse("push 1".to_string())
    );
    assert_eq!(logic_step(LogicEvent::Parsed(Ok(()))), LogicAction::Run);
    assert_eq!(
        logic_step(LogicEvent::Parsed(Err("bad token".to_string()))),
        LogicAction::Fail("Failed to parse logic DSL: bad token".to_string())
    );
    assert_eq!(logic_step(LogicEvent::Ran(Ok(()))), LogicAction::Commit(ExecutionStatus::Success));
    assert_eq!(
        logic_step(LogicEvent::Ran(Err("stack underflow".to_string()))),
        LogicAction::Rollback(ExecutionStatus::Failure(
            "Runtime error during fork execution: stack underflow".to_string()
        ))
    );
    assert_eq!(
        logic_step(LogicEvent::NotUtf8("invalid utf-8 sequence".to_string())),
        LogicAction::Fail("Logic attachment is not valid UTF-8: invalid utf-8 sequence".to_string())
    );
    assert_eq!(
        logic_step(LogicEvent::ReadFailed("permission denied".to_string())),
        LogicAction::Fail("Failed to load logic attachment: permission denied".to_string())
    );
    assert_eq!(
        logic_step(LogicEvent::TransactionFailed("no fork".to_string())),
        LogicAction::Fail("no fork".to_string())
    );
}
