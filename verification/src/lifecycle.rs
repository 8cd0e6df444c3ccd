//! Proposal lifecycle: the states a governance proposal passes through, the
//! vote rules that decide it, and the parsers for the options a proposal is
//! created with.
//!
//! Instants are milliseconds since the Unix epoch and durations are
//! milliseconds, both as `i64`.

use vstd::prelude::*;
use crate::text::{
    has_prefix, join2, lemma_parsed_unsigned_nonneg, lowercase, parse_unsigned, parse_unsigned_spec,
    split_char, split_spec, starts_with, str_eq, strip_prefix, to_lowercase, trim, trim_spec, views_of,
};

verus! {

broadcast use vstd::string::group_string_axioms;

// ---------------------------------------------------------------------------
// Time
// ---------------------------------------------------------------------------

/// Earliest instant a UTC date-time can hold (1 Jan of year -262143).
pub const MIN_INSTANT_MS: i64 = -8334601315200000i64;

/// Latest instant a UTC date-time can hold (end of year 262142).
pub const MAX_INSTANT_MS: i64 = 8210266876799999i64;

/// Whether `t` (milliseconds since the epoch) is a representable date-time.
pub open spec fn instant_in_range(t: int) -> bool {
    MIN_INSTANT_MS <= t <= MAX_INSTANT_MS
}

/// The range the clock can report: the clock refuses instants before the
/// epoch and cannot report one beyond the latest date-time.
pub open spec fn clock_reading(t: i64) -> bool {
    0 <= t <= MAX_INSTANT_MS
}

/// The clock now, in milliseconds since the epoch, as a representable
/// instant: a clock set before the epoch reads as the epoch, and one beyond
/// the latest date-time reads as that latest instant.
pub(crate) fn current_time_millis() -> (t: i64)
    ensures
        clock_reading(t),
{
    match crate::system::millis_since_epoch() {
        Some(ms) => if ms <= 8210266876799999u128 {
            ms as i64
        } else {
            MAX_INSTANT_MS
        },
        None => 0,
    }
}

// ---------------------------------------------------------------------------
// Enumerations
// ---------------------------------------------------------------------------

/// Position of a proposal in its lifecycle.
#[derive(Debug, Clone, Copy, PartialEq, Eq, Structural)]
pub enum ProposalState {
    Draft,
    OpenForFeedback,
    Voting,
    Executed,
    Rejected,
    Expired,
}

/// How far along the lifecycle a state is.
pub open spec fn rank(s: ProposalState) -> int {
    match s {
        ProposalState::Draft => 0,
        ProposalState::OpenForFeedback => 1,
        ProposalState::Voting => 2,
        _ => 3,
    }
}

/// States from which no transition leads away.
pub open spec fn is_terminal(s: ProposalState) -> bool {
    rank(s) == 3
}

/// Result of running a proposal's attached logic.
#[derive(Debug, Clone, PartialEq, Eq)]
pub enum ExecutionStatus {
    Success,
    Failure(String),
}

/// Outcome of a proposal execution, with its log or the reason it failed.
pub enum ProposalExecutionResult {
    Success { log: Vec<String> },
    Failure { reason: String },
}

/// A ballot choice.
#[derive(Debug, Clone, Copy, PartialEq, Eq, Structural)]
pub enum VoteChoice {
    Yes,
    No,
    Abstain,
}

/// Vote weighting strategy for a proposal.
#[derive(Debug, Clone, PartialEq, Eq)]
pub enum VoteWeighting {
    /// Each vote has equal weight
    Equal,
    /// Votes are weighted based on a reputation score
    Reputation,
    /// Votes are weighted based on stake/token amount
    Stake,
    /// Votes are weighted based on tenure in the organization
    Tenure,
    /// Quadratic voting - vote weight is square root of cost
    Quadratic,
    /// Delegated voting - vote weight includes delegated votes
    Delegated,
    /// Custom weighting with a specified algorithm
    Custom(String),
}

/// Quorum calculation method.
#[derive(Debug, Clone, Copy, PartialEq, Eq, Structural)]
pub enum QuorumMethod {
    /// Fixed percentage of total possible voters (0-100)
    Percentage(u8),
    /// Fixed number of voters required
    FixedNumber(u64),
    /// No quorum requirement
    NoQuorum,
}

/// A vote choice string that names no choice.
#[derive(Debug, Clone, Copy, PartialEq, Eq, Structural)]
pub struct ParseVoteChoiceError;

/// A weighting string that names no weighting.
#[derive(Debug, Clone, Copy, PartialEq, Eq, Structural)]
pub struct ParseVoteWeightingError;

/// A quorum string that describes no quorum method.
#[derive(Debug, Clone, Copy, PartialEq, Eq, Structural)]
pub struct ParseQuorumMethodError;

impl ParseVoteChoiceError {
    /// The text shown for this error.
    pub fn message(&self) -> (r: &'static str)
        ensures
            r@ == "Invalid vote choice. Must be 'yes', 'no', or 'abstain'."@,
    {
        "Invalid vote choice. Must be 'yes', 'no', or 'abstain'."
    }
}

impl ParseVoteWeightingError {
    /// The text shown for this error.
    pub fn message(&self) -> (r: &'static str)
        ensures
            r@ == "Invalid vote weighting. Must be 'equal', 'reputation', 'stake', 'tenure', 'quadratic', 'delegated', or 'custom:<name>'."@,
    {
        "Invalid vote weighting. Must be 'equal', 'reputation', 'stake', 'tenure', 'quadratic', 'delegated', or 'custom:<name>'."
    }
}

impl ParseQuorumMethodError {
    /// The text shown for this error.
    pub fn message(&self) -> (r: &'static str)
        ensures
            r@ == "Invalid quorum method. Must be 'percentage:<0-100>', 'fixed:<number>', or 'none'."@,
    {
        "Invalid quorum method. Must be 'percentage:<0-100>', 'fixed:<number>', or 'none'."
    }
}

// ---------------------------------------------------------------------------
// Parsing
// ---------------------------------------------------------------------------

/// The choice a lowercased string names.
pub open spec fn choice_named(l: Seq<char>) -> Option<VoteChoice> {
    if l == "yes"@ {
        Some(VoteChoice::Yes)
    } else if l == "no"@ {
        Some(VoteChoice::No)
    } else if l == "abstain"@ {
        Some(VoteChoice::Abstain)
    } else {
        None
    }
}

/// The built-in weighting a lowercased string names (custom ones aside).
pub open spec fn weighting_named(l: Seq<char>) -> Option<VoteWeighting> {
    if l == "equal"@ {
        Some(VoteWeighting::Equal)
    } else if l == "reputation"@ {
        Some(VoteWeighting::Reputation)
    } else if l == "stake"@ {
        Some(VoteWeighting::Stake)
    } else if l == "tenure"@ {
        Some(VoteWeighting::Tenure)
    } else if l == "quadratic"@ {
        Some(VoteWeighting::Quadratic)
    } else if l == "delegated"@ {
        Some(VoteWeighting::Delegated)
    } else {
        None
    }
}

/// What parsing a lowercased weighting string gives.
pub open spec fn weighting_parsed(l: Seq<char>, r: Result<VoteWeighting, ParseVoteWeightingError>) -> bool {
    match weighting_named(l) {
        Some(w) => r == Ok::<VoteWeighting, ParseVoteWeightingError>(w),
        None => if has_prefix(l, "custom:"@) {
            r matches Ok(VoteWeighting::Custom(name)) && name@ == l.subrange(
                "custom:"@.len() as int,
                l.len() as int,
            )
        } else {
            r == Err::<VoteWeighting, ParseVoteWeightingError>(ParseVoteWeightingError)
        },
    }
}

/// The quorum method a lowercased string describes.
pub open spec fn quorum_named(l: Seq<char>) -> Option<QuorumMethod> {
    if has_prefix(l, "percentage:"@) {
        match parse_unsigned_spec(l.subrange("percentage:"@.len() as int, l.len() as int), 255) {
            Some(p) => if p <= 100 {
                Some(QuorumMethod::Percentage(p as u8))
            } else {
                None
            },
            None => None,
        }
    } else if has_prefix(l, "fixed:"@) {
        match parse_unsigned_spec(l.subrange("fixed:"@.len() as int, l.len() as int), u64::MAX as int) {
            Some(n) => Some(QuorumMethod::FixedNumber(n as u64)),
            None => None,
        }
    } else if l == "none"@ {
        Some(QuorumMethod::NoQuorum)
    } else {
        None
    }
}

impl VoteChoice {
    /// Parses a vote choice that is already in lowercase.
    pub fn from_lowercase(l: &str) -> (r: Result<VoteChoice, ParseVoteChoiceError>)
        ensures
            r == match choice_named(l@) {
                Some(c) => Ok::<VoteChoice, ParseVoteChoiceError>(c),
                None => Err(ParseVoteChoiceError),
            },
    {
        if str_eq(l, "yes") {
            Ok(VoteChoice::Yes)
        } else if str_eq(l, "no") {
            Ok(VoteChoice::No)
        } else if str_eq(l, "abstain") {
            Ok(VoteChoice::Abstain)
        } else {
            Err(ParseVoteChoiceError)
        }
    }

    /// Parses a vote choice in any letter case: `yes`, `no` or `abstain`.
    pub fn parse(s: &str) -> (r: Result<VoteChoice, ParseVoteChoiceError>)
        ensures
            r == match choice_named(lowercase(s@)) {
                Some(c) => Ok::<VoteChoice, ParseVoteChoiceError>(c),
                None => Err(ParseVoteChoiceError),
            },
    {
        let l = to_lowercase(s);
        VoteChoice::from_lowercase(l.as_str())
    }

    /// The name of the choice, as its variant is spelled.
    pub fn name(&self) -> (r: &'static str)
        ensures
            r@ == choice_label(*self),
    {
        match self {
            VoteChoice::Yes => "Yes",
            VoteChoice::No => "No",
            VoteChoice::Abstain => "Abstain",
        }
    }
}

/// The name of a vote choice.
pub open spec fn choice_label(c: VoteChoice) -> Seq<char> {
    match c {
        VoteChoice::Yes => "Yes"@,
        VoteChoice::No => "No"@,
        VoteChoice::Abstain => "Abstain"@,
    }
}

impl VoteWeighting {
    /// Parses a weighting that is already in lowercase.
    pub fn from_lowercase(l: &str) -> (r: Result<VoteWeighting, ParseVoteWeightingError>)
        ensures
            weighting_parsed(l@, r),
    {
        if str_eq(l, "equal") {
            Ok(VoteWeighting::Equal)
        } else if str_eq(l, "reputation") {
            Ok(VoteWeighting::Reputation)
        } else if str_eq(l, "stake") {
            Ok(VoteWeighting::Stake)
        } else if str_eq(l, "tenure") {
            Ok(VoteWeighting::Tenure)
        } else if str_eq(l, "quadratic") {
            Ok(VoteWeighting::Quadratic)
        } else if str_eq(l, "delegated") {
            Ok(VoteWeighting::Delegated)
        } else {
            match strip_prefix(l, "custom:") {
                Some(name) => Ok(VoteWeighting::Custom(name)),
                None => Err(ParseVoteWeightingError),
            }
        }
    }

    /// Parses a weighting in any letter case: `equal`, `reputation`,
    /// `stake`, `tenure`, `quadratic`, `delegated` or `custom:<name>`.
    pub fn parse(s: &str) -> (r: Result<VoteWeighting, ParseVoteWeightingError>)
        ensures
            weighting_parsed(lowercase(s@), r),
    {
        let l = to_lowercase(s);
        VoteWeighting::from_lowercase(l.as_str())
    }
}

impl QuorumMethod {
    /// Parses a quorum method that is already in lowercase.
    pub fn from_lowercase(l: &str) -> (r: Result<QuorumMethod, ParseQuorumMethodError>)
        ensures
            r == match quorum_named(l@) {
                Some(q) => Ok::<QuorumMethod, ParseQuorumMethodError>(q),
                None => Err(ParseQuorumMethodError),
            },
    {
        if let Some(rest) = strip_prefix(l, "percentage:") {
            match parse_unsigned(rest.as_str(), 255) {
                Some(p) => {
                    if p > 100 {
                        Err(ParseQuorumMethodError)
                    } else {
                        Ok(QuorumMethod::Percentage(p as u8))
                    }
                },
                None => Err(ParseQuorumMethodError),
            }
        } else if let Some(rest) = strip_prefix(l, "fixed:") {
            match parse_unsigned(rest.as_str(), u64::MAX) {
                Some(n) => Ok(QuorumMethod::FixedNumber(n)),
                None => Err(ParseQuorumMethodError),
            }
        } else if str_eq(l, "none") {
            Ok(QuorumMethod::NoQuorum)
        } else {
            Err(ParseQuorumMethodError)
        }
    }

    /// Parses a quorum method in any letter case: `percentage:<0-100>`,
    /// `fixed:<number>` or `none`.
    pub fn parse(s: &str) -> (r: Result<QuorumMethod, ParseQuorumMethodError>)
        ensures
            r == match quorum_named(lowercase(s@)) {
                Some(q) => Ok::<QuorumMethod, ParseQuorumMethodError>(q),
                None => Err(ParseQuorumMethodError),
            },
    {
        let l = to_lowercase(s);
        QuorumMethod::from_lowercase(l.as_str())
    }
}

impl std::str::FromStr for VoteChoice {
    type Err = ParseVoteChoiceError;

    fn from_str(s: &str) -> (r: Result<Self, Self::Err>)
        ensures
            r == match choice_named(lowercase(s@)) {
                Some(v) => Ok::<VoteChoice, ParseVoteChoiceError>(v),
                None => Err(ParseVoteChoiceError),
            },
    {
        VoteChoice::parse(s)
    }
}

impl std::str::FromStr for VoteWeighting {
    type Err = ParseVoteWeightingError;

    fn from_str(s: &str) -> (r: Result<Self, Self::Err>)
        ensures
            weighting_parsed(lowercase(s@), r),
    {
        VoteWeighting::parse(s)
    }
}

impl std::str::FromStr for QuorumMethod {
    type Err = ParseQuorumMethodError;

    fn from_str(s: &str) -> (r: Result<Self, Self::Err>)
        ensures
            r == match quorum_named(lowercase(s@)) {
                Some(v) => Ok::<QuorumMethod, ParseQuorumMethodError>(v),
                None => Err(ParseQuorumMethodError),
            },
    {
        QuorumMethod::parse(s)
    }
}


// ---------------------------------------------------------------------------
// The proposal record
// ---------------------------------------------------------------------------

/// A governance proposal and the record of its lifecycle.
#[derive(Debug, Clone)]
pub struct ProposalLifecycle {
    pub id: String,
    /// Identifier of the identity that created the proposal.
    pub creator: String,
    /// Creation instant (milliseconds since the epoch).
    pub created_at: i64,
    pub state: ProposalState,
    pub title: String,
    pub quorum_method: QuorumMethod,
    /// Percentage (0-100) of the weighted vote needed for approval.
    pub approval_threshold: u8,
    /// End of the voting period, set when voting starts.
    pub expires_at: Option<i64>,
    /// Length of the feedback period (milliseconds).
    pub discussion_duration: Option<i64>,
    pub vote_weighting: VoteWeighting,
    pub required_participants: Option<u64>,
    pub current_version: u64,
    /// Whether to execute automatically when passed.
    pub auto_execute: bool,
    /// Whether execution may happen before the voting period ends.
    pub allow_early_execution: bool,
    /// Minimum length of the voting period (milliseconds).
    pub min_voting_period: Option<i64>,
    /// Each state the proposal entered, with the instant it did.
    pub history: Vec<(i64, ProposalState)>,
    pub execution_status: Option<ExecutionStatus>,
}

/// The mathematical content of a proposal record.
pub struct ProposalView {
    pub id: Seq<char>,
    pub creator: Seq<char>,
    pub created_at: i64,
    pub state: ProposalState,
    pub title: Seq<char>,
    pub quorum_method: QuorumMethod,
    pub approval_threshold: u8,
    pub expires_at: Option<i64>,
    pub discussion_duration: Option<i64>,
    pub vote_weighting: VoteWeighting,
    pub required_participants: Option<u64>,
    pub current_version: u64,
    pub auto_execute: bool,
    pub allow_early_execution: bool,
    pub min_voting_period: Option<i64>,
    pub history: Seq<(i64, ProposalState)>,
    pub execution_status: Option<ExecutionStatus>,
}

impl View for ProposalLifecycle {
    type V = ProposalView;

    open spec fn view(&self) -> ProposalView {
        ProposalView {
            id: self.id@,
            creator: self.creator@,
            created_at: self.created_at,
            state: self.state,
            title: self.title@,
            quorum_method: self.quorum_method,
            approval_threshold: self.approval_threshold,
            expires_at: self.expires_at,
            discussion_duration: self.discussion_duration,
            vote_weighting: self.vote_weighting,
            required_participants: self.required_participants,
            current_version: self.current_version,
            auto_execute: self.auto_execute,
            allow_early_execution: self.allow_early_execution,
            min_voting_period: self.min_voting_period,
            history: self.history@,
            execution_status: self.execution_status,
        }
    }
}

/// A well-formed record: its history starts in `Draft`, ends in the current
/// state, and once voting has started the voting period has an end.
pub open spec fn wf(p: ProposalView) -> bool {
    &&& p.history.len() >= 1
    &&& p.history[0].1 == ProposalState::Draft
    &&& p.history.last().1 == p.state
    &&& rank(p.state) >= 2 ==> p.expires_at is Some
}

/// The record of a proposal created at `now`.
pub open spec fn created(
    now: i64,
    id: Seq<char>,
    creator: Seq<char>,
    title: Seq<char>,
    quorum_method: QuorumMethod,
    approval_threshold: u8,
    vote_weighting: VoteWeighting,
    discussion_duration: Option<i64>,
    required_participants: Option<u64>,
) -> ProposalView {
    ProposalView {
        id,
        creator,
        created_at: now,
        state: ProposalState::Draft,
        title,
        quorum_method,
        approval_threshold,
        expires_at: None,
        discussion_duration,
        vote_weighting,
        required_participants,
        current_version: 1,
        auto_execute: false,
        allow_early_execution: false,
        min_voting_period: None,
        history: seq![(now, ProposalState::Draft)],
        execution_status: None,
    }
}

/// `p` moved to state `s` at `now`, with the move recorded.
pub open spec fn moved(p: ProposalView, now: i64, s: ProposalState) -> ProposalView {
    ProposalView { state: s, history: p.history.push((now, s)), ..p }
}

/// Quorum method from the single number older proposals used: 0 means no
/// quorum, up to 100 a percentage, above that a number of voters.
pub open spec fn legacy_quorum(quorum: u64) -> QuorumMethod {
    if quorum == 0 {
        QuorumMethod::NoQuorum
    } else if quorum <= 100 {
        QuorumMethod::Percentage(quorum as u8)
    } else {
        QuorumMethod::FixedNumber(quorum)
    }
}

/// Approval threshold from an older proposal's number, capped at 100.
pub open spec fn legacy_threshold(threshold: u64) -> u8 {
    if threshold < 100 { threshold as u8 } else { 100 }
}

/// Whether opening `p` for feedback at `now` stays within the representable
/// instants (the feedback period's end is computed from it).
pub open spec fn feedback_in_range(p: ProposalView, now: i64) -> bool {
    p.state == ProposalState::Draft ==> match p.discussion_duration {
        Some(d) => instant_in_range(now + d),
        None => true,
    }
}

pub open spec fn after_open_for_feedback(p: ProposalView, now: i64) -> ProposalView {
    if p.state == ProposalState::Draft {
        moved(p, now, ProposalState::OpenForFeedback)
    } else {
        p
    }
}

/// Whether the voting period starts with the minimum period in place of the
/// requested one.
pub open spec fn minimum_applies(p: ProposalView, d: i64) -> bool {
    p.min_voting_period matches Some(m) && d < m
}

/// Whether starting the vote at `now` for `d` milliseconds keeps every
/// instant it computes representable.
pub open spec fn voting_in_range(p: ProposalView, now: i64, d: i64) -> bool {
    p.state == ProposalState::OpenForFeedback ==> {
        &&& instant_in_range(now + d)
        &&& minimum_applies(p, d) ==> instant_in_range(now + p.min_voting_period->0)
    }
}

/// End of a voting period requested for `d` milliseconds at `now`.
pub open spec fn voting_end(p: ProposalView, now: i64, d: i64) -> i64 {
    if minimum_applies(p, d) {
        (now + p.min_voting_period->0) as i64
    } else {
        (now + d) as i64
    }
}

pub open spec fn after_start_voting(p: ProposalView, now: i64, d: i64) -> ProposalView {
    if p.state == ProposalState::OpenForFeedback {
        ProposalView {
            expires_at: Some(voting_end(p, now, d)),
            ..moved(p, now, ProposalState::Voting)
        }
    } else {
        p
    }
}

/// Whether execution at `now` must wait for the voting period to end.
pub open spec fn too_early(p: ProposalView, now: i64) -> bool {
    &&& !p.allow_early_execution
    &&& p.expires_at matches Some(e) && now < e
}

pub open spec fn after_execute(p: ProposalView, now: i64) -> ProposalView {
    if p.state == ProposalState::Voting && !too_early(p, now) {
        moved(p, now, ProposalState::Executed)
    } else {
        p
    }
}

pub open spec fn after_reject(p: ProposalView, now: i64) -> ProposalView {
    if p.state == ProposalState::Voting {
        moved(p, now, ProposalState::Rejected)
    } else {
        p
    }
}

/// Whether the voting period ended before `now`.
pub open spec fn voting_over(p: ProposalView, now: i64) -> bool {
    &&& p.state == ProposalState::Voting
    &&& p.expires_at matches Some(e) && now > e
}

pub open spec fn after_expire(p: ProposalView, now: i64) -> ProposalView {
    if voting_over(p, now) {
        moved(p, now, ProposalState::Expired)
    } else {
        p
    }
}

pub open spec fn after_update_version(p: ProposalView, now: i64) -> ProposalView {
    ProposalView {
        current_version: (p.current_version + 1) as u64,
        history: p.history.push((now, p.state)),
        ..p
    }
}

pub open spec fn after_executed_transition(p: ProposalView, now: i64, passed: bool) -> ProposalView {
    if p.state == ProposalState::Voting && passed {
        moved(p, now, ProposalState::Executed)
    } else {
        p
    }
}

pub open spec fn after_rejected_transition(p: ProposalView, now: i64, passed: bool) -> ProposalView {
    if p.state == ProposalState::Voting && !passed {
        moved(p, now, ProposalState::Rejected)
    } else {
        p
    }
}

/// Whether a quorum method is met by `vote_count` of `total_eligible`
/// voters: a percentage needs that share of a non-empty electorate.
pub open spec fn quorum_met(q: QuorumMethod, vote_count: int, total_eligible: int) -> bool {
    match q {
        QuorumMethod::NoQuorum => true,
        QuorumMethod::Percentage(p) => total_eligible != 0 && 100 * vote_count >= p * total_eligible,
        QuorumMethod::FixedNumber(n) => vote_count >= n,
    }
}

/// Whether `yes_weight` out of a non-zero `total_weight` reaches the
/// approval percentage.
pub open spec fn threshold_met(threshold: int, yes_weight: int, total_weight: int) -> bool {
    total_weight > 0 && 100 * yes_weight >= threshold * total_weight
}

impl ProposalLifecycle {
    /// A new proposal in `Draft`, created at `now`.
    pub fn new_at(
        now: i64,
        id: String,
        creator: String,
        title: String,
        quorum_method: QuorumMethod,
        approval_threshold: u8,
        vote_weighting: VoteWeighting,
        discussion_duration: Option<i64>,
        required_participants: Option<u64>,
    ) -> (r: ProposalLifecycle)
        ensures
            r@ == created(
                now,
                id@,
                creator@,
                title@,
                quorum_method,
                approval_threshold,
                vote_weighting,
                discussion_duration,
                required_participants,
            ),
            wf(r@),
    {
        let mut history: Vec<(i64, ProposalState)> = Vec::new();
        history.push((now, ProposalState::Draft));
        let r = ProposalLifecycle {
            id,
            creator,
            created_at: now,
            state: ProposalState::Draft,
            title,
            quorum_method,
            approval_threshold,
            expires_at: None,
            discussion_duration,
            vote_weighting,
            required_participants,
            current_version: 1,
            auto_execute: false,
            allow_early_execution: false,
            min_voting_period: None,
            history,
            execution_status: None,
        };
        assert(r@.history =~= seq![(now, ProposalState::Draft)]);
        r
    }

    /// A new proposal in `Draft`, created now.
    pub fn new(
        id: String,
        creator: String,
        title: String,
        quorum_method: QuorumMethod,
        approval_threshold: u8,
        vote_weighting: VoteWeighting,
        discussion_duration: Option<i64>,
        required_participants: Option<u64>,
    ) -> (r: ProposalLifecycle)
        ensures
            clock_reading(r.created_at),
            r@ == created(
                r.created_at,
                id@,
                creator@,
                title@,
                quorum_method,
                approval_threshold,
                vote_weighting,
                discussion_duration,
                required_participants,
            ),
            wf(r@),
    {
        let now = current_time_millis();
        ProposalLifecycle::new_at(
            now,
            id,
            creator,
            title,
            quorum_method,
            approval_threshold,
            vote_weighting,
            discussion_duration,
            required_participants,
        )
    }

    /// A new proposal from the single quorum and threshold numbers older
    /// proposals used, with equal vote weighting, created at `now`.
    pub fn new_backwards_compatible_at(
        now: i64,
        id: String,
        creator: String,
        title: String,
        quorum: u64,
        threshold: u64,
        discussion_duration: Option<i64>,
        required_participants: Option<u64>,
    ) -> (r: ProposalLifecycle)
        ensures
            r@ == created(
                now,
                id@,
                creator@,
                title@,
                legacy_quorum(quorum),
                legacy_threshold(threshold),
                VoteWeighting::Equal,
                discussion_duration,
                required_participants,
            ),
            wf(r@),
    {
        let quorum_method = if quorum == 0 {
            QuorumMethod::NoQuorum
        } else if quorum <= 100 {
            QuorumMethod::Percentage(quorum as u8)
        } else {
            QuorumMethod::FixedNumber(quorum)
        };
        let approval_threshold: u8 = if threshold < 100 { threshold as u8 } else { 100 };
        ProposalLifecycle::new_at(
            now,
            id,
            creator,
            title,
            quorum_method,
            approval_threshold,
            VoteWeighting::Equal,
            discussion_duration,
            required_participants,
        )
    }

    /// A new proposal from older quorum and threshold numbers, created now.
    pub fn new_backwards_compatible(
        id: String,
        creator: String,
        title: String,
        quorum: u64,
        threshold: u64,
        discussion_duration: Option<i64>,
        required_participants: Option<u64>,
    ) -> (r: ProposalLifecycle)
        ensures
            clock_reading(r.created_at),
            r@ == created(
                r.created_at,
                id@,
                creator@,
                title@,
                legacy_quorum(quorum),
                legacy_threshold(threshold),
                VoteWeighting::Equal,
                discussion_duration,
                required_participants,
            ),
            wf(r@),
    {
        let now = current_time_millis();
        ProposalLifecycle::new_backwards_compatible_at(
            now,
            id,
            creator,
            title,
            quorum,
            threshold,
            discussion_duration,
            required_participants,
        )
    }

    /// Moves a `Draft` to `OpenForFeedback` at `now`; any other state is
    /// left as it is.
    pub fn open_for_feedback_at(&mut self, now: i64)
        requires
            feedback_in_range(old(self)@, now),
        ensures
            final(self)@ == after_open_for_feedback(old(self)@, now),
            wf(old(self)@) ==> wf(final(self)@),
    {
        if self.state == ProposalState::Draft {
            self.state = ProposalState::OpenForFeedback;
            self.history.push((now, ProposalState::OpenForFeedback));
        }
    }

    /// Moves a `Draft` to `OpenForFeedback` now. When the feedback period
    /// would end past the last representable instant the record is left
    /// unchanged.
    pub fn open_for_feedback(&mut self)
        ensures
            exists|now: i64|
                clock_reading(now) && if feedback_in_range(old(self)@, now) {
                    final(self)@ == after_open_for_feedback(old(self)@, now)
                } else {
                    final(self)@ == old(self)@
                },
            wf(old(self)@) ==> wf(final(self)@),
    {
        let now = current_time_millis();
        if self.feedback_fits(now) {
            self.open_for_feedback_at(now);
        }
    }

    fn feedback_fits(&self, now: i64) -> (r: bool)
        ensures
            r == feedback_in_range(self@, now),
    {
        if self.state == ProposalState::Draft {
            match self.discussion_duration {
                Some(d) => fits_after(now, d),
                None => true,
            }
        } else {
            true
        }
    }

    /// Moves a proposal open for feedback to `Voting` at `now`, with the
    /// voting period ending `voting_duration` later, or after the minimum
    /// voting period when that is longer. Any other state is left as it is.
    pub fn start_voting_at(&mut self, now: i64, voting_duration: i64)
        requires
            voting_in_range(old(self)@, now, voting_duration),
        ensures
            final(self)@ == after_start_voting(old(self)@, now, voting_duration),
            wf(old(self)@) ==> wf(final(self)@),
    {
        if self.state == ProposalState::OpenForFeedback {
            self.state = ProposalState::Voting;
            let mut end = now + voting_duration;
            if let Some(min_period) = self.min_voting_period {
                if voting_duration < min_period {
                    end = now + min_period;
                }
            }
            self.expires_at = Some(end);
            self.history.push((now, ProposalState::Voting));
        }
    }

    /// Moves a proposal open for feedback to `Voting` now. When an end of the
    /// voting period would lie past the representable instants the record
    /// is left unchanged.
    pub fn start_voting(&mut self, voting_duration: i64)
        ensures
            exists|now: i64|
                clock_reading(now) && if voting_in_range(old(self)@, now, voting_duration) {
                    final(self)@ == after_start_voting(old(self)@, now, voting_duration)
                } else {
                    final(self)@ == old(self)@
                },
            wf(old(self)@) ==> wf(final(self)@),
    {
        let now = current_time_millis();
        if self.voting_fits(now, voting_duration) {
            self.start_voting_at(now, voting_duration);
        }
    }

    fn voting_fits(&self, now: i64, d: i64) -> (r: bool)
        ensures
            r == voting_in_range(self@, now, d),
    {
        if self.state == ProposalState::OpenForFeedback {
            if !fits_after(now, d) {
                false
            } else {
                match self.min_voting_period {
                    Some(m) => if d < m {
                        fits_after(now, m)
                    } else {
                        true
                    },
                    None => true,
                }
            }
        } else {
            true
        }
    }

    /// Executes a proposal in `Voting` at `now`, unless early execution is
    /// not allowed and the voting period has not ended yet.
    pub fn execute_at(&mut self, now: i64)
        ensures
            final(self)@ == after_execute(old(self)@, now),
            wf(old(self)@) ==> wf(final(self)@),
    {
        if self.state == ProposalState::Voting {
            if !self.allow_early_execution {
                if let Some(expires_at) = self.expires_at {
                    if now < expires_at {
                        return;
                    }
                }
            }
            self.state = ProposalState::Executed;
            self.history.push((now, ProposalState::Executed));
        }
    }

    /// Executes a proposal in `Voting` now, under the same rule.
    pub fn execute(&mut self)
        ensures
            exists|now: i64| clock_reading(now) && final(self)@ == after_execute(old(self)@, now),
            wf(old(self)@) ==> wf(final(self)@),
    {
        let now = current_time_millis();
        self.execute_at(now);
    }

    /// Rejects a proposal in `Voting` at `now`.
    pub fn reject_at(&mut self, now: i64)
        ensures
            final(self)@ == after_reject(old(self)@, now),
            wf(old(self)@) ==> wf(final(self)@),
    {
        if self.state == ProposalState::Voting {
            self.state = ProposalState::Rejected;
            self.history.push((now, ProposalState::Rejected));
        }
    }

    /// Rejects a proposal in `Voting` now.
    pub fn reject(&mut self)
        ensures
            exists|now: i64| clock_reading(now) && final(self)@ == after_reject(old(self)@, now),
            wf(old(self)@) ==> wf(final(self)@),
    {
        let now = current_time_millis();
        self.reject_at(now);
    }

    /// Expires a proposal in `Voting` whose voting period ended before `now`.
    pub fn expire_at(&mut self, now: i64)
        ensures
            final(self)@ == after_expire(old(self)@, now),
            wf(old(self)@) ==> wf(final(self)@),
    {
        if self.state == ProposalState::Voting {
            if let Some(e) = self.expires_at {
                if now > e {
                    self.state = ProposalState::Expired;
                    self.history.push((now, ProposalState::Expired));
                }
            }
        }
    }

    /// Expires a proposal in `Voting` whose voting period has ended.
    pub fn expire(&mut self)
        ensures
            exists|now: i64| clock_reading(now) && final(self)@ == after_expire(old(self)@, now),
            wf(old(self)@) ==> wf(final(self)@),
    {
        let now = current_time_millis();
        self.expire_at(now);
    }

    /// Expires the proposal when its voting period ended before `now`, and
    /// says whether it did.
    pub fn check_expiry_at(&mut self, now: i64) -> (r: bool)
        ensures
            r == voting_over(old(self)@, now),
            final(self)@ == after_expire(old(self)@, now),
            wf(old(self)@) ==> wf(final(self)@),
    {
        if self.state == ProposalState::Voting {
            if let Some(e) = self.expires_at {
                if now > e {
                    self.state = ProposalState::Expired;
                    self.history.push((now, ProposalState::Expired));
                    return true;
                }
            }
        }
        false
    }

    /// Expires the proposal when its voting period has ended, and says
    /// whether it did.
    pub fn check_expiry(&mut self) -> (r: bool)
        ensures
            exists|now: i64|
                clock_reading(now) && r == voting_over(old(self)@, now) && final(self)@
                    == after_expire(old(self)@, now),
            wf(old(self)@) ==> wf(final(self)@),
    {
        let now = current_time_millis();
        self.check_expiry_at(now)
    }

    /// Counts a new version of the proposal at `now`; its state stays.
    pub fn update_version_at(&mut self, now: i64)
        requires
            old(self).current_version < u64::MAX,
        ensures
            final(self)@ == after_update_version(old(self)@, now),
            wf(old(self)@) ==> wf(final(self)@),
    {
        self.current_version = self.current_version + 1;
        let s = self.state;
        self.history.push((now, s));
    }

    /// Counts a new version of the proposal now.
    pub fn update_version(&mut self)
        requires
            old(self).current_version < u64::MAX,
        ensures
            exists|now: i64|
                clock_reading(now) && final(self)@ == after_update_version(old(self)@, now),
            wf(old(self)@) ==> wf(final(self)@),
    {
        let now = current_time_millis();
        self.update_version_at(now);
    }

    /// Whether the quorum is reached by `vote_count` of `total_eligible`
    /// voters under the proposal's quorum method.
    pub fn is_quorum_reached(&self, vote_count: usize, total_eligible: usize) -> (r: bool)
        ensures
            r == quorum_met(self.quorum_method, vote_count as int, total_eligible as int),
    {
        match self.quorum_method {
            QuorumMethod::NoQuorum => true,
            QuorumMethod::Percentage(p) => {
                if total_eligible == 0 {
                    false
                } else {
                    vote_count as u128 * 100 >= scaled(p, total_eligible as u64)
                }
            },
            QuorumMethod::FixedNumber(n) => vote_count as u64 >= n,
        }
    }

    /// Whether `yes_weight` of `total_weight` reaches the approval threshold.
    pub fn is_threshold_met(&self, yes_weight: u64, total_weight: u64) -> (r: bool)
        ensures
            r == threshold_met(self.approval_threshold as int, yes_weight as int, total_weight as int),
    {
        if total_weight == 0 {
            false
        } else {
            yes_weight as u128 * 100 >= scaled(self.approval_threshold, total_weight)
        }
    }

    /// Moves a proposal in `Voting` that `passed` its vote to `Executed` at
    /// `now`, and says whether it did.
    pub fn transition_to_executed_at(&mut self, now: i64, passed: bool) -> (r: bool)
        ensures
            r == (old(self).state == ProposalState::Voting && passed),
            final(self)@ == after_executed_transition(old(self)@, now, passed),
            wf(old(self)@) ==> wf(final(self)@),
    {
        if self.state == ProposalState::Voting && passed {
            self.state = ProposalState::Executed;
            self.history.push((now, ProposalState::Executed));
            true
        } else {
            false
        }
    }

    /// The same move, now.
    pub fn transition_to_executed(&mut self, passed: bool) -> (r: bool)
        ensures
            r == (old(self).state == ProposalState::Voting && passed),
            exists|now: i64|
                clock_reading(now) && final(self)@ == after_executed_transition(
                    old(self)@,
                    now,
                    passed,
                ),
            wf(old(self)@) ==> wf(final(self)@),
    {
        let now = current_time_millis();
        self.transition_to_executed_at(now, passed)
    }

    /// Moves a proposal in `Voting` that did not pass its vote to `Rejected`
    /// at `now`, and says whether it did.
    pub fn transition_to_rejected_at(&mut self, now: i64, passed: bool) -> (r: bool)
        ensures
            r == (old(self).state == ProposalState::Voting && !passed),
            final(self)@ == after_rejected_transition(old(self)@, now, passed),
            wf(old(self)@) ==> wf(final(self)@),
    {
        if self.state == ProposalState::Voting && !passed {
            self.state = ProposalState::Rejected;
            self.history.push((now, ProposalState::Rejected));
            true
        } else {
            false
        }
    }

    /// The same move, now.
    pub fn transition_to_rejected(&mut self, passed: bool) -> (r: bool)
        ensures
            r == (old(self).state == ProposalState::Voting && !passed),
            exists|now: i64|
                clock_reading(now) && final(self)@ == after_rejected_transition(
                    old(self)@,
                    now,
                    passed,
                ),
            wf(old(self)@) ==> wf(final(self)@),
    {
        let now = current_time_millis();
        self.transition_to_rejected_at(now, passed)
    }

    /// Moves a proposal in `Voting` whose voting period ended before `now` to
    /// `Expired`, whatever its vote, and says whether it did.
    pub fn transition_to_expired_at(&mut self, now: i64) -> (r: bool)
        ensures
            r == voting_over(old(self)@, now),
            final(self)@ == after_expire(old(self)@, now),
            wf(old(self)@) ==> wf(final(self)@),
    {
        self.check_expiry_at(now)
    }

    /// The same move, now.
    pub fn transition_to_expired(&mut self) -> (r: bool)
        ensures
            exists|now: i64|
                clock_reading(now) && r == voting_over(old(self)@, now) && final(self)@
                    == after_expire(old(self)@, now),
            wf(old(self)@) ==> wf(final(self)@),
    {
        let now = current_time_millis();
        self.transition_to_expired_at(now)
    }
}

/// `p * n`, exactly.
fn scaled(p: u8, n: u64) -> (r: u128)
    ensures
        r == p as int * n as int,
{
    proof {
        assert(p as int * n as int <= 255 * 0xffff_ffff_ffff_ffffint) by (nonlinear_arith)
            requires
                p <= 255,
                n <= 0xffff_ffff_ffff_ffffint,
                p >= 0,
                n >= 0,
        ;
    }
    p as u128 * n as u128
}

/// Whether `now + d` is a representable instant.
fn fits_after(now: i64, d: i64) -> (r: bool)
    ensures
        r == instant_in_range(now + d),
{
    let sum: i128 = now as i128 + d as i128;
    MIN_INSTANT_MS as i128 <= sum && sum <= MAX_INSTANT_MS as i128
}


// ---------------------------------------------------------------------------
// Votes and attached logic
// ---------------------------------------------------------------------------

/// Whether `key`, listed under the votes `prefix`, names a single vote: it
/// starts with the prefix and has exactly four `/`-separated parts.
pub open spec fn is_vote_key_spec(prefix: Seq<char>, key: Seq<char>) -> bool {
    has_prefix(key, prefix) && split_spec(key, '/').len() == 4
}

/// The choices of the stored votes that are well-formed, in storage order:
/// entries whose key is not a vote key, or whose text names no choice, are
/// skipped.
pub open spec fn recognized_votes(prefix: Seq<char>, entries: Seq<(Seq<char>, Seq<char>)>) -> Seq<
    VoteChoice,
>
    decreases entries.len(),
{
    if entries.len() == 0 {
        Seq::empty()
    } else {
        let rest = recognized_votes(prefix, entries.drop_last());
        let (k, v) = entries.last();
        if is_vote_key_spec(prefix, k) && choice_named(lowercase(v)) is Some {
            rest.push(choice_named(lowercase(v))->0)
        } else {
            rest
        }
    }
}

pub open spec fn entry_views(entries: Seq<(String, String)>) -> Seq<(Seq<char>, Seq<char>)> {
    entries.map_values(|e: (String, String)| (e.0@, e.1@))
}

/// Weight a vote of this choice counts before any weighting: one for yes
/// and no, nothing for abstain.
pub open spec fn base_value(c: VoteChoice) -> int {
    match c {
        VoteChoice::Abstain => 0,
        _ => 1,
    }
}

/// Weight a vote of this choice counts before any weighting.
pub fn base_vote_value(c: VoteChoice) -> (r: u64)
    ensures
        r == base_value(c),
{
    match c {
        VoteChoice::Abstain => 0,
        _ => 1,
    }
}

/// Storage key a weighting reads for a voter, if it reads one.
pub open spec fn weight_key(w: VoteWeighting, proposal_id: Seq<char>, voter: Seq<char>) -> Option<
    Seq<char>,
> {
    match w {
        VoteWeighting::Equal => None,
        VoteWeighting::Reputation => Some("identity:"@ + voter + "/reputation"@),
        VoteWeighting::Stake => Some("identity:"@ + voter + "/stake"@),
        VoteWeighting::Tenure => Some("identity:"@ + voter + "/join_date"@),
        VoteWeighting::Quadratic => Some("proposal:"@ + proposal_id + "/vote_credits/"@ + voter),
        VoteWeighting::Delegated => Some("identity:"@ + voter + "/delegated_votes"@),
        VoteWeighting::Custom(algo) => Some("weight_algo:"@ + algo@),
    }
}

/// Weights recorded per choice while tallying; recording a choice again
/// replaces its weight.
#[derive(Debug, Clone, Copy, PartialEq, Eq, Structural)]
pub struct VoteTally {
    pub yes: Option<u64>,
    pub no: Option<u64>,
    pub abstain: Option<u64>,
}

impl VoteTally {
    /// A tally with no choice recorded.
    pub fn new() -> (r: VoteTally)
        ensures
            r.yes is None && r.no is None && r.abstain is None,
    {
        VoteTally { yes: None, no: None, abstain: None }
    }

    /// Records `weight` for `choice`, replacing what was there.
    pub fn record(&mut self, choice: VoteChoice, weight: u64)
        ensures
            final(self).get_spec(choice) == Some(weight),
            forall|c: VoteChoice| c != choice ==> final(self).get_spec(c) == old(self).get_spec(c),
    {
        match choice {
            VoteChoice::Yes => self.yes = Some(weight),
            VoteChoice::No => self.no = Some(weight),
            VoteChoice::Abstain => self.abstain = Some(weight),
        }
    }

    pub open spec fn get_spec(self, c: VoteChoice) -> Option<u64> {
        match c {
            VoteChoice::Yes => self.yes,
            VoteChoice::No => self.no,
            VoteChoice::Abstain => self.abstain,
        }
    }

    /// The weight recorded for `choice`.
    pub fn get(&self, choice: VoteChoice) -> (r: Option<u64>)
        ensures
            r == self.get_spec(choice),
    {
        match choice {
            VoteChoice::Yes => self.yes,
            VoteChoice::No => self.no,
            VoteChoice::Abstain => self.abstain,
        }
    }
}

/// The attached logic to run: none when nothing was stored or the stored
/// text is blank.
pub open spec fn logic_to_run(loaded: Option<Seq<char>>) -> Option<Seq<char>> {
    match loaded {
        Some(t) => if trim_spec(t).len() == 0 {
            None
        } else {
            Some(t)
        },
        None => None,
    }
}

/// Status of a run of attached logic that ended with `result`.
pub open spec fn run_status_ok(result: Result<(), Seq<char>>, status: ExecutionStatus) -> bool {
    match result {
        Ok(()) => status == ExecutionStatus::Success,
        Err(e) => {
            &&& status matches ExecutionStatus::Failure(m)
            &&& status->Failure_0@ == "Runtime error during fork execution: "@ + e
        },
    }
}

impl ExecutionStatus {
    /// Status of a run of attached logic: success, or a failure carrying
    /// the runtime error.
    pub fn from_run(result: Result<(), String>) -> (r: ExecutionStatus)
        ensures
            run_status_ok(
                match result {
                    Ok(()) => Ok::<(), Seq<char>>(()),
                    Err(e) => Err(e@),
                },
                r,
            ),
    {
        match result {
            Ok(()) => ExecutionStatus::Success,
            Err(e) => ExecutionStatus::Failure(join2("Runtime error during fork execution: ", e.as_str())),
        }
    }
}

impl ProposalLifecycle {
    /// Prefix of the storage keys that hold the proposal's votes.
    pub fn votes_prefix(&self) -> (r: String)
        ensures
            r@ == "proposals/"@ + self.id@ + "/votes/"@,
    {
        join2("proposals/", self.id.as_str()).concat("/votes/")
    }

    /// Storage key of the proposal's attached logic.
    pub fn logic_key(&self) -> (r: String)
        ensures
            r@ == "proposals/"@ + self.id@ + "/attachments/logic"@,
    {
        join2("proposals/", self.id.as_str()).concat("/attachments/logic")
    }

    /// Whether `key` names a single vote under `prefix`.
    pub fn is_vote_key(prefix: &str, key: &str) -> (r: bool)
        ensures
            r == is_vote_key_spec(prefix@, key@),
    {
        if !starts_with(key, prefix) {
            return false;
        }
        let parts = split_char(key, '/');
        proof {
            assert(views_of(parts@).len() == parts@.len());
        }
        parts.len() == 4
    }

    /// The choices of the stored votes `(key, text)` listed under the
    /// proposal's votes prefix, when the proposal is in `Voting`; an error
    /// naming the proposal otherwise.
    pub fn tally_votes(&self, entries: &Vec<(String, String)>) -> (r: Result<Vec<VoteChoice>, String>)
        ensures
            self.state != ProposalState::Voting ==> (r matches Err(m) && m@ == "Proposal "@
                + self.id@ + " is not in Voting state"@),
            self.state == ProposalState::Voting ==> (r matches Ok(v) && v@ == recognized_votes(
                "proposals/"@ + self.id@ + "/votes/"@,
                entry_views(entries@),
            )),
    {
        if self.state != ProposalState::Voting {
            return Err(join2("Proposal ", self.id.as_str()).concat(" is not in Voting state"));
        }
        let prefix = self.votes_prefix();
        let mut out: Vec<VoteChoice> = Vec::new();
        let mut i: usize = 0;
        while i < entries.len()
            invariant
                i <= entries@.len(),
                out@ == recognized_votes(prefix@, entry_views(entries@).take(i as int)),
            decreases entries.len() - i,
        {
            proof {
                let ev = entry_views(entries@);
                assert(ev.take(i + 1).drop_last() =~= ev.take(i as int));
                assert(ev.take(i + 1).last() == (entries@[i as int].0@, entries@[i as int].1@));
            }
            let key = entries[i].0.as_str();
            let text = entries[i].1.as_str();
            if ProposalLifecycle::is_vote_key(prefix.as_str(), key) {
                if let Ok(c) = VoteChoice::parse(text) {
                    out.push(c);
                }
            }
            i = i + 1;
        }
        proof {
            assert(entry_views(entries@).take(entries@.len() as int) =~= entry_views(entries@));
        }
        Ok(out)
    }

    /// Storage key the proposal's weighting reads for `voter`, if any.
    pub fn weight_lookup_key(&self, voter: &str) -> (r: Option<String>)
        ensures
            match r {
                Some(k) => weight_key(self.vote_weighting, self.id@, voter@) == Some(k@),
                None => weight_key(self.vote_weighting, self.id@, voter@) is None,
            },
    {
        match &self.vote_weighting {
            VoteWeighting::Equal => None,
            VoteWeighting::Reputation => Some(join2("identity:", voter).concat("/reputation")),
            VoteWeighting::Stake => Some(join2("identity:", voter).concat("/stake")),
            VoteWeighting::Tenure => Some(join2("identity:", voter).concat("/join_date")),
            VoteWeighting::Quadratic => Some(
                join2("proposal:", self.id.as_str()).concat("/vote_credits/").concat(voter),
            ),
            VoteWeighting::Delegated => Some(join2("identity:", voter).concat("/delegated_votes")),
            VoteWeighting::Custom(algo) => Some(join2("weight_algo:", algo.as_str())),
        }
    }
}

/// The attached logic to run, from what loading it gave.
pub fn select_logic(loaded: Option<String>) -> (r: Option<String>)
    ensures
        match r {
            Some(t) => logic_to_run(
                match loaded {
                    Some(l) => Some(l@),
                    None => None,
                },
            ) == Some(t@),
            None => logic_to_run(
                match loaded {
                    Some(l) => Some(l@),
                    None => None,
                },
            ) is None,
        },
{
    match loaded {
        Some(t) => {
            let trimmed = trim(t.as_str());
            if trimmed.unicode_len() == 0 {
                None
            } else {
                Some(t)
            }
        },
        None => None,
    }
}

/// What happens while a proposal's attached logic is executed in a fork of
/// the machine, reported to the decision step one at a time.
#[derive(Debug)]
pub enum LogicEvent {
    /// The logic attachment was read as this text
    Read(String),
    /// There is no logic attachment
    NotFound,
    /// The logic attachment is not valid UTF-8; the decoder's message
    NotUtf8(String),
    /// Reading the logic attachment failed otherwise; the storage's message
    ReadFailed(String),
    /// Parsing the logic ended with this result (the parser's message)
    Parsed(Result<(), String>),
    /// Running the parsed logic in the fork ended with this result
    Ran(Result<(), String>),
    /// Forking, committing or rolling back failed; the machine's message
    TransactionFailed(String),
}

/// What the executor does next.
#[derive(Debug, PartialEq, Eq)]
pub enum LogicAction {
    /// Parse this logic
    Parse(String),
    /// Run the parsed logic in the fork
    Run,
    /// Commit the fork's transaction, and report this status
    Commit(ExecutionStatus),
    /// Roll back the fork's transaction, and report this status
    Rollback(ExecutionStatus),
    /// Stop with this error, committing and rolling back nothing
    Fail(String),
}

/// The step of logic execution for an event: blank or missing logic commits
/// the empty transaction with success; a successful run commits with
/// success; a failed run rolls back with the runtime error as failure; an
/// unreadable or unparsable attachment, or a failed transaction operation,
/// stops with an error and neither commits nor rolls back.
pub open spec fn logic_step_spec(e: LogicEvent, a: LogicAction) -> bool {
    match e {
        LogicEvent::Read(t) => match logic_to_run(Some(t@)) {
            Some(l) => a matches LogicAction::Parse(x) && x@ == l,
            None => a == LogicAction::Commit(ExecutionStatus::Success),
        },
        LogicEvent::NotFound => a == LogicAction::Commit(ExecutionStatus::Success),
        LogicEvent::NotUtf8(m) => a matches LogicAction::Fail(x) && x@
            == "Logic attachment is not valid UTF-8: "@ + m@,
        LogicEvent::ReadFailed(m) => a matches LogicAction::Fail(x) && x@
            == "Failed to load logic attachment: "@ + m@,
        LogicEvent::Parsed(Ok(())) => a == LogicAction::Run,
        LogicEvent::Parsed(Err(m)) => a matches LogicAction::Fail(x) && x@
            == "Failed to parse logic DSL: "@ + m@,
        LogicEvent::Ran(Ok(())) => a == LogicAction::Commit(ExecutionStatus::Success),
        LogicEvent::Ran(Err(m)) => a matches LogicAction::Rollback(st) && run_status_ok(Err(m@), st),
        LogicEvent::TransactionFailed(m) => a matches LogicAction::Fail(x) && x@ == m@,
    }
}

/// Decides the next step of executing a proposal's attached logic.
pub fn logic_step(e: LogicEvent) -> (r: LogicAction)
    ensures
        logic_step_spec(e, r),
{
    match e {
        LogicEvent::Read(t) => match select_logic(Some(t)) {
            Some(l) => LogicAction::Parse(l),
            None => LogicAction::Commit(ExecutionStatus::Success),
        },
        LogicEvent::NotFound => LogicAction::Commit(ExecutionStatus::Success),
        LogicEvent::NotUtf8(m) => LogicAction::Fail(join2("Logic attachment is not valid UTF-8: ", m.as_str())),
        LogicEvent::ReadFailed(m) => LogicAction::Fail(join2("Failed to load logic attachment: ", m.as_str())),
        LogicEvent::Parsed(Ok(())) => LogicAction::Run,
        LogicEvent::Parsed(Err(m)) => LogicAction::Fail(join2("Failed to parse logic DSL: ", m.as_str())),
        LogicEvent::Ran(Ok(())) => LogicAction::Commit(ExecutionStatus::Success),
        LogicEvent::Ran(Err(m)) => LogicAction::Rollback(ExecutionStatus::from_run(Err(m))),
        LogicEvent::TransactionFailed(m) => LogicAction::Fail(m),
    }
}

/// The fork's transaction is committed only with a success, and rolled back
/// only after a failed run, with a failure; every other step commits and
/// rolls back nothing.
pub proof fn law_commit_only_on_success(e: LogicEvent, a: LogicAction)
    requires
        logic_step_spec(e, a),
    ensures
        a matches LogicAction::Commit(st) ==> st == ExecutionStatus::Success && (e is Read || e is NotFound
            || e matches LogicEvent::Ran(Ok(_))),
        a is Rollback <==> e matches LogicEvent::Ran(Err(_)),
        a matches LogicAction::Rollback(st) ==> st is Failure,
{
}

// ---------------------------------------------------------------------------
// Laws of the lifecycle
// ---------------------------------------------------------------------------

/// The moves the lifecycle allows: staying put, or one step along
/// Draft → OpenForFeedback → Voting → Executed | Rejected | Expired.
pub open spec fn allowed_move(a: ProposalState, b: ProposalState) -> bool {
    ||| a == b
    ||| a == ProposalState::Draft && b == ProposalState::OpenForFeedback
    ||| a == ProposalState::OpenForFeedback && b == ProposalState::Voting
    ||| a == ProposalState::Voting && is_terminal(b)
}

/// Whether `q` is `p` after one recorded move to `q.state` at `now`, or `p`
/// itself.
pub open spec fn recorded_step(p: ProposalView, q: ProposalView, now: i64) -> bool {
    ||| q == p
    ||| q.history == p.history.push((now, q.state))
}

/// Every state change follows the lifecycle's order, never goes back, and is
/// written to the history at the instant it happens.
pub proof fn law_moves_follow_the_lifecycle(p: ProposalView, now: i64, d: i64, passed: bool)
    ensures
        allowed_move(p.state, after_open_for_feedback(p, now).state),
        allowed_move(p.state, after_start_voting(p, now, d).state),
        allowed_move(p.state, after_execute(p, now).state),
        allowed_move(p.state, after_reject(p, now).state),
        allowed_move(p.state, after_expire(p, now).state),
        allowed_move(p.state, after_executed_transition(p, now, passed).state),
        allowed_move(p.state, after_rejected_transition(p, now, passed).state),
        after_update_version(p, now).state == p.state,
        rank(after_open_for_feedback(p, now).state) >= rank(p.state),
        rank(after_start_voting(p, now, d).state) >= rank(p.state),
        rank(after_execute(p, now).state) >= rank(p.state),
        rank(after_reject(p, now).state) >= rank(p.state),
        rank(after_expire(p, now).state) >= rank(p.state),
        recorded_step(p, after_open_for_feedback(p, now), now),
        recorded_step(p, after_start_voting(p, now, d), now),
        recorded_step(p, after_execute(p, now), now),
        recorded_step(p, after_reject(p, now), now),
        recorded_step(p, after_expire(p, now), now),
        recorded_step(p, after_executed_transition(p, now, passed), now),
        recorded_step(p, after_rejected_transition(p, now, passed), now),
        recorded_step(p, after_update_version(p, now), now),
{
}

/// Executed, rejected and expired proposals are final: no transition
/// changes them, and a new version keeps their state.
pub proof fn law_terminal_states_are_final(p: ProposalView, now: i64, d: i64, passed: bool)
    requires
        is_terminal(p.state),
    ensures
        after_open_for_feedback(p, now) == p,
        after_start_voting(p, now, d) == p,
        after_execute(p, now) == p,
        after_reject(p, now) == p,
        after_expire(p, now) == p,
        after_executed_transition(p, now, passed) == p,
        after_rejected_transition(p, now, passed) == p,
        after_update_version(p, now).state == p.state,
{
}

/// A transition asked for in the wrong state changes nothing.
pub proof fn law_wrong_state_changes_nothing(p: ProposalView, now: i64, d: i64, passed: bool)
    ensures
        p.state != ProposalState::Draft ==> after_open_for_feedback(p, now) == p,
        p.state != ProposalState::OpenForFeedback ==> after_start_voting(p, now, d) == p,
        p.state != ProposalState::Voting ==> {
            &&& after_execute(p, now) == p
            &&& after_reject(p, now) == p
            &&& after_expire(p, now) == p
            &&& after_executed_transition(p, now, passed) == p
            &&& after_rejected_transition(p, now, passed) == p
        },
{
}

/// Whether the history's instants never decrease.
pub open spec fn history_in_order(h: Seq<(i64, ProposalState)>) -> bool {
    forall|i: int, j: int| 0 <= i <= j < h.len() ==> (#[trigger] h[i]).0 <= (#[trigger] h[j]).0
}

/// Whether every recorded instant is at or before `now`.
pub open spec fn history_before(h: Seq<(i64, ProposalState)>, now: i64) -> bool {
    forall|i: int| 0 <= i < h.len() ==> (#[trigger] h[i]).0 <= now
}

proof fn lemma_push_keeps_order(h: Seq<(i64, ProposalState)>, now: i64, s: ProposalState)
    requires
        history_in_order(h),
        history_before(h, now),
    ensures
        history_in_order(h.push((now, s))),
        history_before(h.push((now, s)), now),
{
    let g = h.push((now, s));
    assert forall|i: int, j: int| 0 <= i <= j < g.len() implies (#[trigger] g[i]).0 <= (
    #[trigger] g[j]).0 by {
        if j < h.len() {
            assert(g[i] == h[i] && g[j] == h[j]);
        } else if i < h.len() {
            assert(g[i] == h[i]);
        }
    }
    assert forall|i: int| 0 <= i < g.len() implies (#[trigger] g[i]).0 <= now by {
        if i < h.len() {
            assert(g[i] == h[i]);
        }
    }
}

/// When operations are applied at instants that never go back, the history
/// stays in time order.
pub proof fn law_history_stays_in_time_order(p: ProposalView, now: i64, d: i64, passed: bool)
    requires
        history_in_order(p.history),
        history_before(p.history, now),
    ensures
        history_in_order(after_open_for_feedback(p, now).history),
        history_in_order(after_start_voting(p, now, d).history),
        history_in_order(after_execute(p, now).history),
        history_in_order(after_reject(p, now).history),
        history_in_order(after_expire(p, now).history),
        history_in_order(after_update_version(p, now).history),
        history_in_order(after_executed_transition(p, now, passed).history),
        history_in_order(after_rejected_transition(p, now, passed).history),
        history_before(after_update_version(p, now).history, now),
{
    lemma_push_keeps_order(p.history, now, ProposalState::OpenForFeedback);
    lemma_push_keeps_order(p.history, now, ProposalState::Voting);
    lemma_push_keeps_order(p.history, now, ProposalState::Executed);
    lemma_push_keeps_order(p.history, now, ProposalState::Rejected);
    lemma_push_keeps_order(p.history, now, ProposalState::Expired);
    lemma_push_keeps_order(p.history, now, p.state);
}

/// Every operation keeps a well-formed record well formed.
pub proof fn law_operations_keep_records_well_formed(p: ProposalView, now: i64, d: i64, passed: bool)
    requires
        wf(p),
    ensures
        wf(after_open_for_feedback(p, now)),
        wf(after_start_voting(p, now, d)),
        wf(after_execute(p, now)),
        wf(after_reject(p, now)),
        wf(after_expire(p, now)),
        wf(after_update_version(p, now)),
        wf(after_executed_transition(p, now, passed)),
        wf(after_rejected_transition(p, now, passed)),
{
}

/// Once voting starts, it lasts at least the requested duration and at least
/// the minimum voting period.
pub proof fn law_voting_period_respects_minimum(p: ProposalView, now: i64, d: i64)
    requires
        p.state == ProposalState::OpenForFeedback,
        voting_in_range(p, now, d),
    ensures
        after_start_voting(p, now, d).state == ProposalState::Voting,
        after_start_voting(p, now, d).expires_at matches Some(e) && {
            &&& e >= now + d
            &&& p.min_voting_period matches Some(m) ==> e >= now + m
        },
{
}

/// Without early execution, a proposal is executed only once its voting
/// period is over.
pub proof fn law_no_early_execution(p: ProposalView, now: i64)
    requires
        p.state == ProposalState::Voting,
        !p.allow_early_execution,
        after_execute(p, now).state == ProposalState::Executed,
    ensures
        p.expires_at matches Some(e) ==> now >= e,
{
}

/// Expiry happens exactly when the voting period is over, whichever of the
/// expiring operations asks.
pub proof fn law_expiry_only_after_voting_period(p: ProposalView, now: i64)
    ensures
        (after_expire(p, now).state == ProposalState::Expired && p.state != ProposalState::Expired)
            <==> voting_over(p, now),
        voting_over(p, now) ==> now > p.expires_at->0,
{
}

/// A proposal in `Voting` whose voting period has ended expires, whether or
/// not it allows early execution: the expiring operations report it,
/// record it as `Expired`, and add the instant to its history. Early
/// execution concerns executing before the end of the period only, so the
/// setting never changes whether or how a proposal expires.
pub proof fn law_ended_voting_expires(p: ProposalView, now: i64, allow_early: bool)
    ensures
        p.state == ProposalState::Voting && p.expires_at is Some && now > p.expires_at->0 ==> {
            &&& voting_over(p, now)
            &&& after_expire(p, now).state == ProposalState::Expired
            &&& after_expire(p, now).history == p.history.push((now, ProposalState::Expired))
        },
        voting_over(ProposalView { allow_early_execution: allow_early, ..p }, now) == voting_over(p, now),
        after_expire(ProposalView { allow_early_execution: allow_early, ..p }, now).state == after_expire(
            p,
            now,
        ).state,
{
}

/// A percentage quorum measures participation: it is reached exactly when
/// the voters who took part make up at least that percentage of a
/// non-empty electorate, that is when `vote_count / total_eligible`, as
/// an exact fraction, is at least `percentage / 100`. It is the same test
/// the approval threshold applies to weights.
pub proof fn law_percentage_quorum_is_participation(percentage: u8, vote_count: nat, total_eligible: nat)
    ensures
        quorum_met(QuorumMethod::Percentage(percentage), vote_count as int, total_eligible as int) ==> (
        total_eligible > 0 && vote_count * 100 >= percentage * total_eligible),
        total_eligible > 0 && vote_count * 100 >= percentage * total_eligible ==> quorum_met(
            QuorumMethod::Percentage(percentage),
            vote_count as int,
            total_eligible as int,
        ),
        quorum_met(QuorumMethod::Percentage(percentage), vote_count as int, total_eligible as int)
            == threshold_met(percentage as int, vote_count as int, total_eligible as int),
{
}

/// A fixed-number quorum counts voters, whatever the size of the
/// electorate: it is reached exactly when at least that many voted; with no
/// quorum requirement any number of votes, none included, is enough.
pub proof fn law_fixed_and_no_quorum(n: u64, vote_count: nat, total_eligible: nat, other_total: nat)
    ensures
        quorum_met(QuorumMethod::FixedNumber(n), vote_count as int, total_eligible as int) <==> vote_count
            >= n,
        quorum_met(QuorumMethod::FixedNumber(n), vote_count as int, total_eligible as int) == quorum_met(
            QuorumMethod::FixedNumber(n),
            vote_count as int,
            other_total as int,
        ),
        quorum_met(QuorumMethod::NoQuorum, vote_count as int, total_eligible as int),
{
}

/// More votes never lose a quorum that fewer votes reached.
pub proof fn law_quorum_monotone(q: QuorumMethod, fewer: int, more: int, total: int)
    requires
        0 <= fewer <= more,
        0 <= total,
        quorum_met(q, fewer, total),
    ensures
        quorum_met(q, more, total),
{
    if let QuorumMethod::Percentage(p) = q {
        assert(100 * more >= 100 * fewer);
    }
}

/// More approving weight never loses an approval that less weight reached.
pub proof fn law_threshold_monotone(threshold: int, fewer: int, more: int, total: int)
    requires
        0 <= fewer <= more,
        threshold_met(threshold, fewer, total),
    ensures
        threshold_met(threshold, more, total),
{
}

/// A proposal created from older quorum and threshold numbers has a
/// threshold of at most 100% and a quorum percentage of at most 100%.
pub proof fn law_legacy_numbers_are_percentages(quorum: u64, threshold: u64)
    ensures
        legacy_threshold(threshold) <= 100,
        legacy_quorum(quorum) matches QuorumMethod::Percentage(p) ==> 1 <= p <= 100,
        quorum > 100 ==> legacy_quorum(quorum) == QuorumMethod::FixedNumber(quorum),
{
}

/// A parsed quorum percentage never exceeds 100.
pub proof fn law_parsed_percentage_at_most_100(l: Seq<char>)
    ensures
        quorum_named(l) matches Some(QuorumMethod::Percentage(p)) ==> p <= 100,
{
    if has_prefix(l, "percentage:"@) {
        lemma_parsed_unsigned_nonneg(l.subrange("percentage:"@.len() as int, l.len() as int), 255);
    }
}

} // verus!
