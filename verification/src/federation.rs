//! Federation: proposals shared between cooperatives, the votes on them, the
//! executor that runs a federated proposal, and the decisions a network
//! node makes about peers, addresses and retries.

use vstd::prelude::*;
use crate::auth::AuthContext;
use crate::retry::{RetryEntry, RetryManager};
use crate::text::{
    find_char, first_index_of, has_prefix, join, join2, join_spec, lines, lines_spec, split_char, split_spec,
    starts_with, str_eq, substring, trim, trim_spec, views_of, format_i64, decimal_signed,
};

verus! {

broadcast use vstd::string::group_string_axioms;

// ---------------------------------------------------------------------------
// Errors
// ---------------------------------------------------------------------------

/// Error of a federation operation on the virtual machine.
#[derive(Debug)]
pub enum FederationVMError {
    NotEnabled,
    NetworkError(String),
    StorageError(String),
    MessageError(String),
}

pub open spec fn federation_error_text(e: FederationVMError) -> Seq<char> {
    match e {
        FederationVMError::NotEnabled => "Federation is not enabled"@,
        FederationVMError::NetworkError(m) => "Network error: "@ + m@,
        FederationVMError::StorageError(m) => "Storage error: "@ + m@,
        FederationVMError::MessageError(m) => "Message error: "@ + m@,
    }
}

impl FederationVMError {
    /// The text shown for this error.
    pub fn message(&self) -> (r: String)
        ensures
            r@ == federation_error_text(*self),
    {
        match self {
            FederationVMError::NotEnabled => "Federation is not enabled".to_owned(),
            FederationVMError::NetworkError(m) => join2("Network error: ", m.as_str()),
            FederationVMError::StorageError(m) => join2("Storage error: ", m.as_str()),
            FederationVMError::MessageError(m) => join2("Message error: ", m.as_str()),
        }
    }
}

// ---------------------------------------------------------------------------
// Federated proposals and votes
// ---------------------------------------------------------------------------

/// Which cooperatives a federated proposal concerns.
#[derive(Debug, Clone, PartialEq, Eq)]
pub enum ProposalScope {
    /// Only the local node
    Local,
    /// One cooperative
    SingleCoop(String),
    /// Several cooperatives
    MultiCoop(Vec<String>),
    /// The whole federation
    GlobalFederation,
}

/// How votes on a federated proposal are counted.
#[derive(Debug, Clone, Copy, PartialEq, Eq, Structural)]
pub enum VotingModel {
    /// The default model of the executor
    Simple,
    /// Every member has one vote
    OneMemberOneVote,
    /// Every cooperative has one vote
    OneCoopOneVote,
}

/// Status of a federated proposal.
#[derive(Debug, Clone, Copy, PartialEq, Eq, Structural)]
pub enum ProposalStatus {
    Open,
    Closed,
}

/// A proposal shared with the federation.
#[derive(Debug)]
pub struct FederatedProposal {
    pub proposal_id: String,
    pub namespace: String,
    pub options: Vec<String>,
    pub creator: String,
    /// Creation time (seconds since the epoch)
    pub created_at: i64,
    pub scope: ProposalScope,
    pub voting_model: VotingModel,
    /// End of voting (seconds since the epoch)
    pub expires_at: Option<i64>,
    pub status: ProposalStatus,
}

/// The fields of a vote file, the ranked choices still as text.
#[derive(Debug)]
pub struct VoteFile {
    pub proposal_id: String,
    pub voter: String,
    /// The comma-separated ranked choices, each trimmed.
    pub choices: Vec<String>,
    pub message: String,
    pub signature: String,
}

pub open spec fn trimmed_views(v: Seq<Seq<char>>) -> Seq<Seq<char>> {
    v.map_values(|l: Seq<char>| trim_spec(l))
}

/// Scope named by a command-line argument; `single` concerns the creator's
/// cooperative, `multi` the comma-separated cooperatives given.
pub open spec fn scope_matches(arg: Seq<char>, creator: Seq<char>, coops: Seq<char>, s: ProposalScope) -> bool {
    if arg == "single"@ {
        s matches ProposalScope::SingleCoop(c) && c@ == creator
    } else if arg == "multi"@ {
        s matches ProposalScope::MultiCoop(list) && views_of(list@) == trimmed_views(
            split_spec(coops, ','),
        )
    } else {
        s == ProposalScope::GlobalFederation
    }
}

/// Voting model named by a command-line argument.
pub open spec fn model_named(arg: Seq<char>) -> VotingModel {
    if arg == "coop"@ {
        VotingModel::OneCoopOneVote
    } else {
        VotingModel::OneMemberOneVote
    }
}

/// Whether the end of voting, `expires_in` seconds after `now`, fits in an
/// `i64`.
pub open spec fn expiry_fits(now: i64, expires_in: Option<u64>) -> bool {
    expires_in matches Some(s) ==> now + s <= i64::MAX
}

/// Error for a voting period whose end cannot be represented.
pub open spec fn expiry_error() -> Seq<char> {
    "Invalid expiry: the end of voting is out of range"@
}

/// What a proposal file read at `now` describes: its first three lines give
/// the id, namespace and creator, and the lines after them the options, all
/// trimmed.
pub open spec fn proposal_from_file(
    content: Seq<char>,
    scope: Seq<char>,
    model: Seq<char>,
    coops: Seq<char>,
    now: i64,
    expires_in: Option<u64>,
    p: FederatedProposal,
) -> bool {
    let ls = lines_spec(content);
    &&& p.proposal_id@ == trim_spec(ls[0])
    &&& p.namespace@ == trim_spec(ls[1])
    &&& p.creator@ == trim_spec(ls[2])
    &&& views_of(p.options@) == trimmed_views(ls.subrange(3, ls.len() as int))
    &&& p.created_at == now
    &&& scope_matches(scope, trim_spec(ls[2]), coops, p.scope)
    &&& p.voting_model == model_named(model)
    &&& p.expires_at == match expires_in {
        Some(s) => Some((now + s) as i64),
        None => None,
    }
    &&& p.status == ProposalStatus::Open
}

fn trim_all(v: &Vec<String>, from: usize) -> (r: Vec<String>)
    requires
        from <= v@.len(),
    ensures
        views_of(r@) == trimmed_views(views_of(v@).subrange(from as int, v@.len() as int)),
{
    let mut out: Vec<String> = Vec::new();
    let mut i: usize = from;
    while i < v.len()
        invariant
            from <= i <= v@.len(),
            views_of(out@) == trimmed_views(views_of(v@).subrange(from as int, i as int)),
        decreases v.len() - i,
    {
        let t = trim(v[i].as_str());
        let ghost before = out@;
        out.push(t);
        proof {
            assert(views_of(out@) =~= views_of(before).push(t@));
            assert(views_of(v@).subrange(from as int, i + 1) =~= views_of(v@).subrange(
                from as int,
                i as int,
            ).push(v@[i as int]@));
            assert(trimmed_views(views_of(v@).subrange(from as int, i + 1)) =~= trimmed_views(
                views_of(v@).subrange(from as int, i as int),
            ).push(trim_spec(v@[i as int]@)));
        }
        i = i + 1;
    }
    out
}

/// Reads a proposal file: at least four lines (id, namespace, creator,
/// options), with the scope, voting model, cooperatives and expiry given on
/// the command line, created at `now` (seconds).
pub fn parse_proposal_file(
    content: &str,
    scope: &str,
    model: &str,
    coops: &str,
    now: i64,
    expires_in: Option<u64>,
) -> (r: Result<FederatedProposal, String>)
    ensures
        lines_spec(content@).len() < 4 ==> (r matches Err(m) && m@
            == "Invalid proposal file format. Expected at least 4 lines: ID, namespace, creator, options"@),
        lines_spec(content@).len() >= 4 && !expiry_fits(now, expires_in) ==> (r matches Err(m) && m@
            == expiry_error()),
        r is Ok <==> lines_spec(content@).len() >= 4 && expiry_fits(now, expires_in),
        r matches Ok(p) ==> proposal_from_file(content@, scope@, model@, coops@, now, expires_in, p),
{
    let ls = lines(content);
    proof {
        assert(views_of(ls@).len() == ls@.len());
    }
    if ls.len() < 4 {
        return Err(
            "Invalid proposal file format. Expected at least 4 lines: ID, namespace, creator, options".to_owned(),
        );
    }
    assert(views_of(ls@)[0] == ls@[0]@);
    assert(views_of(ls@)[1] == ls@[1]@);
    assert(views_of(ls@)[2] == ls@[2]@);
    let proposal_id = trim(ls[0].as_str());
    let namespace = trim(ls[1].as_str());
    let creator = trim(ls[2].as_str());
    let options = trim_all(&ls, 3);
    let scope_value = if str_eq(scope, "single") {
        ProposalScope::SingleCoop(creator.clone())
    } else if str_eq(scope, "multi") {
        let parts = split_char(coops, ',');
        let list = trim_all(&parts, 0);
        proof {
            assert(views_of(parts@).subrange(0, parts@.len() as int) =~= views_of(parts@));
        }
        ProposalScope::MultiCoop(list)
    } else {
        ProposalScope::GlobalFederation
    };
    let voting_model = if str_eq(model, "coop") {
        VotingModel::OneCoopOneVote
    } else {
        VotingModel::OneMemberOneVote
    };
    let expires_at = match expires_in {
        Some(s) => {
            let end: i128 = now as i128 + s as i128;
            if end <= i64::MAX as i128 {
                Some(end as i64)
            } else {
                return Err("Invalid expiry: the end of voting is out of range".to_owned());
            }
        },
        None => None,
    };
    Ok(FederatedProposal {
        proposal_id,
        namespace,
        options,
        creator,
        created_at: now,
        scope: scope_value,
        voting_model,
        expires_at,
        status: ProposalStatus::Open,
    })
}

/// What a vote file describes: proposal id, voter, the comma-separated
/// ranked choices, and optionally a message and a signature, one per line;
/// a missing message is derived from the other fields, a missing signature
/// is the test placeholder `valid`.
pub open spec fn vote_from_file(content: Seq<char>, v: VoteFile) -> bool {
    let ls = lines_spec(content);
    &&& v.proposal_id@ == trim_spec(ls[0])
    &&& v.voter@ == trim_spec(ls[1])
    &&& views_of(v.choices@) == trimmed_views(split_spec(ls[2], ','))
    &&& v.message@ == if ls.len() > 3 {
        trim_spec(ls[3])
    } else {
        "Vote from "@ + trim_spec(ls[1]) + " on proposal "@ + trim_spec(ls[0]) + " with choices "@
            + trim_spec(ls[2])
    }
    &&& v.signature@ == if ls.len() > 4 {
        trim_spec(ls[4])
    } else {
        "valid"@
    }
}

/// Reads a vote file of at least three lines.
pub fn parse_vote_file(content: &str) -> (r: Result<VoteFile, String>)
    ensures
        lines_spec(content@).len() < 3 <==> r is Err,
        r matches Err(m) ==> m@
            == "Invalid vote file format. Expected at least 3 lines: proposal ID, voter ID, ranked choices"@,
        r matches Ok(v) ==> vote_from_file(content@, v),
{
    let ls = lines(content);
    proof {
        assert(views_of(ls@).len() == ls@.len());
    }
    if ls.len() < 3 {
        return Err(
            "Invalid vote file format. Expected at least 3 lines: proposal ID, voter ID, ranked choices".to_owned(),
        );
    }
    assert(views_of(ls@)[0] == ls@[0]@);
    assert(views_of(ls@)[1] == ls@[1]@);
    assert(views_of(ls@)[2] == ls@[2]@);
    let proposal_id = trim(ls[0].as_str());
    let voter = trim(ls[1].as_str());
    let parts = split_char(ls[2].as_str(), ',');
    let choices = trim_all(&parts, 0);
    proof {
        assert(views_of(parts@).subrange(0, parts@.len() as int) =~= views_of(parts@));
    }
    let message = if ls.len() > 3 {
        assert(views_of(ls@)[3] == ls@[3]@);
        trim(ls[3].as_str())
    } else {
        let choices_line = trim(ls[2].as_str());
        join2("Vote from ", voter.as_str()).concat(" on proposal ").concat(
            proposal_id.as_str(),
        ).concat(" with choices ").concat(choices_line.as_str())
    };
    let signature = if ls.len() > 4 {
        assert(views_of(ls@)[4] == ls@[4]@);
        trim(ls[4].as_str())
    } else {
        "valid".to_owned()
    };
    Ok(VoteFile { proposal_id, voter, choices, message, signature })
}

// ---------------------------------------------------------------------------
// Execution of a federated proposal
// ---------------------------------------------------------------------------

/// Why execution may proceed.
#[derive(Debug, Clone, Copy, PartialEq, Eq, Structural)]
pub enum ExecutionClearance {
    /// The proposal has no expiry
    NoExpiry,
    /// The proposal has expired
    Expired,
    /// The proposal has not expired, and execution is forced
    Forced,
}

/// Whether the remaining time to `expires_at` fits in an `i64` wherever an
/// execution is refused (not yet expired, not forced), the one case that
/// computes it.
pub open spec fn remaining_fits(expires_at: Option<i64>, current: i64, force: bool) -> bool {
    match expires_at {
        Some(e) => current < e && !force ==> e - current <= i64::MAX,
        None => true,
    }
}

/// The message refusing an execution before expiry: whole hours and the
/// minutes left over.
pub open spec fn not_expired_message(remaining_seconds: int) -> Seq<char> {
    "Proposal has not expired yet. "@ + decimal_signed(remaining_seconds / 60 / 60) + " hours "@
        + decimal_signed((remaining_seconds / 60) % 60) + " minutes remaining. Use --force to override."@
}

/// Whether a federated proposal may be executed at `current` (seconds):
/// only once it has expired, unless `force`.
pub fn execution_clearance(expires_at: Option<i64>, current: i64, force: bool) -> (r: Result<
    ExecutionClearance,
    String,
>)
    requires
        remaining_fits(expires_at, current, force),
    ensures
        match expires_at {
            None => r == Ok::<ExecutionClearance, String>(ExecutionClearance::NoExpiry),
            Some(e) => if current < e && !force {
                r matches Err(m) && m@ == not_expired_message(e - current)
            } else if current < e {
                r == Ok::<ExecutionClearance, String>(ExecutionClearance::Forced)
            } else {
                r == Ok::<ExecutionClearance, String>(ExecutionClearance::Expired)
            },
        },
{
    match expires_at {
        None => Ok(ExecutionClearance::NoExpiry),
        Some(e) => {
            if current < e && !force {
                let remaining_seconds = e - current;
                let remaining_minutes = remaining_seconds / 60;
                let remaining_hours = remaining_minutes / 60;
                let msg = join2("Proposal has not expired yet. ", format_i64(remaining_hours).as_str()).concat(
                    " hours ",
                ).concat(format_i64(remaining_minutes % 60).as_str()).concat(
                    " minutes remaining. Use --force to override.",
                );
                Err(msg)
            } else if current < e {
                Ok(ExecutionClearance::Forced)
            } else {
                Ok(ExecutionClearance::Expired)
            }
        },
    }
}

/// The cooperative a voter belongs to: the part of its name before the
/// first `_`, if it has one.
pub open spec fn coop_of_spec(voter: Seq<char>) -> Option<Seq<char>> {
    match first_index_of(voter, '_') {
        Some(i) => Some(voter.subrange(0, i)),
        None => None,
    }
}

/// The cooperative a voter belongs to.
pub fn coop_of(voter: &str) -> (r: Option<String>)
    ensures
        match r {
            Some(c) => coop_of_spec(voter@) == Some(c@),
            None => coop_of_spec(voter@) is None,
        },
{
    match find_char(voter, '_') {
        Some(i) => {
            proof {
                let s = voter@;
                assert(exists|j: int| 0 <= j < s.len() && s[j] == '_') by {
                    assert(s[i as int] == '_');
                }
                let c = choose|j: int|
                    0 <= j < s.len() && s[j] == '_' && forall|k: int| 0 <= k < j ==> s[k] != '_';
                assert(s[i as int] == '_' && forall|k: int| 0 <= k < i ==> s[k] != '_');
                if c < i {
                    assert(s[c] != '_');
                } else if c > i {
                    assert(s[i as int] != '_');
                }
                assert(c == i);
            }
            Some(substring(voter, 0, i))
        },
        None => None,
    }
}

/// Whether `c` is the cooperative of one of the voters.
pub open spec fn coop_of_some(voters: Seq<String>, c: Seq<char>) -> bool {
    exists|w: int| 0 <= w < voters.len() && coop_of_spec(voters[w]@) == Some(c)
}

/// The distinct cooperatives of the voters, in order of first appearance.
pub open spec fn cooperatives_spec(voters: Seq<String>) -> Seq<Seq<char>>
    decreases voters.len(),
{
    if voters.len() == 0 {
        Seq::empty()
    } else {
        let before = cooperatives_spec(voters.drop_last());
        match coop_of_spec(voters.last()@) {
            Some(c) => if before.contains(c) {
                before
            } else {
                before.push(c)
            },
            None => before,
        }
    }
}

/// The distinct cooperatives of the voters, in order of first appearance.
pub fn cooperatives(voters: &Vec<String>) -> (r: Vec<String>)
    ensures
        views_of(r@) == cooperatives_spec(voters@),
        forall|i: int, j: int|
            0 <= i < j < r@.len() ==> (#[trigger] r@[i])@ != (#[trigger] r@[j])@,
        forall|i: int| 0 <= i < r@.len() ==> coop_of_some(voters@, (#[trigger] r@[i])@),
        forall|v: int|
            0 <= v < voters@.len() && (#[trigger] coop_of_spec(voters@[v]@)) is Some ==> exists|i: int|
                0 <= i < r@.len() && coop_of_spec(voters@[v]@) == Some(r@[i]@),
{
    let mut out: Vec<String> = Vec::new();
    let mut v: usize = 0;
    while v < voters.len()
        invariant
            v <= voters@.len(),
            views_of(out@) == cooperatives_spec(voters@.take(v as int)),
            forall|i: int, j: int|
                0 <= i < j < out@.len() ==> (#[trigger] out@[i])@ != (#[trigger] out@[j])@,
            forall|i: int| 0 <= i < out@.len() ==> coop_of_some(voters@, (#[trigger] out@[i])@),
            forall|w: int|
                0 <= w < v && (#[trigger] coop_of_spec(voters@[w]@)) is Some ==> exists|i: int|
                    0 <= i < out@.len() && coop_of_spec(voters@[w]@) == Some(out@[i]@),
        decreases voters.len() - v,
    {
        proof {
            assert(voters@.take(v as int + 1).drop_last() =~= voters@.take(v as int));
            assert(voters@.take(v as int + 1).last() == voters@[v as int]);
        }
        if let Some(c) = coop_of(voters[v].as_str()) {
            let mut seen = false;
            let mut k: usize = 0;
            while k < out.len()
                invariant
                    k <= out@.len(),
                    seen ==> exists|i: int| 0 <= i < out@.len() && out@[i]@ == c@,
                    !seen ==> forall|i: int| 0 <= i < k ==> out@[i]@ != c@,
                decreases out.len() - k,
            {
                if str_eq(out[k].as_str(), c.as_str()) {
                    seen = true;
                }
                k = k + 1;
            }
            proof {
                if seen {
                    let i = choose|i: int| 0 <= i < out@.len() && out@[i]@ == c@;
                    assert(views_of(out@)[i] == c@);
                } else {
                    assert(!views_of(out@).contains(c@));
                }
            }
            if !seen {
                let ghost before = out@;
                let ghost cv = c@;
                out.push(c);
                proof {
                    assert(views_of(out@) =~= views_of(before).push(cv));
                    assert(out@[out@.len() - 1]@ == cv);
                    assert(coop_of_spec(voters@[v as int]@) == Some(cv));
                    assert forall|i: int| 0 <= i < out@.len() implies coop_of_some(
                        voters@,
                        (#[trigger] out@[i])@,
                    ) by {
                        if i < before.len() {
                            assert(out@[i] == before[i]);
                        } else {
                            assert(coop_of_spec(voters@[v as int]@) == Some(out@[i]@));
                        }
                    }
                    assert forall|w: int|
                        0 <= w < v + 1 && (#[trigger] coop_of_spec(voters@[w]@)) is Some implies exists|
                        i: int,
                    | 0 <= i < out@.len() && coop_of_spec(voters@[w]@) == Some(out@[i]@) by {
                        if w == v {
                            assert(coop_of_spec(voters@[w]@) == Some(out@[before.len() as int]@));
                        } else {
                            let i = choose|i: int|
                                0 <= i < before.len() && coop_of_spec(voters@[w]@) == Some(before[i]@);
                            assert(out@[i] == before[i]);
                        }
                    }
                }
            }
        }
        v = v + 1;
    }
    proof {
        assert(voters@.take(voters@.len() as int) =~= voters@);
    }
    out
}

/// A log entry describing an executed federated proposal.
#[derive(Debug)]
pub struct ExecutionRecord {
    /// The entry's type tag, `proposal_execution`
    pub entry_type: String,
    pub scope: ProposalScope,
    /// The scope as the log writes it (its `Debug` form)
    pub scope_text: String,
    pub voting_model: VotingModel,
    /// The voting model as the log writes it (its `Debug` form)
    pub voting_model_text: String,
    pub parent_hash: Option<String>,
    /// Execution time (seconds since the epoch)
    pub executed_at: i64,
}

/// The text `format!("{:?}", s)` gives for a string: quoted and escaped.
pub uninterp spec fn str_debug(s: Seq<char>) -> Seq<char>;

/// Calls `<str as Debug>::fmt` through `format!("{:?}", s)`. The contract
/// claims that the text depends on the string alone, through the name
/// `str_debug`.
#[verifier::external_body]
pub(crate) fn debug_text(s: &str) -> (r: String)
    ensures
        r@ == str_debug(s@),
{
    format!("{:?}", s)
}

pub open spec fn debug_views(v: Seq<String>) -> Seq<Seq<char>> {
    v.map_values(|x: String| str_debug(x@))
}

/// The `Debug` form of a scope: the variant's name, with its cooperative or
/// its list of cooperatives in brackets.
pub open spec fn scope_debug(s: ProposalScope) -> Seq<char> {
    match s {
        ProposalScope::Local => "Local"@,
        ProposalScope::SingleCoop(c) => "SingleCoop("@ + str_debug(c@) + ")"@,
        ProposalScope::MultiCoop(l) => "MultiCoop(["@ + join_spec(debug_views(l@), ", "@) + "])"@,
        ProposalScope::GlobalFederation => "GlobalFederation"@,
    }
}

/// The `Debug` form of a voting model: the variant's name.
pub open spec fn model_debug(m: VotingModel) -> Seq<char> {
    match m {
        VotingModel::Simple => "Simple"@,
        VotingModel::OneMemberOneVote => "OneMemberOneVote"@,
        VotingModel::OneCoopOneVote => "OneCoopOneVote"@,
    }
}

/// The `Debug` form of a scope.
pub fn scope_text(s: &ProposalScope) -> (r: String)
    ensures
        r@ == scope_debug(*s),
{
    match s {
        ProposalScope::Local => "Local".to_owned(),
        ProposalScope::SingleCoop(c) => join2("SingleCoop(", debug_text(c.as_str()).as_str()).concat(")"),
        ProposalScope::MultiCoop(l) => {
            let mut parts: Vec<String> = Vec::new();
            let mut i: usize = 0;
            while i < l.len()
                invariant
                    i <= l@.len(),
                    views_of(parts@) =~= debug_views(l@.take(i as int)),
                decreases l.len() - i,
            {
                let t = debug_text(l[i].as_str());
                let ghost before = parts@;
                parts.push(t);
                proof {
                    assert(views_of(parts@) =~= views_of(before).push(t@));
                    assert(l@.take(i as int + 1) =~= l@.take(i as int).push(l@[i as int]));
                }
                i = i + 1;
            }
            proof {
                assert(l@.take(l@.len() as int) =~= l@);
            }
            let inner = join(&parts, ", ");
            join2("MultiCoop([", inner.as_str()).concat("])")
        },
        ProposalScope::GlobalFederation => "GlobalFederation".to_owned(),
    }
}

/// The `Debug` form of a voting model.
pub fn model_text(m: VotingModel) -> (r: String)
    ensures
        r@ == model_debug(m),
{
    match m {
        VotingModel::Simple => "Simple".to_owned(),
        VotingModel::OneMemberOneVote => "OneMemberOneVote".to_owned(),
        VotingModel::OneCoopOneVote => "OneCoopOneVote".to_owned(),
    }
}

/// Builds up and runs a federated proposal on a virtual machine `V`.
pub struct ProposalExecutor<V> {
    pub vm: V,
    pub auth_context: AuthContext,
    pub dsl_code: Option<String>,
    pub bytecode: Option<Vec<u8>>,
    pub parent_hash: Option<String>,
    pub scope: Option<ProposalScope>,
    pub voting_model: Option<VotingModel>,
    pub expires_in: Option<u64>,
}

impl<V> ProposalExecutor<V> {
    /// An executor for `vm` with nothing loaded or set.
    pub fn new(vm: V, auth_context: AuthContext) -> (r: ProposalExecutor<V>)
        ensures
            r.vm == vm,
            r.auth_context == auth_context,
            r.dsl_code is None,
            r.bytecode is None,
            r.parent_hash is None,
            r.scope is None,
            r.voting_model is None,
            r.expires_in is None,
    {
        ProposalExecutor {
            vm,
            auth_context,
            dsl_code: None,
            bytecode: None,
            parent_hash: None,
            scope: None,
            voting_model: None,
            expires_in: None,
        }
    }

    /// Sets the parent hash for the DAG context.
    pub fn with_parent_hash(self, parent_hash: String) -> (r: ProposalExecutor<V>)
        ensures
            r == (ProposalExecutor { parent_hash: Some(parent_hash), ..self }),
    {
        ProposalExecutor { parent_hash: Some(parent_hash), ..self }
    }

    /// Sets the scope of the proposal.
    pub fn with_scope(self, scope: ProposalScope) -> (r: ProposalExecutor<V>)
        ensures
            r == (ProposalExecutor { scope: Some(scope), ..self }),
    {
        ProposalExecutor { scope: Some(scope), ..self }
    }

    /// Sets the voting model.
    pub fn with_voting_model(self, model: VotingModel) -> (r: ProposalExecutor<V>)
        ensures
            r == (ProposalExecutor { voting_model: Some(model), ..self }),
    {
        ProposalExecutor { voting_model: Some(model), ..self }
    }

    /// Sets the expiry, in seconds from now.
    pub fn with_expiry(self, seconds: u64) -> (r: ProposalExecutor<V>)
        ensures
            r == (ProposalExecutor { expires_in: Some(seconds), ..self }),
    {
        ProposalExecutor { expires_in: Some(seconds), ..self }
    }

    /// Loads DSL code.
    pub fn load_dsl(self, dsl_code: String) -> (r: ProposalExecutor<V>)
        ensures
            r == (ProposalExecutor { dsl_code: Some(dsl_code), ..self }),
    {
        ProposalExecutor { dsl_code: Some(dsl_code), ..self }
    }

    /// Loads bytecode.
    pub fn load_bytecode(self, bytecode: Vec<u8>) -> (r: ProposalExecutor<V>)
        ensures
            r == (ProposalExecutor { bytecode: Some(bytecode), ..self }),
    {
        ProposalExecutor { bytecode: Some(bytecode), ..self }
    }

    /// Runs the proposal at `now` (seconds): refused when the machine has no
    /// federation; otherwise the machine comes back with the record to log,
    /// which uses the local scope and the simple model where none was set.
    pub fn execute(self, federation_enabled: bool, now: i64) -> (r: Result<(V, ExecutionRecord), String>)
        ensures
            !federation_enabled ==> (r matches Err(m) && m@ == "Federation is not enabled on this VM"@),
            federation_enabled ==> (r matches Ok((vm, rec)) && {
                &&& vm == self.vm
                &&& rec.scope == match self.scope {
                    Some(s) => s,
                    None => ProposalScope::Local,
                }
                &&& rec.voting_model == match self.voting_model {
                    Some(m) => m,
                    None => VotingModel::Simple,
                }
                &&& rec.parent_hash == self.parent_hash
                &&& rec.executed_at == now
                &&& rec.entry_type@ == "proposal_execution"@
                &&& rec.scope_text@ == scope_debug(rec.scope)
                &&& rec.voting_model_text@ == model_debug(rec.voting_model)
            }),
    {
        if !federation_enabled {
            return Err("Federation is not enabled on this VM".to_owned());
        }
        let voting_model = match self.voting_model {
            Some(m) => m,
            None => VotingModel::Simple,
        };
        let scope = match self.scope {
            Some(s) => s,
            None => ProposalScope::Local,
        };
        let scope_str = scope_text(&scope);
        let model_str = model_text(voting_model);
        let rec = ExecutionRecord {
            entry_type: "proposal_execution".to_owned(),
            scope,
            scope_text: scope_str,
            voting_model,
            voting_model_text: model_str,
            parent_hash: self.parent_hash,
            executed_at: now,
        };
        Ok((self.vm, rec))
    }

    /// Ends an execution once the machine has written the record to its
    /// federation log: the machine comes back when the write succeeded, and
    /// the write's error otherwise.
    pub fn finish(vm: V, logged: Result<(), String>) -> (r: Result<V, String>)
        ensures
            match logged {
                Ok(()) => r == Ok::<V, String>(vm),
                Err(e) => r == Err::<V, String>(e),
            },
    {
        match logged {
            Ok(()) => Ok(vm),
            Err(e) => Err(e),
        }
    }
}

// ---------------------------------------------------------------------------
// Network node decisions
// ---------------------------------------------------------------------------

/// Whether a string is a well-formed libp2p multiaddress.
pub uninterp spec fn valid_multiaddr(s: Seq<char>) -> bool;

/// Whether a string is a well-formed libp2p peer id (base58 multihash).
pub uninterp spec fn valid_peer_id(s: Seq<char>) -> bool;

/// Calls `<libp2p::Multiaddr as FromStr>::from_str` and says whether it
/// succeeded. The contract claims that the answer depends on the text alone,
/// through the name `valid_multiaddr`.
#[verifier::external_body]
pub(crate) fn parses_as_multiaddr(s: &str) -> (b: bool)
    ensures
        b == valid_multiaddr(s@),
{
    s.parse::<libp2p::Multiaddr>().is_ok()
}

/// Calls `<libp2p::PeerId as FromStr>::from_str` and says whether it
/// succeeded. The contract claims that the answer depends on the text alone,
/// through the name `valid_peer_id`.
#[verifier::external_body]
pub(crate) fn parses_as_peer_id(s: &str) -> (b: bool)
    ensures
        b == valid_peer_id(s@),
{
    s.parse::<libp2p::PeerId>().is_ok()
}

/// Configuration options for a network node.
#[derive(Debug, Clone)]
pub struct NodeConfig {
    /// Optional fixed port to listen on (otherwise an ephemeral port)
    pub port: Option<u16>,
    /// Multiaddresses of bootstrap nodes to connect to when starting
    pub bootstrap_nodes: Vec<String>,
    /// Node's human-readable name
    pub name: Option<String>,
    /// Node capabilities (services/features provided)
    pub capabilities: Vec<String>,
    /// Protocol version
    pub protocol_version: String,
}

impl NodeConfig {
    /// No fixed port, no bootstrap nodes, no name, no capabilities, protocol
    /// version 1.0.0.
    pub fn default_config() -> (r: NodeConfig)
        ensures
            r.port is None,
            r.bootstrap_nodes@.len() == 0,
            r.name is None,
            r.capabilities@.len() == 0,
            r.protocol_version@ == "1.0.0"@,
    {
        NodeConfig {
            port: None,
            bootstrap_nodes: Vec::new(),
            name: None,
            capabilities: Vec::new(),
            protocol_version: "1.0.0".to_owned(),
        }
    }
}

/// Address a node listens on: all IPv4 interfaces, on the configured TCP
/// port or an ephemeral one.
pub open spec fn listen_address_spec(port: Option<u16>) -> Seq<char> {
    match port {
        Some(p) => "/ip4/0.0.0.0/tcp/"@ + crate::text::decimal(p as nat),
        None => "/ip4/0.0.0.0/tcp/0"@,
    }
}

/// The address a node listens on.
pub fn listen_address(port: Option<u16>) -> (r: String)
    ensures
        r@ == listen_address_spec(port),
{
    match port {
        Some(p) => join2("/ip4/0.0.0.0/tcp/", crate::text::format_u64(p as u64).as_str()),
        None => "/ip4/0.0.0.0/tcp/0".to_owned(),
    }
}

/// A node's announcement of itself to the network.
#[derive(Debug)]
pub struct NodeAnnouncement {
    pub node_id: String,
    pub capabilities: Vec<String>,
    pub version: String,
    pub name: Option<String>,
}

impl NodeConfig {
    /// The announcement of a node with this configuration and peer id.
    pub fn announcement(&self, node_id: String) -> (r: NodeAnnouncement)
        ensures
            r.node_id == node_id,
            r.capabilities@ == self.capabilities@,
            r.version == self.protocol_version,
            r.name == self.name,
    {
        NodeAnnouncement {
            node_id,
            capabilities: self.capabilities.clone(),
            version: self.protocol_version.clone(),
            name: match &self.name {
                Some(n) => Some(n.clone()),
                None => None,
            },
        }
    }
}

/// Information about a peer.
#[derive(Debug, Clone)]
pub struct PeerInfo {
    /// Peer ID as string
    pub peer_id: String,
    /// Known addresses for this peer
    pub addresses: Option<Vec<String>>,
    /// Role of the peer if known
    pub role: Option<String>,
    /// Ping latency in milliseconds
    pub ping_ms: Option<u64>,
    /// Protocols supported by this peer
    pub supported_protocols: Option<Vec<String>>,
    /// Last time this peer was seen (UNIX timestamp)
    pub last_seen: Option<u64>,
}

impl PeerInfo {
    /// What is known of a connected peer from its id alone.
    pub fn connected(peer_id: String) -> (r: PeerInfo)
        ensures
            r.peer_id == peer_id,
            r.addresses is None,
            r.role is None,
            r.ping_ms is None,
            r.supported_protocols is None,
            r.last_seen is None,
    {
        PeerInfo {
            peer_id,
            addresses: None,
            role: None,
            ping_ms: None,
            supported_protocols: None,
            last_seen: None,
        }
    }
}

/// Whether a message target is given as an IPv4 or IPv6 multiaddress.
pub open spec fn is_address_target(peer: Seq<char>) -> bool {
    has_prefix(peer, "/ip4/"@) || has_prefix(peer, "/ip6/"@)
}

/// Checks the target of a custom message: a peer id, not an address.
pub fn check_message_target(peer: &str) -> (r: Result<(), String>)
    ensures
        is_address_target(peer@) ==> (r matches Err(m) && m@ == "Sending by multiaddress not implemented yet"@),
        !is_address_target(peer@) && !valid_peer_id(peer@) ==> (r matches Err(m) && m@ == "Invalid peer ID: "@
            + peer@),
        r is Ok <==> !is_address_target(peer@) && valid_peer_id(peer@),
{
    if starts_with(peer, "/ip4/") || starts_with(peer, "/ip6/") {
        return Err("Sending by multiaddress not implemented yet".to_owned());
    }
    if parses_as_peer_id(peer) {
        Ok(())
    } else {
        Err(join2("Invalid peer ID: ", peer))
    }
}

/// What a node does when a retry of an operation comes due.
#[derive(Debug)]
pub enum RetryAction {
    /// Dial the address again
    Dial(String),
    /// The dial target is not a multiaddress
    InvalidAddress(String),
    /// Send the identified message to the peer again
    Resend { peer: String, message_id: String },
    /// A message target that names no peer: nothing to do
    Skip,
    /// An operation the node does not know
    Unknown(String),
}

/// The action for a due retry of `operation` on `target`: dials retry
/// multiaddresses; message sends retry `peer:message` targets whose peer id
/// is well formed.
pub open spec fn retry_action_ok(operation: Seq<char>, target: Seq<char>, a: RetryAction) -> bool {
    if operation == "dial"@ {
        if valid_multiaddr(target) {
            a matches RetryAction::Dial(t) && t@ == target
        } else {
            a matches RetryAction::InvalidAddress(t) && t@ == target
        }
    } else if operation == "send_message"@ {
        match first_index_of(target, ':') {
            Some(i) => if valid_peer_id(target.subrange(0, i)) {
                a matches RetryAction::Resend { peer, message_id } && peer@ == target.subrange(0, i)
                    && message_id@ == target.subrange(i + 1, target.len() as int)
            } else {
                a matches RetryAction::Skip
            },
            None => a matches RetryAction::Skip,
        }
    } else {
        a matches RetryAction::Unknown(o) && o@ == operation
    }
}

/// Decides what to do for a due retry.
pub fn plan_retry(operation: &str, target: &str) -> (r: RetryAction)
    ensures
        retry_action_ok(operation@, target@, r),
{
    if str_eq(operation, "dial") {
        if parses_as_multiaddr(target) {
            RetryAction::Dial(target.to_owned())
        } else {
            RetryAction::InvalidAddress(target.to_owned())
        }
    } else if str_eq(operation, "send_message") {
        match find_char(target, ':') {
            Some(i) => {
                proof {
                    let s = target@;
                    assert(s[i as int] == ':');
                    let c = choose|j: int|
                        0 <= j < s.len() && s[j] == ':' && forall|k: int| 0 <= k < j ==> s[k] != ':';
                    if c < i {
                        assert(s[c] != ':');
                    } else if c > i {
                        assert(s[i as int] != ':');
                    }
                }
                let n = target.unicode_len();
                let peer = substring(target, 0, i);
                if parses_as_peer_id(peer.as_str()) {
                    let message_id = substring(target, i + 1, n);
                    RetryAction::Resend { peer, message_id }
                } else {
                    RetryAction::Skip
                }
            },
            None => RetryAction::Skip,
        }
    } else {
        RetryAction::Unknown(operation.to_owned())
    }
}

/// The decision state of a network node: its identity and configuration,
/// whether it runs, the peers it has connected to, when it started, its
/// role, and its retry bookkeeping. The node's event loop performs the
/// network work and consults this state for every decision.
pub struct NetworkNode {
    local_peer_id: String,
    config: NodeConfig,
    running: bool,
    known_peers: Vec<String>,
    start_time: Option<u64>,
    role: Option<String>,
    retry_manager: RetryManager,
}

impl NetworkNode {
    /// A stopped node with peer id `local_peer_id` and configuration
    /// `config`, started at `start_time` (seconds), knowing no peer, with no
    /// role and no retries.
    pub fn new(local_peer_id: String, config: NodeConfig, start_time: Option<u64>) -> (r: NetworkNode)
        ensures
            r.wf(),
            r.peer_id_view() == local_peer_id@,
            r.config_view() == config,
            !r.running_view(),
            r.known_peers_view().len() == 0,
            r.start_time_view() == start_time,
            r.role_view() is None,
            r.retries()@ == Map::<Seq<char>, RetryEntry>::empty(),
    {
        let r = NetworkNode {
            local_peer_id,
            config,
            running: false,
            known_peers: Vec::new(),
            start_time,
            role: None,
            retry_manager: RetryManager::new(),
        };
        assert(views_of(r.known_peers@) =~= Seq::<Seq<char>>::empty());
        assert(views_of(r.known_peers@).to_set() =~= Set::<Seq<char>>::empty());
        r
    }

    pub closed spec fn peer_id_view(&self) -> Seq<char> {
        self.local_peer_id@
    }

    pub closed spec fn config_view(&self) -> NodeConfig {
        self.config
    }

    pub closed spec fn running_view(&self) -> bool {
        self.running
    }

    /// The node's own peer id.
    pub fn local_peer_id(&self) -> (r: &str)
        ensures
            r@ == self.peer_id_view(),
    {
        self.local_peer_id.as_str()
    }

    /// The node's configuration.
    pub fn config(&self) -> (r: &NodeConfig)
        ensures
            *r == self.config_view(),
    {
        &self.config
    }

    /// Marks the node running; says whether it was stopped, so that a node
    /// already running is not started twice.
    pub fn start(&mut self) -> (r: bool)
        ensures
            r == !old(self).running_view(),
            final(self).running_view(),
            final(self).retries() == old(self).retries(),
            final(self).known_peers_view() == old(self).known_peers_view(),
            final(self).role_view() == old(self).role_view(),
            final(self).start_time_view() == old(self).start_time_view(),
            final(self).peer_id_view() == old(self).peer_id_view(),
            final(self).config_view() == old(self).config_view(),
    {
        if self.running {
            false
        } else {
            self.running = true;
            true
        }
    }

    /// Marks the node stopped.
    pub fn stop(&mut self)
        ensures
            !final(self).running_view(),
            final(self).retries() == old(self).retries(),
            final(self).known_peers_view() == old(self).known_peers_view(),
            final(self).role_view() == old(self).role_view(),
            final(self).start_time_view() == old(self).start_time_view(),
            final(self).peer_id_view() == old(self).peer_id_view(),
            final(self).config_view() == old(self).config_view(),
    {
        self.running = false;
    }

    /// Whether the node runs.
    pub fn is_running(&self) -> (r: bool)
        ensures
            r == self.running_view(),
    {
        self.running
    }

    /// The address the node listens on.
    pub fn listen_address(&self) -> (r: String)
        ensures
            r@ == listen_address_spec(self.config_view().port),
    {
        listen_address(self.config.port)
    }

    /// The node's announcement of itself.
    pub fn create_node_announcement(&self) -> (r: NodeAnnouncement)
        ensures
            r.node_id@ == self.peer_id_view(),
            r.capabilities@ == self.config_view().capabilities@,
            r.version == self.config_view().protocol_version,
            r.name == self.config_view().name,
    {
        self.config.announcement(self.local_peer_id.clone())
    }

    /// Sends a custom message to a peer given by its peer id; addresses and
    /// malformed ids are refused.
    pub fn send_custom_message(&self, peer: &str, message: String) -> (r: Result<(), String>)
        ensures
            is_address_target(peer@) ==> (r matches Err(m) && m@
                == "Sending by multiaddress not implemented yet"@),
            !is_address_target(peer@) && !valid_peer_id(peer@) ==> (r matches Err(m) && m@
                == "Invalid peer ID: "@ + peer@),
            r is Ok <==> !is_address_target(peer@) && valid_peer_id(peer@),
    {
        check_message_target(peer)
    }

    /// What is known of the connected peers, from their ids alone.
    pub fn connected_peers(peer_ids: Vec<String>) -> (r: Vec<PeerInfo>)
        ensures
            r@.len() == peer_ids@.len(),
            forall|i: int|
                0 <= i < r@.len() ==> (#[trigger] r@[i]).peer_id == peer_ids@[i] && r@[i].addresses is None
                    && r@[i].role is None && r@[i].ping_ms is None && r@[i].supported_protocols is None
                    && r@[i].last_seen is None,
    {
        let mut out: Vec<PeerInfo> = Vec::new();
        let mut i: usize = 0;
        while i < peer_ids.len()
            invariant
                i <= peer_ids@.len(),
                out@.len() == i,
                forall|j: int|
                    0 <= j < i ==> (#[trigger] out@[j]).peer_id == peer_ids@[j] && out@[j].addresses is None
                        && out@[j].role is None && out@[j].ping_ms is None
                        && out@[j].supported_protocols is None && out@[j].last_seen is None,
            decreases peer_ids.len() - i,
        {
            out.push(PeerInfo::connected(peer_ids[i].clone()));
            i = i + 1;
        }
        out
    }

    /// The node's retry bookkeeping.
    pub closed spec fn retries(&self) -> RetryManager {
        self.retry_manager
    }

    /// The node's retry bookkeeping.
    pub fn retry_manager(&self) -> (r: &RetryManager)
        ensures
            *r == self.retries(),
    {
        &self.retry_manager
    }

    /// Records a failed attempt of `operation` on `target` now, and returns
    /// the delay before the next attempt in milliseconds, or `None` when the
    /// operation is given up.
    pub fn record_retry_failure(&mut self, operation: &str, target: &str) -> (r: Option<u64>)
        requires
            old(self).wf(),
        ensures
            final(self).wf(),
            exists|now: u64, random: u64|
                (final(self).retries()@, r) == crate::retry::after_failure(
                    old(self).retries()@,
                    operation@,
                    target@,
                    now,
                    random,
                ),
            final(self).known_peers_view() == old(self).known_peers_view(),
            final(self).role_view() == old(self).role_view(),
            final(self).start_time_view() == old(self).start_time_view(),
            final(self).running_view() == old(self).running_view(),
            final(self).peer_id_view() == old(self).peer_id_view(),
            final(self).config_view() == old(self).config_view(),
    {
        let r = self.retry_manager.record_failure(operation, target);
        proof {
            let (n, x) = choose|now: u64, random: u64|
                (self.retry_manager@, r) == crate::retry::after_failure(
                    old(self).retry_manager@,
                    operation@,
                    target@,
                    now,
                    random,
                );
            assert((self.retries()@, r) == crate::retry::after_failure(
                old(self).retries()@,
                operation@,
                target@,
                n,
                x,
            ));
        }
        r
    }

    /// Forgets `operation` on `target` after a success.
    pub fn record_retry_success(&mut self, operation: &str, target: &str)
        requires
            old(self).wf(),
        ensures
            final(self).wf(),
            final(self).retries()@ == old(self).retries()@.remove(
                crate::retry::retry_key(operation@, target@),
            ),
            final(self).known_peers_view() == old(self).known_peers_view(),
            final(self).role_view() == old(self).role_view(),
            final(self).start_time_view() == old(self).start_time_view(),
            final(self).running_view() == old(self).running_view(),
            final(self).peer_id_view() == old(self).peer_id_view(),
            final(self).config_view() == old(self).config_view(),
    {
        self.retry_manager.record_success(operation, target)
    }

    pub closed spec fn known_peers_view(&self) -> Set<Seq<char>> {
        views_of(self.known_peers@).to_set()
    }

    pub closed spec fn start_time_view(&self) -> Option<u64> {
        self.start_time
    }

    pub closed spec fn role_view(&self) -> Option<Seq<char>> {
        match self.role {
            Some(r) => Some(r@),
            None => None,
        }
    }

    /// Consistency of the node state: its retry bookkeeping is consistent.
    pub closed spec fn wf(&self) -> bool {
        self.retry_manager.wf()
    }

    /// When the node started (seconds since the epoch).
    pub fn get_start_time(&self) -> (r: Option<u64>)
        ensures
            r == self.start_time_view(),
    {
        self.start_time
    }

    /// The node's role, if assigned.
    pub fn get_role(&self) -> (r: Option<&str>)
        ensures
            match r {
                Some(x) => self.role_view() == Some(x@),
                None => self.role_view() is None,
            },
    {
        match &self.role {
            Some(x) => Some(x.as_str()),
            None => None,
        }
    }

    /// Assigns the node's role.
    pub fn set_role(&mut self, role: String)
        ensures
            final(self).role_view() == Some(role@),
            final(self).known_peers_view() == old(self).known_peers_view(),
            final(self).start_time_view() == old(self).start_time_view(),
            final(self).retries() == old(self).retries(),
            final(self).running_view() == old(self).running_view(),
            final(self).peer_id_view() == old(self).peer_id_view(),
            final(self).config_view() == old(self).config_view(),
    {
        self.role = Some(role);
    }

    /// Whether the node has connected to `peer`.
    pub fn is_known(&self, peer: &str) -> (r: bool)
        ensures
            r == self.known_peers_view().contains(peer@),
    {
        let mut i: usize = 0;
        while i < self.known_peers.len()
            invariant
                i <= self.known_peers@.len(),
                forall|j: int| 0 <= j < i ==> self.known_peers@[j]@ != peer@,
            decreases self.known_peers.len() - i,
        {
            if str_eq(self.known_peers[i].as_str(), peer) {
                assert(views_of(self.known_peers@)[i as int] == peer@);
                return true;
            }
            i = i + 1;
        }
        assert(!views_of(self.known_peers@).contains(peer@)) by {
            if views_of(self.known_peers@).contains(peer@) {
                let j = choose|j: int|
                    0 <= j < views_of(self.known_peers@).len() && views_of(self.known_peers@)[j] == peer@;
                assert(self.known_peers@[j]@ == peer@);
            }
        }
        false
    }

    /// Records a connection to `peer`.
    pub fn peer_connected(&mut self, peer: String)
        ensures
            final(self).known_peers_view() == old(self).known_peers_view().insert(peer@),
            final(self).start_time_view() == old(self).start_time_view(),
            final(self).role_view() == old(self).role_view(),
            final(self).retries() == old(self).retries(),
            final(self).running_view() == old(self).running_view(),
            final(self).peer_id_view() == old(self).peer_id_view(),
            final(self).config_view() == old(self).config_view(),
    {
        if !self.is_known(peer.as_str()) {
            let ghost before = self.known_peers@;
            let ghost pv = peer@;
            self.known_peers.push(peer);
            proof {
                assert(views_of(self.known_peers@) =~= views_of(before).push(pv));
                views_of(before).lemma_push_to_set_commute(pv);
            }
        } else {
            assert(old(self).known_peers_view().insert(peer@) =~= old(self).known_peers_view());
        }
    }

    /// Handles a due retry of `operation` on `target`: the operation stops
    /// waiting out its backoff, and the action to take comes back.
    pub fn retry_due(&mut self, operation: &str, target: &str) -> (r: RetryAction)
        requires
            old(self).wf(),
        ensures
            final(self).wf(),
            retry_action_ok(operation@, target@, r),
            final(self).retries()@ == if old(self).retries()@.contains_key(
                crate::retry::retry_key(operation@, target@),
            ) {
                old(self).retries()@.insert(
                    crate::retry::retry_key(operation@, target@),
                    RetryEntry {
                        in_backoff: false,
                        ..old(self).retries()@[crate::retry::retry_key(operation@, target@)]
                    },
                )
            } else {
                old(self).retries()@
            },
            final(self).known_peers_view() == old(self).known_peers_view(),
            final(self).role_view() == old(self).role_view(),
            final(self).start_time_view() == old(self).start_time_view(),
            final(self).running_view() == old(self).running_view(),
            final(self).peer_id_view() == old(self).peer_id_view(),
            final(self).config_view() == old(self).config_view(),
    {
        self.retry_manager.clear_backoff(operation, target);
        plan_retry(operation, target)
    }
}

/// An event that the node's event loop hands to the decision state.
#[derive(Debug)]
pub enum NodeEvent {
    /// A connection to `peer` was established; `address` is the peer's side
    ConnectionEstablished { peer: String, address: String },
    /// The connection to `peer` was closed
    ConnectionClosed { peer: String },
    /// A closest-peers query of the DHT found these peers
    ClosestPeersFound(Vec<String>),
    /// A closest-peers query of the DHT failed
    ClosestPeersFailed,
    /// The DHT routing table was updated for `peer`
    RoutingUpdated { peer: String, is_new_peer: bool },
    /// Local discovery found these peers, each at an address
    Discovered(Vec<(String, String)>),
    /// A peer identified itself and told the addresses it listens on
    Identified { peer: String, listen_addrs: Vec<String> },
    /// Anything that is only logged: listen addresses, pings, dial and
    /// listener errors, bootstrap results, sent identifications
    Other,
}

/// Something the node's event loop does on behalf of the decision state.
#[derive(Debug)]
pub enum NodeAction {
    /// Add the address of a peer to the DHT routing table
    AddAddress { peer: String, address: String },
    /// Tell the application that a peer connected
    PeerConnected(String),
    /// Tell the application that a peer disconnected
    PeerDisconnected(String),
    /// Tell the application that a peer was discovered
    PeerDiscovered(String),
    /// Tell the application that a DHT query completed
    DhtQueryCompleted { peers: Vec<String>, success: bool },
    /// Dial an address
    Dial(String),
}

/// The mathematical content of a [`NodeAction`].
pub enum NodeActionView {
    AddAddress { peer: Seq<char>, address: Seq<char> },
    PeerConnected(Seq<char>),
    PeerDisconnected(Seq<char>),
    PeerDiscovered(Seq<char>),
    DhtQueryCompleted { peers: Seq<Seq<char>>, success: bool },
    Dial(Seq<char>),
}

impl View for NodeAction {
    type V = NodeActionView;

    open spec fn view(&self) -> NodeActionView {
        match self {
            NodeAction::AddAddress { peer, address } => NodeActionView::AddAddress {
                peer: peer@,
                address: address@,
            },
            NodeAction::PeerConnected(p) => NodeActionView::PeerConnected(p@),
            NodeAction::PeerDisconnected(p) => NodeActionView::PeerDisconnected(p@),
            NodeAction::PeerDiscovered(p) => NodeActionView::PeerDiscovered(p@),
            NodeAction::DhtQueryCompleted { peers, success } => NodeActionView::DhtQueryCompleted {
                peers: views_of(peers@),
                success: *success,
            },
            NodeAction::Dial(a) => NodeActionView::Dial(a@),
        }
    }
}

pub open spec fn actions_view(v: Seq<NodeAction>) -> Seq<NodeActionView> {
    v.map_values(|a: NodeAction| a@)
}

/// What a node does for one peer found by local discovery: route to it,
/// announce it, and dial it unless it is already known.
pub open spec fn discovery_actions(known: Set<Seq<char>>, peer: Seq<char>, address: Seq<char>) -> Seq<
    NodeActionView,
> {
    let base = seq![
        NodeActionView::AddAddress { peer, address },
        NodeActionView::PeerDiscovered(peer),
    ];
    if known.contains(peer) {
        base
    } else {
        base.push(NodeActionView::Dial(address))
    }
}

/// The actions for the peers found by local discovery, in the order found.
pub open spec fn discovered_actions(known: Set<Seq<char>>, found: Seq<(String, String)>) -> Seq<
    NodeActionView,
>
    decreases found.len(),
{
    if found.len() == 0 {
        Seq::empty()
    } else {
        discovered_actions(known, found.drop_last()) + discovery_actions(
            known,
            found.last().0@,
            found.last().1@,
        )
    }
}

/// The actions for a peer that identified itself: route to each address it
/// listens on.
pub open spec fn identified_actions(peer: Seq<char>, addrs: Seq<String>) -> Seq<NodeActionView> {
    Seq::new(addrs.len(), |i: int| NodeActionView::AddAddress { peer, address: addrs[i]@ })
}

/// The actions a node takes on an event, given the peers it knows.
pub open spec fn event_actions(known: Set<Seq<char>>, e: NodeEvent) -> Seq<NodeActionView> {
    match e {
        NodeEvent::ConnectionEstablished { peer, address } => seq![
            NodeActionView::AddAddress { peer: peer@, address: address@ },
            NodeActionView::PeerConnected(peer@),
        ],
        NodeEvent::ConnectionClosed { peer } => seq![NodeActionView::PeerDisconnected(peer@)],
        NodeEvent::ClosestPeersFound(peers) => seq![
            NodeActionView::DhtQueryCompleted { peers: views_of(peers@), success: true },
        ],
        NodeEvent::ClosestPeersFailed => seq![
            NodeActionView::DhtQueryCompleted { peers: Seq::empty(), success: false },
        ],
        NodeEvent::RoutingUpdated { peer, is_new_peer } => if is_new_peer {
            seq![NodeActionView::PeerDiscovered(peer@)]
        } else {
            Seq::empty()
        },
        NodeEvent::Discovered(found) => discovered_actions(known, found@),
        NodeEvent::Identified { peer, listen_addrs } => identified_actions(peer@, listen_addrs@),
        NodeEvent::Other => Seq::empty(),
    }
}

/// The peers a node knows after an event: an established connection makes
/// its peer known; nothing else changes them.
pub open spec fn known_after(known: Set<Seq<char>>, e: NodeEvent) -> Set<Seq<char>> {
    match e {
        NodeEvent::ConnectionEstablished { peer, .. } => known.insert(peer@),
        _ => known,
    }
}

impl NetworkNode {
    /// Handles an event of the swarm or of one of its protocols: the peers
    /// the node knows are updated, and the actions to perform come back in
    /// order.
    pub fn handle_event(&mut self, event: NodeEvent) -> (r: Vec<NodeAction>)
        requires
            old(self).wf(),
        ensures
            final(self).wf(),
            actions_view(r@) == event_actions(old(self).known_peers_view(), event),
            final(self).known_peers_view() == known_after(old(self).known_peers_view(), event),
            final(self).retries() == old(self).retries(),
            final(self).role_view() == old(self).role_view(),
            final(self).start_time_view() == old(self).start_time_view(),
            final(self).running_view() == old(self).running_view(),
            final(self).peer_id_view() == old(self).peer_id_view(),
            final(self).config_view() == old(self).config_view(),
    {
        let ghost known = self.known_peers_view();
        let ghost ev = event;
        let mut out: Vec<NodeAction> = Vec::new();
        match event {
            NodeEvent::ConnectionEstablished { peer, address } => {
                let p = peer.clone();
                self.peer_connected(peer);
                out.push(NodeAction::AddAddress { peer: p.clone(), address });
                out.push(NodeAction::PeerConnected(p));
            },
            NodeEvent::ConnectionClosed { peer } => {
                out.push(NodeAction::PeerDisconnected(peer));
            },
            NodeEvent::ClosestPeersFound(peers) => {
                out.push(NodeAction::DhtQueryCompleted { peers, success: true });
            },
            NodeEvent::ClosestPeersFailed => {
                out.push(NodeAction::DhtQueryCompleted { peers: Vec::new(), success: false });
                assert(views_of(Seq::<String>::empty()) =~= Seq::<Seq<char>>::empty());
            },
            NodeEvent::RoutingUpdated { peer, is_new_peer } => {
                if is_new_peer {
                    out.push(NodeAction::PeerDiscovered(peer));
                }
            },
            NodeEvent::Discovered(found) => {
                let mut i: usize = 0;
                while i < found.len()
                    invariant
                        i <= found@.len(),
                        self.known_peers_view() == known,
                        actions_view(out@) == discovered_actions(known, found@.subrange(0, i as int)),
                    decreases found.len() - i,
                {
                    let peer = found[i].0.clone();
                    let address = found[i].1.clone();
                    let known_peer = self.is_known(peer.as_str());
                    let ghost before = out@;
                    out.push(NodeAction::AddAddress { peer: peer.clone(), address: address.clone() });
                    out.push(NodeAction::PeerDiscovered(peer));
                    if !known_peer {
                        out.push(NodeAction::Dial(address));
                    }
                    proof {
                        let s = found@.subrange(0, i as int + 1);
                        assert(s.drop_last() =~= found@.subrange(0, i as int));
                        assert(s.last() == found@[i as int]);
                        assert(actions_view(out@) =~= actions_view(before) + discovery_actions(
                            known,
                            found@[i as int].0@,
                            found@[i as int].1@,
                        ));
                    }
                    i = i + 1;
                }
                assert(found@.subrange(0, found@.len() as int) =~= found@);
            },
            NodeEvent::Identified { peer, listen_addrs } => {
                let mut i: usize = 0;
                while i < listen_addrs.len()
                    invariant
                        i <= listen_addrs@.len(),
                        actions_view(out@) =~= identified_actions(
                            peer@,
                            listen_addrs@.subrange(0, i as int),
                        ),
                    decreases listen_addrs.len() - i,
                {
                    let ghost before = out@;
                    let address = listen_addrs[i].clone();
                    out.push(NodeAction::AddAddress { peer: peer.clone(), address });
                    proof {
                        let item = NodeActionView::AddAddress {
                            peer: peer@,
                            address: listen_addrs@[i as int]@,
                        };
                        assert(actions_view(out@) =~= actions_view(before).push(item));
                        assert(identified_actions(peer@, listen_addrs@.subrange(0, i as int + 1))
                            =~= identified_actions(peer@, listen_addrs@.subrange(0, i as int)).push(item));
                    }
                    i = i + 1;
                }
                assert(listen_addrs@.subrange(0, listen_addrs@.len() as int) =~= listen_addrs@);
            },
            NodeEvent::Other => {},
        }
        proof {
            assert(actions_view(out@) =~= event_actions(known, ev));
        }
        out
    }
}

/// Once a node knows a peer it never forgets it: every event leaves the
/// known peers a superset of what they were.
pub proof fn law_known_peers_only_grow(known: Set<Seq<char>>, e: NodeEvent)
    ensures
        known.subset_of(known_after(known, e)),
{
}

/// Local discovery dials an address exactly when it was found for a peer
/// that the node does not know.
pub proof fn law_discovery_dials_only_unknown_peers(
    known: Set<Seq<char>>,
    found: Seq<(String, String)>,
    address: Seq<char>,
)
    ensures
        discovered_actions(known, found).contains(NodeActionView::Dial(address)) <==> exists|j: int|
            0 <= j < found.len() && (#[trigger] found[j]).1@ == address && !known.contains(found[j].0@),
    decreases found.len(),
{
    if found.len() > 0 {
        let init = found.drop_last();
        law_discovery_dials_only_unknown_peers(known, init, address);
        let last = found.last();
        let tail = discovery_actions(known, last.0@, last.1@);
        let whole = discovered_actions(known, found);
        assert(whole == discovered_actions(known, init) + tail);
        let dial = NodeActionView::Dial(address);
        if whole.contains(dial) {
            let k = choose|k: int| 0 <= k < whole.len() && whole[k] == dial;
            if k < discovered_actions(known, init).len() {
                assert(discovered_actions(known, init)[k] == dial);
                let j = choose|j: int|
                    0 <= j < init.len() && (#[trigger] init[j]).1@ == address && !known.contains(init[j].0@);
                assert(found[j] == init[j]);
            } else {
                let m = k - discovered_actions(known, init).len();
                assert(tail[m] == dial);
                assert(!known.contains(last.0@) && last.1@ == address);
                assert(found[found.len() - 1] == last);
            }
        }
        if exists|j: int|
            0 <= j < found.len() && (#[trigger] found[j]).1@ == address && !known.contains(found[j].0@)
        {
            let j = choose|j: int|
                0 <= j < found.len() && (#[trigger] found[j]).1@ == address && !known.contains(found[j].0@);
            if j < init.len() {
                assert(init[j] == found[j]);
                let k = choose|k: int|
                    0 <= k < discovered_actions(known, init).len() && discovered_actions(known, init)[k] == dial;
                assert(whole[k] == dial);
            } else {
                assert(tail[2] == dial);
                assert(whole[discovered_actions(known, init).len() as int + 2] == dial);
            }
        }
    }
}

/// A peer that has connected is not dialed again when local discovery
/// finds it afterwards.
pub proof fn law_connected_peer_not_redialed(
    known: Set<Seq<char>>,
    peer: String,
    address: String,
    found_at: Seq<char>,
)
    ensures
        !discovery_actions(
            known_after(known, NodeEvent::ConnectionEstablished { peer, address }),
            peer@,
            found_at,
        ).contains(NodeActionView::Dial(found_at)),
{
    let k = known_after(known, NodeEvent::ConnectionEstablished { peer, address });
    assert(k.contains(peer@));
    let a = discovery_actions(k, peer@, found_at);
    assert(a.len() == 2);
    assert(a[0] != NodeActionView::Dial(found_at));
    assert(a[1] != NodeActionView::Dial(found_at));
}

/// Whether `c` is a lower-case hexadecimal digit.
pub open spec fn is_lower_hex(c: char) -> bool {
    ('0' <= c && c <= '9') || ('a' <= c && c <= 'f')
}

/// The text of a random (version 4) UUID in hyphenated lower-case form:
/// 36 characters, hyphens after the 8th, 12th, 16th and 20th hexadecimal
/// digit, the version digit `4`, and a variant digit among `8`, `9`, `a`,
/// `b`.
pub open spec fn is_uuid_v4_text(s: Seq<char>) -> bool {
    &&& s.len() == 36
    &&& forall|i: int|
        0 <= i < 36 ==> if i == 8 || i == 13 || i == 18 || i == 23 {
            s[i] == '-'
        } else {
            is_lower_hex(#[trigger] s[i])
        }
    &&& s[14] == '4'
    &&& (s[19] == '8' || s[19] == '9' || s[19] == 'a' || s[19] == 'b')
}

/// The lower-case hexadecimal digit for `n` (below 16).
pub open spec fn hex_digit(n: int) -> char {
    if n < 10 {
        (48 + n) as char
    } else {
        (87 + n) as char
    }
}

/// Byte `i` of a version-4 UUID made from random bytes: the high half of
/// byte 6 becomes the version 4, and the two high bits of byte 8 become the
/// variant `10`.
pub open spec fn uuid_byte(b: Seq<u8>, i: int) -> int {
    if i == 6 {
        b[6] % 16 + 64
    } else if i == 8 {
        b[8] % 64 + 128
    } else {
        b[i] as int
    }
}

/// Character `j` of the hyphenated form of the UUID made from random bytes
/// `b`: two hexadecimal digits per byte, high half first, with hyphens after
/// the 4th, 6th, 8th and 10th byte.
pub open spec fn uuid_char(b: Seq<u8>, j: int) -> char {
    if j == 8 || j == 13 || j == 18 || j == 23 {
        '-'
    } else {
        let h = if j < 8 {
            j
        } else if j < 13 {
            j - 1
        } else if j < 18 {
            j - 2
        } else if j < 23 {
            j - 3
        } else {
            j - 4
        };
        let byte = uuid_byte(b, h / 2);
        hex_digit(if h % 2 == 0 { byte / 16 } else { byte % 16 })
    }
}

/// The hyphenated lower-case text of the version-4 UUID made from 16 random
/// bytes.
pub open spec fn uuid_text_of(b: Seq<u8>) -> Seq<char> {
    Seq::new(36, |j: int| uuid_char(b, j))
}

/// Calls `uuid::Builder::from_random_bytes`, which sets the version and
/// variant bits of the bytes, then `into_uuid` and `to_string`, which writes
/// the UUID in hyphenated lower-case form.
#[verifier::external_body]
pub(crate) fn uuid_text(bytes: [u8; 16]) -> (r: String)
    ensures
        r@ == uuid_text_of(bytes@),
{
    uuid::Builder::from_random_bytes(bytes).into_uuid().to_string()
}

/// The text of a UUID made from random bytes is a version-4 UUID text.
pub proof fn lemma_uuid_text_is_v4(b: Seq<u8>)
    requires
        b.len() == 16,
    ensures
        is_uuid_v4_text(uuid_text_of(b)),
{
    let s = uuid_text_of(b);
    assert forall|i: int| 0 <= i < 36 implies if i == 8 || i == 13 || i == 18 || i == 23 {
        s[i] == '-'
    } else {
        is_lower_hex(#[trigger] s[i])
    } by {
        if !(i == 8 || i == 13 || i == 18 || i == 23) {
            let h = if i < 8 {
                i
            } else if i < 13 {
                i - 1
            } else if i < 18 {
                i - 2
            } else if i < 23 {
                i - 3
            } else {
                i - 4
            };
            assert(0 <= h / 2 < 16);
            let byte = uuid_byte(b, h / 2);
            assert(0 <= byte < 256);
        }
    }
    assert(uuid_byte(b, 6) / 16 == 4);
    assert(8 <= uuid_byte(b, 8) / 16 < 12);
}

/// A fresh message identifier: a random (version 4) UUID in hyphenated
/// lower-case form, from the operating system's random source; `None` when
/// that source failed.
pub(crate) fn new_message_id() -> (r: Option<String>)
    ensures
        r matches Some(t) ==> is_uuid_v4_text(t@),
{
    match crate::system::os_random_bytes() {
        Some(bytes) => {
            let t = uuid_text(bytes);
            proof {
                lemma_uuid_text_is_v4(bytes@);
            }
            Some(t)
        },
        None => None,
    }
}

/// Key under which the machine's federation log keeps a message written at
/// `timestamp` (seconds).
pub fn federation_log_key(timestamp: i64) -> (r: String)
    ensures
        r@ == "fed_log:"@ + decimal_signed(timestamp as int),
{
    join2("fed_log:", format_i64(timestamp).as_str())
}

/// Key under which the federation extension logs a message written at
/// `timestamp` (seconds), made unique by a fresh random identifier; `None`
/// when the system's random source failed.
pub fn extension_log_key(timestamp: u64) -> (r: Option<String>)
    ensures
        r matches Some(k) ==> exists|id: Seq<char>|
            is_uuid_v4_text(id) && k@ == "federation/logs/"@ + crate::text::decimal(timestamp as nat)
                + "-"@ + id,
{
    match new_message_id() {
        Some(id) => Some(
            join2("federation/logs/", crate::text::format_u64(timestamp).as_str()).concat("-").concat(
                id.as_str(),
            ),
        ),
        None => None,
    }
}

} // verus!
