//! What the command line shows: the output of governance and DAG commands,
//! the interactive shell's commands, and program parameters.

use vstd::prelude::*;
use crate::text::{
    decimal, format_u64, has_prefix, join, join2, join_spec, keep_non_empty, lowercase, non_empty,
    split_char, split_spec, str_eq, strip_prefix, to_lowercase, trim, trim_spec, views_of,
};

verus! {

broadcast use vstd::string::group_string_axioms;

/// Output of a command line operation.
#[derive(Debug, PartialEq, Eq)]
pub enum Output {
    /// Info message
    Info(String),
    /// Warning message
    Warning(String),
    /// Error message
    Error(String),
}

impl Output {
    /// An info output.
    pub fn info(message: String) -> (r: Output)
        ensures
            r == Output::Info(message),
    {
        Output::Info(message)
    }

    /// A warning output.
    pub fn warning(message: String) -> (r: Output)
        ensures
            r == Output::Warning(message),
    {
        Output::Warning(message)
    }

    /// An error output.
    pub fn error(message: String) -> (r: Output)
        ensures
            r == Output::Error(message),
    {
        Output::Error(message)
    }
}

/// Whether `o` is an info output with text `t`.
pub open spec fn is_info(o: Output, t: Seq<char>) -> bool {
    o matches Output::Info(m) && m@ == t
}

/// Whether `o` is an error output with text `t`.
pub open spec fn is_error(o: Output, t: Seq<char>) -> bool {
    o matches Output::Error(m) && m@ == t
}

// ---------------------------------------------------------------------------
// Governance commands
// ---------------------------------------------------------------------------

/// Subcommands for proposal operations (paths as text).
#[derive(Debug)]
pub enum ProposalSubcommand {
    /// Create a new proposal
    Create {
        title: String,
        description: String,
        program: String,
        template: Option<String>,
        identity: String,
        quorum: String,
        threshold: u8,
        weighting: String,
        expires_in: Option<u64>,
        auto_execute: bool,
    },
    /// Submit a proposal from a DSL file
    Submit { file: String, identity: String, title: Option<String>, description: Option<String> },
    /// List all proposals
    List { status: String, verbose: bool, sort: String, limit: Option<usize> },
    /// View a proposal
    View { id: String, verbose: bool, votes: bool },
    /// Execute an approved proposal
    Execute { id: String, identity: String, force: bool },
}

/// How much of a proposal a view shows.
pub open spec fn detail_level(verbose: bool, votes: bool) -> Seq<char> {
    if verbose && votes {
        "detailed with vote distribution"@
    } else if verbose {
        "detailed"@
    } else if votes {
        "vote distribution only"@
    } else {
        "basic"@
    }
}

/// The text a proposal subcommand reports.
pub open spec fn proposal_command_text(cmd: ProposalSubcommand) -> Seq<char> {
    match cmd {
        ProposalSubcommand::Create { title, quorum, threshold, weighting, .. } => "Creating proposal '"@
            + title@ + "' with quorum '"@ + quorum@ + "', threshold '"@ + decimal(threshold as nat)
            + "%', weighting '"@ + weighting@ + "'"@,
        ProposalSubcommand::Submit { file, .. } => "Submitting proposal from file: "@ + file@,
        ProposalSubcommand::List { status, verbose, sort, limit } => "Listing "@ + match limit {
            Some(l) => decimal(l as nat),
            None => "all"@,
        } + " proposals with status '"@ + status@ + "', sorted by '"@ + sort@ + "'"@ + if verbose {
            " (verbose)"@
        } else {
            ""@
        },
        ProposalSubcommand::View { id, verbose, votes } => "Viewing proposal ID: "@ + id@ + " ("@
            + detail_level(verbose, votes) + ")"@,
        ProposalSubcommand::Execute { id, force, .. } => "Executing proposal ID: "@ + id@ + if force {
            " (forced)"@
        } else {
            ""@
        },
    }
}

/// Runs a proposal subcommand and reports what it does.
pub fn execute_proposal(cmd: ProposalSubcommand, data_dir: String) -> (r: Output)
    ensures
        is_info(r, proposal_command_text(cmd)),
{
    let ghost c = cmd;
    let text = match cmd {
        ProposalSubcommand::Create { title, quorum, threshold, weighting, .. } => {
            join2("Creating proposal '", title.as_str()).concat("' with quorum '").concat(
                quorum.as_str(),
            ).concat("', threshold '").concat(format_u64(threshold as u64).as_str()).concat(
                "%', weighting '",
            ).concat(weighting.as_str()).concat("'")
        },
        ProposalSubcommand::Submit { file, .. } => join2("Submitting proposal from file: ", file.as_str()),
        ProposalSubcommand::List { status, verbose, sort, limit } => {
            let limit_str = match limit {
                Some(l) => format_u64(l as u64),
                None => "all".to_owned(),
            };
            let suffix = if verbose { " (verbose)" } else { "" };
            join2("Listing ", limit_str.as_str()).concat(" proposals with status '").concat(
                status.as_str(),
            ).concat("', sorted by '").concat(sort.as_str()).concat("'").concat(suffix)
        },
        ProposalSubcommand::View { id, verbose, votes } => {
            let detail = if verbose && votes {
                "detailed with vote distribution"
            } else if verbose {
                "detailed"
            } else if votes {
                "vote distribution only"
            } else {
                "basic"
            };
            join2("Viewing proposal ID: ", id.as_str()).concat(" (").concat(detail).concat(")")
        },
        ProposalSubcommand::Execute { id, force, .. } => {
            let suffix = if force { " (forced)" } else { "" };
            join2("Executing proposal ID: ", id.as_str()).concat(suffix)
        },
    };
    Output::info(text)
}

/// The label a vote choice is cast as, from its lowercased spelling.
pub open spec fn vote_label(l: Seq<char>) -> Option<Seq<char>> {
    if l == "yes"@ || l == "y"@ {
        Some("YES"@)
    } else if l == "no"@ || l == "n"@ {
        Some("NO"@)
    } else if l == "abstain"@ || l == "a"@ {
        Some("ABSTAIN"@)
    } else {
        None
    }
}

/// Every vote choice is cast from its full name and from its initial letter
/// alike; different choices are cast under different labels; and nothing
/// but a full name or the initial of one names a vote.
pub proof fn law_vote_spellings(l: Seq<char>, other: Seq<char>)
    ensures
        crate::lifecycle::choice_named(l) is Some ==> vote_label(l) is Some && vote_label(l.take(1))
            == vote_label(l),
        vote_label(l) is Some ==> crate::lifecycle::choice_named(l) is Some || exists|full: Seq<char>|
            crate::lifecycle::choice_named(full) is Some && full.take(1) == l,
        crate::lifecycle::choice_named(l) is Some && crate::lifecycle::choice_named(other) is Some
            && crate::lifecycle::choice_named(l) != crate::lifecycle::choice_named(other) ==> vote_label(l)
            != vote_label(other),
{
    reveal_strlit("yes");
    reveal_strlit("no");
    reveal_strlit("abstain");
    reveal_strlit("y");
    reveal_strlit("n");
    reveal_strlit("a");
    reveal_strlit("YES");
    reveal_strlit("NO");
    reveal_strlit("ABSTAIN");
    assert("yes"@.take(1) =~= "y"@);
    assert("no"@.take(1) =~= "n"@);
    assert("abstain"@.take(1) =~= "a"@);
    assert("YES"@ != "NO"@ && "YES"@ != "ABSTAIN"@ && "NO"@ != "ABSTAIN"@) by {
        assert("YES"@.len() != "NO"@.len());
        assert("YES"@.len() != "ABSTAIN"@.len());
        assert("NO"@.len() != "ABSTAIN"@.len());
    }
    assert("y"@ != "yes"@ && "y"@ != "no"@ && "n"@ != "yes"@ && "n"@ != "no"@ && "a"@ != "yes"@
        && "a"@ != "no"@ && "y"@ != "abstain"@ && "n"@ != "abstain"@ && "a"@ != "abstain"@) by {
        assert("y"@.len() == 1 && "n"@.len() == 1 && "a"@.len() == 1);
        assert("yes"@.len() == 3 && "no"@.len() == 2 && "abstain"@.len() == 7);
    }
    assert("y"@ != "n"@ && "y"@ != "a"@ && "n"@ != "a"@) by {
        assert("y"@[0] != "n"@[0] && "y"@[0] != "a"@[0] && "n"@[0] != "a"@[0]);
    }
    assert("yes"@ != "no"@ && "yes"@ != "abstain"@ && "no"@ != "abstain"@) by {
        assert("yes"@.len() == 3 && "no"@.len() == 2 && "abstain"@.len() == 7);
    }
    if vote_label(l) is Some && crate::lifecycle::choice_named(l) is None {
        if l == "y"@ {
            assert(crate::lifecycle::choice_named("yes"@) is Some);
        } else if l == "n"@ {
            assert(crate::lifecycle::choice_named("no"@) is Some);
        } else {
            assert(crate::lifecycle::choice_named("abstain"@) is Some);
        }
    }
}

/// What casting a vote reports: the vote, the weight text and comment when
/// given, and the proposal; or an error for a choice that names no vote.
pub open spec fn vote_text(id: Seq<char>, choice: Seq<char>, weight: Option<Seq<char>>, comment: Option<
    Seq<char>,
>, o: Output) -> bool {
    vote_text_lowercase(id, lowercase(choice), weight, comment, o)
}

/// What casting a vote reports, from the lowercased spelling `l` of the
/// choice.
pub open spec fn vote_text_lowercase(id: Seq<char>, l: Seq<char>, weight: Option<Seq<char>>, comment: Option<
    Seq<char>,
>, o: Output) -> bool {
    match vote_label(l) {
        Some(label) => is_info(
            o,
            "Casting vote '"@ + label + "'"@ + match weight {
                Some(w) => " with weight "@ + w,
                None => Seq::empty(),
            } + match comment {
                Some(c) => " and comment: \""@ + c + "\""@,
                None => Seq::empty(),
            } + " on proposal ID: "@ + id,
        ),
        None => is_error(o, "Invalid vote choice: '"@ + l + "'. Must be yes, no, or abstain"@),
    }
}

/// Casts a vote on a proposal; `weight` is the vote weight as already
/// written out.
pub fn vote_output(id: String, choice: &str, weight: Option<String>, comment: Option<String>) -> (r:
    Output)
    ensures
        vote_text(
            id@,
            choice@,
            match weight {
                Some(w) => Some(w@),
                None => None,
            },
            match comment {
                Some(c) => Some(c@),
                None => None,
            },
            r,
        ),
{
    let l = to_lowercase(choice);
    vote_output_lowercase(id, l.as_str(), weight, comment)
}

/// Casts a vote on a proposal whose choice is spelled in lower case as `s`.
pub fn vote_output_lowercase(id: String, s: &str, weight: Option<String>, comment: Option<String>) -> (r:
    Output)
    ensures
        vote_text_lowercase(
            id@,
            s@,
            match weight {
                Some(w) => Some(w@),
                None => None,
            },
            match comment {
                Some(c) => Some(c@),
                None => None,
            },
            r,
        ),
{
    let label = if str_eq(s, "yes") || str_eq(s, "y") {
        "YES"
    } else if str_eq(s, "no") || str_eq(s, "n") {
        "NO"
    } else if str_eq(s, "abstain") || str_eq(s, "a") {
        "ABSTAIN"
    } else {
        return Output::error(join2("Invalid vote choice: '", s).concat("'. Must be yes, no, or abstain"));
    };
    let weight_str = match weight {
        Some(w) => join2(" with weight ", w.as_str()),
        None => String::new(),
    };
    let comment_str = match comment {
        Some(c) => join2(" and comment: \"", c.as_str()).concat("\""),
        None => String::new(),
    };
    Output::info(
        join2("Casting vote '", label).concat("'").concat(weight_str.as_str()).concat(
            comment_str.as_str(),
        ).concat(" on proposal ID: ").concat(id.as_str()),
    )
}

// ---------------------------------------------------------------------------
// DAG commands
// ---------------------------------------------------------------------------

/// Subcommands for DAG operations (paths as text).
#[derive(Debug)]
pub enum DagSubcommand {
    /// Synchronize state with a specific peer
    Sync { peer: String, namespace: Option<String>, limit: usize, verbose: bool },
    /// Show the status of the local DAG
    Status { verbose: bool, namespace: Option<String> },
    /// Export the DAG state to a file
    Export { output: String, namespace: Option<String>, format: String },
    /// Import DAG state from a file
    Import { input: String, namespace: Option<String>, force: bool },
    /// Start gossip sync protocol
    Gossip { enable: bool, interval: u64, max_peers: usize, namespaces: Option<String> },
}

/// Command for DAG state synchronization.
#[derive(Debug)]
pub struct DagCommand {
    pub command: DagSubcommand,
}

pub open spec fn opt_view(o: Option<&str>) -> Option<Seq<char>> {
    match o {
        Some(s) => Some(s@),
        None => None,
    }
}

/// How long ago the DAG was updated, in the largest whole unit below an
/// hour's worth of the next one.
pub open spec fn updated_text(seconds_ago: u64) -> Seq<char> {
    if seconds_ago < 60 {
        "Last updated: "@ + decimal(seconds_ago as nat) + " seconds ago\n"@
    } else if seconds_ago < 3600 {
        "Last updated: "@ + decimal((seconds_ago / 60) as nat) + " minutes ago\n"@
    } else {
        "Last updated: "@ + decimal((seconds_ago / 3600) as nat) + " hours ago\n"@
    }
}

pub open spec fn status_details() -> Seq<char> {
    "\nDetailed Statistics:\n--------------------\nVertex Types:\n- Proposal: 142\n- Vote: 987\n- Identity: 35\n- Storage: 271\n\nSpace Usage:\n- Total: 2.75 MB\n- Governance: 1.2 MB\n- Identity: 0.5 MB\n- Storage: 1.05 MB\n\nSync History:\n- Last full sync: 2 hours ago\n- Peers synced with: 5\n- Gossip messages last hour: 23\n"@
}

/// The DAG status report.
pub open spec fn status_text(verbose: bool, namespace: Option<Seq<char>>, seconds_ago: u64) -> Seq<char> {
    "DAG Status"@ + match namespace {
        Some(ns) => " (namespace: "@ + ns + ")"@,
        None => Seq::empty(),
    } + "\n--------------------\nTotal vertices: 1435\nTotal edges: 2301\n"@ + match namespace {
        Some(ns) => "Namespace '"@ + ns + "' vertices: 245\nNamespace '"@ + ns + "' size: 112.50 KB\n"@,
        None => "Namespaces:\n- governance\n- identity\n- storage\n"@,
    } + updated_text(seconds_ago) + if verbose {
        status_details()
    } else {
        Seq::empty()
    }
}

fn updated_line(seconds_ago: u64) -> (r: String)
    ensures
        r@ == updated_text(seconds_ago),
{
    if seconds_ago < 60 {
        join2("Last updated: ", format_u64(seconds_ago).as_str()).concat(" seconds ago\n")
    } else if seconds_ago < 3600 {
        join2("Last updated: ", format_u64(seconds_ago / 60).as_str()).concat(" minutes ago\n")
    } else {
        join2("Last updated: ", format_u64(seconds_ago / 3600).as_str()).concat(" hours ago\n")
    }
}

/// Reports the status of the local DAG, last updated `seconds_ago`.
pub fn show_dag_status(verbose: bool, namespace: Option<&str>, seconds_ago: u64) -> (r: Output)
    ensures
        is_info(r, status_text(verbose, opt_view(namespace), seconds_ago)),
{
    let mut out = "DAG Status".to_owned();
    match namespace {
        Some(ns) => {
            out = out.concat(" (namespace: ").concat(ns).concat(")");
        },
        None => {},
    }
    out = out.concat("\n--------------------\nTotal vertices: 1435\nTotal edges: 2301\n");
    match namespace {
        Some(ns) => {
            out = out.concat("Namespace '").concat(ns).concat("' vertices: 245\nNamespace '").concat(
                ns,
            ).concat("' size: 112.50 KB\n");
        },
        None => {
            out = out.concat("Namespaces:\n- governance\n- identity\n- storage\n");
        },
    }
    let updated = updated_line(seconds_ago);
    out = out.concat(updated.as_str());
    if verbose {
        out = out.concat(
            "\nDetailed Statistics:\n--------------------\nVertex Types:\n- Proposal: 142\n- Vote: 987\n- Identity: 35\n- Storage: 271\n\nSpace Usage:\n- Total: 2.75 MB\n- Governance: 1.2 MB\n- Identity: 0.5 MB\n- Storage: 1.05 MB\n\nSync History:\n- Last full sync: 2 hours ago\n- Peers synced with: 5\n- Gossip messages last hour: 23\n",
        );
    }
    assert(out@ =~= status_text(verbose, opt_view(namespace), seconds_ago));
    Output::info(out)
}

/// Reports an export of the DAG state, refusing unknown formats.
pub fn export_dag(output_path: &str, namespace: Option<&str>, format: &str) -> (r: Output)
    ensures
        !(format@ == "json"@ || format@ == "msgpack"@) ==> is_error(r, "Unsupported export format: "@ + format@),
        (format@ == "json"@ || format@ == "msgpack"@) ==> is_info(
            r,
            "DAG state exported to "@ + output_path@ + ":\n- Format: "@ + format@
                + "\n- Vertices exported: 1435\n- File size: 248.60 KB\n- Namespace: "@ + match namespace {
                Some(ns) => ns@,
                None => "all"@,
            },
        ),
{
    if !(str_eq(format, "json") || str_eq(format, "msgpack")) {
        return Output::error(join2("Unsupported export format: ", format));
    }
    let ns = match namespace {
        Some(n) => n,
        None => "all",
    };
    Output::info(
        join2("DAG state exported to ", output_path).concat(":\n- Format: ").concat(format).concat(
            "\n- Vertices exported: 1435\n- File size: 248.60 KB\n- Namespace: ",
        ).concat(ns),
    )
}

/// Reports an import of DAG state; its conflicts are resolved in force mode
/// and only detected otherwise.
pub fn import_dag(input_path: &str, namespace: Option<&str>, force: bool) -> (r: Output)
    ensures
        is_info(
            r,
            "DAG state imported from "@ + input_path@
                + ":\n- Vertices imported: 1250\n- Vertices skipped: 185\n"@ + if force {
                "- Conflicts resolved (force mode): 3\n"@
            } else {
                "- Conflicts detected: 3\n"@
            } + "- Target namespace: "@ + match namespace {
                Some(ns) => ns@,
                None => "from file"@,
            } + "\n"@,
        ),
{
    let conflicts = if force {
        "- Conflicts resolved (force mode): 3\n"
    } else {
        "- Conflicts detected: 3\n"
    };
    let ns = match namespace {
        Some(n) => n,
        None => "from file",
    };
    Output::info(
        join2("DAG state imported from ", input_path).concat(
            ":\n- Vertices imported: 1250\n- Vertices skipped: 185\n",
        ).concat(conflicts).concat("- Target namespace: ").concat(ns).concat("\n"),
    )
}

/// The namespaces named in a comma-separated list, trimmed, empty ones
/// dropped.
pub open spec fn namespace_list(namespaces: Option<Seq<char>>) -> Seq<Seq<char>> {
    match namespaces {
        Some(s) => non_empty(split_spec(s, ',').map_values(|p: Seq<char>| trim_spec(p))),
        None => Seq::empty(),
    }
}

/// What configuring gossip sync reports.
pub open spec fn gossip_text(enable: bool, interval: u64, max_peers: usize, namespaces: Option<
    Seq<char>,
>) -> Seq<char> {
    let list = namespace_list(namespaces);
    "DAG gossip sync "@ + if enable {
        "enabled"@
    } else {
        "disabled"@
    } + ":\n- Sync interval: "@ + decimal(interval as nat) + " seconds\n- Max peers: "@ + decimal(
        max_peers as nat,
    ) + "\n- Namespaces: "@ + if list.len() == 0 {
        "all"@
    } else {
        join_spec(list, ", "@)
    }
}

/// Configures gossip sync; refused when the node has no federation.
pub fn configure_gossip(
    federation_enabled: bool,
    enable: bool,
    interval: u64,
    max_peers: usize,
    namespaces: Option<&str>,
) -> (r: Result<Output, String>)
    ensures
        !federation_enabled ==> (r matches Err(m) && m@ == "Federation mode is not enabled"@),
        federation_enabled ==> (r matches Ok(o) && is_info(
            o,
            gossip_text(enable, interval, max_peers, opt_view(namespaces)),
        )),
{
    if !federation_enabled {
        return Err("Federation mode is not enabled".to_owned());
    }
    let list: Vec<String> = match namespaces {
        Some(s) => {
            let parts = split_char(s, ',');
            let mut trimmed: Vec<String> = Vec::new();
            let mut i: usize = 0;
            while i < parts.len()
                invariant
                    i <= parts@.len(),
                    views_of(trimmed@) == views_of(parts@).take(i as int).map_values(
                        |p: Seq<char>| trim_spec(p),
                    ),
                decreases parts.len() - i,
            {
                let t = trim(parts[i].as_str());
                let ghost before = trimmed@;
                trimmed.push(t);
                proof {
                    assert(views_of(trimmed@) =~= views_of(before).push(t@));
                    assert(views_of(parts@).take(i + 1).map_values(|p: Seq<char>| trim_spec(p))
                        =~= views_of(parts@).take(i as int).map_values(|p: Seq<char>| trim_spec(p)).push(
                        trim_spec(parts@[i as int]@),
                    ));
                }
                i = i + 1;
            }
            proof {
                assert(views_of(parts@).take(parts@.len() as int) =~= views_of(parts@));
            }
            keep_non_empty(trimmed)
        },
        None => {
            let v: Vec<String> = Vec::new();
            assert(views_of(v@) =~= Seq::<Seq<char>>::empty());
            v
        },
    };
    proof {
        assert(views_of(list@).len() == list@.len());
    }
    let state = if enable { "enabled" } else { "disabled" };
    let ns_str = if list.len() == 0 {
        "all".to_owned()
    } else {
        join(&list, ", ")
    };
    Ok(
        Output::info(
            join2("DAG gossip sync ", state).concat(":\n- Sync interval: ").concat(
                format_u64(interval).as_str(),
            ).concat(" seconds\n- Max peers: ").concat(format_u64(max_peers as u64).as_str()).concat(
                "\n- Namespaces: ",
            ).concat(ns_str.as_str()),
        ),
    )
}

/// Why a DAG sync cannot start.
#[derive(Debug, Clone, Copy, PartialEq, Eq, Structural)]
pub enum SyncRefusal {
    /// The peer is not a multiaddress
    InvalidPeerAddress,
    /// The node has no federation
    FederationDisabled,
}

/// Checks a DAG sync before it starts: the peer must be a multiaddress, and
/// then the node must have federation.
pub fn check_sync(peer: &str, federation_enabled: bool) -> (r: Result<(), SyncRefusal>)
    ensures
        !crate::federation::valid_multiaddr(peer@) ==> r == Err::<(), SyncRefusal>(
            SyncRefusal::InvalidPeerAddress,
        ),
        crate::federation::valid_multiaddr(peer@) && !federation_enabled ==> r == Err::<(), SyncRefusal>(
            SyncRefusal::FederationDisabled,
        ),
        crate::federation::valid_multiaddr(peer@) && federation_enabled ==> r == Ok::<(), SyncRefusal>(()),
{
    if !crate::federation::parses_as_multiaddr(peer) {
        Err(SyncRefusal::InvalidPeerAddress)
    } else if !federation_enabled {
        Err(SyncRefusal::FederationDisabled)
    } else {
        Ok(())
    }
}

// ---------------------------------------------------------------------------
// Interactive shell
// ---------------------------------------------------------------------------

/// A line typed into the interactive shell.
#[derive(Debug, PartialEq, Eq)]
pub enum ReplCommand {
    /// A blank line
    Empty,
    /// `exit` or `quit`
    Exit,
    Help,
    Stack,
    Memory,
    Reset,
    /// `trace on` / `trace off`
    Trace(bool),
    /// `explain on` / `explain off`
    Explain(bool),
    /// `simulate on` / `simulate off`
    Simulate(bool),
    /// `storage-trace on` / `storage-trace off`
    StorageTrace(bool),
    /// `mode bytecode` (true) / `mode ast` (false)
    Mode(bool),
    /// `save <file>`; no file means the usage is shown
    Save(Option<String>),
    /// `load <file>`; no file means the usage is shown
    Load(Option<String>),
    /// Anything else: DSL code to run
    Program(String),
}

/// The argument after a `save ` or `load ` prefix: trimmed, none when blank.
pub open spec fn file_arg(t: Seq<char>, a: Option<String>) -> bool {
    let rest = trim_spec(t.subrange(5, t.len() as int));
    if rest.len() == 0 {
        a is None
    } else {
        a matches Some(f) && f@ == rest
    }
}

/// The shell command a line stands for, matched after trimming it.
pub open spec fn repl_command_of(line: Seq<char>, c: ReplCommand) -> bool {
    let t = trim_spec(line);
    if t.len() == 0 {
        c == ReplCommand::Empty
    } else if t == "exit"@ || t == "quit"@ {
        c == ReplCommand::Exit
    } else if t == "help"@ {
        c == ReplCommand::Help
    } else if t == "stack"@ {
        c == ReplCommand::Stack
    } else if t == "memory"@ {
        c == ReplCommand::Memory
    } else if t == "reset"@ {
        c == ReplCommand::Reset
    } else if t == "trace on"@ || t == "trace off"@ {
        c == ReplCommand::Trace(t == "trace on"@)
    } else if t == "explain on"@ || t == "explain off"@ {
        c == ReplCommand::Explain(t == "explain on"@)
    } else if t == "simulate on"@ || t == "simulate off"@ {
        c == ReplCommand::Simulate(t == "simulate on"@)
    } else if t == "storage-trace on"@ || t == "storage-trace off"@ {
        c == ReplCommand::StorageTrace(t == "storage-trace on"@)
    } else if t == "mode ast"@ || t == "mode bytecode"@ {
        c == ReplCommand::Mode(t == "mode bytecode"@)
    } else if has_prefix(t, "save "@) {
        c matches ReplCommand::Save(a) && file_arg(t, a)
    } else if has_prefix(t, "load "@) {
        c matches ReplCommand::Load(a) && file_arg(t, a)
    } else {
        c matches ReplCommand::Program(p) && p@ == t
    }
}

/// The setting a toggle command of the shell carries, if it is one.
pub open spec fn toggle_setting(c: ReplCommand) -> Option<bool> {
    match c {
        ReplCommand::Trace(b) => Some(b),
        ReplCommand::Explain(b) => Some(b),
        ReplCommand::Simulate(b) => Some(b),
        ReplCommand::StorageTrace(b) => Some(b),
        _ => None,
    }
}

/// Whether `s` ends with `suffix`.
pub open spec fn ends_with(s: Seq<char>, suffix: Seq<char>) -> bool {
    s.len() >= suffix.len() && s.subrange(s.len() - suffix.len(), s.len() as int) == suffix
}

/// A shell toggle switches on exactly when it is typed with `on` and off
/// when it is typed with `off`: whatever line a toggle command is read
/// from, it carries `true` exactly when the trimmed line ends in ` on`, and
/// `false` exactly when it ends in ` off`.
pub proof fn law_toggles_follow_on_off(line: Seq<char>, c: ReplCommand)
    requires
        repl_command_of(line, c),
        toggle_setting(c) is Some,
    ensures
        toggle_setting(c) == Some(ends_with(trim_spec(line), " on"@)),
        toggle_setting(c) == Some(!ends_with(trim_spec(line), " off"@)),
{
    reveal_strlit("trace on");
    reveal_strlit("trace off");
    reveal_strlit("explain on");
    reveal_strlit("explain off");
    reveal_strlit("simulate on");
    reveal_strlit("simulate off");
    reveal_strlit("storage-trace on");
    reveal_strlit("storage-trace off");
    reveal_strlit(" on");
    reveal_strlit(" off");
    assert("trace on"@.subrange(5, 8) =~= " on"@);
    assert(!ends_with("trace on"@, " off"@)) by {
        assert("trace on"@[7] != " off"@[3]);
    }
    assert("trace off"@.subrange(5, 9) =~= " off"@);
    assert(!ends_with("trace off"@, " on"@)) by {
        assert("trace off"@[7] != " on"@[1]);
    }
    assert("explain on"@.subrange(7, 10) =~= " on"@);
    assert(!ends_with("explain on"@, " off"@)) by {
        assert("explain on"@[9] != " off"@[3]);
    }
    assert("explain off"@.subrange(7, 11) =~= " off"@);
    assert(!ends_with("explain off"@, " on"@)) by {
        assert("explain off"@[9] != " on"@[1]);
    }
    assert("simulate on"@.subrange(8, 11) =~= " on"@);
    assert(!ends_with("simulate on"@, " off"@)) by {
        assert("simulate on"@[10] != " off"@[3]);
    }
    assert("simulate off"@.subrange(8, 12) =~= " off"@);
    assert(!ends_with("simulate off"@, " on"@)) by {
        assert("simulate off"@[10] != " on"@[1]);
    }
    assert("storage-trace on"@.subrange(13, 16) =~= " on"@);
    assert(!ends_with("storage-trace on"@, " off"@)) by {
        assert("storage-trace on"@[15] != " off"@[3]);
    }
    assert("storage-trace off"@.subrange(13, 17) =~= " off"@);
    assert(!ends_with("storage-trace off"@, " on"@)) by {
        assert("storage-trace off"@[15] != " on"@[1]);
    }
}

/// The shell's mode command selects bytecode exactly when it names
/// bytecode: whatever line a mode command is read from, it carries `true`
/// exactly when the trimmed line ends in `bytecode`.
pub proof fn law_mode_follows_its_name(line: Seq<char>, b: bool)
    requires
        repl_command_of(line, ReplCommand::Mode(b)),
    ensures
        b == ends_with(trim_spec(line), "bytecode"@),
{
    reveal_strlit("mode ast");
    reveal_strlit("mode bytecode");
    reveal_strlit("bytecode");
    assert("mode bytecode"@.subrange(5, 13) =~= "bytecode"@);
    assert(!ends_with("mode ast"@, "bytecode"@)) by {
        assert("mode ast"@.len() < "bytecode"@.len() || "mode ast"@[0] != "bytecode"@[0]);
    }
}

fn file_argument(rest: String) -> (r: Option<String>)
    ensures
        match r {
            Some(f) => trim_spec(rest@).len() != 0 && f@ == trim_spec(rest@),
            None => trim_spec(rest@).len() == 0,
        },
{
    let f = trim(rest.as_str());
    if f.unicode_len() == 0 {
        None
    } else {
        Some(f)
    }
}

/// Reads a line typed into the interactive shell.
pub fn parse_repl_command(line: &str) -> (r: ReplCommand)
    ensures
        repl_command_of(line@, r),
{
    proof {
        reveal_strlit("save ");
        reveal_strlit("load ");
    }
    let t = trim(line);
    let s = t.as_str();
    if t.unicode_len() == 0 {
        ReplCommand::Empty
    } else if str_eq(s, "exit") || str_eq(s, "quit") {
        ReplCommand::Exit
    } else if str_eq(s, "help") {
        ReplCommand::Help
    } else if str_eq(s, "stack") {
        ReplCommand::Stack
    } else if str_eq(s, "memory") {
        ReplCommand::Memory
    } else if str_eq(s, "reset") {
        ReplCommand::Reset
    } else if str_eq(s, "trace on") || str_eq(s, "trace off") {
        ReplCommand::Trace(str_eq(s, "trace on"))
    } else if str_eq(s, "explain on") || str_eq(s, "explain off") {
        ReplCommand::Explain(str_eq(s, "explain on"))
    } else if str_eq(s, "simulate on") || str_eq(s, "simulate off") {
        ReplCommand::Simulate(str_eq(s, "simulate on"))
    } else if str_eq(s, "storage-trace on") || str_eq(s, "storage-trace off") {
        ReplCommand::StorageTrace(str_eq(s, "storage-trace on"))
    } else if str_eq(s, "mode ast") || str_eq(s, "mode bytecode") {
        ReplCommand::Mode(str_eq(s, "mode bytecode"))
    } else if let Some(rest) = strip_prefix(s, "save ") {
        ReplCommand::Save(file_argument(rest))
    } else if let Some(rest) = strip_prefix(s, "load ") {
        ReplCommand::Load(file_argument(rest))
    } else {
        ReplCommand::Program(t)
    }
}

// ---------------------------------------------------------------------------
// Program parameters
// ---------------------------------------------------------------------------

/// A `KEY=VALUE` parameter: exactly one `=`.
pub open spec fn param_of(s: Seq<char>) -> Option<(Seq<char>, Seq<char>)> {
    let parts = split_spec(s, '=');
    if parts.len() == 2 {
        Some((parts[0], parts[1]))
    } else {
        None
    }
}

/// Reads a `KEY=VALUE` parameter; none when the text has no `=` or more
/// than one.
pub fn parse_param(s: &str) -> (r: Option<(String, String)>)
    ensures
        match r {
            Some((k, v)) => param_of(s@) == Some((k@, v@)),
            None => param_of(s@) is None,
        },
{
    let parts = split_char(s, '=');
    proof {
        assert(views_of(parts@).len() == parts@.len());
    }
    if parts.len() == 2 {
        assert(views_of(parts@)[0] == parts@[0]@);
        assert(views_of(parts@)[1] == parts@[1]@);
        Some((parts[0].clone(), parts[1].clone()))
    } else {
        None
    }
}

} // verus!
