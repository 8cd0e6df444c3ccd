use icn_covm::cli::{
    check_sync, configure_gossip, execute_proposal, export_dag, import_dag, parse_param,
    parse_repl_command, show_dag_status, vote_output, vote_output_lowercase, Output, ProposalSubcommand, ReplCommand,
    SyncRefusal,
};
use icn_covm::engine::{DagDelta, StorageBackendType};

fn info(s: &str) -> Output {
    Output::Info(s.to_string())
}

#[test]
fn output_constructors() {
    assert_eq!(Output::info("a".to_string()), Output::Info("a".to_string()));
    assert_eq!(Output::warning("b".to_string()), Output::Warning("b".to_string()));
    assert_eq!(Output::error("c".to_string()), Output::Error("c".to_string()));
}

#[test]
fn proposal_subcommand_reports() {
    let create = ProposalSubcommand::Create {
        title: "Budget".to_string(),
        description: "d".to_string(),
        program: "p.dsl".to_string(),
        template: None,
        identity: "id.json".to_string(),
        quorum: "percentage:50".to_string(),
        threshold: 51,
        weighting: "equal".to_string(),
        expires_in: None,
        auto_execute: false,
    };
    assert_eq!(
        execute_proposal(create, "data".to_string()),
        info("Creating proposal 'Budget' with quorum 'percentage:50', threshold '51%', weighting 'equal'")
    );
    let submit = ProposalSubcommand::Submit {
        file: "prop.dsl".to_string(),
        identity: "id".to_string(),
        title: None,
        description: None,
    };
    assert_eq!(execute_proposal(submit, String::new()), info("Submitting proposal from file: prop.dsl"));
    let list = ProposalSubcommand::List {
        status: "active".to_string(),
        verbose: true,
        sort: "created".to_string(),
        limit: Some(5),
    };
    assert_eq!(
        execute_proposal(list, String::new()),
        info("Listing 5 proposals with status 'active', sorted by 'created' (verbose)")
    );
    let list_all = ProposalSubcommand::List {
        status: "all".to_string(),
        verbose: false,
        sort: "votes".to_string(),
        limit: None,
    };
    assert_eq!(
        execute_proposal(list_all, String::new()),
        info("Listing all proposals with status 'all', sorted by 'votes'")
    );
    for (verbose, votes, detail) in [
        (true, true, "detailed with vote distribution"),
        (true, false, "detailed"),
        (false, true, "vote distribution only"),
        (false, false, "basic"),
    ] {
        let view = ProposalSubcommand::View { id: "42".to_string(), verbose, votes };
        assert_eq!(
            execute_proposal(view, String::new()),
            info(&format!("Viewing proposal ID: 42 ({detail})"))
        );
    }
    let exec = ProposalSubcommand::Execute { id: "42".to_string(), identity: "i".to_string(), force: true };
    assert_eq!(execute_proposal(exec, String::new()), info("Executing proposal ID: 42 (forced)"));
    let exec2 = ProposalSubcommand::Execute { id: "7".to_string(), identity: "i".to_string(), force: false };
    assert_eq!(execute_proposal(exec2, String::new()), info("Executing proposal ID: 7"));
}

#[test]
fn vote_reports() {
    assert_eq!(
        vote_output("9".to_string(), "Y", Some("2.5".to_string()), Some("ok".to_string())),
        info("Casting vote 'YES' with weight 2.5 and comment: \"ok\" on proposal ID: 9")
    );
    assert_eq!(vote_output("9".to_string(), "no", None, None), info("Casting vote 'NO' on proposal ID: 9"));
    assert_eq!(vote_output("9".to_string(), "A", None, None), info("Casting vote 'ABSTAIN' on proposal ID: 9"));
    assert_eq!(
        vote_output("9".to_string(), "Maybe", None, None),
        Output::Error("Invalid vote choice: 'maybe'. Must be yes, no, or abstain".to_string())
    );
}

#[test]
fn dag_status_report() {
    let expected = "DAG Status\n--------------------\nTotal vertices: 1435\nTotal edges: 2301\nNamespaces:\n- governance\n- identity\n- storage\nLast updated: 2 minutes ago\n";
    assert_eq!(show_dag_status(false, None, 120), info(expected));
    let ns = "DAG Status (namespace: gov)\n--------------------\nTotal vertices: 1435\nTotal edges: 2301\nNamespace 'gov' vertices: 245\nNamespace 'gov' size: 112.50 KB\nLast updated: 30 seconds ago\n";
    assert_eq!(show_dag_status(false, Some("gov"), 30), info(ns));
    match show_dag_status(true, None, 7200) {
        Output::Info(text) => {
            assert!(text.contains("Last updated: 2 hours ago\n"));
            assert!(text.ends_with("- Gossip messages last hour: 23\n"));
        }
        other => panic!("unexpected {other:?}"),
    }
}

#[test]
fn dag_export_import_and_gossip() {
    assert_eq!(export_dag("out.json", None, "xml"), Output::Error("Unsupported export format: xml".to_string()));
    assert_eq!(
        export_dag("out.json", Some("gov"), "json"),
        info("DAG state exported to out.json:\n- Format: json\n- Vertices exported: 1435\n- File size: 248.60 KB\n- Namespace: gov")
    );
    assert_eq!(
        import_dag("in.json", None, false),
        info("DAG state imported from in.json:\n- Vertices imported: 1250\n- Vertices skipped: 185\n- Conflicts detected: 3\n- Target namespace: from file\n")
    );
    assert_eq!(
        import_dag("in.json", Some("x"), true),
        info("DAG state imported from in.json:\n- Vertices imported: 1250\n- Vertices skipped: 185\n- Conflicts resolved (force mode): 3\n- Target namespace: x\n")
    );
    assert_eq!(configure_gossip(false, true, 300, 3, None), Err("Federation mode is not enabled".to_string()));
    assert_eq!(
        configure_gossip(true, true, 300, 3, Some(" gov, ,id ,")),
        Ok(info("DAG gossip sync enabled:\n- Sync interval: 300 seconds\n- Max peers: 3\n- Namespaces: gov, id"))
    );
    assert_eq!(
        configure_gossip(true, false, 60, 1, None),
        Ok(info("DAG gossip sync disabled:\n- Sync interval: 60 seconds\n- Max peers: 1\n- Namespaces: all"))
    );
    assert_eq!(check_sync("garbage", true), Err(SyncRefusal::InvalidPeerAddress));
    assert_eq!(check_sync("/ip4/127.0.0.1/tcp/1", false), Err(SyncRefusal::FederationDisabled));
    assert_eq!(check_sync("/ip4/127.0.0.1/tcp/1", true), Ok(()));
}

#[test]
fn repl_commands() {
    assert_eq!(parse_repl_command("   "), ReplCommand::Empty);
    assert_eq!(parse_repl_command(" exit "), ReplCommand::Exit);
    assert_eq!(parse_repl_command("quit"), ReplCommand::Exit);
    assert_eq!(parse_repl_command("help"), ReplCommand::Help);
    assert_eq!(parse_repl_command("stack"), ReplCommand::Stack);
    assert_eq!(parse_repl_command("memory"), ReplCommand::Memory);
    assert_eq!(parse_repl_command("reset"), ReplCommand::Reset);
    assert_eq!(parse_repl_command("trace on"), ReplCommand::Trace(true));
    assert_eq!(parse_repl_command("trace off"), ReplCommand::Trace(false));
    assert_eq!(parse_repl_command("explain on"), ReplCommand::Explain(true));
    assert_eq!(parse_repl_command("simulate off"), ReplCommand::Simulate(false));
    assert_eq!(parse_repl_command("storage-trace on"), ReplCommand::StorageTrace(true));
    assert_eq!(parse_repl_command("mode bytecode"), ReplCommand::Mode(true));
    assert_eq!(parse_repl_command("mode ast"), ReplCommand::Mode(false));
    assert_eq!(parse_repl_command("save  prog.dsl "), ReplCommand::Save(Some("prog.dsl".to_string())));
    assert_eq!(parse_repl_command("load x"), ReplCommand::Load(Some("x".to_string())));
    assert_eq!(parse_repl_command("save"), ReplCommand::Program("save".to_string()));
    assert_eq!(parse_repl_command(" push 1 "), ReplCommand::Program("push 1".to_string()));
}

#[test]
fn params_and_storage_choice() {
    assert_eq!(parse_param("a=b"), Some(("a".to_string(), "b".to_string())));
    assert_eq!(parse_param("a="), Some(("a".to_string(), String::new())));
    assert_eq!(parse_param("a"), None);
    assert_eq!(parse_param("a=b=c"), None);
    assert_eq!(StorageBackendType::from_args("file", "/tmp/s"), StorageBackendType::File("/tmp/s".to_string()));
    assert_eq!(StorageBackendType::from_args("memory", "/tmp/s"), StorageBackendType::Memory);
    assert_eq!(StorageBackendType::from_args("other", "/tmp/s"), StorageBackendType::Memory);
    assert_eq!(StorageBackendType::default(), StorageBackendType::Memory);
}

#[test]
fn dag_deltas() {
    let d: DagDelta<String> = DagDelta::new("ns".to_string());
    assert!(d.success && d.error.is_none() && d.added_nodes.is_empty());
    assert_eq!(d.operations_executed, 0);
    let e: DagDelta<String> = DagDelta::error("ns".to_string(), "boom".to_string());
    assert!(!e.success);
    assert_eq!(e.error, Some("boom".to_string()));
    assert_eq!(e.namespace, "ns");
}

#[test]
fn vote_output_from_lowercased_choice() {
    assert_eq!(
        vote_output_lowercase("p1".to_string(), "y", None, None),
        Output::Info("Casting vote 'YES' on proposal ID: p1".to_string())
    );
    // The lowercased form is taken as given: "YES" names no choice here.
    assert_eq!(
        vote_output_lowercase("p1".to_string(), "YES", None, None),
        Output::Error("Invalid vote choice: 'YES'. Must be yes, no, or abstain".to_string())
    );
    assert_eq!(
        vote_output("p1".to_string(), "YES", None, None),
        vote_output_lowercase("p1".to_string(), "yes", None, None)
    );
}
