use icn_covm::auth::{
    create_admin_auth_context, create_default_auth_context, create_demo_auth_context,
    get_or_create_auth_context, AuthContext,
};
use icn_covm::federation::{
    check_message_target, coop_of, cooperatives, execution_clearance, extension_log_key,
    federation_log_key, listen_address, parse_proposal_file, parse_vote_file, plan_retry,
    ExecutionClearance, FederationVMError, NodeAction, NodeConfig, NodeEvent, NetworkNode, PeerInfo,
    ProposalExecutor,
    ProposalScope, ProposalStatus, RetryAction, VotingModel,
};

const PEER: &str = "12D3KooWD3eckifWpRn9wQpMG9R9hX3sD158z7EqHWmweQAJU5SA";

#[test]
fn default_auth_context_holds_one_global_role() {
    let a = create_default_auth_context(None, None);
    assert_eq!(a.current_identity_did, "anonymous");
    assert_eq!(a.roles, vec![("global".to_string(), "user".to_string())]);
    assert_eq!(
        a.identity_roles,
        vec![("anonymous".to_string(), "global".to_string(), "user".to_string())]
    );
    let b = create_default_auth_context(Some("bob"), Some("admin"));
    assert_eq!(b.user_id(), "bob");
    assert_eq!(b.roles, vec![("global".to_string(), "admin".to_string())]);
    assert_eq!(create_demo_auth_context().current_identity_did, "demo-user");
    assert_eq!(create_admin_auth_context().roles[0].1, "admin");
    let c = get_or_create_auth_context("memory", "./storage");
    assert_eq!(c.current_identity_did, "demo_user");
    assert!(c.roles.is_empty());
}

#[test]
fn proposal_file_is_read_line_by_line() {
    let content = " prop-1 \ngovernance\n  alice_coop1 \n option A \r\noption B\n";
    let p = parse_proposal_file(content, "single", "coop", "", 1_000, Some(60)).unwrap();
    assert_eq!(p.proposal_id, "prop-1");
    assert_eq!(p.namespace, "governance");
    assert_eq!(p.creator, "alice_coop1");
    assert_eq!(p.options, vec!["option A".to_string(), "option B".to_string()]);
    assert_eq!(p.created_at, 1_000);
    assert_eq!(p.scope, ProposalScope::SingleCoop("alice_coop1".to_string()));
    assert_eq!(p.voting_model, VotingModel::OneCoopOneVote);
    assert_eq!(p.expires_at, Some(1_060));
    assert_eq!(p.status, ProposalStatus::Open);

    let m = parse_proposal_file(content, "multi", "member", " c1 ,c2,", 5, None).unwrap();
    assert_eq!(
        m.scope,
        ProposalScope::MultiCoop(vec!["c1".to_string(), "c2".to_string(), String::new()])
    );
    assert_eq!(m.voting_model, VotingModel::OneMemberOneVote);
    assert_eq!(m.expires_at, None);
    let g = parse_proposal_file(content, "global", "coop", "", 5, None).unwrap();
    assert_eq!(g.scope, ProposalScope::GlobalFederation);

    let late = parse_proposal_file(content, "global", "coop", "", i64::MAX - 10, Some(11));
    assert_eq!(late.unwrap_err(), "Invalid expiry: the end of voting is out of range");
    let edge = parse_proposal_file(content, "global", "coop", "", i64::MAX - 10, Some(10)).unwrap();
    assert_eq!(edge.expires_at, Some(i64::MAX));
    // A short file is refused for its format, whatever the expiry.
    let short_late = parse_proposal_file("a\nb\nc\n", "single", "coop", "", i64::MAX, Some(u64::MAX));
    assert_eq!(
        short_late.unwrap_err(),
        "Invalid proposal file format. Expected at least 4 lines: ID, namespace, creator, options"
    );
    let short = parse_proposal_file("a\nb\nc\n", "single", "coop", "", 0, None);
    assert_eq!(
        short.unwrap_err(),
        "Invalid proposal file format. Expected at least 4 lines: ID, namespace, creator, options"
    );
}

#[test]
fn vote_file_defaults_message_and_signature() {
    let v = parse_vote_file("prop-1\n alice_c1 \n 1, 2 ,3\n").unwrap();
    assert_eq!(v.proposal_id, "prop-1");
    assert_eq!(v.voter, "alice_c1");
    assert_eq!(v.choices, vec!["1".to_string(), "2".to_string(), "3".to_string()]);
    assert_eq!(v.message, "Vote from alice_c1 on proposal prop-1 with choices 1, 2 ,3");
    assert_eq!(v.signature, "valid");

    let w = parse_vote_file("p\nv\n1\n msg \n sig \n").unwrap();
    assert_eq!(w.message, "msg");
    assert_eq!(w.signature, "sig");

    assert_eq!(
        parse_vote_file("p\nv").unwrap_err(),
        "Invalid vote file format. Expected at least 3 lines: proposal ID, voter ID, ranked choices"
    );
}

#[test]
fn execution_waits_for_expiry_unless_forced() {
    assert_eq!(execution_clearance(None, 10, false), Ok(ExecutionClearance::NoExpiry));
    // Nothing is subtracted when forcing or after expiry, whatever the instants.
    assert_eq!(execution_clearance(Some(i64::MAX), i64::MIN, true), Ok(ExecutionClearance::Forced));
    assert_eq!(execution_clearance(Some(i64::MIN), i64::MAX, false), Ok(ExecutionClearance::Expired));
    assert_eq!(execution_clearance(Some(10), 10, false), Ok(ExecutionClearance::Expired));
    assert_eq!(execution_clearance(Some(100), 10, true), Ok(ExecutionClearance::Forced));
    assert_eq!(
        execution_clearance(Some(10 + 2 * 3600 + 5 * 60 + 30), 10, false),
        Err("Proposal has not expired yet. 2 hours 5 minutes remaining. Use --force to override."
            .to_string())
    );
}

#[test]
fn cooperatives_of_voters() {
    assert_eq!(coop_of("coop1_alice"), Some("coop1".to_string()));
    assert_eq!(coop_of("a_b_c"), Some("a".to_string()));
    assert_eq!(coop_of("alice"), None);
    let voters = vec![
        "c1_alice".to_string(),
        "c2_bob".to_string(),
        "carol".to_string(),
        "c1_dave".to_string(),
    ];
    assert_eq!(cooperatives(&voters), vec!["c1".to_string(), "c2".to_string()]);
}

#[test]
fn executor_builds_up_and_runs() {
    let ex = ProposalExecutor::new(7u32, AuthContext::new("me"))
        .with_parent_hash("abc".to_string())
        .with_expiry(30)
        .load_dsl("push 1".to_string())
        .load_bytecode(vec![1, 2]);
    assert_eq!(ex.expires_in, Some(30));
    assert_eq!(ex.dsl_code, Some("push 1".to_string()));
    assert_eq!(ex.bytecode, Some(vec![1, 2]));
    let (vm, rec) = ex.execute(true, 99).unwrap();
    assert_eq!(vm, 7);
    assert_eq!(rec.scope, ProposalScope::Local);
    assert_eq!(rec.voting_model, VotingModel::Simple);
    assert_eq!(rec.parent_hash, Some("abc".to_string()));
    assert_eq!(rec.executed_at, 99);
    assert_eq!(rec.entry_type, "proposal_execution");
    assert_eq!(rec.scope_text, "Local");
    assert_eq!(rec.voting_model_text, "Simple");
    assert_eq!(ProposalExecutor::<u32>::finish(vm, Ok(())), Ok(7));
    assert_eq!(
        ProposalExecutor::<u32>::finish(7, Err("disk full".to_string())),
        Err("disk full".to_string())
    );

    let ex2 = ProposalExecutor::new((), AuthContext::new("me"))
        .with_scope(ProposalScope::GlobalFederation)
        .with_voting_model(VotingModel::OneCoopOneVote);
    let (_, rec2) = ex2.execute(true, 1).unwrap();
    assert_eq!(rec2.scope, ProposalScope::GlobalFederation);
    assert_eq!(rec2.voting_model, VotingModel::OneCoopOneVote);
    assert_eq!(rec2.scope_text, "GlobalFederation");
    assert_eq!(rec2.voting_model_text, "OneCoopOneVote");

    let ex3 = ProposalExecutor::new((), AuthContext::new("me"));
    assert_eq!(ex3.execute(false, 1).err(), Some("Federation is not enabled on this VM".to_string()));
}

#[test]
fn federation_error_texts() {
    assert_eq!(FederationVMError::NotEnabled.message(), "Federation is not enabled");
    assert_eq!(FederationVMError::NetworkError("x".to_string()).message(), "Network error: x");
    assert_eq!(FederationVMError::StorageError("y".to_string()).message(), "Storage error: y");
    assert_eq!(FederationVMError::MessageError("z".to_string()).message(), "Message error: z");
}

#[test]
fn node_addresses_and_announcements() {
    assert_eq!(listen_address(Some(4001)), "/ip4/0.0.0.0/tcp/4001");
    assert_eq!(listen_address(None), "/ip4/0.0.0.0/tcp/0");
    let mut cfg = NodeConfig::default_config();
    assert_eq!(cfg.protocol_version, "1.0.0");
    assert!(cfg.bootstrap_nodes.is_empty());
    cfg.capabilities.push("voting".to_string());
    cfg.name = Some("n1".to_string());
    let a = cfg.announcement("peer".to_string());
    assert_eq!(a.node_id, "peer");
    assert_eq!(a.capabilities, vec!["voting".to_string()]);
    assert_eq!(a.version, "1.0.0");
    assert_eq!(a.name, Some("n1".to_string()));
    let info = PeerInfo::connected("p".to_string());
    assert_eq!(info.peer_id, "p");
    assert!(info.addresses.is_none() && info.last_seen.is_none());
}

#[test]
fn message_targets_must_be_peer_ids() {
    assert_eq!(
        check_message_target("/ip4/1.2.3.4/tcp/1"),
        Err("Sending by multiaddress not implemented yet".to_string())
    );
    assert_eq!(
        check_message_target("/ip6/::1/tcp/1"),
        Err("Sending by multiaddress not implemented yet".to_string())
    );
    assert_eq!(check_message_target("nope"), Err("Invalid peer ID: nope".to_string()));
    assert_eq!(check_message_target(PEER), Ok(()));
}

#[test]
fn retry_plans() {
    match plan_retry("dial", "/ip4/127.0.0.1/tcp/4001") {
        RetryAction::Dial(a) => assert_eq!(a, "/ip4/127.0.0.1/tcp/4001"),
        other => panic!("unexpected {other:?}"),
    }
    match plan_retry("dial", "not an address") {
        RetryAction::InvalidAddress(a) => assert_eq!(a, "not an address"),
        other => panic!("unexpected {other:?}"),
    }
    match plan_retry("send_message", &format!("{PEER}:msg-1:x")) {
        RetryAction::Resend { peer, message_id } => {
            assert_eq!(peer, PEER);
            assert_eq!(message_id, "msg-1:x");
        }
        other => panic!("unexpected {other:?}"),
    }
    assert!(matches!(plan_retry("send_message", "bad:msg"), RetryAction::Skip));
    assert!(matches!(plan_retry("send_message", "nocolon"), RetryAction::Skip));
    match plan_retry("gossip", "x") {
        RetryAction::Unknown(o) => assert_eq!(o, "gossip"),
        other => panic!("unexpected {other:?}"),
    }
}

#[test]
fn node_state_tracks_peers_role_and_retries() {
    let mut cfg = NodeConfig::default_config();
    cfg.port = Some(7000);
    let mut n = NetworkNode::new("me".to_string(), cfg, Some(5));
    assert_eq!(n.local_peer_id(), "me");
    assert_eq!(n.listen_address(), "/ip4/0.0.0.0/tcp/7000");
    assert_eq!(n.create_node_announcement().node_id, "me");
    assert!(!n.is_running());
    assert!(n.start());
    assert!(!n.start());
    assert!(n.is_running());
    n.stop();
    assert!(!n.is_running());
    assert_eq!(n.config().port, Some(7000));
    let peers = NetworkNode::connected_peers(vec!["a".to_string(), "b".to_string()]);
    assert_eq!(peers.len(), 2);
    assert_eq!(peers[0].peer_id, "a");
    assert_eq!(peers[1].peer_id, "b");
    assert_eq!(n.get_start_time(), Some(5));
    assert_eq!(n.get_role(), None);
    let running_before = n.is_running();
    n.set_role("validator".to_string());
    assert_eq!(n.get_role(), Some("validator"));
    assert_eq!(n.get_start_time(), Some(5));
    assert_eq!(n.is_running(), running_before);
    assert_eq!(n.config().port, Some(7000));
    assert!(!n.is_known("p1"));
    n.peer_connected("p1".to_string());
    n.peer_connected("p1".to_string());
    assert!(n.is_known("p1"));
    assert_eq!(n.send_custom_message("bad", "{}".to_string()), Err("Invalid peer ID: bad".to_string()));
    assert_eq!(n.send_custom_message(PEER, "{}".to_string()), Ok(()));
    assert!(n.record_retry_failure("dial", "/ip4/127.0.0.1/tcp/1").is_some());
    assert!(n.retry_manager().is_in_backoff("dial", "/ip4/127.0.0.1/tcp/1"));
    match n.retry_due("dial", "/ip4/127.0.0.1/tcp/1") {
        RetryAction::Dial(_) => {}
        other => panic!("unexpected {other:?}"),
    }
    assert!(!n.retry_manager().is_in_backoff("dial", "/ip4/127.0.0.1/tcp/1"));
    n.record_retry_success("dial", "/ip4/127.0.0.1/tcp/1");
    assert!(n.retry_manager().get_all_retries().is_empty());
}

#[test]
fn log_keys() {
    assert_eq!(federation_log_key(1700000000), "fed_log:1700000000");
    assert_eq!(federation_log_key(-3), "fed_log:-3");
    let k = extension_log_key(12).expect("the system's random source works");
    assert!(k.starts_with("federation/logs/12-"));
    assert_eq!(k.len(), "federation/logs/12-".len() + 36);
    let id: Vec<char> = k["federation/logs/12-".len()..].chars().collect();
    for (i, c) in id.iter().enumerate() {
        if i == 8 || i == 13 || i == 18 || i == 23 {
            assert_eq!(*c, '-');
        } else {
            assert!(c.is_ascii_digit() || ('a'..='f').contains(c));
        }
    }
    assert_eq!(id[14], '4');
    assert!("89ab".contains(id[19]));
    assert_ne!(extension_log_key(12), Some(k));
}

#[test]
fn connection_makes_peer_known_and_is_announced() {
    let mut node = NetworkNode::new("me".to_string(), NodeConfig::default_config(), None);
    let acts = node.handle_event(NodeEvent::ConnectionEstablished {
        peer: PEER.to_string(),
        address: "/ip4/10.0.0.2/tcp/4001".to_string(),
    });
    assert_eq!(acts.len(), 2);
    assert!(matches!(&acts[0], NodeAction::AddAddress { peer, address }
        if peer == PEER && address == "/ip4/10.0.0.2/tcp/4001"));
    assert!(matches!(&acts[1], NodeAction::PeerConnected(p) if p == PEER));
    assert!(node.is_known(PEER));
    let closed = node.handle_event(NodeEvent::ConnectionClosed { peer: PEER.to_string() });
    assert_eq!(closed.len(), 1);
    assert!(matches!(&closed[0], NodeAction::PeerDisconnected(p) if p == PEER));
    // a closed connection does not make the peer unknown
    assert!(node.is_known(PEER));
}

#[test]
fn discovery_dials_only_unknown_peers() {
    let mut node = NetworkNode::new("me".to_string(), NodeConfig::default_config(), None);
    node.peer_connected("known".to_string());
    let acts = node.handle_event(NodeEvent::Discovered(vec![
        ("known".to_string(), "/ip4/10.0.0.3/tcp/1".to_string()),
        ("fresh".to_string(), "/ip4/10.0.0.4/tcp/2".to_string()),
    ]));
    assert_eq!(acts.len(), 5);
    assert!(matches!(&acts[0], NodeAction::AddAddress { peer, address }
        if peer == "known" && address == "/ip4/10.0.0.3/tcp/1"));
    assert!(matches!(&acts[1], NodeAction::PeerDiscovered(p) if p == "known"));
    assert!(matches!(&acts[2], NodeAction::AddAddress { peer, .. } if peer == "fresh"));
    assert!(matches!(&acts[3], NodeAction::PeerDiscovered(p) if p == "fresh"));
    assert!(matches!(&acts[4], NodeAction::Dial(a) if a == "/ip4/10.0.0.4/tcp/2"));
    // discovery alone does not make a peer known
    assert!(!node.is_known("fresh"));
}

#[test]
fn connected_peer_is_not_redialed_on_discovery() {
    let mut node = NetworkNode::new("me".to_string(), NodeConfig::default_config(), None);
    node.handle_event(NodeEvent::ConnectionEstablished {
        peer: "p".to_string(),
        address: "/ip4/1.2.3.4/tcp/5".to_string(),
    });
    let acts = node.handle_event(NodeEvent::Discovered(vec![(
        "p".to_string(),
        "/ip4/1.2.3.4/tcp/5".to_string(),
    )]));
    assert_eq!(acts.len(), 2);
    assert!(!acts.iter().any(|a| matches!(a, NodeAction::Dial(_))));
}

#[test]
fn dht_routing_and_identify_events() {
    let mut node = NetworkNode::new("me".to_string(), NodeConfig::default_config(), None);
    let found = node.handle_event(NodeEvent::ClosestPeersFound(vec!["a".to_string(), "b".to_string()]));
    assert!(matches!(&found[0], NodeAction::DhtQueryCompleted { peers, success: true }
        if peers == &vec!["a".to_string(), "b".to_string()]));
    let failed = node.handle_event(NodeEvent::ClosestPeersFailed);
    assert!(matches!(&failed[0], NodeAction::DhtQueryCompleted { peers, success: false } if peers.is_empty()));
    let new_peer = node.handle_event(NodeEvent::RoutingUpdated { peer: "c".to_string(), is_new_peer: true });
    assert!(matches!(&new_peer[0], NodeAction::PeerDiscovered(p) if p == "c"));
    let old_peer = node.handle_event(NodeEvent::RoutingUpdated { peer: "c".to_string(), is_new_peer: false });
    assert!(old_peer.is_empty());
    let ident = node.handle_event(NodeEvent::Identified {
        peer: "d".to_string(),
        listen_addrs: vec!["/ip4/1.1.1.1/tcp/1".to_string(), "/ip6/::1/tcp/2".to_string()],
    });
    assert_eq!(ident.len(), 2);
    assert!(matches!(&ident[1], NodeAction::AddAddress { peer, address }
        if peer == "d" && address == "/ip6/::1/tcp/2"));
    assert!(node.handle_event(NodeEvent::Other).is_empty());
    assert!(!node.is_known("c") && !node.is_known("d"));
}

#[test]
fn log_texts_are_debug_forms() {
    let scopes = vec![
        ProposalScope::Local,
        ProposalScope::SingleCoop("co\"op".to_string()),
        ProposalScope::MultiCoop(vec!["a".to_string(), "b\n".to_string()]),
        ProposalScope::MultiCoop(vec![]),
        ProposalScope::GlobalFederation,
    ];
    for sc in scopes {
        let ex = ProposalExecutor::new((), AuthContext::new("me")).with_scope(sc.clone());
        let (_, rec) = ex.execute(true, 0).unwrap();
        assert_eq!(rec.scope_text, format!("{:?}", sc));
    }
    for m in [VotingModel::Simple, VotingModel::OneMemberOneVote, VotingModel::OneCoopOneVote] {
        let ex = ProposalExecutor::new((), AuthContext::new("me")).with_voting_model(m);
        let (_, rec) = ex.execute(true, 0).unwrap();
        assert_eq!(rec.voting_model_text, format!("{:?}", m));
    }
}

#[test]
fn cooperatives_keep_first_appearance_order() {
    let voters = vec![
        "zeta_a".to_string(),
        "alpha_b".to_string(),
        "zeta_c".to_string(),
        "mid_d".to_string(),
        "alpha_e".to_string(),
    ];
    assert_eq!(
        cooperatives(&voters),
        vec!["zeta".to_string(), "alpha".to_string(), "mid".to_string()]
    );
}
