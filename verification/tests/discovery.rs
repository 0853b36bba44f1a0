use capgate::directory::allocate_node_id;
use capgate::discovery::resolve_clusters;
use capgate::discovery::resolve_commands;
use capgate::discovery::Discovery;
use capgate::discovery::DiscoveryAction;

fn strings(items: &[&str]) -> Vec<String> {
    items.iter().map(|s| s.to_string()).collect()
}

fn invocation(action: DiscoveryAction) -> Vec<String> {
    match action {
        DiscoveryAction::Invoke(args) => args,
        DiscoveryAction::Done => panic!("expected an invocation, got completion"),
        DiscoveryAction::Failed => panic!("expected an invocation, got failure"),
    }
}

#[test]
fn resolves_recognized_clusters_only() {
    let raw = strings(&["6", "768", "999"]);
    let resolved = resolve_clusters(&raw);
    assert_eq!(resolved.len(), 2);
    assert_eq!(resolved[0], (6, "onoff".to_string()));
    assert_eq!(resolved[1], (768, "colorcontrol".to_string()));
}

#[test]
fn resolves_recognized_commands_only() {
    let raw = strings(&["0", "1", "2", "9"]);
    assert_eq!(resolve_commands(6, &raw), strings(&["off", "on", "toggle"]));
}

#[test]
fn full_discovery_run() {
    let (mut discovery, pairing) = Discovery::new(5, 20202021);
    assert_eq!(pairing, strings(&["pairing", "onnetwork", "5", "20202021"]));

    // Pairing succeeded: the server list of endpoint 1 is read next.
    let action = discovery.on_result(true, "");
    assert_eq!(invocation(action), strings(&["descriptor", "read", "server-list", "5", "1"]));

    // Server list yields 6, 768 and the unrecognized 999.
    let server_list = "[TOO] ServerList [0]: 6 (unsigned)\n\
                       [TOO] ServerList [1]: 768 (unsigned)\n\
                       [TOO] ServerList [2]: 999 (unsigned)\n";
    let action = discovery.on_result(true, server_list);
    assert_eq!(
        invocation(action),
        strings(&["onoff", "read", "accepted-command-list", "5", "1"])
    );

    // The on/off cluster accepts commands 0, 1, 2.
    let onoff_commands = "[TOO] AcceptedCommandList [0]: 0 (unsigned)\n\
                          [TOO] AcceptedCommandList [1]: 1 (unsigned)\n\
                          [TOO] AcceptedCommandList [2]: 2 (unsigned)\n";
    let action = discovery.on_result(true, onoff_commands);
    assert_eq!(
        invocation(action),
        strings(&["colorcontrol", "read", "accepted-command-list", "5", "1"])
    );

    // The color cluster reports nothing recognizable: its entry stays empty.
    let action = discovery.on_result(true, "no entries here");
    assert!(matches!(action, DiscoveryAction::Done));

    let caps = discovery.into_capability_map();
    assert_eq!(caps.get("onoff"), Some(&strings(&["off", "on", "toggle"])));
    assert_eq!(caps.get("colorcontrol"), Some(&strings(&[])));
    assert_eq!(caps.get("levelcontrol"), None);
    assert_eq!(caps.entries().len(), 2);
}

#[test]
fn empty_server_list_completes_with_empty_map() {
    let (mut discovery, _) = Discovery::new(3, 11);
    let _ = discovery.on_result(true, "");
    let action = discovery.on_result(true, "nothing recognized");
    assert!(matches!(action, DiscoveryAction::Done));
    let caps = discovery.into_capability_map();
    assert_eq!(caps.entries().len(), 0);
}

#[test]
fn pairing_failure_aborts_the_attempt() {
    let (mut discovery, _) = Discovery::new(4, 99);
    let action = discovery.on_result(false, "");
    assert!(matches!(action, DiscoveryAction::Failed));
}

#[test]
fn command_list_failure_aborts_the_attempt() {
    let (mut discovery, _) = Discovery::new(4, 99);
    let _ = discovery.on_result(true, "");
    let _ = discovery.on_result(true, "[TOO] ServerList [0]: 6 (unsigned)");
    let action = discovery.on_result(false, "");
    assert!(matches!(action, DiscoveryAction::Failed));
}

#[test]
fn duplicate_cluster_ids_propagate() {
    // The orchestrator performs no deduplication: a duplicated cluster is
    // queried twice and the later answer overrides the earlier one.
    let raw = strings(&["6", "6"]);
    let resolved = resolve_clusters(&raw);
    assert_eq!(resolved.len(), 2);
    assert_eq!(resolved[0], resolved[1]);
}

#[test]
fn node_id_allocation() {
    assert_eq!(allocate_node_id(&vec![]), 1);
    assert_eq!(allocate_node_id(&vec![3, 1, 2]), 4);
    assert_eq!(allocate_node_id(&vec![-7]), 1);
}

#[test]
fn node_id_allocation_never_repeats() {
    let mut stored: Vec<i32> = vec![];
    let first = allocate_node_id(&stored);
    stored.push(first);
    let second = allocate_node_id(&stored);
    assert_ne!(first, second);
    assert!(second > first);
}
