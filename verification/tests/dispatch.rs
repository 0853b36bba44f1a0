use capgate::capability::CapabilityMap;
use capgate::dispatch::build_command_args;
use capgate::dispatch::classify_invocation;
use capgate::dispatch::prepare_dispatch;
use capgate::dispatch::validate_request;
use capgate::dispatch::Device;
use capgate::dispatch::DispatchError;
use capgate::dispatch::Outcome;

fn strings(items: &[&str]) -> Vec<String> {
    items.iter().map(|s| s.to_string()).collect()
}

fn onoff_device() -> Device {
    let mut caps = CapabilityMap::new();
    caps.insert("onoff".to_string(), strings(&["on", "off", "toggle"]));
    Device {
        id: 1,
        node_id: 7,
        endpoint_id: 1,
        name: "Living Room Light".to_string(),
        capabilities: caps,
    }
}

#[test]
fn unsupported_cluster_is_refused() {
    let device = onoff_device();
    let r = validate_request(&device.capabilities, "colorcontrol", "move-to-hue");
    assert_eq!(r, Err(DispatchError::UnsupportedCluster));
    // The refusal yields no argument list, so no invocation can be issued.
    let p = prepare_dispatch(&device, "colorcontrol", "move-to-hue", &strings(&[]));
    assert_eq!(p, Err(DispatchError::UnsupportedCluster));
}

#[test]
fn unsupported_command_is_refused() {
    let device = onoff_device();
    let r = validate_request(&device.capabilities, "onoff", "dim");
    assert_eq!(r, Err(DispatchError::UnsupportedCommand));
    let p = prepare_dispatch(&device, "onoff", "dim", &strings(&[]));
    assert_eq!(p, Err(DispatchError::UnsupportedCommand));
}

#[test]
fn supported_command_is_accepted() {
    let device = onoff_device();
    assert_eq!(validate_request(&device.capabilities, "onoff", "toggle"), Ok(()));
    assert_eq!(validate_request(&device.capabilities, "onoff", "on"), Ok(()));
    assert_eq!(validate_request(&device.capabilities, "onoff", "off"), Ok(()));
}

#[test]
fn success_path_builds_exact_argument_order() {
    let device = onoff_device();
    let p = prepare_dispatch(&device, "onoff", "toggle", &strings(&[]));
    assert_eq!(p, Ok(strings(&["onoff", "toggle", "7", "1"])));
    // Zero exit status maps to success.
    assert_eq!(classify_invocation(Ok((true, String::new()))), Outcome::Success);
}

#[test]
fn caller_arguments_keep_their_order() {
    let args = build_command_args("levelcontrol", "move-to-level", &strings(&["128", "0"]), 12, 2);
    assert_eq!(args, strings(&["levelcontrol", "move-to-level", "128", "0", "12", "2"]));
}

#[test]
fn nonzero_exit_is_command_failure() {
    let r = classify_invocation(Ok((false, "device unreachable".to_string())));
    assert_eq!(r, Outcome::CommandFailed("device unreachable".to_string()));
}

#[test]
fn failed_start_is_execution_error() {
    let r = classify_invocation(Err("binary missing".to_string()));
    assert_eq!(r, Outcome::ExecutionError("binary missing".to_string()));
}

#[test]
fn validation_is_idempotent() {
    let device = onoff_device();
    let first = validate_request(&device.capabilities, "onoff", "dim");
    let second = validate_request(&device.capabilities, "onoff", "dim");
    assert_eq!(first, second);
    let third = validate_request(&device.capabilities, "onoff", "toggle");
    let fourth = validate_request(&device.capabilities, "onoff", "toggle");
    assert_eq!(third, fourth);
}

#[test]
fn capability_map_lookup() {
    let mut caps = CapabilityMap::new();
    assert!(!caps.contains_cluster("onoff"));
    assert_eq!(caps.get("onoff"), None);
    caps.insert("onoff".to_string(), strings(&["on"]));
    caps.insert("levelcontrol".to_string(), strings(&["move"]));
    assert!(caps.contains_cluster("onoff"));
    assert!(caps.contains_cluster("levelcontrol"));
    assert!(!caps.contains_cluster("colorcontrol"));
    assert_eq!(caps.get("onoff"), Some(&strings(&["on"])));
    assert_eq!(caps.get("levelcontrol"), Some(&strings(&["move"])));
}

#[test]
fn capability_map_reinsert_overrides() {
    let mut caps = CapabilityMap::new();
    caps.insert("onoff".to_string(), strings(&["on"]));
    caps.insert("onoff".to_string(), strings(&["on", "off"]));
    assert_eq!(caps.get("onoff"), Some(&strings(&["on", "off"])));
}
