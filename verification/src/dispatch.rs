//! Command dispatch: validating a requested (cluster, command) pair against
//! a device's capability map, building the control tool's positional
//! argument list, and classifying the outcome of the invocation.

use vstd::prelude::*;
use vstd::string::*;

use crate::capability::CapabilityMap;
use crate::numeric::i32_to_decimal;
use crate::numeric::spec_i32_decimal;
use crate::strutil::str_eq;

verus! {

/// A device record, as the directory stores it.
pub struct Device {
    /// Identifier local to the directory.
    pub id: i32,
    /// Network-wide node identifier, immutable once assigned.
    pub node_id: i32,
    /// Sub-address within the node.
    pub endpoint_id: i32,
    /// Display name.
    pub name: String,
    /// What the device is known to support, set at commissioning time.
    pub capabilities: CapabilityMap,
}

/// Why a request was refused before any invocation was attempted.
#[derive(Clone, Copy, PartialEq, Eq, Structural, Debug)]
pub enum DispatchError {
    /// The cluster is not a key of the device's capability map.
    UnsupportedCluster,
    /// The cluster is present but its command list lacks the command.
    UnsupportedCommand,
}

/// The validation rule: a cluster absent from the map is refused first; a
/// command absent from the cluster's list is refused next; anything else is
/// accepted.
pub open spec fn spec_validate(
    caps: Map<Seq<char>, Seq<Seq<char>>>,
    cluster: Seq<char>,
    command: Seq<char>,
) -> Result<(), DispatchError> {
    if !caps.contains_key(cluster) {
        Err(DispatchError::UnsupportedCluster)
    } else if !caps[cluster].contains(command) {
        Err(DispatchError::UnsupportedCommand)
    } else {
        Ok(())
    }
}

/// Validates a requested (cluster, command) pair against a capability map.
pub fn validate_request(caps: &CapabilityMap, cluster: &str, command: &str) -> (r: Result<
    (),
    DispatchError,
>)
    ensures
        r == spec_validate(caps@, cluster@, command@),
{
    match caps.get(cluster) {
        None => Err(DispatchError::UnsupportedCluster),
        Some(commands) => {
            let n = commands.len();
            let mut i: usize = 0;
            while i < n
                invariant
                    n == commands@.len(),
                    0 <= i <= n,
                    caps@.contains_key(cluster@),
                    caps@[cluster@] == commands.deep_view(),
                    forall|t: int| 0 <= t < i ==> commands.deep_view()[t] != command@,
                decreases n - i,
            {
                if str_eq(commands[i].as_str(), command) {
                    proof {
                        assert(caps@[cluster@].contains(command@)) by {
                            assert(caps@[cluster@][i as int] == command@);
                        }
                    }
                    return Ok(());
                }
                i += 1;
            }
            proof {
                assert(!caps@[cluster@].contains(command@));
            }
            Err(DispatchError::UnsupportedCommand)
        },
    }
}

/// Re-running validation on the same capability map and request always
/// yields the same classification: the outcome is a function of the map and
/// the request alone, with no hidden state.
pub proof fn lemma_validation_idempotent(
    caps: Map<Seq<char>, Seq<Seq<char>>>,
    cluster: Seq<char>,
    command: Seq<char>,
    r1: Result<(), DispatchError>,
    r2: Result<(), DispatchError>,
)
    requires
        r1 == spec_validate(caps, cluster, command),
        r2 == spec_validate(caps, cluster, command),
    ensures
        r1 == r2,
{
}

/// The positional argument list of a command invocation: cluster, command,
/// the caller's arguments in order, then the node and endpoint identifiers.
/// The control tool is positional and order-sensitive, so this order is
/// load-bearing.
pub open spec fn spec_command_args(
    cluster: Seq<char>,
    command: Seq<char>,
    args: Seq<Seq<char>>,
    node_id: int,
    endpoint_id: int,
) -> Seq<Seq<char>> {
    seq![cluster, command] + args + seq![
        spec_i32_decimal(node_id),
        spec_i32_decimal(endpoint_id),
    ]
}

/// Builds the argument list for one command invocation.
pub fn build_command_args(
    cluster: &str,
    command: &str,
    args: &Vec<String>,
    node_id: i32,
    endpoint_id: i32,
) -> (r: Vec<String>)
    ensures
        r.deep_view() == spec_command_args(
            cluster@,
            command@,
            args.deep_view(),
            node_id as int,
            endpoint_id as int,
        ),
{
    let ghost dv = args.deep_view();
    let mut out: Vec<String> = Vec::new();
    out.push(String::from_str(cluster));
    out.push(String::from_str(command));
    proof {
        assert(out.deep_view() =~= seq![cluster@, command@] + dv.take(0));
    }
    let n = args.len();
    let mut i: usize = 0;
    while i < n
        invariant
            n == args@.len(),
            0 <= i <= n,
            dv == args.deep_view(),
            out.deep_view() == seq![cluster@, command@] + dv.take(i as int),
        decreases n - i,
    {
        let ghost prev = out.deep_view();
        out.push(args[i].clone());
        proof {
            assert(out.deep_view() =~= prev.push(dv[i as int]));
            assert(dv.take(i + 1) =~= dv.take(i as int).push(dv[i as int]));
            assert(out.deep_view() =~= seq![cluster@, command@] + dv.take(i + 1));
        }
        i += 1;
    }
    proof {
        assert(dv.take(n as int) =~= dv);
    }
    let ghost prev = out.deep_view();
    out.push(i32_to_decimal(node_id));
    proof {
        assert(out.deep_view() =~= prev.push(spec_i32_decimal(node_id as int)));
    }
    let ghost prev2 = out.deep_view();
    out.push(i32_to_decimal(endpoint_id));
    proof {
        assert(out.deep_view() =~= prev2.push(spec_i32_decimal(endpoint_id as int)));
        assert(out.deep_view() =~= spec_command_args(
            cluster@,
            command@,
            dv,
            node_id as int,
            endpoint_id as int,
        ));
    }
    out
}

/// Validates a request against the device's capability map and, exactly when
/// it is supported, builds the invocation's argument list. A refused request
/// yields the validation error and no argument list, so no invocation can be
/// issued for it.
pub fn prepare_dispatch(device: &Device, cluster: &str, command: &str, args: &Vec<String>) -> (r:
    Result<Vec<String>, DispatchError>)
    ensures
        r is Ok <==> spec_validate(device.capabilities@, cluster@, command@) is Ok,
        r matches Ok(v) ==> v.deep_view() == spec_command_args(
            cluster@,
            command@,
            args.deep_view(),
            device.node_id as int,
            device.endpoint_id as int,
        ),
        r matches Err(e) ==> spec_validate(device.capabilities@, cluster@, command@) == Err::<
            (),
            DispatchError,
        >(e),
{
    match validate_request(&device.capabilities, cluster, command) {
        Err(e) => Err(e),
        Ok(()) => Ok(
            build_command_args(cluster, command, args, device.node_id, device.endpoint_id),
        ),
    }
}

/// How one attempt to run the control tool ended.
#[derive(Debug, PartialEq, Eq)]
pub enum Outcome {
    /// The tool ran and exited successfully.
    Success,
    /// The tool ran and reported failure; carries the captured diagnostic
    /// text.
    CommandFailed(String),
    /// The tool could not be invoked at all; carries the error message.
    ExecutionError(String),
}

/// Classifies one attempt to run the control tool. The argument is `Err`
/// with a message when the invocation could not start, and otherwise `Ok`
/// with the exit-success flag and the captured diagnostic text.
pub fn classify_invocation(result: Result<(bool, String), String>) -> (r: Outcome)
    ensures
        result is Err ==> (r matches Outcome::ExecutionError(t) && t@ == result->Err_0@),
        result is Ok && result->Ok_0.0 ==> r is Success,
        result is Ok && !result->Ok_0.0 ==> (r matches Outcome::CommandFailed(t) && t@
            == result->Ok_0.1@),
{
    match result {
        Err(message) => Outcome::ExecutionError(message),
        Ok((success, diagnostics)) => {
            if success {
                Outcome::Success
            } else {
                Outcome::CommandFailed(diagnostics)
            }
        },
    }
}

} // verus!
