//! Discovery: commissioning a device and learning its capability map.
//!
//! A commissioning attempt is a linear state machine. It pairs the device
//! onto the network, reads the server list of endpoint 1, resolves the
//! reported cluster identifiers through the registry — keeping the
//! identifier with the name, since the identifier is needed again for the
//! per-cluster command lookup — and then, cluster by cluster, reads the
//! accepted command list and resolves it. Unrecognized identifiers are
//! dropped; a recognized cluster with no recognized command still gets an
//! entry with an empty list. Any failed invocation aborts the whole attempt.
//!
//! The caller runs each returned invocation of the external control tool
//! and feeds the outcome back in; every decision in between is made here.

use vstd::prelude::*;
use vstd::string::*;

use crate::capability::CapabilityMap;
use crate::numeric::all_digits;
use crate::numeric::decimal_value;
use crate::numeric::i32_to_decimal;
use crate::numeric::parse_decimal_u32;
use crate::numeric::spec_i32_decimal;
use crate::parser::captures;
use crate::parser::extract_ids;
use crate::registry::get_cluster_name;
use crate::registry::get_command_name;
use crate::registry::spec_cluster_name;
use crate::registry::spec_command_name;

verus! {

/// The recognized clusters among a sequence of captured digit strings, in
/// source order: each readable identifier that the registry knows, paired
/// with its registry name. Everything else is discarded.
pub open spec fn spec_resolve_clusters(ids: Seq<Seq<char>>) -> Seq<(u32, Seq<char>)>
    decreases ids.len(),
{
    if ids.len() == 0 {
        Seq::empty()
    } else {
        let rest = spec_resolve_clusters(ids.drop_last());
        let s = ids.last();
        if s.len() > 0 && all_digits(s) && decimal_value(s) <= u32::MAX && spec_cluster_name(
            decimal_value(s) as u32,
        ) is Some {
            rest.push(((decimal_value(s) as u32), spec_cluster_name(decimal_value(s) as u32)->0))
        } else {
            rest
        }
    }
}

/// The recognized commands of one cluster among a sequence of captured
/// digit strings, in source order, as registry names; everything else is
/// discarded.
pub open spec fn spec_resolve_commands(cluster_id: u32, ids: Seq<Seq<char>>) -> Seq<Seq<char>>
    decreases ids.len(),
{
    if ids.len() == 0 {
        Seq::empty()
    } else {
        let rest = spec_resolve_commands(cluster_id, ids.drop_last());
        let s = ids.last();
        if s.len() > 0 && all_digits(s) && decimal_value(s) <= u32::MAX && spec_command_name(
            cluster_id,
            decimal_value(s) as u32,
        ) is Some {
            rest.push(spec_command_name(cluster_id, decimal_value(s) as u32)->0)
        } else {
            rest
        }
    }
}

/// Everything the resolution keeps is recognized: each resolved pair is a
/// registry entry, so an identifier the registry does not know never
/// reaches the capability map.
pub proof fn lemma_resolved_clusters_recognized(ids: Seq<Seq<char>>, t: int)
    requires
        0 <= t < spec_resolve_clusters(ids).len(),
    ensures
        spec_cluster_name(spec_resolve_clusters(ids)[t].0) == Some(
            spec_resolve_clusters(ids)[t].1,
        ),
    decreases ids.len(),
{
    if ids.len() > 0 {
        let rest = spec_resolve_clusters(ids.drop_last());
        if t < rest.len() {
            lemma_resolved_clusters_recognized(ids.drop_last(), t);
        }
    }
}

/// The command-list counterpart: each resolved command name is the registry
/// name of a recognized command of the cluster.
pub proof fn lemma_resolved_commands_recognized(cluster_id: u32, ids: Seq<Seq<char>>, t: int)
    requires
        0 <= t < spec_resolve_commands(cluster_id, ids).len(),
    ensures
        exists|c: u32|
            spec_command_name(cluster_id, c) == Some(
                #[trigger] spec_resolve_commands(cluster_id, ids)[t],
            ),
    decreases ids.len(),
{
    if ids.len() > 0 {
        let rest = spec_resolve_commands(cluster_id, ids.drop_last());
        if t < rest.len() {
            lemma_resolved_commands_recognized(cluster_id, ids.drop_last(), t);
        } else {
            let s = ids.last();
            let c = decimal_value(s) as u32;
            assert(spec_command_name(cluster_id, c) == Some(
                spec_resolve_commands(cluster_id, ids)[t],
            ));
        }
    }
}

/// Resolves captured cluster identifiers through the registry.
pub fn resolve_clusters(ids: &Vec<String>) -> (r: Vec<(u32, String)>)
    ensures
        r.deep_view() == spec_resolve_clusters(ids.deep_view()),
{
    let ghost dv = ids.deep_view();
    let mut out: Vec<(u32, String)> = Vec::new();
    proof {
        assert(dv.take(0) =~= Seq::<Seq<char>>::empty());
        assert(out.deep_view() =~= spec_resolve_clusters(dv.take(0)));
    }
    let n = ids.len();
    let mut i: usize = 0;
    while i < n
        invariant
            n == ids@.len(),
            0 <= i <= n,
            dv == ids.deep_view(),
            out.deep_view() == spec_resolve_clusters(dv.take(i as int)),
        decreases n - i,
    {
        proof {
            assert(dv.take(i + 1).drop_last() =~= dv.take(i as int));
            assert(dv.take(i + 1).last() == dv[i as int]);
        }
        let s = &ids[i];
        proof {
            assert(s@ == dv[i as int]);
        }
        match parse_decimal_u32(s.as_str()) {
            Some(v) => {
                match get_cluster_name(v) {
                    Some(name) => {
                        let ghost prev = out.deep_view();
                        out.push((v, String::from_str(name)));
                        proof {
                            assert(out.deep_view() =~= prev.push((v, name@)));
                            assert(out.deep_view() == spec_resolve_clusters(dv.take(i + 1)));
                        }
                    },
                    None => {
                        proof {
                            assert(spec_resolve_clusters(dv.take(i + 1)) == spec_resolve_clusters(
                                dv.take(i as int),
                            ));
                        }
                    },
                }
            },
            None => {
                proof {
                    assert(spec_resolve_clusters(dv.take(i + 1)) == spec_resolve_clusters(
                        dv.take(i as int),
                    ));
                }
            },
        }
        i += 1;
    }
    proof {
        assert(dv.take(n as int) =~= dv);
    }
    out
}

/// Resolves captured command identifiers of one cluster through the
/// registry.
pub fn resolve_commands(cluster_id: u32, ids: &Vec<String>) -> (r: Vec<String>)
    ensures
        r.deep_view() == spec_resolve_commands(cluster_id, ids.deep_view()),
{
    let ghost dv = ids.deep_view();
    let mut out: Vec<String> = Vec::new();
    proof {
        assert(dv.take(0) =~= Seq::<Seq<char>>::empty());
        assert(out.deep_view() =~= spec_resolve_commands(cluster_id, dv.take(0)));
    }
    let n = ids.len();
    let mut i: usize = 0;
    while i < n
        invariant
            n == ids@.len(),
            0 <= i <= n,
            dv == ids.deep_view(),
            out.deep_view() == spec_resolve_commands(cluster_id, dv.take(i as int)),
        decreases n - i,
    {
        proof {
            assert(dv.take(i + 1).drop_last() =~= dv.take(i as int));
            assert(dv.take(i + 1).last() == dv[i as int]);
        }
        let s = &ids[i];
        proof {
            assert(s@ == dv[i as int]);
        }
        match parse_decimal_u32(s.as_str()) {
            Some(v) => {
                match get_command_name(cluster_id, v) {
                    Some(name) => {
                        let ghost prev = out.deep_view();
                        out.push(String::from_str(name));
                        proof {
                            assert(out.deep_view() =~= prev.push(name@));
                            assert(out.deep_view() == spec_resolve_commands(
                                cluster_id,
                                dv.take(i + 1),
                            ));
                        }
                    },
                    None => {
                        proof {
                            assert(spec_resolve_commands(cluster_id, dv.take(i + 1))
                                == spec_resolve_commands(cluster_id, dv.take(i as int)));
                        }
                    },
                }
            },
            None => {
                proof {
                    assert(spec_resolve_commands(cluster_id, dv.take(i + 1))
                        == spec_resolve_commands(cluster_id, dv.take(i as int)));
                }
            },
        }
        i += 1;
    }
    proof {
        assert(dv.take(n as int) =~= dv);
    }
    out
}

/// Arguments of the pairing invocation.
pub open spec fn spec_pairing_args(node_id: int, pairing_code: int) -> Seq<Seq<char>> {
    seq![
        "pairing"@,
        "onnetwork"@,
        spec_i32_decimal(node_id),
        spec_i32_decimal(pairing_code),
    ]
}

/// Builds the pairing invocation's arguments.
pub fn pairing_args(node_id: i32, pairing_code: i32) -> (r: Vec<String>)
    ensures
        r.deep_view() == spec_pairing_args(node_id as int, pairing_code as int),
{
    let mut out: Vec<String> = Vec::new();
    out.push(String::from_str("pairing"));
    out.push(String::from_str("onnetwork"));
    out.push(i32_to_decimal(node_id));
    out.push(i32_to_decimal(pairing_code));
    proof {
        assert(out.deep_view() =~= spec_pairing_args(node_id as int, pairing_code as int));
    }
    out
}

/// Arguments of the server-list invocation against endpoint 1.
pub open spec fn spec_server_list_args(node_id: int) -> Seq<Seq<char>> {
    seq!["descriptor"@, "read"@, "server-list"@, spec_i32_decimal(node_id), "1"@]
}

/// Builds the server-list invocation's arguments.
pub fn server_list_args(node_id: i32) -> (r: Vec<String>)
    ensures
        r.deep_view() == spec_server_list_args(node_id as int),
{
    let mut out: Vec<String> = Vec::new();
    out.push(String::from_str("descriptor"));
    out.push(String::from_str("read"));
    out.push(String::from_str("server-list"));
    out.push(i32_to_decimal(node_id));
    out.push(String::from_str("1"));
    proof {
        assert(out.deep_view() =~= spec_server_list_args(node_id as int));
    }
    out
}

/// Arguments of the accepted-command-list invocation of one cluster against
/// endpoint 1.
pub open spec fn spec_command_list_args(cluster: Seq<char>, node_id: int) -> Seq<Seq<char>> {
    seq![cluster, "read"@, "accepted-command-list"@, spec_i32_decimal(node_id), "1"@]
}

/// Builds the accepted-command-list invocation's arguments for one cluster.
pub fn command_list_args(cluster: &str, node_id: i32) -> (r: Vec<String>)
    ensures
        r.deep_view() == spec_command_list_args(cluster@, node_id as int),
{
    let mut out: Vec<String> = Vec::new();
    out.push(String::from_str(cluster));
    out.push(String::from_str("read"));
    out.push(String::from_str("accepted-command-list"));
    out.push(i32_to_decimal(node_id));
    out.push(String::from_str("1"));
    proof {
        assert(out.deep_view() =~= spec_command_list_args(cluster@, node_id as int));
    }
    out
}

/// Where a commissioning attempt stands.
#[derive(Clone, Copy, PartialEq, Eq, Structural, Debug)]
pub enum DiscoveryPhase {
    /// The pairing invocation is running.
    AwaitPairing,
    /// The server-list invocation is running.
    AwaitServerList,
    /// An accepted-command-list invocation is running.
    AwaitCommandList,
    /// Discovery finished; the capability map is ready.
    Complete,
    /// An invocation failed; the attempt is abandoned.
    Failed,
}

/// What the caller must do next.
pub enum DiscoveryAction {
    /// Run the control tool with these arguments and feed the outcome back.
    Invoke(Vec<String>),
    /// Discovery finished; persist the capability map.
    Done,
    /// The attempt failed; persist nothing.
    Failed,
}

/// One commissioning attempt.
pub struct Discovery {
    node_id: i32,
    phase: DiscoveryPhase,
    clusters: Vec<(u32, String)>,
    next: usize,
    caps: CapabilityMap,
}

impl Discovery {
    /// Current phase.
    pub closed spec fn spec_phase(&self) -> DiscoveryPhase {
        self.phase
    }

    /// The node identifier the attempt was started with.
    pub closed spec fn spec_node_id(&self) -> i32 {
        self.node_id
    }

    /// The recognized clusters of the server list, with their identifiers.
    pub closed spec fn spec_clusters(&self) -> Seq<(u32, Seq<char>)> {
        self.clusters.deep_view()
    }

    /// How many clusters have their command list recorded already.
    pub closed spec fn spec_progress(&self) -> int {
        self.next as int
    }

    /// The capability map assembled so far.
    pub closed spec fn spec_caps(&self) -> Map<Seq<char>, Seq<Seq<char>>> {
        self.caps@
    }

    /// Validity of the attempt's state.
    pub open spec fn wf(&self) -> bool {
        &&& self.spec_progress() <= self.spec_clusters().len()
        &&& (self.spec_phase() is AwaitCommandList ==> self.spec_progress()
            < self.spec_clusters().len())
    }

    /// Starts a commissioning attempt: the first invocation to run is the
    /// pairing of the node with the caller's pairing code.
    pub fn new(node_id: i32, pairing_code: i32) -> (r: (Discovery, Vec<String>))
        ensures
            r.0.wf(),
            r.0.spec_phase() is AwaitPairing,
            r.0.spec_node_id() == node_id,
            r.0.spec_caps() == Map::<Seq<char>, Seq<Seq<char>>>::empty(),
            r.0.spec_clusters() == Seq::<(u32, Seq<char>)>::empty(),
            r.0.spec_progress() == 0,
            r.1.deep_view() == spec_pairing_args(node_id as int, pairing_code as int),
    {
        let d = Discovery {
            node_id,
            phase: DiscoveryPhase::AwaitPairing,
            clusters: Vec::new(),
            next: 0,
            caps: CapabilityMap::new(),
        };
        proof {
            assert(d.clusters.deep_view() =~= Seq::<(u32, Seq<char>)>::empty());
        }
        (d, pairing_args(node_id, pairing_code))
    }

    /// Feeds the outcome of the last invocation back: `ok` is whether it
    /// ran and exited successfully, `output` its captured standard output.
    /// A failed invocation abandons the attempt; otherwise the machine
    /// advances and says what to run next, until the map is assembled.
    pub fn on_result(&mut self, ok: bool, output: &str) -> (a: DiscoveryAction)
        requires
            old(self).wf(),
            old(self).spec_phase() is AwaitPairing || old(self).spec_phase() is AwaitServerList
                || old(self).spec_phase() is AwaitCommandList,
        ensures
            final(self).wf(),
            final(self).spec_node_id() == old(self).spec_node_id(),
            !ok ==> final(self).spec_phase() is Failed && a is Failed,
            ok && old(self).spec_phase() is AwaitPairing ==> ({
                &&& final(self).spec_phase() is AwaitServerList
                &&& final(self).spec_caps() == old(self).spec_caps()
                &&& (a matches DiscoveryAction::Invoke(v) && v.deep_view() == spec_server_list_args(
                    old(self).spec_node_id() as int,
                ))
            }),
            ok && old(self).spec_phase() is AwaitServerList ==> ({
                let resolved = spec_resolve_clusters(captures(output@));
                &&& final(self).spec_clusters() == resolved
                &&& final(self).spec_progress() == 0
                &&& final(self).spec_caps() == old(self).spec_caps()
                &&& (resolved.len() == 0 ==> final(self).spec_phase() is Complete && a is Done)
                &&& (resolved.len() > 0 ==> final(self).spec_phase() is AwaitCommandList && (
                a matches DiscoveryAction::Invoke(v) && v.deep_view() == spec_command_list_args(
                    resolved[0].1,
                    old(self).spec_node_id() as int,
                )))
            }),
            ok && old(self).spec_phase() is AwaitCommandList ==> ({
                let cl = old(self).spec_clusters()[old(self).spec_progress()];
                &&& final(self).spec_clusters() == old(self).spec_clusters()
                &&& final(self).spec_progress() == old(self).spec_progress() + 1
                &&& final(self).spec_caps() == old(self).spec_caps().insert(
                    cl.1,
                    spec_resolve_commands(cl.0, captures(output@)),
                )
                &&& (old(self).spec_progress() + 1 == old(self).spec_clusters().len()
                    ==> final(self).spec_phase() is Complete && a is Done)
                &&& (old(self).spec_progress() + 1 < old(self).spec_clusters().len()
                    ==> final(self).spec_phase() is AwaitCommandList && (
                a matches DiscoveryAction::Invoke(v) && v.deep_view() == spec_command_list_args(
                    old(self).spec_clusters()[old(self).spec_progress() + 1].1,
                    old(self).spec_node_id() as int,
                )))
            }),
    {
        if !ok {
            self.phase = DiscoveryPhase::Failed;
            return DiscoveryAction::Failed;
        }
        match self.phase {
            DiscoveryPhase::AwaitPairing => {
                self.phase = DiscoveryPhase::AwaitServerList;
                DiscoveryAction::Invoke(server_list_args(self.node_id))
            },
            DiscoveryPhase::AwaitServerList => {
                let raw = extract_ids(output);
                let resolved = resolve_clusters(&raw);
                self.clusters = resolved;
                self.next = 0;
                if self.clusters.len() == 0 {
                    self.phase = DiscoveryPhase::Complete;
                    DiscoveryAction::Done
                } else {
                    self.phase = DiscoveryPhase::AwaitCommandList;
                    let args = command_list_args(self.clusters[0].1.as_str(), self.node_id);
                    DiscoveryAction::Invoke(args)
                }
            },
            DiscoveryPhase::AwaitCommandList => {
                let raw = extract_ids(output);
                let total = self.clusters.len();
                let idx = self.next;
                let cluster_id = self.clusters[idx].0;
                let new_next = idx + 1;
                let commands = resolve_commands(cluster_id, &raw);
                let key = self.clusters[idx].1.clone();
                self.caps.insert(key, commands);
                self.next = new_next;
                if self.next < total {
                    let args = command_list_args(
                        self.clusters[self.next].1.as_str(),
                        self.node_id,
                    );
                    DiscoveryAction::Invoke(args)
                } else {
                    self.phase = DiscoveryPhase::Complete;
                    DiscoveryAction::Done
                }
            },
            DiscoveryPhase::Complete => {
                proof {
                    assert(false);
                }
                DiscoveryAction::Failed
            },
            DiscoveryPhase::Failed => {
                proof {
                    assert(false);
                }
                DiscoveryAction::Failed
            },
        }
    }

    /// The capability map assembled so far; complete once the phase is
    /// `Complete`.
    pub fn capability_map(&self) -> (r: &CapabilityMap)
        ensures
            r@ == self.spec_caps(),
    {
        &self.caps
    }

    /// Hands the assembled capability map out for persistence.
    pub fn into_capability_map(self) -> (r: CapabilityMap)
        ensures
            r@ == self.spec_caps(),
    {
        self.caps
    }
}

} // verus!
