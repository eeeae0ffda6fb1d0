//! What a node runtime reports of itself, and the decisions it makes: the
//! peers its cluster starts with, and how a restart proceeds.
use vstd::prelude::*;
use vstd::string::*;
use crate::errors::{ErrorModel, RustRaftError, RustRaftNodeOptions, fails_with, invalid_request};
use crate::health::RaftClusterStatusReport;
use crate::types::{RustRaftGroupId, RustRaftNodeId, RustRaftPeer};

verus! {

/// The lifecycle state of a node runtime.
#[derive(Debug, Clone, Copy, PartialEq, Eq, Structural)]
pub enum RaftNodeRuntimeState {
    Created,
    Running,
    Stopped,
    Shutdown,
}

/// What a node runtime reports of itself.
#[derive(Debug, Clone)]
pub struct RaftNodeRuntimeStatus {
    pub node_id: RustRaftNodeId,
    pub group_id: RustRaftGroupId,
    pub state: RaftNodeRuntimeState,
    pub restart_count: u64,
    pub worker_running: bool,
    pub cluster_status: Option<RaftClusterStatusReport>,
}

/// The peers a node's cluster starts with: the configured peers, and the
/// node itself (with its addresses and role, not auto-promoted) at the end
/// when they do not name it.
pub open spec fn runtime_peer_ids(options_peers: Seq<RustRaftPeer>, node_id: u64) -> Seq<u64> {
    let ids = options_peers.map_values(|p: RustRaftPeer| p.node_id);
    if ids.contains(node_id) { ids } else { ids.push(node_id) }
}

/// The peers of the cluster a node runtime runs.
pub fn rustraft_runtime_peers(options: &RustRaftNodeOptions) -> (r: Vec<RustRaftPeer>)
    ensures
        r@.map_values(|p: RustRaftPeer| p.node_id) == runtime_peer_ids(options.peers@, options.node_id),
        r@.len() >= options.peers@.len(),
        forall|i: int| 0 <= i < options.peers@.len() ==> #[trigger] r@[i].role == options.peers@[i].role,
        r@.len() > options.peers@.len() ==> ({
            let me = r@[r@.len() - 1];
            &&& me.role == options.role
            &&& me.raft_addr@ == options.raft_addr@
            &&& me.snapshot_addr@ == options.snapshot_addr@
            &&& !me.auto_promote
        }),
{
    let mut peers: Vec<RustRaftPeer> = Vec::new();
    let mut found = false;
    let mut i: usize = 0;
    while i < options.peers.len()
        invariant
            i <= options.peers@.len(),
            peers@.len() == i,
            forall|j: int| 0 <= j < i ==> (#[trigger] peers@[j]).node_id == options.peers@[j].node_id && peers@[j].role
                == options.peers@[j].role,
            found <==> exists|j: int| 0 <= j < i && #[trigger] options.peers@[j].node_id == options.node_id,
        decreases options.peers@.len() - i,
    {
        let p = &options.peers[i];
        if p.node_id == options.node_id {
            found = true;
        }
        peers.push(
            RustRaftPeer {
                node_id: p.node_id,
                raft_addr: p.raft_addr.clone(),
                snapshot_addr: p.snapshot_addr.clone(),
                role: p.role,
                auto_promote: p.auto_promote,
            },
        );
        i = i + 1;
    }
    let ghost before = peers@;
    if !found {
        peers.push(
            RustRaftPeer {
                node_id: options.node_id,
                raft_addr: options.raft_addr.clone(),
                snapshot_addr: options.snapshot_addr.clone(),
                role: options.role,
                auto_promote: false,
            },
        );
    }
    proof {
        assert forall|j: int| 0 <= j < options.peers@.len() implies #[trigger] peers@[j] == before[j] by {}
        let ids = options.peers@.map_values(|p: RustRaftPeer| p.node_id);
        assert(before.map_values(|p: RustRaftPeer| p.node_id) =~= ids);
        if found {
            let j = choose|j: int| 0 <= j < options.peers@.len() && #[trigger] options.peers@[j].node_id == options.node_id;
            assert(ids[j] == options.node_id);
            assert(peers@.map_values(|p: RustRaftPeer| p.node_id) =~= ids);
        } else {
            assert forall|j: int| 0 <= j < ids.len() implies ids[j] != options.node_id by {
                assert(options.peers@[j].node_id == ids[j]);
            }
            assert(!ids.contains(options.node_id));
            assert(peers@.map_values(|p: RustRaftPeer| p.node_id) =~= ids.push(options.node_id));
        }
    }
    peers
}

/// Whether a restart from `state` first stops the node: refused once it is
/// shut down; a running node stops before it starts again.
pub fn rustraft_restart_stops_first(state: RaftNodeRuntimeState) -> (r: Result<bool, RustRaftError>)
    ensures
        state == RaftNodeRuntimeState::Shutdown ==> fails_with(
            r,
            ErrorModel::InvalidRequest("cannot restart a shutdown raft node runtime"@),
        ),
        state != RaftNodeRuntimeState::Shutdown ==> r == Ok::<bool, RustRaftError>(state == RaftNodeRuntimeState::Running),
{
    if state == RaftNodeRuntimeState::Shutdown {
        return Err(invalid_request("cannot restart a shutdown raft node runtime"));
    }
    Ok(state == RaftNodeRuntimeState::Running)
}

/// A command a node runtime's worker handles, as far as its lifecycle goes.
#[derive(Debug, Clone, Copy, PartialEq, Eq, Structural)]
pub enum RaftNodeRuntimeCommand {
    Start,
    Stop,
    Shutdown,
    Other,
}

/// The worker's state after `command` answered, `succeeded` telling whether
/// it did: running after a successful start, stopped after a successful
/// stop, shut down after a shutdown; any other answer leaves it as it was.
pub open spec fn runtime_state_after(
    state: RaftNodeRuntimeState,
    command: RaftNodeRuntimeCommand,
    succeeded: bool,
) -> RaftNodeRuntimeState {
    match command {
        RaftNodeRuntimeCommand::Start => if succeeded { RaftNodeRuntimeState::Running } else { state },
        RaftNodeRuntimeCommand::Stop => if succeeded { RaftNodeRuntimeState::Stopped } else { state },
        RaftNodeRuntimeCommand::Shutdown => RaftNodeRuntimeState::Shutdown,
        RaftNodeRuntimeCommand::Other => state,
    }
}

/// One lifecycle step of the worker: its next state, and whether it keeps
/// taking commands (it stops after a shutdown).
pub fn rustraft_runtime_step(
    state: RaftNodeRuntimeState,
    command: RaftNodeRuntimeCommand,
    succeeded: bool,
) -> (r: (RaftNodeRuntimeState, bool))
    ensures
        r.0 == runtime_state_after(state, command, succeeded),
        r.1 == (command != RaftNodeRuntimeCommand::Shutdown),
{
    match command {
        RaftNodeRuntimeCommand::Start => (if succeeded { RaftNodeRuntimeState::Running } else { state }, true),
        RaftNodeRuntimeCommand::Stop => (if succeeded { RaftNodeRuntimeState::Stopped } else { state }, true),
        RaftNodeRuntimeCommand::Shutdown => (RaftNodeRuntimeState::Shutdown, false),
        RaftNodeRuntimeCommand::Other => (state, true),
    }
}

} // verus!
