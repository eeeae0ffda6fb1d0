//! Error types and the validated timing/capacity configuration.
use vstd::prelude::*;
use vstd::string::*;
use crate::text::{decimal_chars, u64_to_decimal};
use crate::types::{RustRaftGroupId, RustRaftNodeId, RustRaftPeer, RustRaftReplicaRole};

verus! {

/// Errors of the library. The string carried by a variant is a human readable
/// description.
#[derive(Debug, Clone, PartialEq, Eq)]
pub enum RustRaftError {
    Config(String),
    NodeNotFound(RustRaftNodeId),
    NoLeader,
    NotLeader(RustRaftNodeId),
    InvalidRequest(String),
    Transport(String),
    Storage(String),
}

pub type RaftError = RustRaftError;

/// A library error as a plain value.
pub enum ErrorModel {
    Config(Seq<char>),
    NodeNotFound(u64),
    NoLeader,
    NotLeader(u64),
    InvalidRequest(Seq<char>),
    Transport(Seq<char>),
    Storage(Seq<char>),
}

impl RustRaftError {
    /// This error as a plain value.
    pub open spec fn model(self) -> ErrorModel {
        match self {
            RustRaftError::Config(s) => ErrorModel::Config(s@),
            RustRaftError::NodeNotFound(id) => ErrorModel::NodeNotFound(id),
            RustRaftError::NoLeader => ErrorModel::NoLeader,
            RustRaftError::NotLeader(id) => ErrorModel::NotLeader(id),
            RustRaftError::InvalidRequest(s) => ErrorModel::InvalidRequest(s@),
            RustRaftError::Transport(s) => ErrorModel::Transport(s@),
            RustRaftError::Storage(s) => ErrorModel::Storage(s@),
        }
    }
}

/// The human readable text of an error.
pub open spec fn error_text(e: ErrorModel) -> Seq<char> {
    match e {
        ErrorModel::Config(s) => "configuration error: "@ + s,
        ErrorModel::NodeNotFound(id) => "node "@ + decimal_chars(id as nat) + " not found"@,
        ErrorModel::NoLeader => "no leader is available"@,
        ErrorModel::NotLeader(id) => "node "@ + decimal_chars(id as nat) + " is not the leader"@,
        ErrorModel::InvalidRequest(s) => "invalid request: "@ + s,
        ErrorModel::Transport(s) => "transport error: "@ + s,
        ErrorModel::Storage(s) => "storage error: "@ + s,
    }
}

impl RustRaftError {
    /// The human readable text of this error.
    pub fn to_string(&self) -> (r: String)
        ensures
            r@ == error_text(self.model()),
    {
        match self {
            RustRaftError::Config(s) => String::from_str("configuration error: ").concat(s.as_str()),
            RustRaftError::NodeNotFound(id) => String::from_str("node ").concat(u64_to_decimal(*id).as_str()).concat(
                " not found",
            ),
            RustRaftError::NoLeader => String::from_str("no leader is available"),
            RustRaftError::NotLeader(id) => String::from_str("node ").concat(u64_to_decimal(*id).as_str()).concat(
                " is not the leader",
            ),
            RustRaftError::InvalidRequest(s) => String::from_str("invalid request: ").concat(s.as_str()),
            RustRaftError::Transport(s) => String::from_str("transport error: ").concat(s.as_str()),
            RustRaftError::Storage(s) => String::from_str("storage error: ").concat(s.as_str()),
        }
    }
}

/// `r` failed with the error `e`.
pub open spec fn fails_with<T>(r: Result<T, RustRaftError>, e: ErrorModel) -> bool {
    r matches Err(x) && x.model() == e
}

/// A way in which a `RustRaftConfig` is invalid.
#[derive(Debug, Clone, Copy, PartialEq, Eq, Structural)]
pub enum RaftConfigError {
    ZeroElectionTimeout,
    ZeroHeartbeatInterval,
    ZeroLeaderLease,
    HeartbeatNotLessThanElection { heartbeat_interval_ms: u64, election_timeout_ms: u64 },
    LeaseNotLessThanElection { leader_lease_ms: u64, election_timeout_ms: u64 },
    ZeroMaxPayloadBytes,
    ZeroSnapshotThreshold,
    ZeroMaxSegmentBytes,
}

/// The human readable description of a configuration error.
pub open spec fn config_error_message(e: RaftConfigError) -> Seq<char> {
    match e {
        RaftConfigError::ZeroElectionTimeout => "election_timeout_ms must be greater than zero"@,
        RaftConfigError::ZeroHeartbeatInterval => "heartbeat_interval_ms must be greater than zero"@,
        RaftConfigError::ZeroLeaderLease => "leader_lease_ms must be greater than zero"@,
        RaftConfigError::HeartbeatNotLessThanElection { heartbeat_interval_ms, election_timeout_ms } =>
            "heartbeat_interval_ms ("@ + decimal_chars(heartbeat_interval_ms as nat)
                + ") must be less than election_timeout_ms ("@ + decimal_chars(election_timeout_ms as nat)
                + ")"@,
        RaftConfigError::LeaseNotLessThanElection { leader_lease_ms, election_timeout_ms } =>
            "leader_lease_ms ("@ + decimal_chars(leader_lease_ms as nat)
                + ") must be less than election_timeout_ms ("@ + decimal_chars(election_timeout_ms as nat)
                + ")"@,
        RaftConfigError::ZeroMaxPayloadBytes => "max_payload_bytes must be greater than zero"@,
        RaftConfigError::ZeroSnapshotThreshold => "snapshot_threshold_entries must be greater than zero"@,
        RaftConfigError::ZeroMaxSegmentBytes => "max_segment_bytes must be greater than zero"@,
    }
}

impl RaftConfigError {
    /// The human readable description of this error.
    pub fn message(&self) -> (s: String)
        ensures
            s@ == config_error_message(*self),
    {
        match *self {
            RaftConfigError::ZeroElectionTimeout => String::from_str("election_timeout_ms must be greater than zero"),
            RaftConfigError::ZeroHeartbeatInterval => String::from_str("heartbeat_interval_ms must be greater than zero"),
            RaftConfigError::ZeroLeaderLease => String::from_str("leader_lease_ms must be greater than zero"),
            RaftConfigError::HeartbeatNotLessThanElection { heartbeat_interval_ms, election_timeout_ms } => {
                let s = String::from_str("heartbeat_interval_ms (");
                let s = s.concat(u64_to_decimal(heartbeat_interval_ms).as_str());
                let s = s.concat(") must be less than election_timeout_ms (");
                let s = s.concat(u64_to_decimal(election_timeout_ms).as_str());
                s.concat(")")
            },
            RaftConfigError::LeaseNotLessThanElection { leader_lease_ms, election_timeout_ms } => {
                let s = String::from_str("leader_lease_ms (");
                let s = s.concat(u64_to_decimal(leader_lease_ms).as_str());
                let s = s.concat(") must be less than election_timeout_ms (");
                let s = s.concat(u64_to_decimal(election_timeout_ms).as_str());
                s.concat(")")
            },
            RaftConfigError::ZeroMaxPayloadBytes => String::from_str("max_payload_bytes must be greater than zero"),
            RaftConfigError::ZeroSnapshotThreshold => String::from_str("snapshot_threshold_entries must be greater than zero"),
            RaftConfigError::ZeroMaxSegmentBytes => String::from_str("max_segment_bytes must be greater than zero"),
        }
    }
}

impl From<RaftConfigError> for RustRaftError {
    fn from(error: RaftConfigError) -> (r: Self) {
        RustRaftError::Config(error.message())
    }
}

impl vstd::std_specs::convert::FromSpecImpl<RaftConfigError> for RustRaftError {
    open spec fn obeys_from_spec() -> bool {
        false
    }

    open spec fn from_spec(v: RaftConfigError) -> Self {
        RustRaftError::NoLeader
    }
}

/// Maps a configuration error to the library error carrying its description.
pub fn config_error_to_raft_error(error: RaftConfigError) -> (r: RustRaftError)
    ensures
        r matches RustRaftError::Config(s) && s@ == config_error_message(error),
{
    RustRaftError::Config(error.message())
}

/// Timing and capacity configuration of a Raft group.
#[derive(Debug, Clone, Copy, PartialEq, Eq, Structural)]
pub struct RustRaftConfig {
    pub election_timeout_ms: u64,
    pub heartbeat_interval_ms: u64,
    pub leader_lease_ms: u64,
    pub max_payload_bytes: u64,
    pub snapshot_threshold_entries: u64,
    pub max_segment_bytes: u64,
    pub min_keep_segment_num: u64,
    pub enable_pre_vote: bool,
    pub enable_lease_read: bool,
}

pub type RaftConfig = RustRaftConfig;

impl Default for RustRaftConfig {
    fn default() -> (r: Self)
        ensures
            r == default_raft_config(),
    {
        RustRaftConfig {
            election_timeout_ms: 1_000,
            heartbeat_interval_ms: 100,
            leader_lease_ms: 500,
            max_payload_bytes: 8 * 1024 * 1024,
            snapshot_threshold_entries: 10_000,
            max_segment_bytes: 64 * 1024 * 1024,
            min_keep_segment_num: 2,
            enable_pre_vote: true,
            enable_lease_read: true,
        }
    }
}

/// The default configuration.
pub open spec fn default_raft_config() -> RustRaftConfig {
    RustRaftConfig {
        election_timeout_ms: 1_000,
        heartbeat_interval_ms: 100,
        leader_lease_ms: 500,
        max_payload_bytes: 8_388_608,
        snapshot_threshold_entries: 10_000,
        max_segment_bytes: 67_108_864,
        min_keep_segment_num: 2,
        enable_pre_vote: true,
        enable_lease_read: true,
    }
}

/// The first rule a configuration breaks, checked in a fixed order.
pub open spec fn config_first_error(c: RustRaftConfig) -> Option<RaftConfigError> {
    if c.election_timeout_ms == 0 {
        Some(RaftConfigError::ZeroElectionTimeout)
    } else if c.heartbeat_interval_ms == 0 {
        Some(RaftConfigError::ZeroHeartbeatInterval)
    } else if c.leader_lease_ms == 0 {
        Some(RaftConfigError::ZeroLeaderLease)
    } else if c.heartbeat_interval_ms >= c.election_timeout_ms {
        Some(RaftConfigError::HeartbeatNotLessThanElection {
            heartbeat_interval_ms: c.heartbeat_interval_ms,
            election_timeout_ms: c.election_timeout_ms,
        })
    } else if c.leader_lease_ms >= c.election_timeout_ms {
        Some(RaftConfigError::LeaseNotLessThanElection {
            leader_lease_ms: c.leader_lease_ms,
            election_timeout_ms: c.election_timeout_ms,
        })
    } else if c.max_payload_bytes == 0 {
        Some(RaftConfigError::ZeroMaxPayloadBytes)
    } else if c.snapshot_threshold_entries == 0 {
        Some(RaftConfigError::ZeroSnapshotThreshold)
    } else if c.max_segment_bytes == 0 {
        Some(RaftConfigError::ZeroMaxSegmentBytes)
    } else {
        None
    }
}

/// A configuration is valid when every timeout is positive, heartbeats and
/// leases are shorter than the election timeout and every capacity is positive.
pub open spec fn config_valid(c: RustRaftConfig) -> bool {
    &&& c.election_timeout_ms > 0
    &&& c.heartbeat_interval_ms > 0
    &&& c.leader_lease_ms > 0
    &&& c.heartbeat_interval_ms < c.election_timeout_ms
    &&& c.leader_lease_ms < c.election_timeout_ms
    &&& c.max_payload_bytes > 0
    &&& c.snapshot_threshold_entries > 0
    &&& c.max_segment_bytes > 0
}

impl RustRaftConfig {
    /// Checks the configuration, reporting the first rule it breaks.
    pub fn validate(&self) -> (r: Result<(), RaftConfigError>)
        ensures
            match config_first_error(*self) {
                None => r is Ok,
                Some(e) => r == Err::<(), RaftConfigError>(e),
            },
            r is Ok <==> config_valid(*self),
    {
        if self.election_timeout_ms == 0 {
            return Err(RaftConfigError::ZeroElectionTimeout);
        }
        if self.heartbeat_interval_ms == 0 {
            return Err(RaftConfigError::ZeroHeartbeatInterval);
        }
        if self.leader_lease_ms == 0 {
            return Err(RaftConfigError::ZeroLeaderLease);
        }
        if self.heartbeat_interval_ms >= self.election_timeout_ms {
            return Err(RaftConfigError::HeartbeatNotLessThanElection {
                heartbeat_interval_ms: self.heartbeat_interval_ms,
                election_timeout_ms: self.election_timeout_ms,
            });
        }
        if self.leader_lease_ms >= self.election_timeout_ms {
            return Err(RaftConfigError::LeaseNotLessThanElection {
                leader_lease_ms: self.leader_lease_ms,
                election_timeout_ms: self.election_timeout_ms,
            });
        }
        if self.max_payload_bytes == 0 {
            return Err(RaftConfigError::ZeroMaxPayloadBytes);
        }
        if self.snapshot_threshold_entries == 0 {
            return Err(RaftConfigError::ZeroSnapshotThreshold);
        }
        if self.max_segment_bytes == 0 {
            return Err(RaftConfigError::ZeroMaxSegmentBytes);
        }
        Ok(())
    }
}

/// Options that create one node of a group.
#[derive(Debug, Clone, PartialEq, Eq)]
pub struct RustRaftNodeOptions {
    pub group_id: RustRaftGroupId,
    pub node_id: RustRaftNodeId,
    pub raft_addr: String,
    pub snapshot_addr: String,
    pub wal_dir: String,
    pub snapshot_dir: String,
    pub role: RustRaftReplicaRole,
    pub config: RustRaftConfig,
    pub peers: Vec<RustRaftPeer>,
}

/// Builds an `InvalidRequest` error from a message.
pub fn invalid_request(msg: &str) -> (e: RustRaftError)
    ensures
        e matches RustRaftError::InvalidRequest(s) && s@ == msg@,
{
    RustRaftError::InvalidRequest(String::from_str(msg))
}

/// Builds a `Storage` error from a message.
pub fn storage_error(msg: &str) -> (e: RustRaftError)
    ensures
        e matches RustRaftError::Storage(s) && s@ == msg@,
{
    RustRaftError::Storage(String::from_str(msg))
}

/// Builds a `Transport` error from a message.
pub fn transport_error(msg: &str) -> (e: RustRaftError)
    ensures
        e matches RustRaftError::Transport(s) && s@ == msg@,
{
    RustRaftError::Transport(String::from_str(msg))
}

} // verus!
