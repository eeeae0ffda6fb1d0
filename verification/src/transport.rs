//! The storage and transport a Raft node talks to, and a transport wrapper
//! that authenticates every request with a token before handing it on.
use vstd::prelude::*;
use vstd::string::*;
use std::marker::PhantomData;
use crate::errors::{RustRaftError, transport_error};
use crate::text::str_eq;
use crate::types::{
    RustRaftAppendEntriesRequest, RustRaftAppendEntriesResponse, RustRaftHardState, RustRaftInstallSnapshotRequest,
    RustRaftInstallSnapshotResponse, RustRaftLogEntry, RustRaftNodeId, RustRaftReadIndexRequest,
    RustRaftReadIndexResponse, RustRaftSnapshotChunk, RustRaftVoteRequest, RustRaftVoteResponse,
};

verus! {

/// Durable storage of a node's log, hard state and snapshots.
pub trait RustRaftStorage {
    fn append_entries(&mut self, entries: &[RustRaftLogEntry]) -> Result<(), RustRaftError>;

    fn read_entries(&self, start: u64, end: u64) -> Result<Vec<RustRaftLogEntry>, RustRaftError>;

    fn hard_state(&self) -> Result<RustRaftHardState, RustRaftError>;

    fn install_snapshot(&mut self, chunk: RustRaftSnapshotChunk) -> Result<(), RustRaftError>;
}

/// The RPCs a node sends to a peer. Each kind of RPC has a spec function
/// saying which results the transport may give for a request to a target;
/// unless a transport narrows it, any result is allowed.
pub trait RustRaftTransport {
    /// Whether an append request to `target` may get `result`.
    closed spec fn append_answers(
        &self,
        target: u64,
        request: RustRaftAppendEntriesRequest,
        result: Result<RustRaftAppendEntriesResponse, RustRaftError>,
    ) -> bool {
        true
    }

    /// Whether a vote request to `target` may get `result`.
    closed spec fn vote_answers(
        &self,
        target: u64,
        request: RustRaftVoteRequest,
        result: Result<RustRaftVoteResponse, RustRaftError>,
    ) -> bool {
        true
    }

    /// Whether a snapshot request to `target` may get `result`.
    closed spec fn install_snapshot_answers(
        &self,
        target: u64,
        request: RustRaftInstallSnapshotRequest,
        result: Result<RustRaftInstallSnapshotResponse, RustRaftError>,
    ) -> bool {
        true
    }

    /// Whether a read-index request to `target` may get `result`.
    closed spec fn read_index_answers(
        &self,
        target: u64,
        request: RustRaftReadIndexRequest,
        result: Result<RustRaftReadIndexResponse, RustRaftError>,
    ) -> bool {
        true
    }

    /// Sends an append request to `target`.
    fn append_entries(&self, target: u64, request: RustRaftAppendEntriesRequest) -> (r: Result<
        RustRaftAppendEntriesResponse,
        RustRaftError,
    >)
        ensures
            self.append_answers(target, request, r),
    ;

    /// Sends a vote request to `target`.
    fn vote(&self, target: u64, request: RustRaftVoteRequest) -> (r: Result<RustRaftVoteResponse, RustRaftError>)
        ensures
            self.vote_answers(target, request, r),
    ;

    /// Sends a snapshot request to `target`.
    fn install_snapshot(&self, target: u64, request: RustRaftInstallSnapshotRequest) -> (r: Result<
        RustRaftInstallSnapshotResponse,
        RustRaftError,
    >)
        ensures
            self.install_snapshot_answers(target, request, r),
    ;

    /// Sends a read-index request to `target`.
    fn read_index(&self, target: u64, request: RustRaftReadIndexRequest) -> (r: Result<
        RustRaftReadIndexResponse,
        RustRaftError,
    >)
        ensures
            self.read_index_answers(target, request, r),
    ;
}

/// Any transport.
pub trait RaftTransport: RustRaftTransport {

}

impl<T> RaftTransport for T where T: RustRaftTransport + ?Sized {

}

/// A message with the credential it travels with.
#[derive(Debug, Clone, PartialEq, Eq)]
pub struct AuthenticatedRaftRpc<M, A = String> {
    pub auth: A,
    pub message: M,
}

/// How a transport obtains and checks credentials.
pub trait RaftAuthPolicy<A = String> {
    /// Whether `auth` is accepted for requests to `target`.
    spec fn accepts(&self, target: RustRaftNodeId, auth: A) -> bool;

    /// Whether `auth` is a credential the policy hands out for `target`.
    spec fn issues(&self, target: RustRaftNodeId, auth: A) -> bool;

    fn token_for(&self, target: RustRaftNodeId) -> (r: A)
        ensures
            self.issues(target, r),
    ;

    fn validate(&self, target: RustRaftNodeId, auth: &A) -> (r: Result<(), RustRaftError>)
        ensures
            r is Ok <==> self.accepts(target, *auth),
    ;
}

/// One shared token for every peer.
#[derive(Debug, Clone, PartialEq, Eq)]
pub struct StaticRaftAuthToken {
    pub token: String,
}

impl StaticRaftAuthToken {
    /// A policy with the token `token`.
    pub fn new(token: String) -> (r: Self)
        ensures
            r.token@ == token@,
    {
        StaticRaftAuthToken { token }
    }
}

impl RaftAuthPolicy<String> for StaticRaftAuthToken {
    /// Exactly the token is accepted, whatever the peer.
    open spec fn accepts(&self, target: RustRaftNodeId, auth: String) -> bool {
        auth@ == self.token@
    }

    /// The token is handed out for every peer.
    open spec fn issues(&self, target: RustRaftNodeId, auth: String) -> bool {
        auth@ == self.token@
    }

    /// The token, whatever the peer.
    fn token_for(&self, target: RustRaftNodeId) -> (r: String)
        ensures
            r@ == self.token@,
    {
        self.token.clone()
    }

    /// Accepts exactly the token; anything else is a transport error.
    fn validate(&self, target: RustRaftNodeId, auth: &String) -> (r: Result<(), RustRaftError>)
        ensures
            r is Err ==> (r matches Err(RustRaftError::Transport(m)) && m@ == "raft transport authentication failed"@),
    {
        if str_eq(auth.as_str(), self.token.as_str()) {
            Ok(())
        } else {
            Err(transport_error("raft transport authentication failed"))
        }
    }
}

/// A transport that checks each request's credential with a policy before
/// handing the message to the transport it wraps.
#[derive(Debug)]
pub struct AuthenticatedRaftTransport<T, A = String, P = StaticRaftAuthToken> {
    inner: T,
    policy: P,
    auth: PhantomData<A>,
}

impl<T, A, P> AuthenticatedRaftTransport<T, A, P> where P: RaftAuthPolicy<A> {
    /// The wrapped transport.
    pub closed spec fn wrapped(&self) -> T {
        self.inner
    }

    /// The policy.
    pub closed spec fn auth_policy(&self) -> P {
        self.policy
    }

    /// Wraps `inner`, checking credentials with `policy`.
    pub fn new(inner: T, policy: P) -> (r: Self)
        ensures
            r.wrapped() == inner,
            r.auth_policy() == policy,
    {
        AuthenticatedRaftTransport { inner, policy, auth: PhantomData }
    }

    /// The wrapped transport.
    pub fn inner(&self) -> (r: &T)
        ensures
            *r == self.wrapped(),
    {
        &self.inner
    }

    /// The wrapped transport, giving up the wrapper.
    pub fn into_inner(self) -> (r: T)
        ensures
            r == self.wrapped(),
    {
        self.inner
    }

    /// `message` with the credential the policy gives for `target`.
    pub fn wrap_request<M>(&self, target: RustRaftNodeId, message: M) -> (r: AuthenticatedRaftRpc<M, A>)
        ensures
            r.message == message,
            self.auth_policy().issues(target, r.auth),
    {
        AuthenticatedRaftRpc { auth: self.policy.token_for(target), message }
    }
}

impl<T, A, P> AuthenticatedRaftTransport<T, A, P> where T: RustRaftTransport, P: RaftAuthPolicy<A> {
    /// Sends an append request whose credential the policy accepts; refused
    /// with the policy's error otherwise.
    pub fn append_entries_authenticated(
        &self,
        target: RustRaftNodeId,
        request: AuthenticatedRaftRpc<RustRaftAppendEntriesRequest, A>,
    ) -> (r: Result<RustRaftAppendEntriesResponse, RustRaftError>)
        ensures
            !self.auth_policy().accepts(target, request.auth) ==> r is Err,
            self.auth_policy().accepts(target, request.auth) ==> self.wrapped().append_answers(target, request.message, r),
    {
        match self.policy.validate(target, &request.auth) {
            Err(e) => Err(e),
            Ok(()) => self.inner.append_entries(target, request.message),
        }
    }

    /// Sends a vote request whose credential the policy accepts; refused
    /// with the policy's error otherwise.
    pub fn vote_authenticated(&self, target: RustRaftNodeId, request: AuthenticatedRaftRpc<RustRaftVoteRequest, A>) -> (r:
        Result<RustRaftVoteResponse, RustRaftError>)
        ensures
            !self.auth_policy().accepts(target, request.auth) ==> r is Err,
            self.auth_policy().accepts(target, request.auth) ==> self.wrapped().vote_answers(target, request.message, r),
    {
        match self.policy.validate(target, &request.auth) {
            Err(e) => Err(e),
            Ok(()) => self.inner.vote(target, request.message),
        }
    }

    /// Sends a snapshot request whose credential the policy accepts; refused
    /// with the policy's error otherwise.
    pub fn install_snapshot_authenticated(
        &self,
        target: RustRaftNodeId,
        request: AuthenticatedRaftRpc<RustRaftInstallSnapshotRequest, A>,
    ) -> (r: Result<RustRaftInstallSnapshotResponse, RustRaftError>)
        ensures
            !self.auth_policy().accepts(target, request.auth) ==> r is Err,
            self.auth_policy().accepts(target, request.auth) ==> self.wrapped().install_snapshot_answers(target, request.message, r),
    {
        match self.policy.validate(target, &request.auth) {
            Err(e) => Err(e),
            Ok(()) => self.inner.install_snapshot(target, request.message),
        }
    }

    /// Sends a read-index request whose credential the policy accepts;
    /// refused with the policy's error otherwise.
    pub fn read_index_authenticated(
        &self,
        target: RustRaftNodeId,
        request: AuthenticatedRaftRpc<RustRaftReadIndexRequest, A>,
    ) -> (r: Result<RustRaftReadIndexResponse, RustRaftError>)
        ensures
            !self.auth_policy().accepts(target, request.auth) ==> r is Err,
            self.auth_policy().accepts(target, request.auth) ==> self.wrapped().read_index_answers(target, request.message, r),
    {
        match self.policy.validate(target, &request.auth) {
            Err(e) => Err(e),
            Ok(()) => self.inner.read_index(target, request.message),
        }
    }
}

impl<T, A, P> RustRaftTransport for AuthenticatedRaftTransport<T, A, P> where T: RustRaftTransport, P: RaftAuthPolicy<A> {
    /// What the wrapped transport may answer.
    open spec fn append_answers(
        &self,
        target: u64,
        request: RustRaftAppendEntriesRequest,
        result: Result<RustRaftAppendEntriesResponse, RustRaftError>,
    ) -> bool {
        self.wrapped().append_answers(target, request, result)
    }

    /// What the wrapped transport may answer.
    open spec fn vote_answers(
        &self,
        target: u64,
        request: RustRaftVoteRequest,
        result: Result<RustRaftVoteResponse, RustRaftError>,
    ) -> bool {
        self.wrapped().vote_answers(target, request, result)
    }

    /// What the wrapped transport may answer.
    open spec fn install_snapshot_answers(
        &self,
        target: u64,
        request: RustRaftInstallSnapshotRequest,
        result: Result<RustRaftInstallSnapshotResponse, RustRaftError>,
    ) -> bool {
        self.wrapped().install_snapshot_answers(target, request, result)
    }

    /// What the wrapped transport may answer.
    open spec fn read_index_answers(
        &self,
        target: u64,
        request: RustRaftReadIndexRequest,
        result: Result<RustRaftReadIndexResponse, RustRaftError>,
    ) -> bool {
        self.wrapped().read_index_answers(target, request, result)
    }

    fn append_entries(&self, target: u64, request: RustRaftAppendEntriesRequest) -> (r: Result<
        RustRaftAppendEntriesResponse,
        RustRaftError,
    >) {
        self.inner.append_entries(target, request)
    }

    fn vote(&self, target: u64, request: RustRaftVoteRequest) -> (r: Result<RustRaftVoteResponse, RustRaftError>) {
        self.inner.vote(target, request)
    }

    fn install_snapshot(&self, target: u64, request: RustRaftInstallSnapshotRequest) -> (r: Result<
        RustRaftInstallSnapshotResponse,
        RustRaftError,
    >) {
        self.inner.install_snapshot(target, request)
    }

    fn read_index(&self, target: u64, request: RustRaftReadIndexRequest) -> (r: Result<
        RustRaftReadIndexResponse,
        RustRaftError,
    >) {
        self.inner.read_index(target, request)
    }
}

} // verus!
