//! Authentication related types and tooling.

use std::ops::Deref;
use std::sync::Arc;
use vstd::prelude::*;

verus! {

/// The error code sent when aborting due to authentication errors.
pub const REJECTED_CODE: u32 = 10;

/// A token that accompanies a request.
#[derive(Debug, Clone)]
pub struct Token {
    /// UUID
    pub id: [u8; 16],
    /// The secret, or all zeros if there is none.
    pub secret: [u8; 32],
}

/// What is asked for by a request for blobs.
#[derive(Debug, Clone)]
pub enum BytesRequestData {
    /// The blob with the given hash.
    Get {
        /// The hash of the blob.
        hash: crate::hash::Hash,
    },
}

/// What a request asks for.
#[derive(Debug, Clone)]
pub enum RequestData {
    /// To join a gossip topic.
    Gossip {
        /// Topic ID (raw because of dependencies)
        topic: [u8; 32],
    },
    /// To get blobs.
    Bytes(BytesRequestData),
    /// To synchronise a namespace.
    Sync {
        /// Namespace ID (raw, because of dependencies)
        namespace: [u8; 32],
    },
}

/// A request that an authenticator is consulted about.
#[derive(Debug, Clone)]
pub struct Request {
    /// The number of the request.
    pub id: u64,
    /// What the request asks for.
    pub data: RequestData,
}

/// The answer to an incoming request.
#[derive(Debug, Clone, Copy, PartialEq, Eq, Structural)]
pub enum AcceptOutcome {
    /// The request is honoured.
    Accept,
    /// The request is turned down.
    Reject,
}

/// The two questions that are put to an authenticator.
pub trait DynAuthenticator: Sync + Send + std::fmt::Debug + 'static {
    /// The token to send with an outgoing request, if any.
    fn request(&self, request: Request) -> Option<Token>;

    /// Whether to honour an incoming request that came with `token`.
    fn respond(&self, request: Request, token: &Option<Token>) -> AcceptOutcome;
}

/// A minimal authenticator that does nothing.
#[derive(Debug, Clone)]
pub struct NoAuthenticator;

impl DynAuthenticator for NoAuthenticator {
    /// Never issues a token.
    fn request(&self, _request: Request) -> (token: Option<Token>)
        ensures
            token is None,
    {
        None
    }

    /// Accepts every request.
    fn respond(&self, _request: Request, _token: &Option<Token>) -> (outcome: AcceptOutcome)
        ensures
            outcome == AcceptOutcome::Accept,
    {
        AcceptOutcome::Accept
    }
}

/// An authenticator that is shared by those who consult it.
#[derive(Debug)]
pub struct Authenticator<A: DynAuthenticator = NoAuthenticator>(Arc<A>);

impl<A: DynAuthenticator> View for Authenticator<A> {
    type V = A;

    /// The authenticator that is shared.
    closed spec fn view(&self) -> A {
        *self.0
    }
}

impl<A: DynAuthenticator> Clone for Authenticator<A> {
    /// Another share of the same authenticator.
    fn clone(&self) -> (other: Self)
        ensures
            other@ == self@,
    {
        Authenticator(self.0.clone())
    }
}

impl<A: DynAuthenticator> Deref for Authenticator<A> {
    type Target = A;

    fn deref(&self) -> (inner: &A)
        ensures
            *inner == self@,
    {
        &*self.0
    }
}

impl<A: DynAuthenticator> From<A> for Authenticator<A> {
    fn from(a: A) -> (shared: Self)
        ensures
            shared@ == a,
    {
        Authenticator(Arc::new(a))
    }
}

impl<A: DynAuthenticator> vstd::std_specs::convert::FromSpecImpl<A> for Authenticator<A> {
    open spec fn obeys_from_spec() -> bool {
        true
    }

    closed spec fn from_spec(a: A) -> Self {
        Authenticator(Arc::new(a))
    }
}

} // verus!
