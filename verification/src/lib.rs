//! Session layer of a peer-to-peer synchronisation protocol: the registry of
//! resources that two peers bind by handle, the commit/reveal handshake that
//! precedes it, and the computation of the areas both peers may reconcile.

pub mod auth;
pub mod hash;
pub mod progress;
pub mod proto;
pub mod session;
