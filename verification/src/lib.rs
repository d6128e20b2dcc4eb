//! Verified core of a streaming code-generation pipeline.
//!
//! A client submits a text prompt, a relay forwards it to a generative
//! backend, and the backend's token-by-token output is pushed back to the
//! client as line-delimited events.  The client reassembles the stream into a
//! source artifact, derives a dependency manifest from the artifact text, and
//! finally interprets the outcome of a build subprocess.  Everything that
//! decides or computes lives here with a contract; network and process I/O
//! stay outside.

pub mod artifact;
pub mod client;
pub mod event;
pub mod fault;
pub mod gateway;
pub mod manifest;
pub mod orchestrator;
pub mod phase;
pub mod relay;

use vstd::prelude::*;

verus! {

} // verus!
