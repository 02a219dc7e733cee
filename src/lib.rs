//! A kernel-bypass TCP traffic generator and transparent L4 proxy, per
//! pipeline: checksums and header rewriting, the proxy-port pool, the TCP
//! state machine, the SYN injector, the layer 2 classifiers and a timer
//! wheel for idle connections.
use vstd::prelude::*;

pub mod checksum;
pub mod headers;
pub mod connection;
pub mod cmanager;
pub mod rewrite;
pub mod pipeline;
pub mod injector;
pub mod classify;
pub mod config;
pub mod timer_wheel;
pub mod wire;

verus! {

} // verus!
