//! Lifecycle engine for packaged virtual-machine applications.
//!
//! The library covers the decision logic of an "app pack" runtime: which
//! snapshot a VM boots from, what is saved at teardown, how a broker counts
//! attached display clients and signals shutdown, and how the launch
//! orchestrator sequences the whole session. All I/O (sockets, processes,
//! archives, configuration files) lives outside the library; the functions
//! here work on plain values and carry verified contracts.

pub mod broker;
pub mod catalog;
pub mod command;
pub mod control;
pub mod desktop;
pub mod display;
pub mod orchestrator;
pub mod policy;
pub mod template;
pub mod text;

use vstd::prelude::*;

verus! {

/// The snapshot tag holding the packaged initial state.
pub fn tag_init() -> (s: &'static str)
    ensures
        s@ == spec_tag_init(),
{
    "appack-init"
}

/// The snapshot tag holding the most recent session state.
pub fn tag_onclose() -> (s: &'static str)
    ensures
        s@ == spec_tag_onclose(),
{
    "appack-onclose"
}

pub open spec fn spec_tag_init() -> Seq<char> {
    "appack-init"@
}

pub open spec fn spec_tag_onclose() -> Seq<char> {
    "appack-onclose"@
}

} // verus!
