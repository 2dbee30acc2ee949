//! The logic of a GitHub access helper: it resolves and ranks GitHub
//! addresses for the hosts file, plans the git configuration that routes
//! traffic through a mirror or a proxy (and the configuration that undoes
//! it), picks the fastest way of access from measured latencies, and builds
//! every command line it runs. Running commands, prompting and printing are
//! left to the caller.

use vstd::prelude::*;

pub mod text;
pub mod command;
pub mod git;
pub mod dns;
pub mod speed;
pub mod menu;
pub mod system;

verus! {
} // verus!
