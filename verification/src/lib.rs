//! Verified core of the sourcetrait utilities: identifiers and encodings,
//! pedantic versions, path normalization, git status parsing and option rules,
//! dependency graphs of data files, and the messaging types of subsystems.
use vstd::prelude::*;

pub mod text;
pub mod base62;
pub mod pathgraph;
pub mod normalize;
pub mod penver;
pub mod nom;
pub mod nonce;
pub mod scan;
pub mod giterror;
pub mod gitstatus;
pub mod gittypes;
pub mod gitoptions;
pub mod gitcli;
pub mod gitinterface;
pub mod subsys;
pub mod sysgreen;
pub mod channel;
pub mod greensys;
pub mod osable;
pub mod stdx;
pub mod inlined;
pub mod dotrepo;
pub mod tenant;
pub mod gitlib;
pub mod gitlog;

verus! {
} // verus!
