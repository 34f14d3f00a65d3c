//! Host-side logic of the JSBSim WebAssembly harness: the byte layout of the
//! versioned ABI records, the `.jsbpack` data-pack container, the WASI
//! `fd_write` gather, the ground-query bridge, and the harness's sequencing
//! decisions.
use vstd::prelude::*;

pub mod abi;
pub mod harness;
pub mod layout;
pub mod pack;
pub mod wasi;

verus! {
}
