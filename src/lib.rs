//! A TCP port scanner's engine: how the port space is split among workers,
//! what each worker decides after a probe, how the coordinator collects and
//! orders what was found, and how the command line is read.
//!
//! The probes themselves (TCP connections), the threads and the printing are
//! left to the caller; every decision around them is verified here.
use vstd::prelude::*;

pub mod partition;
pub mod report;
pub mod args;
pub mod scan;

verus! {

} // verus!
