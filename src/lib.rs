use vstd::prelude::*;

pub mod config;
pub mod icmp;
pub mod ip;
pub mod socket;
pub mod statistics;
pub mod util;

verus! {

} // verus!
