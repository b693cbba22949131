//! A small client for error trackers that speak the Airbrake notifier
//! protocol, such as Errbit: it describes one error as a report, renders the
//! report as a notice document, addresses the notice to the server, and says
//! what the server's answer means.

use vstd::prelude::*;

pub mod client;
pub mod decimal;
pub mod escape;
mod host;
pub mod markup;
pub mod report;
pub mod std_specs;
pub mod structure;
pub mod xml;

pub use crate::client::{classify, ErrbitClient, Method, NotifyError, Reply, Request};
pub use crate::report::{build_report, ErrbitError, NotifierConfig};
pub use crate::xml::generate_errbit_xml;

verus! {

/// The sum of `left` and `right`, where it fits in a `u64`.
pub fn add(left: u64, right: u64) -> (sum: u64)
    requires
        left + right <= u64::MAX,
    ensures
        sum == left + right,
{
    left + right
}

} // verus!
