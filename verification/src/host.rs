//! The name of the machine that the library runs on.

use vstd::prelude::*;

verus! {

/// Asks the operating system for this machine's name, through
/// `hostname::get`. The name depends on the machine and on the moment, so
/// nothing is claimed of it: it may be any text, and `None` stands for a
/// lookup that failed. Bytes of the name that are not UTF-8 come out as the
/// replacement character.
#[verifier::external_body]
pub(crate) fn local_hostname() -> (name: Option<String>) {
    match hostname::get() {
        Ok(name) => Some(name.to_string_lossy().into_owned()),
        Err(_) => None,
    }
}

} // verus!
