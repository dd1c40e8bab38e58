//! Resolution of a binary's existing system path on the real host: a search
//! of the process's `PATH`, with `/usr/bin/<name>` as the fallback.
use vstd::prelude::*;
use crate::textutil::concat_str;

verus! {

/// The decision the resolver makes once the search result is in hand: the
/// found path when there is one, else `/usr/bin/<name>`.
pub fn resolve_from_lookup(lookup: Option<String>, binary_name: &str) -> (r: String)
    ensures
        match lookup {
            Some(p) => r@ == p@,
            None => r@ == "/usr/bin/"@ + binary_name@,
        },
{
    match lookup {
        Some(p) => p,
        None => concat_str("/usr/bin/", binary_name),
    }
}

/// Relies on `which::which`: searches the directories of the process's
/// `PATH` for an executable file of the given name. The result depends on
/// the host's environment and disk, so nothing is promised of it.
#[verifier::external_body]
fn which_lookup(binary_name: &str) -> (r: Option<String>) {
    match which::which(binary_name) {
        Ok(p) => p.into_os_string().into_string().ok(),
        Err(_) => None,
    }
}

/// Resolves a binary's existing system path on this host: the `PATH` hit
/// when the search finds one, else `/usr/bin/<name>`.
pub fn resolve_existing_on_host(binary_name: &str) -> (r: String) {
    resolve_from_lookup(which_lookup(binary_name), binary_name)
}

} // verus!
