//! The `gethostname` handler. The name itself comes from the operating
//! system, so nothing can be promised about its value; the handler is
//! total — it always answers.

use vstd::prelude::*;
use crate::protocol::{GetHostnameResponse, RpcError};

verus! {

/// Relies on gethostname::gethostname for the machine's hostname; the
/// value depends on the machine, so nothing is promised of it. On unix it
/// reads the uname node name, which does not fail.
#[verifier::external_body]
fn hostname_string() -> String {
    gethostname::gethostname().to_string_lossy().into_owned()
}

/// Answer `gethostname`: always succeeds, with whatever name the operating
/// system reports.
pub fn handle_get_hostname() -> (r: Result<GetHostnameResponse, RpcError>)
    ensures
        r is Ok,
{
    Ok(GetHostnameResponse { value: hostname_string() })
}

} // verus!
