//! The TCP server of a shard.

use vstd::prelude::*;

verus! {

/// The name under which the TCP server of a shard appears in logs: one for
/// plain connections, another with TLS.
pub open spec fn spec_server_name(tls_enabled: bool) -> Seq<char> {
    if tls_enabled {
        "Iggy TCP TLS"@
    } else {
        "Iggy TCP"@
    }
}

/// Returns the name of the TCP server of a shard.
pub fn server_name(tls_enabled: bool) -> (name: &'static str)
    ensures
        name@ == spec_server_name(tls_enabled),
{
    if tls_enabled {
        "Iggy TCP TLS"
    } else {
        "Iggy TCP"
    }
}

} // verus!
