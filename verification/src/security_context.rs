//! Telling the clients of a sandbox from the session's own.
use vstd::prelude::*;

verus! {

/// Whether a client arrived through a sandbox's restricted socket. `restricted` is what is known
/// of the socket it came through; a client that nothing is known of is treated as sandboxed.
pub fn client_is_sandboxed(restricted: Option<bool>) -> (r: bool)
    ensures
        r == (restricted != Some(false)),
{
    match restricted {
        Some(restricted) => restricted,
        None => true,
    }
}

/// A client that nothing is known of is treated as one of a sandbox.
pub proof fn an_unknown_client_is_sandboxed(restricted: Option<bool>, sandboxed: bool)
    requires
        call_ensures(client_is_sandboxed, (restricted,), sandboxed),
    ensures
        restricted is None ==> sandboxed,
        restricted is Some ==> sandboxed == restricted->0,
{
}

} // verus!
