//! What is offered to a remote that asks who is fetching.

use vstd::prelude::*;

verus! {

/// How the user is to be made known to the remote.
#[derive(Clone, Copy, Debug, PartialEq, Eq, Structural)]
pub enum Credential {
    /// By what the system provides without being asked.
    Default,
    /// By the user's name alone.
    Username,
    /// By a key that the secure-shell agent holds for the user.
    SshAgent,
    /// By what the configured credential helper hands out for the URL.
    Helper,
}

/// The credential to offer, by what the remote accepts: the first that it
/// allows of the default, the user's name and a key from the agent, and the
/// credential helper where it allows none of them.
pub fn choose_credential(default: bool, username: bool, ssh_key: bool) -> (c: Credential)
    ensures
        c == (if default {
            Credential::Default
        } else if username {
            Credential::Username
        } else if ssh_key {
            Credential::SshAgent
        } else {
            Credential::Helper
        }),
{
    if default {
        Credential::Default
    } else if username {
        Credential::Username
    } else if ssh_key {
        Credential::SshAgent
    } else {
        Credential::Helper
    }
}

} // verus!
