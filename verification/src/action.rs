use vstd::prelude::*;

verus! {

/// Actions that can be taken on the client in response to an error.
#[derive(Debug, Copy, Clone, PartialEq, Eq, Structural)]
pub enum ClientAction {
    /// Perform no client action, silently ignoring the error.
    IgnoreError,
    /// Shut down the client, causing all outstanding and future queries to receive a websocket
    /// error.
    Shutdown,
}

impl Default for ClientAction {
    /// The default action ignores the error.
    fn default() -> (action: ClientAction)
        ensures
            action == ClientAction::IgnoreError,
    {
        ClientAction::IgnoreError
    }
}

} // verus!
