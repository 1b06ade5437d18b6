//! The life of the usage API server: it is started once, and stopped by telling
//! it to shut down and waiting for it.
//!
//! The caller runs the server. `H` is what it waits for the server with, `T`
//! what it tells it to shut down with.

use crate::text::{join2, join3};
use vstd::prelude::*;

verus! {

/// Where the usage API listens.
pub const USAGE_API_ADDR: &'static str = "127.0.0.1:15722";

/// The path of the list of providers.
pub const PROVIDERS_PATH: &'static str = "/providers";

/// The server, if it runs.
#[derive(Debug)]
pub struct ServerState<H, T> {
    handle: Option<H>,
    shutdown_tx: Option<T>,
}

/// What is to be done to start the server.
#[derive(Debug, Clone, Copy, PartialEq, Eq, Structural)]
pub enum StartStep {
    /// Nothing: it runs already.
    AlreadyRunning,
    /// Listen at the address of the API.
    Bind,
}

impl<H, T> ServerState<H, T> {
    /// The server that runs, if there is one.
    pub closed spec fn running(self) -> Option<(H, T)> {
        match (self.handle, self.shutdown_tx) {
            (Some(handle), Some(shutdown_tx)) => Some((handle, shutdown_tx)),
            _ => None,
        }
    }

    /// There is something to wait for just when there is something to tell.
    pub closed spec fn wf(self) -> bool {
        self.handle is Some <==> self.shutdown_tx is Some
    }

    /// What is to be done to start the server. Once it listens, `started` is
    /// called.
    pub fn start_usage_api_server(&self) -> (step: StartStep)
        requires
            self.wf(),
        ensures
            step == if self.running() is Some {
                StartStep::AlreadyRunning
            } else {
                StartStep::Bind
            },
    {
        if self.handle.is_some() {
            StartStep::AlreadyRunning
        } else {
            StartStep::Bind
        }
    }

    /// The server runs.
    pub fn started(&mut self, handle: H, shutdown_tx: T)
        ensures
            final(self).wf(),
            final(self).running() == Some((handle, shutdown_tx)),
    {
        self.handle = Some(handle);
        self.shutdown_tx = Some(shutdown_tx);
    }

    /// Stops the server: the caller tells the first to shut down, if there is
    /// one, and waits for the second.
    pub fn stop_usage_api_server(&mut self) -> (stopped: (Option<T>, Option<H>))
        requires
            old(self).wf(),
        ensures
            final(self).wf(),
            final(self).running() is None,
            stopped == match old(self).running() {
                Some((handle, shutdown_tx)) => (Some(shutdown_tx), Some(handle)),
                None => (None::<T>, None::<H>),
            },
    {
        let shutdown_tx = self.shutdown_tx.take();
        let handle = self.handle.take();
        (shutdown_tx, handle)
    }
}

impl<H, T> Default for ServerState<H, T> {
    fn default() -> (state: Self)
        ensures
            state.wf(),
            state.running() is None,
    {
        ServerState { handle: None, shutdown_tx: None }
    }
}

/// Why the server could not be started.
pub fn bind_failure(error: &str) -> (text: String)
    ensures
        text@ == "Failed to bind to "@ + USAGE_API_ADDR@ + ": "@ + error@,
{
    join2(join3("Failed to bind to ", USAGE_API_ADDR, ": ").as_str(), error)
}

/// The server runs just when there is something to wait for and something to tell,
/// and these are what the caller gave.
proof fn running_server_is_what_was_given<H, T>(state: ServerState<H, T>)
    ensures
        state.wf() && state.running() is None ==> state.handle is None && state.shutdown_tx is None,
        state.running() matches Some((handle, shutdown_tx)) ==> state.handle == Some(handle)
            && state.shutdown_tx == Some(shutdown_tx),
{
}

/// Where the usage API is found.
pub proof fn usage_api_is_found()
    ensures
        USAGE_API_ADDR@ == "127.0.0.1:15722"@,
        PROVIDERS_PATH@ == "/providers"@,
{
}

} // verus!
