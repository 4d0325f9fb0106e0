//! Bookkeeping of a server run from the desktop GUI: whether it is
//! running and on which port. Starting twice is refused.
use vstd::prelude::*;

verus! {

/// Errors of the GUI's server control and discovery.
#[derive(Debug, Clone)]
pub enum AnyPlugError {
    /// A start was requested while a server is running.
    AlreadyRunning,
    /// mDNS failure, with its text.
    Mdns(String),
}

impl AnyPlugError {
    /// The display text: `server is already running` or `mDNS: <text>`.
    pub fn to_string(&self) -> (r: String)
        ensures
            self is AlreadyRunning ==> r@ == "server is already running"@,
            self matches AnyPlugError::Mdns(m) ==> r@ == "mDNS: "@ + m@,
    {
        match self {
            AnyPlugError::AlreadyRunning => "server is already running".to_owned(),
            AnyPlugError::Mdns(m) => {
                let mut s = "mDNS: ".to_owned();
                vstd::string::StringExecFns::append(&mut s, m.as_str());
                s
            },
        }
    }
}

/// Whether a server is running, and the port it was started on.
#[derive(Debug, Clone, Copy)]
pub struct ServerLifecycle {
    port: u16,
    running: bool,
}

impl ServerLifecycle {
    /// With nothing running the port is 0.
    #[verifier::type_invariant]
    spec fn idle_port_zero(self) -> bool {
        !self.running ==> self.port == 0
    }

    /// Whether a server is running.
    pub closed spec fn spec_running(&self) -> bool {
        self.running
    }

    /// The port of the running server, 0 when none runs.
    pub closed spec fn spec_port(&self) -> u16 {
        self.port
    }

    /// Nothing running, port 0.
    pub fn new() -> (s: Self)
        ensures
            !s.spec_running(),
            s.spec_port() == 0,
    {
        ServerLifecycle { port: 0, running: false }
    }

    /// Whether a server is running.
    pub fn is_running(&self) -> (r: bool)
        ensures
            r == self.spec_running(),
    {
        self.running
    }

    /// The port of the running server, 0 when none runs.
    pub fn port(&self) -> (r: u16)
        ensures
            r == self.spec_port(),
            !self.spec_running() ==> r == 0,
    {
        proof {
            use_type_invariant(self);
        }
        self.port
    }

    /// Record a start on `port`; refused while a server is running.
    pub fn start(&mut self, port: u16) -> (r: Result<(), AnyPlugError>)
        ensures
            old(self).spec_running() ==> ((r matches Err(e) && e is AlreadyRunning)
                && *final(self) == *old(self)),
            !old(self).spec_running() ==> (r is Ok && final(self).spec_running()
                && final(self).spec_port() == port),
    {
        if self.running {
            return Err(AnyPlugError::AlreadyRunning);
        }
        *self = ServerLifecycle { port, running: true };
        Ok(())
    }

    /// Record a stop; it always succeeds, and with nothing running the
    /// port reads 0.
    pub fn stop(&mut self) -> (r: Result<(), AnyPlugError>)
        ensures
            r is Ok,
            !final(self).spec_running(),
            final(self).spec_port() == 0,
    {
        *self = ServerLifecycle { port: 0, running: false };
        Ok(())
    }
}

} // verus!
