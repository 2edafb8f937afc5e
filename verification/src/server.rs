use vstd::prelude::*;
use crate::config::Configuration;

verus! {

/// A server: where it listens, and the handler that answers its requests,
/// if one was installed (without one, every request is answered with
/// [`crate::response::no_handler_response`]).
pub struct Server<H> {
    config: Configuration,
    handler: Option<H>,
}

impl<H> Server<H> {
    /// The host the server listens on.
    pub closed spec fn host(&self) -> Seq<char> {
        self.config.bind_host@
    }

    /// The port the server listens on.
    pub closed spec fn port(&self) -> u32 {
        self.config.bind_port
    }

    /// The installed handler.
    pub closed spec fn installed_handler(&self) -> Option<H> {
        self.handler
    }

    /// A server with the given configuration and no handler installed.
    pub fn new(config: Configuration) -> (server: Self)
        ensures
            server.host() == config.bind_host@,
            server.port() == config.bind_port,
            server.installed_handler() is None,
    {
        Server { config, handler: None }
    }

    /// Installs `handler`, replacing any handler installed before.
    pub fn with_handler(&mut self, handler: H)
        ensures
            final(self).installed_handler() == Some(handler),
            final(self).host() == old(self).host(),
            final(self).port() == old(self).port(),
    {
        self.handler = Some(handler);
    }

    /// The configuration the server was made with.
    pub fn config(&self) -> (config: &Configuration)
        ensures
            config.bind_host@ == self.host(),
            config.bind_port == self.port(),
    {
        &self.config
    }

    /// The installed handler, if any.
    pub fn handler(&self) -> (handler: Option<&H>)
        ensures
            match self.installed_handler() {
                Some(h) => handler == Some(&h),
                None => handler is None,
            },
    {
        self.handler.as_ref()
    }
}

} // verus!
