//! Client-side telemetry pipeline: events are validated, stamped with a
//! deterministic session identifier, queued in memory, and drained in bounded
//! batches with retry-on-transient-failure semantics. The HTTP transport and
//! host-application glue live outside this crate; everything here is verified.

use vstd::prelude::*;

pub mod client;
pub mod config;
pub mod dispatcher;
pub mod event;
pub mod session;
pub mod sys;

use crate::config::{config_resolves, Config, InitOptions};

verus! {

/// Relies on str's PartialEq: string slices are equal exactly when their
/// character sequences are.
#[verifier::external_body]
pub(crate) fn str_eq(a: &str, b: &str) -> (r: bool)
    ensures
        r == (a@ == b@),
{
    a == b
}

/// Assembles what the embedding application hands in before the client is
/// built: the application key and the optional overrides.
pub struct Builder {
    pub app_key: String,
    pub options: InitOptions,
}

impl Builder {
    /// A builder for this application key, with default options.
    pub fn new(app_key: &str) -> (b: Self)
        ensures
            b.app_key@ == app_key@,
            b.options.host is None,
            b.options.flush_interval is None,
    {
        Builder { app_key: app_key.to_owned(), options: InitOptions::default() }
    }

    /// Replaces the options wholesale.
    pub fn with_options(self, opts: InitOptions) -> (b: Self)
        ensures
            b.app_key == self.app_key,
            b.options == opts,
    {
        Builder { app_key: self.app_key, options: opts }
    }

    /// Resolves the key and options into a configuration.
    pub fn build_config(self) -> (c: Config)
        ensures
            config_resolves(c, self.app_key@, self.options),
    {
        Config::new(self.app_key, self.options)
    }
}

} // verus!
