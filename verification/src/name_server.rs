//! One name server of a pool.

use vstd::prelude::*;

use crate::config::{NameServerConfig, ResolverOpts};

verus! {

/// A name server: how it is reached, with which options, and by which provider of connections.
#[derive(Debug)]
pub struct NameServer<P, C> {
    pub config: NameServerConfig<C>,
    pub options: ResolverOpts,
    pub conn_provider: P,
}

impl<P, C> NameServer<P, C> {
    /// A name server.
    pub fn new(
        config: NameServerConfig<C>,
        options: ResolverOpts,
        conn_provider: P,
    ) -> (r: NameServer<P, C>)
        ensures
            r == (NameServer::<P, C> { config, options, conn_provider }),
    {
        NameServer { config, options, conn_provider }
    }
}

} // verus!
