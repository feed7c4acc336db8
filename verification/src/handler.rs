//! The set of handlers that serve a connection.
use std::sync::Arc;

use vstd::prelude::*;

use crate::cancel::GatewayCancelHandler;
use crate::query_extended::GatewayExtendedQueryHandler;
use crate::query_simple::GatewayQueryHandler;
use crate::startup::GatewayStartupHandler;

verus! {

/// The handlers for each part of the protocol.
pub struct GatewayHandlerFactory {
    pub startup: Arc<GatewayStartupHandler>,
    pub query: Arc<GatewayQueryHandler>,
    pub extended_query: Arc<GatewayExtendedQueryHandler>,
    pub cancel: Arc<GatewayCancelHandler>,
}

impl GatewayHandlerFactory {
    /// A factory with the given handlers.
    pub fn new(
        startup: Arc<GatewayStartupHandler>,
        query: Arc<GatewayQueryHandler>,
        extended_query: Arc<GatewayExtendedQueryHandler>,
    ) -> (r: Self)
        ensures
            r.startup == startup,
            r.query == query,
            r.extended_query == extended_query,
    {
        GatewayHandlerFactory { startup, query, extended_query, cancel: Arc::new(GatewayCancelHandler) }
    }
}

} // verus!
