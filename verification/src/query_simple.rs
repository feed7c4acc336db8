//! The simple query protocol.
use vstd::prelude::*;

use crate::query_pipeline;
use crate::query_pipeline::{Batch, BatchState};
use crate::trino_stream::Format;

verus! {

/// Handles the simple query protocol.
#[derive(Debug)]
pub struct GatewayQueryHandler;

impl GatewayQueryHandler {
    /// Begins a query: its statements are run in turn, and each is replied to.
    pub fn do_query<R, E>(&self, query: &str) -> (r: Batch<R, E>)
        ensures
            r.wf(),
            r.statements() == query_pipeline::pieces(query@),
            r.state() == (BatchState::<R, E> {
                count: query_pipeline::pieces(query@).len() as int,
                position: 0,
                replies: Seq::empty(),
                failure: None,
            }),
    {
        Batch::process_query(query)
    }

    /// The format of results. This protocol never negotiates one per column, so
    /// every column is text.
    pub fn result_format(&self) -> (r: Option<Format>)
        ensures
            r is None,
    {
        None
    }
}

} // verus!
