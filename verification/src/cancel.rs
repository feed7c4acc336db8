//! Cancelling a running query.
//!
//! A client asks for it on a connection of its own, and names the connection
//! to cancel by its process id and secret.
use vstd::prelude::*;

use crate::session::ActiveQueryId;

verus! {

/// Maps a cancel request to the running query of the connection it names.
#[derive(Debug)]
pub struct GatewayCancelHandler;

/// What a cancel request comes to.
#[derive(Debug)]
pub enum CancelAction {
    /// No connection has this process id and secret: nothing is done.
    Unknown,
    /// The connection runs no query: nothing is done.
    Idle,
    /// Trino is asked to cancel the query with this id.
    Cancel(String),
}

/// The query that a cancel request ends, given the running query of the connection that
/// was found for it.
pub open spec fn cancelled(found: Option<Option<Seq<char>>>) -> Option<Seq<char>> {
    match found {
        Some(running) => running,
        None => None,
    }
}

impl GatewayCancelHandler {
    /// Decides on a cancel request, given the running query of the connection
    /// that was found for it. The client is told nothing of the outcome.
    pub fn on_cancel_request(&self, found: Option<&ActiveQueryId>) -> (r: CancelAction)
        ensures
            (match r {
                CancelAction::Cancel(id) => Some(id@),
                _ => None,
            }) == cancelled(
                match found {
                    Some(slot) => Some(slot@),
                    None => None,
                },
            ),
            match r {
                CancelAction::Unknown => found is None,
                CancelAction::Idle => found matches Some(slot) && slot@ is None,
                CancelAction::Cancel(id) => found matches Some(slot) && slot@ == Some(id@),
            },
    {
        match found {
            None => CancelAction::Unknown,
            Some(slot) => match &slot.id {
                None => CancelAction::Idle,
                Some(id) => CancelAction::Cancel(id.clone()),
            },
        }
    }
}

/// A cancel request ends the running query of the connection that it names and no
/// other: none where the connection is idle, and none where there is no connection.
pub proof fn only_the_running_query_is_cancelled(id: Seq<char>)
    ensures
        cancelled(Some(Some(id))) == Some(id),
        cancelled(Some(None)) is None,
        cancelled(None) is None,
{
}

} // verus!
