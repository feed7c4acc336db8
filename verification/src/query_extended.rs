//! The extended query protocol.
//!
//! A client parses a statement, binds it to a portal, asks for the portal's
//! columns, and executes it. To describe a portal its query is run, and the
//! reply is kept for the execution, so that the query runs once for both.
use vstd::prelude::*;

use crate::session;
use crate::session::{
    CachedPortalResponse, MAX_CACHED_PORTALS, PortalCache, Registry, get_connection,
};
use crate::text;
use crate::text::same;

verus! {

/// Handles the extended query protocol.
#[derive(Debug)]
pub struct GatewayExtendedQueryHandler;

/// The reply that is kept for a portal and was produced for its query.
pub open spec fn kept_reply<R>(
    cache: Map<Seq<char>, CachedPortalResponse<R>>,
    portal: Seq<char>,
    query: Seq<char>,
) -> Option<R> {
    if cache.contains_key(portal) && cache[portal].query@ == query {
        Some(cache[portal].response)
    } else {
        None
    }
}

/// Takes the reply that is kept under a portal's name, whatever its query.
pub fn take_cached<R>(cache: &mut PortalCache<R>, name: &str) -> (r: Option<
    CachedPortalResponse<R>,
>)
    requires
        old(cache).wf(),
    ensures
        final(cache).wf(),
        match r {
            Some(e) => old(cache)@.contains_key(name@) && e == old(cache)@[name@],
            None => !old(cache)@.contains_key(name@),
        },
        final(cache)@ == old(cache)@.remove(name@),
        final(cache).count() == old(cache).count() - (if old(cache)@.contains_key(name@) {
            1int
        } else {
            0int
        }),
{
    cache.take(name)
}

/// Keeps a reply under a portal's name. A full cache takes no further name.
pub fn insert_cached<R>(cache: &mut PortalCache<R>, name: String, entry: CachedPortalResponse<R>)
    requires
        old(cache).wf(),
    ensures
        final(cache).wf(),
        final(cache).count() <= MAX_CACHED_PORTALS,
        final(cache).count() == old(cache).count() + (if !old(cache)@.contains_key(name@)
            && old(cache).count() < MAX_CACHED_PORTALS {
            1int
        } else {
            0int
        }),
        final(cache)@ == kept_after(old(cache)@, old(cache).count(), name@, entry),
        final(cache)@ == (if old(cache)@.contains_key(name@) || old(cache).count()
            < MAX_CACHED_PORTALS {
            old(cache)@.insert(name@, entry)
        } else {
            old(cache)@
        }),
{
    cache.insert(name, entry)
}

/// What is kept after a reply was entered under a name, in a cache that holds `count`.
pub open spec fn kept_after<R>(
    cache: Map<Seq<char>, CachedPortalResponse<R>>,
    count: nat,
    name: Seq<char>,
    entry: CachedPortalResponse<R>,
) -> Map<Seq<char>, CachedPortalResponse<R>> {
    if cache.contains_key(name) || count < MAX_CACHED_PORTALS {
        cache.insert(name, entry)
    } else {
        cache
    }
}

/// The OID of a parameter's type: the one that the client named, or that of `text`.
pub open spec fn parameter_oid(named: Option<u32>) -> u32 {
    match named {
        Some(oid) => oid,
        None => TEXT_OID,
    }
}

/// The column type of a parameter whose type the client left open: `text`.
pub const TEXT_OID: u32 = 25;

/// Why a portal cannot be described or executed.
#[derive(Clone, Copy, Debug, PartialEq, Eq, Structural)]
pub enum PortalError {
    /// The client has no connection id.
    NoConnectionId,
    /// No connection is known under the client's id.
    UnknownConnection,
    /// The query has no reply at all.
    NoReply,
}

impl PortalError {
    /// The text that the client is told.
    pub fn message(&self) -> (r: &'static str)
        ensures
            r@ == (match *self {
                PortalError::NoConnectionId => "No connection ID in metadata"@,
                PortalError::UnknownConnection => "Connection state not found"@,
                PortalError::NoReply => "Empty pipeline response"@,
            }),
    {
        match self {
            PortalError::NoConnectionId => "No connection ID in metadata",
            PortalError::UnknownConnection => "Connection state not found",
            PortalError::NoReply => "Empty pipeline response",
        }
    }
}

/// The state of the connection with the id that a client has.
pub open spec fn client_connection<V>(
    connections: Map<Seq<u8>, V>,
    conn_id: Option<Seq<char>>,
) -> Result<V, PortalError> {
    match conn_id {
        None => Err(PortalError::NoConnectionId),
        Some(id) => if connections.contains_key(session::connection_key(id)) {
            Ok(connections[session::connection_key(id)])
        } else {
            Err(PortalError::UnknownConnection)
        },
    }
}

impl GatewayExtendedQueryHandler {
    /// Finds the connection of a client by the id that it has.
    pub fn connection<'a, V>(&self, connections: &'a Registry<V>, conn_id: Option<&str>) -> (r:
        Result<&'a V, PortalError>)
        requires
            connections.wf(),
        ensures
            match r {
                Ok(v) => client_connection(connections@, text::str_view(conn_id)) == Ok::<
                    V,
                    PortalError,
                >(*v),
                Err(e) => client_connection(connections@, text::str_view(conn_id)) == Err::<
                    V,
                    PortalError,
                >(e),
            },
    {
        match conn_id {
            None => Err(PortalError::NoConnectionId),
            Some(id) => match get_connection(connections, id) {
                Some(v) => Ok(v),
                None => Err(PortalError::UnknownConnection),
            },
        }
    }

    /// Begins to execute a portal: the reply that was kept when it was
    /// described, or none where its query has to be run.
    ///
    /// A reply that was kept for another query is stale, since the client has
    /// bound the portal's name anew; it is dropped.
    pub fn do_query<R>(&self, cache: &mut PortalCache<R>, portal: &str, query: &str) -> (r: Option<
        R,
    >)
        requires
            old(cache).wf(),
        ensures
            final(cache).wf(),
            r == kept_reply(old(cache)@, portal@, query@),
            final(cache)@ == old(cache)@.remove(portal@),
            final(cache).count() == old(cache).count() - (if old(cache)@.contains_key(portal@) {
                1int
            } else {
                0int
            }),
    {
        match take_cached(cache, portal) {
            Some(entry) => if same(entry.query.as_str(), query) {
                Some(entry.response)
            } else {
                None
            },
            None => None,
        }
    }

    /// Ends the description of a portal: keeps the reply for its execution, and
    /// gives its columns. A reply without rows has none.
    pub fn do_describe_portal<R, F>(
        &self,
        cache: &mut PortalCache<R>,
        portal: &str,
        query: &str,
        response: R,
        columns: Option<Vec<F>>,
    ) -> (r: Vec<F>)
        requires
            old(cache).wf(),
        ensures
            final(cache).wf(),
            final(cache).count() <= MAX_CACHED_PORTALS,
            final(cache).count() == old(cache).count() + (if !old(cache)@.contains_key(portal@)
                && old(cache).count() < MAX_CACHED_PORTALS {
                1int
            } else {
                0int
            }),
            !old(cache)@.contains_key(portal@) && old(cache).count() >= MAX_CACHED_PORTALS
                ==> final(cache)@ == old(cache)@,
            old(cache)@.contains_key(portal@) || old(cache).count() < MAX_CACHED_PORTALS
                ==> kept_reply(final(cache)@, portal@, query@) == Some(response)
                && final(cache)@.remove(portal@) == old(cache)@.remove(portal@),
            r@ == (match columns {
                Some(list) => list@,
                None => Seq::empty(),
            }),
    {
        let entry = CachedPortalResponse { query: query.to_owned(), response };
        let ghost before = cache@;
        let ghost kept = entry;
        insert_cached(cache, portal.to_owned(), entry);
        proof {
            assert(before.insert(portal@, kept).remove(portal@) =~= before.remove(portal@));
        }
        match columns {
            Some(list) => list,
            None => Vec::new(),
        }
    }

    /// The first reply of a query, which is what a portal is executed with.
    pub fn first_reply<R>(&self, replies: Vec<R>) -> (r: Result<R, PortalError>)
        ensures
            match r {
                Ok(first) => replies@.len() > 0 && first == replies@[0],
                Err(e) => replies@.len() == 0 && e == PortalError::NoReply,
            },
    {
        let mut replies = replies;
        if replies.len() == 0 {
            return Err(PortalError::NoReply);
        }
        Ok(replies.remove(0))
    }

    /// The parameter types of a prepared statement, by OID: those that the
    /// client named, and `text` for the others.
    pub fn do_describe_statement(&self, parameter_types: &Vec<Option<u32>>) -> (r: Vec<u32>)
        ensures
            r@.len() == parameter_types@.len(),
            forall|i: int| 0 <= i < r@.len() ==> #[trigger] r@[i] == parameter_oid(parameter_types@[i]),
            r@ == Seq::new(
                parameter_types@.len(),
                |i: int|
                    match parameter_types@[i] {
                        Some(oid) => oid,
                        None => TEXT_OID,
                    },
            ),
    {
        let mut r: Vec<u32> = Vec::new();
        let mut i: usize = 0;
        while i < parameter_types.len()
            invariant
                i <= parameter_types@.len(),
                r@.len() == i,
                forall|k: int|
                    0 <= k < i ==> #[trigger] r@[k] == (match parameter_types@[k] {
                        Some(oid) => oid,
                        None => TEXT_OID,
                    }),
            decreases parameter_types@.len() - i,
        {
            r.push(
                match parameter_types[i] {
                    Some(oid) => oid,
                    None => TEXT_OID,
                },
            );
            i += 1;
        }
        assert(r@ =~= Seq::new(
            parameter_types@.len(),
            |k: int|
                match parameter_types@[k] {
                    Some(oid) => oid,
                    None => TEXT_OID,
                },
        ));
        r
    }
}

/// A query runs once for a description and the execution that follows it: what
/// was kept under a portal for a query is what the execution gets, and it is
/// gone then, so that a further execution runs the query again.
pub proof fn described_runs_once<R>(
    cache: Map<Seq<char>, CachedPortalResponse<R>>,
    portal: Seq<char>,
    entry: CachedPortalResponse<R>,
)
    ensures
        kept_reply(cache.insert(portal, entry), portal, entry.query@) == Some(entry.response),
        kept_reply(cache.insert(portal, entry).remove(portal), portal, entry.query@) is None,
{
}

/// A reply is never served for another query than the one it was produced for.
pub proof fn stale_is_not_served<R>(
    cache: Map<Seq<char>, CachedPortalResponse<R>>,
    portal: Seq<char>,
    entry: CachedPortalResponse<R>,
    query: Seq<char>,
)
    requires
        query != entry.query@,
    ensures
        kept_reply(cache.insert(portal, entry), portal, query) is None,
{
}

/// A client is served by the connection that was entered under its own id, and by no
/// other; without an id, or with one that is not entered, it is refused.
pub proof fn clients_have_their_connections<V>(
    connections: Map<Seq<u8>, V>,
    id: Seq<char>,
    other: Seq<char>,
    state: V,
)
    ensures
        client_connection(
            connections.insert(session::connection_key(id), state),
            Some(id),
        ) == Ok::<V, PortalError>(state),
        id != other ==> client_connection(
            connections.insert(session::connection_key(id), state),
            Some(other),
        ) == client_connection(connections, Some(other)),
        client_connection(connections.remove(session::connection_key(id)), Some(id)) == Err::<
            V,
            PortalError,
        >(PortalError::UnknownConnection),
        client_connection(connections, None) == Err::<V, PortalError>(PortalError::NoConnectionId),
{
    if session::connection_key(id) == session::connection_key(other) {
        session::connections_are_told_apart(id, other);
    }
}

/// A parameter has the type that the client named; one whose type is left open has the
/// identifier of `text`.
pub proof fn open_parameters_are_text(oid: u32)
    ensures
        parameter_oid(Some(oid)) == oid,
        parameter_oid(None) == crate::wire::PgType::Text.spec_oid(),
{
}

/// A cache takes a reply while there are fewer than 64, and in place of an older one of
/// the same portal at any time; a full one takes no further portal. Replies of other
/// portals stay as they are.
pub proof fn full_caches_take_no_more<R>(
    cache: Map<Seq<char>, CachedPortalResponse<R>>,
    count: nat,
    name: Seq<char>,
    other: Seq<char>,
    entry: CachedPortalResponse<R>,
)
    requires
        name != other,
    ensures
        ({
            let after = kept_after(cache, count, name, entry);
            &&& count < 64 || cache.contains_key(name) ==> after.contains_key(name) && after[name]
                == entry
            &&& count >= 64 && !cache.contains_key(name) ==> !after.contains_key(name)
            &&& after.contains_key(other) == cache.contains_key(other)
            &&& cache.contains_key(other) ==> after[other] == cache[other]
        }),
{
}

} // verus!
