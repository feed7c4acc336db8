//! What happens to a query: it is split into statements, and each is either
//! answered locally or rewritten and forwarded.
use vstd::prelude::*;

use crate::catalog;
use crate::catalog::{DynamicTable, handle_dynamic_catalog_query};
use crate::config::Config;
use crate::info_schema;
use crate::info_schema::rewrite_info_schema_columns;
use crate::intercept;
use crate::intercept::try_intercept;
use crate::query_inspection::ParsedQuery;
use crate::response::{Response, ResponseView};
use crate::rewrite;
use crate::rewrite::rewrite_sql;
use crate::sql;
use crate::sql::statement_texts;
use crate::text;
use crate::wire::{ErrorInfo, FieldInfo};

verus! {

/// The statements of a query: as the parser prints them where there are
/// several, else the query as it stands.
pub open spec fn pieces(query: Seq<char>) -> Seq<Seq<char>> {
    match sql::statements(query) {
        Some(list) => if list.len() > 1 {
            list
        } else {
            seq![query]
        },
        None => seq![query],
    }
}

/// Splits a query into statements.
///
/// The parser knows quotes and comments, so a semicolon in a literal does not
/// split. A query that cannot be parsed is one statement.
pub fn split_statements(query: &str) -> (r: Vec<String>)
    ensures
        text::string_views(r@) == pieces(query@),
        r@.len() >= 1,
{
    if let Some(list) = statement_texts(query) {
        if list.len() > 1 {
            return list;
        }
    }
    let r = vec![query.to_owned()];
    assert(text::string_views(r@) =~= seq![query@]);
    r
}

/// What is to be done with one statement.
#[derive(Clone, Debug)]
pub enum StatementPlan {
    /// Send this reply.
    Reply(Vec<Response>),
    /// Fetch the rows for this catalog table, and build the reply from them.
    Catalog(DynamicTable),
    /// Run this SQL on Trino.
    Forward(String),
}

/// What is to be done with one statement, by the views of what it holds.
pub enum PlanView {
    Reply(ResponseView),
    Catalog(DynamicTable),
    Forward(Seq<char>),
}

/// The plan for a statement under a catalog and schema: a local reply where
/// there is one, then the catalog tables that come from Trino, then Trino
/// itself, with the SQL rewritten.
pub open spec fn plan_of(query: Seq<char>, catalog: Seq<char>, schema: Seq<char>) -> PlanView {
    if let Some(reply) = intercept::local_reply(query, query, catalog, schema) {
        PlanView::Reply(reply)
    } else if let Some(table) = catalog::dynamic_table(query) {
        PlanView::Catalog(table)
    } else {
        PlanView::Forward(
            rewrite::rewritten(
                match info_schema::columns_rewritten(query, query) {
                    Some(q) => q,
                    None => query,
                },
            ),
        )
    }
}

/// A query that can be answered locally is never sent to Trino, and one that is
/// sent is sent as SQL for Trino.
pub proof fn local_answers_come_first(query: Seq<char>, catalog: Seq<char>, schema: Seq<char>)
    ensures
        intercept::local_reply(query, query, catalog, schema) matches Some(reply) ==> plan_of(
            query,
            catalog,
            schema,
        ) == PlanView::Reply(reply),
        plan_of(query, catalog, schema) matches PlanView::Forward(sql) ==> intercept::local_reply(
            query,
            query,
            catalog,
            schema,
        ) is None && catalog::dynamic_table(query) is None && exists|q: Seq<char>|
            sql == #[trigger] rewrite::rewritten(q),
{
}

/// A plan holds what the view says.
pub open spec fn is_plan(plan: StatementPlan, view: PlanView) -> bool {
    match plan {
        StatementPlan::Reply(v) => v@.len() == 1 && view == PlanView::Reply(v@[0]@),
        StatementPlan::Catalog(table) => view == PlanView::Catalog(table),
        StatementPlan::Forward(sql) => view == PlanView::Forward(sql@),
    }
}

/// Plans one statement.
pub fn process_single_statement(query: &str, config: &Config) -> (r: StatementPlan)
    ensures
        is_plan(r, plan_of(query@, config.trino_catalog@, config.trino_schema@)),
{
    let parsed_query = ParsedQuery::new(query);
    if let Some(reply) = try_intercept(
        query,
        &parsed_query,
        config.trino_catalog.as_str(),
        config.trino_schema.as_str(),
    ) {
        return StatementPlan::Reply(reply);
    }
    if let Some(table) = handle_dynamic_catalog_query(&parsed_query) {
        return StatementPlan::Catalog(table);
    }
    match rewrite_info_schema_columns(query, &parsed_query) {
        Some(q) => StatementPlan::Forward(rewrite_sql(q.as_str())),
        None => StatementPlan::Forward(rewrite_sql(query)),
    }
}

/// The completion tag for a statement that Trino ran without returning
/// columns; none where there are rows to send.
pub fn completion_tag(schema: &Vec<FieldInfo>) -> (r: Option<&'static str>)
    ensures
        r is Some <==> schema@.len() == 0,
        r matches Some(tag) ==> tag@ == "OK"@,
{
    if schema.len() == 0 {
        Some("OK")
    } else {
        None
    }
}

/// Why a statement failed.
pub enum Failure<E> {
    /// An error to report to the client.
    User(ErrorInfo),
    /// An error that ends the connection.
    Fatal(E),
}

/// One reply of a query.
pub enum Reply<R> {
    Response(R),
    Error(ErrorInfo),
}

/// The statements of one query, as they are run in turn.
pub struct Batch<R, E> {
    statements: Vec<String>,
    position: usize,
    replies: Vec<Reply<R>>,
    failure: Option<Failure<E>>,
}

/// The state of a batch: how many statements it has, how many were run, the
/// replies so far, and the failure that ended it.
pub struct BatchState<R, E> {
    pub count: int,
    pub position: int,
    pub replies: Seq<Reply<R>>,
    pub failure: Option<Failure<E>>,
}

/// Some responses as replies.
pub open spec fn as_replies<R>(responses: Seq<R>) -> Seq<Reply<R>> {
    Seq::new(responses.len(), |i: int| Reply::Response(responses[i]))
}

/// The state of a batch after the outcome of its next statement.
///
/// An error that is reported to the client ends a batch of several statements:
/// the replies of earlier ones are kept, and the report comes last. Of a
/// single statement it is the outcome. A fatal error is always the outcome.
pub open spec fn after_outcome<R, E>(
    state: BatchState<R, E>,
    outcome: Result<Vec<R>, Failure<E>>,
) -> BatchState<R, E> {
    match outcome {
        Ok(responses) => BatchState {
            position: state.position + 1,
            replies: state.replies + as_replies(responses@),
            ..state
        },
        Err(Failure::User(info)) => if state.count > 1 {
            BatchState {
                position: state.count,
                replies: state.replies.push(Reply::Error(info)),
                ..state
            }
        } else {
            BatchState {
                position: state.count,
                failure: Some(Failure::User(info)),
                ..state
            }
        },
        Err(Failure::Fatal(e)) => BatchState {
            position: state.count,
            failure: Some(Failure::Fatal(e)),
            ..state
        },
    }
}

impl<R, E> Batch<R, E> {
    /// The state of the batch.
    pub closed spec fn state(self) -> BatchState<R, E> {
        BatchState {
            count: self.statements@.len() as int,
            position: self.position as int,
            replies: self.replies@,
            failure: self.failure,
        }
    }

    /// The statements of the batch.
    pub closed spec fn statements(self) -> Seq<Seq<char>> {
        text::string_views(self.statements@)
    }

    /// The position lies within the batch, which is not empty.
    pub closed spec fn wf(self) -> bool {
        self.position <= self.statements@.len() && self.statements@.len() >= 1
    }

    /// A query as a batch of its statements, none of which was run.
    pub fn process_query(query: &str) -> (r: Self)
        ensures
            r.wf(),
            r.statements() == pieces(query@),
            r.state() == (BatchState::<R, E> {
                count: pieces(query@).len() as int,
                position: 0,
                replies: Seq::empty(),
                failure: None,
            }),
    {
        let r = Batch {
            statements: split_statements(query),
            position: 0,
            replies: Vec::new(),
            failure: None,
        };
        assert(r.replies@ =~= Seq::<Reply<R>>::empty());
        assert(r.statements@.len() == pieces(query@).len());
        r
    }

    /// The statement to run next; none where the batch is done.
    pub fn next_statement(&self) -> (r: Option<&str>)
        requires
            self.wf(),
        ensures
            r is Some <==> self.state().position < self.state().count,
            r matches Some(s) ==> s@ == self.statements()[self.state().position],
    {
        if self.position < self.statements.len() {
            Some(self.statements[self.position].as_str())
        } else {
            None
        }
    }

    /// Takes the outcome of the statement that was run.
    pub fn accept(&mut self, outcome: Result<Vec<R>, Failure<E>>)
        requires
            old(self).wf(),
            old(self).state().position < old(self).state().count,
        ensures
            final(self).wf(),
            final(self).statements() == old(self).statements(),
            final(self).state() == after_outcome(old(self).state(), outcome),
    {
        let n: usize = self.statements.len();
        match outcome {
            Ok(responses) => {
                push_responses(&mut self.replies, responses);
                self.position += 1;
            },
            Err(Failure::User(info)) => {
                if n > 1 {
                    self.replies.push(Reply::Error(info));
                } else {
                    self.failure = Some(Failure::User(info));
                }
                self.position = n;
            },
            Err(Failure::Fatal(e)) => {
                self.failure = Some(Failure::Fatal(e));
                self.position = n;
            },
        }
    }

    /// The outcome of the whole query: the replies, or the failure that ended
    /// it.
    pub fn finish(self) -> (r: Result<Vec<Reply<R>>, Failure<E>>)
        ensures
            match r {
                Ok(replies) => self.state().failure is None && replies@ == self.state().replies,
                Err(f) => self.state().failure == Some(f),
            },
    {
        match self.failure {
            Some(f) => Err(f),
            None => Ok(self.replies),
        }
    }
}

/// Appends some responses.
fn push_responses<R>(replies: &mut Vec<Reply<R>>, responses: Vec<R>)
    ensures
        final(replies)@ == old(replies)@ + as_replies(responses@),
{
    let ghost all = responses@;
    let mut rest = responses;
    let mut tail: Vec<Reply<R>> = Vec::new();
    while rest.len() > 0
        invariant
            rest@.len() <= all.len(),
            rest@ == all.take(rest@.len() as int),
            tail@.len() == all.len() - rest@.len(),
            forall|k: int|
                0 <= k < tail@.len() ==> #[trigger] tail@[k] == Reply::Response(
                    all[all.len() - 1 - k],
                ),
        decreases rest@.len(),
    {
        let ghost before = rest@;
        match rest.pop() {
            Some(last) => {
                assert(rest@ =~= all.take(rest@.len() as int));
                tail.push(Reply::Response(last));
            },
            None => {},
        }
    }
    let ghost start = replies@;
    let ghost reversed = tail@;
    while tail.len() > 0
        invariant
            start == old(replies)@,
            reversed.len() == all.len(),
            forall|k: int|
                0 <= k < all.len() ==> #[trigger] reversed[k] == Reply::Response(
                    all[all.len() - 1 - k],
                ),
            tail@.len() <= all.len(),
            tail@ == reversed.take(tail@.len() as int),
            replies@ == start + as_replies(all.take(all.len() - tail@.len())),
        decreases tail@.len(),
    {
        let ghost n = tail@.len();
        match tail.pop() {
            Some(next) => {
                assert(next == reversed[n - 1]);
                assert(tail@ =~= reversed.take(tail@.len() as int));
                replies.push(next);
                assert(replies@ =~= start + as_replies(all.take(all.len() - tail@.len())));
            },
            None => {},
        }
    }
    assert(all.take(all.len() as int) =~= all);
}

/// The state of a batch after the outcomes of several statements in turn.
pub open spec fn after_outcomes<R, E>(
    state: BatchState<R, E>,
    outcomes: Seq<Result<Vec<R>, Failure<E>>>,
) -> BatchState<R, E>
    decreases outcomes.len(),
{
    if outcomes.len() == 0 {
        state
    } else {
        after_outcome(after_outcomes(state, outcomes.drop_last()), outcomes.last())
    }
}

/// The replies of several statements, in order.
pub open spec fn all_replies<R, E>(outcomes: Seq<Result<Vec<R>, Failure<E>>>) -> Seq<Reply<R>>
    decreases outcomes.len(),
{
    if outcomes.len() == 0 {
        Seq::empty()
    } else {
        all_replies(outcomes.drop_last()) + as_replies(outcomes.last()->Ok_0@)
    }
}

/// While statements succeed, the replies of all of them are kept in order.
pub proof fn replies_accumulate<R, E>(
    state: BatchState<R, E>,
    outcomes: Seq<Result<Vec<R>, Failure<E>>>,
)
    requires
        forall|i: int| 0 <= i < outcomes.len() ==> #[trigger] outcomes[i] is Ok,
    ensures
        after_outcomes(state, outcomes) == (BatchState {
            position: state.position + outcomes.len(),
            replies: state.replies + all_replies(outcomes),
            ..state
        }),
    decreases outcomes.len(),
{
    if outcomes.len() == 0 {
        assert(state.replies + all_replies(outcomes) =~= state.replies);
    } else {
        let before = outcomes.drop_last();
        assert forall|i: int| 0 <= i < before.len() implies #[trigger] before[i] is Ok by {
            assert(before[i] == outcomes[i]);
        }
        replies_accumulate(state, before);
        assert(outcomes[outcomes.len() - 1] is Ok);
        assert(state.replies + all_replies(before) + as_replies(outcomes.last()->Ok_0@)
            =~= state.replies + all_replies(outcomes));
    }
}

/// A batch of several statements stops at its first error that is reported to
/// the client: nothing is run after it, the replies of the statements before it
/// are kept, and the report follows them.
pub proof fn batch_stops_at_first_error<R, E>(
    state: BatchState<R, E>,
    outcomes: Seq<Result<Vec<R>, Failure<E>>>,
    info: ErrorInfo,
)
    requires
        state.count > 1,
        forall|i: int| 0 <= i < outcomes.len() ==> #[trigger] outcomes[i] is Ok,
    ensures
        ({
            let end = after_outcome(
                after_outcomes(state, outcomes),
                Err::<Vec<R>, Failure<E>>(Failure::User(info)),
            );
            &&& end.position == end.count
            &&& end.replies == (state.replies + all_replies(outcomes)).push(Reply::Error(info))
            &&& end.failure == state.failure
        }),
{
    replies_accumulate(state, outcomes);
}

/// A statement that is no command, asks for no single value, and is of other tables
/// than those that are answered locally goes to Trino, rewritten and with nothing
/// else changed: data is read and written there, never made up here.
pub proof fn other_statements_are_forwarded(
    query: Seq<char>,
    catalog: Seq<char>,
    schema: Seq<char>,
)
    requires
        !intercept::is_command_word(intercept::first_word(text::upper(intercept::command(query)))),
        !crate::query_inspection::is_bare(query),
        intercept::is_of_other_tables(query),
    ensures
        plan_of(query, catalog, schema) == PlanView::Forward(rewrite::rewritten(query)),
{
    intercept::other_statements_have_no_reply(query, catalog, schema);
}

/// Statements that change data or tables go to Trino.
pub proof fn changes_are_forwarded(query: Seq<char>, catalog: Seq<char>, schema: Seq<char>)
    requires
        ({
            let word = intercept::first_word(text::upper(intercept::command(query)));
            word == "INSERT"@ || word == "UPDATE"@ || word == "DELETE"@ || word == "MERGE"@ || word
                == "CREATE"@ || word == "DROP"@ || word == "ALTER"@
        }),
        !crate::query_inspection::is_bare(query),
        intercept::is_of_other_tables(query),
    ensures
        plan_of(query, catalog, schema) == PlanView::Forward(rewrite::rewritten(query)),
{
    intercept::changes_are_not_command_words(
        intercept::first_word(text::upper(intercept::command(query))),
    );
    other_statements_are_forwarded(query, catalog, schema);
}

/// A query of several statements is split into them, as the parser prints them; any
/// other is one statement, exactly as it was sent.
pub proof fn queries_are_split_by_the_parser(query: Seq<char>)
    ensures
        pieces(query).len() >= 1,
        sql::statements(query) matches Some(list) && list.len() >= 2 ==> pieces(query)
            == sql::statements(query)->0,
        !(sql::statements(query) matches Some(list) && list.len() >= 2) ==> pieces(query).len() == 1
            && pieces(query)[0] == query,
{
}

/// A plan holds what its view says: a single reply, a table, or the SQL to run.
pub proof fn plans_hold_what_they_say(plan: StatementPlan, view: PlanView)
    requires
        is_plan(plan, view),
    ensures
        match view {
            PlanView::Reply(reply) => plan matches StatementPlan::Reply(v) && v@.len() == 1
                && v@[0]@ == reply,
            PlanView::Catalog(table) => plan == StatementPlan::Catalog(table),
            PlanView::Forward(sql) => plan matches StatementPlan::Forward(s) && s@ == sql,
        },
{
}

/// A query of a catalog table whose rows Trino has is answered from them, unless it has
/// a reply of its own; and Power BI's query of the columns goes to Trino with its
/// expression replaced.
pub proof fn other_plans_come_in_order(query: Seq<char>, catalog: Seq<char>, schema: Seq<char>)
    requires
        intercept::local_reply(query, query, catalog, schema) is None,
    ensures
        catalog::dynamic_table(query) matches Some(table) ==> plan_of(query, catalog, schema)
            == PlanView::Catalog(table),
        catalog::dynamic_table(query) is None ==> (info_schema::columns_rewritten(query, query)
            matches Some(sql) ==> plan_of(query, catalog, schema) == PlanView::Forward(
            rewrite::rewritten(sql),
        )),
        catalog::dynamic_table(query) is None && info_schema::columns_rewritten(
            query,
            query,
        ) is None ==> plan_of(query, catalog, schema) == PlanView::Forward(
            rewrite::rewritten(query),
        ),
{
}

/// An error of the only statement of a query is the outcome of the query, and so is an
/// error that ends the connection, of any statement; nothing is run after it, and no
/// reply is added for it. A success adds its responses and moves on by one.
pub proof fn failures_end_the_batch<R, E>(
    state: BatchState<R, E>,
    info: ErrorInfo,
    fatal: E,
    responses: Vec<R>,
)
    ensures
        ({
            let single = after_outcome(state, Err::<Vec<R>, Failure<E>>(Failure::User(info)));
            let ended = after_outcome(state, Err::<Vec<R>, Failure<E>>(Failure::Fatal(fatal)));
            let done = after_outcome(state, Ok::<Vec<R>, Failure<E>>(responses));
            &&& state.count == 1 ==> single.failure == Some(Failure::<E>::User(info))
                && single.replies == state.replies && single.position == 1
            &&& ended.failure == Some(Failure::Fatal(fatal)) && ended.replies == state.replies
                && ended.position == state.count
            &&& done.failure == state.failure && done.position == state.position + 1
                && done.replies.len() == state.replies.len() + responses@.len()
            &&& forall|i: int|
                0 <= i < responses@.len() ==> #[trigger] done.replies[state.replies.len() + i]
                    == Reply::Response(responses@[i])
            &&& forall|i: int| 0 <= i < state.replies.len() ==> done.replies[i] == state.replies[i]
            &&& single.count == state.count && ended.count == state.count && done.count
                == state.count
        }),
{
}

} // verus!
