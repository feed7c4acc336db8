//! The order of `LIMIT` and `OFFSET`.
use vstd::prelude::*;

verus! {

/// An expression that limits or skips rows.
#[derive(Clone, Debug)]
pub struct RowCount {
    /// The expression, as the parser prints it.
    pub text: String,
    /// The bit pattern of the double-precision number that a numeric literal
    /// reads as; absent for other expressions.
    pub literal: Option<u64>,
}

/// The row-limiting clauses of a query.
#[derive(Clone, Debug)]
pub struct RowLimits {
    /// `LIMIT` and `OFFSET`, where the query has them in this form.
    pub clause: Option<LimitOffset>,
    /// `FETCH FIRST`.
    pub fetch: Option<Fetch>,
}

/// `LIMIT n OFFSET m`, either of which may be absent.
#[derive(Clone, Debug)]
pub struct LimitOffset {
    pub limit: Option<RowCount>,
    pub offset: Option<RowCount>,
    /// The number of expressions in a `LIMIT BY`.
    pub limit_by: usize,
}

/// `FETCH FIRST n ROWS ONLY`.
#[derive(Clone, Debug)]
pub struct Fetch {
    pub quantity: Option<RowCount>,
    pub with_ties: bool,
    pub percent: bool,
}

/// Reorders `LIMIT n OFFSET m` into a form that Trino accepts.
///
/// Trino wants the offset before the clause that limits the rows. The parser
/// prints `LIMIT` before `OFFSET`, whatever their order was, and `FETCH` after
/// both; so the limit moves into a `FETCH FIRST n ROWS ONLY`. `LIMIT 0` is the
/// exception: Trino accepts it and rejects `FETCH FIRST 0 ROWS ONLY`. No rows
/// remain whatever the offset, so the offset goes instead.
pub struct LimitOffsetRewriter;

/// A numeric literal equal to zero; an expression that happens to be zero is
/// not recognised.
pub open spec fn is_zero(count: RowCount) -> bool {
    count.literal == Some(0u64) || count.literal == Some(0x8000_0000_0000_0000u64)
}

/// Whether an expression is a numeric literal equal to zero.
pub fn is_zero_literal(count: &RowCount) -> (r: bool)
    ensures
        r == is_zero(*count),
{
    match count.literal {
        Some(bits) => bits == 0 || bits == 0x8000_0000_0000_0000,
        None => false,
    }
}

/// Both clauses are there, in their plain form, and there is no `FETCH`.
pub open spec fn wants_reordering(q: RowLimits) -> bool {
    q.fetch is None && q.clause is Some && q.clause->0.limit is Some && q.clause->0.offset is Some
        && q.clause->0.limit_by == 0
}

/// The clauses of a query in a form that Trino accepts.
pub open spec fn reordered(q: RowLimits) -> RowLimits {
    if !wants_reordering(q) {
        q
    } else if is_zero(q.clause->0.limit->0) {
        RowLimits {
            clause: Some(LimitOffset { limit: q.clause->0.limit, offset: None, limit_by: 0 }),
            fetch: None,
        }
    } else {
        RowLimits {
            clause: Some(LimitOffset { limit: None, offset: q.clause->0.offset, limit_by: 0 }),
            fetch: Some(Fetch { quantity: q.clause->0.limit, with_ties: false, percent: false }),
        }
    }
}

impl LimitOffsetRewriter {
    /// Reorders the clauses of one query.
    pub fn post_visit_query(&self, query: &mut RowLimits)
        ensures
            *final(query) == reordered(*old(query)),
    {
        if query.fetch.is_some() {
            return;
        }
        let wanted = match &query.clause {
            Some(c) => c.limit.is_some() && c.offset.is_some() && c.limit_by == 0,
            None => false,
        };
        if !wanted {
            return;
        }
        match query.clause.take() {
            Some(c) => match c.limit {
                Some(limit) => {
                    if is_zero_literal(&limit) {
                        query.clause = Some(
                            LimitOffset { limit: Some(limit), offset: None, limit_by: 0 },
                        );
                    } else {
                        query.clause = Some(
                            LimitOffset { limit: None, offset: c.offset, limit_by: 0 },
                        );
                        query.fetch = Some(
                            Fetch { quantity: Some(limit), with_ties: false, percent: false },
                        );
                    }
                },
                None => {},
            },
            None => {},
        }
    }
}

/// No query leaves with both a `LIMIT` and an `OFFSET` in their plain form,
/// unless it had a `FETCH`; and a second pass changes nothing.
pub proof fn reordering_settles(q: RowLimits)
    ensures
        !wants_reordering(reordered(q)),
        reordered(reordered(q)) == reordered(q),
{
}

/// Reordering changes no row of the result: the offset stays where there is a row
/// to skip to, the number of rows stays, and only a query that asks for no row at
/// all loses its offset. Clauses in another form are left alone.
pub proof fn reordering_keeps_the_rows(q: RowLimits)
    ensures
        ({
            let r = reordered(q);
            &&& q.fetch is Some || q.clause is None ==> r == q
            &&& q.clause matches Some(c) ==> c.limit is None || c.offset is None || c.limit_by != 0
                ==> r == q
            &&& q.fetch is None ==> (q.clause matches Some(c) ==> c.limit is Some && c.offset is Some
                && c.limit_by == 0 ==> r != q)
            &&& r != q ==> q.clause is Some && r.clause is Some && q.clause->0.limit is Some && (
            if q.clause->0.limit->0.literal == Some(0u64) || q.clause->0.limit->0.literal == Some(
                0x8000_0000_0000_0000u64,
            ) {
                r.clause->0.limit == q.clause->0.limit && r.clause->0.offset is None && r.fetch is None
            } else {
                &&& r.clause->0.limit is None
                &&& r.clause->0.offset == q.clause->0.offset
                &&& r.fetch matches Some(f) && f.quantity == q.clause->0.limit && !f.with_ties
                    && !f.percent
            })
        }),
{
}

} // verus!
