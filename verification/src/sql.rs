//! What the SQL parser reports of a statement, as plain values.
use std::ops::ControlFlow;

use sqlparser::ast::{
    CastKind, Expr, Function, FunctionArg, FunctionArgExpr, FunctionArgumentList,
    FunctionArguments, GroupByExpr, Ident, ObjectName, ObjectNamePart, SelectItem, SetExpr,
    Statement, Value,
};
use sqlparser::dialect::PostgreSqlDialect;
use sqlparser::parser::Parser;
use vstd::prelude::*;

use crate::text;

verus! {

/// A cast, as the parser reports it.
#[derive(Clone, Debug)]
pub struct Cast {
    /// Written with `::`.
    pub double_colon: bool,
    /// The target type, as the parser prints it.
    pub target: String,
}

/// A cast, its texts as characters.
pub struct CastView {
    pub double_colon: bool,
    pub target: Seq<char>,
}

impl View for Cast {
    type V = CastView;

    open spec fn view(&self) -> CastView {
        CastView { double_colon: self.double_colon, target: self.target@ }
    }
}

/// A function call, as the parser reports it.
#[derive(Clone, Debug)]
pub struct Call {
    /// The parts of the function's name; a part that is not a plain
    /// identifier is absent.
    pub name: Vec<Option<String>>,
    /// One entry per argument in the argument list: the text of a
    /// single-quoted string literal, absent for any other argument.
    pub args: Vec<Option<String>>,
}

/// A function call, its texts as characters.
pub struct CallView {
    pub name: Seq<Option<Seq<char>>>,
    pub args: Seq<Option<Seq<char>>>,
}

impl View for Call {
    type V = CallView;

    open spec fn view(&self) -> CallView {
        CallView { name: text::text_views(self.name@), args: text::text_views(self.args@) }
    }
}

/// A `LIKE` or `ILIKE` comparison, by the texts of its operands.
pub struct LikeView {
    /// Written with `ILIKE`.
    pub ignores_case: bool,
    pub negated: bool,
    pub subject: Seq<char>,
    pub pattern: Seq<char>,
    pub escape: Option<Seq<char>>,
}

/// An expression, as far as the gateway looks into it.
#[derive(Clone, Debug)]
pub enum Node {
    Cast(Cast),
    Call(Call),
    ILike,
    Identifier(String),
    Compound(Vec<String>),
    Other,
}

/// An expression, its texts as characters.
pub enum NodeView {
    Cast(CastView),
    Call(CallView),
    ILike,
    Identifier(Seq<char>),
    Compound(Seq<Seq<char>>),
    Other,
}

impl View for Node {
    type V = NodeView;

    open spec fn view(&self) -> NodeView {
        match self {
            Node::Cast(c) => NodeView::Cast(c@),
            Node::Call(c) => NodeView::Call(c@),
            Node::ILike => NodeView::ILike,
            Node::Identifier(id) => NodeView::Identifier(id@),
            Node::Compound(parts) => NodeView::Compound(text::string_views(parts@)),
            Node::Other => NodeView::Other,
        }
    }
}

/// A list of expressions, each by its view.
pub open spec fn node_views(nodes: Seq<Node>) -> Seq<NodeView> {
    Seq::new(nodes.len(), |i: int| nodes[i]@)
}

/// A node of the parser's syntax tree.
#[verifier::external_type_specification]
#[verifier::external_body]
pub struct ExExpr(sqlparser::ast::Expr);

/// The cast that a tree node is.
pub uninterp spec fn cast_in(expr: Expr) -> Option<CastView>;

/// The function call that a tree node is.
pub uninterp spec fn call_in(expr: Expr) -> Option<CallView>;

/// The `LIKE` or `ILIKE` comparison that a tree node is.
pub uninterp spec fn like_in(expr: Expr) -> Option<LikeView>;

/// The identifier that a tree node is.
pub uninterp spec fn identifier_in(expr: Expr) -> Option<Seq<char>>;

/// The dotted identifier that a tree node is.
pub uninterp spec fn compound_in(expr: Expr) -> Option<Seq<Seq<char>>>;

/// Reads a cast: the kind and target type of `sqlparser`'s `Expr::Cast`, the
/// type as its `Display` prints it.
#[verifier::external_body]
fn read_cast(expr: &Expr) -> (r: Option<Cast>)
    ensures
        match r {
            Some(c) => cast_in(*expr) == Some(c@),
            None => cast_in(*expr) is None,
        },
{
    match expr {
        Expr::Cast { kind, data_type, .. } => Some(
            Cast {
                double_colon: *kind == CastKind::DoubleColon,
                target: data_type.to_string(),
            },
        ),
        _ => None,
    }
}

/// Reads the name of a function call: the parts of the name of `sqlparser`'s
/// `Expr::Function`.
#[verifier::external_body]
fn read_call_name(expr: &Expr) -> (r: Option<Vec<Option<String>>>)
    ensures
        match r {
            Some(name) => call_in(*expr) is Some && call_in(*expr)->0.name == text::text_views(
                name@,
            ),
            None => call_in(*expr) is None,
        },
{
    match expr {
        Expr::Function(f) => {
            Some(f.name.0.iter().map(|p| p.as_ident().map(|i| i.value.clone())).collect())
        },
        _ => None,
    }
}

/// Reads the arguments of a function call: which entries of the argument list of
/// `sqlparser`'s `Expr::Function` are single-quoted strings. A call without an
/// argument list has no argument.
#[verifier::external_body]
fn read_call_args(expr: &Expr) -> (r: Vec<Option<String>>)
    requires
        call_in(*expr) is Some,
    ensures
        call_in(*expr)->0.args == text::text_views(r@),
{
    let Expr::Function(Function { args: FunctionArguments::List(list), .. }) = expr else {
        return Vec::new();
    };
    let literal = |a: &FunctionArg| match a {
        FunctionArg::Unnamed(FunctionArgExpr::Expr(Expr::Value(v)))
        | FunctionArg::Named { arg: FunctionArgExpr::Expr(Expr::Value(v)), .. }
        | FunctionArg::ExprNamed { arg: FunctionArgExpr::Expr(Expr::Value(v)), .. } => match &v.value
        {
            Value::SingleQuotedString(s) => Some(s.clone()),
            _ => None,
        },
        _ => None,
    };
    list.args.iter().map(literal).collect()
}

/// Reads a function call.
fn read_call(expr: &Expr) -> (r: Option<Call>)
    ensures
        match r {
            Some(c) => call_in(*expr) == Some(c@),
            None => call_in(*expr) is None,
        },
{
    match read_call_name(expr) {
        Some(name) => Some(Call { name, args: read_call_args(expr) }),
        None => None,
    }
}

/// Whether a tree node is `sqlparser`'s `Expr::ILike`.
#[verifier::external_body]
fn is_ilike(expr: &Expr) -> (r: bool)
    ensures
        r == (like_in(*expr) matches Some(l) && l.ignores_case),
{
    matches!(expr, Expr::ILike { .. })
}

/// Reads an identifier: the value of `sqlparser`'s `Expr::Identifier`.
#[verifier::external_body]
fn read_identifier(expr: &Expr) -> (r: Option<String>)
    ensures
        text::text_view(r) == identifier_in(*expr),
{
    match expr {
        Expr::Identifier(id) => Some(id.value.clone()),
        _ => None,
    }
}

/// Reads a dotted identifier: the values of the parts of `sqlparser`'s
/// `Expr::CompoundIdentifier`.
#[verifier::external_body]
fn read_compound(expr: &Expr) -> (r: Option<Vec<String>>)
    ensures
        match r {
            Some(parts) => compound_in(*expr) == Some(text::string_views(parts@)),
            None => compound_in(*expr) is None,
        },
{
    match expr {
        Expr::CompoundIdentifier(parts) => Some(parts.iter().map(|p| p.value.clone()).collect()),
        _ => None,
    }
}

/// What a tree node is, as far as the gateway looks into it.
pub open spec fn node_in(expr: Expr) -> NodeView {
    if let Some(c) = cast_in(expr) {
        NodeView::Cast(c)
    } else if let Some(c) = call_in(expr) {
        NodeView::Call(c)
    } else if like_in(expr) matches Some(l) && l.ignores_case {
        NodeView::ILike
    } else if let Some(id) = identifier_in(expr) {
        NodeView::Identifier(id)
    } else if let Some(parts) = compound_in(expr) {
        NodeView::Compound(parts)
    } else {
        NodeView::Other
    }
}

/// Describes a tree node.
fn describe(expr: &Expr) -> (r: Node)
    ensures
        r@ == node_in(*expr),
{
    if let Some(c) = read_cast(expr) {
        return Node::Cast(c);
    }
    if let Some(c) = read_call(expr) {
        return Node::Call(c);
    }
    if is_ilike(expr) {
        return Node::ILike;
    }
    if let Some(id) = read_identifier(expr) {
        return Node::Identifier(id);
    }
    if let Some(parts) = read_compound(expr) {
        return Node::Compound(parts);
    }
    Node::Other
}

/// The statements of a text, each as the parser prints it; nothing where the
/// text cannot be parsed.
pub uninterp spec fn statements(sql: Seq<char>) -> Option<Seq<Seq<char>>>;

/// Splits a text into statements: `Parser::parse_sql` of `sqlparser` with its
/// PostgreSQL dialect, and each statement's `Display`. The result is named.
#[verifier::external_body]
pub(crate) fn statement_texts(sql: &str) -> (r: Option<Vec<String>>)
    ensures
        match r {
            Some(v) => statements(sql@) == Some(text::string_views(v@)),
            None => statements(sql@) is None,
        },
{
    let parsed = Parser::parse_sql(&PostgreSqlDialect {}, sql).ok()?;
    Some(parsed.iter().map(|s| s.to_string()).collect())
}

/// The names of the relations that a text mentions, part by part, in the order
/// of the parser's traversal; a part that is not a plain identifier is absent.
pub uninterp spec fn relations(sql: Seq<char>) -> Option<Seq<Seq<Option<Seq<char>>>>>;

/// A list of names, each by its view.
pub open spec fn name_views(names: Seq<Vec<Option<String>>>) -> Seq<Seq<Option<Seq<char>>>> {
    Seq::new(names.len(), |i: int| text::text_views(names[i]@))
}

/// Lists the relations of a text: `Parser::parse_sql` and `visit_relations` of
/// `sqlparser`. The result is named.
#[verifier::external_body]
pub(crate) fn relation_names(sql: &str) -> (r: Option<Vec<Vec<Option<String>>>>)
    ensures
        match r {
            Some(v) => relations(sql@) == Some(name_views(v@)),
            None => relations(sql@) is None,
        },
{
    let parsed = Parser::parse_sql(&PostgreSqlDialect {}, sql).ok()?;
    let mut found = Vec::new();
    let _ = sqlparser::ast::visit_relations(
        &parsed,
        |name| {
            found.push(name.0.iter().map(|p| p.as_ident().map(|i| i.value.clone())).collect());
            ControlFlow::<()>::Continue(())
        },
    );
    Some(found)
}

/// The expressions of a text, each before its parts.
pub uninterp spec fn expressions(sql: Seq<char>) -> Option<Seq<NodeView>>;

/// Lists the expressions of a text, each before its parts:
/// `Parser::parse_sql` and `visit_expressions` of `sqlparser`. The result is
/// named.
#[verifier::external_body]
pub(crate) fn expression_nodes(sql: &str) -> (r: Option<Vec<Node>>)
    ensures
        match r {
            Some(v) => expressions(sql@) == Some(node_views(v@)),
            None => expressions(sql@) is None,
        },
{
    let parsed = Parser::parse_sql(&PostgreSqlDialect {}, sql).ok()?;
    let mut found = Vec::new();
    let _ = sqlparser::ast::visit_expressions(
        &parsed,
        |expr| {
            found.push(describe(expr));
            ControlFlow::<()>::Continue(())
        },
    );
    Some(found)
}

/// The clauses around the body of a query.
#[derive(Clone, Copy, Debug, PartialEq, Eq, Structural)]
pub struct QueryClauses {
    pub with: bool,
    pub order_by: bool,
    pub limit: bool,
    pub fetch: bool,
    /// `FOR UPDATE` and the like, by their number.
    pub locks: usize,
    pub for_clause: bool,
    pub settings: bool,
    pub format_clause: bool,
    pub pipe_operators: usize,
}

/// The clauses of a `SELECT`; lists by their length.
#[derive(Clone, Copy, Debug)]
pub struct SelectClauses {
    pub projection: usize,
    pub from: usize,
    pub selection: bool,
    /// The expressions and the modifiers of `GROUP BY`; absent for
    /// `GROUP BY ALL`.
    pub group_by: Option<(usize, usize)>,
    pub having: bool,
    pub cluster_by: usize,
    pub distribute_by: usize,
    pub sort_by: usize,
    pub qualify: bool,
}

/// What else a `SELECT` may have around its projection and its clauses; lists by
/// their length.
#[derive(Clone, Copy, Debug, PartialEq, Eq, Structural)]
pub struct SelectModifiers {
    pub distinct: bool,
    pub top: bool,
    pub exclude: bool,
    pub into: bool,
    pub lateral_views: usize,
    pub prewhere: bool,
    pub windows: usize,
    pub value_table_mode: bool,
    pub connect_by: bool,
}

/// One item of a projection.
#[derive(Clone, Debug)]
pub enum Projected {
    /// An expression without an alias.
    Unnamed(Node),
    /// An expression with an alias.
    Alias { alias: String, node: Node },
    /// `*`.
    Wildcard,
    /// `t.*`, as the parser prints it.
    QualifiedWildcard(String),
}

/// One item of a projection, its texts as characters.
pub enum ProjectedView {
    Unnamed(NodeView),
    Alias { alias: Seq<char>, node: NodeView },
    Wildcard,
    QualifiedWildcard(Seq<char>),
}

impl View for Projected {
    type V = ProjectedView;

    open spec fn view(&self) -> ProjectedView {
        match self {
            Projected::Unnamed(node) => ProjectedView::Unnamed(node@),
            Projected::Alias { alias, node } => ProjectedView::Alias { alias: alias@, node: node@ },
            Projected::Wildcard => ProjectedView::Wildcard,
            Projected::QualifiedWildcard(name) => ProjectedView::QualifiedWildcard(name@),
        }
    }
}

/// A projection, each item by its view.
pub open spec fn projected_views(items: Seq<Projected>) -> Seq<ProjectedView> {
    Seq::new(items.len(), |i: int| items[i]@)
}

/// The clauses of the first statement of a text, where it is a query.
pub uninterp spec fn first_query(sql: Seq<char>) -> Option<QueryClauses>;

/// The clauses of the first statement of a text, where it is a query whose
/// body is a `SELECT`.
pub uninterp spec fn first_select(sql: Seq<char>) -> Option<SelectClauses>;

/// What else the first statement of a text has, where it is a query whose body
/// is a `SELECT`.
pub uninterp spec fn first_modifiers(sql: Seq<char>) -> Option<SelectModifiers>;

/// The projection of the first statement of a text, where it is a query whose
/// body is a `SELECT`.
pub uninterp spec fn first_projection(sql: Seq<char>) -> Option<Seq<ProjectedView>>;

/// Reads the clauses around the first statement: `Parser::parse_sql` of
/// `sqlparser`, and which clauses its `Query` has. The result is named.
#[verifier::external_body]
pub(crate) fn query_clauses(sql: &str) -> (r: Option<QueryClauses>)
    ensures
        r == first_query(sql@),
{
    let parsed = Parser::parse_sql(&PostgreSqlDialect {}, sql).ok()?;
    let Statement::Query(q) = parsed.first()? else { return None };
    Some(
        QueryClauses {
            with: q.with.is_some(),
            order_by: q.order_by.is_some(),
            limit: q.limit_clause.is_some(),
            fetch: q.fetch.is_some(),
            locks: q.locks.len(),
            for_clause: q.for_clause.is_some(),
            settings: q.settings.is_some(),
            format_clause: q.format_clause.is_some(),
            pipe_operators: q.pipe_operators.len(),
        },
    )
}

/// Reads the clauses of the first statement: `Parser::parse_sql` of
/// `sqlparser`, and which clauses its `Select` has. The result is named.
#[verifier::external_body]
pub(crate) fn select_clauses(sql: &str) -> (r: Option<SelectClauses>)
    ensures
        r == first_select(sql@),
{
    let Statement::Query(q) = Parser::parse_sql(&PostgreSqlDialect {}, sql).ok()?.into_iter().next()?
        else { return None };
    let SetExpr::Select(s) = *q.body else { return None };
    let group_by = match s.group_by {
        GroupByExpr::Expressions(e, m) => Some((e.len(), m.len())),
        GroupByExpr::All(_) => None,
    };
    Some(SelectClauses {
        projection: s.projection.len(), from: s.from.len(), selection: s.selection.is_some(),
        group_by, having: s.having.is_some(), cluster_by: s.cluster_by.len(),
        distribute_by: s.distribute_by.len(), sort_by: s.sort_by.len(),
        qualify: s.qualify.is_some(),
    })
}

/// Reads what else the first statement has: `Parser::parse_sql` of `sqlparser`,
/// and which further parts its `Select` has. The result is named.
#[verifier::external_body]
pub(crate) fn select_modifiers(sql: &str) -> (r: Option<SelectModifiers>)
    ensures
        r == first_modifiers(sql@),
{
    let Statement::Query(q) = Parser::parse_sql(&PostgreSqlDialect {}, sql).ok()?.into_iter().next()?
        else { return None };
    let SetExpr::Select(s) = *q.body else { return None };
    Some(SelectModifiers {
        distinct: s.distinct.is_some(), top: s.top.is_some(), exclude: s.exclude.is_some(),
        into: s.into.is_some(), lateral_views: s.lateral_views.len(),
        prewhere: s.prewhere.is_some(), windows: s.named_window.len(),
        value_table_mode: s.value_table_mode.is_some(), connect_by: s.connect_by.is_some(),
    })
}

/// One item of a projection, its expression as the parser has it.
enum Item {
    Unnamed(Expr),
    Alias(String, Expr),
    Wildcard,
    QualifiedWildcard(String),
}

/// An item, its expression described.
spec fn item_view(item: Item) -> ProjectedView {
    match item {
        Item::Unnamed(expr) => ProjectedView::Unnamed(node_in(expr)),
        Item::Alias(alias, expr) => ProjectedView::Alias { alias: alias@, node: node_in(expr) },
        Item::Wildcard => ProjectedView::Wildcard,
        Item::QualifiedWildcard(name) => ProjectedView::QualifiedWildcard(name@),
    }
}

/// Reads the projection of the first statement: `Parser::parse_sql` of
/// `sqlparser`, and the items of its `Select`. The result, with each expression
/// described, is named.
#[verifier::external_body]
fn projection(sql: &str) -> (r: Option<Vec<Item>>)
    ensures
        match r {
            Some(v) => first_projection(sql@) == Some(
                Seq::new(v@.len(), |i: int| item_view(v@[i])),
            ),
            None => first_projection(sql@) is None,
        },
{
    let parsed = Parser::parse_sql(&PostgreSqlDialect {}, sql).ok()?;
    let Statement::Query(q) = parsed.into_iter().next()? else { return None };
    let SetExpr::Select(select) = *q.body else { return None };
    let item = |item: SelectItem| match item {
        SelectItem::UnnamedExpr(expr) => Item::Unnamed(expr),
        SelectItem::ExprWithAlias { expr, alias } => Item::Alias(alias.value, expr),
        SelectItem::Wildcard(_) => Item::Wildcard,
        SelectItem::QualifiedWildcard(kind, _) => Item::QualifiedWildcard(kind.to_string()),
    };
    Some(select.projection.into_iter().map(item).collect())
}

/// Reads the projection of the first statement, and describes its expressions.
pub(crate) fn projection_items(sql: &str) -> (r: Option<Vec<Projected>>)
    ensures
        match r {
            Some(v) => first_projection(sql@) == Some(projected_views(v@)),
            None => first_projection(sql@) is None,
        },
{
    let Some(items) = projection(sql) else {
        return None;
    };
    let mut r: Vec<Projected> = Vec::new();
    let mut i: usize = 0;
    while i < items.len()
        invariant
            i <= items@.len(),
            r@.len() == i,
            forall|k: int| 0 <= k < i ==> (#[trigger] r@[k])@ == item_view(items@[k]),
        decreases items@.len() - i,
    {
        r.push(
            match &items[i] {
                Item::Unnamed(expr) => Projected::Unnamed(describe(expr)),
                Item::Alias(alias, expr) => Projected::Alias {
                    alias: alias.clone(),
                    node: describe(expr),
                },
                Item::Wildcard => Projected::Wildcard,
                Item::QualifiedWildcard(name) => Projected::QualifiedWildcard(name.clone()),
            },
        );
        i += 1;
    }
    assert(projected_views(r@) =~= Seq::new(items@.len(), |k: int| item_view(items@[k])));
    Some(r)
}

/// A change to one expression.
#[derive(Clone, Debug)]
pub enum Edit {
    /// No change.
    Keep,
    /// A cast is written as `CAST(... AS ...)` where `as_call` is set, and to
    /// another type where there is one.
    Cast { as_call: bool, target: Option<String> },
    /// The operands of an `ILIKE` are passed through a function, and the
    /// comparison becomes a `LIKE`.
    LikeThrough(String),
    /// The first part of a function's name is replaced.
    Rename(String),
}

/// A change to one expression, its texts as characters.
pub enum EditView {
    Keep,
    Cast { as_call: bool, target: Option<Seq<char>> },
    LikeThrough(Seq<char>),
    Rename(Seq<char>),
}

impl View for Edit {
    type V = EditView;

    open spec fn view(&self) -> EditView {
        match self {
            Edit::Keep => EditView::Keep,
            Edit::Cast { as_call, target } => EditView::Cast {
                as_call: *as_call,
                target: text::text_view(*target),
            },
            Edit::LikeThrough(function) => EditView::LikeThrough(function@),
            Edit::Rename(name) => EditView::Rename(name@),
        }
    }
}

/// A list of changes, each by its view.
pub open spec fn edit_views(edits: Seq<Edit>) -> Seq<EditView> {
    Seq::new(edits.len(), |i: int| edits[i]@)
}

/// The type names that a cast can be changed to.
pub open spec fn is_cast_target(name: Seq<char>) -> bool {
    name == "VARCHAR"@ || name == "SMALLINT"@ || name == "INTEGER"@ || name == "BIGINT"@ || name
        == "REAL"@ || name == "DOUBLE PRECISION"@ || name == "BOOLEAN"@ || name == "VARBINARY"@
}

/// Writes a cast as `CAST(... AS ...)`: sets the kind of `sqlparser`'s
/// `Expr::Cast` to `CastKind::Cast`, and nothing else.
#[verifier::external_body]
fn set_cast_call(expr: &mut Expr)
    requires
        cast_in(*old(expr)) is Some,
    ensures
        cast_in(*final(expr)) == Some(
            CastView { double_colon: false, target: cast_in(*old(expr))->0.target },
        ),
{
    if let Expr::Cast { kind, .. } = expr {
        *kind = CastKind::Cast;
    }
}

/// Changes the target type of a cast: sets the data type of `sqlparser`'s
/// `Expr::Cast` to what `Parser::parse_data_type` makes of the name. Each of
/// the names that `is_cast_target` lists parses, and prints as itself.
#[verifier::external_body]
fn set_cast_target(expr: &mut Expr, target: &str)
    requires
        cast_in(*old(expr)) is Some,
        is_cast_target(target@),
    ensures
        cast_in(*final(expr)) == Some(
            CastView { double_colon: cast_in(*old(expr))->0.double_colon, target: target@ },
        ),
{
    if let Expr::Cast { data_type, .. } = expr {
        let mut parser = Parser::new(&PostgreSqlDialect {}).try_with_sql(target).unwrap();
        *data_type = parser.parse_data_type().unwrap();
    }
}

/// Replaces the first part of a function's name: sets the value of the first
/// identifier in the name of `sqlparser`'s `Expr::Function`, and nothing else.
#[verifier::external_body]
fn set_call_name(expr: &mut Expr, name: &str)
    requires
        call_in(*old(expr)) is Some,
        call_in(*old(expr))->0.name.len() > 0,
        call_in(*old(expr))->0.name[0] is Some,
    ensures
        call_in(*final(expr)) == Some(
            CallView {
                name: call_in(*old(expr))->0.name.update(0, Some(name@)),
                args: call_in(*old(expr))->0.args,
            },
        ),
{
    if let Expr::Function(f) = expr {
        if let Some(ObjectNamePart::Identifier(ident)) = f.name.0.first_mut() {
            ident.value = name.to_owned();
        }
    }
}

/// Turns an `ILIKE` into a `LIKE` whose operands are passed through a
/// function: replaces `sqlparser`'s `Expr::ILike` by an `Expr::Like` with the
/// same negation and escape character, whose operands are calls of the
/// function on the old ones.
#[verifier::external_body]
fn set_like_through(expr: &mut Expr, function: &str)
    requires
        like_in(*old(expr)) is Some,
        like_in(*old(expr))->0.ignores_case,
    ensures
        like_in(*final(expr)) == Some(like_through(like_in(*old(expr))->0, function@)),
{
    let call = |e: Box<Expr>| Box::new(Expr::Function(Function {
        name: ObjectName::from(vec![Ident::new(function)]), uses_odbc_syntax: false,
        parameters: FunctionArguments::None, filter: None, null_treatment: None, over: None,
        args: FunctionArguments::List(FunctionArgumentList { duplicate_treatment: None,
            args: vec![FunctionArg::Unnamed(FunctionArgExpr::Expr(*e))], clauses: vec![] }),
        within_group: vec![],
    }));
    let owned = std::mem::replace(expr, Expr::Value(Value::Null.into()));
    if let Expr::ILike { negated, expr: e, pattern: p, escape_char, .. } = owned {
        *expr = Expr::Like { negated, any: false, expr: call(e), pattern: call(p), escape_char };
    }
}

/// A comparison whose operands are passed through a function, by case.
pub open spec fn like_through(like: LikeView, function: Seq<char>) -> LikeView {
    LikeView {
        ignores_case: false,
        negated: like.negated,
        subject: function + "("@ + like.subject + ")"@,
        pattern: function + "("@ + like.pattern + ")"@,
        escape: like.escape,
    }
}

/// A change fits the expression that it is made to.
pub open spec fn edit_fits(node: NodeView, edit: EditView) -> bool {
    match edit {
        EditView::Keep => true,
        EditView::Cast { as_call, target } => node is Cast && (target matches Some(t)
            ==> is_cast_target(t)),
        EditView::LikeThrough(function) => node is ILike,
        EditView::Rename(name) => node matches NodeView::Call(c) && c.name.len() > 0
            && c.name[0] is Some,
    }
}

/// A cast after a change.
pub open spec fn cast_edited(cast: CastView, as_call: bool, target: Option<Seq<char>>) -> CastView {
    CastView {
        double_colon: cast.double_colon && !as_call,
        target: match target {
            Some(t) => t,
            None => cast.target,
        },
    }
}

/// What a change makes of a tree node.
pub open spec fn edit_made(before: Expr, edit: EditView, after: Expr) -> bool {
    match edit {
        EditView::Keep => after == before,
        EditView::Cast { as_call, target } => cast_in(after) == Some(
            cast_edited(cast_in(before)->0, as_call, target),
        ),
        EditView::LikeThrough(function) => like_in(after) == Some(
            like_through(like_in(before)->0, function),
        ),
        EditView::Rename(name) => call_in(after) == Some(
            CallView {
                name: call_in(before)->0.name.update(0, Some(name)),
                args: call_in(before)->0.args,
            },
        ),
    }
}

/// Makes a change to a tree node, where it fits.
fn apply_edit(expr: &mut Expr, edit: &Edit)
    requires
        edit_fits(node_in(*old(expr)), edit@),
    ensures
        edit_made(*old(expr), edit@, *final(expr)),
{
    match edit {
        Edit::Keep => {},
        Edit::Cast { as_call, target } => {
            if *as_call {
                set_cast_call(expr);
            }
            if let Some(t) = target {
                set_cast_target(expr, t.as_str());
            }
        },
        Edit::LikeThrough(function) => set_like_through(expr, function.as_str()),
        Edit::Rename(name) => set_call_name(expr, name.as_str()),
    }
}

/// The expressions of a text, each after its parts.
pub uninterp spec fn inner_first(sql: Seq<char>) -> Option<Seq<NodeView>>;

/// Lists the expressions of a text, each after its parts:
/// `Parser::parse_sql` and `visit_expressions_mut` of `sqlparser`. The result
/// is named; there is one exactly where the text can be parsed.
#[verifier::external_body]
pub(crate) fn inner_first_nodes(sql: &str) -> (r: Option<Vec<Node>>)
    ensures
        match r {
            Some(v) => inner_first(sql@) == Some(node_views(v@)),
            None => inner_first(sql@) is None,
        },
        r is Some <==> statements(sql@) is Some,
{
    let mut parsed = Parser::parse_sql(&PostgreSqlDialect {}, sql).ok()?;
    let mut found = Vec::new();
    let _ = sqlparser::ast::visit_expressions_mut(
        &mut parsed,
        |expr| {
            found.push(describe(expr));
            ControlFlow::<()>::Continue(())
        },
    );
    Some(found)
}

/// The statements of a text as the parser prints them once a change was made
/// to each expression, in the order of `inner_first`.
pub uninterp spec fn edited(sql: Seq<char>, edits: Seq<EditView>) -> Option<Seq<Seq<char>>>;

/// One change for each expression of a text, and each fits.
pub open spec fn edits_fit(sql: Seq<char>, edits: Seq<EditView>) -> bool {
    inner_first(sql) matches Some(nodes) && edits.len() == nodes.len() && forall|i: int|
        0 <= i < nodes.len() ==> edit_fits(nodes[i], #[trigger] edits[i])
}

/// Makes one change to each expression of a text and prints its statements:
/// `Parser::parse_sql` and `visit_expressions_mut` of `sqlparser`, and each
/// statement's `Display`. The result is named. There is one exactly where the
/// text can be parsed; it has as many statements as the text, and where no
/// change is made they print as they would without.
#[verifier::external_body]
pub(crate) fn edited_statements(sql: &str, edits: &Vec<Edit>) -> (r: Option<Vec<String>>)
    requires
        edits_fit(sql@, edit_views(edits@)),
    ensures
        match r {
            Some(v) => edited(sql@, edit_views(edits@)) == Some(text::string_views(v@)),
            None => edited(sql@, edit_views(edits@)) is None,
        },
        r is Some <==> statements(sql@) is Some,
        r matches Some(v) ==> v@.len() == statements(sql@)->0.len(),
        (forall|i: int| 0 <= i < edits@.len() ==> (#[trigger] edits@[i]) is Keep) && r is Some
            ==> text::string_views(r->0@) == statements(sql@)->0,
{
    let mut parsed = Parser::parse_sql(&PostgreSqlDialect {}, sql).ok()?;
    let mut next = edits.iter();
    let _ = sqlparser::ast::visit_expressions_mut(
        &mut parsed,
        |expr| {
            apply_edit(expr, next.next().unwrap());
            ControlFlow::<()>::Continue(())
        },
    );
    Some(parsed.iter().map(|s| s.to_string()).collect())
}

/// A change is to what it names alone: nothing where it keeps, the spelling and the
/// type of a cast, the first part of a function's name and not its arguments, and the
/// operands of a comparison and not its negation or escape.
pub proof fn edits_change_what_they_name(before: Expr, edit: EditView, after: Expr)
    requires
        edit_fits(node_in(before), edit),
        edit_made(before, edit, after),
    ensures
        match edit {
            EditView::Keep => after == before,
            EditView::Cast { as_call, target } => cast_in(before) matches Some(b) && (cast_in(after)
                matches Some(a) && (as_call ==> !a.double_colon) && (!as_call ==> a.double_colon
                == b.double_colon) && (target matches Some(t) ==> a.target == t) && (target is None
                ==> a.target == b.target)),
            EditView::LikeThrough(function) => like_in(before) matches Some(b) && b.ignores_case
                && (like_in(after) matches Some(a) && !a.ignores_case && a.negated == b.negated
                && a.escape == b.escape && a.subject == function + seq!['('] + b.subject + seq![')']
                && a.pattern == function + seq!['('] + b.pattern + seq![')']),
            EditView::Rename(name) => call_in(before) matches Some(b) && (call_in(after) matches Some(
                a,
            ) && a.args == b.args && a.name.len() == b.name.len() && a.name[0] == Some(name)
                && forall|i: int| 1 <= i < a.name.len() ==> #[trigger] a.name[i] == b.name[i]),
        },
{
    reveal_strlit("(");
    reveal_strlit(")");
    assert("("@ =~= seq!['(']);
    assert(")"@ =~= seq![')']);
}

/// A tree node is described as what it is: a cast before a call, a call before a
/// comparison, and a comparison only where it ignores case.
pub proof fn nodes_are_described(expr: Expr)
    ensures
        cast_in(expr) matches Some(c) ==> node_in(expr) == NodeView::Cast(c),
        node_in(expr) matches NodeView::Cast(c) ==> cast_in(expr) == Some(c),
        node_in(expr) matches NodeView::Call(c) ==> call_in(expr) == Some(c),
        node_in(expr) is ILike ==> (like_in(expr) matches Some(l) && l.ignores_case),
        node_in(expr) matches NodeView::Identifier(id) ==> identifier_in(expr) == Some(id),
        node_in(expr) matches NodeView::Compound(parts) ==> compound_in(expr) == Some(parts),
        node_in(expr) is Other ==> cast_in(expr) is None && call_in(expr) is None && (like_in(expr)
            matches Some(l) ==> !l.ignores_case) && identifier_in(expr) is None && compound_in(
            expr,
        ) is None,
{
}

/// Each change stands for one expression: lists are taken in order and none is left
/// out.
pub proof fn lists_are_in_order(nodes: Seq<Node>, edits: Seq<Edit>, items: Seq<Projected>, i: int)
    ensures
        node_views(nodes).len() == nodes.len(),
        edit_views(edits).len() == edits.len(),
        projected_views(items).len() == items.len(),
        0 <= i < nodes.len() ==> node_views(nodes)[i] == nodes[i]@,
        0 <= i < edits.len() ==> edit_views(edits)[i] == edits[i]@,
        0 <= i < items.len() ==> projected_views(items)[i] == items[i]@,
{
}

} // verus!
