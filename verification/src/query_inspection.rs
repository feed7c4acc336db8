//! Inspection of incoming SQL for routing decisions.
//!
//! Matching substrings of the raw SQL would misroute any query that has a
//! catalog name in a string literal, a comment or a column reference. The
//! statement is parsed instead, and its relations and function calls are
//! looked at.
use vstd::prelude::*;

use crate::sql;
use crate::sql::{
    Node, NodeView, Projected, ProjectedView, QueryClauses, SelectClauses, SelectModifiers,
};
use crate::text;
use crate::text::eq_ignore_case;

verus! {

/// What the parser reports of one SQL text.
pub struct ParsedQuery {
    source: Ghost<Seq<char>>,
    relations: Option<Vec<Vec<Option<String>>>>,
    expressions: Option<Vec<Node>>,
    statements: Option<Vec<String>>,
    query: Option<QueryClauses>,
    select: Option<SelectClauses>,
    modifiers: Option<SelectModifiers>,
    projection: Option<Vec<Projected>>,
}

/// The last part of a name is an identifier equal to `want`, in any case.
pub open spec fn last_is(parts: Seq<Option<Seq<char>>>, want: Seq<char>) -> bool {
    parts.len() > 0 && (parts.last() matches Some(id) && text::same_ignoring_case(id, want))
}

/// Whether the last part of a name is an identifier equal to `want`.
///
/// The last part is always the table or function name; those in front of it
/// are catalog or schema qualifiers.
fn last_ident_eq(parts: &Vec<Option<String>>, want: &str) -> (r: bool)
    ensures
        r == last_is(text::text_views(parts@), want@),
{
    if parts.len() == 0 {
        return false;
    }
    match &parts[parts.len() - 1] {
        Some(id) => eq_ignore_case(id.as_str(), want),
        None => false,
    }
}

/// Some name of a list has the last part `name`.
pub open spec fn any_last(names: Seq<Seq<Option<Seq<char>>>>, name: Seq<char>) -> bool {
    exists|i: int| 0 <= i < names.len() && last_is(#[trigger] names[i], name)
}

/// Some relation of a text has the table name `name`.
pub open spec fn mentions_table(sql: Seq<char>, name: Seq<char>) -> bool {
    match sql::relations(sql) {
        Some(names) => any_last(names, name),
        None => false,
    }
}

/// A name is `name`, and it is either unqualified or qualified with `schema`.
pub open spec fn is_in_schema(
    parts: Seq<Option<Seq<char>>>,
    schema: Seq<char>,
    name: Seq<char>,
) -> bool {
    last_is(parts, name) && (parts.len() == 1 || (parts[parts.len() - 2] matches Some(id)
        && text::same_ignoring_case(id, schema)))
}

/// Some name of a list is `name`, unqualified or qualified with `schema`.
pub open spec fn any_in_schema(
    names: Seq<Seq<Option<Seq<char>>>>,
    schema: Seq<char>,
    name: Seq<char>,
) -> bool {
    exists|i: int| 0 <= i < names.len() && is_in_schema(#[trigger] names[i], schema, name)
}

/// Some relation of a text is the table `name` of the given schema, or `name`
/// without a schema.
pub open spec fn mentions_table_in(sql: Seq<char>, schema: Seq<char>, name: Seq<char>) -> bool {
    match sql::relations(sql) {
        Some(names) => any_in_schema(names, schema, name),
        None => false,
    }
}

/// An expression is a call of the function `name`.
pub open spec fn is_call(node: NodeView, name: Seq<char>) -> bool {
    node matches NodeView::Call(c) && last_is(c.name, name)
}

/// Some expression of a list is a call of the function `name`.
pub open spec fn any_call(nodes: Seq<NodeView>, name: Seq<char>) -> bool {
    exists|i: int| 0 <= i < nodes.len() && is_call(#[trigger] nodes[i], name)
}

/// Some expression of a text is a call of the function `name`.
pub open spec fn mentions_call(sql: Seq<char>, name: Seq<char>) -> bool {
    match sql::expressions(sql) {
        Some(nodes) => any_call(nodes, name),
        None => false,
    }
}

/// An expression is the identifier `name`, in any case.
pub open spec fn is_identifier(node: NodeView, name: Seq<char>) -> bool {
    node matches NodeView::Identifier(id) && text::same_ignoring_case(id, name)
}

/// Some expression of a list is the identifier `name`.
pub open spec fn any_identifier(nodes: Seq<NodeView>, name: Seq<char>) -> bool {
    exists|i: int| 0 <= i < nodes.len() && is_identifier(#[trigger] nodes[i], name)
}

/// Some expression of a text is the identifier `name`.
pub open spec fn mentions_identifier(sql: Seq<char>, name: Seq<char>) -> bool {
    match sql::expressions(sql) {
        Some(nodes) => any_identifier(nodes, name),
        None => false,
    }
}

/// The string literal that is the first argument of a call of `name`.
pub open spec fn first_literal(node: NodeView, name: Seq<char>) -> Option<Seq<char>> {
    match node {
        NodeView::Call(c) => if last_is(c.name, name) && c.args.len() > 0 {
            c.args[0]
        } else {
            None
        },
        _ => None,
    }
}

/// The first string literal, from position `i` on, that is the first argument
/// of a call of `name`.
pub open spec fn literal_from(nodes: Seq<NodeView>, name: Seq<char>, i: int) -> Option<Seq<char>>
    decreases nodes.len() - i,
{
    if 0 <= i < nodes.len() {
        match first_literal(nodes[i], name) {
            Some(s) => Some(s),
            None => literal_from(nodes, name, i + 1),
        }
    } else {
        None
    }
}

/// The first string literal that a text passes as first argument to `name`.
pub open spec fn call_literal(sql: Seq<char>, name: Seq<char>) -> Option<Seq<char>> {
    match sql::expressions(sql) {
        Some(nodes) => literal_from(nodes, name, 0),
        None => None,
    }
}

/// A query has no clause around its body.
pub open spec fn is_plain_query(q: QueryClauses) -> bool {
    &&& !q.with && !q.order_by && !q.limit && !q.fetch && !q.for_clause && !q.settings
    &&& !q.format_clause && q.locks == 0 && q.pipe_operators == 0
}

/// A `SELECT` has a projection of one item and no other clause.
pub open spec fn is_plain_select(s: SelectClauses) -> bool {
    &&& s.projection == 1 && s.from == 0 && !s.selection
    &&& s.group_by == Some((0usize, 0usize)) && !s.having && s.cluster_by == 0
    &&& s.distribute_by == 0 && s.sort_by == 0 && !s.qualify
}

/// A `SELECT` has nothing else either.
pub open spec fn is_unmodified(m: SelectModifiers) -> bool {
    &&& !m.distinct && !m.top && !m.exclude && !m.into && m.lateral_views == 0 && !m.prewhere
    &&& m.windows == 0 && !m.value_table_mode && !m.connect_by
}

/// A text is one `SELECT` of one item, with no other clause.
pub open spec fn is_bare(sql: Seq<char>) -> bool {
    &&& sql::statements(sql) matches Some(list) && list.len() == 1
    &&& sql::first_query(sql) matches Some(q) && is_plain_query(q)
    &&& sql::first_select(sql) matches Some(s) && is_plain_select(s)
    &&& sql::first_modifiers(sql) matches Some(m) && is_unmodified(m)
}

/// The expression of a projection item; a wildcard has none.
pub open spec fn item_node(item: ProjectedView) -> Option<NodeView> {
    match item {
        ProjectedView::Unnamed(node) => Some(node),
        ProjectedView::Alias { alias, node } => Some(node),
        _ => None,
    }
}

/// The expression that a text projects, where it is the only one.
pub open spec fn sole_item(sql: Seq<char>) -> Option<NodeView> {
    match sql::first_projection(sql) {
        Some(items) => if items.len() == 1 {
            item_node(items[0])
        } else {
            None
        },
        None => None,
    }
}

/// The one expression that a text projects is a call of the function `name`.
pub open spec fn projects_call(sql: Seq<char>, name: Seq<char>) -> bool {
    sole_item(sql) matches Some(node) && is_call(node, name)
}

/// The one expression that a text projects is the identifier `name`.
pub open spec fn projects_identifier(sql: Seq<char>, name: Seq<char>) -> bool {
    sole_item(sql) matches Some(node) && is_identifier(node, name)
}

/// The string literal that is the first argument of a call of `name`, where that
/// call is the one expression that a text projects.
pub open spec fn projected_literal(sql: Seq<char>, name: Seq<char>) -> Option<Seq<char>> {
    match sole_item(sql) {
        Some(node) => first_literal(node, name),
        None => None,
    }
}

/// The name that PostgreSQL gives to an expression without an alias: the last
/// part of an identifier or of a function's name, `?column?` for all others.
pub open spec fn unnamed_name(node: NodeView) -> Seq<char> {
    match node {
        NodeView::Identifier(id) => id,
        NodeView::Compound(parts) => if parts.len() > 0 {
            parts.last()
        } else {
            "?column?"@
        },
        NodeView::Call(c) => if c.name.len() > 0 && c.name.last() is Some {
            c.name.last()->0
        } else {
            "?column?"@
        },
        _ => "?column?"@,
    }
}

/// The column name of a projection item.
pub open spec fn projected_name(item: ProjectedView) -> Seq<char> {
    match item {
        ProjectedView::Unnamed(node) => unnamed_name(node),
        ProjectedView::Alias { alias, node } => alias,
        ProjectedView::Wildcard => "*"@,
        ProjectedView::QualifiedWildcard(name) => name,
    }
}

/// The column names of a text's `SELECT`; none where it is not one.
pub open spec fn column_names(sql: Seq<char>) -> Seq<Seq<char>> {
    match sql::first_projection(sql) {
        Some(items) => Seq::new(items.len(), |i: int| projected_name(items[i])),
        None => Seq::empty(),
    }
}

/// The name that PostgreSQL gives to an expression without an alias.
fn unnamed_select_name(node: &Node) -> (r: String)
    ensures
        r@ == unnamed_name(node@),
{
    match node {
        Node::Identifier(id) => id.clone(),
        Node::Compound(parts) => if parts.len() > 0 {
            parts[parts.len() - 1].clone()
        } else {
            "?column?".to_owned()
        },
        Node::Call(c) => if c.name.len() > 0 {
            match &c.name[c.name.len() - 1] {
                Some(id) => id.clone(),
                None => "?column?".to_owned(),
            }
        } else {
            "?column?".to_owned()
        },
        _ => "?column?".to_owned(),
    }
}

/// The column name of a projection item.
fn select_name(item: &Projected) -> (r: String)
    ensures
        r@ == projected_name(item@),
{
    match item {
        Projected::Unnamed(node) => unnamed_select_name(node),
        Projected::Alias { alias, .. } => alias.clone(),
        Projected::Wildcard => "*".to_owned(),
        Projected::QualifiedWildcard(name) => name.clone(),
    }
}

impl View for ParsedQuery {
    type V = Seq<char>;

    /// The text that was parsed.
    closed spec fn view(&self) -> Seq<char> {
        self.source@
    }
}

impl ParsedQuery {
    /// What is held is what the parser reports of the text.
    #[verifier::type_invariant]
    spec fn well_formed(self) -> bool {
        let sql = self.source@;
        &&& match self.relations {
            Some(v) => sql::relations(sql) == Some(sql::name_views(v@)),
            None => sql::relations(sql) is None,
        }
        &&& match self.expressions {
            Some(v) => sql::expressions(sql) == Some(sql::node_views(v@)),
            None => sql::expressions(sql) is None,
        }
        &&& match self.statements {
            Some(v) => sql::statements(sql) == Some(text::string_views(v@)),
            None => sql::statements(sql) is None,
        }
        &&& self.query == sql::first_query(sql)
        &&& self.select == sql::first_select(sql)
        &&& self.modifiers == sql::first_modifiers(sql)
        &&& match self.projection {
            Some(v) => sql::first_projection(sql) == Some(sql::projected_views(v@)),
            None => sql::first_projection(sql) is None,
        }
    }

    /// Parses a text.
    pub fn new(sql: &str) -> (r: Self)
        ensures
            r@ == sql@,
    {
        ParsedQuery {
            source: Ghost(sql@),
            relations: sql::relation_names(sql),
            expressions: sql::expression_nodes(sql),
            statements: sql::statement_texts(sql),
            query: sql::query_clauses(sql),
            select: sql::select_clauses(sql),
            modifiers: sql::select_modifiers(sql),
            projection: sql::projection_items(sql),
        }
    }

    /// Whether some relation has the given table name, in any schema and in
    /// any case. False where the text cannot be parsed.
    pub fn references_table(&self, name: &str) -> (r: bool)
        ensures
            r == mentions_table(self@, name@),
    {
        proof {
            use_type_invariant(self);
        }
        let Some(names) = &self.relations else {
            return false;
        };
        let ghost views = sql::name_views(names@);
        let mut i: usize = 0;
        while i < names.len()
            invariant
                i <= names@.len(),
                views == sql::name_views(names@),
                sql::relations(self@) == Some(views),
                forall|k: int| 0 <= k < i ==> !last_is(#[trigger] views[k], name@),
            decreases names@.len() - i,
        {
            if last_ident_eq(&names[i], name) {
                assert(last_is(views[i as int], name@));
                assert(any_last(views, name@));
                return true;
            }
            i += 1;
        }
        false
    }

    /// Whether some relation has the given table name and is either
    /// unqualified or qualified with the given schema.
    ///
    /// For table names common enough to clash with those of users.
    pub fn references_table_in_schema(&self, schema: &str, name: &str) -> (r: bool)
        ensures
            r == mentions_table_in(self@, schema@, name@),
    {
        proof {
            use_type_invariant(self);
        }
        let Some(names) = &self.relations else {
            return false;
        };
        let ghost views = sql::name_views(names@);
        let mut i: usize = 0;
        while i < names.len()
            invariant
                i <= names@.len(),
                views == sql::name_views(names@),
                sql::relations(self@) == Some(views),
                forall|k: int|
                    0 <= k < i ==> !is_in_schema(#[trigger] views[k], schema@, name@),
            decreases names@.len() - i,
        {
            let parts = &names[i];
            if last_ident_eq(parts, name) {
                let qualified_ok = if parts.len() == 1 {
                    true
                } else {
                    match &parts[parts.len() - 2] {
                        Some(id) => eq_ignore_case(id.as_str(), schema),
                        None => false,
                    }
                };
                if qualified_ok {
                    assert(is_in_schema(views[i as int], schema@, name@));
                    assert(any_in_schema(views, schema@, name@));
                    return true;
                }
            }
            i += 1;
        }
        false
    }

    /// Whether some expression is a call of the given function. A bare
    /// identifier is no call.
    pub fn calls_function(&self, name: &str) -> (r: bool)
        ensures
            r == mentions_call(self@, name@),
    {
        proof {
            use_type_invariant(self);
        }
        let Some(nodes) = &self.expressions else {
            return false;
        };
        let ghost views = sql::node_views(nodes@);
        let mut i: usize = 0;
        while i < nodes.len()
            invariant
                i <= nodes@.len(),
                views == sql::node_views(nodes@),
                sql::expressions(self@) == Some(views),
                forall|k: int| 0 <= k < i ==> !is_call(#[trigger] views[k], name@),
            decreases nodes@.len() - i,
        {
            if let Node::Call(c) = &nodes[i] {
                if last_ident_eq(&c.name, name) {
                    assert(is_call(views[i as int], name@));
                    assert(any_call(views, name@));
                    return true;
                }
            }
            i += 1;
        }
        false
    }

    /// Whether the given name is called as a function or stands as a bare
    /// identifier.
    ///
    /// For SQL keywords that PostgreSQL allows without parentheses and that
    /// the parser takes for identifiers, such as `current_schema`.
    pub fn calls_function_or_keyword(&self, name: &str) -> (r: bool)
        ensures
            r == (mentions_call(self@, name@) || mentions_identifier(self@, name@)),
    {
        proof {
            use_type_invariant(self);
        }
        if self.calls_function(name) {
            return true;
        }
        let Some(nodes) = &self.expressions else {
            return false;
        };
        let ghost views = sql::node_views(nodes@);
        let mut i: usize = 0;
        while i < nodes.len()
            invariant
                i <= nodes@.len(),
                views == sql::node_views(nodes@),
                sql::expressions(self@) == Some(views),
                !mentions_call(self@, name@),
                forall|k: int| 0 <= k < i ==> !is_identifier(#[trigger] views[k], name@),
            decreases nodes@.len() - i,
        {
            if let Node::Identifier(id) = &nodes[i] {
                if eq_ignore_case(id.as_str(), name) {
                    assert(is_identifier(views[i as int], name@));
                    assert(any_identifier(views, name@));
                    return true;
                }
            }
            i += 1;
        }
        false
    }

    /// The first string literal that is passed as first argument to a call of
    /// the given function, in the order of the parser's traversal.
    pub fn function_string_arg(&self, name: &str) -> (r: Option<String>)
        ensures
            text::text_view(r) == call_literal(self@, name@),
    {
        proof {
            use_type_invariant(self);
        }
        let Some(nodes) = &self.expressions else {
            return None;
        };
        let ghost views = sql::node_views(nodes@);
        let mut i: usize = 0;
        while i < nodes.len()
            invariant
                i <= nodes@.len(),
                views == sql::node_views(nodes@),
                sql::expressions(self@) == Some(views),
                literal_from(views, name@, 0) == literal_from(views, name@, i as int),
            decreases nodes@.len() - i,
        {
            if let Node::Call(c) = &nodes[i] {
                if last_ident_eq(&c.name, name) && c.args.len() > 0 {
                    if let Some(s) = &c.args[0] {
                        assert(first_literal(views[i as int], name@) == Some(s@));
                        return Some(s.clone());
                    }
                }
            }
            assert(first_literal(views[i as int], name@) is None);
            i += 1;
        }
        None
    }

    /// Whether the text is `SELECT <expr> [AS alias]`, one item with no FROM,
    /// WHERE, GROUP BY, ORDER BY or other clause.
    ///
    /// A stub reply of one row fits nothing else: not a column reference such
    /// as `WHERE current_schema = 'public'`, nor a projection of two calls.
    pub fn is_bare_scalar_select(&self) -> (r: bool)
        ensures
            r == is_bare(self@),
    {
        proof {
            use_type_invariant(self);
        }
        let Some(list) = &self.statements else {
            return false;
        };
        if list.len() != 1 {
            return false;
        }
        let Some(q) = self.query else {
            return false;
        };
        if q.with || q.order_by || q.limit || q.fetch || q.for_clause || q.settings
            || q.format_clause || q.locks != 0 || q.pipe_operators != 0 {
            return false;
        }
        let Some(s) = self.select else {
            return false;
        };
        let has_group_by = match s.group_by {
            Some((exprs, modifiers)) => exprs != 0 || modifiers != 0,
            None => true,
        };
        if s.from != 0 || s.selection || has_group_by || s.having || s.cluster_by != 0
            || s.distribute_by != 0 || s.sort_by != 0 || s.qualify || s.projection != 1 {
            return false;
        }
        let Some(m) = self.modifiers else {
            return false;
        };
        !(m.distinct || m.top || m.exclude || m.into || m.lateral_views != 0 || m.prewhere
            || m.windows != 0 || m.value_table_mode || m.connect_by)
    }

    /// The expression that the text projects, where it is the only one.
    fn projected(&self) -> (r: Option<&Node>)
        ensures
            match r {
                Some(node) => sole_item(self@) == Some(node@),
                None => sole_item(self@) is None,
            },
    {
        proof {
            use_type_invariant(self);
        }
        let Some(items) = &self.projection else {
            return None;
        };
        if items.len() != 1 {
            return None;
        }
        assert(sql::first_projection(self@)->0[0] == items@[0]@);
        match &items[0] {
            Projected::Unnamed(node) => Some(node),
            Projected::Alias { node, .. } => Some(node),
            _ => None,
        }
    }

    /// Whether the one expression that the text projects is a call of the given
    /// function. A call inside another expression does not count.
    pub fn projects_function(&self, name: &str) -> (r: bool)
        ensures
            r == projects_call(self@, name@),
    {
        match self.projected() {
            Some(Node::Call(c)) => last_ident_eq(&c.name, name),
            _ => false,
        }
    }

    /// Whether the one expression that the text projects is a call of the given
    /// function, or the bare identifier.
    pub fn projects_function_or_keyword(&self, name: &str) -> (r: bool)
        ensures
            r == (projects_call(self@, name@) || projects_identifier(self@, name@)),
    {
        match self.projected() {
            Some(Node::Call(c)) => last_ident_eq(&c.name, name),
            Some(Node::Identifier(id)) => eq_ignore_case(id.as_str(), name),
            _ => false,
        }
    }

    /// The string literal that is the first argument of a call of the given
    /// function, where that call is the one expression that the text projects.
    pub fn projected_string_arg(&self, name: &str) -> (r: Option<String>)
        ensures
            text::text_view(r) == projected_literal(self@, name@),
    {
        match self.projected() {
            Some(Node::Call(c)) => if last_ident_eq(&c.name, name) && c.args.len() > 0 {
                match &c.args[0] {
                    Some(s) => Some(s.clone()),
                    None => None,
                }
            } else {
                None
            },
            _ => None,
        }
    }

    /// The column names of the first statement's projection; none where the
    /// text cannot be parsed or is no `SELECT`.
    pub fn select_column_names(&self) -> (r: Vec<String>)
        ensures
            text::string_views(r@) == column_names(self@),
    {
        proof {
            use_type_invariant(self);
        }
        let mut r: Vec<String> = Vec::new();
        let Some(items) = &self.projection else {
            assert(text::string_views(r@) =~= Seq::<Seq<char>>::empty());
            return r;
        };
        let ghost views = sql::projected_views(items@);
        let mut i: usize = 0;
        while i < items.len()
            invariant
                i <= items@.len(),
                views == sql::projected_views(items@),
                sql::first_projection(self@) == Some(views),
                r@.len() == i,
                forall|k: int| 0 <= k < i ==> (#[trigger] r@[k])@ == projected_name(views[k]),
            decreases items@.len() - i,
        {
            r.push(select_name(&items[i]));
            i += 1;
        }
        assert(text::string_views(r@) =~= Seq::new(
            views.len(),
            |k: int| projected_name(views[k]),
        ));
        r
    }
}

/// A table is found by the last part of a relation's name, whatever stands in front of
/// it and whatever its letter case.
pub proof fn qualifiers_and_case_make_no_difference(
    qualifiers: Seq<Option<Seq<char>>>,
    id: Seq<char>,
    recased: Seq<char>,
    want: Seq<char>,
)
    requires
        text::same_ignoring_case(id, recased),
    ensures
        last_is(qualifiers.push(Some(id)), want) <==> text::same_ignoring_case(id, want),
        last_is(qualifiers.push(Some(recased)), want) <==> last_is(qualifiers.push(Some(id)), want),
        !last_is(qualifiers.push(None), want),
        !last_is(Seq::empty(), want),
{
    assert(qualifiers.push(Some(id)).last() == Some(id));
    assert(qualifiers.push(Some(recased)).last() == Some(recased));
    assert(qualifiers.push(None).last() is None);
}

/// A table of a schema is found without a qualifier, or with that schema right in front
/// of it; with another schema there it is another table.
pub proof fn schemas_tell_tables_apart(
    before: Seq<Option<Seq<char>>>,
    schema: Seq<char>,
    other: Seq<char>,
    name: Seq<char>,
)
    requires
        !text::same_ignoring_case(other, schema),
    ensures
        is_in_schema(seq![Some(name)], schema, name),
        is_in_schema(before + seq![Some(schema), Some(name)], schema, name),
        !is_in_schema(before + seq![Some(other), Some(name)], schema, name),
        !is_in_schema(before + seq![None, Some(name)], schema, name),
{
    let here = before + seq![Some(schema), Some(name)];
    let there = before + seq![Some(other), Some(name)];
    let computed = before + seq![None, Some(name)];
    assert(here.last() == Some(name) && here[here.len() - 2] == Some(schema));
    assert(there.last() == Some(name) && there[there.len() - 2] == Some(other));
    assert(computed.last() == Some(name) && computed[computed.len() - 2] is None);
}

/// A text mentions a table where one of its relations has that name, and a function or
/// an identifier where one of its expressions is it; a text that cannot be parsed
/// mentions nothing.
#[verifier::rlimit(50)]
pub proof fn mentions_are_found(sql: Seq<char>, name: Seq<char>)
    ensures
        match sql::relations(sql) {
            Some(names) => mentions_table(sql, name) <==> exists|i: int|
                0 <= i < names.len() && (#[trigger] names[i]).len() > 0 && names[i].last() is Some
                    && text::same_ignoring_case(names[i].last()->0, name),
            None => !mentions_table(sql, name) && !mentions_table_in(sql, name, name),
        },
        match sql::expressions(sql) {
            Some(nodes) => {
                &&& mentions_call(sql, name) <==> exists|i: int|
                    0 <= i < nodes.len() && (#[trigger] nodes[i] matches NodeView::Call(c)
                        && c.name.len() > 0 && c.name.last() is Some && text::same_ignoring_case(
                        c.name.last()->0,
                        name,
                    ))
                &&& mentions_identifier(sql, name) <==> exists|i: int|
                    0 <= i < nodes.len() && (#[trigger] nodes[i] matches NodeView::Identifier(id)
                        && text::same_ignoring_case(id, name))
            },
            None => !mentions_call(sql, name) && !mentions_identifier(sql, name) && call_literal(
                sql,
                name,
            ) is None,
        },
{
    if let Some(names) = sql::relations(sql) {
        if mentions_table(sql, name) {
            let i = choose|i: int| 0 <= i < names.len() && last_is(#[trigger] names[i], name);
            assert(names[i].len() > 0 && names[i].last() is Some);
        }
        if exists|i: int|
            0 <= i < names.len() && (#[trigger] names[i]).len() > 0 && names[i].last() is Some
                && text::same_ignoring_case(names[i].last()->0, name) {
            let i = choose|i: int|
                0 <= i < names.len() && (#[trigger] names[i]).len() > 0 && names[i].last() is Some
                    && text::same_ignoring_case(names[i].last()->0, name);
            assert(last_is(names[i], name));
        }
    }
    if let Some(nodes) = sql::expressions(sql) {
        assert forall|i: int| 0 <= i < nodes.len() implies (is_call(#[trigger] nodes[i], name) <==> (
        nodes[i] matches NodeView::Call(c) && c.name.len() > 0 && c.name.last() is Some
            && text::same_ignoring_case(c.name.last()->0, name))) by {}
    }
}

/// The literal of a call is that of the first call of the function that has one.
#[verifier::rlimit(50)]
pub proof fn literals_are_of_the_first_call(nodes: Seq<NodeView>, name: Seq<char>, i: int)
    requires
        0 <= i <= nodes.len(),
    ensures
        match literal_from(nodes, name, i) {
            Some(s) => exists|k: int|
                i <= k < nodes.len() && (#[trigger] nodes[k] matches NodeView::Call(c) && is_call(
                    nodes[k],
                    name,
                ) && c.args.len() > 0 && c.args[0] == Some(s)) && forall|j: int|
                    i <= j < k ==> first_literal(#[trigger] nodes[j], name) is None,
            None => forall|k: int|
                i <= k < nodes.len() ==> (#[trigger] nodes[k] matches NodeView::Call(c) ==> !(
                is_call(nodes[k], name) && c.args.len() > 0 && c.args[0] is Some)),
        },
    decreases nodes.len() - i,
{
    if i < nodes.len() {
        match first_literal(nodes[i], name) {
            Some(s) => {
                assert(nodes[i] matches NodeView::Call(c) && is_call(nodes[i], name));
            },
            None => {
                literals_are_of_the_first_call(nodes, name, i + 1);
                if let Some(s) = literal_from(nodes, name, i + 1) {
                    let k = choose|k: int|
                        i + 1 <= k < nodes.len() && (#[trigger] nodes[k] matches NodeView::Call(c)
                            && is_call(nodes[k], name) && c.args.len() > 0 && c.args[0] == Some(s))
                            && forall|j: int|
                            i + 1 <= j < k ==> first_literal(#[trigger] nodes[j], name) is None;
                    assert(i <= k < nodes.len());
                    assert forall|j: int| i <= j < k implies first_literal(
                        #[trigger] nodes[j],
                        name,
                    ) is None by {}
                }
            },
        }
    }
}

/// A text is a bare probe where it is one statement, a `SELECT` of one item; any table,
/// any condition, any grouping or order, any limit, and any other clause keep it from
/// being one.
#[verifier::rlimit(50)]
pub proof fn clauses_make_no_probe(sql: Seq<char>)
    ensures
        is_bare(sql) ==> sql::statements(sql)->0.len() == 1,
        sql::first_query(sql) matches Some(q) ==> (q.with || q.order_by || q.limit || q.fetch
            || q.for_clause || q.settings || q.format_clause || q.locks > 0 || q.pipe_operators > 0
            ==> !is_bare(sql)),
        sql::first_select(sql) matches Some(s) ==> (s.projection != 1 || s.from > 0 || s.selection
            || s.group_by != Some((0usize, 0usize)) || s.having || s.cluster_by > 0
            || s.distribute_by > 0 || s.sort_by > 0 || s.qualify ==> !is_bare(sql)),
        sql::first_modifiers(sql) matches Some(m) ==> (m.distinct || m.top || m.exclude || m.into
            || m.lateral_views > 0 || m.prewhere || m.windows > 0 || m.value_table_mode
            || m.connect_by ==> !is_bare(sql)),
        !is_bare(sql) ==> {
            ||| sql::statements(sql) is None || sql::statements(sql)->0.len() != 1
            ||| sql::first_query(sql) is None || !({
                let q = sql::first_query(sql)->0;
                !(q.with || q.order_by || q.limit || q.fetch || q.for_clause || q.settings
                    || q.format_clause || q.locks > 0 || q.pipe_operators > 0)
            })
            ||| sql::first_select(sql) is None || !({
                let s = sql::first_select(sql)->0;
                !(s.projection != 1 || s.from > 0 || s.selection || s.group_by != Some(
                    (0usize, 0usize),
                ) || s.having || s.cluster_by > 0 || s.distribute_by > 0 || s.sort_by > 0
                    || s.qualify)
            })
            ||| sql::first_modifiers(sql) is None || !({
                let m = sql::first_modifiers(sql)->0;
                !(m.distinct || m.top || m.exclude || m.into || m.lateral_views > 0 || m.prewhere
                    || m.windows > 0 || m.value_table_mode || m.connect_by)
            })
        },
{
}

/// Every item of a projection names a column: by its alias, by the last part of an
/// identifier or of a function's name, and as PostgreSQL does where it has none.
pub proof fn items_name_their_columns(sql: Seq<char>, i: int)
    requires
        sql::first_projection(sql) matches Some(items) && 0 <= i < items.len(),
    ensures
        ({
            let items = sql::first_projection(sql)->0;
            let name = column_names(sql)[i];
            &&& column_names(sql).len() == items.len()
            &&& match items[i] {
                ProjectedView::Alias { alias, node } => name == alias,
                ProjectedView::Wildcard => name == seq!['*'],
                ProjectedView::QualifiedWildcard(text) => name == text,
                ProjectedView::Unnamed(NodeView::Identifier(id)) => name == id,
                ProjectedView::Unnamed(NodeView::Compound(parts)) => parts.len() > 0 ==> name
                    == parts.last(),
                ProjectedView::Unnamed(NodeView::Call(c)) => c.name.len() > 0 ==> (c.name.last()
                    matches Some(id) ==> name == id),
                ProjectedView::Unnamed(_) => name == "?column?"@,
            }
        }),
{
    reveal_strlit("*");
    assert("*"@ =~= seq!['*']);
}

/// The sole item of a projection is what it projects, under an alias or not; there is
/// none where there are several, and a wildcard is none.
pub proof fn sole_items_are_alone(sql: Seq<char>)
    ensures
        match sql::first_projection(sql) {
            Some(items) => {
                &&& items.len() != 1 ==> sole_item(sql) is None
                &&& items.len() == 1 ==> match items[0] {
                    ProjectedView::Unnamed(node) => sole_item(sql) == Some(node),
                    ProjectedView::Alias { alias, node } => sole_item(sql) == Some(node),
                    _ => sole_item(sql) is None,
                }
            },
            None => sole_item(sql) is None,
        },
{
}

} // verus!
