//! Rewriting PostgreSQL's SQL into Trino's.
use vstd::prelude::*;

use crate::sql;
use crate::sql::{Edit, EditView, Node, NodeView, edited_statements, inner_first_nodes, statement_texts};
use crate::text;

pub mod casts;
pub mod functions;
pub mod limit_offset;
pub mod predicates;

verus! {

/// The change to one expression.
pub open spec fn node_edit(node: NodeView) -> EditView {
    match node {
        NodeView::Cast(cast) => casts::cast_edit(cast),
        NodeView::Call(call) => functions::call_edit(call),
        NodeView::ILike => EditView::LikeThrough("lower"@),
        _ => EditView::Keep,
    }
}

/// The changes to the expressions of a text.
pub open spec fn node_edits(nodes: Seq<NodeView>) -> Seq<EditView> {
    Seq::new(nodes.len(), |i: int| node_edit(nodes[i]))
}

/// The change to one expression.
fn edit_of(node: &Node) -> (r: Edit)
    ensures
        r@ == node_edit(node@),
        sql::edit_fits(node@, r@),
{
    match node {
        Node::Cast(cast) => casts::CastRewriter.edit(cast),
        Node::Call(call) => functions::FunctionRenamer.edit(call),
        Node::ILike => predicates::ILikeRewriter.edit(),
        _ => Edit::Keep,
    }
}

/// A text in Trino's SQL. A text that cannot be parsed, or that does not hold
/// exactly one statement, stays as it is; one statement is printed once its
/// casts, comparisons and function names were changed.
pub open spec fn rewritten(sql: Seq<char>) -> Seq<char> {
    match sql::statements(sql) {
        Some(list) => if list.len() == 1 {
            sql::edited(sql, node_edits(sql::inner_first(sql)->0))->0[0]
        } else {
            sql
        },
        None => sql,
    }
}

/// A text holds one statement in which there is nothing to change.
pub open spec fn is_clean(sql: Seq<char>) -> bool {
    &&& sql::statements(sql) matches Some(list) && list.len() == 1
    &&& sql::inner_first(sql) matches Some(nodes) && forall|i: int|
        0 <= i < nodes.len() ==> node_edit(#[trigger] nodes[i]) == EditView::Keep
}

/// Rewrites PostgreSQL's SQL into Trino's.
///
/// - `::` casts become `CAST(... AS ...)`,
/// - PostgreSQL's type names become Trino's,
/// - `ILIKE` becomes `lower(x) LIKE lower(pattern)`,
/// - PostgreSQL's function names become Trino's.
///
/// The changes are made to the parser's syntax tree, never to the text. A text
/// that cannot be parsed comes back unchanged, and so does one with several
/// statements, which are split before they get here. A statement in which there
/// is nothing to change comes back as the parser prints it.
pub fn rewrite_sql(sql: &str) -> (r: String)
    ensures
        r@ == rewritten(sql@),
        is_clean(sql@) ==> r@ == sql::statements(sql@)->0[0],
{
    let Some(list) = statement_texts(sql) else {
        return sql.to_owned();
    };
    if list.len() != 1 {
        return sql.to_owned();
    }
    let Some(nodes) = inner_first_nodes(sql) else {
        return sql.to_owned();
    };
    let mut edits: Vec<Edit> = Vec::new();
    let mut i: usize = 0;
    while i < nodes.len()
        invariant
            i <= nodes@.len(),
            edits@.len() == i,
            forall|k: int| 0 <= k < i ==> (#[trigger] edits@[k])@ == node_edit(nodes@[k]@),
            forall|k: int| 0 <= k < i ==> sql::edit_fits(nodes@[k]@, (#[trigger] edits@[k])@),
        decreases nodes@.len() - i,
    {
        edits.push(edit_of(&nodes[i]));
        i += 1;
    }
    assert(sql::edit_views(edits@) =~= node_edits(sql::node_views(nodes@)));
    assert(sql::edits_fit(sql@, sql::edit_views(edits@)));
    proof {
        if is_clean(sql@) {
            let found = sql::inner_first(sql@)->0;
            assert forall|k: int| 0 <= k < edits@.len() implies (#[trigger] edits@[k]) is Keep by {
                assert(found[k] == nodes@[k]@);
                assert(edits@[k]@ == node_edit(nodes@[k]@));
            }
        }
    }
    match edited_statements(sql, &edits) {
        Some(mut texts) => {
            let ghost views = text::string_views(texts@);
            let first = texts.swap_remove(0);
            assert(first@ == views[0]);
            first
        },
        None => sql.to_owned(),
    }
}

/// What cannot be parsed, and what holds several statements or none, passes
/// through unchanged.
pub proof fn others_pass_through(sql: Seq<char>)
    requires
        sql::statements(sql) matches Some(list) ==> list.len() != 1,
    ensures
        rewritten(sql) == sql,
{
}

/// The change that an expression calls for: a cast is spelled out, and its type
/// renamed where it is of PostgreSQL's own; `ILIKE` compares in lower case; three
/// functions are renamed; all else is left alone.
pub open spec fn is_called_for(node: NodeView, edit: EditView) -> bool {
    match node {
        NodeView::Cast(cast) => if cast.double_colon || casts::trino_type(cast.target) is Some {
            edit == (EditView::Cast {
                as_call: cast.double_colon,
                target: casts::trino_type(cast.target),
            })
        } else {
            edit == EditView::Keep
        },
        NodeView::ILike => edit == EditView::LikeThrough(seq!['l', 'o', 'w', 'e', 'r']),
        NodeView::Call(call) => {
            let lower = text::lower(call.name[0]->0);
            if call.name.len() != 1 || call.name[0] is None {
                edit == EditView::Keep
            } else if lower == "string_agg"@ {
                edit == EditView::Rename("listagg"@)
            } else if lower == "trunc"@ {
                edit == EditView::Rename("truncate"@)
            } else if lower == "log"@ && call.args.len() == 1 {
                edit == EditView::Rename("log10"@)
            } else {
                edit == EditView::Keep
            }
        },
        NodeView::Identifier(_) => edit == EditView::Keep,
        NodeView::Compound(_) => edit == EditView::Keep,
        NodeView::Other => edit == EditView::Keep,
    }
}

/// One statement goes to Trino with each expression changed as it calls for, and
/// with no other change.
pub proof fn statements_are_changed_as_called_for(sql: Seq<char>, edits: Seq<EditView>)
    requires
        sql::statements(sql) matches Some(list) && list.len() == 1,
        sql::inner_first(sql) matches Some(nodes) && edits.len() == nodes.len() && forall|i: int|
            0 <= i < nodes.len() ==> is_called_for(nodes[i], #[trigger] edits[i]),
    ensures
        rewritten(sql) == sql::edited(sql, edits)->0[0],
{
    let nodes = sql::inner_first(sql)->0;
    reveal_strlit("lower");
    assert("lower"@ =~= seq!['l', 'o', 'w', 'e', 'r']);
    assert forall|i: int| 0 <= i < nodes.len() implies node_edits(nodes)[i] == edits[i] by {
        assert(is_called_for(nodes[i], edits[i]));
        if let NodeView::Call(call) = nodes[i] {
            functions::three_functions_are_renamed(call);
        }
    }
    assert(node_edits(nodes) =~= edits);
}

/// An expression that PostgreSQL and Trino write alike: no `::` cast, no type of
/// PostgreSQL's own, no `ILIKE`, and none of the three functions.
pub open spec fn is_common(node: NodeView) -> bool {
    match node {
        NodeView::Cast(cast) => !cast.double_colon && casts::trino_type(cast.target) is None,
        NodeView::ILike => false,
        NodeView::Call(call) => call.name.len() != 1 || call.name[0] is None || ({
            let lower = text::lower(call.name[0]->0);
            lower != "string_agg"@ && lower != "trunc"@ && (lower != "log"@ || call.args.len() != 1)
        }),
        _ => true,
    }
}

/// A statement of nothing but such expressions has nothing to change, so that it
/// comes out as the parser prints it; and no other statement is taken for one.
pub proof fn common_statements_are_clean(sql: Seq<char>)
    requires
        sql::statements(sql) matches Some(list) && list.len() == 1,
        sql::inner_first(sql) is Some,
    ensures
        is_clean(sql) <==> forall|i: int|
            0 <= i < sql::inner_first(sql)->0.len() ==> is_common(
                #[trigger] sql::inner_first(sql)->0[i],
            ),
{
    let nodes = sql::inner_first(sql)->0;
    assert forall|i: int| 0 <= i < nodes.len() implies (node_edit(#[trigger] nodes[i])
        == EditView::Keep) == is_common(nodes[i]) by {
        if let NodeView::Call(call) = nodes[i] {
            functions::three_functions_are_renamed(call);
        }
    }
}

/// An `ILIKE` becomes a `LIKE` of its operands in lower case, with the same
/// negation and the same escape character.
pub proof fn ilike_compares_in_lower_case(like: sql::LikeView)
    ensures
        node_edit(NodeView::ILike) matches EditView::LikeThrough(function) && ({
            let after = sql::like_through(like, function);
            &&& !after.ignores_case
            &&& after.negated == like.negated
            &&& after.escape == like.escape
            &&& after.subject == "lower"@ + seq!['('] + like.subject + seq![')']
            &&& after.pattern == "lower"@ + seq!['('] + like.pattern + seq![')']
        }),
{
    reveal_strlit("(");
    reveal_strlit(")");
    assert("("@ =~= seq!['(']);
    assert(")"@ =~= seq![')']);
}

} // verus!
