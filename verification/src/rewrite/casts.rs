//! Casts and type names.
use vstd::prelude::*;

use crate::sql;
use crate::sql::{Cast, CastView, Edit, EditView};
use crate::text;
use crate::text::{begins_with, chars_of, ends_with, same};

verus! {

/// Rewrites `::` casts to `CAST()`, and PostgreSQL's type names to Trino's.
pub struct CastRewriter;

/// A type is `name`, with a display width in parentheses or without.
pub open spec fn is_type(target: Seq<char>, name: Seq<char>) -> bool {
    target == name || ((name + "("@).is_prefix_of(target) && ")"@.is_suffix_of(target))
}

/// Trino's name for a type that PostgreSQL alone spells that way.
pub open spec fn trino_type(target: Seq<char>) -> Option<Seq<char>> {
    if target == "TEXT"@ {
        Some("VARCHAR"@)
    } else if is_type(target, "INT2"@) {
        Some("SMALLINT"@)
    } else if is_type(target, "INT4"@) {
        Some("INTEGER"@)
    } else if is_type(target, "INT8"@) {
        Some("BIGINT"@)
    } else if target == "FLOAT4"@ {
        Some("REAL"@)
    } else if target == "FLOAT8"@ {
        Some("DOUBLE PRECISION"@)
    } else if target == "BOOL"@ {
        Some("BOOLEAN"@)
    } else if target == "BYTEA"@ {
        Some("VARBINARY"@)
    } else {
        None
    }
}

/// Whether a type is `name`, with a display width or without.
fn names_type(target: &str, name: &str) -> (r: bool)
    ensures
        r == is_type(target@, name@),
{
    if same(target, name) {
        return true;
    }
    let mut open = name.to_owned();
    open.append("(");
    let v = chars_of(target);
    begins_with(v.as_slice(), open.as_str()) && ends_with(v.as_slice(), ")")
}

/// Maps a type name of PostgreSQL's own to its Trino equivalent.
pub fn normalize_data_type(target: &str) -> (r: Option<String>)
    ensures
        text::text_view(r) == trino_type(target@),
{
    if same(target, "TEXT") {
        Some("VARCHAR".to_owned())
    } else if names_type(target, "INT2") {
        Some("SMALLINT".to_owned())
    } else if names_type(target, "INT4") {
        Some("INTEGER".to_owned())
    } else if names_type(target, "INT8") {
        Some("BIGINT".to_owned())
    } else if same(target, "FLOAT4") {
        Some("REAL".to_owned())
    } else if same(target, "FLOAT8") {
        Some("DOUBLE PRECISION".to_owned())
    } else if same(target, "BOOL") {
        Some("BOOLEAN".to_owned())
    } else if same(target, "BYTEA") {
        Some("VARBINARY".to_owned())
    } else {
        None
    }
}

/// The change to a cast; none to one that Trino accepts as it is.
pub open spec fn cast_edit(cast: CastView) -> EditView {
    if !cast.double_colon && trino_type(cast.target) is None {
        EditView::Keep
    } else {
        EditView::Cast { as_call: cast.double_colon, target: trino_type(cast.target) }
    }
}

impl CastRewriter {
    /// The change to a cast: `::` becomes `CAST()`, and the target type gets
    /// its Trino name.
    pub fn edit(&self, cast: &Cast) -> (r: Edit)
        ensures
            r@ == cast_edit(cast@),
            sql::edit_fits(sql::NodeView::Cast(cast@), r@),
    {
        let target = normalize_data_type(cast.target.as_str());
        if !cast.double_colon && target.is_none() {
            Edit::Keep
        } else {
            Edit::Cast { as_call: cast.double_colon, target }
        }
    }
}

/// After its change a cast is written with `CAST()`, to a type that is not of
/// PostgreSQL's own: a second pass would change nothing.
pub proof fn casts_settle(cast: CastView)
    ensures
        ({
            let after = sql::cast_edited(cast, cast.double_colon, trino_type(cast.target));
            !after.double_colon && trino_type(after.target) is None && cast_edit(after)
                == EditView::Keep
        }),
{
    reveal_strlit("TEXT");
    reveal_strlit("INT2");
    reveal_strlit("INT4");
    reveal_strlit("INT8");
    reveal_strlit("FLOAT4");
    reveal_strlit("FLOAT8");
    reveal_strlit("BOOL");
    reveal_strlit("BYTEA");
    reveal_strlit("(");
    reveal_strlit("VARCHAR");
    reveal_strlit("SMALLINT");
    reveal_strlit("INTEGER");
    reveal_strlit("BIGINT");
    reveal_strlit("REAL");
    reveal_strlit("DOUBLE PRECISION");
    reveal_strlit("BOOLEAN");
    reveal_strlit("VARBINARY");
    if let Some(name) = trino_type(cast.target) {
        let fourth = name[3];
        assert(fourth == 'C' || fourth == 'L' || fourth == 'E' || fourth == 'I' || fourth == 'B');
        assert("INT2"@[3] == '2' && "INT4"@[3] == '4' && "INT8"@[3] == '8');
        assert("TEXT"@[3] == 'T' && "FLOAT4"@[3] == 'A' && "FLOAT8"@[3] == 'A' && "BYTEA"@[3]
            == 'E');
        assert(!is_type(name, "INT2"@)) by {
            is_type_start(name, "INT2"@);
        }
        assert(!is_type(name, "INT4"@)) by {
            is_type_start(name, "INT4"@);
        }
        assert(!is_type(name, "INT8"@)) by {
            is_type_start(name, "INT8"@);
        }
        assert(name.len() != 5 && (name.len() != 4 || name[0] == 'R'));
    }
}

/// A type that goes by a name begins with that name.
proof fn is_type_start(target: Seq<char>, name: Seq<char>)
    ensures
        is_type(target, name) ==> target.len() >= name.len() && forall|i: int|
            0 <= i < name.len() ==> target[i] == name[i],
{
    if is_type(target, name) && target != name {
        let open = name + "("@;
        reveal_strlit("(");
        assert forall|i: int| 0 <= i < name.len() implies target[i] == name[i] by {
            assert(target.take(open.len() as int)[i] == open[i]);
        }
    }
}

/// The types that are renamed, and their names in Trino. A type of PostgreSQL's own
/// gets the name of the Trino type for the same values; every other type, with or
/// without parameters, keeps its name.
pub proof fn own_types_are_renamed(target: Seq<char>)
    ensures
        match trino_type(target) {
            Some(name) => {
                ||| target == "TEXT"@ && name == "VARCHAR"@
                ||| is_type(target, "INT2"@) && name == "SMALLINT"@
                ||| is_type(target, "INT4"@) && name == "INTEGER"@
                ||| is_type(target, "INT8"@) && name == "BIGINT"@
                ||| target == "FLOAT4"@ && name == "REAL"@
                ||| target == "FLOAT8"@ && name == "DOUBLE PRECISION"@
                ||| target == "BOOL"@ && name == "BOOLEAN"@
                ||| target == "BYTEA"@ && name == "VARBINARY"@
            },
            None => {
                &&& target != "TEXT"@ && !is_type(target, "INT2"@) && !is_type(target, "INT4"@)
                &&& !is_type(target, "INT8"@) && target != "FLOAT4"@ && target != "FLOAT8"@
                &&& target != "BOOL"@ && target != "BYTEA"@
            },
        },
{
}

/// A type goes by a name where it is that name, or the name and something in
/// parentheses.
pub proof fn widths_are_in_parentheses(name: Seq<char>, width: Seq<char>)
    ensures
        is_type(name, name),
        is_type(name + seq!['('] + width + seq![')'], name),
        forall|target: Seq<char>|
            is_type(target, name) ==> target == name || target.len() >= name.len() + 1
                && #[trigger] target.last() == ')' && target[name.len() as int] == '(',
{
    reveal_strlit("(");
    reveal_strlit(")");
    assert("("@ =~= seq!['(']);
    assert(")"@ =~= seq![')']);
    let t = name + seq!['('] + width + seq![')'];
    assert(t.take(name.len() + 1int) =~= name + "("@);
    assert(t.subrange(t.len() - 1, t.len() as int) =~= ")"@);
    assert forall|target: Seq<char>| is_type(target, name) && target != name implies target.len()
        >= name.len() + 1 && #[trigger] target.last() == ')' && target[name.len() as int] == '(' by {
        let open = name + "("@;
        assert(target.take(open.len() as int)[name.len() as int] == open[name.len() as int]);
        assert(target.subrange(target.len() - 1, target.len() as int)[0] == ")"@[0]);
    }
}

/// A change to a cast is to its spelling and its type alone: `::` always becomes
/// `CAST()`, and the type changes only where it is of PostgreSQL's own.
pub proof fn casts_are_spelled_out(cast: CastView)
    ensures
        ({
            let after = match cast_edit(cast) {
                EditView::Cast { as_call, target } => sql::cast_edited(cast, as_call, target),
                _ => cast,
            };
            &&& !after.double_colon
            &&& trino_type(cast.target) is None ==> after.target == cast.target
            &&& trino_type(cast.target) matches Some(name) ==> after.target == name
        }),
        cast_edit(cast) is Keep || cast_edit(cast) is Cast,
{
}

/// A type is renamed only to one that the parser can be given.
pub proof fn new_types_can_be_parsed(target: Seq<char>)
    ensures
        trino_type(target) matches Some(name) ==> sql::is_cast_target(name),
        sql::is_cast_target(target) ==> target == "VARCHAR"@ || target == "SMALLINT"@ || target
            == "INTEGER"@ || target == "BIGINT"@ || target == "REAL"@ || target
            == "DOUBLE PRECISION"@ || target == "BOOLEAN"@ || target == "VARBINARY"@,
{
}

} // verus!
