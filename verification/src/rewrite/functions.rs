//! Function names.
use vstd::prelude::*;

use crate::sql;
use crate::sql::{Call, CallView, Edit, EditView};
use crate::text;
use crate::text::{same, to_lowercase};

verus! {

/// Renames PostgreSQL's functions to their Trino equivalents.
pub struct FunctionRenamer;

/// Trino's name for a function, by its name in lower case and the number of
/// its arguments. PostgreSQL's `log(x)` is to base 10, `log(b, x)` to base
/// `b`; only the first has another name in Trino.
pub open spec fn trino_name(lower: Seq<char>, args: nat) -> Option<Seq<char>> {
    if lower == "string_agg"@ {
        Some("listagg"@)
    } else if lower == "log"@ && args == 1 {
        Some("log10"@)
    } else if lower == "trunc"@ {
        Some("truncate"@)
    } else {
        None
    }
}

/// The change to a function call. A qualified name is left alone.
pub open spec fn call_edit(call: CallView) -> EditView {
    if call.name.len() == 1 && call.name[0] is Some {
        match trino_name(text::lower(call.name[0]->0), call.args.len()) {
            Some(name) => EditView::Rename(name),
            None => EditView::Keep,
        }
    } else {
        EditView::Keep
    }
}

impl FunctionRenamer {
    /// The change to a function call.
    pub fn edit(&self, call: &Call) -> (r: Edit)
        ensures
            r@ == call_edit(call@),
            sql::edit_fits(sql::NodeView::Call(call@), r@),
    {
        if call.name.len() != 1 {
            return Edit::Keep;
        }
        match &call.name[0] {
            None => Edit::Keep,
            Some(ident) => {
                let lower = to_lowercase(ident.as_str());
                if same(lower.as_str(), "string_agg") {
                    Edit::Rename("listagg".to_owned())
                } else if same(lower.as_str(), "log") && call.args.len() == 1 {
                    Edit::Rename("log10".to_owned())
                } else if same(lower.as_str(), "trunc") {
                    Edit::Rename("truncate".to_owned())
                } else {
                    Edit::Keep
                }
            },
        }
    }
}

/// A function that was renamed has a name that Trino knows: it is not renamed
/// again.
pub proof fn names_settle(lower: Seq<char>, args: nat)
    ensures
        trino_name(lower, args) matches Some(name) ==> trino_name(name, args) is None,
{
    reveal_strlit("string_agg");
    reveal_strlit("listagg");
    reveal_strlit("log");
    reveal_strlit("log10");
    reveal_strlit("trunc");
    reveal_strlit("truncate");
    assert("listagg"@.len() == 7 && "log10"@.len() == 5 && "truncate"@.len() == 8);
    assert("string_agg"@.len() == 10 && "log"@.len() == 3 && "trunc"@.len() == 5);
    assert("log10"@[0] == 'l' && "trunc"@[0] == 't');
}

/// Three functions are renamed and no other: a call gets another name exactly where
/// its name, unqualified and in any case, is `string_agg`, `trunc`, or `log` of one
/// argument. All others, such as `round`, keep theirs.
pub proof fn three_functions_are_renamed(call: CallView)
    ensures
        call_edit(call) is Keep || call_edit(call) is Rename,
        call_edit(call) is Rename ==> call.name.len() == 1 && call.name[0] is Some && ({
            let lower = text::lower(call.name[0]->0);
            ||| lower == "string_agg"@
            ||| lower == "trunc"@
            ||| lower == "log"@ && call.args.len() == 1
        }),
        call.name.len() == 1 && call.name[0] is Some ==> ({
            let lower = text::lower(call.name[0]->0);
            &&& lower == "string_agg"@ ==> call_edit(call) == EditView::Rename("listagg"@)
            &&& lower == "trunc"@ ==> call_edit(call) == EditView::Rename("truncate"@)
            &&& lower == "log"@ && call.args.len() == 1 ==> call_edit(call) == EditView::Rename(
                "log10"@,
            )
        }),
{
    reveal_strlit("string_agg");
    reveal_strlit("log");
    reveal_strlit("trunc");
    assert("string_agg"@.len() == 10 && "log"@.len() == 3 && "trunc"@.len() == 5);
}

} // verus!
