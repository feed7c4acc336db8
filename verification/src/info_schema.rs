//! `information_schema` queries that Trino answers otherwise than PostgreSQL.
//!
//! Queries of tables that Trino does not have get an empty result of the right
//! shape. Queries of `information_schema.columns` with the expression that
//! Power BI sends get Trino's type names mapped to PostgreSQL's.
use vstd::prelude::*;

use crate::query_inspection;
use crate::query_inspection::ParsedQuery;
use crate::response;
use crate::response::{Response, ResponseView, build_response, text_field};
use crate::text;
use crate::text::{chars_of, find_chars, find_chars_from, slice_chars, string_of, to_ascii_uppercase};
use crate::types;
use crate::wire;
use crate::wire::{FieldInfo, FieldView, PgType};

verus! {

/// A query mentions a table of `information_schema`, by that name.
pub open spec fn of_information_schema(sql: Seq<char>, table: Seq<char>) -> bool {
    query_inspection::mentions_table_in(sql, "information_schema"@, table)
}

/// A query mentions a table of `information_schema` that Trino does not have.
pub open spec fn mentions_missing_table(sql: Seq<char>) -> bool {
    of_information_schema(sql, "referential_constraints"@) || of_information_schema(
        sql,
        "table_constraints"@,
    ) || of_information_schema(sql, "key_column_usage"@) || of_information_schema(
        sql,
        "constraint_column_usage"@,
    ) || of_information_schema(sql, "constraint_table_usage"@) || of_information_schema(
        sql,
        "check_constraints"@,
    )
}

/// The columns of an empty result for a query: those of its projection, or a
/// single one where it has none, since clients trip on a result without any.
pub open spec fn empty_fields(sql: Seq<char>) -> Seq<FieldView> {
    let names = query_inspection::column_names(sql);
    if names.len() == 0 {
        seq![response::text_column("column"@, PgType::Varchar)]
    } else {
        Seq::new(names.len(), |i: int| response::text_column(names[i], PgType::Varchar))
    }
}

/// An empty result for a query.
pub open spec fn empty_response(sql: Seq<char>) -> ResponseView {
    response::text_result(empty_fields(sql), Seq::empty())
}

/// Builds an empty result whose columns are those of the query's projection.
fn empty_query_response(query: &ParsedQuery) -> (r: Vec<Response>)
    ensures
        r@.len() == 1,
        r@[0]@ == empty_response(query@),
{
    let names = query.select_column_names();
    let ghost views = text::string_views(names@);
    let mut schema: Vec<FieldInfo> = Vec::new();
    if names.len() == 0 {
        schema.push(text_field("column", PgType::Varchar));
    }
    let mut i: usize = 0;
    while i < names.len()
        invariant
            i <= names@.len(),
            views == text::string_views(names@),
            names@.len() > 0 ==> schema@.len() == i,
            names@.len() == 0 ==> schema@.len() == 1 && schema@[0]@ == response::text_column(
                "column"@,
                PgType::Varchar,
            ),
            names@.len() > 0 ==> forall|k: int|
                0 <= k < i ==> (#[trigger] schema@[k])@ == response::text_column(
                    views[k],
                    PgType::Varchar,
                ),
        decreases names@.len() - i,
    {
        schema.push(text_field(names[i].as_str(), PgType::Varchar));
        i += 1;
    }
    let rows: Vec<Vec<Option<String>>> = Vec::new();
    assert(wire::field_views(schema@) =~= empty_fields(query@));
    assert(response::rows_of_cells(rows@) =~= Seq::<Seq<Option<Seq<char>>>>::empty());
    build_response(schema, rows)
}

/// Answers a query of an `information_schema` table that Trino does not have
/// with an empty result, so that a client's search for relations goes on.
pub fn intercept_missing_information_schema(query: &ParsedQuery) -> (r: Option<Vec<Response>>)
    ensures
        r is Some <==> mentions_missing_table(query@),
        r matches Some(v) ==> v@.len() == 1 && v@[0]@ == empty_response(query@),
{
    let schema = "information_schema";
    if query.references_table_in_schema(schema, "referential_constraints")
        || query.references_table_in_schema(schema, "table_constraints")
        || query.references_table_in_schema(schema, "key_column_usage")
        || query.references_table_in_schema(schema, "constraint_column_usage")
        || query.references_table_in_schema(schema, "constraint_table_usage")
        || query.references_table_in_schema(schema, "check_constraints") {
        return Some(empty_query_response(query));
    }
    None
}

/// One rule of the mapping from Trino's type names to PostgreSQL's: a type that is
/// the pattern, or that is like it, gets the name.
#[derive(Clone, Copy, Debug)]
pub struct TypeRule {
    pub exact: bool,
    pub pattern: &'static str,
    pub name: &'static str,
}

/// One rule, its texts as characters.
pub struct RuleView {
    pub exact: bool,
    pub pattern: Seq<char>,
    pub name: Seq<char>,
}

impl View for TypeRule {
    type V = RuleView;

    open spec fn view(&self) -> RuleView {
        RuleView { exact: self.exact, pattern: self.pattern@, name: self.name@ }
    }
}

/// A list of rules, each by its view.
pub open spec fn rule_views(rules: Seq<TypeRule>) -> Seq<RuleView> {
    Seq::new(rules.len(), |i: int| rules[i]@)
}

/// A rule for one type name.
pub open spec fn exactly(pattern: Seq<char>, name: Seq<char>) -> RuleView {
    RuleView { exact: true, pattern, name }
}

/// A rule for the type names that are like a pattern.
pub open spec fn like_rule(pattern: Seq<char>, name: Seq<char>) -> RuleView {
    RuleView { exact: false, pattern, name }
}

/// The rules of the mapping; the first that fits decides.
pub open spec fn type_rules() -> Seq<RuleView> {
    seq![
        exactly("double"@, "double precision"@),
        like_rule("varchar%"@, "character varying"@),
        like_rule("char(%"@, "character"@),
        like_rule("%timestamp%with time zone%"@, "timestamp with time zone"@),
        like_rule("timestamp%"@, "timestamp without time zone"@),
        like_rule("%time%with time zone%"@, "time with time zone"@),
        like_rule("time%"@, "time without time zone"@),
        like_rule("decimal%"@, "numeric"@),
        exactly("varbinary"@, "bytea"@),
    ]
}

/// The rules of the mapping.
fn mapping_rules() -> (r: Vec<TypeRule>)
    ensures
        rule_views(r@) == type_rules(),
{
    let r = vec![
        TypeRule { exact: true, pattern: "double", name: "double precision" },
        TypeRule { exact: false, pattern: "varchar%", name: "character varying" },
        TypeRule { exact: false, pattern: "char(%", name: "character" },
        TypeRule {
            exact: false,
            pattern: "%timestamp%with time zone%",
            name: "timestamp with time zone",
        },
        TypeRule { exact: false, pattern: "timestamp%", name: "timestamp without time zone" },
        TypeRule { exact: false, pattern: "%time%with time zone%", name: "time with time zone" },
        TypeRule { exact: false, pattern: "time%", name: "time without time zone" },
        TypeRule { exact: false, pattern: "decimal%", name: "numeric" },
        TypeRule { exact: true, pattern: "varbinary", name: "bytea" },
    ];
    assert(rule_views(r@) =~= type_rules());
    r
}

/// A rule as a branch of a `CASE` expression.
pub open spec fn rule_sql(rule: RuleView) -> Seq<char> {
    " WHEN lower(data_type) "@ + (if rule.exact {
        "= '"@
    } else {
        "LIKE '"@
    }) + rule.pattern + "' THEN '"@ + rule.name + "'"@
}

/// Some rules as branches of a `CASE` expression, in order.
pub open spec fn rules_sql(rules: Seq<RuleView>) -> Seq<char>
    decreases rules.len(),
{
    if rules.len() == 0 {
        Seq::empty()
    } else {
        rules_sql(rules.drop_last()) + rule_sql(rules.last())
    }
}

/// The expression that maps Trino's type names to PostgreSQL's. A type without a rule
/// keeps its name.
pub open spec fn type_mapping() -> Seq<char> {
    "CASE"@ + rules_sql(type_rules()) + " ELSE data_type END"@
}

/// The expression that maps Trino's type names to PostgreSQL's.
fn type_mapping_sql() -> (r: String)
    ensures
        r@ == type_mapping(),
{
    let rules = mapping_rules();
    let ghost views = type_rules();
    let mut out = "CASE".to_owned();
    let mut i: usize = 0;
    assert(views.take(0) =~= Seq::<RuleView>::empty());
    assert(out@ =~= "CASE"@ + rules_sql(views.take(0)));
    while i < rules.len()
        invariant
            i <= rules@.len(),
            rule_views(rules@) == views,
            out@ == "CASE"@ + rules_sql(views.take(i as int)),
        decreases rules@.len() - i,
    {
        let ghost before = out@;
        out.append(" WHEN lower(data_type) ");
        out.append(
            if rules[i].exact {
                "= '"
            } else {
                "LIKE '"
            },
        );
        out.append(rules[i].pattern);
        out.append("' THEN '");
        out.append(rules[i].name);
        out.append("'");
        i += 1;
        proof {
            assert(views[i - 1] == rules@[i - 1]@);
            assert(views.take(i as int).drop_last() =~= views.take(i - 1));
            assert(out@ =~= before + rule_sql(views[i - 1]));
            assert(out@ =~= "CASE"@ + rules_sql(views.take(i as int)));
        }
    }
    assert(rules@.len() == views.len());
    assert(views.take(i as int) =~= views);
    out.append(" ELSE data_type END");
    out
}

/// The expression that Power BI sends, from its start to its end, as positions
/// in a query.
pub open spec fn powerbi_span(query: Seq<char>) -> Option<(int, int)> {
    let upper = text::ascii_uppercase(query);
    match text::find(upper, "CASE WHEN (DATA_TYPE LIKE '%UNSIGNED%')"@) {
        None => None,
        Some(start) => match text::find_from(upper, "END AS DATA_TYPE"@, start) {
            None => None,
            Some(end) => Some((start, end + "END AS DATA_TYPE"@.len())),
        },
    }
}

/// The query with Power BI's expression replaced, where it has one and is of
/// `information_schema.columns`.
pub open spec fn columns_rewritten(query: Seq<char>, parsed: Seq<char>) -> Option<Seq<char>> {
    if !of_information_schema(parsed, "columns"@) {
        None
    } else {
        match powerbi_span(query) {
            None => None,
            Some((start, end)) => Some(
                query.take(start) + type_mapping() + " AS DATA_TYPE"@ + query.skip(end),
            ),
        }
    }
}

/// Replaces the `CASE WHEN data_type LIKE '%unsigned%' ...` expression that
/// Power BI sends in a query of `information_schema.columns` by one that maps
/// Trino's type names to PostgreSQL's. Other queries are left alone.
///
/// The marker is ASCII, so only ASCII letters are folded to find it: positions
/// in the folded text are then positions in the query.
pub fn rewrite_info_schema_columns(query: &str, parsed_query: &ParsedQuery) -> (r: Option<String>)
    ensures
        text::text_view(r) == columns_rewritten(query@, parsed_query@),
{
    if !parsed_query.references_table_in_schema("information_schema", "columns") {
        return None;
    }
    let v = chars_of(query);
    let upper = to_ascii_uppercase(v.as_slice());
    let n: usize = v.len();
    let start: usize = match find_chars(upper.as_slice(), "CASE WHEN (DATA_TYPE LIKE '%UNSIGNED%')") {
        Some(i) => i,
        None => {
            return None;
        },
    };
    let marker = chars_of("END AS DATA_TYPE");
    let end: usize = match find_chars_from(upper.as_slice(), marker.as_slice(), start) {
        Some(i) => i,
        None => {
            return None;
        },
    };
    let before = slice_chars(v.as_slice(), 0, start);
    let after = slice_chars(v.as_slice(), end + marker.len(), n);
    assert(before@ =~= query@.take(start as int));
    assert(after@ =~= query@.skip(end + marker@.len()));
    let mut out = string_of(before.as_slice());
    out.append(type_mapping_sql().as_str());
    out.append(" AS DATA_TYPE");
    out.append(string_of(after.as_slice()).as_str());
    Some(out)
}

/// A text is like a pattern of SQL, in which `%` stands for any characters.
pub open spec fn is_like(s: Seq<char>, pattern: Seq<char>) -> bool
    decreases s.len() + pattern.len(),
{
    if pattern.len() == 0 {
        s.len() == 0
    } else if pattern[0] == '%' {
        is_like(s, pattern.skip(1)) || s.len() > 0 && is_like(s.skip(1), pattern)
    } else {
        s.len() > 0 && s[0] == pattern[0] && is_like(s.skip(1), pattern.skip(1))
    }
}

/// A rule fits a type name in lower case.
pub open spec fn rule_fits(rule: RuleView, t: Seq<char>) -> bool {
    if rule.exact {
        t == rule.pattern
    } else {
        is_like(t, rule.pattern)
    }
}

/// What a `CASE` expression of some rules yields for a type name in lower case, from
/// a rule on.
pub open spec fn name_from(rules: Seq<RuleView>, t: Seq<char>, i: int) -> Seq<char>
    decreases rules.len() - i,
{
    if 0 <= i < rules.len() {
        if rule_fits(rules[i], t) {
            rules[i].name
        } else {
            name_from(rules, t, i + 1)
        }
    } else {
        t
    }
}

/// PostgreSQL's name for a type in SQL, for the types that Trino names otherwise.
pub open spec fn sql_name(t: PgType) -> Option<Seq<char>> {
    match t {
        PgType::Float8 => Some("double precision"@),
        PgType::Varchar => Some("character varying"@),
        PgType::Bpchar => Some("character"@),
        PgType::Numeric => Some("numeric"@),
        PgType::Bytea => Some("bytea"@),
        PgType::Timestamp => Some("timestamp without time zone"@),
        PgType::Timestamptz => Some("timestamp with time zone"@),
        PgType::Time => Some("time without time zone"@),
        PgType::Timetz => Some("time with time zone"@),
        _ => None,
    }
}

/// A text that is like a pattern has each of the pattern's characters.
proof fn like_needs(s: Seq<char>, pattern: Seq<char>, c: char)
    requires
        is_like(s, pattern),
        pattern.contains(c),
        c != '%',
    ensures
        s.contains(c),
    decreases s.len() + pattern.len(),
{
    let k = choose|k: int| 0 <= k < pattern.len() && pattern[k] == c;
    if pattern[0] == '%' {
        if is_like(s, pattern.skip(1)) {
            assert(pattern.skip(1)[k - 1] == c);
            like_needs(s, pattern.skip(1), c);
        } else {
            like_needs(s.skip(1), pattern, c);
            let j = choose|j: int| 0 <= j < s.skip(1).len() && s.skip(1)[j] == c;
            assert(s[j + 1] == c);
        }
    } else if k == 0 {
        assert(s[0] == c);
    } else {
        assert(pattern.skip(1)[k - 1] == c);
        like_needs(s.skip(1), pattern.skip(1), c);
        let j = choose|j: int| 0 <= j < s.skip(1).len() && s.skip(1)[j] == c;
        assert(s[j + 1] == c);
    }
}

/// Characters that stand for themselves match themselves.
proof fn like_goes_on(start: Seq<char>, s: Seq<char>, pattern: Seq<char>)
    requires
        !start.contains('%'),
        is_like(s, pattern),
    ensures
        is_like(start + s, start + pattern),
    decreases start.len(),
{
    if start.len() == 0 {
        assert(start + s =~= s);
        assert(start + pattern =~= pattern);
    } else {
        let rest = start.skip(1);
        assert(!rest.contains('%')) by {
            if rest.contains('%') {
                let j = choose|j: int| 0 <= j < rest.len() && rest[j] == '%';
                assert(start[j + 1] == '%');
            }
        }
        like_goes_on(rest, s, pattern);
        assert(start[0] != '%');
        assert((start + s).skip(1) =~= rest + s);
        assert((start + pattern).skip(1) =~= rest + pattern);
    }
}

/// `%` stands for any characters.
proof fn like_skips(skipped: Seq<char>, s: Seq<char>, pattern: Seq<char>)
    requires
        is_like(s, pattern),
    ensures
        is_like(skipped + s, seq!['%'] + pattern),
    decreases skipped.len(),
{
    let p = seq!['%'] + pattern;
    assert(p.skip(1) =~= pattern);
    if skipped.len() == 0 {
        assert(skipped + s =~= s);
    } else {
        like_skips(skipped.skip(1), s, pattern);
        assert((skipped + s).skip(1) =~= skipped.skip(1) + s);
    }
}

/// A text begins with what stands before a `%` at a pattern's end.
proof fn like_begins(start: Seq<char>, rest: Seq<char>)
    requires
        !start.contains('%'),
    ensures
        is_like(start + rest, start + seq!['%']),
{
    assert(is_like(Seq::<char>::empty(), Seq::<char>::empty()));
    like_skips(rest, Seq::empty(), Seq::empty());
    assert(rest + Seq::<char>::empty() =~= rest);
    assert(seq!['%'] + Seq::<char>::empty() =~= seq!['%']);
    like_goes_on(start, rest, seq!['%']);
}

/// The patterns of the rules, part by part.
proof fn patterns()
    ensures
        "varchar%"@ == "varchar"@ + seq!['%'],
        "char(%"@ == "char"@ + seq!['(', '%'],
        "timestamp%"@ == "timestamp"@ + seq!['%'],
        "time%"@ == "time"@ + seq!['%'],
        "decimal%"@ == "decimal"@ + seq!['%'],
        "%timestamp%with time zone%"@ == seq!['%'] + ("timestamp"@ + (seq!['%'] + (
        "with time zone"@ + seq!['%']))),
        "%time%with time zone%"@ == seq!['%'] + ("time"@ + (seq!['%'] + ("with time zone"@ + seq!['%']))),
        "timestamp with time zone"@ == "timestamp"@ + (seq![' '] + "with time zone"@),
        "time with time zone"@ == "time"@ + (seq![' '] + "with time zone"@),
        "varchar"@ =~= seq!['v', 'a', 'r', 'c', 'h', 'a', 'r'],
        "char"@ =~= seq!['c', 'h', 'a', 'r'],
        "timestamp"@ =~= seq!['t', 'i', 'm', 'e', 's', 't', 'a', 'm', 'p'],
        "time"@ =~= seq!['t', 'i', 'm', 'e'],
        "decimal"@ =~= seq!['d', 'e', 'c', 'i', 'm', 'a', 'l'],
        "with time zone"@ =~= seq![
            'w',
            'i',
            't',
            'h',
            ' ',
            't',
            'i',
            'm',
            'e',
            ' ',
            'z',
            'o',
            'n',
            'e',
        ],
        "double"@ =~= seq!['d', 'o', 'u', 'b', 'l', 'e'],
        "varbinary"@ =~= seq!['v', 'a', 'r', 'b', 'i', 'n', 'a', 'r', 'y'],
{
    reveal_strlit("varchar%");
    reveal_strlit("char(%");
    reveal_strlit("timestamp%");
    reveal_strlit("time%");
    reveal_strlit("decimal%");
    reveal_strlit("%timestamp%with time zone%");
    reveal_strlit("%time%with time zone%");
    reveal_strlit("timestamp with time zone");
    reveal_strlit("time with time zone");
    reveal_strlit("varchar");
    reveal_strlit("char");
    reveal_strlit("timestamp");
    reveal_strlit("time");
    reveal_strlit("decimal");
    reveal_strlit("with time zone");
    reveal_strlit("double");
    reveal_strlit("varbinary");
    assert("varchar%"@ =~= "varchar"@ + seq!['%']);
    assert("char(%"@ =~= "char"@ + seq!['(', '%']);
    assert("timestamp%"@ =~= "timestamp"@ + seq!['%']);
    assert("time%"@ =~= "time"@ + seq!['%']);
    assert("decimal%"@ =~= "decimal"@ + seq!['%']);
    assert("%timestamp%with time zone%"@ =~= seq!['%'] + ("timestamp"@ + (seq!['%'] + (
    "with time zone"@ + seq!['%']))));
    assert("%time%with time zone%"@ =~= seq!['%'] + ("time"@ + (seq!['%'] + ("with time zone"@ + seq![
        '%',
    ]))));
    assert("timestamp with time zone"@ =~= "timestamp"@ + (seq![' '] + "with time zone"@));
    assert("time with time zone"@ =~= "time"@ + (seq![' '] + "with time zone"@));
}

/// The parameters of a type: numbers, with commas and spaces between them.
pub open spec fn are_params(params: Seq<char>) -> bool {
    forall|i: int|
        0 <= i < params.len() ==> ('0' <= #[trigger] params[i] <= '9' || params[i] == ','
            || params[i] == ' ')
}

/// Which rule decides on a type name, given which characters it lacks.
proof fn rule_decides(t: Seq<char>, i: int)
    requires
        0 <= i < 9,
        rule_fits(type_rules()[i], t),
        forall|k: int| 0 <= k < i ==> !rule_fits(#[trigger] type_rules()[k], t),
    ensures
        name_from(type_rules(), t, 0) == type_rules()[i].name,
{
    assert(type_rules().len() == 9);
    reveal_with_fuel(name_from, 10);
    assert(i > 0 ==> !rule_fits(type_rules()[0], t));
    assert(i > 1 ==> !rule_fits(type_rules()[1], t));
    assert(i > 2 ==> !rule_fits(type_rules()[2], t));
    assert(i > 3 ==> !rule_fits(type_rules()[3], t));
    assert(i > 4 ==> !rule_fits(type_rules()[4], t));
    assert(i > 5 ==> !rule_fits(type_rules()[5], t));
    assert(i > 6 ==> !rule_fits(type_rules()[6], t));
    assert(i > 7 ==> !rule_fits(type_rules()[7], t));
}

/// A rule with a character that a type name lacks does not fit it.
proof fn rule_lacks(t: Seq<char>, i: int, at: int)
    requires
        0 <= i < 9,
        0 <= at < type_rules()[i].pattern.len(),
        type_rules()[i].pattern[at] != '%',
        !t.contains(type_rules()[i].pattern[at]),
    ensures
        !rule_fits(type_rules()[i], t),
{
    let rule = type_rules()[i];
    if rule_fits(rule, t) {
        assert(rule.pattern.contains(rule.pattern[at]));
        if !rule.exact {
            like_needs(t, rule.pattern, rule.pattern[at]);
        }
    }
}

/// The mapping agrees with the types that results go out as: a column whose type is
/// reported under a name of PostgreSQL's is one whose values go out as the type of
/// that name, with any parameters.
pub proof fn mapping_agrees_with_types(params: Seq<char>)
    requires
        are_params(params),
    ensures
        is_mapped("double"@),
        is_mapped("varbinary"@),
        is_mapped("varchar"@),
        is_mapped("varchar"@ + seq!['('] + params + seq![')']),
        is_mapped("char"@ + seq!['('] + params + seq![')']),
        is_mapped("decimal"@ + seq!['('] + params + seq![')']),
        is_mapped("time"@),
        is_mapped("time"@ + seq!['('] + params + seq![')']),
        is_mapped("time"@ + seq!['('] + params + seq![')'] + (seq![' '] + "with time zone"@)),
        is_mapped("time with time zone"@),
        is_mapped("timestamp"@),
        is_mapped("timestamp"@ + seq!['('] + params + seq![')']),
        is_mapped("timestamp"@ + seq!['('] + params + seq![')'] + (seq![' '] + "with time zone"@)),
        is_mapped("timestamp with time zone"@),
{
    patterns();
    types::named_types();
    double_and_varbinary();
    plain_mapped(0, params);
    plain_mapped(1, params);
    plain_mapped(2, params);
    plain_mapped(3, params);
    plain_mapped(4, params);
    zoned_mapped(true, params);
    zoned_mapped(false, params);
}

/// A type name, in lower case, gets the name in SQL of the type that its values go
/// out as.
pub open spec fn is_mapped(t: Seq<char>) -> bool {
    sql_name(types::normalized_type(t)) == Some(name_from(type_rules(), t, 0))
}

/// The two types that are mapped by their whole name.
proof fn double_and_varbinary()
    ensures
        is_mapped("double"@),
        is_mapped("varbinary"@),
{
    patterns();
    types::named_types();
    let d = "double"@;
    types::parameters_make_no_difference(d, Seq::empty(), Seq::empty());
    assert(text::trimmed(d) == d);
    rule_decides(d, 0);
    let v = "varbinary"@;
    types::parameters_make_no_difference(v, Seq::empty(), Seq::empty());
    assert(text::trimmed(v) == v);
    assert(!rule_fits(type_rules()[0], v));
    rule_lacks(v, 1, 3);
    rule_lacks(v, 2, 0);
    rule_lacks(v, 3, 1);
    rule_lacks(v, 4, 0);
    rule_lacks(v, 5, 1);
    rule_lacks(v, 6, 0);
    rule_lacks(v, 7, 0);
    rule_decides(v, 8);
}

/// The families of types without a time zone.
spec fn family(k: int) -> Seq<char> {
    if k == 0 {
        "varchar"@
    } else if k == 1 {
        "char"@
    } else if k == 2 {
        "decimal"@
    } else if k == 3 {
        "time"@
    } else {
        "timestamp"@
    }
}

/// The rule for a family.
spec fn family_rule(k: int) -> int {
    if k == 0 {
        1
    } else if k == 1 {
        2
    } else if k == 2 {
        7
    } else if k == 3 {
        6
    } else {
        4
    }
}

/// The types without a time zone are mapped, with parameters and without.
proof fn plain_mapped(k: int, params: Seq<char>)
    requires
        0 <= k < 5,
        are_params(params),
    ensures
        is_mapped(family(k) + seq!['('] + params + seq![')']),
        k != 1 && k != 2 ==> is_mapped(family(k)),
{
    patterns();
    types::named_types();
    let name = family(k);
    let tail = seq!['('] + params + seq![')'];
    let t = name + seq!['('] + params + seq![')'];
    assert(t =~= name + tail);
    assert(t + Seq::<char>::empty() =~= t);
    types::parameters_make_no_difference(name, params, Seq::empty());
    assert(name + Seq::<char>::empty() =~= name);
    assert(text::trimmed(name) == name);
    assert(!name.contains('%'));
    like_begins(name, tail);
    if k == 1 {
        assert(t =~= (name + seq!['(']) + (params + seq![')']));
        assert(!(name + seq!['(']).contains('%'));
        like_begins(name + seq!['('], params + seq![')']);
        assert(name + seq!['('] + seq!['%'] =~= "char(%"@);
    }
    like_begins(name, Seq::empty());
    assert(name + Seq::<char>::empty() =~= name);
    family_lacks(k, params, t);
    rule_decides(t, family_rule(k));
    if k != 1 && k != 2 {
        family_lacks(k, params, name);
        rule_decides(name, family_rule(k));
    }
}

/// Earlier rules do not fit a type of a family.
proof fn family_lacks(k: int, params: Seq<char>, t: Seq<char>)
    requires
        0 <= k < 5,
        are_params(params),
        t == family(k) || t == family(k) + seq!['('] + params + seq![')'],
    ensures
        forall|i: int| 0 <= i < family_rule(k) ==> !rule_fits(#[trigger] type_rules()[i], t),
{
    patterns();
    let name = family(k);
    assert forall|c: char| t.contains(c) && 'a' <= c <= 'z' implies name.contains(c) by {
        let j = choose|j: int| 0 <= j < t.len() && t[j] == c;
        if j < name.len() {
            assert(name[j] == c);
        } else if j > name.len() && j < t.len() - 1 {
            assert(params[j - name.len() - 1] == c);
        }
    }
    not_the_first(k, t);
    if k == 1 {
        assert(!name.contains('v'));
        rule_lacks(t, 1, 0);
    } else if k == 2 {
        assert(!name.contains('v') && !name.contains('h') && !name.contains('t'));
        rule_lacks(t, 1, 0);
        rule_lacks(t, 2, 1);
        rule_lacks(t, 3, 1);
        rule_lacks(t, 4, 0);
        rule_lacks(t, 5, 1);
        rule_lacks(t, 6, 0);
    } else if k == 3 {
        assert(!name.contains('v') && !name.contains('c') && !name.contains('s')
            && !name.contains('w'));
        rule_lacks(t, 1, 0);
        rule_lacks(t, 2, 0);
        assert(type_rules()[3].pattern[5] == 's');
        rule_lacks(t, 3, 5);
        rule_lacks(t, 4, 4);
        assert(type_rules()[5].pattern[6] == 'w');
        rule_lacks(t, 5, 6);
    } else if k == 4 {
        assert(!name.contains('v') && !name.contains('c') && !name.contains('w'));
        rule_lacks(t, 1, 0);
        rule_lacks(t, 2, 0);
        assert(type_rules()[3].pattern[11] == 'w');
        rule_lacks(t, 3, 11);
    }
}

/// No family is taken for the first type.
proof fn not_the_first(k: int, t: Seq<char>)
    requires
        0 <= k < 5,
        forall|c: char| t.contains(c) && 'a' <= c <= 'z' ==> family(k).contains(c),
    ensures
        !rule_fits(type_rules()[0], t),
{
    patterns();
    assert(!family(k).contains('u'));
    assert("double"@[2] == 'u');
    rule_lacks(t, 0, 2);
}

/// The two types with a time zone are mapped, with parameters and without.
proof fn zoned_mapped(stamp: bool, params: Seq<char>)
    requires
        are_params(params),
    ensures
        ({
            let name = if stamp {
                "timestamp"@
            } else {
                "time"@
            };
            &&& is_mapped(name + seq!['('] + params + seq![')'] + (seq![' '] + "with time zone"@))
            &&& is_mapped(name + (seq![' '] + "with time zone"@))
        }),
{
    patterns();
    types::named_types();
    let name = if stamp {
        "timestamp"@
    } else {
        "time"@
    };
    let zone = "with time zone"@;
    let suffix = seq![' '] + zone;
    let with_params = name + seq!['('] + params + seq![')'] + suffix;
    let without = name + suffix;
    types::parameters_make_no_difference(name, params, suffix);
    types::parameters_make_no_difference(without, Seq::empty(), Seq::empty());
    assert(without.last() == 'e' && without[0] == 't');
    assert(text::trimmed(without) == without);
    let middle = seq!['('] + params + seq![')'] + seq![' '];
    assert(with_params =~= Seq::<char>::empty() + (name + (middle + (zone + Seq::<char>::empty()))));
    assert(without =~= Seq::<char>::empty() + (name + (seq![' '] + (zone + Seq::<char>::empty()))));
    zone_fits(stamp, middle);
    zone_fits(stamp, seq![' ']);
    zone_lacks(stamp, params, with_params);
    zone_lacks(stamp, params, without);
    let i: int = if stamp {
        3
    } else {
        5
    };
    rule_decides(with_params, i);
    rule_decides(without, i);
}

/// The rule for a type with a time zone fits it.
proof fn zone_fits(stamp: bool, middle: Seq<char>)
    ensures
        ({
            let name = if stamp {
                "timestamp"@
            } else {
                "time"@
            };
            let t = Seq::<char>::empty() + (name + (middle + ("with time zone"@ + Seq::<char>::empty())));
            rule_fits(
                type_rules()[if stamp {
                    3
                } else {
                    5
                }],
                t,
            )
        }),
{
    patterns();
    let name = if stamp {
        "timestamp"@
    } else {
        "time"@
    };
    let zone = "with time zone"@;
    assert(!zone.contains('%') && !name.contains('%'));
    like_begins(zone, Seq::empty());
    like_skips(middle, zone + Seq::<char>::empty(), zone + seq!['%']);
    like_goes_on(
        name,
        middle + (zone + Seq::<char>::empty()),
        seq!['%'] + (zone + seq!['%']),
    );
    like_skips(
        Seq::empty(),
        name + (middle + (zone + Seq::<char>::empty())),
        name + (seq!['%'] + (zone + seq!['%'])),
    );
}

/// Earlier rules do not fit a type with a time zone.
proof fn zone_lacks(stamp: bool, params: Seq<char>, t: Seq<char>)
    requires
        are_params(params),
        ({
            let name = if stamp {
                "timestamp"@
            } else {
                "time"@
            };
            let suffix = seq![' '] + "with time zone"@;
            t == name + suffix || t == name + seq!['('] + params + seq![')'] + suffix
        }),
    ensures
        forall|i: int|
            0 <= i < (if stamp {
                3int
            } else {
                5int
            }) ==> !rule_fits(#[trigger] type_rules()[i], t),
{
    patterns();
    let name = if stamp {
        "timestamp"@
    } else {
        "time"@
    };
    let suffix = seq![' '] + "with time zone"@;
    assert forall|c: char| t.contains(c) && 'a' <= c <= 'z' implies name.contains(c)
        || suffix.contains(c) by {
        let j = choose|j: int| 0 <= j < t.len() && t[j] == c;
        let k = t.len() - suffix.len();
        if j < name.len() {
            assert(name[j] == c);
        } else if j >= k {
            assert(suffix[j - k] == c);
        } else if j > name.len() && j < k - 1 {
            assert(params[j - name.len() - 1] == c);
        }
    }
    assert(!name.contains('u') && !suffix.contains('u'));
    assert(!name.contains('v') && !suffix.contains('v'));
    assert(!name.contains('c') && !suffix.contains('c'));
    assert("double"@[2] == 'u');
    rule_lacks(t, 0, 2);
    rule_lacks(t, 1, 0);
    rule_lacks(t, 2, 0);
    if !stamp {
        assert(!name.contains('s') && !suffix.contains('s'));
        assert(type_rules()[3].pattern[5] == 's');
        rule_lacks(t, 3, 5);
        rule_lacks(t, 4, 4);
    }
}

/// Only the expression is replaced: what stands before it and behind it stays, and a
/// query without it, or of another table, is left alone.
#[verifier::rlimit(50)]
pub proof fn only_the_expression_is_replaced(query: Seq<char>, parsed: Seq<char>)
    ensures
        match columns_rewritten(query, parsed) {
            Some(out) => powerbi_span(query) matches Some((start, end)) && 0 <= start <= end
                <= query.len() && out == query.take(start) + type_mapping() + " AS DATA_TYPE"@
                + query.skip(end) && query_inspection::mentions_table_in(
                parsed,
                "information_schema"@,
                "columns"@,
            ) && text::same_ignoring_case(
                query.subrange(start, start + 39),
                "CASE WHEN (DATA_TYPE LIKE '%UNSIGNED%')"@,
            ) && text::same_ignoring_case(query.subrange(end - 16, end), "END AS DATA_TYPE"@),
            None => !query_inspection::mentions_table_in(parsed, "information_schema"@, "columns"@)
                || !text::contains(
                text::ascii_uppercase(query),
                "CASE WHEN (DATA_TYPE LIKE '%UNSIGNED%')"@,
            ) || powerbi_span(query) is None,
        },
{
    reveal_strlit("CASE WHEN (DATA_TYPE LIKE '%UNSIGNED%')");
    reveal_strlit("END AS DATA_TYPE");
    let upper = text::ascii_uppercase(query);
    let first = "CASE WHEN (DATA_TYPE LIKE '%UNSIGNED%')"@;
    let last = "END AS DATA_TYPE"@;
    text::find_from_is_first(upper, first, 0);
    if let Some(start) = text::find(upper, first) {
        text::find_from_is_first(upper, last, start);
        if let Some(at) = text::find_from(upper, last, start) {
            let end = at + last.len();
            assert(text::ascii_uppercase(query.subrange(start, start + 39)) =~= upper.subrange(
                start,
                start + 39,
            ));
            assert(text::ascii_uppercase(query.subrange(end - 16, end)) =~= upper.subrange(
                end - 16,
                end,
            ));
            assert(text::ascii_uppercase(first) =~= first);
            assert(text::ascii_uppercase(last) =~= last);
        }
    }
}

/// The expression is a `CASE` whose branches are the rules in order, each with the
/// test and the name of its rule, and which leaves other types as they are.
pub proof fn branches_are_the_rules(before: Seq<RuleView>, rule: RuleView)
    ensures
        rules_sql(before.push(rule)) == rules_sql(before) + " WHEN lower(data_type) "@ + (
        if rule.exact {
            seq!['=', ' ', '\'']
        } else {
            seq!['L', 'I', 'K', 'E', ' ', '\'']
        }) + rule.pattern + "' THEN '"@ + rule.name + seq!['\''],
        rules_sql(Seq::empty()) == Seq::<char>::empty(),
        type_mapping() == seq!['C', 'A', 'S', 'E'] + rules_sql(type_rules()) + " ELSE data_type END"@,
{
    reveal_strlit("= '");
    reveal_strlit("LIKE '");
    reveal_strlit("'");
    reveal_strlit("CASE");
    assert("= '"@ =~= seq!['=', ' ', '\'']);
    assert("LIKE '"@ =~= seq!['L', 'I', 'K', 'E', ' ', '\'']);
    assert("'"@ =~= seq!['\'']);
    assert("CASE"@ =~= seq!['C', 'A', 'S', 'E']);
    assert(before.push(rule).drop_last() =~= before);
    assert(rules_sql(before.push(rule)) =~= rules_sql(before) + " WHEN lower(data_type) "@ + (
    if rule.exact {
        seq!['=', ' ', '\'']
    } else {
        seq!['L', 'I', 'K', 'E', ' ', '\'']
    }) + rule.pattern + "' THEN '"@ + rule.name + seq!['\'']);
}

/// The tables of `information_schema` that are answered with an empty result, and no
/// other; the result has the columns that the query projects.
pub proof fn missing_tables_are_empty(sql: Seq<char>)
    ensures
        mentions_missing_table(sql) ==> exists|table: Seq<char>|
            #[trigger] query_inspection::mentions_table_in(sql, "information_schema"@, table) && (
            table == "referential_constraints"@ || table == "table_constraints"@ || table
                == "key_column_usage"@ || table == "constraint_column_usage"@ || table
                == "constraint_table_usage"@ || table == "check_constraints"@),
        !mentions_missing_table(sql) ==> forall|table: Seq<char>|
            #[trigger] query_inspection::mentions_table_in(sql, "information_schema"@, table) ==> (
            table != "referential_constraints"@ && table != "table_constraints"@ && table
                != "key_column_usage"@ && table != "constraint_column_usage"@ && table
                != "constraint_table_usage"@ && table != "check_constraints"@),
        empty_response(sql) matches ResponseView::Query { fields, rows } && rows.len() == 0
            && fields.len() >= 1 && (query_inspection::column_names(sql).len() > 0
            ==> fields.len() == query_inspection::column_names(sql).len() && forall|i: int|
            0 <= i < fields.len() ==> (#[trigger] fields[i]).name == query_inspection::column_names(
                sql,
            )[i] && fields[i].datatype is Varchar),
{
}

/// The expression is found wherever it stands: from its first beginning on up to the
/// first end behind that. A query of the columns is left alone only where no end
/// stands behind a beginning.
#[verifier::rlimit(50)]
pub proof fn expressions_are_found(query: Seq<char>, parsed: Seq<char>)
    requires
        query_inspection::mentions_table_in(parsed, "information_schema"@, "columns"@),
    ensures
        ({
            let upper = text::ascii_uppercase(query);
            let first = "CASE WHEN (DATA_TYPE LIKE '%UNSIGNED%')"@;
            let last = "END AS DATA_TYPE"@;
            match columns_rewritten(query, parsed) {
                Some(out) => exists|i: int, j: int| #[trigger]
                    text::occurs_at(upper, first, i) && #[trigger] text::occurs_at(upper, last, j)
                        && i <= j && (forall|k: int| 0 <= k < i ==> !text::occurs_at(upper, first, k))
                        && (forall|k: int| i <= k < j ==> !text::occurs_at(upper, last, k)) && out
                        == query.take(i) + type_mapping() + " AS DATA_TYPE"@ + query.skip(j + 16),
                None => forall|i: int, j: int| #[trigger]
                    text::occurs_at(upper, first, i) && #[trigger] text::occurs_at(upper, last, j)
                        ==> j < i,
            }
        }),
{
    reveal_strlit("END AS DATA_TYPE");
    let upper = text::ascii_uppercase(query);
    let first = "CASE WHEN (DATA_TYPE LIKE '%UNSIGNED%')"@;
    let last = "END AS DATA_TYPE"@;
    text::find_from_is_first(upper, first, 0);
    match text::find(upper, first) {
        Some(start) => {
            text::find_from_is_first(upper, last, start);
            assert forall|i: int| text::occurs_at(upper, first, i) implies start <= i by {}
        },
        None => {},
    }
}

/// An empty result has a column of texts for each that the query projects, and a single
/// one named `column` where it projects none.
pub proof fn empty_results_have_columns(sql: Seq<char>, i: int)
    requires
        0 <= i < empty_fields(sql).len(),
    ensures
        empty_fields(sql)[i].datatype is Varchar,
        empty_fields(sql)[i].format is Text,
        query_inspection::column_names(sql).len() == 0 ==> empty_fields(sql).len() == 1
            && empty_fields(sql)[0].name == seq!['c', 'o', 'l', 'u', 'm', 'n'],
        query_inspection::column_names(sql).len() > 0 ==> empty_fields(sql).len()
            == query_inspection::column_names(sql).len() && empty_fields(sql)[i].name
            == query_inspection::column_names(sql)[i],
{
    reveal_strlit("column");
    assert("column"@ =~= seq!['c', 'o', 'l', 'u', 'm', 'n']);
}

} // verus!
