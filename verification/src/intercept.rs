//! Queries that are answered without Trino.
use vstd::prelude::*;

use crate::catalog;
use crate::catalog::handle_catalog_query;
use crate::info_schema;
use crate::info_schema::intercept_missing_information_schema;
use crate::query_inspection;
use crate::query_inspection::ParsedQuery;
use crate::response;
use crate::response::{Response, ResponseView, execution, single_text_response};
use crate::sql;
use crate::startup;
use crate::startup::show_value;
use crate::text;
use crate::text::{
    begins_with, chars_of, fitting_count, is_white_space, same, slice_chars, string_of, strip_trailing,
    to_lowercase, to_uppercase, trim_chars,
};

verus! {

/// A statement without surrounding white space and without the semicolons at
/// its end.
pub open spec fn command(query: Seq<char>) -> Seq<char> {
    text::trimmed(text::without_trailing(text::trimmed(query), ';'))
}

/// A command begins with a keyword and goes on after white space.
pub open spec fn leads(upper: Seq<char>, keyword: Seq<char>) -> bool {
    keyword.is_prefix_of(upper) && upper.len() > keyword.len() && text::is_space(
        upper[keyword.len() as int],
    )
}

/// A command is a keyword, or begins with it.
pub open spec fn is_or_leads(upper: Seq<char>, keyword: Seq<char>) -> bool {
    upper == keyword || leads(upper, keyword)
}

/// The completion tag of a transaction command, by the command in upper case.
pub open spec fn transaction_tag(upper: Seq<char>) -> Option<Seq<char>> {
    if is_or_leads(upper, "BEGIN"@) || "START TRANSACTION"@.is_prefix_of(upper) {
        Some("BEGIN"@)
    } else if is_or_leads(upper, "COMMIT"@) || upper == "END"@ {
        Some("COMMIT"@)
    } else if is_or_leads(upper, "ROLLBACK"@) {
        Some("ROLLBACK"@)
    } else {
        None
    }
}

/// A command that clears session state.
pub open spec fn is_session_command(upper: Seq<char>) -> bool {
    leads(upper, "DISCARD"@) || leads(upper, "DEALLOCATE"@) || upper == "CLOSE ALL"@
}

/// The parameter that a `SHOW` command asks for: what follows its first four
/// bytes, in lower case.
pub open spec fn shown_param(command: Seq<char>) -> Seq<char> {
    text::lower(text::trimmed(command.skip(text::fitting(command, 4) as int)))
}

/// The reply to a `SHOW` command.
pub open spec fn show_reply(command: Seq<char>) -> ResponseView {
    response::single_text(shown_param(command), startup::param_value(shown_param(command)))
}

/// The value of a setting that clients probe for.
pub open spec fn probed_setting(setting: Option<Seq<char>>) -> Option<Seq<char>> {
    match setting {
        Some(s) => if s == "server_version_num"@ {
            Some("160006"@)
        } else if s == "server_version"@ {
            Some("16.6"@)
        } else {
            None
        },
        None => None,
    }
}

/// The reply to a bare call of a server function, if it is one that clients
/// probe for.
pub open spec fn function_reply(
    sql: Seq<char>,
    catalog: Seq<char>,
    schema: Seq<char>,
) -> Option<ResponseView> {
    let setting = probed_setting(query_inspection::projected_literal(sql, "current_setting"@));
    if !query_inspection::is_bare(sql) {
        None
    } else if query_inspection::projects_call(sql, "version"@) {
        Some(
            response::single_text(
                "version"@,
                "PostgreSQL 16.6 on x86_64-pc-linux-gnu, compiled by gcc 12.2.0, 64-bit"@,
            ),
        )
    } else if query_inspection::projects_call(sql, "current_database"@) {
        Some(response::single_text("current_database"@, catalog))
    } else if query_inspection::projects_call(sql, "current_schema"@)
        || query_inspection::projects_identifier(sql, "current_schema"@) {
        Some(response::single_text("current_schema"@, schema))
    } else if query_inspection::projects_call(sql, "pg_is_in_recovery"@) {
        Some(response::single_text("pg_is_in_recovery"@, "false"@))
    } else if setting is Some {
        Some(response::single_text("current_setting"@, setting->0))
    } else {
        None
    }
}

/// The reply to a statement by its leading keyword, if it has one.
pub open spec fn command_reply(query: Seq<char>) -> Option<ResponseView> {
    let upper = text::upper(command(query));
    if leads(upper, "SET"@) {
        Some(ResponseView::Execution("SET"@))
    } else if transaction_tag(upper) is Some {
        Some(ResponseView::Execution(transaction_tag(upper)->0))
    } else if is_session_command(upper) {
        Some(ResponseView::Execution("OK"@))
    } else if leads(upper, "SHOW"@) {
        Some(show_reply(command(query)))
    } else {
        None
    }
}

/// The reply to a statement by what it mentions, if it has one.
pub open spec fn inspected_reply(
    sql: Seq<char>,
    catalog: Seq<char>,
    schema: Seq<char>,
) -> Option<ResponseView> {
    if function_reply(sql, catalog, schema) is Some {
        function_reply(sql, catalog, schema)
    } else if catalog::static_reply(sql) is Some {
        catalog::static_reply(sql)
    } else if info_schema::of_information_schema(sql, "character_sets"@) {
        Some(response::single_text("character_set_name"@, "UTF8"@))
    } else if info_schema::mentions_missing_table(sql) {
        Some(info_schema::empty_response(sql))
    } else {
        None
    }
}

/// The reply to a statement that is answered without Trino, if it is one.
pub open spec fn local_reply(
    query: Seq<char>,
    parsed: Seq<char>,
    catalog: Seq<char>,
    schema: Seq<char>,
) -> Option<ResponseView> {
    if text::trimmed(query).len() == 0 {
        None
    } else if command_reply(query) is Some {
        command_reply(query)
    } else {
        inspected_reply(parsed, catalog, schema)
    }
}

/// The reply is a single response with the given view, or none where there is
/// none.
pub open spec fn is_reply(r: Option<Vec<Response>>, reply: Option<ResponseView>) -> bool {
    &&& r is Some <==> reply is Some
    &&& r matches Some(v) ==> v@.len() == 1 && v@[0]@ == reply->0
}

/// Answers a `SHOW` command from the announced parameters.
pub fn intercept_show(command: &str) -> (r: Vec<Response>)
    ensures
        r@.len() == 1,
        r@[0]@ == show_reply(command@),
{
    let v = chars_of(command);
    let skipped: usize = fitting_count(v.as_slice(), 4);
    let rest = slice_chars(v.as_slice(), skipped, v.len());
    assert(rest@ =~= command@.skip(skipped as int));
    let name = string_of(trim_chars(rest.as_slice()).as_slice());
    let param = to_lowercase(name.as_str());
    single_text_response(param.as_str(), show_value(param.as_str()))
}

/// Answers the bare calls of server functions that clients make as they set up
/// a session (`SELECT version()`, `SELECT current_schema` and the like).
///
/// Only a `SELECT` of the single call, with or without an alias and without other
/// clauses, is answered: a column reference, a projection of two calls or an
/// expression around the call is not such a probe.
pub fn intercept_server_functions(query: &ParsedQuery, catalog: &str, schema: &str) -> (r: Option<
    Vec<Response>,
>)
    ensures
        is_reply(r, function_reply(query@, catalog@, schema@)),
{
    if !query.is_bare_scalar_select() {
        return None;
    }
    if query.projects_function("version") {
        return Some(
            single_text_response(
                "version",
                "PostgreSQL 16.6 on x86_64-pc-linux-gnu, compiled by gcc 12.2.0, 64-bit",
            ),
        );
    }
    if query.projects_function("current_database") {
        return Some(single_text_response("current_database", catalog));
    }
    if query.projects_function_or_keyword("current_schema") {
        return Some(single_text_response("current_schema", schema));
    }
    if query.projects_function("pg_is_in_recovery") {
        return Some(single_text_response("pg_is_in_recovery", "false"));
    }
    if let Some(setting) = query.projected_string_arg("current_setting") {
        if same(setting.as_str(), "server_version_num") {
            return Some(single_text_response("current_setting", "160006"));
        }
        if same(setting.as_str(), "server_version") {
            return Some(single_text_response("current_setting", "16.6"));
        }
    }
    None
}

/// Whether a command begins with a keyword and goes on after white space.
fn leads_with(upper: &[char], keyword: &str) -> (r: bool)
    ensures
        r == leads(upper@, keyword@),
{
    let n: usize = chars_of(keyword).len();
    begins_with(upper, keyword) && upper.len() > n && is_white_space(upper[n])
}

/// Whether a command is a keyword, or begins with it.
fn is_or_leads_with(upper: &[char], keyword: &str) -> (r: bool)
    ensures
        r == is_or_leads(upper@, keyword@),
{
    same(string_of(upper).as_str(), keyword) || leads_with(upper, keyword)
}

/// The completion tag of a transaction command. Trino has no transactions that
/// a client manages, so these commands are acknowledged and nothing more.
fn transaction_command(upper: &[char]) -> (r: Option<&'static str>)
    ensures
        match r {
            Some(tag) => transaction_tag(upper@) == Some(tag@),
            None => transaction_tag(upper@) is None,
        },
{
    if is_or_leads_with(upper, "BEGIN") || begins_with(upper, "START TRANSACTION") {
        Some("BEGIN")
    } else if is_or_leads_with(upper, "COMMIT") || same(string_of(upper).as_str(), "END") {
        Some("COMMIT")
    } else if is_or_leads_with(upper, "ROLLBACK") {
        Some("ROLLBACK")
    } else {
        None
    }
}

/// Answers a statement that need not go to Trino; gives nothing for one that
/// must.
///
/// Commands are known by their leading keyword. Queries are known by the
/// tables and functions that they mention, so that a catalog name in a literal
/// or a column name does not count.
pub fn try_intercept(
    query: &str,
    parsed_query: &ParsedQuery,
    catalog: &str,
    schema: &str,
) -> (r: Option<Vec<Response>>)
    ensures
        is_reply(r, local_reply(query@, parsed_query@, catalog@, schema@)),
{
    let mut v = trim_chars(chars_of(query).as_slice());
    if v.len() == 0 {
        return None;
    }
    strip_trailing(&mut v, ';');
    let trimmed = string_of(trim_chars(v.as_slice()).as_slice());
    let whole = to_uppercase(trimmed.as_str());
    let upper = chars_of(whole.as_str());
    let u = upper.as_slice();
    if leads_with(u, "SET") {
        return Some(execution("SET"));
    }
    if let Some(tag) = transaction_command(u) {
        return Some(execution(tag));
    }
    if leads_with(u, "DISCARD") || leads_with(u, "DEALLOCATE") || same(
        whole.as_str(),
        "CLOSE ALL",
    ) {
        return Some(execution("OK"));
    }
    if leads_with(u, "SHOW") {
        return Some(intercept_show(trimmed.as_str()));
    }
    if let Some(reply) = intercept_server_functions(parsed_query, catalog, schema) {
        return Some(reply);
    }
    if let Some(reply) = handle_catalog_query(parsed_query) {
        return Some(reply);
    }
    if parsed_query.references_table_in_schema("information_schema", "character_sets") {
        return Some(single_text_response("character_set_name", "UTF8"));
    }
    intercept_missing_information_schema(parsed_query)
}

/// White space around a command, and semicolons behind it, are no part of it.
proof fn command_is_framed(
    query: Seq<char>,
    before: Seq<char>,
    gap: Seq<char>,
    semicolons: Seq<char>,
    after: Seq<char>,
)
    requires
        text::is_blank(before),
        text::is_blank(gap),
        text::is_blank(after),
        forall|i: int| 0 <= i < semicolons.len() ==> #[trigger] semicolons[i] == ';',
        command(query).len() > 0,
        semicolons.len() > 0 && text::trimmed(query).last() == ';' ==> gap.len() == 0
            && !text::is_space(query.last()),
    ensures
        command(before + query + gap + semicolons + after) == command(query),
{
    let core = query + gap + semicolons;
    assert(before + query + gap + semicolons + after =~= before + (core + after));
    text::start_drops_blank(before, core + after);
    text::trimmed_drops_end(core, after);
    text::trimmed_drops_end(query, gap);
    if semicolons.len() == 0 {
        assert(core =~= query + gap);
    } else {
        let x = query + gap;
        let y = text::trimmed_start(x);
        let t = text::trimmed_end(y);
        text::end_settles(y);
        assert(t == text::trimmed(query));
        text::trailing_is_part(text::trimmed(query), ';');
        text::start_is_part(without_semicolons(query));
        text::end_is_part(text::trimmed_start(without_semicolons(query)));
        assert(t.len() > 0);
        text::end_is_part(y);
        text::start_goes_on(x, semicolons);
        assert(core =~= x + semicolons);
        assert(text::trimmed_start(core) == y + semicolons);
        assert((y + semicolons).last() == ';');
        assert(text::trimmed(core) == y + semicolons);
        text::trailing_goes(y, semicolons, ';');
        if text::is_space(y.last()) {
            text::start_is_part(x);
            assert(y.last() == x.last());
            assert(t.last() != ';') by {
                if t.last() == ';' {
                    assert(gap.len() == 0);
                    assert(x =~= query);
                }
            }
            assert(text::without_trailing(y, ';') == y);
            assert(text::without_trailing(t, ';') == t);
            assert(text::trimmed_start(y) == y);
            assert(text::trimmed_start(t) == t);
        }
    }
}

/// A statement without the semicolons at its end.
spec fn without_semicolons(query: Seq<char>) -> Seq<char> {
    text::without_trailing(text::trimmed(query), ';')
}

/// A command is in upper case where its statement is.
proof fn command_keeps_case(query: Seq<char>)
    ensures
        command(text::ascii_uppercase(query)) == text::ascii_uppercase(command(query)),
{
    text::trimmed_keeps_case(query);
    text::trailing_keeps_case(text::trimmed(query), ';');
    text::trimmed_keeps_case(without_semicolons(query));
}

/// A session or transaction command is answered alike however it is framed: with
/// any white space around it, any number of semicolons behind it, and its ASCII
/// letters in any case.
///
/// A statement that ends in a semicolon of its own takes further ones only right
/// behind it: semicolons with white space between them are no terminator.
pub proof fn commands_are_answered_alike(
    query: Seq<char>,
    recased: Seq<char>,
    before: Seq<char>,
    gap: Seq<char>,
    semicolons: Seq<char>,
    after: Seq<char>,
    catalog: Seq<char>,
    schema: Seq<char>,
    tag: Seq<char>,
)
    requires
        local_reply(query, query, catalog, schema) == Some(ResponseView::Execution(tag)),
        text::same_ignoring_case(recased, query),
        text::is_blank(before),
        text::is_blank(gap),
        text::is_blank(after),
        forall|i: int| 0 <= i < semicolons.len() ==> #[trigger] semicolons[i] == ';',
        semicolons.len() > 0 && text::trimmed(query).last() == ';' ==> gap.len() == 0
            && !text::is_space(query.last()),
    ensures
        ({
            let framed = before + recased + gap + semicolons + after;
            local_reply(framed, framed, catalog, schema) == Some(ResponseView::Execution(tag))
        }),
{
    let framed = before + recased + gap + semicolons + after;
    assert(command_reply(query) == Some(ResponseView::Execution(tag)));
    executed_is_not_empty(query);
    recased_is_alike(query, recased);
    command_is_framed(recased, before, gap, semicolons, after);
    assert(text::upper(command(framed)) == text::upper(command(query)));
    text::start_is_part(without_semicolons(framed));
    text::end_is_part(text::trimmed_start(without_semicolons(framed)));
    text::trailing_is_part(text::trimmed(framed), ';');
}

/// A command that is only acknowledged is not empty.
proof fn executed_is_not_empty(query: Seq<char>)
    requires
        command_reply(query) matches Some(reply) && reply is Execution,
    ensures
        command(query).len() > 0,
{
    reveal_strlit("BEGIN");
    reveal_strlit("START TRANSACTION");
    reveal_strlit("COMMIT");
    reveal_strlit("END");
    reveal_strlit("ROLLBACK");
    reveal_strlit("CLOSE ALL");
    let upper = text::upper(command(query));
    assert(upper.len() > 0);
    if command(query).len() == 0 {
        assert(upper =~= Seq::<char>::empty());
    }
}

/// A statement in another letter case has the same command but for its case, and
/// the same ends.
proof fn recased_is_alike(query: Seq<char>, recased: Seq<char>)
    requires
        text::same_ignoring_case(recased, query),
        command(query).len() > 0,
    ensures
        text::upper(command(recased)) == text::upper(command(query)),
        command(recased).len() > 0,
        text::trimmed(recased).last() == ';' ==> text::trimmed(query).last() == ';',
        recased.len() == query.len(),
        text::is_space(recased.last()) ==> text::is_space(query.last()),
{
    let a = text::ascii_uppercase(recased);
    let b = text::ascii_uppercase(query);
    assert(a.len() == recased.len());
    assert(b.len() == query.len());
    command_keeps_case(recased);
    command_keeps_case(query);
    text::upper_ignores_case(command(recased), command(query));
    assert(text::ascii_uppercase(command(recased)).len() == command(recased).len());
    assert(text::ascii_uppercase(command(query)).len() == command(query).len());
    text::trimmed_keeps_case(recased);
    text::trimmed_keeps_case(query);
    let t = text::trimmed(recased);
    let u = text::trimmed(query);
    assert(text::ascii_uppercase(t) == text::ascii_uppercase(u));
    assert(text::ascii_uppercase(t).len() == t.len());
    assert(text::ascii_uppercase(u).len() == u.len());
    text::trailing_is_part(u, ';');
    text::start_is_part(without_semicolons(query));
    text::end_is_part(text::trimmed_start(without_semicolons(query)));
    text::start_is_part(query);
    text::end_is_part(text::trimmed_start(query));
    assert(text::ascii_uppercase(t)[t.len() - 1] == text::ascii_uppercase(u)[u.len() - 1]);
    assert(a[a.len() - 1] == b[b.len() - 1]);
}

/// The first word of a text: what stands before its first white space.
pub open spec fn first_word(s: Seq<char>) -> Seq<char>
    decreases s.len(),
{
    if s.len() == 0 || text::is_space(s[0]) {
        Seq::empty()
    } else {
        seq![s[0]] + first_word(s.skip(1))
    }
}

/// A text that begins with a word and white space, or that is the word, has it as
/// its first word.
proof fn word_is_first(s: Seq<char>, word: Seq<char>)
    requires
        word.is_prefix_of(s),
        forall|i: int| 0 <= i < word.len() ==> !text::is_space(#[trigger] word[i]),
        s.len() == word.len() || text::is_space(s[word.len() as int]),
    ensures
        first_word(s) == word,
    decreases s.len(),
{
    if word.len() == 0 {
        assert(first_word(s) =~= word);
    } else {
        assert(s.take(word.len() as int)[0] == word[0]);
        let rest = word.skip(1);
        assert(s.skip(1).take(rest.len() as int) =~= rest) by {
            assert forall|i: int| 0 <= i < rest.len() implies s.skip(1)[i] == rest[i] by {
                assert(s.take(word.len() as int)[i + 1] == word[i + 1]);
            }
        }
        assert forall|i: int| 0 <= i < rest.len() implies !text::is_space(#[trigger] rest[i]) by {
            assert(rest[i] == word[i + 1]);
        }
        word_is_first(s.skip(1), rest);
        assert(word =~= seq![word[0]] + rest);
    }
}

/// A text that goes on after white space has its first word before it, and more.
proof fn leads_with_first_word(s: Seq<char>, keyword: Seq<char>)
    requires
        forall|i: int| 0 <= i < keyword.len() ==> !text::is_space(#[trigger] keyword[i]),
    ensures
        leads(s, keyword) ==> first_word(s) == keyword && s.len() > keyword.len(),
        s == keyword ==> first_word(s) == keyword,
        first_word(s) == keyword ==> s == keyword || leads(s, keyword),
    decreases s.len(),
{
    if leads(s, keyword) {
        word_is_first(s, keyword);
    }
    if s == keyword {
        assert(s.take(s.len() as int) =~= s);
        word_is_first(s, keyword);
    }
    if first_word(s) == keyword {
        first_word_is_first(s);
        assert(s.take(keyword.len() as int) =~= keyword);
        if s.len() == keyword.len() {
            assert(s =~= keyword);
        }
    }
}

/// The first word of a text stands at its start, and white space or nothing follows.
proof fn first_word_is_first(s: Seq<char>)
    ensures
        first_word(s).len() <= s.len(),
        first_word(s) == s.take(first_word(s).len() as int),
        first_word(s).len() < s.len() ==> text::is_space(s[first_word(s).len() as int]),
    decreases s.len(),
{
    if s.len() == 0 || text::is_space(s[0]) {
        assert(s.take(0) =~= first_word(s));
    } else {
        first_word_is_first(s.skip(1));
        let n = first_word(s).len() as int;
        assert(s.take(n) =~= seq![s[0]] + s.skip(1).take(n - 1));
    }
}

/// The words that the commands which are answered locally begin with.
pub open spec fn is_command_word(word: Seq<char>) -> bool {
    word == "SET"@ || word == "BEGIN"@ || word == "START"@ || word == "COMMIT"@ || word == "END"@
        || word == "ROLLBACK"@ || word == "DISCARD"@ || word == "DEALLOCATE"@ || word == "CLOSE"@
        || word == "SHOW"@
}

/// The letters of the command words.
proof fn command_letters()
    ensures
        "SET"@ =~= seq!['S', 'E', 'T'],
        "SHOW"@ =~= seq!['S', 'H', 'O', 'W'],
        "BEGIN"@ =~= seq!['B', 'E', 'G', 'I', 'N'],
        "START"@ =~= seq!['S', 'T', 'A', 'R', 'T'],
        "COMMIT"@ =~= seq!['C', 'O', 'M', 'M', 'I', 'T'],
        "END"@ =~= seq!['E', 'N', 'D'],
        "ROLLBACK"@ =~= seq!['R', 'O', 'L', 'L', 'B', 'A', 'C', 'K'],
        "DISCARD"@ =~= seq!['D', 'I', 'S', 'C', 'A', 'R', 'D'],
        "DEALLOCATE"@ =~= seq!['D', 'E', 'A', 'L', 'L', 'O', 'C', 'A', 'T', 'E'],
        "CLOSE"@ =~= seq!['C', 'L', 'O', 'S', 'E'],
        "CLOSE ALL"@ == "CLOSE"@ + seq![' ', 'A', 'L', 'L'],
        "START TRANSACTION"@ == "START"@ + (seq![' '] + "TRANSACTION"@),
        "TRANSACTION"@.len() == 11,
{
    reveal_strlit("SET");
    reveal_strlit("SHOW");
    reveal_strlit("BEGIN");
    reveal_strlit("START");
    reveal_strlit("COMMIT");
    reveal_strlit("END");
    reveal_strlit("ROLLBACK");
    reveal_strlit("DISCARD");
    reveal_strlit("DEALLOCATE");
    reveal_strlit("CLOSE");
    reveal_strlit("CLOSE ALL");
    reveal_strlit("START TRANSACTION");
    reveal_strlit("TRANSACTION");
    assert("CLOSE ALL"@ =~= "CLOSE"@ + seq![' ', 'A', 'L', 'L']);
    assert("START TRANSACTION"@ =~= "START"@ + (seq![' '] + "TRANSACTION"@));
}

/// A statement that begins with none of the command words is not answered as a
/// command, whatever it goes on with.
#[verifier::rlimit(50)]
pub proof fn other_words_are_no_commands(query: Seq<char>)
    requires
        !is_command_word(first_word(text::upper(command(query)))),
    ensures
        command_reply(query) is None,
{
    command_letters();
    let u = text::upper(command(query));
    leads_with_first_word(u, "SET"@);
    leads_with_first_word(u, "SHOW"@);
    leads_with_first_word(u, "BEGIN"@);
    leads_with_first_word(u, "COMMIT"@);
    leads_with_first_word(u, "END"@);
    leads_with_first_word(u, "ROLLBACK"@);
    leads_with_first_word(u, "DISCARD"@);
    leads_with_first_word(u, "DEALLOCATE"@);
    if u == "CLOSE ALL"@ {
        assert(u.take(5) =~= "CLOSE"@);
        word_is_first(u, "CLOSE"@);
    }
    if "START TRANSACTION"@.is_prefix_of(u) {
        let whole = "START TRANSACTION"@;
        assert forall|i: int| 0 <= i < 6 implies u[i] == whole[i] by {
            assert(u.take(whole.len() as int)[i] == whole[i]);
        }
        assert(u.take(5) =~= "START"@);
        word_is_first(u, "START"@);
    }
}

/// The words that other statements begin with are no command words.
#[verifier::rlimit(50)]
pub(crate) proof fn changes_are_not_command_words(word: Seq<char>)
    requires
        word == "INSERT"@ || word == "UPDATE"@ || word == "DELETE"@ || word == "MERGE"@ || word
            == "CREATE"@ || word == "DROP"@ || word == "ALTER"@ || word == "TRUNCATE"@ || word
            == "SELECT"@ || word == "WITH"@ || word == "VALUES"@,
    ensures
        !is_command_word(word),
{
    command_letters();
    reveal_strlit("INSERT");
    reveal_strlit("UPDATE");
    reveal_strlit("DELETE");
    reveal_strlit("MERGE");
    reveal_strlit("CREATE");
    reveal_strlit("DROP");
    reveal_strlit("ALTER");
    reveal_strlit("TRUNCATE");
    reveal_strlit("SELECT");
    reveal_strlit("WITH");
    reveal_strlit("VALUES");
    assert("INSERT"@[0] == 'I' && "UPDATE"@[0] == 'U' && "MERGE"@[0] == 'M');
    assert("DELETE"@[2] == 'L' && "DELETE"@[0] == 'D' && "DELETE"@.len() == 6);
    assert("CREATE"@[1] == 'R' && "DROP"@[1] == 'R' && "ALTER"@[0] == 'A');
    assert("CREATE"@[0] == 'C' && "DROP"@[0] == 'D');
    assert("TRUNCATE"@[0] == 'T' && "WITH"@[0] == 'W' && "VALUES"@[0] == 'V');
    assert("SELECT"@[2] == 'L' && "SELECT"@[0] == 'S' && "SELECT"@.len() == 6);
}

/// Statements that read or change data or tables are no commands.
pub proof fn changes_are_no_commands(query: Seq<char>)
    requires
        ({
            let word = first_word(text::upper(command(query)));
            word == "INSERT"@ || word == "UPDATE"@ || word == "DELETE"@ || word == "MERGE"@ || word
                == "CREATE"@ || word == "DROP"@ || word == "ALTER"@ || word == "TRUNCATE"@ || word
                == "SELECT"@ || word == "WITH"@ || word == "VALUES"@
        }),
    ensures
        command_reply(query) is None,
{
    changes_are_not_command_words(first_word(text::upper(command(query))));
    other_words_are_no_commands(query);
}

/// The commands that are only acknowledged, each by its first word and with its own
/// tag. `SET`, `DISCARD` and `DEALLOCATE` need something behind the word.
#[verifier::rlimit(50)]
pub proof fn commands_have_their_tags(query: Seq<char>)
    ensures
        ({
            let u = text::upper(command(query));
            let word = first_word(u);
            let reply = command_reply(query);
            &&& word == "SET"@ && u.len() > 3 ==> reply == Some(ResponseView::Execution("SET"@))
            &&& word == "BEGIN"@ ==> reply == Some(ResponseView::Execution("BEGIN"@))
            &&& word == "COMMIT"@ || u == "END"@ ==> reply == Some(
                ResponseView::Execution("COMMIT"@),
            )
            &&& word == "ROLLBACK"@ ==> reply == Some(ResponseView::Execution("ROLLBACK"@))
            &&& word == "DISCARD"@ && u.len() > 7 || word == "DEALLOCATE"@ && u.len() > 10
                ==> reply == Some(ResponseView::Execution("OK"@))
            &&& "START TRANSACTION"@.is_prefix_of(u) ==> reply == Some(
                ResponseView::Execution("BEGIN"@),
            )
            &&& u == "CLOSE ALL"@ ==> reply == Some(ResponseView::Execution("OK"@))
            &&& word == "SHOW"@ && u.len() > 4 ==> reply == Some(show_reply(command(query)))
        }),
{
    command_letters();
    let u = text::upper(command(query));
    leads_with_first_word(u, "SET"@);
    leads_with_first_word(u, "SHOW"@);
    leads_with_first_word(u, "BEGIN"@);
    leads_with_first_word(u, "COMMIT"@);
    leads_with_first_word(u, "END"@);
    leads_with_first_word(u, "ROLLBACK"@);
    leads_with_first_word(u, "DISCARD"@);
    leads_with_first_word(u, "DEALLOCATE"@);
    if u == "CLOSE ALL"@ {
        assert(u.take(5) =~= "CLOSE"@);
        word_is_first(u, "CLOSE"@);
        assert(u[0] == 'C' && u[1] == 'L');
    }
    if "START TRANSACTION"@.is_prefix_of(u) {
        let whole = "START TRANSACTION"@;
        assert forall|i: int| 0 <= i < 6 implies u[i] == whole[i] by {
            assert(u.take(whole.len() as int)[i] == whole[i]);
        }
        assert(u.take(5) =~= "START"@);
        word_is_first(u, "START"@);
    }
}

/// `SHOW` gives the value of the parameter that is named behind the word, under the
/// parameter's name in lower case.
#[verifier::rlimit(50)]
pub proof fn show_shows_its_parameter(word: Seq<char>, blank: Seq<char>, name: Seq<char>)
    requires
        word.len() == 4,
        vstd::utf8::is_ascii_chars(word),
        text::is_blank(blank),
        name.len() > 0 && !text::is_space(name[0]) && !text::is_space(name.last()),
    ensures
        show_reply(word + blank + name) == response::single_text(
            text::lower(name),
            startup::param_value(text::lower(name)),
        ),
{
    let c = word + blank + name;
    four_fit(c);
    assert(c.skip(4) =~= blank + name + Seq::<char>::empty());
    text::trimming_finds_the_core(blank, name, Seq::empty());
}

/// Four ASCII characters take four bytes.
#[verifier::rlimit(50)]
proof fn four_fit(c: Seq<char>)
    requires
        c.len() >= 4,
        forall|i: int| 0 <= i < 4 ==> '\0' <= #[trigger] c[i] <= '\u{7f}',
    ensures
        text::fitting(c, 4) == 4,
{
    reveal_with_fuel(text::fitting, 5);
    assert(text::width(c[0]) == 1);
    assert(text::width(c[1]) == 1);
    assert(text::width(c[2]) == 1);
    assert(text::width(c[3]) == 1);
    assert(c.skip(1)[0] == c[1]);
    assert(c.skip(1).skip(1)[0] == c[2]);
    assert(c.skip(1).skip(1).skip(1)[0] == c[3]);
    if c.len() > 4 {
        assert(c.skip(1).skip(1).skip(1).skip(1).len() > 0);
        one_byte_at_least(c.skip(1).skip(1).skip(1).skip(1)[0]);
    }
}

/// A character takes a byte at least.
proof fn one_byte_at_least(c: char)
    ensures
        text::width(c) >= 1,
{
}

/// The functions that are answered locally, each with its own value, and no other; and
/// only where the call is all that a statement asks for.
pub proof fn probes_have_their_values(sql: Seq<char>, catalog: Seq<char>, schema: Seq<char>)
    ensures
        match function_reply(sql, catalog, schema) {
            Some(reply) => {
                &&& query_inspection::is_bare(sql)
                &&& {
                    ||| query_inspection::projects_call(sql, "version"@) && reply
                        == response::single_text(
                        "version"@,
                        "PostgreSQL 16.6 on x86_64-pc-linux-gnu, compiled by gcc 12.2.0, 64-bit"@,
                    )
                    ||| query_inspection::projects_call(sql, "current_database"@) && reply
                        == response::single_text("current_database"@, catalog)
                    ||| (query_inspection::projects_call(sql, "current_schema"@)
                        || query_inspection::projects_identifier(sql, "current_schema"@)) && reply
                        == response::single_text("current_schema"@, schema)
                    ||| query_inspection::projects_call(sql, "pg_is_in_recovery"@) && reply
                        == response::single_text("pg_is_in_recovery"@, "false"@)
                    ||| query_inspection::projected_literal(sql, "current_setting"@) == Some(
                        "server_version_num"@,
                    ) && reply == response::single_text("current_setting"@, "160006"@)
                    ||| query_inspection::projected_literal(sql, "current_setting"@) == Some(
                        "server_version"@,
                    ) && reply == response::single_text("current_setting"@, "16.6"@)
                }
            },
            None => query_inspection::is_bare(sql) ==> {
                &&& !query_inspection::projects_call(sql, "version"@)
                &&& !query_inspection::projects_call(sql, "current_database"@)
                &&& !query_inspection::projects_call(sql, "current_schema"@)
                &&& !query_inspection::projects_identifier(sql, "current_schema"@)
                &&& !query_inspection::projects_call(sql, "pg_is_in_recovery"@)
                &&& query_inspection::projected_literal(sql, "current_setting"@) != Some(
                    "server_version_num"@,
                )
                &&& query_inspection::projected_literal(sql, "current_setting"@) != Some(
                    "server_version"@,
                )
            },
        },
{
}

/// A name of a table that is answered locally, without Trino or from its
/// `information_schema`.
pub open spec fn is_local_table(name: Seq<char>) -> bool {
    ||| text::same_ignoring_case(name, "pg_attribute"@)
    ||| text::same_ignoring_case(name, "pg_class"@)
    ||| text::same_ignoring_case(name, "pg_enum"@)
    ||| text::same_ignoring_case(name, "pg_namespace"@)
    ||| text::same_ignoring_case(name, "pg_range"@)
    ||| text::same_ignoring_case(name, "pg_type"@)
    ||| text::same_ignoring_case(name, "character_sets"@)
    ||| text::same_ignoring_case(name, "columns"@)
    ||| text::same_ignoring_case(name, "referential_constraints"@)
    ||| text::same_ignoring_case(name, "table_constraints"@)
    ||| text::same_ignoring_case(name, "key_column_usage"@)
    ||| text::same_ignoring_case(name, "constraint_column_usage"@)
    ||| text::same_ignoring_case(name, "constraint_table_usage"@)
    ||| text::same_ignoring_case(name, "check_constraints"@)
}

/// A text mentions none of these tables.
pub open spec fn is_of_other_tables(sql: Seq<char>) -> bool {
    sql::relations(sql) matches Some(names) ==> forall|i: int|
        0 <= i < names.len() ==> ((#[trigger] names[i]).len() > 0 && names[i].last() is Some
            ==> !is_local_table(names[i].last()->0))
}

/// A statement that is no command, asks for no single value, and is of other tables
/// is not answered locally.
#[verifier::rlimit(50)]
pub proof fn other_statements_have_no_reply(
    query: Seq<char>,
    catalog: Seq<char>,
    schema: Seq<char>,
)
    requires
        !is_command_word(first_word(text::upper(command(query)))),
        !query_inspection::is_bare(query),
        is_of_other_tables(query),
    ensures
        local_reply(query, query, catalog, schema) is None,
        catalog::dynamic_table(query) is None,
        info_schema::columns_rewritten(query, query) is None,
{
    other_words_are_no_commands(query);
    if let Some(names) = sql::relations(query) {
        assert forall|i: int, name: Seq<char>|
            0 <= i < names.len() && is_local_table(name)
                implies !#[trigger] query_inspection::last_is(names[i], name) by {
            if query_inspection::last_is(names[i], name) {
                let id = names[i].last()->0;
                assert(text::same_ignoring_case(id, name));
                assert(is_local_table(id));
            }
        }
        assert(is_local_table("pg_attribute"@) && is_local_table("pg_class"@));
        assert(is_local_table("pg_enum"@) && is_local_table("pg_namespace"@));
        assert(is_local_table("pg_range"@) && is_local_table("pg_type"@));
        assert(is_local_table("character_sets"@) && is_local_table("columns"@));
        assert(is_local_table("referential_constraints"@) && is_local_table("table_constraints"@));
        assert(is_local_table("key_column_usage"@) && is_local_table("constraint_column_usage"@));
        assert(is_local_table("constraint_table_usage"@) && is_local_table("check_constraints"@));
    }
}

/// A query of a catalog table with a fixed content is answered with that content, one
/// of the character sets with the one that there is, and one of a table that Trino does
/// not have with no row; unless the query is a command or a probe.
pub proof fn catalog_queries_are_answered(query: Seq<char>, catalog: Seq<char>, schema: Seq<char>)
    requires
        text::trimmed(query).len() > 0,
        command_reply(query) is None,
        function_reply(query, catalog, schema) is None,
    ensures
        ({
            let reply = local_reply(query, query, catalog, schema);
            let sets = query_inspection::mentions_table_in(
                query,
                "information_schema"@,
                "character_sets"@,
            );
            &&& catalog::static_reply(query) is Some ==> reply == catalog::static_reply(query)
            &&& catalog::static_reply(query) is None && sets ==> reply == Some(
                response::single_text("character_set_name"@, "UTF8"@),
            )
            &&& catalog::static_reply(query) is None && !sets
                && info_schema::mentions_missing_table(query) ==> reply == Some(
                info_schema::empty_response(query),
            )
            &&& reply is Some ==> catalog::static_reply(query) is Some || sets
                || info_schema::mentions_missing_table(query)
        }),
{
}

/// Commands are answered before anything else, and a probe before a query of the
/// catalog; an empty statement is not answered.
pub proof fn commands_come_first(query: Seq<char>, catalog: Seq<char>, schema: Seq<char>)
    ensures
        ({
            let reply = local_reply(query, query, catalog, schema);
            &&& text::trimmed(query).len() == 0 ==> reply is None
            &&& text::trimmed(query).len() > 0 && command_reply(query) is Some ==> reply
                == command_reply(query)
            &&& text::trimmed(query).len() > 0 && command_reply(query) is None && function_reply(
                query,
                catalog,
                schema,
            ) is Some ==> reply == function_reply(query, catalog, schema)
        }),
{
}

/// A reply is one response, and there is none where there is no reply.
pub proof fn replies_are_single(r: Option<Vec<Response>>, reply: Option<ResponseView>)
    requires
        is_reply(r, reply),
    ensures
        match reply {
            Some(view) => r matches Some(v) && v@.len() == 1 && v@[0]@ == view,
            None => r is None,
        },
{
}

} // verus!
