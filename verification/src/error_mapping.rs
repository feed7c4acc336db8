//! Turning Trino's error messages into PostgreSQL error reports.
//!
//! What goes back to the client is sanitised: Trino-internal class names,
//! stack traces and the hosts of URLs are removed, and the length is capped.
use vstd::prelude::*;

use crate::text;
use crate::text::{
    append_chars, begins_with, chars_of, ends_with, find_chars, fitting_count, has, is_white_space,
    slice_chars, string_of, to_ascii_uppercase, trim_chars, trim_start_chars,
};
use crate::wire::{ErrorInfo, ErrorView};

verus! {

/// Maximum length, in bytes, of the message returned to the client.
pub const MAX_CLIENT_ERROR_LEN: usize = 512;

/// Trino's positional syntax error, such as `LINE 1:7: ...`.
pub open spec fn syntax_position(upper: Seq<char>) -> bool {
    "LINE "@.is_prefix_of(upper) && match text::find(upper, ":"@) {
        Some(first) => text::contains(upper.skip(first + 1), ":"@),
        None => false,
    }
}

/// The SQLSTATE for a Trino error message, by keywords in any case.
pub open spec fn sqlstate(message: Seq<char>) -> Seq<char> {
    let upper = text::ascii_uppercase(message);
    if text::contains(upper, "SYNTAX_ERROR"@) || syntax_position(upper) {
        "42601"@
    } else if text::contains(upper, "TABLE_NOT_FOUND"@) || text::contains(
        upper,
        "DOES NOT EXIST"@,
    ) {
        "42P01"@
    } else if text::contains(upper, "COLUMN_NOT_FOUND"@) || text::contains(
        upper,
        "CANNOT BE RESOLVED"@,
    ) {
        "42703"@
    } else if text::contains(upper, "TYPE_MISMATCH"@) {
        "42846"@
    } else if text::contains(upper, "PERMISSION_DENIED"@) || text::contains(
        upper,
        "ACCESS DENIED"@,
    ) {
        "42501"@
    } else if text::contains(upper, "DIVISION_BY_ZERO"@) {
        "22012"@
    } else {
        "42000"@
    }
}

/// The report that a Trino error message becomes.
pub open spec fn error_report(message: Seq<char>) -> ErrorView {
    ErrorView { severity: "ERROR"@, code: sqlstate(message), message: sanitised(message) }
}

/// Detects Trino's positional syntax error, such as `LINE 1:7: ...`.
pub fn is_syntax_position(upper: &[char]) -> (r: bool)
    ensures
        r == syntax_position(upper@),
{
    if !begins_with(upper, "LINE ") {
        return false;
    }
    let n: usize = upper.len();
    proof {
        reveal_strlit(":");
    }
    match find_chars(upper, ":") {
        Some(first) => {
            let rest = slice_chars(upper, first + 1, n);
            assert(rest@ =~= upper@.skip(first + 1));
            has(rest.as_slice(), ":")
        },
        None => false,
    }
}

/// Maps a Trino error message to a report with a suitable SQLSTATE.
///
/// The SQLSTATE is taken from the full message, since stack frames and class
/// names hold useful keywords. The text returned to the client is sanitised.
pub fn trino_error_to_pg(error_msg: &str) -> (r: ErrorInfo)
    ensures
        r@ == error_report(error_msg@),
{
    let upper = to_ascii_uppercase(chars_of(error_msg).as_slice());
    let u = upper.as_slice();
    let code = if has(u, "SYNTAX_ERROR") || is_syntax_position(u) {
        "42601"
    } else if has(u, "TABLE_NOT_FOUND") || has(u, "DOES NOT EXIST") {
        "42P01"
    } else if has(u, "COLUMN_NOT_FOUND") || has(u, "CANNOT BE RESOLVED") {
        "42703"
    } else if has(u, "TYPE_MISMATCH") {
        "42846"
    } else if has(u, "PERMISSION_DENIED") || has(u, "ACCESS DENIED") {
        "42501"
    } else if has(u, "DIVISION_BY_ZERO") {
        "22012"
    } else {
        "42000"
    };
    ErrorInfo::new("ERROR", code, sanitise_for_client(error_msg))
}

/// Where a Java stack trace begins: at its first frame, which is indented by a
/// tab or by two spaces.
pub open spec fn trace_start(s: Seq<char>) -> Option<int> {
    match (text::find(s, "\n\tat "@), text::find(s, "\n  at "@)) {
        (Some(tab), Some(spaces)) => Some(
            if tab < spaces {
                tab
            } else {
                spaces
            },
        ),
        (Some(tab), None) => Some(tab),
        (None, spaces) => spaces,
    }
}

/// A message up to where a Java stack trace begins.
pub open spec fn without_stack_trace(s: Seq<char>) -> Seq<char> {
    match trace_start(s) {
        Some(i) => s.take(i),
        None => s,
    }
}

/// A text that looks like the full name of a Java exception class.
pub open spec fn is_exception_name(s: Seq<char>) -> bool {
    ("io."@.is_prefix_of(s) || "com."@.is_prefix_of(s) || "java."@.is_prefix_of(s)
        || "org."@.is_prefix_of(s)) && ("Exception"@.is_suffix_of(s) || "Error"@.is_suffix_of(s))
}

/// What follows a leading exception class name and `: `, if there is one.
pub open spec fn after_exception_name(s: Seq<char>) -> Option<Seq<char>> {
    match text::find(s, ": "@) {
        Some(colon) => if is_exception_name(s.take(colon)) {
            Some(text::trimmed_start(s.skip(colon + 2)))
        } else {
            None
        },
        None => None,
    }
}

/// A message without its leading exception class names, however many.
pub open spec fn without_exception_names(s: Seq<char>) -> Seq<char>
    decreases s.len(),
    via without_exception_names_terminates
{
    match after_exception_name(s) {
        Some(rest) => without_exception_names(rest),
        None => s,
    }
}

#[via_fn]
proof fn without_exception_names_terminates(s: Seq<char>) {
    after_exception_name_is_shorter(s);
}

proof fn after_exception_name_is_shorter(s: Seq<char>)
    ensures
        after_exception_name(s) matches Some(rest) ==> rest.len() < s.len(),
{
    reveal_strlit(": ");
    if let Some(colon) = text::find(s, ": "@) {
        text::find_from_is_first(s, ": "@, 0);
        text::start_is_part(s.skip(colon + 2));
    }
}

/// Nested exception wrappers are removed to the last: no message that comes
/// out still begins with an exception class name and `: `.
pub proof fn no_exception_name_remains(s: Seq<char>)
    ensures
        after_exception_name(without_exception_names(s)) is None,
    decreases s.len(),
{
    after_exception_name_is_shorter(s);
    if let Some(rest) = after_exception_name(s) {
        no_exception_name_remains(rest);
    }
}

/// Drops a leading Java exception class name and `: `; gives nothing where
/// there is none.
pub fn strip_java_exception_prefix(s: &[char]) -> (r: Option<Vec<char>>)
    ensures
        match r {
            Some(v) => after_exception_name(s@) == Some(v@),
            None => after_exception_name(s@) is None,
        },
{
    proof {
        reveal_strlit(": ");
    }
    let n: usize = s.len();
    match find_chars(s, ": ") {
        Some(colon) => {
            let name = slice_chars(s, 0, colon);
            assert(name@ =~= s@.take(colon as int));
            let p = name.as_slice();
            let package = begins_with(p, "io.") || begins_with(p, "com.") || begins_with(p, "java.")
                || begins_with(p, "org.");
            let exception = ends_with(p, "Exception") || ends_with(p, "Error");
            if package && exception {
                let rest = slice_chars(s, colon + 2, n);
                assert(rest@ =~= s@.skip(colon + 2));
                Some(trim_start_chars(rest.as_slice()))
            } else {
                None
            }
        },
        None => None,
    }
}

/// A character that ends the host part of a URL.
pub open spec fn ends_host(c: char) -> bool {
    c == '/' || c == ')' || c == ',' || text::is_space(c)
}

/// The number of characters before the host part of a URL ends.
pub open spec fn host_len(s: Seq<char>) -> nat
    decreases s.len(),
{
    if s.len() == 0 || ends_host(s[0]) {
        0
    } else {
        1 + host_len(s.skip(1))
    }
}

/// A text in which the host of every `http://` or `https://` URL is `<trino>`.
pub open spec fn hosts_masked(s: Seq<char>) -> Seq<char>
    decreases s.len(),
    via hosts_masked_terminates
{
    if s.len() == 0 {
        Seq::empty()
    } else if "https://"@.is_prefix_of(s) {
        "https://"@ + "<trino>"@ + hosts_masked(s.skip(8int + host_len(s.skip(8))))
    } else if "http://"@.is_prefix_of(s) {
        "http://"@ + "<trino>"@ + hosts_masked(s.skip(7int + host_len(s.skip(7))))
    } else {
        seq![s[0]] + hosts_masked(s.skip(1))
    }
}

#[via_fn]
proof fn hosts_masked_terminates(s: Seq<char>) {
    reveal_strlit("https://");
    reveal_strlit("http://");
    if "https://"@.is_prefix_of(s) {
        host_len_within(s.skip(8));
    } else if "http://"@.is_prefix_of(s) {
        host_len_within(s.skip(7));
    }
}

proof fn host_len_within(s: Seq<char>)
    ensures
        host_len(s) <= s.len(),
    decreases s.len(),
{
    if s.len() > 0 && !ends_host(s[0]) {
        host_len_within(s.skip(1));
    }
}

/// Masking leaves the first seven characters of a text alone.
proof fn masking_keeps_start(s: Seq<char>)
    ensures
        s.len() < 7 ==> hosts_masked(s).len() == s.len(),
        s.len() >= 7 ==> hosts_masked(s).len() >= 7,
        forall|j: int| 0 <= j < 7 && j < s.len() ==> hosts_masked(s)[j] == s[j],
    decreases s.len(),
{
    reveal_strlit("https://");
    reveal_strlit("http://");
    reveal_strlit("<trino>");
    if s.len() > 0 {
        if "https://"@.is_prefix_of(s) {
            assert forall|j: int| 0 <= j < 7 && j < s.len() implies hosts_masked(s)[j] == s[j] by {
                assert(s.take(8)[j] == s[j]);
            }
        } else if "http://"@.is_prefix_of(s) {
            assert forall|j: int| 0 <= j < 7 && j < s.len() implies hosts_masked(s)[j] == s[j] by {
                assert(s.take(7)[j] == s[j]);
            }
        } else {
            masking_keeps_start(s.skip(1));
            assert forall|j: int| 0 <= j < 7 && j < s.len() implies hosts_masked(s)[j] == s[j] by {
                if j > 0 {
                    assert(hosts_masked(s)[j] == hosts_masked(s.skip(1))[j - 1]);
                    assert(s.skip(1)[j - 1] == s[j]);
                }
            }
        }
    }
}

/// The host of every URL is masked: wherever `http://` or `https://` stands in
/// a text that comes out, `<trino>` follows it.
pub proof fn every_host_is_masked(s: Seq<char>, i: int)
    ensures
        text::occurs_at(hosts_masked(s), "http://"@, i) ==> text::occurs_at(
            hosts_masked(s),
            "<trino>"@,
            i + 7,
        ),
        text::occurs_at(hosts_masked(s), "https://"@, i) ==> text::occurs_at(
            hosts_masked(s),
            "<trino>"@,
            i + 8,
        ),
    decreases s.len(),
{
    reveal_strlit("https://");
    reveal_strlit("http://");
    reveal_strlit("<trino>");
    let out = hosts_masked(s);
    let plain = text::occurs_at(out, "http://"@, i);
    let secure = text::occurs_at(out, "https://"@, i);
    if plain {
        assert forall|k: int| 0 <= k < 7 implies #[trigger] out[i + k] == "http://"@[k] by {
            assert(out.subrange(i, i + 7)[k] == out[i + k]);
        }
        assert(out[i + 0] == 'h' && out[i + 4] == ':');
    }
    if secure {
        assert forall|k: int| 0 <= k < 8 implies #[trigger] out[i + k] == "https://"@[k] by {
            assert(out.subrange(i, i + 8)[k] == out[i + k]);
        }
        assert(out[i + 0] == 'h' && out[i + 4] == 's');
    }
    if s.len() > 0 && (plain || secure) {
        if "https://"@.is_prefix_of(s) {
            let tail = s.skip(8int + host_len(s.skip(8)));
            let head = "https://"@ + "<trino>"@;
            host_len_within(s.skip(8));
            assert(out == head + hosts_masked(tail));
            if i >= 15 {
                shifted(head, hosts_masked(tail));
                every_host_is_masked(tail, i - 15);
            } else {
                assert(out.subrange(8, 15) =~= "<trino>"@);
            }
        } else if "http://"@.is_prefix_of(s) {
            let tail = s.skip(7int + host_len(s.skip(7)));
            let head = "http://"@ + "<trino>"@;
            host_len_within(s.skip(7));
            assert(out == head + hosts_masked(tail));
            if i >= 14 {
                shifted(head, hosts_masked(tail));
                every_host_is_masked(tail, i - 14);
            } else {
                assert(out.subrange(7, 14) =~= "<trino>"@);
            }
        } else {
            let tail = s.skip(1);
            let head = seq![s[0]];
            assert(out == head + hosts_masked(tail));
            if i >= 1 {
                shifted(head, hosts_masked(tail));
                every_host_is_masked(tail, i - 1);
            } else {
                masking_keeps_start(tail);
                assert forall|k: int| 0 <= k < 8 && k < s.len() implies out[k] == #[trigger] s[k] by {
                    if k > 0 {
                        assert(out[k] == hosts_masked(tail)[k - 1]);
                        assert(tail[k - 1] == s[k]);
                    }
                }
                if plain {
                    assert(s.len() >= 7);
                    assert(s.take(7) =~= "http://"@) by {
                        assert forall|k: int| 0 <= k < 7 implies s[k] == "http://"@[k] by {
                            assert(out[i + k] == "http://"@[k]);
                        }
                    }
                } else {
                    assert(s.len() >= 8);
                    assert(s.take(8) =~= "https://"@) by {
                        assert forall|k: int| 0 <= k < 8 implies s[k] == "https://"@[k] by {
                            assert(out[i + k] == "https://"@[k]);
                        }
                    }
                }
            }
        }
    }
}

/// A pattern that stands behind `head` stands in what follows it, and back.
proof fn shifted(head: Seq<char>, tail: Seq<char>)
    ensures
        forall|p: Seq<char>, k: int|
            k >= head.len() ==> #[trigger] text::occurs_at(head + tail, p, k) == text::occurs_at(
                tail,
                p,
                k - head.len(),
            ),
{
    assert forall|p: Seq<char>, k: int| k >= head.len() implies #[trigger] text::occurs_at(
        head + tail,
        p,
        k,
    ) == text::occurs_at(tail, p, k - head.len()) by {
        if k + p.len() <= (head + tail).len() {
            assert((head + tail).subrange(k, k + p.len()) =~= tail.subrange(
                k - head.len(),
                k - head.len() + p.len(),
            ));
        }
    }
}

/// The position, from `from` on, at which the host part of a URL ends.
fn host_end(v: &[char], from: usize) -> (r: usize)
    requires
        from <= v@.len(),
    ensures
        r == from + host_len(v@.skip(from as int)),
        from <= r <= v@.len(),
{
    let mut i: usize = from;
    while i < v.len() && !(v[i] == '/' || v[i] == ')' || v[i] == ',' || is_white_space(v[i]))
        invariant
            from <= i <= v@.len(),
            host_len(v@.skip(from as int)) == (i - from) + host_len(v@.skip(i as int)),
        decreases v@.len() - i,
    {
        assert(v@.skip(i as int).skip(1) =~= v@.skip(i + 1));
        i += 1;
    }
    i
}

/// Replaces the host part of every `http://` or `https://` URL by `<trino>`.
/// A host ends at the next `/`, `)`, `,` or white space.
pub fn mask_url_hosts(v: &[char]) -> (r: Vec<char>)
    ensures
        r@ == hosts_masked(v@),
{
    proof {
        reveal_strlit("https://");
        reveal_strlit("http://");
    }
    let secure = chars_of("https://");
    let plain = chars_of("http://");
    let host = chars_of("<trino>");
    let mut out: Vec<char> = Vec::new();
    let mut i: usize = 0;
    assert(v@.skip(0) =~= v@);
    assert(out@ + hosts_masked(v@.skip(0)) =~= hosts_masked(v@));
    while i < v.len()
        invariant
            i <= v@.len(),
            secure@ == "https://"@,
            plain@ == "http://"@,
            host@ == "<trino>"@,
            "https://"@.len() == 8,
            "http://"@.len() == 7,
            out@ + hosts_masked(v@.skip(i as int)) == hosts_masked(v@),
        decreases v@.len() - i,
    {
        let ghost rest = v@.skip(i as int);
        let ghost before = out@;
        if text::matches_at(v, secure.as_slice(), i) {
            proof {
                assert(v@.subrange(i as int, i + 8) =~= rest.take(8));
            }
            append_chars(&mut out, secure.as_slice());
            append_chars(&mut out, host.as_slice());
            let end: usize = host_end(v, i + 8);
            proof {
                assert(rest.skip(8) =~= v@.skip(i + 8));
                assert(rest.skip(8int + host_len(rest.skip(8))) =~= v@.skip(end as int));
                assert(out@ + hosts_masked(v@.skip(end as int)) =~= before + hosts_masked(rest));
            }
            i = end;
        } else if text::matches_at(v, plain.as_slice(), i) {
            proof {
                assert(v@.subrange(i as int, i + 7) =~= rest.take(7));
                if "https://"@.is_prefix_of(rest) {
                    assert(v@.subrange(i as int, i + 8) =~= rest.take(8));
                }
            }
            append_chars(&mut out, plain.as_slice());
            append_chars(&mut out, host.as_slice());
            let end: usize = host_end(v, i + 7);
            proof {
                assert(rest.skip(7) =~= v@.skip(i + 7));
                assert(rest.skip(7int + host_len(rest.skip(7))) =~= v@.skip(end as int));
                assert(out@ + hosts_masked(v@.skip(end as int)) =~= before + hosts_masked(rest));
            }
            i = end;
        } else {
            proof {
                if "https://"@.is_prefix_of(rest) {
                    assert(v@.subrange(i as int, i + 8) =~= rest.take(8));
                }
                if "http://"@.is_prefix_of(rest) {
                    assert(v@.subrange(i as int, i + 7) =~= rest.take(7));
                }
                assert(rest.skip(1) =~= v@.skip(i + 1));
            }
            out.push(v[i]);
            proof {
                assert(out@ + hosts_masked(v@.skip(i + 1)) =~= before + hosts_masked(rest));
            }
            i += 1;
        }
    }
    assert(out@ + hosts_masked(v@.skip(i as int)) =~= out@);
    out
}

/// `s`, or where that takes more than `max` bytes, as many of its leading
/// characters as leave room for the ellipsis, and the ellipsis.
pub open spec fn shortened(s: Seq<char>, max: int) -> Seq<char> {
    if text::byte_len(s) <= max {
        s
    } else {
        s.take(
            text::fitting(
                s,
                if max < 3 {
                    0
                } else {
                    max - 3
                },
            ) as int,
        ).push('\u{2026}')
    }
}

/// A shortened text keeps within its limit.
pub proof fn shortened_fits(s: Seq<char>, max: int)
    requires
        3 <= max,
    ensures
        text::byte_len(shortened(s, max)) <= max,
{
    if text::byte_len(s) > max {
        text::fitting_is_longest(s, max - 3);
        let head = s.take(text::fitting(s, max - 3) as int);
        text::push_adds_width(head, '\u{2026}');
    }
}

/// Cuts `s` to at most `max` bytes, at a character boundary, and marks the cut
/// with an ellipsis. A text that fits is left alone.
pub fn truncate_with_ellipsis(s: &mut String, max: usize)
    ensures
        final(s)@ == shortened(old(s)@, max as int),
{
    let v = chars_of(s.as_str());
    proof {
        text::fitting_is_longest(s@, max as int);
    }
    if fitting_count(v.as_slice(), max) == v.len() {
        return;
    }
    // The ellipsis takes three bytes of the budget.
    let room: usize = if max < 3 {
        0
    } else {
        max - 3
    };
    let cut: usize = fitting_count(v.as_slice(), room);
    let mut head = slice_chars(v.as_slice(), 0, cut);
    assert(head@ =~= old(s)@.take(cut as int));
    head.push('\u{2026}');
    *s = string_of(head.as_slice());
}

/// The message that goes back to the client for a Trino error message.
pub open spec fn sanitised(message: Seq<char>) -> Seq<char> {
    shortened(
        text::trimmed(hosts_masked(without_exception_names(without_stack_trace(message)))),
        MAX_CLIENT_ERROR_LEN as int,
    )
}

/// Strips Trino-internal noise from an error message: a trailing Java stack
/// trace, leading exception class names, and the hosts of URLs. The result is
/// capped at `MAX_CLIENT_ERROR_LEN` bytes.
///
/// The description itself is kept, and so are hosts outside of URLs.
pub fn sanitise_for_client(msg: &str) -> (r: String)
    ensures
        r@ == sanitised(msg@),
        text::byte_len(r@) <= MAX_CLIENT_ERROR_LEN,
{
    let v = chars_of(msg);
    let tab_frame = find_chars(v.as_slice(), "\n\tat ");
    let space_frame = find_chars(v.as_slice(), "\n  at ");
    let end: usize = match (tab_frame, space_frame) {
        (Some(tab), Some(spaces)) => if tab < spaces {
            tab
        } else {
            spaces
        },
        (Some(tab), None) => tab,
        (None, Some(spaces)) => spaces,
        (None, None) => v.len(),
    };
    let mut stripped = slice_chars(v.as_slice(), 0, end);
    assert(stripped@ =~= without_stack_trace(msg@));
    loop
        invariant
            without_exception_names(stripped@) == without_exception_names(
                without_stack_trace(msg@),
            ),
        ensures
            stripped@ == without_exception_names(without_stack_trace(msg@)),
        decreases stripped@.len(),
    {
        proof {
            after_exception_name_is_shorter(stripped@);
        }
        match strip_java_exception_prefix(stripped.as_slice()) {
            Some(rest) => {
                stripped = rest;
            },
            None => {
                break;
            },
        }
    }
    let masked = mask_url_hosts(stripped.as_slice());
    let mut out = string_of(trim_chars(masked.as_slice()).as_slice());
    proof {
        shortened_fits(out@, MAX_CLIENT_ERROR_LEN as int);
    }
    truncate_with_ellipsis(&mut out, MAX_CLIENT_ERROR_LEN);
    out
}

/// A text has no occurrence of a pattern.
spec fn lacks(s: Seq<char>, p: Seq<char>) -> bool {
    forall|i: int| !#[trigger] text::occurs_at(s, p, i)
}

/// A part of a text has no pattern that the text lacks.
proof fn part_lacks(s: Seq<char>, from: int, to: int, p: Seq<char>)
    requires
        0 <= from <= to <= s.len(),
        lacks(s, p),
    ensures
        lacks(s.subrange(from, to), p),
{
    assert forall|i: int| !#[trigger] text::occurs_at(s.subrange(from, to), p, i) by {
        if text::occurs_at(s.subrange(from, to), p, i) {
            assert(s.subrange(from + i, from + i + p.len()) =~= s.subrange(from, to).subrange(
                i,
                i + p.len(),
            ));
            assert(text::occurs_at(s, p, from + i));
        }
    }
}

/// Without its exception names a message lacks what it lacked with them.
proof fn names_dropped_lacks(s: Seq<char>, p: Seq<char>)
    requires
        lacks(s, p),
    ensures
        lacks(without_exception_names(s), p),
    decreases s.len(),
{
    after_exception_name_is_shorter(s);
    if let Some(rest) = after_exception_name(s) {
        let colon = text::find(s, ": "@)->0;
        reveal_strlit(": ");
        text::find_from_is_first(s, ": "@, 0);
        assert(s.skip(colon + 2) =~= s.subrange(colon + 2, s.len() as int));
        part_lacks(s, colon + 2, s.len() as int, p);
        let tail = s.skip(colon + 2);
        text::start_is_part(tail);
        part_lacks(tail, tail.len() - rest.len(), tail.len() as int, p);
        names_dropped_lacks(rest, p);
    }
}

/// A pattern that begins with a line break does not come from masking.
proof fn masked_lacks(s: Seq<char>, p: Seq<char>)
    requires
        lacks(s, p),
        1 <= p.len() <= 8,
        p[0] == '\n',
    ensures
        lacks(hosts_masked(s), p),
    decreases s.len(), 1nat,
{
    reveal_strlit("https://");
    reveal_strlit("http://");
    reveal_strlit("<trino>");
    let out = hosts_masked(s);
    assert forall|i: int| !#[trigger] text::occurs_at(out, p, i) by {
        if text::occurs_at(out, p, i) {
            assert(out.subrange(i, i + p.len())[0] == out[i]);
            if "https://"@.is_prefix_of(s) {
                let head = "https://"@ + "<trino>"@;
                host_len_within(s.skip(8));
                masked_tail_lacks(s, 8int + host_len(s.skip(8)), head, p, i);
            } else if "http://"@.is_prefix_of(s) {
                let head = "http://"@ + "<trino>"@;
                host_len_within(s.skip(7));
                masked_tail_lacks(s, 7int + host_len(s.skip(7)), head, p, i);
            } else if i > 0 {
                masked_tail_lacks(s, 1, seq![s[0]], p, i);
            } else {
                let tail = s.skip(1);
                masking_keeps_start(tail);
                assert(out == seq![s[0]] + hosts_masked(tail));
                assert(s.len() >= p.len());
                assert(s.subrange(0, p.len() as int) =~= p) by {
                    assert forall|k: int| 0 <= k < p.len() implies s[k] == p[k] by {
                        assert(out.subrange(0, p.len() as int)[k] == out[k]);
                        if k > 0 {
                            assert(out[k] == hosts_masked(tail)[k - 1]);
                            assert(tail[k - 1] == s[k]);
                        }
                    }
                }
                assert(text::occurs_at(s, p, 0));
            }
        }
    }
}

/// A pattern cannot stand in what follows `head` in a masked text.
proof fn masked_tail_lacks(s: Seq<char>, skipped: int, head: Seq<char>, p: Seq<char>, i: int)
    requires
        lacks(s, p),
        1 <= p.len() <= 8,
        p[0] == '\n',
        0 < skipped <= s.len(),
        hosts_masked(s) == head + hosts_masked(s.skip(skipped)),
        i > 0 || head.len() > 1,
        forall|k: int| 1 <= k < head.len() ==> head[k] != '\n',
        head.len() > 1 ==> head[0] != '\n',
    ensures
        !text::occurs_at(hosts_masked(s), p, i),
    decreases s.len(), 0nat,
{
    let out = hosts_masked(s);
    let tail = s.skip(skipped);
    if text::occurs_at(out, p, i) {
        assert(out.subrange(i, i + p.len())[0] == out[i]);
        assert(i >= head.len());
        shifted(head, hosts_masked(tail));
        assert(text::occurs_at(hosts_masked(tail), p, i - head.len()));
        assert(tail =~= s.subrange(skipped, s.len() as int));
        part_lacks(s, skipped, s.len() as int, p);
        masked_lacks(tail, p);
    }
}

/// Shortening adds no pattern that ends in a space.
proof fn shortened_lacks(s: Seq<char>, max: int, p: Seq<char>)
    requires
        lacks(s, p),
        p.len() >= 1,
        p.last() == ' ',
    ensures
        lacks(shortened(s, max), p),
{
    let out = shortened(s, max);
    if out != s {
        let n = out.len() - 1;
        let limit = if max < 3 {
            0
        } else {
            max - 3
        };
        text::fitting_is_longest(s, limit);
        let head = out.take(n);
        assert(head =~= s.subrange(0, n));
        part_lacks(s, 0, n, p);
        assert forall|i: int| !#[trigger] text::occurs_at(out, p, i) by {
            if text::occurs_at(out, p, i) {
                assert(out.subrange(i, i + p.len())[p.len() - 1] == out[i + p.len() - 1]);
                if i + p.len() <= n {
                    assert(head.subrange(i, i + p.len()) =~= out.subrange(i, i + p.len()));
                    assert(text::occurs_at(head, p, i));
                }
            }
        }
    }
}

/// A pattern that stands nowhere before a stack trace does not reach the client.
proof fn sanitised_lacks(message: Seq<char>, p: Seq<char>)
    requires
        lacks(without_stack_trace(message), p),
        1 <= p.len() <= 8,
        p[0] == '\n',
        p.last() == ' ',
    ensures
        lacks(sanitised(message), p),
{
    let named = without_stack_trace(message);
    names_dropped_lacks(named, p);
    let plain = without_exception_names(named);
    masked_lacks(plain, p);
    let masked = hosts_masked(plain);
    text::start_is_part(masked);
    let start = text::trimmed_start(masked);
    part_lacks(masked, masked.len() - start.len(), masked.len() as int, p);
    text::end_is_part(start);
    part_lacks(start, 0, text::trimmed_end(start).len() as int, p);
    shortened_lacks(text::trimmed(masked), MAX_CLIENT_ERROR_LEN as int, p);
}

/// No stack frame reaches the client, whether it is indented by a tab or by two
/// spaces.
pub proof fn no_stack_frame_remains(message: Seq<char>)
    ensures
        !text::contains(sanitised(message), "\n\tat "@),
        !text::contains(sanitised(message), "\n  at "@),
{
    reveal_strlit("\n\tat ");
    reveal_strlit("\n  at ");
    trace_cut_lacks(message, "\n\tat "@);
    trace_cut_lacks(message, "\n  at "@);
    sanitised_lacks(message, "\n\tat "@);
    sanitised_lacks(message, "\n  at "@);
}

/// A message without its stack trace has no frame of either spelling.
proof fn trace_cut_lacks(message: Seq<char>, p: Seq<char>)
    requires
        p == "\n\tat "@ || p == "\n  at "@,
    ensures
        lacks(without_stack_trace(message), p),
{
    reveal_strlit("\n\tat ");
    reveal_strlit("\n  at ");
    cut_lacks(message, "\n\tat "@);
    cut_lacks(message, "\n  at "@);
    if let Some(k) = trace_start(message) {
        let whole = match text::find(message, p) {
            Some(first) => message.take(first),
            None => message,
        };
        part_lacks(whole, 0, k, p);
        assert(whole.subrange(0, k) =~= message.take(k));
    }
}

/// A text that is cut at the first occurrence of a pattern lacks the pattern.
proof fn cut_lacks(s: Seq<char>, p: Seq<char>)
    requires
        p.len() >= 1,
    ensures
        match text::find(s, p) {
            Some(k) => 0 <= k <= s.len() && lacks(s.take(k), p),
            None => lacks(s, p),
        },
{
    text::find_from_is_first(s, p, 0);
    match text::find(s, p) {
        Some(k) => {
            assert forall|i: int| !#[trigger] text::occurs_at(s.take(k), p, i) by {
                if text::occurs_at(s.take(k), p, i) {
                    assert(s.take(k).subrange(i, i + p.len()) =~= s.subrange(i, i + p.len()));
                    assert(text::occurs_at(s, p, i));
                }
            }
        },
        None => {
            assert forall|i: int| !#[trigger] text::occurs_at(s, p, i) by {}
        },
    }
}

/// The SQLSTATEs are seven, each for its own keywords. Where the keywords of two
/// stand in a message, the one that comes first here is taken: syntax errors,
/// missing tables, missing columns, mismatched types, denied access, division by
/// zero; all other messages are syntax errors or access rule violations.
#[verifier::rlimit(50)]
pub proof fn codes_go_by_keywords(message: Seq<char>)
    ensures
        ({
            let u = text::ascii_uppercase(message);
            let code = sqlstate(message);
            let syntax = text::contains(u, "SYNTAX_ERROR"@) || syntax_position(u);
            let table = text::contains(u, "TABLE_NOT_FOUND"@) || text::contains(
                u,
                "DOES NOT EXIST"@,
            );
            let column = text::contains(u, "COLUMN_NOT_FOUND"@) || text::contains(
                u,
                "CANNOT BE RESOLVED"@,
            );
            let mismatch = text::contains(u, "TYPE_MISMATCH"@);
            let denied = text::contains(u, "PERMISSION_DENIED"@) || text::contains(
                u,
                "ACCESS DENIED"@,
            );
            let zero = text::contains(u, "DIVISION_BY_ZERO"@);
            &&& syntax <==> code == seq!['4', '2', '6', '0', '1']
            &&& table && !syntax <==> code == seq!['4', '2', 'P', '0', '1']
            &&& column && !table && !syntax <==> code == seq!['4', '2', '7', '0', '3']
            &&& mismatch && !column && !table && !syntax <==> code == seq!['4', '2', '8', '4', '6']
            &&& denied && !mismatch && !column && !table && !syntax <==> code == seq![
                '4',
                '2',
                '5',
                '0',
                '1',
            ]
            &&& zero && !denied && !mismatch && !column && !table && !syntax <==> code == seq![
                '2',
                '2',
                '0',
                '1',
                '2',
            ]
            &&& !zero && !denied && !mismatch && !column && !table && !syntax <==> code == seq![
                '4',
                '2',
                '0',
                '0',
                '0',
            ]
        }),
{
    reveal_strlit("42601");
    reveal_strlit("42P01");
    reveal_strlit("42703");
    reveal_strlit("42846");
    reveal_strlit("42501");
    reveal_strlit("22012");
    reveal_strlit("42000");
    let syntax = seq!['4', '2', '6', '0', '1'];
    let table = seq!['4', '2', 'P', '0', '1'];
    let column = seq!['4', '2', '7', '0', '3'];
    let mismatch = seq!['4', '2', '8', '4', '6'];
    let denied = seq!['4', '2', '5', '0', '1'];
    let zero = seq!['2', '2', '0', '1', '2'];
    let other = seq!['4', '2', '0', '0', '0'];
    assert("42601"@ =~= syntax);
    assert("42P01"@ =~= table);
    assert("42703"@ =~= column);
    assert("42846"@ =~= mismatch);
    assert("42501"@ =~= denied);
    assert("22012"@ =~= zero);
    assert("42000"@ =~= other);
    assert(syntax[2] == '6' && table[2] == 'P' && column[2] == '7' && mismatch[2] == '8');
    assert(denied[2] == '5' && zero[0] == '2' && other[2] == '0' && other[0] == '4');
    assert(syntax[0] == '4' && table[0] == '4' && column[0] == '4' && mismatch[0] == '4');
    assert(denied[0] == '4');
}

/// Case makes no difference to the SQLSTATE of a message.
pub proof fn codes_ignore_case(a: Seq<char>, b: Seq<char>)
    requires
        text::same_ignoring_case(a, b),
    ensures
        sqlstate(a) == sqlstate(b),
{
}

/// A message tells the position of a syntax error where it begins with `LINE ` and
/// has two colons.
#[verifier::rlimit(50)]
pub proof fn positions_have_two_colons(upper: Seq<char>)
    ensures
        syntax_position(upper) <==> "LINE "@.is_prefix_of(upper) && exists|i: int, j: int|
            0 <= i < j < upper.len() && #[trigger] upper[i] == ':' && #[trigger] upper[j] == ':',
{
    reveal_strlit(":");
    text::find_from_is_first(upper, ":"@, 0);
    if syntax_position(upper) {
        let first = text::find(upper, ":"@)->0;
        let rest = upper.skip(first + 1);
        let k = choose|k: int| text::occurs_at(rest, ":"@, k);
        assert(rest.subrange(k, k + 1)[0] == ':');
        assert(rest[k] == upper[first + 1 + k]);
        assert(upper.subrange(first, first + 1)[0] == ':');
        assert(upper[first] == ':' && upper[first + 1 + k] == ':');
    }
    if exists|i: int, j: int|
        0 <= i < j < upper.len() && #[trigger] upper[i] == ':' && #[trigger] upper[j] == ':' {
        let (i, j) = choose|i: int, j: int|
            0 <= i < j < upper.len() && #[trigger] upper[i] == ':' && #[trigger] upper[j] == ':';
        assert(upper.subrange(i, i + 1) =~= ":"@);
        assert(text::occurs_at(upper, ":"@, i));
        let first = text::find(upper, ":"@)->0;
        let rest = upper.skip(first + 1);
        assert(rest[j - first - 1] == ':');
        assert(rest.subrange(j - first - 1, j - first) =~= ":"@);
        assert(text::occurs_at(rest, ":"@, j - first - 1));
    }
}

/// A stack trace is cut off where its first frame begins, and nothing before it.
#[verifier::rlimit(50)]
pub proof fn traces_are_cut_off(message: Seq<char>, frame: Seq<char>, rest: Seq<char>)
    requires
        frame == "\n\tat "@ || frame == "\n  at "@,
        !text::contains(message, "\n\tat "@),
        !text::contains(message, "\n  at "@),
    ensures
        without_stack_trace(message + frame + rest) == message,
        without_stack_trace(message) == message,
{
    let whole = message + frame + rest;
    let n = message.len() as int;
    text::find_from_is_first(message, "\n\tat "@, 0);
    text::find_from_is_first(message, "\n  at "@, 0);
    frames_are_found(message, frame, rest, "\n\tat "@);
    frames_are_found(message, frame, rest, "\n  at "@);
    assert(trace_start(whole) == Some(n));
    assert(whole.take(n) =~= message);
}

/// The first frame is found where it begins, and no other before it.
#[verifier::rlimit(50)]
proof fn frames_are_found(message: Seq<char>, frame: Seq<char>, rest: Seq<char>, p: Seq<char>)
    requires
        frame == "\n\tat "@ || frame == "\n  at "@,
        p == "\n\tat "@ || p == "\n  at "@,
        !text::contains(message, p),
    ensures
        match text::find(message + frame + rest, p) {
            Some(k) => message.len() <= k,
            None => p != frame,
        },
        p == frame ==> text::find(message + frame + rest, p) == Some(message.len() as int),
{
    reveal_strlit("\n\tat ");
    reveal_strlit("\n  at ");
    let whole = message + frame + rest;
    let n = message.len() as int;
    text::find_from_is_first(whole, p, 0);
    if let Some(k) = text::find(whole, p) {
        if k < n {
            not_before(message, frame, rest, p, k);
        }
    }
    if p == frame {
        assert(whole.subrange(n, n + frame.len()) =~= frame);
        assert(text::occurs_at(whole, frame, n));
    }
}

/// No frame begins in what stands before the first.
proof fn not_before(
    message: Seq<char>,
    frame: Seq<char>,
    rest: Seq<char>,
    p: Seq<char>,
    i: int,
)
    requires
        0 <= i < message.len(),
        !text::contains(message, p),
        p.len() > 0,
        forall|k: int| 1 <= k < p.len() ==> p[k] != '\n',
        frame.len() > 0,
        frame[0] == '\n',
    ensures
        !text::occurs_at(message + frame + rest, p, i),
{
    let whole = message + frame + rest;
    if text::occurs_at(whole, p, i) {
        if i + p.len() <= message.len() {
            assert(message.subrange(i, i + p.len()) =~= whole.subrange(i, i + p.len()));
            assert(text::occurs_at(message, p, i));
        } else {
            let k = message.len() - i;
            assert(whole.subrange(i, i + p.len())[k] == whole[i + k]);
            assert(whole[message.len() as int] == '\n');
        }
    }
}

/// Only the names of exceptions of `io`, `com`, `java` and `org` are dropped, each
/// with the colon, the space and the white space behind it.
pub proof fn exception_names_are_dropped(s: Seq<char>)
    ensures
        match after_exception_name(s) {
            Some(rest) => exists|colon: int| #[trigger]
                text::occurs_at(s, ": "@, colon) && rest == text::trimmed_start(s.skip(colon + 2))
                    && ("io."@.is_prefix_of(s.take(colon)) || "com."@.is_prefix_of(s.take(colon))
                    || "java."@.is_prefix_of(s.take(colon)) || "org."@.is_prefix_of(s.take(colon)))
                    && ("Exception"@.is_suffix_of(s.take(colon)) || "Error"@.is_suffix_of(
                    s.take(colon),
                )),
            None => true,
        },
{
    text::find_from_is_first(s, ": "@, 0);
}

/// The name of an exception is dropped from the front of a message.
#[verifier::rlimit(50)]
pub proof fn exceptions_are_unwrapped(name: Seq<char>, after: Seq<char>)
    requires
        "io."@.is_prefix_of(name) || "com."@.is_prefix_of(name) || "java."@.is_prefix_of(name)
            || "org."@.is_prefix_of(name),
        "Exception"@.is_suffix_of(name) || "Error"@.is_suffix_of(name),
        forall|i: int| 0 <= i < name.len() ==> #[trigger] name[i] != ':',
    ensures
        after_exception_name(name + seq![':', ' '] + after) == Some(text::trimmed_start(after)),
{
    reveal_strlit(": ");
    let s = name + seq![':', ' '] + after;
    let n = name.len() as int;
    text::find_from_is_first(s, ": "@, 0);
    assert(s.subrange(n, n + 2) =~= ": "@);
    assert(text::occurs_at(s, ": "@, n));
    let colon = text::find(s, ": "@)->0;
    assert(s.subrange(colon, colon + 2)[0] == s[colon]);
    assert(s[colon] == ':');
    if colon < n {
        assert(s[colon] == name[colon]);
    }
    assert(s.take(n) =~= name);
    assert(s.skip(n + 2) =~= after);
}

/// The host of a URL is masked up to the slash, bracket, comma or white space that
/// ends it, and what follows is kept but for further hosts.
#[verifier::rlimit(50)]
pub proof fn hosts_are_masked(scheme: Seq<char>, host: Seq<char>, rest: Seq<char>)
    requires
        scheme == "http://"@ || scheme == "https://"@,
        forall|i: int|
            0 <= i < host.len() ==> #[trigger] host[i] != '/' && host[i] != ')' && host[i] != ','
                && !text::is_space(host[i]),
        rest.len() > 0 ==> rest[0] == '/' || rest[0] == ')' || rest[0] == ',' || text::is_space(
            rest[0],
        ),
    ensures
        hosts_masked(scheme + host + rest) == scheme + "<trino>"@ + hosts_masked(rest),
{
    reveal_strlit("https://");
    reveal_strlit("http://");
    let s = scheme + host + rest;
    let n = scheme.len() as int;
    host_is_measured(host, rest);
    assert(s.take(n) =~= scheme);
    assert(s.skip(n) =~= host + rest);
    assert(s.skip(n + host.len()) =~= rest);
    if scheme == "http://"@ {
        assert(s[4] == ':');
        if "https://"@.is_prefix_of(s) {
            assert(s.take(8)[4] == s[4]);
        }
    }
}

/// A host ends where one of its ends comes first.
proof fn host_is_measured(host: Seq<char>, rest: Seq<char>)
    requires
        forall|i: int|
            0 <= i < host.len() ==> #[trigger] host[i] != '/' && host[i] != ')' && host[i] != ','
                && !text::is_space(host[i]),
        rest.len() > 0 ==> rest[0] == '/' || rest[0] == ')' || rest[0] == ',' || text::is_space(
            rest[0],
        ),
    ensures
        host_len(host + rest) == host.len(),
    decreases host.len(),
{
    if host.len() == 0 {
        assert(host + rest =~= rest);
    } else {
        assert((host + rest).skip(1) =~= host.skip(1) + rest);
        assert forall|i: int| 0 <= i < host.skip(1).len() implies #[trigger] host.skip(1)[i] != '/'
            && host.skip(1)[i] != ')' && host.skip(1)[i] != ',' && !text::is_space(
            host.skip(1)[i],
        ) by {
            assert(host.skip(1)[i] == host[i + 1]);
        }
        host_is_measured(host.skip(1), rest);
        assert((host + rest)[0] == host[0]);
    }
}

/// A text without URLs is not changed by masking.
#[verifier::rlimit(50)]
pub proof fn masking_needs_a_url(s: Seq<char>)
    requires
        !text::contains(s, "http://"@),
        !text::contains(s, "https://"@),
    ensures
        hosts_masked(s) == s,
    decreases s.len(),
{
    reveal_strlit("https://");
    reveal_strlit("http://");
    if s.len() > 0 {
        if "https://"@.is_prefix_of(s) {
            assert(s.subrange(0, 8) =~= s.take(8));
            assert(text::occurs_at(s, "https://"@, 0));
        }
        if "http://"@.is_prefix_of(s) {
            assert(s.subrange(0, 7) =~= s.take(7));
            assert(text::occurs_at(s, "http://"@, 0));
        }
        let t = s.skip(1);
        tail_lacks(s, "http://"@);
        tail_lacks(s, "https://"@);
        masking_needs_a_url(t);
        assert(seq![s[0]] + t =~= s);
    } else {
        assert(hosts_masked(s) =~= s);
    }
}

/// What a text does not contain does not stand in it behind its first character.
proof fn tail_lacks(s: Seq<char>, p: Seq<char>)
    requires
        s.len() > 0,
        !text::contains(s, p),
    ensures
        !text::contains(s.skip(1), p),
{
    if text::contains(s.skip(1), p) {
        let i = choose|i: int| text::occurs_at(s.skip(1), p, i);
        assert(s.subrange(i + 1, i + 1 + p.len()) =~= s.skip(1).subrange(i, i + p.len()));
        assert(text::occurs_at(s, p, i + 1));
    }
}

/// A message that names no exception, shows no frame and no URL, and is not too long
/// reaches the client as it is.
#[verifier::rlimit(50)]
pub proof fn plain_messages_are_kept(message: Seq<char>)
    requires
        !text::contains(message, "\n\tat "@),
        !text::contains(message, "\n  at "@),
        !text::contains(message, "http://"@),
        !text::contains(message, "https://"@),
        !("io."@.is_prefix_of(message) || "com."@.is_prefix_of(message) || "java."@.is_prefix_of(
            message,
        ) || "org."@.is_prefix_of(message)),
        message.len() > 0 ==> !text::is_space(message[0]) && !text::is_space(message.last()),
        text::byte_len(message) <= 512,
    ensures
        sanitised(message) == message,
        error_report(message).message == message,
{
    unwrapped_stays(message);
    masking_needs_a_url(message);
    text::trimming_finds_the_core(Seq::empty(), message, Seq::empty());
    assert(Seq::<char>::empty() + message + Seq::<char>::empty() =~= message);
}

/// A text that is too long is cut at the last character at which it and the ellipsis
/// still fit; one that fits is kept.
pub proof fn cuts_are_late(s: Seq<char>, max: int)
    requires
        3 <= max,
    ensures
        text::byte_len(s) <= max ==> shortened(s, max) == s,
        text::byte_len(s) > max ==> shortened(s, max).len() > 0 && shortened(s, max).last()
            == '\u{2026}' && shortened(s, max).drop_last().is_prefix_of(s) && text::byte_len(
            s.take(shortened(s, max).len() as int),
        ) + 3 > max,
{
    if text::byte_len(s) > max {
        text::fitting_is_longest(s, max - 3);
        let cut = shortened(s, max);
        assert(cut.drop_last() =~= s.take(cut.len() - 1));
    }
}

/// No message that reaches the client takes more than 512 bytes, and every report is of
/// severity `ERROR`.
pub proof fn messages_are_bounded(message: Seq<char>)
    ensures
        text::byte_len(sanitised(message)) <= 512,
        error_report(message).severity == "ERROR"@,
        error_report(message).code == sqlstate(message),
        error_report(message).message == sanitised(message),
{
    shortened_fits(
        text::trimmed(hosts_masked(without_exception_names(without_stack_trace(message)))),
        512,
    );
}

/// A character that begins no URL is kept.
proof fn masking_moves_on(s: Seq<char>)
    requires
        s.len() > 0,
        !"http://"@.is_prefix_of(s),
        !"https://"@.is_prefix_of(s),
    ensures
        hosts_masked(s) == seq![s[0]] + hosts_masked(s.skip(1)),
{
}

/// A text begins with its first character.
proof fn first_comes_first(front: Seq<char>, rest: Seq<char>)
    requires
        front.len() > 0,
    ensures
        (front + rest)[0] == front[0],
        (front + rest).skip(1) == front.skip(1) + rest,
        seq![front[0]] + (front.skip(1) + rest) == front + rest,
{
    assert((front + rest).skip(1) =~= front.skip(1) + rest);
    assert(seq![front[0]] + (front.skip(1) + rest) =~= front + rest);
}

/// Masking leaves what stands before the first URL as it is.
#[verifier::rlimit(50)]
proof fn masking_keeps_the_front(front: Seq<char>, scheme: Seq<char>, rest: Seq<char>)
    requires
        scheme == "http://"@ || scheme == "https://"@,
        !text::contains(front, "http://"@),
        !text::contains(front, "https://"@),
    ensures
        hosts_masked(front + (scheme + rest)) == front + hosts_masked(scheme + rest),
    decreases front.len(),
{
    let url = scheme + rest;
    let masked = hosts_masked(url);
    if front.len() == 0 {
        assert(front + url =~= url);
        assert(front + masked =~= masked);
    } else {
        not_at_front(front, scheme, rest, "http://"@);
        not_at_front(front, scheme, rest, "https://"@);
        tail_lacks(front, "http://"@);
        tail_lacks(front, "https://"@);
        masking_keeps_the_front(front.skip(1), scheme, rest);
        first_comes_first(front, url);
        first_comes_first(front, masked);
        masking_moves_on(front + url);
    }
}

/// No scheme begins at the front of a text and ends in the scheme behind it.
#[verifier::rlimit(50)]
proof fn not_at_front(front: Seq<char>, scheme: Seq<char>, rest: Seq<char>, p: Seq<char>)
    requires
        scheme == "http://"@ || scheme == "https://"@,
        p == "http://"@ || p == "https://"@,
        front.len() > 0,
        !text::contains(front, p),
    ensures
        !p.is_prefix_of(front + (scheme + rest)),
{
    reveal_strlit("https://");
    reveal_strlit("http://");
    let s = front + (scheme + rest);
    if p.is_prefix_of(s) {
        if p.len() <= front.len() {
            assert(front.subrange(0, p.len() as int) =~= s.take(p.len() as int));
            assert(text::occurs_at(front, p, 0));
        } else {
            let k = front.len() as int;
            assert(s.take(p.len() as int)[k] == s[k]);
            assert(s[k] == 'h');
            assert(p[k] != 'h');
        }
    }
}

/// The host of a URL does not reach the client, wherever the URL stands: messages that
/// differ in it alone become the same.
#[verifier::rlimit(50)]
pub proof fn hosts_do_not_reach_the_client(
    front: Seq<char>,
    scheme: Seq<char>,
    host: Seq<char>,
    other: Seq<char>,
    rest: Seq<char>,
)
    requires
        scheme == "http://"@ || scheme == "https://"@,
        !text::contains(front, "http://"@),
        !text::contains(front, "https://"@),
        is_host(host),
        is_host(other),
        rest.len() > 0 ==> rest[0] == '/' || rest[0] == ')' || rest[0] == ',' || text::is_space(
            rest[0],
        ),
        is_unwrapped(front + scheme + host + rest),
        is_unwrapped(front + scheme + other + rest),
    ensures
        sanitised(front + scheme + host + rest) == sanitised(front + scheme + other + rest),
        sanitised(front + scheme + host + rest) == shortened(
            text::trimmed(front + scheme + "<trino>"@ + hosts_masked(rest)),
            512,
        ),
{
    host_gives_way(front, scheme, host, rest);
    host_gives_way(front, scheme, other, rest);
    unwrapped_stays(front + scheme + host + rest);
    unwrapped_stays(front + scheme + other + rest);
}

/// Four texts in a row are the same however they are put together.
proof fn rows_of_four(a: Seq<char>, b: Seq<char>, c: Seq<char>, d: Seq<char>)
    ensures
        a + b + c + d == a + (b + (c + d)),
        a + (b + c + d) == a + b + c + d,
        b + (c + d) == b + c + d,
{
    assert(a + b + c + d =~= a + (b + (c + d)));
    assert(a + (b + c + d) =~= a + b + c + d);
    assert(b + (c + d) =~= b + c + d);
}

/// The first URL of a text has its host masked, and the rest is masked behind it.
proof fn host_gives_way(front: Seq<char>, scheme: Seq<char>, host: Seq<char>, rest: Seq<char>)
    requires
        scheme == "http://"@ || scheme == "https://"@,
        !text::contains(front, "http://"@),
        !text::contains(front, "https://"@),
        is_host(host),
        rest.len() > 0 ==> rest[0] == '/' || rest[0] == ')' || rest[0] == ',' || text::is_space(
            rest[0],
        ),
    ensures
        hosts_masked(front + scheme + host + rest) == front + scheme + "<trino>"@ + hosts_masked(
            rest,
        ),
{
    rows_of_four(front, scheme, host, rest);
    rows_of_four(front, scheme, "<trino>"@, hosts_masked(rest));
    masking_keeps_the_front(front, scheme, host + rest);
    hosts_are_masked(scheme, host, rest);
}

/// A text without a character that ends a host.
pub open spec fn is_host(s: Seq<char>) -> bool {
    forall|i: int|
        0 <= i < s.len() ==> #[trigger] s[i] != '/' && s[i] != ')' && s[i] != ','
            && !text::is_space(s[i])
}

/// A message without a stack trace behind it and without the package of an exception in
/// front of it.
pub open spec fn is_unwrapped(message: Seq<char>) -> bool {
    &&& !text::contains(message, "\n\tat "@)
    &&& !text::contains(message, "\n  at "@)
    &&& !("io."@.is_prefix_of(message) || "com."@.is_prefix_of(message) || "java."@.is_prefix_of(
        message,
    ) || "org."@.is_prefix_of(message))
}

/// There is nothing to unwrap from such a message.
#[verifier::rlimit(50)]
proof fn unwrapped_stays(message: Seq<char>)
    requires
        is_unwrapped(message),
    ensures
        without_exception_names(without_stack_trace(message)) == message,
{
    traces_are_cut_off(message, "\n\tat "@, Seq::empty());
    if let Some(rest) = after_exception_name(message) {
        text::find_from_is_first(message, ": "@, 0);
        let colon = text::find(message, ": "@)->0;
        assert("io."@.is_prefix_of(message.take(colon)) ==> message.take("io."@.len() as int)
            =~= message.take(colon).take("io."@.len() as int));
        assert("com."@.is_prefix_of(message.take(colon)) ==> message.take("com."@.len() as int)
            =~= message.take(colon).take("com."@.len() as int));
        assert("java."@.is_prefix_of(message.take(colon)) ==> message.take("java."@.len() as int)
            =~= message.take(colon).take("java."@.len() as int));
        assert("org."@.is_prefix_of(message.take(colon)) ==> message.take("org."@.len() as int)
            =~= message.take(colon).take("org."@.len() as int));
    }
}

/// A stack trace, and the name of an exception in front of a message, make no
/// difference to what the client is told.
#[verifier::rlimit(50)]
pub proof fn wrappings_make_no_difference(
    name: Seq<char>,
    message: Seq<char>,
    frame: Seq<char>,
    rest: Seq<char>,
)
    requires
        "io."@.is_prefix_of(name) || "com."@.is_prefix_of(name) || "java."@.is_prefix_of(name)
            || "org."@.is_prefix_of(name),
        "Exception"@.is_suffix_of(name) || "Error"@.is_suffix_of(name),
        forall|i: int| 0 <= i < name.len() ==> #[trigger] name[i] != ':',
        message.len() > 0 && !text::is_space(message[0]),
        !text::contains(name + seq![':', ' '] + message, "\n\tat "@),
        !text::contains(name + seq![':', ' '] + message, "\n  at "@),
        !text::contains(message, "\n\tat "@),
        !text::contains(message, "\n  at "@),
        frame == "\n\tat "@ || frame == "\n  at "@,
    ensures
        sanitised(name + seq![':', ' '] + message) == sanitised(message),
        sanitised(message + frame + rest) == sanitised(message),
        sanitised(name + seq![':', ' '] + message + frame + rest) == sanitised(message),
{
    let whole = name + seq![':', ' '] + message;
    traces_are_cut_off(message, frame, rest);
    traces_are_cut_off(whole, frame, rest);
    exceptions_are_unwrapped(name, message);
    assert(text::trimmed_start(message) == message);
}

/// White space around a message makes no difference to what the client is told.
#[verifier::rlimit(50)]
pub proof fn surrounding_space_is_dropped(before: Seq<char>, message: Seq<char>, after: Seq<char>)
    requires
        text::is_blank(before),
        text::is_blank(after),
        message.len() > 0 && !text::is_space(message[0]) && !text::is_space(message.last()),
        is_unwrapped(before + message + after),
        !text::contains(before + message + after, "http://"@),
        !text::contains(before + message + after, "https://"@),
        text::byte_len(message) <= 512,
    ensures
        sanitised(before + message + after) == message,
{
    unwrapped_stays(before + message + after);
    masking_needs_a_url(before + message + after);
    text::trimming_finds_the_core(before, message, after);
}

} // verus!
