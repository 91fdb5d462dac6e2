//! The line grammar shared by the credentials and config files: comments,
//! section headers (one grammar per file), key/value pairs and continuations.
use vstd::prelude::*;
use crate::text::{
    char_is_blank, char_is_comment_mark, check_identifier, eq_index, find_comment_mark, find_equals,
    find_inline_comment, inline_comment_index, is_blank, is_comment_mark, is_identifier,
    mark_index, str_equal, trim, trim_end, trim_end_str, trim_str,
};

verus! {

/// The literal profile name `default`.
pub open spec fn default_name() -> Seq<char> {
    seq!['d', 'e', 'f', 'a', 'u', 'l', 't']
}

/// The keyword `profile` of config-file headers.
pub open spec fn profile_keyword() -> Seq<char> {
    seq!['p', 'r', 'o', 'f', 'i', 'l', 'e']
}

/// The index of the first character at or after `i` that is not a space or
/// a tab, or the length.
pub open spec fn first_non_blank(s: Seq<char>, i: int) -> int
    decreases s.len() - i,
{
    if 0 <= i < s.len() {
        if is_blank(s[i]) {
            first_non_blank(s, i + 1)
        } else {
            i
        }
    } else {
        s.len() as int
    }
}

/// A comment line (its first character that is not a space or tab is `#`
/// or `;`) or a line of blanks only.
pub open spec fn comment_or_empty(line: Seq<char>) -> bool {
    let k = first_non_blank(line, 0);
    k >= line.len() || is_comment_mark(line[k])
}

/// A line that starts with `[` is a section header, valid or not.
pub open spec fn starts_header(line: Seq<char>) -> bool {
    line.len() > 0 && line[0] == '['
}

/// A header line up to its first comment mark, without trailing whitespace.
pub open spec fn header_body(line: Seq<char>) -> Seq<char> {
    trim_end(line.subrange(0, mark_index(line, 0)))
}

/// The header body ends with the closing bracket.
pub open spec fn is_closed_header(line: Seq<char>) -> bool {
    header_body(line).len() >= 2 && header_body(line).last() == ']'
}

/// The trimmed text between the brackets of a closed header.
pub open spec fn header_inner(line: Seq<char>) -> Seq<char> {
    trim(header_body(line).subrange(1, header_body(line).len() - 1))
}

/// Header grammar of the credentials file: `[name]`.
/// `None`: not a header; `Some(Err(()))`: a malformed header.
pub open spec fn credentials_header(line: Seq<char>) -> Option<Result<Seq<char>, ()>> {
    if !starts_header(line) {
        None
    } else if is_closed_header(line) && is_identifier(header_inner(line)) {
        Some(Ok(header_inner(line)))
    } else {
        Some(Err(()))
    }
}

/// The profile that the inner text of a config-file header names:
/// `default`, or `profile` and one blank before an identifier.
pub open spec fn config_profile_name(inner: Seq<char>) -> Option<Seq<char>> {
    if inner == default_name() {
        Some(default_name())
    } else if inner.len() >= 8 && inner.subrange(0, 7) == profile_keyword() && is_blank(inner[7])
        && is_identifier(inner.subrange(8, inner.len() as int)) {
        Some(inner.subrange(8, inner.len() as int))
    } else {
        None
    }
}

/// Header grammar of the config file: `[default]` or `[profile name]`.
pub open spec fn config_header(line: Seq<char>) -> Option<Result<Seq<char>, ()>> {
    if !starts_header(line) {
        None
    } else if is_closed_header(line) && config_profile_name(header_inner(line)) is Some {
        Some(Ok(config_profile_name(header_inner(line))->0))
    } else {
        Some(Err(()))
    }
}

/// What a header extractor returned, as sequences of characters.
pub open spec fn header_view(h: Option<Result<&str, ()>>) -> Option<Result<Seq<char>, ()>> {
    match h {
        None => None,
        Some(Ok(name)) => Some(Ok(name@)),
        Some(Err(())) => Some(Err(())),
    }
}

/// A value up to its first inline comment (a blank then `#` or `;`).
pub open spec fn strip_inline_comment(v: Seq<char>) -> Seq<char> {
    v.subrange(0, inline_comment_index(v, 0))
}

/// A key/value line: the trimmed text before the first `=` is an identifier;
/// the value is the rest, without inline comment, trimmed.
pub open spec fn property_line(line: Seq<char>) -> Option<(Seq<char>, Seq<char>)> {
    let e = eq_index(line, 0);
    let key = trim(line.subrange(0, e));
    if is_identifier(key) && e < line.len() {
        Some((key, trim(strip_inline_comment(line.subrange(e + 1, line.len() as int)))))
    } else {
        None
    }
}

/// A continuation line starts with a blank; its content is the trimmed line.
pub open spec fn continuation_line(line: Seq<char>) -> Option<Seq<char>> {
    if line.len() > 0 && is_blank(line[0]) {
        Some(trim(line))
    } else {
        None
    }
}

/// Whether the line is a comment or holds blanks only.
pub fn is_comment_or_empty(line: &str) -> (r: bool)
    ensures
        r == comment_or_empty(line@),
{
    let n = line.unicode_len();
    let mut i: usize = 0;
    while i < n && char_is_blank(line.get_char(i))
        invariant
            n == line@.len(),
            i <= n,
            first_non_blank(line@, 0) == first_non_blank(line@, i as int),
        decreases n - i,
    {
        i = i + 1;
    }
    i == n || char_is_comment_mark(line.get_char(i))
}

/// The trimmed text between the brackets of a header line, if the bracket
/// is closed before any comment.
fn closed_header_inner(line: &str) -> (r: Option<&str>)
    ensures
        r is Some <==> is_closed_header(line@),
        r is Some ==> r->0@ == header_inner(line@),
{
    let m = find_comment_mark(line);
    let body = trim_end_str(line.substring_char(0, m));
    let bl = body.unicode_len();
    if bl >= 2 && body.get_char(bl - 1) == ']' {
        Some(trim_str(body.substring_char(1, bl - 1)))
    } else {
        None
    }
}

/// Reads a credentials-file header `[name]`.
pub fn extract_profile(line: &str) -> (r: Option<Result<&str, ()>>)
    ensures
        header_view(r) == credentials_header(line@),
{
    if line.unicode_len() == 0 || line.get_char(0) != '[' {
        return None;
    }
    match closed_header_inner(line) {
        Some(inner) => {
            if check_identifier(inner) {
                Some(Ok(inner))
            } else {
                Some(Err(()))
            }
        },
        None => Some(Err(())),
    }
}

/// Reads a config-file header `[default]` or `[profile name]`.
pub fn extract_profile_with_profile_prefix(line: &str) -> (r: Option<Result<&str, ()>>)
    ensures
        header_view(r) == config_header(line@),
{
    if line.unicode_len() == 0 || line.get_char(0) != '[' {
        return None;
    }
    match closed_header_inner(line) {
        Some(inner) => {
            let n = inner.unicode_len();
            proof {
                reveal_strlit("default");
                reveal_strlit("profile");
            }
            if str_equal(inner, "default") {
                assert(inner@ == default_name());
                Some(Ok(inner))
            } else if n >= 8 && str_equal(inner.substring_char(0, 7), "profile")
                && char_is_blank(inner.get_char(7)) {
                assert(inner@.subrange(0, 7) == profile_keyword());
                let name = inner.substring_char(8, n);
                if check_identifier(name) {
                    Some(Ok(name))
                } else {
                    Some(Err(()))
                }
            } else {
                proof {
                    if n >= 8 && inner@.subrange(0, 7) == profile_keyword() {
                        assert("profile"@ =~= profile_keyword());
                    }
                    assert("default"@ =~= default_name());
                }
                Some(Err(()))
            }
        },
        None => Some(Err(())),
    }
}

/// A value up to its first inline comment.
pub fn remove_comment(value: &str) -> (r: &str)
    ensures
        r@ == strip_inline_comment(value@),
{
    let k = find_inline_comment(value);
    value.substring_char(0, k)
}

/// Reads a `key=value` line.
pub fn extract_property(line: &str) -> (r: Option<(&str, &str)>)
    ensures
        r matches Some((k, v)) ==> property_line(line@) == Some((k@, v@)),
        r is None ==> property_line(line@) is None,
{
    let n = line.unicode_len();
    let e = find_equals(line);
    let key = trim_str(line.substring_char(0, e));
    if !check_identifier(key) {
        return None;
    }
    if e == n {
        return None;
    }
    let value = remove_comment(line.substring_char(e + 1, n));
    Some((key, trim_str(value)))
}

/// Reads a continuation line: it starts with a space or a tab.
pub fn extract_continuation(line: &str) -> (r: Option<&str>)
    ensures
        r matches Some(c) ==> continuation_line(line@) == Some(c@),
        r is None ==> continuation_line(line@) is None,
{
    if line.unicode_len() > 0 && char_is_blank(line.get_char(0)) {
        Some(trim_str(line))
    } else {
        None
    }
}

} // verus!
