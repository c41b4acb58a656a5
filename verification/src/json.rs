//! What the library asks of `serde_json`: whether a text is one JSON value,
//! and whether that value is an object.
use vstd::prelude::*;
use vstd::string::StrSliceExecFns;

use crate::text::append_str;

verus! {

/// Whether `serde_json` accepts a text as one JSON value.
pub uninterp spec fn json_text(raw: Seq<char>) -> bool;

/// Whether `serde_json` parses a text as one JSON object.
pub uninterp spec fn json_object(raw: Seq<char>) -> bool;

/// Calls `serde_json::from_str::<serde_json::Value>` and reports whether it
/// succeeded; the claim is only that the answer is a function of the text.
#[verifier::external_body]
pub(crate) fn is_json(raw: &str) -> (ok: bool)
    ensures
        ok == json_text(raw@),
{
    serde_json::from_str::<serde_json::Value>(raw).is_ok()
}

/// Calls `serde_json::from_str::<serde_json::Value>` and `Value::is_object`;
/// the claim is only that the answer is a function of the text.
#[verifier::external_body]
pub(crate) fn is_json_object(raw: &str) -> (ok: bool)
    ensures
        ok == json_object(raw@),
{
    match serde_json::from_str::<serde_json::Value>(raw) {
        Ok(value) => value.is_object(),
        Err(_) => false,
    }
}


/// The lowercase hexadecimal digit of a value below 16.
pub open spec fn hex_char(n: u32) -> char {
    if n < 10 {
        (48 + n) as char
    } else {
        (87 + n) as char
    }
}

/// How `serde_json` writes one character inside a string: `"` and `\`
/// escaped, the short escapes for backspace, tab, newline, form feed and
/// carriage return, `\u00XX` with lowercase hex for the other control
/// characters below 0x20, and every other character as itself.
pub open spec fn json_escape_char(c: char) -> Seq<char> {
    if c == '"' {
        seq!['\\', '"']
    } else if c == '\\' {
        seq!['\\', '\\']
    } else if c == '\n' {
        seq!['\\', 'n']
    } else if c == '\r' {
        seq!['\\', 'r']
    } else if c == '\t' {
        seq!['\\', 't']
    } else if (c as u32) == 8 {
        seq!['\\', 'b']
    } else if (c as u32) == 12 {
        seq!['\\', 'f']
    } else if (c as u32) < 32 {
        seq!['\\', 'u', '0', '0', hex_char((c as u32) / 16), hex_char((c as u32) % 16)]
    } else {
        seq![c]
    }
}

/// The escaped characters of a string.
pub open spec fn json_escaped(s: Seq<char>) -> Seq<char>
    decreases s.len(),
{
    if s.len() == 0 {
        Seq::empty()
    } else {
        json_escaped(s.drop_last()) + json_escape_char(s.last())
    }
}

/// A string as a JSON string literal, as `serde_json` writes it.
pub open spec fn json_string(s: Seq<char>) -> Seq<char> {
    seq!['"'] + json_escaped(s) + seq!['"']
}

/// The items of a JSON array of strings, comma-separated, as `serde_json`
/// writes them compactly.
pub open spec fn json_string_items(v: Seq<Seq<char>>) -> Seq<char>
    decreases v.len(),
{
    if v.len() == 0 {
        Seq::empty()
    } else if v.len() == 1 {
        json_string(v[0])
    } else {
        json_string_items(v.drop_last()) + seq![','] + json_string(v.last())
    }
}

/// A list of strings as a compact JSON array.
pub open spec fn json_string_array(v: Seq<Seq<char>>) -> Seq<char> {
    seq!['['] + json_string_items(v) + seq![']']
}

/// The one-character text of a hexadecimal digit.
fn hex_digit_text(n: u32) -> (t: &'static str)
    requires
        n < 16,
    ensures
        t@ == seq![hex_char(n)],
{
    proof {
        reveal_strlit("0");
        reveal_strlit("1");
        reveal_strlit("2");
        reveal_strlit("3");
        reveal_strlit("4");
        reveal_strlit("5");
        reveal_strlit("6");
        reveal_strlit("7");
        reveal_strlit("8");
        reveal_strlit("9");
        reveal_strlit("a");
        reveal_strlit("b");
        reveal_strlit("c");
        reveal_strlit("d");
        reveal_strlit("e");
        reveal_strlit("f");
    }
    if n == 0 {
        "0"
    } else if n == 1 {
        "1"
    } else if n == 2 {
        "2"
    } else if n == 3 {
        "3"
    } else if n == 4 {
        "4"
    } else if n == 5 {
        "5"
    } else if n == 6 {
        "6"
    } else if n == 7 {
        "7"
    } else if n == 8 {
        "8"
    } else if n == 9 {
        "9"
    } else if n == 10 {
        "a"
    } else if n == 11 {
        "b"
    } else if n == 12 {
        "c"
    } else if n == 13 {
        "d"
    } else if n == 14 {
        "e"
    } else {
        "f"
    }
}

/// Append the `i`-th character of `s`, escaped.
fn push_escaped_char(out: &mut String, s: &str, i: usize)
    requires
        i < s@.len() <= usize::MAX,
    ensures
        final(out)@ == old(out)@ + json_escape_char(s@[i as int]),
{
    let c = s.get_char(i);
    let code = c as u32;
    proof {
        reveal_strlit("\\\"");
        reveal_strlit("\\\\");
        reveal_strlit("\\n");
        reveal_strlit("\\r");
        reveal_strlit("\\t");
        reveal_strlit("\\b");
        reveal_strlit("\\f");
        reveal_strlit("\\u00");
    }
    if c == '"' {
        append_str(out, "\\\"");
    } else if c == '\\' {
        append_str(out, "\\\\");
    } else if c == '\n' {
        append_str(out, "\\n");
    } else if c == '\r' {
        append_str(out, "\\r");
    } else if c == '\t' {
        append_str(out, "\\t");
    } else if code == 8 {
        append_str(out, "\\b");
    } else if code == 12 {
        append_str(out, "\\f");
    } else if code < 32 {
        append_str(out, "\\u00");
        append_str(out, hex_digit_text(code / 16));
        append_str(out, hex_digit_text(code % 16));
    } else {
        append_str(out, s.substring_char(i, i + 1));
    }
    assert(final(out)@ =~= old(out)@ + json_escape_char(c));
}

/// Append a string to `out` as a JSON string literal.
pub fn push_json_string(out: &mut String, s: &str)
    ensures
        final(out)@ == old(out)@ + json_string(s@),
{
    let ghost start = old(out)@;
    proof {
        reveal_strlit("\"");
    }
    append_str(out, "\"");
    let n = s.unicode_len();
    let mut i: usize = 0;
    while i < n
        invariant
            n == s@.len(),
            i <= n,
            out@ == start + seq!['"'] + json_escaped(s@.subrange(0, i as int)),
        decreases n - i,
    {
        proof {
            assert(s@.subrange(0, i + 1).drop_last() =~= s@.subrange(0, i as int));
            assert(s@.subrange(0, i + 1).last() == s@[i as int]);
        }
        push_escaped_char(out, s, i);
        proof {
            assert(out@ =~= start + seq!['"'] + json_escaped(s@.subrange(0, i + 1)));
        }
        i = i + 1;
    }
    append_str(out, "\"");
    proof {
        assert(s@.subrange(0, n as int) =~= s@);
        assert(out@ =~= start + json_string(s@));
    }
}

/// What `serde_json` makes of inserting every member of the object `fields`
/// into the object `payload`, written back as text: `None` where either is
/// not a JSON object.
pub uninterp spec fn merged_json_object(payload: Seq<char>, fields: Seq<char>) -> Option<Seq<char>>;

/// Parses both texts with `serde_json`, inserts every member of `fields`
/// into the `payload` object with `Map::extend`, and writes the
/// result with `to_string`. The contract claims only that the outcome is a
/// function of both texts, named [`merged_json_object`].
#[verifier::external_body]
pub(crate) fn merge_json_object(payload: &str, fields: &str) -> (merged: Option<String>)
    ensures
        match merged {
            Some(m) => merged_json_object(payload@, fields@) == Some(m@),
            None => merged_json_object(payload@, fields@) is None,
        },
{
    let mut target = serde_json::from_str::<serde_json::Value>(payload).ok()?;
    let extra = serde_json::from_str::<serde_json::Map<String, serde_json::Value>>(fields).ok()?;
    target.as_object_mut()?.extend(extra);
    Some(target.to_string())
}

} // verus!
