//! JSON texts of replies.

use crate::encoding;
use vstd::prelude::*;
use vstd::string::*;

verus! {

/// A character inside a JSON string: quotes, backslashes and control characters are escaped,
/// everything else stands for itself.
pub open spec fn escaped_char(c: char) -> Seq<char> {
    if c == '"' {
        seq!['\\', '"']
    } else if c == '\\' {
        seq!['\\', '\\']
    } else if c as int == 0x08 {
        seq!['\\', 'b']
    } else if c == '\t' {
        seq!['\\', 't']
    } else if c == '\n' {
        seq!['\\', 'n']
    } else if c as int == 0x0C {
        seq!['\\', 'f']
    } else if c == '\r' {
        seq!['\\', 'r']
    } else if (c as int) < 0x20 {
        seq![
            '\\',
            'u',
            '0',
            '0',
            encoding::hex_char(c as int / 16),
            encoding::hex_char(c as int % 16),
        ]
    } else {
        seq![c]
    }
}

/// The characters of a text as they stand inside a JSON string.
pub open spec fn escaped(s: Seq<char>) -> Seq<char>
    decreases s.len(),
{
    if s.len() == 0 {
        Seq::empty()
    } else {
        escaped(s.drop_last()) + escaped_char(s.last())
    }
}

/// A text as a JSON string.
pub open spec fn quoted(s: Seq<char>) -> Seq<char> {
    "\""@ + escaped(s) + "\""@
}

/// Calls the `Display` impl of `serde_json::Value` on a string value, which writes the string in
/// double quotes with `"`, `\` and the characters below U+0020 escaped: by their two-character
/// form where JSON has one, else as `\u00` and two lower-case hexadecimal digits.
#[verifier::external_body]
pub(crate) fn quote(s: &str) -> (r: String)
    ensures
        r@ == quoted(s@),
{
    serde_json::Value::String(s.to_string()).to_string()
}

/// An object field that holds a text. The name holds no character that needs escaping.
pub open spec fn text_field(name: Seq<char>, value: Seq<char>) -> Seq<char> {
    "\""@ + name + "\":"@ + quoted(value)
}

/// Appends an object field that holds a text.
pub(crate) fn push_text_field(out: &mut String, name: &str, value: &str)
    ensures
        final(out)@ == old(out)@ + text_field(name@, value@),
{
    let mut field: String = "\"".to_owned();
    field.append(name);
    field.append("\":");
    let q: String = quote(value);
    field.append(q.as_str());
    out.append(field.as_str());
}

/// A text or `null`.
pub open spec fn quoted_or_null(value: Option<Seq<char>>) -> Seq<char> {
    match value {
        Some(s) => quoted(s),
        None => "null"@,
    }
}

/// Appends a text or `null`.
pub(crate) fn push_quoted_or_null(out: &mut String, value: &Option<String>)
    ensures
        final(out)@ == old(out)@ + quoted_or_null(crate::model::opt(*value)),
{
    match value {
        Some(s) => {
            let q: String = quote(s.as_str());
            out.append(q.as_str());
        },
        None => {
            out.append("null");
        },
    }
}

/// Escaping goes character by character: the parts of a text are escaped on their own.
pub proof fn law_escaping_is_by_character(a: Seq<char>, b: Seq<char>, c: char)
    ensures
        escaped(Seq::empty()) == Seq::<char>::empty(),
        escaped(seq![c]) == escaped_char(c),
        escaped(a + b) == escaped(a) + escaped(b),
    decreases b.len(),
{
    reveal_with_fuel(escaped, 2);
    assert(seq![c].drop_last() =~= Seq::<char>::empty());
    if b.len() == 0 {
        assert(a + b =~= a);
        assert(escaped(a) + escaped(b) =~= escaped(a));
    } else {
        law_escaping_is_by_character(a, b.drop_last(), c);
        assert((a + b).drop_last() =~= a + b.drop_last());
        assert(escaped(a + b) =~= escaped(a) + escaped(b));
    }
}

/// Inside a string, quote and backslash stand behind a backslash, control characters have their
/// JSON escapes, and all other characters stand for themselves.
pub proof fn law_json_escapes(c: char)
    ensures
        c == '"' ==> escaped_char(c) == "\\\""@,
        c == '\\' ==> escaped_char(c) == "\\\\"@,
        c as int == 8 ==> escaped_char(c) == "\\b"@,
        c as int == 9 ==> escaped_char(c) == "\\t"@,
        c as int == 10 ==> escaped_char(c) == "\\n"@,
        c as int == 12 ==> escaped_char(c) == "\\f"@,
        c as int == 13 ==> escaped_char(c) == "\\r"@,
        (c as int) < 32 && !(8 <= c as int <= 10) && !(12 <= c as int <= 13) ==> escaped_char(c)
            == "\\u00"@ + seq!["01"@[c as int / 16], "0123456789abcdef"@[c as int % 16]],
        c as int >= 32 && c != '"' && c != '\\' ==> escaped_char(c) == seq![c],
{
    reveal_strlit("\\\"");
    reveal_strlit("\\\\");
    reveal_strlit("\\b");
    reveal_strlit("\\t");
    reveal_strlit("\\n");
    reveal_strlit("\\f");
    reveal_strlit("\\r");
    reveal_strlit("\\u00");
    reveal_strlit("01");
    encoding::law_hex_digits(c as int / 16);
    encoding::law_hex_digits(c as int % 16);
    reveal_strlit("0123456789abcdef");
    assert(escaped_char('"') =~= "\\\""@);
    assert(escaped_char('\\') =~= "\\\\"@);
    if c as int == 8 {
        assert(escaped_char(c) =~= "\\b"@);
    } else if c as int == 9 {
        assert(escaped_char(c) =~= "\\t"@);
    } else if c as int == 10 {
        assert(escaped_char(c) =~= "\\n"@);
    } else if c as int == 12 {
        assert(escaped_char(c) =~= "\\f"@);
    } else if c as int == 13 {
        assert(escaped_char(c) =~= "\\r"@);
    } else if (c as int) < 32 {
        assert(escaped_char(c) =~= "\\u00"@ + seq![
            "01"@[c as int / 16],
            "0123456789abcdef"@[c as int % 16],
        ]);
    }
}

/// A JSON string is the escaped text between quotes, a field its quoted name, a colon and the
/// string, and a missing text is `null`.
pub proof fn law_json_strings(name: Seq<char>, s: Seq<char>)
    ensures
        quoted(s) == seq!['"'] + escaped(s) + seq!['"'],
        text_field(name, s) == seq!['"'] + name + seq!['"', ':'] + quoted(s),
        quoted_or_null(Some(s)) == quoted(s),
        quoted_or_null(None) == seq!['n', 'u', 'l', 'l'],
{
    reveal_strlit("\"");
    reveal_strlit("\":");
    reveal_strlit("null");
    assert("\""@ =~= seq!['"']);
    assert("\":"@ =~= seq!['"', ':']);
    assert("null"@ =~= seq!['n', 'u', 'l', 'l']);
}

}
