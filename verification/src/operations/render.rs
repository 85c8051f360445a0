//! Numbers, flags and strings as text.

use vstd::prelude::*;

use crate::text::keys;

verus! {

/// A decimal digit.
pub open spec fn digit(value: nat) -> Seq<char> {
    seq![(0x30 + value) as char]
}

/// A number in decimal, without leading zeros.
pub open spec fn decimal(value: nat) -> Seq<char>
    decreases value,
{
    if value < 10 {
        digit(value)
    } else {
        decimal(value / 10) + digit(value % 10)
    }
}

/// A flag as a JSON literal.
pub open spec fn flag(value: bool) -> Seq<char> {
    if value {
        "true"@
    } else {
        "false"@
    }
}

/// A flag as a number.
pub open spec fn bit(value: bool) -> nat {
    if value {
        1
    } else {
        0
    }
}

/// Appends a decimal digit.
fn append_digit(output: &mut String, value: usize)
    requires
        value < 10,
    ensures
        final(output)@ == old(output)@ + digit(value as nat),
{
    let text = match value {
        0 => "0",
        1 => "1",
        2 => "2",
        3 => "3",
        4 => "4",
        5 => "5",
        6 => "6",
        7 => "7",
        8 => "8",
        _ => "9",
    };
    proof {
        reveal_strlit("0");
        reveal_strlit("1");
        reveal_strlit("2");
        reveal_strlit("3");
        reveal_strlit("4");
        reveal_strlit("5");
        reveal_strlit("6");
        reveal_strlit("7");
        reveal_strlit("8");
        reveal_strlit("9");
        assert(text@ =~= digit(value as nat));
    }
    output.append(text);
}

/// Appends a number in decimal.
pub fn append_decimal(output: &mut String, value: usize)
    ensures
        final(output)@ == old(output)@ + decimal(value as nat),
    decreases value,
{
    let ghost before = output@;
    if value >= 10 {
        append_decimal(output, value / 10);
    }
    append_digit(output, value % 10);
    assert(output@ =~= before + decimal(value as nat));
}

/// Appends a flag.
pub fn append_flag(output: &mut String, value: bool)
    ensures
        final(output)@ == old(output)@ + flag(value),
{
    if value {
        output.append("true");
    } else {
        output.append("false");
    }
}

/// A hexadecimal digit, in small letters.
pub open spec fn hex_digit(value: nat) -> char {
    if value < 10 {
        (0x30 + value) as char
    } else {
        (0x57 + value) as char
    }
}

/// A character inside a JSON string: quotation marks, backslashes and
/// characters below U+0020 are escaped, and no others.
pub open spec fn json_char(c: char) -> Seq<char> {
    if c == '"' || c == '\\' {
        seq!['\\', c]
    } else if c == '\u{8}' {
        seq!['\\', 'b']
    } else if c == '\t' {
        seq!['\\', 't']
    } else if c == '\n' {
        seq!['\\', 'n']
    } else if c == '\u{c}' {
        seq!['\\', 'f']
    } else if c == '\r' {
        seq!['\\', 'r']
    } else if c <= '\u{1f}' {
        seq!['\\', 'u', '0', '0', hex_digit(c as nat / 16), hex_digit(c as nat % 16)]
    } else {
        seq![c]
    }
}

/// The characters of a text inside a JSON string.
pub open spec fn json_chars(text: Seq<char>) -> Seq<char>
    decreases text.len(),
{
    if text.len() == 0 {
        Seq::empty()
    } else {
        json_chars(text.drop_last()) + json_char(text.last())
    }
}

/// A text as a JSON string.
pub open spec fn json_string(text: Seq<char>) -> Seq<char> {
    seq!['"'] + json_chars(text) + seq!['"']
}

/// Calls `serde_json::to_string` on a text. Claimed: it reports no error on a
/// text, and gives the text in quotation marks, with quotation marks,
/// backslashes and characters below U+0020 escaped, in the short form where
/// JSON has one and else as four small hexadecimal digits.
#[verifier::external_body]
fn serde_json_string(text: &str) -> (json: Option<String>)
    ensures
        json is Some,
        json->Some_0@ == json_string(text@),
{
    match serde_json::to_string(text) {
        Ok(json) => Some(json),
        Err(_) => None,
    }
}

/// The texts as JSON strings, one for one.
pub open spec fn json_strings(texts: Seq<Seq<char>>) -> Seq<Seq<char>> {
    Seq::new(texts.len(), |i: int| json_string(texts[i]))
}

/// The texts as JSON strings.
pub fn encode_strings(texts: &[String]) -> (encoded: Option<Vec<String>>)
    ensures
        encoded is Some,
        keys(encoded->Some_0@) == json_strings(keys(texts@)),
{
    let ghost given = keys(texts@);
    let mut strings: Vec<String> = Vec::new();
    let mut i: usize = 0;
    while i < texts.len()
        invariant
            i <= texts@.len(),
            given == keys(texts@),
            strings@.len() == i,
            forall|k: int|
                0 <= k < i ==> json_string(#[trigger] given[k]) == strings@[k]@,
        decreases texts@.len() - i,
    {
        match serde_json_string(texts[i].as_str()) {
            Some(json) => {
                strings.push(json);
            },
            None => {
                return None;
            },
        }
        i += 1;
    }
    assert(keys(strings@) =~= json_strings(given));
    Some(strings)
}

} // verus!
