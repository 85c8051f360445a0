//! What headers say.

use vstd::prelude::*;

use crate::error::HttpFault;
use crate::http_media::chars::{
    find, find_from, folded, is_white, same_ignoring_case, split, trim, trim_end, trim_start,
};
use crate::http_media::headers::{
    are_multipart_parameters, bodyless_fault, content_length_of, digits_value, framing_fault,
    hinted_model, hinted_stream, is_boundary, is_boundary_parameter, is_boundary_text,
    is_charset_parameter, is_media_type, is_multipart_with, is_not_of_kind, is_of_kind,
    is_parameter, is_quoted, parameter, route_hint, unquoted, values_in, values_of, visible,
    HeaderField, RequestFraming, RequestKind,
};

verus! {

/// The values of a name are those of the fields that have it, in order: one
/// more field adds its value if it has the name, and nothing otherwise.
pub proof fn law_values_are_those_of_the_name(
    fields: Seq<HeaderField>,
    field: HeaderField,
    name: Seq<char>,
)
    ensures
        values_of(Seq::empty(), name).len() == 0,
        field.name@ == name ==> values_of(fields.push(field), name) == values_of(fields, name).push(
            field.value@,
        ),
        field.name@ != name ==> values_of(fields.push(field), name) == values_of(fields, name),
{
    lemma_values_in(fields, field, name, fields.len());
}

/// A field that comes later does not change earlier values.
proof fn lemma_values_in(
    fields: Seq<HeaderField>,
    field: HeaderField,
    name: Seq<char>,
    count: nat,
)
    requires
        count <= fields.len(),
    ensures
        values_in(fields.push(field), name, count) == values_in(fields, name, count),
    decreases count,
{
    if count > 0 {
        lemma_values_in(fields, field, name, (count - 1) as nat);
    }
}

/// A header value is text when it holds nothing but tabs and the characters
/// from the space to the tilde.
pub proof fn law_visible_values_are_printable(value: Seq<u8>)
    ensures
        visible(value) is Some <==> forall|i: int|
            0 <= i < value.len() ==> (' ' as u8 <= #[trigger] value[i] <= '~' as u8) || value[i]
                == '\t' as u8,
        visible(value) matches Some(text) ==> text.len() == value.len() && forall|i: int|
            0 <= i < text.len() ==> (#[trigger] text[i]) as u32 == value[i] as u32,
{
}

/// A length is decimal: it has at least one digit, and one more digit makes it
/// ten times as long and the digit more. Anything else, and what does not fit
/// 64 bits, is no length.
pub proof fn law_lengths_are_decimal(digits: Seq<u8>, digit: u8)
    ensures
        content_length_of(Seq::empty()) is None,
        !(0x30 <= digit <= 0x39) ==> content_length_of(digits.push(digit)) is None,
        0x30 <= digit <= 0x39 ==> content_length_of(seq![digit]) == Some((digit - 0x30) as u64),
        0x30 <= digit <= 0x39 && content_length_of(digits) is Some ==> {
            let value = content_length_of(digits)->Some_0 * 10 + (digit - 0x30);
            if value <= u64::MAX {
                content_length_of(digits.push(digit)) == Some(value as u64)
            } else {
                content_length_of(digits.push(digit)) is None
            }
        },
        digits.len() > 0 && content_length_of(digits) is None ==> content_length_of(
            digits.push(digit),
        ) is None,
{
    let longer = digits.push(digit);
    assert(longer.drop_last() =~= digits);
    assert(longer.last() == digit);
    let one = seq![digit];
    assert(one.drop_last() =~= Seq::<u8>::empty());
    assert(digits_value(Seq::<u8>::empty()) == 0);
    assert(digits_value(one) == digits_value(one.drop_last()) * 10 + (one.last() - 0x30) as nat);
    if !(0x30 <= digit <= 0x39) {
        assert(longer[digits.len() as int] == digit);
    }
    if forall|i: int| 0 <= i < longer.len() ==> 0x30 <= #[trigger] longer[i] <= 0x39 {
        assert forall|i: int| 0 <= i < digits.len() implies 0x30 <= #[trigger] digits[i]
            <= 0x39 by {
            assert(longer[i] == digits[i]);
        }
        assert(longer[digits.len() as int] == digit);
        assert(digits_value(longer) == digits_value(digits) * 10 + (digit - 0x30) as nat);
    }
}

/// A boundary holds letters, digits and a few marks.
pub proof fn law_boundary_bytes_are_listed(byte: u8)
    ensures
        is_boundary(byte) <==> {
            ||| 'a' as u8 <= byte <= 'z' as u8
            ||| 'A' as u8 <= byte <= 'Z' as u8
            ||| '0' as u8 <= byte <= '9' as u8
            ||| byte == '\'' as u8
            ||| byte == '(' as u8
            ||| byte == ')' as u8
            ||| byte == '+' as u8
            ||| byte == '_' as u8
            ||| byte == ',' as u8
            ||| byte == '-' as u8
            ||| byte == '.' as u8
            ||| byte == '/' as u8
            ||| byte == ':' as u8
            ||| byte == '=' as u8
            ||| byte == '?' as u8
        },
{
}

/// Characters that are one but for their case.
proof fn lemma_folded(a: char, b: char)
    requires
        folded(a) == folded(b),
    ensures
        ({
            ||| a == b
            ||| 'A' as u32 <= a as u32 <= 'Z' as u32 && b as u32 == a as u32 + 32
            ||| 'A' as u32 <= b as u32 <= 'Z' as u32 && a as u32 == b as u32 + 32
        }),
{
    assert(a as u32 as int == a as int);
    assert(b as u32 as int == b as int);
}

/// Case is ignored for the letters from A to Z alone.
pub proof fn law_only_letters_have_case(left: Seq<char>, right: Seq<char>)
    ensures
        same_ignoring_case(left, right) <==> left.len() == right.len() && forall|i: int|
            0 <= i < left.len() ==> {
                ||| (#[trigger] left[i]) == right[i]
                ||| 'A' as u32 <= left[i] as u32 <= 'Z' as u32 && right[i] as u32 == left[i] as u32
                    + 32
                ||| 'A' as u32 <= right[i] as u32 <= 'Z' as u32 && left[i] as u32 == right[i] as u32
                    + 32
            },
{
    if same_ignoring_case(left, right) {
        assert forall|i: int| 0 <= i < left.len() implies {
            ||| (#[trigger] left[i]) == right[i]
            ||| 'A' as u32 <= left[i] as u32 <= 'Z' as u32 && right[i] as u32 == left[i] as u32 + 32
            ||| 'A' as u32 <= right[i] as u32 <= 'Z' as u32 && left[i] as u32 == right[i] as u32
                + 32
        } by {
            assert(folded(left[i]) == folded(right[i]));
            lemma_folded(left[i], right[i]);
        }
    }
}

/// White space is the tab, the line breaks, and the blanks of every width.
pub proof fn law_white_space_is_blank(c: char)
    ensures
        is_white(c) <==> {
            ||| c == '\t' || c == '\n' || c == '\u{b}' || c == '\u{c}' || c == '\r'
            ||| c == '\u{85}' || c == '\u{2028}' || c == '\u{2029}'
            ||| c == ' ' || c == '\u{a0}' || c == '\u{1680}'
            ||| c == '\u{2000}' || c == '\u{2001}' || c == '\u{2002}' || c == '\u{2003}'
            ||| c == '\u{2004}' || c == '\u{2005}' || c == '\u{2006}' || c == '\u{2007}'
            ||| c == '\u{2008}' || c == '\u{2009}' || c == '\u{200a}'
            ||| c == '\u{202f}' || c == '\u{205f}' || c == '\u{3000}'
        },
{
}

/// Trimming takes white space off both ends, all of it, and nothing else.
pub proof fn law_trimming_takes_white_space_off_both_ends(text: Seq<char>)
    ensures
        exists|from: int, to: int| #[trigger] is_trimmed(text, from, to) && trim(text)
            == text.subrange(from, to),
        trim(text).len() > 0 ==> !is_white(trim(text).first()) && !is_white(trim(text).last()),
{
    let from = lemma_trim_start(text);
    let rest = trim_start(text);
    let to = lemma_trim_end(rest);
    assert(trim(text) =~= text.subrange(from, from + to));
    assert forall|i: int| from + to <= i < text.len() implies is_white(#[trigger] text[i]) by {
        assert(rest[i - from] == text[i]);
    }
    if trim(text).len() > 0 {
        assert(trim(text).first() == rest[0]);
        assert(trim(text).last() == rest[to - 1]);
    }
    assert(is_trimmed(text, from, from + to));
}

/// All but the part from `from` to `to` is white space.
pub open spec fn is_trimmed(text: Seq<char>, from: int, to: int) -> bool {
    &&& 0 <= from <= to <= text.len()
    &&& forall|i: int| 0 <= i < from ==> is_white(#[trigger] text[i])
    &&& forall|i: int| to <= i < text.len() ==> is_white(#[trigger] text[i])
}

/// How much white space a text begins with.
proof fn lemma_trim_start(text: Seq<char>) -> (from: int)
    ensures
        0 <= from <= text.len(),
        trim_start(text) == text.skip(from),
        forall|i: int| 0 <= i < from ==> is_white(#[trigger] text[i]),
        from < text.len() ==> !is_white(text[from]),
    decreases text.len(),
{
    if text.len() > 0 && is_white(text[0]) {
        let rest = text.skip(1);
        let more = lemma_trim_start(rest);
        assert(rest.skip(more) =~= text.skip(more + 1));
        assert forall|i: int| 0 <= i < more + 1 implies is_white(#[trigger] text[i]) by {
            if i > 0 {
                assert(rest[i - 1] == text[i]);
            }
        }
        if more + 1 < text.len() {
            assert(rest[more] == text[more + 1]);
        }
        more + 1
    } else {
        assert(text.skip(0) =~= text);
        0
    }
}

/// Where the white space that a text ends with begins.
proof fn lemma_trim_end(text: Seq<char>) -> (to: int)
    ensures
        0 <= to <= text.len(),
        trim_end(text) == text.take(to),
        forall|i: int| to <= i < text.len() ==> is_white(#[trigger] text[i]),
        to > 0 ==> !is_white(text[to - 1]),
    decreases text.len(),
{
    if text.len() > 0 && is_white(text.last()) {
        let rest = text.drop_last();
        let to = lemma_trim_end(rest);
        assert(rest.take(to) =~= text.take(to));
        assert forall|i: int| to <= i < text.len() implies is_white(#[trigger] text[i]) by {
            if i < text.len() - 1 {
                assert(rest[i] == text[i]);
            }
        }
        if to > 0 {
            assert(rest[to - 1] == text[to - 1]);
        }
        to
    } else {
        assert(text.take(text.len() as int) =~= text);
        text.len() as int
    }
}

/// Where a character is found.
proof fn lemma_found(text: Seq<char>, wanted: char, from: int)
    requires
        0 <= from <= text.len(),
    ensures
        ({
            let place = find_from(text, wanted, from);
            &&& from <= place <= text.len()
            &&& place < text.len() ==> text[place] == wanted
            &&& forall|i: int| from <= i < place ==> #[trigger] text[i] != wanted
        }),
    decreases text.len() - from,
{
    if from < text.len() && text[from] != wanted {
        lemma_found(text, wanted, from + 1);
    }
}

/// The parts with a character between them.
pub open spec fn joined(parts: Seq<Seq<char>>, at: char) -> Seq<char>
    decreases parts.len(),
{
    if parts.len() == 0 {
        Seq::empty()
    } else if parts.len() == 1 {
        parts[0]
    } else {
        parts[0] + seq![at] + joined(parts.skip(1), at)
    }
}

/// A text is split at every occurrence of a character, and nowhere else: no
/// part holds it, and with it between them the parts are the text.
pub proof fn law_splitting_can_be_undone(text: Seq<char>, at: char)
    ensures
        split(text, at).len() >= 1,
        forall|i: int| 0 <= i < split(text, at).len() ==> !(#[trigger] split(text, at)[i]).contains(at),
        joined(split(text, at), at) == text,
    decreases text.len(),
{
    let place = find(text, at);
    lemma_found(text, at, 0);
    let parts = split(text, at);
    if place < text.len() {
        let rest = text.skip(place + 1);
        law_splitting_can_be_undone(rest, at);
        let more = split(rest, at);
        assert(parts =~= seq![text.take(place)] + more);
        assert(parts.skip(1) =~= more);
        assert forall|i: int| 0 <= i < parts.len() implies !(#[trigger] parts[i]).contains(at) by {
            if i == 0 {
                if parts[0].contains(at) {
                    let k = parts[0].index_of(at);
                    assert(text[k] == at);
                }
            } else {
                assert(parts[i] == more[i - 1]);
            }
        }
        assert(joined(parts, at) == text.take(place) + seq![at] + rest);
        assert(text.take(place) + seq![at] + rest =~= text);
    } else {
        if text.contains(at) {
            let k = text.index_of(at);
            assert(text[k] == at);
        }
    }
}

/// A parameter has a name and a value, with its first equals sign between them.
pub proof fn law_parameters_have_a_name_and_a_value(text: Seq<char>)
    ensures
        parameter(text) is Some <==> trim(text).contains('='),
        parameter(text) matches Some((name, value)) ==> exists|left: Seq<char>, right: Seq<char>|
            #[trigger] (left + seq!['='] + right) == trim(text) && !left.contains('=') && name
                == trim(left) && value == trim(right),
{
    let inner = trim(text);
    let place = find(inner, '=');
    lemma_found(inner, '=', 0);
    if inner.contains('=') {
        let k = inner.index_of('=');
        assert(inner[k] == '=');
    }
    if place < inner.len() {
        let left = inner.take(place);
        let right = inner.skip(place + 1);
        assert(left + seq!['='] + right =~= inner);
        assert(inner.contains(inner[place]));
        if left.contains('=') {
            let k = left.index_of('=');
            assert(inner[k] == '=');
        }
    }
}

/// Quotation marks come in pairs: they are taken off a value that begins with
/// one and ends with another, and a value that only begins with one is refused.
pub proof fn law_quotation_marks_come_in_pairs(inner: Seq<char>, value: Seq<char>)
    ensures
        unquoted(seq!['"'] + inner + seq!['"']) == Some(inner),
        value.len() == 0 || value[0] != '"' ==> unquoted(value) == Some(value),
        value.len() > 0 && value[0] == '"' && (value.len() == 1 || value.last() != '"')
            ==> unquoted(value) is None,
{
    let quoted = seq!['"'] + inner + seq!['"'];
    assert(quoted[0] == '"');
    assert(quoted.last() == '"');
    assert(quoted.subrange(1, quoted.len() - 1) =~= inner);
}

/// A boundary has 1 to 70 characters, each a letter, a digit or a mark that a
/// boundary may hold; only between quotation marks it may also hold spaces, but
/// not at its end.
pub proof fn law_boundaries_are_short_and_plain(boundary: Seq<char>, quoted: bool)
    ensures
        is_boundary_text(boundary, quoted) <==> {
            &&& 1 <= boundary.len() <= 70
            &&& boundary[boundary.len() - 1] != ' '
            &&& forall|i: int|
                0 <= i < boundary.len() ==> ((#[trigger] boundary[i]) <= '\u{7f}' && is_boundary(
                    boundary[i] as u8,
                )) || (quoted && boundary[i] == ' ')
        },
{
}

/// A content type is that of a form with a boundary exactly when it is
/// multipart form data, one of its parameters is the boundary, each other is
/// the one charset that is supported, and neither comes twice.
pub proof fn law_forms_have_one_boundary(value: Seq<char>, boundary: Seq<char>)
    requires
        is_multipart_with(value, boundary),
    ensures
        ({
            let parts = split(value, ';');
            &&& same_ignoring_case(trim(parts[0]), "multipart/form-data"@)
            &&& parts.len() == 2 || parts.len() == 3
            &&& exists|i: int|
                1 <= i < parts.len() && boundary_in(#[trigger] parts[i], boundary)
            &&& forall|i: int, j: int|
                1 <= i < j < parts.len() ==> !(same_ignoring_case(
                    parameter(#[trigger] parts[i])->Some_0.0,
                    parameter(#[trigger] parts[j])->Some_0.0,
                ))
            &&& forall|i: int|
                1 <= i < parts.len() ==> parameter(#[trigger] parts[i]) is Some && (
                same_ignoring_case(parameter(parts[i])->Some_0.0, "boundary"@)
                    || same_ignoring_case(parameter(parts[i])->Some_0.0, "charset"@))
        }),
{
    let parts = split(value, ';');
    let parameters = parts.skip(1);
    let at = choose|i: int|
        1 <= i < parts.len() && is_boundary_parameter(#[trigger] parts[i]) && boundary == unquoted(
            parameter(parts[i])->Some_0.1,
        )->Some_0;
    assert(boundary_in(parts[at], boundary));
    reveal_strlit("charset");
    reveal_strlit("boundary");
    assert forall|i: int| 1 <= i < parts.len() implies parameter(#[trigger] parts[i]) is Some && (
    same_ignoring_case(parameter(parts[i])->Some_0.0, "boundary"@) || same_ignoring_case(
        parameter(parts[i])->Some_0.0,
        "charset"@,
    )) by {
        assert(parameters[i - 1] == parts[i]);
    }
    assert forall|i: int, j: int| 1 <= i < j < parts.len() implies !(same_ignoring_case(
        parameter(#[trigger] parts[i])->Some_0.0,
        parameter(#[trigger] parts[j])->Some_0.0,
    )) by {
        assert(parameters[i - 1] == parts[i] && parameters[j - 1] == parts[j]);
        let left = parameter(parts[i])->Some_0.0;
        let right = parameter(parts[j])->Some_0.0;
        assert(is_charset_parameter(parameters[i - 1]) || is_boundary_parameter(parameters[i - 1]));
        assert(is_charset_parameter(parameters[j - 1]) || is_boundary_parameter(parameters[j - 1]));
        if same_ignoring_case(left, right) {
            assert(left.len() == right.len());
        }
    }
    if parts.len() > 3 {
        assert(parameters[0] == parts[1] && parameters[1] == parts[2] && parameters[2] == parts[3]);
        assert(is_charset_parameter(parameters[0]) || is_boundary_parameter(parameters[0]));
        assert(is_charset_parameter(parameters[1]) || is_boundary_parameter(parameters[1]));
        assert(is_charset_parameter(parameters[2]) || is_boundary_parameter(parameters[2]));
    }
}

/// The part is the parameter of the boundary.
pub open spec fn boundary_in(part: Seq<char>, boundary: Seq<char>) -> bool {
    &&& parameter(part) is Some
    &&& same_ignoring_case(parameter(part)->Some_0.0, "boundary"@)
    &&& unquoted(parameter(part)->Some_0.1) == Some(boundary)
    &&& is_boundary_text(boundary, is_quoted(parameter(part)->Some_0.1))
}

/// A content type of two parts, of which the second is its boundary, is that of
/// a form with that boundary.
pub proof fn law_plain_forms_are_taken(value: Seq<char>, boundary: Seq<char>)
    requires
        split(value, ';').len() == 2,
        same_ignoring_case(trim(split(value, ';')[0]), "multipart/form-data"@),
        boundary_in(split(value, ';')[1], boundary),
    ensures
        is_multipart_with(value, boundary),
{
    let parts = split(value, ';');
    let parameters = parts.skip(1);
    assert(parameters.len() == 1 && parameters[0] == parts[1]);
    assert(is_boundary_parameter(parts[1]));
    assert(are_multipart_parameters(parameters));
}

/// The one charset that is supported may stand on either side of the boundary.
pub proof fn law_forms_may_name_their_charset(value: Seq<char>, boundary: Seq<char>, at: int)
    requires
        split(value, ';').len() == 3,
        same_ignoring_case(trim(split(value, ';')[0]), "multipart/form-data"@),
        at == 1 || at == 2,
        boundary_in(split(value, ';')[at], boundary),
        parameter(split(value, ';')[3 - at]) is Some,
        same_ignoring_case(parameter(split(value, ';')[3 - at])->Some_0.0, "charset"@),
        unquoted(parameter(split(value, ';')[3 - at])->Some_0.1) is Some,
        same_ignoring_case(
            unquoted(parameter(split(value, ';')[3 - at])->Some_0.1)->Some_0,
            "utf-8"@,
        ),
    ensures
        is_multipart_with(value, boundary),
{
    let parts = split(value, ';');
    let parameters = parts.skip(1);
    assert(parameters.len() == 2);
    assert(parameters[0] == parts[1] && parameters[1] == parts[2]);
    assert(is_boundary_parameter(parts[at]));
    assert(is_charset_parameter(parts[3 - at]));
    reveal_strlit("charset");
    reveal_strlit("boundary");
    assert(!is_charset_parameter(parts[at]));
    assert(!is_boundary_parameter(parts[3 - at]));
    assert(are_multipart_parameters(parameters));
}

/// A text is a media type exactly when its first part is, whatever its case and
/// the white space around it, and every further part is a parameter with a name
/// and a whole value.
pub proof fn law_media_types_may_have_parameters(text: Seq<char>, media_type: Seq<char>)
    ensures
        is_media_type(text, media_type) <==> {
            let parts = split(text, ';');
            &&& same_ignoring_case(trim(parts.first()), media_type)
            &&& forall|i: int|
                1 <= i < parts.len() ==> parameter(#[trigger] parts[i]) is Some && parameter(
                    parts[i],
                )->Some_0.0.len() >= 1 && parameter(parts[i])->Some_0.1.len() >= 1 && unquoted(
                    parameter(parts[i])->Some_0.1,
                ) is Some
        },
{
    let parts = split(text, ';');
    assert forall|i: int| 1 <= i < parts.len() implies is_parameter(#[trigger] parts[i]) == (
    parameter(parts[i]) is Some && parameter(parts[i])->Some_0.0.len() >= 1 && parameter(
        parts[i],
    )->Some_0.1.len() >= 1 && unquoted(parameter(parts[i])->Some_0.1) is Some) by {}
    if is_media_type(text, media_type) {
        assert forall|i: int| 1 <= i < parts.len() implies parameter(#[trigger] parts[i]) is Some
            && parameter(parts[i])->Some_0.0.len() >= 1 && parameter(parts[i])->Some_0.1.len() >= 1
            && unquoted(parameter(parts[i])->Some_0.1) is Some by {
            assert(is_parameter(parts[i]));
        }
    }
}

/// A hint is given by one header of visible text of at most 4096 bytes. There
/// may be none; two, or one that is longer or not visible, are refused.
pub proof fn law_hints_are_given_once(fields: Seq<HeaderField>, name: Seq<char>)
    ensures
        ({
            let values = values_of(fields, name);
            &&& values.len() == 0 ==> route_hint(fields, name) == Ok::<
                Option<Seq<char>>,
                HttpFault,
            >(None)
            &&& values.len() >= 2 ==> route_hint(fields, name) == Err::<
                Option<Seq<char>>,
                HttpFault,
            >(HttpFault::MalformedRequest)
            &&& values.len() == 1 ==> (if values[0].len() <= 4096 && visible(values[0]) is Some {
                route_hint(fields, name) == Ok::<Option<Seq<char>>, HttpFault>(visible(values[0]))
            } else {
                route_hint(fields, name) == Err::<Option<Seq<char>>, HttpFault>(
                    HttpFault::MalformedRequest,
                )
            })
        }),
{
}

/// A hint of a model names one when something is left of it without white
/// space; a hint of a stream is true or false in any case. Any other hint is
/// refused, and what is no hint at all says nothing.
pub proof fn law_hints_say_something(fields: Seq<HeaderField>)
    ensures
        ({
            let hint = route_hint(fields, "x-sglang-omni-route-model"@);
            &&& hint is Err ==> hinted_model(fields) == hint
            &&& hint matches Ok(None) ==> hinted_model(fields) == hint
            &&& hint matches Ok(Some(text)) ==> (if trim(text).len() >= 1 {
                hinted_model(fields) == Ok::<Option<Seq<char>>, HttpFault>(Some(trim(text)))
            } else {
                hinted_model(fields) == Err::<Option<Seq<char>>, HttpFault>(
                    HttpFault::MalformedRequest,
                )
            })
        }),
        ({
            let hint = route_hint(fields, "x-sglang-omni-route-stream"@);
            &&& hint matches Err(fault) ==> hinted_stream(fields) == Err::<
                Option<bool>,
                HttpFault,
            >(fault)
            &&& hint matches Ok(None) ==> hinted_stream(fields) == Ok::<Option<bool>, HttpFault>(
                None,
            )
            &&& hint matches Ok(Some(text)) ==> {
                let yes = same_ignoring_case(trim(text), "true"@);
                let no = same_ignoring_case(trim(text), "false"@);
                &&& yes ==> hinted_stream(fields) == Ok::<Option<bool>, HttpFault>(Some(true))
                &&& no ==> hinted_stream(fields) == Ok::<Option<bool>, HttpFault>(Some(false))
                &&& !yes && !no ==> hinted_stream(fields) == Err::<Option<bool>, HttpFault>(
                    HttpFault::MalformedRequest,
                )
            }
        }),
{
    reveal_strlit("true");
    reveal_strlit("false");
}

/// The headers of a request are judged by their content type, then by their
/// envelope, then by the hint of a model, then by that of a stream.
pub proof fn law_content_type_is_judged_first(
    fields: Seq<HeaderField>,
    kind: RequestKind,
    envelope: Result<Option<u64>, HttpFault>,
)
    ensures
        ({
            let fault = framing_fault(fields, kind, envelope);
            let values = values_of(fields, "content-type"@);
            let typed = values.len() == 1 && visible(values[0]) is Some && !is_not_of_kind(
                visible(values[0])->Some_0,
                kind,
            );
            &&& !typed ==> fault == Some(HttpFault::UnsupportedMediaType)
            &&& typed ==> (match envelope {
                Err(error) => fault == Some(error),
                Ok(_) => match hinted_model(fields) {
                    Err(error) => fault == Some(error),
                    Ok(_) => match hinted_stream(fields) {
                        Err(error) => fault == Some(error),
                        Ok(_) => fault is None,
                    },
                },
            })
        }),
{
}

/// A JSON body is of the media type of JSON and has no boundary; a form has the
/// boundary of its content type.
pub proof fn law_bodies_are_of_their_kind(content_type: Seq<char>, boundary: Option<Seq<char>>)
    ensures
        is_of_kind(content_type, RequestKind::Json, boundary) <==> boundary is None
            && is_media_type(content_type, "application/json"@),
        is_of_kind(content_type, RequestKind::Multipart, boundary) <==> boundary is Some
            && is_multipart_with(content_type, boundary->Some_0),
{
}

/// A request without a body is judged by its encoding, which may only be the
/// identity, then by an expectation, which it may not have, then by its
/// framing: no trailer, no transfer encoding, and no length but zero.
pub proof fn law_bodyless_requests_have_no_body(fields: Seq<HeaderField>)
    ensures
        ({
            let fault = bodyless_fault(fields);
            let encodings = values_of(fields, "content-encoding"@);
            let lengths = values_of(fields, "content-length"@);
            let plain = encodings.len() == 0 || (encodings.len() == 1 && visible(encodings[0])
                is Some && same_ignoring_case(visible(encodings[0])->Some_0, "identity"@));
            let bare = values_of(fields, "trailer"@).len() == 0 && values_of(
                fields,
                "transfer-encoding"@,
            ).len() == 0;
            let empty = lengths.len() == 0 || (lengths.len() == 1 && content_length_of(lengths[0])
                == Some(0u64));
            &&& !plain ==> fault == Some(HttpFault::UnsupportedContentEncoding)
            &&& plain && values_of(fields, "expect"@).len() >= 1 ==> fault == Some(
                HttpFault::ExpectationFailed,
            )
            &&& plain && values_of(fields, "expect"@).len() == 0 ==> (if bare && empty {
                fault is None
            } else {
                fault == Some(HttpFault::MalformedRequest)
            })
        }),
{
}

/// The only charset that a form may name is UTF-8, in quotation marks or not.
pub proof fn law_charsets_are_utf_8(text: Seq<char>)
    ensures
        is_charset_parameter(text) <==> {
            let named = parameter(text)->Some_0;
            let value = named.1;
            &&& parameter(text) is Some
            &&& same_ignoring_case(named.0, "charset"@)
            &&& same_ignoring_case(value, "utf-8"@) || {
                &&& value.len() == 7
                &&& value[0] == '"'
                &&& value[6] == '"'
                &&& same_ignoring_case(value.subrange(1, 6), "utf-8"@)
            }
        },
{
    reveal_strlit("utf-8");
    let value = parameter(text)->Some_0.1;
    if same_ignoring_case(value, "utf-8"@) {
        assert(folded(value[0]) == folded("utf-8"@[0]));
        assert("utf-8"@[0] == 'u');
    }
}

/// What was read of the headers of a request is what they say: the length that
/// was announced, the one content type, and the hints, trimmed, if there are any.
pub proof fn law_framing_says_what_the_headers_say(
    framing: RequestFraming,
    fields: Seq<HeaderField>,
    kind: RequestKind,
    envelope: Result<Option<u64>, HttpFault>,
)
    requires
        framing.frames(fields, kind, envelope),
    ensures
        envelope is Ok && envelope->Ok_0 == framing.content_length,
        ({
            let types = values_of(fields, "content-type"@);
            types.len() == 1 && visible(types[0]) == Some(framing.content_type@)
        }),
        ({
            let hints = values_of(fields, "x-sglang-omni-route-model"@);
            if hints.len() == 0 {
                framing.route_model is None
            } else {
                &&& hints.len() == 1
                &&& visible(hints[0]) is Some
                &&& framing.route_model is Some
                &&& framing.route_model->Some_0@ == trim(visible(hints[0])->Some_0)
                &&& framing.route_model->Some_0@.len() > 0
            }
        }),
        ({
            let hints = values_of(fields, "x-sglang-omni-route-stream"@);
            if hints.len() == 0 {
                framing.route_stream is None
            } else {
                &&& hints.len() == 1
                &&& visible(hints[0]) is Some
                &&& framing.route_stream is Some
                &&& framing.route_stream->Some_0 == same_ignoring_case(
                    trim(visible(hints[0])->Some_0),
                    "true"@,
                )
                &&& !framing.route_stream->Some_0 ==> same_ignoring_case(
                    trim(visible(hints[0])->Some_0),
                    "false"@,
                )
            }
        }),
{
}

} // verus!
