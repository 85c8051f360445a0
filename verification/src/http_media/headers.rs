//! Request headers: framing, media types and route hints.

use vstd::prelude::*;
use vstd::slice::slice_subrange;
use vstd::utf8::{encode_utf8, valid_utf8};

use crate::error::HttpFault;
use crate::http_media::chars::{
    find, is_ignoring_case, is_white, place_of, same_ignoring_case, split, split_on, texts, trim,
    trim_end, trim_start, trimmed, trimmed_start,
};
use crate::text::{characters, lemma_encoding_determines_text, same_text, string_of, text_of};

verus! {

/// The longest route hint, in bytes.
pub const MAX_ROUTE_HEADER_BYTES: usize = 4096;

/// The longest multipart boundary, in bytes.
pub const MAX_BOUNDARY_BYTES: usize = 70;

/// What the body of a request is.
#[derive(Clone, Copy, Debug, PartialEq, Eq, Structural)]
pub enum RequestKind {
    Json,
    Multipart,
}

/// One header field: a name in small letters and the bytes of its value.
#[derive(Clone, Debug, PartialEq, Eq)]
pub struct HeaderField {
    pub name: String,
    pub value: Vec<u8>,
}

/// The values of the first `count` fields that have the name, in order.
pub open spec fn values_in(fields: Seq<HeaderField>, name: Seq<char>, count: nat) -> Seq<Seq<u8>>
    decreases count,
{
    if count == 0 {
        Seq::empty()
    } else {
        let before = values_in(fields, name, (count - 1) as nat);
        if fields[count - 1].name@ == name {
            before.push(fields[count - 1].value@)
        } else {
            before
        }
    }
}

/// The values of the fields that have the name, in order.
pub open spec fn values_of(fields: Seq<HeaderField>, name: Seq<char>) -> Seq<Seq<u8>> {
    values_in(fields, name, fields.len())
}

/// A byte of visible text: printable ASCII or a tab.
pub open spec fn is_visible(byte: u8) -> bool {
    32 <= byte < 127 || byte == 9
}

/// A byte as a character.
pub open spec fn as_text(bytes: Seq<u8>) -> Seq<char> {
    Seq::new(bytes.len(), |i: int| bytes[i] as char)
}

/// The text of a header value, if it is visible text.
pub open spec fn visible(value: Seq<u8>) -> Option<Seq<char>> {
    if forall|i: int| 0 <= i < value.len() ==> is_visible(#[trigger] value[i]) {
        Some(as_text(value))
    } else {
        None
    }
}

/// Calls `std::str::from_utf8`. Claimed, as documented: it succeeds exactly on
/// valid UTF-8, and gives the text that the bytes encode.
#[verifier::external_body]
fn utf8_text(bytes: &[u8]) -> (text: Option<&str>)
    ensures
        text is Some <==> valid_utf8(bytes@),
        text is Some ==> encode_utf8(text->Some_0@) == bytes@,
{
    std::str::from_utf8(bytes).ok()
}

/// The text of a header value, if it is visible text.
pub fn visible_text(value: &[u8]) -> (text: Option<&str>)
    ensures
        text_of(text) == visible(value@),
{
    let mut i: usize = 0;
    while i < value.len()
        invariant
            i <= value@.len(),
            forall|k: int| 0 <= k < i ==> is_visible(#[trigger] value@[k]),
        decreases value@.len() - i,
    {
        let byte: u8 = value[i];
        if !((32 <= byte && byte < 127) || byte == 9) {
            assert(!is_visible(value@[i as int]));
            return None;
        }
        i += 1;
    }
    proof {
        let chars = as_text(value@);
        assert(vstd::utf8::is_ascii_chars(chars));
        vstd::utf8::is_ascii_chars_encode_utf8(chars);
        assert(encode_utf8(chars) =~= value@);
        vstd::utf8::encode_utf8_valid_utf8(chars);
    }
    let text = utf8_text(value);
    proof {
        if let Some(found) = text {
            lemma_encoding_determines_text(found@, as_text(value@));
        }
    }
    text
}

/// The number of fields that have the name, and the value of the first.
fn lookup<'a>(fields: &'a [HeaderField], name: &str) -> (found: (Option<&'a [u8]>, usize))
    ensures
        found.1 == values_of(fields@, name@).len(),
        found.0 is Some <==> found.1 > 0,
        found.0 is Some ==> found.0->Some_0@ == values_of(fields@, name@)[0],
{
    let mut first: Option<&'a [u8]> = None;
    let mut count: usize = 0;
    let mut i: usize = 0;
    while i < fields.len()
        invariant
            count <= i <= fields@.len(),
            count == values_in(fields@, name@, i as nat).len(),
            first is Some <==> count > 0,
            first is Some ==> first->Some_0@ == values_in(fields@, name@, i as nat)[0],
        decreases fields@.len() - i,
    {
        if same_text(fields[i].name.as_str(), name) {
            if count == 0 {
                first = Some(fields[i].value.as_slice());
            }
            count += 1;
        }
        i += 1;
    }
    (first, count)
}

/// A byte that a multipart boundary may hold.
pub open spec fn is_boundary(byte: u8) -> bool {
    ||| 0x30 <= byte <= 0x39
    ||| 0x41 <= byte <= 0x5a
    ||| 0x61 <= byte <= 0x7a
    ||| 0x27 <= byte <= 0x29
    ||| 0x2b <= byte <= 0x2f
    ||| byte == 0x3a
    ||| byte == 0x3d
    ||| byte == 0x3f
    ||| byte == 0x5f
}

/// Whether a multipart boundary may hold the byte: a letter, a digit or one of
/// `'()+_,-./:=?`.
pub fn is_boundary_byte(byte: u8) -> (outcome: bool)
    ensures
        outcome == is_boundary(byte),
{
    (0x30 <= byte && byte <= 0x39) || (0x41 <= byte && byte <= 0x5a) || (0x61 <= byte && byte
        <= 0x7a) || (0x27 <= byte && byte <= 0x29) || (0x2b <= byte && byte <= 0x2f) || byte == 0x3a
        || byte == 0x3d || byte == 0x3f || byte == 0x5f
}

/// A character that a multipart boundary may hold.
pub open spec fn is_boundary_char(c: char) -> bool {
    c <= '\u{7f}' && is_boundary(c as u8)
}

/// The name and the value of a parameter, if it has both.
pub open spec fn parameter(text: Seq<char>) -> Option<(Seq<char>, Seq<char>)> {
    let inner = trim(text);
    let place = find(inner, '=');
    if place < inner.len() {
        Some((trim(inner.take(place)), trim(inner.skip(place + 1))))
    } else {
        None
    }
}

/// A value that begins with a quotation mark.
pub open spec fn is_quoted(value: Seq<char>) -> bool {
    value.len() > 0 && value[0] == '"'
}

/// The value without its quotation marks; none if the closing one is missing.
pub open spec fn unquoted(value: Seq<char>) -> Option<Seq<char>> {
    if !is_quoted(value) {
        Some(value)
    } else if value.len() >= 2 && value.last() == '"' {
        Some(value.subrange(1, value.len() - 1))
    } else {
        None
    }
}

/// The parameter is `charset`, of the value that is supported.
pub open spec fn is_charset_parameter(text: Seq<char>) -> bool {
    &&& parameter(text) is Some
    &&& same_ignoring_case(parameter(text)->Some_0.0, "charset"@)
    &&& unquoted(parameter(text)->Some_0.1) is Some
    &&& same_ignoring_case(unquoted(parameter(text)->Some_0.1)->Some_0, "utf-8"@)
}

/// A boundary: 1 to 70 boundary characters, among which a quoted boundary may
/// have spaces, but not at its end.
pub open spec fn is_boundary_text(boundary: Seq<char>, quoted: bool) -> bool {
    &&& 1 <= boundary.len() <= MAX_BOUNDARY_BYTES
    &&& boundary.last() != ' '
    &&& forall|i: int|
        0 <= i < boundary.len() ==> is_boundary_char(#[trigger] boundary[i]) || (quoted
            && boundary[i] == ' ')
}

/// The parameter is `boundary`, with a boundary for its value.
pub open spec fn is_boundary_parameter(text: Seq<char>) -> bool {
    &&& parameter(text) is Some
    &&& same_ignoring_case(parameter(text)->Some_0.0, "boundary"@)
    &&& unquoted(parameter(text)->Some_0.1) is Some
    &&& is_boundary_text(
        unquoted(parameter(text)->Some_0.1)->Some_0,
        is_quoted(parameter(text)->Some_0.1),
    )
}

/// Every parameter is a charset or a boundary, and neither occurs twice.
pub open spec fn are_multipart_parameters(parameters: Seq<Seq<char>>) -> bool {
    &&& forall|i: int|
        0 <= i < parameters.len() ==> is_charset_parameter(#[trigger] parameters[i])
            || is_boundary_parameter(parameters[i])
    &&& forall|i: int, j: int|
        0 <= i < j < parameters.len() ==> !(is_charset_parameter(#[trigger] parameters[i])
            && is_charset_parameter(#[trigger] parameters[j]))
    &&& forall|i: int, j: int|
        0 <= i < j < parameters.len() ==> !(is_boundary_parameter(#[trigger] parameters[i])
            && is_boundary_parameter(#[trigger] parameters[j]))
}

/// The content type is that of a multipart form, and the boundary is its boundary.
pub open spec fn is_multipart_with(value: Seq<char>, boundary: Seq<char>) -> bool {
    let parts = split(value, ';');
    &&& same_ignoring_case(trim(parts[0]), "multipart/form-data"@)
    &&& are_multipart_parameters(parts.skip(1))
    &&& exists|i: int|
        1 <= i < parts.len() && is_boundary_parameter(#[trigger] parts[i]) && boundary
            == unquoted(parameter(parts[i])->Some_0.1)->Some_0
}

/// A text has at least one part.
proof fn lemma_split_has_parts(text: Seq<char>, at: char)
    ensures
        split(text, at).len() >= 1,
    decreases text.len(),
{
}

/// `charset` is not `boundary`.
proof fn lemma_names_differ(name: Seq<char>)
    ensures
        !(same_ignoring_case(name, "charset"@) && same_ignoring_case(name, "boundary"@)),
{
    reveal_strlit("charset");
    reveal_strlit("boundary");
}

/// The name and the value of a parameter, if it has both.
fn read_parameter<'a>(text: &'a [char]) -> (found: Option<(&'a [char], &'a [char])>)
    ensures
        match found {
            Some((name, value)) => parameter(text@) == Some((name@, value@)),
            None => parameter(text@) is None,
        },
{
    let inner = trimmed(text);
    let place: usize = place_of(inner, '=');
    if place >= inner.len() {
        return None;
    }
    let name = slice_subrange(inner, 0, place);
    let value = slice_subrange(inner, place + 1, inner.len());
    proof {
        assert(name@ =~= inner@.take(place as int));
        assert(value@ =~= inner@.skip(place + 1));
    }
    Some((trimmed(name), trimmed(value)))
}

/// The value without its quotation marks.
fn without_quotes<'a>(value: &'a [char]) -> (inner: Option<&'a [char]>)
    ensures
        match inner {
            Some(text) => unquoted(value@) == Some(text@),
            None => unquoted(value@) is None,
        },
{
    if value.len() == 0 || value[0] != '"' {
        return Some(value);
    }
    if value.len() >= 2 && value[value.len() - 1] == '"' {
        Some(slice_subrange(value, 1, value.len() - 1))
    } else {
        None
    }
}

/// Whether a text is a boundary.
fn is_valid_boundary(text: &[char], quoted: bool) -> (outcome: bool)
    ensures
        outcome == is_boundary_text(text@, quoted),
{
    if text.len() == 0 || text.len() > MAX_BOUNDARY_BYTES || text[text.len() - 1] == ' ' {
        return false;
    }
    let mut i: usize = 0;
    while i < text.len()
        invariant
            i <= text@.len(),
            forall|k: int|
                0 <= k < i ==> is_boundary_char(#[trigger] text@[k]) || (quoted && text@[k] == ' '),
        decreases text@.len() - i,
    {
        let c: char = text[i];
        let plain = c <= '\u{7f}' && is_boundary_byte(c as u8);
        if !plain && !(quoted && c == ' ') {
            assert(!is_boundary_char(text@[i as int]));
            return false;
        }
        i += 1;
    }
    true
}

/// What a `multipart_boundary` search says.
pub open spec fn is_boundary_answer(value: Seq<char>, answer: Option<Seq<char>>) -> bool {
    match answer {
        Some(boundary) => is_multipart_with(value, boundary),
        None => forall|boundary: Seq<char>| !#[trigger] is_multipart_with(value, boundary),
    }
}

/// The boundary of a multipart content type, if it is one that is supported.
pub fn multipart_boundary(value: &str) -> (boundary: Option<String>)
    ensures
        is_boundary_answer(value@, string_of(boundary)),
{
    let chars = characters(value);
    let parts = split_on(chars.as_slice(), ';');
    let ghost all = split(value@, ';');
    proof {
        lemma_split_has_parts(value@, ';');
        assert(texts(parts@) == all);
        assert(parts@[0]@ == all[0]);
    }
    if !is_ignoring_case(trimmed(parts[0]), "multipart/form-data") {
        return None;
    }
    let mut boundary: Option<String> = None;
    let mut charset_seen = false;
    let mut i: usize = 1;
    while i < parts.len()
        invariant
            1 <= i <= parts@.len(),
            all == split(value@, ';'),
            all == texts(parts@),
            same_ignoring_case(trim(all[0]), "multipart/form-data"@),
            forall|k: int|
                1 <= k < i ==> is_charset_parameter(#[trigger] all[k]) || is_boundary_parameter(
                    all[k],
                ),
            forall|j: int, k: int|
                1 <= j < k < i ==> !(is_charset_parameter(#[trigger] all[j])
                    && is_charset_parameter(#[trigger] all[k])),
            forall|j: int, k: int|
                1 <= j < k < i ==> !(is_boundary_parameter(#[trigger] all[j])
                    && is_boundary_parameter(#[trigger] all[k])),
            charset_seen <==> exists|k: int| 1 <= k < i && is_charset_parameter(#[trigger] all[k]),
            boundary is Some <==> exists|k: int|
                1 <= k < i && is_boundary_parameter(#[trigger] all[k]),
            boundary is Some ==> exists|k: int|
                1 <= k < i && is_boundary_parameter(#[trigger] all[k]) && boundary->Some_0@
                    == unquoted(parameter(all[k])->Some_0.1)->Some_0,
        decreases parts@.len() - i,
    {
        let part = parts[i];
        assert(part@ == all[i as int]);
        let (name, raw) = match read_parameter(part) {
            Some(found) => found,
            None => {
                proof {
                    lemma_no_boundary(value@, i as int);
                }
                return None;
            },
        };
        proof {
            lemma_names_differ(name@);
        }
        if is_ignoring_case(name, "charset") {
            let supported = match without_quotes(raw) {
                Some(charset) => is_ignoring_case(charset, "utf-8"),
                None => false,
            };
            if charset_seen || !supported {
                proof {
                    if supported {
                        let k = choose|k: int|
                            1 <= k < i && is_charset_parameter(#[trigger] all[k]);
                        lemma_repeated(value@, k, i as int);
                    } else {
                        lemma_no_boundary(value@, i as int);
                    }
                }
                return None;
            }
            charset_seen = true;
            i += 1;
            continue ;
        }
        if !is_ignoring_case(name, "boundary") {
            proof {
                lemma_no_boundary(value@, i as int);
            }
            return None;
        }
        let quoted = raw.len() > 0 && raw[0] == '"';
        let parsed = match without_quotes(raw) {
            Some(parsed) => parsed,
            None => {
                proof {
                    lemma_no_boundary(value@, i as int);
                }
                return None;
            },
        };
        if !is_valid_boundary(parsed, quoted) {
            proof {
                lemma_no_boundary(value@, i as int);
            }
            return None;
        }
        if boundary.is_some() {
            proof {
                let k = choose|k: int| 1 <= k < i && is_boundary_parameter(#[trigger] all[k]);
                lemma_repeated(value@, k, i as int);
            }
            return None;
        }
        assert(is_boundary_parameter(all[i as int]));
        assert(vstd::utf8::is_ascii_chars(parsed@)) by {
            assert forall|k: int| 0 <= k < parsed@.len() implies '\0' <= #[trigger] parsed@[k]
                <= '\u{7f}' by {
                let c: char = parsed@[k];
                assert(is_boundary_char(c) || c == ' ');
                vstd::utf8::char_is_scalar(c);
                vstd::utf8::char_u32_cast(c, c as u32);
            }
        }
        boundary = Some(ascii_string(parsed));
        i += 1;
    }
    proof {
        let parameters = all.skip(1);
        if boundary is Some {
            let b = boundary->Some_0@;
            assert forall|k: int| 0 <= k < parameters.len() implies is_charset_parameter(
                #[trigger] parameters[k],
            ) || is_boundary_parameter(parameters[k]) by {
                assert(parameters[k] == all[k + 1]);
            }
            assert forall|j: int, k: int| 0 <= j < k < parameters.len() implies !(
            is_charset_parameter(#[trigger] parameters[j]) && is_charset_parameter(
                #[trigger] parameters[k],
            )) by {
                assert(parameters[j] == all[j + 1]);
                assert(parameters[k] == all[k + 1]);
            }
            assert forall|j: int, k: int| 0 <= j < k < parameters.len() implies !(
            is_boundary_parameter(#[trigger] parameters[j]) && is_boundary_parameter(
                #[trigger] parameters[k],
            )) by {
                assert(parameters[j] == all[j + 1]);
                assert(parameters[k] == all[k + 1]);
            }
            assert(is_multipart_with(value@, b));
        }
    }
    boundary
}

/// The text of ASCII characters.
fn ascii_string(chars: &[char]) -> (text: String)
    requires
        vstd::utf8::is_ascii_chars(chars@),
    ensures
        text@ == chars@,
{
    let mut bytes: Vec<u8> = Vec::new();
    let mut i: usize = 0;
    while i < chars.len()
        invariant
            i <= chars@.len(),
            vstd::utf8::is_ascii_chars(chars@),
            bytes@.len() == i,
            forall|k: int| 0 <= k < i ==> bytes@[k] == #[trigger] chars@[k] as u8,
        decreases chars@.len() - i,
    {
        bytes.push(chars[i] as u8);
        i += 1;
    }
    proof {
        vstd::utf8::is_ascii_chars_encode_utf8(chars@);
        assert(encode_utf8(chars@) =~= bytes@);
        vstd::utf8::encode_utf8_valid_utf8(chars@);
    }
    match utf8_text(bytes.as_slice()) {
        Some(text) => {
            proof {
                lemma_encoding_determines_text(text@, chars@);
            }
            text.to_owned()
        },
        None => String::new(),
    }
}

/// A content type with an unsupported parameter has no boundary.
proof fn lemma_no_boundary(value: Seq<char>, at: int)
    requires
        1 <= at < split(value, ';').len(),
        !is_charset_parameter(split(value, ';')[at]),
        !is_boundary_parameter(split(value, ';')[at]),
    ensures
        forall|boundary: Seq<char>| !#[trigger] is_multipart_with(value, boundary),
{
    let parts = split(value, ';');
    assert(parts.skip(1)[at - 1] == parts[at]);
}

/// A content type with a repeated parameter has no boundary.
proof fn lemma_repeated(value: Seq<char>, first: int, second: int)
    requires
        1 <= first < second < split(value, ';').len(),
        (is_charset_parameter(split(value, ';')[first]) && is_charset_parameter(
            split(value, ';')[second],
        )) || (is_boundary_parameter(split(value, ';')[first]) && is_boundary_parameter(
            split(value, ';')[second],
        )),
    ensures
        forall|boundary: Seq<char>| !#[trigger] is_multipart_with(value, boundary),
{
    let parts = split(value, ';');
    assert(parts.skip(1)[first - 1] == parts[first]);
    assert(parts.skip(1)[second - 1] == parts[second]);
}

/// The number that a sequence of decimal digits denotes.
pub open spec fn digits_value(digits: Seq<u8>) -> nat
    decreases digits.len(),
{
    if digits.len() == 0 {
        0
    } else {
        digits_value(digits.drop_last()) * 10 + (digits.last() - 0x30) as nat
    }
}

/// A length: decimal digits, at least one, of a number that fits 64 bits.
pub open spec fn content_length_of(value: Seq<u8>) -> Option<u64> {
    if value.len() > 0 && (forall|i: int|
        0 <= i < value.len() ==> 0x30 <= #[trigger] value[i] <= 0x39) && digits_value(value)
        <= u64::MAX {
        Some(digits_value(value) as u64)
    } else {
        None
    }
}

/// The number that the first digits denote is no larger than that of all of them.
proof fn lemma_digits_grow(digits: Seq<u8>, part: int)
    requires
        0 <= part <= digits.len(),
        forall|i: int| 0 <= i < digits.len() ==> 0x30 <= #[trigger] digits[i] <= 0x39,
    ensures
        digits_value(digits.take(part)) <= digits_value(digits),
    decreases digits.len(),
{
    if part < digits.len() {
        lemma_digits_grow(digits.drop_last(), part);
        assert(digits.drop_last().take(part) =~= digits.take(part));
    } else {
        assert(digits.take(part) =~= digits);
    }
}

/// The length that a header value gives.
pub fn parse_content_length(value: &[u8]) -> (length: Option<u64>)
    ensures
        length == content_length_of(value@),
{
    if value.len() == 0 {
        return None;
    }
    let mut i: usize = 0;
    while i < value.len()
        invariant
            i <= value@.len(),
            forall|k: int| 0 <= k < i ==> 0x30 <= #[trigger] value@[k] <= 0x39,
        decreases value@.len() - i,
    {
        if value[i] < 0x30 || value[i] > 0x39 {
            return None;
        }
        i += 1;
    }
    let mut number: u64 = 0;
    let mut j: usize = 0;
    while j < value.len()
        invariant
            j <= value@.len(),
            forall|k: int| 0 <= k < value@.len() ==> 0x30 <= #[trigger] value@[k] <= 0x39,
            number == digits_value(value@.take(j as int)),
        decreases value@.len() - j,
    {
        proof {
            assert(value@.take(j + 1).drop_last() =~= value@.take(j as int));
            assert(value@.take(j + 1).last() == value@[j as int]);
            lemma_digits_grow(value@, j + 1);
        }
        let digit: u64 = (value[j] - 0x30) as u64;
        if number > (u64::MAX - digit) / 10 {
            return None;
        }
        number = number * 10 + digit;
        j += 1;
    }
    assert(value@.take(j as int) =~= value@);
    Some(number)
}

/// The one content type of a request, if it has exactly one and it is visible text.
pub open spec fn content_type_of(fields: Seq<HeaderField>) -> Option<Seq<char>> {
    let values = values_of(fields, "content-type"@);
    if values.len() == 1 {
        visible(values[0])
    } else {
        None
    }
}

/// A parameter with a name and a whole value.
pub open spec fn is_parameter(text: Seq<char>) -> bool {
    &&& parameter(text) is Some
    &&& parameter(text)->Some_0.0.len() > 0
    &&& unquoted(parameter(text)->Some_0.1) is Some
    &&& parameter(text)->Some_0.1.len() > 0
}

/// A text is the media type, with parameters of any kind.
pub open spec fn is_media_type(text: Seq<char>, media_type: Seq<char>) -> bool {
    let parts = split(text, ';');
    &&& same_ignoring_case(trim(parts[0]), media_type)
    &&& forall|i: int| 1 <= i < parts.len() ==> is_parameter(#[trigger] parts[i])
}

/// Whether a text is the media type, with parameters of any kind.
pub fn is_request_media_type(text: &str, media_type: &str) -> (outcome: bool)
    ensures
        outcome == is_media_type(text@, media_type@),
{
    let chars = characters(text);
    let parts = split_on(chars.as_slice(), ';');
    let ghost all = split(text@, ';');
    proof {
        lemma_split_has_parts(text@, ';');
        assert(texts(parts@) == all);
        assert(parts@[0]@ == all[0]);
    }
    if !is_ignoring_case(trimmed(parts[0]), media_type) {
        return false;
    }
    let mut i: usize = 1;
    while i < parts.len()
        invariant
            1 <= i <= parts@.len(),
            all == split(text@, ';'),
            all == texts(parts@),
            forall|k: int| 1 <= k < i ==> is_parameter(#[trigger] all[k]),
        decreases parts@.len() - i,
    {
        assert(parts@[i as int]@ == all[i as int]);
        let whole = match read_parameter(parts[i]) {
            Some((name, value)) => name.len() > 0 && value.len() > 0 && without_quotes(
                value,
            ).is_some(),
            None => false,
        };
        if !whole {
            assert(!is_parameter(all[i as int]));
            return false;
        }
        i += 1;
    }
    true
}

/// A route hint: none if its header is absent; an error if the header is
/// repeated, is not visible text, or is too long.
pub open spec fn route_hint(fields: Seq<HeaderField>, name: Seq<char>) -> Result<
    Option<Seq<char>>,
    HttpFault,
> {
    let values = values_of(fields, name);
    if values.len() == 0 {
        Ok(None)
    } else if values.len() == 1 && visible(values[0]) is Some && values[0].len()
        <= MAX_ROUTE_HEADER_BYTES {
        Ok(visible(values[0]))
    } else {
        Err(HttpFault::MalformedRequest)
    }
}

/// The value of a route hint.
fn one_route_header<'a>(fields: &'a [HeaderField], name: &str) -> (outcome: Result<
    Option<&'a str>,
    HttpFault,
>)
    ensures
        match route_hint(fields@, name@) {
            Ok(hint) => outcome is Ok && text_of(outcome->Ok_0) == hint,
            Err(fault) => outcome is Err && outcome->Err_0 == fault,
        },
{
    let (first, count) = lookup(fields, name);
    if count > 1 {
        return Err(HttpFault::MalformedRequest);
    }
    match first {
        Some(value) => match visible_text(value) {
            Some(text) => {
                if value.len() > MAX_ROUTE_HEADER_BYTES {
                    return Err(HttpFault::MalformedRequest);
                }
                Ok(Some(text))
            },
            None => Err(HttpFault::MalformedRequest),
        },
        None => Ok(None),
    }
}

/// The framing of a request.
#[derive(Clone, Debug, PartialEq, Eq)]
pub struct RequestFraming {
    pub content_length: Option<u64>,
    pub content_type: String,
    pub boundary: Option<Vec<u8>>,
    pub route_model: Option<String>,
    pub route_stream: Option<bool>,
}

/// The body of the request is of the kind, and has the boundary.
pub open spec fn is_of_kind(
    content_type: Seq<char>,
    kind: RequestKind,
    boundary: Option<Seq<char>>,
) -> bool {
    match kind {
        RequestKind::Json => is_media_type(content_type, "application/json"@) && boundary is None,
        RequestKind::Multipart => boundary is Some && is_multipart_with(
            content_type,
            boundary->Some_0,
        ),
    }
}

/// The content type is not of the kind.
pub open spec fn is_not_of_kind(content_type: Seq<char>, kind: RequestKind) -> bool {
    forall|boundary: Option<Seq<char>>| !#[trigger] is_of_kind(content_type, kind, boundary)
}

/// The model that a hint names: none without a hint; an error if it names none.
pub open spec fn hinted_model(fields: Seq<HeaderField>) -> Result<Option<Seq<char>>, HttpFault> {
    match route_hint(fields, "x-sglang-omni-route-model"@) {
        Err(fault) => Err(fault),
        Ok(None) => Ok(None),
        Ok(Some(text)) => if trim(text).len() == 0 {
            Err(HttpFault::MalformedRequest)
        } else {
            Ok(Some(trim(text)))
        },
    }
}

/// Whether a hint asks for a stream: none without a hint; an error if it is
/// neither `true` nor `false`.
pub open spec fn hinted_stream(fields: Seq<HeaderField>) -> Result<Option<bool>, HttpFault> {
    match route_hint(fields, "x-sglang-omni-route-stream"@) {
        Err(fault) => Err(fault),
        Ok(None) => Ok(None),
        Ok(Some(text)) => if same_ignoring_case(trim(text), "true"@) {
            Ok(Some(true))
        } else if same_ignoring_case(trim(text), "false"@) {
            Ok(Some(false))
        } else {
            Err(HttpFault::MalformedRequest)
        },
    }
}

/// The fault that the headers of a request are answered with, in the order in
/// which they are looked at: content type, envelope, model hint, stream hint.
pub open spec fn framing_fault(
    fields: Seq<HeaderField>,
    kind: RequestKind,
    envelope: Result<Option<u64>, HttpFault>,
) -> Option<HttpFault> {
    if content_type_of(fields) is None || is_not_of_kind(content_type_of(fields)->Some_0, kind) {
        Some(HttpFault::UnsupportedMediaType)
    } else if envelope is Err {
        Some(envelope->Err_0)
    } else if hinted_model(fields) is Err {
        Some(hinted_model(fields)->Err_0)
    } else if hinted_stream(fields) is Err {
        Some(hinted_stream(fields)->Err_0)
    } else {
        None
    }
}

impl RequestFraming {
    /// The boundary of the parts of a form.
    pub open spec fn boundary_bytes(&self) -> Option<Seq<u8>> {
        match self.boundary {
            Some(bytes) => Some(bytes@),
            None => None,
        }
    }

    /// The framing is that of the headers.
    pub open spec fn frames(
        &self,
        fields: Seq<HeaderField>,
        kind: RequestKind,
        envelope: Result<Option<u64>, HttpFault>,
    ) -> bool {
        &&& envelope == Ok::<Option<u64>, HttpFault>(self.content_length)
        &&& content_type_of(fields) == Some(self.content_type@)
        &&& exists|boundary: Option<Seq<char>>| #[trigger]
            is_of_kind(self.content_type@, kind, boundary) && (match boundary {
                Some(text) => self.boundary is Some && self.boundary->Some_0@ == encode_utf8(text),
                None => self.boundary is None,
            })
        &&& hinted_model(fields) == Ok::<Option<Seq<char>>, HttpFault>(string_of(self.route_model))
        &&& hinted_stream(fields) == Ok::<Option<bool>, HttpFault>(self.route_stream)
    }
}

/// The trimmed text, as text of its own.
fn trimmed_text(text: &str) -> (rest: String)
    ensures
        rest@ == trim(text@),
{
    let chars = characters(text);
    let rest = trimmed(chars.as_slice());
    let from: usize = leading_white(chars.as_slice());
    let total: usize = chars.len();
    proof {
        lemma_trim_is_subrange(text@);
        assert(trim(text@) =~= text@.subrange(from as int, from + trim(text@).len()));
        assert(from + rest@.len() <= total);
    }
    text.substring_char(from, from + rest.len()).to_owned()
}

/// The number of leading white characters.
fn leading_white(text: &[char]) -> (count: usize)
    ensures
        count == text@.len() - trim_start(text@).len(),
        count <= text@.len(),
{
    proof {
        lemma_trim_start_is_suffix(text@);
    }
    text.len() - trimmed_start(text).len()
}

/// The text without leading white space is the end of the text.
proof fn lemma_trim_start_is_suffix(text: Seq<char>)
    ensures
        trim_start(text).len() <= text.len(),
        trim_start(text) == text.skip(text.len() - trim_start(text).len()),
    decreases text.len(),
{
    if text.len() > 0 && is_white(text[0]) {
        lemma_trim_start_is_suffix(text.skip(1));
        let rest = trim_start(text.skip(1));
        assert(text.skip(1).skip(text.skip(1).len() - rest.len()) =~= text.skip(
            text.len() - rest.len(),
        ));
    } else {
        assert(text.skip(0) =~= text);
    }
}

/// The text without trailing white space is the beginning of the text.
proof fn lemma_trim_end_is_prefix(text: Seq<char>)
    ensures
        trim_end(text).len() <= text.len(),
        trim_end(text) == text.take(
            trim_end(text).len() as int,
        ),
    decreases text.len(),
{
    if text.len() > 0 && is_white(text.last()) {
        lemma_trim_end_is_prefix(text.drop_last());
        let rest = trim_end(text.drop_last());
        assert(text.drop_last().take(rest.len() as int) =~= text.take(rest.len() as int));
    } else {
        assert(text.take(text.len() as int) =~= text);
    }
}

/// The trimmed text is a part of the text, behind its leading white space.
proof fn lemma_trim_is_subrange(text: Seq<char>)
    ensures
        ({
            let from = text.len() - trim_start(text).len();
            &&& 0 <= from
            &&& from + trim(text).len() <= text.len()
            &&& trim(text) == text.subrange(from, from + trim(text).len())
        }),
{
    lemma_trim_start_is_suffix(text);
    let start = trim_start(text);
    lemma_trim_end_is_prefix(start);
    let from = text.len() - start.len();
    assert(start.take(trim(text).len() as int) =~= text.subrange(from, from + trim(text).len()));
}

/// The bytes of a text.
fn encoded(text: &str) -> (bytes: Vec<u8>)
    ensures
        bytes@ == encode_utf8(text@),
{
    vstd::slice::slice_to_vec(text.as_bytes())
}

/// Rejects a request whose headers cannot be routed by, and reads those that
/// can. What the envelope of the request, its length and transfer, was found
/// to be is given.
pub fn validate_request(
    fields: &[HeaderField],
    kind: RequestKind,
    envelope: Result<Option<u64>, HttpFault>,
) -> (outcome: Result<RequestFraming, HttpFault>)
    ensures
        match framing_fault(fields@, kind, envelope) {
            Some(fault) => outcome is Err && outcome->Err_0 == fault,
            None => outcome is Ok && outcome->Ok_0.frames(fields@, kind, envelope),
        },
{
    let (first, count) = lookup(fields, "content-type");
    if count != 1 {
        return Err(HttpFault::UnsupportedMediaType);
    }
    let text: &str = match first {
        Some(value) => match visible_text(value) {
            Some(text) => text,
            None => {
                return Err(HttpFault::UnsupportedMediaType);
            },
        },
        None => {
            return Err(HttpFault::UnsupportedMediaType);
        },
    };
    assert(content_type_of(fields@) == Some(text@));
    let found: Option<String> = match kind {
        RequestKind::Json => {
            if !is_request_media_type(text, "application/json") {
                return Err(HttpFault::UnsupportedMediaType);
            }
            None
        },
        RequestKind::Multipart => match multipart_boundary(text) {
            Some(found) => Some(found),
            None => {
                return Err(HttpFault::UnsupportedMediaType);
            },
        },
    };
    let ghost shape = string_of(found);
    assert(is_of_kind(text@, kind, shape));
    let boundary: Option<Vec<u8>> = match &found {
        Some(text) => Some(encoded(text.as_str())),
        None => None,
    };
    let content_length: Option<u64> = match envelope {
        Ok(length) => length,
        Err(fault) => {
            return Err(fault);
        },
    };
    let route_model: Option<String> = match one_route_header(fields, "x-sglang-omni-route-model") {
        Ok(Some(hint)) => {
            let model = trimmed_text(hint);
            if model.as_str().is_empty() {
                return Err(HttpFault::MalformedRequest);
            }
            Some(model)
        },
        Ok(None) => None,
        Err(fault) => {
            return Err(fault);
        },
    };
    let route_stream: Option<bool> = match one_route_header(fields, "x-sglang-omni-route-stream") {
        Ok(Some(hint)) => {
            let chars = characters(hint);
            let setting = trimmed(chars.as_slice());
            if is_ignoring_case(setting, "true") {
                Some(true)
            } else if is_ignoring_case(setting, "false") {
                Some(false)
            } else {
                return Err(HttpFault::MalformedRequest);
            }
        },
        Ok(None) => None,
        Err(fault) => {
            return Err(fault);
        },
    };
    let framing = RequestFraming {
        content_length,
        content_type: text.to_owned(),
        boundary,
        route_model,
        route_stream,
    };
    assert(is_of_kind(framing.content_type@, kind, shape));
    Ok(framing)
}

/// The fault that the headers of a request without a body are answered with,
/// in the order in which they are looked at.
pub open spec fn bodyless_fault(fields: Seq<HeaderField>) -> Option<HttpFault> {
    let encodings = values_of(fields, "content-encoding"@);
    let lengths = values_of(fields, "content-length"@);
    if encodings.len() > 1 || (encodings.len() == 1 && !(visible(encodings[0]) is Some
        && same_ignoring_case(visible(encodings[0])->Some_0, "identity"@))) {
        Some(HttpFault::UnsupportedContentEncoding)
    } else if values_of(fields, "expect"@).len() > 0 {
        Some(HttpFault::ExpectationFailed)
    } else if values_of(fields, "trailer"@).len() > 0 || values_of(
        fields,
        "transfer-encoding"@,
    ).len() > 0 {
        Some(HttpFault::MalformedRequest)
    } else if lengths.len() > 1 || (lengths.len() == 1 && content_length_of(lengths[0]) != Some(
        0u64,
    )) {
        Some(HttpFault::MalformedRequest)
    } else {
        None
    }
}

/// Rejects a request that may have a body, an encoding or an expectation.
pub fn validate_bodyless_request(fields: &[HeaderField]) -> (outcome: Result<(), HttpFault>)
    ensures
        match bodyless_fault(fields@) {
            Some(fault) => outcome is Err && outcome->Err_0 == fault,
            None => outcome is Ok,
        },
{
    let (encoding, encodings) = lookup(fields, "content-encoding");
    let plain = match encoding {
        Some(value) => match visible_text(value) {
            Some(text) => {
                let chars = characters(text);
                is_ignoring_case(chars.as_slice(), "identity")
            },
            None => false,
        },
        None => true,
    };
    if encodings > 1 || !plain {
        return Err(HttpFault::UnsupportedContentEncoding);
    }
    if lookup(fields, "expect").1 > 0 {
        return Err(HttpFault::ExpectationFailed);
    }
    if lookup(fields, "trailer").1 > 0 || lookup(fields, "transfer-encoding").1 > 0 {
        return Err(HttpFault::MalformedRequest);
    }
    let (length, lengths) = lookup(fields, "content-length");
    let empty = match length {
        Some(value) => match parse_content_length(value) {
            Some(number) => number == 0,
            None => false,
        },
        None => true,
    };
    if lengths > 1 || !empty {
        return Err(HttpFault::MalformedRequest);
    }
    Ok(())
}

} // verus!
