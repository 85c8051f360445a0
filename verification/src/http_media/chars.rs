//! Slices of text.

use vstd::prelude::*;
use vstd::slice::slice_subrange;

use crate::text::characters;

verus! {

/// Unicode white space.
pub open spec fn is_white(c: char) -> bool {
    let code = c as u32;
    ||| 0x09 <= code <= 0x0d
    ||| code == 0x20
    ||| code == 0x85
    ||| code == 0xa0
    ||| code == 0x1680
    ||| 0x2000 <= code <= 0x200a
    ||| code == 0x2028
    ||| code == 0x2029
    ||| code == 0x202f
    ||| code == 0x205f
    ||| code == 0x3000
}

/// The text without leading white space.
pub open spec fn trim_start(text: Seq<char>) -> Seq<char>
    decreases text.len(),
{
    if text.len() > 0 && is_white(text[0]) {
        trim_start(text.skip(1))
    } else {
        text
    }
}

/// The text without trailing white space.
pub open spec fn trim_end(text: Seq<char>) -> Seq<char>
    decreases text.len(),
{
    if text.len() > 0 && is_white(text.last()) {
        trim_end(text.drop_last())
    } else {
        text
    }
}

/// The text without white space at either end.
pub open spec fn trim(text: Seq<char>) -> Seq<char> {
    trim_end(trim_start(text))
}

/// The first place of a character at `from` or later; the end if there is none.
pub open spec fn find_from(text: Seq<char>, wanted: char, from: int) -> int
    decreases text.len() - from,
{
    if from >= text.len() {
        text.len() as int
    } else if text[from] == wanted {
        from
    } else {
        find_from(text, wanted, from + 1)
    }
}

/// The first place of a character; the end if there is none.
pub open spec fn find(text: Seq<char>, wanted: char) -> int {
    find_from(text, wanted, 0)
}

/// The parts of a text between the occurrences of a character.
pub open spec fn split(text: Seq<char>, at: char) -> Seq<Seq<char>>
    decreases text.len(),
{
    let place = find(text, at);
    if 0 <= place < text.len() {
        seq![text.take(place)] + split(text.skip(place + 1), at)
    } else {
        seq![text]
    }
}

/// The code of a character, with ASCII capitals taken as small letters.
pub open spec fn folded(c: char) -> u32 {
    if 0x41 <= c as u32 <= 0x5a {
        (c as u32 + 0x20) as u32
    } else {
        c as u32
    }
}

/// Two texts are equal but for the case of ASCII letters.
pub open spec fn same_ignoring_case(left: Seq<char>, right: Seq<char>) -> bool {
    &&& left.len() == right.len()
    &&& forall|i: int| 0 <= i < left.len() ==> folded(#[trigger] left[i]) == folded(right[i])
}

fn white(c: char) -> (outcome: bool)
    ensures
        outcome == is_white(c),
{
    let code: u32 = c as u32;
    (0x09 <= code && code <= 0x0d) || code == 0x20 || code == 0x85 || code == 0xa0 || code == 0x1680
        || (0x2000 <= code && code <= 0x200a) || code == 0x2028 || code == 0x2029 || code == 0x202f
        || code == 0x205f || code == 0x3000
}

/// The text without leading white space.
pub fn trimmed_start(text: &[char]) -> (rest: &[char])
    ensures
        rest@ == trim_start(text@),
{
    assert(text@.skip(0) =~= text@);
    let mut from: usize = 0;
    while from < text.len() && white(text[from])
        invariant
            from <= text@.len(),
            trim_start(text@) == trim_start(text@.skip(from as int)),
        decreases text@.len() - from,
    {
        assert(text@.skip(from as int).skip(1) =~= text@.skip(from + 1));
        from += 1;
    }
    assert(text@.subrange(from as int, text@.len() as int) =~= text@.skip(from as int));
    slice_subrange(text, from, text.len())
}

/// The text without white space at either end.
pub fn trimmed(text: &[char]) -> (rest: &[char])
    ensures
        rest@ == trim(text@),
{
    let start = trimmed_start(text);
    let mut to: usize = start.len();
    assert(start@.take(to as int) =~= start@);
    while to > 0 && white(start[to - 1])
        invariant
            to <= start@.len(),
            trim_end(start@) == trim_end(start@.take(to as int)),
        decreases to,
    {
        assert(start@.take(to as int).drop_last() =~= start@.take(to - 1));
        to -= 1;
    }
    assert(start@.subrange(0, to as int) =~= start@.take(to as int));
    slice_subrange(start, 0, to)
}

/// The first place of a character; the end if there is none.
pub fn place_of(text: &[char], wanted: char) -> (place: usize)
    ensures
        place == find(text@, wanted),
        place <= text@.len(),
{
    let mut i: usize = 0;
    while i < text.len()
        invariant
            i <= text@.len(),
            find(text@, wanted) == find_from(text@, wanted, i as int),
        decreases text@.len() - i,
    {
        if text[i] == wanted {
            return i;
        }
        i += 1;
    }
    i
}

/// What each slice says.
pub open spec fn texts(parts: Seq<&[char]>) -> Seq<Seq<char>> {
    Seq::new(parts.len(), |i: int| parts[i]@)
}

/// The parts of a text between the occurrences of a character.
pub fn split_on<'a>(text: &'a [char], at: char) -> (parts: Vec<&'a [char]>)
    ensures
        texts(parts@) == split(text@, at),
{
    let mut parts: Vec<&'a [char]> = Vec::new();
    let mut rest: &'a [char] = text;
    loop
        invariant
            split(text@, at) == texts(parts@) + split(rest@, at),
        decreases rest@.len(),
    {
        let place: usize = place_of(rest, at);
        let ghost was = texts(parts@);
        let ghost here = rest@;
        if place >= rest.len() {
            parts.push(rest);
            assert(texts(parts@) =~= was.push(here));
            assert(texts(parts@) =~= was + seq![here]);
            return parts;
        }
        let head = slice_subrange(rest, 0, place);
        let tail = slice_subrange(rest, place + 1, rest.len());
        parts.push(head);
        rest = tail;
        proof {
            assert(head@ =~= here.take(place as int));
            assert(tail@ =~= here.skip(place + 1));
            assert(texts(parts@) =~= was.push(head@));
            assert(texts(parts@) + split(rest@, at) =~= was + split(here, at));
        }
    }
}

fn fold(c: char) -> (code: u32)
    ensures
        code == folded(c),
{
    let code: u32 = c as u32;
    if 0x41 <= code && code <= 0x5a {
        code + 0x20
    } else {
        code
    }
}

/// Whether a text is the given one but for the case of ASCII letters.
pub fn is_ignoring_case(text: &[char], wanted: &str) -> (outcome: bool)
    ensures
        outcome == same_ignoring_case(text@, wanted@),
{
    let other = characters(wanted);
    if text.len() != other.len() {
        return false;
    }
    let mut i: usize = 0;
    while i < text.len()
        invariant
            i <= text@.len() == other@.len(),
            other@ == wanted@,
            forall|k: int| 0 <= k < i ==> folded(#[trigger] text@[k]) == folded(wanted@[k]),
        decreases text@.len() - i,
    {
        if fold(text[i]) != fold(other[i]) {
            return false;
        }
        i += 1;
    }
    true
}

} // verus!
