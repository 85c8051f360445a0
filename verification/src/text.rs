//! Text comparison and membership.

use vstd::prelude::*;
use vstd::utf8::encode_utf8;

verus! {

/// A value that can be compared with another by what it stands for.
pub trait Item: View + Sized {
    /// Whether two values stand for the same thing.
    fn same(&self, other: &Self) -> (outcome: bool)
        ensures
            outcome == (self@ == other@),
    ;
}

impl Item for String {
    fn same(&self, other: &Self) -> (outcome: bool) {
        *self == *other
    }
}

/// What each item of a sequence stands for.
pub open spec fn keys<T: View>(items: Seq<T>) -> Seq<T::V> {
    Seq::new(items.len(), |i: int| items[i]@)
}

/// What an optional text says.
pub open spec fn text_of(text: Option<&str>) -> Option<Seq<char>> {
    match text {
        Some(value) => Some(value@),
        None => None,
    }
}

/// What an optional owned text says.
pub open spec fn string_of(text: Option<String>) -> Option<Seq<char>> {
    match text {
        Some(value) => Some(value@),
        None => None,
    }
}

/// Every element of `inner` occurs in `outer`.
pub open spec fn all_in<V>(inner: Seq<V>, outer: Seq<V>) -> bool {
    forall|i: int| 0 <= i < inner.len() ==> outer.contains(#[trigger] inner[i])
}

/// Equality of two texts of equal encoding.
pub proof fn lemma_encoding_determines_text(a: Seq<char>, b: Seq<char>)
    requires
        encode_utf8(a) == encode_utf8(b),
    ensures
        a == b,
{
    vstd::utf8::encode_utf8_decode_utf8(a);
    vstd::utf8::encode_utf8_decode_utf8(b);
}

/// Whether two texts are equal.
pub fn same_text(a: &str, b: &str) -> (outcome: bool)
    ensures
        outcome == (a@ == b@),
{
    let left: &[u8] = a.as_bytes();
    let right: &[u8] = b.as_bytes();
    let outcome = same_bytes(left, right);
    proof {
        if outcome {
            lemma_encoding_determines_text(a@, b@);
        }
    }
    outcome
}

/// Whether two byte strings are equal.
pub fn same_bytes(a: &[u8], b: &[u8]) -> (outcome: bool)
    ensures
        outcome == (a@ == b@),
{
    if a.len() != b.len() {
        return false;
    }
    let mut i: usize = 0;
    while i < a.len()
        invariant
            i <= a@.len() == b@.len(),
            forall|j: int| 0 <= j < i ==> a@[j] == b@[j],
        decreases a@.len() - i,
    {
        if a[i] != b[i] {
            return false;
        }
        i += 1;
    }
    assert(a@ =~= b@);
    true
}

/// Whether two optional texts are equal.
pub fn same_optional_text(a: Option<&str>, b: Option<&str>) -> (outcome: bool)
    ensures
        outcome == (text_of(a) == text_of(b)),
{
    match (a, b) {
        (Some(left), Some(right)) => same_text(left, right),
        (None, None) => true,
        _ => false,
    }
}

/// Borrows an optional text.
pub fn borrow_text(text: &Option<String>) -> (borrowed: Option<&str>)
    ensures
        text_of(borrowed) == string_of(*text),
{
    match text {
        Some(value) => Some(value.as_str()),
        None => None,
    }
}

/// Whether `items` holds `item`.
pub fn contains<T: Item>(items: &[T], item: &T) -> (outcome: bool)
    ensures
        outcome == keys(items@).contains(item@),
{
    let mut i: usize = 0;
    while i < items.len()
        invariant
            i <= items@.len(),
            forall|j: int| 0 <= j < i ==> keys(items@)[j] != item@,
        decreases items@.len() - i,
    {
        if items[i].same(item) {
            assert(keys(items@)[i as int] == item@);
            return true;
        }
        i += 1;
    }
    false
}

/// Whether `items` holds the text `item`.
pub fn contains_text(items: &[String], item: &str) -> (outcome: bool)
    ensures
        outcome == keys(items@).contains(item@),
{
    let mut i: usize = 0;
    while i < items.len()
        invariant
            i <= items@.len(),
            forall|j: int| 0 <= j < i ==> keys(items@)[j] != item@,
        decreases items@.len() - i,
    {
        if same_text(items[i].as_str(), item) {
            assert(keys(items@)[i as int] == item@);
            return true;
        }
        i += 1;
    }
    false
}

/// Whether no item of `items` occurs twice.
pub fn all_distinct<T: Item>(items: &[T]) -> (outcome: bool)
    ensures
        outcome == keys(items@).no_duplicates(),
{
    let mut i: usize = 0;
    while i < items.len()
        invariant
            i <= items@.len(),
            forall|a: int, b: int| 0 <= a < b < i ==> keys(items@)[a] != keys(items@)[b],
        decreases items@.len() - i,
    {
        let mut j: usize = 0;
        while j < i
            invariant
                j <= i < items@.len(),
                forall|a: int| 0 <= a < j ==> keys(items@)[a] != keys(items@)[i as int],
            decreases i - j,
        {
            if items[j].same(&items[i]) {
                assert(keys(items@)[j as int] == keys(items@)[i as int]);
                return false;
            }
            j += 1;
        }
        i += 1;
    }
    true
}

/// Whether a character is a control character: U+0000 to U+001F or U+007F to U+009F.
pub open spec fn is_control(c: char) -> bool {
    c as u32 <= 0x1f || 0x7f <= c as u32 <= 0x9f
}

/// Whether a text holds a control character.
pub fn has_control(text: &str) -> (outcome: bool)
    ensures
        outcome == exists|i: int| 0 <= i < text@.len() && is_control(#[trigger] text@[i]),
{
    for c in chars: text.chars()
        invariant
            chars.seq() == text@,
            forall|i: int| 0 <= i < chars.index() ==> !is_control(#[trigger] text@[i]),
    {
        let code: u32 = c as u32;
        if code <= 0x1f || (0x7f <= code && code <= 0x9f) {
            assert(is_control(text@[chars.index()]));
            return true;
        }
    }
    false
}

/// Whether a text holds the character `wanted`.
pub fn has_char(text: &str, wanted: char) -> (outcome: bool)
    ensures
        outcome == text@.contains(wanted),
{
    for c in chars: text.chars()
        invariant
            chars.seq() == text@,
            forall|i: int| 0 <= i < chars.index() ==> text@[i] != wanted,
    {
        if c == wanted {
            assert(text@[chars.index()] == wanted);
            return true;
        }
    }
    false
}

/// Whether a text begins with the character `wanted`.
pub fn starts_with_char(text: &str, wanted: char) -> (outcome: bool)
    ensures
        outcome == (text@.len() > 0 && text@[0] == wanted),
{
    for c in chars: text.chars()
        invariant
            chars.seq() == text@,
            chars.index() == 0,
    {
        return c == wanted;
    }
    false
}

/// The characters of a text.
pub fn characters(text: &str) -> (chars: Vec<char>)
    ensures
        chars@ == text@,
{
    let mut chars: Vec<char> = Vec::new();
    for c in all: text.chars()
        invariant
            all.seq() == text@,
            chars@ == text@.take(all.index()),
    {
        chars.push(c);
        assert(chars@ =~= text@.take(all.index() + 1));
    }
    assert(text@.take(text@.len() as int) =~= text@);
    chars
}

/// Whether a text begins with another.
pub fn starts_with_text(text: &str, start: &str) -> (outcome: bool)
    ensures
        outcome == start@.is_prefix_of(text@),
{
    let wanted = characters(start);
    let mut met: usize = 0;
    for c in chars: text.chars()
        invariant
            chars.seq() == text@,
            wanted@ == start@,
            met == chars.index() <= wanted@.len(),
            forall|i: int| 0 <= i < met ==> wanted@[i] == text@[i],
    {
        if met == wanted.len() {
            assert(start@ =~= text@.subrange(0, start@.len() as int));
            return true;
        }
        if c != wanted[met] {
            assert(start@[met as int] != text@[met as int]);
            return false;
        }
        met += 1;
    }
    if met == wanted.len() {
        assert(start@ =~= text@.subrange(0, start@.len() as int));
    }
    met == wanted.len()
}

} // verus!
