//! Strings as sequences of characters.
use vstd::prelude::*;

verus! {

/// `String::push` appends one character.
pub assume_specification[ std::string::String::push ](text: &mut std::string::String, c: char)
    ensures
        final(text)@ == old(text)@.push(c),
;

/// What `str`'s `Debug` prints: the text in double quotes, with escapes.
pub uninterp spec fn debug_text(text: Seq<char>) -> Seq<char>;

/// Calls `str`'s `Debug` through `format!`. The contract claims that what it prints depends on
/// the characters of `text` alone.
#[verifier::external_body]
pub(crate) fn debug_quoted(text: &str) -> (r: String)
    ensures
        r@ == debug_text(text@),
{
    format!("{text:?}")
}

/// The characters of each string.
pub open spec fn texts(strings: Seq<String>) -> Seq<Seq<char>> {
    strings.map_values(|s: String| s@)
}

/// Whether strings hold these texts, one by one.
pub open spec fn hold_texts(strings: Seq<String>, list: Seq<Seq<char>>) -> bool {
    &&& strings.len() == list.len()
    &&& forall|i: int| 0 <= i < list.len() ==> (#[trigger] strings[i])@ == list[i]
}

/// The characters of a string that may be missing.
pub open spec fn optional_text(text: Option<String>) -> Option<Seq<char>> {
    match text {
        Some(text) => Some(text@),
        None => None,
    }
}

pub(crate) fn characters(text: &str) -> (r: Vec<char>)
    ensures
        r@ == text@,
{
    let mut r: Vec<char> = Vec::new();
    for c in iter: text.chars()
        invariant
            r@ == iter.seq().take(iter.index()),
            iter.seq() == text@,
    {
        r.push(c);
    }
    r
}

/// Whether two strings hold the same characters.
pub(crate) fn same_text(a: &str, b: &str) -> (r: bool)
    ensures
        r == (a@ == b@),
{
    a.to_owned() == b.to_owned()
}

/// `text` with each backslash turned into a slash.
pub open spec fn with_slashes(text: Seq<char>) -> Seq<char> {
    text.map_values(|c: char| if c == '\\' { '/' } else { c })
}

pub(crate) fn to_slashes(text: &str) -> (r: String)
    ensures
        r@ == with_slashes(text@),
        r@.len() == text@.len(),
        forall|i: int|
            0 <= i < text@.len() ==> #[trigger] r@[i] == (if text@[i] == '\\' {
                '/'
            } else {
                text@[i]
            }),
{
    let mut r = String::new();
    for c in iter: text.chars()
        invariant
            iter.seq() == text@,
            r@ == with_slashes(text@).take(iter.index()),
    {
        r.push(if c == '\\' { '/' } else { c });
    }
    assert(with_slashes(text@).take(text@.len() as int) == with_slashes(text@));
    r
}

/// The text of a message in two parts, as the only message of a list.
pub(crate) fn failure(what: &str, why: &str) -> (r: Vec<String>)
    ensures
        texts(r@) == seq![what@ + why@],
{
    let mut message = what.to_owned();
    message.append(why);
    let mut r: Vec<String> = Vec::new();
    r.push(message);
    assert(texts(r@) == seq![what@ + why@]);
    r
}

/// The characters of strings are all of theirs, string by string.
pub proof fn law_texts_are_whole(strings: Seq<String>, text: Option<String>)
    ensures
        hold_texts(strings, texts(strings)),
        text is Some <==> optional_text(text) is Some,
        text matches Some(string) ==> optional_text(text) == Some(string@),
{
}

/// Strings that hold the same texts have the same characters.
pub proof fn law_texts_tell_strings_apart(strings: Seq<String>, list: Seq<Seq<char>>)
    ensures
        hold_texts(strings, list) <==> texts(strings) == list,
{
    if hold_texts(strings, list) {
        assert(texts(strings) == list);
    }
}

/// Slashes take the places of backslashes; nothing else changes, and nothing is added or lost.
pub proof fn law_only_backslashes_change(text: Seq<char>)
    ensures
        with_slashes(text).len() == text.len(),
        forall|i: int|
            0 <= i < text.len() ==> #[trigger] with_slashes(text)[i] == (if text[i] == '\\' {
                '/'
            } else {
                text[i]
            }),
{
}

} // verus!
