//! Putting statements at the start of a bundle's wrapping function.
use vstd::prelude::*;

use crate::text::characters;

verus! {

/// Whether `needle` stands in `text` at place `i`.
pub open spec fn occurs_at(text: Seq<char>, needle: Seq<char>, i: int) -> bool {
    0 <= i && i + needle.len() <= text.len() && text.subrange(i, i + needle.len()) == needle
}

/// Whether `i` is the first place at which `needle` stands in `text`.
pub open spec fn occurs_first_at(text: Seq<char>, needle: Seq<char>, i: int) -> bool {
    occurs_at(text, needle, i) && forall|j: int| 0 <= j < i ==> !#[trigger] occurs_at(text, needle, j)
}

/// Whether `needle` stands anywhere in `text`.
pub open spec fn occurs(text: Seq<char>, needle: Seq<char>) -> bool {
    exists|i: int| occurs_at(text, needle, i)
}

/// The first place at which `needle` stands in `text`.
pub open spec fn first_place(text: Seq<char>, needle: Seq<char>) -> int {
    choose|i: int| occurs_first_at(text, needle, i)
}

/// The opening of a wrapping function without a space behind its keyword.
pub open spec fn tight_opening() -> Seq<char> {
    "(function() {"@
}

/// The opening of a wrapping function with a space behind its keyword.
pub open spec fn spaced_opening() -> Seq<char> {
    "(function () {"@
}

/// The place behind the first opening of a wrapping function; an opening without a space is
/// preferred to one with a space, wherever they stand.
pub open spec fn opening_end(code: Seq<char>) -> Option<int> {
    if occurs(code, tight_opening()) {
        Some(first_place(code, tight_opening()) + tight_opening().len())
    } else if occurs(code, spaced_opening()) {
        Some(first_place(code, spaced_opening()) + spaced_opening().len())
    } else {
        None
    }
}

/// The code with the preamble on a line of its own: behind the opening of the wrapping function,
/// or in front of everything where there is none.
pub open spec fn injected(code: Seq<char>, preamble: Seq<char>) -> Seq<char> {
    match opening_end(code) {
        Some(at) => code.take(at) + seq!['\n'] + preamble + code.skip(at),
        None => preamble + seq!['\n'] + code,
    }
}

fn find(text: &Vec<char>, needle: &Vec<char>) -> (r: Option<usize>)
    ensures
        match r {
            Some(i) => occurs_first_at(text@, needle@, i as int) && i + needle.len() <= text.len(),
            None => !occurs(text@, needle@),
        },
{
    if needle.len() > text.len() {
        return None;
    }
    let last = text.len() - needle.len();
    let mut i: usize = 0;
    loop
        invariant
            needle.len() <= text.len(),
            last == text.len() - needle.len(),
            i <= last,
            forall|j: int| 0 <= j < i ==> !#[trigger] occurs_at(text@, needle@, j),
        decreases last - i,
    {
        let mut k: usize = 0;
        while k < needle.len() && text[i + k] == needle[k]
            invariant
                k <= needle.len(),
                i + needle.len() <= text.len(),
                forall|j: int| 0 <= j < k ==> text@[i + j] == needle@[j],
            decreases needle.len() - k,
        {
            k = k + 1;
        }
        if k == needle.len() {
            assert(text@.subrange(i as int, i + needle@.len()) == needle@);
            return Some(i);
        }
        assert(!occurs_at(text@, needle@, i as int)) by {
            if occurs_at(text@, needle@, i as int) {
                assert(text@.subrange(i as int, i + needle@.len())[k as int] == needle@[k as int]);
            }
        }
        if i == last {
            return None;
        }
        i = i + 1;
    }
}

fn insert_line(code: &str, at: usize, line: &str) -> (r: String)
    requires
        at <= code@.len(),
    ensures
        r@ == code@.take(at as int) + seq!['\n'] + line@ + code@.skip(at as int),
{
    let end = code.unicode_len();
    let mut r = code.substring_char(0, at).to_owned();
    r.push('\n');
    r.append(line);
    r.append(code.substring_char(at, end));
    r
}

/// Puts `preamble` behind the opening of the wrapping function in `code`, or in front of `code`
/// where it has none.
pub fn inject_preamble(code: &str, preamble: &str) -> (r: String)
    ensures
        r@ == injected(code@, preamble@),
        r@.len() == code@.len() + 1 + preamble@.len(),
{
    proof {
        law_preamble_keeps_code(code@, preamble@);
    }
    let text = characters(code);
    let tight = characters("(function() {");
    if let Some(place) = find(&text, &tight) {
        proof {
            lemma_first_place(code@, tight_opening(), place as int);
        }
        return insert_line(code, place + tight.len(), preamble);
    }
    let spaced = characters("(function () {");
    if let Some(place) = find(&text, &spaced) {
        proof {
            lemma_first_place(code@, spaced_opening(), place as int);
        }
        return insert_line(code, place + spaced.len(), preamble);
    }
    let mut r = preamble.to_owned();
    r.push('\n');
    r.append(code);
    r
}

proof fn lemma_first_place(text: Seq<char>, needle: Seq<char>, i: int)
    requires
        occurs_first_at(text, needle, i),
    ensures
        occurs(text, needle),
        first_place(text, needle) == i,
{
    let j = first_place(text, needle);
    assert(occurs_first_at(text, needle, j));
    if j < i {
        assert(!occurs_at(text, needle, j));
    }
    if i < j {
        assert(!occurs_at(text, needle, i));
    }
}

proof fn lemma_first_exists(text: Seq<char>, needle: Seq<char>, i: int)
    requires
        occurs_at(text, needle, i),
    ensures
        occurs_first_at(text, needle, first_place(text, needle)),
    decreases i,
{
    if exists|j: int| 0 <= j < i && #[trigger] occurs_at(text, needle, j) {
        let j = choose|j: int| 0 <= j < i && #[trigger] occurs_at(text, needle, j);
        lemma_first_exists(text, needle, j);
    } else {
        assert(occurs_first_at(text, needle, i));
    }
}

/// A preamble takes nothing from the code: one line is added, and around it the code stands as it
/// was.
pub proof fn law_preamble_keeps_code(code: Seq<char>, preamble: Seq<char>)
    ensures
        injected(code, preamble).len() == code.len() + 1 + preamble.len(),
        match opening_end(code) {
            Some(at) => {
                &&& 0 <= at <= code.len()
                &&& injected(code, preamble).take(at) == code.take(at)
                &&& injected(code, preamble).skip(at + 1 + preamble.len()) == code.skip(at)
            },
            None => injected(code, preamble).skip(preamble.len() as int + 1) == code,
        },
{
    if occurs(code, tight_opening()) {
        let i = choose|i: int| occurs_at(code, tight_opening(), i);
        lemma_first_exists(code, tight_opening(), i);
    } else if occurs(code, spaced_opening()) {
        let i = choose|i: int| occurs_at(code, spaced_opening(), i);
        lemma_first_exists(code, spaced_opening(), i);
    }
    let r = injected(code, preamble);
    match opening_end(code) {
        Some(at) => {
            assert(r.take(at) == code.take(at));
            assert(r.skip(at + 1 + preamble.len()) == code.skip(at));
        },
        None => {
            assert(r.skip(preamble.len() as int + 1) == code);
        },
    }
}

/// The preamble stands on a line of its own behind the first opening of a wrapping function without
/// a space, if there is one.
pub proof fn law_preamble_follows_the_tight_opening(code: Seq<char>, preamble: Seq<char>, at: int)
    requires
        0 <= at,
        at + 13 <= code.len(),
        code.subrange(at, at + 13) == "(function() {"@,
        forall|j: int| 0 <= j < at ==> #[trigger] code.subrange(j, j + 13) != "(function() {"@,
    ensures
        injected(code, preamble) == code.take(at + 13) + seq!['\n'] + preamble + code.skip(at + 13),
{
    reveal_strlit("(function() {");
    assert forall|j: int| 0 <= j < at implies !#[trigger] occurs_at(code, tight_opening(), j) by {
        assert(code.subrange(j, j + 13) != "(function() {"@);
    }
    assert(occurs_first_at(code, tight_opening(), at));
    lemma_first_place(code, tight_opening(), at);
}

/// Where there is no such opening, the preamble stands behind the first opening with a space, if
/// there is one.
pub proof fn law_preamble_follows_the_spaced_opening(
    code: Seq<char>,
    preamble: Seq<char>,
    at: int,
)
    requires
        0 <= at,
        at + 14 <= code.len(),
        code.subrange(at, at + 14) == "(function () {"@,
        forall|j: int| 0 <= j < at ==> #[trigger] code.subrange(j, j + 14) != "(function () {"@,
        forall|j: int|
            0 <= j <= code.len() - 13 ==> #[trigger] code.subrange(j, j + 13) != "(function() {"@,
    ensures
        injected(code, preamble) == code.take(at + 14) + seq!['\n'] + preamble + code.skip(at + 14),
{
    reveal_strlit("(function() {");
    reveal_strlit("(function () {");
    assert forall|j: int| !#[trigger] occurs_at(code, tight_opening(), j) by {
        if occurs_at(code, tight_opening(), j) {
            assert(code.subrange(j, j + 13) != "(function() {"@);
        }
    }
    assert forall|j: int| 0 <= j < at implies !#[trigger] occurs_at(code, spaced_opening(), j) by {
        assert(code.subrange(j, j + 14) != "(function () {"@);
    }
    assert(occurs_first_at(code, spaced_opening(), at));
    lemma_first_place(code, spaced_opening(), at);
}

/// Where there is no opening, the preamble stands in front of the code, on a line of its own.
pub proof fn law_preamble_leads_where_nothing_opens(code: Seq<char>, preamble: Seq<char>)
    requires
        forall|j: int|
            0 <= j <= code.len() - 13 ==> #[trigger] code.subrange(j, j + 13) != "(function() {"@,
        forall|j: int|
            0 <= j <= code.len() - 14 ==> #[trigger] code.subrange(j, j + 14) != "(function () {"@,
    ensures
        injected(code, preamble) == preamble + seq!['\n'] + code,
{
    reveal_strlit("(function() {");
    reveal_strlit("(function () {");
    assert forall|j: int| !#[trigger] occurs_at(code, tight_opening(), j) by {
        if occurs_at(code, tight_opening(), j) {
            assert(code.subrange(j, j + 13) != "(function() {"@);
        }
    }
    assert forall|j: int| !#[trigger] occurs_at(code, spaced_opening(), j) by {
        if occurs_at(code, spaced_opening(), j) {
            assert(code.subrange(j, j + 14) != "(function () {"@);
        }
    }
}

} // verus!
