//! Virtual file names: slash-separated paths below the root of a project.
use vstd::prelude::*;

use crate::text::{debug_quoted, debug_text, same_text, texts, to_slashes, with_slashes};

verus! {

/// The pieces of a path between its slashes; there is one more piece than there are slashes.
pub open spec fn segments(path: Seq<char>) -> Seq<Seq<char>>
    decreases path.len(),
{
    if path.len() == 0 {
        seq![Seq::empty()]
    } else {
        let rest = segments(path.drop_last());
        if path.last() == '/' {
            rest.push(Seq::empty())
        } else {
            rest.update(rest.len() - 1, rest.last().push(path.last()))
        }
    }
}

/// Whether a piece of a path names nothing: it is empty, or a single dot.
pub open spec fn is_blank(segment: Seq<char>) -> bool {
    segment.len() == 0 || segment == seq!['.']
}

/// Whether a piece of a path leads to the parent: it is two dots.
pub open spec fn is_parent(segment: Seq<char>) -> bool {
    segment == seq!['.', '.']
}

/// Where one more piece leads from `parts`. The parent of the root is the root.
pub open spec fn step(parts: Seq<Seq<char>>, segment: Seq<char>) -> Seq<Seq<char>> {
    if is_blank(segment) {
        parts
    } else if is_parent(segment) {
        if parts.len() == 0 {
            parts
        } else {
            parts.drop_last()
        }
    } else {
        parts.push(segment)
    }
}

/// The names on the way from the root to where the pieces lead.
pub open spec fn resolve(segments: Seq<Seq<char>>) -> Seq<Seq<char>>
    decreases segments.len(),
{
    if segments.len() == 0 {
        Seq::empty()
    } else {
        step(resolve(segments.drop_last()), segments.last())
    }
}

/// The names on the way from the root to a path, in which a backslash separates like a slash.
pub open spec fn path_parts(path: Seq<char>) -> Seq<Seq<char>> {
    resolve(segments(with_slashes(path)))
}

/// The parts with a slash between each two.
pub open spec fn joined(parts: Seq<Seq<char>>) -> Seq<char>
    decreases parts.len(),
{
    if parts.len() == 0 {
        Seq::empty()
    } else if parts.len() == 1 {
        parts[0]
    } else {
        joined(parts.drop_last()) + seq!['/'] + parts.last()
    }
}

/// What a path that leads nowhere is refused with.
pub open spec fn invalid_filename(path: Seq<char>) -> Seq<char> {
    "Invalid virtual filename: "@ + debug_text(path)
}

/// The outcome of normalizing a path.
pub open spec fn normalized(path: Seq<char>) -> Result<Seq<char>, Seq<char>> {
    if path_parts(path).len() == 0 {
        Err(invalid_filename(path))
    } else {
        Ok(joined(path_parts(path)))
    }
}

/// The characters of either outcome.
pub open spec fn outcome_text(r: Result<String, String>) -> Result<Seq<char>, Seq<char>> {
    match r {
        Ok(text) => Ok(text@),
        Err(text) => Err(text@),
    }
}

fn take_step(parts: &mut Vec<String>, segment: String)
    ensures
        texts(final(parts)@) == step(texts(old(parts)@), segment@),
{
    proof {
        reveal_strlit(".");
        reveal_strlit("..");
        assert("."@ == seq!['.']);
        assert(".."@ == seq!['.', '.']);
    }
    if segment.as_str().is_empty() || same_text(segment.as_str(), ".") {
    } else if same_text(segment.as_str(), "..") {
        let ghost before = parts@;
        if parts.len() > 0 {
            parts.pop();
            assert(texts(parts@) == texts(before).drop_last());
        }
    } else {
        let ghost before = parts@;
        let ghost name = segment@;
        parts.push(segment);
        assert(texts(parts@) == texts(before).push(name));
    }
}

fn resolve_path(path: &str) -> (parts: Vec<String>)
    ensures
        texts(parts@) == resolve(segments(path@)),
{
    let mut parts: Vec<String> = Vec::new();
    let mut segment = String::new();
    let ghost pieces = segments(Seq::<char>::empty());
    assert(pieces.drop_last() == Seq::<Seq<char>>::empty());
    for c in iter: path.chars()
        invariant
            iter.seq() == path@,
            pieces == segments(path@.take(iter.index())),
            pieces.len() > 0,
            texts(parts@) == resolve(pieces.drop_last()),
            segment@ == pieces.last(),
    {
        proof {
            let next = path@.take(iter.index() + 1);
            assert(next.drop_last() == path@.take(iter.index()));
            if c == '/' {
                assert(segments(next).drop_last() == pieces);
            } else {
                assert(segments(next).drop_last() == pieces.drop_last());
            }
            pieces = segments(next);
        }
        if c == '/' {
            take_step(&mut parts, segment);
            segment = String::new();
        } else {
            segment.push(c);
        }
    }
    assert(path@.take(path@.len() as int) == path@);
    take_step(&mut parts, segment);
    parts
}

fn join_parts(parts: &Vec<String>) -> (r: String)
    ensures
        r@ == joined(texts(parts@)),
{
    let mut r = String::new();
    let ghost all = texts(parts@);
    proof {
        reveal_strlit("/");
        assert("/"@ == seq!['/']);
    }
    for i in 0..parts.len()
        invariant
            all == texts(parts@),
            "/"@ == seq!['/'],
            r@ == joined(all.take(i as int)),
        decreases parts.len() - i,
    {
        assert(all.take(i + 1).drop_last() == all.take(i as int));
        if i > 0 {
            r.append("/");
        }
        r.append(parts[i].as_str());
    }
    assert(all.take(all.len() as int) == all);
    r
}

/// The path from the root of the project to `path`: blank pieces are dropped, and a parent piece
/// takes the piece before it away. A path that leads to the root itself is refused.
pub fn normalize_virtual_path(path: &str) -> (r: Result<String, String>)
    ensures
        outcome_text(r) == normalized(path@),
        r is Ok <==> path_parts(path@).len() > 0,
        r matches Ok(text) ==> segments(text@) == path_parts(path@),
        r matches Err(message) ==> message@ == "Invalid virtual filename: "@ + debug_text(path@),
{
    let slashed = to_slashes(path);
    let parts = resolve_path(slashed.as_str());
    if parts.len() == 0 {
        let mut message = "Invalid virtual filename: ".to_owned();
        message.append(debug_quoted(path).as_str());
        return Err(message);
    }
    proof {
        law_normalized_text_joins_the_parts(path@);
    }
    Ok(join_parts(&parts))
}

/// Whether a specifier names a package: it starts with neither a dot nor a slash.
pub open spec fn is_bare(specifier: Seq<char>) -> bool {
    specifier.len() == 0 || (specifier[0] != '.' && specifier[0] != '/')
}

/// Whether a specifier names a package rather than a file.
pub fn is_bare_specifier(specifier: &str) -> (r: bool)
    ensures
        r == is_bare(specifier@),
        !r <==> specifier@.len() > 0 && (specifier@[0] == '.' || specifier@[0] == '/'),
{
    if specifier.is_empty() {
        return true;
    }
    let first = specifier.get_char(0);
    first != '.' && first != '/'
}

/// Whether a text can stand between the slashes of a normalized path.
pub open spec fn is_name(segment: Seq<char>) -> bool {
    &&& !is_blank(segment)
    &&& !is_parent(segment)
    &&& !segment.contains('/')
    &&& !segment.contains('\\')
}

/// There is a piece, and what stands in a piece stands in the path and is no slash.
pub proof fn lemma_segments(path: Seq<char>)
    ensures
        segments(path).len() > 0,
        forall|i: int, c: char|
            0 <= i < segments(path).len() && #[trigger] segments(path)[i].contains(c) ==> c != '/'
                && path.contains(c),
    decreases path.len(),
{
    if path.len() > 0 {
        let before = path.drop_last();
        let rest = segments(before);
        lemma_segments(before);
        assert forall|i: int, c: char|
            0 <= i < segments(path).len() && #[trigger] segments(path)[i].contains(c) implies c
            != '/' && path.contains(c) by {
            assert(path[path.len() - 1] == path.last());
            if path.last() == '/' {
                if i < rest.len() {
                    assert(rest[i].contains(c));
                    assert(path[before.index_of(c)] == c);
                }
            } else if i == rest.len() - 1 {
                let k = segments(path)[i].index_of(c);
                if k < rest.last().len() {
                    assert(rest[i][k] == c);
                    assert(rest[i].contains(c));
                    assert(path[before.index_of(c)] == c);
                }
            } else {
                assert(rest[i].contains(c));
                assert(path[before.index_of(c)] == c);
            }
        }
    }
}

proof fn lemma_resolve(pieces: Seq<Seq<char>>)
    ensures
        forall|i: int|
            0 <= i < resolve(pieces).len() ==> pieces.contains(#[trigger] resolve(pieces)[i])
                && !is_blank(resolve(pieces)[i]) && !is_parent(resolve(pieces)[i]),
    decreases pieces.len(),
{
    if pieces.len() > 0 {
        let before = pieces.drop_last();
        lemma_resolve(before);
        assert(pieces[pieces.len() - 1] == pieces.last());
        assert forall|i: int| 0 <= i < resolve(pieces).len() implies pieces.contains(
            #[trigger] resolve(pieces)[i],
        ) && !is_blank(resolve(pieces)[i]) && !is_parent(resolve(pieces)[i]) by {
            let rest = resolve(before);
            if i < rest.len() {
                assert(resolve(pieces)[i] == rest[i]);
                assert(pieces[before.index_of(rest[i])] == rest[i]);
            }
        }
    }
}

/// Every part of a path is a name: not empty, neither one dot nor two, and without separators. So
/// a normalized path never leaves the root.
pub proof fn law_parts_are_names(path: Seq<char>)
    ensures
        forall|i: int| 0 <= i < path_parts(path).len() ==> is_name(#[trigger] path_parts(path)[i]),
{
    let slashed = with_slashes(path);
    let pieces = segments(slashed);
    lemma_segments(slashed);
    lemma_resolve(pieces);
    assert forall|i: int| 0 <= i < path_parts(path).len() implies is_name(
        #[trigger] path_parts(path)[i],
    ) by {
        let part = path_parts(path)[i];
        let k = pieces.index_of(part);
        assert(pieces[k] == part);
        if part.contains('/') {
            assert(pieces[k].contains('/'));
        }
        if part.contains('\\') {
            assert(pieces[k].contains('\\'));
            let j = slashed.index_of('\\');
            assert(slashed[j] == '\\');
        }
    }
}

proof fn lemma_segments_append(path: Seq<char>, name: Seq<char>)
    requires
        !name.contains('/'),
    ensures
        segments(path + seq!['/'] + name) == segments(path).push(name),
    decreases name.len(),
{
    lemma_segments(path);
    let whole = path + seq!['/'] + name;
    if name.len() == 0 {
        assert(name == Seq::<char>::empty());
        assert(whole.drop_last() == path);
        assert(segments(whole) == segments(path).push(name));
    } else {
        let shorter = name.drop_last();
        assert forall|c: char| shorter.contains(c) implies name.contains(c) by {
            assert(name[shorter.index_of(c)] == c);
        }
        lemma_segments_append(path, shorter);
        assert(name[name.len() - 1] == name.last());
        assert(whole.drop_last() == path + seq!['/'] + shorter);
        assert(shorter.push(name.last()) == name);
        assert(segments(whole) == segments(path).push(name));
    }
}

proof fn lemma_segments_of_name(name: Seq<char>)
    requires
        !name.contains('/'),
    ensures
        segments(name) == seq![name],
    decreases name.len(),
{
    if name.len() > 0 {
        let shorter = name.drop_last();
        assert forall|c: char| shorter.contains(c) implies name.contains(c) by {
            assert(name[shorter.index_of(c)] == c);
        }
        lemma_segments_of_name(shorter);
        assert(name[name.len() - 1] == name.last());
        assert(shorter.push(name.last()) == name);
        assert(segments(name) == seq![name]);
    } else {
        assert(name == Seq::<char>::empty());
    }
}

proof fn lemma_segments_of_joined(parts: Seq<Seq<char>>)
    requires
        parts.len() > 0,
        forall|i: int| 0 <= i < parts.len() ==> is_name(#[trigger] parts[i]),
    ensures
        segments(joined(parts)) == parts,
        with_slashes(joined(parts)) == joined(parts),
    decreases parts.len(),
{
    let before = parts.drop_last();
    let last = parts.last();
    assert(is_name(parts[parts.len() - 1]));
    assert forall|k: int| 0 <= k < last.len() implies last[k] != '\\' by {
        if last[k] == '\\' {
            assert(last.contains('\\'));
        }
    }
    if parts.len() == 1 {
        lemma_segments_of_name(last);
        assert(seq![last] == parts);
        assert(with_slashes(joined(parts)) == joined(parts));
    } else {
        assert forall|i: int| 0 <= i < before.len() implies is_name(#[trigger] before[i]) by {
            assert(is_name(parts[i]));
        }
        lemma_segments_of_joined(before);
        lemma_segments_append(joined(before), last);
        assert(before.push(last) == parts);
        let head = joined(before);
        assert forall|k: int| 0 <= k < head.len() implies head[k] != '\\' by {
            assert(with_slashes(head)[k] == head[k]);
        }
        assert(with_slashes(joined(parts)) == joined(parts));
    }
}

/// The pieces of a path that goes on with names.
pub(crate) proof fn lemma_segments_go_on(path: Seq<char>, parts: Seq<Seq<char>>)
    requires
        parts.len() > 0,
        forall|i: int| 0 <= i < parts.len() ==> is_name(#[trigger] parts[i]),
    ensures
        segments(path + seq!['/'] + joined(parts)) == segments(path) + parts,
    decreases parts.len(),
{
    let before = parts.drop_last();
    let last = parts.last();
    assert(is_name(parts[parts.len() - 1]));
    if parts.len() == 1 {
        lemma_segments_append(path, last);
        assert(segments(path).push(last) == segments(path) + parts);
    } else {
        assert forall|i: int| 0 <= i < before.len() implies is_name(#[trigger] before[i]) by {
            assert(is_name(parts[i]));
        }
        lemma_segments_go_on(path, before);
        let head = path + seq!['/'] + joined(before);
        lemma_segments_append(head, last);
        assert(path + seq!['/'] + joined(parts) == head + seq!['/'] + last);
        assert((segments(path) + before).push(last) == segments(path) + parts);
    }
}

proof fn lemma_resolve_names(parts: Seq<Seq<char>>)
    requires
        forall|i: int| 0 <= i < parts.len() ==> is_name(#[trigger] parts[i]),
    ensures
        resolve(parts) == parts,
    decreases parts.len(),
{
    if parts.len() > 0 {
        let before = parts.drop_last();
        assert forall|i: int| 0 <= i < before.len() implies is_name(#[trigger] before[i]) by {
            assert(is_name(parts[i]));
        }
        lemma_resolve_names(before);
        assert(is_name(parts[parts.len() - 1]));
        assert(before.push(parts.last()) == parts);
    }
}

/// The text of a normalized path has the same parts as the path it came from.
pub proof fn law_normalization_keeps_parts(path: Seq<char>)
    requires
        normalized(path) is Ok,
    ensures
        path_parts(normalized(path)->Ok_0) == path_parts(path),
{
    law_parts_are_names(path);
    lemma_segments_of_joined(path_parts(path));
    lemma_resolve_names(path_parts(path));
}

/// A normalized path is written with slashes alone.
pub proof fn law_normalized_path_has_no_backslash(path: Seq<char>)
    requires
        normalized(path) is Ok,
    ensures
        with_slashes(normalized(path)->Ok_0) == normalized(path)->Ok_0,
{
    law_parts_are_names(path);
    lemma_segments_of_joined(path_parts(path));
}

/// Normalizing a normalized path changes nothing.
pub proof fn law_normalization_is_idempotent(path: Seq<char>)
    requires
        normalized(path) is Ok,
    ensures
        normalized(normalized(path)->Ok_0) == normalized(path),
{
    law_normalization_keeps_parts(path);
}

/// Two paths are normalized to the same text exactly when they have the same parts.
pub proof fn law_normalization_tells_paths_apart(a: Seq<char>, b: Seq<char>)
    requires
        normalized(a) is Ok,
        normalized(b) is Ok,
    ensures
        normalized(a) == normalized(b) <==> path_parts(a) == path_parts(b),
{
    law_normalization_keeps_parts(a);
    law_normalization_keeps_parts(b);
}

/// A backslash separates like a slash.
pub proof fn law_separators_are_alike(path: Seq<char>)
    ensures
        path_parts(with_slashes(path)) == path_parts(path),
{
    assert(with_slashes(with_slashes(path)) == with_slashes(path));
}

/// A specifier names a package unless it starts with a dot or a slash.
pub proof fn law_packages_start_with_neither_dot_nor_slash(first: char, rest: Seq<char>)
    ensures
        is_bare(seq![first] + rest) <==> first != '.' && first != '/',
        is_bare(Seq::empty()),
{
    assert((seq![first] + rest)[0] == first);
}

/// The pieces of a path with a slash between each two are the path again, and none of them holds a
/// slash.
pub proof fn law_pieces_make_up_the_path(path: Seq<char>)
    ensures
        segments(path).len() > 0,
        joined(segments(path)) == path,
        forall|i: int|
            0 <= i < segments(path).len() ==> !(#[trigger] segments(path)[i]).contains('/'),
    decreases path.len(),
{
    lemma_segments(path);
    if path.len() == 0 {
        assert(joined(segments(path)) == path);
    } else {
        let before = path.drop_last();
        let rest = segments(before);
        law_pieces_make_up_the_path(before);
        let pieces = segments(path);
        assert(before.push(path.last()) == path);
        if path.last() == '/' {
            assert(pieces.drop_last() == rest);
            assert(joined(pieces) == joined(rest) + seq!['/'] + Seq::<char>::empty());
            assert(joined(pieces) == path);
        } else if rest.len() == 1 {
            assert(joined(pieces) == rest[0].push(path.last()));
        } else {
            assert(pieces.drop_last() == rest.drop_last());
            let head = joined(rest.drop_last()) + seq!['/'];
            assert(joined(rest) == head + rest.last());
            assert(joined(pieces) == head + rest.last().push(path.last()));
            assert(joined(pieces) == path);
        }
    }
}

/// Parts are joined with one slash between each two, and nothing else.
pub proof fn law_parts_are_joined_with_slashes(parts: Seq<Seq<char>>, part: Seq<char>)
    ensures
        joined(seq![part]) == part,
        parts.len() > 0 ==> joined(parts.push(part)) == joined(parts) + seq!['/'] + part,
{
    assert(parts.push(part).drop_last() == parts);
}

/// The pieces of two paths with a slash between them are the pieces of the one, followed by those of
/// the other.
pub proof fn law_pieces_of_two_paths(a: Seq<char>, b: Seq<char>)
    ensures
        segments(a + seq!['/'] + b) == segments(a) + segments(b),
    decreases b.len(),
{
    lemma_segments(a);
    let whole = a + seq!['/'] + b;
    if b.len() == 0 {
        assert(whole.drop_last() == a);
        assert(segments(whole) == segments(a) + segments(b));
    } else {
        let shorter = b.drop_last();
        lemma_segments(shorter);
        assert(whole.drop_last() == a + seq!['/'] + shorter);
        law_pieces_of_two_paths(a, shorter);
        assert(segments(whole) == segments(a) + segments(b));
    }
}

/// What comes behind two lists of pieces that lead to the same place leads on to the same place.
pub proof fn law_ways_go_on_alike(a: Seq<Seq<char>>, b: Seq<Seq<char>>, rest: Seq<Seq<char>>)
    requires
        resolve(a) == resolve(b),
    ensures
        resolve(a + rest) == resolve(b + rest),
    decreases rest.len(),
{
    if rest.len() == 0 {
        assert(a + rest == a);
        assert(b + rest == b);
    } else {
        law_ways_go_on_alike(a, b, rest.drop_last());
        assert((a + rest).drop_last() == a + rest.drop_last());
        assert((b + rest).drop_last() == b + rest.drop_last());
    }
}

/// An empty piece and a single dot lead nowhere; a parent piece takes the name before it away, and
/// does nothing where there is none; any other piece is a name, and leads on.
pub proof fn law_pieces_lead_on(a: Seq<Seq<char>>, name: Seq<char>)
    ensures
        resolve(Seq::empty()) == Seq::<Seq<char>>::empty(),
        resolve(a.push(Seq::empty())) == resolve(a),
        resolve(a.push(seq!['.'])) == resolve(a),
        resolve(a).len() == 0 ==> resolve(a.push(seq!['.', '.'])) == resolve(a),
        name.len() > 0 && name != seq!['.'] && name != seq!['.', '.'] ==> {
            &&& resolve(a.push(name)) == resolve(a).push(name)
            &&& resolve(a.push(name).push(seq!['.', '.'])) == resolve(a)
        },
{
    let (dot, parent) = (seq!['.'], seq!['.', '.']);
    assert(dot.len() == 1 && parent.len() == 2);
    assert(a.push(Seq::empty()).drop_last() == a);
    assert(a.push(dot).drop_last() == a);
    assert(a.push(parent).drop_last() == a);
    assert(a.push(name).drop_last() == a);
    assert(a.push(name).push(parent).drop_last() == a.push(name));
    assert(resolve(a).push(name).drop_last() == resolve(a));
    assert(resolve(a.push(name).push(parent)) == step(resolve(a.push(name)), parent));
}

proof fn lemma_slashes_distribute(a: Seq<char>, b: Seq<char>)
    ensures
        with_slashes(a + seq!['/'] + b) == with_slashes(a) + seq!['/'] + with_slashes(b),
{
}

proof fn lemma_own_slashes(name: Seq<char>)
    requires
        !name.contains('\\'),
    ensures
        with_slashes(name) == name,
{
    assert forall|i: int| 0 <= i < name.len() implies with_slashes(name)[i] == name[i] by {
        assert(name.contains(name[i]));
    }
    assert(with_slashes(name) == name);
}

proof fn lemma_path_goes_on(a: Seq<char>, name: Seq<char>)
    requires
        !name.contains('/'),
        !name.contains('\\'),
    ensures
        segments(with_slashes(a + seq!['/'] + name)) == segments(with_slashes(a)).push(name),
{
    lemma_slashes_distribute(a, name);
    lemma_own_slashes(name);
    lemma_segments_append(with_slashes(a), name);
}

/// A name behind a path is one more part; behind it, a dot or a further slash changes nothing, and
/// two dots take it away again.
pub proof fn law_names_come_and_go(a: Seq<char>, name: Seq<char>)
    requires
        name.len() > 0,
        name != seq!['.'],
        name != seq!['.', '.'],
        !name.contains('/'),
        !name.contains('\\'),
    ensures
        path_parts(a + seq!['/'] + name) == path_parts(a).push(name),
        path_parts(a + seq!['/'] + seq!['.']) == path_parts(a),
        path_parts(a + seq!['/'] + Seq::empty()) == path_parts(a),
        path_parts(a + seq!['/'] + name + seq!['/'] + seq!['.', '.']) == path_parts(a),
        path_parts(a).len() == 0 ==> path_parts(a + seq!['/'] + seq!['.', '.']).len() == 0,
{
    let pieces = segments(with_slashes(a));
    let (dot, parent) = (seq!['.'], seq!['.', '.']);
    assert(!dot.contains('/') && !dot.contains('\\')) by {
        assert(dot[0] == '.');
    }
    assert(!parent.contains('/') && !parent.contains('\\')) by {
        assert(parent[0] == '.' && parent[1] == '.');
    }
    lemma_path_goes_on(a, name);
    lemma_path_goes_on(a, dot);
    lemma_path_goes_on(a, parent);
    lemma_path_goes_on(a, Seq::empty());
    lemma_path_goes_on(a + seq!['/'] + name, parent);
    law_pieces_lead_on(pieces, name);
}

/// A slash in front leads nowhere, and neither does the parent of the root; a single name leads to
/// itself.
pub proof fn law_ways_start_at_the_root(name: Seq<char>, b: Seq<char>)
    requires
        name.len() > 0,
        name != seq!['.'],
        name != seq!['.', '.'],
        !name.contains('/'),
        !name.contains('\\'),
    ensures
        path_parts(Seq::empty()).len() == 0,
        path_parts(name) == seq![name],
        path_parts(Seq::empty() + seq!['/'] + b) == path_parts(b),
        path_parts(seq!['.'] + seq!['/'] + b) == path_parts(b),
        path_parts(seq!['.', '.'] + seq!['/'] + b) == path_parts(b),
{
    let none = Seq::<Seq<char>>::empty();
    let (empty, dot, parent) = (Seq::<char>::empty(), seq!['.'], seq!['.', '.']);
    let rest = segments(with_slashes(b));
    assert(!dot.contains('/') && !dot.contains('\\')) by {
        assert(dot[0] == '.');
    }
    assert(!parent.contains('/') && !parent.contains('\\')) by {
        assert(parent[0] == '.' && parent[1] == '.');
    }
    lemma_own_slashes(name);
    lemma_own_slashes(empty);
    lemma_own_slashes(dot);
    lemma_own_slashes(parent);
    lemma_segments_of_name(name);
    lemma_segments_of_name(empty);
    lemma_segments_of_name(dot);
    lemma_segments_of_name(parent);
    law_pieces_lead_on(none, name);
    assert(none.push(name) == seq![name]);
    assert(none.push(empty) == seq![empty]);
    assert(none.push(dot) == seq![dot]);
    assert(none.push(parent) == seq![parent]);
    assert(none + rest == rest);
    lemma_slashes_distribute(empty, b);
    lemma_slashes_distribute(dot, b);
    lemma_slashes_distribute(parent, b);
    law_pieces_of_two_paths(empty, with_slashes(b));
    law_pieces_of_two_paths(dot, with_slashes(b));
    law_pieces_of_two_paths(parent, with_slashes(b));
    law_ways_go_on_alike(seq![empty], none, rest);
    law_ways_go_on_alike(seq![dot], none, rest);
    law_ways_go_on_alike(seq![parent], none, rest);
}

/// The beginning of a path counts through its parts alone: what comes behind a slash leads on from
/// where it led.
pub proof fn law_beginnings_count_through_their_parts(a: Seq<char>, b: Seq<char>, rest: Seq<char>)
    requires
        path_parts(a) == path_parts(b),
    ensures
        path_parts(a + seq!['/'] + rest) == path_parts(b + seq!['/'] + rest),
{
    lemma_slashes_distribute(a, rest);
    lemma_slashes_distribute(b, rest);
    law_pieces_of_two_paths(with_slashes(a), with_slashes(rest));
    law_pieces_of_two_paths(with_slashes(b), with_slashes(rest));
    law_ways_go_on_alike(
        segments(with_slashes(a)),
        segments(with_slashes(b)),
        segments(with_slashes(rest)),
    );
}

/// A path is normalized to its parts with slashes between them, and refused by name where it has
/// none.
pub proof fn law_normalized_text_joins_the_parts(path: Seq<char>)
    ensures
        match normalized(path) {
            Ok(text) => path_parts(path).len() > 0 && segments(text) == path_parts(path),
            Err(message) => path_parts(path).len() == 0 && message
                == "Invalid virtual filename: "@ + debug_text(path),
        },
{
    if path_parts(path).len() > 0 {
        law_parts_are_names(path);
        lemma_segments_of_joined(path_parts(path));
    }
}

} // verus!
