//! Making the sources that a source map lists relative to the project.
use std::path::Path;

use serde_json::Value;

use vstd::prelude::*;

use crate::json::{
    array_mut, is_member, json, json_of, json_text, jsons, member_mut, parse_json, print_json,
    string_value, text_of, Json,
};
use crate::paths::{
    is_blank, is_name, law_normalized_path_has_no_backslash, law_parts_are_names, lemma_segments,
    lemma_segments_go_on, normalized, path_parts, segments,
};
use crate::text::{failure, hold_texts, optional_text, texts, to_slashes, with_slashes};

verus! {

/// Whether a path starts at the root of the file system.
pub open spec fn is_absolute(path: Seq<char>) -> bool {
    path.len() > 0 && path[0] == '/'
}

/// The components of a path, as Unix reads it: the root, and the pieces between slashes that are
/// neither empty nor a single dot. A dot at the start of a relative path counts.
pub open spec fn components(path: Seq<char>) -> Seq<Seq<char>> {
    let named = segments(path).filter(|piece: Seq<char>| !is_blank(piece));
    if is_absolute(path) {
        seq![seq!['/']] + named
    } else if segments(path)[0] == seq!['.'] {
        seq![seq!['.']] + named
    } else {
        named
    }
}

/// Whether a path lies below `base`, or is it: the components of `base` come first among its own.
pub open spec fn is_below(path: Seq<char>, base: Seq<char>) -> bool {
    components(base).is_prefix_of(components(path))
}

/// The text of what is left of a path below `base`, if it is below it.
pub uninterp spec fn path_below(path: Seq<char>, base: Seq<char>) -> Option<Seq<char>>;

/// Whether a path leads from the directory `base` to the file with the normalized name `name`.
pub open spec fn leads_to(path: Seq<char>, base: Seq<char>, name: Seq<char>) -> bool {
    &&& base.len() > 0
    &&& base.last() != '/'
    &&& base.last() != '.'
    &&& normalized(name) == Ok::<Seq<char>, Seq<char>>(name)
    &&& path == base + seq!['/'] + name
}

/// Calls `Path::strip_prefix`. The contract claims that the outcome depends on the two paths alone;
/// that whole components are compared, and those behind the ones of `base` are left; and that of a
/// directory followed by a slash and a normalized name just the name is left. Of other paths it
/// does not say how the components that are left are written.
#[verifier::external_body]
fn strip_base(path: &str, base: &str) -> (r: Option<String>)
    ensures
        optional_text(r) == path_below(path@, base@),
        r is Some <==> is_below(path@, base@),
        r matches Some(rest) ==> components(rest@) == components(path@).skip(
            components(base@).len() as int,
        ),
        forall|name: Seq<char>| #[trigger]
            leads_to(path@, base@, name) ==> optional_text(r) == Some(name),
{
    Path::new(path).strip_prefix(base).ok().map(|rest| rest.to_string_lossy().into_owned())
}

/// An entry of the list of sources, relative to `cwd`: a path below it loses it, with slashes
/// between what is left; anything else stays.
pub open spec fn relocated(entry: Json, cwd: Seq<char>) -> Json {
    match entry {
        Json::String(path) => match path_below(path, cwd) {
            Some(rest) => Json::String(with_slashes(rest)),
            None => entry,
        },
        _ => entry,
    }
}

/// The list of sources with each entry relative to `cwd`; what is no list stays.
pub open spec fn relocated_list(list: Json, cwd: Seq<char>) -> Json {
    match list {
        Json::Array(entries) => Json::Array(entries.map_values(|e: Json| relocated(e, cwd))),
        _ => list,
    }
}

/// Whether whole components decide what becomes of an entry: one that is not below `cwd` stays, one
/// that is below it keeps the components behind those of `cwd`, and one that leads to a file of the
/// project becomes the file's name.
pub open spec fn keeps_names(entry: Json, cwd: Seq<char>) -> bool {
    entry matches Json::String(path) ==> {
        &&& !is_below(path, cwd) ==> relocated(entry, cwd) == entry
        &&& is_below(path, cwd) ==> exists|rest: Seq<char>|
            #![trigger components(rest)]
            {
                &&& relocated(entry, cwd) == Json::String(with_slashes(rest))
                &&& components(rest) == components(path).skip(components(cwd).len() as int)
            }
        &&& forall|name: Seq<char>| #[trigger]
            leads_to(path, cwd, name) ==> relocated(entry, cwd) == Json::String(name)
    }
}

/// Whether that holds of every entry of a list.
pub open spec fn list_keeps_names(list: Json, cwd: Seq<char>) -> bool {
    list matches Json::Array(entries) ==> forall|k: int|
        0 <= k < entries.len() ==> keeps_names(#[trigger] entries[k], cwd)
}

/// Whether that holds of the sources of a source map.
pub open spec fn sources_keep_names(map: Json, cwd: Seq<char>) -> bool {
    forall|i: int| #[trigger]
        has_sources_at(map, i) ==> list_keeps_names(map->Object_0[i].1, cwd)
}

/// Whether a source map has a list of sources, as the member at place `i`.
pub open spec fn has_sources_at(map: Json, i: int) -> bool {
    map is Object && is_member(map->Object_0, "sources"@, i)
}

/// A source map with its sources relative to `cwd`.
pub open spec fn relativized(map: Json, cwd: Seq<char>) -> Json {
    if exists|i: int| has_sources_at(map, i) {
        let i = choose|i: int| has_sources_at(map, i);
        Json::Object(
            map->Object_0.update(i, ("sources"@, relocated_list(map->Object_0[i].1, cwd))),
        )
    } else {
        map
    }
}

/// Whether `after` is what becomes of an entry of the list of sources: a path that leads from `cwd`
/// to a file becomes the file's name, any other path below `cwd` keeps the components behind those
/// of `cwd`, as they are written, and everything else stays.
pub open spec fn entry_moves(before: Json, after: Json, cwd: Seq<char>) -> bool {
    match before {
        Json::String(path) => {
            &&& path_below(path, cwd) is None ==> after == before
            &&& path_below(path, cwd) matches Some(rest) ==> after == Json::String(
                with_slashes(rest),
            )
            &&& !is_below(path, cwd) ==> after == before
            &&& is_below(path, cwd) ==> exists|rest: Seq<char>|
                #![trigger components(rest)]
                {
                    &&& components(rest) == components(path).skip(components(cwd).len() as int)
                    &&& after == Json::String(with_slashes(rest))
                }
            &&& forall|name: Seq<char>|
                #![trigger normalized(name)]
                cwd.len() > 0 && cwd.last() != '/' && cwd.last() != '.' && normalized(name) == Ok::<
                    Seq<char>,
                    Seq<char>,
                >(name) && path == cwd + seq!['/'] + name ==> after == Json::String(name)
        },
        _ => after == before,
    }
}

/// Whether `after` is what becomes of a list of sources: it keeps its length, and each entry becomes
/// what becomes of it. What is no list stays.
pub open spec fn list_moves(before: Json, after: Json, cwd: Seq<char>) -> bool {
    match before {
        Json::Array(entries) => {
            &&& after matches Json::Array(moved)
            &&& moved.len() == entries.len()
            &&& forall|k: int|
                0 <= k < entries.len() ==> entry_moves(entries[k], #[trigger] moved[k], cwd)
        },
        _ => after == before,
    }
}

/// Whether `after` is what becomes of a source map: its members keep their places and keys, and only
/// the list under the first `sources` changes.
pub open spec fn map_moves(before: Json, after: Json, cwd: Seq<char>) -> bool {
    match before {
        Json::Object(members) => {
            &&& after matches Json::Object(moved)
            &&& moved.len() == members.len()
            &&& forall|i: int|
                0 <= i < members.len() ==> {
                    &&& (#[trigger] moved[i]).0 == members[i].0
                    &&& if members[i].0 == "sources"@ && forall|j: int|
                        0 <= j < i ==> (#[trigger] members[j]).0 != "sources"@ {
                        list_moves(members[i].1, moved[i].1, cwd)
                    } else {
                        moved[i].1 == members[i].1
                    }
                }
        },
        _ => after == before,
    }
}

/// Whether a text is the source map `map` with its sources relative to `cwd`.
pub open spec fn is_moved_text(map: Json, text: Seq<char>, cwd: Seq<char>) -> bool {
    exists|after: Json| #[trigger] map_moves(map, after, cwd) && text == json_text(after)
}

proof fn lemma_one_place(members: Seq<(Seq<char>, Json)>, key: Seq<char>, i: int, j: int)
    requires
        is_member(members, key, i),
        is_member(members, key, j),
    ensures
        i == j,
{
    if i < j {
        assert(members[i].0 != key);
    }
    if j < i {
        assert(members[j].0 != key);
    }
}

proof fn lemma_keeps_names(path: Seq<char>, cwd: Seq<char>)
    requires
        path_below(path, cwd) is Some <==> is_below(path, cwd),
        path_below(path, cwd) matches Some(rest) ==> components(rest) == components(path).skip(
            components(cwd).len() as int,
        ),
        forall|name: Seq<char>| #[trigger]
            leads_to(path, cwd, name) ==> path_below(path, cwd) == Some(name),
    ensures
        keeps_names(Json::String(path), cwd),
{
    assert forall|name: Seq<char>| #[trigger] leads_to(path, cwd, name) implies relocated(
        Json::String(path),
        cwd,
    ) == Json::String(name) by {
        law_normalized_path_has_no_backslash(name);
    }
}

proof fn lemma_all_names_count(parts: Seq<Seq<char>>)
    requires
        forall|i: int| 0 <= i < parts.len() ==> is_name(#[trigger] parts[i]),
    ensures
        parts.filter(|piece: Seq<char>| !is_blank(piece)) == parts,
    decreases parts.len(),
{
    reveal(Seq::filter);
    if parts.len() > 0 {
        let before = parts.drop_last();
        assert forall|i: int| 0 <= i < before.len() implies is_name(#[trigger] before[i]) by {
            assert(is_name(parts[i]));
        }
        lemma_all_names_count(before);
        assert(is_name(parts[parts.len() - 1]));
        assert(before.push(parts.last()) == parts);
    }
}

/// A path that leads from a directory to a file is below the directory, and what is left of it are
/// the parts of the file's name.
pub proof fn law_files_are_below_their_directory(
    path: Seq<char>,
    base: Seq<char>,
    name: Seq<char>,
)
    requires
        leads_to(path, base, name),
    ensures
        is_below(path, base),
        components(path).skip(components(base).len() as int) == path_parts(name),
{
    let counts = |piece: Seq<char>| !is_blank(piece);
    let parts = path_parts(name);
    law_parts_are_names(name);
    lemma_segments_go_on(base, parts);
    lemma_segments(base);
    lemma_all_names_count(parts);
    Seq::filter_distributes_over_add(segments(base), parts, counts);
    assert(path[0] == base[0]);
    assert(segments(path)[0] == segments(base)[0]);
    assert(components(path) == components(base) + parts);
    assert(components(path).skip(components(base).len() as int) == parts);
}

/// A relative path is not below an absolute one.
pub proof fn law_relative_paths_are_not_below(path: Seq<char>, cwd: Seq<char>)
    requires
        is_absolute(cwd),
        !is_absolute(path),
    ensures
        !is_below(path, cwd),
{
    let pieces = segments(path);
    let counts = |piece: Seq<char>| !is_blank(piece);
    let root = seq!['/'];
    assert(components(cwd)[0] == root);
    if is_below(path, cwd) {
        assert(components(path)[0] == root);
        assert(root[0] != seq!['.'][0]);
        assert(pieces.filter(counts)[0] == root);
        assert(pieces.filter(counts).contains(root));
        pieces.lemma_filter_contains_rev(counts, root);
        lemma_segments(path);
        let k = pieces.index_of(root);
        assert(root[0] == '/');
        assert(pieces[k].contains('/'));
    }
}

fn relocate_entries(entries: &mut Vec<Value>, cwd: &str)
    ensures
        jsons(final(entries)@) == jsons(old(entries)@).map_values(|e: Json| relocated(e, cwd@)),
        list_keeps_names(Json::Array(jsons(old(entries)@)), cwd@),
        list_moves(
            Json::Array(jsons(old(entries)@)),
            Json::Array(jsons(final(entries)@)),
            cwd@,
        ),
{
    let ghost before = jsons(entries@);
    let count = entries.len();
    for i in 0..count
        invariant
            count == before.len(),
            entries@.len() == before.len(),
            forall|j: int| 0 <= j < i ==> json(#[trigger] entries@[j]) == relocated(before[j], cwd@),
            forall|j: int| i <= j < entries@.len() ==> json(#[trigger] entries@[j]) == before[j],
            forall|j: int| 0 <= j < i ==> keeps_names(#[trigger] before[j], cwd@),
    {
        let rest = match text_of(&entries[i]) {
            Some(path) => {
                let rest = strip_base(path, cwd);
                proof {
                    lemma_keeps_names(path@, cwd@);
                }
                rest
            },
            None => None,
        };
        if let Some(rest) = rest {
            entries.set(i, string_value(to_slashes(rest.as_str())));
        }
    }
    assert(jsons(entries@) == before.map_values(|e: Json| relocated(e, cwd@)));
    proof {
        law_lists_keep_their_entries(Json::Array(before), cwd@);
    }
}

fn relocate_list(list: &mut Value, cwd: &str)
    ensures
        json(*final(list)) == relocated_list(json(*old(list)), cwd@),
        list_keeps_names(json(*old(list)), cwd@),
        list_moves(json(*old(list)), json(*final(list)), cwd@),
{
    if let Some(entries) = array_mut(list) {
        relocate_entries(entries, cwd);
    }
}

/// Makes the sources that a source map lists relative to `cwd`.
pub fn relocate_sources(map: &mut Value, cwd: &str)
    ensures
        json(*final(map)) == relativized(json(*old(map)), cwd@),
        sources_keep_names(json(*old(map)), cwd@),
        map_moves(json(*old(map)), json(*final(map)), cwd@),
{
    let ghost before = json(*map);
    if let Some(list) = member_mut(map, "sources") {
        proof {
            let j = choose|j: int| #[trigger]
                is_member(before->Object_0, "sources"@, j) && json(*list) == before->Object_0[j].1;
            assert(has_sources_at(before, j));
            assert forall|i: int| #[trigger] has_sources_at(before, i) implies i == j by {
                lemma_one_place(before->Object_0, "sources"@, i, j);
            }
        }
        relocate_list(list, cwd);
    }
    proof {
        law_sources_are_moved(before, cwd@);
    }
}

/// The outcome of making a source map's sources relative.
pub open spec fn relativized_text(text: Seq<char>, cwd: Seq<char>) -> Result<
    Seq<char>,
    Seq<Seq<char>>,
> {
    match json_of(text) {
        Ok(map) => Ok(json_text(relativized(map, cwd))),
        Err(message) => Err(seq!["Failed to parse Rolldown source map: "@ + message]),
    }
}

/// The characters of either outcome.
pub open spec fn outcome_texts(r: Result<String, Vec<String>>) -> Result<Seq<char>, Seq<Seq<char>>> {
    match r {
        Ok(text) => Ok(text@),
        Err(messages) => Err(texts(messages@)),
    }
}

/// Rewrites a source map so that the sources below `cwd` are listed relative to it: a file of the
/// project is listed under its name.
pub fn relativize_sourcemap_sources(sourcemap_json: String, cwd: &str) -> (r: Result<
    String,
    Vec<String>,
>)
    ensures
        outcome_texts(r) == relativized_text(sourcemap_json@, cwd@),
        json_of(sourcemap_json@) matches Ok(map) ==> sources_keep_names(map, cwd@),
        r is Ok <==> json_of(sourcemap_json@) is Ok,
        json_of(sourcemap_json@) matches Ok(map) ==> (r matches Ok(text) && is_moved_text(
            map,
            text@,
            cwd@,
        )),
        json_of(sourcemap_json@) matches Err(message) ==> (r matches Err(list) && hold_texts(
            list@,
            seq!["Failed to parse Rolldown source map: "@ + message],
        )),
{
    match parse_json(sourcemap_json.as_str()) {
        Ok(map) => {
            let mut map = map;
            relocate_sources(&mut map, cwd);
            match print_json(&map) {
                Ok(text) => Ok(text),
                Err(message) => Err(failure("Failed to serialize Rolldown source map: ", &message)),
            }
        },
        Err(message) => Err(failure("Failed to parse Rolldown source map: ", &message)),
    }
}

/// Making sources relative touches the list of sources alone: every other member of the source map
/// keeps its place and its value, and so does every entry that is no path below `cwd`.
pub proof fn law_only_sources_change(map: Json, cwd: Seq<char>)
    requires
        map is Object,
    ensures
        relativized(map, cwd) is Object,
        relativized(map, cwd)->Object_0.len() == map->Object_0.len(),
        forall|i: int|
            0 <= i < map->Object_0.len() ==> {
                let before = map->Object_0[i];
                let after = #[trigger] relativized(map, cwd)->Object_0[i];
                &&& after.0 == before.0
                &&& !has_sources_at(map, i) ==> after.1 == before.1
                &&& has_sources_at(map, i) ==> after.1 == relocated_list(before.1, cwd)
            },
{
    assert forall|i: int| 0 <= i < map->Object_0.len() implies {
        let before = map->Object_0[i];
        let after = #[trigger] relativized(map, cwd)->Object_0[i];
        &&& after.0 == before.0
        &&& !has_sources_at(map, i) ==> after.1 == before.1
        &&& has_sources_at(map, i) ==> after.1 == relocated_list(before.1, cwd)
    } by {
        if exists|j: int| has_sources_at(map, j) {
            let j = choose|j: int| has_sources_at(map, j);
            if has_sources_at(map, i) {
                lemma_one_place(map->Object_0, "sources"@, i, j);
            }
        }
    }
}

/// A list of sources keeps its length, and each of its entries, in its place, becomes the name of
/// the file that it leads to, or stays.
pub proof fn law_lists_keep_their_entries(list: Json, cwd: Seq<char>)
    requires
        list_keeps_names(list, cwd),
    ensures
        list_moves(list, relocated_list(list, cwd), cwd),
{
    if let Json::Array(entries) = list {
        assert forall|k: int| 0 <= k < entries.len() implies entry_moves(
            entries[k],
            #[trigger] relocated_list(list, cwd)->Array_0[k],
            cwd,
        ) by {
            let entry = entries[k];
            assert(keeps_names(entry, cwd));
            if let Json::String(path) = entry {
                assert forall|name: Seq<char>|
                    #![trigger normalized(name)]
                    cwd.len() > 0 && cwd.last() != '/' && cwd.last() != '.' && normalized(name)
                        == Ok::<Seq<char>, Seq<char>>(name) && path == cwd + seq!['/']
                        + name implies relocated(entry, cwd) == Json::String(name) by {
                    assert(leads_to(path, cwd, name));
                }
            }
        }
    }
}

/// A source map keeps its members, and its sources keep their number and their order: each becomes
/// the name of the file that it leads to, or stays.
pub proof fn law_sources_are_moved(map: Json, cwd: Seq<char>)
    requires
        sources_keep_names(map, cwd),
    ensures
        map_moves(map, relativized(map, cwd), cwd),
{
    if let Json::Object(members) = map {
        law_only_sources_change(map, cwd);
        let moved = relativized(map, cwd)->Object_0;
        assert forall|i: int| 0 <= i < members.len() implies {
            &&& (#[trigger] moved[i]).0 == members[i].0
            &&& if members[i].0 == "sources"@ && forall|j: int|
                0 <= j < i ==> (#[trigger] members[j]).0 != "sources"@ {
                list_moves(members[i].1, moved[i].1, cwd)
            } else {
                moved[i].1 == members[i].1
            }
        } by {
            if has_sources_at(map, i) {
                law_lists_keep_their_entries(members[i].1, cwd);
            }
        }
    }
}

/// A source map that can be read is written again with its sources moved, and one that cannot is
/// refused with the reason.
pub proof fn law_maps_are_written_again(text: Seq<char>, cwd: Seq<char>)
    requires
        json_of(text) matches Ok(map) ==> sources_keep_names(map, cwd),
    ensures
        match json_of(text) {
            Ok(map) => relativized_text(text, cwd) matches Ok(written) && is_moved_text(
                map,
                written,
                cwd,
            ),
            Err(message) => relativized_text(text, cwd) == Err::<Seq<char>, Seq<Seq<char>>>(
                seq!["Failed to parse Rolldown source map: "@ + message],
            ),
        },
{
    if let Ok(map) = json_of(text) {
        law_sources_are_moved(map, cwd);
    }
}

} // verus!
