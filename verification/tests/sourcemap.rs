use oxc_ex_nif::sourcemap::{relativize_sourcemap_sources, relocate_sources};
use serde_json::Value;

fn rewritten(text: &str, cwd: &str) -> Value {
    let result = relativize_sourcemap_sources(text.to_string(), cwd).unwrap();
    serde_json::from_str(&result).unwrap()
}

fn sources(list: &str, cwd: &str) -> Value {
    rewritten(&format!("{{\"sources\":{list}}}"), cwd)["sources"].clone()
}

#[test]
fn sources_below_the_project_are_relative() {
    let list = sources("[\"/tmp/p/src/a.ts\",\"/tmp/p/b.ts\"]", "/tmp/p");
    assert_eq!(list[0], "src/a.ts");
    assert_eq!(list[1], "b.ts");
}

#[test]
fn other_sources_stay() {
    let list = sources("[\"/tmp/q.ts\",\"/tmp/pq/a.ts\",\"src/a.ts\",\"\"]", "/tmp/p");
    assert_eq!(list[0], "/tmp/q.ts");
    assert_eq!(list[1], "/tmp/pq/a.ts");
    assert_eq!(list[2], "src/a.ts");
    assert_eq!(list[3], "");
}

#[test]
fn entries_that_are_no_text_stay() {
    let list = sources("[null,4,[\"/tmp/p/a\"],true]", "/tmp/p");
    assert_eq!(list.to_string(), "[null,4,[\"/tmp/p/a\"],true]");
}

#[test]
fn backslashes_in_a_relative_source_become_slashes() {
    assert_eq!(sources("[\"/tmp/p/src\\\\a.ts\"]", "/tmp/p")[0], "src/a.ts");
    assert_eq!(sources("[\"/x/src\\\\a.ts\"]", "/tmp/p")[0], "/x/src\\a.ts");
}

#[test]
fn other_members_stay() {
    let text = "{\"version\":3,\"names\":[\"/tmp/p/a\"],\"sources\":[\"/tmp/p/a\"],\
                \"file\":\"/tmp/p/a\"}";
    let map = rewritten(text, "/tmp/p");
    assert_eq!(map["version"], 3);
    assert_eq!(map["names"][0], "/tmp/p/a");
    assert_eq!(map["file"], "/tmp/p/a");
    assert_eq!(map["sources"][0], "a");
}

#[test]
fn maps_without_a_list_of_sources_stay() {
    assert_eq!(
        relativize_sourcemap_sources("{\"version\":3}".to_string(), "/tmp/p"),
        Ok("{\"version\":3}".to_string()),
    );
    assert_eq!(
        relativize_sourcemap_sources("{\"sources\":\"/tmp/p/a\"}".to_string(), "/tmp/p"),
        Ok("{\"sources\":\"/tmp/p/a\"}".to_string()),
    );
    assert_eq!(
        relativize_sourcemap_sources("[\"/tmp/p/a\"]".to_string(), "/tmp/p"),
        Ok("[\"/tmp/p/a\"]".to_string()),
    );
}

#[test]
fn text_that_is_no_json_is_refused() {
    assert_eq!(
        relativize_sourcemap_sources("{".to_string(), "/tmp/p"),
        Err(vec![
            "Failed to parse Rolldown source map: EOF while parsing an object at line 1 column 1"
                .to_string(),
        ]),
    );
}

#[test]
fn value_is_changed_in_place() {
    let mut map: Value = serde_json::from_str("{\"sources\":[\"/p/a\",\"/q/b\"]}").unwrap();
    relocate_sources(&mut map, "/p");
    assert_eq!(map.to_string(), "{\"sources\":[\"a\",\"/q/b\"]}");
}

#[test]
fn whole_components_are_compared() {
    let list = sources(
        "[\"/tmp/xy/b.ts\",\"/tmp/x\",\"/tmp//x/./b.ts/\",\"tmp/x/b.ts\",\"/tmp/x/../b.ts\"]",
        "/tmp/x",
    );
    assert_eq!(list[0], "/tmp/xy/b.ts");
    assert_eq!(list[1], "");
    assert_eq!(list[2], "b.ts");
    assert_eq!(list[3], "tmp/x/b.ts");
    assert_eq!(list[4], "../b.ts");
    assert_eq!(sources("[\"/tmp/x/b.ts\"]", "/tmp//x/")[0], "b.ts");
    assert_eq!(sources("[\"./b.ts\"]", ".")[0], "b.ts");
    assert_eq!(sources("[\"b.ts\"]", ".")[0], "b.ts");
}
