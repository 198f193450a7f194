use oxc_ex_nif::sorted::SortedStrings;

#[test]
fn strings_come_out_in_ascending_order() {
    let mut set = SortedStrings::new();
    for item in ["vue", "react", "a", "react-dom", "Z", ""] {
        assert!(set.insert(item.to_string()));
    }
    assert_eq!(set.into_vec(), ["", "Z", "a", "react", "react-dom", "vue"]);
}

#[test]
fn a_string_is_added_once() {
    let mut set = SortedStrings::new();
    assert!(set.insert("vue".to_string()));
    assert!(!set.insert("vue".to_string()));
    assert!(set.contains("vue"));
    assert!(!set.contains("vu"));
    assert_eq!(set.into_vec(), ["vue"]);
}

#[test]
fn order_is_that_of_code_points() {
    let mut set = SortedStrings::new();
    for item in ["\u{1F600}", "\u{FFFD}", "z", "é"] {
        set.insert(item.to_string());
    }
    let mut expected = vec!["\u{1F600}", "\u{FFFD}", "z", "é"];
    expected.sort();
    assert_eq!(set.into_vec(), expected);
}

#[test]
fn order_of_insertion_does_not_matter() {
    let mut one = SortedStrings::new();
    let mut other = SortedStrings::new();
    for item in ["b", "a", "c", "a"] {
        one.insert(item.to_string());
    }
    for item in ["c", "b", "a"] {
        other.insert(item.to_string());
    }
    assert_eq!(one.into_vec(), other.into_vec());
}

#[test]
fn empty_set_holds_nothing() {
    assert!(!SortedStrings::new().contains(""));
    assert!(SortedStrings::new().into_vec().is_empty());
}
