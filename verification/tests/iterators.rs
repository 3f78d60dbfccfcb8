use easy_shortcuts::traits::{Join, ToMap, ToVec};

#[test]
fn test_to_vec() {
    let v = "one two three".split_whitespace().to_vec();
    assert_eq!(v, &["one", "two", "three"]);
}

#[test]
fn test_iter_join() {
    // join an iterator over &str
    let v = ["one", "two", "three"];
    let s = v.into_iter().join(',');
    assert_eq!(s, "one,two,three");

    // join an iterator over String
    let v = vec!["one".to_string(), "two".to_string(), "three".to_string()];
    let s = v.into_iter().map(|s| s.to_uppercase()).join(',');
    assert_eq!(s, "ONE,TWO,THREE");

    let s = ["one", "two", "three"].into_iter().prepend(" -L");
    assert_eq!(s, " -Lone -Ltwo -Lthree");
}

#[test]
fn to_vec_of_nothing_is_empty() {
    let v: Vec<u8> = Vec::<u8>::new().into_iter().to_vec();
    assert!(v.is_empty());
}

#[test]
fn join_of_nothing_and_of_one() {
    let none: Vec<&str> = Vec::new();
    assert_eq!(none.into_iter().join(','), "");
    assert_eq!(vec!["solo"].into_iter().join(','), "solo");
    assert_eq!(vec!["", ""].into_iter().join(','), ",");
}

#[test]
fn append_maps_each_string() {
    let s = ["a", "b", "c"].into_iter().append(|s| format!("<{}>", s));
    assert_eq!(s, "<a><b><c>");
}

#[test]
fn to_map_keeps_the_later_pair() {
    let m = vec![(1u64, "one"), (2, "two"), (1, "uno")].into_iter().to_map();
    assert_eq!(m.len(), 2);
    assert_eq!(m[&1], "uno");
    assert_eq!(m[&2], "two");
}

#[test]
fn prepend_of_nothing_is_empty() {
    let none: Vec<String> = Vec::new();
    assert_eq!(none.into_iter().prepend("-x"), "");
}

#[test]
fn join_takes_borrowed_strings() {
    let owned = vec!["a".to_string(), "b".to_string()];
    assert_eq!(owned.iter().join('/'), "a/b");
    let slices = ["x", "y", "z"];
    assert_eq!(slices.iter().join('-'), "x-y-z");
    assert_eq!(owned.iter().prepend("+"), "+a+b");
}
