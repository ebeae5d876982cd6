use tag_manager::edit::{apply_edit, first_value, remove_key, EditPolicy};

fn entry(k: &str, v: &str) -> (String, String) {
    (k.to_string(), v.to_string())
}

#[test]
fn replace_removes_every_earlier_entry() {
    let e = vec![entry("a", "1"), entry("b", "2"), entry("a", "3")];
    let r = apply_edit(&e, &"a".to_string(), &"9".to_string(), EditPolicy::Replace);
    assert_eq!(r, vec![entry("b", "2"), entry("a", "9")]);
}

#[test]
fn replace_twice_keeps_one_entry() {
    let e = vec![entry("x", "0"), entry("Author", "Old")];
    let k = "Author".to_string();
    let v = "Alice".to_string();
    let once = apply_edit(&e, &k, &v, EditPolicy::Replace);
    let twice = apply_edit(&once, &k, &v, EditPolicy::Replace);
    assert_eq!(once, twice);
    assert_eq!(twice.iter().filter(|p| p.0 == "Author").count(), 1);
}

#[test]
fn append_joins_with_first_entry() {
    let e = vec![entry("a", "1"), entry("b", "2"), entry("a", "3")];
    let r = apply_edit(&e, &"a".to_string(), &"9".to_string(), EditPolicy::Append);
    assert_eq!(r, vec![entry("a", "1; 9"), entry("b", "2"), entry("a", "3")]);
}

#[test]
fn append_adds_missing_key() {
    let e = vec![entry("a", "1")];
    let r = apply_edit(&e, &"c".to_string(), &"x".to_string(), EditPolicy::Append);
    assert_eq!(r, vec![entry("a", "1"), entry("c", "x")]);
    let empty: Vec<(String, String)> = vec![];
    let r2 = apply_edit(&empty, &"c".to_string(), &"x".to_string(), EditPolicy::Replace);
    assert_eq!(r2, vec![entry("c", "x")]);
}

#[test]
fn remove_key_keeps_order() {
    let e = vec![entry("a", "1"), entry("b", "2"), entry("a", "3"), entry("c", "4")];
    assert_eq!(remove_key(&e, &"a".to_string()), vec![entry("b", "2"), entry("c", "4")]);
}

#[test]
fn first_value_finds_earliest_entry() {
    let e = vec![entry("a", "1"), entry("b", "2"), entry("a", "3")];
    assert_eq!(first_value(&e, &"a".to_string()), Some("1".to_string()));
    assert_eq!(first_value(&e, &"b".to_string()), Some("2".to_string()));
    assert_eq!(first_value(&e, &"z".to_string()), None);
}
