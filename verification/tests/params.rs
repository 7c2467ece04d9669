use slack::params::Params;

#[test]
fn new_params_are_empty() {
    let params = Params::new();
    assert!(params.is_empty());
    assert_eq!(params.len(), 0);
    assert_eq!(params.get("count"), None);
    assert!(params.entries().is_empty());
}

#[test]
fn insert_binds_a_name() {
    let mut params = Params::new();
    assert_eq!(params.insert("count", "100".to_string()), None);
    assert!(!params.is_empty());
    assert_eq!(params.len(), 1);
    assert_eq!(params.get("count"), Some(&"100".to_string()));
    assert_eq!(params.get("page"), None);
    assert_eq!(params.get("coun"), None);
    assert_eq!(params.get("counts"), None);
}

#[test]
fn insert_replaces_and_gives_the_old_value() {
    let mut params = Params::new();
    assert_eq!(params.insert("count", "1".to_string()), None);
    assert_eq!(params.insert("page", "2".to_string()), None);
    assert_eq!(params.insert("count", "3".to_string()), Some("1".to_string()));
    assert_eq!(params.insert("count", "4".to_string()), Some("3".to_string()));
    assert_eq!(params.insert("page", "5".to_string()), Some("2".to_string()));
    assert_eq!(params.len(), 2);
    assert_eq!(params.get("count"), Some(&"4".to_string()));
    assert_eq!(params.get("page"), Some(&"5".to_string()));
}

#[test]
fn no_name_is_listed_twice() {
    let mut params = Params::new();
    for round in 0..3 {
        for name in ["a", "b", "c", "a", "", "b"] {
            params.insert(name, format!("{}{}", name, round));
        }
    }
    assert_eq!(params.len(), 4);
    let mut names: Vec<&str> = params.entries().iter().map(|e| e.0.as_str()).collect();
    names.sort();
    assert_eq!(names, vec!["", "a", "b", "c"]);
    assert_eq!(params.get("a"), Some(&"a2".to_string()));
    assert_eq!(params.get(""), Some(&"2".to_string()));
}

#[test]
fn entries_hold_what_get_finds() {
    let mut params = Params::new();
    params.insert("count", "100".to_string());
    params.insert("page", "7".to_string());
    for (name, value) in params.entries() {
        assert_eq!(params.get(name), Some(value));
    }
    assert_eq!(params.entries().len(), params.len());
}
