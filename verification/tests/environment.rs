use hackshell::environment::Environment;

#[test]
fn set_then_get_roundtrip() {
    let mut env = Environment::new();
    env.set_var("name", "value");
    assert_eq!(env.get_var("name"), Some("value".to_string()));
}

#[test]
fn names_are_lowercased_on_set_and_get() {
    // Setting under an upper-case spelling stores the lower-case name, and
    // lookups lower-case too, so any spelling finds it.
    let mut env = Environment::new();
    env.set_var("HOME", "/root");
    assert_eq!(env.get_var("home"), Some("/root".to_string()));
    assert_eq!(env.get_var("HOME"), Some("/root".to_string()));
    assert_eq!(env.get_var("HoMe"), Some("/root".to_string()));
}

#[test]
fn get_missing_is_none() {
    let env = Environment::new();
    assert_eq!(env.get_var("missing"), None);
}

#[test]
fn set_replaces_previous_value() {
    let mut env = Environment::new();
    env.set_var("k", "one");
    env.set_var("K", "two");
    assert_eq!(env.get_var("k"), Some("two".to_string()));
    assert_eq!(env.items().len(), 1);
}

#[test]
fn unset_removes_the_exact_name() {
    // unset does not lower-case: only the exact stored spelling is
    // removed.
    let mut env = Environment::new();
    env.set_var("Key", "v");
    env.unset_var("Key");
    assert_eq!(env.get_var("key"), Some("v".to_string()));
    env.unset_var("key");
    assert_eq!(env.get_var("key"), None);
}

#[test]
fn items_lists_every_pair() {
    let mut env = Environment::new();
    env.set_var("a", "1");
    env.set_var("b", "2");
    let mut items = env.items();
    items.sort();
    assert_eq!(items, vec![("a".to_string(), "1".to_string()), ("b".to_string(), "2".to_string())]);
}
