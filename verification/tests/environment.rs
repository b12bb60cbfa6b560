use shush_rs::environment::{Environment, Variable};

fn setting(name: &str, value: &str) -> Variable {
    Variable { name: name.to_string(), value: value.to_string() }
}

#[test]
fn new_environment_binds_nothing() {
    let environment = Environment::new();
    assert_eq!(environment.get(&"PATH".to_string()), None);
    assert!(!environment.contains(&"PATH".to_string()));
    assert!(environment.into_variables().is_empty());
}

#[test]
fn set_binds_and_replaces() {
    let mut environment = Environment::new();
    environment.set("A".to_string(), "1".to_string());
    environment.set("B".to_string(), "2".to_string());
    environment.set("A".to_string(), "3".to_string());
    assert_eq!(environment.get(&"A".to_string()), Some("3".to_string()));
    assert_eq!(environment.get(&"B".to_string()), Some("2".to_string()));
    assert!(environment.contains(&"A".to_string()));
}

#[test]
fn remove_unbinds_one_name_only() {
    let mut environment =
        Environment::from_variables(vec![setting("A", "1"), setting("B", "2"), setting("A", "3")]);
    environment.remove(&"A".to_string());
    assert_eq!(environment.get(&"A".to_string()), None);
    assert_eq!(environment.get(&"B".to_string()), Some("2".to_string()));
    environment.remove(&"missing".to_string());
    assert_eq!(environment.get(&"B".to_string()), Some("2".to_string()));
}

#[test]
fn last_setting_of_a_name_counts() {
    let environment = Environment::from_variables(vec![setting("A", "1"), setting("A", "2")]);
    assert_eq!(environment.get(&"A".to_string()), Some("2".to_string()));
}

#[test]
fn names_are_case_sensitive() {
    let environment = Environment::from_variables(vec![setting("Path", "x")]);
    assert_eq!(environment.get(&"PATH".to_string()), None);
    assert_eq!(environment.get(&"Path".to_string()), Some("x".to_string()));
}

#[test]
fn into_variables_describes_the_same_environment() {
    let mut environment = Environment::from_variables(vec![setting("A", "1"), setting("B", "2")]);
    environment.remove(&"A".to_string());
    environment.set("C".to_string(), "3".to_string());
    let again = Environment::from_variables(environment.into_variables());
    assert_eq!(again.get(&"A".to_string()), None);
    assert_eq!(again.get(&"B".to_string()), Some("2".to_string()));
    assert_eq!(again.get(&"C".to_string()), Some("3".to_string()));
}
