use cs2_server::errors::CoreError;
use cs2_server::registry::Config;

#[test]
fn registry_scenario() {
    let mut config = Config::new();
    assert!(config.list_servers().is_empty());

    assert!(config
        .add_server("alpha".to_string(), "/srv/alpha".to_string())
        .is_ok());
    assert_eq!(config.get_server_path("alpha").unwrap(), "/srv/alpha");

    assert_eq!(
        config.add_server("alpha".to_string(), "/other".to_string()),
        Err(CoreError::AlreadyExists)
    );
    assert_eq!(config.get_server_path("alpha").unwrap(), "/srv/alpha");

    assert_eq!(config.list_servers(), vec!["alpha".to_string()]);
}

#[test]
fn lookup_missing_name_fails() {
    let config = Config::new();
    assert_eq!(
        config.get_server_path("beta"),
        Err(CoreError::NotFound)
    );
}

#[test]
fn list_keeps_insertion_order() {
    let mut config = Config::new();
    assert!(config.add_server("b".to_string(), "/srv/b".to_string()).is_ok());
    assert!(config.add_server("a".to_string(), "/srv/a".to_string()).is_ok());
    assert!(config.add_server("c".to_string(), "/srv/c".to_string()).is_ok());
    assert_eq!(
        config.list_servers(),
        vec!["b".to_string(), "a".to_string(), "c".to_string()]
    );
    assert_eq!(config.get_server_path("a").unwrap(), "/srv/a");
    assert_eq!(config.get_server_path("c").unwrap(), "/srv/c");
}
