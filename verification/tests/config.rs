use ghn::config::{cache_file_absolute_path, sanitize_tilde_to_home, Config};

fn home() -> String {
    String::from("/home/test")
}

#[test]
fn test_get_simple_config() {
    // The configuration file names its cache file relative to itself.
    let loaded = Ok(Config { cache_file: Some(String::from("cache.yaml")), config_file: None });
    let cfg = Config::new(Some(String::from("fixtures/config/simple_config.yaml")), &home(), loaded)
        .unwrap();
    assert_eq!(cfg.cache_file.unwrap(), "fixtures/config/cache.yaml");
}

#[test]
fn test_sanitize_tilde() {
    assert_eq!(sanitize_tilde_to_home("./bla", "/home/test"), "./bla");
    assert_eq!(sanitize_tilde_to_home("~/bla", "/home/test"), "/home/test/bla");
}

#[test]
fn tilde_without_slash_is_kept() {
    assert_eq!(sanitize_tilde_to_home("~bla", "/home/test"), "~bla");
    assert_eq!(sanitize_tilde_to_home("~/", "/h"), "/h/");
}

#[test]
fn config_file_is_remembered_as_named() {
    let loaded = Ok(Config { cache_file: None, config_file: None });
    let cfg = Config::new(Some(String::from("/etc/ghn/config.yaml")), &home(), loaded).unwrap();
    assert_eq!(cfg.config_file.unwrap(), "/etc/ghn/config.yaml");
    assert_eq!(cfg.cache_file.unwrap(), "/etc/ghn/cache.yaml");
}

#[test]
fn absolute_cache_file_is_kept() {
    let loaded = Ok(Config { cache_file: Some(String::from("/var/cache/ghn.yaml")), config_file: None });
    let cfg = Config::new(Some(String::from("conf/c.yaml")), &home(), loaded).unwrap();
    assert_eq!(cfg.cache_file.unwrap(), "/var/cache/ghn.yaml");
    assert_eq!(cfg.config_file.unwrap(), "conf/c.yaml");
}

#[test]
fn unparsable_config_file_is_reported() {
    let loaded = Err(String::from("bad yaml"));
    let r = Config::new(Some(String::from("c.yaml")), &home(), loaded);
    assert_eq!(r.err().unwrap(), "unable to parse config file 'c.yaml': bad yaml");
}

#[test]
fn no_file_named_gives_defaults() {
    let ignored = Err(String::from("not read"));
    let cfg = Config::new(None, &home(), ignored).unwrap();
    assert_eq!(cfg.config_file.unwrap(), "/home/test/.config/ghn/config.yaml");
    assert_eq!(cfg.cache_file.unwrap(), "/home/test/.config/ghn/cache.yaml");
}

#[test]
fn defaults_for_home() {
    let cfg = Config::defaults("/u");
    assert_eq!(cfg.config_file.unwrap(), "/u/.config/ghn/config.yaml");
    assert_eq!(cfg.cache_file.unwrap(), "/u/.config/ghn/cache.yaml");
    assert!(Config::defaults_available("/u"));
}

#[test]
fn load_gives_new_where_defaults_resolve() {
    let r = Config::load(None, &home(), Err(String::new())).unwrap().unwrap();
    assert_eq!(r.cache_file.unwrap(), "/home/test/.config/ghn/cache.yaml");
    let r = Config::load(Some(String::from("a/b.yaml")), &home(), Err(String::from("e")));
    assert_eq!(r.unwrap().err().unwrap(), "unable to parse config file 'a/b.yaml': e");
}

#[test]
fn config_file_without_directory() {
    let r = cache_file_absolute_path(&String::from("cache.yaml"), &String::from(""));
    assert_eq!(r.err().unwrap(), "Provided config file path '' has no parent directory.");
    let loaded = Ok(Config { cache_file: Some(String::from("c.yaml")), config_file: None });
    let r = Config::new(Some(String::from("/")), &home(), loaded);
    assert_eq!(r.err().unwrap(), "Unable to get absolute cache file path for 'c.yaml'");
}

#[test]
fn relative_config_file_gives_relative_cache() {
    let r = cache_file_absolute_path(&String::from("cache.yaml"), &String::from("config.yaml"));
    assert_eq!(r.unwrap(), "cache.yaml");
    let r = cache_file_absolute_path(&String::from("/abs.yaml"), &String::from(""));
    assert_eq!(r.unwrap(), "/abs.yaml");
}

#[test]
fn cache_path_fails_only_without_parent() {
    let r = cache_file_absolute_path(&String::from("c.yaml"), &String::from("/"));
    assert_eq!(r.err().unwrap(), "Provided config file path '/' has no parent directory.");
    let r = cache_file_absolute_path(&String::from("c.yaml"), &String::from("/etc/ghn/config.yaml"));
    let p = r.unwrap();
    assert!(p.starts_with("/") && p.ends_with("c.yaml"));
    assert_eq!(p, "/etc/ghn/c.yaml");
}

#[test]
fn relative_cache_path_starts_with_config_directory() {
    let p = cache_file_absolute_path(&String::from("sub/c.yaml"), &String::from("/etc/ghn/config.yaml")).unwrap();
    assert!(p.starts_with("/etc/ghn"));
    assert!(p.ends_with("sub/c.yaml"));
}
