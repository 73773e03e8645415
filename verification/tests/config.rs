use groot::config::StoreConfig;

fn pairs(p: &[(&str, &str)]) -> Vec<(String, String)> {
    p.iter().map(|(k, v)| (k.to_string(), v.to_string())).collect()
}

#[test]
fn engine_is_rocksdb() {
    let c = StoreConfig::new(Vec::new());
    assert_eq!(c.engine(), "rocksdb");
    assert!(c.options().is_empty());
}

#[test]
fn options_are_looked_up_by_key() {
    let c = StoreConfig::new(pairs(&[("store.data.path", "/data/groot"), ("a", "1")]));
    assert_eq!(c.storage_option("a"), Some("1".to_string()));
    assert_eq!(c.storage_option("b"), None);
    assert_eq!(c.data_path(), Some("/data/groot".to_string()));
    assert_eq!(c.log_config_file(), None);
}

#[test]
fn later_option_overrides_earlier() {
    let c = StoreConfig::new(pairs(&[("k", "old"), ("x", "y"), ("k", "new")]));
    assert_eq!(c.storage_option("k"), Some("new".to_string()));
}

#[test]
fn log_config_file_is_found() {
    let c = StoreConfig::new(pairs(&[("log4rs.config", "/etc/log4rs.yml")]));
    assert_eq!(c.log_config_file(), Some("/etc/log4rs.yml".to_string()));
    assert_eq!(c.data_path(), None);
}
