use pcw_backend::config::{get_or_panic, read, Config, ConfigError, ConfigStore, Server};
use pcw_backend::str_map::StrMap;

#[test]
fn str_map_insert_get_remove() {
    let mut m: StrMap<u32> = StrMap::new();
    assert_eq!(m.len(), 0);
    assert_eq!(m.insert("b".to_string(), 2), None);
    assert_eq!(m.insert("a".to_string(), 1), None);
    assert_eq!(m.insert("c".to_string(), 3), None);
    assert_eq!(m.insert("b".to_string(), 20), Some(2));
    assert_eq!(m.len(), 3);
    assert_eq!(m.get("b"), Some(&20));
    assert_eq!(m.get("zz"), None);
    assert!(m.contains_key("a"));
    assert_eq!(m.remove("a"), Some(1));
    assert_eq!(m.remove("a"), None);
    assert!(!m.contains_key("a"));
    assert_eq!(m.len(), 2);
}

#[test]
fn str_map_keeps_keys_in_order() {
    let mut m: StrMap<usize> = StrMap::new();
    let keys = ["xray-core", "sing-box", "b", "a", "ab", ""];
    for (i, k) in keys.iter().enumerate() {
        m.insert(k.to_string(), i);
    }
    let mut sorted: Vec<&str> = keys.to_vec();
    sorted.sort();
    let got: Vec<String> = (0..m.len()).map(|i| m.key_at(i).clone()).collect();
    assert_eq!(got, sorted.iter().map(|s| s.to_string()).collect::<Vec<_>>());
    assert_eq!(*m.value_at(0), 5);
}

#[test]
fn default_config_cores() {
    let c = Config::default();
    assert_eq!(c.cores.len(), 2);
    assert_eq!(
        c.cores.get("sing-box").unwrap(),
        &vec!["sing-box".to_string(), "run".to_string(), "-c".to_string(), "%c".to_string()]
    );
    assert_eq!(c.cores.get("xray-core").unwrap(), &vec!["xray".to_string(), "run".to_string()]);
    assert_eq!(c.server.uds_path, "/run/PCW/backend/socket");
    assert_eq!(Server::default().uds_path, "/run/PCW/backend/socket");
}

#[test]
fn config_is_read_once() {
    let mut store = ConfigStore::new();
    assert!(store.get().is_none());
    let mut first = Config::default();
    first.server.uds_path = "/tmp/first.sock".to_string();
    let got = read(&mut store, first).unwrap();
    assert_eq!(got.server.uds_path, "/tmp/first.sock");
    let mut second = Config::default();
    second.server.uds_path = "/tmp/second.sock".to_string();
    assert_eq!(read(&mut store, second).err(), Some(ConfigError::AlreadyRead));
    assert_eq!(get_or_panic(&store).server.uds_path, "/tmp/first.sock");
    assert_eq!(store.get().unwrap().server.uds_path, "/tmp/first.sock");
}
