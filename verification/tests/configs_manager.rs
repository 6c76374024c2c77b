use pcw_backend::configs_manager::{config_files, DirEntryInfo};
use pcw_backend::configs_manager::{
    check_config_id, delete_outcome, read_outcome, ConfigMetadata, ConfigsManager, FileFailure,
    MetadataDB, ReadFailure,
};
use pcw_backend::configs_manager::{save_outcome, write_outcome, SaveFailure};
use pcw_backend::flat_configs::ConfigsManager as FlatConfigsManager;
use pcw_backend::status::Code;
use pcw_backend::str_map::StrMap;

fn manager() -> ConfigsManager {
    ConfigsManager::new("/var/lib/pcw/configs".to_string(), "/var/lib/pcw/meta.json".to_string(), None)
}

#[test]
fn config_ids_are_single_names() {
    assert!(check_config_id("office.json").is_ok());
    assert!(check_config_id("trailing/").is_ok());
    for bad in ["", ".", "..", "a/b", "/etc/passwd", "../x", "./a"] {
        let e = check_config_id(bad).unwrap_err();
        assert_eq!(e.code, Code::InvalidArgument);
        assert_eq!(e.message, "Invalid config id");
    }
}

#[test]
fn edit_records_core_tag_and_reports_changes() {
    let mut m = manager();
    assert!(m.get_metadata("a").is_none());
    assert_eq!(m.edit("a", "sing-box").unwrap(), true);
    assert_eq!(m.get_metadata("a").unwrap().core_tag, "sing-box");
    assert_eq!(m.edit("a", "sing-box").unwrap(), false);
    assert_eq!(m.edit("a", "xray-core").unwrap(), true);
    assert_eq!(m.get_metadata("a").unwrap().core_tag, "xray-core");
    assert_eq!(m.edit("b", "").unwrap(), true);
    assert_eq!(m.get_metadata("b").unwrap().core_tag, "");
    assert_eq!(m.get_metadata("a").unwrap().core_tag, "xray-core");
}

#[test]
fn edit_refuses_bad_ids_without_changes() {
    let mut m = manager();
    let e = m.edit("../escape", "sing-box").unwrap_err();
    assert_eq!(e.code, Code::InvalidArgument);
    assert_eq!(e.message, "Invalid config id");
    assert!(m.get_metadata("../escape").is_none());
    assert_eq!(m.edit_target("a/b").unwrap_err().code, Code::InvalidArgument);
    assert_eq!(m.edit_target("a").unwrap(), "/var/lib/pcw/configs/a");
}

#[test]
fn delete_forgets_metadata() {
    let mut m = manager();
    m.edit("a", "sing-box").unwrap();
    m.edit("b", "xray-core").unwrap();
    m.delete("a");
    assert!(m.get_metadata("a").is_none());
    assert_eq!(m.get_metadata("b").unwrap().core_tag, "xray-core");
    m.delete("missing");
    assert_eq!(m.get_metadata("b").unwrap().core_tag, "xray-core");
}

#[test]
fn list_reports_core_tags() {
    let mut m = manager();
    m.edit("a", "sing-box").unwrap();
    let entries = m.list(Some(vec!["b".to_string(), "a".to_string()])).unwrap();
    assert_eq!(entries.len(), 2);
    assert_eq!(entries[0].config_id, "b");
    assert_eq!(entries[0].core_tag, "");
    assert_eq!(entries[1].config_id, "a");
    assert_eq!(entries[1].core_tag, "sing-box");
    let e = m.list(None).unwrap_err();
    assert_eq!(e.code, Code::Internal);
    assert_eq!(e.message, "Backend storage directory is inaccessible");
}

#[test]
fn new_uses_stored_metadata() {
    let mut meta = StrMap::new();
    meta.insert("x".to_string(), ConfigMetadata { core_tag: "xray-core".to_string() });
    let m = ConfigsManager::new("/d".to_string(), "/m.json".to_string(), Some(MetadataDB { configs_meta: meta }));
    assert_eq!(m.get_metadata("x").unwrap().core_tag, "xray-core");
    assert_eq!(m.configs_directory(), "/d");
    assert_eq!(m.metadata_path(), "/m.json");
    assert_eq!(m.metadata().configs_meta.len(), 1);
    let empty = manager();
    assert_eq!(empty.metadata().configs_meta.len(), 0);
    assert_eq!(MetadataDB::default().configs_meta.len(), 0);
}

#[test]
fn read_and_delete_failures() {
    assert_eq!(read_outcome(Ok("{}".to_string())).unwrap(), "{}");
    let e = read_outcome(Err(ReadFailure::Open(FileFailure::NotFound))).unwrap_err();
    assert_eq!((e.code, e.message.as_str()), (Code::NotFound, "Config not found"));
    for f in [
        ReadFailure::Open(FileFailure::Other),
        ReadFailure::Open(FileFailure::InvalidData),
        ReadFailure::Read(FileFailure::InvalidData),
        ReadFailure::Read(FileFailure::NotFound),
    ] {
        let e = read_outcome(Err(f)).unwrap_err();
        assert_eq!((e.code, e.message.as_str()), (Code::Internal, "Config reading error"));
    }
    assert!(delete_outcome(Ok(())).is_ok());
    let e = delete_outcome(Err(FileFailure::NotFound)).unwrap_err();
    assert_eq!((e.code, e.message.as_str()), (Code::NotFound, "Config not found"));
    let e = delete_outcome(Err(FileFailure::Other)).unwrap_err();
    assert_eq!((e.code, e.message.as_str()), (Code::Internal, "Config deletion error"));
}

#[test]
fn get_path_needs_a_regular_file() {
    let m = ConfigsManager::new("/etc".to_string(), "/tmp/m.json".to_string(), None);
    assert_eq!(m.get_path("passwd"), Some("/etc/passwd".to_string()));
    assert_eq!(m.get_path("no-such-config-here"), None);
    let root = ConfigsManager::new("/".to_string(), "/tmp/m.json".to_string(), None);
    assert_eq!(root.get_path("etc"), None);
    assert_eq!(m.config_path("x.json"), "/etc/x.json");
}

#[test]
fn flat_manager_paths() {
    let m = FlatConfigsManager::new("/etc".to_string());
    assert_eq!(m.get_path("passwd"), Some("/etc/passwd".to_string()));
    assert_eq!(m.get_path("absent-config"), None);
    assert_eq!(m.config_path("c"), "/etc/c");
    assert_eq!(m.directory_path(), "/etc");
}

#[test]
fn write_and_save_failures() {
    assert!(write_outcome(Ok(())).is_ok());
    let e = write_outcome(Err(FileFailure::Other)).unwrap_err();
    assert_eq!((e.code, e.message.as_str()), (Code::Internal, "Config editing error"));
    assert!(save_outcome(Ok(())).is_ok());
    let e = save_outcome(Err(SaveFailure::Open)).unwrap_err();
    assert_eq!((e.code, e.message.as_str()), (Code::Internal, "Metadata file opening error"));
    let e = save_outcome(Err(SaveFailure::Write)).unwrap_err();
    assert_eq!((e.code, e.message.as_str()), (Code::Internal, "Metadata saving error"));
}

#[test]
fn get_path_given_the_file_check() {
    let m = manager();
    assert_eq!(m.get_path_when("a.json", true), Some("/var/lib/pcw/configs/a.json".to_string()));
    assert_eq!(m.get_path_when("a.json", false), None);
    let f = FlatConfigsManager::new("/d".to_string());
    assert_eq!(f.get_path_when("c", true), Some("/d/c".to_string()));
    assert_eq!(f.get_path_when("c", false), None);
}

#[test]
fn config_files_keep_regular_utf8_files() {
    let entries = vec![
        DirEntryInfo { name: Some("b.json".to_string()), is_file: Some(true) },
        DirEntryInfo { name: Some("subdir".to_string()), is_file: Some(false) },
        DirEntryInfo { name: None, is_file: Some(true) },
        DirEntryInfo { name: Some("unknown".to_string()), is_file: None },
        DirEntryInfo { name: Some("a.json".to_string()), is_file: Some(true) },
    ];
    assert_eq!(config_files(entries), vec!["b.json".to_string(), "a.json".to_string()]);
    assert!(config_files(vec![]).is_empty());
}

#[test]
fn edit_after_write() {
    let mut m = manager();
    let e = m.edit_written("a", "sing-box", Err(FileFailure::Other)).unwrap_err();
    assert_eq!((e.code, e.message.as_str()), (Code::Internal, "Config editing error"));
    assert!(m.get_metadata("a").is_none());
    assert_eq!(m.edit_written("a", "sing-box", Ok(())).unwrap(), true);
    assert_eq!(m.get_metadata("a").unwrap().core_tag, "sing-box");
    assert_eq!(m.edit_written("a", "sing-box", Ok(())).unwrap(), false);
    let e = m.edit_written("a/b", "x", Ok(())).unwrap_err();
    assert_eq!(e.code, Code::InvalidArgument);
}

#[test]
fn edited_file_sits_in_the_directory() {
    let m = manager();
    for id in ["a.json", "trailing/", "x/."] {
        let path = m.edit_target(id).unwrap();
        let p = std::path::Path::new(&path);
        assert_eq!(p.parent(), Some(std::path::Path::new("/var/lib/pcw/configs")));
        assert_eq!(p.file_name(), std::path::Path::new(id).file_name());
    }
    assert_eq!(m.get_path_when("a.json", true), Some(m.edit_target("a.json").unwrap()));
}
