//! Tests for the configuration store and the persisted record format.

use typora_launcher::ConfigStore;
use typora_launcher::encode_store;
use typora_launcher::parse_store;
use typora_launcher::store_access_error;
use typora_launcher::store_save_error;

#[test]
fn get_before_set_is_absent() {
    let store = ConfigStore::new();
    assert_eq!(store.get_typora_path(), None);
}

#[test]
fn set_then_get_round_trip() {
    let mut store = ConfigStore::new();
    store.set_typora_path(String::from("/usr/bin/typora"));
    assert_eq!(store.get_typora_path(), Some(String::from("/usr/bin/typora")));
}

#[test]
fn set_windows_path_round_trip() {
    let mut store = ConfigStore::new();
    store.set_typora_path(String::from("C:\\Program Files\\Typora\\Typora.exe"));
    assert_eq!(
        store.get_typora_path(),
        Some(String::from("C:\\Program Files\\Typora\\Typora.exe"))
    );
}

#[test]
fn set_overwrites_unconditionally() {
    let mut store = ConfigStore::new();
    store.set_typora_path(String::from("/a"));
    store.set_typora_path(String::from("/b"));
    assert_eq!(store.get_typora_path(), Some(String::from("/b")));
}

#[test]
fn set_empty_string_is_stored() {
    let mut store = ConfigStore::new();
    store.set_typora_path(String::new());
    assert_eq!(store.get_typora_path(), Some(String::new()));
}

#[test]
fn storage_errors_wrap_os_text() {
    assert_eq!(
        store_access_error("permission denied"),
        "无法访问存储: permission denied"
    );
    assert_eq!(store_save_error("disk full"), "保存失败: disk full");
}

#[test]
fn encode_plain_path() {
    assert_eq!(
        encode_store("/usr/bin/typora"),
        "{\"typora_path\":\"/usr/bin/typora\"}"
    );
}

#[test]
fn encode_escapes_backslashes() {
    assert_eq!(
        encode_store("C:\\Typora\\Typora.exe"),
        "{\"typora_path\":\"C:\\\\Typora\\\\Typora.exe\"}"
    );
}

#[test]
fn encode_escapes_quotes_and_controls() {
    assert_eq!(
        encode_store("a\"b\u{1f}c"),
        "{\"typora_path\":\"a\\\"b\\u001fc\"}"
    );
}

#[test]
fn encode_empty_value() {
    assert_eq!(encode_store(""), "{\"typora_path\":\"\"}");
}

#[test]
fn parse_inverts_encode() {
    let paths = [
        "/usr/bin/typora",
        "C:\\Program Files\\Typora\\Typora.exe",
        "a\"b\\c\u{1}\u{1f}d",
        "/home/用户/应用/Typora",
        "",
    ];
    for p in paths {
        assert_eq!(parse_store(&encode_store(p)), Some(String::from(p)));
    }
}

#[test]
fn parse_accepts_simple_escapes() {
    assert_eq!(
        parse_store("{\"typora_path\":\"a\\nb\\tc\\rd\\/e\\bf\\fg\"}"),
        Some(String::from("a\nb\tc\rd/e\u{8}f\u{c}g"))
    );
}

#[test]
fn parse_accepts_unicode_escape() {
    assert_eq!(
        parse_store("{\"typora_path\":\"\\u0041\\u00e9\"}"),
        Some(String::from("A\u{e9}"))
    );
}

#[test]
fn parse_rejects_foreign_text() {
    assert_eq!(parse_store(""), None);
    assert_eq!(parse_store("{}"), None);
    assert_eq!(parse_store("{\"other_key\":\"/usr/bin/typora\"}"), None);
    assert_eq!(parse_store("not json at all, but long enough"), None);
}

#[test]
fn parse_rejects_bad_escapes() {
    assert_eq!(parse_store("{\"typora_path\":\"a\\xb\"}"), None);
    assert_eq!(parse_store("{\"typora_path\":\"ab\\\"}"), None);
    assert_eq!(parse_store("{\"typora_path\":\"\\u12\"}"), None);
    assert_eq!(parse_store("{\"typora_path\":\"\\ud800\"}"), None);
    assert_eq!(parse_store("{\"typora_path\":\"a\u{1}b\"}"), None);
}
