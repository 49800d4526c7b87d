use cargo_mkrs::locate::{find_parent, search_dir, RootPresence};
use cargo_mkrs::roots::{is_root_name, RootName};
use cargo_mkrs::target::ResolvedTarget;

fn strings(v: &[&str]) -> Vec<String> {
    v.iter().map(|s| s.to_string()).collect()
}

fn target(dir: &[&str], name: &str) -> ResolvedTarget {
    ResolvedTarget { dir: strings(dir), name: name.to_string() }
}

const ALL: RootPresence = RootPresence { mod_rs: true, lib_rs: true, main_rs: true };

#[test]
fn ordinary_module_searches_parent() {
    let t = target(&["p", "foo"], "bar");
    assert_eq!(search_dir(&t), Some(strings(&["p", "foo"])));
    assert_eq!(find_parent(&t, ALL), Some(strings(&["p", "foo", "mod.rs"])));
    let only_main = RootPresence { mod_rs: false, lib_rs: false, main_rs: true };
    assert_eq!(find_parent(&t, only_main), Some(strings(&["p", "foo", "main.rs"])));
    let lib_main = RootPresence { mod_rs: false, lib_rs: true, main_rs: true };
    assert_eq!(find_parent(&t, lib_main), Some(strings(&["p", "foo", "lib.rs"])));
    let none = RootPresence { mod_rs: false, lib_rs: false, main_rs: false };
    assert_eq!(find_parent(&t, none), None);
}

#[test]
fn folder_root_searches_grandparent() {
    let t = target(&["p", "foo"], "mod");
    assert_eq!(search_dir(&t), Some(strings(&["p"])));
    assert_eq!(find_parent(&t, ALL), Some(strings(&["p", "mod.rs"])));
    let at_top = target(&[], "mod");
    assert_eq!(search_dir(&at_top), None);
    assert_eq!(find_parent(&at_top, ALL), None);
}

#[test]
fn unnested_roots_have_no_parent() {
    for name in ["lib", "main"] {
        let t = target(&["p", "foo"], name);
        assert_eq!(search_dir(&t), None);
        assert_eq!(find_parent(&t, ALL), None);
    }
}

#[test]
fn root_names() {
    assert_eq!(RootName::Mod.file_name(), "mod.rs");
    assert_eq!(RootName::Lib.file_name(), "lib.rs");
    assert_eq!(RootName::Main.file_name(), "main.rs");
    assert!(is_root_name("mod") && is_root_name("lib") && is_root_name("main"));
    assert!(!is_root_name("model") && !is_root_name("mai"));
}
