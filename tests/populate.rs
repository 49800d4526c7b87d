use cargo_mkrs::populate::{entry_module_name, populate_root_module, DirEntry};

fn file(name: &str) -> DirEntry {
    DirEntry { name: name.to_string(), is_dir: false, has_mod_root: false }
}

fn dir(name: &str, has_mod_root: bool) -> DirEntry {
    DirEntry { name: name.to_string(), is_dir: true, has_mod_root }
}

#[test]
fn siblings_of_new_root() {
    let entries = vec![file("a.rs"), file("b.rs"), dir("c", true), file("mod.rs")];
    assert_eq!(populate_root_module(&entries, false), "mod a;\nmod b;\nmod c;\n");
    assert_eq!(populate_root_module(&entries, true), "pub mod a;\npub mod b;\npub mod c;\n");
}

#[test]
fn ineligible_entries_are_left_out() {
    let entries = vec![
        file("lib.rs"),
        file("main.rs"),
        file("notes.txt"),
        file("rs"),
        file(".rs"),
        dir("empty", false),
        dir("x.rs", false),
        dir("mod", true),
        file("z.rs"),
    ];
    assert_eq!(populate_root_module(&entries, false), "mod z;\n");
    assert_eq!(populate_root_module(&Vec::new(), false), "");
}

#[test]
fn entry_names() {
    assert_eq!(entry_module_name(&file("a.rs")), Some("a".to_string()));
    assert_eq!(entry_module_name(&dir("c", true)), Some("c".to_string()));
    assert_eq!(entry_module_name(&file("a.rsx")), None);
    assert_eq!(entry_module_name(&file("main.rs")), None);
}
