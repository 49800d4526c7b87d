use cargo_mkrs::target::{extract_module_name, resolve_target, split_target, MkError};
use cargo_mkrs::text::file_stem;

fn strings(v: &[&str]) -> Vec<String> {
    v.iter().map(|s| s.to_string()).collect()
}

#[test]
fn split_on_both_separators() {
    assert_eq!(split_target("foo::bar/baz"), strings(&["foo", "bar", "baz"]));
    assert_eq!(split_target("a:::b"), strings(&["a", ":b"]));
    assert_eq!(split_target(""), strings(&[""]));
    assert_eq!(split_target("foo/"), strings(&["foo", ""]));
}

#[test]
fn stem_of_names() {
    assert_eq!(file_stem("bar.rs"), "bar");
    assert_eq!(file_stem("a.b.c"), "a.b");
    assert_eq!(file_stem(".hidden"), ".hidden");
    assert_eq!(file_stem("plain"), "plain");
}

#[test]
fn module_name_is_stem() {
    assert_eq!(extract_module_name("bar.rs"), Ok("bar".to_string()));
    assert_eq!(extract_module_name("bar"), Ok("bar".to_string()));
}

#[test]
fn invalid_final_components() {
    assert_eq!(extract_module_name(""), Err(MkError::InvalidTarget));
    assert_eq!(extract_module_name("."), Err(MkError::InvalidTarget));
    assert_eq!(extract_module_name(".."), Err(MkError::InvalidTarget));
    let cwd = strings(&["home", "u"]);
    assert!(matches!(resolve_target(&cwd, ""), Err(MkError::InvalidTarget)));
    assert!(matches!(resolve_target(&cwd, "foo/"), Err(MkError::InvalidTarget)));
    assert!(matches!(resolve_target(&cwd, "foo::"), Err(MkError::InvalidTarget)));
}

#[test]
fn resolve_joins_working_directory() {
    let cwd = strings(&["home", "u", "src"]);
    let t = resolve_target(&cwd, "foo::bar::baz").unwrap();
    assert_eq!(t.dir, strings(&["home", "u", "src", "foo", "bar"]));
    assert_eq!(t.name, "baz");
    let t = resolve_target(&cwd, "foo//./bar.rs").unwrap();
    assert_eq!(t.dir, strings(&["home", "u", "src", "foo"]));
    assert_eq!(t.name, "bar");
}

#[test]
fn absolute_target_replaces_working_directory() {
    let cwd = strings(&["w"]);
    let t = resolve_target(&cwd, "/x/y").unwrap();
    assert_eq!(t.dir, strings(&["x"]));
    assert_eq!(t.name, "y");
    let t = resolve_target(&cwd, "::x::y").unwrap();
    assert_eq!(t.dir, strings(&["x"]));
    assert_eq!(t.name, "y");
    let t = resolve_target(&cwd, "/y").unwrap();
    assert_eq!(t.dir, Vec::<String>::new());
    assert_eq!(t.name, "y");
    let t = resolve_target(&cwd, "x/y").unwrap();
    assert_eq!(t.dir, strings(&["w", "x"]));
}
