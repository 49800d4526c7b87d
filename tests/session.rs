use cargo_mkrs::locate::RootPresence;
use cargo_mkrs::populate::DirEntry;
use cargo_mkrs::session::{run, Action, Event, Session, Stage};
use cargo_mkrs::target::MkError;

fn strings(v: &[&str]) -> Vec<String> {
    v.iter().map(|s| s.to_string()).collect()
}

fn session(target: &str, public: bool) -> Session {
    Session::new(strings(&["w"]), target.to_string(), public, "// header\n".to_string())
}

const ONLY_MOD: RootPresence = RootPresence { mod_rs: true, lib_rs: false, main_rs: false };

#[test]
fn new_module_declared_in_empty_parent() {
    let mut s = session("foo::bar", false);
    assert!(matches!(run(&mut s, Event::Start), Action::CreateDirs(d) if d == strings(&["w", "foo"])));
    assert!(matches!(run(&mut s, Event::Completed), Action::ProbeRoots(d) if d == strings(&["w", "foo"])));
    assert!(matches!(run(&mut s, Event::Probed(ONLY_MOD)), Action::ReadFile(f) if f == strings(&["w", "foo", "mod.rs"])));
    match run(&mut s, Event::ParentText(String::new())) {
        Action::AppendFile(f, line) => {
            assert_eq!(f, strings(&["w", "foo", "mod.rs"]));
            assert_eq!(line, "mod bar;\n");
        }
        _ => panic!("expected an append to the parent"),
    }
    match run(&mut s, Event::Completed) {
        Action::CreateFile(f, text) => {
            assert_eq!(f, strings(&["w", "foo", "bar.rs"]));
            assert_eq!(text, "// header\n");
        }
        _ => panic!("expected the module file"),
    }
    assert!(matches!(run(&mut s, Event::Completed), Action::Finish));
    assert_eq!(s.stage, Stage::Finished);
}

#[test]
fn second_run_leaves_parent_alone() {
    let mut s = session("foo::bar", true);
    run(&mut s, Event::Start);
    run(&mut s, Event::Completed);
    run(&mut s, Event::Probed(ONLY_MOD));
    let text = "pub mod bar;\n".to_string();
    assert!(matches!(run(&mut s, Event::ParentText(text)), Action::CreateFile(..)));
}

#[test]
fn folder_root_populated_with_siblings() {
    let mut s = session("foo/mod", false);
    run(&mut s, Event::Start);
    assert!(matches!(run(&mut s, Event::Completed), Action::ProbeRoots(d) if d == strings(&["w"])));
    let none = RootPresence { mod_rs: false, lib_rs: false, main_rs: false };
    match run(&mut s, Event::Probed(none)) {
        Action::CreateFile(f, text) => {
            assert_eq!(f, strings(&["w", "foo", "mod.rs"]));
            assert_eq!(text, "// header\n");
        }
        _ => panic!("expected the module file"),
    }
    assert!(matches!(run(&mut s, Event::Completed), Action::ListDir(d) if d == strings(&["w", "foo"])));
    let entries = vec![
        DirEntry { name: "a.rs".to_string(), is_dir: false, has_mod_root: false },
        DirEntry { name: "b.rs".to_string(), is_dir: false, has_mod_root: false },
        DirEntry { name: "c".to_string(), is_dir: true, has_mod_root: true },
        DirEntry { name: "mod.rs".to_string(), is_dir: false, has_mod_root: false },
    ];
    match run(&mut s, Event::Listed(entries)) {
        Action::AppendFile(f, text) => {
            assert_eq!(f, strings(&["w", "foo", "mod.rs"]));
            assert_eq!(text, "mod a;\nmod b;\nmod c;\n");
        }
        _ => panic!("expected the declarations"),
    }
    assert!(matches!(run(&mut s, Event::Completed), Action::Finish));
}

#[test]
fn unnested_root_touches_no_parent() {
    let mut s = session("lib", false);
    run(&mut s, Event::Start);
    assert!(matches!(run(&mut s, Event::Completed), Action::CreateFile(f, _) if f == strings(&["w", "lib.rs"])));
    assert!(matches!(run(&mut s, Event::Completed), Action::ListDir(_)));
}

#[test]
fn failures() {
    let mut s = session("foo/", false);
    assert!(matches!(run(&mut s, Event::Start), Action::Fail(MkError::InvalidTarget)));
    let mut s = session("foo", false);
    assert!(matches!(run(&mut s, Event::Completed), Action::Fail(MkError::UnexpectedEvent)));
    assert_eq!(s.stage, Stage::Failed);
}

#[test]
fn absolute_target_is_created_at_its_path() {
    let mut s = session("/x/y", false);
    assert!(matches!(run(&mut s, Event::Start), Action::CreateDirs(d) if d == strings(&["x"])));
    assert!(matches!(run(&mut s, Event::Completed), Action::ProbeRoots(d) if d == strings(&["x"])));
    let none = RootPresence { mod_rs: false, lib_rs: false, main_rs: false };
    assert!(matches!(run(&mut s, Event::Probed(none)), Action::CreateFile(f, _) if f == strings(&["x", "y.rs"])));
}
