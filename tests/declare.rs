use cargo_mkrs::declare::{declaration_line, declare_module};

#[test]
fn declaration_lines() {
    assert_eq!(declaration_line("bar", false), "mod bar;\n");
    assert_eq!(declaration_line("bar", true), "pub mod bar;\n");
}

#[test]
fn adds_once_then_nothing() {
    for public in [false, true] {
        let mut content = String::from("mod other;\n");
        let line = declare_module(&content, "bar", public).unwrap();
        assert_eq!(line, if public { "pub mod bar;\n" } else { "mod bar;\n" });
        content.push_str(&line);
        assert_eq!(declare_module(&content, "bar", public), None);
        assert_eq!(declare_module(&content, "bar", !public), None);
    }
}

#[test]
fn existing_declarations_block_insertion() {
    assert_eq!(declare_module("// top\npub mod bar;\n", "bar", false), None);
    assert_eq!(declare_module("mod bar;", "bar", true), None);
    assert_eq!(declare_module("mod barn;\n", "bar", false), Some("mod bar;\n".to_string()));
    assert_eq!(declare_module("", "bar", false), Some("mod bar;\n".to_string()));
}
