use newtype_bindgen::text::{join_strings, lines, prefix_each_line, repeat_str, starts_with};

fn std_lines(s: &str) -> Vec<String> {
    s.lines().map(|l| l.to_string()).collect()
}

#[test]
fn lines_agree_with_std() {
    for s in ["", "a", "a\n", "a\nb", "a\r\nb\r\n", "\n", "\n\n", "a\r", "a\r\n\rb\r", "\r\n", "x\n\r\ny"] {
        assert_eq!(lines(s), std_lines(s));
    }
}

#[test]
fn join_places_separator_between_parts() {
    let parts = vec!["a".to_string(), "b".to_string(), "c".to_string()];
    assert_eq!(join_strings(&parts, ", "), "a, b, c");
    assert_eq!(join_strings(&Vec::new(), ", "), "");
    assert_eq!(join_strings(&vec!["a".to_string()], ", "), "a");
}

#[test]
fn repeat_and_prefix() {
    assert_eq!(repeat_str("\t", 3), "\t\t\t");
    assert_eq!(repeat_str("ab", 0), "");
    assert_eq!(prefix_each_line("one\ntwo", "//"), "\n//one\n//two");
    assert_eq!(prefix_each_line("", "//"), "");
    assert!(starts_with("LuaVec3", "Lua"));
    assert!(!starts_with("Lu", "Lua"));
    assert!(!starts_with("luaVec3", "Lua"));
}
