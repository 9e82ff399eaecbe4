use mackey::text::{has_line, starts_with, str_eq, trimmed_eq, white_space};

/// The whitespace set matches the `White_Space` property that
/// `char::is_whitespace` (and so `str::trim`) uses.
#[test]
fn white_space_matches_std() {
    for u in 0u32..=0x10FFFF {
        if let Some(c) = char::from_u32(u) {
            assert_eq!(white_space(c), c.is_whitespace(), "U+{u:04X}");
        }
    }
}

#[test]
fn trimmed_eq_matches_str_trim() {
    for s in ["active", " active", "active\n", "\t active \r\n", "act ive", "", "  ", "activex"] {
        assert_eq!(trimmed_eq(s, "active"), s.trim() == "active", "{s:?}");
    }
}

#[test]
fn has_line_matches_lines_and_trim() {
    let outputs = [
        "",
        "\n",
        "a\nb\n",
        "x@y\nmackey@mackey.app",
        "mackey@mackey.app\n",
        " mackey@mackey.app \r\n",
        "not-mackey@mackey.app.evil",
        "mackey@mackey.app\nmackey@mackey.app",
        "\n\nmackey@mackey.app\n\n",
    ];
    for s in outputs {
        let expected = s.lines().any(|line| line.trim() == "mackey@mackey.app");
        assert_eq!(has_line(s, "mackey@mackey.app"), expected, "{s:?}");
    }
}

#[test]
fn str_helpers() {
    assert!(str_eq("ab", "ab"));
    assert!(!str_eq("ab", "abc"));
    assert!(!str_eq("ab", "ba"));
    assert!(str_eq("", ""));
    assert!(starts_with("event3", "event"));
    assert!(!starts_with("ev", "event"));
    assert!(starts_with("é1", "é"));
}
