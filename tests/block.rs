use statusbar::block::{split_command, trim, Block, BlockType, CommandType, Probe};

fn block(prefix: &str, suffix: &str) -> Block {
    Block {
        kind: BlockType::Once,
        command: CommandType::Function(Probe::CurrentTime),
        prefix: prefix.to_string(),
        suffix: suffix.to_string(),
    }
}

#[test]
fn function_fragment_decorates() {
    let b = block("<", "%");
    assert_eq!(b.function_fragment(Some("12".to_string())), Some("<12%".to_string()));
    assert_eq!(b.function_fragment(Some(" 12 ".to_string())), Some("< 12 %".to_string()));
}

#[test]
fn function_fragment_empty_is_undecorated() {
    let b = block("<", "%");
    assert_eq!(b.function_fragment(Some(String::new())), Some(String::new()));
}

#[test]
fn function_fragment_failure() {
    assert_eq!(block("<", "%").function_fragment(None), None);
}

#[test]
fn shell_fragment_trims_and_decorates() {
    let b = block("[", "]");
    assert_eq!(b.shell_fragment(true, b"  hi there\n".to_vec()), Some("[hi there]".to_string()));
    assert_eq!(b.shell_fragment(true, b"\n".to_vec()), Some(String::new()));
    assert_eq!(b.shell_fragment(true, b" \t\r\n".to_vec()), Some(String::new()));
    assert_eq!(b.shell_fragment(true, "\u{a0}x\u{3000}".as_bytes().to_vec()), Some("[x]".to_string()));
}

#[test]
fn shell_fragment_empty_and_failures() {
    let b = block("[", "]");
    assert_eq!(b.shell_fragment(true, Vec::new()), Some(String::new()));
    assert_eq!(b.shell_fragment(false, b"out".to_vec()), None);
    assert_eq!(b.shell_fragment(true, vec![0xff, 0xfe]), None);
}

#[test]
fn split_command_parts() {
    assert_eq!(split_command(&Vec::new()), None);
    let cmd = vec!["date".to_string()];
    assert_eq!(split_command(&cmd), Some(("date".to_string(), Vec::new())));
    let cmd = vec!["sh".to_string(), "-c".to_string(), "echo hi".to_string()];
    assert_eq!(
        split_command(&cmd),
        Some(("sh".to_string(), vec!["-c".to_string(), "echo hi".to_string()]))
    );
}

#[test]
fn trim_matches_std() {
    for s in [
        "",
        " ",
        "x",
        "  a b  ",
        "\t\n\u{b}\u{c}\r x \u{85}\u{a0}",
        "\u{1680}\u{2000}\u{200a}y\u{2028}\u{2029}\u{202f}\u{205f}\u{3000}",
        "\u{200b}z\u{200b}",
        "\u{180e}w",
    ] {
        assert_eq!(trim(s), s.trim());
    }
    assert_eq!(trim("  hi there\n"), "hi there");
}
