use tldrx::page::Line;

#[test]
fn classify_each_kind() {
    assert_eq!(Line::from(""), Line::Blank);
    assert_eq!(Line::from("# Title"), Line::Heading("Title".to_string()));
    assert_eq!(Line::from("> desc"), Line::Blockquote("desc".to_string()));
    assert_eq!(Line::from("- bullet"), Line::Text("bullet".to_string()));
    assert_eq!(Line::from("  cmd"), Line::Code("cmd".to_string()));
    assert_eq!(Line::from("plain"), Line::Text("plain".to_string()));
}

#[test]
fn classify_strips_marker_runs() {
    assert_eq!(Line::from("## Sub"), Line::Heading("Sub".to_string()));
    assert_eq!(Line::from(">> deep quote"), Line::Blockquote("deep quote".to_string()));
    assert_eq!(Line::from("-- dashed"), Line::Text("dashed".to_string()));
    assert_eq!(Line::from("    indented cmd"), Line::Code("indented cmd".to_string()));
}

#[test]
fn classify_backtick_code_lines() {
    assert_eq!(Line::from("`git pull`"), Line::Code("git pull".to_string()));
    // Trailing whitespace goes before the backticks are stripped.
    assert_eq!(Line::from("`git push`  "), Line::Code("git push".to_string()));
    // The last character is stripped even when it is not a backtick.
    assert_eq!(Line::from("`ab"), Line::Code("a".to_string()));
}

#[test]
fn classify_lone_backtick_is_text() {
    // A line that is nothing but one backtick cannot be sliced as a
    // backtick pair; it is kept as text.
    assert_eq!(Line::from("`"), Line::Text("`".to_string()));
    assert_eq!(Line::from("`   "), Line::Text("`   ".to_string()));
}

#[test]
fn classify_strips_unicode_whitespace() {
    // The stripping rules use the full Unicode whitespace set: a no-break
    // space inside a leading run goes too.
    assert_eq!(Line::from(" \u{a0} cmd"), Line::Code("cmd".to_string()));
    assert_eq!(Line::from("-\u{a0}bullet"), Line::Text("bullet".to_string()));
    // ... and a trailing no-break space is trimmed before the backticks.
    assert_eq!(Line::from("`git pull`\u{a0}"), Line::Code("git pull".to_string()));
}

#[test]
fn classify_dispatches_on_first_character_only() {
    // A tab does not open a code line; only a space does.
    assert_eq!(Line::from("\tcmd"), Line::Text("\tcmd".to_string()));
    // Multi-byte first characters are ordinary text.
    assert_eq!(Line::from("代码"), Line::Text("代码".to_string()));
}
