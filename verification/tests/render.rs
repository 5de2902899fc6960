use tldrx::config::StyledChoice;
use tldrx::error::TldrError;
use tldrx::page::{Kind, Line, Page};
use tldrx::platform::Platform;
use tldrx::render::parse_lines;
use tldrx::{joined_command, not_found_message};

fn raw(lines: Vec<&str>) -> Vec<String> {
    lines.into_iter().map(|s| s.to_string()).collect()
}

fn page(kind: Kind, platform: Platform, styled: StyledChoice) -> Page {
    Page { file: "/tmp/x.md".to_string(), kind, platform, styled }
}

#[test]
fn parse_drops_title_line() {
    let lines = parse_lines(&raw(vec!["# tar", "> Archiving utility."])).unwrap();
    assert_eq!(lines, vec![Line::Blockquote("Archiving utility.".to_string())]);
}

#[test]
fn parse_drops_legacy_underline() {
    let lines = parse_lines(&raw(vec!["tar", "===", "> d", "- b"])).unwrap();
    assert_eq!(
        lines,
        vec![Line::Blockquote("d".to_string()), Line::Text("b".to_string())]
    );
}

#[test]
fn parse_empty_file_is_refused() {
    assert_eq!(parse_lines(&raw(vec![])), Err(TldrError::EmptyPage));
}

#[test]
fn parse_lone_legacy_title() {
    let lines = parse_lines(&raw(vec!["tar"])).unwrap();
    assert_eq!(lines, vec![]);
}

#[test]
fn render_plain_exact_output() {
    let p = page(Kind::Official, Platform::Linux, StyledChoice::Off);
    let out = p
        .render(
            &raw(vec![
                "# tar",
                "",
                "> Archiving utility.",
                "- Extract:",
                "",
                "`tar xf {{file}}`",
            ]),
            true,
        )
        .unwrap();
    assert_eq!(
        out,
        "  : official :: linux :\n\n  Archiving utility.\n  Extract:\n\n    tar xf {{file}}\n\n"
    );
}

#[test]
fn render_private_plain_banner() {
    let p = page(Kind::Private, Platform::Osx, StyledChoice::Off);
    let out = p.render(&raw(vec!["# x", "text"]), false).unwrap();
    assert_eq!(out, "  : private :: osx :\n  text\n\n");
}

#[test]
fn render_empty_page_fails() {
    let p = page(Kind::Official, Platform::Linux, StyledChoice::Off);
    assert_eq!(p.render(&raw(vec![]), false), Err(TldrError::EmptyPage));
}

#[test]
fn auto_styling_follows_the_terminal() {
    let p = page(Kind::Official, Platform::Linux, StyledChoice::Auto);
    let plain = p.render(&raw(vec!["# t", "text"]), false).unwrap();
    assert_eq!(plain, "  : official :: linux :\n  text\n\n");
    let styled = p.render(&raw(vec!["# t", "text"]), true).unwrap();
    assert_ne!(styled, plain);
}

#[test]
fn styled_output_carries_the_page_text_in_order() {
    let p = page(Kind::Official, Platform::Linux, StyledChoice::On);
    let out = p
        .render(&raw(vec!["# tar", "> Desc.", "`tar xf {{file}}`"]), false)
        .unwrap();
    // Styling wraps the text but never changes it: every piece appears,
    // in render order.
    let banner = format!("{} : official :: linux : {}", "-".repeat(27), "-".repeat(28));
    let b = out.find(&banner).unwrap();
    let d = out.find("Desc.").unwrap();
    let c = out.find("tar xf ").unwrap();
    let f = out.find("file").unwrap();
    assert!(b < d && d < c && c < f);
    // The styled rendering is more than the bare text.
    assert!(out.contains('\u{1b}'));
}

#[test]
fn styled_output_differs_by_kind() {
    let official = page(Kind::Official, Platform::Linux, StyledChoice::On)
        .render(&raw(vec!["# t", "x"]), false)
        .unwrap();
    let private = page(Kind::Private, Platform::Linux, StyledChoice::On)
        .render(&raw(vec!["# t", "x"]), false)
        .unwrap();
    assert_ne!(official, private);
}

#[test]
fn joined_command_words() {
    assert_eq!(joined_command(&raw(vec!["git", "merge"])), "git-merge");
    assert_eq!(joined_command(&raw(vec!["tar"])), "tar");
    assert_eq!(joined_command(&raw(vec![])), "");
}

#[test]
fn not_found_message_names_the_command() {
    assert_eq!(
        not_found_message("git-merge", "tldrx"),
        "404: git-merge\n\nTry:\n  * tldrx -u\n  * tldrx -e git-merge\n  * \
         https://github.com/tldr-pages/tldr/issues/new?title=page%20request:%20git-merge"
    );
}
