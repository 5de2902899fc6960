use tldrx::page::parse_code;
use tldrx::page::Segment;

fn normal(s: &str) -> Segment {
    Segment::Normal(s.to_string())
}

fn token(s: &str) -> Segment {
    Segment::Token(s.to_string())
}

#[test]
fn test_parse_code_general() {
    assert_eq!(
        parse_code("git -c '{{config.key}}={{value}}' {{subcommand}}"),
        vec![
            normal("git -c '"),
            token("config.key"),
            normal("="),
            token("value"),
            normal("' "),
            token("subcommand"),
        ]
    );

    assert_eq!(parse_code("git pull"), vec![normal("git pull")]);
}

#[test]
fn test_parse_code_curly_brackets() {
    assert_eq!(
        parse_code("git commit -m {{{{message}}}}"),
        vec![normal("git commit -m "), token("{{message}}")]
    );

    assert_eq!(
        parse_code("git commit -m {{{message}}}"),
        vec![normal("git commit -m "), token("{message}")]
    );

    assert_eq!(
        parse_code("git commit -m {{message"),
        vec![normal("git commit -m "), normal("{{message")]
    );

    assert_eq!(
        parse_code("git commit -m message}}"),
        vec![normal("git commit -m message}}")]
    );

    assert_eq!(
        parse_code("git commit -m {message}"),
        vec![normal("git commit -m {message}")]
    );
}

#[test]
fn test_parse_code_i18n() {
    assert_eq!(
        parse_code("git cherry-pick {{start_commit}}~..{{end_commit}}"),
        vec![
            normal("git cherry-pick "),
            token("start_commit"),
            normal("~.."),
            token("end_commit"),
        ]
    );

    assert_eq!(
        parse_code("git cherry-pick {{开始提交}}~..{{结束提交}}"),
        vec![
            normal("git cherry-pick "),
            token("开始提交"),
            normal("~.."),
            token("结束提交"),
        ]
    );

    assert_eq!(
        parse_code("git cherry-pick {{শুরুর_কমিট}}~..{{শেষের_কমিট}}"),
        vec![
            normal("git cherry-pick "),
            token("শুরুর_কমিট"),
            normal("~.."),
            token("শেষের_কমিট"),
        ]
    );
}

#[test]
fn scan_empty_and_edge_inputs() {
    assert_eq!(parse_code(""), vec![]);
    assert_eq!(parse_code("a"), vec![normal("a")]);
    // An opener at the very end is backed out of: its braces are not
    // silently dropped.
    assert_eq!(parse_code("ab{{"), vec![normal("ab"), normal("{{")]);
    // A placeholder at the start is preceded by an empty literal.
    assert_eq!(parse_code("{{x}} now"), vec![normal(""), token("x"), normal(" now")]);
}

fn rebuild(segs: Vec<Segment>) -> String {
    let mut joined = String::new();
    for s in segs {
        match s {
            Segment::Normal(t) => joined.push_str(&t),
            Segment::Token(t) => {
                joined.push_str("{{");
                joined.push_str(&t);
                joined.push_str("}}");
            }
        }
    }
    joined
}

#[test]
fn scan_round_trip_reconstruction() {
    // Re-inserting the doubled braces around each token and concatenating
    // reconstructs the line exactly, malformed delimiters included.
    for line in [
        "git -c '{{config.key}}={{value}}' {{subcommand}}",
        "git commit -m {{{{message}}}}",
        "git commit -m {{message",
        "git commit -m message}}",
        "ab{{",
        "{{}}}",
        "",
    ] {
        assert_eq!(rebuild(parse_code(line)), line);
    }
}

#[test]
fn scan_round_trip_concatenation() {
    // Without the braces, concatenating segment texts of a well-formed
    // line gives the line minus its delimiters.
    let segs = parse_code("git -c '{{config.key}}={{value}}' {{subcommand}}");
    let mut joined = String::new();
    for s in segs {
        match s {
            Segment::Normal(t) => joined.push_str(&t),
            Segment::Token(t) => joined.push_str(&t),
        }
    }
    assert_eq!(joined, "git -c 'config.key=value' subcommand");
}
