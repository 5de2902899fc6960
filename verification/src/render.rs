//! Rendering a resolved page: the raw lines are classified, code lines are
//! scanned for placeholders, and the result is laid out either plainly or as
//! styled spans. The styled text of a span comes from the terminal library,
//! so of it only the shape is promised: every character of the page survives,
//! in order, with styling bytes around it.
use vstd::prelude::*;
use vstd::string::*;

use crossterm::style::Stylize;
use crossterm::Command;

use crate::config::StyledChoice;
use crate::error::TldrError;
use crate::page::{Kind, kind_name, Line, LineV, classify, Page, Segment, SegV, scan_spec,
    parse_code};
use crate::platform::{Platform, platform_name, PlatformV};
use crate::text::{pad_center, center_in_dashes};

verus! {

/// The lines a page shows: everything after the title. The first line is
/// never rendered; under the legacy two-line header (a title line that does
/// not start with `#`, then an underline) the second line is dropped too.
pub open spec fn page_body(raw: Seq<Seq<char>>) -> Seq<Seq<char>> {
    if raw.len() == 0 {
        Seq::empty()
    } else if raw[0].len() > 0 && raw[0][0] == '#' {
        raw.drop_first()
    } else if raw.len() >= 2 {
        raw.skip(2)
    } else {
        Seq::empty()
    }
}

/// Every body line, classified.
pub open spec fn classify_all(ls: Seq<Seq<char>>) -> Seq<LineV> {
    ls.map_values(|l: Seq<char>| classify(l))
}

/// Classifies the raw lines of a page file. A file without a first line
/// cannot be a page; everything after the title line (and after the legacy
/// underline, where one is used) is kept, classified, in order.
#[verifier::loop_isolation(false)]
pub fn parse_lines(raw: &Vec<String>) -> (r: Result<Vec<Line>, TldrError>)
    ensures
        raw@.len() == 0 <==> r is Err,
        r matches Err(e) ==> e@ == crate::error::TldrErrorV::EmptyPage,
        r matches Ok(v) ==> v.deep_view() == classify_all(page_body(raw.deep_view())),
{
    if raw.len() == 0 {
        return Err(TldrError::EmptyPage);
    }
    let first = &raw[0];
    let heads: bool = first.as_str().unicode_len() > 0 && first.as_str().get_char(0) == '#';
    let skip: usize = if heads {
        1
    } else {
        2
    };
    let ghost body = page_body(raw.deep_view());
    if !heads && raw.len() < 2 {
        let empty: Vec<Line> = Vec::new();
        proof {
            assert(body =~= Seq::<Seq<char>>::empty());
            assert(empty.deep_view() =~= classify_all(body));
        }
        return Ok(empty);
    }
    proof {
        assert(body =~= raw.deep_view().skip(skip as int));
    }
    let mut out: Vec<Line> = Vec::new();
    let mut i: usize = skip;
    proof {
        assert(out.deep_view() =~= classify_all(body.take(0)));
    }
    while i < raw.len()
        invariant
            skip <= i <= raw@.len(),
            body == raw.deep_view().skip(skip as int),
            out.deep_view() == classify_all(body.take(i - skip)),
        decreases raw@.len() - i,
    {
        let ghost prev = out.deep_view();
        let line = Line::from(raw[i].as_str());
        let ghost lv = line@;
        out.push(line);
        proof {
            assert(body[i - skip] == raw.deep_view()[i as int]);
            assert(lv == classify(body[i - skip]));
            assert(out.deep_view() =~= prev.push(lv));
            assert(prev.push(lv) =~= classify_all(body.take(i + 1 - skip)));
        }
        i += 1;
    }
    proof {
        assert(body.take(body.len() as int) =~= body);
    }
    Ok(out)
}

/// Whether output is styled: `On` always, `Off` never, `Auto` only on an
/// interactive terminal.
pub open spec fn use_styled(choice: StyledChoice, tty: bool) -> bool {
    match choice {
        StyledChoice::Auto => tty,
        StyledChoice::On => true,
        StyledChoice::Off => false,
    }
}

pub fn styled_on(choice: StyledChoice, tty: bool) -> (r: bool)
    ensures
        r == use_styled(choice, tty),
{
    match choice {
        StyledChoice::Auto => tty,
        StyledChoice::On => true,
        StyledChoice::Off => false,
    }
}

/// One plainly rendered line: code lines are indented one step further than
/// the rest, a blank line stays blank.
pub open spec fn plain_line(l: LineV) -> Seq<char> {
    match l {
        LineV::Blank => "\n"@,
        LineV::Code(s) => "    "@ + s + "\n"@,
        LineV::Heading(s) => "  "@ + s + "\n"@,
        LineV::Blockquote(s) => "  "@ + s + "\n"@,
        LineV::Text(s) => "  "@ + s + "\n"@,
    }
}

/// The plainly rendered body, line after line.
pub open spec fn plain_lines(ls: Seq<LineV>) -> Seq<char>
    decreases ls.len(),
{
    if ls.len() == 0 {
        Seq::empty()
    } else {
        plain_lines(ls.drop_last()) + plain_line(ls.last())
    }
}

/// The whole plain rendering: an unpadded provenance banner, the body, and
/// a trailing blank line.
pub open spec fn plain_render(kind: Kind, platform: PlatformV, body: Seq<LineV>) -> Seq<char> {
    "  : "@ + kind_name(kind) + " :: "@ + platform_name(platform) + " :\n"@ + plain_lines(body)
        + "\n"@
}

/// Renders classified lines without any styling.
#[verifier::loop_isolation(false)]
pub fn render_plain(kind: Kind, platform: &Platform, lines: &Vec<Line>) -> (r: String)
    ensures
        r@ == plain_render(kind, platform@, lines.deep_view()),
{
    let ghost all = lines.deep_view();
    let mut out = "  : ".to_owned();
    let kn = kind.name();
    out.append(kn.as_str());
    out.append(" :: ");
    let pn = platform.name();
    out.append(pn.as_str());
    out.append(" :\n");
    let ghost banner = out@;
    let mut i: usize = 0;
    proof {
        assert(plain_lines(all.take(0)) =~= Seq::<char>::empty());
        assert(out@ =~= banner + plain_lines(all.take(0)));
    }
    while i < lines.len()
        invariant
            0 <= i <= lines.len(),
            out@ == banner + plain_lines(all.take(i as int)),
        decreases lines.len() - i,
    {
        let ghost prev = out@;
        match &lines[i] {
            Line::Blank => {
                out.append("\n");
            },
            Line::Code(s) => {
                out.append("    ");
                out.append(s.as_str());
                out.append("\n");
            },
            Line::Heading(s) => {
                out.append("  ");
                out.append(s.as_str());
                out.append("\n");
            },
            Line::Blockquote(s) => {
                out.append("  ");
                out.append(s.as_str());
                out.append("\n");
            },
            Line::Text(s) => {
                out.append("  ");
                out.append(s.as_str());
                out.append("\n");
            },
        }
        proof {
            assert(all.take(i + 1).drop_last() =~= all.take(i as int));
            assert(all.take(i + 1).last() == all[i as int]);
            assert(out@ =~= prev + plain_line(all[i as int]));
            assert(prev + plain_line(all[i as int]) =~= banner + plain_lines(all.take(i + 1)));
        }
        i += 1;
    }
    out.append("\n");
    proof {
        assert(all.take(lines@.len() as int) =~= all);
        assert(out@ =~= plain_render(kind, platform@, all));
    }
    out
}

/// The weight and color a styled piece of text is shown in. The banner is
/// keyed by provenance: official pages get one accent color, private pages
/// another.
#[derive(Clone, Copy)]
pub enum StyleRole {
    Meta(Kind),
    CodeNormal,
    CodeToken,
    Text,
    Heading,
    Blockquote,
}

/// One piece of styled output: literal layout text, or page text shown
/// under a style.
pub enum Span {
    Plain(String),
    Styled(StyleRole, String),
}

/// The mathematical value of a span.
pub enum SpanV {
    Plain(Seq<char>),
    Styled(StyleRole, Seq<char>),
}

impl View for Span {
    type V = SpanV;

    open spec fn view(&self) -> SpanV {
        match self {
            Span::Plain(s) => SpanV::Plain(s@),
            Span::Styled(role, s) => SpanV::Styled(*role, s@),
        }
    }
}

impl DeepView for Span {
    type V = SpanV;

    open spec fn deep_view(&self) -> SpanV {
        self.view()
    }
}

/// The spans of one scanned code line: literal segments and placeholder
/// segments each under their own style.
pub open spec fn code_spans(segs: Seq<SegV>) -> Seq<SpanV> {
    segs.map_values(
        |g: SegV|
            match g {
                SegV::Normal(c) => SpanV::Styled(StyleRole::CodeNormal, c),
                SegV::Token(c) => SpanV::Styled(StyleRole::CodeToken, c),
            },
    )
}

/// The spans of one rendered line.
pub open spec fn line_spans(l: LineV) -> Seq<SpanV> {
    match l {
        LineV::Blank => seq![SpanV::Plain("\n"@)],
        LineV::Code(s) => seq![SpanV::Plain("    "@)] + code_spans(scan_spec(s)) + seq![
            SpanV::Plain("\n"@),
        ],
        LineV::Text(s) => seq![
            SpanV::Plain("  "@),
            SpanV::Styled(StyleRole::Text, s),
            SpanV::Plain("\n"@),
        ],
        LineV::Heading(s) => seq![
            SpanV::Plain("  "@),
            SpanV::Styled(StyleRole::Heading, s),
            SpanV::Plain("\n"@),
        ],
        LineV::Blockquote(s) => seq![
            SpanV::Plain("  "@),
            SpanV::Styled(StyleRole::Blockquote, s),
            SpanV::Plain("\n"@),
        ],
    }
}

/// The spans of the whole body, line after line.
pub open spec fn body_spans(ls: Seq<LineV>) -> Seq<SpanV>
    decreases ls.len(),
{
    if ls.len() == 0 {
        Seq::empty()
    } else {
        body_spans(ls.drop_last()) + line_spans(ls.last())
    }
}

/// The banner text: provenance and platform, centered in a 78-column field
/// of dashes.
pub open spec fn banner_text(kind: Kind, platform: PlatformV) -> Seq<char> {
    pad_center(" : "@ + kind_name(kind) + " :: "@ + platform_name(platform) + " : "@, 78)
}

/// The whole styled rendering, as spans: a blank line, the indented banner,
/// the body, and a trailing blank line.
pub open spec fn styled_spans(kind: Kind, platform: PlatformV, body: Seq<LineV>) -> Seq<SpanV> {
    seq![
        SpanV::Plain("\n  "@),
        SpanV::Styled(StyleRole::Meta(kind), banner_text(kind, platform)),
        SpanV::Plain("\n"@),
    ] + body_spans(body) + seq![SpanV::Plain("\n"@)]
}

/// Lays classified lines out as styled spans.
#[verifier::loop_isolation(false)]
pub fn render_spans(kind: Kind, platform: &Platform, lines: &Vec<Line>) -> (r: Vec<Span>)
    ensures
        r.deep_view() == styled_spans(kind, platform@, lines.deep_view()),
{
    let ghost all = lines.deep_view();
    let mut out: Vec<Span> = Vec::new();
    out.push(Span::Plain("\n  ".to_owned()));
    let mut meta = " : ".to_owned();
    let kn = kind.name();
    meta.append(kn.as_str());
    meta.append(" :: ");
    let pn = platform.name();
    meta.append(pn.as_str());
    meta.append(" : ");
    proof {
        assert(meta@ =~= " : "@ + kind_name(kind) + " :: "@ + platform_name(platform@) + " : "@);
    }
    let banner = center_in_dashes(meta.as_str(), 78);
    out.push(Span::Styled(StyleRole::Meta(kind), banner));
    out.push(Span::Plain("\n".to_owned()));
    let ghost head = out.deep_view();
    proof {
        assert(head =~= seq![
            SpanV::Plain("\n  "@),
            SpanV::Styled(StyleRole::Meta(kind), banner_text(kind, platform@)),
            SpanV::Plain("\n"@),
        ]);
        assert(body_spans(all.take(0)) =~= Seq::<SpanV>::empty());
        assert(out.deep_view() =~= head + body_spans(all.take(0)));
    }
    let mut i: usize = 0;
    while i < lines.len()
        invariant
            0 <= i <= lines.len(),
            out.deep_view() == head + body_spans(all.take(i as int)),
        decreases lines.len() - i,
    {
        let ghost prev = out.deep_view();
        match &lines[i] {
            Line::Blank => {
                out.push(Span::Plain("\n".to_owned()));
                proof {
                    assert(all[i as int] == LineV::Blank);
                    assert(out.deep_view() =~= prev.push(SpanV::Plain("\n"@)));
                    assert(prev.push(SpanV::Plain("\n"@)) =~= prev + line_spans(all[i as int]));
                }
            },
            Line::Code(s) => {
                out.push(Span::Plain("    ".to_owned()));
                let segs = parse_code(s.as_str());
                let ghost scanned = scan_spec(s@);
                let mut k: usize = 0;
                proof {
                    assert(out.deep_view() =~= prev + seq![SpanV::Plain("    "@)] + code_spans(
                        scanned.take(0),
                    ));
                }
                while k < segs.len()
                    invariant
                        0 <= k <= segs.len(),
                        segs.deep_view() == scanned,
                        out.deep_view() == prev + seq![SpanV::Plain("    "@)] + code_spans(
                            scanned.take(k as int),
                        ),
                    decreases segs.len() - k,
                {
                    let ghost mid = out.deep_view();
                    let ghost sp: SpanV;
                    match &segs[k] {
                        Segment::Normal(c) => {
                            out.push(Span::Styled(StyleRole::CodeNormal, c.clone()));
                            proof {
                                sp = SpanV::Styled(StyleRole::CodeNormal, c@);
                            }
                        },
                        Segment::Token(c) => {
                            out.push(Span::Styled(StyleRole::CodeToken, c.clone()));
                            proof {
                                sp = SpanV::Styled(StyleRole::CodeToken, c@);
                            }
                        },
                    }
                    proof {
                        assert(out.deep_view() =~= mid.push(sp));
                        assert(segs.deep_view()[k as int] == scanned[k as int]);
                        assert(code_spans(scanned.take(k + 1)) =~= code_spans(
                            scanned.take(k as int),
                        ).push(sp));
                        assert(mid.push(sp) =~= prev + seq![SpanV::Plain("    "@)] + code_spans(
                            scanned.take(k as int),
                        ).push(sp));
                        assert(out.deep_view() =~= prev + seq![SpanV::Plain("    "@)] + code_spans(
                            scanned.take(k + 1),
                        ));
                    }
                    k += 1;
                }
                out.push(Span::Plain("\n".to_owned()));
                proof {
                    assert(scanned.take(scanned.len() as int) =~= scanned);
                    assert(all[i as int] == LineV::Code(s@));
                    assert(out.deep_view() =~= (prev + seq![SpanV::Plain("    "@)] + code_spans(
                        scanned,
                    )).push(SpanV::Plain("\n"@)));
                    assert((prev + seq![SpanV::Plain("    "@)] + code_spans(scanned)).push(
                        SpanV::Plain("\n"@),
                    ) =~= prev + line_spans(all[i as int]));
                }
            },
            Line::Text(s) => {
                out.push(Span::Plain("  ".to_owned()));
                out.push(Span::Styled(StyleRole::Text, s.clone()));
                out.push(Span::Plain("\n".to_owned()));
                proof {
                    assert(all[i as int] == LineV::Text(s@));
                    assert(out.deep_view() =~= prev.push(SpanV::Plain("  "@)).push(
                        SpanV::Styled(StyleRole::Text, s@),
                    ).push(SpanV::Plain("\n"@)));
                    assert(prev.push(SpanV::Plain("  "@)).push(
                        SpanV::Styled(StyleRole::Text, s@),
                    ).push(SpanV::Plain("\n"@)) =~= prev + line_spans(all[i as int]));
                }
            },
            Line::Heading(s) => {
                out.push(Span::Plain("  ".to_owned()));
                out.push(Span::Styled(StyleRole::Heading, s.clone()));
                out.push(Span::Plain("\n".to_owned()));
                proof {
                    assert(all[i as int] == LineV::Heading(s@));
                    assert(out.deep_view() =~= prev.push(SpanV::Plain("  "@)).push(
                        SpanV::Styled(StyleRole::Heading, s@),
                    ).push(SpanV::Plain("\n"@)));
                    assert(prev.push(SpanV::Plain("  "@)).push(
                        SpanV::Styled(StyleRole::Heading, s@),
                    ).push(SpanV::Plain("\n"@)) =~= prev + line_spans(all[i as int]));
                }
            },
            Line::Blockquote(s) => {
                out.push(Span::Plain("  ".to_owned()));
                out.push(Span::Styled(StyleRole::Blockquote, s.clone()));
                out.push(Span::Plain("\n".to_owned()));
                proof {
                    assert(all[i as int] == LineV::Blockquote(s@));
                    assert(out.deep_view() =~= prev.push(SpanV::Plain("  "@)).push(
                        SpanV::Styled(StyleRole::Blockquote, s@),
                    ).push(SpanV::Plain("\n"@)));
                    assert(prev.push(SpanV::Plain("  "@)).push(
                        SpanV::Styled(StyleRole::Blockquote, s@),
                    ).push(SpanV::Plain("\n"@)) =~= prev + line_spans(all[i as int]));
                }
            },
        }
        proof {
            assert(all.take(i + 1).drop_last() =~= all.take(i as int));
            assert(all.take(i + 1).last() == all[i as int]);
            assert(out.deep_view() =~= prev + line_spans(all[i as int]));
            assert(prev + line_spans(all[i as int]) =~= head + body_spans(all.take(i + 1)));
        }
        i += 1;
    }
    out.push(Span::Plain("\n".to_owned()));
    proof {
        assert(all.take(lines@.len() as int) =~= all);
        assert(out.deep_view() =~= styled_spans(kind, platform@, all));
    }
    out
}

/// Whether `t` stands inside `r` unchanged, with anything around it.
pub open spec fn embeds(r: Seq<char>, t: Seq<char>) -> bool {
    exists|a: Seq<char>, b: Seq<char>| r == a + t + b
}

/// Whether one output piece renders one span: layout text is kept exactly,
/// styled text is kept with styling around it.
pub open spec fn piece_ok(h: Seq<char>, sv: SpanV) -> bool {
    match sv {
        SpanV::Plain(t) => h == t,
        SpanV::Styled(_, t) => embeds(h, t),
    }
}

/// Whether `r` is the concatenation of one output piece per span, in order.
pub open spec fn spans_embedding(r: Seq<char>, svs: Seq<SpanV>) -> bool
    decreases svs.len(),
{
    if svs.len() == 0 {
        r == Seq::<char>::empty()
    } else {
        exists|h: Seq<char>, t: Seq<char>|
            r == h + t && piece_ok(h, svs[0]) && spans_embedding(t, svs.drop_first())
    }
}

pub proof fn lemma_spans_embedding_push(r: Seq<char>, svs: Seq<SpanV>, h: Seq<char>, sv: SpanV)
    requires
        spans_embedding(r, svs),
        piece_ok(h, sv),
    ensures
        spans_embedding(r + h, svs.push(sv)),
    decreases svs.len(),
{
    if svs.len() == 0 {
        assert(r + h =~= h + Seq::<char>::empty());
        assert(svs.push(sv)[0] == sv);
        assert(svs.push(sv).drop_first() =~= Seq::<SpanV>::empty());
        assert(spans_embedding(Seq::<char>::empty(), Seq::<SpanV>::empty()));
        assert((r + h == h + Seq::<char>::empty() && piece_ok(h, svs.push(sv)[0])
            && spans_embedding(Seq::<char>::empty(), svs.push(sv).drop_first())));
    } else {
        let (h0, t0) = choose|h0: Seq<char>, t0: Seq<char>|
            r == h0 + t0 && piece_ok(h0, svs[0]) && spans_embedding(t0, svs.drop_first());
        lemma_spans_embedding_push(t0, svs.drop_first(), h, sv);
        assert(svs.drop_first().push(sv) =~= svs.push(sv).drop_first());
        assert(r + h =~= h0 + (t0 + h));
        assert(svs.push(sv)[0] == svs[0]);
        assert((r + h == h0 + (t0 + h) && piece_ok(h0, svs.push(sv)[0]) && spans_embedding(
            t0 + h,
            svs.push(sv).drop_first(),
        )));
    }
}

/// Relies on crossterm's content styling: `PrintStyledContent::write_ansi`
/// writes the text itself, unchanged, between the style's opening and
/// closing escape sequences — either of which may be empty, since crossterm
/// honours the host's color controls. Nothing more is promised: the exact
/// styling bytes depend on the host environment. Writing into a `String`
/// cannot fail, but if it ever did the text would be returned bare.
#[verifier::external_body]
fn apply_style(text: &str, fg: Option<u8>, bold: bool) -> (r: String)
    ensures
        embeds(r@, text@),
{
    let mut style = crossterm::style::ContentStyle::new();
    if let Some(n) = fg {
        style.foreground_color = Some(crossterm::style::Color::AnsiValue(n));
    }
    if bold {
        style = style.attribute(crossterm::style::Attribute::Bold);
    }
    let mut out = String::new();
    match crossterm::style::PrintStyledContent(style.apply(text)).write_ansi(&mut out) {
        Ok(()) => out,
        Err(_) => text.to_owned(),
    }
}

/// The color (as an ANSI palette index) and weight of each style role.
/// The banner is keyed by provenance: the official and private accents
/// differ. Literal code and its placeholders differ too, as do all the
/// prose roles from one another.
pub open spec fn role_style_spec(role: StyleRole) -> (Option<u8>, bool) {
    match role {
        StyleRole::Meta(Kind::Official) => (Some(10u8), true),
        StyleRole::Meta(Kind::Private) => (Some(9u8), true),
        StyleRole::CodeNormal => (Some(10u8), true),
        StyleRole::CodeToken => (Some(14u8), true),
        StyleRole::Text => (Some(12u8), true),
        StyleRole::Heading => (None, true),
        StyleRole::Blockquote => (Some(8u8), false),
    }
}

fn role_style(role: StyleRole) -> (r: (Option<u8>, bool))
    ensures
        r == role_style_spec(role),
{
    match role {
        StyleRole::Meta(Kind::Official) => (Some(10), true),
        StyleRole::Meta(Kind::Private) => (Some(9), true),
        StyleRole::CodeNormal => (Some(10), true),
        StyleRole::CodeToken => (Some(14), true),
        StyleRole::Text => (Some(12), true),
        StyleRole::Heading => (None, true),
        StyleRole::Blockquote => (Some(8), false),
    }
}

/// Joins spans into the styled output text: layout spans verbatim, styled
/// spans through the terminal library.
#[verifier::loop_isolation(false)]
pub fn styled_from_spans(spans: &Vec<Span>) -> (r: String)
    ensures
        spans_embedding(r@, spans.deep_view()),
{
    let ghost all = spans.deep_view();
    let mut out = String::new();
    let mut i: usize = 0;
    proof {
        assert(all.take(0) =~= Seq::<SpanV>::empty());
    }
    while i < spans.len()
        invariant
            0 <= i <= spans.len(),
            spans_embedding(out@, all.take(i as int)),
        decreases spans.len() - i,
    {
        let ghost prev = out@;
        let ghost piece: Seq<char>;
        match &spans[i] {
            Span::Plain(t) => {
                out.append(t.as_str());
                proof {
                    piece = t@;
                }
            },
            Span::Styled(role, t) => {
                let (fg, bold) = role_style(*role);
                let styled = apply_style(t.as_str(), fg, bold);
                out.append(styled.as_str());
                proof {
                    piece = styled@;
                }
            },
        }
        proof {
            lemma_spans_embedding_push(prev, all.take(i as int), piece, all[i as int]);
            assert(all.take(i + 1) =~= all.take(i as int).push(all[i as int]));
        }
        i += 1;
    }
    proof {
        assert(all.take(spans@.len() as int) =~= all);
    }
    out
}

impl Page {
    /// Renders the page's raw lines (which the caller reads off the backing
    /// file) to output text. A file without a first line is refused. Plain
    /// output is pinned exactly; styled output is the same spans joined,
    /// each styled piece carrying its text unchanged inside the styling.
    pub fn render(&self, raw_lines: &Vec<String>, is_tty: bool) -> (r: Result<String, TldrError>)
        ensures
            raw_lines@.len() == 0 <==> r is Err,
            r matches Err(e) ==> e@ == crate::error::TldrErrorV::EmptyPage,
            !use_styled(self.styled, is_tty) ==> (r matches Ok(s) ==> s@ == plain_render(
                self.kind,
                self.platform@,
                classify_all(page_body(raw_lines.deep_view())),
            )),
            use_styled(self.styled, is_tty) ==> (r matches Ok(s) ==> spans_embedding(
                s@,
                styled_spans(
                    self.kind,
                    self.platform@,
                    classify_all(page_body(raw_lines.deep_view())),
                ),
            )),
    {
        let lines = match parse_lines(raw_lines) {
            Ok(v) => v,
            Err(e) => {
                return Err(e);
            },
        };
        if styled_on(self.styled, is_tty) {
            let spans = render_spans(self.kind, &self.platform, &lines);
            Ok(styled_from_spans(&spans))
        } else {
            Ok(render_plain(self.kind, &self.platform, &lines))
        }
    }
}

} // verus!
