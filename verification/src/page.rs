//! Pages and their line-oriented markup: provenance tags, the per-line
//! classifier, and the scanner that splits a code line into literal text and
//! `{{placeholder}}` tokens.
use vstd::prelude::*;
use vstd::string::*;

use crate::config::StyledChoice;
use crate::platform::{Platform, PlatformV};
use crate::text::{drop_leading, trim_end_spaces, strip_leading, trimmed_end};

verus! {

/// Where a page comes from: the shared downloaded tree or the user's own.
#[derive(Debug, Clone, Copy, PartialEq, Eq)]
pub enum Kind {
    Official,
    Private,
}

/// The text a provenance tag prints as.
pub open spec fn kind_name(k: Kind) -> Seq<char> {
    match k {
        Kind::Official => "official"@,
        Kind::Private => "private"@,
    }
}

impl Kind {
    pub fn name(&self) -> (r: String)
        ensures
            r@ == kind_name(*self),
    {
        match self {
            Kind::Official => "official".to_owned(),
            Kind::Private => "private".to_owned(),
        }
    }
}

/// One resolved on-disk page: the backing file, its provenance, the
/// platform it was found for, and the styling choice its rendering will
/// honour. Created only once the backing file is known to exist.
pub struct Page {
    pub file: String,
    pub kind: Kind,
    pub platform: Platform,
    pub styled: StyledChoice,
}

/// The mathematical value of a resolved page.
pub struct PageV {
    pub file: Seq<char>,
    pub kind: Kind,
    pub platform: PlatformV,
    pub styled: StyledChoice,
}

impl View for Page {
    type V = PageV;

    open spec fn view(&self) -> PageV {
        PageV { file: self.file@, kind: self.kind, platform: self.platform@, styled: self.styled }
    }
}

impl DeepView for Page {
    type V = PageV;

    open spec fn deep_view(&self) -> PageV {
        self.view()
    }
}

impl Page {
    /// Wraps a candidate file as a page when the probe for it succeeded;
    /// `file_exists` is the caller's answer to whether `file` is a regular
    /// file on disk.
    pub fn option_from(
        file: String,
        kind: Kind,
        platform: Platform,
        styled: StyledChoice,
        file_exists: bool,
    ) -> (r: Option<Page>)
        ensures
            file_exists ==> (r matches Some(p) && p@ == (PageV {
                file: file@,
                kind: kind,
                platform: platform@,
                styled: styled,
            })),
            !file_exists ==> r is None,
    {
        if !file_exists {
            return None;
        }
        Some(Page { file, kind, platform, styled })
    }
}

/// One classified line of a page.
#[derive(Debug, PartialEq, Eq)]
pub enum Line {
    Heading(String),
    Blank,
    Blockquote(String),
    Text(String),
    Code(String),
}

/// The mathematical value of a classified line.
pub enum LineV {
    Heading(Seq<char>),
    Blank,
    Blockquote(Seq<char>),
    Text(Seq<char>),
    Code(Seq<char>),
}

impl View for Line {
    type V = LineV;

    open spec fn view(&self) -> LineV {
        match self {
            Line::Heading(s) => LineV::Heading(s@),
            Line::Blank => LineV::Blank,
            Line::Blockquote(s) => LineV::Blockquote(s@),
            Line::Text(s) => LineV::Text(s@),
            Line::Code(s) => LineV::Code(s@),
        }
    }
}

impl DeepView for Line {
    type V = LineV;

    open spec fn deep_view(&self) -> LineV {
        self.view()
    }
}

/// How one raw line is classified, decided by its first character alone.
/// A backtick-wrapped line is a code line with the wrapping pair removed;
/// a line that is nothing but a backtick (after trailing spaces go) cannot
/// hold such a pair and is kept as plain text rather than sliced.
pub open spec fn classify(s: Seq<char>) -> LineV {
    if s.len() == 0 {
        LineV::Blank
    } else if s[0] == ' ' {
        LineV::Code(drop_leading(s, None))
    } else if s[0] == '`' {
        let t = trim_end_spaces(s);
        if t.len() >= 2 {
            LineV::Code(t.subrange(1, t.len() - 1))
        } else {
            LineV::Text(s)
        }
    } else if s[0] == '-' {
        LineV::Text(drop_leading(s, Some('-')))
    } else if s[0] == '>' {
        LineV::Blockquote(drop_leading(s, Some('>')))
    } else if s[0] == '#' {
        LineV::Heading(drop_leading(s, Some('#')))
    } else {
        LineV::Text(s)
    }
}

impl Line {
    /// Classifies one raw page line. Total: every line maps to exactly one
    /// variant, with marker characters and surrounding whitespace stripped
    /// as the format prescribes.
    pub fn from(line: &str) -> (r: Line)
        ensures
            r@ == classify(line@),
    {
        let n = line.unicode_len();
        if n == 0 {
            return Line::Blank;
        }
        let c = line.get_char(0);
        if c == ' ' {
            Line::Code(strip_leading(line, None))
        } else if c == '`' {
            let end = trimmed_end(line);
            if end >= 2 {
                let mid = line.substring_char(1, end - 1);
                proof {
                    assert(trim_end_spaces(line@).subrange(1, trim_end_spaces(line@).len() - 1)
                        =~= line@.subrange(1, end - 1));
                }
                Line::Code(mid.to_owned())
            } else {
                Line::Text(line.to_owned())
            }
        } else if c == '-' {
            Line::Text(strip_leading(line, Some('-')))
        } else if c == '>' {
            Line::Blockquote(strip_leading(line, Some('>')))
        } else if c == '#' {
            Line::Heading(strip_leading(line, Some('#')))
        } else {
            Line::Text(line.to_owned())
        }
    }
}

/// One piece of a scanned code line: literal shell text, or the name of a
/// placeholder the user is to fill in.
#[derive(Debug, PartialEq, Eq, Clone)]
pub enum Segment {
    Normal(String),
    Token(String),
}

/// The mathematical value of a segment.
pub enum SegV {
    Normal(Seq<char>),
    Token(Seq<char>),
}

impl View for Segment {
    type V = SegV;

    open spec fn view(&self) -> SegV {
        match self {
            Segment::Normal(s) => SegV::Normal(s@),
            Segment::Token(s) => SegV::Token(s@),
        }
    }
}

impl DeepView for Segment {
    type V = SegV;

    open spec fn deep_view(&self) -> SegV {
        self.view()
    }
}

/// The last index of the run of closing braces that starts at `i`: extra
/// consecutive `}` characters are swallowed by the same closing delimiter.
pub open spec fn close_run_end(s: Seq<char>, i: int) -> int
    decreases s.len() - i,
{
    if i + 1 < s.len() && s[i + 1] == '}' {
        close_run_end(s, i + 1)
    } else {
        i
    }
}

pub proof fn lemma_close_run_end_bounds(s: Seq<char>, i: int)
    requires
        0 <= i < s.len(),
    ensures
        i <= close_run_end(s, i) < s.len(),
    decreases s.len() - i,
{
    if i + 1 < s.len() && s[i + 1] == '}' {
        lemma_close_run_end_bounds(s, i + 1);
    }
}

/// The scanner's state machine, read off position by position. `i` is the
/// position of the second character of a candidate delimiter pair, `start`
/// the first position after the last emitted boundary, and `open` whether
/// an opening `{{` is pending. At the end of the input a pending opener is
/// backed out of, so that its braces reappear in the trailing literal.
pub open spec fn scan_from(s: Seq<char>, i: int, start: int, open: bool) -> Seq<SegV>
    decreases s.len() - i
        when 1 <= i
        via scan_from_decreases
{
    if i >= s.len() {
        if open || start < s.len() {
            let st = if open {
                start - 2
            } else {
                start
            };
            seq![SegV::Normal(s.subrange(st, s.len() as int))]
        } else {
            Seq::empty()
        }
    } else if !open && s[i - 1] == '{' && s[i] == '{' {
        seq![SegV::Normal(s.subrange(start, i - 1))] + scan_from(s, i + 1, i + 1, true)
    } else if open && s[i - 1] == '}' && s[i] == '}' {
        let j = close_run_end(s, i);
        seq![SegV::Token(s.subrange(start, j - 1))] + scan_from(s, j + 1, j + 1, false)
    } else {
        scan_from(s, i + 1, start, open)
    }
}

#[via_fn]
proof fn scan_from_decreases(s: Seq<char>, i: int, start: int, open: bool) {
    if 1 <= i < s.len() && open && s[i - 1] == '}' && s[i] == '}' {
        lemma_close_run_end_bounds(s, i);
    }
}

/// What scanning a whole code line yields.
pub open spec fn scan_spec(s: Seq<char>) -> Seq<SegV> {
    scan_from(s, 1, 0, false)
}

/// The text one segment contributes to the line it was scanned from: a
/// literal contributes itself, a placeholder its name back inside the
/// doubled braces.
pub open spec fn seg_text(g: SegV) -> Seq<char> {
    match g {
        SegV::Normal(n) => n,
        SegV::Token(t) => "{{"@ + t + "}}"@,
    }
}

/// The line a segment sequence reconstructs: every segment's text, in
/// order.
pub open spec fn reconstruct(segs: Seq<SegV>) -> Seq<char>
    decreases segs.len(),
{
    if segs.len() == 0 {
        Seq::empty()
    } else {
        seg_text(segs[0]) + reconstruct(segs.drop_first())
    }
}

proof fn lemma_close_run_chars(s: Seq<char>, i: int)
    requires
        0 <= i < s.len(),
        s[i] == '}',
    ensures
        forall|k: int| i <= k <= close_run_end(s, i) ==> s[k] == '}',
    decreases s.len() - i,
{
    if i + 1 < s.len() && s[i + 1] == '}' {
        lemma_close_run_chars(s, i + 1);
        assert forall|k: int| i <= k <= close_run_end(s, i) implies s[k] == '}' by {
            if k > i {
                assert(i + 1 <= k <= close_run_end(s, i + 1));
            }
        }
    }
}

proof fn lemma_scan_reconstruct(s: Seq<char>, i: int, start: int, open: bool)
    requires
        1 <= i,
        0 <= start <= i,
        start <= s.len(),
        open ==> 2 <= start && s[start - 1] == '{' && s[start - 2] == '{',
        !open ==> start == 0 || s[start - 1] == '}',
    ensures
        reconstruct(scan_from(s, i, start, open)) == if open {
            s.skip(start - 2)
        } else {
            s.skip(start)
        },
    decreases s.len() - i,
{
    if i >= s.len() {
        if open || start < s.len() {
            let st = if open {
                start - 2
            } else {
                start
            };
            let head = SegV::Normal(s.subrange(st, s.len() as int));
            assert(seq![head].drop_first() =~= Seq::<SegV>::empty());
            assert(reconstruct(Seq::<SegV>::empty()) == Seq::<char>::empty());
            assert(reconstruct(seq![head]) =~= s.subrange(st, s.len() as int));
            assert(s.skip(st) =~= s.subrange(st, s.len() as int));
        } else {
            assert(s.skip(start) =~= Seq::<char>::empty());
        }
    } else if !open && s[i - 1] == '{' && s[i] == '{' {
        if start == i {
            assert(s[start - 1] == '}');
            assert(false);
        }
        lemma_scan_reconstruct(s, i + 1, i + 1, true);
        let rest = scan_from(s, i + 1, i + 1, true);
        let head = SegV::Normal(s.subrange(start, i - 1));
        assert(scan_from(s, i, start, open) == seq![head] + rest);
        assert((seq![head] + rest).drop_first() =~= rest);
        assert(reconstruct(seq![head] + rest) == seg_text(head) + reconstruct(rest));
        assert(s.subrange(start, i - 1) + s.skip(i - 1) =~= s.skip(start));
    } else if open && s[i - 1] == '}' && s[i] == '}' {
        if start == i {
            assert(s[start - 1] == '{');
            assert(false);
        }
        lemma_close_run_end_bounds(s, i);
        let j = close_run_end(s, i);
        lemma_close_run_chars(s, i);
        assert(s[j] == '}');
        assert(s[j - 1] == '}');
        lemma_scan_reconstruct(s, j + 1, j + 1, false);
        let rest = scan_from(s, j + 1, j + 1, false);
        let head = SegV::Token(s.subrange(start, j - 1));
        assert(scan_from(s, i, start, open) == seq![head] + rest);
        assert((seq![head] + rest).drop_first() =~= rest);
        assert(reconstruct(seq![head] + rest) == seg_text(head) + reconstruct(rest));
        reveal_strlit("{{");
        reveal_strlit("}}");
        assert("{{"@ =~= seq!['{', '{']);
        assert("}}"@ =~= seq!['}', '}']);
        assert(("{{"@ + s.subrange(start, j - 1) + "}}"@) + s.skip(j + 1) =~= s.skip(start - 2));
    } else {
        lemma_scan_reconstruct(s, i + 1, start, open);
    }
}

/// Law: the scan loses nothing. Concatenating every segment's text in
/// emission order, with each placeholder back inside its doubled braces,
/// reconstructs the scanned line exactly — malformed delimiters included.
pub proof fn lemma_scan_round_trip(s: Seq<char>)
    ensures
        reconstruct(scan_spec(s)) == s,
{
    lemma_scan_reconstruct(s, 1, 0, false);
    assert(s.skip(0) =~= s);
}

/// Splits a code line into literal and placeholder segments, in order.
/// Doubled braces delimit a placeholder; extra closing braces are swallowed
/// by the closing delimiter, a closer with no opener is ordinary text, and
/// an opener that is never closed is emitted back as literal text.
#[verifier::loop_isolation(false)]
pub fn parse_code(code: &str) -> (r: Vec<Segment>)
    ensures
        r.deep_view() == scan_spec(code@),
{
    let n = code.unicode_len();
    let mut out: Vec<Segment> = Vec::new();
    let mut i: usize = 1;
    let mut start: usize = 0;
    let mut open = false;
    proof {
        assert(out.deep_view() + scan_from(code@, 1, 0, false) =~= scan_spec(code@));
    }
    while i < n
        invariant
            1 <= i,
            start <= i,
            i <= n || n == 0,
            open ==> 2 <= start && code@[start as int - 1] == '{' && code@[start as int - 2]
                == '{',
            !open ==> start == 0 || (1 <= start && code@[start as int - 1] == '}'),
            out.deep_view() + scan_from(code@, i as int, start as int, open) == scan_spec(code@),
        decreases n - i,
    {
        let a = code.get_char(i - 1);
        let b = code.get_char(i);
        if !open && a == '{' && b == '{' {
            assert(start < i);
            let ghost prev = out.deep_view();
            let piece = code.substring_char(start, i - 1);
            out.push(Segment::Normal(piece.to_owned()));
            proof {
                assert(out.deep_view() =~= prev.push(SegV::Normal(code@.subrange(
                    start as int,
                    i as int - 1,
                ))));
                assert(prev.push(SegV::Normal(code@.subrange(start as int, i as int - 1)))
                    + scan_from(code@, i as int + 1, i as int + 1, true) =~= prev + scan_from(
                    code@,
                    i as int,
                    start as int,
                    false,
                ));
            }
            start = i + 1;
            open = true;
        } else if open && a == '}' && b == '}' {
            assert(start < i);
            let ghost i0 = i as int;
            while i < n - 1 && code.get_char(i + 1) == '}'
                invariant
                    i0 <= i < n,
                    code@[i as int] == '}',
                    close_run_end(code@, i0) == close_run_end(code@, i as int),
                decreases n - i,
            {
                i += 1;
            }
            proof {
                assert(close_run_end(code@, i as int) == i as int);
            }
            let ghost prev = out.deep_view();
            let piece = code.substring_char(start, i - 1);
            out.push(Segment::Token(piece.to_owned()));
            proof {
                assert(out.deep_view() =~= prev.push(SegV::Token(code@.subrange(
                    start as int,
                    i as int - 1,
                ))));
                assert(prev.push(SegV::Token(code@.subrange(start as int, i as int - 1)))
                    + scan_from(code@, i as int + 1, i as int + 1, false) =~= prev + scan_from(
                    code@,
                    i0,
                    start as int,
                    true,
                ));
            }
            start = i + 1;
            open = false;
        }
        i += 1;
    }
    if open || start < n {
        let st = if open {
            start - 2
        } else {
            start
        };
        let ghost prev = out.deep_view();
        let piece = code.substring_char(st, n);
        out.push(Segment::Normal(piece.to_owned()));
        proof {
            assert(out.deep_view() =~= prev.push(SegV::Normal(code@.subrange(
                st as int,
                n as int,
            ))));
            assert(prev.push(SegV::Normal(code@.subrange(st as int, n as int))) =~= prev
                + scan_from(code@, i as int, start as int, open));
        }
    }
    out
}

} // verus!
