//! Character and string helpers shared by the classifier, the scanner and the
//! renderer. All string work is done over `Seq<char>` views, so multi-byte
//! characters are never split.
use vstd::prelude::*;
use vstd::string::*;

verus! {

/// The characters the stripping and trimming rules treat as whitespace:
/// the Unicode `White_Space` set, the same one `char::is_whitespace`
/// recognizes, written out.
pub open spec fn is_space(c: char) -> bool {
    let u = c as u32;
    u == 0x20 || (0x09 <= u && u <= 0x0D) || u == 0x85 || u == 0xA0 || u == 0x1680 || (0x2000 <= u
        && u <= 0x200A) || u == 0x2028 || u == 0x2029 || u == 0x202F || u == 0x205F || u == 0x3000
}

pub fn is_space_char(c: char) -> (r: bool)
    ensures
        r == is_space(c),
{
    let u = c as u32;
    u == 0x20 || (0x09 <= u && u <= 0x0D) || u == 0x85 || u == 0xA0 || u == 0x1680 || (0x2000 <= u
        && u <= 0x200A) || u == 0x2028 || u == 0x2029 || u == 0x202F || u == 0x205F || u == 0x3000
}

/// Whether a leading character is consumed by the strip for marker `m`:
/// spaces always are, and so is the marker character itself when one is given.
pub open spec fn stripped(m: Option<char>, c: char) -> bool {
    match m {
        Some(mc) => c == mc || is_space(c),
        None => is_space(c),
    }
}

pub fn stripped_char(m: Option<char>, c: char) -> (r: bool)
    ensures
        r == stripped(m, c),
{
    match m {
        Some(mc) => c == mc || is_space_char(c),
        None => is_space_char(c),
    }
}

/// What remains of `s` once the leading run of characters accepted by
/// marker `m` is removed.
pub open spec fn drop_leading(s: Seq<char>, m: Option<char>) -> Seq<char>
    decreases s.len(),
{
    if s.len() == 0 {
        s
    } else if stripped(m, s[0]) {
        drop_leading(s.drop_first(), m)
    } else {
        s
    }
}

/// What remains of `s` once the trailing run of spaces is removed.
pub open spec fn trim_end_spaces(s: Seq<char>) -> Seq<char>
    decreases s.len(),
{
    if s.len() == 0 {
        s
    } else if is_space(s.last()) {
        trim_end_spaces(s.drop_last())
    } else {
        s
    }
}

/// `s` with leading and trailing space runs removed.
pub open spec fn trim_spaces(s: Seq<char>) -> Seq<char> {
    drop_leading(trim_end_spaces(s), None)
}

pub proof fn lemma_drop_leading_at(s: Seq<char>, m: Option<char>, i: int)
    requires
        0 <= i <= s.len(),
        forall|j: int| 0 <= j < i ==> stripped(m, s[j]),
        i == s.len() || !stripped(m, s[i]),
    ensures
        drop_leading(s, m) == s.subrange(i, s.len() as int),
    decreases i,
{
    if i == 0 {
        assert(drop_leading(s, m) =~= s.subrange(0, s.len() as int));
    } else {
        let t = s.drop_first();
        assert(forall|j: int| 0 <= j < i - 1 ==> stripped(m, t[j]));
        lemma_drop_leading_at(t, m, i - 1);
        assert(t.subrange(i - 1, t.len() as int) =~= s.subrange(i, s.len() as int));
    }
}

pub proof fn lemma_trim_end_at(s: Seq<char>, i: int)
    requires
        0 <= i <= s.len(),
        forall|j: int| i <= j < s.len() ==> is_space(s[j]),
        i == 0 || !is_space(s[i - 1]),
    ensures
        trim_end_spaces(s) == s.subrange(0, i),
    decreases s.len(),
{
    if i == s.len() {
        if s.len() == 0 || !is_space(s.last()) {
            assert(trim_end_spaces(s) =~= s.subrange(0, i));
        } else {
            assert(!is_space(s[i - 1]));
            assert(false);
        }
    } else {
        let t = s.drop_last();
        lemma_trim_end_at(t, i);
        assert(t.subrange(0, i) =~= s.subrange(0, i));
    }
}

/// Strips the leading run of characters accepted by marker `m` (the marker
/// character and spaces; spaces alone when `m` is `None`) off `line`.
pub fn strip_leading(line: &str, m: Option<char>) -> (r: String)
    ensures
        r@ == drop_leading(line@, m),
{
    let n = line.unicode_len();
    let mut i: usize = 0;
    while i < n && stripped_char(m, line.get_char(i))
        invariant
            n == line@.len(),
            0 <= i <= n,
            forall|j: int| 0 <= j < i ==> stripped(m, line@[j]),
        decreases n - i,
    {
        i += 1;
    }
    proof {
        lemma_drop_leading_at(line@, m, i as int);
    }
    let rest = line.substring_char(i, n);
    rest.to_owned()
}

/// Index one past the last non-space character of `line`.
pub fn trimmed_end(line: &str) -> (r: usize)
    ensures
        0 <= r <= line@.len(),
        trim_end_spaces(line@) == line@.subrange(0, r as int),
{
    let n = line.unicode_len();
    let mut j: usize = n;
    while j > 0 && is_space_char(line.get_char(j - 1))
        invariant
            n == line@.len(),
            0 <= j <= n,
            forall|k: int| j <= k < n ==> is_space(line@[k]),
        decreases j,
    {
        j -= 1;
    }
    proof {
        lemma_trim_end_at(line@, j as int);
    }
    j
}

/// `line` with leading and trailing spaces removed.
pub fn trimmed(line: &str) -> (r: String)
    ensures
        r@ == trim_spaces(line@),
{
    let end = trimmed_end(line);
    let head = line.substring_char(0, end);
    strip_leading(head, None)
}

/// The pieces of `s` between occurrences of `sep`. Splitting the empty
/// string yields one empty piece, as the standard splitting convention has
/// it.
pub open spec fn split_on(s: Seq<char>, sep: char) -> Seq<Seq<char>>
    decreases s.len(),
{
    if s.len() == 0 {
        seq![s]
    } else if s[0] == sep {
        seq![Seq::<char>::empty()] + split_on(s.drop_first(), sep)
    } else {
        let r = split_on(s.drop_first(), sep);
        r.update(0, seq![s[0]] + r[0])
    }
}

pub proof fn lemma_split_no_sep(s: Seq<char>, sep: char)
    requires
        forall|j: int| 0 <= j < s.len() ==> s[j] != sep,
    ensures
        split_on(s, sep) == seq![s],
    decreases s.len(),
{
    if s.len() > 0 {
        lemma_split_no_sep(s.drop_first(), sep);
        let r = split_on(s.drop_first(), sep);
        assert(seq![s[0]] + s.drop_first() =~= s);
        assert(r.update(0, seq![s[0]] + r[0]) =~= seq![s]);
    }
}

pub proof fn lemma_split_at_first(s: Seq<char>, sep: char, k: int)
    requires
        0 <= k < s.len(),
        s[k] == sep,
        forall|j: int| 0 <= j < k ==> s[j] != sep,
    ensures
        split_on(s, sep) == seq![s.take(k)] + split_on(s.skip(k + 1), sep),
    decreases k,
{
    if k == 0 {
        assert(s.take(0) =~= Seq::<char>::empty());
        assert(s.skip(1) =~= s.drop_first());
        assert(seq![s.take(0)] + split_on(s.skip(1), sep) =~= seq![Seq::<char>::empty()]
            + split_on(s.drop_first(), sep));
    } else {
        let df = s.drop_first();
        assert(forall|j: int| 0 <= j < k - 1 ==> df[j] != sep);
        assert(df[k - 1] == sep);
        lemma_split_at_first(df, sep, k - 1);
        let r = split_on(df, sep);
        assert(r[0] == df.take(k - 1));
        assert(seq![s[0]] + df.take(k - 1) =~= s.take(k));
        assert(df.skip(k) =~= s.skip(k + 1));
        assert(r.update(0, seq![s[0]] + r[0]) =~= seq![s.take(k)] + split_on(
            s.skip(k + 1),
            sep,
        ));
    }
}

/// Splits `s` at every occurrence of `sep`.
#[verifier::loop_isolation(false)]
pub fn split_str(s: &str, sep: char) -> (r: Vec<String>)
    ensures
        r.deep_view() == split_on(s@, sep),
{
    let n = s.unicode_len();
    let mut out: Vec<String> = Vec::new();
    let mut cur: usize = 0;
    let mut i: usize = 0;
    proof {
        assert(s@.skip(0) =~= s@);
        assert(out.deep_view() + split_on(s@, sep) =~= split_on(s@, sep));
    }
    while i < n
        invariant
            0 <= cur <= i <= n,
            forall|j: int| cur <= j < i ==> s@[j] != sep,
            split_on(s@, sep) == out.deep_view() + split_on(s@.skip(cur as int), sep),
        decreases n - i,
    {
        if s.get_char(i) == sep {
            let piece = s.substring_char(cur, i);
            let ghost prev = out.deep_view();
            out.push(piece.to_owned());
            proof {
                let tail = s@.skip(cur as int);
                lemma_split_at_first(tail, sep, i - cur);
                assert(tail.take(i - cur) =~= s@.subrange(cur as int, i as int));
                assert(tail.skip(i - cur + 1) =~= s@.skip(i + 1));
                assert(out.deep_view() =~= prev.push(s@.subrange(cur as int, i as int)));
                assert(prev.push(s@.subrange(cur as int, i as int)) + split_on(
                    s@.skip(i + 1),
                    sep,
                ) =~= prev + split_on(tail, sep));
            }
            cur = i + 1;
        }
        i += 1;
    }
    let piece = s.substring_char(cur, n);
    let ghost prev = out.deep_view();
    out.push(piece.to_owned());
    proof {
        let tail = s@.skip(cur as int);
        lemma_split_no_sep(tail, sep);
        assert(tail =~= s@.subrange(cur as int, n as int));
        assert(out.deep_view() =~= prev.push(s@.subrange(cur as int, n as int)));
        assert(prev.push(s@.subrange(cur as int, n as int)) =~= prev + seq![tail]);
    }
    out
}

/// Whether the views of two strings are equal, character for character.
pub fn str_eq(a: &str, b: &str) -> (r: bool)
    ensures
        r == (a@ == b@),
{
    let x = a.to_owned();
    let y = b.to_owned();
    x == y
}

/// A run of `n` dash characters.
pub open spec fn dashes(n: int) -> Seq<char> {
    Seq::new(n as nat, |i: int| '-')
}

pub fn dash_run(n: usize) -> (r: String)
    ensures
        r@ == dashes(n as int),
{
    let mut out = String::new();
    let mut i: usize = 0;
    proof {
        reveal_strlit("-");
        assert(out@ =~= dashes(0));
    }
    while i < n
        invariant
            0 <= i <= n,
            out@ == dashes(i as int),
            "-"@ =~= seq!['-'],
        decreases n - i,
    {
        out.append("-");
        proof {
            assert(out@ =~= dashes(i + 1));
        }
        i += 1;
    }
    out
}

/// `s` centered in a field of `width` dashes; when the text is too long it is
/// returned unchanged. The spare dash, if any, goes to the right, as the
/// standard centering convention has it.
pub open spec fn pad_center(s: Seq<char>, width: int) -> Seq<char> {
    if s.len() >= width {
        s
    } else {
        dashes((width - s.len()) / 2) + s + dashes(width - s.len() - (width - s.len()) / 2)
    }
}

pub fn center_in_dashes(s: &str, width: usize) -> (r: String)
    ensures
        r@ == pad_center(s@, width as int),
{
    let n = s.unicode_len();
    if n >= width {
        s.to_owned()
    } else {
        let pad = width - n;
        let left = pad / 2;
        let right = pad - left;
        let mut out = dash_run(left);
        out.append(s);
        let tail = dash_run(right);
        out.append(tail.as_str());
        proof {
            assert(out@ =~= pad_center(s@, width as int));
        }
        out
    }
}

} // verus!
