//! Runtime configuration: the merged result of the persisted settings, the
//! command-line overrides and the locale environment. Reading the settings
//! file and the environment is the caller's work; the merging and the locale
//! expansion rules live here.
use vstd::prelude::*;
use vstd::string::*;

use crate::error::TldrError;
use crate::platform::Platform;

verus! {

/// Whether rendered pages are styled: always, never, or only when the
/// output is an interactive terminal.
#[derive(Debug, Clone, Copy, PartialEq, Eq)]
pub enum StyledChoice {
    Auto,
    On,
    Off,
}

impl Default for StyledChoice {
    fn default() -> (r: Self)
        ensures
            r == StyledChoice::Auto,
    {
        StyledChoice::Auto
    }
}

impl StyledChoice {
    /// Parses a styling choice; only the three literal names are accepted.
    pub fn parse(s: &str) -> (r: Result<StyledChoice, TldrError>)
        ensures
            s@ == "auto"@ ==> (r matches Ok(c) && c == StyledChoice::Auto),
            s@ == "on"@ ==> (r matches Ok(c) && c == StyledChoice::On),
            s@ == "off"@ ==> (r matches Ok(c) && c == StyledChoice::Off),
            s@ != "auto"@ && s@ != "on"@ && s@ != "off"@ ==> (r matches Err(e) && e@
                == crate::error::TldrErrorV::UnknownStyledChoice(s@)),
    {
        proof {
            reveal_strlit("auto");
            reveal_strlit("on");
            reveal_strlit("off");
            assert("auto"@.len() == 4);
            assert("on"@.len() == 2);
            assert("off"@.len() == 3);
        }
        if crate::text::str_eq(s, "auto") {
            Ok(StyledChoice::Auto)
        } else if crate::text::str_eq(s, "on") {
            Ok(StyledChoice::On)
        } else if crate::text::str_eq(s, "off") {
            Ok(StyledChoice::Off)
        } else {
            Err(TldrError::UnknownStyledChoice(s.to_owned()))
        }
    }
}

/// The command-line requests that bear on configuration.
pub struct Args {
    pub command: Vec<String>,
    pub platform: Option<Platform>,
    pub update: bool,
    pub list: bool,
    pub language: Option<String>,
    pub styled: Option<StyledChoice>,
    pub version: bool,
    pub edit: bool,
}

/// The settings a lookup runs under.
pub struct Config {
    pub official_pages_dir: Option<String>,
    pub private_pages_dir: Option<String>,
    pub platform: Option<Platform>,
    pub languages: Vec<String>,
    pub styled: StyledChoice,
    pub editor: Option<String>,
}

impl Default for Config {
    fn default() -> (r: Self)
        ensures
            r.official_pages_dir is None,
            r.private_pages_dir is None,
            r.platform is None,
            r.languages@.len() == 0,
            r.styled == StyledChoice::Auto,
            r.editor is None,
    {
        Config {
            official_pages_dir: None,
            private_pages_dir: None,
            platform: None,
            languages: Vec::new(),
            styled: StyledChoice::Auto,
            editor: None,
        }
    }
}

impl Config {
    /// Lays the per-invocation requests over the persisted settings: an
    /// explicit styling or platform choice wins, an explicit language
    /// becomes the whole language list, and otherwise the list comes from
    /// the locale environment (whose values the caller hands in).
    pub fn combine(&mut self, args: &Args, env_languages: &Vec<String>)
        ensures
            final(self).styled == (match args.styled {
                Some(st) => st,
                None => old(self).styled,
            }),
            match args.platform {
                Some(ref p) => (final(self).platform matches Some(q) && q@ == p@),
                None => final(self).platform == old(self).platform,
            },
            final(self).languages.deep_view() == (match args.language {
                Some(ref l) => seq![l@],
                None => env_languages.deep_view(),
            }),
            final(self).official_pages_dir == old(self).official_pages_dir,
            final(self).private_pages_dir == old(self).private_pages_dir,
            final(self).editor == old(self).editor,
    {
        if let Some(st) = args.styled {
            self.styled = st;
        }
        match &args.platform {
            Some(p) => {
                self.platform = Some(p.clone());
            },
            None => {},
        }
        match &args.language {
            Some(l) => {
                let mut one: Vec<String> = Vec::new();
                one.push(l.clone());
                self.languages = one;
                proof {
                    assert(self.languages.deep_view() =~= seq![l@]);
                }
            },
            None => {
                self.languages = env_languages.clone();
                proof {
                    assert(self.languages.deep_view() =~= env_languages.deep_view());
                }
            },
        }
    }

    /// The root under which the official page tree lives: the configured
    /// directory when one is set, the platform cache default otherwise.
    pub fn get_official_page_dir(&self) -> (r: Result<String, TldrError>)
        ensures
            self.official_pages_dir matches Some(d) ==> (r matches Ok(p) && p@ == d@),
            self.official_pages_dir is None ==> (r matches Ok(p) ==> (exists|c: Seq<char>|
                p@ == c + "/tldr"@)),
            r matches Err(e) ==> e@ == crate::error::TldrErrorV::NoDefaultPagesDir,
    {
        match &self.official_pages_dir {
            Some(d) => Ok(d.clone()),
            None => get_default_pages_dir(),
        }
    }
}

/// Whether a locale value names a real language: at least two characters,
/// and not the `POSIX` locale in any letter case. (The one-character `C`
/// locale is ruled out by the length test.)
pub open spec fn keep_lang(s: Seq<char>) -> bool {
    s.len() >= 2 && !(s.len() == 5 && (s[0] == 'P' || s[0] == 'p') && (s[1] == 'O' || s[1]
        == 'o') && (s[2] == 'S' || s[2] == 's') && (s[3] == 'I' || s[3] == 'i') && (s[4] == 'X'
        || s[4] == 'x'))
}

pub fn keep_lang_value(s: &str) -> (r: bool)
    ensures
        r == keep_lang(s@),
{
    let n = s.unicode_len();
    if n < 2 {
        return false;
    }
    if n != 5 {
        return true;
    }
    let c0 = s.get_char(0);
    let c1 = s.get_char(1);
    let c2 = s.get_char(2);
    let c3 = s.get_char(3);
    let c4 = s.get_char(4);
    !((c0 == 'P' || c0 == 'p') && (c1 == 'O' || c1 == 'o') && (c2 == 'S' || c2 == 's') && (c3
        == 'I' || c3 == 'i') && (c4 == 'X' || c4 == 'x'))
}

/// A language code, expanded: a regional code such as `zh_TW` is followed
/// by its bare two-character language, so nearer translations are tried
/// first.
pub open spec fn lang_expansion(l: Seq<char>) -> Seq<Seq<char>> {
    if l.len() > 2 {
        seq![l, l.take(2)]
    } else {
        seq![l]
    }
}

/// Every code of a list, expanded, in order.
pub open spec fn expand_all(ls: Seq<Seq<char>>) -> Seq<Seq<char>>
    decreases ls.len(),
{
    if ls.len() == 0 {
        Seq::empty()
    } else {
        expand_all(ls.drop_last()) + lang_expansion(ls.last())
    }
}

/// Appends the expansion of one language code to the list.
fn push_expanded(out: &mut Vec<String>, l: &str)
    ensures
        final(out).deep_view() == old(out).deep_view() + lang_expansion(l@),
{
    let ghost prev = out.deep_view();
    out.push(l.to_owned());
    if l.unicode_len() > 2 {
        let short = l.substring_char(0, 2);
        out.push(short.to_owned());
        proof {
            assert(l@.subrange(0, 2) =~= l@.take(2));
            assert(out.deep_view() =~= prev + lang_expansion(l@));
        }
    } else {
        proof {
            assert(out.deep_view() =~= prev + lang_expansion(l@));
        }
    }
}

/// The language list the locale environment asks for: nothing without a
/// usable `LANG`; otherwise every colon-separated `LANGUAGE` entry,
/// expanded, followed by the expanded `LANG` value (its encoding suffix
/// dropped).
pub open spec fn env_languages_spec(lang: Option<Seq<char>>, language: Option<Seq<char>>) -> Seq<
    Seq<char>,
> {
    match lang {
        Option::None => Seq::empty(),
        Option::Some(lg) => {
            if !keep_lang(lg) {
                Seq::empty()
            } else {
                let head = match language {
                    Option::Some(ls) => if keep_lang(ls) {
                        expand_all(crate::text::split_on(ls, ':'))
                    } else {
                        Seq::empty()
                    },
                    Option::None => Seq::empty(),
                };
                head + lang_expansion(crate::text::split_on(lg, '.')[0])
            }
        },
    }
}

/// Reads the language priority list off the `LANG` and `LANGUAGE` locale
/// values, which the caller takes from the environment.
#[verifier::loop_isolation(false)]
pub fn get_env_languages(lang: &Option<String>, language: &Option<String>) -> (r: Vec<String>)
    ensures
        r.deep_view() == env_languages_spec(lang.deep_view(), language.deep_view()),
{
    let mut out: Vec<String> = Vec::new();
    let lg = match lang {
        Some(lg) => lg,
        None => {
            return out;
        },
    };
    if !keep_lang_value(lg.as_str()) {
        return out;
    }
    match language {
        Some(ls) => {
            if keep_lang_value(ls.as_str()) {
                let pieces = crate::text::split_str(ls.as_str(), ':');
                let ghost all = crate::text::split_on(ls@, ':');
                let mut k: usize = 0;
                proof {
                    assert(expand_all(all.take(0)) =~= out.deep_view());
                }
                while k < pieces.len()
                    invariant
                        0 <= k <= pieces.len(),
                        out.deep_view() == expand_all(all.take(k as int)),
                    decreases pieces.len() - k,
                {
                    push_expanded(&mut out, pieces[k].as_str());
                    proof {
                        assert(all.take(k + 1).drop_last() =~= all.take(k as int));
                        assert(all.take(k + 1).last() == pieces.deep_view()[k as int]);
                    }
                    k += 1;
                }
                proof {
                    assert(all.take(all.len() as int) =~= all);
                }
            }
        },
        None => {},
    }
    // The piece of `LANG` before any encoding suffix.
    let n = lg.as_str().unicode_len();
    let mut i: usize = 0;
    while i < n && lg.as_str().get_char(i) != '.'
        invariant
            0 <= i <= n,
            forall|j: int| 0 <= j < i ==> lg@[j] != '.',
        decreases n - i,
    {
        i += 1;
    }
    let piece = lg.as_str().substring_char(0, i);
    proof {
        if i < n {
            crate::text::lemma_split_at_first(lg@, '.', i as int);
            assert(crate::text::split_on(lg@, '.')[0] == lg@.take(i as int));
        } else {
            crate::text::lemma_split_no_sep(lg@, '.');
            assert(lg@.take(i as int) =~= lg@);
        }
        assert(lg@.subrange(0, i as int) =~= lg@.take(i as int));
    }
    push_expanded(&mut out, piece);
    out
}

/// Relies on dirs::cache_dir: the platform cache directory, if the host
/// reports one whose path is valid text. The answer depends on the host
/// environment, so nothing is promised of it.
#[verifier::external_body]
fn cache_dir_path() -> (r: Option<String>) {
    dirs::cache_dir().and_then(|p| p.to_str().map(|s| s.to_string()))
}

/// The official root a reported cache directory yields: `tldr` under it
/// when there is one, the configuration error when there is none. The
/// host's answer comes in as an argument, so this is fixed for each value
/// of it.
pub fn default_dir_from(cache: Option<String>) -> (r: Result<String, TldrError>)
    ensures
        cache matches Some(c) ==> (r matches Ok(p) && p@ == c@ + "/tldr"@),
        cache is None ==> (r matches Err(e) && e@
            == crate::error::TldrErrorV::NoDefaultPagesDir),
{
    match cache {
        Some(mut d) => {
            let ghost c = d@;
            d.append("/tldr");
            proof {
                assert(d@ == c + "/tldr"@);
            }
            Ok(d)
        },
        None => Err(TldrError::NoDefaultPagesDir),
    }
}

/// The default cache location for the official pages: the platform cache
/// directory with `tldr` under it. The host decides whether a cache
/// directory exists at all, so only the shape of each outcome is fixed
/// here; `default_dir_from` pins the result for each possible answer.
pub fn get_default_pages_dir() -> (r: Result<String, TldrError>)
    ensures
        r matches Ok(p) ==> (exists|c: Seq<char>| p@ == c + "/tldr"@),
        r matches Err(e) ==> e@ == crate::error::TldrErrorV::NoDefaultPagesDir,
{
    default_dir_from(cache_dir_path())
}

} // verus!
