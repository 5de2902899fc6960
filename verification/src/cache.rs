//! Resolution of a command against the page trees: the ordered list of
//! language folders, the candidate files each folder offers for a platform,
//! and the pick of the first candidate that exists. Probing the filesystem
//! is the caller's work; the order and the outcome are fixed here.
use vstd::prelude::*;
use vstd::string::*;

use crate::config::{Config, StyledChoice};
use crate::error::TldrError;
use crate::page::{Kind, Page, PageV};
use crate::platform::{Platform, PlatformV, platform_name};
use crate::text::str_eq;

verus! {

/// The ordered language folders a search walks: one `pages.<code>` folder
/// per configured code, stopping as soon as `en` is met (English lives in
/// the plain folder), and the plain `pages` folder last in every case.
pub open spec fn folders_spec(langs: Seq<Seq<char>>) -> Seq<Seq<char>>
    decreases langs.len(),
{
    if langs.len() == 0 {
        seq!["pages"@]
    } else if langs[0] == "en"@ {
        seq!["pages"@]
    } else {
        seq!["pages."@ + langs[0]] + folders_spec(langs.drop_first())
    }
}

/// Builds the ordered language-folder list for the configured codes.
#[verifier::loop_isolation(false)]
pub fn lang_folders(languages: &Vec<String>) -> (r: Vec<String>)
    ensures
        r.deep_view() == folders_spec(languages.deep_view()),
{
    let ghost all = languages.deep_view();
    let mut out: Vec<String> = Vec::new();
    let mut i: usize = 0;
    proof {
        assert(all.skip(0) =~= all);
        assert(out.deep_view() + folders_spec(all) =~= folders_spec(all));
    }
    while i < languages.len() && !str_eq(languages[i].as_str(), "en")
        invariant
            0 <= i <= languages.len(),
            folders_spec(all) == out.deep_view() + folders_spec(all.skip(i as int)),
        decreases languages.len() - i,
    {
        let ghost prev = out.deep_view();
        let mut folder = "pages.".to_owned();
        folder.append(languages[i].as_str());
        out.push(folder);
        proof {
            let tail = all.skip(i as int);
            assert(tail[0] == all[i as int]);
            assert(tail.drop_first() =~= all.skip(i + 1));
            assert(out.deep_view() =~= prev.push("pages."@ + all[i as int]));
            assert(prev.push("pages."@ + all[i as int]) + folders_spec(all.skip(i + 1)) =~= prev
                + folders_spec(tail));
        }
        i += 1;
    }
    let ghost prev = out.deep_view();
    out.push("pages".to_owned());
    proof {
        let tail = all.skip(i as int);
        assert(folders_spec(tail) =~= seq!["pages"@]);
        assert(out.deep_view() =~= prev.push("pages"@));
        assert(prev.push("pages"@) =~= prev + seq!["pages"@]);
    }
    out
}

/// Law: however the language codes are configured, the folder order ends
/// with the plain `pages` folder, holds it exactly once, never holds the
/// folder of code `en`, and is cut short at the first `en` so that later
/// codes are never searched.
pub proof fn lemma_lang_folders_law(langs: Seq<Seq<char>>)
    ensures
        folders_spec(langs).len() >= 1,
        folders_spec(langs).last() == "pages"@,
        forall|i: int| 0 <= i < folders_spec(langs).len() - 1 ==> folders_spec(langs)[i]
            != "pages"@,
        forall|i: int| 0 <= i < folders_spec(langs).len() ==> folders_spec(langs)[i]
            != "pages.en"@,
        forall|k: int| 0 <= k < langs.len() && langs[k] == "en"@ ==> folders_spec(langs).len() <= k
            + 1,
    decreases langs.len(),
{
    reveal_strlit("pages");
    reveal_strlit("pages.");
    reveal_strlit("pages.en");
    reveal_strlit("en");
    assert("pages"@.len() == 5);
    assert("pages."@.len() == 6);
    assert("pages.en"@.len() == 8);
    assert("en"@.len() == 2);
    if langs.len() == 0 || langs[0] == "en"@ {
        assert(folders_spec(langs) =~= seq!["pages"@]);
    } else {
        lemma_lang_folders_law(langs.drop_first());
        let fs = folders_spec(langs);
        let rest = folders_spec(langs.drop_first());
        assert(fs == seq!["pages."@ + langs[0]] + rest);
        assert(fs[0] == "pages."@ + langs[0]);
        assert(fs[0].len() >= 6);
        assert(forall|i: int| 1 <= i < fs.len() ==> fs[i] == rest[i - 1]);
        assert(fs.last() == rest.last());
        if fs[0] == "pages.en"@ {
            assert(("pages."@ + langs[0]).skip(6) =~= langs[0]);
            assert("pages.en"@.skip(6) =~= "en"@);
            assert(langs[0] == "en"@);
            assert(false);
        }
        assert(forall|k: int| 0 <= k < langs.drop_first().len() && langs.drop_first()[k] == "en"@
            ==> rest.len() <= k + 1);
        assert forall|k: int| 0 <= k < langs.len() && langs[k] == "en"@ implies fs.len() <= k
            + 1 by {
            assert(k != 0);
            assert(langs.drop_first()[k - 1] == "en"@);
        }
    }
}

/// One file the search may probe, with the platform the page will be
/// tagged with if the probe succeeds.
pub struct Candidate {
    pub path: String,
    pub platform: Platform,
}

/// The mathematical value of a candidate.
pub struct CandV {
    pub path: Seq<char>,
    pub platform: PlatformV,
}

impl View for Candidate {
    type V = CandV;

    open spec fn view(&self) -> CandV {
        CandV { path: self.path@, platform: self.platform@ }
    }
}

impl DeepView for Candidate {
    type V = CandV;

    open spec fn deep_view(&self) -> CandV {
        self.view()
    }
}

/// The path of one candidate page file.
pub open spec fn page_path(
    root: Seq<char>,
    folder: Seq<char>,
    plat_dir: Seq<char>,
    filename: Seq<char>,
) -> Seq<char> {
    root + "/"@ + folder + "/"@ + plat_dir + "/"@ + filename
}

fn join_path(root: &str, folder: &str, plat_dir: &str, filename: &str) -> (r: String)
    ensures
        r@ == page_path(root@, folder@, plat_dir@, filename@),
{
    let mut out = root.to_owned();
    out.append("/");
    out.append(folder);
    out.append("/");
    out.append(plat_dir);
    out.append("/");
    out.append(filename);
    proof {
        assert(out@ =~= page_path(root@, folder@, plat_dir@, filename@));
    }
    out
}

/// The candidates one language folder offers: the requested platform's
/// file and, for a platform other than Common, the common file after it.
/// Both carry the requested platform's tag: a page found through the
/// common fallback still answers for the platform that was asked about.
pub open spec fn folder_candidates(
    root: Seq<char>,
    folder: Seq<char>,
    p: PlatformV,
    filename: Seq<char>,
) -> Seq<CandV> {
    let own = CandV { path: page_path(root, folder, platform_name(p), filename), platform: p };
    if p is Common {
        seq![own]
    } else {
        seq![own, CandV { path: page_path(root, folder, "common"@, filename), platform: p }]
    }
}

/// Every candidate of a search, language folder by language folder.
pub open spec fn candidates_spec(
    root: Seq<char>,
    folders: Seq<Seq<char>>,
    p: PlatformV,
    filename: Seq<char>,
) -> Seq<CandV>
    decreases folders.len(),
{
    if folders.len() == 0 {
        Seq::empty()
    } else {
        folder_candidates(root, folders[0], p, filename) + candidates_spec(
            root,
            folders.drop_first(),
            p,
            filename,
        )
    }
}

/// Builds the ordered candidate list for one page tree.
#[verifier::loop_isolation(false)]
pub fn build_candidates(
    root: &str,
    folders: &Vec<String>,
    platform: &Platform,
    filename: &str,
) -> (r: Vec<Candidate>)
    ensures
        r.deep_view() == candidates_spec(root@, folders.deep_view(), platform@, filename@),
{
    let ghost all = folders.deep_view();
    let mut out: Vec<Candidate> = Vec::new();
    let mut i: usize = 0;
    proof {
        assert(all.skip(0) =~= all);
        assert(out.deep_view() + candidates_spec(root@, all, platform@, filename@)
            =~= candidates_spec(root@, all, platform@, filename@));
    }
    while i < folders.len()
        invariant
            0 <= i <= folders.len(),
            candidates_spec(root@, all, platform@, filename@) == out.deep_view()
                + candidates_spec(root@, all.skip(i as int), platform@, filename@),
        decreases folders.len() - i,
    {
        let ghost prev = out.deep_view();
        let plat_name = platform.name();
        let own_path = join_path(root, folders[i].as_str(), plat_name.as_str(), filename);
        out.push(Candidate { path: own_path, platform: platform.clone() });
        if !platform.is_common() {
            let common_path = join_path(root, folders[i].as_str(), "common", filename);
            out.push(Candidate { path: common_path, platform: platform.clone() });
        }
        proof {
            let tail = all.skip(i as int);
            assert(tail[0] == all[i as int]);
            assert(tail.drop_first() =~= all.skip(i + 1));
            assert(out.deep_view() =~= prev + folder_candidates(
                root@,
                all[i as int],
                platform@,
                filename@,
            ));
            assert(prev + folder_candidates(root@, all[i as int], platform@, filename@)
                + candidates_spec(root@, all.skip(i + 1), platform@, filename@) =~= prev
                + candidates_spec(root@, tail, platform@, filename@));
        }
        i += 1;
    }
    proof {
        assert(all.skip(folders.len() as int) =~= Seq::<Seq<char>>::empty());
        assert(out.deep_view() + candidates_spec(
            root@,
            Seq::<Seq<char>>::empty(),
            platform@,
            filename@,
        ) =~= out.deep_view());
    }
    out
}

/// The index of the first existing candidate, reading from position `i` on.
pub open spec fn first_hit(exists: Seq<bool>, i: int) -> Option<int>
    decreases exists.len() - i
        when 0 <= i
{
    if i >= exists.len() {
        None
    } else if exists[i] {
        Some(i)
    } else {
        first_hit(exists, i + 1)
    }
}

pub proof fn lemma_first_hit_none(exists: Seq<bool>, i: int)
    requires
        0 <= i <= exists.len(),
        forall|j: int| i <= j < exists.len() ==> !exists[j],
    ensures
        first_hit(exists, i) is None,
    decreases exists.len() - i,
{
    if i < exists.len() {
        lemma_first_hit_none(exists, i + 1);
    }
}

pub proof fn lemma_first_hit_at(exists: Seq<bool>, i: int, t: int)
    requires
        0 <= i <= t < exists.len(),
        forall|j: int| i <= j < t ==> !exists[j],
        exists[t],
    ensures
        first_hit(exists, i) == Some(t),
    decreases t - i,
{
    if i < t {
        lemma_first_hit_at(exists, i + 1, t);
    }
}

/// The page a search of one tree yields, given which candidates exist:
/// the first existing candidate, or nothing — absence is not an error.
pub open spec fn hit_pages(
    cands: Seq<CandV>,
    exists: Seq<bool>,
    kind: Kind,
    styled: StyledChoice,
) -> Seq<PageV> {
    match first_hit(exists, 0) {
        Some(i) => seq![
            PageV { file: cands[i].path, kind: kind, platform: cands[i].platform, styled: styled },
        ],
        None => Seq::empty(),
    }
}

/// Picks the first candidate whose probe succeeded; `exists[i]` is the
/// caller's answer to whether `cands[i]` is a regular file on disk.
#[verifier::loop_isolation(false)]
pub fn do_seek(
    cands: &Vec<Candidate>,
    exists: &Vec<bool>,
    kind: Kind,
    styled: StyledChoice,
) -> (r: Option<Page>)
    requires
        exists@.len() == cands@.len(),
    ensures
        match first_hit(exists@, 0) {
            Some(i) => r matches Some(p) && p@ == (PageV {
                file: cands.deep_view()[i].path,
                kind: kind,
                platform: cands.deep_view()[i].platform,
                styled: styled,
            }),
            None => r is None,
        },
{
    let mut i: usize = 0;
    while i < cands.len()
        invariant
            0 <= i <= cands.len(),
            first_hit(exists@, 0) == first_hit(exists@, i as int),
        decreases cands.len() - i,
    {
        if exists[i] {
            return Page::option_from(
                cands[i].path.clone(),
                kind,
                cands[i].platform.clone(),
                styled,
                true,
            );
        }
        i += 1;
    }
    None
}

/// The candidate lists of one lookup: the official tree's and, when a
/// private tree is configured, the private tree's.
pub struct SeekPlan {
    pub official: Vec<Candidate>,
    pub private: Vec<Candidate>,
}

/// The platform a lookup runs for: the configured one, or the host
/// default when none is explicitly requested.
pub open spec fn requested_platform(c: crate::config::Config, host: PlatformV) -> PlatformV {
    match c.platform {
        Some(p) => p@,
        None => host,
    }
}

/// Lays out every file a lookup for `command` may probe, in search order:
/// the official tree under the configured or default root (with the fixed
/// `tldr-pages` directory under it), and the private tree as configured.
/// When no platform is configured the lookup runs for `host`, the host
/// default platform, which the caller resolves once per process.
/// Fails only when no official root can be determined.
pub fn seek_candidates(command: &str, config: &Config, host: &Platform) -> (r: Result<
    SeekPlan,
    TldrError,
>)
    ensures
        r matches Ok(plan) ==> (exists|base: Seq<char>|
            {
                &&& plan.official.deep_view() == candidates_spec(
                    base + "/tldr-pages"@,
                    folders_spec(config.languages.deep_view()),
                    requested_platform(*config, host@),
                    command@ + ".md"@,
                )
                &&& (config.official_pages_dir matches Some(d) ==> base == d@)
                &&& (config.official_pages_dir is None ==> (exists|c: Seq<char>|
                    base == c + "/tldr"@))
            }),
        r matches Ok(plan) ==> (match config.private_pages_dir {
            Some(d) => plan.private.deep_view() == candidates_spec(
                d@,
                folders_spec(config.languages.deep_view()),
                requested_platform(*config, host@),
                command@ + ".md"@,
            ),
            None => plan.private.deep_view() == Seq::<CandV>::empty(),
        }),
        r matches Err(e) ==> e@ == crate::error::TldrErrorV::NoDefaultPagesDir,
        config.official_pages_dir is Some ==> r is Ok,
    {
    let base = match config.get_official_page_dir() {
        Ok(b) => b,
        Err(e) => {
            return Err(e);
        },
    };
    let ghost base_view = base@;
    let mut official_root = base;
    official_root.append("/tldr-pages");
    let folders = lang_folders(&config.languages);
    let platform = match &config.platform {
        Some(p) => p.clone(),
        None => host.clone(),
    };
    let mut filename = command.to_owned();
    filename.append(".md");
    let official = build_candidates(
        official_root.as_str(),
        &folders,
        &platform,
        filename.as_str(),
    );
    let private = match &config.private_pages_dir {
        Some(d) => build_candidates(d.as_str(), &folders, &platform, filename.as_str()),
        None => {
            let none: Vec<Candidate> = Vec::new();
            proof {
                assert(none.deep_view() =~= Seq::<CandV>::empty());
            }
            none
        },
    };
    Ok(SeekPlan { official, private })
}

/// Resolves a lookup once the probes are in: the official tree's first
/// existing candidate, then the private tree's, each wrapped as a page.
/// A command absent from both trees yields the empty list, not an error.
pub fn seek(
    plan: &SeekPlan,
    official_exists: &Vec<bool>,
    private_exists: &Vec<bool>,
    styled: StyledChoice,
) -> (r: Vec<Page>)
    requires
        official_exists@.len() == plan.official@.len(),
        private_exists@.len() == plan.private@.len(),
    ensures
        r.deep_view() == hit_pages(
            plan.official.deep_view(),
            official_exists@,
            Kind::Official,
            styled,
        ) + hit_pages(plan.private.deep_view(), private_exists@, Kind::Private, styled),
        (forall|i: int| 0 <= i < official_exists@.len() ==> !official_exists@[i]) && (forall|i: int|
            0 <= i < private_exists@.len() ==> !private_exists@[i]) ==> r@.len() == 0,
{
    let mut out: Vec<Page> = Vec::new();
    if let Some(p) = do_seek(&plan.official, official_exists, Kind::Official, styled) {
        out.push(p);
    }
    if let Some(p) = do_seek(&plan.private, private_exists, Kind::Private, styled) {
        out.push(p);
    }
    proof {
        if forall|i: int| 0 <= i < official_exists@.len() ==> !official_exists@[i] {
            lemma_first_hit_none(official_exists@, 0);
        }
        if forall|i: int| 0 <= i < private_exists@.len() ==> !private_exists@[i] {
            lemma_first_hit_none(private_exists@, 0);
        }
        assert(out.deep_view() =~= hit_pages(
            plan.official.deep_view(),
            official_exists@,
            Kind::Official,
            styled,
        ) + hit_pages(plan.private.deep_view(), private_exists@, Kind::Private, styled));
    }
    out
}

/// The shape of a candidate list for a platform other than Common: two
/// candidates per language folder, the platform's own file first and the
/// common fallback right after it, both tagged with the platform.
pub proof fn lemma_candidates_shape(
    root: Seq<char>,
    folders: Seq<Seq<char>>,
    p: PlatformV,
    filename: Seq<char>,
    k: int,
)
    requires
        !(p is Common),
        0 <= k < folders.len(),
    ensures
        candidates_spec(root, folders, p, filename).len() == 2 * folders.len(),
        candidates_spec(root, folders, p, filename)[2 * k] == (CandV {
            path: page_path(root, folders[k], platform_name(p), filename),
            platform: p,
        }),
        candidates_spec(root, folders, p, filename)[2 * k + 1] == (CandV {
            path: page_path(root, folders[k], "common"@, filename),
            platform: p,
        }),
    decreases folders.len(),
{
    lemma_candidates_len(root, folders, p, filename);
    if k > 0 {
        lemma_candidates_shape(root, folders.drop_first(), p, filename, k - 1);
        assert(folders.drop_first()[k - 1] == folders[k]);
    }
}

pub proof fn lemma_candidates_len(
    root: Seq<char>,
    folders: Seq<Seq<char>>,
    p: PlatformV,
    filename: Seq<char>,
)
    requires
        !(p is Common),
    ensures
        candidates_spec(root, folders, p, filename).len() == 2 * folders.len(),
    decreases folders.len(),
{
    if folders.len() > 0 {
        lemma_candidates_len(root, folders.drop_first(), p, filename);
    }
}

/// Law: for a requested platform other than Common, when in some language
/// folder the platform-specific file is absent but the common file exists,
/// and nothing before it exists, the search picks that common file and the
/// page still carries the platform that was asked about, not Common.
pub proof fn lemma_common_fallback_keeps_platform(
    root: Seq<char>,
    folders: Seq<Seq<char>>,
    p: PlatformV,
    filename: Seq<char>,
    exists: Seq<bool>,
    k: int,
)
    requires
        !(p is Common),
        0 <= k < folders.len(),
        exists.len() == candidates_spec(root, folders, p, filename).len(),
        forall|j: int| 0 <= j < 2 * k + 1 ==> !exists[j],
        exists[2 * k + 1],
    ensures
        first_hit(exists, 0) == Some(2 * k + 1),
        candidates_spec(root, folders, p, filename)[2 * k + 1].platform == p,
        candidates_spec(root, folders, p, filename)[2 * k + 1].path == page_path(
            root,
            folders[k],
            "common"@,
            filename,
        ),
{
    lemma_candidates_shape(root, folders, p, filename, k);
    lemma_first_hit_at(exists, 0, 2 * k + 1);
}

} // verus!
