use tldrx::cache::{lang_folders, do_seek, seek, seek_candidates, SeekPlan};
use tldrx::config::{Config, StyledChoice};
use tldrx::page::Kind;
use tldrx::platform::Platform;

fn config_with(languages: Vec<&str>, platform: Option<Platform>, private: Option<&str>) -> Config {
    Config {
        official_pages_dir: Some("/cache/tldr".to_string()),
        private_pages_dir: private.map(|s| s.to_string()),
        platform,
        languages: languages.into_iter().map(|s| s.to_string()).collect(),
        styled: StyledChoice::Off,
        editor: None,
    }
}

#[test]
fn folder_order_stops_at_en_and_ends_with_pages() {
    let langs = vec!["fr".to_string(), "en".to_string(), "de".to_string()];
    let folders = lang_folders(&langs);
    assert_eq!(folders, vec!["pages.fr".to_string(), "pages".to_string()]);
}

#[test]
fn folder_order_without_languages() {
    let folders = lang_folders(&Vec::new());
    assert_eq!(folders, vec!["pages".to_string()]);
}

#[test]
fn folder_order_en_first() {
    let langs = vec!["en".to_string(), "fr".to_string()];
    assert_eq!(lang_folders(&langs), vec!["pages".to_string()]);
}

#[test]
fn candidate_paths_in_search_order() {
    let config = config_with(vec!["fr"], Some(Platform::Linux), None);
    let plan = seek_candidates("tar", &config, &Platform::Linux).unwrap();
    let paths: Vec<&str> = plan.official.iter().map(|c| c.path.as_str()).collect();
    assert_eq!(
        paths,
        vec![
            "/cache/tldr/tldr-pages/pages.fr/linux/tar.md",
            "/cache/tldr/tldr-pages/pages.fr/common/tar.md",
            "/cache/tldr/tldr-pages/pages/linux/tar.md",
            "/cache/tldr/tldr-pages/pages/common/tar.md",
        ]
    );
    assert!(plan.private.is_empty());
}

#[test]
fn unconfigured_platform_uses_host_default() {
    let config = config_with(vec![], None, None);
    let plan = seek_candidates("tar", &config, &Platform::Linux).unwrap();
    let paths: Vec<&str> = plan.official.iter().map(|c| c.path.as_str()).collect();
    assert_eq!(
        paths,
        vec![
            "/cache/tldr/tldr-pages/pages/linux/tar.md",
            "/cache/tldr/tldr-pages/pages/common/tar.md",
        ]
    );
    let exists = vec![true, false];
    let page = do_seek(&plan.official, &exists, Kind::Official, StyledChoice::Off).unwrap();
    assert_eq!(page.platform, Platform::Linux);
}

#[test]
fn candidate_paths_for_common_platform() {
    let config = config_with(vec![], Some(Platform::Common), None);
    let plan = seek_candidates("tar", &config, &Platform::Linux).unwrap();
    let paths: Vec<&str> = plan.official.iter().map(|c| c.path.as_str()).collect();
    // No separate fallback probe: the platform folder is already `common`.
    assert_eq!(paths, vec!["/cache/tldr/tldr-pages/pages/common/tar.md"]);
}

#[test]
fn common_fallback_keeps_requested_platform() {
    let config = config_with(vec![], Some(Platform::Linux), None);
    let plan = seek_candidates("tar", &config, &Platform::Linux).unwrap();
    // The linux file is absent, the common file present.
    let exists = vec![false, true];
    let page = do_seek(&plan.official, &exists, Kind::Official, StyledChoice::Off).unwrap();
    assert_eq!(page.file, "/cache/tldr/tldr-pages/pages/common/tar.md");
    assert_eq!(page.platform, Platform::Linux);
    assert_eq!(page.kind, Kind::Official);
}

#[test]
fn absent_command_resolves_to_empty_list() {
    let config = config_with(vec!["fr"], Some(Platform::Linux), Some("/home/u/pages"));
    let plan = seek_candidates("nope", &config, &Platform::Linux).unwrap();
    let official_exists = vec![false; plan.official.len()];
    let private_exists = vec![false; plan.private.len()];
    let pages = seek(&plan, &official_exists, &private_exists, StyledChoice::Off);
    assert!(pages.is_empty());
}

#[test]
fn official_and_private_pages_in_order() {
    let config = config_with(vec![], Some(Platform::Linux), Some("/home/u/pages"));
    let plan = seek_candidates("tar", &config, &Platform::Linux).unwrap();
    let official_exists = vec![true; plan.official.len()];
    let private_exists = vec![true; plan.private.len()];
    let pages = seek(&plan, &official_exists, &private_exists, StyledChoice::Off);
    assert_eq!(pages.len(), 2);
    assert_eq!(pages[0].kind, Kind::Official);
    assert_eq!(pages[0].file, "/cache/tldr/tldr-pages/pages/linux/tar.md");
    assert_eq!(pages[1].kind, Kind::Private);
    assert_eq!(pages[1].file, "/home/u/pages/pages/linux/tar.md");
}

#[test]
fn private_tree_searched_without_subdirectory() {
    let config = config_with(vec!["fr"], Some(Platform::Osx), Some("/home/u/pages"));
    let plan: SeekPlan = seek_candidates("tar", &config, &Platform::Linux).unwrap();
    let paths: Vec<&str> = plan.private.iter().map(|c| c.path.as_str()).collect();
    assert_eq!(
        paths,
        vec![
            "/home/u/pages/pages.fr/osx/tar.md",
            "/home/u/pages/pages.fr/common/tar.md",
            "/home/u/pages/pages/osx/tar.md",
            "/home/u/pages/pages/common/tar.md",
        ]
    );
}
