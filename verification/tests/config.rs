use tldrx::config::{
    Args, Config, StyledChoice, default_dir_from, get_env_languages, get_default_pages_dir,
};
use tldrx::error::TldrError;
use tldrx::platform::Platform;

fn langs(v: Vec<&str>) -> Vec<String> {
    v.into_iter().map(|s| s.to_string()).collect()
}

fn env(lang: Option<&str>, language: Option<&str>) -> Vec<String> {
    get_env_languages(
        &lang.map(|s| s.to_string()),
        &language.map(|s| s.to_string()),
    )
}

#[test]
fn missing_lang() {
    assert_eq!(env(None, Some("zh_TW:bo:en")), langs(vec![]));
}

#[test]
fn missing_language() {
    assert_eq!(env(Some("zh"), None), langs(vec!["zh"]));
}

#[test]
fn lang_with_encoding() {
    assert_eq!(env(Some("zh.UTF-8"), None), langs(vec!["zh"]));
}

#[test]
fn language_priority() {
    assert_eq!(env(Some("zh"), Some("bo:en")), langs(vec!["bo", "en", "zh"]));
}

#[test]
fn lang_and_language_expansion() {
    assert_eq!(
        env(Some("en_US"), Some("zh_TW:bo")),
        langs(vec!["zh_TW", "zh", "bo", "en_US", "en"])
    );
}

#[test]
fn ignore_c_and_posix() {
    assert_eq!(env(Some("C"), None), langs(vec![]));
    assert_eq!(env(Some("POSIX"), None), langs(vec![]));
}

#[test]
fn styled_choice_parsing() {
    assert_eq!(StyledChoice::parse("auto"), Ok(StyledChoice::Auto));
    assert_eq!(StyledChoice::parse("on"), Ok(StyledChoice::On));
    assert_eq!(StyledChoice::parse("off"), Ok(StyledChoice::Off));
    let err = StyledChoice::parse("sometimes").unwrap_err();
    assert_eq!(err, TldrError::UnknownStyledChoice("sometimes".to_string()));
    assert_eq!(
        err.message(),
        "Unknown styled choice: sometimes. Choice: [auto | on | off]"
    );
}

fn base_args() -> Args {
    Args {
        command: vec!["git".to_string()],
        platform: None,
        update: false,
        list: false,
        language: None,
        styled: None,
        version: false,
        edit: false,
    }
}

#[test]
fn combine_overrides_take_precedence() {
    let mut config = Config::default();
    let mut args = base_args();
    args.styled = Some(StyledChoice::On);
    args.platform = Some(Platform::Osx);
    args.language = Some("fr".to_string());
    config.combine(&args, &langs(vec!["de"]));
    assert_eq!(config.styled, StyledChoice::On);
    assert_eq!(config.platform, Some(Platform::Osx));
    assert_eq!(config.languages, langs(vec!["fr"]));
}

#[test]
fn combine_falls_back_to_environment_languages() {
    let mut config = Config::default();
    config.styled = StyledChoice::Off;
    config.platform = Some(Platform::Linux);
    let args = base_args();
    config.combine(&args, &langs(vec!["de", "fr"]));
    assert_eq!(config.styled, StyledChoice::Off);
    assert_eq!(config.platform, Some(Platform::Linux));
    assert_eq!(config.languages, langs(vec!["de", "fr"]));
}

#[test]
fn official_page_dir_prefers_configuration() {
    let mut config = Config::default();
    config.official_pages_dir = Some("/srv/tldr".to_string());
    assert_eq!(config.get_official_page_dir(), Ok("/srv/tldr".to_string()));
}

#[test]
fn default_pages_dir_ends_with_tldr() {
    // The default depends on the host; when one is reported it is the
    // platform cache directory with `tldr` under it.
    match get_default_pages_dir() {
        Ok(p) => assert!(p.ends_with("/tldr")),
        Err(e) => assert_eq!(e, TldrError::NoDefaultPagesDir),
    }
}

#[test]
fn default_dir_is_tldr_under_the_cache_dir() {
    assert_eq!(
        default_dir_from(Some("/home/u/.cache".to_string())),
        Ok("/home/u/.cache/tldr".to_string())
    );
    assert_eq!(default_dir_from(None), Err(TldrError::NoDefaultPagesDir));
}

#[test]
fn error_messages() {
    assert_eq!(TldrError::NoDefaultPagesDir.message(), "Error getting default pages dir!");
    assert_eq!(TldrError::EmptyPage.message(), "First line must not blank!");
}
