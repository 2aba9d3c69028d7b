use rustpress::config::{
    Appearance, ConfigError, IgnoreDeadLinks, OutlineConfig, OutlineLevel, Sidebar, SiteConfig,
};

#[test]
fn empty_file_gives_defaults() {
    let c = SiteConfig::default();
    assert_eq!(c.lang, "en");
    assert_eq!(c.base, "/");
    assert_eq!(c.outline.label(), "On this page");
    assert!(c.nav.is_empty());
    assert_eq!(c.sidebar, Sidebar::Auto);
    assert!(c.search.is_none());
    assert!(!c.last_updated);
}

#[test]
fn bad_base_is_rejected_by_validate() {
    let c = SiteConfig { base: "docs".into(), ..Default::default() };
    assert!(matches!(c.validate(), Err(ConfigError::Base { .. })));
}

#[test]
fn good_base_passes_validate() {
    let c = SiteConfig { base: "/docs/".into(), ..Default::default() };
    assert!(c.validate().is_ok());
    let c = SiteConfig { base: "/docs".into(), ..Default::default() };
    match c.validate() {
        Err(ConfigError::Base { value }) => assert_eq!(value, "/docs"),
        other => panic!("unexpected {other:?}"),
    }
}

#[test]
fn outline_config_defaults() {
    let o = OutlineConfig::default();
    assert!(o.enabled());
    assert_eq!(o.label(), "On this page");
}

#[test]
fn appearance_words() {
    assert!(Appearance::default().toggleable());
    assert!(Appearance::from_word("force-dark").is_some());
    assert!(!Appearance::from_word("force-dark").unwrap().toggleable());
    assert!(Appearance::from_word("nonsense").is_none());
    assert!(IgnoreDeadLinks::from_word("localhostLinks").is_some());
    let _ = OutlineLevel::Single(2);
}

#[test]
fn config_file_name() {
    assert_eq!(SiteConfig::config_file(), "rustpress.toml");
}
