use rxer::config::{
    config_source, default_config_file, macos_config_base, read_failure_is_fatal,
    unix_config_base, Config, ConfigError, Station,
};
use rxer::web::UrlError;

fn station(url: &str, name: Option<&str>, encoding: Option<&str>) -> Station {
    Station {
        url: url.to_string(),
        name: name.map(str::to_string),
        metadata_encoding: encoding.map(str::to_string),
    }
}

fn config(entries: Vec<(&str, Station)>) -> Config {
    let mut c = Config::new();
    for (alias, s) in entries {
        c.insert(alias.to_string(), s);
    }
    c
}

#[test]
fn overlays_whole_station_tables_and_preserves_other_defaults() {
    let defaults = config(vec![
        ("a", station("https://example.org/a", Some("old"), None)),
        ("b", station("https://example.org/b", None, None)),
    ]);
    let user = config(vec![
        ("a", station("https://example.org/new", None, None)),
        ("c", station("http://example.org/c", None, None)),
    ]);
    let c = Config::merge(defaults, Some(user)).unwrap();
    assert_eq!(c.len(), 3);
    assert_eq!(c.resolve("a").unwrap(), "https://example.org/new");
    assert!(c.get("a").unwrap().name.is_none());
}

#[test]
fn rejects_invalid_configuration() {
    for (alias, s) in [
        ("a", station("file:///x", None, None)),
        ("UPPER", station("https://example.org", None, None)),
        (
            "a",
            station("https://example.org", None, Some("unknown-encoding")),
        ),
    ] {
        assert!(
            Config::merge(Config::new(), Some(config(vec![(alias, s)]))).is_err(),
            "{alias}"
        );
    }
}

#[test]
fn stations_are_listed_in_alias_order_and_replaced_in_place() {
    let c = config(vec![
        ("zeta", station("https://example.org/z", None, None)),
        ("alpha", station("https://example.org/a", None, None)),
        ("mid-1", station("https://example.org/m", None, None)),
        ("alpha", station("https://example.org/a2", Some("A"), None)),
    ]);
    let aliases: Vec<&str> = c.entries().iter().map(|(a, _)| a.as_str()).collect();
    assert_eq!(aliases, vec!["alpha", "mid-1", "zeta"]);
    assert_eq!(c.get("alpha").unwrap().url, "https://example.org/a2");
    assert_eq!(c.get("alpha").unwrap().name.as_deref(), Some("A"));
    assert!(c.get("beta").is_none());
}

#[test]
fn the_first_invalid_station_in_alias_order_is_reported() {
    let user = config(vec![
        ("b", station("ftp://example.org", None, None)),
        ("a", station("https://example.org", Some("x\u{7}"), None)),
        ("c-", station("https://example.org", None, Some("latin1"))),
    ]);
    let e = Config::merge(Config::new(), Some(user)).unwrap_err();
    assert_eq!(e, ConfigError::ControlName("a".to_string()));
    assert_eq!(e.message(), "station a: name contains control characters");
}

#[test]
fn each_config_error_has_its_message() {
    let cases = [
        (
            "Bad Alias",
            station("https://example.org", None, None),
            ConfigError::InvalidAlias("Bad Alias".to_string()),
            "invalid station alias: \"Bad Alias\"; use lowercase letters, digits, _ or -",
        ),
        (
            "",
            station("https://example.org", None, None),
            ConfigError::InvalidAlias(String::new()),
            "invalid station alias: \"\"; use lowercase letters, digits, _ or -",
        ),
        (
            "enc",
            station("https://example.org", None, Some("no-such")),
            ConfigError::UnknownEncoding("enc".to_string(), "no-such".to_string()),
            "station enc: unknown metadata encoding \"no-such\"",
        ),
        (
            "url",
            station("file:///x", None, None),
            ConfigError::Url("url".to_string(), UrlError::NotHttp),
            "station url: expected an HTTP(S) URL with a host and no whitespace or control characters",
        ),
        (
            "nourl",
            station("not a url", None, None),
            ConfigError::Url("nourl".to_string(), UrlError::NotUrl),
            "station nourl: expected an HTTP(S) URL or known station alias; try rxer --list",
        ),
    ];
    for (alias, s, error, message) in cases {
        let e = Config::merge(Config::new(), Some(config(vec![(alias, s)]))).unwrap_err();
        assert_eq!(e, error);
        assert_eq!(e.message(), message);
    }
}

#[test]
fn known_encodings_and_clean_names_are_accepted() {
    let user = config(vec![(
        "x_1",
        station("https://example.org/s", Some("Name"), Some("windows-1251")),
    )]);
    let c = Config::merge(Config::builtin(), Some(user)).unwrap();
    assert_eq!(c.len(), 2);
    assert_eq!(c.resolve("x_1").unwrap(), "https://example.org/s");
}

#[test]
fn defaults_hold_the_builtin_station() {
    let c = Config::defaults().unwrap();
    assert_eq!(c.len(), 1);
    assert_eq!(c.resolve("kusc").unwrap(), "https://96.aac.pls.kusc.live");
    assert_eq!(
        c.get("kusc").unwrap().name.as_deref(),
        Some("Classical California KUSC")
    );
}

#[test]
fn resolve_validates_aliases_and_direct_urls() {
    let c = Config::defaults().unwrap();
    assert_eq!(
        c.resolve("https://example.org/radio").unwrap(),
        "https://example.org/radio"
    );
    for source in [
        "unknown",
        "file:///tmp/test",
        "https://",
        "https://example.org/\n",
    ] {
        assert!(c.resolve(source).is_err(), "{source}");
    }
    assert_eq!(c.resolve("unknown"), Err(UrlError::NotUrl));
    assert_eq!(c.resolve("file:///tmp/test"), Err(UrlError::NotHttp));
}

#[test]
fn aliases_beginning_with_a_hyphen_are_rejected() {
    let e = Config::merge(
        Config::new(),
        Some(config(vec![("-x", station("https://example.org", None, None))])),
    )
    .unwrap_err();
    assert_eq!(e, ConfigError::InvalidAlias("-x".to_string()));
    let ok = Config::merge(
        Config::new(),
        Some(config(vec![("x-", station("https://example.org", None, None))])),
    );
    assert!(ok.is_ok());
}

fn some(s: &str) -> Option<String> {
    Some(s.to_string())
}

#[test]
fn config_lookup_order_and_missing_files() {
    assert_eq!(
        config_source(some("cli.toml"), some("env.toml"), some("default.toml")),
        Some(("cli.toml".to_string(), true))
    );
    assert_eq!(
        config_source(None, some("env.toml"), some("default.toml")),
        Some(("env.toml".to_string(), true))
    );
    assert_eq!(
        config_source(None, None, some("default.toml")),
        Some(("default.toml".to_string(), false))
    );
    assert_eq!(config_source(None, None, None), None);
    assert!(!read_failure_is_fatal(false, true));
    assert!(read_failure_is_fatal(false, false));
    assert!(read_failure_is_fatal(true, true));
}

#[test]
fn platform_config_directories() {
    assert_eq!(
        unix_config_base(some("/xdg"), some("/home/u")),
        some("/xdg")
    );
    assert_eq!(
        unix_config_base(some("relative"), some("/home/u")),
        some("/home/u/.config")
    );
    assert_eq!(unix_config_base(None, None), None);
    assert_eq!(
        macos_config_base(some("/Users/u")),
        some("/Users/u/Library/Application Support")
    );
    assert_eq!(
        default_config_file(some("/home/u/.config")),
        some("/home/u/.config/rxer/config.toml")
    );
    assert_eq!(default_config_file(None), None);
}
