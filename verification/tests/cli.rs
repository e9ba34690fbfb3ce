use rxer::cli::{parse, scan, Action, CliError, Command, KUSC};

fn args(s: &[&str]) -> Result<Action, CliError> {
    parse(s.iter().map(|s| s.to_string()).collect())
}

#[test]
fn validates_inputs_before_spawning() {
    for bad in [
        vec![],
        vec!["--volume", "101", "kusc"],
        vec!["--volume"],
        vec!["--unknown"],
        vec!["kusc", "kusc"],
        vec!["file:///etc/passwd"],
        vec!["https://"],
        vec!["https://a/\n"],
    ] {
        assert!(args(&bad).is_err(), "{bad:?}");
    }
}

#[test]
fn resolves_alias_and_options() {
    assert_eq!(
        args(&["--volume", "0", "kusc", "--tui", "--resolve"]).unwrap(),
        Action::Play {
            url: KUSC.into(),
            volume: 0,
            tui: true,
            resolve: true,
            check: false
        }
    );
}

#[test]
fn help_version_and_list_stop_reading_arguments() {
    assert_eq!(args(&["--tui", "-h", "--unknown"]).unwrap(), Action::Help);
    assert_eq!(args(&["--version"]).unwrap(), Action::Version);
    assert_eq!(args(&["-V"]).unwrap(), Action::Version);
    assert_eq!(args(&["--list", "a", "b"]).unwrap(), Action::List);
}

#[test]
fn defaults_and_direct_urls() {
    assert_eq!(
        args(&["https://example.org/radio.mp3", "--check"]).unwrap(),
        Action::Play {
            url: "https://example.org/radio.mp3".into(),
            volume: 50,
            tui: false,
            resolve: false,
            check: true
        }
    );
}

#[test]
fn each_cli_error_has_its_message() {
    let cases: [(&[&str], &str); 6] = [
        (&[], "provide a stream URL or alias; try rxer --help"),
        (&["a", "b"], "provide exactly one stream URL or alias"),
        (&["--volume"], "--volume requires a number from 0 to 100"),
        (&["--volume", "101"], "volume must be between 0 and 100"),
        (&["--unknown"], "unknown option: --unknown"),
        (
            &["ftp://x"],
            "expected an HTTP(S) stream URL or station alias; try rxer --list",
        ),
    ];
    for (a, message) in cases {
        assert_eq!(args(a).unwrap_err().message(), message, "{a:?}");
    }
    assert_eq!(
        args(&["https://"]).unwrap_err().message(),
        "stream URL must have a host and contain no whitespace or control characters"
    );
    assert!(args(&["--volume", "x"]).is_err());
}

fn command(s: &[&str]) -> Result<Command, CliError> {
    scan(&s.iter().map(|s| s.to_string()).collect())
}

#[test]
fn config_option_names_the_file_in_any_order() {
    for args in [vec!["--list", "--config", "c.toml"], vec!["--config", "c.toml", "--list"]] {
        assert_eq!(
            command(&args).unwrap(),
            Command::List {
                config: Some("c.toml".to_string())
            }
        );
    }
    assert_eq!(command(&["--list"]).unwrap(), Command::List { config: None });
    assert_eq!(
        command(&["--config", "a.toml", "--volume", "7", "custom", "--resolve"]).unwrap(),
        Command::Play {
            source: "custom".to_string(),
            config: Some("a.toml".to_string()),
            tui: false,
            volume: 7,
            resolve: true,
            check: false
        }
    );
    assert!(command(&["kusc", "--config"]).is_err());
    assert_eq!(
        command(&["--list", "--config"]).unwrap_err().message(),
        "--config requires a path"
    );
    // The built-in resolution sets the configuration file aside.
    assert_eq!(
        parse(vec!["--config".into(), "a.toml".into(), "kusc".into()]).unwrap(),
        Action::Play {
            url: KUSC.into(),
            volume: 50,
            tui: false,
            resolve: false,
            check: false
        }
    );
}
