use rxer::builds::{destination, options, BuildError};
use std::path::Path;

fn args(values: &[&str]) -> Vec<String> {
    values.iter().map(|v| v.to_string()).collect()
}

fn kept(values: &[&str]) -> Result<(Option<bool>, Vec<String>), BuildError> {
    let a = args(values);
    options(&a).map(|(selected, keep)| (selected, keep.into_iter().map(|i| a[i].clone()).collect()))
}

#[test]
fn selection_preserves_option_values_and_rejects_conflicts() {
    assert_eq!(
        kept(&["--config", "--dev", "--release", "--help"]).unwrap(),
        (Some(false), args(&["--config", "--dev", "--help"]))
    );
    assert!(kept(&["--dev", "--release"]).is_err());
    assert_eq!(
        kept(&["--dev", "--dev", "kusc"]).unwrap(),
        (Some(true), args(&["kusc"]))
    );
}

#[test]
fn without_a_build_choice_every_argument_stays() {
    assert_eq!(
        kept(&["--volume", "--release", "kusc"]).unwrap(),
        (None, args(&["--volume", "--release", "kusc"]))
    );
    assert_eq!(kept(&[]).unwrap(), (None, vec![]));
    assert_eq!(
        kept(&["--release", "--dev"]).unwrap_err().message(),
        "--dev and --release cannot be combined"
    );
}

fn path(p: &Path) -> Option<String> {
    Some(p.to_string_lossy().into_owned())
}

#[test]
fn finds_sibling_or_explicit_build_without_using_working_directory() {
    let name = "rxer";
    assert_eq!(
        destination("target/release/rxer", None, true, ""),
        path(&Path::new("target/debug").join(name))
    );
    assert_eq!(
        destination("bin/rxer", Some("builds".to_string()), false, ""),
        path(&Path::new("builds/release").join(name))
    );
    assert_eq!(destination("bin/rxer", None, true, ""), None);
}

#[test]
fn the_executable_suffix_is_appended() {
    assert_eq!(
        destination("/opt/x/debug/rxer.exe", None, false, ".exe").as_deref(),
        Some("/opt/x/release/rxer.exe")
    );
    assert_eq!(destination("rxer", None, true, ""), None);
}
