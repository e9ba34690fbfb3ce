//! Command-line arguments to an action, and station aliases to stream URLs.
use crate::num::{parse_uint, parse_uint_slice, NumError};
use crate::text::{any_ws_or_ctrl, chars_of, has_ws_or_ctrl, slice_eq, starts_with, starts_with_slice, strip_prefix, strip_prefix_slice};
use vstd::prelude::*;

verus! {

/// The built-in station alias `kusc` stands for this stream.
pub const KUSC: &'static str =
    "https://playerservices.streamtheworld.com/api/livestream-redirect/KUSCAAC96.aac";

/// What the command line asks for; `S` is the text type (`String`, or `Seq<char>` in specs).
#[derive(Debug, PartialEq, Eq)]
pub enum ActionOf<S> {
    Help,
    Version,
    List,
    Play { url: S, tui: bool, volume: u8, resolve: bool, check: bool },
}

pub type Action = ActionOf<String>;

/// What the command line asks for before a source is resolved: the source as given, and
/// the configuration file named by `--config`, if any.
#[derive(Debug, PartialEq, Eq)]
pub enum CommandOf<S> {
    Help,
    Version,
    List { config: Option<S> },
    Play { source: S, config: Option<S>, tui: bool, volume: u8, resolve: bool, check: bool },
}

pub type Command = CommandOf<String>;

/// The characters of an optional text.
pub open spec fn opt_text(s: Option<String>) -> Option<Seq<char>> {
    match s {
        Some(t) => Some(t@),
        None => None,
    }
}

impl View for CommandOf<String> {
    type V = CommandOf<Seq<char>>;

    open spec fn view(&self) -> CommandOf<Seq<char>> {
        match self {
            CommandOf::Help => CommandOf::Help,
            CommandOf::Version => CommandOf::Version,
            CommandOf::List { config } => CommandOf::List { config: opt_text(*config) },
            CommandOf::Play { source, config, tui, volume, resolve, check } => CommandOf::Play {
                source: source@,
                config: opt_text(*config),
                tui: *tui,
                volume: *volume,
                resolve: *resolve,
                check: *check,
            },
        }
    }
}

impl View for ActionOf<String> {
    type V = ActionOf<Seq<char>>;

    open spec fn view(&self) -> ActionOf<Seq<char>> {
        match self {
            ActionOf::Help => ActionOf::Help,
            ActionOf::Version => ActionOf::Version,
            ActionOf::List => ActionOf::List,
            ActionOf::Play { url, tui, volume, resolve, check } => ActionOf::Play {
                url: url@,
                tui: *tui,
                volume: *volume,
                resolve: *resolve,
                check: *check,
            },
        }
    }
}

/// Why the command line was refused.
#[derive(Debug, PartialEq, Eq)]
pub enum CliErrorOf<S> {
    /// Neither a URL nor an alias was given.
    MissingSource,
    /// More than one URL or alias was given.
    SeveralSources,
    /// `--volume` was the last argument.
    VolumeMissing,
    /// `--config` was the last argument.
    ConfigMissing,
    /// The value after `--volume` is not a `u8`.
    VolumeNumber(NumError),
    /// The value after `--volume` is above 100.
    VolumeRange,
    /// An argument starting with `-` that is no option.
    UnknownOption(S),
    /// The source is neither an alias nor an `http://` or `https://` URL.
    NotHttp,
    /// The URL has no host, or holds whitespace or control characters.
    BadUrl,
}

pub type CliError = CliErrorOf<String>;

impl View for CliErrorOf<String> {
    type V = CliErrorOf<Seq<char>>;

    open spec fn view(&self) -> CliErrorOf<Seq<char>> {
        match self {
            CliErrorOf::MissingSource => CliErrorOf::MissingSource,
            CliErrorOf::SeveralSources => CliErrorOf::SeveralSources,
            CliErrorOf::VolumeMissing => CliErrorOf::VolumeMissing,
            CliErrorOf::ConfigMissing => CliErrorOf::ConfigMissing,
            CliErrorOf::VolumeNumber(e) => CliErrorOf::VolumeNumber(*e),
            CliErrorOf::VolumeRange => CliErrorOf::VolumeRange,
            CliErrorOf::UnknownOption(a) => CliErrorOf::UnknownOption(a@),
            CliErrorOf::NotHttp => CliErrorOf::NotHttp,
            CliErrorOf::BadUrl => CliErrorOf::BadUrl,
        }
    }
}

/// The text of a command-line error.
pub open spec fn cli_error_text(e: CliErrorOf<Seq<char>>) -> Seq<char> {
    match e {
        CliErrorOf::MissingSource => "provide a stream URL or alias; try rxer --help"@,
        CliErrorOf::SeveralSources => "provide exactly one stream URL or alias"@,
        CliErrorOf::VolumeMissing => "--volume requires a number from 0 to 100"@,
        CliErrorOf::ConfigMissing => "--config requires a path"@,
        CliErrorOf::VolumeNumber(n) => crate::num::num_error_text(n),
        CliErrorOf::VolumeRange => "volume must be between 0 and 100"@,
        CliErrorOf::UnknownOption(a) => "unknown option: "@ + a,
        CliErrorOf::NotHttp => "expected an HTTP(S) stream URL or station alias; try rxer --list"@,
        CliErrorOf::BadUrl => "stream URL must have a host and contain no whitespace or control characters"@,
    }
}

impl CliErrorOf<String> {
    /// The text shown to the user.
    pub fn message(&self) -> (r: String)
        ensures
            r@ == cli_error_text(self@),
    {
        match self {
            CliErrorOf::MissingSource => String::from_str(
                "provide a stream URL or alias; try rxer --help",
            ),
            CliErrorOf::SeveralSources => String::from_str(
                "provide exactly one stream URL or alias",
            ),
            CliErrorOf::VolumeMissing => String::from_str(
                "--volume requires a number from 0 to 100",
            ),
            CliErrorOf::ConfigMissing => String::from_str("--config requires a path"),
            CliErrorOf::VolumeNumber(e) => String::from_str(e.message()),
            CliErrorOf::VolumeRange => String::from_str("volume must be between 0 and 100"),
            CliErrorOf::UnknownOption(a) => String::from_str("unknown option: ").concat(
                a.as_str(),
            ),
            CliErrorOf::NotHttp => String::from_str(
                "expected an HTTP(S) stream URL or station alias; try rxer --list",
            ),
            CliErrorOf::BadUrl => String::from_str(
                "stream URL must have a host and contain no whitespace or control characters",
            ),
        }
    }
}

/// Whether two strings hold the same characters.
pub fn str_eq(a: &str, b: &str) -> (r: bool)
    ensures
        r == (a@ == b@),
{
    let x = chars_of(a);
    let y = chars_of(b);
    slice_eq(x.as_slice(), y.as_slice())
}

/// The text after `http://` or `https://`.
pub open spec fn after_scheme(input: Seq<char>) -> Option<Seq<char>> {
    match strip_prefix(input, "https://"@) {
        Some(rest) => Some(rest),
        None => strip_prefix(input, "http://"@),
    }
}

/// Whether `c` ends the authority part of a URL.
pub open spec fn ends_authority(c: char) -> bool {
    c == '/' || c == '?' || c == '#'
}

/// What `resolve` gives for `input`: the stream of an alias, or the URL itself.
pub open spec fn resolve_spec(input: Seq<char>) -> Result<Seq<char>, CliErrorOf<Seq<char>>> {
    if input == "kusc"@ {
        Ok(KUSC@)
    } else {
        match after_scheme(input) {
            None => Err(CliErrorOf::NotHttp),
            Some(rest) => if rest.len() == 0 || ends_authority(rest[0]) || has_ws_or_ctrl(input) {
                Err(CliErrorOf::BadUrl)
            } else {
                Ok(input)
            },
        }
    }
}

/// A station alias or HTTP(S) URL to the stream URL to play.
pub fn resolve(input: &str) -> (r: Result<String, CliError>)
    ensures
        r matches Ok(s) ==> resolve_spec(input@) == Ok::<Seq<char>, CliErrorOf<Seq<char>>>(s@),
        r matches Err(e) ==> resolve_spec(input@) == Err::<Seq<char>, CliErrorOf<Seq<char>>>(
            e@,
        ),
{
    if str_eq(input, "kusc") {
        return Ok(String::from_str(KUSC));
    }
    let chars = chars_of(input);
    let https = chars_of("https://");
    let http = chars_of("http://");
    let rest = match strip_prefix_slice(chars.as_slice(), https.as_slice()) {
        Some(rest) => rest,
        None => match strip_prefix_slice(chars.as_slice(), http.as_slice()) {
            Some(rest) => rest,
            None => return Err(CliErrorOf::NotHttp),
        },
    };
    if rest.len() == 0 || rest[0] == '/' || rest[0] == '?' || rest[0] == '#' || any_ws_or_ctrl(
        chars.as_slice(),
    ) {
        return Err(CliErrorOf::BadUrl);
    }
    Ok(String::from_str(input))
}

/// The options read so far.
pub struct Options {
    pub tui: bool,
    pub check: bool,
    pub resolve: bool,
    pub volume: u8,
    pub source: Option<Seq<char>>,
    pub config: Option<Seq<char>>,
}

/// The configuration file that the arguments from index `i` on name, `c` being named
/// before them: only `--config PATH` pairs are read, the last one counting.
pub open spec fn config_after(args: Seq<Seq<char>>, i: int, c: Option<Seq<char>>) -> Result<
    Option<Seq<char>>,
    CliErrorOf<Seq<char>>,
>
    decreases args.len() - i,
{
    if i < 0 || i >= args.len() {
        Ok(c)
    } else if args[i] == "--config"@ {
        if i + 1 >= args.len() {
            Err(CliErrorOf::ConfigMissing)
        } else {
            config_after(args, i + 2, Some(args[i + 1]))
        }
    } else {
        config_after(args, i + 1, c)
    }
}

/// The command that the arguments from index `i` on give, with `o` read before them.
/// `--help` and `--version` stop reading; after `--list` only `--config PATH` pairs are
/// read, so that the list shows the configuration named anywhere on the line.
pub open spec fn scan_from(args: Seq<Seq<char>>, i: int, o: Options) -> Result<
    CommandOf<Seq<char>>,
    CliErrorOf<Seq<char>>,
>
    decreases args.len() - i,
{
    if i < 0 || i >= args.len() {
        match o.source {
            None => Err(CliErrorOf::MissingSource),
            Some(src) => Ok(
                CommandOf::Play {
                    source: src,
                    config: o.config,
                    tui: o.tui,
                    volume: o.volume,
                    resolve: o.resolve,
                    check: o.check,
                },
            ),
        }
    } else {
        let a = args[i];
        if a == "-h"@ || a == "--help"@ {
            Ok(CommandOf::Help)
        } else if a == "-V"@ || a == "--version"@ {
            Ok(CommandOf::Version)
        } else if a == "--list"@ {
            match config_after(args, i + 1, o.config) {
                Err(e) => Err(e),
                Ok(c) => Ok(CommandOf::List { config: c }),
            }
        } else if a == "--tui"@ {
            scan_from(args, i + 1, Options { tui: true, ..o })
        } else if a == "--check"@ {
            scan_from(args, i + 1, Options { check: true, ..o })
        } else if a == "--resolve"@ {
            scan_from(args, i + 1, Options { resolve: true, ..o })
        } else if a == "--config"@ {
            if i + 1 >= args.len() {
                Err(CliErrorOf::ConfigMissing)
            } else {
                scan_from(args, i + 2, Options { config: Some(args[i + 1]), ..o })
            }
        } else if a == "--volume"@ {
            if i + 1 >= args.len() {
                Err(CliErrorOf::VolumeMissing)
            } else {
                match parse_uint(args[i + 1], 10, 255) {
                    Err(e) => Err(CliErrorOf::VolumeNumber(e)),
                    Ok(v) => if v > 100 {
                        Err(CliErrorOf::VolumeRange)
                    } else {
                        scan_from(args, i + 2, Options { volume: v as u8, ..o })
                    },
                }
            }
        } else if starts_with(a, "-"@) {
            Err(CliErrorOf::UnknownOption(a))
        } else if o.source is Some {
            Err(CliErrorOf::SeveralSources)
        } else {
            scan_from(args, i + 1, Options { source: Some(a), ..o })
        }
    }
}

/// The characters of each argument.
pub open spec fn args_view(args: Seq<String>) -> Seq<Seq<char>> {
    args.map_values(|a: String| a@)
}

/// The command that the command-line arguments (after the program name) ask for.
pub open spec fn scan_spec(args: Seq<Seq<char>>) -> Result<CommandOf<Seq<char>>, CliErrorOf<Seq<char>>> {
    scan_from(
        args,
        0,
        Options { tui: false, check: false, resolve: false, volume: 50, source: None, config: None },
    )
}

/// The action that the command-line arguments ask for, the source resolved through the
/// built-in alias: the command, with its configuration file set aside.
pub open spec fn parse_spec(args: Seq<Seq<char>>) -> Result<ActionOf<Seq<char>>, CliErrorOf<Seq<char>>> {
    match scan_spec(args) {
        Err(e) => Err(e),
        Ok(CommandOf::Help) => Ok(ActionOf::Help),
        Ok(CommandOf::Version) => Ok(ActionOf::Version),
        Ok(CommandOf::List { .. }) => Ok(ActionOf::List),
        Ok(CommandOf::Play { source, config, tui, volume, resolve, check }) => match resolve_spec(
            source,
        ) {
            Err(e) => Err(e),
            Ok(url) => Ok(ActionOf::Play { url, tui, volume, resolve, check }),
        },
    }
}

/// `-h` or `--help` first asks for help, and `-V` or `--version` first for the version,
/// whatever follows.
pub proof fn lemma_help_and_version_first(args: Seq<Seq<char>>)
    requires
        args.len() > 0,
    ensures
        args[0] == "-h"@ || args[0] == "--help"@ ==> scan_spec(args) == Ok::<
            CommandOf<Seq<char>>,
            CliErrorOf<Seq<char>>,
        >(CommandOf::Help) && parse_spec(args) == Ok::<ActionOf<Seq<char>>, CliErrorOf<Seq<char>>>(
            ActionOf::Help,
        ),
        args[0] == "-V"@ || args[0] == "--version"@ ==> scan_spec(args) == Ok::<
            CommandOf<Seq<char>>,
            CliErrorOf<Seq<char>>,
        >(CommandOf::Version) && parse_spec(args) == Ok::<
            ActionOf<Seq<char>>,
            CliErrorOf<Seq<char>>,
        >(ActionOf::Version),
{
    reveal_strlit("-h");
    reveal_strlit("--help");
    reveal_strlit("-V");
    reveal_strlit("--version");
    assert("-V"@ != "-h"@) by {
        assert("-V"@[1] != "-h"@[1]);
    }
    assert("-V"@ != "--help"@) by {
        assert("-V"@.len() != "--help"@.len());
    }
    assert("--version"@ != "-h"@) by {
        assert("--version"@.len() != "-h"@.len());
    }
    assert("--version"@ != "--help"@) by {
        assert("--version"@.len() != "--help"@.len());
    }
}

/// The configuration file that `--config PATH` pairs from index `i` on name.
fn config_pairs(args: &Vec<String>, i: usize, c: Option<usize>) -> (r: Result<
    Option<usize>,
    CliError,
>)
    requires
        i <= args@.len(),
        c matches Some(k) ==> k < args@.len(),
    ensures
        r matches Ok(k) ==> config_after(args_view(args@), i as int, match c {
            Some(k) => Some(args_view(args@)[k as int]),
            None => None,
        }) == Ok::<Option<Seq<char>>, CliErrorOf<Seq<char>>>(match k {
            Some(k) => Some(args_view(args@)[k as int]),
            None => None,
        }),
        r matches Ok(Some(k)) ==> k < args@.len(),
        r matches Err(e) ==> config_after(args_view(args@), i as int, match c {
            Some(k) => Some(args_view(args@)[k as int]),
            None => None,
        }) == Err::<Option<Seq<char>>, CliErrorOf<Seq<char>>>(e@),
{
    let ghost view = args_view(args@);
    let ghost c0 = match c {
        Some(k) => Some(view[k as int]),
        None => None::<Seq<char>>,
    };
    let ghost i0 = i as int;
    let mut j = i;
    let mut cur = c;
    let n = args.len();
    while j < n
        invariant
            n == args@.len(),
            view == args_view(args@),
            view.len() == n,
            j <= n,
            cur matches Some(k) ==> k < n,
            c matches Some(k) ==> k < n,
            i0 == i as int,
            c0 == match c {
                Some(k) => Some(view[k as int]),
                None => None::<Seq<char>>,
            },
            config_after(view, i0, c0) == config_after(view, j as int, match cur {
                Some(k) => Some(view[k as int]),
                None => None,
            }),
        decreases n - j,
    {
        assert(args[j as int]@ == view[j as int]);
        if str_eq(args[j].as_str(), "--config") {
            if j + 1 >= n {
                let ghost cv = match cur {
                    Some(k) => Some(view[k as int]),
                    None => None,
                };
                assert(config_after(view, j as int, cv) == Err::<
                    Option<Seq<char>>,
                    CliErrorOf<Seq<char>>,
                >(CliErrorOf::ConfigMissing));
                return Err(CliErrorOf::ConfigMissing);
            }
            cur = Some(j + 1);
            j = j + 2;
        } else {
            j = j + 1;
        }
    }
    Ok(cur)
}

/// Reads the command-line arguments (after the program name) into a command; the source
/// is not yet resolved.
pub fn scan(args: &Vec<String>) -> (r: Result<Command, CliError>)
    ensures
        r matches Ok(c) ==> scan_spec(args_view(args@)) == Ok::<
            CommandOf<Seq<char>>,
            CliErrorOf<Seq<char>>,
        >(c@),
        r matches Err(e) ==> scan_spec(args_view(args@)) == Err::<
            CommandOf<Seq<char>>,
            CliErrorOf<Seq<char>>,
        >(e@),
{
    let ghost view = args_view(args@);
    let mut tui = false;
    let mut check = false;
    let mut resolve_only = false;
    let mut volume: u8 = 50;
    let mut source: Option<usize> = None;
    let mut config: Option<usize> = None;
    let mut i: usize = 0;
    let n = args.len();
    while i < n
        invariant
            n == args@.len(),
            view == args_view(args@),
            view.len() == n,
            i <= n,
            source matches Some(k) ==> k < i,
            config matches Some(k) ==> k < i,
            scan_spec(view) == scan_from(
                view,
                i as int,
                Options {
                    tui,
                    check,
                    resolve: resolve_only,
                    volume,
                    source: match source {
                        Some(k) => Some(view[k as int]),
                        None => None,
                    },
                    config: match config {
                        Some(k) => Some(view[k as int]),
                        None => None,
                    },
                },
            ),
        decreases n - i,
    {
        let a = args[i].as_str();
        assert(a@ == view[i as int]);
        if str_eq(a, "-h") || str_eq(a, "--help") {
            return Ok(CommandOf::Help);
        } else if str_eq(a, "-V") || str_eq(a, "--version") {
            return Ok(CommandOf::Version);
        } else if str_eq(a, "--list") {
            return match config_pairs(args, i + 1, config) {
                Err(e) => Err(e),
                Ok(k) => Ok(
                    CommandOf::List {
                        config: match k {
                            Some(k) => Some(args[k].clone()),
                            None => None,
                        },
                    },
                ),
            };
        } else if str_eq(a, "--tui") {
            tui = true;
        } else if str_eq(a, "--check") {
            check = true;
        } else if str_eq(a, "--resolve") {
            resolve_only = true;
        } else if str_eq(a, "--config") {
            if i + 1 >= n {
                return Err(CliErrorOf::ConfigMissing);
            }
            config = Some(i + 1);
            i = i + 1;
        } else if str_eq(a, "--volume") {
            if i + 1 >= n {
                return Err(CliErrorOf::VolumeMissing);
            }
            let value = chars_of(args[i + 1].as_str());
            assert(value@ == view[i + 1]);
            match parse_uint_slice(value.as_slice(), 10, 255) {
                Err(e) => return Err(CliErrorOf::VolumeNumber(e)),
                Ok(v) => {
                    if v > 100 {
                        return Err(CliErrorOf::VolumeRange);
                    }
                    volume = v as u8;
                },
            }
            i = i + 1;
        } else {
            let chars = chars_of(a);
            let dash = chars_of("-");
            if starts_with_slice(chars.as_slice(), dash.as_slice()) {
                return Err(CliErrorOf::UnknownOption(String::from_str(a)));
            }
            if source.is_some() {
                return Err(CliErrorOf::SeveralSources);
            }
            source = Some(i);
        }
        i = i + 1;
    }
    match source {
        None => Err(CliErrorOf::MissingSource),
        Some(k) => Ok(
            CommandOf::Play {
                source: args[k].clone(),
                config: match config {
                    Some(c) => Some(args[c].clone()),
                    None => None,
                },
                tui,
                volume,
                resolve: resolve_only,
                check,
            },
        ),
    }
}

/// Reads the command-line arguments (after the program name) into an action, the source
/// resolved through the built-in alias; a configuration file named by `--config` is read
/// and set aside.
pub fn parse(args: Vec<String>) -> (r: Result<Action, CliError>)
    ensures
        r matches Ok(a) ==> parse_spec(args_view(args@)) == Ok::<
            ActionOf<Seq<char>>,
            CliErrorOf<Seq<char>>,
        >(a@),
        r matches Err(e) ==> parse_spec(args_view(args@)) == Err::<
            ActionOf<Seq<char>>,
            CliErrorOf<Seq<char>>,
        >(e@),
{
    match scan(&args)? {
        CommandOf::Help => Ok(ActionOf::Help),
        CommandOf::Version => Ok(ActionOf::Version),
        CommandOf::List { .. } => Ok(ActionOf::List),
        CommandOf::Play { source, tui, volume, resolve: only, check, .. } => {
            let url = resolve(source.as_str())?;
            Ok(ActionOf::Play { url, tui, volume, resolve: only, check })
        },
    }
}

} // verus!
