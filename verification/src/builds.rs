//! The explicit choice of a local build (`--dev` or `--release`) on the command line.
use crate::cli::str_eq;
use vstd::prelude::*;

verus! {

/// Why a build choice is refused.
#[derive(Debug, Clone, Copy, PartialEq, Eq)]
pub enum BuildError {
    /// Both `--dev` and `--release` were given.
    Conflict,
}

impl BuildError {
    /// The text shown to the user.
    pub fn message(&self) -> (r: &'static str)
        ensures
            r@ == "--dev and --release cannot be combined"@,
    {
        "--dev and --release cannot be combined"
    }
}

/// The texts of the arguments.
pub open spec fn args_text(args: Seq<String>) -> Seq<Seq<char>> {
    args.map_values(|a: String| a@)
}

/// An option whose next argument is its value, never a build choice.
pub open spec fn takes_value(a: Seq<char>) -> bool {
    a == "--config"@ || a == "--volume"@
}

/// The build choice the arguments make (`Some(true)` for `--dev`, `Some(false)` for
/// `--release`), the positions of the arguments that remain for the chosen build, and
/// whether the last argument awaits its value.
pub open spec fn options_spec(args: Seq<Seq<char>>) -> Result<(Option<bool>, Seq<int>, bool), BuildError>
    decreases args.len(),
{
    if args.len() == 0 {
        Ok((None, Seq::empty(), false))
    } else {
        match options_spec(args.drop_last()) {
            Err(e) => Err(e),
            Ok((selected, kept, value)) => {
                let i = args.len() - 1;
                let a = args.last();
                if value {
                    Ok((selected, kept.push(i), false))
                } else if a == "--dev"@ || a == "--release"@ {
                    let dev = a == "--dev"@;
                    if selected matches Some(old) && old != dev {
                        Err(BuildError::Conflict)
                    } else {
                        Ok((Some(dev), kept, false))
                    }
                } else {
                    Ok((selected, kept.push(i), takes_value(a)))
                }
            },
        }
    }
}

/// A refusal of the first arguments is the refusal of all of them.
proof fn lemma_options_err(args: Seq<Seq<char>>, n: int)
    requires
        0 <= n <= args.len(),
        options_spec(args.subrange(0, n)) is Err,
    ensures
        options_spec(args) == options_spec(args.subrange(0, n)),
    decreases args.len() - n,
{
    if n < args.len() {
        assert(args.subrange(0, n + 1).drop_last() =~= args.subrange(0, n));
        lemma_options_err(args, n + 1);
    } else {
        assert(args.subrange(0, n) =~= args);
    }
}

/// The positions as integers.
pub open spec fn positions(v: Seq<usize>) -> Seq<int> {
    v.map_values(|i: usize| i as int)
}

/// Separates the build choice from the other arguments: `--dev` and `--release` (unless
/// they are the value of `--config` or `--volume`) choose the build, and may repeat but
/// not conflict; the positions of all other arguments are kept, in order.
pub fn options(args: &[String]) -> (r: Result<(Option<bool>, Vec<usize>), BuildError>)
    ensures
        r matches Ok((selected, kept)) ==> options_spec(args_text(args@)) matches Ok(
            (s, k, _),
        ) && s == selected && k == positions(kept@),
        r matches Err(e) ==> options_spec(args_text(args@)) == Err::<
            (Option<bool>, Seq<int>, bool),
            BuildError,
        >(e),
{
    let ghost text = args_text(args@);
    let mut selected: Option<bool> = None;
    let mut kept: Vec<usize> = Vec::new();
    let mut value = false;
    let mut i: usize = 0;
    assert(text.subrange(0, 0) =~= Seq::<Seq<char>>::empty());
    assert(positions(kept@) =~= Seq::<int>::empty());
    while i < args.len()
        invariant
            i <= args@.len(),
            text == args_text(args@),
            options_spec(text.subrange(0, i as int)) == Ok::<
                (Option<bool>, Seq<int>, bool),
                BuildError,
            >((selected, positions(kept@), value)),
        decreases args@.len() - i,
    {
        let a = args[i].as_str();
        let ghost pre = text.subrange(0, i as int);
        let ghost before = kept@;
        assert(text.subrange(0, i + 1).drop_last() =~= pre);
        assert(text.subrange(0, i + 1).last() == a@);
        if value {
            kept.push(i);
            assert(positions(kept@) =~= positions(before).push(i as int));
            value = false;
        } else if str_eq(a, "--dev") || str_eq(a, "--release") {
            let dev = str_eq(a, "--dev");
            match selected {
                Some(old) => {
                    if old != dev {
                        proof {
                            lemma_options_err(text, i + 1);
                        }
                        return Err(BuildError::Conflict);
                    }
                },
                None => {},
            }
            selected = Some(dev);
        } else {
            kept.push(i);
            assert(positions(kept@) =~= positions(before).push(i as int));
            value = str_eq(a, "--config") || str_eq(a, "--volume");
        }
        i = i + 1;
    }
    assert(text.subrange(0, args@.len() as int) =~= text);
    Ok((selected, kept))
}

/// What `Path::parent` gives for a path: `None` for a root or an empty path.
pub uninterp spec fn path_parent(p: Seq<char>) -> Option<Seq<char>>;

/// What `Path::file_name` gives for a path: its last normal component, `None` where it
/// ends in `..` or is a root.
pub uninterp spec fn path_file_name(p: Seq<char>) -> Option<Seq<char>>;

/// What `Path::join` gives: `b` appended to `a` as a new component (or `b` itself when it
/// is absolute).
pub uninterp spec fn path_join(a: Seq<char>, b: Seq<char>) -> Seq<char>;

/// What `Path::is_absolute` gives for a path: whether it is independent of the working
/// directory.
pub uninterp spec fn path_absolute(p: Seq<char>) -> bool;

/// `std::path::Path::is_absolute`. The contract names the result (`path_absolute`).
#[verifier::external_body]
pub(crate) fn is_absolute_path(p: &str) -> (r: bool)
    ensures
        r == path_absolute(p@),
{
    std::path::Path::new(p).is_absolute()
}

/// `std::path::Path::parent`. The contract names the result (`path_parent`).
#[verifier::external_body]
fn parent_of(p: &str) -> (r: Option<String>)
    ensures
        r matches Some(s) ==> path_parent(p@) == Some(s@),
        r is None ==> path_parent(p@) is None,
{
    std::path::Path::new(p).parent().and_then(|q| q.to_str()).map(|q| q.to_string())
}

/// `std::path::Path::file_name`. The contract names the result (`path_file_name`).
#[verifier::external_body]
fn file_name_of(p: &str) -> (r: Option<String>)
    ensures
        r matches Some(s) ==> path_file_name(p@) == Some(s@),
        r is None ==> path_file_name(p@) is None,
{
    std::path::Path::new(p).file_name().and_then(|q| q.to_str()).map(|q| q.to_string())
}

/// `std::path::Path::join`. The contract names the result (`path_join`).
#[verifier::external_body]
pub(crate) fn join_path(a: &str, b: &str) -> (r: String)
    ensures
        r@ == path_join(a@, b@),
{
    std::path::Path::new(a).join(b).to_string_lossy().into_owned()
}

/// The build directory beside the running build: the grandparent of the executable when
/// its directory is named `debug` or `release`.
pub open spec fn sibling_root(parent: Seq<char>) -> Option<Seq<char>> {
    match path_file_name(parent) {
        Some(n) => if n == "debug"@ || n == "release"@ {
            path_parent(parent)
        } else {
            None
        },
        None => None,
    }
}

/// Where the chosen build lives: `<root>/debug/rxer` or `<root>/release/rxer` (with the
/// platform's executable suffix), the root being `explicit` or else found beside `exe`.
pub open spec fn destination_spec(
    exe: Seq<char>,
    explicit: Option<Seq<char>>,
    dev: bool,
    suffix: Seq<char>,
) -> Option<Seq<char>> {
    match path_parent(exe) {
        None => None,
        Some(parent) => {
            let root = match explicit {
                Some(e) => Some(e),
                None => sibling_root(parent),
            };
            match root {
                None => None,
                Some(r) => Some(
                    path_join(
                        path_join(
                            r,
                            if dev {
                                "debug"@
                            } else {
                                "release"@
                            },
                        ),
                        "rxer"@ + suffix,
                    ),
                ),
            }
        },
    }
}

/// Finds the executable of the chosen build for the running executable `exe`; `suffix`
/// is the platform's executable suffix. The working directory plays no part.
pub fn destination(exe: &str, explicit: Option<String>, dev: bool, suffix: &str) -> (r: Option<
    String,
>)
    ensures
        r matches Some(s) ==> destination_spec(exe@, opt_text(explicit), dev, suffix@) == Some(s@),
        r is None ==> destination_spec(exe@, opt_text(explicit), dev, suffix@) is None,
{
    let parent = match parent_of(exe) {
        Some(p) => p,
        None => return None,
    };
    let root = match explicit {
        Some(e) => e,
        None => {
            let name = match file_name_of(parent.as_str()) {
                Some(n) => n,
                None => return None,
            };
            if !(str_eq(name.as_str(), "debug") || str_eq(name.as_str(), "release")) {
                return None;
            }
            match parent_of(parent.as_str()) {
                Some(g) => g,
                None => return None,
            }
        },
    };
    let profile = if dev {
        "debug"
    } else {
        "release"
    };
    let dir = join_path(root.as_str(), profile);
    let file = String::from_str("rxer").concat(suffix);
    Some(join_path(dir.as_str(), file.as_str()))
}

/// The text of an optional string.
pub open spec fn opt_text(s: Option<String>) -> Option<Seq<char>> {
    match s {
        Some(t) => Some(t@),
        None => None,
    }
}

} // verus!
