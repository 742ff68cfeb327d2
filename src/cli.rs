//! Command-line options, the failures a run reports, and their exit codes.

use vstd::prelude::*;
use crate::style::{painted, red, red_code};

verus! {

/// The options of a run.
pub struct Options {
    /// The root of the subtree to inspect.
    pub path: String,
    /// The user whose access is checked; empty for the current user.
    pub user: String,
    /// Show only the last component of each path.
    pub human_readable: bool,
    /// Print the resolved path and user before the tree.
    pub verbose: bool,
}

/// The mathematical content of `Options`.
pub struct OptionsView {
    pub path: Seq<char>,
    pub user: Seq<char>,
    pub human_readable: bool,
    pub verbose: bool,
}

impl Options {
    pub open spec fn view(&self) -> OptionsView {
        OptionsView {
            path: self.path@,
            user: self.user@,
            human_readable: self.human_readable,
            verbose: self.verbose,
        }
    }

    /// The user to check: the one given, or `fallback` where none was.
    pub fn user_or(&self, fallback: String) -> (r: String)
        ensures
            r@ == (if self.user@.len() == 0 { fallback@ } else { self.user@ }),
    {
        if self.user.as_str().unicode_len() == 0 {
            fallback
        } else {
            self.user.clone()
        }
    }
}

/// A failure reported to the user.
#[derive(Clone, Copy, Debug, PartialEq, Eq, Structural)]
pub enum CliError {
    /// No arguments, or a request for help: the usage text is shown.
    Help,
    /// The user-selection flag came without a value.
    MissingUser,
    /// The root path does not exist.
    PathNotFound,
}

pub open spec fn exit_code_spec(e: CliError) -> i32 {
    match e {
        CliError::Help => 1,
        CliError::MissingUser => 2,
        CliError::PathNotFound => 2,
    }
}

pub open spec fn missing_user_text() -> Seq<char> {
    "Error: Missing argument for -u option."@
}

pub open spec fn path_not_found_text() -> Seq<char> {
    "Error: The specified path doesn't exist."@
}

impl CliError {
    /// The process exit code for the failure.
    pub fn exit_code(&self) -> (r: i32)
        ensures
            r == exit_code_spec(*self),
    {
        match self {
            CliError::Help => 1,
            CliError::MissingUser => 2,
            CliError::PathNotFound => 2,
        }
    }

    /// The error line shown for the failure, in red; none for a request for
    /// help, which shows the usage text instead.
    pub fn message(&self) -> (r: Option<String>)
        ensures
            match *self {
                CliError::Help => r is None,
                CliError::MissingUser => r is Some && r->Some_0@ == painted(red_code(), missing_user_text()),
                CliError::PathNotFound => r is Some && r->Some_0@ == painted(red_code(), path_not_found_text()),
            },
    {
        match self {
            CliError::Help => None,
            CliError::MissingUser => Some(red("Error: Missing argument for -u option.", None)),
            CliError::PathNotFound => Some(red("Error: The specified path doesn't exist.", None)),
        }
    }
}

pub open spec fn dash_h() -> Seq<char> {
    seq!['-', 'h']
}

pub open spec fn dash_dash_help() -> Seq<char> {
    seq!['-', '-', 'h', 'e', 'l', 'p']
}

pub open spec fn dash_upper_h() -> Seq<char> {
    seq!['-', 'H']
}

pub open spec fn dash_v() -> Seq<char> {
    seq!['-', 'v']
}

pub open spec fn dash_dash_verbose() -> Seq<char> {
    seq!['-', '-', 'v', 'e', 'r', 'b', 'o', 's', 'e']
}

pub open spec fn dash_u() -> Seq<char> {
    seq!['-', 'u']
}

/// The options before any argument is read.
pub open spec fn default_options() -> OptionsView {
    OptionsView { path: seq!['.'], user: Seq::empty(), human_readable: false, verbose: false }
}

/// Reads the arguments from position `i` on into `acc`. A flag sets its
/// option, `-u` takes the next argument as the user, and any other argument
/// becomes the path; a later one overrides an earlier one.
pub open spec fn scan_args(args: Seq<Seq<char>>, i: int, acc: OptionsView) -> Result<
    OptionsView,
    CliError,
>
    decreases args.len() - i,
{
    if i < 0 || i >= args.len() {
        Ok(acc)
    } else if args[i] == dash_upper_h() {
        scan_args(args, i + 1, OptionsView { human_readable: true, ..acc })
    } else if args[i] == dash_v() || args[i] == dash_dash_verbose() {
        scan_args(args, i + 1, OptionsView { verbose: true, ..acc })
    } else if args[i] == dash_u() {
        if i + 1 < args.len() {
            scan_args(args, i + 2, OptionsView { user: args[i + 1], ..acc })
        } else {
            Err(CliError::MissingUser)
        }
    } else {
        scan_args(args, i + 1, OptionsView { path: args[i], ..acc })
    }
}

/// The options that the command line `args` (program name first) asks for.
pub open spec fn parse_spec(args: Seq<Seq<char>>) -> Result<OptionsView, CliError> {
    if args.len() < 2 || args[1] == dash_h() || args[1] == dash_dash_help() {
        Err(CliError::Help)
    } else {
        scan_args(args, 1, default_options())
    }
}

/// Whether two strings hold the same characters.
pub fn same_text(a: &str, b: &str) -> (r: bool)
    ensures
        r == (a@ == b@),
{
    let n = a.unicode_len();
    if n != b.unicode_len() {
        return false;
    }
    let mut i: usize = 0;
    while i < n
        invariant
            n == a@.len(),
            n == b@.len(),
            i <= n,
            a@.subrange(0, i as int) == b@.subrange(0, i as int),
        decreases n - i,
    {
        if a.get_char(i) != b.get_char(i) {
            return false;
        }
        assert(a@.subrange(0, i + 1) =~= a@.subrange(0, i as int).push(a@[i as int]));
        assert(b@.subrange(0, i + 1) =~= b@.subrange(0, i as int).push(b@[i as int]));
        i = i + 1;
    }
    assert(a@ =~= a@.subrange(0, n as int));
    assert(b@ =~= b@.subrange(0, n as int));
    true
}

/// Reads the command line `args`, program name first.
pub fn parse_args(args: &Vec<String>) -> (r: Result<Options, CliError>)
    ensures
        ({
            let spec_args = args@.map_values(|s: String| s@);
            match r {
                Ok(o) => parse_spec(spec_args) == Ok::<OptionsView, CliError>(o.view()),
                Err(e) => parse_spec(spec_args) == Err::<OptionsView, CliError>(e),
            }
        }),
{
    let ghost spec_args = args@.map_values(|s: String| s@);
    proof {
        reveal_strlit("-h");
        reveal_strlit("--help");
        reveal_strlit("-H");
        reveal_strlit("-v");
        reveal_strlit("--verbose");
        reveal_strlit("-u");
        reveal_strlit(".");
        assert("-h"@ =~= dash_h());
        assert("--help"@ =~= dash_dash_help());
    }
    assert(spec_args.len() == args@.len());
    if args.len() >= 2 {
        assert(spec_args[1] == args@[1]@);
    }
    if args.len() < 2 || same_text(args[1].as_str(), "-h") || same_text(args[1].as_str(), "--help") {
        return Err(CliError::Help);
    }
    let mut path = String::from_str(".");
    let mut user = String::new();
    let mut human_readable = false;
    let mut verbose = false;
    let mut i: usize = 1;
    assert(OptionsView { path: path@, user: user@, human_readable, verbose } == default_options()) by {
        assert(path@ =~= seq!['.']);
        assert(user@ =~= Seq::<char>::empty());
    }
    while i < args.len()
        invariant
            spec_args == args@.map_values(|s: String| s@),
            spec_args.len() == args@.len(),
            1 <= i <= args.len() + 1,
            parse_spec(spec_args) == scan_args(
                spec_args,
                i as int,
                OptionsView { path: path@, user: user@, human_readable, verbose },
            ),
        decreases args.len() - i,
    {
        proof {
            reveal_strlit("-H");
            reveal_strlit("-v");
            reveal_strlit("--verbose");
            reveal_strlit("-u");
            assert("-H"@ =~= dash_upper_h());
            assert("-v"@ =~= dash_v());
            assert("--verbose"@ =~= dash_dash_verbose());
            assert("-u"@ =~= dash_u());
        }
        let a = args[i].as_str();
        assert(spec_args[i as int] == a@);
        let ghost acc = OptionsView { path: path@, user: user@, human_readable, verbose };
        if same_text(a, "-H") {
            human_readable = true;
            assert(OptionsView { path: path@, user: user@, human_readable, verbose } == OptionsView { human_readable: true, ..acc });
            i = i + 1;
        } else if same_text(a, "-v") || same_text(a, "--verbose") {
            verbose = true;
            assert(OptionsView { path: path@, user: user@, human_readable, verbose } == OptionsView { verbose: true, ..acc });
            i = i + 1;
        } else if same_text(a, "-u") {
            if i + 1 < args.len() {
                user = args[i + 1].clone();
                assert(spec_args[i + 1] == user@);
                i = i + 2;
            } else {
                return Err(CliError::MissingUser);
            }
        } else {
            path = args[i].clone();
            i = i + 1;
        }
    }
    Ok(Options { path, user, human_readable, verbose })
}

} // verus!
