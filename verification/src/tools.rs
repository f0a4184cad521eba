//! The command-line tools' reading of their arguments: `python`, `pip`,
//! `pytest`, `idle` and `python-config` each decide from the arguments after
//! the program's name what to do; printing and running stay with the caller.
use vstd::prelude::*;
use crate::text::starts_with_char;
use crate::value::str_equal;

verus! {

/// What a tool does after reading its arguments.
#[derive(Debug, PartialEq)]
pub enum ToolAction {
    /// Print the version line.
    Version,
    /// Print the usage text.
    Help,
    /// Run the Python script at this path.
    RunScript(String),
    /// Report this argument as not implemented.
    Unsupported(String),
    /// Print the answer to a configuration query.
    Config(ConfigQuery),
    /// Start the interactive environment.
    Start,
}

/// The queries that `python-config` answers.
#[derive(Debug, PartialEq, Eq, Clone, Copy)]
pub enum ConfigQuery {
    /// `--prefix`.
    Prefix,
    /// `--exec-prefix`.
    ExecPrefix,
    /// `--includes`.
    Includes,
    /// `--libs`.
    Libs,
    /// `--cflags`.
    Cflags,
    /// `--ldflags`.
    Ldflags,
    /// `--extension-suffix`.
    ExtensionSuffix,
}

/// What `python` does: a warning for each option it skips, then its action.
#[derive(Debug, PartialEq)]
pub struct PythonCommand {
    /// The options reported as not implemented, in order.
    pub warnings: Vec<String>,
    /// The action.
    pub action: ToolAction,
}

/// `--version` or `-V`.
pub open spec fn is_version_flag(a: Seq<char>) -> bool {
    a == "--version"@ || a == "-V"@
}

/// `--help` or `-h`.
pub open spec fn is_help_flag(a: Seq<char>) -> bool {
    a == "--help"@ || a == "-h"@
}

/// An argument at which `python` stops reading: a version or help flag, or
/// anything that is not an option (a script path).
pub open spec fn python_stops_at(a: Seq<char>) -> bool {
    is_version_flag(a) || is_help_flag(a) || !(a.len() > 0 && a[0] == '-')
}

/// The position of the first of the first `n` arguments at which `python`
/// stops, or `n` where there is none.
pub open spec fn python_stop(args: Seq<Seq<char>>, n: nat) -> nat
    decreases n,
{
    if n == 0 || n > args.len() {
        0
    } else if python_stop(args, (n - 1) as nat) < n - 1 {
        python_stop(args, (n - 1) as nat)
    } else if python_stops_at(args[n - 1]) {
        (n - 1) as nat
    } else {
        n
    }
}

/// The views of a list of strings.
pub open spec fn arg_views(args: Seq<String>) -> Seq<Seq<char>> {
    args.map_values(|s: String| s@)
}

/// The configuration query an argument asks, if it is one.
pub open spec fn config_query_of(a: Seq<char>) -> Option<ConfigQuery> {
    if a == "--prefix"@ {
        Some(ConfigQuery::Prefix)
    } else if a == "--exec-prefix"@ {
        Some(ConfigQuery::ExecPrefix)
    } else if a == "--includes"@ {
        Some(ConfigQuery::Includes)
    } else if a == "--libs"@ {
        Some(ConfigQuery::Libs)
    } else if a == "--cflags"@ {
        Some(ConfigQuery::Cflags)
    } else if a == "--ldflags"@ {
        Some(ConfigQuery::Ldflags)
    } else if a == "--extension-suffix"@ {
        Some(ConfigQuery::ExtensionSuffix)
    } else {
        None
    }
}

fn is_version_arg(a: &str) -> (r: bool)
    ensures r == is_version_flag(a@), r ==> !is_help_flag(a@),
{
    proof { reveal_flags(); }
    str_equal(a, "--version") || str_equal(a, "-V")
}

fn is_help_arg(a: &str) -> (r: bool)
    ensures r == is_help_flag(a@), r ==> !is_version_flag(a@) && a@.len() > 0 && a@[0] == '-',
{
    proof { reveal_flags(); }
    str_equal(a, "--help") || str_equal(a, "-h")
}

proof fn lemma_arg_views_push(a: Seq<String>, x: String)
    ensures arg_views(a.push(x)) == arg_views(a).push(x@),
{
    assert(arg_views(a.push(x)) =~= arg_views(a).push(x@));
}

proof fn reveal_flags()
    ensures
        "--version"@ =~= seq!['-', '-', 'v', 'e', 'r', 's', 'i', 'o', 'n'],
        "-V"@ =~= seq!['-', 'V'],
        "--help"@ =~= seq!['-', '-', 'h', 'e', 'l', 'p'],
        "-h"@ =~= seq!['-', 'h'],
{
    reveal_strlit("--version");
    reveal_strlit("-V");
    reveal_strlit("--help");
    reveal_strlit("-h");
}

proof fn reveal_queries()
    ensures
        "--prefix"@ =~= seq!['-', '-', 'p', 'r', 'e', 'f', 'i', 'x'],
        "--exec-prefix"@ =~= seq!['-', '-', 'e', 'x', 'e', 'c', '-', 'p', 'r', 'e', 'f', 'i', 'x'],
        "--includes"@ =~= seq!['-', '-', 'i', 'n', 'c', 'l', 'u', 'd', 'e', 's'],
        "--libs"@ =~= seq!['-', '-', 'l', 'i', 'b', 's'],
        "--cflags"@ =~= seq!['-', '-', 'c', 'f', 'l', 'a', 'g', 's'],
        "--ldflags"@ =~= seq!['-', '-', 'l', 'd', 'f', 'l', 'a', 'g', 's'],
        "--extension-suffix"@ =~= seq!['-', '-', 'e', 'x', 't', 'e', 'n', 's', 'i', 'o', 'n', '-', 's', 'u', 'f', 'f', 'i', 'x'],
{
    reveal_strlit("--prefix");
    reveal_strlit("--exec-prefix");
    reveal_strlit("--includes");
    reveal_strlit("--libs");
    reveal_strlit("--cflags");
    reveal_strlit("--ldflags");
    reveal_strlit("--extension-suffix");
}

proof fn lemma_python_stop(args: Seq<Seq<char>>, n: nat)
    requires n <= args.len(),
    ensures
        python_stop(args, n) <= n,
        forall|i: int| 0 <= i < python_stop(args, n) ==> !python_stops_at(#[trigger] args[i]),
        python_stop(args, n) < n ==> python_stops_at(args[python_stop(args, n) as int]),
    decreases n,
{
    if n > 0 {
        lemma_python_stop(args, (n - 1) as nat);
    }
}

proof fn lemma_python_stop_at(args: Seq<Seq<char>>, n: nat, m: nat)
    requires n <= m <= args.len(), python_stop(args, n) < n,
    ensures python_stop(args, m) == python_stop(args, n),
    decreases m,
{
    if m > n {
        lemma_python_stop_at(args, n, (m - 1) as nat);
    }
}

/// How `python` reads its arguments: options other than the version and
/// help flags are skipped with a warning; the first version flag, help
/// flag or script path decides; with none of these it prints its usage.
pub fn python_command(args: &Vec<String>) -> (r: PythonCommand)
    ensures
        ({
            let v = arg_views(args@);
            let k = python_stop(v, v.len());
            &&& arg_views(r.warnings@) == v.take(k as int)
            &&& k == v.len() ==> r.action is Help
            &&& k < v.len() && is_version_flag(v[k as int]) ==> r.action is Version
            &&& k < v.len() && is_help_flag(v[k as int]) ==> r.action is Help
            &&& k < v.len() && !is_version_flag(v[k as int]) && !is_help_flag(v[k as int])
                ==> (r.action matches ToolAction::RunScript(p) && p@ == v[k as int])
        }),
{
    let ghost v = arg_views(args@);
    proof { lemma_python_stop(v, v.len()); }
    let mut warnings: Vec<String> = Vec::new();
    let mut i: usize = 0;
    while i < args.len()
        invariant
            v == arg_views(args@),
            i <= args@.len(),
            python_stop(v, i as nat) == i,
            arg_views(warnings@) == v.take(i as int),
        decreases args@.len() - i,
    {
        let a = args[i].as_str();
        if is_version_arg(a) || is_help_arg(a) || !starts_with_char(a, '-') {
            proof {
                assert(python_stop(v, (i + 1) as nat) == i);
                lemma_python_stop_at(v, (i + 1) as nat, v.len());
            }
            let action = if is_version_arg(a) {
                ToolAction::Version
            } else if is_help_arg(a) {
                ToolAction::Help
            } else {
                ToolAction::RunScript(args[i].clone())
            };
            return PythonCommand { warnings, action };
        }
        let ghost before = warnings@;
        let c = args[i].clone();
        warnings.push(c);
        proof {
            lemma_arg_views_push(before, c);
            assert(v.take(i + 1) =~= v.take(i as int).push(v[i as int]));
        }
        i = i + 1;
    }
    assert(i == v.len());
    PythonCommand { warnings, action: ToolAction::Help }
}

/// How `pip` and `pytest` read their arguments: the first one decides; a
/// version or help flag prints that, anything else is reported as not
/// implemented; with no arguments they print their usage.
pub fn pip_command(args: &Vec<String>) -> (r: ToolAction)
    ensures
        args@.len() == 0 ==> r is Help,
        args@.len() > 0 && is_version_flag(args@[0]@) ==> r is Version,
        args@.len() > 0 && is_help_flag(args@[0]@) ==> r is Help,
        args@.len() > 0 && !is_version_flag(args@[0]@) && !is_help_flag(args@[0]@)
            ==> (r matches ToolAction::Unsupported(a) && a@ == args@[0]@),
{
    first_argument_action(args, ToolAction::Help)
}

/// How `pytest` reads its arguments: as `pip` does.
pub fn pytest_command(args: &Vec<String>) -> (r: ToolAction)
    ensures
        args@.len() == 0 ==> r is Help,
        args@.len() > 0 && is_version_flag(args@[0]@) ==> r is Version,
        args@.len() > 0 && is_help_flag(args@[0]@) ==> r is Help,
        args@.len() > 0 && !is_version_flag(args@[0]@) && !is_help_flag(args@[0]@)
            ==> (r matches ToolAction::Unsupported(a) && a@ == args@[0]@),
{
    first_argument_action(args, ToolAction::Help)
}

/// How `idle` reads its arguments: as `pip` does, but with no arguments it
/// starts the environment.
pub fn idle_command(args: &Vec<String>) -> (r: ToolAction)
    ensures
        args@.len() == 0 ==> r is Start,
        args@.len() > 0 && is_version_flag(args@[0]@) ==> r is Version,
        args@.len() > 0 && is_help_flag(args@[0]@) ==> r is Help,
        args@.len() > 0 && !is_version_flag(args@[0]@) && !is_help_flag(args@[0]@)
            ==> (r matches ToolAction::Unsupported(a) && a@ == args@[0]@),
{
    first_argument_action(args, ToolAction::Start)
}

fn first_argument_action(args: &Vec<String>, when_empty: ToolAction) -> (r: ToolAction)
    ensures
        args@.len() == 0 ==> r == when_empty,
        args@.len() > 0 && is_version_flag(args@[0]@) ==> r is Version,
        args@.len() > 0 && is_help_flag(args@[0]@) ==> r is Help,
        args@.len() > 0 && !is_version_flag(args@[0]@) && !is_help_flag(args@[0]@)
            ==> (r matches ToolAction::Unsupported(a) && a@ == args@[0]@),
{
    if args.len() == 0 {
        return when_empty;
    }
    let a = args[0].as_str();
    if is_version_arg(a) {
        ToolAction::Version
    } else if is_help_arg(a) {
        ToolAction::Help
    } else {
        ToolAction::Unsupported(args[0].clone())
    }
}

/// How `python-config` reads its arguments: the first one decides;
/// `--version` and `--help` (only the long forms) print those, a query is
/// answered, anything else is reported as not implemented; with no
/// arguments it prints its usage.
pub fn config_command(args: &Vec<String>) -> (r: ToolAction)
    ensures
        args@.len() == 0 ==> r is Help,
        args@.len() > 0 && args@[0]@ == "--version"@ ==> r is Version,
        args@.len() > 0 && args@[0]@ == "--help"@ ==> r is Help,
        args@.len() > 0 && config_query_of(args@[0]@) is Some
            ==> r == ToolAction::Config(config_query_of(args@[0]@)->0),
        args@.len() > 0 && args@[0]@ != "--version"@ && args@[0]@ != "--help"@
            && config_query_of(args@[0]@) is None
            ==> (r matches ToolAction::Unsupported(a) && a@ == args@[0]@),
{
    if args.len() == 0 {
        return ToolAction::Help;
    }
    let a = args[0].as_str();
    proof {
        reveal_flags();
        reveal_queries();
    }
    if str_equal(a, "--version") {
        ToolAction::Version
    } else if str_equal(a, "--help") {
        ToolAction::Help
    } else if str_equal(a, "--prefix") {
        ToolAction::Config(ConfigQuery::Prefix)
    } else if str_equal(a, "--exec-prefix") {
        ToolAction::Config(ConfigQuery::ExecPrefix)
    } else if str_equal(a, "--includes") {
        ToolAction::Config(ConfigQuery::Includes)
    } else if str_equal(a, "--libs") {
        ToolAction::Config(ConfigQuery::Libs)
    } else if str_equal(a, "--cflags") {
        ToolAction::Config(ConfigQuery::Cflags)
    } else if str_equal(a, "--ldflags") {
        ToolAction::Config(ConfigQuery::Ldflags)
    } else if str_equal(a, "--extension-suffix") {
        ToolAction::Config(ConfigQuery::ExtensionSuffix)
    } else {
        ToolAction::Unsupported(args[0].clone())
    }
}

} // verus!
