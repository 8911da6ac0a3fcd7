//! What a command line asks for: the top-level request, and for an API the
//! view or the call that its remaining words make.
use vstd::prelude::*;

use crate::catalog::{
    format_subcommand_hint, resolve_command_path, resolved_len, subcommand_hint,
    suggest_paths, suggestions_of, words_list, words_of, ApiCatalog,
};
use crate::cli::{
    flag_word, install_path_like, looks_like_install_path, parse_run_flags, run_options,
    split_command_and_flags, OutputMode, RunFlags,
};
use crate::discovery::{get_command, lookup};
use crate::error::FfiError;
use crate::strmap::{entries_of, keys_unique, map_of};
use crate::text::{cat2, cat3, join, join_strings, str_eq, str_replace_char};

verus! {

// ---------------------------------------------------------------------------
// The top level
// ---------------------------------------------------------------------------

/// The top-level request of a command line.
#[derive(Debug)]
pub enum Invocation {
    /// Print the program's help.
    Help,
    /// Print the versions.
    Version,
    /// List the installed profiles.
    ListApis,
    /// Run `secret` with these arguments.
    Secret(Vec<String>),
    /// Print the help of `install`.
    InstallHelp,
    /// Compile and install the profile at this path.
    Install(String),
    /// Run `import-openapi` with these arguments.
    ImportOpenapi(Vec<String>),
    /// Use the API with this name; the remaining words follow.
    Api(String, Vec<String>),
}

/// The top-level request as character sequences.
pub enum InvocationView {
    Help,
    Version,
    ListApis,
    Secret(Seq<Seq<char>>),
    InstallHelp,
    Install(Seq<char>),
    ImportOpenapi(Seq<Seq<char>>),
    Api(Seq<char>, Seq<Seq<char>>),
}

impl View for Invocation {
    type V = InvocationView;

    open spec fn view(&self) -> InvocationView {
        match self {
            Invocation::Help => InvocationView::Help,
            Invocation::Version => InvocationView::Version,
            Invocation::ListApis => InvocationView::ListApis,
            Invocation::Secret(a) => InvocationView::Secret(a.deep_view()),
            Invocation::InstallHelp => InvocationView::InstallHelp,
            Invocation::Install(p) => InvocationView::Install(p@),
            Invocation::ImportOpenapi(a) => InvocationView::ImportOpenapi(a.deep_view()),
            Invocation::Api(n, a) => InvocationView::Api(n@, a.deep_view()),
        }
    }
}

/// The message for an `install` argument that is a profile name, not a path.
pub open spec fn not_a_path_message(source: Seq<char>) -> Seq<char> {
    "Install requires a path to a YAML file.\nExample: ycallr install ~/.config/ycallr/apis/github.yaml\nGot '"@
        + source + "': pass the file path, not just the profile name."@
}

/// The top-level request that the arguments (global options taken out) make.
pub open spec fn invocation_of(a: Seq<Seq<char>>) -> Result<InvocationView, Seq<char>> {
    if a.len() == 0 {
        Ok(InvocationView::Help)
    } else if a.len() == 1 && (a[0] == "--help"@ || a[0] == "-h"@) {
        Ok(InvocationView::Help)
    } else if a.len() == 1 && (a[0] == "--version"@ || a[0] == "-V"@) {
        Ok(InvocationView::Version)
    } else if a.len() == 1 && a[0] == "--list"@ {
        Ok(InvocationView::ListApis)
    } else if a[0] == "secret"@ {
        Ok(InvocationView::Secret(a.skip(1)))
    } else if a[0] == "install"@ {
        if a.len() == 2 && (a[1] == "--help"@ || a[1] == "-h"@) {
            Ok(InvocationView::InstallHelp)
        } else if a.len() != 2 {
            Err("usage: ycallr install <path/to/profile.yaml>"@)
        } else if !install_path_like(a[1]) {
            Err(not_a_path_message(a[1]))
        } else {
            Ok(InvocationView::Install(a[1]))
        }
    } else if a[0] == "import-openapi"@ {
        Ok(InvocationView::ImportOpenapi(a.skip(1)))
    } else {
        Ok(InvocationView::Api(a[0], a.skip(1)))
    }
}

/// The words `args[from..]`.
fn tail_of(args: &[String], from: usize) -> (r: Vec<String>)
    requires
        from <= args@.len(),
    ensures
        r.deep_view() == args.deep_view().skip(from as int),
{
    let mut r: Vec<String> = Vec::new();
    let mut i = from;
    while i < args.len()
        invariant
            from <= i <= args@.len(),
            r.deep_view() =~= args.deep_view().subrange(from as int, i as int),
        decreases args.len() - i,
    {
        let ghost before = r.deep_view();
        r.push(args[i].clone());
        assert(r.deep_view() =~= before.push(args@[i as int]@));
        i = i + 1;
    }
    r
}

/// Reads the top-level request: help, version, the list of profiles,
/// `secret`, `install` (whose argument must look like a path), or
/// `import-openapi`; any other first word names an API.
pub fn plan_invocation(args: &[String]) -> (r: Result<Invocation, FfiError>)
    ensures
        match r {
            Ok(i) => invocation_of(args.deep_view()) == Ok::<InvocationView, Seq<char>>(i@),
            Err(e) => invocation_of(args.deep_view()) == Err::<InvocationView, Seq<char>>(e@),
        },
{
    let ghost a = args.deep_view();
    if args.len() == 0 {
        return Ok(Invocation::Help);
    }
    let first = args[0].as_str();
    assert(a[0] == first@);
    if args.len() == 1 {
        if str_eq(first, "--help") || str_eq(first, "-h") {
            return Ok(Invocation::Help);
        }
        if str_eq(first, "--version") || str_eq(first, "-V") {
            return Ok(Invocation::Version);
        }
        if str_eq(first, "--list") {
            return Ok(Invocation::ListApis);
        }
    }
    if str_eq(first, "secret") {
        return Ok(Invocation::Secret(tail_of(args, 1)));
    }
    if str_eq(first, "install") {
        if args.len() == 2 && (str_eq(args[1].as_str(), "--help") || str_eq(args[1].as_str(), "-h")) {
            return Ok(Invocation::InstallHelp);
        }
        if args.len() != 2 {
            return Err(FfiError::new("usage: ycallr install <path/to/profile.yaml>"));
        }
        let source = args[1].as_str();
        assert(a[1] == source@);
        if !looks_like_install_path(source) {
            return Err(
                FfiError::from_string(
                    cat3(
                        "Install requires a path to a YAML file.\nExample: ycallr install ~/.config/ycallr/apis/github.yaml\nGot '",
                        source,
                        "': pass the file path, not just the profile name.",
                    ),
                ),
            );
        }
        return Ok(Invocation::Install(args[1].clone()));
    }
    if str_eq(first, "import-openapi") {
        return Ok(Invocation::ImportOpenapi(tail_of(args, 1)));
    }
    Ok(Invocation::Api(args[0].clone(), tail_of(args, 1)))
}

// ---------------------------------------------------------------------------
// An API's words
// ---------------------------------------------------------------------------

/// What the words after an API's name ask for.
#[derive(Debug)]
pub enum ApiAction {
    /// Print the command tree below this path (`""` for the whole tree).
    Tree(String),
    /// Print the direct subcommands of this path (`""` for the top).
    List(String),
    /// Print the API's help.
    ApiHelp,
    /// Print the help of this command.
    CommandHelp(String),
    /// Call this command with these parameters and options.
    Call(String, Vec<(String, String)>, OutputMode, RunFlags),
}

/// What the words after an API's name ask for, as character sequences.
pub enum ApiActionView {
    Tree(Seq<char>),
    List(Seq<char>),
    ApiHelp,
    CommandHelp(Seq<char>),
    Call(Seq<char>, Map<Seq<char>, Seq<char>>, OutputMode, RunFlags),
}

impl View for ApiAction {
    type V = ApiActionView;

    open spec fn view(&self) -> ApiActionView {
        match self {
            ApiAction::Tree(p) => ApiActionView::Tree(p@),
            ApiAction::List(p) => ApiActionView::List(p@),
            ApiAction::ApiHelp => ApiActionView::ApiHelp,
            ApiAction::CommandHelp(p) => ApiActionView::CommandHelp(p@),
            ApiAction::Call(p, m, o, f) => ApiActionView::Call(p@, map_of(m@), *o, *f),
        }
    }
}

/// The message for words left over after the command that the first ones name.
pub open spec fn extra_segments_message(
    cat: ApiCatalog,
    words: Seq<Seq<char>>,
    n: int,
    path: Seq<char>,
) -> Seq<char> {
    let suggestions = suggestions_of(cat, join(words, "."@));
    let sub = subcommand_hint(cat, path);
    "unexpected extra path segment(s) '"@ + join(words.skip(n), " "@) + "' after '"@ + words_of(path)
        + "'. "@ + if suggestions.len() > 0 {
        "Did you mean: "@ + join(suggestions.map_values(|p: Seq<char>| words_of(p)), ", "@)
    } else if sub.len() > 0 {
        sub
    } else {
        "Try: ycallr "@ + cat.name@ + " --list"@
    }
}

/// The message for a group that is called.
pub open spec fn group_call_message(cat: ApiCatalog, path: Seq<char>) -> Seq<char> {
    let hint = subcommand_hint(cat, path);
    "'"@ + words_of(path) + "' is a command group, not callable. "@ + if hint.len() == 0 {
        "Use --list for subcommands or --help for details."@
    } else {
        hint + ". Use --help for details."@
    }
}

/// What the words `rest` after the API's name ask for, once they name a
/// command of `n` words (`n > 0`) whose path is `path`.
pub open spec fn api_plan_resolved(
    cat: ApiCatalog,
    words: Seq<Seq<char>>,
    flags: Seq<Seq<char>>,
    n: int,
    path: Seq<char>,
) -> Result<ApiActionView, Seq<char>> {
    if n < words.len() {
        Err(extra_segments_message(cat, words, n, path))
    } else if flags.contains("--tree"@) {
        Ok(ApiActionView::Tree(path))
    } else if flags.contains("--list"@) {
        Ok(ApiActionView::List(path))
    } else if flags.contains("--help"@) || flags.contains("-h"@) {
        Ok(ApiActionView::CommandHelp(path))
    } else {
        match lookup(cat, path) {
            Err(e) => Err(e),
            Ok(c) => if !c.is_leaf {
                Err(group_call_message(cat, path))
            } else {
                match run_options(flags) {
                    Err(e) => Err(e),
                    Ok(st) => Ok(ApiActionView::Call(path, st.0, st.1, st.2)),
                }
            },
        }
    }
}

/// The words of a command line after the API's name that are path segments.
pub open spec fn command_words(rest: Seq<Seq<char>>) -> Seq<Seq<char>> {
    rest.filter(|a: Seq<char>| !flag_word(a))
}

/// The words of a command line after the API's name that are flags.
pub open spec fn flag_words(rest: Seq<Seq<char>>) -> Seq<Seq<char>> {
    rest.filter(|a: Seq<char>| flag_word(a))
}

/// Whether `flags` holds `f`.
fn has_flag(flags: &Vec<String>, f: &str) -> (r: bool)
    ensures
        r == flags.deep_view().contains(f@),
{
    crate::env_secrets::list_contains(flags.as_slice(), f)
}

/// Reads the words after an API's name. Without path segments: the tree
/// (`--tree`), the top-level list (`--list`) or the API's help. Otherwise
/// the segments must name a command, with nothing left over; then `--tree`,
/// `--list` and `--help` show it, and else it is called, if it is callable,
/// with the parameters and options of the flags.
pub fn plan_api_command(cat: &ApiCatalog, rest: &[String]) -> (r: Result<ApiAction, FfiError>)
    ensures
        ({
            let words = command_words(rest.deep_view());
            let flags = flag_words(rest.deep_view());
            let n = resolved_len(*cat, words, words.len() as int);
            let tried = join(words, " "@);
            let expected: Result<ApiActionView, Seq<char>> = if words.len() == 0 {
                if flags.contains("--tree"@) {
                    Ok(ApiActionView::Tree(Seq::empty()))
                } else if flags.contains("--list"@) {
                    Ok(ApiActionView::List(Seq::empty()))
                } else {
                    Ok(ApiActionView::ApiHelp)
                }
            } else if n == 0 {
                Err(
                    crate::catalog::unknown_command_message(
                        cat.name@,
                        tried,
                        suggestions_of(*cat, tried),
                    ),
                )
            } else {
                api_plan_resolved(*cat, words, flags, n, join(words.take(n), "."@))
            };
            match r {
                Ok(a) => expected == Ok::<ApiActionView, Seq<char>>(a@),
                Err(e) => expected == Err::<ApiActionView, Seq<char>>(e@),
            }
        }),
        r matches Ok(ApiAction::Call(_, params, _, _)) ==> keys_unique(entries_of(params@)),
{
    let (words, flags) = split_command_and_flags(rest);
    let show_help = has_flag(&flags, "--help") || has_flag(&flags, "-h");
    let show_list = has_flag(&flags, "--list");
    let show_tree = has_flag(&flags, "--tree");
    if words.len() == 0 {
        proof {
            reveal_strlit("");
            assert(""@ =~= Seq::<char>::empty());
        }
        if show_tree {
            return Ok(ApiAction::Tree(crate::text::to_string("")));
        }
        if show_list {
            return Ok(ApiAction::List(crate::text::to_string("")));
        }
        return Ok(ApiAction::ApiHelp);
    }
    let ws = words.as_slice();
    assert(ws.deep_view() =~= words.deep_view());
    let (command_path, consumed) = match resolve_command_path(cat, ws) {
        Ok(x) => x,
        Err(e) => {
            proof {
                let wv = words.deep_view();
                crate::catalog::lemma_resolved_len_range(*cat, wv, wv.len() as int);
                assert(ws@.len() == wv.len());
                assert(resolved_len(*cat, wv, wv.len() as int) == 0);
                assert(e@ == crate::catalog::unknown_command_message(
                    cat.name@,
                    join(wv, " "@),
                    suggestions_of(*cat, join(wv, " "@)),
                ));
            }
            return Err(e);
        },
    };
    proof {
        crate::catalog::lemma_resolved_len_range(*cat, words.deep_view(), words.deep_view().len() as int);
    }
    if consumed < words.len() {
        let tail = tail_of(ws, consumed);
        let ts = tail.as_slice();
        assert(ts.deep_view() =~= tail.deep_view());
        let extra = join_strings(ts, " ");
        let full_attempt = join_strings(ws, ".");
        let suggestions = suggest_paths(cat, full_attempt.as_str());
        let sub_hint = format_subcommand_hint(cat, command_path.as_str());
        let hint = if suggestions.len() > 0 {
            cat2("Did you mean: ", words_list(&suggestions).as_str())
        } else if sub_hint.unicode_len() > 0 {
            sub_hint
        } else {
            cat3("Try: ycallr ", cat.name.as_str(), " --list")
        };
        let mut msg = cat3("unexpected extra path segment(s) '", extra.as_str(), "' after '");
        msg.append(str_replace_char(command_path.as_str(), '.', ' ').as_str());
        msg.append("'. ");
        msg.append(hint.as_str());
        return Err(FfiError::from_string(msg));
    }
    if show_tree {
        return Ok(ApiAction::Tree(command_path));
    }
    if show_list {
        return Ok(ApiAction::List(command_path));
    }
    if show_help {
        return Ok(ApiAction::CommandHelp(command_path));
    }
    let cmd = get_command(cat, command_path.as_str())?;
    if !cmd.is_leaf {
        let hint = format_subcommand_hint(cat, command_path.as_str());
        let details = if hint.unicode_len() == 0 {
            crate::text::to_string("Use --list for subcommands or --help for details.")
        } else {
            cat2(hint.as_str(), ". Use --help for details.")
        };
        let mut msg = cat3("'", str_replace_char(command_path.as_str(), '.', ' ').as_str(), "' is a command group, not callable. ");
        msg.append(details.as_str());
        return Err(FfiError::from_string(msg));
    }
    let (params, output, run_flags) = parse_run_flags(flags.as_slice())?;
    Ok(ApiAction::Call(command_path, params, output, run_flags))
}

/// The flag words that the plans tell apart are different words.
proof fn lemma_plan_words_distinct()
    ensures
        "-h"@ != "--tree"@,
        "-h"@ != "--list"@,
        "--help"@ != "--tree"@,
        "--help"@ != "--list"@,
        "--version"@ != "--help"@,
        "--version"@ != "-h"@,
        "--version"@ != "--list"@,
        "--version"@ != "secret"@,
        "--version"@ != "install"@,
        "--version"@ != "import-openapi"@,
        "-V"@ != "--help"@,
        "-V"@ != "-h"@,
        "-V"@ != "--list"@,
        "-V"@ != "secret"@,
        "-V"@ != "install"@,
        "-V"@ != "import-openapi"@,
        "--help"@ != "--list"@,
        "--help"@ != "secret"@,
        "--help"@ != "install"@,
        "--help"@ != "import-openapi"@,
        "-h"@ != "secret"@,
        "-h"@ != "install"@,
        "-h"@ != "import-openapi"@,
        "--list"@ != "secret"@,
        "--list"@ != "install"@,
        "--list"@ != "import-openapi"@,
        "--list"@ != "-h"@,
{
    reveal_strlit("-h");
    reveal_strlit("--help");
    reveal_strlit("--tree");
    reveal_strlit("--list");
    reveal_strlit("--version");
    reveal_strlit("-V");
    reveal_strlit("secret");
    reveal_strlit("install");
    reveal_strlit("import-openapi");
    assert("-h"@.len() == 2);
    assert("-V"@.len() == 2);
    assert("-V"@[1] != "-h"@[1]);
    assert("--help"@.len() == 6);
    assert("--tree"@.len() == 6);
    assert("--list"@.len() == 6);
    assert("--help"@[2] != "--tree"@[2]);
    assert("--help"@[2] != "--list"@[2]);
    assert("--version"@.len() == 9);
    assert("secret"@.len() == 6);
    assert("install"@.len() == 7);
    assert("import-openapi"@.len() == 14);
}

/// Whether `f` with `x` added holds `y`.
proof fn lemma_push_contains(f: Seq<Seq<char>>, x: Seq<char>, y: Seq<char>)
    ensures
        f.push(x).contains(y) <==> (f.contains(y) || x == y),
{
    if f.push(x).contains(y) {
        let i = choose|i: int| 0 <= i < f.push(x).len() && f.push(x)[i] == y;
        if i < f.len() {
            assert(f[i] == y);
        }
    }
    if f.contains(y) {
        let i = choose|i: int| 0 <= i < f.len() && f[i] == y;
        assert(f.push(x)[i] == y);
    }
    if x == y {
        assert(f.push(x)[f.len() as int] == y);
    }
}

/// `-h` and `--help` are the same request: once the words name a command
/// with nothing left over, either one, without `--tree` or `--list`, asks
/// for that command's help rather than a call; and adding either one to the
/// flags gives the same plan.
pub proof fn law_help_flags(
    cat: ApiCatalog,
    words: Seq<Seq<char>>,
    flags: Seq<Seq<char>>,
    n: int,
    path: Seq<char>,
)
    ensures
        n >= words.len() && !flags.contains("--tree"@) && !flags.contains("--list"@) && (
        flags.contains("-h"@) || flags.contains("--help"@)) ==> api_plan_resolved(
            cat,
            words,
            flags,
            n,
            path,
        ) == Ok::<ApiActionView, Seq<char>>(ApiActionView::CommandHelp(path)),
        api_plan_resolved(cat, words, flags.push("-h"@), n, path) == api_plan_resolved(
            cat,
            words,
            flags.push("--help"@),
            n,
            path,
        ),
{
    lemma_plan_words_distinct();
    lemma_push_contains(flags, "-h"@, "--tree"@);
    lemma_push_contains(flags, "-h"@, "--list"@);
    lemma_push_contains(flags, "-h"@, "-h"@);
    lemma_push_contains(flags, "--help"@, "--tree"@);
    lemma_push_contains(flags, "--help"@, "--list"@);
    lemma_push_contains(flags, "--help"@, "--help"@);
}

/// `--version` and `-V` are the same request, and the only ones that ask
/// for the versions: the top-level request is `Version` exactly when the
/// only argument is one of them.
pub proof fn law_version_request(a: Seq<Seq<char>>)
    ensures
        invocation_of(a) == Ok::<InvocationView, Seq<char>>(InvocationView::Version) <==> (a.len()
            == 1 && (a[0] == "--version"@ || a[0] == "-V"@)),
{
    lemma_plan_words_distinct();
}

/// The program's help is asked for exactly by no argument at all or by a
/// lone `--help` or `-h`, and the list of installed profiles exactly by a
/// lone `--list`.
pub proof fn law_help_and_list_requests(a: Seq<Seq<char>>)
    ensures
        invocation_of(a) == Ok::<InvocationView, Seq<char>>(InvocationView::Help) <==> (a.len() == 0
            || (a.len() == 1 && (a[0] == "--help"@ || a[0] == "-h"@))),
        invocation_of(a) == Ok::<InvocationView, Seq<char>>(InvocationView::ListApis) <==> (a.len()
            == 1 && a[0] == "--list"@),
{
    lemma_plan_words_distinct();
}

} // verus!
