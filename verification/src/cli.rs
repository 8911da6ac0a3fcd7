//! The command line's own rules: which words are flags, how `--key=value`
//! parameters and run options are read, the shape of URLs shown in help,
//! exit codes, and which top-level request an argument list makes.
use vstd::prelude::*;

use crate::error::FfiError;
use crate::strmap::{entries_of, keys_unique, lemma_pairs_map_empty, map_insert, map_of};
use crate::text::{
    cat3, chars_of, ends_with, replace_char, split_once, starts_with, str_contains_char, str_eq,
    str_ends_with, str_replace_char, str_split_once, str_starts_with, str_trim_end_char,
    string_from_range, to_string, trim_end_char,
};

verus! {

/// Exit code of a run that went well.
pub const EXIT_OK: u8 = 0;

/// Exit code of a usage error or a failed request.
pub const EXIT_USAGE: u8 = 1;

/// Exit code of an HTTP status that `--fail-on-error` or `--fail-on-warn` refuses.
pub const EXIT_HTTP: u8 = 2;

// ---------------------------------------------------------------------------
// Flag words
// ---------------------------------------------------------------------------

/// Flags that hold for the whole program.
pub open spec fn global_flag(a: Seq<char>) -> bool {
    a == "--verbose"@ || a == "-v"@
}

/// Flags that ask to look at an API rather than call it.
pub open spec fn discovery_flag(a: Seq<char>) -> bool {
    a == "--help"@ || a == "-h"@ || a == "--list"@ || a == "--tree"@
}

/// Flags that shape a call and its output.
pub open spec fn run_flag(a: Seq<char>) -> bool {
    a == "--json"@ || a == "--pretty"@ || a == "--status"@ || a == "--fail-on-error"@ || a
        == "--fail-on-warn"@
}

/// A word that is a flag rather than a segment of a command path.
pub open spec fn flag_word(a: Seq<char>) -> bool {
    discovery_flag(a) || run_flag(a) || global_flag(a) || starts_with(a, "--"@)
}

/// Whether `arg` is a global flag (`--verbose`, `-v`).
pub fn is_global_flag(arg: &str) -> (r: bool)
    ensures
        r == global_flag(arg@),
{
    str_eq(arg, "--verbose") || str_eq(arg, "-v")
}

/// Whether `arg` is a discovery flag (`--help`, `-h`, `--list`, `--tree`).
pub fn is_discovery_flag(arg: &str) -> (r: bool)
    ensures
        r == discovery_flag(arg@),
{
    str_eq(arg, "--help") || str_eq(arg, "-h") || str_eq(arg, "--list") || str_eq(arg, "--tree")
}

/// Whether `arg` is a run flag (`--json`, `--pretty`, `--status`,
/// `--fail-on-error`, `--fail-on-warn`).
pub fn is_run_flag(arg: &str) -> (r: bool)
    ensures
        r == run_flag(arg@),
{
    str_eq(arg, "--json") || str_eq(arg, "--pretty") || str_eq(arg, "--status") || str_eq(
        arg,
        "--fail-on-error",
    ) || str_eq(arg, "--fail-on-warn")
}

/// Splits the words after the API name into command-path segments and flags,
/// each in the order given: flags may stand anywhere.
pub fn split_command_and_flags(args: &[String]) -> (r: (Vec<String>, Vec<String>))
    ensures
        r.0.deep_view() == args.deep_view().filter(|a: Seq<char>| !flag_word(a)),
        r.1.deep_view() == args.deep_view().filter(|a: Seq<char>| flag_word(a)),
{
    let mut words: Vec<String> = Vec::new();
    let mut flags: Vec<String> = Vec::new();
    let mut i: usize = 0;
    proof {
        reveal_with_fuel(Seq::filter, 1);
        assert(args.deep_view().take(0) =~= Seq::<Seq<char>>::empty());
    }
    while i < args.len()
        invariant
            i <= args@.len(),
            words.deep_view() == args.deep_view().take(i as int).filter(
                |a: Seq<char>| !flag_word(a),
            ),
            flags.deep_view() == args.deep_view().take(i as int).filter(
                |a: Seq<char>| flag_word(a),
            ),
        decreases args.len() - i,
    {
        let arg = &args[i];
        let ghost a = arg@;
        let ghost pre = args.deep_view().take(i as int);
        proof {
            assert(args.deep_view().take(i + 1) =~= pre.push(a));
            pre.lemma_filter_push(a, |a: Seq<char>| !flag_word(a));
            pre.lemma_filter_push(a, |a: Seq<char>| flag_word(a));
        }
        let is_flag = is_discovery_flag(arg.as_str()) || is_run_flag(arg.as_str())
            || is_global_flag(arg.as_str()) || str_starts_with(arg.as_str(), "--");
        if is_flag {
            let ghost before = flags.deep_view();
            flags.push(arg.clone());
            assert(flags.deep_view() =~= before.push(a));
        } else {
            let ghost before = words.deep_view();
            words.push(arg.clone());
            assert(words.deep_view() =~= before.push(a));
        }
        i = i + 1;
    }
    assert(args.deep_view().take(args@.len() as int) =~= args.deep_view());
    (words, flags)
}

// ---------------------------------------------------------------------------
// Paths, URLs and install sources
// ---------------------------------------------------------------------------

/// A dotted command path as the words a user types (`repos.issues` becomes
/// `repos issues`).
pub fn path_to_words(path: &str) -> (r: String)
    ensures
        r@ == replace_char(path@, '.', ' '),
{
    str_replace_char(path, '.', ' ')
}

/// The URL that a command's endpoint makes with the API's base URL.
pub open spec fn joined_url(base_url: Seq<char>, endpoint: Seq<char>) -> Seq<char> {
    let base = trim_end_char(base_url, '/');
    if endpoint.len() > 0 && endpoint[0] == '/' {
        base + endpoint
    } else if endpoint.len() == 0 {
        base
    } else {
        base + seq!['/'] + endpoint
    }
}

/// Joins the base URL, without its trailing slashes, and the endpoint with
/// exactly the slash that the endpoint lacks.
pub fn full_url(base_url: &str, endpoint: &str) -> (r: String)
    ensures
        r@ == joined_url(base_url@, endpoint@),
{
    let mut base = str_trim_end_char(base_url, '/');
    let ev = chars_of(endpoint);
    if ev.len() > 0 && ev[0] == '/' {
        base.append(endpoint);
        base
    } else if ev.len() == 0 {
        base
    } else {
        crate::text::push_char(&mut base, '/');
        base.append(endpoint);
        base
    }
}

/// Whether `s` names a file system path that `std::path::Path::is_absolute`
/// accepts on this platform.
///
/// Trusted: the contract claims only what `Path`'s documentation plainly
/// says, that an absolute path starts with a root, which is a separator (`/`
/// on Unix, `\` or `/` after the prefix on Windows). Which further strings it
/// accepts is left unsaid, since that depends on the platform.
#[verifier::external_body]
fn path_is_absolute(s: &str) -> (r: bool)
    ensures
        r ==> (s@.contains('/') || s@.contains('\\')),
{
    std::path::Path::new(s).is_absolute()
}

/// What `install` accepts as the path of a profile rather than a bare name.
pub open spec fn install_path_like(s: Seq<char>) -> bool {
    ||| (s.len() > 0 && s[0] == '~')
    ||| s.contains('/')
    ||| s.contains('\\')
    ||| ends_with(s, ".yaml"@)
    ||| ends_with(s, ".yml"@)
}

/// Whether `source` looks like a path to a YAML profile: it starts with `~`,
/// holds a path separator, ends in `.yaml` or `.yml`, or is absolute.
pub fn looks_like_install_path(source: &str) -> (r: bool)
    ensures
        r == install_path_like(source@),
{
    let v = chars_of(source);
    let tilde = v.len() > 0 && v[0] == '~';
    tilde || str_contains_char(source, '/') || str_contains_char(source, '\\') || str_ends_with(
        source,
        ".yaml",
    ) || str_ends_with(source, ".yml") || path_is_absolute(source)
}

// ---------------------------------------------------------------------------
// Run options
// ---------------------------------------------------------------------------

/// How the response of a call is shown.
#[derive(Clone, Copy, Debug, PartialEq, Eq, Structural)]
pub enum OutputMode {
    /// The response message that the profile templates.
    Default,
    /// The body as compact JSON.
    Json,
    /// The body as indented JSON.
    Pretty,
}

/// Options of a call for use in scripts.
#[derive(Clone, Copy, Debug, PartialEq, Eq, Structural)]
pub struct RunFlags {
    /// Print the HTTP status to standard error.
    pub show_status: bool,
    /// Exit with [`EXIT_HTTP`] on a status of 400 or more.
    pub fail_on_error: bool,
    /// Exit with [`EXIT_HTTP`] on a status of 300 or more.
    pub fail_on_warn: bool,
}

impl RunFlags {
    /// No option set.
    pub fn none() -> (r: RunFlags)
        ensures
            r == (RunFlags { show_status: false, fail_on_error: false, fail_on_warn: false }),
    {
        RunFlags { show_status: false, fail_on_error: false, fail_on_warn: false }
    }
}

/// The exit code for an HTTP status under the given options.
pub open spec fn exit_code_for(status: u16, flags: RunFlags) -> u8 {
    if flags.fail_on_warn && status >= 300 {
        EXIT_HTTP
    } else if flags.fail_on_error && status >= 400 {
        EXIT_HTTP
    } else {
        EXIT_OK
    }
}

/// The exit code for an HTTP status: [`EXIT_HTTP`] where `--fail-on-warn`
/// refuses a status of 300 or more or `--fail-on-error` one of 400 or more,
/// else [`EXIT_OK`].
pub fn http_exit_code(status: u16, flags: RunFlags) -> (r: u8)
    ensures
        r == exit_code_for(status, flags),
{
    if flags.fail_on_warn && status >= 300 {
        return EXIT_HTTP;
    }
    if flags.fail_on_error && status >= 400 {
        return EXIT_HTTP;
    }
    EXIT_OK
}

/// What the run options read so far have set.
pub type RunState = (Map<Seq<char>, Seq<char>>, OutputMode, RunFlags);

/// One word of the run options read after the state `st`.
pub open spec fn run_step(st: RunState, arg: Seq<char>) -> Result<RunState, Seq<char>> {
    let (params, output, flags) = st;
    if discovery_flag(arg) || global_flag(arg) {
        Ok(st)
    } else if arg == "--pretty"@ {
        Ok((params, OutputMode::Pretty, flags))
    } else if arg == "--json"@ {
        Ok(
            (
                params,
                if output == OutputMode::Pretty {
                    OutputMode::Pretty
                } else {
                    OutputMode::Json
                },
                flags,
            ),
        )
    } else if arg == "--status"@ {
        Ok(
            (
                params,
                output,
                RunFlags {
                    show_status: true,
                    fail_on_error: flags.fail_on_error,
                    fail_on_warn: flags.fail_on_warn,
                },
            ),
        )
    } else if arg == "--fail-on-error"@ {
        Ok(
            (
                params,
                output,
                RunFlags {
                    show_status: flags.show_status,
                    fail_on_error: true,
                    fail_on_warn: flags.fail_on_warn,
                },
            ),
        )
    } else if arg == "--fail-on-warn"@ {
        Ok(
            (
                params,
                output,
                RunFlags {
                    show_status: flags.show_status,
                    fail_on_error: flags.fail_on_error,
                    fail_on_warn: true,
                },
            ),
        )
    } else {
        match split_once(arg, '=') {
            Some((key, value)) => {
                if starts_with(key, "--"@) {
                    Ok((params.insert(key.skip(2), value), output, flags))
                } else {
                    Err("invalid parameter '"@ + arg + "'. Use --key=value"@)
                }
            },
            None => {
                if starts_with(arg, "--"@) {
                    Err("unknown option '"@ + arg + "'. Use --key=value for parameters"@)
                } else {
                    Err("unexpected argument '"@ + arg + "'. Parameters use --key=value"@)
                }
            },
        }
    }
}

/// All the run options read from left to right, stopping at the first bad word.
pub open spec fn run_options(args: Seq<Seq<char>>) -> Result<RunState, Seq<char>>
    decreases args.len(),
{
    if args.len() == 0 {
        Ok(
            (
                Map::empty(),
                OutputMode::Default,
                RunFlags { show_status: false, fail_on_error: false, fail_on_warn: false },
            ),
        )
    } else {
        match run_options(args.drop_last()) {
            Err(e) => Err(e),
            Ok(st) => run_step(st, args.last()),
        }
    }
}

/// A bad word stops the reading: what follows it changes nothing.
pub proof fn lemma_run_options_stop(args: Seq<Seq<char>>, i: int)
    requires
        0 <= i <= args.len(),
        run_options(args.take(i)) is Err,
    ensures
        run_options(args) == run_options(args.take(i)),
    decreases args.len(),
{
    if i < args.len() {
        assert(args.drop_last().take(i) =~= args.take(i));
        lemma_run_options_stop(args.drop_last(), i);
    } else {
        assert(args.take(i) =~= args);
    }
}

/// Reads the flags of a call: output mode, automation options and
/// `--key=value` parameters (a later value of a key replaces an earlier one).
/// Discovery and global flags are passed over. The first word that is none of
/// these is refused with its message.
pub fn parse_run_flags(flag_args: &[String]) -> (r: Result<
    (Vec<(String, String)>, OutputMode, RunFlags),
    FfiError,
>)
    ensures
        match r {
            Ok((params, output, flags)) => {
                &&& run_options(flag_args.deep_view()) == Ok::<RunState, Seq<char>>(
                    (map_of(params@), output, flags),
                )
                &&& keys_unique(entries_of(params@))
            },
            Err(e) => run_options(flag_args.deep_view()) == Err::<RunState, Seq<char>>(e@),
        },
        r matches Ok((_, _, flags)) ==> (flags.fail_on_error <==> flag_args.deep_view().contains(
            "--fail-on-error"@,
        )) && (flags.fail_on_warn <==> flag_args.deep_view().contains("--fail-on-warn"@)) && (
        flags.show_status <==> flag_args.deep_view().contains("--status"@)),
{
    let mut params: Vec<(String, String)> = Vec::new();
    let mut output = OutputMode::Default;
    let mut flags = RunFlags::none();
    let mut i: usize = 0;
    proof {
        lemma_pairs_map_empty(entries_of(params@));
        assert(flag_args.deep_view().take(0) =~= Seq::<Seq<char>>::empty());
    }
    while i < flag_args.len()
        invariant
            i <= flag_args@.len(),
            run_options(flag_args.deep_view().take(i as int)) == Ok::<RunState, Seq<char>>(
                (map_of(params@), output, flags),
            ),
            keys_unique(entries_of(params@)),
        decreases flag_args.len() - i,
    {
        let arg = flag_args[i].as_str();
        let ghost pre = flag_args.deep_view().take(i as int);
        let ghost next = flag_args.deep_view().take(i + 1);
        proof {
            assert(next.drop_last() =~= pre);
            assert(next.last() == arg@);
        }
        if is_discovery_flag(arg) || is_global_flag(arg) {
        } else if str_eq(arg, "--pretty") {
            output = OutputMode::Pretty;
        } else if str_eq(arg, "--json") {
            if output != OutputMode::Pretty {
                output = OutputMode::Json;
            }
        } else if str_eq(arg, "--status") {
            flags.show_status = true;
        } else if str_eq(arg, "--fail-on-error") {
            flags.fail_on_error = true;
        } else if str_eq(arg, "--fail-on-warn") {
            flags.fail_on_warn = true;
        } else {
            match str_split_once(arg, '=') {
                Some((key, value)) => {
                    if str_starts_with(key.as_str(), "--") {
                        let kv = chars_of(key.as_str());
                        proof {
                            reveal_strlit("--");
                        }
                        let name = string_from_range(&kv, 2, kv.len());
                        assert(name@ =~= key@.skip(2));
                        map_insert(&mut params, name, value);
                    } else {
                        let msg = cat3("invalid parameter '", arg, "'. Use --key=value");
                        proof {
                            lemma_run_options_stop(flag_args.deep_view(), i + 1);
                        }
                        return Err(FfiError::from_string(msg));
                    }
                },
                None => {
                    let msg = if str_starts_with(arg, "--") {
                        cat3("unknown option '", arg, "'. Use --key=value for parameters")
                    } else {
                        cat3("unexpected argument '", arg, "'. Parameters use --key=value")
                    };
                    proof {
                        lemma_run_options_stop(flag_args.deep_view(), i + 1);
                    }
                    return Err(FfiError::from_string(msg));
                },
            }
        }
        i = i + 1;
    }
    assert(flag_args.deep_view().take(flag_args@.len() as int) =~= flag_args.deep_view());
    proof {
        law_automation_options(flag_args.deep_view());
    }
    Ok((params, output, flags))
}

// ---------------------------------------------------------------------------
// import-openapi options
// ---------------------------------------------------------------------------

/// What `import-openapi` was asked to do with an OpenAPI document.
#[derive(Debug)]
pub struct ImportOptions {
    /// The OpenAPI document.
    pub source: String,
    /// Where the YAML profile goes (`--out`).
    pub output: Option<String>,
    /// The profile's name (`--name`).
    pub name: Option<String>,
    /// Only operations with this tag (`--tag`).
    pub tag: Option<String>,
    /// A base URL to use instead of the document's (`--base-url`).
    pub base_url: Option<String>,
    /// How commands are grouped (`--nest-by`).
    pub nest_by: Option<String>,
    /// Shorter leaf command names (`--short-names`).
    pub short_names: bool,
    /// The vendor preset (`--preset`).
    pub preset: Option<String>,
}

/// The options of `import-openapi` as character sequences.
pub struct ImportOptionsView {
    pub source: Seq<char>,
    pub output: Option<Seq<char>>,
    pub name: Option<Seq<char>>,
    pub tag: Option<Seq<char>>,
    pub base_url: Option<Seq<char>>,
    pub nest_by: Option<Seq<char>>,
    pub short_names: bool,
    pub preset: Option<Seq<char>>,
}

/// The view of an optional string.
pub open spec fn opt_view(o: Option<String>) -> Option<Seq<char>> {
    match o {
        Some(s) => Some(s@),
        None => None,
    }
}

impl View for ImportOptions {
    type V = ImportOptionsView;

    open spec fn view(&self) -> ImportOptionsView {
        ImportOptionsView {
            source: self.source@,
            output: opt_view(self.output),
            name: opt_view(self.name),
            tag: opt_view(self.tag),
            base_url: opt_view(self.base_url),
            nest_by: opt_view(self.nest_by),
            short_names: self.short_names,
            preset: opt_view(self.preset),
        }
    }
}

/// The message for an option of `import-openapi` that lacks its value.
pub open spec fn import_missing_value(opt: Seq<char>) -> Seq<char> {
    if opt == "--name"@ {
        "--name requires a value"@
    } else if opt == "--out"@ {
        "--out requires a path"@
    } else if opt == "--tag"@ {
        "--tag requires a value"@
    } else if opt == "--base-url"@ {
        "--base-url requires a URL"@
    } else if opt == "--nest-by"@ {
        "--nest-by requires path or tag"@
    } else {
        "--preset requires auto, github, or none"@
    }
}

/// The options of `import-openapi` that take a value.
pub open spec fn import_value_option(opt: Seq<char>) -> bool {
    opt == "--name"@ || opt == "--out"@ || opt == "--tag"@ || opt == "--base-url"@ || opt
        == "--nest-by"@ || opt == "--preset"@
}

/// `o` with the value `v` of the option `opt` set.
pub open spec fn import_set(o: ImportOptionsView, opt: Seq<char>, v: Seq<char>) -> ImportOptionsView {
    ImportOptionsView {
        output: if opt == "--out"@ { Some(v) } else { o.output },
        name: if opt == "--name"@ { Some(v) } else { o.name },
        tag: if opt == "--tag"@ { Some(v) } else { o.tag },
        base_url: if opt == "--base-url"@ { Some(v) } else { o.base_url },
        nest_by: if opt == "--nest-by"@ { Some(v) } else { o.nest_by },
        preset: if opt == "--preset"@ { Some(v) } else { o.preset },
        ..o
    }
}

/// The options read from `args[i..]` on top of `o`, or the message of the
/// first problem.
pub open spec fn import_options_from(args: Seq<Seq<char>>, i: int, o: ImportOptionsView) -> Result<
    ImportOptionsView,
    Seq<char>,
>
    decreases args.len() - i,
{
    if i < 0 || i >= args.len() {
        Ok(o)
    } else if import_value_option(args[i]) {
        if i + 1 >= args.len() {
            Err(import_missing_value(args[i]))
        } else {
            import_options_from(args, i + 2, import_set(o, args[i], args[i + 1]))
        }
    } else if args[i] == "--short-names"@ {
        import_options_from(args, i + 1, ImportOptionsView { short_names: true, ..o })
    } else {
        Err("unknown option '"@ + args[i] + "'. Run: ycallr import-openapi --help"@)
    }
}

/// The value-taking options of `import-openapi` are six different words.
proof fn lemma_import_option_names_distinct()
    ensures
        "--name"@ != "--out"@,
        "--name"@ != "--tag"@,
        "--name"@ != "--base-url"@,
        "--name"@ != "--nest-by"@,
        "--name"@ != "--preset"@,
        "--out"@ != "--tag"@,
        "--out"@ != "--base-url"@,
        "--out"@ != "--nest-by"@,
        "--out"@ != "--preset"@,
        "--tag"@ != "--base-url"@,
        "--tag"@ != "--nest-by"@,
        "--tag"@ != "--preset"@,
        "--base-url"@ != "--nest-by"@,
        "--base-url"@ != "--preset"@,
        "--nest-by"@ != "--preset"@,
{
    reveal_strlit("--name");
    reveal_strlit("--out");
    reveal_strlit("--tag");
    reveal_strlit("--base-url");
    reveal_strlit("--nest-by");
    reveal_strlit("--preset");
    assert("--name"@.len() == 6);
    assert("--out"@.len() == 5);
    assert("--tag"@.len() == 5);
    assert("--base-url"@.len() == 10);
    assert("--nest-by"@.len() == 9);
    assert("--preset"@.len() == 8);
    assert("--out"@[2] != "--tag"@[2]);
}

/// What `import-openapi` is asked: its help, or an import.
pub enum ImportRequest {
    /// Print the usage of `import-openapi`.
    Help,
    /// Import with these options.
    Import(ImportOptions),
}

/// No options set but the source.
pub open spec fn import_defaults(source: Seq<char>) -> ImportOptionsView {
    ImportOptionsView {
        source,
        output: None,
        name: None,
        tag: None,
        base_url: None,
        nest_by: None,
        short_names: false,
        preset: None,
    }
}

/// Whether `args` ask for the help of `import-openapi`.
pub open spec fn import_wants_help(args: Seq<Seq<char>>) -> bool {
    args.len() == 0 || args[0] == "--help"@ || args[0] == "-h"@
}

/// Reads the arguments of `import-openapi`: no argument or `--help`/`-h`
/// first asks for its help; else the first is the OpenAPI document and the
/// rest are options, each value-taking option followed by its value.
pub fn parse_import_openapi_args(args: &[String]) -> (r: Result<ImportRequest, FfiError>)
    ensures
        import_wants_help(args.deep_view()) ==> r matches Ok(ImportRequest::Help),
        !import_wants_help(args.deep_view()) ==> match r {
            Ok(ImportRequest::Import(o)) => import_options_from(
                args.deep_view(),
                1,
                import_defaults(args.deep_view()[0]),
            ) == Ok::<ImportOptionsView, Seq<char>>(o@),
            Ok(ImportRequest::Help) => false,
            Err(e) => import_options_from(args.deep_view(), 1, import_defaults(args.deep_view()[0]))
                == Err::<ImportOptionsView, Seq<char>>(e@),
        },
{
    if args.len() == 0 || str_eq(args[0].as_str(), "--help") || str_eq(args[0].as_str(), "-h") {
        return Ok(ImportRequest::Help);
    }
    let ghost a = args.deep_view();
    let mut o = ImportOptions {
        source: args[0].clone(),
        output: None,
        name: None,
        tag: None,
        base_url: None,
        nest_by: None,
        short_names: false,
        preset: None,
    };
    let mut i: usize = 1;
    while i < args.len()
        invariant
            1 <= i <= args@.len(),
            a == args.deep_view(),
            !import_wants_help(a),
            import_options_from(a, 1, import_defaults(a[0])) == import_options_from(a, i as int, o@),
        decreases args.len() - i,
    {
        let arg = args[i].as_str();
        assert(a[i as int] == arg@);
        if str_eq(arg, "--name") || str_eq(arg, "--out") || str_eq(arg, "--tag") || str_eq(
            arg,
            "--base-url",
        ) || str_eq(arg, "--nest-by") || str_eq(arg, "--preset") {
            if i + 1 >= args.len() {
                let msg = if str_eq(arg, "--name") {
                    "--name requires a value"
                } else if str_eq(arg, "--out") {
                    "--out requires a path"
                } else if str_eq(arg, "--tag") {
                    "--tag requires a value"
                } else if str_eq(arg, "--base-url") {
                    "--base-url requires a URL"
                } else if str_eq(arg, "--nest-by") {
                    "--nest-by requires path or tag"
                } else {
                    "--preset requires auto, github, or none"
                };
                return Err(FfiError::new(msg));
            }
            let value = args[i + 1].clone();
            assert(a[i + 1] == value@);
            let ghost before = o@;
            if str_eq(arg, "--name") {
                o.name = Some(value);
            } else if str_eq(arg, "--out") {
                o.output = Some(value);
            } else if str_eq(arg, "--tag") {
                o.tag = Some(value);
            } else if str_eq(arg, "--base-url") {
                o.base_url = Some(value);
            } else if str_eq(arg, "--nest-by") {
                o.nest_by = Some(value);
            } else {
                o.preset = Some(value);
            }
            proof {
                lemma_import_option_names_distinct();
                assert(o@ == import_set(before, arg@, a[i + 1]));
            }
            i = i + 2;
        } else if str_eq(arg, "--short-names") {
            o.short_names = true;
            i = i + 1;
        } else {
            let msg = cat3("unknown option '", arg, "'. Run: ycallr import-openapi --help");
            return Err(FfiError::from_string(msg));
        }
    }
    Ok(ImportRequest::Import(o))
}

// ---------------------------------------------------------------------------
// Laws
// ---------------------------------------------------------------------------

/// Every word after the API's name is either a path segment or a flag: the
/// two lists together are as long as the words.
pub proof fn law_split_partitions(args: Seq<Seq<char>>)
    ensures
        args.filter(|a: Seq<char>| !flag_word(a)).len() + args.filter(|a: Seq<char>| flag_word(a)).len()
            == args.len(),
    decreases args.len(),
{
    reveal_with_fuel(Seq::filter, 1);
    if args.len() > 0 {
        law_split_partitions(args.drop_last());
    }
}

/// `--pretty` wins over `--json`, wherever each stands.
pub proof fn law_pretty_wins(args: Seq<Seq<char>>)
    requires
        args.contains("--pretty"@),
        run_options(args) is Ok,
    ensures
        run_options(args)->Ok_0.1 == OutputMode::Pretty,
    decreases args.len(),
{
    lemma_flag_words_distinct();
    let prefix = args.drop_last();
    assert(run_options(prefix) is Ok);
    if prefix.contains("--pretty"@) {
        law_pretty_wins(prefix);
    } else {
        let i = choose|i: int| 0 <= i < args.len() && args[i] == "--pretty"@;
        if i < args.len() - 1 {
            assert(prefix[i] == "--pretty"@);
        }
        assert(args.last() == "--pretty"@);
    }
}

/// The run-option words are different words.
proof fn lemma_flag_words_distinct()
    ensures
        !discovery_flag("--pretty"@),
        !global_flag("--pretty"@),
        "--pretty"@ != "--json"@,
        "--pretty"@ != "--status"@,
        "--pretty"@ != "--fail-on-error"@,
        "--pretty"@ != "--fail-on-warn"@,
        "--pretty"@.contains('=') == false,
        !discovery_flag("--json"@),
        !global_flag("--json"@),
{
    reveal_strlit("--pretty");
    reveal_strlit("--json");
    reveal_strlit("--status");
    reveal_strlit("--fail-on-error");
    reveal_strlit("--fail-on-warn");
    reveal_strlit("--help");
    reveal_strlit("-h");
    reveal_strlit("--list");
    reveal_strlit("--tree");
    reveal_strlit("--verbose");
    reveal_strlit("-v");
    assert("--pretty"@.len() == 8);
    assert("--json"@.len() == 6);
    assert("--status"@.len() == 8);
    assert("--status"@[2] != "--pretty"@[2]);
    assert("--tree"@.len() == 6);
    assert("--help"@.len() == 6);
    assert("--list"@.len() == 6);
    assert("-h"@.len() == 2);
    assert("-v"@.len() == 2);
    assert("--verbose"@.len() == 9);
    assert("--fail-on-error"@.len() == 15);
    assert("--fail-on-warn"@.len() == 14);
    assert("--json"@[2] != "--tree"@[2]);
    assert("--json"@[2] != "--help"@[2]);
    assert("--json"@[2] != "--list"@[2]);
    assert(!"--pretty"@.contains('=')) by {
        assert forall|i: int| 0 <= i < "--pretty"@.len() implies "--pretty"@[i] != '=' by {
        }
    }
}

/// The automation option words are neither discovery nor global flags nor
/// any other run option word.
proof fn lemma_automation_words_distinct()
    ensures
        !discovery_flag("--status"@),
        !global_flag("--status"@),
        !discovery_flag("--fail-on-error"@),
        !global_flag("--fail-on-error"@),
        !discovery_flag("--fail-on-warn"@),
        !global_flag("--fail-on-warn"@),
        "--status"@ != "--pretty"@,
        "--status"@ != "--json"@,
        "--fail-on-error"@ != "--pretty"@,
        "--fail-on-error"@ != "--json"@,
        "--fail-on-error"@ != "--status"@,
        "--fail-on-warn"@ != "--pretty"@,
        "--fail-on-warn"@ != "--json"@,
        "--fail-on-warn"@ != "--status"@,
        "--fail-on-warn"@ != "--fail-on-error"@,
{
    reveal_strlit("--pretty");
    reveal_strlit("--json");
    reveal_strlit("--status");
    reveal_strlit("--fail-on-error");
    reveal_strlit("--fail-on-warn");
    reveal_strlit("--help");
    reveal_strlit("-h");
    reveal_strlit("--list");
    reveal_strlit("--tree");
    reveal_strlit("--verbose");
    reveal_strlit("-v");
    assert("--pretty"@.len() == 8);
    assert("--json"@.len() == 6);
    assert("--status"@.len() == 8);
    assert("--status"@[2] != "--pretty"@[2]);
    assert("--tree"@.len() == 6);
    assert("--help"@.len() == 6);
    assert("--list"@.len() == 6);
    assert("-h"@.len() == 2);
    assert("-v"@.len() == 2);
    assert("--verbose"@.len() == 9);
    assert("--fail-on-error"@.len() == 15);
    assert("--fail-on-warn"@.len() == 14);
}

/// Each automation option is on exactly when its word was given:
/// `--fail-on-error`, `--fail-on-warn` and `--status` each set their option,
/// nothing else sets it, and no other word clears it.
pub proof fn law_automation_options(args: Seq<Seq<char>>)
    requires
        run_options(args) is Ok,
    ensures
        run_options(args)->Ok_0.2.fail_on_error <==> args.contains("--fail-on-error"@),
        run_options(args)->Ok_0.2.fail_on_warn <==> args.contains("--fail-on-warn"@),
        run_options(args)->Ok_0.2.show_status <==> args.contains("--status"@),
    decreases args.len(),
{
    lemma_automation_words_distinct();
    if args.len() == 0 {
        assert(!args.contains("--fail-on-error"@));
        assert(!args.contains("--fail-on-warn"@));
        assert(!args.contains("--status"@));
    } else {
        let prefix = args.drop_last();
        let x = args.last();
        assert(run_options(prefix) is Ok);
        law_automation_options(prefix);
        assert(args =~= prefix.push(x));
        assert forall|w: Seq<char>| args.contains(w) <==> (prefix.contains(w) || x == w) by {
            if args.contains(w) {
                let i = choose|i: int| 0 <= i < args.len() && args[i] == w;
                if i < prefix.len() {
                    assert(prefix[i] == w);
                }
            }
            if prefix.contains(w) {
                let i = choose|i: int| 0 <= i < prefix.len() && prefix[i] == w;
                assert(args[i] == w);
            }
            if x == w {
                assert(args[args.len() - 1] == w);
            }
        }
    }
}

/// The output mode is pretty exactly when `--pretty` was given, JSON exactly
/// when `--json` was given without `--pretty`, and the default otherwise.
pub proof fn law_output_mode(args: Seq<Seq<char>>)
    requires
        run_options(args) is Ok,
    ensures
        run_options(args)->Ok_0.1 == OutputMode::Pretty <==> args.contains("--pretty"@),
        run_options(args)->Ok_0.1 == OutputMode::Json <==> args.contains("--json"@) && !args.contains(
            "--pretty"@,
        ),
        run_options(args)->Ok_0.1 == OutputMode::Default <==> !args.contains("--json"@)
            && !args.contains("--pretty"@),
    decreases args.len(),
{
    lemma_flag_words_distinct();
    lemma_automation_words_distinct();
    if args.len() == 0 {
        assert(!args.contains("--pretty"@));
        assert(!args.contains("--json"@));
    } else {
        let prefix = args.drop_last();
        let x = args.last();
        assert(run_options(prefix) is Ok);
        law_output_mode(prefix);
        assert(args =~= prefix.push(x));
        assert forall|w: Seq<char>| args.contains(w) <==> (prefix.contains(w) || x == w) by {
            if args.contains(w) {
                let i = choose|i: int| 0 <= i < args.len() && args[i] == w;
                if i < prefix.len() {
                    assert(prefix[i] == w);
                }
            }
            if prefix.contains(w) {
                let i = choose|i: int| 0 <= i < prefix.len() && prefix[i] == w;
                assert(args[i] == w);
            }
            if x == w {
                assert(args[args.len() - 1] == w);
            }
        }
    }
}

/// A status below 300 never fails a run, and without automation options no
/// status does; `--fail-on-warn` fails from 300 and `--fail-on-error` from 400.
pub proof fn law_exit_codes(status: u16, flags: RunFlags)
    ensures
        status < 300 ==> exit_code_for(status, flags) == EXIT_OK,
        !flags.fail_on_warn && !flags.fail_on_error ==> exit_code_for(status, flags) == EXIT_OK,
        flags.fail_on_warn && status >= 300 ==> exit_code_for(status, flags) == EXIT_HTTP,
        flags.fail_on_error && status >= 400 ==> exit_code_for(status, flags) == EXIT_HTTP,
{
}

/// A path written as words holds no dot.
pub proof fn law_words_have_no_dots(path: Seq<char>)
    ensures
        !replace_char(path, '.', ' ').contains('.'),
{
}

} // verus!
