//! The text of the discovery views: the direct subcommands of a path, the
//! command tree, an API's help and a command's help, as the lines printed.
use vstd::prelude::*;

use crate::catalog::{
    command_entry, command_of, child_path, child_path_of, depth_left, has_children, is_branch_path,
    lemma_max_path_len, list_command_names, listing_of, words_of, ApiCatalog, CommandInfo,
    EnvVarInfo, ParamInfo,
};
use crate::cli::{full_url, joined_url};
use crate::error::FfiError;
use crate::text::{
    cat2, cat3, ends_with, join, join_strings, pad_right, pad_right_str, spaces, str_eq, str_replace_char,
    to_string,
};

verus! {

/// The text of an optional string, or `default`.
pub open spec fn or_text(o: Option<String>, default: Seq<char>) -> Seq<char> {
    match o {
        Some(s) => s@,
        None => default,
    }
}

/// The text of `o`, or `default`.
pub fn or_default_text(o: &Option<String>, default: &str) -> (r: String)
    ensures
        r@ == or_text(*o, default@),
{
    match o {
        Some(s) => s.clone(),
        None => to_string(default),
    }
}

/// The message for a listed path that the catalog does not describe.
pub open spec fn missing_command_message(path: Seq<char>) -> Seq<char> {
    "command '"@ + path + "' not found"@
}

/// What the profile says of `path`, or the error that looking it up gives.
pub open spec fn lookup(cat: ApiCatalog, path: Seq<char>) -> Result<CommandInfo, Seq<char>> {
    match command_of(cat, path) {
        Some(Ok(c)) => Ok(c),
        Some(Err(e)) => Err(e@),
        None => Err(missing_command_message(path)),
    }
}

// ---------------------------------------------------------------------------
// Direct subcommands
// ---------------------------------------------------------------------------

/// The kind shown after a child: callable and group, group, or nothing.
pub open spec fn kind_suffix(c: CommandInfo) -> Seq<char> {
    if c.is_branch && c.is_leaf {
        " (callable + group)"@
    } else if c.is_branch {
        " (group)"@
    } else {
        seq![]
    }
}

/// The line for the child at `full`.
pub open spec fn child_line(full: Seq<char>, c: CommandInfo) -> Seq<char> {
    let method = match c.method {
        Some(m) => pad_right(m@, 7),
        None => spaces(7),
    };
    "  "@ + method + " "@ + pad_right(words_of(full), 32) + " "@ + or_text(
        c.description,
        "no description"@,
    ) + kind_suffix(c)
}

/// What a view prints: its lines, up to the first error met, and that
/// error if there is one.
pub open spec fn printed(lines: Seq<Seq<char>>, err: Option<Seq<char>>) -> (Seq<Seq<char>>, Option<Seq<char>>) {
    (lines, err)
}

/// `a` printed, and then `b` unless `a` stopped at an error.
pub open spec fn then_print(
    a: (Seq<Seq<char>>, Option<Seq<char>>),
    b: (Seq<Seq<char>>, Option<Seq<char>>),
) -> (Seq<Seq<char>>, Option<Seq<char>>) {
    if a.1 is Some {
        a
    } else {
        (a.0 + b.0, b.1)
    }
}

/// What a section that is built whole prints: its lines, or nothing and its
/// error.
pub open spec fn whole(r: Result<Seq<Seq<char>>, Seq<char>>) -> (Seq<Seq<char>>, Option<Seq<char>>) {
    match r {
        Ok(l) => (l, None),
        Err(e) => (seq![], Some(e)),
    }
}

/// The error a call reports, if any.
pub open spec fn outcome(r: Result<(), FfiError>) -> Option<Seq<char>> {
    match r {
        Ok(()) => None,
        Err(e) => Some(e@),
    }
}

/// What listing the children `names[i..]` of `prefix` prints: a line for
/// each, up to the first one that cannot be looked up.
pub open spec fn child_lines_from(cat: ApiCatalog, prefix: Seq<char>, names: Seq<Seq<char>>, i: int) -> (
    Seq<Seq<char>>,
    Option<Seq<char>>,
)
    decreases names.len() - i,
{
    if i < 0 || i >= names.len() {
        (seq![], None)
    } else {
        let full = child_path(prefix, names[i]);
        match lookup(cat, full) {
            Err(e) => (seq![], Some(e)),
            Ok(c) => {
                let rest = child_lines_from(cat, prefix, names, i + 1);
                (seq![child_line(full, c)] + rest.0, rest.1)
            },
        }
    }
}

/// What listing the direct subcommands of `prefix` prints.
pub open spec fn children_lines(cat: ApiCatalog, prefix: Seq<char>) -> (Seq<Seq<char>>, Option<Seq<char>>) {
    match listing_of(cat, prefix) {
        Err(e) => (seq![], Some(e)),
        Ok(names) => if names.len() == 0 {
            (seq!["(no subcommands)"@], None)
        } else {
            child_lines_from(cat, prefix, names, 0)
        },
    }
}

/// What the profile says of `path`.
pub fn get_command<'a>(cat: &'a ApiCatalog, path: &str) -> (r: Result<&'a CommandInfo, FfiError>)
    ensures
        match r {
            Ok(c) => lookup(*cat, path@) == Ok::<CommandInfo, Seq<char>>(*c),
            Err(e) => lookup(*cat, path@) == Err::<CommandInfo, Seq<char>>(e@),
        },
{
    match command_entry(cat, path) {
        Some(Ok(c)) => Ok(c),
        Some(Err(e)) => Err(FfiError::from_string(e.to_string())),
        None => Err(FfiError::from_string(cat3("command '", path, "' not found"))),
    }
}

/// The line for the child at `full`.
fn format_child_line(full: &str, c: &CommandInfo) -> (r: String)
    ensures
        r@ == child_line(full@, *c),
{
    let method = match &c.method {
        Some(m) => pad_right_str(m.as_str(), 7),
        None => pad_right_str("", 7),
    };
    proof {
        reveal_strlit("");
        assert(pad_right(""@, 7) =~= spaces(7));
    }
    let display = pad_right_str(str_replace_char(full, '.', ' ').as_str(), 32);
    let desc = or_default_text(&c.description, "no description");
    let mut line = cat3("  ", method.as_str(), " ");
    line.append(display.as_str());
    line.append(" ");
    line.append(desc.as_str());
    if c.is_branch && c.is_leaf {
        line.append(" (callable + group)");
    } else if c.is_branch {
        line.append(" (group)");
    }
    proof {
        if !c.is_branch {
            assert(line@ =~= child_line(full@, *c));
        }
    }
    line
}

/// Appends to `out` the lines that list the direct subcommands of
/// `prefix`: method, path as words, description and whether it is a group.
/// A child that cannot be looked up stops the list with its error, after
/// the lines of the children before it.
pub fn direct_children_lines(cat: &ApiCatalog, prefix: &str, out: &mut Vec<String>) -> (r: Result<
    (),
    FfiError,
>)
    ensures
        final(out).deep_view() == old(out).deep_view() + children_lines(*cat, prefix@).0,
        outcome(r) == children_lines(*cat, prefix@).1,
{
    let ghost start = out.deep_view();
    let names = match list_command_names(cat, prefix) {
        Ok(n) => n,
        Err(e) => {
            assert(out.deep_view() =~= start + Seq::<Seq<char>>::empty());
            return Err(e);
        },
    };
    if names.len() == 0 {
        push_line(out, "(no subcommands)");
        assert(out.deep_view() =~= start + seq!["(no subcommands)"@]);
        return Ok(());
    }
    let ghost nv = names.deep_view();
    let mut i: usize = 0;
    proof {
        assert(out.deep_view().subrange(start.len() as int, out.deep_view().len() as int)
            =~= Seq::<Seq<char>>::empty());
    }
    while i < names.len()
        invariant
            nv == names.deep_view(),
            nv.len() > 0,
            listing_of(*cat, prefix@) == Ok::<Seq<Seq<char>>, Seq<char>>(nv),
            i <= nv.len(),
            start == old(out).deep_view(),
            start.len() <= out.deep_view().len(),
            out.deep_view().subrange(0, start.len() as int) == start,
            child_lines_from(*cat, prefix@, nv, 0) == (
                out.deep_view().subrange(start.len() as int, out.deep_view().len() as int)
                    + child_lines_from(*cat, prefix@, nv, i as int).0,
                child_lines_from(*cat, prefix@, nv, i as int).1,
            ),
        decreases names.len() - i,
    {
        let full = child_path_of(prefix, names[i].as_str());
        assert(nv[i as int] == names@[i as int]@);
        let c = match get_command(cat, full.as_str()) {
            Ok(c) => c,
            Err(e) => {
                proof {
                    assert(child_lines_from(*cat, prefix@, nv, i as int).0 =~= Seq::<Seq<char>>::empty());
                    let done = out.deep_view().subrange(start.len() as int, out.deep_view().len() as int);
                    assert(done + Seq::<Seq<char>>::empty() =~= done);
                    assert(out.deep_view() =~= start + done);
                    assert(children_lines(*cat, prefix@) == child_lines_from(*cat, prefix@, nv, 0));
                    assert(children_lines(*cat, prefix@).0 == done + child_lines_from(*cat, prefix@, nv, i as int).0);
                    assert(children_lines(*cat, prefix@).0 =~= done);
                }
                return Err(e);
            },
        };
        let line = format_child_line(full.as_str(), c);
        let ghost before = out.deep_view();
        push_owned(out, line);
        proof {
            let rest = child_lines_from(*cat, prefix@, nv, i + 1);
            assert(before.subrange(start.len() as int, before.len() as int) + (seq![line@] + rest.0)
                =~= out.deep_view().subrange(start.len() as int, out.deep_view().len() as int)
                + rest.0);
            assert(out.deep_view().subrange(0, start.len() as int) =~= start);
        }
        i = i + 1;
    }
    proof {
        let done = out.deep_view().subrange(start.len() as int, out.deep_view().len() as int);
        assert(done + Seq::<Seq<char>>::empty() =~= done);
        assert(out.deep_view() =~= start + done);
    }
    Ok(())
}

// ---------------------------------------------------------------------------
// The command tree
// ---------------------------------------------------------------------------

/// The line for `full` at `depth` in the tree.
pub open spec fn tree_line(full: Seq<char>, c: CommandInfo, depth: nat) -> Seq<char> {
    indent(depth) + or_text(c.method, "-"@) + " "@ + words_of(full) + ": "@ + or_text(
        c.description,
        "no description"@,
    )
}

/// Two spaces per level.
pub open spec fn indent(depth: nat) -> Seq<char> {
    spaces(2 * depth)
}

/// What printing the tree below `prefix`, its lines indented by `depth`,
/// prints: the lines up to the first error met, and that error.
pub open spec fn tree_lines(cat: ApiCatalog, prefix: Seq<char>, depth: nat) -> (
    Seq<Seq<char>>,
    Option<Seq<char>>,
)
    decreases depth_left(cat, prefix), 1int, 0int,
{
    match listing_of(cat, prefix) {
        Err(e) => (seq![], Some(e)),
        Ok(names) => tree_lines_from(cat, prefix, depth, names, 0),
    }
}

/// What printing the tree below `prefix` from its `i`-th child on prints:
/// each child's line, then its own tree if it is a group, up to the first
/// error met.
pub open spec fn tree_lines_from(
    cat: ApiCatalog,
    prefix: Seq<char>,
    depth: nat,
    names: Seq<Seq<char>>,
    i: int,
) -> (Seq<Seq<char>>, Option<Seq<char>>)
    decreases depth_left(cat, prefix), 0int, names.len() - i,
{
    if i < 0 || i >= names.len() {
        (seq![], None)
    } else {
        let full = child_path(prefix, names[i]);
        match lookup(cat, full) {
            Err(e) => (seq![], Some(e)),
            Ok(c) => {
                let below = if c.is_branch && full.len() > prefix.len() {
                    proof {
                        lemma_max_path_len(cat.commands@, full);
                    }
                    tree_lines(cat, full, depth + 1)
                } else {
                    (seq![], None)
                };
                if below.1 is Some {
                    (seq![tree_line(full, c, depth)] + below.0, below.1)
                } else {
                    let rest = tree_lines_from(cat, prefix, depth, names, i + 1);
                    (seq![tree_line(full, c, depth)] + below.0 + rest.0, rest.1)
                }
            },
        }
    }
}

/// Two spaces per level.
fn indent_text(depth: usize) -> (r: String)
    requires
        depth <= usize::MAX / 2,
    ensures
        r@ == indent(depth as nat),
{
    proof {
        reveal_strlit("");
        assert(pad_right(""@, (2 * depth) as nat) =~= spaces((2 * depth) as nat));
    }
    pad_right_str("", 2 * depth)
}

/// The line for `full` at `depth` in the tree.
fn format_tree_line(full: &str, c: &CommandInfo, depth: usize) -> (r: String)
    requires
        depth <= usize::MAX / 2,
    ensures
        r@ == tree_line(full@, *c, depth as nat),
{
    proof {
        reveal_strlit("");
        assert(pad_right(""@, (2 * depth) as nat) =~= spaces((2 * depth) as nat));
    }
    let mut line = indent_text(depth);
    line.append(or_default_text(&c.method, "-").as_str());
    line.append(" ");
    line.append(str_replace_char(full, '.', ' ').as_str());
    line.append(": ");
    line.append(or_default_text(&c.description, "no description").as_str());
    line
}

/// Appends to `out` the lines of the command tree below `prefix`, each
/// level indented by two more spaces: method, path as words and
/// description. An error met on the way stops the tree after the lines
/// before it.
pub fn command_tree_lines(cat: &ApiCatalog, prefix: &str, depth: usize, out: &mut Vec<String>) -> (r: Result<(), FfiError>)
    requires
        depth + depth_left(*cat, prefix@) <= usize::MAX / 2,
    ensures
        final(out).deep_view() == old(out).deep_view() + tree_lines(*cat, prefix@, depth as nat).0,
        outcome(r) == tree_lines(*cat, prefix@, depth as nat).1,
    decreases depth_left(*cat, prefix@),
{
    let ghost start = out.deep_view();
    let names = match list_command_names(cat, prefix) {
        Ok(n) => n,
        Err(e) => {
            assert(out.deep_view() =~= start + Seq::<Seq<char>>::empty());
            return Err(e);
        },
    };
    let ghost nv = names.deep_view();
    let plen = prefix.unicode_len();
    let mut i: usize = 0;
    proof {
        assert(out.deep_view().subrange(start.len() as int, out.deep_view().len() as int)
            =~= Seq::<Seq<char>>::empty());
        assert(out.deep_view().subrange(0, start.len() as int) =~= start);
    }
    while i < names.len()
        invariant
            nv == names.deep_view(),
            listing_of(*cat, prefix@) == Ok::<Seq<Seq<char>>, Seq<char>>(nv),
            plen == prefix@.len(),
            depth + depth_left(*cat, prefix@) <= usize::MAX / 2,
            i <= nv.len(),
            start == old(out).deep_view(),
            out.deep_view().len() >= start.len(),
            out.deep_view().subrange(0, start.len() as int) == start,
            tree_lines_from(*cat, prefix@, depth as nat, nv, 0) == (
                out.deep_view().subrange(start.len() as int, out.deep_view().len() as int)
                    + tree_lines_from(*cat, prefix@, depth as nat, nv, i as int).0,
                tree_lines_from(*cat, prefix@, depth as nat, nv, i as int).1,
            ),
        decreases names.len() - i,
    {
        let full = child_path_of(prefix, names[i].as_str());
        assert(nv[i as int] == names@[i as int]@);
        let ghost done = out.deep_view().subrange(start.len() as int, out.deep_view().len() as int);
        proof {
            assert(out.deep_view() =~= start + done);
        }
        let c = match get_command(cat, full.as_str()) {
            Ok(c) => c,
            Err(e) => {
                proof {
                    assert(tree_lines_from(*cat, prefix@, depth as nat, nv, i as int).0 =~= Seq::<
                        Seq<char>,
                    >::empty());
                    assert(done + Seq::<Seq<char>>::empty() =~= done);
                }
                return Err(e);
            },
        };
        let line = format_tree_line(full.as_str(), c, depth);
        let ghost before = out.deep_view();
        push_owned(out, line);
        let ghost mid = out.deep_view();
        let flen = full.unicode_len();
        let ghost below: (Seq<Seq<char>>, Option<Seq<char>>) = (Seq::empty(), None);
        if c.is_branch && flen > plen {
            proof {
                lemma_max_path_len(cat.commands@, full@);
                below = tree_lines(*cat, full@, (depth + 1) as nat);
            }
            let rr = command_tree_lines(cat, full.as_str(), depth + 1, out);
            if rr.is_err() {
                proof {
                    assert(tree_lines_from(*cat, prefix@, depth as nat, nv, i as int) == (
                        seq![line@] + below.0,
                        below.1,
                    ));
                    assert(out.deep_view() =~= start + (done + (seq![line@] + below.0)));
                }
                return rr;
            }
        }
        proof {
            assert(out.deep_view() == mid + below.0);
            let rest = tree_lines_from(*cat, prefix@, depth as nat, nv, i + 1);
            assert(tree_lines_from(*cat, prefix@, depth as nat, nv, i as int) == (
                seq![line@] + below.0 + rest.0,
                rest.1,
            ));
            assert(out.deep_view() =~= start + (done + (seq![line@] + below.0)));
            assert(out.deep_view().subrange(start.len() as int, out.deep_view().len() as int)
                =~= done + (seq![line@] + below.0));
            assert(out.deep_view().subrange(0, start.len() as int) =~= start);
            assert(done + (seq![line@] + below.0 + rest.0) =~= done + (seq![line@] + below.0)
                + rest.0);
        }
        i = i + 1;
    }
    proof {
        let done = out.deep_view().subrange(start.len() as int, out.deep_view().len() as int);
        assert(done + Seq::<Seq<char>>::empty() =~= done);
        assert(out.deep_view() =~= start + done);
    }
    Ok(())
}

// ---------------------------------------------------------------------------
// Parameter labels
// ---------------------------------------------------------------------------

/// The base type that help shows for a parameter.
pub open spec fn base_type_label(p: Option<ParamInfo>) -> Seq<char> {
    match p {
        Some(p) => match p.declared_type {
            Some(t) => if t@ == "number"@ {
                "number"@
            } else if t@ == "boolean"@ {
                "boolean"@
            } else if t@ == "array"@ {
                "array"@
            } else {
                "string"@
            },
            None => "string"@,
        },
        None => "string"@,
    }
}

/// The type label of a parameter: its base type, followed by its enum values
/// in brackets when it declares any.
pub open spec fn type_label(p: Option<ParamInfo>) -> Seq<char> {
    let values = match p {
        Some(p) => join(p.enum_values.deep_view(), ", "@),
        None => seq![],
    };
    if values.len() > 0 {
        base_type_label(p) + " ("@ + values + ")"@
    } else {
        base_type_label(p)
    }
}

/// The type label of a parameter (`string`, `number`, `boolean`, `array`),
/// with its enum values, e.g. `string (open, closed)`.
pub fn format_param_type_label(param: Option<&ParamInfo>) -> (r: String)
    ensures
        r@ == type_label(match param {
            Some(p) => Some(*p),
            None => None,
        }),
{
    let base = match param {
        Some(p) => match &p.declared_type {
            Some(t) => if str_eq(t.as_str(), "number") {
                to_string("number")
            } else if str_eq(t.as_str(), "boolean") {
                to_string("boolean")
            } else if str_eq(t.as_str(), "array") {
                to_string("array")
            } else {
                to_string("string")
            },
            None => to_string("string"),
        },
        None => to_string("string"),
    };
    let rendered = match param {
        Some(p) => join_strings(p.enum_values.as_slice(), ", "),
        None => String::new(),
    };
    if rendered.unicode_len() > 0 {
        let mut r = cat3(base.as_str(), " (", rendered.as_str());
        r.append(")");
        r
    } else {
        base
    }
}

/// The hint shown after a prompt for a value: nothing for a plain string,
/// else the type label in brackets.
pub open spec fn prompt_hint(p: Option<ParamInfo>) -> Seq<char> {
    if type_label(p) == "string"@ {
        seq![]
    } else {
        " ("@ + type_label(p) + ")"@
    }
}

/// The hint shown after a prompt for the value of `param`.
pub fn prompt_type_hint(param: Option<&ParamInfo>) -> (r: String)
    ensures
        r@ == prompt_hint(match param {
            Some(p) => Some(*p),
            None => None,
        }),
{
    let label = format_param_type_label(param);
    if str_eq(label.as_str(), "string") {
        String::new()
    } else {
        cat3(" (", label.as_str(), ")")
    }
}

/// The first declared parameter named `name`.
pub open spec fn declared_param(params: Seq<ParamInfo>, name: Seq<char>) -> Option<ParamInfo>
    decreases params.len(),
{
    if params.len() == 0 {
        None
    } else if params[0].name@ == name {
        Some(params[0])
    } else {
        declared_param(params.drop_first(), name)
    }
}

/// The first declared parameter named `name`.
pub fn find_param<'a>(params: &'a Vec<ParamInfo>, name: &str) -> (r: Option<&'a ParamInfo>)
    ensures
        match r {
            Some(p) => declared_param(params@, name@) == Some(*p),
            None => declared_param(params@, name@) is None,
        },
{
    let mut i: usize = 0;
    assert(params@.skip(0) =~= params@);
    while i < params.len()
        invariant
            i <= params@.len(),
            declared_param(params@, name@) == declared_param(params@.skip(i as int), name@),
        decreases params.len() - i,
    {
        proof {
            assert(params@.skip(i as int).drop_first() =~= params@.skip(i + 1));
            assert(params@.skip(i as int)[0] == params@[i as int]);
        }
        if str_eq(params[i].name.as_str(), name) {
            return Some(&params[i]);
        }
        i = i + 1;
    }
    None
}

// ---------------------------------------------------------------------------
// Help texts
// ---------------------------------------------------------------------------

/// The line that names a declared variable.
pub open spec fn env_var_line(e: EnvVarInfo) -> Seq<char> {
    "  export "@ + e.name@ + "=...  ("@ + (if e.required {
        "required"@
    } else {
        "optional"@
    }) + ")"@
}

/// The environment section of help, for the declared variables.
pub open spec fn env_lines_for(envs: Seq<EnvVarInfo>) -> Seq<Seq<char>> {
    if envs.len() == 0 {
        seq!["\nEnvironment: (none declared \u{2014} auth tokens usually come from env; see profile YAML)"@]
    } else {
        seq![
            "\nEnvironment (secrets \u{2014} never commit to YAML):"@,
            "  1. File:     export GITHUB_TOKEN_FILE=~/.config/ycallr/token"@,
            "  2. Env file: ycallr --env-file ~/.config/ycallr/secrets.env ..."@,
            "  3. Prompt:   run interactively (hidden input) when nothing else is set"@,
            "  4. Env var:  export GITHUB_TOKEN=...  (visible in process list)"@,
        ] + envs.map_values(|e: EnvVarInfo| env_var_line(e))
    }
}

/// The environment section of help, or why the variables could not be read.
pub open spec fn env_section(cat: ApiCatalog) -> Result<Seq<Seq<char>>, Seq<char>> {
    match cat.env_vars {
        Ok(v) => Ok(env_lines_for(v@)),
        Err(e) => Err(e@),
    }
}

/// Pushes `s` onto `out`.
fn push_line(out: &mut Vec<String>, s: &str)
    ensures
        final(out).deep_view() == old(out).deep_view().push(s@),
{
    let ghost before = out.deep_view();
    out.push(to_string(s));
    assert(out.deep_view() =~= before.push(s@));
}

/// Pushes the owned line `s` onto `out`.
fn push_owned(out: &mut Vec<String>, s: String)
    ensures
        final(out).deep_view() == old(out).deep_view().push(s@),
{
    let ghost before = out.deep_view();
    let ghost sv = s@;
    out.push(s);
    assert(out.deep_view() =~= before.push(sv));
}

/// The environment section of an API's help: how to provide secrets, and
/// each declared variable with whether it is required.
pub fn env_section_lines(cat: &ApiCatalog, out: &mut Vec<String>) -> (r: Result<(), FfiError>)
    ensures
        match r {
            Ok(()) => env_section(*cat) matches Ok(t) && final(out).deep_view() == old(
                out,
            ).deep_view() + t,
            Err(e) => env_section(*cat) == Err::<Seq<Seq<char>>, Seq<char>>(e@)
                && final(out).deep_view() == old(out).deep_view(),
        },
{
    let envs = match &cat.env_vars {
        Ok(v) => v,
        Err(e) => {
            return Err(FfiError::from_string(e.to_string()));
        },
    };
    let ghost start = out.deep_view();
    if envs.len() == 0 {
        push_line(
            out,
            "\nEnvironment: (none declared \u{2014} auth tokens usually come from env; see profile YAML)",
        );
        return Ok(());
    }
    push_line(out, "\nEnvironment (secrets \u{2014} never commit to YAML):");
    push_line(out, "  1. File:     export GITHUB_TOKEN_FILE=~/.config/ycallr/token");
    push_line(out, "  2. Env file: ycallr --env-file ~/.config/ycallr/secrets.env ...");
    push_line(out, "  3. Prompt:   run interactively (hidden input) when nothing else is set");
    push_line(out, "  4. Env var:  export GITHUB_TOKEN=...  (visible in process list)");
    let ghost head = out.deep_view();
    let mut i: usize = 0;
    while i < envs.len()
        invariant
            i <= envs@.len(),
            out.deep_view() == head + envs@.take(i as int).map_values(
                |e: EnvVarInfo| env_var_line(e),
            ),
        decreases envs.len() - i,
    {
        let req = if envs[i].required {
            "required"
        } else {
            "optional"
        };
        let mut line = cat3("  export ", envs[i].name.as_str(), "=...  (");
        line.append(req);
        line.append(")");
        push_owned(out, line);
        proof {
            assert(envs@.take(i + 1).map_values(|e: EnvVarInfo| env_var_line(e)) =~= envs@.take(
                i as int,
            ).map_values(|e: EnvVarInfo| env_var_line(e)).push(env_var_line(envs@[i as int])));
        }
        i = i + 1;
    }
    proof {
        assert(envs@.take(envs@.len() as int) =~= envs@);
        assert(out.deep_view() =~= start + env_lines_for(envs@));
    }
    Ok(())
}

/// The body section of a command's help, for a body that the profile defines.
pub open spec fn body_help(c: CommandInfo) -> Seq<Seq<char>> {
    if !c.has_body {
        seq![]
    } else {
        let k = or_text(c.body_kind, "configured"@);
        if k == "json"@ {
            seq![
                "\nBody (JSON, from profile):"@,
                "  Pass fields as --key=value. Values replace {param} placeholders in the profile JSON template."@,
            ]
        } else if k == "form"@ {
            seq![
                "\nBody (HTML form, from profile):"@,
                "  Form field names/values come from the profile. Use --key=value for params that fill {param} placeholders."@,
            ]
        } else if k == "raw"@ {
            seq![
                "\nBody (raw, from profile):"@,
                "  Raw payload is defined in the profile (templates/env). Pass --key=value for params referenced in the template."@,
            ]
        } else if k == "multipart"@ {
            seq![
                "\nBody (multipart, from profile):"@,
                "  File paths and text parts are defined in the profile. Use --key=value for params that fill {param} in part metadata."@,
            ]
        } else {
            seq!["\nBody: configured in the API profile (see YAML source)."@]
        }
    }
}

/// The lines that explain the body that the profile defines for `cmd`.
pub fn body_help_lines(cmd: &CommandInfo, out: &mut Vec<String>)
    ensures
        final(out).deep_view() == old(out).deep_view() + body_help(*cmd),
{
    let ghost start = out.deep_view();
    if !cmd.has_body {
        assert(start + Seq::<Seq<char>>::empty() =~= start);
        return ;
    }
    let kind = or_default_text(&cmd.body_kind, "configured");
    if str_eq(kind.as_str(), "json") {
        push_line(out, "\nBody (JSON, from profile):");
        push_line(
            out,
            "  Pass fields as --key=value. Values replace {param} placeholders in the profile JSON template.",
        );
    } else if str_eq(kind.as_str(), "form") {
        push_line(out, "\nBody (HTML form, from profile):");
        push_line(
            out,
            "  Form field names/values come from the profile. Use --key=value for params that fill {param} placeholders.",
        );
    } else if str_eq(kind.as_str(), "raw") {
        push_line(out, "\nBody (raw, from profile):");
        push_line(
            out,
            "  Raw payload is defined in the profile (templates/env). Pass --key=value for params referenced in the template.",
        );
    } else if str_eq(kind.as_str(), "multipart") {
        push_line(out, "\nBody (multipart, from profile):");
        push_line(
            out,
            "  File paths and text parts are defined in the profile. Use --key=value for params that fill {param} in part metadata.",
        );
    } else {
        push_line(out, "\nBody: configured in the API profile (see YAML source).");
    }
    assert(out.deep_view() =~= start + body_help(*cmd));
}

/// The hint for a command without a profile body whose method sends one.
pub open spec fn implicit_body_hint(c: CommandInfo) -> Seq<Seq<char>> {
    let m = or_text(c.method, seq![]);
    if c.has_body {
        seq![]
    } else if m == "POST"@ || m == "PUT"@ || m == "PATCH"@ {
        seq![
            "\nBody (implicit JSON):"@,
            "  No profile body block: non-path params are sent as a JSON object on "@ + m
                + " requests."@,
        ]
    } else {
        seq![]
    }
}

/// The hint that a `POST`, `PUT` or `PATCH` command without a profile body
/// sends its non-path parameters as a JSON object.
pub fn implicit_body_hint_lines(cmd: &CommandInfo, out: &mut Vec<String>)
    ensures
        final(out).deep_view() == old(out).deep_view() + implicit_body_hint(*cmd),
{
    let ghost start = out.deep_view();
    if cmd.has_body {
        assert(start + Seq::<Seq<char>>::empty() =~= start);
        return ;
    }
    let method = match &cmd.method {
        Some(m) => m.clone(),
        None => String::new(),
    };
    proof {
        if cmd.method is None {
            assert(method@ =~= or_text(cmd.method, seq![]));
        }
    }
    if str_eq(method.as_str(), "POST") || str_eq(method.as_str(), "PUT") || str_eq(
        method.as_str(),
        "PATCH",
    ) {
        push_line(out, "\nBody (implicit JSON):");
        push_owned(
            out,
            cat3(
                "  No profile body block: non-path params are sent as a JSON object on ",
                method.as_str(),
                " requests.",
            ),
        );
        assert(out.deep_view() =~= start + implicit_body_hint(*cmd));
    } else {
        assert(start + Seq::<Seq<char>>::empty() =~= start);
    }
}

/// The line for a path parameter, with what the command declares of it.
pub open spec fn path_param_line(name: Seq<char>, d: Option<ParamInfo>) -> Seq<char> {
    let required = match d {
        Some(p) => match p.required {
            Some(b) => b,
            None => true,
        },
        None => true,
    };
    let description = match d {
        Some(p) => or_text(p.description, "Path parameter"@),
        None => "Path parameter"@,
    };
    "  --"@ + pad_right(name, 20) + " "@ + description + " ["@ + type_label(d) + "]"@ + (if required {
        " (required)"@
    } else {
        seq![]
    })
}

/// The line for a declared parameter.
pub open spec fn param_line(p: ParamInfo) -> Seq<char> {
    "  --"@ + pad_right(p.name@, 20) + " "@ + or_text(p.description, seq![]) + " ["@ + type_label(
        Some(p),
    ) + "]"@ + (if p.required == Some(true) {
        " (required)"@
    } else {
        seq![]
    })
}

/// The label that marks a required parameter.
pub open spec fn required_label() -> Seq<char> {
    " (required)"@
}

/// A line ends with `suffix` when it is something followed by it, and a
/// line ending in `]` does not end in `)`.
proof fn lemma_label_ending(head: Seq<char>, required: bool)
    ensures
        ends_with(head + "]"@ + (if required { required_label() } else { seq![] }), required_label())
            <==> required,
{
    reveal_strlit("]");
    reveal_strlit(" (required)");
    let with = head + "]"@ + required_label();
    let without = head + "]"@ + seq![];
    assert(required_label().len() == 11);
    assert(with.skip(with.len() - 11) =~= required_label());
    if without.len() >= 11 {
        assert(without.skip(without.len() - 11)[10] == ']');
        assert(required_label()[10] == ')');
    }
}

/// A declared parameter is labelled required exactly when it declares
/// `required: true`; a missing or false `required` means optional.
pub proof fn law_param_required_label(p: ParamInfo)
    ensures
        ends_with(param_line(p), required_label()) <==> p.required == Some(true),
{
    lemma_label_ending(
        "  --"@ + pad_right(p.name@, 20) + " "@ + or_text(p.description, seq![]) + " ["@ + type_label(
            Some(p),
        ),
        p.required == Some(true),
    );
}

/// A path parameter is labelled required unless its declaration says
/// `required: false`: a missing declaration or `required` means required.
pub proof fn law_path_param_required_label(name: Seq<char>, d: Option<ParamInfo>)
    ensures
        ends_with(path_param_line(name, d), required_label()) <==> !(d matches Some(p)
            && p.required == Some(false)),
{
    let description = match d {
        Some(p) => or_text(p.description, "Path parameter"@),
        None => "Path parameter"@,
    };
    let required = match d {
        Some(p) => match p.required {
            Some(b) => b,
            None => true,
        },
        None => true,
    };
    lemma_label_ending(
        "  --"@ + pad_right(name, 20) + " "@ + description + " ["@ + type_label(d),
        required,
    );
}

/// The path-parameter section of a command's help.
pub open spec fn path_param_lines(c: CommandInfo) -> Seq<Seq<char>> {
    if c.path_params.len() == 0 {
        seq![]
    } else {
        seq!["\nPath parameters (from endpoint):"@] + c.path_params.deep_view().map_values(
            |n: Seq<char>| path_param_line(n, declared_param(c.params@, n)),
        )
    }
}

/// The parameter section of a command's help: the parameters that are not
/// path parameters.
pub open spec fn param_lines(c: CommandInfo) -> Seq<Seq<char>> {
    if c.params.len() == 0 {
        seq![]
    } else {
        seq!["\nParameters:"@] + c.params@.filter(
            |p: ParamInfo| !c.path_params.deep_view().contains(p.name@),
        ).map_values(|p: ParamInfo| param_line(p))
    }
}

/// What the subcommand and variable sections of a group's help print.
pub open spec fn group_help(cat: ApiCatalog, path: Seq<char>) -> (Seq<Seq<char>>, Option<Seq<char>>) {
    then_print(children_lines(cat, path), whole(env_section(cat)))
}

/// What the help of the callable command `c` at `path` prints after its
/// first line: its subcommands if it is also a group, its method and URL,
/// the variables, the parameters and the body.
pub open spec fn detail_help(cat: ApiCatalog, path: Seq<char>, c: CommandInfo) -> (
    Seq<Seq<char>>,
    Option<Seq<char>>,
) {
    let group = if has_children(cat, path) {
        then_print((seq!["\nAlso a command group. Subcommands:"@], None), children_lines(cat, path))
    } else {
        (seq![], None)
    };
    let mu = seq![
        "\nMethod: "@ + or_text(c.method, "N/A"@),
        "URL:    "@ + joined_url(cat.base_url@, or_text(c.endpoint, "N/A"@)),
    ];
    let tail = path_param_lines(c) + param_lines(c) + (if c.has_body {
        body_help(c)
    } else {
        implicit_body_hint(c)
    });
    then_print(group, then_print((mu, None), then_print(whole(env_section(cat)), (tail, None))))
}

/// What the help of the command at `path` prints: the lines up to the
/// first error met, and that error.
pub open spec fn command_help(cat: ApiCatalog, path: Seq<char>) -> (Seq<Seq<char>>, Option<Seq<char>>) {
    match lookup(cat, path) {
        Err(e) => (seq![], Some(e)),
        Ok(c) => {
            let head = seq![
                cat.name@ + " "@ + words_of(path) + ": "@ + or_text(c.description, "no description"@),
            ];
            if !c.is_leaf && has_children(cat, path) {
                then_print(
                    (head + seq!["\nCommand group (not callable). Subcommands:"@], None),
                    group_help(cat, path),
                )
            } else {
                then_print((head, None), detail_help(cat, path, c))
            }
        },
    }
}

/// The line for a path parameter.
fn format_path_param_line(name: &str, d: Option<&ParamInfo>) -> (r: String)
    ensures
        r@ == path_param_line(name@, match d {
            Some(p) => Some(*p),
            None => None,
        }),
{
    let required = match d {
        Some(p) => match p.required {
            Some(b) => b,
            None => true,
        },
        None => true,
    };
    let description = match d {
        Some(p) => or_default_text(&p.description, "Path parameter"),
        None => to_string("Path parameter"),
    };
    let mut line = cat2("  --", pad_right_str(name, 20).as_str());
    line.append(" ");
    line.append(description.as_str());
    line.append(" [");
    line.append(format_param_type_label(d).as_str());
    line.append("]");
    if required {
        line.append(" (required)");
    }
    line
}

/// The line for a declared parameter.
fn format_param_line(p: &ParamInfo) -> (r: String)
    ensures
        r@ == param_line(*p),
{
    let mut line = cat2("  --", pad_right_str(p.name.as_str(), 20).as_str());
    line.append(" ");
    let description = match &p.description {
        Some(d) => d.clone(),
        None => String::new(),
    };
    proof {
        if p.description is None {
            assert(description@ =~= or_text(p.description, seq![]));
        }
    }
    line.append(description.as_str());
    line.append(" [");
    line.append(format_param_type_label(Some(p)).as_str());
    line.append("]");
    if p.required == Some(true) {
        line.append(" (required)");
    }
    line
}

/// Appends the parameter sections of the help of `c` to `out`.
fn push_param_lines(c: &CommandInfo, out: &mut Vec<String>)
    ensures
        final(out).deep_view() == old(out).deep_view() + path_param_lines(*c) + param_lines(*c),
{
    let ghost start = out.deep_view();
    if c.path_params.len() > 0 {
        push_line(out, "\nPath parameters (from endpoint):");
        let ghost head = out.deep_view();
        let mut i: usize = 0;
        while i < c.path_params.len()
            invariant
                i <= c.path_params@.len(),
                out.deep_view() == head + c.path_params.deep_view().take(i as int).map_values(
                    |n: Seq<char>| path_param_line(n, declared_param(c.params@, n)),
                ),
            decreases c.path_params.len() - i,
        {
            let name = c.path_params[i].as_str();
            let d = find_param(&c.params, name);
            push_owned(out, format_path_param_line(name, d));
            proof {
                assert(c.path_params.deep_view().take(i + 1) =~= c.path_params.deep_view().take(
                    i as int,
                ).push(name@));
            }
            i = i + 1;
        }
        assert(c.path_params.deep_view().take(c.path_params@.len() as int)
            =~= c.path_params.deep_view());
    }
    let ghost mid = out.deep_view();
    proof {
        assert(mid =~= start + path_param_lines(*c));
    }
    if c.params.len() > 0 {
        push_line(out, "\nParameters:");
        let ghost head = out.deep_view();
        let mut i: usize = 0;
        proof {
            reveal_with_fuel(Seq::filter, 1);
            assert(c.params@.take(0) =~= Seq::<ParamInfo>::empty());
        }
        while i < c.params.len()
            invariant
                i <= c.params@.len(),
                out.deep_view() == head + c.params@.take(i as int).filter(
                    |p: ParamInfo| !c.path_params.deep_view().contains(p.name@),
                ).map_values(|p: ParamInfo| param_line(p)),
            decreases c.params.len() - i,
        {
            let p = &c.params[i];
            let ghost pre = c.params@.take(i as int);
            proof {
                assert(c.params@.take(i + 1) =~= pre.push(*p));
                pre.lemma_filter_push(
                    *p,
                    |p: ParamInfo| !c.path_params.deep_view().contains(p.name@),
                );
            }
            if !crate::env_secrets::list_contains(c.path_params.as_slice(), p.name.as_str()) {
                push_owned(out, format_param_line(p));
                proof {
                    let f = pre.filter(|p: ParamInfo| !c.path_params.deep_view().contains(p.name@));
                    assert(f.push(*p).map_values(|p: ParamInfo| param_line(p)) =~= f.map_values(
                        |p: ParamInfo| param_line(p),
                    ).push(param_line(*p)));
                }
            }
            i = i + 1;
        }
        assert(c.params@.take(c.params@.len() as int) =~= c.params@);
    }
    proof {
        assert(out.deep_view() =~= start + path_param_lines(*c) + param_lines(*c));
    }
}

/// Appends the subcommand and variable sections of a group's help.
fn group_help_lines(cat: &ApiCatalog, path: &str, out: &mut Vec<String>) -> (r: Result<(), FfiError>)
    ensures
        final(out).deep_view() == old(out).deep_view() + group_help(*cat, path@).0,
        outcome(r) == group_help(*cat, path@).1,
{
    let ghost start = out.deep_view();
    let r1 = direct_children_lines(cat, path, out);
    let ghost ch = children_lines(*cat, path@);
    if r1.is_err() {
        return r1;
    }
    let ghost b = out.deep_view();
    let r2 = env_section_lines(cat, out);
    proof {
        let w = whole(env_section(*cat));
        assert(b == start + ch.0);
        assert(out.deep_view() =~= start + (ch.0 + w.0));
    }
    r2
}

/// Appends what the help of the callable command `cmd` at `path` shows
/// after its first line.
#[verifier::rlimit(40)]
#[verifier::spinoff_prover]
fn detail_help_lines(cat: &ApiCatalog, path: &str, cmd: &CommandInfo, out: &mut Vec<String>) -> (r: Result<
    (),
    FfiError,
>)
    ensures
        final(out).deep_view() == old(out).deep_view() + detail_help(*cat, path@, *cmd).0,
        outcome(r) == detail_help(*cat, path@, *cmd).1,
{
    let ghost start = out.deep_view();
    let ghost mut g: Seq<Seq<char>> = Seq::empty();
    if crate::catalog::has_subcommands(cat, path) {
        push_line(out, "\nAlso a command group. Subcommands:");
        let r1 = direct_children_lines(cat, path, out);
        let ghost ch = children_lines(*cat, path@);
        proof {
            g = seq!["\nAlso a command group. Subcommands:"@] + ch.0;
            assert(out.deep_view() =~= start + g);
        }
        if r1.is_err() {
            return r1;
        }
    } else {
        assert(out.deep_view() =~= start + g);
    }
    let method = or_default_text(&cmd.method, "N/A");
    let endpoint = or_default_text(&cmd.endpoint, "N/A");
    let url = full_url(cat.base_url.as_str(), endpoint.as_str());
    push_owned(out, cat2("\nMethod: ", method.as_str()));
    push_owned(out, cat2("URL:    ", url.as_str()));
    let ghost mu = seq![
        "\nMethod: "@ + or_text(cmd.method, "N/A"@),
        "URL:    "@ + joined_url(cat.base_url@, or_text(cmd.endpoint, "N/A"@)),
    ];
    assert(out.deep_view() =~= start + (g + mu));
    let ghost c1 = out.deep_view();
    let r2 = env_section_lines(cat, out);
    if r2.is_err() {
        assert(out.deep_view() =~= start + (g + (mu + Seq::<Seq<char>>::empty())));
        return r2;
    }
    let ghost c2 = out.deep_view();
    push_param_lines(cmd, out);
    let ghost c3 = out.deep_view();
    if cmd.has_body {
        body_help_lines(cmd, out);
    } else {
        implicit_body_hint_lines(cmd, out);
    }
    proof {
        let env = env_section(*cat)->Ok_0;
        assert(c2 == c1 + env);
        let tail = if cmd.has_body {
            body_help(*cmd)
        } else {
            implicit_body_hint(*cmd)
        };
        assert(out.deep_view() == c3 + tail);
        assert(out.deep_view() =~= start + (g + (mu + (env + (path_param_lines(*cmd)
            + param_lines(*cmd) + tail)))));
    }
    Ok(())
}

/// Appends to `out` the help of the command at `command_path`: its
/// description; for a group, its subcommands; else its method, URL,
/// variables, parameters and body. An error met on the way stops the help
/// after the lines before it.
pub fn command_help_lines(cat: &ApiCatalog, command_path: &str, out: &mut Vec<String>) -> (r: Result<
    (),
    FfiError,
>)
    ensures
        final(out).deep_view() == old(out).deep_view() + command_help(*cat, command_path@).0,
        outcome(r) == command_help(*cat, command_path@).1,
{
    let ghost start = out.deep_view();
    let cmd = match get_command(cat, command_path) {
        Ok(c) => c,
        Err(e) => {
            assert(out.deep_view() =~= start + Seq::<Seq<char>>::empty());
            return Err(e);
        },
    };
    let mut head = cat3(
        cat.name.as_str(),
        " ",
        str_replace_char(command_path, '.', ' ').as_str(),
    );
    head.append(": ");
    head.append(or_default_text(&cmd.description, "no description").as_str());
    let ghost hl = head@;
    push_owned(out, head);
    if crate::catalog::is_group_only(cat, command_path, cmd) {
        push_line(out, "\nCommand group (not callable). Subcommands:");
        let ghost hg = seq![hl] + seq!["\nCommand group (not callable). Subcommands:"@];
        assert(out.deep_view() =~= start + hg);
        let r = group_help_lines(cat, command_path, out);
        proof {
            assert(out.deep_view() =~= start + (hg + group_help(*cat, command_path@).0));
        }
        return r;
    }
    assert(out.deep_view() =~= start + seq![hl]);
    let r = detail_help_lines(cat, command_path, cmd, out);
    proof {
        assert(out.deep_view() =~= start + (seq![hl] + detail_help(*cat, command_path@, *cmd).0));
    }
    r
}

/// What the help of an API prints: its name, version and description, how
/// to use it, and its top-level commands, up to the first error met.
pub open spec fn api_help(cat: ApiCatalog) -> (Seq<Seq<char>>, Option<Seq<char>>) {
    let n = cat.name@;
    then_print(
        (
            seq![
                n + " v"@ + cat.version@ + ": "@ + cat.description@,
                "\nUsage:"@,
                "  ycallr "@ + n + " <command...> [options]"@,
                "  ycallr "@ + n + " --list              Direct subcommands"@,
                "  ycallr "@ + n + " --tree              Full command tree"@,
                "\nExample: ycallr "@ + n + " create issue --owner=rust-lang --repo=rust --title=Bug"@,
                "\nTop-level commands:"@,
            ],
            None,
        ),
        children_lines(cat, Seq::empty()),
    )
}

/// Appends to `out` the help of an API and its top-level commands.
pub fn api_help_lines(cat: &ApiCatalog, out: &mut Vec<String>) -> (r: Result<(), FfiError>)
    ensures
        final(out).deep_view() == old(out).deep_view() + api_help(*cat).0,
        outcome(r) == api_help(*cat).1,
{
    let ghost start = out.deep_view();
    let n = cat.name.as_str();
    let mut first = cat3(n, " v", cat.version.as_str());
    first.append(": ");
    first.append(cat.description.as_str());
    push_owned(out, first);
    push_line(out, "\nUsage:");
    push_owned(out, cat3("  ycallr ", n, " <command...> [options]"));
    push_owned(out, cat3("  ycallr ", n, " --list              Direct subcommands"));
    push_owned(out, cat3("  ycallr ", n, " --tree              Full command tree"));
    push_owned(
        out,
        cat3("\nExample: ycallr ", n, " create issue --owner=rust-lang --repo=rust --title=Bug"),
    );
    push_line(out, "\nTop-level commands:");
    proof {
        reveal_strlit("");
        assert(""@ =~= Seq::<char>::empty());
    }
    let ghost hdr = seq![
        cat.name@ + " v"@ + cat.version@ + ": "@ + cat.description@,
        "\nUsage:"@,
        "  ycallr "@ + cat.name@ + " <command...> [options]"@,
        "  ycallr "@ + cat.name@ + " --list              Direct subcommands"@,
        "  ycallr "@ + cat.name@ + " --tree              Full command tree"@,
        "\nExample: ycallr "@ + cat.name@ + " create issue --owner=rust-lang --repo=rust --title=Bug"@,
        "\nTop-level commands:"@,
    ];
    assert(out.deep_view() =~= start + hdr);
    let r = direct_children_lines(cat, "", out);
    proof {
        let ch = children_lines(*cat, Seq::empty());
        assert(out.deep_view() =~= start + (hdr + ch.0));
    }
    r
}

} // verus!
