//! The model of an installed API profile that the command-line logic reads:
//! its command tree (the children listed under each path, and each command's
//! description), its parameters and its variables. Lookups, the walk of the
//! tree, suggestions and the resolution of typed words into a command path.
use vstd::prelude::*;

use crate::error::FfiError;
use crate::suggest::{close_candidates, rank_suggestions, suggestions_for};
use crate::text::{
    cat2, cat3, join, join_strings, replace_char, starts_with, str_eq, str_replace_char,
    str_starts_with, to_string,
};

verus! {

/// A variable that a profile declares.
#[derive(Debug)]
pub struct EnvVarInfo {
    /// The variable's name.
    pub name: String,
    /// Whether a call needs it.
    pub required: bool,
}

/// A parameter that a command declares.
#[derive(Debug)]
pub struct ParamInfo {
    /// The parameter's name.
    pub name: String,
    /// Its declared `type`, when that is a string.
    pub declared_type: Option<String>,
    /// Its declared `enum` values that are strings or numbers, as text.
    pub enum_values: Vec<String>,
    /// Its declared `required`, when that is a boolean.
    pub required: Option<bool>,
    /// Its declared `description`, when that is a string.
    pub description: Option<String>,
}

/// What a profile says of one command path.
#[derive(Debug)]
pub struct CommandInfo {
    /// It can be called.
    pub is_leaf: bool,
    /// It has subcommands.
    pub is_branch: bool,
    /// The HTTP method.
    pub method: Option<String>,
    /// The endpoint, relative to the base URL.
    pub endpoint: Option<String>,
    /// What it does.
    pub description: Option<String>,
    /// The profile defines a request body.
    pub has_body: bool,
    /// The kind of that body (`json`, `form`, `raw`, `multipart`).
    pub body_kind: Option<String>,
    /// The declared parameters, in the profile's order.
    pub params: Vec<ParamInfo>,
    /// The parameters that the endpoint's path holds.
    pub path_params: Vec<String>,
}

/// An installed API profile as the command line sees it.
#[derive(Debug)]
pub struct ApiCatalog {
    /// The profile's name.
    pub name: String,
    /// Its version.
    pub version: String,
    /// What the API is.
    pub description: String,
    /// The base URL of its endpoints.
    pub base_url: String,
    /// The variables it declares, or why they could not be read.
    pub env_vars: Result<Vec<EnvVarInfo>, FfiError>,
    /// For each command path (`""` for the top), the names of its children,
    /// or why they could not be listed.
    pub listings: Vec<(String, Result<Vec<String>, FfiError>)>,
    /// For each command path, what the profile says of it, or why it could
    /// not be read.
    pub commands: Vec<(String, Result<CommandInfo, FfiError>)>,
}

// ---------------------------------------------------------------------------
// The engine's descriptions, field by field
// ---------------------------------------------------------------------------

/// A text field: its string, or empty where it is missing or not a string.
pub open spec fn text_or_empty(o: Option<String>) -> Seq<char> {
    match o {
        Some(t) => t@,
        None => seq![],
    }
}

/// A text field's string, or the empty string where it is missing or not a
/// string.
pub fn or_empty(o: Option<String>) -> (r: String)
    ensures
        r@ == text_or_empty(o),
{
    match o {
        Some(t) => t,
        None => String::new(),
    }
}

/// A variable that the engine describes by a `name` (where it is a string)
/// and a `required` flag (where it is a boolean): a missing name reads as
/// empty, and a missing flag as required.
pub fn env_var_from_fields(name: Option<String>, required: Option<bool>) -> (r: EnvVarInfo)
    ensures
        r.name@ == text_or_empty(name),
        r.required == match required {
            Some(b) => b,
            None => true,
        },
{
    EnvVarInfo {
        name: or_empty(name),
        required: match required {
            Some(b) => b,
            None => true,
        },
    }
}

/// The declared `enum` values that are kept: those given as text (strings,
/// and numbers written out), in order.
pub open spec fn kept_texts(values: Seq<Option<String>>) -> Seq<Seq<char>>
    decreases values.len(),
{
    if values.len() == 0 {
        seq![]
    } else {
        let rest = kept_texts(values.drop_last());
        match values.last() {
            Some(t) => rest.push(t@),
            None => rest,
        }
    }
}

/// A parameter that the engine describes: its name, its `type`, `required`
/// and `description` where they have the expected kind, and its `enum`
/// values (where `enum` is a list), each as text where it is a string or a
/// number. Only the values given as text are kept; without a list there are
/// none.
pub fn param_from_fields(
    name: String,
    declared_type: Option<String>,
    enum_values: Option<Vec<Option<String>>>,
    required: Option<bool>,
    description: Option<String>,
) -> (r: ParamInfo)
    ensures
        r.name@ == name@,
        r.declared_type == declared_type,
        r.enum_values.deep_view() == match enum_values {
            Some(v) => kept_texts(v@),
            None => Seq::<Seq<char>>::empty(),
        },
        r.required == required,
        r.description == description,
{
    let mut kept: Vec<String> = Vec::new();
    match enum_values {
        Some(values) => {
            let mut i: usize = 0;
            proof {
                assert(values@.take(0) =~= Seq::<Option<String>>::empty());
            }
            while i < values.len()
                invariant
                    i <= values@.len(),
                    kept.deep_view() == kept_texts(values@.take(i as int)),
                decreases values.len() - i,
            {
                proof {
                    assert(values@.take(i + 1).drop_last() =~= values@.take(i as int));
                }
                match &values[i] {
                    Some(t) => {
                        let ghost before = kept.deep_view();
                        kept.push(t.clone());
                        assert(kept.deep_view() =~= before.push(t@));
                    },
                    None => {},
                }
                i = i + 1;
            }
            proof {
                assert(values@.take(values@.len() as int) =~= values@);
            }
        },
        None => {
            assert(kept.deep_view() =~= Seq::<Seq<char>>::empty());
        },
    }
    ParamInfo { name, declared_type, enum_values: kept, required, description }
}

// ---------------------------------------------------------------------------
// Lookups
// ---------------------------------------------------------------------------

/// Index of the first entry keyed `k`, or -1.
pub open spec fn entry_index<V>(s: Seq<(String, V)>, k: Seq<char>) -> int
    decreases s.len(),
{
    if s.len() == 0 {
        -1
    } else if s[0].0@ == k {
        0
    } else {
        let r = entry_index(s.drop_first(), k);
        if r < 0 {
            -1
        } else {
            r + 1
        }
    }
}

/// `entry_index` is determined by the first entry with the key.
pub proof fn lemma_entry_index_at<V>(s: Seq<(String, V)>, k: Seq<char>, i: int)
    requires
        0 <= i <= s.len(),
        forall|j: int| 0 <= j < i ==> s[j].0@ != k,
        i < s.len() ==> s[i].0@ == k,
    ensures
        entry_index(s, k) == if i < s.len() { i } else { -1 },
    decreases s.len(),
{
    if s.len() > 0 && i > 0 {
        assert forall|j: int| 0 <= j < i - 1 implies s.drop_first()[j].0@ != k by {
            assert(s.drop_first()[j] == s[j + 1]);
        }
        lemma_entry_index_at(s.drop_first(), k, i - 1);
    }
}

/// What `entry_index` returns.
pub proof fn lemma_entry_index<V>(s: Seq<(String, V)>, k: Seq<char>)
    ensures
        -1 <= entry_index(s, k) < s.len(),
        entry_index(s, k) >= 0 ==> s[entry_index(s, k)].0@ == k,
    decreases s.len(),
{
    if s.len() > 0 && s[0].0@ != k {
        lemma_entry_index(s.drop_first(), k);
    }
}

/// Position of the first entry keyed `k`.
pub fn find_entry<V>(s: &Vec<(String, V)>, k: &str) -> (r: Option<usize>)
    ensures
        match r {
            Some(i) => i < s@.len() && entry_index(s@, k@) == i,
            None => entry_index(s@, k@) == -1,
        },
{
    let mut i: usize = 0;
    while i < s.len()
        invariant
            i <= s@.len(),
            forall|j: int| 0 <= j < i ==> s@[j].0@ != k@,
        decreases s.len() - i,
    {
        if str_eq(s[i].0.as_str(), k) {
            proof {
                lemma_entry_index_at(s@, k@, i as int);
            }
            return Some(i);
        }
        i = i + 1;
    }
    proof {
        lemma_entry_index_at(s@, k@, s@.len() as int);
    }
    None
}

/// What the profile says of `path`: nothing when the catalog has no entry.
pub open spec fn command_of(cat: ApiCatalog, path: Seq<char>) -> Option<Result<CommandInfo, FfiError>> {
    let i = entry_index(cat.commands@, path);
    if i < 0 {
        None
    } else {
        Some(cat.commands@[i].1)
    }
}

/// `path` is a command that the profile describes.
pub open spec fn has_command(cat: ApiCatalog, path: Seq<char>) -> bool {
    command_of(cat, path) matches Some(Ok(_))
}

/// `path` is a command with subcommands.
pub open spec fn is_branch_path(cat: ApiCatalog, path: Seq<char>) -> bool {
    command_of(cat, path) matches Some(Ok(c)) && c.is_branch
}

/// The children listed under `prefix`, or the message of why they could not
/// be listed; a path the catalog holds no listing for has none.
pub open spec fn listing_of(cat: ApiCatalog, prefix: Seq<char>) -> Result<Seq<Seq<char>>, Seq<char>> {
    let i = entry_index(cat.listings@, prefix);
    if i < 0 {
        Ok(seq![])
    } else {
        match cat.listings@[i].1 {
            Ok(v) => Ok(v.deep_view()),
            Err(e) => Err(e@),
        }
    }
}

/// The entry for `path`, if the catalog holds one.
pub fn command_entry<'a>(cat: &'a ApiCatalog, path: &str) -> (r: Option<&'a Result<CommandInfo, FfiError>>)
    ensures
        match r {
            Some(e) => command_of(*cat, path@) == Some(*e),
            None => command_of(*cat, path@) is None,
        },
{
    match find_entry(&cat.commands, path) {
        Some(i) => Some(&cat.commands[i].1),
        None => None,
    }
}

/// Whether `path` is a command that the profile describes.
pub fn command_exists(cat: &ApiCatalog, path: &str) -> (r: bool)
    ensures
        r == has_command(*cat, path@),
{
    match command_entry(cat, path) {
        Some(Ok(_)) => true,
        _ => false,
    }
}

/// Whether `path` is a command with subcommands.
pub fn command_is_branch(cat: &ApiCatalog, path: &str) -> (r: bool)
    ensures
        r == is_branch_path(*cat, path@),
{
    match command_entry(cat, path) {
        Some(Ok(c)) => c.is_branch,
        _ => false,
    }
}

/// A copy of a list of strings.
pub fn clone_strings(v: &Vec<String>) -> (r: Vec<String>)
    ensures
        r.deep_view() == v.deep_view(),
{
    let mut r: Vec<String> = Vec::new();
    let mut i: usize = 0;
    while i < v.len()
        invariant
            i <= v@.len(),
            r.deep_view() =~= v.deep_view().take(i as int),
        decreases v.len() - i,
    {
        let ghost before = r.deep_view();
        r.push(v[i].clone());
        assert(r.deep_view() =~= before.push(v@[i as int]@));
        assert(v.deep_view().take(i + 1) =~= v.deep_view().take(i as int).push(v@[i as int]@));
        i = i + 1;
    }
    assert(v.deep_view().take(v@.len() as int) =~= v.deep_view());
    r
}

/// The names of the children of `prefix` (`""` for the top level).
pub fn list_command_names(cat: &ApiCatalog, prefix: &str) -> (r: Result<Vec<String>, FfiError>)
    ensures
        match r {
            Ok(v) => listing_of(*cat, prefix@) == Ok::<Seq<Seq<char>>, Seq<char>>(v.deep_view()),
            Err(e) => listing_of(*cat, prefix@) == Err::<Seq<Seq<char>>, Seq<char>>(e@),
        },
{
    match find_entry(&cat.listings, prefix) {
        Some(i) => match &cat.listings[i].1 {
            Ok(v) => Ok(clone_strings(v)),
            Err(e) => Err(FfiError::from_string(e.to_string())),
        },
        None => {
            let r: Vec<String> = Vec::new();
            assert(r.deep_view() =~= Seq::<Seq<char>>::empty());
            Ok(r)
        },
    }
}

/// `path` has at least one listed child.
pub open spec fn has_children(cat: ApiCatalog, path: Seq<char>) -> bool {
    listing_of(cat, path) matches Ok(v) && v.len() > 0
}

/// Whether `command_path` lists subcommands.
pub fn has_subcommands(cat: &ApiCatalog, command_path: &str) -> (r: bool)
    ensures
        r == has_children(*cat, command_path@),
{
    match list_command_names(cat, command_path) {
        Ok(names) => names.len() > 0,
        Err(_) => false,
    }
}

/// A branch node with children but no callable endpoint at this level.
pub fn is_group_only(cat: &ApiCatalog, command_path: &str, cmd: &CommandInfo) -> (r: bool)
    ensures
        r == (!cmd.is_leaf && has_children(*cat, command_path@)),
{
    !cmd.is_leaf && has_subcommands(cat, command_path)
}

// ---------------------------------------------------------------------------
// Walking the command tree
// ---------------------------------------------------------------------------

/// The full path of the child `name` of `prefix`.
pub open spec fn child_path(prefix: Seq<char>, name: Seq<char>) -> Seq<char> {
    if prefix.len() == 0 {
        name
    } else {
        prefix + "."@ + name
    }
}

/// The longest command path that the catalog describes.
pub open spec fn max_path_len<V>(s: Seq<(String, V)>) -> nat
    decreases s.len(),
{
    if s.len() == 0 {
        0
    } else {
        let rest = max_path_len(s.drop_first());
        if s[0].0@.len() > rest {
            s[0].0@.len()
        } else {
            rest
        }
    }
}

/// No entry is keyed by a longer path than `max_path_len`.
pub proof fn lemma_max_path_len<V>(s: Seq<(String, V)>, k: Seq<char>)
    requires
        entry_index(s, k) >= 0,
    ensures
        k.len() <= max_path_len(s),
    decreases s.len(),
{
    if s[0].0@ != k {
        lemma_max_path_len(s.drop_first(), k);
    }
}

/// How much longer a path below `prefix` can still get.
pub open spec fn depth_left(cat: ApiCatalog, prefix: Seq<char>) -> nat {
    let m = max_path_len(cat.commands@);
    if prefix.len() > m {
        0
    } else {
        (m + 1 - prefix.len()) as nat
    }
}

/// The length of the longest command path the catalog describes.
pub fn longest_command_path(cat: &ApiCatalog) -> (r: usize)
    ensures
        r == max_path_len(cat.commands@),
{
    let mut m: usize = 0;
    let mut i: usize = cat.commands.len();
    proof {
        assert(cat.commands@.skip(i as int) =~= Seq::<(String, Result<CommandInfo, FfiError>)>::empty());
    }
    while i > 0
        invariant
            i <= cat.commands@.len(),
            m == max_path_len(cat.commands@.skip(i as int)),
        decreases i,
    {
        i = i - 1;
        proof {
            assert(cat.commands@.skip(i as int).drop_first() =~= cat.commands@.skip(i + 1));
        }
        let l = cat.commands[i].0.unicode_len();
        if l > m {
            m = l;
        }
    }
    assert(cat.commands@.skip(0) =~= cat.commands@);
    m
}

/// Whether the tree below `prefix` is shallow enough for
/// [`command_tree_lines`](crate::discovery::command_tree_lines) to start at
/// depth 0 (a machine limit no real profile comes near).
pub fn tree_fits(cat: &ApiCatalog, prefix: &str) -> (r: bool)
    ensures
        r == (depth_left(*cat, prefix@) <= usize::MAX / 2),
{
    let m = longest_command_path(cat);
    let plen = prefix.unicode_len();
    if plen > m {
        true
    } else {
        m - plen < usize::MAX / 2
    }
}

/// The walk goes below `full` only when it is a branch and longer than the
/// path it was listed under (so that the walk ends).
pub open spec fn walks_into(cat: ApiCatalog, prefix: Seq<char>, full: Seq<char>) -> bool {
    full.len() > prefix.len() && is_branch_path(cat, full)
}

/// Every command path below `prefix`, each followed by the paths below it
/// when it is a branch, in the order listed.
pub open spec fn paths_under(cat: ApiCatalog, prefix: Seq<char>) -> Seq<Seq<char>>
    decreases depth_left(cat, prefix), 1int, 0int,
{
    match listing_of(cat, prefix) {
        Err(_) => seq![],
        Ok(names) => paths_from(cat, prefix, names, 0),
    }
}

/// The walk below `prefix` from its `i`-th listed child on.
pub open spec fn paths_from(cat: ApiCatalog, prefix: Seq<char>, names: Seq<Seq<char>>, i: int) -> Seq<
    Seq<char>,
>
    decreases depth_left(cat, prefix), 0int, names.len() - i,
{
    if i < 0 || i >= names.len() {
        seq![]
    } else {
        let full = child_path(prefix, names[i]);
        let below = if walks_into(cat, prefix, full) {
            proof {
                lemma_max_path_len(cat.commands@, full);
            }
            paths_under(cat, full)
        } else {
            seq![]
        };
        seq![full] + below + paths_from(cat, prefix, names, i + 1)
    }
}

/// The full path of the child `name` of `prefix`.
pub fn child_path_of(prefix: &str, name: &str) -> (r: String)
    ensures
        r@ == child_path(prefix@, name@),
{
    if prefix.unicode_len() == 0 {
        to_string(name)
    } else {
        cat3(prefix, ".", name)
    }
}

/// Appends every command path below `prefix` to `out`, depth first.
pub fn collect_all_paths(cat: &ApiCatalog, prefix: &str, out: &mut Vec<String>)
    ensures
        final(out).deep_view() == old(out).deep_view() + paths_under(*cat, prefix@),
    decreases depth_left(*cat, prefix@),
{
    let names = match list_command_names(cat, prefix) {
        Ok(names) => names,
        Err(_) => {
            assert(out.deep_view() =~= old(out).deep_view() + Seq::<Seq<char>>::empty());
            return ;
        },
    };
    let ghost nv = names.deep_view();
    let ghost start = out.deep_view();
    let plen = prefix.unicode_len();
    let mut i: usize = 0;
    while i < names.len()
        invariant
            nv == names.deep_view(),
            listing_of(*cat, prefix@) == Ok::<Seq<Seq<char>>, Seq<char>>(nv),
            plen == prefix@.len(),
            i <= nv.len(),
            start == old(out).deep_view(),
            start + paths_from(*cat, prefix@, nv, 0) == out.deep_view() + paths_from(
                *cat,
                prefix@,
                nv,
                i as int,
            ),
        decreases names.len() - i,
    {
        let full = child_path_of(prefix, names[i].as_str());
        let ghost before = out.deep_view();
        out.push(full.clone());
        assert(out.deep_view() =~= before.push(full@));
        let flen = full.unicode_len();
        if flen > plen && command_is_branch(cat, full.as_str()) {
            proof {
                lemma_max_path_len(cat.commands@, full@);
            }
            let ghost mid = out.deep_view();
            collect_all_paths(cat, full.as_str(), out);
            proof {
                let rest = paths_from(*cat, prefix@, nv, i + 1);
                assert(before + (seq![full@] + paths_under(*cat, full@) + rest) =~= out.deep_view()
                    + rest);
            }
        } else {
            proof {
                let rest = paths_from(*cat, prefix@, nv, i + 1);
                assert(before + (seq![full@] + Seq::<Seq<char>>::empty() + rest) =~= out.deep_view()
                    + rest);
            }
        }
        i = i + 1;
    }
    proof {
        assert(out.deep_view() + Seq::<Seq<char>>::empty() =~= out.deep_view());
    }
}

/// The command paths, at most three, within distance three of `input`
/// (spaces read as dots), closest first and ties by path.
pub open spec fn suggestions_of(cat: ApiCatalog, input: Seq<char>) -> Seq<Seq<char>> {
    suggestions_for(close_candidates(paths_under(cat, Seq::empty()), replace_char(input, ' ', '.')))
}

/// Up to three command paths close to `input` (spaces read as dots),
/// closest first.
pub fn suggest_paths(cat: &ApiCatalog, input: &str) -> (r: Vec<String>)
    ensures
        r.deep_view() == suggestions_of(*cat, input@),
{
    let mut all: Vec<String> = Vec::new();
    proof {
        reveal_strlit("");
    }
    collect_all_paths(cat, "", &mut all);
    assert(all.deep_view() =~= paths_under(*cat, ""@));
    assert(""@ =~= Seq::<char>::empty());
    let needle = str_replace_char(input, ' ', '.');
    rank_suggestions(all.as_slice(), needle.as_str())
}

// ---------------------------------------------------------------------------
// Hints and resolution
// ---------------------------------------------------------------------------

/// A path written as the words a user types.
pub open spec fn words_of(path: Seq<char>) -> Seq<char> {
    replace_char(path, '.', ' ')
}

/// How many of `n` items the hints show: at most `k`.
pub open spec fn at_most(n: nat, k: nat) -> int {
    if n < k {
        n as int
    } else {
        k as int
    }
}

/// The hint that lists up to five subcommands of `path`, or nothing when it
/// lists none.
pub open spec fn subcommand_hint(cat: ApiCatalog, path: Seq<char>) -> Seq<char> {
    let children = match listing_of(cat, path) {
        Ok(v) => v,
        Err(_) => seq![],
    };
    if children.len() == 0 {
        seq![]
    } else {
        "Subcommands of '"@ + words_of(path) + "': "@ + join(
            children.take(at_most(children.len(), 5)).map_values(
                |c: Seq<char>| words_of(path + "."@ + c),
            ),
            ", "@,
        )
    }
}

/// Lists up to five subcommands of `command_path`, as words.
pub fn format_subcommand_hint(cat: &ApiCatalog, command_path: &str) -> (r: String)
    ensures
        r@ == subcommand_hint(*cat, command_path@),
{
    let children = match list_command_names(cat, command_path) {
        Ok(v) => v,
        Err(_) => {
            let v: Vec<String> = Vec::new();
            assert(v.deep_view() =~= Seq::<Seq<char>>::empty());
            v
        },
    };
    if children.len() == 0 {
        return String::new();
    }
    let ghost cv = children.deep_view();
    let mut examples: Vec<String> = Vec::new();
    let mut i: usize = 0;
    while i < children.len() && i < 5
        invariant
            cv == children.deep_view(),
            i <= cv.len(),
            i <= 5,
            examples.deep_view() == cv.take(i as int).map_values(
                |c: Seq<char>| words_of(command_path@ + "."@ + c),
            ),
        decreases children.len() - i,
    {
        let full = cat3(command_path, ".", children[i].as_str());
        let w = str_replace_char(full.as_str(), '.', ' ');
        let ghost before = examples.deep_view();
        examples.push(w);
        proof {
            assert(examples.deep_view() =~= before.push(w@));
            assert(cv.take(i + 1).map_values(|c: Seq<char>| words_of(command_path@ + "."@ + c))
                =~= cv.take(i as int).map_values(
                |c: Seq<char>| words_of(command_path@ + "."@ + c),
            ).push(words_of(command_path@ + "."@ + cv[i as int])));
        }
        i = i + 1;
    }
    assert(i == at_most(cv.len(), 5));
    let mut r = cat3("Subcommands of '", str_replace_char(command_path, '.', ' ').as_str(), "': ");
    r.append(join_strings(examples.as_slice(), ", ").as_str());
    r
}

/// The number of leading words that name a command: the largest `n` no
/// greater than `upto` whose `n`-th word is not an option and whose first
/// `n` words, joined by dots, are a command; 0 when there is none.
pub open spec fn resolved_len(cat: ApiCatalog, words: Seq<Seq<char>>, upto: int) -> int
    decreases upto,
{
    if upto <= 0 || upto > words.len() {
        0
    } else if !starts_with(words[upto - 1], "--"@) && has_command(
        cat,
        join(words.take(upto), "."@),
    ) {
        upto
    } else {
        resolved_len(cat, words, upto - 1)
    }
}

/// `resolved_len` counts at most the words it may look at.
pub proof fn lemma_resolved_len_range(cat: ApiCatalog, words: Seq<Seq<char>>, upto: int)
    ensures
        0 <= resolved_len(cat, words, upto),
        resolved_len(cat, words, upto) <= if upto < 0 { 0 } else { upto },
    decreases upto,
{
    if upto > 0 && upto <= words.len() {
        lemma_resolved_len_range(cat, words, upto - 1);
    }
}

/// The message for typed words that name no command.
pub open spec fn unknown_command_message(
    api: Seq<char>,
    tried: Seq<char>,
    suggestions: Seq<Seq<char>>,
) -> Seq<char> {
    "unknown command '"@ + tried + "' for API '"@ + api + "'. "@ + if suggestions.len() == 0 {
        "Try: ycallr "@ + api + " --list"@
    } else {
        "Did you mean: "@ + join(suggestions.map_values(|p: Seq<char>| words_of(p)), ", "@)
    }
}

/// The paths written as words, joined by `", "`.
pub fn words_list(paths: &Vec<String>) -> (r: String)
    ensures
        r@ == join(paths.deep_view().map_values(|p: Seq<char>| words_of(p)), ", "@),
{
    let mut w: Vec<String> = Vec::new();
    let mut i: usize = 0;
    while i < paths.len()
        invariant
            i <= paths@.len(),
            w.deep_view() == paths.deep_view().take(i as int).map_values(
                |p: Seq<char>| words_of(p),
            ),
        decreases paths.len() - i,
    {
        let x = str_replace_char(paths[i].as_str(), '.', ' ');
        let ghost before = w.deep_view();
        w.push(x);
        proof {
            assert(w.deep_view() =~= before.push(x@));
            assert(paths.deep_view().take(i + 1).map_values(|p: Seq<char>| words_of(p))
                =~= paths.deep_view().take(i as int).map_values(|p: Seq<char>| words_of(p)).push(
                words_of(paths@[i as int]@),
            ));
        }
        i = i + 1;
    }
    assert(paths.deep_view().take(paths@.len() as int) =~= paths.deep_view());
    join_strings(w.as_slice(), ", ")
}

/// Finds the command that the typed `words` name: the longest run of leading
/// words that is a command path. Returns the path and how many words it
/// took. Refuses no words, and words that name no command, with suggestions
/// of close paths.
pub fn resolve_command_path(cat: &ApiCatalog, words: &[String]) -> (r: Result<(String, usize), FfiError>)
    ensures
        words@.len() == 0 ==> (r matches Err(e) && e@ == "missing command for API '"@ + cat.name@
            + "'. Try: ycallr "@ + cat.name@ + " --list"@),
        words@.len() > 0 && resolved_len(*cat, words.deep_view(), words@.len() as int) > 0 ==> {
            let n = resolved_len(*cat, words.deep_view(), words@.len() as int);
            (r matches Ok((p, k)) && k == n && p@ == join(words.deep_view().take(n), "."@))
        },
        words@.len() > 0 && resolved_len(*cat, words.deep_view(), words@.len() as int) == 0 ==> {
            let tried = join(words.deep_view(), " "@);
            (r matches Err(e) && e@ == unknown_command_message(
                cat.name@,
                tried,
                suggestions_of(*cat, tried),
            ))
        },
{
    let ghost wv = words.deep_view();
    if words.len() == 0 {
        let mut msg = cat3("missing command for API '", cat.name.as_str(), "'. Try: ycallr ");
        msg.append(cat.name.as_str());
        msg.append(" --list");
        return Err(FfiError::from_string(msg));
    }
    let mut matched: Option<String> = None;
    let mut matched_len: usize = 0;
    let mut prefix_path = String::new();
    let mut k: usize = 0;
    while k < words.len()
        invariant
            wv == words.deep_view(),
            k <= wv.len(),
            prefix_path@ == join(wv.take(k as int), "."@),
            matched_len == resolved_len(*cat, wv, k as int),
            matched_len == 0 <==> matched is None,
            matched matches Some(p) ==> p@ == join(wv.take(matched_len as int), "."@),
        decreases words.len() - k,
    {
        proof {
            crate::text::lemma_join_push(wv.take(k as int), "."@, wv[k as int]);
            assert(wv.take(k + 1) =~= wv.take(k as int).push(wv[k as int]));
        }
        if k > 0 {
            prefix_path.append(".");
        }
        prefix_path.append(words[k].as_str());
        let is_option = str_starts_with(words[k].as_str(), "--");
        if !is_option && command_exists(cat, prefix_path.as_str()) {
            matched = Some(prefix_path.clone());
            matched_len = k + 1;
        }
        k = k + 1;
    }
    match matched {
        Some(path) => Ok((path, matched_len)),
        None => {
            let tried = join_strings(words, " ");
            let needle = str_replace_char(tried.as_str(), ' ', '.');
            let suggestions = suggest_paths(cat, needle.as_str());
            proof {
                assert(replace_char(replace_char(tried@, ' ', '.'), ' ', '.') =~= replace_char(
                    tried@,
                    ' ',
                    '.',
                ));
            }
            let hint = if suggestions.len() == 0 {
                cat3("Try: ycallr ", cat.name.as_str(), " --list")
            } else {
                cat2("Did you mean: ", words_list(&suggestions).as_str())
            };
            let mut msg = cat3("unknown command '", tried.as_str(), "' for API '");
            msg.append(cat.name.as_str());
            msg.append("'. ");
            msg.append(hint.as_str());
            proof {
                let sv = suggestions.deep_view();
                assert(tried@ == join(wv, " "@));
                assert(sv == suggestions_of(*cat, tried@));
                assert(msg@ =~= unknown_command_message(cat.name@, tried@, sv));
            }
            Err(FfiError::from_string(msg))
        },
    }
}

} // verus!
