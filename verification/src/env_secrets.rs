//! Secrets without plaintext in the process environment: global options,
//! `--env-file` contents, stored secrets, and which required variables still
//! need a value.
use vstd::prelude::*;

use crate::cli::global_flag;
use crate::error::FfiError;
use crate::catalog::EnvVarInfo;
use crate::os_keyring::{Keyring, KeyringRequest};
use crate::secrets::{
    choose_secret, chosen_secret, file_secret, keyring_secret, opt_chars, read_requests,
};
use crate::strmap::{
    entries_of, keys_unique, lemma_pairs_map_empty, map_contains, map_insert, map_of, pairs_map,
};
use crate::text::{
    cat2, cat3, decimal, split_once, str_eq, str_lines, str_split_once, str_trim, to_string, trim,
    lines, usize_to_decimal,
};

verus! {

/// Options that hold for the whole run.
#[derive(Debug)]
pub struct GlobalOptions {
    /// The `--env-file` paths, in the order given.
    pub env_files: Vec<String>,
}

/// What `extract_global_options` keeps of `args[i..]`: the other words, and
/// the env-file paths.
pub open spec fn global_scan(args: Seq<Seq<char>>, i: int) -> (Seq<Seq<char>>, Seq<Seq<char>>)
    decreases args.len() - i,
{
    if i < 0 || i >= args.len() {
        (seq![], seq![])
    } else if args[i] == "--env-file"@ {
        if i + 1 >= args.len() {
            (seq![], seq![])
        } else {
            let (rest, files) = global_scan(args, i + 2);
            (rest, seq![args[i + 1]] + files)
        }
    } else if global_flag(args[i]) {
        global_scan(args, i + 1)
    } else {
        let (rest, files) = global_scan(args, i + 1);
        (seq![args[i]] + rest, files)
    }
}

/// Takes `--env-file <path>` pairs and the global flags `--verbose`/`-v` out
/// of the arguments. A trailing `--env-file` without a path ends the list.
pub fn extract_global_options(args: &[String]) -> (r: (Vec<String>, GlobalOptions))
    ensures
        (r.0.deep_view(), r.1.env_files.deep_view()) == global_scan(args.deep_view(), 0),
{
    let ghost a = args.deep_view();
    let mut remaining: Vec<String> = Vec::new();
    let mut files: Vec<String> = Vec::new();
    let mut i: usize = 0;
    proof {
        assert(remaining.deep_view() =~= Seq::<Seq<char>>::empty());
        assert(files.deep_view() =~= Seq::<Seq<char>>::empty());
    }
    while i < args.len()
        invariant
            a == args.deep_view(),
            i <= args@.len(),
            global_scan(a, 0) == (
                remaining.deep_view() + global_scan(a, i as int).0,
                files.deep_view() + global_scan(a, i as int).1,
            ),
        decreases args.len() - i,
    {
        let arg = args[i].as_str();
        assert(a[i as int] == arg@);
        if str_eq(arg, "--env-file") {
            if i + 1 >= args.len() {
                proof {
                    assert(remaining.deep_view() + Seq::<Seq<char>>::empty() =~= remaining.deep_view());
                    assert(files.deep_view() + Seq::<Seq<char>>::empty() =~= files.deep_view());
                }
                return (remaining, GlobalOptions { env_files: files });
            }
            let ghost before = files.deep_view();
            files.push(args[i + 1].clone());
            proof {
                assert(files.deep_view() =~= before.push(a[i + 1]));
                let tail = global_scan(a, i + 2).1;
                assert(before + (seq![a[i + 1]] + tail) =~= files.deep_view() + tail);
            }
            i = i + 2;
        } else if str_eq(arg, "--verbose") || str_eq(arg, "-v") {
            i = i + 1;
        } else {
            let ghost before = remaining.deep_view();
            remaining.push(args[i].clone());
            proof {
                assert(remaining.deep_view() =~= before.push(a[i as int]));
                let tail = global_scan(a, i + 1).0;
                assert(before + (seq![a[i as int]] + tail) =~= remaining.deep_view() + tail);
            }
            i = i + 1;
        }
    }
    proof {
        if i >= args@.len() {
            assert(remaining.deep_view() + Seq::<Seq<char>>::empty() =~= remaining.deep_view());
            assert(files.deep_view() + Seq::<Seq<char>>::empty() =~= files.deep_view());
        }
    }
    (remaining, GlobalOptions { env_files: files })
}

/// Whether `w` is a word that `extract_global_options` takes out.
pub open spec fn global_word(w: Seq<char>) -> bool {
    w == "--env-file"@ || global_flag(w)
}

/// The words kept by the scan from `i` are none of the global words.
proof fn lemma_global_scan_kept(a: Seq<Seq<char>>, i: int)
    ensures
        forall|k: int| 0 <= k < global_scan(a, i).0.len() ==> !global_word(#[trigger] global_scan(a, i).0[k]),
    decreases a.len() - i,
{
    if 0 <= i < a.len() {
        if a[i] == "--env-file"@ {
            if i + 1 < a.len() {
                lemma_global_scan_kept(a, i + 2);
                assert(global_scan(a, i).0 == global_scan(a, i + 2).0);
            }
        } else if global_flag(a[i]) {
            lemma_global_scan_kept(a, i + 1);
            assert(global_scan(a, i).0 == global_scan(a, i + 1).0);
        } else {
            lemma_global_scan_kept(a, i + 1);
            let rest = global_scan(a, i + 1).0;
            assert(global_scan(a, i).0 == seq![a[i]] + rest);
            assert(!global_word(a[i]));
            assert forall|k: int| 0 <= k < global_scan(a, i).0.len() implies !global_word(
                #[trigger] global_scan(a, i).0[k],
            ) by {
                if k > 0 {
                    assert(global_scan(a, i).0[k] == rest[k - 1]);
                }
            }
        }
    }
}

/// Scanning words that hold no global word keeps them all and finds no file.
proof fn lemma_global_scan_plain(a: Seq<Seq<char>>, i: int)
    requires
        0 <= i <= a.len(),
        forall|k: int| 0 <= k < a.len() ==> !global_word(#[trigger] a[k]),
    ensures
        global_scan(a, i) == (a.skip(i), Seq::<Seq<char>>::empty()),
    decreases a.len() - i,
{
    if i < a.len() {
        assert(!global_word(a[i]));
        lemma_global_scan_plain(a, i + 1);
        assert(seq![a[i]] + a.skip(i + 1) =~= a.skip(i));
    } else {
        assert(a.skip(i) =~= Seq::<Seq<char>>::empty());
    }
}

/// Taking the global options out leaves no `--env-file`, `--verbose` or
/// `-v`, so taking them out again changes nothing and finds no env file.
pub proof fn law_global_options_idempotent(args: Seq<Seq<char>>)
    ensures
        forall|k: int| 0 <= k < global_scan(args, 0).0.len() ==> !global_word(
            #[trigger] global_scan(args, 0).0[k],
        ),
        global_scan(global_scan(args, 0).0, 0) == (global_scan(args, 0).0, Seq::<Seq<char>>::empty()),
{
    lemma_global_scan_kept(args, 0);
    let rest = global_scan(args, 0).0;
    lemma_global_scan_plain(rest, 0);
    assert(rest.skip(0) =~= rest);
}

/// `idx` places the words `r` in order among `a[from..]`: each `r[k]` is
/// `a[idx[k]]`, and the places increase.
pub open spec fn embeds(r: Seq<Seq<char>>, a: Seq<Seq<char>>, from: int, idx: Seq<int>) -> bool {
    &&& idx.len() == r.len()
    &&& forall|k: int| 0 <= k < r.len() ==> from <= #[trigger] idx[k] < a.len() && a[idx[k]] == r[k]
    &&& forall|k: int, l: int| 0 <= k < l < r.len() ==> #[trigger] idx[k] < #[trigger] idx[l]
}

/// `r` is a subsequence of `a`: its words stand in `a` in the same order.
pub open spec fn subsequence_of(r: Seq<Seq<char>>, a: Seq<Seq<char>>) -> bool {
    exists|idx: Seq<int>| embeds(r, a, 0, idx)
}

/// The words kept by the scan from `i` stand in order among `a[i..]`, and
/// they and the env files number no more than `a[i..]`.
proof fn lemma_global_scan_embeds(a: Seq<Seq<char>>, i: int) -> (idx: Seq<int>)
    requires
        0 <= i <= a.len(),
    ensures
        embeds(global_scan(a, i).0, a, i, idx),
        global_scan(a, i).0.len() + global_scan(a, i).1.len() <= a.len() - i,
    decreases a.len() - i,
{
    let r = global_scan(a, i).0;
    if i >= a.len() {
        assert(r.len() == 0);
        Seq::empty()
    } else if a[i] == "--env-file"@ {
        if i + 1 >= a.len() {
            assert(r.len() == 0);
            Seq::empty()
        } else {
            let g = lemma_global_scan_embeds(a, i + 2);
            let r2 = global_scan(a, i + 2).0;
            assert(r == r2);
            g
        }
    } else if global_flag(a[i]) {
        let g = lemma_global_scan_embeds(a, i + 1);
        let r1 = global_scan(a, i + 1).0;
        assert(r == r1);
        g
    } else {
        let g = lemma_global_scan_embeds(a, i + 1);
        let rest = global_scan(a, i + 1).0;
        assert(r == seq![a[i]] + rest);
        let idx = seq![i] + g;
        assert forall|k: int| 0 <= k < r.len() implies i <= #[trigger] idx[k] < a.len() && a[idx[k]] == r[k] by {
            if k > 0 {
                assert(r[k] == rest[k - 1]);
                assert(idx[k] == g[k - 1]);
            }
        }
        assert forall|k: int, l: int| 0 <= k < l < r.len() implies #[trigger] idx[k] < #[trigger] idx[l] by {
            assert(idx[l] == g[l - 1]);
            if k > 0 {
                assert(idx[k] == g[k - 1]);
            }
        }
        idx
    }
}

/// Taking the global options out keeps the other words in their order (a
/// subsequence of the arguments), and the kept words and the env files
/// number no more than the arguments.
pub proof fn law_global_options_keep_order(args: Seq<Seq<char>>)
    ensures
        subsequence_of(global_scan(args, 0).0, args),
        global_scan(args, 0).0.len() + global_scan(args, 0).1.len() <= args.len(),
{
    let idx = lemma_global_scan_embeds(args, 0);
    assert(embeds(global_scan(args, 0).0, args, 0, idx));
}

// ---------------------------------------------------------------------------
// --env-file contents
// ---------------------------------------------------------------------------

/// The message for line `n` (counted from one) of the env file `path`.
pub open spec fn env_line_error(path: Seq<char>, n: nat, what: Seq<char>) -> Seq<char> {
    "--env-file '"@ + path + "': line "@ + decimal(n) + what
}

/// The map that the env file `path` defines after its lines `ls[i..]` are read
/// on top of `m`, or the message of the first bad line. Blank lines and lines
/// starting with `#` are skipped; every other line is `KEY=VALUE`, the line
/// trimmed, the key trimmed and not empty, the value taken as it stands.
pub open spec fn env_lines(path: Seq<char>, ls: Seq<Seq<char>>, i: int, m: Map<Seq<char>, Seq<char>>) -> Result<
    Map<Seq<char>, Seq<char>>,
    Seq<char>,
>
    decreases ls.len() - i,
{
    if i < 0 || i >= ls.len() {
        Ok(m)
    } else {
        let line = trim(ls[i]);
        if line.len() == 0 || line[0] == '#' {
            env_lines(path, ls, i + 1, m)
        } else {
            match split_once(line, '=') {
                None => Err(env_line_error(path, (i + 1) as nat, ": expected KEY=VALUE"@)),
                Some((k, v)) => {
                    if trim(k).len() == 0 {
                        Err(env_line_error(path, (i + 1) as nat, ": empty key"@))
                    } else {
                        env_lines(path, ls, i + 1, m.insert(trim(k), v))
                    }
                },
            }
        }
    }
}

/// The map that the env file `path` with this content defines.
pub open spec fn env_file_map(path: Seq<char>, content: Seq<char>) -> Result<
    Map<Seq<char>, Seq<char>>,
    Seq<char>,
> {
    env_lines(path, lines(content), 0, Map::empty())
}

/// Reads the `KEY=VALUE` lines of the env file `path`, whose content is
/// `content`; a later value of a key replaces an earlier one.
pub fn parse_env_file(path: &str, content: &str) -> (r: Result<Vec<(String, String)>, FfiError>)
    ensures
        match r {
            Ok(m) => env_file_map(path@, content@) == Ok::<Map<Seq<char>, Seq<char>>, Seq<char>>(
                map_of(m@),
            ) && keys_unique(entries_of(m@)),
            Err(e) => env_file_map(path@, content@) == Err::<Map<Seq<char>, Seq<char>>, Seq<char>>(
                e@,
            ),
        },
{
    let ls = str_lines(content);
    let ghost lv = ls.deep_view();
    let mut m: Vec<(String, String)> = Vec::new();
    proof {
        lemma_pairs_map_empty(entries_of(m@));
    }
    let mut i: usize = 0;
    while i < ls.len()
        invariant
            lv == ls.deep_view(),
            lv == lines(content@),
            i <= ls@.len(),
            env_file_map(path@, content@) == env_lines(path@, lv, i as int, map_of(m@)),
            keys_unique(entries_of(m@)),
        decreases ls.len() - i,
    {
        let line = str_trim(ls[i].as_str());
        let lc = crate::text::chars_of(line.as_str());
        if lc.len() == 0 || lc[0] == '#' {
            i = i + 1;
        } else {
            match str_split_once(line.as_str(), '=') {
                None => {
                    let n = usize_to_decimal(i + 1);
                    let mut msg = cat3("--env-file '", path, "': line ");
                    msg.append(n.as_str());
                    msg.append(": expected KEY=VALUE");
                    return Err(FfiError::from_string(msg));
                },
                Some((k, v)) => {
                    let key = str_trim(k.as_str());
                    if key.unicode_len() == 0 {
                        let n = usize_to_decimal(i + 1);
                        let mut msg = cat3("--env-file '", path, "': line ");
                        msg.append(n.as_str());
                        msg.append(": empty key");
                        return Err(FfiError::from_string(msg));
                    }
                    map_insert(&mut m, key, v);
                    i = i + 1;
                },
            }
        }
    }
    Ok(m)
}

/// The map that the env files define, each read in turn on top of the
/// previous ones, or the first error: a file that could not be read
/// (`reads[k]` holds the reader's message) or a bad line.
pub open spec fn env_files_map(paths: Seq<Seq<char>>, reads: Seq<Result<Seq<char>, Seq<char>>>) -> Result<
    Map<Seq<char>, Seq<char>>,
    Seq<char>,
>
    decreases paths.len(),
{
    if paths.len() == 0 || reads.len() == 0 {
        Ok(Map::empty())
    } else {
        match env_files_map(paths.drop_last(), reads.drop_last()) {
            Err(e) => Err(e),
            Ok(m) => match reads.last() {
                Err(why) => Err("failed to read --env-file '"@ + paths.last() + "': "@ + why),
                Ok(content) => match env_file_map(paths.last(), content) {
                    Err(e) => Err(e),
                    Ok(f) => Ok(m.union_prefer_right(f)),
                },
            },
        }
    }
}

/// What one env file gives on its own: its map, or the error of reading or
/// of its first bad line.
pub open spec fn file_result(path: Seq<char>, read: Result<Seq<char>, Seq<char>>) -> Result<
    Map<Seq<char>, Seq<char>>,
    Seq<char>,
> {
    match read {
        Err(why) => Err("failed to read --env-file '"@ + path + "': "@ + why),
        Ok(content) => env_file_map(path, content),
    }
}

/// The merge of env files, file by file: it succeeds exactly when every file
/// does, and then holds a key exactly when some file sets it, with the value
/// of the last file that sets it; otherwise its error is that of the first
/// file that fails.
pub proof fn law_env_files_per_file(paths: Seq<Seq<char>>, reads: Seq<Result<Seq<char>, Seq<char>>>)
    requires
        paths.len() == reads.len(),
    ensures
        env_files_map(paths, reads) is Ok <==> forall|k: int|
            0 <= k < paths.len() ==> #[trigger] file_result(paths[k], reads[k]) is Ok,
        forall|k: int|
            0 <= k < paths.len() && #[trigger] file_result(paths[k], reads[k]) is Err && (forall|j: int|
                0 <= j < k ==> file_result(paths[j], reads[j]) is Ok) ==> env_files_map(paths, reads)
                == file_result(paths[k], reads[k]),
        env_files_map(paths, reads) is Ok ==> forall|key: Seq<char>|
            #[trigger] env_files_map(paths, reads)->Ok_0.contains_key(key) <==> exists|k: int|
                0 <= k < paths.len() && #[trigger] file_result(paths[k], reads[k])->Ok_0.contains_key(key),
        env_files_map(paths, reads) is Ok ==> forall|k: int, key: Seq<char>|
            0 <= k < paths.len() && #[trigger] file_result(paths[k], reads[k])->Ok_0.contains_key(key)
                && (forall|j: int| k < j < paths.len() ==> !file_result(paths[j], reads[j])->Ok_0.contains_key(key))
                ==> env_files_map(paths, reads)->Ok_0[key] == file_result(paths[k], reads[k])->Ok_0[key],
    decreases paths.len(),
{
    if paths.len() > 0 {
        let (p0, r0) = (paths.drop_last(), reads.drop_last());
        let n = paths.len() - 1;
        law_env_files_per_file(p0, r0);
        let last = file_result(paths[n], reads[n]);
        assert(paths.last() == paths[n] && reads.last() == reads[n]);
        assert(env_files_map(paths, reads) == match env_files_map(p0, r0) {
            Err(e) => Err(e),
            Ok(m) => match last {
                Err(e) => Err(e),
                Ok(f) => Ok::<Map<Seq<char>, Seq<char>>, Seq<char>>(m.union_prefer_right(f)),
            },
        });
        assert forall|k: int| 0 <= k < n implies #[trigger] file_result(paths[k], reads[k]) == file_result(p0[k], r0[k]) by {
            assert(p0[k] == paths[k] && r0[k] == reads[k]);
        }
        // first clause
        if env_files_map(paths, reads) is Ok {
            assert forall|k: int| 0 <= k < paths.len() implies #[trigger] file_result(paths[k], reads[k]) is Ok by {
                if k < n {
                    assert(file_result(p0[k], r0[k]) is Ok);
                }
            }
        }
        if forall|k: int| 0 <= k < paths.len() ==> #[trigger] file_result(paths[k], reads[k]) is Ok {
            assert forall|k: int| 0 <= k < p0.len() implies #[trigger] file_result(p0[k], r0[k]) is Ok by {
                assert(file_result(paths[k], reads[k]) is Ok);
            }
            assert(last is Ok);
        }
        // second clause
        assert forall|k: int|
            0 <= k < paths.len() && #[trigger] file_result(paths[k], reads[k]) is Err && (forall|j: int|
                0 <= j < k ==> file_result(paths[j], reads[j]) is Ok) implies env_files_map(paths, reads)
                == file_result(paths[k], reads[k]) by {
            if k < n {
                assert(file_result(p0[k], r0[k]) is Err);
                assert forall|j: int| 0 <= j < k implies file_result(p0[j], r0[j]) is Ok by {
                    assert(file_result(paths[j], reads[j]) is Ok);
                }
            } else {
                assert forall|j: int| 0 <= j < p0.len() implies #[trigger] file_result(p0[j], r0[j]) is Ok by {
                    assert(file_result(paths[j], reads[j]) is Ok);
                }
            }
        }
        if env_files_map(paths, reads) is Ok {
            let m = env_files_map(p0, r0)->Ok_0;
            let f = last->Ok_0;
            let all = env_files_map(paths, reads)->Ok_0;
            assert(all == m.union_prefer_right(f));
            assert forall|key: Seq<char>| #[trigger] all.contains_key(key) <==> exists|k: int|
                0 <= k < paths.len() && #[trigger] file_result(paths[k], reads[k])->Ok_0.contains_key(key) by {
                if all.contains_key(key) {
                    if f.contains_key(key) {
                        assert(file_result(paths[n], reads[n])->Ok_0.contains_key(key));
                    } else {
                        assert(m.contains_key(key));
                        let k = choose|k: int| 0 <= k < p0.len() && #[trigger] file_result(p0[k], r0[k])->Ok_0.contains_key(key);
                        assert(file_result(paths[k], reads[k])->Ok_0.contains_key(key));
                    }
                }
                if exists|k: int| 0 <= k < paths.len() && #[trigger] file_result(paths[k], reads[k])->Ok_0.contains_key(key) {
                    let k = choose|k: int| 0 <= k < paths.len() && #[trigger] file_result(paths[k], reads[k])->Ok_0.contains_key(key);
                    if k < n {
                        assert(file_result(p0[k], r0[k])->Ok_0.contains_key(key));
                        assert(m.contains_key(key));
                    }
                }
            }
            assert forall|k: int, key: Seq<char>|
                0 <= k < paths.len() && #[trigger] file_result(paths[k], reads[k])->Ok_0.contains_key(key)
                    && (forall|j: int| k < j < paths.len() ==> !file_result(paths[j], reads[j])->Ok_0.contains_key(key))
                    implies all[key] == file_result(paths[k], reads[k])->Ok_0[key] by {
                if k < n {
                    assert(!f.contains_key(key)) by {
                        assert(!file_result(paths[n], reads[n])->Ok_0.contains_key(key));
                    }
                    assert(file_result(p0[k], r0[k])->Ok_0.contains_key(key));
                    assert forall|j: int| k < j < p0.len() implies !file_result(p0[j], r0[j])->Ok_0.contains_key(key) by {
                        assert(!file_result(paths[j], reads[j])->Ok_0.contains_key(key));
                    }
                }
            }
        }
    }
}

/// The view of what reading each env file gave.
pub open spec fn reads_view(reads: Seq<Result<String, String>>) -> Seq<Result<Seq<char>, Seq<char>>> {
    reads.map_values(
        |r: Result<String, String>|
            match r {
                Ok(c) => Ok(c@),
                Err(e) => Err(e@),
            },
    )
}

/// An error in one env file stops the loading.
proof fn lemma_env_files_stop(
    paths: Seq<Seq<char>>,
    reads: Seq<Result<Seq<char>, Seq<char>>>,
    i: int,
)
    requires
        0 <= i <= paths.len(),
        paths.len() == reads.len(),
        env_files_map(paths.take(i), reads.take(i)) is Err,
    ensures
        env_files_map(paths, reads) == env_files_map(paths.take(i), reads.take(i)),
    decreases paths.len(),
{
    if i < paths.len() {
        assert(paths.drop_last().take(i) =~= paths.take(i));
        assert(reads.drop_last().take(i) =~= reads.take(i));
        lemma_env_files_stop(paths.drop_last(), reads.drop_last(), i);
    } else {
        assert(paths.take(i) =~= paths);
        assert(reads.take(i) =~= reads);
    }
}

/// Merges the env files `paths`, whose reading gave `reads` (the content, or
/// the reader's message): later files override earlier ones.
pub fn load_env_files(paths: &[String], reads: &[Result<String, String>]) -> (r: Result<
    Vec<(String, String)>,
    FfiError,
>)
    requires
        paths@.len() == reads@.len(),
    ensures
        match r {
            Ok(m) => env_files_map(paths.deep_view(), reads_view(reads@)) == Ok::<
                Map<Seq<char>, Seq<char>>,
                Seq<char>,
            >(map_of(m@)) && keys_unique(entries_of(m@)),
            Err(e) => env_files_map(paths.deep_view(), reads_view(reads@)) == Err::<
                Map<Seq<char>, Seq<char>>,
                Seq<char>,
            >(e@),
        },
{
    let ghost pv = paths.deep_view();
    let ghost rv = reads_view(reads@);
    let mut merged: Vec<(String, String)> = Vec::new();
    proof {
        lemma_pairs_map_empty(entries_of(merged@));
        assert(pv.take(0).len() == 0);
    }
    let mut i: usize = 0;
    while i < paths.len()
        invariant
            pv == paths.deep_view(),
            rv == reads_view(reads@),
            pv.len() == rv.len(),
            i <= pv.len(),
            env_files_map(pv.take(i as int), rv.take(i as int)) == Ok::<
                Map<Seq<char>, Seq<char>>,
                Seq<char>,
            >(map_of(merged@)),
            keys_unique(entries_of(merged@)),
        decreases paths.len() - i,
    {
        proof {
            assert(pv.take(i + 1).drop_last() =~= pv.take(i as int));
            assert(rv.take(i + 1).drop_last() =~= rv.take(i as int));
            assert(pv.take(i + 1).last() == paths@[i as int]@);
            assert(rv.take(i + 1).last() == rv[i as int]);
        }
        match &reads[i] {
            Err(why) => {
                let mut msg = cat3("failed to read --env-file '", paths[i].as_str(), "': ");
                msg.append(why.as_str());
                proof {
                    lemma_env_files_stop(pv, rv, i + 1);
                }
                return Err(FfiError::from_string(msg));
            },
            Ok(content) => {
                match parse_env_file(paths[i].as_str(), content.as_str()) {
                    Err(e) => {
                        proof {
                            lemma_env_files_stop(pv, rv, i + 1);
                        }
                        return Err(e);
                    },
                    Ok(file_map) => {
                        let ghost before = map_of(merged@);
                        let mut j: usize = 0;
                        while j < file_map.len()
                            invariant
                                j <= file_map@.len(),
                                keys_unique(entries_of(file_map@)),
                                keys_unique(entries_of(merged@)),
                                map_of(merged@) == before.union_prefer_right(
                                    pairs_map(entries_of(file_map@).take(j as int)),
                                ),
                            decreases file_map.len() - j,
                        {
                            proof {
                                let e = entries_of(file_map@);
                                let pre = e.take(j as int);
                                assert(e.take(j + 1) =~= pre.push(e[j as int]));
                                crate::strmap::lemma_key_index(pre, e[j as int].0);
                                assert(crate::strmap::key_index(pre, e[j as int].0) < 0) by {
                                    if crate::strmap::key_index(pre, e[j as int].0) >= 0 {
                                        let q = crate::strmap::key_index(pre, e[j as int].0);
                                        assert(e[q].0 == e[j as int].0);
                                    }
                                }
                                crate::strmap::lemma_pairs_map_push(pre, e[j as int].0, e[j as int].1);
                                assert(before.union_prefer_right(pairs_map(pre)).insert(e[j as int].0, e[j as int].1)
                                    =~= before.union_prefer_right(pairs_map(pre).insert(e[j as int].0, e[j as int].1)));
                            }
                            map_insert(&mut merged, file_map[j].0.clone(), file_map[j].1.clone());
                            j = j + 1;
                        }
                        proof {
                            assert(entries_of(file_map@).take(file_map@.len() as int)
                                =~= entries_of(file_map@));
                        }
                    },
                }
            },
        }
        i = i + 1;
    }
    proof {
        assert(pv.take(pv.len() as int) =~= pv);
        assert(rv.take(rv.len() as int) =~= rv);
    }
    Ok(merged)
}

// ---------------------------------------------------------------------------
// Stored secrets and overrides
// ---------------------------------------------------------------------------

/// Whether `names` lists `name`.
pub fn list_contains(names: &[String], name: &str) -> (r: bool)
    ensures
        r == names.deep_view().contains(name@),
{
    let mut i: usize = 0;
    while i < names.len()
        invariant
            i <= names@.len(),
            forall|j: int| 0 <= j < i ==> names.deep_view()[j] != name@,
        decreases names.len() - i,
    {
        if str_eq(names[i].as_str(), name) {
            assert(names.deep_view()[i as int] == name@);
            return true;
        }
        i = i + 1;
    }
    false
}

/// The view of optional file contents.
pub open spec fn files_view(files: Seq<Option<String>>) -> Seq<Option<Seq<char>>> {
    files.map_values(|f: Option<String>| match f {
        Some(c) => Some(c@),
        None => None,
    })
}

/// The stored secrets that are loaded: for each of `names` in turn whose
/// variable is not `available` in the environment, the secret chosen from
/// the keyring's answer `keyring[i]` and the secret file's content
/// `files[i]` ([`chosen_secret`]), if any; a later name overrides an
/// earlier equal one.
pub open spec fn stored_map(
    names: Seq<Seq<char>>,
    available: Seq<Seq<char>>,
    keyring: Seq<Option<Seq<char>>>,
    files: Seq<Option<Seq<char>>>,
) -> Map<Seq<char>, Seq<char>>
    decreases names.len(),
{
    if names.len() == 0 || keyring.len() == 0 || files.len() == 0 {
        Map::empty()
    } else {
        let m = stored_map(names.drop_last(), available, keyring.drop_last(), files.drop_last());
        let k = names.last();
        if available.contains(k) {
            m
        } else {
            match chosen_secret(keyring.last(), files.last()) {
                Some(v) => m.insert(k, v),
                None => m,
            }
        }
    }
}

/// What the loaded map holds: only names not in the environment, each with
/// a non-empty value; and every such name for which a secret is chosen.
pub proof fn lemma_stored_map_keys(
    names: Seq<Seq<char>>,
    available: Seq<Seq<char>>,
    keyring: Seq<Option<Seq<char>>>,
    files: Seq<Option<Seq<char>>>,
)
    requires
        names.len() == keyring.len(),
        names.len() == files.len(),
    ensures
        forall|k: Seq<char>| #[trigger] stored_map(names, available, keyring, files).contains_key(k)
            ==> names.contains(k) && !available.contains(k)
            && stored_map(names, available, keyring, files)[k].len() > 0,
        forall|i: int|
            0 <= i < names.len() && !available.contains(names[i]) && #[trigger] chosen_secret(
                keyring[i],
                files[i],
            ) is Some ==> stored_map(names, available, keyring, files).contains_key(names[i]),
    decreases names.len(),
{
    if names.len() > 0 {
        let (n0, k0, f0) = (names.drop_last(), keyring.drop_last(), files.drop_last());
        lemma_stored_map_keys(n0, available, k0, f0);
        let m = stored_map(names, available, keyring, files);
        let m0 = stored_map(n0, available, k0, f0);
        assert forall|k: Seq<char>| #[trigger] m.contains_key(k) implies names.contains(k)
            && !available.contains(k) && m[k].len() > 0 by {
            if m0.contains_key(k) && (k != names.last() || available.contains(names.last())
                || chosen_secret(keyring.last(), files.last()) is None) {
                let j = choose|j: int| 0 <= j < n0.len() && n0[j] == k;
                assert(names[j] == k);
            } else {
                assert(names[names.len() - 1] == k);
            }
        }
        assert forall|i: int|
            0 <= i < names.len() && !available.contains(names[i]) && #[trigger] chosen_secret(
                keyring[i],
                files[i],
            ) is Some implies m.contains_key(names[i]) by {
            if i < names.len() - 1 {
                assert(n0[i] == names[i] && k0[i] == keyring[i] && f0[i] == files[i]);
                assert(chosen_secret(k0[i], f0[i]) is Some);
            }
        }
    }
}

/// A name listed once, not in the environment, is loaded with exactly the
/// secret chosen from its keyring answer and its file, and is left out when
/// neither holds one.
pub proof fn law_stored_secret_value(
    names: Seq<Seq<char>>,
    available: Seq<Seq<char>>,
    keyring: Seq<Option<Seq<char>>>,
    files: Seq<Option<Seq<char>>>,
    i: int,
)
    requires
        names.len() == keyring.len(),
        names.len() == files.len(),
        0 <= i < names.len(),
        forall|j: int| 0 <= j < names.len() && j != i ==> names[j] != names[i],
        !available.contains(names[i]),
    ensures
        match chosen_secret(keyring[i], files[i]) {
            Some(v) => stored_map(names, available, keyring, files).contains_key(names[i])
                && stored_map(names, available, keyring, files)[names[i]] == v,
            None => !stored_map(names, available, keyring, files).contains_key(names[i]),
        },
    decreases names.len(),
{
    let (n0, k0, f0) = (names.drop_last(), keyring.drop_last(), files.drop_last());
    if i < names.len() - 1 {
        assert forall|j: int| 0 <= j < n0.len() && j != i implies n0[j] != n0[i] by {
            assert(n0[j] == names[j]);
        }
        assert(n0[i] == names[i] && k0[i] == keyring[i] && f0[i] == files[i]);
        law_stored_secret_value(n0, available, k0, f0, i);
        assert(names.last() != names[i]) by {
            assert(names[names.len() - 1] == names.last());
        }
    } else {
        lemma_stored_map_keys(n0, available, k0, f0);
        if stored_map(n0, available, k0, f0).contains_key(names[i]) {
            let j = choose|j: int| 0 <= j < n0.len() && n0[j] == names[i];
            assert(names[j] == names[i]);
        }
    }
}

/// A secret written to its file, with nothing in the keyring, is loaded
/// with exactly the value written, when that value is accepted and does not
/// end in a line ending.
pub proof fn law_stored_file_secret_loaded(
    names: Seq<Seq<char>>,
    available: Seq<Seq<char>>,
    keyring: Seq<Option<Seq<char>>>,
    files: Seq<Option<Seq<char>>>,
    i: int,
    value: Seq<char>,
)
    requires
        names.len() == keyring.len(),
        names.len() == files.len(),
        0 <= i < names.len(),
        forall|j: int| 0 <= j < names.len() && j != i ==> names[j] != names[i],
        !available.contains(names[i]),
        keyring[i] is None,
        files[i] == Some(value),
        crate::secrets::secret_value_error(names[i], value) is None,
        value.len() > 0 ==> value.last() != '\n' && value.last() != '\r',
    ensures
        stored_map(names, available, keyring, files).contains_key(names[i]),
        stored_map(names, available, keyring, files)[names[i]] == value,
{
    crate::secrets::law_stored_value_read_back(names[i], value);
    law_stored_secret_value(names, available, keyring, files, i);
}

/// The secrets loaded for `names` whose variable is not `available`:
/// `keyring[i]` is what the OS keyring gave for `names[i]`, and
/// `stored_files[i]` the content of its secret file, if either could be
/// read.
pub fn stored_secrets_from(
    names: &[String],
    available: &[String],
    keyring: &[Option<String>],
    stored_files: &[Option<String>],
) -> (r: Vec<(String, String)>)
    requires
        names@.len() == keyring@.len(),
        names@.len() == stored_files@.len(),
    ensures
        keys_unique(entries_of(r@)),
        map_of(r@) == stored_map(
            names.deep_view(),
            available.deep_view(),
            files_view(keyring@),
            files_view(stored_files@),
        ),
{
    let ghost nv = names.deep_view();
    let ghost av = available.deep_view();
    let ghost kv = files_view(keyring@);
    let ghost fv = files_view(stored_files@);
    let mut map: Vec<(String, String)> = Vec::new();
    proof {
        lemma_pairs_map_empty(entries_of(map@));
        assert(map_of(map@) =~= stored_map(nv.take(0), av, kv.take(0), fv.take(0)));
    }
    let mut i: usize = 0;
    while i < names.len()
        invariant
            nv == names.deep_view(),
            av == available.deep_view(),
            kv == files_view(keyring@),
            fv == files_view(stored_files@),
            names@.len() == keyring@.len(),
            names@.len() == stored_files@.len(),
            i <= names@.len(),
            keys_unique(entries_of(map@)),
            map_of(map@) == stored_map(nv.take(i as int), av, kv.take(i as int), fv.take(i as int)),
        decreases names.len() - i,
    {
        proof {
            assert(nv.take(i + 1).drop_last() =~= nv.take(i as int));
            assert(kv.take(i + 1).drop_last() =~= kv.take(i as int));
            assert(fv.take(i + 1).drop_last() =~= fv.take(i as int));
            assert(nv.take(i + 1).last() == names@[i as int]@);
            assert(kv.take(i + 1).last() == opt_chars(keyring@[i as int]));
            assert(fv.take(i + 1).last() == opt_chars(stored_files@[i as int]));
        }
        let name = names[i].as_str();
        if !list_contains(available, name) {
            match choose_secret(keyring[i].clone(), stored_files[i].clone()) {
                Some(value) => {
                    map_insert(&mut map, names[i].clone(), value);
                },
                None => {},
            }
        }
        i = i + 1;
    }
    proof {
        assert(nv.take(nv.len() as int) =~= nv);
        assert(kv.take(kv.len() as int) =~= kv);
        assert(fv.take(fv.len() as int) =~= fv);
    }
    map
}

/// The keyring requests of loading the stored secrets `names`: for each
/// name in turn whose variable is not `available`, reading it
/// ([`read_requests`]), where `opened[i]` tells whether its entry could be
/// opened.
pub open spec fn load_requests(names: Seq<Seq<char>>, available: Seq<Seq<char>>, opened: Seq<bool>) -> Seq<
    KeyringRequest,
>
    decreases names.len(),
{
    if names.len() == 0 || opened.len() == 0 {
        seq![]
    } else {
        let rest = load_requests(names.drop_last(), available, opened.drop_last());
        if available.contains(names.last()) {
            rest
        } else {
            rest + read_requests(names.last(), opened.last())
        }
    }
}

/// Loads, from the built-in store, the secrets `names` whose variable is not
/// `available` in the environment already. `stored_files[i]` is the content
/// of the secret file of `names[i]`, if it could be read; the OS keyring is
/// asked first, through `session`, for those names only and in order
/// ([`load_requests`]). Whatever the keyring answers, the result is
/// [`stored_map`] of those answers and the files, with no answer for a name
/// whose entry could not be opened.
pub fn load_stored_secrets(
    names: &[String],
    available: &[String],
    stored_files: &[Option<String>],
    session: &mut Keyring,
) -> (r: Vec<(String, String)>)
    requires
        names@.len() == stored_files@.len(),
    ensures
        keys_unique(entries_of(r@)),
        exists|answers: Seq<Option<Seq<char>>>, opened: Seq<bool>|
            answers.len() == names@.len() && opened.len() == names@.len() && map_of(r@)
                == #[trigger] stored_map(
                names.deep_view(),
                available.deep_view(),
                answers,
                files_view(stored_files@),
            ) && final(session)@ == old(session)@ + #[trigger] load_requests(
                names.deep_view(),
                available.deep_view(),
                opened,
            ) && (forall|i: int| 0 <= i < names@.len() && !opened[i] ==> #[trigger] answers[i] is None),
        forall|k: Seq<char>| #[trigger] map_of(r@).contains_key(k) ==> names.deep_view().contains(k)
            && !available.deep_view().contains(k) && map_of(r@)[k].len() > 0,
        forall|i: int|
            0 <= i < names@.len() && !available.deep_view().contains(names@[i]@) && (
            #[trigger] files_view(stored_files@)[i] matches Some(c) && file_secret(c) is Some)
                ==> map_of(r@).contains_key(names@[i]@),
{
    let ghost nv = names.deep_view();
    let ghost av = available.deep_view();
    let ghost start = session@;
    let ghost mut opened: Seq<bool> = Seq::empty();
    let mut answers: Vec<Option<String>> = Vec::new();
    let mut i: usize = 0;
    proof {
        assert(nv.take(0) =~= Seq::<Seq<char>>::empty());
        assert(session@ =~= start + load_requests(nv.take(0), av, opened));
    }
    while i < names.len()
        invariant
            nv == names.deep_view(),
            av == available.deep_view(),
            i <= names@.len(),
            answers@.len() == i,
            opened.len() == i,
            start == old(session)@,
            session@ == start + load_requests(nv.take(i as int), av, opened),
            forall|j: int| 0 <= j < i && !opened[j] ==> #[trigger] answers@[j] is None,
        decreases names.len() - i,
    {
        proof {
            assert(nv.take(i + 1).drop_last() =~= nv.take(i as int));
            assert(nv.take(i + 1).last() == names@[i as int]@);
        }
        let ghost before = session@;
        if list_contains(available, names[i].as_str()) {
            answers.push(None);
            proof {
                assert(opened.push(false).drop_last() =~= opened);
                opened = opened.push(false);
            }
        } else {
            let a = keyring_secret(names[i].as_str(), session);
            let ghost o = choose|o: bool|
                session@ == before + #[trigger] read_requests(names@[i as int]@, o) && (!o ==> a is None);
            answers.push(a);
            proof {
                assert(opened.push(o).drop_last() =~= opened);
                opened = opened.push(o);
                assert(session@ =~= start + load_requests(nv.take(i + 1), av, opened));
            }
        }
        i = i + 1;
    }
    proof {
        assert(nv.take(nv.len() as int) =~= nv);
    }
    let r = stored_secrets_from(names, available, answers.as_slice(), stored_files);
    proof {
        let kv = files_view(answers@);
        let fv = files_view(stored_files@);
        lemma_stored_map_keys(nv, av, kv, fv);
        assert forall|i: int|
            0 <= i < names@.len() && !available.deep_view().contains(names@[i]@) && (
            #[trigger] fv[i] matches Some(c) && file_secret(c) is Some)
                implies map_of(r@).contains_key(names@[i]@) by {
            assert(nv[i] == names@[i]@);
            assert(chosen_secret(kv[i], fv[i]) is Some);
        }
        assert forall|i: int| 0 <= i < names@.len() && !opened[i] implies #[trigger] kv[i] is None by {
            assert(answers@[i] is None);
        }
        assert(map_of(r@) == stored_map(nv, av, kv, fv));
        assert(session@ == old(session)@ + load_requests(nv, av, opened));
    }
    r
}

/// The overrides: the env files' values, then stored secrets for variables
/// that neither an env file nor the environment sets.
pub open spec fn overrides_map(
    file_envs: Map<Seq<char>, Seq<char>>,
    stored: Map<Seq<char>, Seq<char>>,
    available: Seq<Seq<char>>,
) -> Map<Seq<char>, Seq<char>> {
    Map::new(
        |k: Seq<char>| file_envs.contains_key(k) || (stored.contains_key(k) && !available.contains(k)),
        |k: Seq<char>| if file_envs.contains_key(k) { file_envs[k] } else { stored[k] },
    )
}

/// The required variables, in declaration order and each once, that none of
/// the overrides `set` nor the environment (`available`) provides: those to
/// prompt for.
pub open spec fn names_to_prompt(
    envs: Seq<(Seq<char>, bool)>,
    set: Map<Seq<char>, Seq<char>>,
    available: Seq<Seq<char>>,
) -> Seq<Seq<char>>
    decreases envs.len(),
{
    if envs.len() == 0 {
        seq![]
    } else {
        let p = names_to_prompt(envs.drop_last(), set, available);
        let (name, required) = envs.last();
        if required && !available.contains(name) && !set.contains_key(name) && !p.contains(name) {
            p.push(name)
        } else {
            p
        }
    }
}

/// The view of declared variables.
pub open spec fn envs_view(envs: Seq<EnvVarInfo>) -> Seq<(Seq<char>, bool)> {
    envs.map_values(|e: EnvVarInfo| (e.name@, e.required))
}

/// Builds the variable overrides of a call from the `--env-file` values and
/// the stored secrets, and lists the required variables still unset, which
/// the caller prompts for when standard input is a terminal.
pub fn plan_env_overrides(
    file_envs: &Vec<(String, String)>,
    envs: &[EnvVarInfo],
    available: &[String],
    stored: &Vec<(String, String)>,
) -> (r: (Vec<(String, String)>, Vec<String>))
    requires
        keys_unique(entries_of(stored@)),
    ensures
        map_of(r.0@) == overrides_map(map_of(file_envs@), map_of(stored@), available.deep_view()),
        r.1.deep_view() == names_to_prompt(envs_view(envs@), map_of(r.0@), available.deep_view()),
        forall|i: int|
            0 <= i < envs@.len() && (#[trigger] envs@[i]).required && !available.deep_view().contains(
                envs@[i].name@,
            ) && !map_of(r.0@).contains_key(envs@[i].name@) ==> r.1.deep_view().contains(
                envs@[i].name@,
            ),
        r.1.deep_view().no_duplicates(),
{
    let mut overrides = crate::strmap::map_clone(file_envs);
    proof {
        assert(entries_of(overrides@) =~= entries_of(file_envs@));
    }
    let ghost fm = map_of(file_envs@);
    let ghost sm = map_of(stored@);
    let ghost av = available.deep_view();
    let mut i: usize = 0;
    while i < stored.len()
        invariant
            i <= stored@.len(),
            fm == map_of(file_envs@),
            sm == map_of(stored@),
            av == available.deep_view(),
            keys_unique(entries_of(stored@)),
            map_of(overrides@) == overrides_map(fm, pairs_map(entries_of(stored@).take(i as int)), av),
        decreases stored.len() - i,
    {
        let ghost e = entries_of(stored@);
        let ghost pre = e.take(i as int);
        proof {
            assert(e.take(i + 1) =~= pre.push(e[i as int]));
            crate::strmap::lemma_key_index(pre, e[i as int].0);
            assert(crate::strmap::key_index(pre, e[i as int].0) < 0) by {
                if crate::strmap::key_index(pre, e[i as int].0) >= 0 {
                    let q = crate::strmap::key_index(pre, e[i as int].0);
                    assert(e[q].0 == e[i as int].0);
                }
            }
            crate::strmap::lemma_pairs_map_push(pre, e[i as int].0, e[i as int].1);
        }
        let key = stored[i].0.as_str();
        if !map_contains(&overrides, key) && !list_contains(available, key) {
            map_insert(&mut overrides, stored[i].0.clone(), stored[i].1.clone());
            proof {
                assert(map_of(overrides@) =~= overrides_map(fm, pairs_map(e.take(i + 1)), av));
            }
        } else {
            proof {
                assert(map_of(overrides@) =~= overrides_map(fm, pairs_map(e.take(i + 1)), av));
            }
        }
        i = i + 1;
    }
    proof {
        assert(entries_of(stored@).take(stored@.len() as int) =~= entries_of(stored@));
    }
    let mut prompts: Vec<String> = Vec::new();
    let mut j: usize = 0;
    proof {
        assert(envs_view(envs@).take(0) =~= Seq::<(Seq<char>, bool)>::empty());
    }
    while j < envs.len()
        invariant
            j <= envs@.len(),
            av == available.deep_view(),
            prompts.deep_view() == names_to_prompt(envs_view(envs@).take(j as int), map_of(overrides@), av),
        decreases envs.len() - j,
    {
        let ghost pre = envs_view(envs@).take(j as int);
        proof {
            assert(envs_view(envs@).take(j + 1).drop_last() =~= pre);
        }
        let env = &envs[j];
        if env.required && !list_contains(available, env.name.as_str()) && !map_contains(
            &overrides,
            env.name.as_str(),
        ) && !list_contains(prompts.as_slice(), env.name.as_str()) {
            let ghost before = prompts.deep_view();
            prompts.push(env.name.clone());
            assert(prompts.deep_view() =~= before.push(env.name@));
        }
        j = j + 1;
    }
    proof {
        assert(envs_view(envs@).take(envs@.len() as int) =~= envs_view(envs@));
        let ev = envs_view(envs@);
        law_prompt_complete(ev, map_of(overrides@), av);
        assert forall|i: int|
            0 <= i < envs@.len() && (#[trigger] envs@[i]).required && !available.deep_view().contains(
                envs@[i].name@,
            ) && !map_of(overrides@).contains_key(envs@[i].name@) implies prompts.deep_view().contains(
                envs@[i].name@,
            ) by {
            assert(ev[i] == (envs@[i].name@, envs@[i].required));
        }
    }
    (overrides, prompts)
}

/// Values from an env file take precedence over stored secrets; a stored
/// secret fills only a variable that neither an env file nor the environment
/// sets; and nobody is asked for a variable that an override or the
/// environment provides.
pub proof fn law_env_precedence(
    file_envs: Map<Seq<char>, Seq<char>>,
    stored: Map<Seq<char>, Seq<char>>,
    available: Seq<Seq<char>>,
    envs: Seq<(Seq<char>, bool)>,
    k: Seq<char>,
)
    ensures
        file_envs.contains_key(k) ==> overrides_map(file_envs, stored, available).contains_key(k)
            && overrides_map(file_envs, stored, available)[k] == file_envs[k],
        !file_envs.contains_key(k) && available.contains(k) ==> !overrides_map(
            file_envs,
            stored,
            available,
        ).contains_key(k),
        names_to_prompt(envs, overrides_map(file_envs, stored, available), available).contains(k)
            ==> !available.contains(k) && !overrides_map(file_envs, stored, available).contains_key(k),
{
    lemma_prompt_names(envs, overrides_map(file_envs, stored, available), available, k);
}

/// Everybody needed is asked for: every declared required variable that
/// neither the environment (`available`) nor the overrides `set` provides is
/// in the prompt list, the list names only declared required variables, and
/// it names each once.
pub proof fn law_prompt_complete(
    envs: Seq<(Seq<char>, bool)>,
    set: Map<Seq<char>, Seq<char>>,
    available: Seq<Seq<char>>,
)
    ensures
        forall|i: int|
            0 <= i < envs.len() && (#[trigger] envs[i]).1 && !available.contains(envs[i].0)
                && !set.contains_key(envs[i].0) ==> names_to_prompt(envs, set, available).contains(
                envs[i].0,
            ),
        forall|k: int|
            #![trigger names_to_prompt(envs, set, available)[k]]
            0 <= k < names_to_prompt(envs, set, available).len() ==> exists|i: int|
                0 <= i < envs.len() && (#[trigger] envs[i]).1 && envs[i].0 == names_to_prompt(
                    envs,
                    set,
                    available,
                )[k],
        names_to_prompt(envs, set, available).no_duplicates(),
    decreases envs.len(),
{
    if envs.len() > 0 {
        let init = envs.drop_last();
        law_prompt_complete(init, set, available);
        let p = names_to_prompt(init, set, available);
        let q = names_to_prompt(envs, set, available);
        let (name, required) = envs.last();
        assert forall|i: int|
            0 <= i < envs.len() && (#[trigger] envs[i]).1 && !available.contains(envs[i].0)
                && !set.contains_key(envs[i].0) implies q.contains(envs[i].0) by {
            if i < envs.len() - 1 {
                assert(init[i] == envs[i]);
                assert(p.contains(envs[i].0));
                let j = choose|j: int| 0 <= j < p.len() && p[j] == envs[i].0;
                if q != p {
                    assert(q[j] == p[j]);
                }
            } else {
                if !p.contains(name) {
                    assert(q[p.len() as int] == name);
                }
            }
        }
        assert forall|k: int| #![trigger q[k]] 0 <= k < q.len() implies exists|i: int|
            0 <= i < envs.len() && (#[trigger] envs[i]).1 && envs[i].0 == q[k] by {
            if k < p.len() {
                assert(q[k] == p[k]);
                let i = choose|i: int| 0 <= i < init.len() && (#[trigger] init[i]).1 && init[i].0 == p[k];
                assert(envs[i] == init[i]);
            } else {
                assert(q.len() != p.len());
                assert(required && q == p.push(name));
                assert(q[k] == name);
                assert(envs[envs.len() - 1] == envs.last());
                assert(envs[envs.len() - 1].1 && envs[envs.len() - 1].0 == q[k]);
            }
        }
        if q != p {
            assert forall|a: int, b: int| 0 <= a < q.len() && 0 <= b < q.len() && a != b implies q[a] != q[b] by {
                if a < p.len() && b < p.len() {
                } else if a < p.len() {
                    assert(p[a] == q[a]);
                    assert(p.contains(q[a]));
                } else {
                    assert(p[b] == q[b]);
                    assert(p.contains(q[b]));
                }
            }
        }
    }
}

/// Nobody is asked for a variable that `set` or the environment provides.
proof fn lemma_prompt_names(
    envs: Seq<(Seq<char>, bool)>,
    set: Map<Seq<char>, Seq<char>>,
    available: Seq<Seq<char>>,
    k: Seq<char>,
)
    ensures
        names_to_prompt(envs, set, available).contains(k) ==> !available.contains(k)
            && !set.contains_key(k),
    decreases envs.len(),
{
    if envs.len() > 0 {
        lemma_prompt_names(envs.drop_last(), set, available, k);
        let p = names_to_prompt(envs.drop_last(), set, available);
        let (name, required) = envs.last();
        if names_to_prompt(envs, set, available).contains(k) && !p.contains(k) {
            let i = choose|i: int| 0 <= i < names_to_prompt(envs, set, available).len() && names_to_prompt(envs, set, available)[i] == k;
            if i < p.len() {
                assert(p[i] == k);
            }
        }
    }
}

// ---------------------------------------------------------------------------
// File permissions
// ---------------------------------------------------------------------------

/// Whether Unix permission bits let the group or others read, write or run
/// the file (any bit of `0o077`).
pub open spec fn shared_mode(mode: u32) -> bool {
    mode & 0o077u32 != 0
}

/// Whether a secret file with these permission bits is open to group or
/// others, and so deserves a warning.
pub fn mode_is_shared(mode: u32) -> (r: bool)
    ensures
        r == shared_mode(mode),
{
    mode & 0o077u32 != 0
}

/// The paths, in the order given, whose permission bits could be read and are
/// shared with group or others.
pub open spec fn shared_paths_of(paths: Seq<Seq<char>>, modes: Seq<Option<u32>>) -> Seq<Seq<char>>
    decreases paths.len(),
{
    if paths.len() == 0 || modes.len() == 0 {
        seq![]
    } else {
        let rest = shared_paths_of(paths.drop_last(), modes.drop_last());
        match modes.last() {
            Some(m) => if shared_mode(m) { rest.push(paths.last()) } else { rest },
            None => rest,
        }
    }
}

/// Of the env files `paths`, whose permission bits are `modes[i]` where they
/// could be read, those to warn about: readable by group or others.
pub fn shared_paths(paths: &[String], modes: &[Option<u32>]) -> (r: Vec<String>)
    requires
        paths@.len() == modes@.len(),
    ensures
        r.deep_view() == shared_paths_of(paths.deep_view(), modes@),
{
    let ghost pv = paths.deep_view();
    let mut out: Vec<String> = Vec::new();
    let mut i: usize = 0;
    proof {
        assert(pv.take(0) =~= Seq::<Seq<char>>::empty());
    }
    while i < paths.len()
        invariant
            pv == paths.deep_view(),
            paths@.len() == modes@.len(),
            i <= paths@.len(),
            out.deep_view() == shared_paths_of(pv.take(i as int), modes@.take(i as int)),
        decreases paths.len() - i,
    {
        proof {
            assert(pv.take(i + 1).drop_last() =~= pv.take(i as int));
            assert(modes@.take(i + 1).drop_last() =~= modes@.take(i as int));
        }
        match modes[i] {
            Some(m) => {
                if mode_is_shared(m) {
                    let ghost before = out.deep_view();
                    out.push(paths[i].clone());
                    assert(out.deep_view() =~= before.push(pv[i as int]));
                }
            },
            None => {},
        }
        i = i + 1;
    }
    proof {
        assert(pv.take(pv.len() as int) =~= pv);
        assert(modes@.take(modes@.len() as int) =~= modes@);
    }
    out
}

} // verus!
