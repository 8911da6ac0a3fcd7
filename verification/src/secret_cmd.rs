//! The `secret` subcommand: which request its arguments make, and the value
//! read from standard input when it is not a terminal.
use vstd::prelude::*;

use crate::error::FfiError;
use crate::secrets::file_secret;
use crate::text::{cat2, cat3, str_eq, str_trim_end_newlines, trim_end_newlines};

verus! {

/// What `ycallr secret ...` asks for.
#[derive(Debug)]
pub enum SecretCommand {
    /// Print the usage of `secret`.
    Help,
    /// Store a secret under this name.
    Store(String),
    /// List the stored names.
    List,
    /// Remove the secret with this name.
    Unset(String),
}

/// Whether the arguments of `secret` ask for its help.
pub open spec fn secret_help_wanted(a: Seq<Seq<char>>) -> bool {
    a.len() == 0 || a[0] == "--help"@ || a[0] == "-h"@
}

/// Reads the arguments that follow `secret`: nothing, `--help` or `-h` asks
/// for help; `set NAME`, `list` and `unset NAME` for those requests. A wrong
/// number of names, or another word, is refused with its usage message.
pub fn run_secret_command(args: &[String]) -> (r: Result<SecretCommand, FfiError>)
    ensures
        match r {
            Ok(SecretCommand::Help) => secret_help_wanted(args.deep_view()),
            Ok(SecretCommand::Store(n)) => !secret_help_wanted(args.deep_view()) && args.deep_view()[0]
                == "set"@ && args.deep_view().len() == 2 && n@ == args.deep_view()[1],
            Ok(SecretCommand::List) => !secret_help_wanted(args.deep_view()) && args.deep_view()[0]
                == "list"@,
            Ok(SecretCommand::Unset(n)) => !secret_help_wanted(args.deep_view())
                && args.deep_view()[0] == "unset"@ && args.deep_view().len() == 2 && n@
                == args.deep_view()[1],
            Err(e) => !secret_help_wanted(args.deep_view()) && {
                let a = args.deep_view();
                ||| (a[0] == "set"@ && a.len() != 2 && e@ == "usage: ycallr secret set <NAME>"@)
                ||| (a[0] == "unset"@ && a.len() != 2 && e@
                    == "usage: ycallr secret unset <NAME>"@)
                ||| (a[0] != "set"@ && a[0] != "list"@ && a[0] != "unset"@ && e@
                    == "unknown secret subcommand '"@ + a[0]
                    + "'. Try: ycallr secret --help"@)
            },
        },
{
    if args.len() == 0 || str_eq(args[0].as_str(), "--help") || str_eq(args[0].as_str(), "-h") {
        return Ok(SecretCommand::Help);
    }
    let first = args[0].as_str();
    if str_eq(first, "set") {
        if args.len() != 2 {
            return Err(FfiError::new("usage: ycallr secret set <NAME>"));
        }
        Ok(SecretCommand::Store(args[1].clone()))
    } else if str_eq(first, "list") {
        Ok(SecretCommand::List)
    } else if str_eq(first, "unset") {
        if args.len() != 2 {
            return Err(FfiError::new("usage: ycallr secret unset <NAME>"));
        }
        Ok(SecretCommand::Unset(args[1].clone()))
    } else {
        Err(
            FfiError::from_string(
                cat3("unknown secret subcommand '", first, "'. Try: ycallr secret --help"),
            ),
        )
    }
}

/// The secret typed on standard input: the text without trailing line
/// endings, refused when nothing is left.
pub open spec fn input_secret(name: Seq<char>, text: Seq<char>) -> Result<Seq<char>, Seq<char>> {
    if trim_end_newlines(text).len() == 0 {
        Err("required environment variable '"@ + name + "' cannot be empty"@)
    } else {
        Ok(trim_end_newlines(text))
    }
}

/// The secret named `name` that `text`, read from standard input, holds.
pub fn secret_from_input(name: &str, text: &str) -> (r: Result<String, FfiError>)
    ensures
        match r {
            Ok(v) => input_secret(name@, text@) == Ok::<Seq<char>, Seq<char>>(v@),
            Err(e) => input_secret(name@, text@) == Err::<Seq<char>, Seq<char>>(e@),
        },
{
    let value = str_trim_end_newlines(text);
    if value.unicode_len() == 0 {
        return Err(
            FfiError::from_string(
                cat3("required environment variable '", name, "' cannot be empty"),
            ),
        );
    }
    Ok(value)
}

/// `std::io::Read::read_to_string` on `reader`, the error as its text.
///
/// Trusted: nothing is claimed of what is read, which comes from outside.
#[verifier::external_body]
fn read_all<R: std::io::Read>(reader: R) -> (r: Result<String, String>) {
    let mut reader = reader;
    let mut buf = String::new();
    match reader.read_to_string(&mut buf) {
        Ok(_) => Ok(buf),
        Err(e) => Err(e.to_string()),
    }
}

/// The message when reading standard input failed, for the reader's `why`.
pub open spec fn read_error_message(why: Seq<char>) -> Seq<char> {
    "failed to read secret from stdin: "@ + why
}

/// Reads the secret named `name` from `reader` (standard input when it is
/// not a terminal): everything it yields, without trailing line endings.
/// Whatever the reader yields, the result is what [`input_secret`] makes of
/// that text, or, when reading fails, [`read_error_message`] of the reader's
/// error.
pub fn read_secret_input<R: std::io::Read>(name: &str, reader: R) -> (r: Result<
    String,
    FfiError,
>)
    ensures
        r matches Ok(v) ==> v@.len() > 0,
        match r {
            Ok(v) => exists|text: Seq<char>|
                #[trigger] input_secret(name@, text) == Ok::<Seq<char>, Seq<char>>(v@),
            Err(e) => (exists|text: Seq<char>|
                #[trigger] input_secret(name@, text) == Err::<Seq<char>, Seq<char>>(e@)) || (
            exists|why: Seq<char>| e@ == #[trigger] read_error_message(why)),
        },
{
    match read_all(reader) {
        Ok(text) => {
            let r = secret_from_input(name, text.as_str());
            assert(input_secret(name@, text@) == input_secret(name@, text@));
            r
        },
        Err(e) => {
            let msg = cat2("failed to read secret from stdin: ", e.as_str());
            proof {
                reveal_strlit("failed to read secret from stdin: ");
                assert(msg@ == read_error_message(e@));
            }
            Err(FfiError::from_string(msg))
        },
    }
}

/// Dropping trailing line endings twice drops nothing more.
proof fn lemma_trim_end_newlines_idempotent(s: Seq<char>)
    ensures
        trim_end_newlines(trim_end_newlines(s)) == trim_end_newlines(s),
    decreases s.len(),
{
    if s.len() > 0 && (s.last() == '\n' || s.last() == '\r') {
        lemma_trim_end_newlines_idempotent(s.drop_last());
    }
}

/// A secret typed on standard input, once written to its secret file, is
/// read back unchanged.
pub proof fn law_input_secret_roundtrip(name: Seq<char>, text: Seq<char>)
    requires
        input_secret(name, text) is Ok,
    ensures
        file_secret(input_secret(name, text)->Ok_0) == Some(input_secret(name, text)->Ok_0),
{
    lemma_trim_end_newlines_idempotent(text);
}

} // verus!
