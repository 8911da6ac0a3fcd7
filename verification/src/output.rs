//! What the command line prints of a response and of the installed profiles,
//! and the messages about missing parameters.
use vstd::prelude::*;

use crate::cli::{global_flag, is_global_flag, OutputMode};
use crate::error::FfiError;
use crate::text::{cat2, cat3, join, join_strings, pad_right, pad_right_str, spaces};

verus! {

/// The text that `serde_json` gives when it reads `body` as JSON and writes
/// it back indented, or `None` when `body` is not JSON.
pub uninterp spec fn pretty_json(body: Seq<char>) -> Option<Seq<char>>;

/// Reads `body` as a JSON value with `serde_json::from_str` and writes it
/// back with `serde_json::to_string_pretty`.
///
/// Trusted: the result is named [`pretty_json`] of the body, a function of
/// the body alone; `None` when either step fails. Nothing more is claimed of
/// its text.
#[verifier::external_body]
fn reformat_json(body: &str) -> (r: Option<String>)
    ensures
        match r {
            Some(t) => pretty_json(body@) == Some(t@),
            None => pretty_json(body@) is None,
        },
{
    match serde_json::from_str::<serde_json::Value>(body) {
        Ok(v) => serde_json::to_string_pretty(&v).ok(),
        Err(_) => None,
    }
}

/// What is printed of a response: the message in the default mode (nothing
/// without one), the body with `--json`, and the indented body with
/// `--pretty` (the body as it stands when it cannot be indented).
pub open spec fn response_output(
    body: Seq<char>,
    message: Option<Seq<char>>,
    mode: OutputMode,
    pretty: Option<Seq<char>>,
) -> Option<Seq<char>> {
    match mode {
        OutputMode::Default => message,
        OutputMode::Json => Some(body),
        OutputMode::Pretty => match pretty {
            Some(t) => Some(t),
            None => Some(body),
        },
    }
}

/// The view of an optional string.
pub open spec fn opt_text(o: Option<String>) -> Option<Seq<char>> {
    match o {
        Some(s) => Some(s@),
        None => None,
    }
}

/// What is printed of a response, given its indented body `pretty`.
pub fn render_response(body: &str, message: Option<String>, mode: OutputMode, pretty: Option<String>) -> (r: Option<String>)
    ensures
        opt_text(r) == response_output(body@, opt_text(message), mode, opt_text(pretty)),
{
    match mode {
        OutputMode::Default => message,
        OutputMode::Json => Some(crate::text::to_string(body)),
        OutputMode::Pretty => match pretty {
            Some(t) => Some(t),
            None => Some(crate::text::to_string(body)),
        },
    }
}

/// What is printed of a response whose body is `body` and whose templated
/// message is `message`, in the output mode `mode`. The body is only read as
/// JSON for `--pretty`.
pub fn response_text(body: &str, message: Option<String>, mode: OutputMode) -> (r: Option<String>)
    ensures
        opt_text(r) == response_output(body@, opt_text(message), mode, pretty_json(body@)),
{
    let pretty = match mode {
        OutputMode::Pretty => reformat_json(body),
        _ => None,
    };
    render_response(body, message, mode, pretty)
}

/// The line that lists an installed profile.
pub open spec fn installed_line(name: Seq<char>, description: Seq<char>) -> Seq<char> {
    "  "@ + pad_right(name, 25) + " "@ + description
}

/// The line that lists the installed profile `name`.
pub fn installed_api_line(name: &str, description: &str) -> (r: String)
    ensures
        r@ == installed_line(name@, description@),
{
    cat3("  ", pad_right_str(name, 25).as_str(), " ").concat(description)
}

/// The message for required parameters that have no value and cannot be
/// asked for.
pub fn missing_params_error(missing: &[String]) -> (e: FfiError)
    ensures
        e@ == "missing required parameters: "@ + join(missing.deep_view(), ", "@)
            + ". Pass values with --key=value"@,
{
    FfiError::from_string(
        cat3(
            "missing required parameters: ",
            join_strings(missing, ", ").as_str(),
            ". Pass values with --key=value",
        ),
    )
}

/// The message for a required parameter given an empty value.
pub fn empty_param_error(name: &str) -> (e: FfiError)
    ensures
        e@ == "required parameter '"@ + name@ + "' cannot be empty"@,
{
    FfiError::from_string(cat3("required parameter '", name, "' cannot be empty"))
}

/// Whether the arguments ask for debug logs (`--verbose` or `-v`).
pub fn wants_verbose(args: &[String]) -> (r: bool)
    ensures
        r == exists|i: int| 0 <= i < args@.len() && global_flag(#[trigger] args@[i]@),
{
    let mut i: usize = 0;
    while i < args.len()
        invariant
            i <= args@.len(),
            forall|j: int| 0 <= j < i ==> !global_flag(#[trigger] args@[j]@),
        decreases args.len() - i,
    {
        if is_global_flag(args[i].as_str()) {
            return true;
        }
        i = i + 1;
    }
    false
}

} // verus!
