//! The fixed help texts of the program and its subcommands, as the lines printed.
use vstd::prelude::*;

use crate::text::to_string;

verus! {

/// Pushes `s` onto `out`.
fn push_text(out: &mut Vec<String>, s: &str)
    ensures
        final(out).deep_view() == old(out).deep_view().push(s@),
{
    let ghost before = out.deep_view();
    out.push(to_string(s));
    assert(out.deep_view() =~= before.push(s@));
}

/// The program's help: its commands, discovery, output, automation, logging and configuration options, and examples.
pub open spec fn program_help_text() -> Seq<Seq<char>> {
    seq![
        "ycallr: fast API runner (profiles compiled to protobuf)\n"@,
        "Usage:"@,
        "  ycallr --list                     List installed API profiles"@,
        "  ycallr --version                  Show CLI and core version"@,
        "  ycallr install <path>             Compile and install a YAML profile"@,
        "  ycallr import-openapi <path>      Generate YAML from OpenAPI 3.x"@,
        "  ycallr secret set <NAME>          Store a secret (keyring or file)"@,
        "  ycallr secret list                List stored secret names"@,
        "  ycallr secret unset <NAME>        Remove a stored secret"@,
        "  ycallr <api> <command...> [opts]  Run a command (space-separated path)\n"@,
        "Discovery:"@,
        "  ycallr <api> --list               Direct subcommands"@,
        "  ycallr <api> --tree               Full command tree"@,
        "  ycallr <api> <cmd> --help         Command details\n"@,
        "Output:"@,
        "  (default)   Response message template"@,
        "  --json      Compact JSON body"@,
        "  --pretty    Pretty-printed JSON body\n"@,
        "Automation:"@,
        "  --status          Print HTTP status to stderr"@,
        "  --fail-on-error   Exit 2 on HTTP status >= 400"@,
        "  --fail-on-warn    Exit 2 on HTTP status >= 300\n"@,
        "Logging:"@,
        "  --verbose, -v     Debug logs to stderr (ycallr + ycallr-core)"@,
        "  RUST_LOG=...      Standard tracing filter (overrides --verbose)\n"@,
        "Configuration:"@,
        "  YCALLR_CONFIG_DIR   Directory for installed .pb profiles (default: platform config dir)"@,
        "  YCALLR_SECRETS_DIR  Directory for built-in secret file fallback"@,
        "  --env-file <path>   Load secrets from KEY=VALUE file (chmod 600 recommended)\n"@,
        "Examples:"@,
        "  ycallr install ~/.config/ycallr/apis/github.yaml"@,
        "  ycallr --list"@,
        "  ycallr github create issue --owner=rust-lang --repo=rust --title=Bug"@,
        "  ycallr github create issue --json --status --fail-on-error"@,
    ]
}

/// The lines of [`program_help_text`].
pub fn program_help_lines() -> (r: Vec<String>)
    ensures
        r.deep_view() == program_help_text(),
{
    let mut out: Vec<String> = Vec::new();
    push_text(&mut out, "ycallr: fast API runner (profiles compiled to protobuf)\n");
    push_text(&mut out, "Usage:");
    push_text(&mut out, "  ycallr --list                     List installed API profiles");
    push_text(&mut out, "  ycallr --version                  Show CLI and core version");
    push_text(&mut out, "  ycallr install <path>             Compile and install a YAML profile");
    push_text(&mut out, "  ycallr import-openapi <path>      Generate YAML from OpenAPI 3.x");
    push_text(&mut out, "  ycallr secret set <NAME>          Store a secret (keyring or file)");
    push_text(&mut out, "  ycallr secret list                List stored secret names");
    push_text(&mut out, "  ycallr secret unset <NAME>        Remove a stored secret");
    push_text(&mut out, "  ycallr <api> <command...> [opts]  Run a command (space-separated path)\n");
    push_text(&mut out, "Discovery:");
    push_text(&mut out, "  ycallr <api> --list               Direct subcommands");
    push_text(&mut out, "  ycallr <api> --tree               Full command tree");
    push_text(&mut out, "  ycallr <api> <cmd> --help         Command details\n");
    push_text(&mut out, "Output:");
    push_text(&mut out, "  (default)   Response message template");
    push_text(&mut out, "  --json      Compact JSON body");
    push_text(&mut out, "  --pretty    Pretty-printed JSON body\n");
    push_text(&mut out, "Automation:");
    push_text(&mut out, "  --status          Print HTTP status to stderr");
    push_text(&mut out, "  --fail-on-error   Exit 2 on HTTP status >= 400");
    push_text(&mut out, "  --fail-on-warn    Exit 2 on HTTP status >= 300\n");
    push_text(&mut out, "Logging:");
    push_text(&mut out, "  --verbose, -v     Debug logs to stderr (ycallr + ycallr-core)");
    push_text(&mut out, "  RUST_LOG=...      Standard tracing filter (overrides --verbose)\n");
    push_text(&mut out, "Configuration:");
    push_text(&mut out, "  YCALLR_CONFIG_DIR   Directory for installed .pb profiles (default: platform config dir)");
    push_text(&mut out, "  YCALLR_SECRETS_DIR  Directory for built-in secret file fallback");
    push_text(&mut out, "  --env-file <path>   Load secrets from KEY=VALUE file (chmod 600 recommended)\n");
    push_text(&mut out, "Examples:");
    push_text(&mut out, "  ycallr install ~/.config/ycallr/apis/github.yaml");
    push_text(&mut out, "  ycallr --list");
    push_text(&mut out, "  ycallr github create issue --owner=rust-lang --repo=rust --title=Bug");
    push_text(&mut out, "  ycallr github create issue --json --status --fail-on-error");
    assert(out.deep_view() =~= program_help_text());
    out
}

/// The help of `install`.
pub open spec fn install_help_text() -> Seq<Seq<char>> {
    seq![
        "ycallr install: compile a YAML API profile to protobuf\n"@,
        "Usage:"@,
        "  ycallr install <path>             Path to a .yaml/.yml file (or stem without extension)\n"@,
        "Examples:"@,
        "  ycallr install ~/apis/github.yaml"@,
        "  ycallr install ./examples/github_api.yaml"@,
        "  ycallr install ~/.config/ycallr/apis/github\n"@,
        "Compiled profiles are written to:"@,
        "  <config>/ycallr/apis/<name>.pb  (default: ~/.config/ycallr/apis on Linux/macOS)"@,
        "  Override with YCALLR_CONFIG_DIR=/path/to/apis"@,
        "  (profile name comes from the YAML `name:` field)"@,
    ]
}

/// The lines of [`install_help_text`].
pub fn install_help_lines() -> (r: Vec<String>)
    ensures
        r.deep_view() == install_help_text(),
{
    let mut out: Vec<String> = Vec::new();
    push_text(&mut out, "ycallr install: compile a YAML API profile to protobuf\n");
    push_text(&mut out, "Usage:");
    push_text(&mut out, "  ycallr install <path>             Path to a .yaml/.yml file (or stem without extension)\n");
    push_text(&mut out, "Examples:");
    push_text(&mut out, "  ycallr install ~/apis/github.yaml");
    push_text(&mut out, "  ycallr install ./examples/github_api.yaml");
    push_text(&mut out, "  ycallr install ~/.config/ycallr/apis/github\n");
    push_text(&mut out, "Compiled profiles are written to:");
    push_text(&mut out, "  <config>/ycallr/apis/<name>.pb  (default: ~/.config/ycallr/apis on Linux/macOS)");
    push_text(&mut out, "  Override with YCALLR_CONFIG_DIR=/path/to/apis");
    push_text(&mut out, "  (profile name comes from the YAML `name:` field)");
    assert(out.deep_view() =~= install_help_text());
    out
}

/// The help of `import-openapi`.
pub open spec fn import_openapi_help_text() -> Seq<Seq<char>> {
    seq![
        "ycallr import-openapi: generate a ycallr YAML profile from OpenAPI 3.x\n"@,
        "Usage:"@,
        "  ycallr import-openapi <openapi-path> [options]\n"@,
        "Options:"@,
        "  --name <name>     Profile name (default: slug from info.title)"@,
        "  --out <path>      Output YAML path (default: next to source)"@,
        "  --tag <tag>       Import only operations with this OpenAPI tag"@,
        "  --base-url <url>  Override base_url (for GHES templates)"@,
        "  --nest-by <mode>  Group commands by path (default) or tag"@,
        "  --short-names     Shorten leaf command names (on by default with --nest-by tag)"@,
        "  --preset <name>   Vendor preset: auto (default), github, none\n"@,
        "With --nest-by tag: issues.create instead of repos.issues.create-issue"@,
        "After import, edit the YAML (responses, headers, env) then run:"@,
        "  ycallr install <generated.yaml>\n"@,
        "Examples:"@,
        "  ycallr import-openapi ./github.openapi.json --name github"@,
        "  ycallr import-openapi ./spec.yaml --tag issues --nest-by tag --out ./github-issues.yaml"@,
    ]
}

/// The lines of [`import_openapi_help_text`].
pub fn import_openapi_help_lines() -> (r: Vec<String>)
    ensures
        r.deep_view() == import_openapi_help_text(),
{
    let mut out: Vec<String> = Vec::new();
    push_text(&mut out, "ycallr import-openapi: generate a ycallr YAML profile from OpenAPI 3.x\n");
    push_text(&mut out, "Usage:");
    push_text(&mut out, "  ycallr import-openapi <openapi-path> [options]\n");
    push_text(&mut out, "Options:");
    push_text(&mut out, "  --name <name>     Profile name (default: slug from info.title)");
    push_text(&mut out, "  --out <path>      Output YAML path (default: next to source)");
    push_text(&mut out, "  --tag <tag>       Import only operations with this OpenAPI tag");
    push_text(&mut out, "  --base-url <url>  Override base_url (for GHES templates)");
    push_text(&mut out, "  --nest-by <mode>  Group commands by path (default) or tag");
    push_text(&mut out, "  --short-names     Shorten leaf command names (on by default with --nest-by tag)");
    push_text(&mut out, "  --preset <name>   Vendor preset: auto (default), github, none\n");
    push_text(&mut out, "With --nest-by tag: issues.create instead of repos.issues.create-issue");
    push_text(&mut out, "After import, edit the YAML (responses, headers, env) then run:");
    push_text(&mut out, "  ycallr install <generated.yaml>\n");
    push_text(&mut out, "Examples:");
    push_text(&mut out, "  ycallr import-openapi ./github.openapi.json --name github");
    push_text(&mut out, "  ycallr import-openapi ./spec.yaml --tag issues --nest-by tag --out ./github-issues.yaml");
    assert(out.deep_view() =~= import_openapi_help_text());
    out
}

/// The help of `secret`, naming the keyring service [`KEYRING_SERVICE`](crate::secrets::KEYRING_SERVICE).
pub open spec fn secret_help_text() -> Seq<Seq<char>> {
    seq![
        "ycallr secret: store API credentials locally\n"@,
        "Usage:"@,
        "  ycallr secret set <NAME>     Save secret (hidden prompt)"@,
        "  ycallr secret list           List stored secret names"@,
        "  ycallr secret unset <NAME>   Remove a stored secret\n"@,
        "Storage: OS keyring (service 'ycallr'), file fallback under secrets dir."@,
        "Override dir: YCALLR_SECRETS_DIR"@,
    ]
}

/// The lines of [`secret_help_text`].
pub fn secret_help_lines() -> (r: Vec<String>)
    ensures
        r.deep_view() == secret_help_text(),
{
    let mut out: Vec<String> = Vec::new();
    push_text(&mut out, "ycallr secret: store API credentials locally\n");
    push_text(&mut out, "Usage:");
    push_text(&mut out, "  ycallr secret set <NAME>     Save secret (hidden prompt)");
    push_text(&mut out, "  ycallr secret list           List stored secret names");
    push_text(&mut out, "  ycallr secret unset <NAME>   Remove a stored secret\n");
    push_text(&mut out, "Storage: OS keyring (service 'ycallr'), file fallback under secrets dir.");
    push_text(&mut out, "Override dir: YCALLR_SECRETS_DIR");
    assert(out.deep_view() =~= secret_help_text());
    out
}

} // verus!
