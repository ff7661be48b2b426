//! Data model of the handler script runtime and the pure marshalling logic
//! that builds the scripts the evaluator runs: the wrapper module that binds a
//! handler factory, and the call snippets for `matches`, `create`, `prepare`
//! and `summarize`.
use vstd::prelude::*;

verus! {

use vstd::string::StringExecFns;
use vstd::string::StrSliceExecFns;
use crate::text::push_char;
use crate::text::str_eq;

/// Declares `serde_json::Value` so request settings can carry arbitrary JSON
/// values through to a handler. The crate never looks inside one.
#[verifier::external_type_specification]
#[verifier::external_body]
pub struct ExJsonValue(serde_json::Value);

/// What a handler's `prepare` hook returns: the rewritten command together
/// with extra environment entries that override the request's.
pub struct PrepareResult {
    pub cmd: String,
    pub args: Vec<String>,
    pub env: Vec<(String, String)>,
}

/// Truncation metadata a handler may attach to a summary.
pub struct TruncationInfo {
    pub truncated: bool,
    pub reason: Option<String>,
    pub description: Option<String>,
}

/// What a handler's `summarize` hook returns. `summary == None` means the
/// handler is still buffering and nothing is emitted yet.
pub struct SummaryResult {
    pub summary: Option<String>,
    pub truncation: Option<TruncationInfo>,
}

/// The summary used when no handler is attached to an execution: the raw
/// stdout and stderr chunks, concatenated, are emitted as they are.
pub fn passthrough_summary(stdout: &str, stderr: &str) -> (r: SummaryResult)
    ensures
        r.summary matches Some(s) && s@ == stdout@ + stderr@,
        r.truncation is None,
{
    let mut s = stdout.to_owned();
    s.append(stderr);
    SummaryResult { summary: Some(s), truncation: None }
}

/// The JSON encoding of one string, as `serde_json` renders it.
pub uninterp spec fn json_of_str(s: Seq<char>) -> Seq<char>;

/// The JSON encoding of a list of strings, as `serde_json` renders it.
pub uninterp spec fn json_of_str_list(items: Seq<Seq<char>>) -> Seq<char>;

/// Relies on `serde_json::to_string` on a `&str`: the JSON string literal
/// for it, a function of the characters alone. Serializing a string slice
/// cannot fail.
#[verifier::external_body]
pub(crate) fn json_encode_str(s: &str) -> (r: String)
    ensures
        r@ == json_of_str(s@),
{
    serde_json::to_string(s).unwrap()
}

/// Relies on `serde_json::to_string` on a `&Vec<String>`: the JSON array of
/// string literals, a function of the items alone. Serializing string slices
/// cannot fail.
#[verifier::external_body]
pub(crate) fn json_encode_str_list(items: &Vec<String>) -> (r: String)
    ensures
        r@ == json_of_str_list(items.deep_view()),
{
    serde_json::to_string(items).unwrap()
}

/// The script that asks the loaded handler factory whether it intercepts the
/// command.
pub open spec fn spec_matches_script(cmd: Seq<char>, args: Seq<Seq<char>>) -> Seq<char> {
    "handler.matches("@ + json_of_str(cmd) + ", "@ + json_of_str_list(args) + ")"@
}

/// Builds the `matches` call script for the evaluator.
pub fn matches_script(cmd: &str, args: &Vec<String>) -> (r: String)
    ensures
        r@ == spec_matches_script(cmd@, args.deep_view()),
{
    let mut s = "handler.matches(".to_owned();
    let cmd_json = json_encode_str(cmd);
    s.append(cmd_json.as_str());
    s.append(", ");
    let args_json = json_encode_str_list(args);
    s.append(args_json.as_str());
    s.append(")");
    proof {
        assert(s@ =~= spec_matches_script(cmd@, args.deep_view()));
    }
    s
}

/// The script that instantiates the handler for one execution and binds it
/// to `globalThis.__handler`. The settings argument is already rendered as
/// JSON.
pub open spec fn spec_create_script(
    cmd: Seq<char>,
    args: Seq<Seq<char>>,
    settings_json: Seq<char>,
) -> Seq<char> {
    "globalThis.__handler = handler.create("@ + json_of_str(cmd) + ", "@ + json_of_str_list(args)
        + ", "@ + settings_json + ")"@
}

/// Builds the `create` call script for the evaluator.
pub fn create_script(cmd: &str, args: &Vec<String>, settings_json: &str) -> (r: String)
    ensures
        r@ == spec_create_script(cmd@, args.deep_view(), settings_json@),
{
    let mut s = "globalThis.__handler = handler.create(".to_owned();
    let cmd_json = json_encode_str(cmd);
    s.append(cmd_json.as_str());
    s.append(", ");
    let args_json = json_encode_str_list(args);
    s.append(args_json.as_str());
    s.append(", ");
    s.append(settings_json);
    s.append(")");
    proof {
        assert(s@ =~= spec_create_script(cmd@, args.deep_view(), settings_json@));
    }
    s
}

/// Builds the `prepare` call script: the handler's rewrite, JSON-encoded for
/// the reply channel.
pub fn prepare_script() -> (r: String)
    ensures
        r@ == "JSON.stringify(globalThis.__handler.prepare())"@,
{
    "JSON.stringify(globalThis.__handler.prepare())".to_owned()
}

/// The script for one `summarize` call: both chunks JSON-encoded, and the
/// exit code rendered as a decimal number, or `null` while the command still
/// runs.
pub open spec fn spec_summarize_script(
    stdout: Seq<char>,
    stderr: Seq<char>,
    exit_code: Option<i32>,
) -> Seq<char> {
    "JSON.stringify(globalThis.__handler.summarize("@ + json_of_str(stdout) + ", "@ + json_of_str(
        stderr,
    ) + ", "@ + (match exit_code {
        Some(c) => crate::text::spec_dec_int(c as int),
        None => "null"@,
    }) + "))"@
}

/// Builds the `summarize` call script for the evaluator.
pub fn summarize_script(stdout: &str, stderr: &str, exit_code: Option<i32>) -> (r: String)
    ensures
        r@ == spec_summarize_script(stdout@, stderr@, exit_code),
{
    let mut s = "JSON.stringify(globalThis.__handler.summarize(".to_owned();
    let stdout_json = json_encode_str(stdout);
    s.append(stdout_json.as_str());
    s.append(", ");
    let stderr_json = json_encode_str(stderr);
    s.append(stderr_json.as_str());
    s.append(", ");
    match exit_code {
        Some(c) => {
            let code = crate::text::i32_to_string(c);
            s.append(code.as_str());
        },
        None => s.append("null"),
    }
    s.append("))");
    proof {
        assert(s@ =~= spec_summarize_script(stdout@, stderr@, exit_code));
    }
    s
}

/// The uppercase form of an ASCII lowercase letter; any other character is
/// kept as it is.
pub open spec fn spec_ascii_upper(c: char) -> char {
    if 'a' <= c && c <= 'z' {
        ((c as u8) - 32) as char
    } else {
        c
    }
}

/// The lowerCamelCase form of a kebab-case name: hyphens are dropped and the
/// character after each hyphen is uppercased.
pub open spec fn spec_camel(s: Seq<char>, cap_next: bool) -> Seq<char>
    decreases s.len(),
{
    if s.len() == 0 {
        Seq::empty()
    } else if s[0] == '-' {
        spec_camel(s.drop_first(), true)
    } else if cap_next {
        seq![spec_ascii_upper(s[0])] + spec_camel(s.drop_first(), false)
    } else {
        seq![s[0]] + spec_camel(s.drop_first(), false)
    }
}

/// The export name a handler file must provide: the file stem, kebab-case
/// turned lowerCamelCase, with a `Handler` suffix.
pub open spec fn spec_handler_export_name(stem: Seq<char>) -> Seq<char> {
    spec_camel(stem, false) + "Handler"@
}

fn ascii_upper(c: char) -> (r: char)
    ensures
        r == spec_ascii_upper(c),
{
    if 'a' <= c && c <= 'z' {
        ((c as u8) - 32) as char
    } else {
        c
    }
}

/// Derives the handler export name from a file stem: `brazil-build` becomes
/// `brazilBuildHandler`.
pub fn handler_export_name(stem: &str) -> (r: String)
    ensures
        r@ == spec_handler_export_name(stem@),
{
    let mut s = String::new();
    let mut cap_next = false;
    let n = stem.unicode_len();
    proof {
        assert(stem@.skip(0) =~= stem@);
        assert(Seq::<char>::empty() + spec_camel(stem@, false) =~= spec_camel(stem@, false));
    }
    for i in 0..n
        invariant
            n == stem@.len(),
            spec_camel(stem@, false) == s@ + spec_camel(stem@.skip(i as int), cap_next),
    {
        let ghost rest = stem@.skip(i as int);
        let ghost s_before = s@;
        let c = stem.get_char(i);
        proof {
            assert(rest.drop_first() =~= stem@.skip(i + 1));
            assert(rest[0] == stem@[i as int]);
        }
        if c == '-' {
            cap_next = true;
        } else if cap_next {
            push_char(&mut s, ascii_upper(c));
            cap_next = false;
            proof {
                assert(s@ =~= s_before + seq![spec_ascii_upper(rest[0])]);
                assert(s_before + spec_camel(rest, true) =~= s@ + spec_camel(
                    rest.drop_first(),
                    false,
                ));
            }
        } else {
            push_char(&mut s, c);
            proof {
                assert(s@ =~= s_before + seq![rest[0]]);
                assert(s_before + spec_camel(rest, false) =~= s@ + spec_camel(
                    rest.drop_first(),
                    false,
                ));
            }
        }
    }
    proof {
        assert(stem@.skip(n as int) =~= Seq::<char>::empty());
        assert(s@ + Seq::<char>::empty() =~= s@);
    }
    s.append("Handler");
    s
}

/// The wrapper module the runtime evaluates to load a handler: it imports
/// the named factory export from the handler module and binds it to
/// `globalThis.handler`.
pub open spec fn spec_wrapper_module(specifier: Seq<char>, export_name: Seq<char>) -> Seq<char> {
    "import { "@ + export_name + " } from \""@ + specifier + "\";\nglobalThis.handler = "@
        + export_name + ";\n"@
}

/// Builds the wrapper module source for a handler module specifier and its
/// export name.
pub fn wrapper_module_source(specifier: &str, export_name: &str) -> (r: String)
    ensures
        r@ == spec_wrapper_module(specifier@, export_name@),
{
    let mut s = "import { ".to_owned();
    s.append(export_name);
    s.append(" } from \"");
    s.append(specifier);
    s.append("\";\nglobalThis.handler = ");
    s.append(export_name);
    s.append(";\n");
    proof {
        assert(s@ =~= spec_wrapper_module(specifier@, export_name@));
    }
    s
}

/// How the module loader treats a source file.
#[derive(Debug, Clone, Copy, PartialEq, Eq, Structural)]
pub enum ModuleKind {
    JavaScript,
    Json,
}

/// The loader's decision for a file extension: what module kind it yields
/// and whether the source is transpiled first. TypeScript and JSX sources
/// are transpiled; plain JavaScript and JSON pass through. An unknown
/// extension is refused.
pub fn module_plan_for_extension(ext: &str) -> (r: Option<(ModuleKind, bool)>)
    ensures
        (ext@ == "js"@ || ext@ == "mjs"@ || ext@ == "cjs"@) ==> r == Some(
            (ModuleKind::JavaScript, false),
        ),
        (ext@ == "jsx"@ || ext@ == "ts"@ || ext@ == "mts"@ || ext@ == "cts"@ || ext@ == "tsx"@)
            ==> r == Some((ModuleKind::JavaScript, true)),
        ext@ == "json"@ ==> r == Some((ModuleKind::Json, false)),
        !(ext@ == "js"@ || ext@ == "mjs"@ || ext@ == "cjs"@ || ext@ == "jsx"@ || ext@ == "ts"@
            || ext@ == "mts"@ || ext@ == "cts"@ || ext@ == "tsx"@ || ext@ == "json"@) ==> r
            is None,
{
    proof {
        broadcast use vstd::string::group_string_axioms;

        reveal_strlit("js");
        reveal_strlit("mjs");
        reveal_strlit("cjs");
        reveal_strlit("jsx");
        reveal_strlit("ts");
        reveal_strlit("mts");
        reveal_strlit("cts");
        reveal_strlit("tsx");
        reveal_strlit("json");
        assert("js"@.len() == 2 && "ts"@.len() == 2);
        assert("mjs"@.len() == 3 && "cjs"@.len() == 3 && "jsx"@.len() == 3);
        assert("mts"@.len() == 3 && "cts"@.len() == 3 && "tsx"@.len() == 3);
        assert("json"@.len() == 4);
        assert("js"@[0] == 'j' && "ts"@[0] == 't');
        assert("mjs"@[0] == 'm' && "cjs"@[0] == 'c' && "jsx"@[0] == 'j');
        assert("mts"@[0] == 'm' && "cts"@[0] == 'c' && "tsx"@[0] == 't');
        assert("mjs"@[1] == 'j' && "cjs"@[1] == 'j' && "mts"@[1] == 't' && "cts"@[1] == 't');
    }
    if str_eq(ext, "js") || str_eq(ext, "mjs") || str_eq(ext, "cjs") {
        Some((ModuleKind::JavaScript, false))
    } else if str_eq(ext, "jsx") || str_eq(ext, "ts") || str_eq(ext, "mts") || str_eq(ext, "cts")
        || str_eq(ext, "tsx") {
        Some((ModuleKind::JavaScript, true))
    } else if str_eq(ext, "json") {
        Some((ModuleKind::Json, false))
    } else {
        None
    }
}

} // verus!
