//! Handler locator: which script file answers for a command. The command's
//! first whitespace-delimited token names the handler; an overlay in the
//! user's home directory wins over one in the working directory, which wins
//! over a built-in. The filesystem probes happen in the embedding program;
//! the candidate paths and the order of resolution are fixed here.
use vstd::prelude::*;

verus! {

use vstd::string::StringExecFns;
use vstd::string::StrSliceExecFns;
use crate::text::{is_space, char_is_space, spec_first_non_space, lemma_first_non_space_scan,
    str_eq};

/// The locator's error: an empty command names no program.
#[derive(Debug, PartialEq, Eq)]
pub enum LocateError {
    EmptyCommand,
}

impl LocateError {
    /// The error's display text.
    pub fn message(&self) -> (r: String)
        ensures
            r@ == "Empty command"@,
    {
        "Empty command".to_owned()
    }
}

/// Where the command name's token ends: the first whitespace character at or
/// after `i`, or the end of the string.
pub open spec fn spec_token_end(s: Seq<char>, i: int) -> int
    decreases s.len() - i,
    when 0 <= i <= s.len()
{
    if i >= s.len() {
        i
    } else if is_space(s[i]) {
        i
    } else {
        spec_token_end(s, i + 1)
    }
}

/// The command name: the first whitespace-delimited token, or nothing when
/// the string is empty or all whitespace.
pub open spec fn spec_command_name(s: Seq<char>) -> Option<Seq<char>> {
    let b = spec_first_non_space(s);
    if b >= s.len() {
        None
    } else {
        Some(s.subrange(b, spec_token_end(s, b)))
    }
}

/// Extracts the command name from a command string.
pub fn command_name(command: &str) -> (r: Option<String>)
    ensures
        (match r {
            Some(name) => spec_command_name(command@) == Some(name@),
            None => spec_command_name(command@) is None,
        }),
{
    let len = command.unicode_len();
    let mut b: usize = 0;
    loop
        invariant
            len == command@.len(),
            b <= len,
            forall|k: int| 0 <= k < b ==> is_space(#[trigger] command@[k]),
        ensures
            b <= len,
            forall|k: int| 0 <= k < b ==> is_space(#[trigger] command@[k]),
            b == len || !is_space(command@[b as int]),
        decreases len - b,
    {
        if b >= len {
            break ;
        }
        if !char_is_space(command.get_char(b)) {
            break ;
        }
        b += 1;
    }
    proof {
        lemma_first_non_space_scan(command@, b as int);
    }
    if b >= len {
        return None;
    }
    let mut e: usize = b;
    loop
        invariant_except_break
            spec_token_end(command@, b as int) == spec_token_end(command@, e as int),
        invariant
            len == command@.len(),
            b <= e <= len,
        ensures
            b <= e <= len,
            e == spec_token_end(command@, b as int),
        decreases len - e,
    {
        if e >= len {
            break ;
        }
        if char_is_space(command.get_char(e)) {
            break ;
        }
        e += 1;
    }
    Some(command.substring_char(b, e).to_owned())
}

/// A resolved handler: either a script that already stands on disk, or a
/// built-in whose source must first be written to the path.
#[derive(Debug, Clone, PartialEq, Eq)]
pub enum HandlerChoice {
    Existing { path: String },
    Builtin { path: String },
}

/// Whether a built-in handler exists for the command name. The curated set
/// holds `cargo` alone.
pub fn has_builtin(cmd_name: &str) -> (r: bool)
    ensures
        r == (cmd_name@ == "cargo"@),
{
    str_eq(cmd_name, "cargo")
}

/// The handler file name for a command name: `{name}.ts`.
pub open spec fn spec_handler_filename(name: Seq<char>) -> Seq<char> {
    name + ".ts"@
}

/// The home overlay path: `{home}/.shelly/{name}.ts`.
pub open spec fn spec_home_handler_path(home: Seq<char>, name: Seq<char>) -> Seq<char> {
    home + "/.shelly/"@ + spec_handler_filename(name)
}

/// The working-directory overlay path: `.shelly/{name}.ts`.
pub open spec fn spec_cwd_handler_path(name: Seq<char>) -> Seq<char> {
    ".shelly/"@ + spec_handler_filename(name)
}

/// Where a built-in handler is materialized: `{temp_dir}/{name}.ts`. The
/// file keeps the command's own name so the evaluator's module specifier
/// reflects it.
pub open spec fn spec_builtin_handler_path(temp_dir: Seq<char>, name: Seq<char>) -> Seq<char> {
    temp_dir + "/"@ + spec_handler_filename(name)
}

/// The candidate paths for a command: what to probe, and in which order.
#[derive(Debug)]
pub struct HandlerSearch {
    /// The command name the handler is sought for.
    pub cmd_name: String,
    /// `{home}/.shelly/{name}.ts`, when a home directory is known.
    pub home_path: Option<String>,
    /// `.shelly/{name}.ts` under the working directory.
    pub cwd_path: String,
    /// Whether a built-in handler exists for the command.
    pub builtin: bool,
    /// Where the built-in would be materialized: `{temp_dir}/{name}.ts`.
    pub builtin_path: String,
}

/// Computes the candidate handler paths for a command. Fails exactly when
/// the command string holds no token.
pub fn handler_search(command: &str, home_dir: Option<&str>, temp_dir: &str) -> (r: Result<
    HandlerSearch,
    LocateError,
>)
    ensures
        r is Err <==> spec_command_name(command@) is None,
        r matches Ok(h) ==> ({
            let name = spec_command_name(command@)->Some_0;
            &&& h.cmd_name@ == name
            &&& (match (h.home_path, home_dir) {
                (Some(p), Some(d)) => p@ == spec_home_handler_path(d@, name),
                (None, None) => true,
                _ => false,
            })
            &&& h.cwd_path@ == spec_cwd_handler_path(name)
            &&& h.builtin == (name == "cargo"@)
            &&& h.builtin_path@ == spec_builtin_handler_path(temp_dir@, name)
        }),
{
    let name = match command_name(command) {
        Some(n) => n,
        None => {
            return Err(LocateError::EmptyCommand);
        },
    };
    let home_path = match home_dir {
        Some(d) => {
            let mut p = d.to_owned();
            p.append("/.shelly/");
            p.append(name.as_str());
            p.append(".ts");
            proof {
                assert(p@ =~= spec_home_handler_path(home_dir->Some_0@, name@));
            }
            Some(p)
        },
        None => None,
    };
    let mut cwd_path = ".shelly/".to_owned();
    cwd_path.append(name.as_str());
    cwd_path.append(".ts");
    let builtin = has_builtin(name.as_str());
    let mut builtin_path = temp_dir.to_owned();
    builtin_path.append("/");
    builtin_path.append(name.as_str());
    builtin_path.append(".ts");
    proof {
        assert(cwd_path@ =~= spec_cwd_handler_path(name@));
        assert(builtin_path@ =~= spec_builtin_handler_path(temp_dir@, name@));
    }
    Ok(HandlerSearch { cmd_name: name, home_path, cwd_path, builtin, builtin_path })
}

/// Resolves a handler for a command, first hit wins: the home overlay, then
/// the working-directory overlay, then a built-in. The two `exists` flags
/// say whether the respective candidate files stand on disk. Fails exactly
/// when the command string holds no token; resolves to nothing when no
/// candidate answers.
pub fn find_handler(
    command: &str,
    home_dir: Option<&str>,
    temp_dir: &str,
    home_exists: bool,
    cwd_exists: bool,
) -> (r: Result<Option<HandlerChoice>, LocateError>)
    ensures
        r is Err <==> spec_command_name(command@) is None,
        r matches Ok(choice) ==> ({
            let name = spec_command_name(command@)->Some_0;
            match choice {
                Some(HandlerChoice::Existing { path }) => (home_dir matches Some(d) && home_exists
                    && path@ == spec_home_handler_path(d@, name)) || (!(home_dir is Some
                    && home_exists) && cwd_exists && path@ == spec_cwd_handler_path(name)),
                Some(HandlerChoice::Builtin { path }) => !(home_dir is Some && home_exists)
                    && !cwd_exists && name == "cargo"@ && path@ == spec_builtin_handler_path(
                    temp_dir@,
                    name,
                ),
                None => !(home_dir is Some && home_exists) && !cwd_exists && name != "cargo"@,
            }
        }),
{
    let search = match handler_search(command, home_dir, temp_dir) {
        Ok(s) => s,
        Err(e) => {
            return Err(e);
        },
    };
    match search.home_path {
        Some(p) => {
            if home_exists {
                return Ok(Some(HandlerChoice::Existing { path: p }));
            }
        },
        None => (),
    }
    if cwd_exists {
        return Ok(Some(HandlerChoice::Existing { path: search.cwd_path }));
    }
    if search.builtin {
        return Ok(Some(HandlerChoice::Builtin { path: search.builtin_path }));
    }
    Ok(None)
}

} // verus!
