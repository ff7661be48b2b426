//! Output sink logic: how an output file is named for a command, the exact
//! text written to it on completion, and the staleness rule the cleanup scan
//! applies. The filesystem itself is driven by the embedding program; this
//! module fixes what is written and where.
use vstd::prelude::*;

verus! {

use vstd::string::StringExecFns;
use vstd::string::StrSliceExecFns;
use crate::text::{push_char, spec_dec_int, spec_dec_nat, i32_to_string, u64_to_string};

/// Output files older than this many seconds are removed by the cleanup scan.
pub const MAX_AGE_SECS: u64 = 86400;

/// How many leading characters of the command string the file name may use.
pub const SAFE_CMD_CHARS: usize = 20;

/// Characters the file name keeps from the command string.
pub open spec fn spec_is_safe_char(c: char) -> bool {
    ('a' <= c && c <= 'z') || ('A' <= c && c <= 'Z') || ('0' <= c && c <= '9') || c == '-' || c
        == '_'
}

/// The sanitized command prefix used in an output file name: the first
/// [`SAFE_CMD_CHARS`] characters, restricted to letters, digits, `-` and `_`.
pub open spec fn spec_safe_cmd(s: Seq<char>) -> Seq<char> {
    (if s.len() <= SAFE_CMD_CHARS {
        s
    } else {
        s.take(SAFE_CMD_CHARS as int)
    }).filter(|c: char| spec_is_safe_char(c))
}

fn is_safe_char(c: char) -> (r: bool)
    ensures
        r == spec_is_safe_char(c),
{
    ('a' <= c && c <= 'z') || ('A' <= c && c <= 'Z') || ('0' <= c && c <= '9') || c == '-' || c
        == '_'
}

/// The sanitized command prefix of an output file name.
pub fn safe_cmd_prefix(command: &str) -> (r: String)
    ensures
        r@ == spec_safe_cmd(command@),
{
    let len = command.unicode_len();
    let n = if len <= SAFE_CMD_CHARS {
        len
    } else {
        SAFE_CMD_CHARS
    };
    let ghost prefix: Seq<char> = if command@.len() <= SAFE_CMD_CHARS {
        command@
    } else {
        command@.take(SAFE_CMD_CHARS as int)
    };
    let mut s = String::new();
    for i in 0..n
        invariant
            n <= command@.len(),
            n == prefix.len(),
            prefix == (if command@.len() <= SAFE_CMD_CHARS {
                command@
            } else {
                command@.take(SAFE_CMD_CHARS as int)
            }),
            forall|k: int| 0 <= k < n ==> prefix[k] == command@[k],
            s@ == prefix.take(i as int).filter(|c: char| spec_is_safe_char(c)),
    {
        let c = command.get_char(i);
        if is_safe_char(c) {
            push_char(&mut s, c);
        }
        proof {
            reveal(Seq::filter);
            let pred = |c: char| spec_is_safe_char(c);
            assert(prefix.take(i + 1).drop_last() =~= prefix.take(i as int));
            assert(prefix.take(i + 1).last() == prefix[i as int]);
            assert(prefix[i as int] == command@[i as int]);
        }
    }
    proof {
        assert(prefix.take(n as int) =~= prefix);
    }
    s
}

/// The full path of a fresh output file: `{dir}/{safe_cmd}-{millis}.txt`.
/// The directory is chosen by the embedding program; the millisecond
/// timestamp makes the name unique under normal use.
pub fn create_output_file(dir: &str, command: &str, now_millis: u64) -> (r: String)
    ensures
        r@ == dir@ + "/"@ + spec_safe_cmd(command@) + "-"@ + spec_dec_nat(now_millis as nat)
            + ".txt"@,
{
    let mut s = dir.to_owned();
    s.append("/");
    let prefix = safe_cmd_prefix(command);
    s.append(prefix.as_str());
    s.append("-");
    let millis = u64_to_string(now_millis);
    s.append(millis.as_str());
    s.append(".txt");
    proof {
        assert(s@ =~= dir@ + "/"@ + spec_safe_cmd(command@) + "-"@ + spec_dec_nat(
            now_millis as nat,
        ) + ".txt"@);
    }
    s
}

/// The exact text an output file holds: an exit-code header, the captured
/// stdout, a delimiter, and the captured stderr.
pub open spec fn spec_output_content(stdout: Seq<char>, stderr: Seq<char>, exit_code: int) -> Seq<
    char,
> {
    "Exit Code: "@ + spec_dec_int(exit_code) + "\n\n=== STDOUT ===\n"@ + stdout
        + "\n\n=== STDERR ===\n"@ + stderr
}

/// Renders the text an output file holds for the captured streams and exit
/// code of one execution.
pub fn format_output(stdout: &str, stderr: &str, exit_code: i32) -> (r: String)
    ensures
        r@ == spec_output_content(stdout@, stderr@, exit_code as int),
{
    let mut s = "Exit Code: ".to_owned();
    let code = i32_to_string(exit_code);
    s.append(code.as_str());
    s.append("\n\n=== STDOUT ===\n");
    s.append(stdout);
    s.append("\n\n=== STDERR ===\n");
    s.append(stderr);
    proof {
        assert(s@ =~= spec_output_content(stdout@, stderr@, exit_code as int));
    }
    s
}

/// The staleness rule of the cleanup scan: a file is removed when its
/// modification time lies in the past by more than [`MAX_AGE_SECS`] seconds.
/// A modification time in the future never counts as stale.
pub fn file_expired(now_secs: u64, modified_secs: u64) -> (r: bool)
    ensures
        r == (modified_secs <= now_secs && now_secs - modified_secs > MAX_AGE_SECS),
{
    modified_secs <= now_secs && now_secs - modified_secs > MAX_AGE_SECS
}

} // verus!
