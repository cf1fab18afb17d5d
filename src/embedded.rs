//! The host side of the in-process script engine: resolving the paths that
//! policy code hands to the host's file primitives, building the call
//! expression of a batch entry point, and deciding each step of draining the
//! engine's job queue.

use vstd::prelude::*;
use vstd::string::{StrSliceExecFns, StringExecFns};

use crate::text::push_char;
use crate::types::{joined, strs};

verus! {

/// Declares `serde_json::Error`, the error of `serde_json::to_string`.
#[verifier::external_type_specification]
#[verifier::external_body]
pub struct ExJsonError(serde_json::Error);

/// A path that some platform could take as absolute: it starts with a
/// separator (`/`, or `\` for a UNC, verbatim or device prefix) or holds a
/// drive colon.
pub open spec fn may_be_absolute(path: Seq<char>) -> bool {
    path.len() > 0 && (path[0] == '/' || path[0] == '\\' || path.contains(':'))
}

/// Relies on `std::path::Path::is_absolute`. Which paths are absolute
/// depends on the platform: on Unix those that start at the root `/`; on
/// Windows those with a drive (`C:`) or a UNC, verbatim or device prefix,
/// all of which start with a separator. Only that necessary condition is
/// stated.
#[verifier::external_body]
fn is_absolute_path(path: &str) -> (r: bool)
    ensures
        r ==> may_be_absolute(path@),
{
    std::path::Path::new(path).is_absolute()
}

/// `s` without its trailing `/` characters.
pub open spec fn trim_trailing_slashes(s: Seq<char>) -> Seq<char>
    decreases s.len(),
{
    if s.len() > 0 && s.last() == '/' {
        trim_trailing_slashes(s.drop_last())
    } else {
        s
    }
}

/// `path` placed under `root`: the root without trailing slashes, one `/`,
/// then the path.
pub open spec fn under_root(root: Seq<char>, path: Seq<char>) -> Seq<char> {
    trim_trailing_slashes(root) + seq!['/'] + path
}

/// The path the host opens for `path`: an absolute path as it is, a
/// relative one under the repository root.
pub fn join_path(git_root: &str, path: &str, absolute: bool) -> (r: String)
    ensures
        r@ == if absolute {
            path@
        } else {
            under_root(git_root@, path@)
        },
{
    if absolute {
        return String::from_str(path);
    }
    let mut end = git_root.unicode_len();
    assert(git_root@.subrange(0, end as int) =~= git_root@);
    while end > 0 && git_root.get_char(end - 1) == '/'
        invariant
            end <= git_root@.len(),
            trim_trailing_slashes(git_root@.subrange(0, end as int)) == trim_trailing_slashes(
                git_root@,
            ),
        decreases end,
    {
        assert(git_root@.subrange(0, end as int).drop_last() =~= git_root@.subrange(
            0,
            end - 1,
        ));
        end = end - 1;
    }
    let mut out = String::from_str(git_root.substring_char(0, end));
    push_char(&mut out, '/');
    out.append(path);
    out
}

/// Resolves a path handed to a host file primitive against the repository
/// root; an absolute path passes through unchanged.
pub fn resolve_path(git_root: &str, path: &str) -> (r: String)
    ensures
        r@ == path@ || r@ == under_root(git_root@, path@),
        !may_be_absolute(path@) ==> r@ == under_root(git_root@, path@),
{
    let absolute = is_absolute_path(path);
    join_path(git_root, path, absolute)
}

/// The hexadecimal digit of `n` (below 16), lower case.
pub open spec fn hex_digit(n: int) -> char {
    if n < 10 {
        ((n + 48) as u8) as char
    } else {
        ((n - 10 + 97) as u8) as char
    }
}

/// One character inside a JSON string literal: quote, backslash and the
/// control characters are escaped, `\b \t \n \f \r` by name and the rest as
/// `\u00XX`.
pub open spec fn json_char(c: char) -> Seq<char> {
    if c == '"' {
        seq!['\\', '"']
    } else if c == '\\' {
        seq!['\\', '\\']
    } else if c == '\x08' {
        seq!['\\', 'b']
    } else if c == '\t' {
        seq!['\\', 't']
    } else if c == '\n' {
        seq!['\\', 'n']
    } else if c == '\x0c' {
        seq!['\\', 'f']
    } else if c == '\r' {
        seq!['\\', 'r']
    } else if (c as u32) < 0x20 {
        seq!['\\', 'u', '0', '0', hex_digit((c as int) / 16), hex_digit((c as int) % 16)]
    } else {
        seq![c]
    }
}

/// The escaped contents of a JSON string literal.
pub open spec fn json_escaped(s: Seq<char>) -> Seq<char>
    decreases s.len(),
{
    if s.len() == 0 {
        Seq::empty()
    } else {
        json_escaped(s.drop_last()) + json_char(s.last())
    }
}

/// A JSON string literal.
pub open spec fn json_quoted(s: Seq<char>) -> Seq<char> {
    seq!['"'] + json_escaped(s) + seq!['"']
}

/// The compact JSON text of an array of strings.
pub open spec fn json_string_array(items: Seq<Seq<char>>) -> Seq<char> {
    seq!['['] + joined(items.map_values(|s: Seq<char>| json_quoted(s)), seq![',']) + seq![']']
}

/// Relies on `serde_json::to_string` on a list of strings: a compact JSON
/// array of string literals, escaped as `serde_json`'s escape table does.
/// Strings serialize into an in-memory buffer, where nothing can fail.
#[verifier::external_body]
fn strings_to_json(files: &Vec<String>) -> (r: Result<String, serde_json::Error>)
    ensures
        r is Ok,
        r->Ok_0@ == json_string_array(strs(files@)),
{
    serde_json::to_string(files)
}

/// One character inside a single-quoted script string literal.
pub open spec fn js_char(c: char) -> Seq<char> {
    if c == '\\' {
        seq!['\\', '\\']
    } else if c == '\'' {
        seq!['\\', '\'']
    } else {
        seq![c]
    }
}

/// Text escaped for a single-quoted script string literal: backslashes are
/// doubled and single quotes get a backslash.
pub open spec fn js_escaped(s: Seq<char>) -> Seq<char>
    decreases s.len(),
{
    if s.len() == 0 {
        Seq::empty()
    } else {
        js_escaped(s.drop_last()) + js_char(s.last())
    }
}

/// Appends `s`, escaped for a single-quoted script string literal.
fn push_js_escaped(out: &mut String, s: &str)
    ensures
        final(out)@ == old(out)@ + js_escaped(s@),
{
    broadcast use vstd::string::group_string_axioms;

    let ghost start = out@;
    assert(s@.take(0) =~= Seq::<char>::empty());
    for c in it: s.chars()
        invariant
            it.seq() == s@,
            out@ == start + js_escaped(s@.take(it.index() as int)),
    {
        let ghost i = it.index();
        assert(s@.take(i + 1).drop_last() =~= s@.take(i as int));
        if c == '\\' {
            push_char(out, '\\');
            push_char(out, '\\');
        } else if c == '\'' {
            push_char(out, '\\');
            push_char(out, '\'');
        } else {
            push_char(out, c);
        }
        assert(out@ =~= start + js_escaped(s@.take(i + 1)));
    }
    assert(s@.take(s@.len() as int) =~= s@);
}

/// The decimal digits of `n`.
pub open spec fn decimal(n: nat) -> Seq<char>
    decreases n,
{
    if n < 10 {
        seq![((n + 48) as u8) as char]
    } else {
        decimal(n / 10) + seq![((n % 10 + 48) as u8) as char]
    }
}

/// Appends the decimal digits of `n`.
fn push_decimal(out: &mut String, n: usize)
    ensures
        final(out)@ == old(out)@ + decimal(n as nat),
    decreases n,
{
    if n >= 10 {
        push_decimal(out, n / 10);
    }
    let d = (n % 10) as u8;
    push_char(out, (d + 48) as char);
    assert(out@ =~= old(out)@ + decimal(n as nat));
}

/// The text a fix flag adds to a call: `, true`, `, false`, or nothing.
pub open spec fn flag_suffix(resolve: Option<bool>) -> Seq<char> {
    match resolve {
        Some(true) => seq![',', ' ', 't', 'r', 'u', 'e'],
        Some(false) => seq![',', ' ', 'f', 'a', 'l', 's', 'e'],
        None => Seq::empty(),
    }
}

/// The script expression that calls a batch entry point:
/// `name(id, 'files', 'root')`, with `, true` or `, false` before the
/// closing parenthesis when a fix flag is given.
pub open spec fn batch_call_source(
    fn_name: Seq<char>,
    policy_id: nat,
    files_json: Seq<char>,
    root: Seq<char>,
    resolve: Option<bool>,
) -> Seq<char> {
    fn_name + seq!['('] + decimal(policy_id) + seq![',', ' ', '\''] + js_escaped(files_json)
        + seq!['\'', ',', ' ', '\''] + js_escaped(root) + seq!['\''] + flag_suffix(resolve) + seq![
        ')',
    ]
}

/// Appends the text a fix flag adds to a call.
fn push_flag(out: &mut String, resolve: Option<bool>)
    ensures
        final(out)@ == old(out)@ + flag_suffix(resolve),
{
    match resolve {
        Some(b) => {
            push_char(out, ',');
            push_char(out, ' ');
            if b {
                push_char(out, 't');
                push_char(out, 'r');
                push_char(out, 'u');
                push_char(out, 'e');
            } else {
                push_char(out, 'f');
                push_char(out, 'a');
                push_char(out, 'l');
                push_char(out, 's');
                push_char(out, 'e');
            }
        },
        None => {},
    }
    assert(out@ =~= old(out)@ + flag_suffix(resolve));
}

/// Builds the call expression of a batch entry point.
pub fn batch_call_expression(
    fn_name: &str,
    policy_id: usize,
    files_json: &str,
    root: &str,
    resolve: Option<bool>,
) -> (r: String)
    ensures
        r@ == batch_call_source(fn_name@, policy_id as nat, files_json@, root@, resolve),
{
    let mut out = String::from_str(fn_name);
    push_char(&mut out, '(');
    push_decimal(&mut out, policy_id);
    push_char(&mut out, ',');
    push_char(&mut out, ' ');
    push_char(&mut out, '\'');
    let ghost a = out@;
    assert(a =~= fn_name@ + seq!['('] + decimal(policy_id as nat) + seq![',', ' ', '\'']);
    push_js_escaped(&mut out, files_json);
    push_char(&mut out, '\'');
    push_char(&mut out, ',');
    push_char(&mut out, ' ');
    push_char(&mut out, '\'');
    let ghost b = out@;
    assert(b =~= a + js_escaped(files_json@) + seq!['\'', ',', ' ', '\'']);
    push_js_escaped(&mut out, root);
    push_char(&mut out, '\'');
    push_flag(&mut out, resolve);
    push_char(&mut out, ')');
    assert(out@ =~= b + js_escaped(root@) + seq!['\''] + flag_suffix(resolve) + seq![')']);
    out
}

/// The number of queued jobs after which a batch call is abandoned.
pub const MAX_JOB_ITERATIONS: u32 = 500000;

/// The call expression of the handler batch entry point for `files`.
pub fn handler_batch_expression(policy_id: usize, files: &Vec<String>, root: &str, resolve: bool) -> (r:
    String)
    ensures
        r@ == batch_call_source(
            "__repopo_runHandlerBatchSync"@,
            policy_id as nat,
            json_string_array(strs(files@)),
            root@,
            Some(resolve),
        ),
{
    match strings_to_json(files) {
        Ok(json) => batch_call_expression(
            "__repopo_runHandlerBatchSync",
            policy_id,
            json.as_str(),
            root,
            Some(resolve),
        ),
        Err(_) => {
            assert(false);
            String::new()
        },
    }
}

/// The call expression of the resolver batch entry point for `files`; it
/// takes no fix flag.
pub fn resolver_batch_expression(policy_id: usize, files: &Vec<String>, root: &str) -> (r: String)
    ensures
        r@ == batch_call_source(
            "__repopo_runResolverBatchSync"@,
            policy_id as nat,
            json_string_array(strs(files@)),
            root@,
            None,
        ),
{
    match strings_to_json(files) {
        Ok(json) => batch_call_expression(
            "__repopo_runResolverBatchSync",
            policy_id,
            json.as_str(),
            root,
            None,
        ),
        Err(_) => {
            assert(false);
            String::new()
        },
    }
}

/// What to do after one attempt to run a queued job.
#[derive(Debug, Clone, Copy, PartialEq, Eq, Structural)]
pub enum DrainStep {
    /// Go on; this many jobs have been run or have thrown.
    Continue(u32),
    /// The queue is empty; this many jobs were run or threw.
    Finished(u32),
    /// The job ceiling is reached.
    LimitExceeded,
}

/// Decides how draining the engine's job queue goes on after a job
/// attempt, given as the engine reported it (`Ok(true)`: a job ran,
/// `Ok(false)`: the queue was empty, `Err`: the job threw). An empty queue
/// ends the drain; a job that ran or threw counts (a thrown job does not
/// stop the drain), and reaching `limit` jobs is fatal.
pub fn drain_step(outcome: Result<bool, ()>, done: u32, limit: u32) -> (r: DrainStep)
    requires
        done < limit,
    ensures
        outcome == Ok::<bool, ()>(false) ==> r == DrainStep::Finished(done),
        outcome != Ok::<bool, ()>(false) && done + 1 >= limit ==> r == DrainStep::LimitExceeded,
        outcome != Ok::<bool, ()>(false) && done + 1 < limit ==> r == DrainStep::Continue(
            (done + 1) as u32,
        ),
{
    match outcome {
        Ok(false) => DrainStep::Finished(done),
        _ => {
            let n = done + 1;
            if n >= limit {
                DrainStep::LimitExceeded
            } else {
                DrainStep::Continue(n)
            }
        },
    }
}

} // verus!
