//! The data model: policy metadata, handler outcomes, and the messages that
//! cross the boundary to an execution backend.

use vstd::prelude::*;

verus! {

/// Declares `serde_json::Value` so that envelopes can carry a payload
/// through verified code without looking inside it.
#[verifier::external_type_specification]
#[verifier::external_body]
pub struct ExJsonValue(serde_json::Value);

/// The text of each string in a sequence of strings.
pub open spec fn strs(v: Seq<String>) -> Seq<Seq<char>> {
    v.map_values(|s: String| s@)
}

/// Metadata about a policy, as supplied by the configuration loader.
/// The handler code itself lives with the execution backend.
#[derive(Debug, Clone)]
pub struct PolicyMeta {
    /// The name of the policy.
    pub name: String,
    /// A description of what the policy checks.
    pub description: String,
    /// The pattern (script regular-expression syntax, without delimiters)
    /// that selects the files this policy applies to.
    pub match_pattern: String,
    /// The pattern's flags (`i` for case-insensitive; others are ignored).
    pub match_flags: String,
    /// Whether the policy has a standalone resolver (auto-fix routine).
    pub has_resolver: bool,
    /// Per-policy exclusion patterns; always matched case-insensitively.
    pub exclude_files: Vec<String>,
}

/// The outcome of running a policy handler or resolver on one file.
#[derive(Debug, Clone)]
pub enum HandlerResult {
    /// The handler returned a boolean; only `true` is a pass.
    Pass(bool),
    /// The file failed; the details say whether a fix was attempted.
    Failure(PolicyErrorResult),
}

/// The details of a policy failure.
#[derive(Debug, Clone)]
pub struct PolicyErrorResult {
    /// The error message.
    pub error: Option<String>,
    /// Older handlers report a list of messages instead.
    pub error_messages: Option<Vec<String>>,
    /// Older single-file handlers repeat the policy name here.
    pub name: Option<String>,
    /// Older single-file handlers repeat the file path here.
    pub file: Option<String>,
    /// Whether the violation can be auto-fixed.
    pub fixable: Option<bool>,
    /// `Some(true)`: the handler fixed the file itself; `Some(false)`: a fix
    /// was attempted and failed; `None`: no fix was attempted.
    pub fixed: Option<bool>,
    /// Instructions for a manual fix.
    pub manual_fix: Option<String>,
}

/// The separator placed between legacy error messages.
pub open spec fn message_separator() -> Seq<char> {
    seq![';', ' ']
}

/// The parts, in order, with `sep` between neighbours.
pub open spec fn joined(parts: Seq<Seq<char>>, sep: Seq<char>) -> Seq<char>
    decreases parts.len(),
{
    if parts.len() == 0 {
        Seq::empty()
    } else if parts.len() == 1 {
        parts[0]
    } else {
        joined(parts.drop_last(), sep) + sep + parts.last()
    }
}

impl HandlerResult {
    /// The `fixed` flag of a failure; `None` for a pass.
    pub open spec fn fixed_flag(self) -> Option<bool> {
        match self {
            HandlerResult::Pass(_) => None,
            HandlerResult::Failure(e) => e.fixed,
        }
    }

    /// The `fixable` flag of a failure; `None` for a pass.
    pub open spec fn fixable_flag(self) -> Option<bool> {
        match self {
            HandlerResult::Pass(_) => None,
            HandlerResult::Failure(e) => e.fixable,
        }
    }

    /// The combined error message of a failure.
    pub open spec fn message(self) -> Option<Seq<char>> {
        match self {
            HandlerResult::Pass(_) => None,
            HandlerResult::Failure(e) => match e.error {
                Some(m) => Some(m@),
                None => match e.error_messages {
                    Some(ms) => if ms@.len() == 0 {
                        None
                    } else {
                        Some(joined(strs(ms@), message_separator()))
                    },
                    None => None,
                },
            },
        }
    }

    /// Returns true if the policy check passed.
    pub fn is_pass(&self) -> (r: bool)
        ensures
            r == (*self == HandlerResult::Pass(true)),
    {
        match self {
            HandlerResult::Pass(b) => *b,
            HandlerResult::Failure(_) => false,
        }
    }

    /// Returns true if an auto-fix was attempted and succeeded.
    pub fn is_fixed(&self) -> (r: bool)
        ensures
            r == (self.fixed_flag() == Some(true)),
    {
        match self {
            HandlerResult::Failure(err) => match err.fixed {
                Some(b) => b,
                None => false,
            },
            HandlerResult::Pass(_) => false,
        }
    }

    /// Returns true if an auto-fix was attempted but failed.
    pub fn is_fix_failed(&self) -> (r: bool)
        ensures
            r == (self.fixed_flag() == Some(false)),
    {
        match self {
            HandlerResult::Failure(err) => match err.fixed {
                Some(b) => !b,
                None => false,
            },
            HandlerResult::Pass(_) => false,
        }
    }

    /// Returns true if the violation is advertised as auto-fixable.
    pub fn is_fixable(&self) -> (r: bool)
        ensures
            r == (self.fixable_flag() == Some(true)),
    {
        match self {
            HandlerResult::Failure(err) => match err.fixable {
                Some(b) => b,
                None => false,
            },
            HandlerResult::Pass(_) => false,
        }
    }

    /// The error message of a failure: its `error` if present, else its
    /// legacy messages joined by `"; "`, else nothing.
    pub fn error_message(&self) -> (r: Option<String>)
        ensures
            r is Some == self.message() is Some,
            r is Some ==> r->0@ == self.message()->0,
    {
        match self {
            HandlerResult::Pass(_) => None,
            HandlerResult::Failure(err) => {
                match &err.error {
                    Some(msg) => Some(msg.clone()),
                    None => match &err.error_messages {
                        Some(msgs) => {
                            if msgs.len() == 0 {
                                None
                            } else {
                                Some(join_messages(msgs))
                            }
                        },
                        None => None,
                    },
                }
            },
        }
    }

    /// The manual-fix instructions of a failure.
    pub fn manual_fix(&self) -> (r: Option<&str>)
        ensures
            r is Some <==> (self matches HandlerResult::Failure(e) && e.manual_fix is Some),
            r is Some ==> (self matches HandlerResult::Failure(e) && r->0@
                == e.manual_fix->0@),
    {
        match self {
            HandlerResult::Failure(err) => match &err.manual_fix {
                Some(m) => Some(m.as_str()),
                None => None,
            },
            HandlerResult::Pass(_) => None,
        }
    }
}

/// Joins a non-empty list of messages with `"; "`.
fn join_messages(msgs: &Vec<String>) -> (r: String)
    requires
        msgs@.len() > 0,
    ensures
        r@ == joined(strs(msgs@), message_separator()),
{
    let sep = "; ";
    proof {
        reveal_strlit("; ");
    }
    let mut acc = msgs[0].clone();
    let mut i: usize = 1;
    assert(strs(msgs@).take(1) =~= seq![msgs@[0]@]);
    while i < msgs.len()
        invariant
            1 <= i <= msgs@.len(),
            sep@ == message_separator(),
            acc@ == joined(strs(msgs@).take(i as int), message_separator()),
        decreases msgs@.len() - i,
    {
        assert(strs(msgs@).take(i as int + 1).drop_last() =~= strs(msgs@).take(i as int));
        acc.append(sep);
        acc.append(msgs[i].as_str());
        i = i + 1;
    }
    assert(strs(msgs@).take(msgs@.len() as int) =~= strs(msgs@));
    acc
}

/// A request sent to the out-of-process backend.
#[derive(Debug)]
pub enum IpcRequest {
    /// Load the configuration and return the policy metadata.
    LoadConfig(LoadConfigParams),
    /// Run one policy handler on one file.
    RunHandler(RunHandlerParams),
    /// Run one policy resolver on one file.
    RunResolver(RunResolverParams),
    /// Run one policy handler on a batch of files.
    RunHandlerBatch(RunHandlerBatchParams),
    /// Run one policy resolver on a batch of files.
    RunResolverBatch(RunResolverBatchParams),
    /// Shut the backend down.
    Shutdown,
}

/// Parameters of `load_config`.
#[derive(Debug)]
pub struct LoadConfigParams {
    /// Path to the configuration file, if not the default.
    pub config_path: Option<String>,
    /// Absolute path of the repository root.
    pub git_root: String,
}

/// Parameters of `run_handler`.
#[derive(Debug)]
pub struct RunHandlerParams {
    /// Name of the policy to run.
    pub policy_name: String,
    /// Repository-relative path of the file.
    pub file: String,
    /// Absolute path of the repository root.
    pub root: String,
    /// Whether the handler may fix the file itself.
    pub resolve: bool,
}

/// Parameters of `run_resolver`.
#[derive(Debug)]
pub struct RunResolverParams {
    /// Name of the policy whose resolver runs.
    pub policy_name: String,
    /// Repository-relative path of the file.
    pub file: String,
    /// Absolute path of the repository root.
    pub root: String,
}

/// Parameters of `run_handler_batch`.
#[derive(Debug)]
pub struct RunHandlerBatchParams {
    /// Index of the policy in load order.
    pub policy_id: usize,
    /// Repository-relative paths of the files.
    pub files: Vec<String>,
    /// Whether the handler may fix files itself.
    pub resolve: bool,
}

/// Parameters of `run_resolver_batch`.
#[derive(Debug)]
pub struct RunResolverBatchParams {
    /// Index of the policy in load order.
    pub policy_id: usize,
    /// Repository-relative paths of the files.
    pub files: Vec<String>,
}

/// One result of the older, per-item batch response.
#[derive(Debug)]
pub struct BatchResultItem {
    /// The file this result belongs to.
    pub file: String,
    /// The handler or resolver result, undecoded.
    pub data: serde_json::Value,
}

/// The older, per-item batch response.
#[derive(Debug)]
pub struct BatchResponse {
    /// One result per file.
    pub results: Vec<BatchResultItem>,
}

/// A failing file in a compact batch response.
#[derive(Debug, Clone)]
pub struct CompactBatchFailureItem {
    /// The file that failed.
    pub file: String,
    /// The error message.
    pub error: Option<String>,
    /// Legacy list of error messages.
    pub error_messages: Option<Vec<String>>,
    /// Whether the violation can be auto-fixed.
    pub fixable: Option<bool>,
    /// Whether the violation was fixed.
    pub fixed: Option<bool>,
    /// Instructions for a manual fix.
    pub manual_fix: Option<String>,
}

/// A compact batch response: passing files by name, failures with detail.
#[derive(Debug, Clone)]
pub struct CompactBatchResponse {
    /// Files that passed.
    pub pass: Vec<String>,
    /// Files that failed, with their details.
    pub fail: Vec<CompactBatchFailureItem>,
}

/// The response envelope of the out-of-process backend.
#[derive(Debug)]
pub struct IpcResponse {
    /// Whether the request succeeded.
    pub ok: bool,
    /// The error message of a failed request.
    pub error: Option<String>,
    /// The payload.
    pub data: Option<serde_json::Value>,
}

/// The configuration: policies in load order and the global exclusions.
#[derive(Debug, Clone)]
pub struct LoadConfigResponse {
    /// Metadata of every configured policy; the index is the policy's id.
    pub policies: Vec<PolicyMeta>,
    /// Global exclusion patterns; always matched case-insensitively.
    pub exclude_files: Vec<String>,
}

/// The failure that a compact failure item stands for.
pub open spec fn failure_of(item: CompactBatchFailureItem) -> PolicyErrorResult {
    PolicyErrorResult {
        error: item.error,
        error_messages: item.error_messages,
        name: None,
        file: None,
        fixable: item.fixable,
        fixed: item.fixed,
        manual_fix: item.manual_fix,
    }
}

/// The per-file results that a compact response stands for: the passing
/// files first, then the failures, each list in its own order.
pub open spec fn expanded(pass: Seq<String>, fail: Seq<CompactBatchFailureItem>) -> Seq<
    (String, HandlerResult),
> {
    pass.map_values(|f: String| (f, HandlerResult::Pass(true))) + fail.map_values(
        |it: CompactBatchFailureItem| (it.file, HandlerResult::Failure(failure_of(it))),
    )
}

/// Expands a compact batch response into one `(file, result)` pair per file.
pub fn expand_compact_response(batch: CompactBatchResponse) -> (r: Vec<(String, HandlerResult)>)
    ensures
        r@ == expanded(batch.pass@, batch.fail@),
{
    let ghost pass = batch.pass@;
    let ghost fail = batch.fail@;
    let mut results: Vec<(String, HandlerResult)> = Vec::new();
    for file in it: batch.pass
        invariant
            pass == it.seq(),
            results@ == pass.take(it.index() as int).map_values(
                |f: String| (f, HandlerResult::Pass(true)),
            ),
    {
        assert(pass.take(it.index() as int + 1) =~= pass.take(it.index() as int).push(file));
        results.push((file, HandlerResult::Pass(true)));
    }
    assert(pass.take(pass.len() as int) =~= pass);
    let ghost n = results@.len();
    for item in it: batch.fail
        invariant
            fail == it.seq(),
            results@ == pass.map_values(|f: String| (f, HandlerResult::Pass(true)))
                + fail.take(it.index() as int).map_values(
                |it: CompactBatchFailureItem| (it.file, HandlerResult::Failure(failure_of(it))),
            ),
    {
        assert(fail.take(it.index() as int + 1) =~= fail.take(it.index() as int).push(item));
        let CompactBatchFailureItem { file, error, error_messages, fixable, fixed, manual_fix } =
            item;
        results.push(
            (
                file,
                HandlerResult::Failure(
                    PolicyErrorResult {
                        error,
                        error_messages,
                        name: None,
                        file: None,
                        fixable,
                        fixed,
                        manual_fix,
                    },
                ),
            ),
        );
    }
    assert(fail.take(fail.len() as int) =~= fail);
    results
}

/// The compact failure item that a failing file's details stand for.
pub open spec fn failure_item(file: String, e: PolicyErrorResult) -> CompactBatchFailureItem {
    CompactBatchFailureItem {
        file,
        error: e.error,
        error_messages: e.error_messages,
        fixable: e.fixable,
        fixed: e.fixed,
        manual_fix: e.manual_fix,
    }
}

/// The passing files of a list of per-file results, in order.
pub open spec fn passed_files(rs: Seq<(String, HandlerResult)>) -> Seq<String>
    decreases rs.len(),
{
    if rs.len() == 0 {
        Seq::empty()
    } else {
        let prev = passed_files(rs.drop_last());
        if rs.last().1 == HandlerResult::Pass(true) {
            prev.push(rs.last().0)
        } else {
            prev
        }
    }
}

/// The failures of a list of per-file results as compact items, in order.
pub open spec fn failure_items(rs: Seq<(String, HandlerResult)>) -> Seq<CompactBatchFailureItem>
    decreases rs.len(),
{
    if rs.len() == 0 {
        Seq::empty()
    } else {
        let prev = failure_items(rs.drop_last());
        match rs.last().1 {
            HandlerResult::Failure(e) => prev.push(failure_item(rs.last().0, e)),
            HandlerResult::Pass(_) => prev,
        }
    }
}

proof fn lemma_compact_append(a: Seq<(String, HandlerResult)>, b: Seq<(String, HandlerResult)>)
    ensures
        passed_files(a + b) == passed_files(a) + passed_files(b),
        failure_items(a + b) == failure_items(a) + failure_items(b),
    decreases b.len(),
{
    if b.len() == 0 {
        assert(a + b =~= a);
        assert(passed_files(a) + passed_files(b) =~= passed_files(a));
        assert(failure_items(a) + failure_items(b) =~= failure_items(a));
    } else {
        lemma_compact_append(a, b.drop_last());
        assert((a + b).drop_last() =~= a + b.drop_last());
        assert((a + b).last() == b.last());
        assert(passed_files(a) + passed_files(b.drop_last()).push(b.last().0) =~= (passed_files(
            a,
        ) + passed_files(b.drop_last())).push(b.last().0));
        match b.last().1 {
            HandlerResult::Failure(e) => {
                assert(failure_items(a) + failure_items(b.drop_last()).push(
                    failure_item(b.last().0, e),
                ) =~= (failure_items(a) + failure_items(b.drop_last())).push(
                    failure_item(b.last().0, e),
                ));
            },
            HandlerResult::Pass(_) => {},
        }
    }
}

proof fn lemma_compact_of_passes(pass: Seq<String>)
    ensures
        passed_files(pass.map_values(|f: String| (f, HandlerResult::Pass(true)))) == pass,
        failure_items(pass.map_values(|f: String| (f, HandlerResult::Pass(true)))) == Seq::<
            CompactBatchFailureItem,
        >::empty(),
    decreases pass.len(),
{
    let rs = pass.map_values(|f: String| (f, HandlerResult::Pass(true)));
    if pass.len() == 0 {
        assert(rs =~= Seq::empty());
    } else {
        lemma_compact_of_passes(pass.drop_last());
        assert(rs.drop_last() =~= pass.drop_last().map_values(
            |f: String| (f, HandlerResult::Pass(true)),
        ));
        assert(pass.drop_last().push(pass.last()) =~= pass);
    }
}

proof fn lemma_compact_of_failures(fail: Seq<CompactBatchFailureItem>)
    ensures
        passed_files(
            fail.map_values(
                |it: CompactBatchFailureItem| (it.file, HandlerResult::Failure(failure_of(it))),
            ),
        ) == Seq::<String>::empty(),
        failure_items(
            fail.map_values(
                |it: CompactBatchFailureItem| (it.file, HandlerResult::Failure(failure_of(it))),
            ),
        ) == fail,
    decreases fail.len(),
{
    let rs = fail.map_values(
        |it: CompactBatchFailureItem| (it.file, HandlerResult::Failure(failure_of(it))),
    );
    if fail.len() == 0 {
        assert(rs =~= Seq::empty());
    } else {
        lemma_compact_of_failures(fail.drop_last());
        assert(rs.drop_last() =~= fail.drop_last().map_values(
            |it: CompactBatchFailureItem| (it.file, HandlerResult::Failure(failure_of(it))),
        ));
        assert(failure_item(fail.last().file, failure_of(fail.last())) == fail.last());
        assert(fail.drop_last().push(fail.last()) =~= fail);
    }
}

/// Expanding a compact batch response and compacting the per-file results
/// again gives back the same passing files and the same failure items, with
/// every error field of each failing file unchanged.
pub proof fn lemma_compact_round_trip(batch: CompactBatchResponse)
    ensures
        passed_files(expanded(batch.pass@, batch.fail@)) == batch.pass@,
        failure_items(expanded(batch.pass@, batch.fail@)) == batch.fail@,
{
    let a = batch.pass@.map_values(|f: String| (f, HandlerResult::Pass(true)));
    let b = batch.fail@.map_values(
        |it: CompactBatchFailureItem| (it.file, HandlerResult::Failure(failure_of(it))),
    );
    lemma_compact_append(a, b);
    lemma_compact_of_passes(batch.pass@);
    lemma_compact_of_failures(batch.fail@);
    assert(batch.pass@ + Seq::<String>::empty() =~= batch.pass@);
    assert(Seq::<CompactBatchFailureItem>::empty() + batch.fail@ =~= batch.fail@);
}

} // verus!
