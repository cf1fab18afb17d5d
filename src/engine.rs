//! The check orchestrator: compiles the policies, selects each policy's
//! files, and drives one handler batch (and at most one resolver batch) per
//! policy, classifying every result.

use vstd::prelude::*;

use crate::pattern::{
    Matcher, PatternError, case_insensitive, compile_js_regex, matcher_is_match, regex_compiles,
    regex_is_match, regex_source,
};
use crate::stats::{PerfStats, add_time};
use crate::types::{HandlerResult, LoadConfigResponse, PolicyMeta, strs};

verus! {

/// The case-insensitive sources of a list of exclusion patterns.
pub open spec fn ci_sources(patterns: Seq<Seq<char>>) -> Seq<Seq<char>> {
    patterns.map_values(|p: Seq<char>| case_insensitive(p))
}

/// The sources of a list of matchers.
pub open spec fn sources(ms: Seq<Matcher>) -> Seq<Seq<char>> {
    ms.map_values(|m: Matcher| m@)
}

/// Some regex among `srcs` matches `f`.
pub open spec fn any_matches(srcs: Seq<Seq<char>>, f: Seq<char>) -> bool {
    exists|j: int| 0 <= j < srcs.len() && #[trigger] regex_is_match(srcs[j], f)
}

/// Some exclusion pattern (matched case-insensitively) matches `f`.
pub open spec fn excluded_by(patterns: Seq<Seq<char>>, f: Seq<char>) -> bool {
    any_matches(ci_sources(patterns), f)
}

/// A file takes part in the run: its path is not empty and no global
/// exclusion matches it.
pub open spec fn is_eligible(global_sources: Seq<Seq<char>>, f: Seq<char>) -> bool {
    f.len() > 0 && !any_matches(global_sources, f)
}

/// The eligible files, in input order.
pub open spec fn eligible_files(files: Seq<Seq<char>>, global_sources: Seq<Seq<char>>) -> Seq<
    Seq<char>,
> {
    files.filter(|f: Seq<char>| is_eligible(global_sources, f))
}

/// A policy selects a file: its pattern matches and none of its own
/// exclusions does.
pub open spec fn selects(match_source: Seq<char>, exclude_sources: Seq<Seq<char>>, f: Seq<char>) -> bool {
    regex_is_match(match_source, f) && !any_matches(exclude_sources, f)
}

/// The files a policy selects among the eligible ones, in order.
pub open spec fn matching_subset(
    match_source: Seq<char>,
    exclude_sources: Seq<Seq<char>>,
    eligible: Seq<Seq<char>>,
) -> Seq<Seq<char>> {
    eligible.filter(|f: Seq<char>| selects(match_source, exclude_sources, f))
}

/// The regex source of a policy's own pattern.
pub open spec fn meta_match_source(meta: PolicyMeta) -> Seq<char> {
    regex_source(meta.match_pattern@, meta.match_flags@)
}

/// The regex sources of a policy's exclusions.
pub open spec fn meta_exclude_sources(meta: PolicyMeta) -> Seq<Seq<char>> {
    ci_sources(strs(meta.exclude_files@))
}

/// The regex sources of the global exclusions.
pub open spec fn global_sources(config: LoadConfigResponse) -> Seq<Seq<char>> {
    ci_sources(strs(config.exclude_files@))
}

/// The files of `files` that the policy `meta` is run on.
pub open spec fn policy_files(
    config: LoadConfigResponse,
    meta: PolicyMeta,
    files: Seq<Seq<char>>,
) -> Seq<Seq<char>> {
    matching_subset(
        meta_match_source(meta),
        meta_exclude_sources(meta),
        eligible_files(files, global_sources(config)),
    )
}

/// Every exclusion pattern compiles.
pub open spec fn excludes_compile(patterns: Seq<Seq<char>>) -> bool {
    forall|j: int| 0 <= j < patterns.len() ==> regex_compiles(#[trigger] case_insensitive(patterns[j]))
}

/// A policy's pattern and its exclusions compile.
pub open spec fn policy_compiles(meta: PolicyMeta) -> bool {
    regex_compiles(meta_match_source(meta)) && excludes_compile(strs(meta.exclude_files@))
}

/// Every pattern of the configuration compiles.
pub open spec fn config_compiles(config: LoadConfigResponse) -> bool {
    &&& forall|i: int|
        0 <= i < config.policies@.len() ==> #[trigger] policy_compiles(config.policies@[i])
    &&& excludes_compile(strs(config.exclude_files@))
}

/// A pattern of the configuration that fails to compile.
#[derive(Debug, Clone)]
pub enum CompileError {
    /// A policy's own pattern.
    MatchPattern { policy: String, error: PatternError },
    /// One of a policy's exclusion patterns.
    ExcludePattern { policy: String, error: PatternError },
    /// One of the global exclusion patterns.
    GlobalExclude { error: PatternError },
}

/// `j` is the first of `patterns` that does not compile case-insensitively.
pub open spec fn first_failing_exclude(patterns: Seq<Seq<char>>, j: int) -> bool {
    &&& 0 <= j < patterns.len()
    &&& forall|m: int| 0 <= m < j ==> regex_compiles(#[trigger] case_insensitive(patterns[m]))
    &&& !regex_compiles(case_insensitive(patterns[j]))
}

/// Every policy before `k` compiles.
pub open spec fn policies_before_compile(config: LoadConfigResponse, k: int) -> bool {
    forall|i: int| 0 <= i < k ==> #[trigger] policy_compiles(config.policies@[i])
}

/// The error names the first pattern, in compilation order, that does not
/// compile: each policy's own pattern, then its exclusions, policy by policy,
/// then the global exclusions. A policy error names the policy; a global
/// error comes only when every policy compiles.
pub open spec fn names_first_failure(config: LoadConfigResponse, e: CompileError) -> bool {
    match e {
        CompileError::MatchPattern { policy, error } => exists|k: int|
            #![trigger config.policies@[k]]
            0 <= k < config.policies@.len() && policies_before_compile(config, k)
                && config.policies@[k].name@ == policy@ && error.pattern@
                == config.policies@[k].match_pattern@ && error.flags@
                == config.policies@[k].match_flags@ && !regex_compiles(
                meta_match_source(config.policies@[k]),
            ),
        CompileError::ExcludePattern { policy, error } => exists|k: int, j: int|
            #![trigger config.policies@[k], strs(config.policies@[k].exclude_files@)[j]]
            0 <= k < config.policies@.len() && policies_before_compile(config, k)
                && regex_compiles(meta_match_source(config.policies@[k]))
                && first_failing_exclude(strs(config.policies@[k].exclude_files@), j)
                && config.policies@[k].name@ == policy@ && error.pattern@ == strs(
                config.policies@[k].exclude_files@,
            )[j],
        CompileError::GlobalExclude { error } => {
            &&& policies_before_compile(config, config.policies@.len() as int)
            &&& exists|j: int|
                #![trigger strs(config.exclude_files@)[j]]
                first_failing_exclude(strs(config.exclude_files@), j) && error.pattern@ == strs(
                    config.exclude_files@,
                )[j]
        },
    }
}

/// A policy ready for matching.
pub struct CompiledPolicy {
    /// The policy's name.
    pub name: String,
    /// Whether the policy has a standalone resolver.
    pub has_resolver: bool,
    /// The matcher of the policy's own pattern.
    pub matcher: Matcher,
    /// The matchers of the policy's exclusions.
    pub excludes: Vec<Matcher>,
}

impl CompiledPolicy {
    /// This policy was compiled from `meta`.
    pub open spec fn compiled_from(&self, meta: PolicyMeta) -> bool {
        &&& self.name@ == meta.name@
        &&& self.has_resolver == meta.has_resolver
        &&& self.matcher@ == meta_match_source(meta)
        &&& sources(self.excludes@) == meta_exclude_sources(meta)
    }

    /// The files among `eligible` that this policy selects.
    pub open spec fn subset_of(&self, eligible: Seq<Seq<char>>) -> Seq<Seq<char>> {
        matching_subset(self.matcher@, sources(self.excludes@), eligible)
    }

    /// Whether this policy selects `file`.
    pub fn selects(&self, file: &str) -> (r: bool)
        ensures
            r == selects(self.matcher@, sources(self.excludes@), file@),
    {
        matcher_is_match(&self.matcher, file) && !any_match(&self.excludes, file)
    }
}

/// Whether some matcher matches `f`.
fn any_match(ms: &Vec<Matcher>, f: &str) -> (r: bool)
    ensures
        r == any_matches(sources(ms@), f@),
{
    let mut j: usize = 0;
    while j < ms.len()
        invariant
            j <= ms@.len(),
            forall|k: int| 0 <= k < j ==> !regex_is_match(#[trigger] sources(ms@)[k], f@),
        decreases ms@.len() - j,
    {
        if matcher_is_match(&ms[j], f) {
            assert(regex_is_match(sources(ms@)[j as int], f@));
            return true;
        }
        j = j + 1;
    }
    false
}

/// Compiles exclusion patterns, always case-insensitively.
fn compile_excludes(patterns: &Vec<String>) -> (r: Result<Vec<Matcher>, PatternError>)
    ensures
        r is Ok <==> excludes_compile(strs(patterns@)),
        r is Ok ==> sources(r->Ok_0@) == ci_sources(strs(patterns@)),
        r is Err ==> exists|j: int|
            #![trigger strs(patterns@)[j]]
            first_failing_exclude(strs(patterns@), j) && r->Err_0.pattern@ == strs(patterns@)[j],
{
    let flags = "i";
    proof {
        reveal_strlit("i");
        assert(flags@[0] == 'i');
        assert(flags@.contains('i'));
    }
    let mut out: Vec<Matcher> = Vec::new();
    let mut j: usize = 0;
    while j < patterns.len()
        invariant
            j <= patterns@.len(),
            flags@.contains('i'),
            sources(out@) == ci_sources(strs(patterns@)).take(j as int),
            forall|k: int| 0 <= k < j ==> regex_compiles(#[trigger] case_insensitive(strs(patterns@)[k])),
        decreases patterns@.len() - j,
    {
        assert(strs(patterns@)[j as int] == patterns@[j as int]@);
        match compile_js_regex(patterns[j].as_str(), flags) {
            Ok(m) => {
                let ghost before = out@;
                let ghost src = m@;
                assert(src == case_insensitive(patterns@[j as int]@));
                out.push(m);
                assert(sources(out@) =~= sources(before).push(src));
                assert(sources(out@) =~= ci_sources(strs(patterns@)).take(j + 1));
            },
            Err(e) => {
                assert(!regex_compiles(case_insensitive(strs(patterns@)[j as int])));
                assert(first_failing_exclude(strs(patterns@), j as int));
                return Err(e);
            },
        }
        j = j + 1;
    }
    assert(ci_sources(strs(patterns@)).take(j as int) =~= ci_sources(strs(patterns@)));
    Ok(out)
}

/// Compiles every policy and the global exclusions; the first pattern that
/// fails stops the compilation.
pub fn compile_policies(config: &LoadConfigResponse) -> (r: Result<
    (Vec<CompiledPolicy>, Vec<Matcher>),
    CompileError,
>)
    ensures
        r is Ok <==> config_compiles(*config),
        r is Ok ==> {
            let (ps, gs) = r->Ok_0;
            &&& ps@.len() == config.policies@.len()
            &&& forall|i: int|
                0 <= i < ps@.len() ==> #[trigger] ps@[i].compiled_from(config.policies@[i])
            &&& sources(gs@) == global_sources(*config)
        },
        r is Err ==> names_first_failure(*config, r->Err_0),
{
    let mut compiled: Vec<CompiledPolicy> = Vec::new();
    let mut i: usize = 0;
    while i < config.policies.len()
        invariant
            i <= config.policies@.len(),
            compiled@.len() == i,
            forall|k: int| 0 <= k < i ==> #[trigger] compiled@[k].compiled_from(config.policies@[k]),
            forall|k: int| 0 <= k < i ==> #[trigger] policy_compiles(config.policies@[k]),
        decreases config.policies@.len() - i,
    {
        let meta = &config.policies[i];
        let matcher = match compile_js_regex(meta.match_pattern.as_str(), meta.match_flags.as_str()) {
            Ok(m) => m,
            Err(error) => {
                let e = CompileError::MatchPattern { policy: meta.name.clone(), error };
                assert(config.policies@[i as int].name@ == meta.name@);
                assert(!policy_compiles(config.policies@[i as int]));
                return Err(e);
            },
        };
        let excludes = match compile_excludes(&meta.exclude_files) {
            Ok(ms) => ms,
            Err(error) => {
                let e = CompileError::ExcludePattern { policy: meta.name.clone(), error };
                assert(config.policies@[i as int].name@ == meta.name@);
                assert(!policy_compiles(config.policies@[i as int]));
                return Err(e);
            },
        };
        compiled.push(
            CompiledPolicy { name: meta.name.clone(), has_resolver: meta.has_resolver, matcher, excludes },
        );
        i = i + 1;
    }
    match compile_excludes(&config.exclude_files) {
        Ok(globals) => Ok((compiled, globals)),
        Err(error) => Err(CompileError::GlobalExclude { error }),
    }
}

/// The eligible files among `files`, in order.
pub fn filter_eligible(files: &Vec<String>, global: &Vec<Matcher>) -> (r: Vec<String>)
    ensures
        strs(r@) == eligible_files(strs(files@), sources(global@)),
{
    let ghost fs = strs(files@);
    let ghost gs = sources(global@);
    let mut out: Vec<String> = Vec::new();
    let mut i: usize = 0;
    assert(fs.take(0) =~= Seq::<Seq<char>>::empty());
    proof {
        reveal(Seq::filter);
    }
    assert(strs(out@) =~= eligible_files(fs.take(0), gs));
    while i < files.len()
        invariant
            i <= files@.len(),
            fs == strs(files@),
            gs == sources(global@),
            strs(out@) == eligible_files(fs.take(i as int), gs),
        decreases files@.len() - i,
    {
        proof {
            reveal(Seq::filter);
            assert(fs.take(i + 1).drop_last() =~= fs.take(i as int));
            assert(fs.take(i + 1).last() == files@[i as int]@);
        }
        let f = &files[i];
        if !f.as_str().is_empty() && !any_match(global, f.as_str()) {
            let ghost before = out@;
            out.push(f.clone());
            assert(strs(out@) =~= strs(before).push(f@));
        }
        i = i + 1;
    }
    assert(fs.take(files@.len() as int) =~= fs);
    out
}

/// The files among `eligible` that `policy` selects, in order.
pub fn matching_files(policy: &CompiledPolicy, eligible: &Vec<String>) -> (r: Vec<String>)
    ensures
        strs(r@) == policy.subset_of(strs(eligible@)),
{
    let ghost fs = strs(eligible@);
    let mut out: Vec<String> = Vec::new();
    let mut i: usize = 0;
    assert(fs.take(0) =~= Seq::<Seq<char>>::empty());
    proof {
        reveal(Seq::filter);
    }
    assert(strs(out@) =~= policy.subset_of(fs.take(0)));
    while i < eligible.len()
        invariant
            i <= eligible@.len(),
            fs == strs(eligible@),
            strs(out@) == policy.subset_of(fs.take(i as int)),
        decreases eligible@.len() - i,
    {
        proof {
            reveal(Seq::filter);
            assert(fs.take(i + 1).drop_last() =~= fs.take(i as int));
            assert(fs.take(i + 1).last() == eligible@[i as int]@);
        }
        let f = &eligible[i];
        if policy.selects(f.as_str()) {
            let ghost before = out@;
            out.push(f.clone());
            assert(strs(out@) =~= strs(before).push(f@));
        }
        i = i + 1;
    }
    assert(fs.take(eligible@.len() as int) =~= fs);
    out
}

/// How one file's result is dealt with.
#[derive(Debug, Clone, Copy, PartialEq, Eq, Structural)]
pub enum Verdict {
    /// The file passed.
    Passed,
    /// The violation was fixed.
    Resolved,
    /// A fix was attempted and failed: a hard failure.
    FixFailed,
    /// The file failed and no fix was attempted: a hard failure.
    Failed,
    /// The file goes to the policy's resolver batch.
    NeedsResolver,
}

/// The verdict on a handler result. A handler that returned `false` is a
/// hard failure that is never sent to a resolver; only a `Failure` with no
/// fix attempted (`fixed` unset) goes to the resolver, and only when fix
/// mode is on and the policy has one.
pub open spec fn handler_verdict(r: HandlerResult, fix: bool, has_resolver: bool) -> Verdict {
    if r == HandlerResult::Pass(true) {
        Verdict::Passed
    } else if r is Pass {
        Verdict::Failed
    } else if r.fixed_flag() == Some(true) {
        Verdict::Resolved
    } else if r.fixed_flag() == Some(false) {
        Verdict::FixFailed
    } else if fix && has_resolver {
        Verdict::NeedsResolver
    } else {
        Verdict::Failed
    }
}

/// The verdict on a resolver result: a pass or a fix resolves the file,
/// anything else is a failed fix.
pub open spec fn resolver_verdict(r: HandlerResult) -> Verdict {
    if r == HandlerResult::Pass(true) || r.fixed_flag() == Some(true) {
        Verdict::Resolved
    } else {
        Verdict::FixFailed
    }
}

/// The verdict makes the run fail.
pub open spec fn is_hard_failure(v: Verdict) -> bool {
    v == Verdict::FixFailed || v == Verdict::Failed
}

/// Classifies a handler result.
pub fn classify_handler_result(r: &HandlerResult, fix: bool, has_resolver: bool) -> (v: Verdict)
    ensures
        v == handler_verdict(*r, fix, has_resolver),
{
    if r.is_pass() {
        Verdict::Passed
    } else if let HandlerResult::Pass(_) = r {
        Verdict::Failed
    } else if r.is_fixed() {
        Verdict::Resolved
    } else if r.is_fix_failed() {
        Verdict::FixFailed
    } else if fix && has_resolver {
        Verdict::NeedsResolver
    } else {
        Verdict::Failed
    }
}

/// Classifies a resolver result.
pub fn classify_resolver_result(r: &HandlerResult) -> (v: Verdict)
    ensures
        v == resolver_verdict(*r),
{
    if r.is_fixed() || r.is_pass() {
        Verdict::Resolved
    } else {
        Verdict::FixFailed
    }
}

/// What is reported about one file.
#[derive(Debug, Clone)]
pub struct FileReport {
    /// The file.
    pub file: String,
    /// How its result was dealt with.
    pub verdict: Verdict,
    /// Whether the failure is advertised as auto-fixable.
    pub fixable: bool,
    /// The failure's message, if any.
    pub message: Option<String>,
}

/// `rep` reports `res`, the result for `file`, with verdict `v`.
pub open spec fn reports(rep: FileReport, file: String, res: HandlerResult, v: Verdict) -> bool {
    &&& rep.file@ == file@
    &&& rep.verdict == v
    &&& rep.fixable == (res.fixable_flag() == Some(true))
    &&& rep.message is Some == res.message() is Some
    &&& rep.message is Some ==> rep.message->0@ == res.message()->0
}

/// The report on one result.
fn report_on(file: &String, res: &HandlerResult, v: Verdict) -> (r: FileReport)
    ensures
        reports(r, *file, *res, v),
{
    FileReport { file: file.clone(), verdict: v, fixable: res.is_fixable(), message: res.error_message() }
}

/// The files of a list of results.
pub open spec fn result_files(rs: Seq<(String, HandlerResult)>) -> Seq<Seq<char>> {
    rs.map_values(|p: (String, HandlerResult)| p.0@)
}

/// The files that a handler batch sends on to the resolver, in order.
pub open spec fn resolver_queue(rs: Seq<(String, HandlerResult)>, fix: bool, has_resolver: bool) -> Seq<
    Seq<char>,
> {
    result_files(
        rs.filter(
            |p: (String, HandlerResult)|
                handler_verdict(p.1, fix, has_resolver) == Verdict::NeedsResolver,
        ),
    )
}

/// Some handler result is a hard failure.
pub open spec fn any_hard_handler(rs: Seq<(String, HandlerResult)>, fix: bool, has_resolver: bool) -> bool {
    exists|i: int| 0 <= i < rs.len() && is_hard_failure(#[trigger] handler_verdict(rs[i].1, fix, has_resolver))
}

/// Some resolver result is a hard failure.
pub open spec fn any_hard_resolver(rs: Seq<(String, HandlerResult)>) -> bool {
    exists|i: int| 0 <= i < rs.len() && is_hard_failure(#[trigger] resolver_verdict(rs[i].1))
}

/// Classifies a handler batch: one report per result, the files for the
/// resolver, and whether any result is a hard failure.
pub fn classify_handler_batch(
    results: &Vec<(String, HandlerResult)>,
    fix: bool,
    has_resolver: bool,
) -> (r: (Vec<FileReport>, Vec<String>, bool))
    ensures
        r.0@.len() == results@.len(),
        forall|i: int|
            0 <= i < results@.len() ==> #[trigger] reports(
                r.0@[i],
                results@[i].0,
                results@[i].1,
                handler_verdict(results@[i].1, fix, has_resolver),
            ),
        strs(r.1@) == resolver_queue(results@, fix, has_resolver),
        r.2 == any_hard_handler(results@, fix, has_resolver),
{
    let ghost rs = results@;
    let ghost pred = |p: (String, HandlerResult)|
        handler_verdict(p.1, fix, has_resolver) == Verdict::NeedsResolver;
    let mut out: Vec<FileReport> = Vec::new();
    let mut queue: Vec<String> = Vec::new();
    let mut hard = false;
    let mut i: usize = 0;
    proof {
        reveal(Seq::filter);
        assert(rs.take(0) =~= Seq::<(String, HandlerResult)>::empty());
        assert(strs(queue@) =~= result_files(rs.take(0).filter(pred)));
    }
    while i < results.len()
        invariant
            i <= rs.len(),
            rs == results@,
            pred == (|p: (String, HandlerResult)|
                handler_verdict(p.1, fix, has_resolver) == Verdict::NeedsResolver),
            out@.len() == i,
            forall|k: int|
                0 <= k < i ==> #[trigger] reports(
                    out@[k],
                    rs[k].0,
                    rs[k].1,
                    handler_verdict(rs[k].1, fix, has_resolver),
                ),
            strs(queue@) == result_files(rs.take(i as int).filter(pred)),
            hard == exists|k: int|
                0 <= k < i && is_hard_failure(#[trigger] handler_verdict(rs[k].1, fix, has_resolver)),
        decreases rs.len() - i,
    {
        let (file, res) = &results[i];
        let v = classify_handler_result(res, fix, has_resolver);
        proof {
            reveal(Seq::filter);
            assert(rs.take(i + 1).drop_last() =~= rs.take(i as int));
            assert(rs.take(i + 1).last() == rs[i as int]);
        }
        if v == Verdict::NeedsResolver {
            let ghost before = rs.take(i as int).filter(pred);
            let ghost q = queue@;
            queue.push(file.clone());
            assert(strs(queue@) =~= strs(q).push(file@));
            assert(result_files(before.push(rs[i as int])) =~= result_files(before).push(file@));
        }
        if v == Verdict::FixFailed || v == Verdict::Failed {
            hard = true;
        }
        out.push(report_on(file, res, v));
        i = i + 1;
    }
    assert(rs.take(rs.len() as int) =~= rs);
    (out, queue, hard)
}

/// Classifies a resolver batch: one report per result, and whether any
/// result is a hard failure.
pub fn classify_resolver_batch(results: &Vec<(String, HandlerResult)>) -> (r: (Vec<FileReport>, bool))
    ensures
        r.0@.len() == results@.len(),
        forall|i: int|
            0 <= i < results@.len() ==> #[trigger] reports(
                r.0@[i],
                results@[i].0,
                results@[i].1,
                resolver_verdict(results@[i].1),
            ),
        r.1 == any_hard_resolver(results@),
{
    let mut out: Vec<FileReport> = Vec::new();
    let mut hard = false;
    let mut i: usize = 0;
    while i < results.len()
        invariant
            i <= results@.len(),
            out@.len() == i,
            forall|k: int|
                0 <= k < i ==> #[trigger] reports(
                    out@[k],
                    results@[k].0,
                    results@[k].1,
                    resolver_verdict(results@[k].1),
                ),
            hard == exists|k: int|
                0 <= k < i && is_hard_failure(#[trigger] resolver_verdict(results@[k].1)),
        decreases results@.len() - i,
    {
        let (file, res) = &results[i];
        let v = classify_resolver_result(res);
        if v == Verdict::FixFailed {
            hard = true;
        }
        out.push(report_on(file, res, v));
        i = i + 1;
    }
    (out, hard)
}

/// Where a run stands between backend calls.
#[derive(Debug, Clone, Copy, PartialEq, Eq, Structural)]
pub enum Phase {
    /// No call is outstanding; the next policy is up.
    Idle,
    /// The handler batch of the current policy is outstanding.
    AwaitingHandler,
    /// Files of the current policy wait for its resolver batch.
    ResolverQueued,
    /// The resolver batch of the current policy is outstanding.
    AwaitingResolver,
}

/// A batch call for the execution backend to make.
#[derive(Debug)]
pub enum BatchCall {
    /// Run a policy's handler on its files.
    Handler { policy_id: usize, files: Vec<String>, resolve: bool },
    /// Run a policy's resolver on the files its handler left unfixed.
    Resolver { policy_id: usize, files: Vec<String> },
}

/// The first policy at or after `from` that selects some eligible file, or
/// the number of policies if there is none.
pub open spec fn first_with_files(
    policies: Seq<CompiledPolicy>,
    eligible: Seq<Seq<char>>,
    from: int,
) -> int
    decreases policies.len() - from,
{
    if from >= policies.len() {
        policies.len() as int
    } else if policies[from].subset_of(eligible).len() > 0 {
        from
    } else {
        first_with_files(policies, eligible, from + 1)
    }
}

/// A copy of a list of strings.
fn copy_strings(v: &Vec<String>) -> (r: Vec<String>)
    ensures
        r@ == v@,
{
    let mut out: Vec<String> = Vec::new();
    let mut i: usize = 0;
    while i < v.len()
        invariant
            i <= v@.len(),
            out@ == v@.take(i as int),
        decreases v@.len() - i,
    {
        out.push(v[i].clone());
        assert(out@ =~= v@.take(i + 1));
        i = i + 1;
    }
    assert(v@.take(v@.len() as int) =~= v@);
    out
}

/// One check run, policy by policy: the decisions of the policy-first
/// batching algorithm. The caller makes each `BatchCall` on a backend and
/// hands the results back.
pub struct CheckRun {
    /// The compiled policies, in load order; the index is the policy id.
    pub policies: Vec<CompiledPolicy>,
    /// The eligible files, in input order.
    pub eligible: Vec<String>,
    /// Whether fix mode is on.
    pub fix: bool,
    /// The first policy not yet considered.
    pub next_policy: usize,
    /// Which call, if any, is outstanding.
    pub phase: Phase,
    /// The policy of the outstanding or queued call.
    pub current: usize,
    /// The files of the outstanding or queued call.
    pub pending: Vec<String>,
    /// Whether some hard failure has been recorded.
    pub had_failures: bool,
    /// Timing statistics.
    pub stats: PerfStats,
}

impl CheckRun {
    /// The run's state is consistent.
    pub open spec fn wf(&self) -> bool {
        &&& self.stats.wf()
        &&& self.next_policy <= self.policies@.len()
        &&& self.phase != Phase::Idle ==> self.current < self.next_policy
        &&& self.phase == Phase::AwaitingHandler ==> strs(self.pending@)
            == self.policies@[self.current as int].subset_of(strs(self.eligible@))
        &&& (self.phase == Phase::ResolverQueued || self.phase == Phase::AwaitingResolver) ==> {
            &&& self.pending@.len() > 0
            &&& self.fix
            &&& self.policies@[self.current as int].has_resolver
        }
    }

    /// Starts a run: compiles every pattern (any failure aborts before any
    /// file is looked at) and selects the eligible files.
    pub fn new(config: &LoadConfigResponse, files: &Vec<String>, fix: bool) -> (r: Result<
        CheckRun,
        CompileError,
    >)
        ensures
            r is Ok <==> config_compiles(*config),
            r is Err ==> names_first_failure(*config, r->Err_0),
            r is Ok ==> {
                let run = r->Ok_0;
                &&& run.wf()
                &&& run.policies@.len() == config.policies@.len()
                &&& forall|i: int|
                    0 <= i < run.policies@.len() ==> #[trigger] run.policies@[i].compiled_from(
                        config.policies@[i],
                    )
                &&& strs(run.eligible@) == eligible_files(strs(files@), global_sources(*config))
                &&& run.fix == fix
                &&& run.next_policy == 0
                &&& run.phase == Phase::Idle
                &&& !run.had_failures
                &&& run.stats.total_files == run.eligible@.len()
                &&& run.stats.handler_entries().len() == 0
                &&& run.stats.resolver_entries().len() == 0
            },
    {
        let (policies, globals) = match compile_policies(config) {
            Ok(c) => c,
            Err(e) => return Err(e),
        };
        let eligible = filter_eligible(files, &globals);
        let mut stats = PerfStats::new();
        stats.total_files = eligible.len();
        Ok(
            CheckRun {
                policies,
                eligible,
                fix,
                next_policy: 0,
                phase: Phase::Idle,
                current: 0,
                pending: Vec::new(),
                had_failures: false,
                stats,
            },
        )
    }

    /// The next batch call: the queued resolver batch if there is one, else
    /// the handler batch of the next policy that selects some file; `None`
    /// when every policy has been dealt with.
    pub fn next_call(&mut self) -> (r: Option<BatchCall>)
        requires
            old(self).wf(),
            old(self).phase == Phase::Idle || old(self).phase == Phase::ResolverQueued,
        ensures
            final(self).wf(),
            final(self).policies@ == old(self).policies@,
            final(self).eligible@ == old(self).eligible@,
            final(self).fix == old(self).fix,
            final(self).had_failures == old(self).had_failures,
            final(self).stats == old(self).stats,
            old(self).phase == Phase::ResolverQueued ==> {
                &&& (r matches Some(BatchCall::Resolver { policy_id, files }) && policy_id
                    == old(self).current && files@ == old(self).pending@)
                &&& final(self).phase == Phase::AwaitingResolver
                &&& final(self).current == old(self).current
                &&& final(self).next_policy == old(self).next_policy
                &&& final(self).pending@ == old(self).pending@
            },
            old(self).phase == Phase::Idle ==> {
                let k = first_with_files(
                    old(self).policies@,
                    strs(old(self).eligible@),
                    old(self).next_policy as int,
                );
                &&& k == old(self).policies@.len() ==> {
                    &&& r is None
                    &&& final(self).phase == Phase::Idle
                    &&& final(self).next_policy == k
                }
                &&& k < old(self).policies@.len() ==> {
                    &&& (r matches Some(BatchCall::Handler { policy_id, files, resolve })
                        && policy_id == k && strs(files@) == old(self).policies@[k].subset_of(
                        strs(old(self).eligible@),
                    ) && resolve == old(self).fix && final(self).pending@ == files@)
                    &&& final(self).phase == Phase::AwaitingHandler
                    &&& final(self).current == k
                    &&& final(self).next_policy == k + 1
                }
            },
    {
        if self.phase == Phase::ResolverQueued {
            self.phase = Phase::AwaitingResolver;
            return Some(BatchCall::Resolver { policy_id: self.current, files: copy_strings(&self.pending) });
        }
        let ghost target = first_with_files(
            self.policies@,
            strs(self.eligible@),
            self.next_policy as int,
        );
        while self.next_policy < self.policies.len()
            invariant
                self.wf(),
                self.phase == Phase::Idle,
                self.policies@ == old(self).policies@,
                self.eligible@ == old(self).eligible@,
                self.fix == old(self).fix,
                self.had_failures == old(self).had_failures,
                self.stats == old(self).stats,
                old(self).phase == Phase::Idle,
                target == first_with_files(
                    old(self).policies@,
                    strs(old(self).eligible@),
                    old(self).next_policy as int,
                ),
                target == first_with_files(self.policies@, strs(self.eligible@), self.next_policy as int),
            decreases self.policies@.len() - self.next_policy,
        {
            let k = self.next_policy;
            let files = matching_files(&self.policies[k], &self.eligible);
            self.next_policy = k + 1;
            if files.len() > 0 {
                self.current = k;
                self.phase = Phase::AwaitingHandler;
                self.pending = copy_strings(&files);
                return Some(BatchCall::Handler { policy_id: k, files, resolve: self.fix });
            }
        }
        None
    }

    /// Records the results of the outstanding handler batch, taking `micros`
    /// as its duration, and returns one report per result.
    pub fn record_handler_results(
        &mut self,
        results: &Vec<(String, HandlerResult)>,
        micros: u64,
    ) -> (r: Vec<FileReport>)
        requires
            old(self).wf(),
            old(self).phase == Phase::AwaitingHandler,
        ensures
            final(self).wf(),
            final(self).policies@ == old(self).policies@,
            final(self).eligible@ == old(self).eligible@,
            final(self).fix == old(self).fix,
            final(self).next_policy == old(self).next_policy,
            final(self).current == old(self).current,
            ({
                let fix = old(self).fix;
                let hr = old(self).policies@[old(self).current as int].has_resolver;
                &&& r@.len() == results@.len()
                &&& forall|i: int|
                    0 <= i < results@.len() ==> #[trigger] reports(
                        r@[i],
                        results@[i].0,
                        results@[i].1,
                        handler_verdict(results@[i].1, fix, hr),
                    )
                &&& strs(final(self).pending@) == resolver_queue(results@, fix, hr)
                &&& final(self).phase == if final(self).pending@.len() == 0 {
                    Phase::Idle
                } else {
                    Phase::ResolverQueued
                }
                &&& final(self).had_failures == (old(self).had_failures || any_hard_handler(
                    results@,
                    fix,
                    hr,
                ))
            }),
            final(self).stats.total_files == old(self).stats.total_files,
            final(self).stats.handler_entries() == add_time(
                old(self).stats.handler_entries(),
                old(self).policies@[old(self).current as int].name@,
                micros,
            ),
            final(self).stats.resolver_entries() == old(self).stats.resolver_entries(),
    {
        let hr = self.policies[self.current].has_resolver;
        let (reports, queue, hard) = classify_handler_batch(results, self.fix, hr);
        self.stats.record_handler(self.policies[self.current].name.as_str(), micros);
        if hard {
            self.had_failures = true;
        }
        proof {
            lemma_queue_only_when_fixing(results@, self.fix, hr);
        }
        if queue.len() == 0 {
            self.phase = Phase::Idle;
        } else {
            self.phase = Phase::ResolverQueued;
        }
        self.pending = queue;
        reports
    }

    /// Records the results of the outstanding resolver batch, taking
    /// `micros` as its duration, and returns one report per result.
    pub fn record_resolver_results(
        &mut self,
        results: &Vec<(String, HandlerResult)>,
        micros: u64,
    ) -> (r: Vec<FileReport>)
        requires
            old(self).wf(),
            old(self).phase == Phase::AwaitingResolver,
        ensures
            final(self).wf(),
            final(self).policies@ == old(self).policies@,
            final(self).eligible@ == old(self).eligible@,
            final(self).fix == old(self).fix,
            final(self).next_policy == old(self).next_policy,
            final(self).current == old(self).current,
            final(self).phase == Phase::Idle,
            final(self).pending@.len() == 0,
            r@.len() == results@.len(),
            forall|i: int|
                0 <= i < results@.len() ==> #[trigger] reports(
                    r@[i],
                    results@[i].0,
                    results@[i].1,
                    resolver_verdict(results@[i].1),
                ),
            final(self).had_failures == (old(self).had_failures || any_hard_resolver(results@)),
            final(self).stats.total_files == old(self).stats.total_files,
            final(self).stats.resolver_entries() == add_time(
                old(self).stats.resolver_entries(),
                old(self).policies@[old(self).current as int].name@,
                micros,
            ),
            final(self).stats.handler_entries() == old(self).stats.handler_entries(),
    {
        let (reports, hard) = classify_resolver_batch(results);
        self.stats.record_resolver(self.policies[self.current].name.as_str(), micros);
        if hard {
            self.had_failures = true;
        }
        self.phase = Phase::Idle;
        self.pending = Vec::new();
        reports
    }

    /// Whether the run has no hard failure so far.
    pub fn succeeded(&self) -> (r: bool)
        ensures
            r == !self.had_failures,
    {
        !self.had_failures
    }
}

/// A file is in the resolver queue exactly when some handler result for it
/// has the verdict `NeedsResolver`.
pub proof fn lemma_queue_contains(
    rs: Seq<(String, HandlerResult)>,
    fix: bool,
    has_resolver: bool,
    f: Seq<char>,
)
    ensures
        resolver_queue(rs, fix, has_resolver).contains(f) <==> exists|i: int|
            0 <= i < rs.len() && rs[i].0@ == f && #[trigger] handler_verdict(
                rs[i].1,
                fix,
                has_resolver,
            ) == Verdict::NeedsResolver,
{
    let pred = |p: (String, HandlerResult)|
        handler_verdict(p.1, fix, has_resolver) == Verdict::NeedsResolver;
    let filt = rs.filter(pred);
    let q = resolver_queue(rs, fix, has_resolver);
    if q.contains(f) {
        let k = choose|k: int| 0 <= k < q.len() && q[k] == f;
        rs.lemma_filter_pred(pred, k);
        assert(filt.contains(filt[k]));
        rs.lemma_filter_contains_rev(pred, filt[k]);
        let i = choose|i: int| 0 <= i < rs.len() && rs[i] == filt[k];
        assert(rs[i].0@ == f && handler_verdict(rs[i].1, fix, has_resolver) == Verdict::NeedsResolver);
    }
    if exists|i: int|
        0 <= i < rs.len() && rs[i].0@ == f && #[trigger] handler_verdict(rs[i].1, fix, has_resolver)
            == Verdict::NeedsResolver {
        let i = choose|i: int|
            0 <= i < rs.len() && rs[i].0@ == f && #[trigger] handler_verdict(
                rs[i].1,
                fix,
                has_resolver,
            ) == Verdict::NeedsResolver;
        rs.lemma_filter_contains(pred, i);
        let k = choose|k: int| 0 <= k < filt.len() && filt[k] == rs[i];
        assert(q[k] == f);
    }
}

/// The resolver queue is empty unless fix mode is on and the policy has a
/// resolver.
proof fn lemma_queue_only_when_fixing(rs: Seq<(String, HandlerResult)>, fix: bool, has_resolver: bool)
    ensures
        resolver_queue(rs, fix, has_resolver).len() > 0 ==> fix && has_resolver,
{
    let q = resolver_queue(rs, fix, has_resolver);
    if q.len() > 0 {
        assert(q.contains(q[0]));
        lemma_queue_contains(rs, fix, has_resolver, q[0]);
    }
}

/// A file is sent to a resolver batch only if fix mode is on, the policy
/// declares a resolver, and the handler reported it as a `Failure` without
/// attempting a fix (`fixed` neither true nor false); a handler answer of
/// `false` never reaches a resolver.
pub proof fn lemma_resolver_gets_only_unattempted_failures(
    rs: Seq<(String, HandlerResult)>,
    fix: bool,
    has_resolver: bool,
    f: Seq<char>,
)
    requires
        resolver_queue(rs, fix, has_resolver).contains(f),
    ensures
        fix,
        has_resolver,
        exists|i: int|
            0 <= i < rs.len() && rs[i].0@ == f && rs[i].1 is Failure
                && #[trigger] rs[i].1.fixed_flag() is None,
{
    lemma_queue_contains(rs, fix, has_resolver, f);
    let i = choose|i: int|
        0 <= i < rs.len() && rs[i].0@ == f && #[trigger] handler_verdict(rs[i].1, fix, has_resolver)
            == Verdict::NeedsResolver;
    assert(handler_verdict(rs[i].1, fix, has_resolver) == Verdict::NeedsResolver);
    assert(rs[i].1.fixed_flag() != Some(true) && rs[i].1.fixed_flag() != Some(false));
    if let Some(b) = rs[i].1.fixed_flag() {
        assert(b == true || b == false);
    }
    assert(rs[i].1.fixed_flag() is None);
}

/// The files whose handler result has the verdict `v`.
pub open spec fn handler_files_with(
    handler: Seq<(String, HandlerResult)>,
    fix: bool,
    has_resolver: bool,
    v: Verdict,
) -> Set<Seq<char>> {
    Set::new(
        |f: Seq<char>|
            exists|i: int|
                0 <= i < handler.len() && handler[i].0@ == f && #[trigger] handler_verdict(
                    handler[i].1,
                    fix,
                    has_resolver,
                ) == v,
    )
}

/// The files whose resolver result has the verdict `v`.
pub open spec fn resolver_files_with(resolver: Seq<(String, HandlerResult)>, v: Verdict) -> Set<
    Seq<char>,
> {
    Set::new(
        |f: Seq<char>|
            exists|j: int|
                0 <= j < resolver.len() && resolver[j].0@ == f && #[trigger] resolver_verdict(
                    resolver[j].1,
                ) == v,
    )
}

/// The files of one policy reported as passing.
pub open spec fn passed_set(
    handler: Seq<(String, HandlerResult)>,
    fix: bool,
    has_resolver: bool,
) -> Set<Seq<char>> {
    handler_files_with(handler, fix, has_resolver, Verdict::Passed)
}

/// The files of one policy reported as resolved, by the handler itself or
/// by the resolver.
pub open spec fn resolved_set(
    handler: Seq<(String, HandlerResult)>,
    resolver: Seq<(String, HandlerResult)>,
    fix: bool,
    has_resolver: bool,
) -> Set<Seq<char>> {
    handler_files_with(handler, fix, has_resolver, Verdict::Resolved).union(
        resolver_files_with(resolver, Verdict::Resolved),
    )
}

/// The files of one policy reported as hard failures.
pub open spec fn hard_failure_set(
    handler: Seq<(String, HandlerResult)>,
    resolver: Seq<(String, HandlerResult)>,
    fix: bool,
    has_resolver: bool,
) -> Set<Seq<char>> {
    handler_files_with(handler, fix, has_resolver, Verdict::FixFailed).union(
        handler_files_with(handler, fix, has_resolver, Verdict::Failed),
    ).union(resolver_files_with(resolver, Verdict::FixFailed))
}

/// With no file repeated among the results, one file has at most one
/// handler result and one resolver result, and a file with a resolver
/// result has a handler result that sent it to the resolver.
proof fn lemma_one_result_per_file(
    handler: Seq<(String, HandlerResult)>,
    resolver: Seq<(String, HandlerResult)>,
    fix: bool,
    has_resolver: bool,
    f: Seq<char>,
)
    requires
        result_files(handler).no_duplicates(),
        result_files(resolver).no_duplicates(),
        result_files(resolver).to_set() == resolver_queue(handler, fix, has_resolver).to_set(),
    ensures
        forall|i: int, k: int|
            0 <= i < handler.len() && 0 <= k < handler.len() && #[trigger] handler[i].0@ == f
                && #[trigger] handler[k].0@ == f ==> i == k,
        forall|j: int, k: int|
            0 <= j < resolver.len() && 0 <= k < resolver.len() && #[trigger] resolver[j].0@ == f
                && #[trigger] resolver[k].0@ == f ==> j == k,
        (exists|j: int| 0 <= j < resolver.len() && #[trigger] resolver[j].0@ == f) ==> exists|i: int|
            0 <= i < handler.len() && handler[i].0@ == f && #[trigger] handler_verdict(
                handler[i].1,
                fix,
                has_resolver,
            ) == Verdict::NeedsResolver,
{
    assert forall|i: int, k: int|
        0 <= i < handler.len() && 0 <= k < handler.len() && #[trigger] handler[i].0@ == f
            && #[trigger] handler[k].0@ == f implies i == k by {
        assert(result_files(handler)[i] == f && result_files(handler)[k] == f);
    }
    assert forall|j: int, k: int|
        0 <= j < resolver.len() && 0 <= k < resolver.len() && #[trigger] resolver[j].0@ == f
            && #[trigger] resolver[k].0@ == f implies j == k by {
        assert(result_files(resolver)[j] == f && result_files(resolver)[k] == f);
    }
    lemma_queue_contains(handler, fix, has_resolver, f);
    if exists|j: int| 0 <= j < resolver.len() && #[trigger] resolver[j].0@ == f {
        let j = choose|j: int| 0 <= j < resolver.len() && #[trigger] resolver[j].0@ == f;
        assert(result_files(resolver)[j] == f);
        assert(result_files(resolver).to_set().contains(f));
    }
}

/// No file is dropped and none is counted twice: when the handler batch
/// answers once for each of the policy's selected files and the resolver
/// batch once for each file queued for it, the files reported as passing,
/// as resolved and as hard failures are pairwise disjoint and together are
/// exactly the selected files.
pub proof fn lemma_every_selected_file_is_reported(
    selected: Seq<Seq<char>>,
    handler: Seq<(String, HandlerResult)>,
    resolver: Seq<(String, HandlerResult)>,
    fix: bool,
    has_resolver: bool,
)
    requires
        result_files(handler).no_duplicates(),
        result_files(resolver).no_duplicates(),
        result_files(handler).to_set() == selected.to_set(),
        result_files(resolver).to_set() == resolver_queue(handler, fix, has_resolver).to_set(),
    ensures
        passed_set(handler, fix, has_resolver).union(
            resolved_set(handler, resolver, fix, has_resolver),
        ).union(hard_failure_set(handler, resolver, fix, has_resolver)) == selected.to_set(),
        passed_set(handler, fix, has_resolver).disjoint(
            resolved_set(handler, resolver, fix, has_resolver),
        ),
        passed_set(handler, fix, has_resolver).disjoint(
            hard_failure_set(handler, resolver, fix, has_resolver),
        ),
        resolved_set(handler, resolver, fix, has_resolver).disjoint(
            hard_failure_set(handler, resolver, fix, has_resolver),
        ),
{
    let p = passed_set(handler, fix, has_resolver);
    let r = resolved_set(handler, resolver, fix, has_resolver);
    let h = hard_failure_set(handler, resolver, fix, has_resolver);
    let all = p.union(r).union(h);
    assert forall|f: Seq<char>| all.contains(f) <==> selected.to_set().contains(f) by {
        lemma_one_result_per_file(handler, resolver, fix, has_resolver, f);
        lemma_queue_contains(handler, fix, has_resolver, f);
        if selected.to_set().contains(f) {
            assert(result_files(handler).to_set().contains(f));
            let i = choose|i: int|
                0 <= i < result_files(handler).len() && result_files(handler)[i] == f;
            assert(handler[i].0@ == f);
            let v = handler_verdict(handler[i].1, fix, has_resolver);
            if v == Verdict::NeedsResolver {
                assert(resolver_queue(handler, fix, has_resolver).to_set().contains(f));
                assert(result_files(resolver).to_set().contains(f));
                let j = choose|j: int|
                    0 <= j < result_files(resolver).len() && result_files(resolver)[j] == f;
                assert(resolver[j].0@ == f);
                let w = resolver_verdict(resolver[j].1);
                if w == Verdict::Resolved {
                    assert(resolver_files_with(resolver, Verdict::Resolved).contains(f));
                } else {
                    assert(resolver_files_with(resolver, Verdict::FixFailed).contains(f));
                }
            } else if v == Verdict::Passed {
                assert(p.contains(f));
            } else if v == Verdict::Resolved {
                assert(handler_files_with(handler, fix, has_resolver, Verdict::Resolved).contains(f));
            } else if v == Verdict::FixFailed {
                assert(handler_files_with(handler, fix, has_resolver, Verdict::FixFailed).contains(f));
            } else {
                assert(handler_files_with(handler, fix, has_resolver, Verdict::Failed).contains(f));
            }
        }
        if all.contains(f) {
            if exists|i: int| 0 <= i < handler.len() && #[trigger] handler[i].0@ == f {
                let i = choose|i: int| 0 <= i < handler.len() && #[trigger] handler[i].0@ == f;
                assert(result_files(handler)[i] == f);
                assert(result_files(handler).to_set().contains(f));
            } else {
                assert(exists|j: int| 0 <= j < resolver.len() && #[trigger] resolver[j].0@ == f);
            }
        }
    }
    assert(all =~= selected.to_set());
    assert forall|f: Seq<char>|
        !(p.contains(f) && r.contains(f)) && !(p.contains(f) && h.contains(f)) && !(r.contains(f)
            && h.contains(f)) by {
        lemma_one_result_per_file(handler, resolver, fix, has_resolver, f);
    }
}

/// A file that a global exclusion matches is in no policy's matching
/// subset, whatever the policy's own pattern says.
pub proof fn lemma_global_exclusion_wins(
    config: LoadConfigResponse,
    meta: PolicyMeta,
    files: Seq<Seq<char>>,
    f: Seq<char>,
)
    requires
        excluded_by(strs(config.exclude_files@), f),
    ensures
        !policy_files(config, meta, files).contains(f),
{
    let gs = global_sources(config);
    let el_pred = |x: Seq<char>| is_eligible(gs, x);
    let sel_pred = |x: Seq<char>| selects(meta_match_source(meta), meta_exclude_sources(meta), x);
    let el = files.filter(el_pred);
    if el.filter(sel_pred).contains(f) {
        el.lemma_filter_contains_rev(sel_pred, f);
        let i = choose|i: int| 0 <= i < el.len() && el[i] == f;
        files.lemma_filter_pred(el_pred, i);
    }
}

/// A file that one policy's own exclusion matches is skipped by that policy
/// only: another policy whose pattern matches it, and none of whose
/// exclusions does, still runs on it.
pub proof fn lemma_policy_exclusion_is_local(
    config: LoadConfigResponse,
    excluding: PolicyMeta,
    other: PolicyMeta,
    files: Seq<Seq<char>>,
    f: Seq<char>,
)
    requires
        files.contains(f),
        is_eligible(global_sources(config), f),
        excluded_by(strs(excluding.exclude_files@), f),
        regex_is_match(meta_match_source(other), f),
        !excluded_by(strs(other.exclude_files@), f),
    ensures
        !policy_files(config, excluding, files).contains(f),
        policy_files(config, other, files).contains(f),
{
    let gs = global_sources(config);
    let el_pred = |x: Seq<char>| is_eligible(gs, x);
    let el = files.filter(el_pred);
    let sel_a = |x: Seq<char>| selects(meta_match_source(excluding), meta_exclude_sources(excluding), x);
    let sel_b = |x: Seq<char>| selects(meta_match_source(other), meta_exclude_sources(other), x);
    if el.filter(sel_a).contains(f) {
        let k = choose|k: int| 0 <= k < el.filter(sel_a).len() && el.filter(sel_a)[k] == f;
        el.lemma_filter_pred(sel_a, k);
    }
    let i = choose|i: int| 0 <= i < files.len() && files[i] == f;
    files.lemma_filter_contains(el_pred, i);
    let j = choose|j: int| 0 <= j < el.len() && el[j] == f;
    el.lemma_filter_contains(sel_b, j);
}

/// With fix mode off no file is queued for a resolver, whatever the
/// policy declares, and each handler verdict and whether the batch holds a
/// hard failure do not depend on whether the policy has a resolver.
pub proof fn lemma_no_resolver_without_fix(
    results: Seq<(String, HandlerResult)>,
    has_resolver: bool,
)
    ensures
        resolver_queue(results, false, has_resolver).len() == 0,
        forall|i: int|
            0 <= i < results.len() ==> #[trigger] handler_verdict(results[i].1, false, has_resolver)
                != Verdict::NeedsResolver && handler_verdict(results[i].1, false, has_resolver)
                == handler_verdict(results[i].1, false, !has_resolver),
        any_hard_handler(results, false, has_resolver) == any_hard_handler(
            results,
            false,
            !has_resolver,
        ),
{
    let other = !has_resolver;
    lemma_queue_only_when_fixing(results, false, has_resolver);
    if any_hard_handler(results, false, has_resolver) {
        let i = choose|i: int|
            0 <= i < results.len() && is_hard_failure(
                #[trigger] handler_verdict(results[i].1, false, has_resolver),
            );
        assert(is_hard_failure(handler_verdict(results[i].1, false, other)));
    }
    if any_hard_handler(results, false, other) {
        let i = choose|i: int|
            0 <= i < results.len() && is_hard_failure(
                #[trigger] handler_verdict(results[i].1, false, other),
            );
        assert(is_hard_failure(handler_verdict(results[i].1, false, has_resolver)));
    }
}

} // verus!
