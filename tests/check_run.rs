use repopo_core::engine::{classify_handler_result, classify_resolver_result, compile_policies};
use repopo_core::{
    BatchCall, CheckRun, CompileError, FileReport, HandlerResult, LoadConfigResponse,
    PolicyErrorResult, PolicyMeta, Verdict,
};

fn meta(name: &str, pattern: &str, flags: &str, has_resolver: bool, excludes: &[&str]) -> PolicyMeta {
    PolicyMeta {
        name: name.to_string(),
        description: String::new(),
        match_pattern: pattern.to_string(),
        match_flags: flags.to_string(),
        has_resolver,
        exclude_files: excludes.iter().map(|s| s.to_string()).collect(),
    }
}

fn config(policies: Vec<PolicyMeta>, excludes: &[&str]) -> LoadConfigResponse {
    LoadConfigResponse {
        policies,
        exclude_files: excludes.iter().map(|s| s.to_string()).collect(),
    }
}

fn strings(v: &[&str]) -> Vec<String> {
    v.iter().map(|s| s.to_string()).collect()
}

fn failure(error: Option<&str>, fixable: Option<bool>, fixed: Option<bool>) -> HandlerResult {
    HandlerResult::Failure(PolicyErrorResult {
        error: error.map(|s| s.to_string()),
        error_messages: None,
        name: None,
        file: None,
        fixable,
        fixed,
        manual_fix: None,
    })
}

fn start(cfg: &LoadConfigResponse, files: &[&str], fix: bool) -> CheckRun {
    match CheckRun::new(cfg, &strings(files), fix) {
        Ok(run) => run,
        Err(e) => panic!("compilation failed: {e:?}"),
    }
}

fn expect_handler(call: Option<BatchCall>) -> (usize, Vec<String>, bool) {
    match call {
        Some(BatchCall::Handler { policy_id, files, resolve }) => (policy_id, files, resolve),
        other => panic!("expected a handler batch, got {other:?}"),
    }
}

fn expect_resolver(call: Option<BatchCall>) -> (usize, Vec<String>) {
    match call {
        Some(BatchCall::Resolver { policy_id, files }) => (policy_id, files),
        other => panic!("expected a resolver batch, got {other:?}"),
    }
}

fn verdict_of(reports: &[FileReport], file: &str) -> Verdict {
    reports.iter().find(|r| r.file == file).map(|r| r.verdict).expect("file reported")
}

#[test]
fn no_tabs_policy_reports_tabbed_file_as_hard_failure() {
    let cfg = config(vec![meta("no-tabs", r"\.ts$", "", false, &[])], &[]);
    let mut run = start(&cfg, &["a.ts", "b.ts", "readme.md"], false);
    let (id, files, resolve) = expect_handler(run.next_call());
    assert_eq!(id, 0);
    assert_eq!(files, strings(&["a.ts", "b.ts"]));
    assert!(!resolve);
    let results = vec![
        ("a.ts".to_string(), failure(Some("file contains a tab"), None, None)),
        ("b.ts".to_string(), HandlerResult::Pass(true)),
    ];
    let reports = run.record_handler_results(&results, 10);
    assert_eq!(reports.len(), 2);
    assert_eq!(verdict_of(&reports, "a.ts"), Verdict::Failed);
    assert!(!reports[0].fixable);
    assert_eq!(reports[0].message.as_deref(), Some("file contains a tab"));
    assert_eq!(verdict_of(&reports, "b.ts"), Verdict::Passed);
    assert!(run.next_call().is_none());
    assert!(!run.succeeded());
}

#[test]
fn no_tabs_policy_with_resolver_resolves_tabbed_file() {
    let cfg = config(vec![meta("no-tabs", r"\.ts$", "", true, &[])], &[]);
    let mut run = start(&cfg, &["a.ts", "b.ts", "readme.md"], true);
    let (_, files, resolve) = expect_handler(run.next_call());
    assert_eq!(files, strings(&["a.ts", "b.ts"]));
    assert!(resolve);
    let results = vec![
        ("a.ts".to_string(), failure(Some("file contains a tab"), Some(true), None)),
        ("b.ts".to_string(), HandlerResult::Pass(true)),
    ];
    let reports = run.record_handler_results(&results, 10);
    assert_eq!(verdict_of(&reports, "a.ts"), Verdict::NeedsResolver);
    let (id, queued) = expect_resolver(run.next_call());
    assert_eq!(id, 0);
    assert_eq!(queued, strings(&["a.ts"]));
    let fixed = vec![("a.ts".to_string(), HandlerResult::Pass(true))];
    let reports = run.record_resolver_results(&fixed, 4);
    assert_eq!(verdict_of(&reports, "a.ts"), Verdict::Resolved);
    assert!(run.next_call().is_none());
    assert!(run.succeeded());
}

#[test]
fn global_exclude_keeps_file_from_every_policy() {
    let cfg = config(
        vec![meta("no-tabs", r"\.ts$", "", false, &[]), meta("any", ".", "", false, &[])],
        &["node_modules/"],
    );
    let mut run = start(&cfg, &["node_modules/x.ts", "src/x.ts"], false);
    assert_eq!(run.eligible, strings(&["src/x.ts"]));
    let (id, files, _) = expect_handler(run.next_call());
    assert_eq!((id, files), (0, strings(&["src/x.ts"])));
    run.record_handler_results(&vec![("src/x.ts".to_string(), HandlerResult::Pass(true))], 1);
    let (id, files, _) = expect_handler(run.next_call());
    assert_eq!((id, files), (1, strings(&["src/x.ts"])));
    run.record_handler_results(&vec![("src/x.ts".to_string(), HandlerResult::Pass(true))], 1);
    assert!(run.next_call().is_none());
    assert!(run.succeeded());
}

#[test]
fn global_exclude_is_case_insensitive() {
    let cfg = config(vec![meta("all", ".", "", false, &[])], &["^VENDOR/"]);
    let run = start(&cfg, &["vendor/lib.js", "src/main.js", ""], false);
    assert_eq!(run.eligible, strings(&["src/main.js"]));
    assert_eq!(run.stats.total_files, 1);
}

#[test]
fn policy_exclude_applies_to_that_policy_only() {
    let cfg = config(
        vec![
            meta("header", r"\.ts$", "", false, &["^gen/"]),
            meta("size", r"\.ts$", "", false, &[]),
        ],
        &[],
    );
    let mut run = start(&cfg, &["gen/a.ts", "src/b.ts"], false);
    let (id, files, _) = expect_handler(run.next_call());
    assert_eq!((id, files), (0, strings(&["src/b.ts"])));
    run.record_handler_results(&vec![("src/b.ts".to_string(), HandlerResult::Pass(true))], 1);
    let (id, files, _) = expect_handler(run.next_call());
    assert_eq!((id, files), (1, strings(&["gen/a.ts", "src/b.ts"])));
}

#[test]
fn policy_without_matching_files_is_skipped() {
    let cfg = config(
        vec![meta("md", r"\.md$", "", false, &[]), meta("ts", r"\.ts$", "", false, &[])],
        &[],
    );
    let mut run = start(&cfg, &["a.ts"], false);
    let (id, files, _) = expect_handler(run.next_call());
    assert_eq!((id, files), (1, strings(&["a.ts"])));
    run.record_handler_results(&vec![("a.ts".to_string(), HandlerResult::Pass(true))], 1);
    assert!(run.next_call().is_none());
    assert_eq!(run.next_policy, 2);
}

#[test]
fn case_insensitive_flag_is_honoured() {
    let cfg = config(
        vec![meta("upper", r"\.TS$", "i", false, &[]), meta("exact", r"\.TS$", "g", false, &[])],
        &[],
    );
    let mut run = start(&cfg, &["a.ts"], false);
    let (id, files, _) = expect_handler(run.next_call());
    assert_eq!((id, files), (0, strings(&["a.ts"])));
    run.record_handler_results(&vec![("a.ts".to_string(), HandlerResult::Pass(true))], 1);
    assert!(run.next_call().is_none());
}

#[test]
fn every_selected_file_is_reported_once() {
    let cfg = config(vec![meta("p", r"\.rs$", "", true, &[])], &[]);
    let mut run = start(&cfg, &["a.rs", "b.rs", "c.rs", "d.rs", "e.txt"], true);
    let (_, files, _) = expect_handler(run.next_call());
    assert_eq!(files.len(), 4);
    let handler = vec![
        ("d.rs".to_string(), failure(None, None, None)),
        ("a.rs".to_string(), HandlerResult::Pass(true)),
        ("c.rs".to_string(), failure(Some("bad"), None, Some(false))),
        ("b.rs".to_string(), failure(None, None, Some(true))),
    ];
    let mut reported: Vec<String> = Vec::new();
    for r in run.record_handler_results(&handler, 1) {
        if r.verdict != Verdict::NeedsResolver {
            reported.push(r.file);
        }
    }
    let (_, queued) = expect_resolver(run.next_call());
    assert_eq!(queued, strings(&["d.rs"]));
    for r in run.record_resolver_results(&vec![("d.rs".to_string(), failure(Some("still bad"), None, None))], 1) {
        assert_eq!(r.verdict, Verdict::FixFailed);
        reported.push(r.file);
    }
    reported.sort();
    assert_eq!(reported, strings(&["a.rs", "b.rs", "c.rs", "d.rs"]));
    assert!(!run.succeeded());
}

#[test]
fn check_without_fix_classifies_the_same_twice() {
    let cfg = config(vec![meta("p", r"\.rs$", "", true, &[])], &[]);
    let results = vec![
        ("a.rs".to_string(), failure(None, Some(true), None)),
        ("b.rs".to_string(), HandlerResult::Pass(true)),
    ];
    let mut verdicts: Vec<Vec<Verdict>> = Vec::new();
    for _ in 0..2 {
        let mut run = start(&cfg, &["a.rs", "b.rs"], false);
        let (_, _, resolve) = expect_handler(run.next_call());
        assert!(!resolve);
        let reports = run.record_handler_results(&results, 1);
        verdicts.push(reports.iter().map(|r| r.verdict).collect());
        assert!(run.next_call().is_none());
        assert!(!run.succeeded());
    }
    assert_eq!(verdicts[0], vec![Verdict::Failed, Verdict::Passed]);
    assert_eq!(verdicts[0], verdicts[1]);
}

#[test]
fn only_unattempted_failures_reach_the_resolver() {
    let cfg = config(vec![meta("p", ".", "", true, &[])], &[]);
    let mut run = start(&cfg, &["a", "b", "c", "d", "e"], true);
    expect_handler(run.next_call());
    let results = vec![
        ("a".to_string(), HandlerResult::Pass(true)),
        ("b".to_string(), failure(None, None, Some(true))),
        ("c".to_string(), failure(None, None, Some(false))),
        ("d".to_string(), failure(None, Some(true), None)),
        ("e".to_string(), HandlerResult::Pass(false)),
    ];
    let reports = run.record_handler_results(&results, 1);
    let verdicts: Vec<Verdict> = reports.iter().map(|r| r.verdict).collect();
    assert_eq!(
        verdicts,
        vec![
            Verdict::Passed,
            Verdict::Resolved,
            Verdict::FixFailed,
            Verdict::NeedsResolver,
            Verdict::Failed
        ]
    );
    let (_, queued) = expect_resolver(run.next_call());
    assert_eq!(queued, strings(&["d"]));
}

#[test]
fn fix_mode_without_resolver_reports_failure() {
    let r = failure(None, Some(true), None);
    assert_eq!(classify_handler_result(&r, true, false), Verdict::Failed);
    assert_eq!(classify_handler_result(&r, false, true), Verdict::Failed);
    assert_eq!(classify_handler_result(&r, true, true), Verdict::NeedsResolver);
    assert_eq!(classify_resolver_result(&failure(None, None, Some(true))), Verdict::Resolved);
    assert_eq!(classify_resolver_result(&HandlerResult::Pass(true)), Verdict::Resolved);
    assert_eq!(classify_resolver_result(&HandlerResult::Pass(false)), Verdict::FixFailed);
}

#[test]
fn fixable_flag_and_message_are_reported() {
    let cfg = config(vec![meta("p", ".", "", false, &[])], &[]);
    let mut run = start(&cfg, &["x"], true);
    expect_handler(run.next_call());
    let reports = run.record_handler_results(&vec![("x".to_string(), failure(Some("m"), Some(true), None))], 1);
    assert_eq!(reports[0].verdict, Verdict::Failed);
    assert!(reports[0].fixable);
    assert_eq!(reports[0].message.as_deref(), Some("m"));
}

#[test]
fn timings_are_accumulated_per_policy() {
    let cfg = config(vec![meta("p", ".", "", true, &[]), meta("q", ".", "", false, &[])], &[]);
    let mut run = start(&cfg, &["x"], true);
    expect_handler(run.next_call());
    run.record_handler_results(&vec![("x".to_string(), failure(None, None, None))], 7);
    expect_resolver(run.next_call());
    run.record_resolver_results(&vec![("x".to_string(), HandlerResult::Pass(true))], 3);
    expect_handler(run.next_call());
    run.record_handler_results(&vec![("x".to_string(), HandlerResult::Pass(true))], 9);
    let handlers = run.stats.handler_times_by_duration();
    assert_eq!(handlers.len(), 2);
    assert_eq!((handlers[0].name.as_str(), handlers[0].micros), ("q", 9));
    assert_eq!((handlers[1].name.as_str(), handlers[1].micros), ("p", 7));
    let resolvers = run.stats.resolver_times_by_duration();
    assert_eq!(resolvers.len(), 1);
    assert_eq!((resolvers[0].name.as_str(), resolvers[0].micros), ("p", 3));
    assert!(run.succeeded());
}

#[test]
fn bad_match_pattern_names_the_policy() {
    let cfg = config(vec![meta("ok", ".", "", false, &[]), meta("broken", "(", "i", false, &[])], &[]);
    match compile_policies(&cfg) {
        Err(CompileError::MatchPattern { policy, error }) => {
            assert_eq!(policy, "broken");
            assert_eq!(error.pattern, "(");
            assert_eq!(error.flags, "i");
        }
        Err(e) => panic!("unexpected error {e:?}"),
        Ok(_) => panic!("a bad pattern compiled"),
    }
}

#[test]
fn bad_exclude_pattern_names_the_policy() {
    let cfg = config(vec![meta("p", ".", "", false, &["[z-a]"])], &[]);
    match CheckRun::new(&cfg, &strings(&["a"]), false) {
        Err(CompileError::ExcludePattern { policy, error }) => {
            assert_eq!(policy, "p");
            assert_eq!(error.pattern, "[z-a]");
            assert_eq!(error.flags, "i");
        }
        Err(e) => panic!("unexpected error {e:?}"),
        Ok(_) => panic!("a bad pattern compiled"),
    }
}

#[test]
fn bad_global_exclude_is_reported() {
    let cfg = config(vec![meta("p", ".", "", false, &[])], &["a", "b)"]);
    match CheckRun::new(&cfg, &strings(&["a"]), false) {
        Err(CompileError::GlobalExclude { error }) => assert_eq!(error.pattern, "b)"),
        Err(e) => panic!("unexpected error {e:?}"),
        Ok(_) => panic!("a bad pattern compiled"),
    }
}

#[test]
fn empty_configuration_makes_no_calls() {
    let cfg = config(vec![], &[]);
    let mut run = start(&cfg, &["a", "b"], true);
    assert!(run.next_call().is_none());
    assert!(run.succeeded());
}

#[test]
fn first_failing_policy_is_named_before_global_excludes() {
    let cfg = config(
        vec![
            meta("fine", ".", "", false, &[]),
            meta("first", "a", "", false, &["(bad"]),
            meta("second", "(", "", false, &[]),
        ],
        &["also)bad"],
    );
    match compile_policies(&cfg) {
        Err(CompileError::ExcludePattern { policy, error }) => {
            assert_eq!(policy, "first");
            assert_eq!(error.pattern, "(bad");
        }
        Err(e) => panic!("unexpected error {e:?}"),
        Ok(_) => panic!("a bad pattern compiled"),
    }
}

#[test]
fn false_handler_result_is_a_hard_failure() {
    let cfg = config(vec![meta("p", ".", "", true, &[])], &[]);
    let mut run = start(&cfg, &["x"], true);
    expect_handler(run.next_call());
    let reports = run.record_handler_results(&vec![("x".to_string(), HandlerResult::Pass(false))], 1);
    assert_eq!(reports[0].verdict, Verdict::Failed);
    assert!(run.next_call().is_none());
    assert!(!run.succeeded());
}
