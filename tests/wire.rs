use repopo_core::embedded::{
    DrainStep, MAX_JOB_ITERATIONS, batch_call_expression, drain_step,
    handler_batch_expression, join_path, resolver_batch_expression,
};
use repopo_core::files::{normalize_file_list, normalize_path};
use repopo_core::ipc::{SidecarError, boolean_result, check_response_line, frame_message};
use repopo_core::pattern::{compile_js_regex, str_has_char};
use repopo_core::stats::PerfStats;
use repopo_core::{
    CompactBatchFailureItem, CompactBatchResponse, HandlerResult, IpcResponse, PolicyErrorResult,
    expand_compact_response, resolve_path,
};

fn strings(v: &[&str]) -> Vec<String> {
    v.iter().map(|s| s.to_string()).collect()
}

fn item(file: &str, error: Option<&str>, fixed: Option<bool>) -> CompactBatchFailureItem {
    CompactBatchFailureItem {
        file: file.to_string(),
        error: error.map(|s| s.to_string()),
        error_messages: Some(strings(&["one", "two"])),
        fixable: Some(true),
        fixed,
        manual_fix: Some("run the formatter".to_string()),
    }
}

#[test]
fn compact_response_expands_passes_then_failures() {
    let batch = CompactBatchResponse {
        pass: strings(&["b.ts", "a.ts"]),
        fail: vec![item("c.ts", Some("bad"), None), item("d.ts", None, Some(false))],
    };
    let out = expand_compact_response(batch);
    let files: Vec<&str> = out.iter().map(|(f, _)| f.as_str()).collect();
    assert_eq!(files, vec!["b.ts", "a.ts", "c.ts", "d.ts"]);
    assert!(matches!(out[0].1, HandlerResult::Pass(true)));
    assert!(matches!(out[1].1, HandlerResult::Pass(true)));
    match &out[2].1 {
        HandlerResult::Failure(e) => {
            assert_eq!(e.error.as_deref(), Some("bad"));
            assert_eq!(e.fixable, Some(true));
            assert_eq!(e.fixed, None);
            assert_eq!(e.manual_fix.as_deref(), Some("run the formatter"));
            assert!(e.name.is_none() && e.file.is_none());
        }
        other => panic!("expected a failure, got {other:?}"),
    }
    assert!(out[3].1.is_fix_failed());
}

#[test]
fn compact_response_round_trips() {
    let batch = CompactBatchResponse {
        pass: strings(&["p1", "p2"]),
        fail: vec![item("f1", Some("e1"), Some(true)), item("f2", None, None)],
    };
    let expected = batch.clone();
    let out = expand_compact_response(batch);
    let mut pass: Vec<String> = Vec::new();
    let mut fail: Vec<CompactBatchFailureItem> = Vec::new();
    for (file, result) in out {
        match result {
            HandlerResult::Pass(true) => pass.push(file),
            HandlerResult::Failure(e) => fail.push(CompactBatchFailureItem {
                file,
                error: e.error,
                error_messages: e.error_messages,
                fixable: e.fixable,
                fixed: e.fixed,
                manual_fix: e.manual_fix,
            }),
            HandlerResult::Pass(false) => panic!("expansion produced a false pass"),
        }
    }
    assert_eq!(pass, expected.pass);
    assert_eq!(fail.len(), expected.fail.len());
    for (a, b) in fail.iter().zip(expected.fail.iter()) {
        assert_eq!(a.file, b.file);
        assert_eq!(a.error, b.error);
        assert_eq!(a.error_messages, b.error_messages);
        assert_eq!(a.fixable, b.fixable);
        assert_eq!(a.fixed, b.fixed);
        assert_eq!(a.manual_fix, b.manual_fix);
    }
}

#[test]
fn empty_compact_response_expands_to_nothing() {
    let out = expand_compact_response(CompactBatchResponse { pass: vec![], fail: vec![] });
    assert!(out.is_empty());
}

fn err(error: Option<&str>, messages: Option<&[&str]>) -> HandlerResult {
    HandlerResult::Failure(PolicyErrorResult {
        error: error.map(|s| s.to_string()),
        error_messages: messages.map(strings),
        name: None,
        file: None,
        fixable: Some(false),
        fixed: Some(true),
        manual_fix: None,
    })
}

#[test]
fn error_message_prefers_error_then_joined_messages() {
    assert_eq!(err(Some("main"), Some(&["x"])).error_message().as_deref(), Some("main"));
    assert_eq!(err(None, Some(&["x", "y", "z"])).error_message().as_deref(), Some("x; y; z"));
    assert_eq!(err(None, Some(&["only"])).error_message().as_deref(), Some("only"));
    assert_eq!(err(None, Some(&[])).error_message(), None);
    assert_eq!(err(None, None).error_message(), None);
    assert_eq!(HandlerResult::Pass(true).error_message(), None);
}

#[test]
fn handler_result_predicates() {
    let fixed = err(None, None);
    assert!(!fixed.is_pass());
    assert!(fixed.is_fixed());
    assert!(!fixed.is_fix_failed());
    assert!(!fixed.is_fixable());
    assert!(HandlerResult::Pass(true).is_pass());
    assert!(!HandlerResult::Pass(false).is_pass());
    assert!(!HandlerResult::Pass(true).is_fixed());
    assert_eq!(HandlerResult::Pass(true).manual_fix(), None);
    let with_fix = HandlerResult::Failure(PolicyErrorResult {
        error: None,
        error_messages: None,
        name: Some("p".to_string()),
        file: Some("f".to_string()),
        fixable: Some(true),
        fixed: Some(false),
        manual_fix: Some("edit it".to_string()),
    });
    assert!(with_fix.is_fixable());
    assert!(with_fix.is_fix_failed());
    assert_eq!(with_fix.manual_fix(), Some("edit it"));
}

#[test]
fn relative_paths_resolve_under_the_root() {
    assert_eq!(resolve_path("/repo", "src/a.ts"), "/repo/src/a.ts");
    assert_eq!(resolve_path("/repo//", "a"), "/repo/a");
    assert_eq!(join_path("/repo/", "b", false), "/repo/b");
    assert_eq!(join_path("/repo/", "/etc/x", true), "/etc/x");
}

#[test]
fn absolute_paths_pass_through() {
    assert_eq!(resolve_path("/repo", "/tmp/x.txt"), "/tmp/x.txt");
}

#[test]
fn call_expression_escapes_its_literals() {
    let e = batch_call_expression("f", 12, r#"["a'b","c\\d"]"#, "/r'oot", Some(false));
    assert_eq!(e, r#"f(12, '["a\'b","c\\\\d"]', '/r\'oot', false)"#);
    let e = batch_call_expression("g", 0, "[]", "/", None);
    assert_eq!(e, "g(0, '[]', '/')");
}

#[test]
fn handler_batch_expression_encodes_files_as_json() {
    let files = strings(&["a'b.ts", "c\\d", "tab\there"]);
    let e = handler_batch_expression(3, &files, "/r", true);
    assert_eq!(
        e,
        r#"__repopo_runHandlerBatchSync(3, '["a\'b.ts","c\\\\d","tab\\there"]', '/r', true)"#
    );
}

#[test]
fn resolver_batch_expression_has_no_fix_flag() {
    let e = resolver_batch_expression(1, &strings(&["x.ts"]), "/root");
    assert_eq!(e, r#"__repopo_runResolverBatchSync(1, '["x.ts"]', '/root')"#);
    let e = resolver_batch_expression(7, &vec![], "/root");
    assert_eq!(e, "__repopo_runResolverBatchSync(7, '[]', '/root')");
}

#[test]
fn drain_step_decisions() {
    assert_eq!(drain_step(Ok(false), 4, 10), DrainStep::Finished(4));
    assert_eq!(drain_step(Ok(true), 4, 10), DrainStep::Continue(5));
    assert_eq!(drain_step(Err(()), 4, 10), DrainStep::Continue(5));
    assert_eq!(drain_step(Ok(true), 9, 10), DrainStep::LimitExceeded);
    assert_eq!(drain_step(Err(()), 9, 10), DrainStep::LimitExceeded);
}

/// Drains the job queue the way the embedded backend does, with each
/// decision taken by `drain_step`.
fn drain(rt: &rquickjs::Runtime, limit: u32) -> Result<u32, u32> {
    let mut done: u32 = 0;
    while rt.is_job_pending() {
        let outcome = match rt.execute_pending_job() {
            Ok(ran) => Ok(ran),
            Err(_) => Err(()),
        };
        match drain_step(outcome, done, limit) {
            DrainStep::Continue(n) => done = n,
            DrainStep::Finished(n) => return Ok(n),
            DrainStep::LimitExceeded => return Err(limit),
        }
    }
    Ok(done)
}

#[test]
fn draining_an_idle_engine_runs_no_job() {
    let rt = rquickjs::Runtime::new().unwrap();
    assert_eq!(drain(&rt, MAX_JOB_ITERATIONS), Ok(0));
}

#[test]
fn draining_runs_queued_jobs() {
    let rt = rquickjs::Runtime::new().unwrap();
    let ctx = rquickjs::Context::full(&rt).unwrap();
    ctx.with(|ctx| {
        let _: rquickjs::Value = ctx
            .eval("globalThis.done = 0; Promise.resolve().then(() => { globalThis.done = 1; });")
            .unwrap();
    });
    let ran = drain(&rt, MAX_JOB_ITERATIONS).unwrap();
    assert!(ran >= 1);
    let done: i32 = ctx.with(|ctx| ctx.globals().get("done").unwrap());
    assert_eq!(done, 1);
}

#[test]
fn draining_stops_at_the_ceiling() {
    let rt = rquickjs::Runtime::new().unwrap();
    let ctx = rquickjs::Context::full(&rt).unwrap();
    ctx.with(|ctx| {
        let _: rquickjs::Value = ctx
            .eval("function spin() { Promise.resolve().then(spin); } spin();")
            .unwrap();
    });
    assert_eq!(drain(&rt, 5), Err(5));
}

#[test]
fn messages_are_newline_framed() {
    assert_eq!(frame_message(r#"{"method":"shutdown"}"#), "{\"method\":\"shutdown\"}\n");
    assert_eq!(frame_message(""), "\n");
}

#[test]
fn empty_response_line_means_closed() {
    assert!(matches!(check_response_line(""), Err(SidecarError::Closed)));
    assert!(check_response_line("{}\n").is_ok());
}

#[test]
fn response_envelope_is_checked() {
    let ok = IpcResponse { ok: true, error: None, data: Some(serde_json::Value::Bool(true)) };
    assert_eq!(ok.into_data().unwrap(), serde_json::Value::Bool(true));
    let failed = IpcResponse { ok: false, error: Some("boom".to_string()), data: None };
    assert!(matches!(failed.into_data(), Err(SidecarError::Remote(m)) if m == "boom"));
    let silent = IpcResponse { ok: false, error: None, data: Some(serde_json::Value::Null) };
    assert!(matches!(silent.into_data(), Err(SidecarError::NoMessage)));
    let empty = IpcResponse { ok: true, error: None, data: None };
    assert!(matches!(empty.into_data(), Err(SidecarError::NoData)));
}

#[test]
fn file_list_is_normalised() {
    let out = normalize_file_list(&strings(&["a\\b\\c.ts", "", "d/e.ts", "f"]));
    assert_eq!(out, strings(&["a/b/c.ts", "d/e.ts", "f"]));
    assert_eq!(normalize_path("x\\y"), "x/y");
    assert!(normalize_file_list(&vec![]).is_empty());
}

#[test]
fn js_regex_flags() {
    let m = compile_js_regex("^A", "gi");
    assert!(m.is_ok());
    match compile_js_regex("a{2,1}", "") {
        Err(e) => {
            assert_eq!(e.pattern, "a{2,1}");
            assert_eq!(e.flags, "");
        }
        Ok(_) => panic!("an invalid pattern compiled"),
    }
    assert!(str_has_char("gim", 'i'));
    assert!(!str_has_char("gm", 'i'));
    assert!(!str_has_char("", 'i'));
}

#[test]
fn stats_accumulate_and_saturate() {
    let mut s = PerfStats::new();
    assert_eq!(s.total_files, 0);
    s.record_handler("a", 5);
    s.record_handler("b", 8);
    s.record_handler("a", 4);
    s.record_resolver("a", u64::MAX);
    s.record_resolver("a", 1);
    let h = s.handler_times_by_duration();
    let h: Vec<(&str, u64)> = h.iter().map(|t| (t.name.as_str(), t.micros)).collect();
    assert_eq!(h, vec![("a", 9), ("b", 8)]);
    let r = s.resolver_times_by_duration();
    assert_eq!((r[0].name.as_str(), r[0].micros), ("a", u64::MAX));
    assert_eq!(r.len(), 1);
}

#[test]
fn boolean_results_of_single_calls() {
    assert!(matches!(boolean_result(true), Ok(HandlerResult::Pass(true))));
    assert!(matches!(boolean_result(false), Err(SidecarError::ReturnedFalse)));
}

#[test]
fn relative_path_without_separator_or_colon_goes_under_root() {
    assert_eq!(resolve_path("/srv/repo/", "docs/readme.md"), "/srv/repo/docs/readme.md");
    assert_eq!(resolve_path("/srv/repo", ""), "/srv/repo/");
}
