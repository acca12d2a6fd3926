use glypheris::plan::{encode_plan, ExecutionPlan, TaskNode};
use glypheris::runtime::{start_event, tool_for, ExecutionLogEvent, PlanRun, Step, Tool};

fn node(id: &str, tool: &str, params: &str) -> TaskNode {
    TaskNode {
        task_id: id.to_string(),
        tool_name: tool.to_string(),
        parameters_json: params.to_string(),
        dependencies: vec![],
    }
}

fn plan_bytes(nodes: Vec<TaskNode>, max_retries: i32) -> Vec<u8> {
    let mut p = ExecutionPlan::default();
    p.objective = "tidy up".to_string();
    p.max_retries = max_retries;
    p.nodes = nodes;
    encode_plan(&p)
}

fn lines(evs: &[ExecutionLogEvent]) -> Vec<(String, String)> {
    evs.iter().map(|e| (e.status.clone(), e.message.clone())).collect()
}

fn pair(s: &str, m: &str) -> (String, String) {
    (s.to_string(), m.to_string())
}

#[test]
fn tool_names() {
    assert_eq!(tool_for("http_get"), Some(Tool::HttpGet));
    assert_eq!(tool_for("fs_read"), Some(Tool::FsRead));
    assert_eq!(tool_for("fs_write"), Some(Tool::FsWrite));
    assert_eq!(tool_for("rm_rf"), None);
}

#[test]
fn start_event_text() {
    let e = start_event("s1");
    assert_eq!(e.session_id, "s1");
    assert_eq!(e.status, "INFO");
    assert_eq!(e.message, "Initializing Verified Execution Runtime...");
}

fn node_after(id: &str, tool: &str, deps: &[&str]) -> TaskNode {
    let mut n = node(id, tool, "{}");
    n.dependencies = deps.iter().map(|d| d.to_string()).collect();
    n
}

fn plan_with(nodes: Vec<TaskNode>, max_retries: i32, timeout_ms: i32, confirm: bool) -> Vec<u8> {
    let mut p = ExecutionPlan::default();
    p.objective = "tidy up".to_string();
    p.max_retries = max_retries;
    p.timeout_ms = timeout_ms;
    p.requires_confirmation = confirm;
    p.nodes = nodes;
    encode_plan(&p)
}

#[test]
fn run_with_retries_retries_then_aborts() {
    let bytes = plan_bytes(vec![node("a", "http_get", "{\"url\":\"u\"}"), node("c", "fs_read", "{}")], 1);
    let (mut run, evs) = PlanRun::open("s", &bytes).ok().unwrap();
    assert_eq!(lines(&evs), vec![pair("INFO", "Executing Plan: tidy up"), pair("INFO", "Nodes to process: 2")]);

    let (step, evs) = run.next_step(0);
    assert_eq!(lines(&evs), vec![pair("RUNNING", "Task [a]: http_get")]);
    match step {
        Step::Call { tool, parameters_json } => {
            assert_eq!(tool, Tool::HttpGet);
            assert_eq!(parameters_json, "{\"url\":\"u\"}");
        }
        _ => panic!("expected a tool call"),
    }
    assert!(run.is_pending());
    let (abort, evs) = run.finish_task(Ok(5));
    assert!(abort.is_none());
    assert_eq!(lines(&evs), vec![pair("SUCCESS", "Task [a] completed. Output len: 5")]);

    let (step, _) = run.next_step(0);
    assert!(matches!(step, Step::Call { tool: Tool::FsRead, .. }));
    let (abort, evs) = run.finish_task(Err("no such file".to_string()));
    assert!(abort.is_none());
    assert_eq!(
        lines(&evs),
        vec![pair("ERROR", "Task [c] failed: no such file"), pair("RETRY", "Task [c] retry 1 of 1")]
    );
    let (step, evs) = run.next_step(0);
    assert_eq!(lines(&evs), vec![pair("RUNNING", "Task [c]: fs_read")]);
    assert!(matches!(step, Step::Call { tool: Tool::FsRead, .. }));
    let (abort, evs) = run.finish_task(Err("still missing".to_string()));
    assert_eq!(abort, Some("still missing".to_string()));
    assert_eq!(
        lines(&evs),
        vec![pair("ERROR", "Task [c] failed: still missing"), pair("CRITICAL", "Plan aborted due to task failure.")]
    );
    assert!(run.is_finished());
}

#[test]
fn unknown_tool_is_retried_then_aborts() {
    let bytes = plan_bytes(vec![node("b", "bogus", ""), node("c", "fs_read", "{}")], 2);
    let (mut run, _) = PlanRun::open("s", &bytes).ok().unwrap();
    for k in 1..=2 {
        let (step, evs) = run.next_step(0);
        assert!(matches!(step, Step::Continue));
        assert_eq!(
            lines(&evs),
            vec![
                pair("RUNNING", "Task [b]: bogus"),
                pair("ERROR", "Task [b] failed: Unknown tool: bogus"),
                pair("RETRY", &format!("Task [b] retry {} of 2", k)),
            ]
        );
        assert!(!run.is_finished());
    }
    let (step, evs) = run.next_step(0);
    match step {
        Step::Finished(Err(e)) => assert_eq!(e, "Unknown tool: bogus"),
        _ => panic!("expected the plan to end"),
    }
    assert_eq!(
        lines(&evs),
        vec![
            pair("RUNNING", "Task [b]: bogus"),
            pair("ERROR", "Task [b] failed: Unknown tool: bogus"),
            pair("CRITICAL", "Plan aborted due to task failure."),
        ]
    );
    assert!(run.is_finished());
}

#[test]
fn run_without_retries_aborts_on_tool_failure() {
    let bytes = plan_bytes(vec![node("a", "fs_write", "{}"), node("b", "http_get", "{}")], 0);
    let (mut run, _) = PlanRun::open("s", &bytes).ok().unwrap();
    let (_, _) = run.next_step(0);
    let (abort, evs) = run.finish_task(Err("disk full".to_string()));
    assert_eq!(abort, Some("disk full".to_string()));
    assert_eq!(
        lines(&evs),
        vec![pair("ERROR", "Task [a] failed: disk full"), pair("CRITICAL", "Plan aborted due to task failure.")]
    );
    assert!(run.is_finished());
}

#[test]
fn run_without_retries_aborts_on_unknown_tool() {
    let bytes = plan_bytes(vec![node("x", "launch", "{}"), node("y", "http_get", "{}")], 0);
    let (mut run, _) = PlanRun::open("s", &bytes).ok().unwrap();
    let (step, evs) = run.next_step(0);
    match step {
        Step::Finished(Err(e)) => assert_eq!(e, "Unknown tool: launch"),
        _ => panic!("expected the plan to end"),
    }
    assert_eq!(
        lines(&evs),
        vec![
            pair("RUNNING", "Task [x]: launch"),
            pair("ERROR", "Task [x] failed: Unknown tool: launch"),
            pair("CRITICAL", "Plan aborted due to task failure."),
        ]
    );
}

#[test]
fn dependencies_complete_first() {
    let bytes = plan_with(vec![node_after("a", "fs_read", &["b"]), node_after("b", "fs_write", &[])], 0, 0, false);
    let (mut run, _) = PlanRun::open("s", &bytes).ok().unwrap();
    let (step, evs) = run.next_step(0);
    assert!(matches!(step, Step::Call { tool: Tool::FsWrite, .. }));
    assert_eq!(lines(&evs), vec![pair("RUNNING", "Task [b]: fs_write")]);
    run.finish_task(Ok(0));
    let (step, evs) = run.next_step(0);
    assert!(matches!(step, Step::Call { tool: Tool::FsRead, .. }));
    assert_eq!(lines(&evs), vec![pair("RUNNING", "Task [a]: fs_read")]);
    run.finish_task(Ok(0));
    let (step, _) = run.next_step(0);
    assert!(matches!(step, Step::Finished(Ok(()))));
}

#[test]
fn unmet_dependencies_block_the_plan() {
    let bytes = plan_with(vec![node_after("a", "fs_read", &["missing"])], 2, 0, false);
    let (mut run, _) = PlanRun::open("s", &bytes).ok().unwrap();
    let (step, evs) = run.next_step(0);
    match step {
        Step::Finished(Err(e)) => assert_eq!(e, "Plan blocked: remaining tasks have unmet dependencies."),
        _ => panic!("expected the plan to be blocked"),
    }
    assert_eq!(lines(&evs), vec![pair("CRITICAL", "Plan blocked: remaining tasks have unmet dependencies.")]);
}

#[test]
fn confirmation_is_awaited() {
    let bytes = plan_with(vec![node("a", "fs_read", "{}")], 0, 0, true);
    let (mut run, _) = PlanRun::open("s", &bytes).ok().unwrap();
    let (step, evs) = run.next_step(0);
    assert!(matches!(step, Step::AwaitApproval));
    assert_eq!(lines(&evs), vec![pair("INFO", "Awaiting approval before execution.")]);
    assert!(run.is_awaiting_approval());
    let (abort, evs) = run.approve(true);
    assert!(abort.is_none());
    assert_eq!(lines(&evs), vec![pair("INFO", "Execution approved.")]);
    let (step, _) = run.next_step(0);
    assert!(matches!(step, Step::Call { tool: Tool::FsRead, .. }));

    let (mut refused, _) = PlanRun::open("s", &bytes).ok().unwrap();
    let _ = refused.next_step(0);
    let (abort, evs) = refused.approve(false);
    assert_eq!(abort, Some("Plan execution was not approved.".to_string()));
    assert_eq!(lines(&evs), vec![pair("CRITICAL", "Plan execution was not approved.")]);
    assert!(refused.is_finished());
}

#[test]
fn deadline_stops_the_run() {
    let bytes = plan_with(vec![node("a", "fs_read", "{}"), node("b", "fs_read", "{}")], 0, 100, false);
    let (mut run, _) = PlanRun::open("s", &bytes).ok().unwrap();
    let (step, _) = run.next_step(99);
    assert!(matches!(step, Step::Call { .. }));
    run.finish_task(Ok(1));
    let (step, evs) = run.next_step(100);
    match step {
        Step::Finished(Err(e)) => assert_eq!(e, "Plan deadline exceeded after 100 ms."),
        _ => panic!("expected the deadline to end the run"),
    }
    assert_eq!(lines(&evs), vec![pair("CRITICAL", "Plan deadline exceeded after 100 ms.")]);
}

#[test]
fn empty_plan_is_done_at_once() {
    let (mut run, evs) = PlanRun::open("s", &plan_bytes(vec![], 0)).ok().unwrap();
    assert_eq!(evs[1].message, "Nodes to process: 0");
    let (step, evs) = run.next_step(0);
    assert!(matches!(step, Step::Finished(Ok(()))));
    assert_eq!(lines(&evs), vec![pair("DONE", "Plan execution completed successfully.")]);
}

#[test]
fn bad_packet_is_reported() {
    let (msg, ev) = PlanRun::open("s", &[0xFF]).err().unwrap();
    let expected = prost::encoding::decode_varint(&mut &[0xFFu8][..]).unwrap_err().to_string();
    assert_eq!(msg, expected);
    assert_eq!(msg, "failed to decode Protobuf message: invalid varint");
    assert_eq!(ev.status, "ERROR");
    assert_eq!(ev.message, format!("Failed to decode ExecutionPlan: {}", expected));
}
