//! The plan runtime: which task runs next (in plan order, once its
//! dependencies have completed), what each outcome means for the plan
//! (retries, then aborting), the approval gate and the
//! deadline, and the log events the run reports. The tools themselves (HTTP,
//! sandboxed file access), the human's answer and the clock are the caller's:
//! they come in between the steps.

use vstd::prelude::*;
use vstd::string::StringExecFns;
use crate::plan::{decode_plan, plan_decode, ExecutionPlanView, TaskNode, TaskNodeView, nodes_view};
use crate::text::{decimal, push_decimal, str_eq};
use crate::wire::{strings_view, wire_error_text};

verus! {

pub const STATUS_INFO: &'static str = "INFO";
pub const STATUS_RUNNING: &'static str = "RUNNING";
pub const STATUS_SUCCESS: &'static str = "SUCCESS";
pub const STATUS_ERROR: &'static str = "ERROR";
pub const STATUS_CRITICAL: &'static str = "CRITICAL";
pub const STATUS_DONE: &'static str = "DONE";

/// Reported before anything else.
pub const MSG_INIT: &'static str = "Initializing Verified Execution Runtime...";
/// Before the decode error of a packet that is not a plan.
pub const MSG_DECODE_FAILED: &'static str = "Failed to decode ExecutionPlan: ";
/// Before the plan's objective.
pub const MSG_EXECUTING: &'static str = "Executing Plan: ";
/// Before the number of nodes.
pub const MSG_NODES: &'static str = "Nodes to process: ";
/// Before a task id.
pub const MSG_TASK: &'static str = "Task [";
/// Between a task id and its tool name.
pub const MSG_TASK_TOOL: &'static str = "]: ";
/// Between a task id and the length of its output.
pub const MSG_TASK_DONE: &'static str = "] completed. Output len: ";
/// Between a task id and its error.
pub const MSG_TASK_FAILED: &'static str = "] failed: ";
/// Reported when a failure ends the plan.
pub const MSG_ABORTED: &'static str = "Plan aborted due to task failure.";
/// Reported when every node has been processed.
pub const MSG_DONE: &'static str = "Plan execution completed successfully.";
/// Before the name of a tool that is not built in.
pub const UNKNOWN_TOOL: &'static str = "Unknown tool: ";

/// One line of the execution log, as sent to the user interface.
pub struct ExecutionLogEvent {
    pub session_id: String,
    pub status: String,
    pub message: String,
}

/// The value of an [`ExecutionLogEvent`].
pub struct LogEventView {
    pub session_id: Seq<char>,
    pub status: Seq<char>,
    pub message: Seq<char>,
}

impl View for ExecutionLogEvent {
    type V = LogEventView;

    open spec fn view(&self) -> LogEventView {
        LogEventView { session_id: self.session_id@, status: self.status@, message: self.message@ }
    }
}

/// The event with these parts.
pub open spec fn log_event(session_id: Seq<char>, status: Seq<char>, message: Seq<char>) -> LogEventView {
    LogEventView { session_id, status, message }
}

/// The value of each event.
pub open spec fn events_view(v: Seq<ExecutionLogEvent>) -> Seq<LogEventView> {
    v.map_values(|e: ExecutionLogEvent| e@)
}

fn make_event(session_id: &str, status: &str, message: String) -> (r: ExecutionLogEvent)
    ensures
        r@ == log_event(session_id@, status@, message@),
{
    ExecutionLogEvent {
        session_id: String::from_str(session_id),
        status: String::from_str(status),
        message,
    }
}

/// The first event of every run.
pub fn start_event(session_id: &str) -> (r: ExecutionLogEvent)
    ensures
        r@ == log_event(session_id@, STATUS_INFO@, MSG_INIT@),
{
    make_event(session_id, STATUS_INFO, String::from_str(MSG_INIT))
}

/// The built-in tools a task can name.
#[derive(Clone, Copy, Debug, PartialEq, Eq, Structural)]
pub enum Tool {
    /// `http_get`: fetches a URL.
    HttpGet,
    /// `fs_read`: reads a file of the sandbox.
    FsRead,
    /// `fs_write`: writes a file of the sandbox.
    FsWrite,
}

/// The built-in tool a name stands for.
pub open spec fn tool_of(name: Seq<char>) -> Option<Tool> {
    if name == "http_get"@ {
        Some(Tool::HttpGet)
    } else if name == "fs_read"@ {
        Some(Tool::FsRead)
    } else if name == "fs_write"@ {
        Some(Tool::FsWrite)
    } else {
        None
    }
}

/// The name a task gives a built-in tool.
pub open spec fn tool_name(t: Tool) -> Seq<char> {
    match t {
        Tool::HttpGet => "http_get"@,
        Tool::FsRead => "fs_read"@,
        Tool::FsWrite => "fs_write"@,
    }
}

/// Reads a tool name.
pub fn tool_for(name: &str) -> (r: Option<Tool>)
    ensures
        r == tool_of(name@),
{
    if str_eq(name, "http_get") {
        Some(Tool::HttpGet)
    } else if str_eq(name, "fs_read") {
        Some(Tool::FsRead)
    } else if str_eq(name, "fs_write") {
        Some(Tool::FsWrite)
    } else {
        None
    }
}

/// `Task [<id>]: <tool>`.
pub open spec fn task_line(n: TaskNodeView) -> Seq<char> {
    MSG_TASK@ + n.task_id + MSG_TASK_TOOL@ + n.tool_name
}

/// `Task [<id>] completed. Output len: <len>`.
pub open spec fn task_done_line(n: TaskNodeView, len: nat) -> Seq<char> {
    MSG_TASK@ + n.task_id + MSG_TASK_DONE@ + decimal(len)
}

/// `Task [<id>] failed: <error>`.
pub open spec fn task_failed_line(n: TaskNodeView, err: Seq<char>) -> Seq<char> {
    MSG_TASK@ + n.task_id + MSG_TASK_FAILED@ + err
}

} // verus!


verus! {

/// Reported while the plan waits for a human to approve it.
pub const MSG_AWAITING: &'static str = "Awaiting approval before execution.";
/// Reported when the plan is approved.
pub const MSG_APPROVED: &'static str = "Execution approved.";
/// Reported, and returned, when the plan is refused.
pub const MSG_NOT_APPROVED: &'static str = "Plan execution was not approved.";
/// Reported, and returned, when tasks remain whose dependencies cannot complete.
pub const MSG_BLOCKED: &'static str = "Plan blocked: remaining tasks have unmet dependencies.";
/// Before the deadline, when it has passed.
pub const MSG_DEADLINE: &'static str = "Plan deadline exceeded after ";
/// After the deadline.
pub const MSG_DEADLINE_UNIT: &'static str = " ms.";
/// Between a task id and the number of its retry.
pub const MSG_TASK_RETRY: &'static str = "] retry ";
/// Between the number of a retry and how many the plan allows.
pub const MSG_OF: &'static str = " of ";
/// Status of a retry event.
pub const STATUS_RETRY: &'static str = "RETRY";

/// Where a node stands in a run.
#[derive(Clone, Copy, Debug, PartialEq, Eq, Structural)]
pub enum NodeState {
    /// Not yet completed, and not given up on.
    Waiting,
    /// Its tool completed.
    Done,
    /// Its tool failed for the last time.
    Failed,
}

/// A plan being run: its nodes and settings, where each node stands, how
/// often each has failed, the node whose tool is running, and whether the
/// run waits for approval or is over.
pub struct PlanRun {
    session_id: String,
    nodes: Vec<TaskNode>,
    max_retries: i32,
    timeout_ms: i32,
    awaiting_approval: bool,
    states: Vec<NodeState>,
    failures: Vec<u32>,
    current: usize,
    pending: bool,
    finished: bool,
}

/// The value of a [`PlanRun`].
pub struct PlanRunView {
    pub session_id: Seq<char>,
    pub nodes: Seq<TaskNodeView>,
    pub max_retries: i32,
    pub timeout_ms: i32,
    pub awaiting_approval: bool,
    pub states: Seq<NodeState>,
    pub failures: Seq<u32>,
    pub current: nat,
    pub pending: bool,
    pub finished: bool,
}

impl View for PlanRun {
    type V = PlanRunView;

    closed spec fn view(&self) -> PlanRunView {
        PlanRunView {
            session_id: self.session_id@,
            nodes: nodes_view(self.nodes@),
            max_retries: self.max_retries,
            timeout_ms: self.timeout_ms,
            awaiting_approval: self.awaiting_approval,
            states: self.states@,
            failures: self.failures@,
            current: self.current as nat,
            pending: self.pending,
            finished: self.finished,
        }
    }
}

/// How many times a failed task is tried again: `max_retries`, none when
/// it is zero or negative.
pub open spec fn retries(r: PlanRunView) -> nat {
    if r.max_retries > 0 {
        r.max_retries as nat
    } else {
        0
    }
}

/// Some node with id `d` has completed.
pub open spec fn dep_done(r: PlanRunView, d: Seq<char>) -> bool {
    exists|j: int| 0 <= j < r.nodes.len() && #[trigger] r.nodes[j].task_id == d && r.states[j] == NodeState::Done
}

/// Node `i` waits and every task it depends on has completed.
pub open spec fn ready(r: PlanRunView, i: int) -> bool {
    &&& r.states[i] == NodeState::Waiting
    &&& forall|k: int| 0 <= k < r.nodes[i].dependencies.len() ==> dep_done(r, #[trigger] r.nodes[i].dependencies[k])
}

/// The first ready node at or after `i`.
pub open spec fn first_ready_from(r: PlanRunView, i: nat) -> Option<nat>
    decreases r.nodes.len() - i,
{
    if i >= r.nodes.len() {
        None
    } else if ready(r, i as int) {
        Some(i)
    } else {
        first_ready_from(r, i + 1)
    }
}

/// Some node still waits.
pub open spec fn any_waiting(r: PlanRunView) -> bool {
    exists|i: int| 0 <= i < r.states.len() && #[trigger] r.states[i] == NodeState::Waiting
}

/// The deadline, when the plan has one, has passed after `elapsed_ms`.
pub open spec fn deadline_passed(r: PlanRunView, elapsed_ms: nat) -> bool {
    r.timeout_ms > 0 && elapsed_ms >= r.timeout_ms
}

/// What is reported, and returned, when the deadline has passed.
pub open spec fn deadline_line(r: PlanRunView) -> Seq<char> {
    MSG_DEADLINE@ + decimal(r.timeout_ms as nat) + MSG_DEADLINE_UNIT@
}

/// `Task [<id>] retry <k> of <n>`.
pub open spec fn task_retry_line(n: TaskNodeView, k: nat, of: nat) -> Seq<char> {
    MSG_TASK@ + n.task_id + MSG_TASK_RETRY@ + decimal(k) + MSG_OF@ + decimal(of)
}

/// The states a run can be in: one state and one failure count per node, a
/// waiting node has failed at most as often as retries allow, a running tool
/// belongs to a waiting node that names a built-in one, and a run that is
/// over or waits for approval has no tool running.
pub open spec fn run_ok(r: PlanRunView) -> bool {
    &&& r.states.len() == r.nodes.len()
    &&& r.failures.len() == r.nodes.len()
    &&& forall|i: int| 0 <= i < r.nodes.len() && r.states[i] == NodeState::Waiting ==> #[trigger] r.failures[i] <= retries(r)
    &&& r.pending ==> r.current < r.nodes.len() && r.states[r.current as int] == NodeState::Waiting
        && tool_of(r.nodes[r.current as int].tool_name) is Some
    &&& r.finished ==> !r.pending
    &&& r.awaiting_approval ==> !r.pending
}

impl PlanRun {
    /// Every run is in one of the states of [`run_ok`].
    #[verifier::type_invariant]
    spec fn wf(self) -> bool {
        run_ok(self@)
    }
}

/// What a step asks of the caller.
pub enum Step {
    /// Run `tool` with these parameters, then report the outcome.
    Call { tool: Tool, parameters_json: String },
    /// Ask a human to approve the plan, then report the answer.
    AwaitApproval,
    /// A node failed on the spot; ask for the next step.
    Continue,
    /// The run is over, with this result.
    Finished(Result<(), String>),
}

/// The value of a [`Step`].
pub enum StepView {
    Call { tool: Tool, parameters_json: Seq<char> },
    AwaitApproval,
    Continue,
    Finished(Result<(), Seq<char>>),
}

impl View for Step {
    type V = StepView;

    open spec fn view(&self) -> StepView {
        match self {
            Step::Call { tool, parameters_json } => StepView::Call {
                tool: *tool,
                parameters_json: parameters_json@,
            },
            Step::AwaitApproval => StepView::AwaitApproval,
            Step::Continue => StepView::Continue,
            Step::Finished(Ok(())) => StepView::Finished(Ok(())),
            Step::Finished(Err(e)) => StepView::Finished(Err(e@)),
        }
    }
}

/// The run of a freshly decoded plan: every node waiting and not yet
/// failed, and approval awaited when the plan asks for it.
pub open spec fn run_start(session_id: Seq<char>, p: ExecutionPlanView) -> PlanRunView {
    PlanRunView {
        session_id,
        nodes: p.nodes,
        max_retries: p.max_retries,
        timeout_ms: p.timeout_ms,
        awaiting_approval: p.requires_confirmation,
        states: Seq::new(p.nodes.len(), |i: int| NodeState::Waiting),
        failures: Seq::new(p.nodes.len(), |i: int| 0u32),
        current: 0,
        pending: false,
        finished: false,
    }
}

/// What opening a run reports about the plan.
pub open spec fn open_events(session_id: Seq<char>, p: ExecutionPlanView) -> Seq<LogEventView> {
    seq![
        log_event(session_id, STATUS_INFO@, MSG_EXECUTING@ + p.objective),
        log_event(session_id, STATUS_INFO@, MSG_NODES@ + decimal(p.nodes.len())),
    ]
}

/// One step of a run that is neither over nor waiting for a tool, `elapsed_ms`
/// after the run began. Once the deadline has passed the run ends. While
/// approval is awaited the caller is asked for it. Otherwise the first node
/// in plan order that waits and whose dependencies have all completed is
/// taken: a built-in tool is handed to the caller; another tool fails on the
/// spot, a failure counted and retried like any other (see [`fail_spec`]).
/// When no node is ready the run is done, or blocked if nodes still wait.
pub open spec fn step_spec(r: PlanRunView, elapsed_ms: nat) -> (PlanRunView, StepView, Seq<LogEventView>) {
    if deadline_passed(r, elapsed_ms) {
        (
            PlanRunView { finished: true, ..r },
            StepView::Finished(Err(deadline_line(r))),
            seq![log_event(r.session_id, STATUS_CRITICAL@, deadline_line(r))],
        )
    } else if r.awaiting_approval {
        (r, StepView::AwaitApproval, seq![log_event(r.session_id, STATUS_INFO@, MSG_AWAITING@)])
    } else {
        match first_ready_from(r, 0) {
            None => if any_waiting(r) {
                (
                    PlanRunView { finished: true, ..r },
                    StepView::Finished(Err(MSG_BLOCKED@)),
                    seq![log_event(r.session_id, STATUS_CRITICAL@, MSG_BLOCKED@)],
                )
            } else {
                (
                    PlanRunView { finished: true, ..r },
                    StepView::Finished(Ok(())),
                    seq![log_event(r.session_id, STATUS_DONE@, MSG_DONE@)],
                )
            },
            Some(i) => {
                let n = r.nodes[i as int];
                let running = log_event(r.session_id, STATUS_RUNNING@, task_line(n));
                match tool_of(n.tool_name) {
                    Some(t) => (
                        PlanRunView { pending: true, current: i, ..r },
                        StepView::Call { tool: t, parameters_json: n.parameters_json },
                        seq![running],
                    ),
                    None => {
                        let (r2, abort, evs) = fail_spec(r, i as int, UNKNOWN_TOOL@ + n.tool_name);
                        (
                            r2,
                            match abort {
                                Some(e) => StepView::Finished(Err(e)),
                                None => StepView::Continue,
                            },
                            seq![running] + evs,
                        )
                    },
                }
            },
        }
    }
}

/// The answer to a request for approval: granted, the run goes on; refused,
/// it ends. Returns the error that ends the plan, if it ends.
pub open spec fn approve_spec(r: PlanRunView, granted: bool) -> (PlanRunView, Option<Seq<char>>, Seq<LogEventView>) {
    if granted {
        (
            PlanRunView { awaiting_approval: false, ..r },
            None,
            seq![log_event(r.session_id, STATUS_INFO@, MSG_APPROVED@)],
        )
    } else {
        (
            PlanRunView { finished: true, ..r },
            Some(MSG_NOT_APPROVED@),
            seq![log_event(r.session_id, STATUS_CRITICAL@, MSG_NOT_APPROVED@)],
        )
    }
}

/// What the outcome of a running tool does to the run. Success completes
/// the node; a failure goes as [`fail_spec`] says. Returns the error that
/// ends the plan, if one does.
pub open spec fn finish_spec(r: PlanRunView, outcome: Result<nat, Seq<char>>) -> (PlanRunView, Option<Seq<char>>, Seq<LogEventView>) {
    let i = r.current as int;
    let n = r.nodes[i];
    match outcome {
        Ok(len) => (
            PlanRunView { pending: false, states: r.states.update(i, NodeState::Done), ..r },
            None,
            seq![log_event(r.session_id, STATUS_SUCCESS@, task_done_line(n, len))],
        ),
        Err(e) => fail_spec(PlanRunView { pending: false, ..r }, i, e),
    }
}

/// What a failure of node `i` with error `e` does to the run: it is
/// counted, and the node is tried again while it has failed no more often
/// than the plan allows retries; after that the plan is aborted. Returns
/// the error that ends the plan, if it ends.
pub open spec fn fail_spec(r: PlanRunView, i: int, e: Seq<char>) -> (PlanRunView, Option<Seq<char>>, Seq<LogEventView>) {
    let n = r.nodes[i];
    let f = (r.failures[i] + 1) as u32;
    let failed = log_event(r.session_id, STATUS_ERROR@, task_failed_line(n, e));
    let counted = PlanRunView { failures: r.failures.update(i, f), ..r };
    if f <= retries(r) {
        (
            counted,
            None,
            seq![failed, log_event(r.session_id, STATUS_RETRY@, task_retry_line(n, f as nat, retries(r)))],
        )
    } else {
        (
            PlanRunView { finished: true, states: r.states.update(i, NodeState::Failed), ..counted },
            Some(e),
            seq![failed, log_event(r.session_id, STATUS_CRITICAL@, MSG_ABORTED@)],
        )
    }
}

} // verus!


verus! {

fn task_line_text(n: &TaskNode) -> (r: String)
    ensures
        r@ == task_line(n@),
{
    let mut s = String::from_str(MSG_TASK);
    s.append(n.task_id.as_str());
    s.append(MSG_TASK_TOOL);
    s.append(n.tool_name.as_str());
    s
}

fn task_failed_text(n: &TaskNode, err: &str) -> (r: String)
    ensures
        r@ == task_failed_line(n@, err@),
{
    let mut s = String::from_str(MSG_TASK);
    s.append(n.task_id.as_str());
    s.append(MSG_TASK_FAILED);
    s.append(err);
    s
}

fn task_done_text(n: &TaskNode, len: usize) -> (r: String)
    ensures
        r@ == task_done_line(n@, len as nat),
{
    let mut s = String::from_str(MSG_TASK);
    s.append(n.task_id.as_str());
    s.append(MSG_TASK_DONE);
    push_decimal(&mut s, len);
    s
}

/// `v` with item `i` replaced by `x`.
fn replaced<T: Copy>(v: &Vec<T>, i: usize, x: T) -> (r: Vec<T>)
    requires
        i < v@.len(),
    ensures
        r@ == v@.update(i as int, x),
{
    let mut out: Vec<T> = Vec::new();
    let mut k: usize = 0;
    while k < v.len()
        invariant
            k <= v@.len(),
            i < v@.len(),
            out@ == v@.update(i as int, x).take(k as int),
        decreases v@.len() - k,
    {
        if k == i {
            out.push(x);
        } else {
            out.push(v[k]);
        }
        k = k + 1;
        assert(out@ =~= v@.update(i as int, x).take(k as int));
    }
    assert(out@ =~= v@.update(i as int, x));
    out
}

fn task_retry_text(n: &TaskNode, k: u32, of: u32) -> (r: String)
    ensures
        r@ == task_retry_line(n@, k as nat, of as nat),
{
    let mut s = String::from_str(MSG_TASK);
    s.append(n.task_id.as_str());
    s.append(MSG_TASK_RETRY);
    push_decimal(&mut s, k as usize);
    s.append(MSG_OF);
    push_decimal(&mut s, of as usize);
    s
}

impl PlanRun {
    /// Decodes the plan to run. A packet that is not a plan gives its
    /// decode error and the event that reports it.
    pub fn open(session_id: &str, binary: &[u8]) -> (r: Result<
        (PlanRun, Vec<ExecutionLogEvent>),
        (String, ExecutionLogEvent),
    >)
        ensures
            match plan_decode(binary@) {
                Ok(p) => r matches Ok((run, evs)) && run@ == run_start(session_id@, p) && run_ok(run@)
                    && events_view(evs@) == open_events(session_id@, p),
                Err(e) => r matches Err((msg, ev)) && msg@ == wire_error_text(e) && ev@ == log_event(
                    session_id@,
                    STATUS_ERROR@,
                    MSG_DECODE_FAILED@ + wire_error_text(e),
                ),
            },
    {
        match decode_plan(binary) {
            Err(e) => {
                let msg = e.message();
                let mut text = String::from_str(MSG_DECODE_FAILED);
                text.append(msg.as_str());
                let ev = make_event(session_id, STATUS_ERROR, text);
                Err((msg, ev))
            },
            Ok(p) => {
                let mut objective = String::from_str(MSG_EXECUTING);
                objective.append(p.objective.as_str());
                let mut count = String::from_str(MSG_NODES);
                push_decimal(&mut count, p.nodes.len());
                let mut evs: Vec<ExecutionLogEvent> = Vec::new();
                evs.push(make_event(session_id, STATUS_INFO, objective));
                evs.push(make_event(session_id, STATUS_INFO, count));
                let n = p.nodes.len();
                let mut states: Vec<NodeState> = Vec::new();
                let mut failures: Vec<u32> = Vec::new();
                let mut i: usize = 0;
                while i < n
                    invariant
                        i <= n,
                        states@ == Seq::new(i as nat, |k: int| NodeState::Waiting),
                        failures@ == Seq::new(i as nat, |k: int| 0u32),
                    decreases n - i,
                {
                    states.push(NodeState::Waiting);
                    failures.push(0);
                    i = i + 1;
                    assert(states@ =~= Seq::new(i as nat, |k: int| NodeState::Waiting));
                    assert(failures@ =~= Seq::new(i as nat, |k: int| 0u32));
                }
                let run = PlanRun {
                    session_id: String::from_str(session_id),
                    nodes: p.nodes,
                    max_retries: p.max_retries,
                    timeout_ms: p.timeout_ms,
                    awaiting_approval: p.requires_confirmation,
                    states,
                    failures,
                    current: 0,
                    pending: false,
                    finished: false,
                };
                assert(events_view(evs@) =~= open_events(session_id@, p@));
                assert(run@ == run_start(session_id@, p@));
                Ok((run, evs))
            },
        }
    }

    /// Whether a tool is running for this plan.
    pub fn is_pending(&self) -> (r: bool)
        ensures
            r == self@.pending,
    {
        self.pending
    }

    /// Whether the run is over.
    pub fn is_finished(&self) -> (r: bool)
        ensures
            r == self@.finished,
    {
        self.finished
    }

    /// Whether the run waits for approval.
    pub fn is_awaiting_approval(&self) -> (r: bool)
        ensures
            r == self@.awaiting_approval,
    {
        self.awaiting_approval
    }

    fn dep_done_exec(&self, d: &str) -> (r: bool)
        ensures
            r == dep_done(self@, d@),
    {
        proof {
            use_type_invariant(self);
        }
        let n = self.nodes.len();
        let mut j: usize = 0;
        while j < n
            invariant
                j <= n,
                n == self@.nodes.len(),
                self@.states.len() == n,
                forall|jj: int|
                    0 <= jj < j ==> !(#[trigger] self@.nodes[jj].task_id == d@ && self@.states[jj]
                        == NodeState::Done),
            decreases n - j,
        {
            assert(self.nodes@[j as int]@ == self@.nodes[j as int]);
            if self.states[j] == NodeState::Done && str_eq(self.nodes[j].task_id.as_str(), d) {
                assert(self@.nodes[j as int].task_id == d@ && self@.states[j as int] == NodeState::Done);
                return true;
            }
            j = j + 1;
        }
        false
    }

    fn is_ready(&self, i: usize) -> (r: bool)
        requires
            i < self@.nodes.len(),
        ensures
            r == ready(self@, i as int),
    {
        proof {
            use_type_invariant(self);
        }
        if self.states[i] != NodeState::Waiting {
            return false;
        }
        let node = &self.nodes[i];
        assert(node@ == self@.nodes[i as int]);
        let m = node.dependencies.len();
        let mut k: usize = 0;
        while k < m
            invariant
                k <= m,
                node@ == self@.nodes[i as int],
                m == node.dependencies@.len(),
                node@.dependencies == strings_view(node.dependencies@),
                forall|kk: int| 0 <= kk < k ==> dep_done(self@, #[trigger] self@.nodes[i as int].dependencies[kk]),
            decreases m - k,
        {
            assert(node.dependencies@[k as int]@ == self@.nodes[i as int].dependencies[k as int]);
            if !self.dep_done_exec(node.dependencies[k].as_str()) {
                return false;
            }
            k = k + 1;
        }
        true
    }

    fn find_ready(&self) -> (r: Option<usize>)
        ensures
            match first_ready_from(self@, 0) {
                Some(i) => r matches Some(j) && j == i,
                None => r is None,
            },
    {
        let n = self.nodes.len();
        let mut i: usize = 0;
        while i < n
            invariant
                i <= n,
                n == self@.nodes.len(),
                first_ready_from(self@, 0) == first_ready_from(self@, i as nat),
            decreases n - i,
        {
            if self.is_ready(i) {
                return Some(i);
            }
            i = i + 1;
        }
        None
    }

    fn any_waiting_exec(&self) -> (r: bool)
        ensures
            r == any_waiting(self@),
    {
        let n = self.states.len();
        let mut i: usize = 0;
        while i < n
            invariant
                i <= n,
                n == self@.states.len(),
                forall|k: int| 0 <= k < i ==> #[trigger] self@.states[k] != NodeState::Waiting,
            decreases n - i,
        {
            if self.states[i] == NodeState::Waiting {
                assert(self@.states[i as int] == NodeState::Waiting);
                return true;
            }
            i = i + 1;
        }
        false
    }

    /// Moves the run on, `elapsed_ms` after it began: to the next tool call,
    /// to a request for approval, past a node that fails on the spot, or to
    /// its end.
    pub fn next_step(&mut self, elapsed_ms: u64) -> (r: (Step, Vec<ExecutionLogEvent>))
        requires
            !old(self)@.pending,
            !old(self)@.finished,
        ensures
            run_ok(final(self)@),
            final(self)@ == step_spec(old(self)@, elapsed_ms as nat).0,
            r.0@ == step_spec(old(self)@, elapsed_ms as nat).1,
            events_view(r.1@) == step_spec(old(self)@, elapsed_ms as nat).2,
    {
        proof {
            use_type_invariant(&*self);
        }
        let ghost start = self@;
        let mut evs: Vec<ExecutionLogEvent> = Vec::new();
        if self.timeout_ms > 0 && elapsed_ms >= self.timeout_ms as u64 {
            let mut line = String::from_str(MSG_DEADLINE);
            push_decimal(&mut line, self.timeout_ms as usize);
            line.append(MSG_DEADLINE_UNIT);
            let ret = line.clone();
            evs.push(make_event(self.session_id.as_str(), STATUS_CRITICAL, line));
            self.finished = true;
            assert(events_view(evs@) =~= step_spec(start, elapsed_ms as nat).2);
            return (Step::Finished(Err(ret)), evs);
        }
        if self.awaiting_approval {
            evs.push(make_event(self.session_id.as_str(), STATUS_INFO, String::from_str(MSG_AWAITING)));
            assert(events_view(evs@) =~= step_spec(start, elapsed_ms as nat).2);
            return (Step::AwaitApproval, evs);
        }
        match self.find_ready() {
            None => {
                if self.any_waiting_exec() {
                    evs.push(make_event(self.session_id.as_str(), STATUS_CRITICAL, String::from_str(MSG_BLOCKED)));
                    self.finished = true;
                    assert(events_view(evs@) =~= step_spec(start, elapsed_ms as nat).2);
                    (Step::Finished(Err(String::from_str(MSG_BLOCKED))), evs)
                } else {
                    evs.push(make_event(self.session_id.as_str(), STATUS_DONE, String::from_str(MSG_DONE)));
                    self.finished = true;
                    assert(events_view(evs@) =~= step_spec(start, elapsed_ms as nat).2);
                    (Step::Finished(Ok(())), evs)
                }
            },
            Some(i) => {
                proof {
                    lemma_first_ready_found(start, 0);
                }
                let ghost nv = start.nodes[i as int];
                assert(self.nodes@[i as int]@ == nv);
                let running = task_line_text(&self.nodes[i]);
                evs.push(make_event(self.session_id.as_str(), STATUS_RUNNING, running));
                match tool_for(self.nodes[i].tool_name.as_str()) {
                    Some(tool) => {
                        let parameters_json = self.nodes[i].parameters_json.clone();
                        self.current = i;
                        self.pending = true;
                        assert(events_view(evs@) =~= step_spec(start, elapsed_ms as nat).2);
                        (Step::Call { tool, parameters_json }, evs)
                    },
                    None => {
                        let mut err = String::from_str(UNKNOWN_TOOL);
                        err.append(self.nodes[i].tool_name.as_str());
                        assert(events_view(evs@) =~= seq![
                            log_event(start.session_id, STATUS_RUNNING@, task_line(nv)),
                        ]);
                        let abort = self.record_failure(i, err, &mut evs);
                        match abort {
                            Some(e) => (Step::Finished(Err(e)), evs),
                            None => (Step::Continue, evs),
                        }
                    },
                }
            },
        }
    }

    /// Counts a failure of node `i` with error `e` and reports it: a retry
    /// while the plan allows one, the end of the plan after that. Returns
    /// the error that ends the plan, if it ends.
    fn record_failure(&mut self, i: usize, e: String, evs: &mut Vec<ExecutionLogEvent>) -> (r: Option<String>)
        requires
            !old(self)@.pending,
            i < old(self)@.nodes.len(),
            old(self)@.states[i as int] == NodeState::Waiting,
        ensures
            final(self)@ == fail_spec(old(self)@, i as int, e@).0,
            match fail_spec(old(self)@, i as int, e@).1 {
                Some(x) => r matches Some(y) && y@ == x,
                None => r is None,
            },
            events_view(final(evs)@) == events_view(old(evs)@) + fail_spec(old(self)@, i as int, e@).2,
    {
        proof {
            use_type_invariant(&*self);
        }
        let ghost start = self@;
        let ghost before = evs@;
        let ghost nv = start.nodes[i as int];
        assert(self.nodes@[i as int]@ == nv);
        assert(start.failures[i as int] <= retries(start));
        let line = task_failed_text(&self.nodes[i], e.as_str());
        evs.push(make_event(self.session_id.as_str(), STATUS_ERROR, line));
        let f: u32 = self.failures[i] + 1;
        let allowed: u32 = if self.max_retries > 0 {
            self.max_retries as u32
        } else {
            0
        };
        if f <= allowed {
            self.failures = replaced(&self.failures, i, f);
            let retry = task_retry_text(&self.nodes[i], f, allowed);
            evs.push(make_event(self.session_id.as_str(), STATUS_RETRY, retry));
            assert(events_view(evs@) =~= events_view(before) + fail_spec(start, i as int, e@).2);
            None
        } else {
            self.states = replaced(&self.states, i, NodeState::Failed);
            self.failures = replaced(&self.failures, i, f);
            evs.push(make_event(self.session_id.as_str(), STATUS_CRITICAL, String::from_str(MSG_ABORTED)));
            self.finished = true;
            assert(events_view(evs@) =~= events_view(before) + fail_spec(start, i as int, e@).2);
            Some(e)
        }
    }

    /// Reports the answer to a request for approval. Returns the error that
    /// ends the plan when approval is refused.
    pub fn approve(&mut self, granted: bool) -> (r: (Option<String>, Vec<ExecutionLogEvent>))
        requires
            old(self)@.awaiting_approval,
            !old(self)@.finished,
        ensures
            run_ok(final(self)@),
            final(self)@ == approve_spec(old(self)@, granted).0,
            match approve_spec(old(self)@, granted).1 {
                Some(e) => r.0 matches Some(x) && x@ == e,
                None => r.0 is None,
            },
            events_view(r.1@) == approve_spec(old(self)@, granted).2,
    {
        proof {
            use_type_invariant(&*self);
        }
        let mut evs: Vec<ExecutionLogEvent> = Vec::new();
        if granted {
            evs.push(make_event(self.session_id.as_str(), STATUS_INFO, String::from_str(MSG_APPROVED)));
            self.awaiting_approval = false;
            assert(events_view(evs@) =~= seq![log_event(self@.session_id, STATUS_INFO@, MSG_APPROVED@)]);
            (None, evs)
        } else {
            evs.push(make_event(self.session_id.as_str(), STATUS_CRITICAL, String::from_str(MSG_NOT_APPROVED)));
            self.finished = true;
            assert(events_view(evs@) =~= seq![log_event(self@.session_id, STATUS_CRITICAL@, MSG_NOT_APPROVED@)]);
            (Some(String::from_str(MSG_NOT_APPROVED)), evs)
        }
    }

    /// Reports the outcome of the running tool: the length of its output,
    /// or its error. Returns the error that ends the plan, if one does.
    pub fn finish_task(&mut self, outcome: Result<usize, String>) -> (r: (
        Option<String>,
        Vec<ExecutionLogEvent>,
    ))
        requires
            old(self)@.pending,
        ensures
            run_ok(final(self)@),
            ({
                let f = finish_spec(
                    old(self)@,
                    match outcome {
                        Ok(n) => Ok(n as nat),
                        Err(e) => Err(e@),
                    },
                );
                &&& final(self)@ == f.0
                &&& match f.1 {
                    Some(e) => r.0 matches Some(x) && x@ == e,
                    None => r.0 is None,
                }
                &&& events_view(r.1@) == f.2
            }),
    {
        proof {
            use_type_invariant(&*self);
        }
        let ghost start = self@;
        let i = self.current;
        let count = self.nodes.len();
        assert(i < count);
        let ghost nv = self@.nodes[i as int];
        assert(self.nodes@[i as int]@ == nv);
        let mut evs: Vec<ExecutionLogEvent> = Vec::new();
        match outcome {
            Ok(len) => {
                let line = task_done_text(&self.nodes[i], len);
                evs.push(make_event(self.session_id.as_str(), STATUS_SUCCESS, line));
                self.pending = false;
                self.states = replaced(&self.states, i, NodeState::Done);
                assert(events_view(evs@) =~= seq![
                    log_event(start.session_id, STATUS_SUCCESS@, task_done_line(nv, len as nat)),
                ]);
                (None, evs)
            },
            Err(e) => {
                let ghost e_v = e@;
                self.pending = false;
                let abort = self.record_failure(i, e, &mut evs);
                assert(events_view(evs@) =~= finish_spec(start, Err(e_v)).2);
                (abort, evs)
            },
        }
    }
}

} // verus!

verus! {

proof fn lemma_first_ready_found(r: PlanRunView, i: nat)
    ensures
        first_ready_from(r, i) matches Some(j) ==> i <= j < r.nodes.len() && ready(r, j as int) && forall|k: int|
            i <= k < j ==> !ready(r, k),
        first_ready_from(r, i) is None ==> forall|k: int| i <= k < r.nodes.len() ==> !ready(r, k),
    decreases r.nodes.len() - i,
{
    if i < r.nodes.len() && !ready(r, i as int) {
        lemma_first_ready_found(r, i + 1);
    }
}

} // verus!

verus! {

/// A tool is handed out only within the deadline, after approval, and for
/// the first node in plan order that waits and whose dependencies have all
/// completed. Past the deadline the run ends; while approval is awaited
/// nothing changes; the run ends successfully only when no node waits. A
/// node naming a tool that is not built in fails, and that failure is
/// counted and retried like any other: the run goes on while retries
/// remain, and is aborted with the unknown-tool error after that. A tool
/// call carries the tool that the chosen node names and that node's own
/// parameters, and is reported as that node running.
pub proof fn lemma_step_rules(r: PlanRunView, elapsed_ms: nat)
    requires
        run_ok(r),
        !r.pending,
        !r.finished,
    ensures
        ({
            let (r2, st, evs) = step_spec(r, elapsed_ms);
            &&& run_ok(r2)
            &&& r2.nodes == r.nodes && r2.session_id == r.session_id
            &&& (deadline_passed(r, elapsed_ms) ==> r2.finished && st matches StepView::Finished(Err(_)))
            &&& (!deadline_passed(r, elapsed_ms) && r.awaiting_approval ==> r2 == r && st is AwaitApproval)
            &&& (st is Call ==> !deadline_passed(r, elapsed_ms) && !r.awaiting_approval && r2.pending
                && ready(r, r2.current as int) && (forall|k: int|
                0 <= k < r.nodes[r2.current as int].dependencies.len() ==> dep_done(
                    r,
                    #[trigger] r.nodes[r2.current as int].dependencies[k],
                )) && (forall|k: int| 0 <= k < r2.current ==> !ready(r, k)))
            &&& (st == StepView::Finished(Ok(())) ==> !any_waiting(r))
            &&& (st matches StepView::Call { tool, parameters_json } ==> {
                &&& r2.current < r.nodes.len()
                &&& parameters_json == r.nodes[r2.current as int].parameters_json
                &&& tool_name(tool) == r.nodes[r2.current as int].tool_name
                &&& r2 == PlanRunView { pending: true, current: r2.current, ..r }
                &&& evs == seq![log_event(r.session_id, STATUS_RUNNING@, task_line(r.nodes[r2.current as int]))]
            })
            &&& match first_ready_from(r, 0) {
                Some(i) => !deadline_passed(r, elapsed_ms) && !r.awaiting_approval && tool_of(
                    r.nodes[i as int].tool_name,
                ) is None ==> {
                    &&& r2.failures[i as int] == r.failures[i as int] + 1
                    &&& (st is Continue <==> r.failures[i as int] < retries(r))
                    &&& (st is Continue ==> r2.states[i as int] == NodeState::Waiting && !r2.finished)
                    &&& (st !is Continue ==> r2.finished && r2.states[i as int] == NodeState::Failed
                        && st == StepView::Finished(Err(UNKNOWN_TOOL@ + r.nodes[i as int].tool_name)))
                },
                None => true,
            }
        }),
{
    lemma_first_ready_found(r, 0);
    let (r2, st, evs) = step_spec(r, elapsed_ms);
    if !deadline_passed(r, elapsed_ms) && !r.awaiting_approval {
        if let Some(i) = first_ready_from(r, 0) {
            assert forall|k: int| 0 <= k < r2.nodes.len() && r2.states[k] == NodeState::Waiting implies
                #[trigger] r2.failures[k] <= retries(r2) by {
                assert(r.states[k] == NodeState::Waiting || k == i);
            }
        }
    }
}

/// A failed tool is tried again while its node has failed no more often
/// than the plan allows retries, so a node is handed out at most
/// `1 + retries` times; its last failure aborts the plan with that error.
/// Success completes the node.
pub proof fn lemma_outcome_rules(r: PlanRunView, outcome: Result<nat, Seq<char>>)
    requires
        run_ok(r),
        r.pending,
    ensures
        ({
            let i = r.current as int;
            let (r2, abort, evs) = finish_spec(r, outcome);
            &&& run_ok(r2)
            &&& !r2.pending
            &&& r2.nodes == r.nodes
            &&& (outcome is Ok ==> r2.states[i] == NodeState::Done && abort is None && !r2.finished)
            &&& (outcome is Err ==> r2.failures[i] == r.failures[i] + 1
                && (r2.states[i] == NodeState::Waiting <==> r.failures[i] < retries(r))
                && (abort is Some <==> r.failures[i] == retries(r))
                && (abort is None ==> !r2.finished)
                && (abort matches Some(e) ==> outcome == Err::<nat, Seq<char>>(e) && r2.finished
                    && r2.states[i] == NodeState::Failed))
        }),
{
    let i = r.current as int;
    assert(r.failures[i] <= retries(r));
    assert(retries(r) <= i32::MAX);
}

} // verus!

verus! {

/// Tool names read back: the name of each built-in tool reads as that tool,
/// and a name that reads as a tool is that tool's name.
pub proof fn lemma_tool_names()
    ensures
        forall|t: Tool| #[trigger] tool_of(tool_name(t)) == Some(t),
        forall|s: Seq<char>| #[trigger] tool_of(s) matches Some(t) ==> tool_name(t) == s,
{
    reveal_strlit("http_get");
    reveal_strlit("fs_read");
    reveal_strlit("fs_write");
    assert("fs_read"@[0] != "http_get"@[0]);
    assert("fs_write"@[0] != "http_get"@[0]);
    assert("fs_write"@.len() != "fs_read"@.len());
    assert forall|t: Tool| #[trigger] tool_of(tool_name(t)) == Some(t) by {
        match t {
            Tool::HttpGet => {},
            Tool::FsRead => {},
            Tool::FsWrite => {},
        }
    }
}

} // verus!
