//! `ExecutionPlan`: a DAG of tool invocations for an autonomous agent.

use vstd::prelude::*;
use crate::wire;
use crate::wire::{
    fits, string_list, strings_view, encode_fields, fold_fields, int32_from_wire, int32_of, opt_bool, opt_float, opt_int32,
    opt_string, utf8_payload, value_in_bounds, Fault, FieldValue, MessageKind, WireError,
    WireValue,
};

verus! {

/// Execution priority level.
#[derive(Clone, Copy, Debug, PartialEq, Eq, Hash, PartialOrd, Ord, Structural)]
pub enum PriorityLevel {
    Background,
    Low,
    Normal,
    High,
    Critical,
}

impl PriorityLevel {
    /// The number this variant carries on the wire.
    pub open spec fn spec_value(self) -> i32 {
        match self {
            PriorityLevel::Background => 0,
            PriorityLevel::Low => 1,
            PriorityLevel::Normal => 2,
            PriorityLevel::High => 3,
            PriorityLevel::Critical => 4,
        }
    }

    /// The number this variant carries on the wire.
    pub fn value(self) -> (r: i32)
        ensures
            r == self.spec_value(),
    {
        match self {
            PriorityLevel::Background => 0,
            PriorityLevel::Low => 1,
            PriorityLevel::Normal => 2,
            PriorityLevel::High => 3,
            PriorityLevel::Critical => 4,
        }
    }
}

/// One tool invocation in a plan.
#[derive(Clone, Debug)]
pub struct TaskNode {
    pub task_id: String,
    pub tool_name: String,
    /// JSON-encoded parameter map for the tool.
    pub parameters_json: String,
    /// `task_id`s this node depends on completing first.
    pub dependencies: Vec<String>,
}

/// The value of a [`TaskNode`].
pub struct TaskNodeView {
    pub task_id: Seq<char>,
    pub tool_name: Seq<char>,
    pub parameters_json: Seq<char>,
    pub dependencies: Seq<Seq<char>>,
}

impl View for TaskNode {
    type V = TaskNodeView;

    open spec fn view(&self) -> TaskNodeView {
        TaskNodeView {
            task_id: self.task_id@,
            tool_name: self.tool_name@,
            parameters_json: self.parameters_json@,
            dependencies: strings_view(self.dependencies@),
        }
    }
}

/// An execution plan packet.
#[derive(Clone, Debug)]
pub struct ExecutionPlan {
    pub plan_id: String,
    /// Natural language summary of the goal.
    pub objective: String,
    /// A [`PriorityLevel`] number.
    pub priority_level: i32,
    /// Max retry attempts on failure (0 = no retry).
    pub max_retries: i32,
    /// Hard execution deadline in milliseconds (0 = no limit).
    pub timeout_ms: i32,
    /// A human must approve before execution begins.
    pub requires_confirmation: bool,
    /// Independent nodes may execute concurrently.
    pub parallel_allowed: bool,
    pub nodes: Vec<TaskNode>,
    /// Estimated compute cost in abstract units, as `f32` bits.
    pub estimated_cost_units: u32,
    pub compiler_verified: bool,
}

/// The value of an [`ExecutionPlan`].
pub struct ExecutionPlanView {
    pub plan_id: Seq<char>,
    pub objective: Seq<char>,
    pub priority_level: i32,
    pub max_retries: i32,
    pub timeout_ms: i32,
    pub requires_confirmation: bool,
    pub parallel_allowed: bool,
    pub nodes: Seq<TaskNodeView>,
    pub estimated_cost_units: u32,
    pub compiler_verified: bool,
}

/// The value of each node.
pub open spec fn nodes_view(v: Seq<TaskNode>) -> Seq<TaskNodeView> {
    v.map_values(|n: TaskNode| n@)
}

impl View for ExecutionPlan {
    type V = ExecutionPlanView;

    open spec fn view(&self) -> ExecutionPlanView {
        ExecutionPlanView {
            plan_id: self.plan_id@,
            objective: self.objective@,
            priority_level: self.priority_level,
            max_retries: self.max_retries,
            timeout_ms: self.timeout_ms,
            requires_confirmation: self.requires_confirmation,
            parallel_allowed: self.parallel_allowed,
            nodes: nodes_view(self.nodes@),
            estimated_cost_units: self.estimated_cost_units,
            compiler_verified: self.compiler_verified,
        }
    }
}

/// A task node with every field at its default.
pub open spec fn task_default() -> TaskNodeView {
    TaskNodeView { task_id: seq![], tool_name: seq![], parameters_json: seq![], dependencies: seq![] }
}

/// A plan with every field at its default.
pub open spec fn plan_default() -> ExecutionPlanView {
    ExecutionPlanView {
        plan_id: seq![],
        objective: seq![],
        priority_level: 0,
        max_retries: 0,
        timeout_ms: 0,
        requires_confirmation: false,
        parallel_allowed: false,
        nodes: seq![],
        estimated_cost_units: 0,
        compiler_verified: false,
    }
}

impl Default for TaskNode {
    fn default() -> (r: Self)
        ensures
            r@ == task_default(),
    {
        let r = TaskNode {
            task_id: String::new(),
            tool_name: String::new(),
            parameters_json: String::new(),
            dependencies: Vec::new(),
        };
        assert(r@.dependencies =~= Seq::<Seq<char>>::empty());
        r
    }
}

impl Default for ExecutionPlan {
    fn default() -> (r: Self)
        ensures
            r@ == plan_default(),
    {
        let r = ExecutionPlan {
            plan_id: String::new(),
            objective: String::new(),
            priority_level: 0,
            max_retries: 0,
            timeout_ms: 0,
            requires_confirmation: false,
            parallel_allowed: false,
            nodes: Vec::new(),
            estimated_cost_units: 0,
            compiler_verified: false,
        };
        assert(r@.nodes =~= Seq::<TaskNodeView>::empty());
        r
    }
}

/// The fields a task node is written as.
pub open spec fn task_fields(n: TaskNodeView) -> Seq<(u32, FieldValue)> {
    opt_string(1, n.task_id) + opt_string(2, n.tool_name) + opt_string(3, n.parameters_json)
        + string_list(4, n.dependencies)
}

/// The encoded bytes of a task node.
pub open spec fn task_bytes(n: TaskNodeView) -> Seq<u8> {
    encode_fields(task_fields(n))
}

/// The repeated `nodes` field of a plan.
pub open spec fn node_list(ns: Seq<TaskNodeView>) -> Seq<(u32, FieldValue)> {
    Seq::new(ns.len(), |i: int| (8u32, FieldValue::Bytes(task_bytes(ns[i]))))
}

/// The fields a plan is written as.
pub open spec fn plan_fields(p: ExecutionPlanView) -> Seq<(u32, FieldValue)> {
    opt_string(1, p.plan_id) + opt_string(2, p.objective) + opt_int32(3, p.priority_level)
        + opt_int32(4, p.max_retries) + opt_int32(5, p.timeout_ms) + opt_bool(
        6,
        p.requires_confirmation,
    ) + opt_bool(7, p.parallel_allowed) + node_list(p.nodes) + opt_float(9, p.estimated_cost_units)
        + opt_bool(10, p.compiler_verified)
}

/// The encoded bytes of a plan.
pub open spec fn plan_bytes(p: ExecutionPlanView) -> Seq<u8> {
    encode_fields(plan_fields(p))
}

/// Encodes a task node.
pub fn encode_task_node(n: &TaskNode) -> (out: Vec<u8>)
    ensures
        out@ == task_bytes(n@),
{
    let mut buf: Vec<u8> = Vec::new();
    let ghost acc: Seq<(u32, FieldValue)> = seq![];
    assert(buf@ =~= encode_fields(acc));
    wire::put_opt_string(1, &n.task_id, &mut buf);
    proof {
        wire::lemma_encode_fields_concat(acc, opt_string(1, n.task_id@));
        acc = acc + opt_string(1, n.task_id@);
    }
    wire::put_opt_string(2, &n.tool_name, &mut buf);
    proof {
        wire::lemma_encode_fields_concat(acc, opt_string(2, n.tool_name@));
        acc = acc + opt_string(2, n.tool_name@);
    }
    wire::put_opt_string(3, &n.parameters_json, &mut buf);
    proof {
        wire::lemma_encode_fields_concat(acc, opt_string(3, n.parameters_json@));
        acc = acc + opt_string(3, n.parameters_json@);
    }
    let ghost base = acc;
    let ghost deps = n@.dependencies;
    let mut i: usize = 0;
    assert(acc =~= base + string_list(4, deps.take(0)));
    while i < n.dependencies.len()
        invariant
            i <= n.dependencies@.len(),
            deps == strings_view(n.dependencies@),
            buf@ == encode_fields(acc),
            acc == base + string_list(4, deps.take(i as int)),
        decreases n.dependencies@.len() - i,
    {
        wire::put_string_always(4, &n.dependencies[i], &mut buf);
        proof {
            let one = seq![(4u32, FieldValue::Bytes(vstd::utf8::encode_utf8(n.dependencies@[i as int]@)))];
            wire::lemma_encode_fields_concat(acc, one);
            acc = acc + one;
            assert(string_list(4, deps.take(i + 1)) =~= string_list(4, deps.take(i as int)) + one);
            assert(acc =~= base + string_list(4, deps.take(i + 1)));
        }
        i = i + 1;
    }
    assert(deps.take(i as int) =~= deps);
    assert(acc =~= task_fields(n@));
    buf
}

/// Encodes a plan as `prost` would: fields in number order, scalars left
/// out at their defaults, every node written.
pub fn encode_plan(p: &ExecutionPlan) -> (out: Vec<u8>)
    ensures
        out@ == plan_bytes(p@),
{
    let mut buf: Vec<u8> = Vec::new();
    let ghost acc: Seq<(u32, FieldValue)> = seq![];
    assert(buf@ =~= encode_fields(acc));
    wire::put_opt_string(1, &p.plan_id, &mut buf);
    proof {
        wire::lemma_encode_fields_concat(acc, opt_string(1, p.plan_id@));
        acc = acc + opt_string(1, p.plan_id@);
    }
    wire::put_opt_string(2, &p.objective, &mut buf);
    proof {
        wire::lemma_encode_fields_concat(acc, opt_string(2, p.objective@));
        acc = acc + opt_string(2, p.objective@);
    }
    wire::put_opt_int32(3, p.priority_level, &mut buf);
    proof {
        wire::lemma_encode_fields_concat(acc, opt_int32(3, p.priority_level));
        acc = acc + opt_int32(3, p.priority_level);
    }
    wire::put_opt_int32(4, p.max_retries, &mut buf);
    proof {
        wire::lemma_encode_fields_concat(acc, opt_int32(4, p.max_retries));
        acc = acc + opt_int32(4, p.max_retries);
    }
    wire::put_opt_int32(5, p.timeout_ms, &mut buf);
    proof {
        wire::lemma_encode_fields_concat(acc, opt_int32(5, p.timeout_ms));
        acc = acc + opt_int32(5, p.timeout_ms);
    }
    wire::put_opt_bool(6, p.requires_confirmation, &mut buf);
    proof {
        wire::lemma_encode_fields_concat(acc, opt_bool(6, p.requires_confirmation));
        acc = acc + opt_bool(6, p.requires_confirmation);
    }
    wire::put_opt_bool(7, p.parallel_allowed, &mut buf);
    proof {
        wire::lemma_encode_fields_concat(acc, opt_bool(7, p.parallel_allowed));
        acc = acc + opt_bool(7, p.parallel_allowed);
    }
    let ghost base = acc;
    let ghost ns = p@.nodes;
    let mut i: usize = 0;
    assert(acc =~= base + node_list(ns.take(0)));
    while i < p.nodes.len()
        invariant
            i <= p.nodes@.len(),
            ns == nodes_view(p.nodes@),
            buf@ == encode_fields(acc),
            acc == base + node_list(ns.take(i as int)),
        decreases p.nodes@.len() - i,
    {
        let body = encode_task_node(&p.nodes[i]);
        wire::put_message(8, &body, &mut buf);
        proof {
            let one = seq![(8u32, FieldValue::Bytes(task_bytes(ns[i as int])))];
            wire::lemma_encode_fields_concat(acc, one);
            acc = acc + one;
            assert(node_list(ns.take(i + 1)) =~= node_list(ns.take(i as int)) + one);
            assert(acc =~= base + node_list(ns.take(i + 1)));
        }
        i = i + 1;
    }
    assert(ns.take(i as int) =~= ns);
    wire::put_opt_float(9, p.estimated_cost_units, &mut buf);
    proof {
        wire::lemma_encode_fields_concat(acc, opt_float(9, p.estimated_cost_units));
        acc = acc + opt_float(9, p.estimated_cost_units);
    }
    wire::put_opt_bool(10, p.compiler_verified, &mut buf);
    proof {
        wire::lemma_encode_fields_concat(acc, opt_bool(10, p.compiler_verified));
        acc = acc + opt_bool(10, p.compiler_verified);
        assert(acc =~= plan_fields(p@));
    }
    buf
}

} // verus!

verus! {

/// The effect of one decoded field on a task node.
pub open spec fn task_apply(m: TaskNodeView, t: u32, v: FieldValue) -> Result<TaskNodeView, WireError> {
    match v {
        FieldValue::Bytes(b) => if 1 <= t <= 4 {
            match utf8_payload(b) {
                Ok(cs) => if t == 1 {
                    Ok(TaskNodeView { task_id: cs, ..m })
                } else if t == 2 {
                    Ok(TaskNodeView { tool_name: cs, ..m })
                } else if t == 3 {
                    Ok(TaskNodeView { parameters_json: cs, ..m })
                } else {
                    Ok(TaskNodeView { dependencies: m.dependencies.push(cs), ..m })
                },
                Err(e) => Err(e),
            }
        } else {
            Ok(m)
        },
        _ => Ok(m),
    }
}

/// [`task_apply`] as a value.
pub open spec fn task_applier() -> spec_fn(TaskNodeView, u32, FieldValue) -> Result<TaskNodeView, WireError> {
    |m: TaskNodeView, t: u32, v: FieldValue| task_apply(m, t, v)
}

/// What decoding `s` as a task node gives.
pub open spec fn task_decode(s: Seq<u8>) -> Result<TaskNodeView, WireError> {
    wire::stream_decode(MessageKind::TaskNode, task_default(), s, task_applier_in())
}

/// [`task_apply`] as a value that also takes the bytes after the field,
/// which it does not look at.
pub open spec fn task_applier_in() -> spec_fn(TaskNodeView, u32, FieldValue, Seq<u8>) -> Result<TaskNodeView, WireError> {
    |m: TaskNodeView, t: u32, v: FieldValue, tail: Seq<u8>| task_apply(m, t, v)
}

/// The effect of one decoded field on a plan.
pub open spec fn plan_apply(m: ExecutionPlanView, t: u32, v: FieldValue) -> Result<ExecutionPlanView, WireError> {
    match v {
        FieldValue::Varint(x) => if t == 3 {
            Ok(ExecutionPlanView { priority_level: int32_of(x), ..m })
        } else if t == 4 {
            Ok(ExecutionPlanView { max_retries: int32_of(x), ..m })
        } else if t == 5 {
            Ok(ExecutionPlanView { timeout_ms: int32_of(x), ..m })
        } else if t == 6 {
            Ok(ExecutionPlanView { requires_confirmation: x != 0, ..m })
        } else if t == 7 {
            Ok(ExecutionPlanView { parallel_allowed: x != 0, ..m })
        } else if t == 10 {
            Ok(ExecutionPlanView { compiler_verified: x != 0, ..m })
        } else {
            Ok(m)
        },
        FieldValue::Fixed32(x) => if t == 9 {
            Ok(ExecutionPlanView { estimated_cost_units: x, ..m })
        } else {
            Ok(m)
        },
        FieldValue::Bytes(b) => if t == 1 || t == 2 {
            match utf8_payload(b) {
                Ok(cs) => if t == 1 {
                    Ok(ExecutionPlanView { plan_id: cs, ..m })
                } else {
                    Ok(ExecutionPlanView { objective: cs, ..m })
                },
                Err(e) => Err(e),
            }
        } else if t == 8 {
            match task_decode(b) {
                Ok(n) => Ok(ExecutionPlanView { nodes: m.nodes.push(n), ..m }),
                Err(e) => Err(e),
            }
        } else {
            Ok(m)
        },
        FieldValue::Skipped => Ok(m),
    }
}

/// [`plan_apply`] as a value.
pub open spec fn plan_applier() -> spec_fn(ExecutionPlanView, u32, FieldValue) -> Result<ExecutionPlanView, WireError> {
    |m: ExecutionPlanView, t: u32, v: FieldValue| plan_apply(m, t, v)
}

/// What decoding `s` as a plan gives.
pub open spec fn plan_decode(s: Seq<u8>) -> Result<ExecutionPlanView, WireError> {
    wire::stream_decode(MessageKind::ExecutionPlan, plan_default(), s, plan_applier_in())
}

/// The effect of one decoded field on a plan when `tail` follows it: as
/// [`plan_apply`], but an embedded message is read in place, where it may
/// run into `tail`.
pub open spec fn plan_apply_in(m: ExecutionPlanView, t: u32, v: FieldValue, tail: Seq<u8>) -> Result<ExecutionPlanView, WireError> {
    match v {
        FieldValue::Bytes(b) => if t == 8 {
            match wire::stream_limited(MessageKind::TaskNode, task_default(), b + tail, b.len() as int, task_applier_in()) {
                Ok(n) => Ok(ExecutionPlanView { nodes: m.nodes.push(n), ..m }),
                Err(e) => Err(e),
            }
        } else {
            plan_apply(m, t, v)
        },
        _ => plan_apply(m, t, v),
    }
}

/// [`plan_apply_in`] as a value.
pub open spec fn plan_applier_in() -> spec_fn(ExecutionPlanView, u32, FieldValue, Seq<u8>) -> Result<ExecutionPlanView, WireError> {
    |m: ExecutionPlanView, t: u32, v: FieldValue, tail: Seq<u8>| plan_apply_in(m, t, v, tail)
}

/// A field that applies on its own bytes applies the same in place.
pub proof fn lemma_plan_apply_in(m: ExecutionPlanView, t: u32, v: FieldValue, tail: Seq<u8>)
    ensures
        plan_apply(m, t, v) is Ok ==> plan_apply_in(m, t, v, tail) == plan_apply(m, t, v),
{
    if let FieldValue::Bytes(b) = v {
        if t == 8 && plan_apply(m, t, v) is Ok {
            wire::lemma_limited_prefix(MessageKind::TaskNode, task_default(), b, tail, task_applier_in());
        }
    }
}

fn apply_task_field(m: &mut TaskNode, t: u32, w: WireValue, s: &[u8]) -> (r: Result<(), WireError>)
    requires
        value_in_bounds(s@.len(), w),
    ensures
        match task_apply(old(m)@, t, wire::value_view(s@, w)) {
            Ok(n) => r is Ok && final(m)@ == n,
            Err(e) => r == Err::<(), WireError>(e),
        },
{
    match w {
        WireValue::Bytes(a, b) => {
            if 1 <= t && t <= 4 {
                match wire::read_string(s, a, b) {
                    Ok(st) => {
                        if t == 1 {
                            m.task_id = st;
                        } else if t == 2 {
                            m.tool_name = st;
                        } else if t == 3 {
                            m.parameters_json = st;
                        } else {
                            let ghost before = m.dependencies@;
                            m.dependencies.push(st);
                            assert(strings_view(m.dependencies@) =~= strings_view(before).push(
                                st@,
                            ));
                        }
                        Ok(())
                    },
                    Err(e) => Err(e),
                }
            } else {
                Ok(())
            }
        },
        _ => Ok(()),
    }
}

/// Decodes a task node.
pub fn decode_task_node(s: &[u8]) -> (r: Result<TaskNode, WireError>)
    ensures
        match task_decode(s@) {
            Ok(n) => r matches Ok(x) && x@ == n,
            Err(e) => r matches Err(e2) && e2 == e,
        },
{
    let mut cur = TaskNode::default();
    let mut pos: usize = 0;
    assert(s@.skip(0) =~= s@);
    while pos < s.len()
        invariant
            pos <= s@.len(),
            task_decode(s@) == wire::stream_decode(MessageKind::TaskNode, cur@, s@.skip(pos as int), task_applier_in()),
        decreases s@.len() - pos,
    {
        let ghost rest = s@.skip(pos as int);
        proof {
            wire::lemma_read_field_bounds(MessageKind::TaskNode, rest);
        }
        match wire::read_field(MessageKind::TaskNode, s, pos) {
            Err(e) => return Err(e),
            Ok((t, w, p)) => {
                assert(rest.skip((p - pos) as int) =~= s@.skip(p as int));
                match apply_task_field(&mut cur, t, w, s) {
                    Ok(()) => {},
                    Err(e) => return Err(e.push(MessageKind::TaskNode, t)),
                }
                pos = p;
            },
        }
    }
    Ok(cur)
}

/// Decodes the embedded TaskNode at `a..b` of `s` in place: fields are read
/// from `s` while they start before `b`, and the last must end at `b`.
fn decode_task_node_in(s: &[u8], a: usize, b: usize) -> (r: Result<TaskNode, WireError>)
    requires
        a <= b <= s@.len(),
    ensures
        match wire::stream_limited(MessageKind::TaskNode, task_default(), s@.skip(a as int), (b - a) as int, task_applier_in()) {
            Ok(n) => r matches Ok(x) && x@ == n,
            Err(e) => r matches Err(e2) && e2 == e,
        },
{
    let mut cur = TaskNode::default();
    let mut pos: usize = a;
    while pos < b
        invariant
            a <= pos <= s@.len(),
            b <= s@.len(),
            wire::stream_limited(MessageKind::TaskNode, task_default(), s@.skip(a as int), (b - a) as int, task_applier_in())
                == wire::stream_limited(MessageKind::TaskNode, cur@, s@.skip(pos as int), b - pos, task_applier_in()),
        decreases s@.len() - pos,
    {
        let ghost rest = s@.skip(pos as int);
        proof {
            wire::lemma_read_field_bounds(MessageKind::TaskNode, rest);
        }
        match wire::read_field(MessageKind::TaskNode, s, pos) {
            Err(e) => return Err(e),
            Ok((t, w, p)) => {
                assert(rest.skip((p - pos) as int) =~= s@.skip(p as int));
                match apply_task_field(&mut cur, t, w, s) {
                    Ok(()) => {},
                    Err(e) => return Err(e.push(MessageKind::TaskNode, t)),
                }
                pos = p;
            },
        }
    }
    if pos != b {
        return Err(WireError::of(Fault::DelimitedLengthExceeded));
    }
    Ok(cur)
}

fn apply_plan_field(m: &mut ExecutionPlan, t: u32, w: WireValue, s: &[u8], p: usize) -> (r: Result<(), WireError>)
    requires
        value_in_bounds(s@.len(), w),
        p <= s@.len(),
        w matches WireValue::Bytes(a, b) ==> b == p,
    ensures
        match plan_apply_in(old(m)@, t, wire::value_view(s@, w), s@.skip(p as int)) {
            Ok(p) => r is Ok && final(m)@ == p,
            Err(e) => r == Err::<(), WireError>(e),
        },
{
    match w {
        WireValue::Varint(x) => {
            if t == 3 {
                m.priority_level = int32_from_wire(x);
            } else if t == 4 {
                m.max_retries = int32_from_wire(x);
            } else if t == 5 {
                m.timeout_ms = int32_from_wire(x);
            } else if t == 6 {
                m.requires_confirmation = x != 0;
            } else if t == 7 {
                m.parallel_allowed = x != 0;
            } else if t == 10 {
                m.compiler_verified = x != 0;
            }
            Ok(())
        },
        WireValue::Fixed32(x) => {
            if t == 9 {
                m.estimated_cost_units = x;
            }
            Ok(())
        },
        WireValue::Bytes(a, b) => {
            if t == 1 || t == 2 {
                match wire::read_string(s, a, b) {
                    Ok(st) => {
                        if t == 1 {
                            m.plan_id = st;
                        } else {
                            m.objective = st;
                        }
                        Ok(())
                    },
                    Err(e) => Err(e),
                }
            } else if t == 8 {
                assert(s@.skip(a as int) =~= s@.subrange(a as int, b as int) + s@.skip(b as int));
                match decode_task_node_in(s, a, b) {
                    Ok(n) => {
                        let ghost before = m.nodes@;
                        m.nodes.push(n);
                        assert(nodes_view(m.nodes@) =~= nodes_view(before).push(n@));
                        Ok(())
                    },
                    Err(e) => Err(e),
                }
            } else {
                Ok(())
            }
        },
        WireValue::Skipped => Ok(()),
    }
}

/// Decodes a plan as `prost` would: unknown fields are skipped, later
/// occurrences of a scalar win, each `nodes` field adds a node.
/// Fields are read and applied one by one, embedded messages in place, so
/// the error is the first `prost` meets, with the fields it passed through.
pub fn decode_plan(s: &[u8]) -> (r: Result<ExecutionPlan, WireError>)
    ensures
        match plan_decode(s@) {
            Ok(p) => r matches Ok(x) && x@ == p,
            Err(e) => r matches Err(e2) && e2 == e,
        },
{
    let mut cur = ExecutionPlan::default();
    let mut pos: usize = 0;
    assert(s@.skip(0) =~= s@);
    while pos < s.len()
        invariant
            pos <= s@.len(),
            plan_decode(s@) == wire::stream_decode(MessageKind::ExecutionPlan, cur@, s@.skip(pos as int), plan_applier_in()),
        decreases s@.len() - pos,
    {
        let ghost rest = s@.skip(pos as int);
        proof {
            wire::lemma_read_field_bounds(MessageKind::ExecutionPlan, rest);
        }
        match wire::read_field(MessageKind::ExecutionPlan, s, pos) {
            Err(e) => return Err(e),
            Ok((t, w, p)) => {
                assert(rest.skip((p - pos) as int) =~= s@.skip(p as int));
                match apply_plan_field(&mut cur, t, w, s, p) {
                    Ok(()) => {},
                    Err(e) => return Err(e.push(MessageKind::ExecutionPlan, t)),
                }
                pos = p;
            },
        }
    }
    Ok(cur)
}

} // verus!

verus! {

/// A task node whose strings all fit the wire's length prefix.
pub open spec fn task_keeps(n: TaskNodeView) -> bool {
    &&& fits(n.task_id)
    &&& fits(n.tool_name)
    &&& fits(n.parameters_json)
    &&& forall|i: int| 0 <= i < n.dependencies.len() ==> fits(#[trigger] n.dependencies[i])
}

/// A plan that survives encoding: its cost is not negative zero and every
/// string and node fits the wire's length prefix.
pub open spec fn plan_keeps(p: ExecutionPlanView) -> bool {
    &&& fits(p.plan_id)
    &&& fits(p.objective)
    &&& p.estimated_cost_units != 0x8000_0000
    &&& forall|i: int| 0 <= i < p.nodes.len() ==> task_keeps(#[trigger] p.nodes[i]) && task_bytes(
        p.nodes[i],
    ).len() < 0x1_0000_0000_0000_0000
}

proof fn lemma_fold_string_list(m: TaskNodeView, xs: Seq<Seq<char>>)
    ensures
        fold_fields(m, string_list(4, xs), task_applier()) == Ok::<TaskNodeView, WireError>(
            TaskNodeView { dependencies: m.dependencies + xs, ..m },
        ),
    decreases xs.len(),
{
    let ap = task_applier();
    if xs.len() == 0 {
        assert(string_list(4, xs) =~= Seq::<(u32, FieldValue)>::empty());
        assert(m.dependencies + xs =~= m.dependencies);
    } else {
        let init = xs.drop_last();
        let last = xs.last();
        let one = seq![(4u32, FieldValue::Bytes(vstd::utf8::encode_utf8(last)))];
        assert(string_list(4, xs) =~= string_list(4, init) + one);
        lemma_fold_string_list(m, init);
        let m1 = TaskNodeView { dependencies: m.dependencies + init, ..m };
        wire::lemma_fold_concat(m, string_list(4, init), one, ap);
        wire::lemma_fold_single(m1, 4, FieldValue::Bytes(vstd::utf8::encode_utf8(last)), ap);
        wire::lemma_utf8_payload_roundtrip(last);
        assert((m.dependencies + init).push(last) =~= m.dependencies + xs);
    }
}

/// Decoding an encoded task node gives it back.
pub proof fn lemma_task_roundtrip(n: TaskNodeView)
    requires
        task_keeps(n),
    ensures
        task_decode(task_bytes(n)) == Ok::<TaskNodeView, WireError>(n),
{
    let k = MessageKind::TaskNode;
    let p1 = opt_string(1, n.task_id);
    let p2 = opt_string(2, n.tool_name);
    let p3 = opt_string(3, n.parameters_json);
    let p4 = string_list(4, n.dependencies);
    wire::lemma_opt_string_ok(k, 1, n.task_id);
    wire::lemma_opt_string_ok(k, 2, n.tool_name);
    wire::lemma_opt_string_ok(k, 3, n.parameters_json);
    wire::lemma_string_list_ok(k, 4, n.dependencies);
    wire::lemma_fields_ok_concat(k, p1, p2);
    wire::lemma_fields_ok_concat(k, p1 + p2, p3);
    wire::lemma_fields_ok_concat(k, p1 + p2 + p3, p4);
    wire::lemma_parse_encode_fields(k, task_fields(n));
    let ap = task_applier();
    let m0 = task_default();
    let m1 = TaskNodeView { task_id: n.task_id, ..m0 };
    let m2 = TaskNodeView { tool_name: n.tool_name, ..m1 };
    let m3 = TaskNodeView { parameters_json: n.parameters_json, ..m2 };
    assert(fold_fields(m0, p1, ap) == Ok::<TaskNodeView, WireError>(m1)) by {
        wire::lemma_utf8_payload_roundtrip(n.task_id);
        wire::lemma_fold_opt_string(m0, 1, n.task_id, ap);
        if n.task_id.len() == 0 {
            assert(m0.task_id =~= n.task_id);
        }
    }
    assert(fold_fields(m1, p2, ap) == Ok::<TaskNodeView, WireError>(m2)) by {
        wire::lemma_utf8_payload_roundtrip(n.tool_name);
        wire::lemma_fold_opt_string(m1, 2, n.tool_name, ap);
        if n.tool_name.len() == 0 {
            assert(m1.tool_name =~= n.tool_name);
        }
    }
    assert(fold_fields(m2, p3, ap) == Ok::<TaskNodeView, WireError>(m3)) by {
        wire::lemma_utf8_payload_roundtrip(n.parameters_json);
        wire::lemma_fold_opt_string(m2, 3, n.parameters_json, ap);
        if n.parameters_json.len() == 0 {
            assert(m2.parameters_json =~= n.parameters_json);
        }
    }
    lemma_fold_string_list(m3, n.dependencies);
    assert(m3.dependencies + n.dependencies =~= n.dependencies);
    wire::lemma_fold_concat(m0, p1, p2, ap);
    wire::lemma_fold_concat(m0, p1 + p2, p3, ap);
    wire::lemma_fold_concat(m0, p1 + p2 + p3, p4, ap);
    wire::lemma_stream_is_fold(MessageKind::TaskNode, task_default(), task_bytes(n), task_applier_in(), task_applier());
}

proof fn lemma_node_list_ok(ns: Seq<TaskNodeView>)
    requires
        forall|i: int| 0 <= i < ns.len() ==> task_bytes(#[trigger] ns[i]).len() < 0x1_0000_0000_0000_0000,
    ensures
        wire::fields_ok(MessageKind::ExecutionPlan, node_list(ns)),
{
    assert forall|i: int| 0 <= i < node_list(ns).len() implies wire::field_ok(
        MessageKind::ExecutionPlan,
        #[trigger] node_list(ns)[i].0,
        node_list(ns)[i].1,
    ) by {
        assert(task_bytes(ns[i]).len() < 0x1_0000_0000_0000_0000);
    }
}

proof fn lemma_fold_node_list(m: ExecutionPlanView, ns: Seq<TaskNodeView>)
    requires
        forall|i: int| 0 <= i < ns.len() ==> task_keeps(#[trigger] ns[i]),
    ensures
        fold_fields(m, node_list(ns), plan_applier()) == Ok::<ExecutionPlanView, WireError>(
            ExecutionPlanView { nodes: m.nodes + ns, ..m },
        ),
    decreases ns.len(),
{
    let ap = plan_applier();
    if ns.len() == 0 {
        assert(node_list(ns) =~= Seq::<(u32, FieldValue)>::empty());
        assert(m.nodes + ns =~= m.nodes);
    } else {
        let init = ns.drop_last();
        let last = ns.last();
        let one = seq![(8u32, FieldValue::Bytes(task_bytes(last)))];
        assert(node_list(ns) =~= node_list(init) + one);
        assert forall|i: int| 0 <= i < init.len() implies task_keeps(#[trigger] init[i]) by {
            assert(init[i] == ns[i]);
        }
        assert(task_keeps(ns[ns.len() - 1]));
        lemma_fold_node_list(m, init);
        let m1 = ExecutionPlanView { nodes: m.nodes + init, ..m };
        wire::lemma_fold_concat(m, node_list(init), one, ap);
        wire::lemma_fold_single(m1, 8, FieldValue::Bytes(task_bytes(last)), ap);
        lemma_task_roundtrip(last);
        assert((m.nodes + init).push(last) =~= m.nodes + ns);
    }
}

proof fn lemma_plan_fields_ok(p: ExecutionPlanView)
    requires
        plan_keeps(p),
    ensures
        wire::fields_ok(MessageKind::ExecutionPlan, plan_fields(p)),
{
    let k = MessageKind::ExecutionPlan;
    let p1 = opt_string(1, p.plan_id);
    let p2 = opt_string(2, p.objective);
    let p3 = opt_int32(3, p.priority_level);
    let p4 = opt_int32(4, p.max_retries);
    let p5 = opt_int32(5, p.timeout_ms);
    let p6 = opt_bool(6, p.requires_confirmation);
    let p7 = opt_bool(7, p.parallel_allowed);
    let p8 = node_list(p.nodes);
    let p9 = opt_float(9, p.estimated_cost_units);
    let p10 = opt_bool(10, p.compiler_verified);
    wire::lemma_opt_string_ok(k, 1, p.plan_id);
    wire::lemma_opt_string_ok(k, 2, p.objective);
    wire::lemma_opt_int32_ok(k, 3, p.priority_level);
    wire::lemma_opt_int32_ok(k, 4, p.max_retries);
    wire::lemma_opt_int32_ok(k, 5, p.timeout_ms);
    wire::lemma_opt_bool_ok(k, 6, p.requires_confirmation);
    wire::lemma_opt_bool_ok(k, 7, p.parallel_allowed);
    lemma_node_list_ok(p.nodes);
    wire::lemma_opt_float_ok(k, 9, p.estimated_cost_units);
    wire::lemma_opt_bool_ok(k, 10, p.compiler_verified);
    wire::lemma_fields_ok_concat(k, p1, p2);
    wire::lemma_fields_ok_concat(k, p1 + p2, p3);
    wire::lemma_fields_ok_concat(k, p1 + p2 + p3, p4);
    wire::lemma_fields_ok_concat(k, p1 + p2 + p3 + p4, p5);
    wire::lemma_fields_ok_concat(k, p1 + p2 + p3 + p4 + p5, p6);
    wire::lemma_fields_ok_concat(k, p1 + p2 + p3 + p4 + p5 + p6, p7);
    wire::lemma_fields_ok_concat(k, p1 + p2 + p3 + p4 + p5 + p6 + p7, p8);
    wire::lemma_fields_ok_concat(k, p1 + p2 + p3 + p4 + p5 + p6 + p7 + p8, p9);
    wire::lemma_fields_ok_concat(k, p1 + p2 + p3 + p4 + p5 + p6 + p7 + p8 + p9, p10);
}

#[verifier::rlimit(50)]
proof fn lemma_plan_fold(p: ExecutionPlanView)
    requires
        plan_keeps(p),
    ensures
        fold_fields(plan_default(), plan_fields(p), plan_applier()) == Ok::<ExecutionPlanView, WireError>(p),
{
    let p1 = opt_string(1, p.plan_id);
    let p2 = opt_string(2, p.objective);
    let p3 = opt_int32(3, p.priority_level);
    let p4 = opt_int32(4, p.max_retries);
    let p5 = opt_int32(5, p.timeout_ms);
    let p6 = opt_bool(6, p.requires_confirmation);
    let p7 = opt_bool(7, p.parallel_allowed);
    let p8 = node_list(p.nodes);
    let p9 = opt_float(9, p.estimated_cost_units);
    let p10 = opt_bool(10, p.compiler_verified);
    let ap = plan_applier();
    let m0 = plan_default();
    let m1 = ExecutionPlanView { plan_id: p.plan_id, ..m0 };
    let m2 = ExecutionPlanView { objective: p.objective, ..m1 };
    let m3 = ExecutionPlanView { priority_level: p.priority_level, ..m2 };
    let m4 = ExecutionPlanView { max_retries: p.max_retries, ..m3 };
    let m5 = ExecutionPlanView { timeout_ms: p.timeout_ms, ..m4 };
    let m6 = ExecutionPlanView { requires_confirmation: p.requires_confirmation, ..m5 };
    let m7 = ExecutionPlanView { parallel_allowed: p.parallel_allowed, ..m6 };
    let m8 = ExecutionPlanView { nodes: p.nodes, ..m7 };
    let m9 = ExecutionPlanView { estimated_cost_units: p.estimated_cost_units, ..m8 };
    let m10 = ExecutionPlanView { compiler_verified: p.compiler_verified, ..m9 };
    assert(fold_fields(m0, p1, ap) == Ok::<ExecutionPlanView, WireError>(m1)) by {
        wire::lemma_utf8_payload_roundtrip(p.plan_id);
        wire::lemma_fold_opt_string(m0, 1, p.plan_id, ap);
        if p.plan_id.len() == 0 {
            assert(m0.plan_id =~= p.plan_id);
        }
    }
    assert(fold_fields(m1, p2, ap) == Ok::<ExecutionPlanView, WireError>(m2)) by {
        wire::lemma_utf8_payload_roundtrip(p.objective);
        wire::lemma_fold_opt_string(m1, 2, p.objective, ap);
        if p.objective.len() == 0 {
            assert(m1.objective =~= p.objective);
        }
    }
    assert(fold_fields(m2, p3, ap) == Ok::<ExecutionPlanView, WireError>(m3)) by {
        wire::lemma_int32_roundtrip(p.priority_level);
        wire::lemma_fold_opt_int32(m2, 3, p.priority_level, ap);
    }
    assert(fold_fields(m3, p4, ap) == Ok::<ExecutionPlanView, WireError>(m4)) by {
        wire::lemma_int32_roundtrip(p.max_retries);
        wire::lemma_fold_opt_int32(m3, 4, p.max_retries, ap);
    }
    assert(fold_fields(m4, p5, ap) == Ok::<ExecutionPlanView, WireError>(m5)) by {
        wire::lemma_int32_roundtrip(p.timeout_ms);
        wire::lemma_fold_opt_int32(m4, 5, p.timeout_ms, ap);
    }
    assert(fold_fields(m5, p6, ap) == Ok::<ExecutionPlanView, WireError>(m6)) by {
        wire::lemma_fold_opt_bool(m5, 6, p.requires_confirmation, ap);
    }
    assert(fold_fields(m6, p7, ap) == Ok::<ExecutionPlanView, WireError>(m7)) by {
        wire::lemma_fold_opt_bool(m6, 7, p.parallel_allowed, ap);
    }
    assert(fold_fields(m7, p8, ap) == Ok::<ExecutionPlanView, WireError>(m8)) by {
        assert forall|i: int| 0 <= i < p.nodes.len() implies task_keeps(#[trigger] p.nodes[i]) by {}
        lemma_fold_node_list(m7, p.nodes);
        assert(m7.nodes + p.nodes =~= p.nodes);
    }
    assert(fold_fields(m8, p9, ap) == Ok::<ExecutionPlanView, WireError>(m9)) by {
        wire::lemma_fold_opt_float(m8, 9, p.estimated_cost_units, ap);
    }
    assert(fold_fields(m9, p10, ap) == Ok::<ExecutionPlanView, WireError>(m10)) by {
        wire::lemma_fold_opt_bool(m9, 10, p.compiler_verified, ap);
    }
    wire::lemma_fold_concat(m0, p1, p2, ap);
    wire::lemma_fold_concat(m0, p1 + p2, p3, ap);
    wire::lemma_fold_concat(m0, p1 + p2 + p3, p4, ap);
    wire::lemma_fold_concat(m0, p1 + p2 + p3 + p4, p5, ap);
    wire::lemma_fold_concat(m0, p1 + p2 + p3 + p4 + p5, p6, ap);
    wire::lemma_fold_concat(m0, p1 + p2 + p3 + p4 + p5 + p6, p7, ap);
    wire::lemma_fold_concat(m0, p1 + p2 + p3 + p4 + p5 + p6 + p7, p8, ap);
    wire::lemma_fold_concat(m0, p1 + p2 + p3 + p4 + p5 + p6 + p7 + p8, p9, ap);
    wire::lemma_fold_concat(m0, p1 + p2 + p3 + p4 + p5 + p6 + p7 + p8 + p9, p10, ap);
    assert(m10 == p);
}

/// Decoding an encoded plan gives it back, for every plan whose cost is not
/// negative zero.
pub proof fn lemma_plan_roundtrip(p: ExecutionPlanView)
    requires
        plan_keeps(p),
    ensures
        plan_decode(plan_bytes(p)) == Ok::<ExecutionPlanView, WireError>(p),
{
    lemma_plan_fields_ok(p);
    wire::lemma_parse_encode_fields(MessageKind::ExecutionPlan, plan_fields(p));
    lemma_plan_fold(p);
    assert forall|m2: ExecutionPlanView, t: u32, v: FieldValue, tail: Seq<u8>| plan_applier()(m2, t, v) is Ok implies
        #[trigger] plan_applier_in()(m2, t, v, tail) == plan_applier()(m2, t, v) by {
        lemma_plan_apply_in(m2, t, v, tail);
    }
    wire::lemma_stream_is_fold(MessageKind::ExecutionPlan, plan_default(), plan_bytes(p), plan_applier_in(), plan_applier());
}

} // verus!

verus! {

/// Each field of a task node is written under the field number of the
/// schema: a node with only one field set encodes as that one field
/// (task_id 1, tool_name 2, parameters_json 3, one dependency 4).
pub proof fn lemma_task_field_numbers(s: Seq<char>)
    ensures
        task_bytes(TaskNodeView { task_id: s, ..task_default() }) == encode_fields(opt_string(1, s)),
        task_bytes(TaskNodeView { tool_name: s, ..task_default() }) == encode_fields(opt_string(2, s)),
        task_bytes(TaskNodeView { parameters_json: s, ..task_default() }) == encode_fields(opt_string(3, s)),
        task_bytes(TaskNodeView { dependencies: seq![s], ..task_default() }) == encode_fields(
            seq![(4u32, FieldValue::Bytes(vstd::utf8::encode_utf8(s)))],
        ),
{
    let z = task_default();
    assert(string_list(4, z.dependencies) =~= Seq::<(u32, FieldValue)>::empty());
    assert(task_fields(TaskNodeView { task_id: s, ..z }) =~= opt_string(1, s));
    assert(task_fields(TaskNodeView { tool_name: s, ..z }) =~= opt_string(2, s));
    assert(task_fields(TaskNodeView { parameters_json: s, ..z }) =~= opt_string(3, s));
    assert(task_fields(TaskNodeView { dependencies: seq![s], ..z }) =~= seq![
        (4u32, FieldValue::Bytes(vstd::utf8::encode_utf8(s))),
    ]);
}

/// Each field of a plan is written under the field number of the schema:
/// a plan with only one field set encodes as that one field (plan_id 1,
/// objective 2, priority_level 3, max_retries 4, timeout_ms 5,
/// requires_confirmation 6, parallel_allowed 7, one node 8,
/// estimated_cost_units 9, compiler_verified 10), and an `int32` or `bool`
/// field read back from such a packet lands in the field of that number.
pub proof fn lemma_plan_field_numbers(x: i32, f: u32, b: bool, s: Seq<char>, n: TaskNodeView)
    ensures
        plan_bytes(ExecutionPlanView { plan_id: s, ..plan_default() }) == encode_fields(opt_string(1, s)),
        plan_bytes(ExecutionPlanView { objective: s, ..plan_default() }) == encode_fields(opt_string(2, s)),
        plan_bytes(ExecutionPlanView { priority_level: x, ..plan_default() }) == encode_fields(opt_int32(3, x)),
        plan_bytes(ExecutionPlanView { max_retries: x, ..plan_default() }) == encode_fields(opt_int32(4, x)),
        plan_bytes(ExecutionPlanView { timeout_ms: x, ..plan_default() }) == encode_fields(opt_int32(5, x)),
        plan_bytes(ExecutionPlanView { requires_confirmation: b, ..plan_default() }) == encode_fields(opt_bool(6, b)),
        plan_bytes(ExecutionPlanView { parallel_allowed: b, ..plan_default() }) == encode_fields(opt_bool(7, b)),
        plan_bytes(ExecutionPlanView { nodes: seq![n], ..plan_default() }) == encode_fields(
            seq![(8u32, FieldValue::Bytes(task_bytes(n)))],
        ),
        plan_bytes(ExecutionPlanView { estimated_cost_units: f, ..plan_default() }) == encode_fields(
            opt_float(9, f),
        ),
        plan_bytes(ExecutionPlanView { compiler_verified: b, ..plan_default() }) == encode_fields(opt_bool(10, b)),
        plan_decode(encode_fields(opt_int32(3, x))) == Ok::<ExecutionPlanView, WireError>(
            ExecutionPlanView { priority_level: x, ..plan_default() },
        ),
        plan_decode(encode_fields(opt_int32(4, x))) == Ok::<ExecutionPlanView, WireError>(
            ExecutionPlanView { max_retries: x, ..plan_default() },
        ),
        plan_decode(encode_fields(opt_int32(5, x))) == Ok::<ExecutionPlanView, WireError>(
            ExecutionPlanView { timeout_ms: x, ..plan_default() },
        ),
        plan_decode(encode_fields(opt_bool(6, b))) == Ok::<ExecutionPlanView, WireError>(
            ExecutionPlanView { requires_confirmation: b, ..plan_default() },
        ),
        plan_decode(encode_fields(opt_bool(7, b))) == Ok::<ExecutionPlanView, WireError>(
            ExecutionPlanView { parallel_allowed: b, ..plan_default() },
        ),
        plan_decode(encode_fields(opt_bool(10, b))) == Ok::<ExecutionPlanView, WireError>(
            ExecutionPlanView { compiler_verified: b, ..plan_default() },
        ),
{
    let z = plan_default();
    assert(node_list(z.nodes) =~= Seq::<(u32, FieldValue)>::empty());
    assert(fits(z.plan_id) && fits(z.objective)) by {
        assert(z.plan_id =~= Seq::<char>::empty());
    }
    assert(plan_fields(ExecutionPlanView { plan_id: s, ..z }) =~= opt_string(1, s));
    assert(plan_fields(ExecutionPlanView { objective: s, ..z }) =~= opt_string(2, s));
    assert(plan_fields(ExecutionPlanView { priority_level: x, ..z }) =~= opt_int32(3, x));
    assert(plan_fields(ExecutionPlanView { max_retries: x, ..z }) =~= opt_int32(4, x));
    assert(plan_fields(ExecutionPlanView { timeout_ms: x, ..z }) =~= opt_int32(5, x));
    assert(plan_fields(ExecutionPlanView { requires_confirmation: b, ..z }) =~= opt_bool(6, b));
    assert(plan_fields(ExecutionPlanView { parallel_allowed: b, ..z }) =~= opt_bool(7, b));
    assert(plan_fields(ExecutionPlanView { nodes: seq![n], ..z }) =~= seq![(8u32, FieldValue::Bytes(task_bytes(n)))]);
    assert(plan_fields(ExecutionPlanView { estimated_cost_units: f, ..z }) =~= opt_float(9, f));
    assert(plan_fields(ExecutionPlanView { compiler_verified: b, ..z }) =~= opt_bool(10, b));
    lemma_plan_roundtrip(ExecutionPlanView { priority_level: x, ..z });
    lemma_plan_roundtrip(ExecutionPlanView { max_retries: x, ..z });
    lemma_plan_roundtrip(ExecutionPlanView { timeout_ms: x, ..z });
    lemma_plan_roundtrip(ExecutionPlanView { requires_confirmation: b, ..z });
    lemma_plan_roundtrip(ExecutionPlanView { parallel_allowed: b, ..z });
    lemma_plan_roundtrip(ExecutionPlanView { compiler_verified: b, ..z });
}

} // verus!
