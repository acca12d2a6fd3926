//! The session log: every compiled packet with its payload and hex text,
//! kept newest last and bounded, and the lookups that executing and
//! exporting a session make in it.

use vstd::prelude::*;
use vstd::string::StringExecFns;
use crate::hex::{format_hex, hex_bytes, hex_string, lemma_hex_roundtrip, parse_hex};
use crate::text::str_eq;

verus! {

/// How many sessions the log keeps when a new one is recorded.
pub const MAX_SESSIONS: usize = 100;

/// The schema name of execution plans.
pub const PLAN_SCHEMA: &'static str = "ExecutionPlan";

/// Error when no session has the id asked for execution.
pub const SESSION_NOT_FOUND: &'static str = "Session not found";

/// Error when the session asked for execution is not a plan.
pub const NOT_A_PLAN: &'static str = "Only ExecutionPlan sessions can be executed";

/// Error when no session has the id asked for export.
pub const ENTRY_NOT_FOUND: &'static str = "Session entry not found";

/// Start of the error for an export type that is not known.
pub const UNKNOWN_EXPORT: &'static str = "Unknown export type: ";

/// One compiled session, as kept in the log and in the history file.
#[derive(Clone, Debug)]
pub struct SessionEntry {
    pub id: String,
    pub timestamp: String,
    pub schema: String,
    pub intent: String,
    pub json_payload: String,
    /// The packet as space-separated two-digit upper-case hex.
    pub binary_hex: String,
    pub byte_size: usize,
    /// Generation speed in tokens per second, as `f32` bits.
    pub tps: u32,
    /// Time to first token in milliseconds, as `f32` bits.
    pub ttft: u32,
}

/// The value of a [`SessionEntry`].
pub struct SessionEntryView {
    pub id: Seq<char>,
    pub timestamp: Seq<char>,
    pub schema: Seq<char>,
    pub intent: Seq<char>,
    pub json_payload: Seq<char>,
    pub binary_hex: Seq<char>,
    pub byte_size: nat,
    pub tps: u32,
    pub ttft: u32,
}

impl View for SessionEntry {
    type V = SessionEntryView;

    open spec fn view(&self) -> SessionEntryView {
        SessionEntryView {
            id: self.id@,
            timestamp: self.timestamp@,
            schema: self.schema@,
            intent: self.intent@,
            json_payload: self.json_payload@,
            binary_hex: self.binary_hex@,
            byte_size: self.byte_size as nat,
            tps: self.tps,
            ttft: self.ttft,
        }
    }
}

impl SessionEntry {
    /// The entry for a freshly compiled packet: its hex text and size are
    /// those of `binary`.
    pub fn from_packet(
        id: String,
        timestamp: String,
        schema: String,
        intent: String,
        json_payload: String,
        binary: &[u8],
        tps: u32,
        ttft: u32,
    ) -> (r: SessionEntry)
        ensures
            r@ == (SessionEntryView {
                id: id@,
                timestamp: timestamp@,
                schema: schema@,
                intent: intent@,
                json_payload: json_payload@,
                binary_hex: hex_string(binary@),
                byte_size: binary@.len(),
                tps,
                ttft,
            }),
    {
        SessionEntry {
            id,
            timestamp,
            schema,
            intent,
            json_payload,
            binary_hex: format_hex(binary),
            byte_size: binary.len(),
            tps,
            ttft,
        }
    }
}

/// The value of each entry.
pub open spec fn entries_view(v: Seq<SessionEntry>) -> Seq<SessionEntryView> {
    v.map_values(|e: SessionEntry| e@)
}

/// The last `max` items of `s`, all of them when there are fewer.
pub open spec fn keep_last<T>(s: Seq<T>, max: nat) -> Seq<T> {
    if s.len() > max {
        s.skip(s.len() - max)
    } else {
        s
    }
}

/// The log after recording `e`: appended, then cut to the newest
/// [`MAX_SESSIONS`].
pub open spec fn recorded(log: Seq<SessionEntryView>, e: SessionEntryView) -> Seq<SessionEntryView> {
    keep_last(log.push(e), MAX_SESSIONS as nat)
}

/// The first position of an entry with id `id`.
pub open spec fn first_with_id(log: Seq<SessionEntryView>, id: Seq<char>) -> Option<int>
    decreases log.len(),
{
    if log.len() == 0 {
        None
    } else if log[0].id == id {
        Some(0)
    } else {
        match first_with_id(log.drop_first(), id) {
            Some(i) => Some(i + 1),
            None => None,
        }
    }
}

/// The log of compiled sessions, oldest first.
pub struct SessionLog {
    entries: Vec<SessionEntry>,
}

impl View for SessionLog {
    type V = Seq<SessionEntryView>;

    closed spec fn view(&self) -> Seq<SessionEntryView> {
        entries_view(self.entries@)
    }
}


proof fn lemma_first_with_id(log: Seq<SessionEntryView>, id: Seq<char>)
    ensures
        match first_with_id(log, id) {
            Some(i) => 0 <= i < log.len() && log[i].id == id && forall|j: int|
                0 <= j < i ==> #[trigger] log[j].id != id,
            None => forall|j: int| 0 <= j < log.len() ==> #[trigger] log[j].id != id,
        },
    decreases log.len(),
{
    if log.len() > 0 {
        lemma_first_with_id(log.drop_first(), id);
        assert forall|j: int| 1 <= j < log.len() implies #[trigger] log[j] == log.drop_first()[j - 1] by {}
    }
}

impl SessionLog {
    /// An empty log.
    pub fn new() -> (r: SessionLog)
        ensures
            r@ == Seq::<SessionEntryView>::empty(),
    {
        let r = SessionLog { entries: Vec::new() };
        assert(r@ =~= Seq::<SessionEntryView>::empty());
        r
    }

    /// A log holding `entries` as they are, such as those read back from
    /// the history file.
    pub fn from_entries(entries: Vec<SessionEntry>) -> (r: SessionLog)
        ensures
            r@ == entries_view(entries@),
    {
        SessionLog { entries }
    }

    /// The entries, oldest first.
    pub fn entries(&self) -> (r: &Vec<SessionEntry>)
        ensures
            entries_view(r@) == self@,
    {
        &self.entries
    }

    /// How many entries the log holds.
    pub fn len(&self) -> (r: usize)
        ensures
            r == self@.len(),
    {
        self.entries.len()
    }

    /// Appends `e`, then drops the oldest entries beyond [`MAX_SESSIONS`].
    pub fn record(&mut self, e: SessionEntry)
        ensures
            final(self)@ == recorded(old(self)@, e@),
    {
        let ghost before = self.entries@;
        self.entries.push(e);
        let len = self.entries.len();
        if len > MAX_SESSIONS {
            let kept = self.entries.split_off(len - MAX_SESSIONS);
            self.entries = kept;
        }
        assert(entries_view(self.entries@) =~= recorded(entries_view(before), e@));
    }

    /// Removes every entry.
    pub fn clear(&mut self)
        ensures
            final(self)@ == Seq::<SessionEntryView>::empty(),
    {
        self.entries = Vec::new();
        assert(entries_view(self.entries@) =~= Seq::<SessionEntryView>::empty());
    }

    /// Removes the entries with id `id`; the others keep their order.
    pub fn delete(&mut self, id: &str)
        ensures
            final(self)@ == old(self)@.filter(|e: SessionEntryView| e.id != id@),
    {
        let ghost pred = |e: SessionEntryView| e.id != id@;
        let ghost all = entries_view(self.entries@);
        let mut rest = self.entries.split_off(0);
        let ghost orig = rest@;
        assert(entries_view(orig) =~= all);
        let mut kept: Vec<SessionEntry> = Vec::new();
        let mut i: usize = 0;
        let n = rest.len();
        proof {
            reveal(Seq::filter);
            assert(entries_view(orig.take(0)) =~= Seq::<SessionEntryView>::empty());
            assert(entries_view(orig.take(0)).filter(pred) =~= Seq::<SessionEntryView>::empty());
        }
        while i < n
            invariant
                n == orig.len(),
                i <= n,
                rest@ == orig.skip(i as int),
                pred == (|e: SessionEntryView| e.id != id@),
                entries_view(kept@) == entries_view(orig.take(i as int)).filter(pred),
            decreases n - i,
        {
            proof {
                reveal(Seq::filter);
            }
            let e = rest.remove(0);
            assert(e == orig[i as int]);
            assert(rest@ =~= orig.skip(i + 1));
            let ghost prev = entries_view(orig.take(i as int));
            let ghost next = entries_view(orig.take(i + 1));
            assert(next.drop_last() =~= prev);
            assert(next.last() == e@);
            if !str_eq(e.id.as_str(), id) {
                kept.push(e);
                assert(entries_view(kept@) =~= next.filter(pred));
            } else {
                assert(entries_view(kept@) =~= next.filter(pred));
            }
            i = i + 1;
        }
        assert(orig.take(n as int) =~= orig);
        self.entries = kept;
    }

    /// The position of the first entry with id `id`.
    pub fn find(&self, id: &str) -> (r: Option<usize>)
        ensures
            match first_with_id(self@, id@) {
                Some(i) => r matches Some(j) && j == i,
                None => r is None,
            },
    {
        proof {
            lemma_first_with_id(self@, id@);
        }
        let mut i: usize = 0;
        while i < self.entries.len()
            invariant
                i <= self@.len(),
                self@ == entries_view(self.entries@),
                forall|j: int| 0 <= j < i ==> #[trigger] self@[j].id != id@,
                match first_with_id(self@, id@) {
                    Some(k) => 0 <= k < self@.len() && self@[k].id == id@ && forall|j: int|
                        0 <= j < k ==> #[trigger] self@[j].id != id@,
                    None => forall|j: int| 0 <= j < self@.len() ==> #[trigger] self@[j].id != id@,
                },
            decreases self@.len() - i,
        {
            if str_eq(self.entries[i].id.as_str(), id) {
                assert(self@[i as int].id == id@);
                return Some(i);
            }
            i = i + 1;
        }
        None
    }
}


/// What executing session `id` reads from the log: the packet of the first
/// entry with that id, which must be a plan.
pub open spec fn plan_binary_of(log: Seq<SessionEntryView>, id: Seq<char>) -> Result<Seq<u8>, Seq<char>> {
    match first_with_id(log, id) {
        None => Err(SESSION_NOT_FOUND@),
        Some(i) => if log[i].schema != PLAN_SCHEMA@ {
            Err(NOT_A_PLAN@)
        } else {
            Ok(hex_bytes(log[i].binary_hex))
        },
    }
}

/// The three ways to export a session.
#[derive(Clone, Copy, Debug, PartialEq, Eq, Structural)]
pub enum ExportKind {
    /// The raw packet, as `.bin`.
    Binary,
    /// The validated JSON payload, as `.json`.
    Json,
    /// The annotated hex dump, as `.txt`.
    HexReport,
}

/// The export kind an export type names.
pub open spec fn export_kind_of(name: Seq<char>) -> Option<ExportKind> {
    if name == "binary"@ {
        Some(ExportKind::Binary)
    } else if name == "json"@ {
        Some(ExportKind::Json)
    } else if name == "hex_report"@ {
        Some(ExportKind::HexReport)
    } else {
        None
    }
}

/// Reads an export type.
pub fn export_kind(name: &str) -> (r: Option<ExportKind>)
    ensures
        r == export_kind_of(name@),
{
    if str_eq(name, "binary") {
        Some(ExportKind::Binary)
    } else if str_eq(name, "json") {
        Some(ExportKind::Json)
    } else if str_eq(name, "hex_report") {
        Some(ExportKind::HexReport)
    } else {
        None
    }
}

/// A request to export a session.
pub struct ExportRequest {
    pub session_id: String,
    pub export_type: String,
}

/// What an export is to write: of which kind, from which entry, with the
/// packet read back from its hex text.
pub struct ExportJob {
    pub kind: ExportKind,
    /// The position of the entry in the log.
    pub index: usize,
    pub binary: Vec<u8>,
}

impl SessionLog {
    /// The packet of the plan session `id`, read back from its hex text.
    pub fn plan_binary(&self, id: &str) -> (r: Result<Vec<u8>, String>)
        ensures
            match plan_binary_of(self@, id@) {
                Ok(b) => r matches Ok(v) && v@ == b,
                Err(m) => r matches Err(e) && e@ == m,
            },
    {
        proof {
            lemma_first_with_id(self@, id@);
        }
        match self.find(id) {
            None => Err(String::from_str(SESSION_NOT_FOUND)),
            Some(i) => {
                let entry = &self.entries[i];
                if !str_eq(entry.schema.as_str(), PLAN_SCHEMA) {
                    Err(String::from_str(NOT_A_PLAN))
                } else {
                    Ok(parse_hex(entry.binary_hex.as_str()))
                }
            },
        }
    }

    /// What exporting as `req` asks for, or why it cannot be done.
    pub fn export_job(&self, req: &ExportRequest) -> (r: Result<ExportJob, String>)
        ensures
            match first_with_id(self@, req.session_id@) {
                None => r matches Err(e) && e@ == ENTRY_NOT_FOUND@,
                Some(i) => match export_kind_of(req.export_type@) {
                    Some(k) => r matches Ok(j) && j.kind == k && j.index == i && j.binary@ == hex_bytes(
                        self@[i].binary_hex,
                    ),
                    None => r matches Err(e) && e@ == UNKNOWN_EXPORT@ + req.export_type@,
                },
            },
    {
        proof {
            lemma_first_with_id(self@, req.session_id@);
        }
        match self.find(req.session_id.as_str()) {
            None => Err(String::from_str(ENTRY_NOT_FOUND)),
            Some(i) => {
                let binary = parse_hex(self.entries[i].binary_hex.as_str());
                match export_kind(req.export_type.as_str()) {
                    Some(kind) => Ok(ExportJob { kind, index: i, binary }),
                    None => {
                        let mut msg = String::from_str(UNKNOWN_EXPORT);
                        msg.append(req.export_type.as_str());
                        Err(msg)
                    },
                }
            },
        }
    }
}


/// Recording bounds the log: whatever it held before, it then holds at
/// most [`MAX_SESSIONS`] entries, the new one last, after the newest of
/// the old ones in their order.
pub proof fn lemma_record_bounded(log: Seq<SessionEntryView>, e: SessionEntryView)
    ensures
        recorded(log, e).len() <= MAX_SESSIONS,
        recorded(log, e).len() == if log.len() + 1 > MAX_SESSIONS {
            MAX_SESSIONS as int
        } else {
            log.len() + 1int
        },
        recorded(log, e).last() == e,
        forall|k: int|
            0 <= k < recorded(log, e).len() ==> #[trigger] recorded(log, e)[k] == log.push(e)[k
                + log.len() + 1 - recorded(log, e).len()],
{
}

/// A packet recorded as a plan session reads back as the same packet when
/// that session is executed, provided no older entry has its id.
pub proof fn lemma_recorded_plan_reads_back(
    log: Seq<SessionEntryView>,
    e: SessionEntryView,
    binary: Seq<u8>,
)
    requires
        e.binary_hex == hex_string(binary),
        e.schema == PLAN_SCHEMA@,
        forall|j: int| 0 <= j < log.len() ==> #[trigger] log[j].id != e.id,
    ensures
        plan_binary_of(recorded(log, e), e.id) == Ok::<Seq<u8>, Seq<char>>(binary),
{
    let r = recorded(log, e);
    lemma_record_bounded(log, e);
    lemma_first_with_id(r, e.id);
    let last = r.len() - 1;
    assert(r[last] == e);
    assert forall|j: int| 0 <= j < last implies #[trigger] r[j].id != e.id by {
        assert(r[j] == log.push(e)[j + log.len() + 1 - r.len()]);
    }
    lemma_hex_roundtrip(binary);
}

/// After `id` is deleted, no session has it: executing or exporting it
/// finds nothing.
pub proof fn lemma_deleted_not_found(log: Seq<SessionEntryView>, id: Seq<char>)
    ensures
        first_with_id(log.filter(|e: SessionEntryView| e.id != id), id) is None,
        plan_binary_of(log.filter(|e: SessionEntryView| e.id != id), id) == Err::<Seq<u8>, Seq<char>>(
            SESSION_NOT_FOUND@,
        ),
{
    let kept = log.filter(|e: SessionEntryView| e.id != id);
    broadcast use vstd::seq_lib::group_filter_ensures;

    lemma_first_with_id(kept, id);
    assert forall|j: int| 0 <= j < kept.len() implies #[trigger] kept[j].id != id by {}
}

} // verus!
