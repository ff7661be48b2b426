//! Process supervisor: the registry of in-flight and recently finished
//! commands. It owns every process record, coalesces output deltas, applies
//! the terminal transitions (completion, failure, cancellation), services
//! joins, cancellations and status queries, and evicts stale records.
//!
//! Terminal transitions are monotonic: `complete_process`, `fail_process` and
//! `cancel_process` act only on a record that is still `Running`, so a record
//! never leaves a terminal state and the completion signal fires at most once.
use vstd::prelude::*;

verus! {

use vstd::pervasive::unreached;
use vstd::string::StringExecFns;
use vstd::string::StrSliceExecFns;
use crate::output::spec_output_content;
use crate::output::format_output;
use crate::runtime::SummaryResult;

/// Number of trailing summary characters a join hands back.
pub const JOIN_SUMMARY_CHARS: usize = 1000;

/// Age past the terminal transition, in milliseconds, after which the cleanup
/// scan evicts a record.
pub const RECORD_MAX_AGE_MILLIS: u64 = 3_600_000;

/// Opaque identifier of a tracked process, minted once at registration.
#[derive(Debug, Clone, PartialEq, Eq, Hash)]
pub struct ProcessId(pub String);

impl ProcessId {
    /// Relies on `uuid::Uuid::new_v4` and its `Display` impl: a fresh random
    /// identifier rendered in the hyphenated form, which is 36 ASCII
    /// characters. Nothing is assumed about which identifier comes back.
    #[verifier::external_body]
    pub fn new() -> (r: Self)
        ensures
            r.0@.len() == 36,
    {
        ProcessId(uuid::Uuid::new_v4().to_string())
    }
}

/// State of a tracked process. `Running` is the initial state; the other
/// three are terminal.
#[derive(Debug, Clone, PartialEq, Eq)]
pub enum ProcessState {
    Running,
    Completed { exit_code: i32 },
    Cancelled,
    Failed { error: String },
}

impl ProcessState {
    pub open spec fn is_terminal(self) -> bool {
        !(self is Running)
    }
}

/// Copies a state value; written by hand so verified callers know the copy
/// equals the value copied (a derived `Clone` says nothing).
pub fn copy_state(s: &ProcessState) -> (r: ProcessState)
    ensures
        r == *s,
{
    match s {
        ProcessState::Running => ProcessState::Running,
        ProcessState::Completed { exit_code } => ProcessState::Completed { exit_code: *exit_code },
        ProcessState::Cancelled => ProcessState::Cancelled,
        ProcessState::Failed { error } => ProcessState::Failed { error: error.clone() },
    }
}

/// The full record of one process, accumulator bodies included.
#[derive(Debug)]
pub struct ProcessInfo {
    pub id: ProcessId,
    pub command: String,
    pub state: ProcessState,
    /// Unix timestamp in milliseconds at registration.
    pub started_at: u64,
    pub raw_stdout: String,
    pub raw_stderr: String,
    pub output_file: Option<String>,
}

/// A record plus the supervisor's bookkeeping for it.
pub struct ProcessTask {
    pub info: ProcessInfo,
    /// Summary text accumulated since the last join drained it.
    pub delta_summary: String,
    /// Whether the handler reported truncation in its final summary.
    pub handler_reported_truncation: bool,
    /// Whether an executor task handle was registered for cancellation.
    pub handle_registered: bool,
    /// The latching completion signal: set on the terminal transition, never
    /// cleared.
    pub completion_fired: bool,
    /// Whether the final `summarize` result was already delivered.
    pub finalized: bool,
    /// Unix milliseconds of the terminal transition, if one happened.
    pub terminal_at: Option<u64>,
}

/// What a join hands back: the summary text accumulated since the previous
/// join, capped to its trailing [`JOIN_SUMMARY_CHARS`] characters, and the
/// state at the time of the join.
#[derive(Debug)]
pub struct ProcessUpdate {
    pub incremental_summary: String,
    pub status: ProcessState,
}

/// The public status snapshot: it carries the lengths of the two
/// accumulators, never their bodies.
#[derive(Debug)]
pub struct ProcessStatus {
    pub id: ProcessId,
    pub command: String,
    pub state: ProcessState,
    pub started_at: u64,
    pub stdout_length: usize,
    pub stderr_length: usize,
    pub output_file: Option<String>,
}

/// The identifier of a task, as a sequence of characters.
pub open spec fn tid(t: ProcessTask) -> Seq<char> {
    t.info.id.0@
}

/// No two records share an identifier.
pub open spec fn distinct_ids(s: Seq<ProcessTask>) -> bool {
    forall|i: int, j: int|
        0 <= i < j < s.len() ==> tid(#[trigger] s[i]) != tid(#[trigger] s[j])
}

/// Whether some record carries the identifier.
pub open spec fn has_id(s: Seq<ProcessTask>, id: Seq<char>) -> bool {
    exists|k: int| 0 <= k < s.len() && tid(#[trigger] s[k]) == id
}

/// The index of the record with the identifier (meaningful when `has_id`).
pub open spec fn index_of_id(s: Seq<ProcessTask>, id: Seq<char>) -> int {
    choose|k: int| 0 <= k < s.len() && tid(#[trigger] s[k]) == id
}

/// The record with the identifier (meaningful when `has_id`).
pub open spec fn task_of(s: Seq<ProcessTask>, id: Seq<char>) -> ProcessTask {
    s[index_of_id(s, id)]
}

/// With distinct identifiers, any index whose record carries `id` is the
/// index `index_of_id` denotes.
pub proof fn lemma_index_of_id(s: Seq<ProcessTask>, id: Seq<char>, i: int)
    requires
        distinct_ids(s),
        0 <= i < s.len(),
        tid(s[i]) == id,
    ensures
        has_id(s, id),
        index_of_id(s, id) == i,
        task_of(s, id) == s[i],
{
    assert(has_id(s, id));
    let k = index_of_id(s, id);
    assert(0 <= k < s.len() && tid(s[k]) == id);
    if k < i {
        assert(tid(s[k]) != tid(s[i]));
    } else if i < k {
        assert(tid(s[i]) != tid(s[k]));
    }
}

/// Replacing the record at `i` by one with the same identifier keeps the
/// identifiers distinct, keeps every membership fact, and changes the record
/// of that identifier alone.
pub proof fn lemma_update_preserves(s: Seq<ProcessTask>, i: int, nt: ProcessTask)
    requires
        distinct_ids(s),
        0 <= i < s.len(),
        tid(nt) == tid(s[i]),
    ensures
        distinct_ids(s.update(i, nt)),
        forall|x: Seq<char>| has_id(s.update(i, nt), x) <==> has_id(s, x),
        has_id(s.update(i, nt), tid(nt)),
        task_of(s.update(i, nt), tid(nt)) == nt,
        forall|x: Seq<char>|
            has_id(s, x) && x != tid(nt) ==> task_of(s.update(i, nt), x) == task_of(s, x),
{
    let s2 = s.update(i, nt);
    assert forall|ii: int, jj: int| 0 <= ii < jj < s2.len() implies tid(s2[ii]) != tid(
        s2[jj],
    ) by {
        assert(tid(s2[ii]) == tid(s[ii]));
        assert(tid(s2[jj]) == tid(s[jj]));
    }
    assert forall|x: Seq<char>| has_id(s2, x) implies has_id(s, x) by {
        let k = choose|k: int| 0 <= k < s2.len() && tid(#[trigger] s2[k]) == x;
        assert(tid(s[k]) == tid(s2[k]));
        assert(has_id(s, x));
    }
    assert forall|x: Seq<char>| has_id(s, x) implies has_id(s2, x) by {
        let k = choose|k: int| 0 <= k < s.len() && tid(#[trigger] s[k]) == x;
        assert(tid(s2[k]) == tid(s[k]));
        assert(has_id(s2, x));
    }
    lemma_index_of_id(s2, tid(nt), i);
    assert forall|x: Seq<char>|
        has_id(s, x) && x != tid(nt) implies task_of(s2, x) == task_of(s, x) by {
        let k = index_of_id(s, x);
        assert(0 <= k < s.len() && tid(s[k]) == x);
        assert(k != i);
        assert(tid(s2[k]) == x);
        lemma_index_of_id(s2, x, k);
    }
}

/// Appending a record with a fresh identifier keeps the identifiers distinct
/// and every existing record untouched.
pub proof fn lemma_push_preserves(s: Seq<ProcessTask>, nt: ProcessTask)
    requires
        distinct_ids(s),
        !has_id(s, tid(nt)),
    ensures
        distinct_ids(s.push(nt)),
        has_id(s.push(nt), tid(nt)),
        task_of(s.push(nt), tid(nt)) == nt,
        forall|x: Seq<char>| x != tid(nt) ==> (has_id(s.push(nt), x) <==> has_id(s, x)),
        forall|x: Seq<char>|
            has_id(s, x) && x != tid(nt) ==> task_of(s.push(nt), x) == task_of(s, x),
{
    let s2 = s.push(nt);
    assert forall|ii: int, jj: int| 0 <= ii < jj < s2.len() implies tid(s2[ii]) != tid(
        s2[jj],
    ) by {
        if jj < s.len() {
            assert(tid(s2[ii]) == tid(s[ii]));
            assert(tid(s2[jj]) == tid(s[jj]));
        } else {
            assert(tid(s2[jj]) == tid(nt));
            assert(tid(s2[ii]) == tid(s[ii]));
            if tid(s[ii]) == tid(nt) {
                assert(has_id(s, tid(nt)));
            }
        }
    }
    lemma_index_of_id(s2, tid(nt), s.len() as int);
    assert forall|x: Seq<char>| x != tid(nt) implies (has_id(s2, x) <==> has_id(s, x)) by {
        if has_id(s2, x) {
            let k = choose|k: int| 0 <= k < s2.len() && tid(#[trigger] s2[k]) == x;
            assert(k < s.len());
            assert(tid(s[k]) == x);
            assert(has_id(s, x));
        }
        if has_id(s, x) {
            let k = choose|k: int| 0 <= k < s.len() && tid(#[trigger] s[k]) == x;
            assert(tid(s2[k]) == x);
            assert(has_id(s2, x));
        }
    }
    assert forall|x: Seq<char>|
        has_id(s, x) && x != tid(nt) implies task_of(s2, x) == task_of(s, x) by {
        let k = index_of_id(s, x);
        assert(0 <= k < s.len() && tid(s[k]) == x);
        assert(tid(s2[k]) == x);
        lemma_index_of_id(s2, x, k);
    }
}

/// The record of `id` is the only one that may differ between the two
/// registry states: every other identifier is present in one iff in the
/// other, with the same record.
pub open spec fn others_preserved(s0: Seq<ProcessTask>, s1: Seq<ProcessTask>, id: Seq<char>) -> bool {
    &&& forall|x: Seq<char>| x != id ==> (has_id(s1, x) <==> has_id(s0, x))
    &&& forall|x: Seq<char>| has_id(s0, x) && x != id ==> task_of(s1, x) == task_of(s0, x)
}

/// The fields a record keeps across an output update: identity, start time
/// and output file.
pub open spec fn same_identity(t0: ProcessTask, t1: ProcessTask) -> bool {
    &&& t1.info.id == t0.info.id
    &&& t1.info.command == t0.info.command
    &&& t1.info.started_at == t0.info.started_at
    &&& t1.info.output_file == t0.info.output_file
}

/// The supervisor bookkeeping bits of a record.
pub open spec fn same_bookkeeping(t0: ProcessTask, t1: ProcessTask) -> bool {
    &&& t1.handler_reported_truncation == t0.handler_reported_truncation
    &&& t1.handle_registered == t0.handle_registered
    &&& t1.completion_fired == t0.completion_fired
    &&& t1.finalized == t0.finalized
    &&& t1.terminal_at == t0.terminal_at
}

/// Whether a record may still receive summary material: it is running and
/// its final summary was not yet applied. `final_process_summary` is the one
/// operation that sets `finalized`, so the final summary of an execution is
/// applied at most once, and no delta summary may follow it.
pub open spec fn accepts_summaries(t: ProcessTask) -> bool {
    t.info.state is Running && !t.finalized
}

/// The law behind the summary protocol: once a record's final summary was
/// applied, the record accepts no further summary material — neither
/// `update_process_output` nor a second `final_process_summary` admits it.
pub proof fn lemma_final_summary_is_last(t: ProcessTask)
    requires
        t.finalized,
    ensures
        !accepts_summaries(t),
{
}

/// The trailing `n` characters of `s`, or all of `s` when it is shorter.
pub open spec fn spec_last_n(s: Seq<char>, n: int) -> Seq<char> {
    if s.len() <= n {
        s
    } else {
        s.subrange(s.len() - n, s.len() as int)
    }
}

/// The trailing `n` characters of a string, or the whole string when it has
/// no more than `n` characters.
pub fn last_n_chars<'a>(s: &'a str, n: usize) -> (r: &'a str)
    ensures
        r@ == spec_last_n(s@, n as int),
{
    let len = s.unicode_len();
    if len <= n {
        s
    } else {
        s.substring_char(len - n, len)
    }
}

/// Whether a record is stale at `now_millis`: it reached a terminal state
/// more than [`RECORD_MAX_AGE_MILLIS`] milliseconds ago.
pub open spec fn spec_expired(t: ProcessTask, now_millis: u64) -> bool {
    t.terminal_at matches Some(ts) && ts <= now_millis && now_millis - ts
        > RECORD_MAX_AGE_MILLIS
}

fn task_expired(t: &ProcessTask, now_millis: u64) -> (r: bool)
    ensures
        r == spec_expired(*t, now_millis),
{
    match t.terminal_at {
        Some(ts) => ts <= now_millis && now_millis - ts > RECORD_MAX_AGE_MILLIS,
        None => false,
    }
}

/// The drain law: a join resets the pending summary to empty (see
/// [`ProcessManager::join_process`]), so the text a later join observes is
/// drawn from the deltas appended in between alone — every character it hands
/// back stands in `appended`, at the end, and nothing drained earlier is
/// handed back again.
pub proof fn lemma_join_drains(appended: Seq<char>, n: int)
    requires
        0 <= n,
    ensures
        spec_last_n(Seq::<char>::empty() + appended, n) == spec_last_n(appended, n),
        spec_last_n(appended, n).len() <= appended.len(),
        forall|i: int|
            0 <= i < spec_last_n(appended, n).len() ==> spec_last_n(appended, n)[i] == appended[
                appended.len() - spec_last_n(appended, n).len() + i
            ],
{
    assert(Seq::<char>::empty() + appended =~= appended);
}

/// The cancellation law: a successful cancellation moves the record out of
/// `Running`, and only a running record is cancellable, so a second
/// `cancel_process` on the same identifier returns `false` (see the ensures
/// of [`ProcessManager::cancel_process`]).
pub proof fn lemma_cancel_at_most_once(s0: Seq<ProcessTask>, s1: Seq<ProcessTask>, id: Seq<char>)
    requires
        ProcessManager::spec_cancellable(s0, id),
        has_id(s1, id),
        task_of(s1, id).info.state is Cancelled,
    ensures
        !ProcessManager::spec_cancellable(s1, id),
{
}

/// The registry of process records.
pub struct ProcessManager {
    tasks: Vec<ProcessTask>,
}

impl View for ProcessManager {
    type V = Seq<ProcessTask>;

    closed spec fn view(&self) -> Seq<ProcessTask> {
        self.tasks@
    }
}

impl ProcessManager {
    /// The registry's invariant: identifiers are unique.
    pub open spec fn well_formed(self) -> bool {
        distinct_ids(self@)
    }

    /// A fresh, empty registry.
    pub fn new() -> (r: Self)
        ensures
            r@ == Seq::<ProcessTask>::empty(),
            r.well_formed(),
    {
        ProcessManager { tasks: Vec::new() }
    }

    /// The position of the record with the given identifier.
    fn position_of(&self, process_id: &ProcessId) -> (r: Option<usize>)
        ensures
            match r {
                Some(i) => i < self@.len() && tid(self@[i as int]) == process_id.0@,
                None => !has_id(self@, process_id.0@),
            },
    {
        let n = self.tasks.len();
        for i in 0..n
            invariant
                n == self.tasks.len(),
                forall|k: int| 0 <= k < i ==> tid(#[trigger] self.tasks@[k]) != process_id.0@,
        {
            if self.tasks[i].info.id.0 == process_id.0 {
                return Some(i);
            }
        }
        assert(!has_id(self@, process_id.0@));
        None
    }

    /// Registers a new record in `Running` state with empty accumulators and
    /// returns its freshly minted identifier. If the minted identifier were
    /// already present, the old record would be replaced, as a map insert
    /// replaces; every other record is untouched.
    pub fn start_process(
        &mut self,
        command: String,
        output_file: String,
        now_millis: u64,
    ) -> (r: ProcessId)
        requires
            old(self).well_formed(),
        ensures
            final(self).well_formed(),
            r.0@.len() == 36,
            has_id(final(self)@, r.0@),
            ({
                let t = task_of(final(self)@, r.0@);
                &&& t.info.id.0@ == r.0@
                &&& t.info.command == command
                &&& t.info.state == ProcessState::Running
                &&& t.info.started_at == now_millis
                &&& t.info.raw_stdout@ == Seq::<char>::empty()
                &&& t.info.raw_stderr@ == Seq::<char>::empty()
                &&& t.info.output_file == Some(output_file)
                &&& t.delta_summary@ == Seq::<char>::empty()
                &&& !t.handler_reported_truncation
                &&& !t.handle_registered
                &&& !t.completion_fired
                &&& !t.finalized
                &&& t.terminal_at is None
            }),
            forall|x: Seq<char>| x != r.0@ ==> (has_id(final(self)@, x) <==> has_id(old(self)@, x)),
            forall|x: Seq<char>|
                has_id(old(self)@, x) && x != r.0@ ==> task_of(final(self)@, x) == task_of(
                    old(self)@,
                    x,
                ),
    {
        let process_id = ProcessId::new();
        let nt = ProcessTask {
            info: ProcessInfo {
                id: ProcessId(process_id.0.clone()),
                command,
                state: ProcessState::Running,
                started_at: now_millis,
                raw_stdout: String::new(),
                raw_stderr: String::new(),
                output_file: Some(output_file),
            },
            delta_summary: String::new(),
            handler_reported_truncation: false,
            handle_registered: false,
            completion_fired: false,
            finalized: false,
            terminal_at: None,
        };
        match self.position_of(&process_id) {
            Some(i) => {
                let _ = self.tasks.remove(i);
                self.tasks.insert(i, nt);
                proof {
                    assert(self.tasks@ =~= old(self).tasks@.update(i as int, nt));
                    lemma_update_preserves(old(self)@, i as int, nt);
                }
            },
            None => {
                self.tasks.push(nt);
                proof {
                    lemma_push_preserves(old(self)@, nt);
                }
            },
        }
        process_id
    }

    /// The position of a record known to exist.
    fn position_known(&self, process_id: &ProcessId) -> (i: usize)
        requires
            has_id(self@, process_id.0@),
        ensures
            i < self@.len(),
            tid(self@[i as int]) == process_id.0@,
    {
        match self.position_of(process_id) {
            Some(i) => i,
            None => unreached(),
        }
    }

    /// Marks that an executor task handle was stored for the record, making
    /// it cancellable. Unknown identifiers are ignored.
    pub fn register_handle(&mut self, process_id: &ProcessId)
        requires
            old(self).well_formed(),
        ensures
            final(self).well_formed(),
            !has_id(old(self)@, process_id.0@) ==> final(self)@ == old(self)@,
            has_id(old(self)@, process_id.0@) ==> {
                let t0 = task_of(old(self)@, process_id.0@);
                let t1 = task_of(final(self)@, process_id.0@);
                &&& has_id(final(self)@, process_id.0@)
                &&& t1 == (ProcessTask { handle_registered: true, ..t0 })
                &&& others_preserved(old(self)@, final(self)@, process_id.0@)
            },
    {
        if let Some(i) = self.position_of(process_id) {
            let mut t = self.tasks.remove(i);
            t.handle_registered = true;
            self.tasks.insert(i, t);
            proof {
                let nt = self.tasks@[i as int];
                assert(self.tasks@ =~= old(self)@.update(i as int, nt));
                lemma_index_of_id(old(self)@, process_id.0@, i as int);
                lemma_update_preserves(old(self)@, i as int, nt);
            }
        }
    }

    /// Appends a delta of the two output streams to the record's
    /// accumulators, and the delta's summary text (as the attached handler
    /// returned it, or the raw delta when no handler is attached) to the
    /// pending summary. Accumulators only grow.
    pub fn update_process_output(
        &mut self,
        process_id: &ProcessId,
        stdout: &str,
        stderr: &str,
        summary: &SummaryResult,
    )
        requires
            old(self).well_formed(),
            has_id(old(self)@, process_id.0@),
            accepts_summaries(task_of(old(self)@, process_id.0@)),
        ensures
            final(self).well_formed(),
            has_id(final(self)@, process_id.0@),
            ({
                let t0 = task_of(old(self)@, process_id.0@);
                let t1 = task_of(final(self)@, process_id.0@);
                &&& t1.info.raw_stdout@ == t0.info.raw_stdout@ + stdout@
                &&& t1.info.raw_stderr@ == t0.info.raw_stderr@ + stderr@
                &&& t1.delta_summary@ == t0.delta_summary@ + (match summary.summary {
                    Some(s) => s@,
                    None => Seq::<char>::empty(),
                })
                &&& t1.info.state == t0.info.state
                &&& same_identity(t0, t1)
                &&& same_bookkeeping(t0, t1)
            }),
            others_preserved(old(self)@, final(self)@, process_id.0@),
    {
        let i = self.position_known(process_id);
        let mut t = self.tasks.remove(i);
        t.info.raw_stdout.append(stdout);
        t.info.raw_stderr.append(stderr);
        match &summary.summary {
            Some(s) => t.delta_summary.append(s.as_str()),
            None => (),
        }
        self.tasks.insert(i, t);
        proof {
            let nt = self.tasks@[i as int];
            assert(self.tasks@ =~= old(self)@.update(i as int, nt));
            lemma_index_of_id(old(self)@, process_id.0@, i as int);
            lemma_update_preserves(old(self)@, i as int, nt);
            if summary.summary is None {
                assert(nt.delta_summary@ =~= task_of(old(self)@, process_id.0@).delta_summary@
                    + Seq::<char>::empty());
            }
        }
    }

    /// Applies the handler's final summary: when the handler emitted one, it
    /// replaces the pending summary outright; the record is marked finalized,
    /// so no further summary may be applied.
    pub fn final_process_summary(&mut self, process_id: &ProcessId, summary: &SummaryResult)
        requires
            old(self).well_formed(),
            has_id(old(self)@, process_id.0@),
            accepts_summaries(task_of(old(self)@, process_id.0@)),
        ensures
            final(self).well_formed(),
            has_id(final(self)@, process_id.0@),
            ({
                let t0 = task_of(old(self)@, process_id.0@);
                let t1 = task_of(final(self)@, process_id.0@);
                &&& t1.delta_summary@ == (match summary.summary {
                    Some(s) => s@,
                    None => t0.delta_summary@,
                })
                &&& t1.finalized
                &&& t1.handler_reported_truncation == (summary.truncation matches Some(tr)
                    && tr.truncated)
                &&& t1.info == t0.info
                &&& t1.handle_registered == t0.handle_registered
                &&& t1.completion_fired == t0.completion_fired
                &&& t1.terminal_at == t0.terminal_at
            }),
            others_preserved(old(self)@, final(self)@, process_id.0@),
    {
        let i = self.position_known(process_id);
        let mut t = self.tasks.remove(i);
        match &summary.summary {
            Some(s) => {
                t.delta_summary = s.clone();
            },
            None => (),
        }
        t.finalized = true;
        t.handler_reported_truncation = match &summary.truncation {
            Some(tr) => tr.truncated,
            None => false,
        };
        self.tasks.insert(i, t);
        proof {
            let nt = self.tasks@[i as int];
            assert(self.tasks@ =~= old(self)@.update(i as int, nt));
            lemma_index_of_id(old(self)@, process_id.0@, i as int);
            lemma_update_preserves(old(self)@, i as int, nt);
        }
    }

    /// The terminal transition for a child that exited: records the exit
    /// code, fires the completion signal, and hands back the output file path
    /// together with the exact text to write there (the header plus both
    /// accumulators). Acts only on a record that is still `Running`; a record
    /// never leaves a terminal state.
    pub fn complete_process(
        &mut self,
        process_id: &ProcessId,
        exit_code: i32,
        now_millis: u64,
    ) -> (r: Option<(String, String)>)
        requires
            old(self).well_formed(),
        ensures
            final(self).well_formed(),
            !(has_id(old(self)@, process_id.0@) && task_of(old(self)@, process_id.0@).info.state
                is Running) ==> (final(self)@ == old(self)@ && r is None),
            (has_id(old(self)@, process_id.0@) && task_of(old(self)@, process_id.0@).info.state
                is Running) ==> ({
                let t0 = task_of(old(self)@, process_id.0@);
                let t1 = task_of(final(self)@, process_id.0@);
                &&& has_id(final(self)@, process_id.0@)
                &&& t1.info.state == (ProcessState::Completed { exit_code })
                &&& t1.completion_fired
                &&& t1.terminal_at == Some(now_millis)
                &&& t1.info.raw_stdout == t0.info.raw_stdout
                &&& t1.info.raw_stderr == t0.info.raw_stderr
                &&& t1.delta_summary == t0.delta_summary
                &&& t1.finalized == t0.finalized
                &&& t1.handler_reported_truncation == t0.handler_reported_truncation
                &&& t1.handle_registered == t0.handle_registered
                &&& same_identity(t0, t1)
                &&& others_preserved(old(self)@, final(self)@, process_id.0@)
                &&& (match r {
                    Some(w) => t0.info.output_file == Some(w.0) && w.1@ == spec_output_content(
                        t0.info.raw_stdout@,
                        t0.info.raw_stderr@,
                        exit_code as int,
                    ),
                    None => t0.info.output_file is None,
                })
            }),
    {
        let i = match self.position_of(process_id) {
            Some(i) => i,
            None => {
                return None;
            },
        };
        if !matches!(self.tasks[i].info.state, ProcessState::Running) {
            return None;
        }
        let mut t = self.tasks.remove(i);
        t.info.state = ProcessState::Completed { exit_code };
        t.completion_fired = true;
        t.terminal_at = Some(now_millis);
        let content = format_output(t.info.raw_stdout.as_str(), t.info.raw_stderr.as_str(), exit_code);
        let w = match &t.info.output_file {
            Some(f) => Some((f.clone(), content)),
            None => None,
        };
        self.tasks.insert(i, t);
        proof {
            let nt = self.tasks@[i as int];
            assert(self.tasks@ =~= old(self)@.update(i as int, nt));
            lemma_index_of_id(old(self)@, process_id.0@, i as int);
            lemma_update_preserves(old(self)@, i as int, nt);
        }
        w
    }

    /// The terminal transition for an execution that could not run or whose
    /// I/O failed: records the error and fires the completion signal. Output
    /// captured so far is still handed back for the output file, with an
    /// exit-code header of `-1`. Acts only on a record that is still
    /// `Running`.
    pub fn fail_process(
        &mut self,
        process_id: &ProcessId,
        error: String,
        now_millis: u64,
    ) -> (r: Option<(String, String)>)
        requires
            old(self).well_formed(),
        ensures
            final(self).well_formed(),
            !(has_id(old(self)@, process_id.0@) && task_of(old(self)@, process_id.0@).info.state
                is Running) ==> (final(self)@ == old(self)@ && r is None),
            (has_id(old(self)@, process_id.0@) && task_of(old(self)@, process_id.0@).info.state
                is Running) ==> ({
                let t0 = task_of(old(self)@, process_id.0@);
                let t1 = task_of(final(self)@, process_id.0@);
                &&& has_id(final(self)@, process_id.0@)
                &&& t1.info.state == (ProcessState::Failed { error })
                &&& t1.completion_fired
                &&& t1.terminal_at == Some(now_millis)
                &&& t1.info.raw_stdout == t0.info.raw_stdout
                &&& t1.info.raw_stderr == t0.info.raw_stderr
                &&& t1.delta_summary == t0.delta_summary
                &&& t1.finalized == t0.finalized
                &&& t1.handler_reported_truncation == t0.handler_reported_truncation
                &&& t1.handle_registered == t0.handle_registered
                &&& same_identity(t0, t1)
                &&& others_preserved(old(self)@, final(self)@, process_id.0@)
                &&& (match r {
                    Some(w) => t0.info.output_file == Some(w.0) && w.1@ == spec_output_content(
                        t0.info.raw_stdout@,
                        t0.info.raw_stderr@,
                        -1,
                    ),
                    None => t0.info.output_file is None,
                })
            }),
    {
        let i = match self.position_of(process_id) {
            Some(i) => i,
            None => {
                return None;
            },
        };
        if !matches!(self.tasks[i].info.state, ProcessState::Running) {
            return None;
        }
        let mut t = self.tasks.remove(i);
        t.info.state = ProcessState::Failed { error };
        t.completion_fired = true;
        t.terminal_at = Some(now_millis);
        let content = format_output(t.info.raw_stdout.as_str(), t.info.raw_stderr.as_str(), -1);
        let w = match &t.info.output_file {
            Some(f) => Some((f.clone(), content)),
            None => None,
        };
        self.tasks.insert(i, t);
        proof {
            let nt = self.tasks@[i as int];
            assert(self.tasks@ =~= old(self)@.update(i as int, nt));
            lemma_index_of_id(old(self)@, process_id.0@, i as int);
            lemma_update_preserves(old(self)@, i as int, nt);
        }
        w
    }

    /// Whether a cancellation of the record would succeed: it exists, an
    /// executor handle was registered, and it is still running.
    pub open spec fn spec_cancellable(s: Seq<ProcessTask>, id: Seq<char>) -> bool {
        &&& has_id(s, id)
        &&& task_of(s, id).handle_registered
        &&& task_of(s, id).info.state is Running
    }

    /// Cancels a running record: returns `true` and moves it to `Cancelled`
    /// exactly when the record exists, is still running, and an executor
    /// handle was registered; otherwise the registry is untouched and the
    /// call returns `false`. A second cancellation therefore returns `false`.
    pub fn cancel_process(&mut self, process_id: &ProcessId, now_millis: u64) -> (r: bool)
        requires
            old(self).well_formed(),
        ensures
            final(self).well_formed(),
            r == Self::spec_cancellable(old(self)@, process_id.0@),
            !r ==> final(self)@ == old(self)@,
            r ==> ({
                let t0 = task_of(old(self)@, process_id.0@);
                let t1 = task_of(final(self)@, process_id.0@);
                &&& has_id(final(self)@, process_id.0@)
                &&& t1 == (ProcessTask {
                    info: ProcessInfo { state: ProcessState::Cancelled, ..t0.info },
                    completion_fired: true,
                    terminal_at: Some(now_millis),
                    ..t0
                })
                &&& others_preserved(old(self)@, final(self)@, process_id.0@)
            }),
    {
        let i = match self.position_of(process_id) {
            Some(i) => i,
            None => {
                return false;
            },
        };
        if !self.tasks[i].handle_registered {
            return false;
        }
        if !matches!(self.tasks[i].info.state, ProcessState::Running) {
            return false;
        }
        let mut t = self.tasks.remove(i);
        t.info.state = ProcessState::Cancelled;
        t.completion_fired = true;
        t.terminal_at = Some(now_millis);
        self.tasks.insert(i, t);
        proof {
            let nt = self.tasks@[i as int];
            assert(self.tasks@ =~= old(self)@.update(i as int, nt));
            lemma_index_of_id(old(self)@, process_id.0@, i as int);
            lemma_update_preserves(old(self)@, i as int, nt);
        }
        true
    }

    /// A read-only status snapshot of the record: its identity, state and the
    /// lengths (in characters) of the two accumulators — never their bodies.
    pub fn get_process_status(&self, process_id: &ProcessId) -> (r: Option<ProcessStatus>)
        requires
            self.well_formed(),
        ensures
            r is Some <==> has_id(self@, process_id.0@),
            r matches Some(st) ==> ({
                let t = task_of(self@, process_id.0@);
                &&& st.id == t.info.id
                &&& st.command == t.info.command
                &&& st.state == t.info.state
                &&& st.started_at == t.info.started_at
                &&& st.stdout_length == t.info.raw_stdout@.len()
                &&& st.stderr_length == t.info.raw_stderr@.len()
                &&& st.output_file == t.info.output_file
            }),
    {
        let i = match self.position_of(process_id) {
            Some(i) => i,
            None => {
                return None;
            },
        };
        proof {
            lemma_index_of_id(self@, process_id.0@, i as int);
        }
        let t = &self.tasks[i];
        Some(
            ProcessStatus {
                id: ProcessId(t.info.id.0.clone()),
                command: t.info.command.clone(),
                state: copy_state(&t.info.state),
                started_at: t.info.started_at,
                stdout_length: t.info.raw_stdout.as_str().unicode_len(),
                stderr_length: t.info.raw_stderr.as_str().unicode_len(),
                output_file: match &t.info.output_file {
                    Some(f) => Some(f.clone()),
                    None => None,
                },
            },
        )
    }

    /// Copies of the record's two raw accumulators, for the final
    /// `summarize` call on the full output.
    pub fn raw_output(&self, process_id: &ProcessId) -> (r: Option<(String, String)>)
        requires
            self.well_formed(),
        ensures
            r is Some <==> has_id(self@, process_id.0@),
            r matches Some(o) ==> ({
                let t = task_of(self@, process_id.0@);
                &&& o.0@ == t.info.raw_stdout@
                &&& o.1@ == t.info.raw_stderr@
            }),
    {
        let i = match self.position_of(process_id) {
            Some(i) => i,
            None => {
                return None;
            },
        };
        proof {
            lemma_index_of_id(self@, process_id.0@, i as int);
        }
        let t = &self.tasks[i];
        Some((t.info.raw_stdout.clone(), t.info.raw_stderr.clone()))
    }

    /// Whether the record's final summary was already applied.
    pub fn summary_finalized(&self, process_id: &ProcessId) -> (r: bool)
        requires
            self.well_formed(),
        ensures
            r == (has_id(self@, process_id.0@) && task_of(self@, process_id.0@).finalized),
    {
        match self.position_of(process_id) {
            Some(i) => {
                proof {
                    lemma_index_of_id(self@, process_id.0@, i as int);
                }
                self.tasks[i].finalized
            },
            None => false,
        }
    }

    /// Whether the record's handler reported truncation in its final summary.
    pub fn reported_truncation(&self, process_id: &ProcessId) -> (r: bool)
        requires
            self.well_formed(),
        ensures
            r == (has_id(self@, process_id.0@) && task_of(
                self@,
                process_id.0@,
            ).handler_reported_truncation),
    {
        match self.position_of(process_id) {
            Some(i) => {
                proof {
                    lemma_index_of_id(self@, process_id.0@, i as int);
                }
                self.tasks[i].handler_reported_truncation
            },
            None => false,
        }
    }

    /// Drains the record's pending summary: hands back its trailing
    /// [`JOIN_SUMMARY_CHARS`] characters together with the current state, and
    /// resets the pending summary to empty, so the next join sees only newer
    /// material. Returns `None` exactly when the identifier is unknown.
    pub fn join_process(&mut self, process_id: &ProcessId) -> (r: Option<ProcessUpdate>)
        requires
            old(self).well_formed(),
        ensures
            final(self).well_formed(),
            r is Some <==> has_id(old(self)@, process_id.0@),
            r is None ==> final(self)@ == old(self)@,
            r matches Some(u) ==> ({
                let t0 = task_of(old(self)@, process_id.0@);
                let t1 = task_of(final(self)@, process_id.0@);
                &&& u.incremental_summary@ == spec_last_n(
                    t0.delta_summary@,
                    JOIN_SUMMARY_CHARS as int,
                )
                &&& u.status == t0.info.state
                &&& has_id(final(self)@, process_id.0@)
                &&& t1.delta_summary@ == Seq::<char>::empty()
                &&& t1.info == t0.info
                &&& t1.handler_reported_truncation == t0.handler_reported_truncation
                &&& t1.handle_registered == t0.handle_registered
                &&& t1.completion_fired == t0.completion_fired
                &&& t1.finalized == t0.finalized
                &&& t1.terminal_at == t0.terminal_at
                &&& others_preserved(old(self)@, final(self)@, process_id.0@)
            }),
    {
        let i = match self.position_of(process_id) {
            Some(i) => i,
            None => {
                return None;
            },
        };
        let mut t = self.tasks.remove(i);
        let drained = t.delta_summary;
        t.delta_summary = String::new();
        let update = ProcessUpdate {
            incremental_summary: last_n_chars(drained.as_str(), JOIN_SUMMARY_CHARS).to_owned(),
            status: copy_state(&t.info.state),
        };
        self.tasks.insert(i, t);
        proof {
            let nt = self.tasks@[i as int];
            assert(self.tasks@ =~= old(self)@.update(i as int, nt));
            lemma_index_of_id(old(self)@, process_id.0@, i as int);
            lemma_update_preserves(old(self)@, i as int, nt);
        }
        Some(update)
    }

    /// The periodic cleanup scan: evicts every record whose terminal
    /// transition lies more than [`RECORD_MAX_AGE_MILLIS`] milliseconds in
    /// the past, and keeps everything else. A record still running is never
    /// evicted.
    pub fn cleanup(&mut self, now_millis: u64)
        requires
            old(self).well_formed(),
        ensures
            final(self).well_formed(),
            final(self)@ == old(self)@.filter(|t: ProcessTask| !spec_expired(t, now_millis)),
    {
        let ghost pred = |t: ProcessTask| !spec_expired(t, now_millis);
        let ghost orig = self.tasks@;
        let n0 = self.tasks.len();
        let mut kept: Vec<ProcessTask> = Vec::new();
        let mut processed: usize = 0;
        while self.tasks.len() > 0
            invariant
                orig.len() == n0,
                processed + self.tasks@.len() == orig.len(),
                self.tasks@ == orig.subrange(processed as int, orig.len() as int),
                kept@ == orig.take(processed as int).filter(pred),
                pred == (|t: ProcessTask| !spec_expired(t, now_millis)),
                distinct_ids(orig),
                distinct_ids(kept@),
                forall|x: Seq<char>| has_id(kept@, x) ==> has_id(orig.take(processed as int), x),
            decreases self.tasks@.len(),
        {
            let t = self.tasks.remove(0);
            proof {
                assert(t == orig[processed as int]);
                assert(self.tasks@ =~= orig.subrange(processed + 1, orig.len() as int));
            }
            let ghost prev_kept = kept@;
            let keep = !task_expired(&t, now_millis);
            if keep {
                proof {
                    if has_id(kept@, tid(t)) {
                        let k = choose|k: int|
                            0 <= k < orig.take(processed as int).len() && tid(
                                #[trigger] orig.take(processed as int)[k],
                            ) == tid(t);
                        assert(tid(orig[k]) == tid(orig[processed as int]));
                        assert(false);
                    }
                    lemma_push_preserves(kept@, t);
                }
                kept.push(t);
            }
            proof {
                reveal(Seq::filter);
                let upto = orig.take(processed + 1);
                assert(upto.drop_last() =~= orig.take(processed as int));
                assert(upto.last() == orig[processed as int]);
                assert(kept@ == upto.filter(pred));
                assert forall|x: Seq<char>| has_id(kept@, x) implies has_id(upto, x) by {
                    let k0 = choose|k: int|
                        0 <= k < kept@.len() && tid(#[trigger] kept@[k]) == x;
                    if keep && k0 == prev_kept.len() {
                        assert(tid(upto[processed as int]) == x);
                    } else {
                        assert(tid(prev_kept[k0]) == x);
                        assert(has_id(prev_kept, x));
                        let k = choose|k: int|
                            0 <= k < orig.take(processed as int).len() && tid(
                                #[trigger] orig.take(processed as int)[k],
                            ) == x;
                        assert(tid(upto[k]) == x);
                    }
                }
            }
            processed += 1;
        }
        proof {
            assert(orig.take(processed as int) =~= orig);
        }
        self.tasks = kept;
    }
}

} // verus!
