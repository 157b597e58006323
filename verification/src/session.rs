//! Debug sessions: what a session remembers of its debuggee, how each of its buffers stays bounded, and
//! the registry of the sessions there are.

use crate::jdwp::MonitorKind;
use crate::key_map::{Key, KeyMap};
use crate::stop_point;
use crate::stop_point::StopPoint;
use crate::text;
use crate::text_map::TextMap;
use crate::time::{Moment, Span};
use crate::uuid;
use std::collections::{BTreeMap, VecDeque};
use vstd::prelude::*;

verus! {

/// The name of a session.
pub type SessionId = String;

/// How many trace records a session keeps.
pub const MAX_TRACES: usize = 500;

/// How many different notes of disarmed traces a session keeps.
pub const MAX_TRACE_DISARMS: usize = 32;

/// How many opened monitor pairs a session keeps.
pub const MAX_MONITOR_PENDING: usize = 256;

/// How many events a session keeps.
pub const MAX_EVENTS: usize = 100;

/// How many requests of disarmed traces a session remembers.
pub const MAX_DISARMED_TRACED: usize = 32;

/// How many exceptions in flight a session follows.
pub const MAX_RETHROW_CHAINS: usize = 64;

/// How many lines of a launched JVM's output are kept.
pub const MAX_DEBUGGEE_OUTPUT: usize = 200;

/// How many classes that were armed late a family names.
pub const MAX_ARMED_LATER_SAMPLE: usize = 25;

/// `std::path::PathBuf`, carried and never read here.
#[verifier::external_type_specification]
#[verifier::external_body]
pub struct ExPathBuf(std::path::PathBuf);

// ---------------------------------------------------------------------------------------------
// Stop points of a session
// ---------------------------------------------------------------------------------------------
/// A breakpoint on a class that is not loaded yet.
#[derive(Debug, Clone)]
pub struct PendingBreakpoint {
    pub bp_id: String,
    /// The request that will report the class when it loads.
    pub class_prepare_request_id: i32,
    pub class_pattern: String,
    pub signature: String,
    pub line: Option<i32>,
    pub method: Option<String>,
    pub hit_count: Option<i32>,
    pub instance_filter: Option<u64>,
    pub thread_filter: Option<u64>,
    pub condition: Option<String>,
    pub trace: bool,
    pub trace_expr: Vec<String>,
    pub trace_budget: Option<u32>,
    pub trace_frames: usize,
    pub trace_max_length: Option<usize>,
}

/// What a session has armed.
#[derive(Debug)]
pub struct SessionState {
    /// The stop points, each under its own id.
    pub stop_points: TextMap<StopPoint>,
    pub pending_breakpoints: Vec<PendingBreakpoint>,
    /// Requests of traced stop points that were disarmed, oldest first. A hit of one may still be on
    /// its way.
    pub disarmed_traced_requests: VecDeque<i32>,
    /// The number of the newest stop point.
    pub stop_seq: u64,
}

/// `stop_points` has a stop point that holds `req`, or that watches for later copies of its class with
/// it.
pub open spec fn armed_with(stop_points: Map<Seq<char>, StopPoint>, id: Seq<char>, req: i32) -> bool {
    stop_points.dom().contains(id) && (stop_points[id].request_ids@.contains(req) || (
    stop_points[id].armed_on matches stop_point::ArmedOn::Line(l)
        && l.rearm matches stop_point::RearmState::Watching(w) && w.request_id == req))
}

/// The queue with `x` remembered: at most `cap` of them, the oldest forgotten first, none twice.
pub open spec fn remembered(queue: Seq<i32>, x: i32, cap: int) -> Seq<i32> {
    if queue.contains(x) || cap == 0 {
        queue
    } else if queue.len() >= cap {
        queue.drop_first().push(x)
    } else {
        queue.push(x)
    }
}

/// Remembers `req_id` in `queue`, which keeps at most `cap`.
pub fn remember_bounded(queue: &mut VecDeque<i32>, req_id: i32, cap: usize)
    ensures
        final(queue)@ == remembered(old(queue)@, req_id, cap as int),
{
    let mut i: usize = 0;
    while i < queue.len()
        invariant
            queue@ == old(queue)@,
            i <= queue@.len(),
            forall|k: int| 0 <= k < i ==> queue@[k] != req_id,
        decreases queue@.len() - i,
    {
        if queue[i] == req_id {
            return;
        }
        i += 1;
    }
    if cap == 0 {
        return;
    }
    if queue.len() >= cap {
        let _ = queue.pop_front();
    }
    queue.push_back(req_id);
}

impl SessionState {
    /// Every stop point stands under its own id, and the remembered requests are few and different.
    pub open spec fn wf(self) -> bool {
        &&& self.stop_points.wf()
        &&& forall|id: Seq<char>| #[trigger]
            self.stop_points@.dom().contains(id) ==> self.stop_points@[id].id@ == id
        &&& self.disarmed_traced_requests@.len() <= MAX_DISARMED_TRACED
        &&& self.disarmed_traced_requests@.no_duplicates()
    }

    /// A request that something in the session still listens to.
    pub open spec fn is_live(self, req: i32) -> bool {
        ||| exists|id: Seq<char>| #[trigger] armed_with(self.stop_points@, id, req)
        ||| exists|i: int|
            0 <= i < self.pending_breakpoints@.len() && (
            #[trigger] self.pending_breakpoints@[i]).class_prepare_request_id == req
    }

    pub fn new() -> (r: Self)
        ensures
            r.wf(),
            r.stop_points@ == Map::<Seq<char>, StopPoint>::empty(),
            r.pending_breakpoints@ == Seq::<PendingBreakpoint>::empty(),
            r.disarmed_traced_requests@ == Seq::<i32>::empty(),
            r.stop_seq == 0,
    {
        SessionState {
            stop_points: TextMap::new(),
            pending_breakpoints: Vec::new(),
            disarmed_traced_requests: VecDeque::new(),
            stop_seq: 0,
        }
    }

    /// Puts a stop point under its id.
    pub fn register_stop_point(&mut self, sp: StopPoint)
        requires
            old(self).wf(),
        ensures
            final(self).wf(),
            final(self).stop_points@ == old(self).stop_points@.insert(sp.id@, sp),
            *final(self) == (SessionState { stop_points: final(self).stop_points, ..*old(self) }),
    {
        self.stop_points.insert(sp.id.clone(), sp);
    }

    /// Puts the stop point that a pending breakpoint has become in its place: the deferral goes and the
    /// stop point is there, in one step. Says whether there was a deferral.
    pub fn resolve_pending(&mut self, armed: StopPoint) -> (r: bool)
        requires
            old(self).wf(),
        ensures
            final(self).wf(),
            final(self).stop_points@ == old(self).stop_points@.insert(armed.id@, armed),
            final(self).pending_breakpoints@ == still_pending(
                old(self).pending_breakpoints@,
                armed.id@,
            ),
            r == pending_has(old(self).pending_breakpoints@, armed.id@),
            final(self).disarmed_traced_requests == old(self).disarmed_traced_requests,
            final(self).stop_seq == old(self).stop_seq,
    {
        let ghost id = armed.id@;
        let mut left: Vec<PendingBreakpoint> = Vec::new();
        core::mem::swap(&mut left, &mut self.pending_breakpoints);
        let ghost all = left@;
        let before: usize = left.len();
        let mut kept: Vec<PendingBreakpoint> = Vec::new();
        proof {
            assert(all.take(0) =~= Seq::empty());
        }
        for p in it: left.into_iter()
            invariant
                it.seq() == all,
                id == armed.id@,
                kept@ == still_pending(all.take(it.index() as int), id),
        {
            let ghost n = it.index() as int;
            assert(all.take(n + 1).drop_last() =~= all.take(n));
            if !text::same(p.bp_id.as_str(), armed.id.as_str()) {
                kept.push(p);
            }
        }
        assert(all.take(all.len() as int) =~= all);
        let removed: bool = before != kept.len();
        proof {
            still_pending_len(all, id);
        }
        self.pending_breakpoints = kept;
        self.register_stop_point(armed);
        removed
    }

    /// Whether something in the session still listens to `req_id`.
    pub fn owns_live_request(&self, req_id: i32) -> (r: bool)
        requires
            self.wf(),
        ensures
            r == self.is_live(req_id),
    {
        let mut i: usize = 0;
        proof {
            self.stop_points.keys_are_its_domain();
        }
        let ghost keys = self.stop_points.keys();
        while i < self.stop_points.len()
            invariant
                self.wf(),
                keys == self.stop_points.keys(),
                i <= keys.len(),
                forall|k: int|
                    0 <= k < i ==> !armed_with(self.stop_points@, #[trigger] keys[k], req_id),
            decreases keys.len() - i,
        {
            let (id, sp) = self.stop_points.at(i);
            let held: bool = sp.owns_request(req_id);
            let watched: bool = match sp.line() {
                Some(l) => match l.rearm.watch() {
                    Some(w) => w.request_id == req_id,
                    None => false,
                },
                None => false,
            };
            if held || watched {
                assert(armed_with(self.stop_points@, id@, req_id));
                return true;
            }
            i += 1;
        }
        assert forall|id: Seq<char>| !armed_with(self.stop_points@, id, req_id) by {
            if self.stop_points@.dom().contains(id) {
                assert(keys.contains(id));
                let k = choose|k: int| 0 <= k < keys.len() && keys[k] == id;
                assert(!armed_with(self.stop_points@, keys[k], req_id));
            }
        }
        let mut j: usize = 0;
        while j < self.pending_breakpoints.len()
            invariant
                j <= self.pending_breakpoints@.len(),
                forall|k: int|
                    0 <= k < j ==> (
                    #[trigger] self.pending_breakpoints@[k]).class_prepare_request_id != req_id,
            decreases self.pending_breakpoints@.len() - j,
        {
            if self.pending_breakpoints[j].class_prepare_request_id == req_id {
                return true;
            }
            j += 1;
        }
        false
    }

    /// Whether a hit of `req_id` is left over from a traced stop point that was disarmed. A request
    /// that is live again is not.
    pub fn was_traced_and_disarmed(&self, req_id: i32) -> (r: bool)
        requires
            self.wf(),
        ensures
            r == (self.disarmed_traced_requests@.contains(req_id) && !self.is_live(req_id)),
    {
        let mut found: bool = false;
        let mut i: usize = 0;
        while i < self.disarmed_traced_requests.len()
            invariant
                i <= self.disarmed_traced_requests@.len(),
                found == self.disarmed_traced_requests@.take(i as int).contains(req_id),
            decreases self.disarmed_traced_requests@.len() - i,
        {
            let ghost now = self.disarmed_traced_requests@.take(i + 1);
            let ghost before = self.disarmed_traced_requests@.take(i as int);
            assert(now =~= before.push(self.disarmed_traced_requests@[i as int]));
            if self.disarmed_traced_requests[i] == req_id {
                found = true;
                assert(now[i as int] == req_id);
            } else {
                assert(now.contains(req_id) ==> before.contains(req_id)) by {
                    if now.contains(req_id) {
                        let k = choose|k: int| 0 <= k < now.len() && now[k] == req_id;
                        assert(before[k] == req_id);
                    }
                }
                assert(before.contains(req_id) ==> now.contains(req_id)) by {
                    if before.contains(req_id) {
                        let k = choose|k: int| 0 <= k < before.len() && before[k] == req_id;
                        assert(now[k] == req_id);
                    }
                }
            }
            i += 1;
        }
        assert(self.disarmed_traced_requests@.take(i as int) =~= self.disarmed_traced_requests@);
        found && !self.owns_live_request(req_id)
    }

    /// Remembers the request of a traced stop point that was disarmed.
    pub fn note_disarmed_traced(&mut self, req_id: i32)
        requires
            old(self).wf(),
        ensures
            final(self).wf(),
            final(self).disarmed_traced_requests@ == remembered(
                old(self).disarmed_traced_requests@,
                req_id,
                MAX_DISARMED_TRACED as int,
            ),
            *final(self) == (SessionState {
                disarmed_traced_requests: final(self).disarmed_traced_requests,
                ..*old(self)
            }),
    {
        proof {
            remembering_is_bounded(
                self.disarmed_traced_requests@,
                req_id,
                MAX_DISARMED_TRACED as int,
            );
        }
        remember_bounded(&mut self.disarmed_traced_requests, req_id, MAX_DISARMED_TRACED);
    }

    /// A name for the next stop point: the prefix and the next number.
    pub fn next_stop_id(&mut self, prefix: &str) -> (r: String)
        requires
            old(self).stop_seq < u64::MAX,
        ensures
            final(self).stop_seq == old(self).stop_seq + 1,
            r@ == prefix@ + text::dec(final(self).stop_seq as nat),
            *final(self) == (SessionState { stop_seq: final(self).stop_seq, ..*old(self) }),
    {
        self.stop_seq += 1;
        text::owned(prefix).concat(text::decimal(self.stop_seq).as_str())
    }
}

impl Default for SessionState {
    fn default() -> (r: Self)
        ensures
            r.wf(),
            r.stop_points@ == Map::<Seq<char>, StopPoint>::empty(),
            r.pending_breakpoints@ == Seq::<PendingBreakpoint>::empty(),
            r.disarmed_traced_requests@ == Seq::<i32>::empty(),
            r.stop_seq == 0,
    {
        SessionState::new()
    }
}

/// There is a deferral of this id.
pub open spec fn pending_has(pending: Seq<PendingBreakpoint>, id: Seq<char>) -> bool {
    exists|i: int| 0 <= i < pending.len() && (#[trigger] pending[i]).bp_id@ == id
}

/// The deferrals of other ids, in their order.
pub open spec fn still_pending(pending: Seq<PendingBreakpoint>, id: Seq<char>) -> Seq<
    PendingBreakpoint,
>
    decreases pending.len(),
{
    if pending.len() == 0 {
        Seq::empty()
    } else if pending.last().bp_id@ == id {
        still_pending(pending.drop_last(), id)
    } else {
        still_pending(pending.drop_last(), id).push(pending.last())
    }
}

proof fn still_pending_len(pending: Seq<PendingBreakpoint>, id: Seq<char>)
    ensures
        still_pending(pending, id).len() <= pending.len(),
        still_pending(pending, id).len() < pending.len() <==> pending_has(pending, id),
    decreases pending.len(),
{
    if pending.len() > 0 {
        let rest = pending.drop_last();
        still_pending_len(rest, id);
        if pending.last().bp_id@ == id {
            assert(pending[pending.len() - 1].bp_id@ == id);
        }
        if pending_has(rest, id) {
            let i = choose|i: int| 0 <= i < rest.len() && (#[trigger] rest[i]).bp_id@ == id;
            assert(pending[i].bp_id@ == id);
        }
        if pending_has(pending, id) && pending.last().bp_id@ != id {
            let i = choose|i: int| 0 <= i < pending.len() && (#[trigger] pending[i]).bp_id@ == id;
            assert(rest[i].bp_id@ == id);
        }
    }
}

/// Remembering keeps a queue bounded and free of repeats, and it is always the newest that is kept.
pub proof fn remembering_is_bounded(queue: Seq<i32>, x: i32, cap: int)
    requires
        queue.len() <= cap,
        queue.no_duplicates(),
    ensures
        remembered(queue, x, cap).len() <= cap,
        remembered(queue, x, cap).no_duplicates(),
        cap > 0 ==> remembered(queue, x, cap).contains(x),
        forall|y: i32| #[trigger]
            remembered(queue, x, cap).contains(y) ==> y == x || queue.contains(y),
        forall|i: int|
            0 < i < queue.len() ==> remembered(queue, x, cap).contains(#[trigger] queue[i]),
{
    let r = remembered(queue, x, cap);
    if queue.contains(x) || cap == 0 {
    } else if queue.len() >= cap {
        assert(r[r.len() - 1] == x);
        assert forall|i: int| 0 < i < queue.len() implies r.contains(#[trigger] queue[i]) by {
            assert(r[i - 1] == queue[i]);
        }
        assert forall|y: i32| #[trigger] r.contains(y) implies y == x || queue.contains(y) by {
            let k = choose|k: int| 0 <= k < r.len() && r[k] == y;
            if k < r.len() - 1 {
                assert(queue[k + 1] == y);
            }
        }
    } else {
        assert(r[r.len() - 1] == x);
        assert forall|i: int| 0 < i < queue.len() implies r.contains(#[trigger] queue[i]) by {
            assert(r[i] == queue[i]);
        }
        assert forall|y: i32| #[trigger] r.contains(y) implies y == x || queue.contains(y) by {
            let k = choose|k: int| 0 <= k < r.len() && r[k] == y;
            if k < r.len() - 1 {
                assert(queue[k] == y);
            }
        }
    }
}

// ---------------------------------------------------------------------------------------------
// What a session remembers
// ---------------------------------------------------------------------------------------------
/// One event of the debuggee, with its number.
#[derive(Debug, Clone)]
pub struct EventRecord<E> {
    pub seq: u64,
    pub set: E,
    /// What went wrong where a matching condition should have stopped the rest of the VM.
    pub escalation: Option<FailedEscalation>,
}

#[derive(Debug, Clone)]
pub struct FailedEscalation {
    pub vm_running: bool,
    pub note: String,
}

/// Why the VM is stopped.
#[derive(Debug, Clone, Copy, PartialEq, Eq, Structural)]
pub enum SuspendCause {
    /// A hit of this request.
    StopPoint(i32),
    ManualPause,
}

/// A thread that a caller stopped.
#[derive(Debug, Clone)]
pub struct ThreadSuspend {
    pub name: String,
    pub since: Moment,
    /// How often it was stopped, and has to be let go.
    pub issued: u32,
}

/// A class whose code was replaced.
#[derive(Debug, Clone, Copy)]
pub struct Redefinition {
    pub count: u32,
    pub at: Moment,
    /// Whether a frame was popped since, so that the new code runs.
    pub popped_since: bool,
}

/// Whether events of the debuggee are being read.
#[derive(Debug, Clone, Copy, PartialEq, Eq, Structural)]
pub enum EventPump {
    Running,
    Ended,
    Unstarted,
}

/// A task that works for the session, by the number it was started under.
#[derive(Debug, Clone, Copy, PartialEq, Eq, Structural)]
pub struct Task {
    pub number: u64,
    pub finished: bool,
}

#[derive(Debug, Clone)]
pub struct TracedValue {
    pub name: String,
    pub rendered: String,
    pub object_id: Option<u64>,
}

/// One recorded hit of a traced stop point.
#[derive(Debug, Clone)]
pub struct TraceRecord {
    pub seq: u64,
    pub bp_id: String,
    pub thread: u64,
    pub class: String,
    pub method: String,
    pub line: Option<i32>,
    pub args: Vec<TracedValue>,
    pub captured: Vec<TracedValue>,
    pub callers: Vec<String>,
    pub expr: Vec<(String, String)>,
    pub detail: Vec<(String, String)>,
    pub rethrow: Option<RethrowFold>,
}

/// The sightings of one exception between its first and this one.
#[derive(Debug, Clone, Copy, PartialEq, Eq, Structural)]
pub struct RethrowFold {
    /// How many were left out.
    pub collapsed: u32,
    /// The record of the first.
    pub first_seq: u64,
}

/// What a sighting of an exception is.
#[derive(Debug, Clone, Copy, PartialEq, Eq, Structural)]
pub enum ThrowKind {
    First,
    /// Another sighting of the same throw, which takes the place of the record `supersedes`.
    Rethrow { fold: RethrowFold, supersedes: Option<u64> },
}

/// What is known of an exception in flight.
#[derive(Debug, Clone, Copy, PartialEq, Eq, Structural)]
pub struct RethrowChain {
    pub first_seq: u64,
    /// The record of the newest sighting after the first.
    pub rolling_seq: Option<u64>,
    /// How many sightings there were after the first.
    pub collapsed: u32,
}

/// An exception in flight: the request that reports it, the thread it travels in, the object.
#[derive(Debug, Clone, Copy, PartialEq, Eq, Structural)]
pub struct RethrowKey {
    pub request: i32,
    pub thread: u64,
    pub exception: u64,
}

impl Key for RethrowKey {
    fn same(&self, other: &Self) -> (r: bool) {
        *self == *other
    }
}

/// The two pairs of monitor events.
#[derive(Debug, Clone, Copy, PartialEq, Eq, Structural)]
pub enum MonitorPair {
    Contended,
    Wait,
}

impl MonitorPair {
    /// The pair an event belongs to, and whether it is the one that opens it.
    pub open spec fn pair_of(kind: MonitorKind) -> (MonitorPair, bool) {
        match kind {
            MonitorKind::Blocked => (MonitorPair::Contended, true),
            MonitorKind::Acquired => (MonitorPair::Contended, false),
            MonitorKind::Wait => (MonitorPair::Wait, true),
            MonitorKind::Waited => (MonitorPair::Wait, false),
        }
    }

    /// The pair an event belongs to, and whether it is the one that opens it.
    pub fn of(kind: MonitorKind) -> (r: (Self, bool))
        ensures
            r == MonitorPair::pair_of(kind),
    {
        match kind {
            MonitorKind::Blocked => (MonitorPair::Contended, true),
            MonitorKind::Acquired => (MonitorPair::Contended, false),
            MonitorKind::Wait => (MonitorPair::Wait, true),
            MonitorKind::Waited => (MonitorPair::Wait, false),
        }
    }

    /// What the time between the two events is called.
    pub fn duration_label(self) -> (r: &'static str)
        ensures
            r@ == (match self {
                MonitorPair::Contended => "blocked_for"@,
                MonitorPair::Wait => "waited_for"@,
            }),
    {
        match self {
            MonitorPair::Contended => "blocked_for",
            MonitorPair::Wait => "waited_for",
        }
    }
}

/// An opened monitor pair: which thread, which monitor, which of the two pairs.
#[derive(Debug, Clone, Copy, PartialEq, Eq, Structural)]
pub struct MonitorPairKey {
    pub thread: u64,
    pub monitor: u64,
    pub pair: MonitorPair,
}

impl Key for MonitorPairKey {
    fn same(&self, other: &Self) -> (r: bool) {
        *self == *other
    }
}

/// A family of breakpoints: a class pattern, and a breakpoint on every class that matches.
#[derive(Debug, Clone)]
pub struct PatternStopSet {
    pub id: String,
    pub class_pattern: String,
    pub watch: ClassLoadWatch,
    pub enabled: bool,
    /// The ids of its breakpoints.
    pub members: Vec<String>,
    /// The first of the classes that were armed when they loaded.
    pub armed_later: Vec<String>,
    pub armed_later_total: usize,
    pub method: Option<String>,
    pub hit_count: Option<i32>,
    pub instance_filter: Option<u64>,
    pub thread_filter: Option<u64>,
    pub condition: Option<String>,
    pub trace: bool,
    pub trace_expr: Vec<String>,
    pub trace_budget: Option<u32>,
    pub trace_frames: usize,
    pub trace_max_length: Option<usize>,
    pub max_classes: usize,
    pub skipped_at_cap: usize,
    pub no_method: usize,
}

/// How a family hears of classes that load.
#[derive(Debug, Clone, Copy, PartialEq, Eq, Structural)]
pub enum ClassLoadWatch {
    Watching(i32),
    /// The family is full.
    Parked,
    Disabled,
    Failed,
}

impl ClassLoadWatch {
    /// The request that reports classes, while there is one.
    pub fn request_id(&self) -> (r: Option<i32>)
        ensures
            r == (match *self {
                ClassLoadWatch::Watching(req) => Some(req),
                _ => None,
            }),
    {
        match self {
            ClassLoadWatch::Watching(req) => Some(*req),
            _ => None,
        }
    }

    pub fn is_watching(&self) -> (r: bool)
        ensures
            r == (*self is Watching),
    {
        match self {
            ClassLoadWatch::Watching(_) => true,
            _ => false,
        }
    }
}

impl PatternStopSet {
    /// Whether another class may be armed.
    pub fn has_room(&self) -> (r: bool)
        ensures
            r == (self.members@.len() < self.max_classes),
    {
        self.members.len() < self.max_classes
    }

    /// Counts a class that was armed when it loaded, and names it while there are few.
    pub fn note_armed_later(&mut self, class: &str)
        requires
            old(self).armed_later_total < usize::MAX,
        ensures
            final(self).armed_later_total == old(self).armed_later_total + 1,
            text::views(final(self).armed_later@) == (if old(self).armed_later@.len()
                < MAX_ARMED_LATER_SAMPLE {
                text::views(old(self).armed_later@).push(class@)
            } else {
                text::views(old(self).armed_later@)
            }),
            *final(self) == (PatternStopSet {
                armed_later: final(self).armed_later,
                armed_later_total: final(self).armed_later_total,
                ..*old(self)
            }),
    {
        self.armed_later_total += 1;
        if self.armed_later.len() < MAX_ARMED_LATER_SAMPLE {
            self.armed_later.push(text::owned(class));
            assert(text::views(self.armed_later@) =~= text::views(old(self).armed_later@).push(class@));
        }
    }
}

/// A JVM that was started for the session.
#[derive(Debug)]
pub struct LaunchedJvm {
    pub pid: Option<u32>,
    pub command: String,
    /// The last lines it wrote, oldest first.
    pub output: VecDeque<String>,
    pub detach_on_disconnect: bool,
}

impl LaunchedJvm {
    /// The last `n` lines of its output, or all there are.
    pub fn tail(&self, n: usize) -> (r: Vec<String>)
        ensures
            text::views(r@) == text::views(
                self.output@.skip(
                    if self.output@.len() > n {
                        self.output@.len() - n
                    } else {
                        0
                    },
                ),
            ),
    {
        let len: usize = self.output.len();
        let start: usize = if len > n {
            len - n
        } else {
            0
        };
        let mut out: Vec<String> = Vec::new();
        let mut i: usize = start;
        let ghost want = text::views(self.output@.skip(start as int));
        assert(text::views(out@) =~= want.take(0));
        while i < len
            invariant
                start <= i <= len,
                len == self.output@.len(),
                want == text::views(self.output@.skip(start as int)),
                text::views(out@) == want.take(i - start),
            decreases len - i,
        {
            let ghost before = text::views(out@);
            out.push(self.output[i].clone());
            assert(text::views(out@) =~= before.push(self.output@[i as int]@));
            i += 1;
            assert(text::views(out@) =~= want.take(i - start));
        }
        assert(want.take(i - start) =~= want);
        out
    }
}

/// A debug session. `E` is what an event of the debuggee carries, which the session keeps and does not
/// read.
#[derive(Debug)]
pub struct DebugSession<E> {
    pub endpoint: String,
    pub state: SessionState,
    /// The newest events, oldest first.
    pub events: VecDeque<EventRecord<E>>,
    /// The number of the newest event.
    pub event_seq: u64,
    pub events_dropped: u64,
    pub event_listener_task: Option<Task>,
    pub last_thread: Option<u64>,
    pub pending_step: Option<(i32, u64)>,
    pub suspended_since: Option<Moment>,
    pub suspended_cause: Option<SuspendCause>,
    pub thread_suspends: BTreeMap<u64, ThreadSuspend>,
    pub watchdog_task: Option<Task>,
    pub last_watchdog_note: Option<String>,
    /// The number of the newest event when the watchdog last acted.
    pub last_watchdog_seq: Option<u64>,
    pub rethrow_chains: KeyMap<RethrowKey, RethrowChain>,
    /// How often each note was given.
    pub trace_disarms: TextMap<u32>,
    pub trace_disarms_dropped: u64,
    pub read_only: bool,
    pub source_roots: Vec<std::path::PathBuf>,
    pub class_roots: Vec<std::path::PathBuf>,
    pub trace_exprs: Vec<String>,
    pub step_exclude_classes: Option<Vec<String>>,
    pub step_only_classes: Option<Vec<String>>,
    pub redefinitions: TextMap<Redefinition>,
    pub pattern_sets: TextMap<PatternStopSet>,
    pub launched: Option<LaunchedJvm>,
    /// When each open monitor pair was opened.
    pub monitor_pending: KeyMap<MonitorPairKey, Moment>,
    pub monitor_pending_dropped: u64,
    pub traces: VecDeque<TraceRecord>,
    pub trace_seq: u64,
}

/// What a new session is told.
pub struct SessionSeed {
    pub read_only: bool,
    pub source_roots: Vec<std::path::PathBuf>,
    pub class_roots: Vec<std::path::PathBuf>,
    pub trace_exprs: Vec<String>,
    pub step_exclude_classes: Option<Vec<String>>,
    pub step_only_classes: Option<Vec<String>>,
}

impl<E> DebugSession<E> {
    /// Every buffer is within its bound, every map is one, events are numbered upwards, and the VM is
    /// stopped since some time exactly when it is for some reason.
    pub open spec fn wf(self) -> bool {
        &&& self.state.wf()
        &&& self.events@.len() <= MAX_EVENTS
        &&& forall|i: int|
            0 <= i < self.events@.len() ==> (#[trigger] self.events@[i]).seq <= self.event_seq
        &&& forall|i: int, j: int|
            0 <= i < j < self.events@.len() ==> (#[trigger] self.events@[i]).seq < (
            #[trigger] self.events@[j]).seq
        &&& self.suspended_since is Some <==> self.suspended_cause is Some
        &&& self.rethrow_chains.wf()
        &&& self.rethrow_chains@.dom().len() <= MAX_RETHROW_CHAINS
        &&& self.trace_disarms.wf()
        &&& self.trace_disarms@.dom().len() <= MAX_TRACE_DISARMS
        &&& self.redefinitions.wf()
        &&& self.pattern_sets.wf()
        &&& self.monitor_pending.wf()
        &&& self.monitor_pending@.dom().len() <= MAX_MONITOR_PENDING
    }

    /// Whether events of the debuggee are being read.
    pub fn event_pump(&self) -> (r: EventPump)
        ensures
            r == (match self.event_listener_task {
                None => EventPump::Unstarted,
                Some(task) => if task.finished {
                    EventPump::Ended
                } else {
                    EventPump::Running
                },
            }),
    {
        match self.event_listener_task {
            None => EventPump::Unstarted,
            Some(task) => if task.finished {
                EventPump::Ended
            } else {
                EventPump::Running
            },
        }
    }

    /// Counts a replacement of a class's code, which no frame has taken up yet.
    pub fn note_redefinition(&mut self, class_name: &str, now: Moment)
        requires
            old(self).wf(),
            old(self).redefinitions@.dom().contains(class_name@) ==> old(
                self,
            ).redefinitions@[class_name@].count < u32::MAX,
        ensures
            final(self).wf(),
            final(self).redefinitions@ == old(self).redefinitions@.insert(
                class_name@,
                Redefinition {
                    count: (if old(self).redefinitions@.dom().contains(class_name@) {
                        old(self).redefinitions@[class_name@].count + 1
                    } else {
                        1
                    }) as u32,
                    at: now,
                    popped_since: false,
                },
            ),
            *final(self) == (DebugSession { redefinitions: final(self).redefinitions, ..*old(self) }),
    {
        let count: u32 = match self.redefinitions.get(class_name) {
            Some(entry) => entry.count + 1,
            None => 1,
        };
        self.redefinitions.insert(
            text::owned(class_name),
            Redefinition { count, at: now, popped_since: false },
        );
    }

    /// Notes that a frame of a class was popped, if its code was ever replaced.
    pub fn note_pop(&mut self, class_name: &str)
        requires
            old(self).wf(),
        ensures
            final(self).wf(),
            final(self).redefinitions@ == (if old(self).redefinitions@.dom().contains(class_name@) {
                old(self).redefinitions@.insert(
                    class_name@,
                    Redefinition {
                        popped_since: true,
                        ..old(self).redefinitions@[class_name@]
                    },
                )
            } else {
                old(self).redefinitions@
            }),
            *final(self) == (DebugSession { redefinitions: final(self).redefinitions, ..*old(self) }),
    {
        let found = match self.redefinitions.get(class_name) {
            Some(entry) => Some(*entry),
            None => None,
        };
        match found {
            Some(entry) => self.redefinitions.insert(
                text::owned(class_name),
                Redefinition { count: entry.count, at: entry.at, popped_since: true },
            ),
            None => {},
        }
    }

    /// Keeps an event under the next number, which it returns. The oldest goes where there is no room,
    /// and that is counted: every event is either kept or counted as lost.
    pub fn push_event(&mut self, set: E, escalation: Option<FailedEscalation>) -> (r: u64)
        requires
            old(self).wf(),
            old(self).event_seq < u64::MAX,
            old(self).events@.len() == MAX_EVENTS ==> old(self).events_dropped < u64::MAX,
        ensures
            final(self).wf(),
            r == old(self).event_seq + 1,
            final(self).event_seq == r,
            ({
                let full = old(self).events@.len() == MAX_EVENTS;
                let room = if full {
                    old(self).events@.drop_first()
                } else {
                    old(self).events@
                };
                &&& final(self).events@ == room.push(EventRecord { seq: r, set, escalation })
                &&& final(self).events_dropped == old(self).events_dropped + (if full {
                    1int
                } else {
                    0
                })
            }),
            final(self).events@.len() + final(self).events_dropped == old(self).events@.len() + old(
                self,
            ).events_dropped + 1,
            *final(self) == (DebugSession {
                event_seq: final(self).event_seq,
                events: final(self).events,
                events_dropped: final(self).events_dropped,
                ..*old(self)
            }),
    {
        self.event_seq += 1;
        if self.events.len() >= MAX_EVENTS {
            let _ = self.events.pop_front();
            self.events_dropped += 1;
        }
        self.events.push_back(EventRecord { seq: self.event_seq, set, escalation });
        self.event_seq
    }

    /// Notes that the VM is stopped, since when and why.
    pub fn mark_suspended(&mut self, cause: SuspendCause, now: Moment)
        ensures
            *final(self) == (DebugSession {
                suspended_since: Some(now),
                suspended_cause: Some(cause),
                ..*old(self)
            }),
            old(self).wf() ==> final(self).wf(),
    {
        self.suspended_since = Some(now);
        self.suspended_cause = Some(cause);
    }

    /// Notes that the VM runs.
    pub fn mark_resumed(&mut self)
        ensures
            *final(self) == (DebugSession {
                suspended_since: None,
                suspended_cause: None,
                ..*old(self)
            }),
            old(self).wf() ==> final(self).wf(),
    {
        self.suspended_since = None;
        self.suspended_cause = None;
    }

    /// Keeps what the watchdog did, and at which event.
    pub fn note_watchdog(&mut self, note: String)
        ensures
            *final(self) == (DebugSession {
                last_watchdog_note: Some(note),
                last_watchdog_seq: Some(old(self).event_seq),
                ..*old(self)
            }),
            old(self).wf() ==> final(self).wf(),
    {
        self.last_watchdog_note = Some(note);
        self.last_watchdog_seq = Some(self.event_seq);
    }

    /// What the watchdog did, for a caller whose newest event is `newest_seq`: nothing where that
    /// event came after it.
    pub open spec fn note_shown(self, newest_seq: Option<u64>) -> Option<Seq<char>> {
        match (self.last_watchdog_note, self.last_watchdog_seq, newest_seq) {
            (Some(note), Some(at), Some(newest)) => if newest <= at {
                Some(note@)
            } else {
                None
            },
            _ => None,
        }
    }

    /// What the watchdog did, for a caller whose newest event is `newest_seq`: nothing where that
    /// event came after it.
    pub fn watchdog_note_for(&self, newest_seq: Option<u64>) -> (r: Option<&str>)
        ensures
            match self.note_shown(newest_seq) {
                Some(note) => r is Some && r->0@ == note,
                None => r is None,
            },
    {
        match (&self.last_watchdog_note, self.last_watchdog_seq, newest_seq) {
            (Some(note), Some(at), Some(newest)) => if newest <= at {
                Some(note.as_str())
            } else {
                None
            },
            _ => None,
        }
    }

    /// Counts a note of a disarmed trace: a repeat under the one there is, a new one while there is
    /// room, and else among those left out.
    pub fn note_trace_disarm(&mut self, note: String)
        requires
            old(self).wf(),
            old(self).trace_disarms@.dom().contains(note@) ==> old(self).trace_disarms@[note@]
                < u32::MAX,
            old(self).trace_disarms@.dom().len() == MAX_TRACE_DISARMS ==> old(
                self,
            ).trace_disarms_dropped < u64::MAX,
        ensures
            final(self).wf(),
            ({
                let notes = old(self).trace_disarms@;
                if notes.dom().contains(note@) {
                    &&& final(self).trace_disarms@ == notes.insert(
                        note@,
                        (notes[note@] + 1) as u32,
                    )
                    &&& final(self).trace_disarms_dropped == old(self).trace_disarms_dropped
                } else if notes.dom().len() < MAX_TRACE_DISARMS {
                    &&& final(self).trace_disarms@ == notes.insert(note@, 1u32)
                    &&& final(self).trace_disarms_dropped == old(self).trace_disarms_dropped
                } else {
                    &&& final(self).trace_disarms@ == notes
                    &&& final(self).trace_disarms_dropped == old(self).trace_disarms_dropped + 1
                }
            }),
            *final(self) == (DebugSession {
                trace_disarms: final(self).trace_disarms,
                trace_disarms_dropped: final(self).trace_disarms_dropped,
                ..*old(self)
            }),
    {
        proof {
            self.trace_disarms.keys_are_its_domain();
        }
        let found: Option<u32> = match self.trace_disarms.get(note.as_str()) {
            Some(n) => Some(*n),
            None => None,
        };
        match found {
            Some(n) => self.trace_disarms.insert(note, n + 1),
            None => if self.trace_disarms.len() < MAX_TRACE_DISARMS {
                self.trace_disarms.insert(note, 1);
            } else {
                self.trace_disarms_dropped += 1;
            },
        }
    }

    /// What a sighting of an exception is: the first of its throw, or another one of the same. The
    /// first keeps its record, and every later one takes the place of the one before it. Where too many
    /// exceptions are followed, the one first seen longest ago is forgotten.
    pub fn classify_throw(
        &mut self,
        req_id: i32,
        thread: u64,
        exception: Option<u64>,
        next_seq: u64,
    ) -> (r: ThrowKind)
        requires
            old(self).wf(),
        ensures
            final(self).wf(),
            throw_outcome(
                old(self).rethrow_chains@,
                req_id,
                thread,
                exception,
                next_seq,
                final(self).rethrow_chains@,
                r,
            ),
            *final(self) == (DebugSession { rethrow_chains: final(self).rethrow_chains, ..*old(self) }),
    {
        let exception: u64 = match exception {
            None => {
                return ThrowKind::First;
            },
            Some(e) => e,
        };
        let key = RethrowKey { request: req_id, thread, exception };
        let found = match self.rethrow_chains.get(key) {
            Some(chain) => Some(*chain),
            None => None,
        };
        proof {
            self.rethrow_chains.keys_are_its_domain();
        }
        match found {
            Some(chain) => {
                let collapsed: u32 = if chain.collapsed < u32::MAX {
                    chain.collapsed + 1
                } else {
                    u32::MAX
                };
                self.rethrow_chains.insert(
                    key,
                    RethrowChain {
                        first_seq: chain.first_seq,
                        rolling_seq: Some(next_seq),
                        collapsed,
                    },
                );
                ThrowKind::Rethrow {
                    fold: RethrowFold { collapsed: collapsed - 1, first_seq: chain.first_seq },
                    supersedes: chain.rolling_seq,
                }
            },
            None => {
                if self.rethrow_chains.len() >= MAX_RETHROW_CHAINS {
                    let oldest = oldest_chain(&self.rethrow_chains);
                    let _ = self.rethrow_chains.remove(oldest);
                }
                self.rethrow_chains.insert(
                    key,
                    RethrowChain { first_seq: next_seq, rolling_seq: None, collapsed: 0 },
                );
                ThrowKind::First
            },
        }
    }

    /// Notes that a monitor pair was opened. Where too many are open, the one opened longest ago is
    /// dropped, and that is counted.
    pub fn open_monitor_pair(&mut self, key: MonitorPairKey, at: Moment)
        requires
            old(self).wf(),
        ensures
            final(self).wf(),
            pair_opened(old(self).monitor_pending@, key, at, final(self).monitor_pending@),
            final(self).monitor_pending_dropped == (if !pairs_are_full(
                old(self).monitor_pending@,
                key,
            ) || old(self).monitor_pending_dropped == u64::MAX {
                old(self).monitor_pending_dropped as int
            } else {
                old(self).monitor_pending_dropped + 1
            }),
            *final(self) == (DebugSession {
                monitor_pending: final(self).monitor_pending,
                monitor_pending_dropped: final(self).monitor_pending_dropped,
                ..*old(self)
            }),
    {
        proof {
            self.monitor_pending.keys_are_its_domain();
        }
        if self.monitor_pending.len() >= MAX_MONITOR_PENDING && !self.monitor_pending.contains_key(key) {
            let oldest = oldest_pair(&self.monitor_pending);
            let _ = self.monitor_pending.remove(oldest);
            if self.monitor_pending_dropped < u64::MAX {
                self.monitor_pending_dropped += 1;
            }
        }
        self.monitor_pending.insert(key, at);
    }

    /// Closes a monitor pair and says how long it was open; nothing where it was not open.
    pub fn close_monitor_pair(&mut self, key: &MonitorPairKey, now: Moment) -> (r: Option<Span>)
        requires
            old(self).wf(),
        ensures
            final(self).wf(),
            final(self).monitor_pending@ == old(self).monitor_pending@.remove(*key),
            r == pair_duration(old(self).monitor_pending@, *key, now),
            r is Some <==> old(self).monitor_pending@.dom().contains(*key),
            r matches Some(span) ==> {
                let opened = old(self).monitor_pending@[*key].nanos;
                &&& opened <= now.nanos ==> opened + span.nanos == now.nanos
                &&& now.nanos <= opened ==> span.nanos == 0
            },
            *final(self) == (DebugSession { monitor_pending: final(self).monitor_pending, ..*old(self) }),
    {
        proof {
            self.monitor_pending.keys_are_its_domain();
        }
        match self.monitor_pending.remove(*key) {
            None => None,
            Some(opened) => Some(now.since(opened)),
        }
    }
}

/// `key` is an exception of which none was first seen earlier.
pub open spec fn seen_first(chains: Map<RethrowKey, RethrowChain>, key: RethrowKey) -> bool {
    chains.dom().contains(key) && forall|other: RethrowKey| #[trigger]
        chains.dom().contains(other) ==> chains[key].first_seq <= chains[other].first_seq
}

/// `key` is an open pair of which none was opened earlier.
pub open spec fn opened_first(open: Map<MonitorPairKey, Moment>, key: MonitorPairKey) -> bool {
    open.dom().contains(key) && forall|other: MonitorPairKey| #[trigger]
        open.dom().contains(other) ==> open[key].nanos <= open[other].nanos
}

/// There is no room for another open pair.
pub open spec fn pairs_are_full(open: Map<MonitorPairKey, Moment>, key: MonitorPairKey) -> bool {
    open.dom().len() >= MAX_MONITOR_PENDING && !open.dom().contains(key)
}

/// What opening a pair makes of the open pairs: the one opened longest ago goes where there is no room.
pub open spec fn pair_opened(
    before: Map<MonitorPairKey, Moment>,
    key: MonitorPairKey,
    at: Moment,
    after: Map<MonitorPairKey, Moment>,
) -> bool {
    if pairs_are_full(before, key) {
        exists|oldest: MonitorPairKey| #[trigger]
            opened_first(before, oldest) && after == before.remove(oldest).insert(key, at)
    } else {
        after == before.insert(key, at)
    }
}

/// What closing a pair tells: how long it was open, if it was.
pub open spec fn pair_duration(
    open: Map<MonitorPairKey, Moment>,
    key: MonitorPairKey,
    now: Moment,
) -> Option<Span> {
    if open.dom().contains(key) {
        Some(Span { nanos: now.nanos_since(open[key]) as u128 })
    } else {
        None
    }
}

/// What a sighting makes of the exceptions in flight, and what it is.
pub open spec fn throw_outcome(
    before: Map<RethrowKey, RethrowChain>,
    request: i32,
    thread: u64,
    exception: Option<u64>,
    next_seq: u64,
    after: Map<RethrowKey, RethrowChain>,
    kind: ThrowKind,
) -> bool {
    match exception {
        None => after == before && kind == ThrowKind::First,
        Some(exception) => {
            let key = RethrowKey { request, thread, exception };
            if before.dom().contains(key) {
                let chain = before[key];
                let collapsed: u32 = if chain.collapsed < u32::MAX {
                    (chain.collapsed + 1) as u32
                } else {
                    u32::MAX
                };
                &&& after == before.insert(
                    key,
                    RethrowChain {
                        first_seq: chain.first_seq,
                        rolling_seq: Some(next_seq),
                        collapsed,
                    },
                )
                &&& kind == (ThrowKind::Rethrow {
                    fold: RethrowFold {
                        collapsed: (collapsed - 1) as u32,
                        first_seq: chain.first_seq,
                    },
                    supersedes: chain.rolling_seq,
                })
            } else {
                let chain = RethrowChain { first_seq: next_seq, rolling_seq: None, collapsed: 0 };
                &&& kind == ThrowKind::First
                &&& if before.dom().len() >= MAX_RETHROW_CHAINS {
                    exists|oldest: RethrowKey| #[trigger]
                        seen_first(before, oldest) && after == before.remove(oldest).insert(key, chain)
                } else {
                    after == before.insert(key, chain)
                }
            }
        },
    }
}

fn oldest_chain(chains: &KeyMap<RethrowKey, RethrowChain>) -> (r: RethrowKey)
    requires
        chains.wf(),
        chains@.dom().len() > 0,
    ensures
        seen_first(chains@, r),
{
    proof {
        chains.keys_are_its_domain();
    }
    let ghost keys = chains.keys();
    let (first, _) = chains.at(0);
    let mut oldest: RethrowKey = *first;
    let mut seq: u64 = chains.at(0).1.first_seq;
    let mut i: usize = 1;
    while i < chains.len()
        invariant
            chains.wf(),
            keys == chains.keys(),
            1 <= i <= keys.len(),
            chains@.dom().contains(oldest),
            seq == chains@[oldest].first_seq,
            forall|k: int| 0 <= k < i ==> seq <= chains@[#[trigger] keys[k]].first_seq,
        decreases keys.len() - i,
    {
        let (key, chain) = chains.at(i);
        if chain.first_seq < seq {
            oldest = *key;
            seq = chain.first_seq;
        }
        i += 1;
    }
    assert forall|other: RethrowKey| #[trigger] chains@.dom().contains(other) implies chains@[oldest].first_seq
        <= chains@[other].first_seq by {
        assert(keys.contains(other));
        let k = choose|k: int| 0 <= k < keys.len() && keys[k] == other;
        assert(keys[k] == other);
    }
    oldest
}

fn oldest_pair(open: &KeyMap<MonitorPairKey, Moment>) -> (r: MonitorPairKey)
    requires
        open.wf(),
        open@.dom().len() > 0,
    ensures
        opened_first(open@, r),
{
    proof {
        open.keys_are_its_domain();
    }
    let ghost keys = open.keys();
    let (first, _) = open.at(0);
    let mut oldest: MonitorPairKey = *first;
    let mut nanos: u64 = open.at(0).1.nanos;
    let mut i: usize = 1;
    while i < open.len()
        invariant
            open.wf(),
            keys == open.keys(),
            1 <= i <= keys.len(),
            open@.dom().contains(oldest),
            nanos == open@[oldest].nanos,
            forall|k: int| 0 <= k < i ==> nanos <= open@[#[trigger] keys[k]].nanos,
        decreases keys.len() - i,
    {
        let (key, at) = open.at(i);
        if at.nanos < nanos {
            oldest = *key;
            nanos = at.nanos;
        }
        i += 1;
    }
    assert forall|other: MonitorPairKey| #[trigger] open@.dom().contains(other) implies open@[oldest].nanos
        <= open@[other].nanos by {
        assert(keys.contains(other));
        let k = choose|k: int| 0 <= k < keys.len() && keys[k] == other;
        assert(keys[k] == other);
    }
    oldest
}

// ---------------------------------------------------------------------------------------------
// The sessions there are
// ---------------------------------------------------------------------------------------------
/// The sessions there are, and which of them is the current one.
pub struct SessionManager<E> {
    sessions: TextMap<DebugSession<E>>,
    current_session: Option<SessionId>,
}

/// A session that was told `seed` and has seen nothing yet.
pub open spec fn is_new<E>(s: DebugSession<E>, endpoint: Seq<char>, seed: SessionSeed) -> bool {
    &&& s.wf()
    &&& s.endpoint@ == endpoint
    &&& s.state.stop_points@ == Map::<Seq<char>, StopPoint>::empty()
    &&& s.state.pending_breakpoints@.len() == 0
    &&& s.state.disarmed_traced_requests@.len() == 0
    &&& s.state.stop_seq == 0
    &&& s.events@.len() == 0
    &&& s.event_seq == 0
    &&& s.events_dropped == 0
    &&& s.event_listener_task is None
    &&& s.last_thread is None
    &&& s.pending_step is None
    &&& s.suspended_since is None
    &&& s.suspended_cause is None
    &&& s.thread_suspends@ == Map::<u64, ThreadSuspend>::empty()
    &&& s.watchdog_task is None
    &&& s.last_watchdog_note is None
    &&& s.last_watchdog_seq is None
    &&& s.rethrow_chains@ == Map::<RethrowKey, RethrowChain>::empty()
    &&& s.trace_disarms@ == Map::<Seq<char>, u32>::empty()
    &&& s.trace_disarms_dropped == 0
    &&& s.read_only == seed.read_only
    &&& s.source_roots == seed.source_roots
    &&& s.class_roots == seed.class_roots
    &&& s.trace_exprs == seed.trace_exprs
    &&& s.step_exclude_classes == seed.step_exclude_classes
    &&& s.step_only_classes == seed.step_only_classes
    &&& s.redefinitions@ == Map::<Seq<char>, Redefinition>::empty()
    &&& s.pattern_sets@ == Map::<Seq<char>, PatternStopSet>::empty()
    &&& s.launched is None
    &&& s.monitor_pending@ == Map::<MonitorPairKey, Moment>::empty()
    &&& s.monitor_pending_dropped == 0
    &&& s.traces@.len() == 0
    &&& s.trace_seq == 0
}

impl<E> SessionManager<E> {
    /// The sessions by their ids.
    pub closed spec fn all(&self) -> Map<Seq<char>, DebugSession<E>> {
        self.sessions@
    }

    /// The id of the current session.
    pub closed spec fn current(&self) -> Option<Seq<char>> {
        match self.current_session {
            Some(id) => Some(id@),
            None => None,
        }
    }

    pub closed spec fn wf(&self) -> bool {
        self.sessions.wf() && forall|id: Seq<char>| #[trigger]
            self.sessions@.dom().contains(id) ==> self.sessions@[id].wf()
    }

    /// No sessions, and none current.
    pub fn new() -> (r: Self)
        ensures
            r.wf(),
            r.all() == Map::<Seq<char>, DebugSession<E>>::empty(),
            r.current() is None,
    {
        SessionManager { sessions: TextMap::new(), current_session: None }
    }

    /// Starts a session under a name made of a time and a running number, and makes it the current one.
    pub fn create_session(
        &mut self,
        timestamp: u128,
        counter: u64,
        endpoint: String,
        seed: SessionSeed,
    ) -> (r: SessionId)
        requires
            old(self).wf(),
        ensures
            final(self).wf(),
            r@ == "session_"@ + uuid::name(timestamp, counter),
            final(self).current() == Some(r@),
            final(self).all().dom().contains(r@),
            is_new(final(self).all()[r@], endpoint@, seed),
            final(self).all() == old(self).all().insert(r@, final(self).all()[r@]),
    {
        let session_id = text::owned("session_").concat(uuid::v4(timestamp, counter).as_str());
        let session: DebugSession<E> = DebugSession {
            endpoint,
            state: SessionState::new(),
            events: VecDeque::new(),
            event_seq: 0,
            events_dropped: 0,
            event_listener_task: None,
            last_thread: None,
            pending_step: None,
            suspended_since: None,
            suspended_cause: None,
            thread_suspends: BTreeMap::new(),
            watchdog_task: None,
            last_watchdog_note: None,
            last_watchdog_seq: None,
            rethrow_chains: KeyMap::new(),
            trace_disarms: TextMap::new(),
            trace_disarms_dropped: 0,
            read_only: seed.read_only,
            source_roots: seed.source_roots,
            class_roots: seed.class_roots,
            trace_exprs: seed.trace_exprs,
            step_exclude_classes: seed.step_exclude_classes,
            step_only_classes: seed.step_only_classes,
            redefinitions: TextMap::new(),
            pattern_sets: TextMap::new(),
            launched: None,
            monitor_pending: KeyMap::new(),
            monitor_pending_dropped: 0,
            traces: VecDeque::new(),
            trace_seq: 0,
        };
        self.sessions.insert(session_id.clone(), session);
        self.current_session = Some(session_id.clone());
        session_id
    }

    /// The current session. There is none where the current one was never there or is gone.
    pub fn get_current_session(&self) -> (r: Option<&DebugSession<E>>)
        requires
            self.wf(),
        ensures
            r == (match self.current() {
                Some(id) => if self.all().dom().contains(id) {
                    Some(&self.all()[id])
                } else {
                    None
                },
                None => None,
            }),
    {
        match &self.current_session {
            Some(id) => self.sessions.get(id.as_str()),
            None => None,
        }
    }

    /// The session of this id.
    pub fn get_session_by_id(&self, session_id: &str) -> (r: Option<&DebugSession<E>>)
        requires
            self.wf(),
        ensures
            r == (if self.all().dom().contains(session_id@) {
                Some(&self.all()[session_id@])
            } else {
                None
            }),
    {
        self.sessions.get(session_id)
    }

    /// The session of this id, to be changed. No other session changes, and neither does which of them
    /// is current.
    pub fn get_session_by_id_mut(&mut self, session_id: &str) -> (r: Option<&mut DebugSession<E>>)
        requires
            old(self).wf(),
        ensures
            final(self).current() == old(self).current(),
            match r {
                Some(s) => old(self).all().dom().contains(session_id@) && *s == old(
                    self,
                ).all()[session_id@] && final(self).all() == old(self).all().insert(
                    session_id@,
                    *final(s),
                ) && (final(s).wf() ==> final(self).wf()),
                None => !old(self).all().dom().contains(session_id@) && final(self).all() == old(
                    self,
                ).all() && final(self).wf(),
            },
    {
        self.sessions.get_mut(session_id)
    }

    /// The id of the current session.
    pub fn get_current_session_id(&self) -> (r: Option<SessionId>)
        ensures
            match self.current() {
                Some(id) => r is Some && r->0@ == id,
                None => r is None,
            },
    {
        match &self.current_session {
            Some(id) => Some(id.clone()),
            None => None,
        }
    }

    /// Every session with its id, in the order of the ids, and the id of the current one.
    pub fn list(&self) -> (r: (Vec<(SessionId, &DebugSession<E>)>, Option<SessionId>))
        requires
            self.wf(),
        ensures
            r.0@.len() == self.all().dom().len(),
            forall|i: int|
                0 <= i < r.0@.len() ==> self.all().dom().contains((#[trigger] r.0@[i]).0@)
                    && *r.0@[i].1 == self.all()[r.0@[i].0@],
            forall|i: int, j: int|
                0 <= i < j < r.0@.len() ==> text::before(
                    (#[trigger] r.0@[i]).0@,
                    (#[trigger] r.0@[j]).0@,
                ),
            match self.current() {
                Some(id) => r.1 is Some && r.1->0@ == id,
                None => r.1 is None,
            },
    {
        let mut rows: Vec<(SessionId, &DebugSession<E>)> = Vec::new();
        proof {
            self.sessions.keys_are_its_domain();
        }
        let ghost keys = self.sessions.keys();
        let mut i: usize = 0;
        while i < self.sessions.len()
            invariant
                self.sessions.wf(),
                keys == self.sessions.keys(),
                i <= keys.len(),
                rows@.len() == i,
                forall|k: int|
                    0 <= k < i ==> (#[trigger] rows@[k]).0@ == keys[k] && self.sessions@.dom().contains(
                        keys[k],
                    ) && *rows@[k].1 == self.sessions@[keys[k]],
            decreases keys.len() - i,
        {
            let (id, session) = self.sessions.at(i);
            rows.push((id.clone(), session));
            i += 1;
        }
        (rows, self.get_current_session_id())
    }

    /// Makes this id the current one and gives the one that was.
    pub fn make_current(&mut self, session_id: &str) -> (r: Option<SessionId>)
        requires
            old(self).wf(),
        ensures
            final(self).wf(),
            final(self).all() == old(self).all(),
            final(self).current() == Some(session_id@),
            match old(self).current() {
                Some(id) => r is Some && r->0@ == id,
                None => r is None,
            },
    {
        let before = self.current_session.take();
        self.current_session = Some(text::owned(session_id));
        before
    }

    /// Takes a session out, and gives the tasks that worked for it and have to be stopped. No session
    /// is current any more where it was this one.
    pub fn remove_session(&mut self, session_id: &str) -> (r: Vec<Task>)
        requires
            old(self).wf(),
        ensures
            final(self).wf(),
            final(self).all() == old(self).all().remove(session_id@),
            final(self).current() == (if old(self).current() == Some(session_id@) {
                None
            } else {
                old(self).current()
            }),
            r@ == (if old(self).all().dom().contains(session_id@) {
                tasks_of(old(self).all()[session_id@])
            } else {
                Seq::empty()
            }),
    {
        let mut tasks: Vec<Task> = Vec::new();
        match self.sessions.remove(session_id) {
            Some(session) => {
                match session.event_listener_task {
                    Some(task) => tasks.push(task),
                    None => {},
                }
                match session.watchdog_task {
                    Some(task) => tasks.push(task),
                    None => {},
                }
                assert(tasks@ =~= tasks_of(session));
            },
            None => {},
        }
        let is_current: bool = match &self.current_session {
            Some(id) => text::same(id.as_str(), session_id),
            None => false,
        };
        if is_current {
            self.current_session = None;
        }
        tasks
    }
}

/// The tasks that work for a session.
pub open spec fn tasks_of<E>(s: DebugSession<E>) -> Seq<Task> {
    (match s.event_listener_task {
        Some(task) => seq![task],
        None => Seq::empty(),
    }) + (match s.watchdog_task {
        Some(task) => seq![task],
        None => Seq::empty(),
    })
}

// ---------------------------------------------------------------------------------------------
// Laws
// ---------------------------------------------------------------------------------------------
/// Two stop points that were numbered differently have different ids, whatever the prefixes, as long
/// as none ends in a digit. A session numbers each stop point higher than the one before, so it never
/// gives an id twice.
pub proof fn stop_ids_are_never_reused(p: Seq<char>, a: u64, q: Seq<char>, b: u64)
    requires
        text::ends_in_no_digit(p),
        text::ends_in_no_digit(q),
        a != b,
    ensures
        p + text::dec(a as nat) != q + text::dec(b as nat),
{
    if p + text::dec(a as nat) == q + text::dec(b as nat) {
        text::numbered_names_differ(p, a as nat, q, b as nat);
    }
}

/// A deferral that becomes a stop point is there all along: it is gone from the deferrals, the stop
/// point is there under its id, and who counts both counts as many as before.
pub proof fn a_resolved_deferral_is_counted_once(
    pending: Seq<PendingBreakpoint>,
    stop_points: Map<Seq<char>, StopPoint>,
    armed: StopPoint,
)
    requires
        stop_points.dom().finite(),
        !stop_points.dom().contains(armed.id@),
        pending_has(pending, armed.id@),
        forall|i: int, j: int|
            0 <= i < j < pending.len() ==> (#[trigger] pending[i]).bp_id@ != (
            #[trigger] pending[j]).bp_id@,
    ensures
        !pending_has(still_pending(pending, armed.id@), armed.id@),
        stop_points.insert(armed.id@, armed).dom().contains(armed.id@),
        still_pending(pending, armed.id@).len() + stop_points.insert(armed.id@, armed).dom().len()
            == pending.len() + stop_points.dom().len(),
{
    still_pending_others(pending, armed.id@);
    still_pending_loses_one(pending, armed.id@);
    assert(stop_points.insert(armed.id@, armed).dom() =~= stop_points.dom().insert(armed.id@));
}

proof fn still_pending_others(pending: Seq<PendingBreakpoint>, id: Seq<char>)
    ensures
        !pending_has(still_pending(pending, id), id),
    decreases pending.len(),
{
    if pending.len() > 0 {
        let rest = pending.drop_last();
        still_pending_others(rest, id);
        let now = still_pending(pending, id);
        if pending_has(now, id) {
            let i = choose|i: int| 0 <= i < now.len() && (#[trigger] now[i]).bp_id@ == id;
            assert(still_pending(rest, id)[i].bp_id@ == id);
        }
    }
}

proof fn still_pending_loses_one(pending: Seq<PendingBreakpoint>, id: Seq<char>)
    requires
        forall|i: int, j: int|
            0 <= i < j < pending.len() ==> (#[trigger] pending[i]).bp_id@ != (
            #[trigger] pending[j]).bp_id@,
    ensures
        still_pending(pending, id).len() == pending.len() - (if pending_has(pending, id) {
            1int
        } else {
            0
        }),
    decreases pending.len(),
{
    if pending.len() > 0 {
        let rest = pending.drop_last();
        assert forall|i: int, j: int| 0 <= i < j < rest.len() implies (#[trigger] rest[i]).bp_id@ != (
        #[trigger] rest[j]).bp_id@ by {
            assert(pending[i].bp_id@ != pending[j].bp_id@);
        }
        still_pending_loses_one(rest, id);
        let last = pending.len() - 1;
        if pending[last].bp_id@ == id {
            if pending_has(rest, id) {
                let i = choose|i: int| 0 <= i < rest.len() && (#[trigger] rest[i]).bp_id@ == id;
                assert(pending[i].bp_id@ != pending[last].bp_id@);
            }
        } else {
            if pending_has(pending, id) {
                let i = choose|i: int| 0 <= i < pending.len() && (#[trigger] pending[i]).bp_id@ == id;
                assert(rest[i].bp_id@ == id);
            }
            if pending_has(rest, id) {
                let i = choose|i: int| 0 <= i < rest.len() && (#[trigger] rest[i]).bp_id@ == id;
                assert(pending[i].bp_id@ == id);
            }
        }
    }
}

/// A disarmed traced request stops counting as left over as soon as a stop point that holds its number
/// is registered, and is remembered all the same.
pub proof fn a_request_that_is_live_again_is_not_left_over(
    before: SessionState,
    after: SessionState,
    sp: StopPoint,
    req: i32,
)
    requires
        before.disarmed_traced_requests@.contains(req),
        sp.request_ids@.contains(req),
        after == (SessionState { stop_points: after.stop_points, ..before }),
        after.stop_points@ == before.stop_points@.insert(sp.id@, sp),
    ensures
        after.is_live(req),
        after.disarmed_traced_requests@.contains(req),
{
    assert(armed_with(after.stop_points@, sp.id@, req));
}

/// A stop point of any kind keeps each of its requests live, and so does a deferral.
pub proof fn whatever_is_armed_keeps_its_requests_live(
    state: SessionState,
    id: Seq<char>,
    i: int,
    req: i32,
)
    ensures
        state.stop_points@.dom().contains(id) && state.stop_points@[id].request_ids@.contains(req)
            ==> state.is_live(req),
        0 <= i < state.pending_breakpoints@.len()
            && state.pending_breakpoints@[i].class_prepare_request_id == req ==> state.is_live(req),
{
    if state.stop_points@.dom().contains(id) && state.stop_points@[id].request_ids@.contains(req) {
        assert(armed_with(state.stop_points@, id, req));
    }
}

/// Two sightings of one exception, one after the other: the second is folded into the throw that the
/// first belongs to. It counts one more than the first did, names the same first record, and takes the
/// place of the first where that was not itself the throw.
pub proof fn a_rethrow_is_folded_into_its_throw(
    before: Map<RethrowKey, RethrowChain>,
    request: i32,
    thread: u64,
    exception: u64,
    first_seq: u64,
    between: Map<RethrowKey, RethrowChain>,
    first: ThrowKind,
    second_seq: u64,
    after: Map<RethrowKey, RethrowChain>,
    second: ThrowKind,
)
    requires
        throw_outcome(before, request, thread, Some(exception), first_seq, between, first),
        throw_outcome(between, request, thread, Some(exception), second_seq, after, second),
    ensures
        match (first, second) {
            (ThrowKind::First, ThrowKind::Rethrow { fold, supersedes }) => fold.first_seq
                == first_seq && fold.collapsed == 0 && supersedes is None,
            (
                ThrowKind::Rethrow { fold: earlier, .. },
                ThrowKind::Rethrow { fold, supersedes },
            ) => fold.first_seq == earlier.first_seq && supersedes == Some(first_seq)
                && fold.collapsed == (if earlier.collapsed < u32::MAX - 1 {
                earlier.collapsed + 1
            } else {
                earlier.collapsed as int
            }),
            _ => false,
        },
{
    let key = RethrowKey { request, thread, exception };
    assert(between.dom().contains(key));
}

/// A run of sightings of one exception, from the first on: `seqs[k]` is the record of the `k`-th, which finds
/// `before[k]` in flight, leaves `after[k]`, and is `kinds[k]`. Nothing was known of the exception before the
/// first, and each later one finds it as the one before it left it. What else is in flight may change from
/// one to the next.
pub open spec fn is_run(
    request: i32,
    thread: u64,
    exception: u64,
    seqs: Seq<u64>,
    before: Seq<Map<RethrowKey, RethrowChain>>,
    after: Seq<Map<RethrowKey, RethrowChain>>,
    kinds: Seq<ThrowKind>,
) -> bool {
    let key = RethrowKey { request, thread, exception };
    &&& before.len() == seqs.len()
    &&& after.len() == seqs.len()
    &&& kinds.len() == seqs.len()
    &&& forall|k: int|
        0 <= k < seqs.len() ==> throw_outcome(
            before[k],
            request,
            thread,
            Some(exception),
            seqs[k],
            after[k],
            #[trigger] kinds[k],
        )
    &&& seqs.len() > 0 ==> !before[0].dom().contains(key)
    &&& forall|k: int|
        0 < k < seqs.len() ==> (#[trigger] before[k]).dom().contains(key) && before[k][key] == after[k
            - 1][key]
}

/// What is known of an exception after `rethrows` sightings behind the first, the newest of them at
/// `newest`.
spec fn chain_after(first: u64, rethrows: int, newest: u64) -> RethrowChain {
    RethrowChain {
        first_seq: first,
        rolling_seq: if rethrows == 0 {
            None
        } else {
            Some(newest)
        },
        collapsed: if rethrows < u32::MAX {
            rethrows as u32
        } else {
            u32::MAX
        },
    }
}

proof fn a_run_keeps_its_chain(
    request: i32,
    thread: u64,
    exception: u64,
    seqs: Seq<u64>,
    before: Seq<Map<RethrowKey, RethrowChain>>,
    after: Seq<Map<RethrowKey, RethrowChain>>,
    kinds: Seq<ThrowKind>,
    k: int,
)
    requires
        is_run(request, thread, exception, seqs, before, after, kinds),
        0 <= k < seqs.len(),
    ensures
        after[k].dom().contains(RethrowKey { request, thread, exception }),
        after[k][RethrowKey { request, thread, exception }] == chain_after(seqs[0], k, seqs[k]),
    decreases k,
{
    assert(throw_outcome(
        before[k],
        request,
        thread,
        Some(exception),
        seqs[k],
        after[k],
        kinds[k],
    ));
    if k > 0 {
        a_run_keeps_its_chain(request, thread, exception, seqs, before, after, kinds, k - 1);
    }
}

/// One exception seen again and again is one throw. The first sighting is the throw; the one `k` behind it
/// names the first record, folds the `k - 1` between the two into a count, which stays at the largest number
/// it can hold, and takes the place of the one before it, except that the throw itself is never replaced.
pub proof fn a_run_of_sightings_is_one_throw(
    request: i32,
    thread: u64,
    exception: u64,
    seqs: Seq<u64>,
    before: Seq<Map<RethrowKey, RethrowChain>>,
    after: Seq<Map<RethrowKey, RethrowChain>>,
    kinds: Seq<ThrowKind>,
    k: int,
)
    requires
        is_run(request, thread, exception, seqs, before, after, kinds),
        0 <= k < seqs.len(),
    ensures
        kinds[k] == if k == 0 {
            ThrowKind::First
        } else {
            ThrowKind::Rethrow {
                fold: RethrowFold {
                    collapsed: if k - 1 < u32::MAX - 1 {
                        (k - 1) as u32
                    } else {
                        (u32::MAX - 1) as u32
                    },
                    first_seq: seqs[0],
                },
                supersedes: if k == 1 {
                    None
                } else {
                    Some(seqs[k - 1])
                },
            }
        },
{
    assert(throw_outcome(
        before[k],
        request,
        thread,
        Some(exception),
        seqs[k],
        after[k],
        kinds[k],
    ));
    if k > 0 {
        a_run_keeps_its_chain(request, thread, exception, seqs, before, after, kinds, k - 1);
    }
}

/// A sighting of nothing that can be told apart is a throw of its own and changes nothing. Neither it nor
/// another sighting of an exception that is in flight makes any other be forgotten, and there are never more
/// in flight than the limit.
pub proof fn only_a_new_throw_forgets_another(
    before: Map<RethrowKey, RethrowChain>,
    request: i32,
    thread: u64,
    exception: Option<u64>,
    next_seq: u64,
    after: Map<RethrowKey, RethrowChain>,
    kind: ThrowKind,
    other: RethrowKey,
)
    requires
        throw_outcome(before, request, thread, exception, next_seq, after, kind),
        before.dom().finite(),
        before.dom().len() <= MAX_RETHROW_CHAINS,
    ensures
        exception is None ==> kind == ThrowKind::First && after == before,
        kind is Rethrow && before.dom().contains(other) && other != (RethrowKey {
            request,
            thread,
            exception: exception->0,
        }) ==> after.dom().contains(other) && after[other] == before[other],
        kind is Rethrow ==> after.dom() == before.dom(),
        after.dom().finite(),
        after.dom().len() <= MAX_RETHROW_CHAINS,
{
    if let Some(exception) = exception {
        let key = RethrowKey { request, thread, exception };
        if before.dom().contains(key) {
            assert(after.dom() =~= before.dom());
        } else if before.dom().len() >= MAX_RETHROW_CHAINS {
            let chain = RethrowChain { first_seq: next_seq, rolling_seq: None, collapsed: 0 };
            let oldest = choose|oldest: RethrowKey| #[trigger]
                seen_first(before, oldest) && after == before.remove(oldest).insert(key, chain);
            assert(after.dom() =~= before.dom().remove(oldest).insert(key));
        } else {
            assert(after.dom() =~= before.dom().insert(key));
        }
    }
}

/// One sighting: what was seen, and the record of it.
pub ghost struct Sighting {
    pub request: i32,
    pub thread: u64,
    pub exception: Option<u64>,
    pub seq: u64,
}

/// Sightings of anything but `key`, none of them a new throw of an exception that is followed: `states[i]`
/// is in flight before `seen[i]`, and `states[i + 1]` after it.
pub open spec fn are_no_news(
    key: RethrowKey,
    seen: Seq<Sighting>,
    states: Seq<Map<RethrowKey, RethrowChain>>,
    kinds: Seq<ThrowKind>,
) -> bool {
    &&& states.len() == seen.len() + 1
    &&& kinds.len() == seen.len()
    &&& forall|i: int|
        0 <= i < seen.len() ==> {
            let s = #[trigger] seen[i];
            &&& throw_outcome(
                states[i],
                s.request,
                s.thread,
                s.exception,
                s.seq,
                states[i + 1],
                kinds[i],
            )
            &&& s.exception matches Some(exception) ==> kinds[i] is Rethrow && key != (RethrowKey {
                request: s.request,
                thread: s.thread,
                exception,
            })
        }
}

/// What else is seen leaves an exception in flight as it was, as long as none of it is a new throw: the next
/// sighting finds the exception as the last one left it.
pub proof fn no_news_leaves_an_exception_as_it_was(
    key: RethrowKey,
    seen: Seq<Sighting>,
    states: Seq<Map<RethrowKey, RethrowChain>>,
    kinds: Seq<ThrowKind>,
)
    requires
        are_no_news(key, seen, states, kinds),
        states[0].dom().contains(key),
    ensures
        states.last().dom().contains(key),
        states.last()[key] == states[0][key],
    decreases seen.len(),
{
    if seen.len() > 0 {
        let n = seen.len() - 1;
        let rest = seen.drop_last();
        let earlier = states.drop_last();
        assert forall|i: int| 0 <= i < rest.len() implies ({
            let s = #[trigger] rest[i];
            &&& throw_outcome(
                earlier[i],
                s.request,
                s.thread,
                s.exception,
                s.seq,
                earlier[i + 1],
                kinds.drop_last()[i],
            )
            &&& s.exception matches Some(exception) ==> kinds.drop_last()[i] is Rethrow && key != (
            RethrowKey { request: s.request, thread: s.thread, exception })
        }) by {
            assert(rest[i] == seen[i]);
        }
        no_news_leaves_an_exception_as_it_was(key, rest, earlier, kinds.drop_last());
        let s = seen[n];
        assert(throw_outcome(
            states[n],
            s.request,
            s.thread,
            s.exception,
            s.seq,
            states[n + 1],
            kinds[n],
        ));
    }
}

/// Following another exception forgets at most one, and none that was seen later than it.
pub proof fn a_new_throw_forgets_at_most_the_oldest(
    before: Map<RethrowKey, RethrowChain>,
    request: i32,
    thread: u64,
    exception: u64,
    next_seq: u64,
    after: Map<RethrowKey, RethrowChain>,
    kind: ThrowKind,
    other: RethrowKey,
)
    requires
        throw_outcome(before, request, thread, Some(exception), next_seq, after, kind),
        before.dom().contains(other),
        other != (RethrowKey { request, thread, exception }),
    ensures
        after.dom().contains(other) ==> after[other] == before[other],
        !after.dom().contains(other) ==> seen_first(before, other) && before.dom().len()
            >= MAX_RETHROW_CHAINS,
{
}

/// A pair that was opened closes with the time in between, whatever was open before.
pub proof fn an_opened_pair_closes_with_its_duration(
    before: Map<MonitorPairKey, Moment>,
    key: MonitorPairKey,
    at: Moment,
    after: Map<MonitorPairKey, Moment>,
    now: Moment,
)
    requires
        pair_opened(before, key, at, after),
    ensures
        pair_duration(after, key, now) == Some(Span { nanos: now.nanos_since(at) as u128 }),
        pair_duration(after.remove(key), key, now) is None,
{
}

/// The two pairs of one thread on one monitor do not disturb each other, and neither do different
/// threads or monitors: opening one leaves every other open, or drops the one opened longest ago.
pub proof fn open_pairs_are_independent(
    before: Map<MonitorPairKey, Moment>,
    key: MonitorPairKey,
    at: Moment,
    after: Map<MonitorPairKey, Moment>,
    other: MonitorPairKey,
    now: Moment,
)
    requires
        pair_opened(before, key, at, after),
        other != key,
    ensures
        pair_duration(after, other, now) == pair_duration(before, other, now) || (pairs_are_full(
            before,
            key,
        ) && opened_first(before, other)),
        pair_duration(before.remove(key), other, now) == pair_duration(before, other, now),
{
}

/// Each of the two pairs is opened by one event and closed by one.
pub proof fn a_pair_has_two_ends(pair: MonitorPair, opens: bool, a: MonitorKind, b: MonitorKind)
    ensures
        exists|kind: MonitorKind| #[trigger] MonitorPair::pair_of(kind) == (pair, opens),
        MonitorPair::pair_of(a) == MonitorPair::pair_of(b) ==> a == b,
{
    let kind = match (pair, opens) {
        (MonitorPair::Contended, true) => MonitorKind::Blocked,
        (MonitorPair::Contended, false) => MonitorKind::Acquired,
        (MonitorPair::Wait, true) => MonitorKind::Wait,
        (MonitorPair::Wait, false) => MonitorKind::Waited,
    };
    assert(MonitorPair::pair_of(kind) == (pair, opens));
}

/// What the watchdog did is shown to a caller whose newest event is no newer than it, and no longer
/// once an event has come since.
pub proof fn a_watchdog_note_lasts_until_the_next_event<E>(s: DebugSession<E>, note: String, newest: u64)
    requires
        s.last_watchdog_note == Some(note),
        s.last_watchdog_seq == Some(s.event_seq),
    ensures
        newest <= s.event_seq ==> s.note_shown(Some(newest)) == Some(note@),
        newest > s.event_seq ==> s.note_shown(Some(newest)) is None,
        s.note_shown(None) is None,
{
}

/// A pair that was opened at one time and closed later was open for the time between the two, to the
/// nanosecond, and for none where the clock did not go on.
pub proof fn a_pair_was_open_from_its_opening_on(
    before: Map<MonitorPairKey, Moment>,
    key: MonitorPairKey,
    at: Moment,
    after: Map<MonitorPairKey, Moment>,
    later: u64,
    now: Moment,
)
    requires
        pair_opened(before, key, at, after),
        at.nanos + later <= u64::MAX,
    ensures
        pair_duration(after, key, Moment { nanos: (at.nanos + later) as u64 }) == Some(
            Span { nanos: later as u128 },
        ),
        now.nanos <= at.nanos ==> pair_duration(after, key, now) == Some(Span { nanos: 0 }),
{
}

/// A new throw is followed, and everything that was followed stays as it was, but for one exception where
/// as many are followed as may be: that one was first seen no later than any other.
pub proof fn the_oldest_exception_makes_room(
    before: Map<RethrowKey, RethrowChain>,
    key: RethrowKey,
    next_seq: u64,
    after: Map<RethrowKey, RethrowChain>,
    kind: ThrowKind,
    gone: RethrowKey,
    other: RethrowKey,
)
    requires
        throw_outcome(
            before,
            key.request,
            key.thread,
            Some(key.exception),
            next_seq,
            after,
            kind,
        ),
        !before.dom().contains(key),
        before.dom().contains(gone),
        before.dom().contains(other),
        other != gone,
    ensures
        kind == ThrowKind::First,
        after.dom().contains(key),
        after[key].first_seq == next_seq,
        before.dom().len() < MAX_RETHROW_CHAINS ==> after.dom().contains(gone) && after[gone]
            == before[gone],
        !after.dom().contains(gone) ==> before[gone].first_seq <= before[other].first_seq
            && after.dom().contains(other) && after[other] == before[other],
{
}

/// Where as many exceptions are followed as may be, a new throw makes one of them be forgotten.
pub proof fn a_full_session_forgets_one_exception(
    before: Map<RethrowKey, RethrowChain>,
    key: RethrowKey,
    next_seq: u64,
    after: Map<RethrowKey, RethrowChain>,
    kind: ThrowKind,
)
    requires
        throw_outcome(
            before,
            key.request,
            key.thread,
            Some(key.exception),
            next_seq,
            after,
            kind,
        ),
        before.dom().finite(),
        !before.dom().contains(key),
        before.dom().len() >= MAX_RETHROW_CHAINS,
    ensures
        after.dom().len() == before.dom().len(),
{
    let chain = RethrowChain { first_seq: next_seq, rolling_seq: None, collapsed: 0 };
    let oldest = choose|oldest: RethrowKey| #[trigger]
        seen_first(before, oldest) && after == before.remove(oldest).insert(key, chain);
    assert(after.dom() =~= before.dom().remove(oldest).insert(key));
}

/// A pair that is opened is open since then, and every other that was open stays as it was, but for one
/// where as many are open as may be: that one was opened no later than any other.
pub proof fn the_oldest_pair_makes_room(
    before: Map<MonitorPairKey, Moment>,
    key: MonitorPairKey,
    at: Moment,
    after: Map<MonitorPairKey, Moment>,
    gone: MonitorPairKey,
    other: MonitorPairKey,
)
    requires
        pair_opened(before, key, at, after),
        before.dom().contains(gone),
        before.dom().contains(other),
        gone != key,
        other != key,
        other != gone,
    ensures
        after.dom().contains(key),
        after[key] == at,
        before.dom().len() < MAX_MONITOR_PENDING || before.dom().contains(key) ==> after.dom().contains(
            gone,
        ) && after[gone] == before[gone],
        !after.dom().contains(gone) ==> before[gone].nanos <= before[other].nanos
            && after.dom().contains(other) && after[other] == before[other],
{
}

/// Where there is room nothing is forgotten, and what is remembered comes last. Where there is none, it is
/// the oldest that goes, and the others stay in their order.
pub proof fn only_the_oldest_is_forgotten(queue: Seq<i32>, x: i32, cap: int)
    requires
        !queue.contains(x),
        cap > 0,
    ensures
        queue.len() < cap ==> remembered(queue, x, cap) == queue + seq![x],
        queue.len() >= cap && queue.len() > 0 ==> seq![queue[0]] + remembered(queue, x, cap) == queue
            + seq![x],
{
    if queue.len() >= cap {
        assert(seq![queue[0]] + remembered(queue, x, cap) =~= queue + seq![x]);
    } else {
        assert(remembered(queue, x, cap) =~= queue + seq![x]);
    }
}

/// What becomes of a deferral rests on its own id: one of the id that was armed is gone, and any other
/// stays, behind those that came before it.
pub proof fn other_deferrals_stay_in_their_order(
    pending: Seq<PendingBreakpoint>,
    pb: PendingBreakpoint,
    id: Seq<char>,
)
    ensures
        still_pending(Seq::empty(), id).len() == 0,
        pb.bp_id@ == id ==> still_pending(pending.push(pb), id) == still_pending(pending, id),
        pb.bp_id@ != id ==> still_pending(pending.push(pb), id) == still_pending(pending, id) + seq![pb],
{
    assert(pending.push(pb).drop_last() =~= pending);
    if pb.bp_id@ != id {
        assert(still_pending(pending.push(pb), id) =~= still_pending(pending, id) + seq![pb]);
    }
}

/// A thread is blocked from the time it starts to wait for a monitor until it has it, and waits from the time
/// it gives the monitor up until it is woken.
pub proof fn a_pair_goes_from_its_start_to_its_end(blocked: bool)
    ensures
        MonitorPair::pair_of(MonitorKind::Blocked).0 == MonitorPair::pair_of(MonitorKind::Acquired).0,
        MonitorPair::pair_of(MonitorKind::Wait).0 == MonitorPair::pair_of(MonitorKind::Waited).0,
        MonitorPair::pair_of(MonitorKind::Blocked).0 is Contended,
        MonitorPair::pair_of(MonitorKind::Wait).0 is Wait,
        MonitorPair::pair_of(
            if blocked {
                MonitorKind::Blocked
            } else {
                MonitorKind::Wait
            },
        ).1,
        !MonitorPair::pair_of(
            if blocked {
                MonitorKind::Acquired
            } else {
                MonitorKind::Waited
            },
        ).1,
{
}

/// What the watchdog did is shown exactly to a caller whose newest event is numbered no higher than the
/// newest there was when it acted.
pub proof fn a_note_is_shown_up_to_its_event<E>(s: DebugSession<E>, note: String, at: u64, newest: u64)
    requires
        s.last_watchdog_note == Some(note),
        s.last_watchdog_seq == Some(at),
    ensures
        s.note_shown(None) is None,
        newest <= at ==> s.note_shown(Some(newest)) == Some(note@),
        newest > at ==> s.note_shown(Some(newest)) is None,
{
}

/// The tasks of a session are the one that reads events and the watchdog, each where there is one.
pub proof fn every_task_of_a_session_is_named<E>(s: DebugSession<E>)
    ensures
        s.event_listener_task matches Some(task) ==> tasks_of(s).contains(task),
        s.watchdog_task matches Some(task) ==> tasks_of(s).contains(task),
        tasks_of(s).len() == (if s.event_listener_task is Some {
            1int
        } else {
            0
        }) + (if s.watchdog_task is Some {
            1int
        } else {
            0
        }),
{
    let tasks = tasks_of(s);
    if s.event_listener_task is Some {
        assert(tasks[0] == s.event_listener_task->0);
    }
    if s.watchdog_task is Some {
        assert(tasks[tasks.len() - 1] == s.watchdog_task->0);
    }
}

/// A request is live only where a stop point holds it, where a line stop watches with it for later
/// copies of its class, or where a deferral waits with it for its class.
pub proof fn a_request_is_live_where_something_listens(state: SessionState, req: i32)
    requires
        state.is_live(req),
    ensures
        (exists|id: Seq<char>| #[trigger]
            state.stop_points@.dom().contains(id) && (state.stop_points@[id].request_ids@.contains(req)
                || (state.stop_points@[id].armed_on matches stop_point::ArmedOn::Line(line)
                && line.rearm matches stop_point::RearmState::Watching(watch) && watch.request_id
                == req))) || (exists|i: int|
            0 <= i < state.pending_breakpoints@.len() && (
            #[trigger] state.pending_breakpoints@[i]).class_prepare_request_id == req),
{
    if exists|id: Seq<char>| #[trigger] armed_with(state.stop_points@, id, req) {
        let id = choose|id: Seq<char>| #[trigger] armed_with(state.stop_points@, id, req);
        assert(state.stop_points@.dom().contains(id));
    }
}

/// A line stop that watches for later copies of its class keeps the request of its watch live.
pub proof fn a_watch_for_later_copies_keeps_its_request_live(
    state: SessionState,
    id: Seq<char>,
    line: stop_point::LineBreakpoint,
    watch: stop_point::ReArmWatch,
)
    requires
        state.stop_points@.dom().contains(id),
        state.stop_points@[id].armed_on == stop_point::ArmedOn::Line(line),
        line.rearm == stop_point::RearmState::Watching(watch),
    ensures
        state.is_live(watch.request_id),
{
    assert(armed_with(state.stop_points@, id, watch.request_id));
}

} // verus!
