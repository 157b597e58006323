//! Stop points: what is armed, on what, in which state, and what it costs.

use crate::jdwp::{MonitorKind, SuspendPolicy, WatchKind};
use crate::text;
use crate::time;
use crate::time::{Moment, Span};
use vstd::prelude::*;

verus! {

/// The five kinds of stop point.
#[derive(Debug, Clone, Copy, PartialEq, Eq, Hash, PartialOrd, Ord, Structural)]
pub enum StopPointKind {
    Line,
    Exception,
    Watchpoint,
    MethodExit,
    Monitor,
}

impl StopPointKind {
    /// Every kind, in the order in which a listing shows them.
    pub const LISTING_ORDER: [StopPointKind; 5] = [
        StopPointKind::Line,
        StopPointKind::Exception,
        StopPointKind::Watchpoint,
        StopPointKind::MethodExit,
        StopPointKind::Monitor,
    ];

    /// The place of the kind in a listing.
    pub open spec fn rank(self) -> int {
        match self {
            StopPointKind::Line => 0,
            StopPointKind::Exception => 1,
            StopPointKind::Watchpoint => 2,
            StopPointKind::MethodExit => 3,
            StopPointKind::Monitor => 4,
        }
    }

    /// The place of the kind in a listing.
    pub fn listing_rank(self) -> (r: usize)
        ensures
            r == self.rank(),
            r < 5,
    {
        match self {
            StopPointKind::Line => 0,
            StopPointKind::Exception => 1,
            StopPointKind::Watchpoint => 2,
            StopPointKind::MethodExit => 3,
            StopPointKind::Monitor => 4,
        }
    }

    /// What a listing calls a stop point of this kind.
    pub open spec fn name(self) -> Seq<char> {
        match self {
            StopPointKind::Line => "line breakpoint"@,
            StopPointKind::Exception => "exception stop point"@,
            StopPointKind::Watchpoint => "field watchpoint"@,
            StopPointKind::MethodExit => "method-exit stop point"@,
            StopPointKind::Monitor => "monitor stop point"@,
        }
    }

    /// What a listing calls a stop point of this kind.
    pub fn label(self) -> (r: &'static str)
        ensures
            r@ == self.name(),
    {
        match self {
            StopPointKind::Line => "line breakpoint",
            StopPointKind::Exception => "exception stop point",
            StopPointKind::Watchpoint => "field watchpoint",
            StopPointKind::MethodExit => "method-exit stop point",
            StopPointKind::Monitor => "monitor stop point",
        }
    }

    /// The mark of an armed stop point of this kind.
    pub open spec fn armed_mark(self) -> Seq<char> {
        match self {
            StopPointKind::Line => "✓"@,
            StopPointKind::Exception => "⚡"@,
            StopPointKind::Watchpoint => "👁"@,
            StopPointKind::MethodExit => "↩"@,
            StopPointKind::Monitor => "🔒"@,
        }
    }

    /// The mark of an armed stop point of this kind.
    pub fn armed_glyph(self) -> (r: &'static str)
        ensures
            r@ == self.armed_mark(),
    {
        match self {
            StopPointKind::Line => "✓",
            StopPointKind::Exception => "⚡",
            StopPointKind::Watchpoint => "👁",
            StopPointKind::MethodExit => "↩",
            StopPointKind::Monitor => "🔒",
        }
    }

    /// Whether a condition can be evaluated at a hit. A thread stopped at a monitor is blocked on the
    /// very lock the condition might need.
    pub fn takes_condition(self) -> (r: bool)
        ensures
            r == (self != StopPointKind::Monitor),
    {
        match self {
            StopPointKind::Monitor => false,
            _ => true,
        }
    }
}

/// Whether the class a stop point is armed on is the one that was compiled.
#[derive(Debug, Clone)]
pub enum DriftCheck {
    /// They differ, and this says where.
    Drifted(String),
    /// They agree.
    Agrees,
    /// It could not be told, and this says why.
    NotChecked(String),
}

/// What a stop point is armed on.
#[derive(Debug, Clone)]
pub enum ArmedOn {
    Line(LineBreakpoint),
    Exception(ExceptionBreakpoint),
    Watchpoint(Watchpoint),
    MethodExit(MethodExitRequest),
    Monitor(MonitorStop),
}

#[derive(Debug, Clone)]
pub struct LineBreakpoint {
    pub class_pattern: String,
    pub line: u32,
    pub method: Option<String>,
    /// The line as the caller gave it.
    pub arm_line: Option<i32>,
    /// The method as the caller gave it.
    pub arm_method: Option<String>,
    pub drift: DriftCheck,
    /// The class loaders whose copies of the class are armed.
    pub loaders: Vec<String>,
    pub arm: BreakpointArm,
    pub rearm: RearmState,
}

#[derive(Debug, Clone)]
pub struct ExceptionBreakpoint {
    pub class_pattern: String,
    pub caught: bool,
    pub uncaught: bool,
}

#[derive(Debug, Clone)]
pub struct Watchpoint {
    pub kind: WatchKind,
    pub class_name: String,
    pub field_name: String,
    pub is_static: bool,
}

#[derive(Debug, Clone)]
pub struct MethodExitRequest {
    /// Exits of other methods of the class, which were let go.
    pub discarded: u32,
    pub class_pattern: String,
    pub exclude_classes: Vec<String>,
    pub method: Option<String>,
    pub with_return_value: bool,
}

#[derive(Debug, Clone)]
pub struct MonitorStop {
    pub kind: MonitorKind,
    /// Whether the other event of the pair is armed too, so that durations can be told.
    pub paired: bool,
    pub monitor_class: Option<String>,
    pub min_duration_ms: Option<u64>,
}

/// Whether copies of the class that load later are armed too.
#[derive(Debug, Clone)]
pub enum RearmState {
    Watching(ReArmWatch),
    CoveredByFamily,
    Unwatched,
}

#[derive(Debug, Clone)]
pub struct ReArmWatch {
    pub request_id: i32,
    pub signature: String,
    pub later_copies: usize,
    pub line: Option<i32>,
    pub method: Option<String>,
}

#[derive(Debug, Clone)]
pub struct BreakpointArm {
    pub class_id: u64,
    pub method_id: u64,
    pub bytecode_index: u64,
    pub extra_locations: Vec<ArmedLocation>,
    pub suspend_policy: SuspendPolicy,
}

#[derive(Debug, Clone, Copy)]
pub struct ArmedLocation {
    pub class_id: u64,
    pub method_id: u64,
    pub bytecode_index: u64,
}

impl RearmState {
    /// The watch for later copies, if there is one.
    pub fn watch(&self) -> (r: Option<&ReArmWatch>)
        ensures
            r == (match *self {
                RearmState::Watching(w) => Some(&w),
                _ => None,
            }),
    {
        match self {
            RearmState::Watching(w) => Some(w),
            _ => None,
        }
    }

    /// The watch for later copies, if there is one. What is written to it is written to the state.
    pub fn watch_mut(&mut self) -> (r: Option<&mut ReArmWatch>)
        ensures
            match r {
                Some(w) => *old(self) == RearmState::Watching(*w) && *final(self)
                    == RearmState::Watching(*final(w)),
                None => !(*old(self) is Watching) && *final(self) == *old(self),
            },
    {
        match self {
            RearmState::Watching(w) => Some(w),
            _ => None,
        }
    }
}

impl ArmedOn {
    pub open spec fn kind_of(self) -> StopPointKind {
        match self {
            ArmedOn::Line(_) => StopPointKind::Line,
            ArmedOn::Exception(_) => StopPointKind::Exception,
            ArmedOn::Watchpoint(_) => StopPointKind::Watchpoint,
            ArmedOn::MethodExit(_) => StopPointKind::MethodExit,
            ArmedOn::Monitor(_) => StopPointKind::Monitor,
        }
    }

    pub fn kind(&self) -> (r: StopPointKind)
        ensures
            r == self.kind_of(),
    {
        match self {
            ArmedOn::Line(_) => StopPointKind::Line,
            ArmedOn::Exception(_) => StopPointKind::Exception,
            ArmedOn::Watchpoint(_) => StopPointKind::Watchpoint,
            ArmedOn::MethodExit(_) => StopPointKind::MethodExit,
            ArmedOn::Monitor(_) => StopPointKind::Monitor,
        }
    }

    /// What the request in the debuggee is called.
    pub open spec fn request_name(self) -> Seq<char> {
        match self {
            ArmedOn::Line(_) => "breakpoint request"@,
            ArmedOn::Exception(_) => "exception request"@,
            ArmedOn::Watchpoint(_) => "field watch"@,
            ArmedOn::MethodExit(_) => "method-exit request"@,
            ArmedOn::Monitor(_) => "monitor request"@,
        }
    }

    /// What the request in the debuggee is called.
    pub fn wire_noun(&self) -> (r: &'static str)
        ensures
            r@ == self.request_name(),
    {
        match self {
            ArmedOn::Line(_) => "breakpoint request",
            ArmedOn::Exception(_) => "exception request",
            ArmedOn::Watchpoint(_) => "field watch",
            ArmedOn::MethodExit(_) => "method-exit request",
            ArmedOn::Monitor(_) => "monitor request",
        }
    }

    /// What it is armed on, in words that do not name it.
    pub open spec fn words(self) -> Seq<char> {
        match self {
            ArmedOn::Line(bp) => bp.class_pattern@ + ":"@ + text::dec(bp.line as nat),
            ArmedOn::Exception(er) => "exception "@ + er.class_pattern@,
            ArmedOn::Watchpoint(wp) => "watch "@ + wp.class_name@ + "."@ + wp.field_name@,
            ArmedOn::MethodExit(me) => "method-exit "@ + me.class_pattern@,
            ArmedOn::Monitor(mon) => "monitor "@ + mon.kind.word(),
        }
    }

    /// What it is armed on, in words that do not name it.
    pub fn describe(&self) -> (r: String)
        ensures
            r@ == self.words(),
    {
        match self {
            ArmedOn::Line(bp) => {
                let mut r = bp.class_pattern.clone();
                r.append(":");
                r.append(text::decimal(bp.line as u64).as_str());
                r
            },
            ArmedOn::Exception(er) => text::owned("exception ").concat(er.class_pattern.as_str()),
            ArmedOn::Watchpoint(wp) => {
                let mut r = text::owned("watch ");
                r.append(wp.class_name.as_str());
                r.append(".");
                r.append(wp.field_name.as_str());
                r
            },
            ArmedOn::MethodExit(me) => text::owned("method-exit ").concat(me.class_pattern.as_str()),
            ArmedOn::Monitor(mon) => text::owned("monitor ").concat(mon.kind.label()),
        }
    }
}

/// A stop point.
#[derive(Debug, Clone)]
pub struct StopPoint {
    /// The name a caller has for it.
    pub id: String,
    /// The requests that it holds in the debuggee. One source line can be several locations.
    pub request_ids: Vec<i32>,
    /// Whether the caller wants it armed.
    pub enabled: bool,
    /// Its hit count fired, and the debuggee deleted the request itself.
    pub spent: bool,
    pub hit_count: Option<i32>,
    pub hits: u32,
    pub condition: Option<String>,
    /// Whether a hit is recorded and let go rather than stopped at.
    pub trace: bool,
    pub trace_expr: Vec<String>,
    pub trace_budget: Option<u32>,
    pub trace_frames: usize,
    pub trace_max_length: Option<usize>,
    pub trace_cost: TraceCost,
    pub thread_filter: Option<u64>,
    pub instance_filter: Option<u64>,
    pub armed_on: ArmedOn,
}

/// What a listing says behind a stop point whose hit count fired.
pub const SPENT_SUFFIX: &'static str = " — SPENT (its hit_count fired, and the JVM deleted the request itself — nothing is armed. debug.toggle_stop_point re-arms it with the same count)";

/// What a listing says behind a stop point that the caller switched off.
pub const DISABLED_SUFFIX: &'static str = " — DISABLED (definition kept; toggle to re-arm)";

/// What clearing a stop point whose hit count fired adds.
pub const SPENT_CLEAR_NOTE: &'static str = " — it was already SPENT (its hit_count had fired and the JVM deleted the request), so nothing was sent to the debuggee; only the bookkeeping is gone";

impl StopPoint {
    pub fn kind(&self) -> (r: StopPointKind)
        ensures
            r == self.armed_on.kind_of(),
    {
        self.armed_on.kind()
    }

    /// Whether `req` is one of the requests that it holds.
    pub fn owns_request(&self, req: i32) -> (r: bool)
        ensures
            r == self.request_ids@.contains(req),
    {
        let mut i: usize = 0;
        while i < self.request_ids.len()
            invariant
                i <= self.request_ids@.len(),
                forall|k: int| 0 <= k < i ==> self.request_ids@[k] != req,
            decreases self.request_ids@.len() - i,
        {
            if self.request_ids[i] == req {
                return true;
            }
            i += 1;
        }
        false
    }

    /// Whether it holds any request at all.
    pub fn is_armed(&self) -> (r: bool)
        ensures
            r == (self.request_ids@.len() > 0),
    {
        self.request_ids.len() > 0
    }

    /// The mark of its state. That its hit count fired goes before what the caller wants.
    pub open spec fn mark(self) -> Seq<char> {
        if self.spent {
            "⏹"@
        } else if self.enabled {
            self.armed_on.kind_of().armed_mark()
        } else {
            "✗"@
        }
    }

    /// The mark of its state.
    pub fn glyph(&self) -> (r: &'static str)
        ensures
            r@ == self.mark(),
    {
        if self.spent {
            "⏹"
        } else if self.enabled {
            self.kind().armed_glyph()
        } else {
            "✗"
        }
    }

    /// What it is, by its id, for a caller who was away.
    pub open spec fn rescue_words(self) -> Seq<char> {
        match self.armed_on {
            ArmedOn::Line(bp) => "breakpoint "@ + self.id@ + " at "@ + bp.class_pattern@ + ":"@
                + text::dec(bp.line as nat),
            ArmedOn::Exception(er) => "exception breakpoint "@ + self.id@ + " ("@ + er.class_pattern@
                + ")"@,
            ArmedOn::Watchpoint(wp) => "watchpoint "@ + self.id@ + " ("@ + wp.class_name@ + "."@
                + wp.field_name@ + ")"@,
            ArmedOn::MethodExit(me) => "method-exit request "@ + self.id@ + " ("@ + me.class_pattern@
                + (match me.method {
                Some(m) => "."@ + m@,
                None => ".*"@,
            }) + ")"@,
            ArmedOn::Monitor(mon) => "monitor request "@ + self.id@ + " ("@ + mon.kind.word() + ")"@,
        }
    }

    /// What it is, by its id, for a caller who was away.
    pub fn describe_for_rescue(&self) -> (r: String)
        ensures
            r@ == self.rescue_words(),
    {
        match &self.armed_on {
            ArmedOn::Line(bp) => {
                let mut r = text::owned("breakpoint ");
                r.append(self.id.as_str());
                r.append(" at ");
                r.append(bp.class_pattern.as_str());
                r.append(":");
                r.append(text::decimal(bp.line as u64).as_str());
                r
            },
            ArmedOn::Exception(er) => {
                let mut r = text::owned("exception breakpoint ");
                r.append(self.id.as_str());
                r.append(" (");
                r.append(er.class_pattern.as_str());
                r.append(")");
                r
            },
            ArmedOn::Watchpoint(wp) => {
                let mut r = text::owned("watchpoint ");
                r.append(self.id.as_str());
                r.append(" (");
                r.append(wp.class_name.as_str());
                r.append(".");
                r.append(wp.field_name.as_str());
                r.append(")");
                r
            },
            ArmedOn::MethodExit(me) => {
                let mut r = text::owned("method-exit request ");
                r.append(self.id.as_str());
                r.append(" (");
                r.append(me.class_pattern.as_str());
                match &me.method {
                    Some(m) => {
                        let suffix = text::owned(".").concat(m.as_str());
                        r.append(suffix.as_str());
                    },
                    None => r.append(".*"),
                }
                r.append(")");
                r
            },
            ArmedOn::Monitor(mon) => {
                let mut r = text::owned("monitor request ");
                r.append(self.id.as_str());
                r.append(" (");
                r.append(mon.kind.label());
                r.append(")");
                r
            },
        }
    }

    /// What a listing says behind it: nothing while it is armed.
    pub open spec fn suffix(self) -> Seq<char> {
        if self.spent {
            SPENT_SUFFIX@
        } else if self.enabled {
            ""@
        } else {
            DISABLED_SUFFIX@
        }
    }

    /// What a listing says behind it.
    pub fn state_suffix(&self) -> (r: &'static str)
        ensures
            r@ == self.suffix(),
    {
        if self.spent {
            SPENT_SUFFIX
        } else if self.enabled {
            ""
        } else {
            DISABLED_SUFFIX
        }
    }

    /// What clearing it adds: that nothing was sent, where there was nothing left to clear.
    pub fn clear_note(&self) -> (r: &'static str)
        ensures
            r@ == (if self.spent {
                SPENT_CLEAR_NOTE@
            } else {
                ""@
            }),
    {
        if self.spent {
            SPENT_CLEAR_NOTE
        } else {
            ""
        }
    }

    pub fn line(&self) -> (r: Option<&LineBreakpoint>)
        ensures
            r == (match self.armed_on {
                ArmedOn::Line(l) => Some(&l),
                _ => None,
            }),
    {
        match &self.armed_on {
            ArmedOn::Line(l) => Some(l),
            _ => None,
        }
    }

    /// The line breakpoint, if it is one. What is written to it is written to the stop point, and
    /// nothing else of the stop point changes.
    pub fn line_mut(&mut self) -> (r: Option<&mut LineBreakpoint>)
        ensures
            match r {
                Some(l) => old(self).armed_on == ArmedOn::Line(*l) && *final(self) == (StopPoint {
                    armed_on: ArmedOn::Line(*final(l)),
                    ..*old(self)
                }),
                None => !(old(self).armed_on is Line) && *final(self) == *old(self),
            },
    {
        match &mut self.armed_on {
            ArmedOn::Line(l) => Some(l),
            _ => None,
        }
    }

    pub fn method_exit(&self) -> (r: Option<&MethodExitRequest>)
        ensures
            r == (match self.armed_on {
                ArmedOn::MethodExit(m) => Some(&m),
                _ => None,
            }),
    {
        match &self.armed_on {
            ArmedOn::MethodExit(m) => Some(m),
            _ => None,
        }
    }

    /// The method-exit request, if it is one. What is written to it is written to the stop point, and
    /// nothing else of the stop point changes.
    pub fn method_exit_mut(&mut self) -> (r: Option<&mut MethodExitRequest>)
        ensures
            match r {
                Some(m) => old(self).armed_on == ArmedOn::MethodExit(*m) && *final(self) == (
                StopPoint { armed_on: ArmedOn::MethodExit(*final(m)), ..*old(self) }),
                None => !(old(self).armed_on is MethodExit) && *final(self) == *old(self),
            },
    {
        match &mut self.armed_on {
            ArmedOn::MethodExit(m) => Some(m),
            _ => None,
        }
    }

    pub fn monitor(&self) -> (r: Option<&MonitorStop>)
        ensures
            r == (match self.armed_on {
                ArmedOn::Monitor(m) => Some(&m),
                _ => None,
            }),
    {
        match &self.armed_on {
            ArmedOn::Monitor(m) => Some(m),
            _ => None,
        }
    }
}

/// What a traced stop point has cost so far.
#[derive(Debug, Clone)]
pub struct TraceCost {
    pub captures: u64,
    /// The time spent capturing.
    pub total: Span,
    /// When the first capture started.
    pub first: Option<Moment>,
    /// When the newest capture started.
    pub last: Option<Moment>,
}

/// So many arrivals behind the first, over so much time.
#[derive(Debug, Clone, Copy, PartialEq, Eq, Structural)]
pub struct ArrivalRate {
    pub intervals: u64,
    pub window: Span,
}

/// The share of a window that captures take: `rate.intervals` times `mean` out of `rate.window`.
#[derive(Debug, Clone, Copy, PartialEq, Eq, Structural)]
pub struct CaptureShare {
    pub rate: ArrivalRate,
    pub mean: Span,
}

impl Default for TraceCost {
    fn default() -> (r: Self)
        ensures
            r.wf(),
            r.captures == 0,
            r.total.nanos == 0,
            r.first is None,
            r.last is None,
    {
        TraceCost { captures: 0, total: Span::zero(), first: None, last: None }
    }
}

impl TraceCost {
    pub open spec fn wf(self) -> bool {
        self.total.wf()
    }

    /// Adds one capture.
    pub fn record(&mut self, started: Moment, took: Span)
        requires
            old(self).wf(),
            took.wf(),
            old(self).captures < u64::MAX,
        ensures
            final(self).wf(),
            final(self).captures == old(self).captures + 1,
            final(self).total.nanos == (if old(self).total.nanos + took.nanos <= time::LONGEST_NANOS {
                old(self).total.nanos + took.nanos
            } else {
                time::LONGEST_NANOS as int
            }),
            final(self).first == (match old(self).first {
                Some(first) => Some(first),
                None => Some(started),
            }),
            final(self).last == Some(started),
    {
        self.captures += 1;
        self.total = self.total.saturating_add(took);
        if self.first.is_none() {
            self.first = Some(started);
        }
        self.last = Some(started);
    }

    /// The mean cost of a capture; none before the first one, which is not the same as no cost.
    pub open spec fn mean(self) -> Option<Span> {
        if self.captures == 0 {
            None
        } else {
            let n: int = if self.captures <= u32::MAX {
                self.captures as int
            } else {
                u32::MAX as int
            };
            Some(Span { nanos: (self.total.nanos as int / n) as u128 })
        }
    }

    /// The mean cost of a capture; none before the first one, which is not the same as no cost.
    pub fn mean_capture(&self) -> (r: Option<Span>)
        requires
            self.wf(),
        ensures
            r == self.mean(),
            r matches Some(mean) ==> mean.wf(),
            r is None <==> self.captures == 0,
            r matches Some(mean) ==> self.captures <= u32::MAX ==> mean.nanos * self.captures
                <= self.total.nanos < (mean.nanos + 1) * self.captures,
    {
        proof {
            if 1 <= self.captures <= u32::MAX {
                a_mean_shares_out_the_total(*self);
            }
        }
        if self.captures == 0 {
            return None;
        }
        let n: u128 = if self.captures <= u32::MAX as u64 {
            self.captures as u128
        } else {
            u32::MAX as u128
        };
        let nanos: u128 = self.total.nanos / n;
        assert(nanos <= self.total.nanos) by (nonlinear_arith)
            requires
                nanos == self.total.nanos / n,
                n >= 1,
        ;
        Some(Span { nanos })
    }

    /// How fast captures arrive: one arrival less than captures, over the time from the first to the
    /// newest. None while they span no time.
    pub open spec fn rate(self) -> Option<ArrivalRate> {
        match (self.first, self.last) {
            (Some(first), Some(last)) => if self.captures >= 2 && last.nanos_since(first) > 0 {
                Some(
                    ArrivalRate {
                        intervals: (self.captures - 1) as u64,
                        window: Span { nanos: last.nanos_since(first) as u128 },
                    },
                )
            } else {
                None
            },
            _ => None,
        }
    }

    /// How fast captures arrive. None while they span no time.
    pub fn observed_rate(&self) -> (r: Option<ArrivalRate>)
        ensures
            r == self.rate(),
            r is Some <==> self.captures >= 2 && self.first is Some && self.last is Some
                && self.first->0.nanos < self.last->0.nanos,
            r matches Some(rate) ==> rate.intervals + 1 == self.captures && self.first->0.nanos
                + rate.window.nanos == self.last->0.nanos,
    {
        match (self.first, self.last) {
            (Some(first), Some(last)) => {
                let window = last.since(first);
                if self.captures >= 2 && window.nanos > 0 {
                    Some(ArrivalRate { intervals: self.captures - 1, window })
                } else {
                    None
                }
            },
            _ => None,
        }
    }

    /// The share of the time that captures take. None while they span no time.
    pub fn capture_share(&self) -> (r: Option<CaptureShare>)
        requires
            self.wf(),
        ensures
            r == (match (self.rate(), self.mean()) {
                (Some(rate), Some(mean)) => Some(CaptureShare { rate, mean }),
                _ => None,
            }),
    {
        match (self.observed_rate(), self.mean_capture()) {
            (Some(rate), Some(mean)) => Some(CaptureShare { rate, mean }),
            _ => None,
        }
    }
}

// ---------------------------------------------------------------------------------------------
// Laws
// ---------------------------------------------------------------------------------------------
/// The listing order has every kind, at its rank, and has none twice.
pub proof fn listing_order_has_every_kind_once(kind: StopPointKind, i: int)
    requires
        0 <= i < 5,
    ensures
        StopPointKind::LISTING_ORDER@.len() == 5,
        0 <= kind.rank() < 5,
        StopPointKind::LISTING_ORDER@[i] == kind <==> i == kind.rank(),
{
}

/// No two kinds share a label or an armed mark, and no armed mark is the mark of a stop point that is
/// not armed.
pub proof fn kinds_read_differently(a: StopPointKind, b: StopPointKind)
    ensures
        a.name() == b.name() <==> a == b,
        a.armed_mark() == b.armed_mark() <==> a == b,
        a.armed_mark() != "⏹"@,
        a.armed_mark() != "✗"@,
{
    reveal_strlit("line breakpoint");
    reveal_strlit("exception stop point");
    reveal_strlit("field watchpoint");
    reveal_strlit("method-exit stop point");
    reveal_strlit("monitor stop point");
    reveal_strlit("✓");
    reveal_strlit("⚡");
    reveal_strlit("👁");
    reveal_strlit("↩");
    reveal_strlit("🔒");
    reveal_strlit("⏹");
    reveal_strlit("✗");
    assert("⏹"@[0] == '⏹' && "✗"@[0] == '✗');
    assert(a.armed_mark()[0] != '⏹' && a.armed_mark()[0] != '✗');
    assert(a.armed_mark()[0] == b.armed_mark()[0] ==> a == b);
    assert(a.name().len() == b.name().len() ==> a == b);
}

/// No two kinds report the same request.
pub proof fn kinds_name_their_own_request(a: ArmedOn, b: ArmedOn)
    ensures
        a.request_name() == b.request_name() <==> a.kind_of() == b.kind_of(),
{
    reveal_strlit("breakpoint request");
    reveal_strlit("exception request");
    reveal_strlit("field watch");
    reveal_strlit("method-exit request");
    reveal_strlit("monitor request");
    assert(a.request_name().len() == b.request_name().len() ==> a.kind_of() == b.kind_of());
}

/// A stop point whose hit count fired never reads as armed, whatever the caller wants of it: its mark
/// is no kind's armed mark, and a listing says that it is spent and not that it was switched off.
pub proof fn a_spent_stop_point_never_reads_as_armed(sp: StopPoint, kind: StopPointKind)
    requires
        sp.spent,
    ensures
        sp.mark() == "⏹"@,
        sp.mark() != kind.armed_mark(),
        sp.suffix() == SPENT_SUFFIX@,
{
    kinds_read_differently(kind, kind);
}

/// The mark and the words behind a stop point agree: it has its kind's armed mark exactly when a
/// listing has nothing to add, which is when the caller wants it armed and it is not spent. So the
/// state of a stop point reads the same on every kind.
pub proof fn the_state_reads_the_same_on_every_kind(sp: StopPoint)
    ensures
        sp.mark() == sp.armed_on.kind_of().armed_mark() <==> (sp.enabled && !sp.spent),
        sp.suffix() == ""@ <==> (sp.enabled && !sp.spent),
        sp.suffix() == SPENT_SUFFIX@ <==> sp.spent,
        sp.suffix() == DISABLED_SUFFIX@ <==> (!sp.enabled && !sp.spent),
{
    kinds_read_differently(sp.armed_on.kind_of(), sp.armed_on.kind_of());
    reveal_strlit("");
    reveal_strlit(" — SPENT (its hit_count fired, and the JVM deleted the request itself — nothing is armed. debug.toggle_stop_point re-arms it with the same count)");
    reveal_strlit(" — DISABLED (definition kept; toggle to re-arm)");
    assert(SPENT_SUFFIX@.len() != DISABLED_SUFFIX@.len());
    assert(SPENT_SUFFIX@.len() > 0 && DISABLED_SUFFIX@.len() > 0);
}

/// A caller who was away is told the id of a stop point of any kind.
pub proof fn a_rescue_names_the_id(sp: StopPoint)
    ensures
        text::holds(sp.rescue_words(), sp.id@),
{
    let id = sp.id@;
    match sp.armed_on {
        ArmedOn::Line(bp) => {
            let behind = " at "@ + bp.class_pattern@ + ":"@ + text::dec(bp.line as nat);
            text::holds_the_middle("breakpoint "@, id, behind);
            assert(sp.rescue_words() =~= "breakpoint "@ + id + behind);
        },
        ArmedOn::Exception(er) => {
            let behind = " ("@ + er.class_pattern@ + ")"@;
            text::holds_the_middle("exception breakpoint "@, id, behind);
            assert(sp.rescue_words() =~= "exception breakpoint "@ + id + behind);
        },
        ArmedOn::Watchpoint(wp) => {
            let behind = " ("@ + wp.class_name@ + "."@ + wp.field_name@ + ")"@;
            text::holds_the_middle("watchpoint "@, id, behind);
            assert(sp.rescue_words() =~= "watchpoint "@ + id + behind);
        },
        ArmedOn::MethodExit(me) => {
            let method = match me.method {
                Some(m) => "."@ + m@,
                None => ".*"@,
            };
            let behind = " ("@ + me.class_pattern@ + method + ")"@;
            text::holds_the_middle("method-exit request "@, id, behind);
            assert(sp.rescue_words() =~= "method-exit request "@ + id + behind);
        },
        ArmedOn::Monitor(mon) => {
            let behind = " ("@ + mon.kind.word() + ")"@;
            text::holds_the_middle("monitor request "@, id, behind);
            assert(sp.rescue_words() =~= "monitor request "@ + id + behind);
        },
    }
}

/// The mean of a capture times their number is the total, but for what is left over, which is less than
/// one nanosecond for each.
pub proof fn a_mean_shares_out_the_total(cost: TraceCost)
    requires
        1 <= cost.captures <= u32::MAX,
    ensures
        cost.mean() is Some,
        cost.mean()->0.nanos * cost.captures <= cost.total.nanos,
        cost.total.nanos < (cost.mean()->0.nanos + 1) * cost.captures,
{
    let total = cost.total.nanos as int;
    let n = cost.captures as int;
    let m = total / n;
    assert(0 <= m <= total && m * n <= total < (m + 1) * n) by (nonlinear_arith)
        requires
            m == total / n,
            n >= 1,
            total >= 0,
    ;
}

/// Captures that each took as long have that as their mean.
pub proof fn captures_that_took_as_long_have_that_mean(cost: TraceCost, each: nat)
    requires
        1 <= cost.captures <= u32::MAX,
        cost.total.nanos == cost.captures * each,
    ensures
        cost.mean() is Some,
        cost.mean()->0.nanos == each,
{
    a_mean_shares_out_the_total(cost);
    let m = cost.mean()->0.nanos as int;
    let n = cost.captures as int;
    assert(m == each) by (nonlinear_arith)
        requires
            m * n <= n * each,
            n * each < (m + 1) * n,
            n >= 1,
    ;
}

/// Captures arrive one less often than there are of them, over the time from the first to the newest. There
/// is no telling before the second, nor while no time has passed.
pub proof fn arrivals_are_counted_between_captures(cost: TraceCost, first: Moment, last: Moment)
    requires
        cost.first == Some(first),
        cost.last == Some(last),
    ensures
        cost.rate() is Some <==> cost.captures >= 2 && first.nanos < last.nanos,
        cost.rate() matches Some(rate) ==> rate.intervals + 1 == cost.captures && first.nanos
            + rate.window.nanos == last.nanos,
{
}

/// A caller who was away is told where a stop point is: the class and the line, the exception, the field, the
/// method, or the event of a monitor.
pub proof fn a_rescue_names_the_place(sp: StopPoint)
    ensures
        match sp.armed_on {
            ArmedOn::Line(bp) => text::holds(sp.rescue_words(), bp.class_pattern@) && text::holds(
                sp.rescue_words(),
                ":"@ + text::dec(bp.line as nat),
            ),
            ArmedOn::Exception(er) => text::holds(sp.rescue_words(), er.class_pattern@),
            ArmedOn::Watchpoint(wp) => text::holds(
                sp.rescue_words(),
                wp.class_name@ + "."@ + wp.field_name@,
            ),
            ArmedOn::MethodExit(me) => text::holds(
                sp.rescue_words(),
                me.class_pattern@ + (match me.method {
                    Some(m) => "."@ + m@,
                    None => ".*"@,
                }),
            ),
            ArmedOn::Monitor(mon) => text::holds(
                sp.rescue_words(),
                match mon.kind {
                    MonitorKind::Blocked => "blocked"@,
                    MonitorKind::Acquired => "acquired"@,
                    MonitorKind::Wait => "wait"@,
                    MonitorKind::Waited => "waited"@,
                },
            ),
        },
{
    let id = sp.id@;
    let words = sp.rescue_words();
    match sp.armed_on {
        ArmedOn::Line(bp) => {
            let line = ":"@ + text::dec(bp.line as nat);
            let head = "breakpoint "@ + id + " at "@;
            text::holds_the_middle(head, bp.class_pattern@, line);
            assert(words =~= head + bp.class_pattern@ + line);
            text::holds_the_middle(head + bp.class_pattern@, line, Seq::empty());
            assert(words =~= head + bp.class_pattern@ + line + Seq::<char>::empty());
        },
        ArmedOn::Exception(er) => {
            let head = "exception breakpoint "@ + id + " ("@;
            text::holds_the_middle(head, er.class_pattern@, ")"@);
        },
        ArmedOn::Watchpoint(wp) => {
            let head = "watchpoint "@ + id + " ("@;
            let place = wp.class_name@ + "."@ + wp.field_name@;
            text::holds_the_middle(head, place, ")"@);
            assert(words =~= head + place + ")"@);
        },
        ArmedOn::MethodExit(me) => {
            let head = "method-exit request "@ + id + " ("@;
            let place = me.class_pattern@ + (match me.method {
                Some(m) => "."@ + m@,
                None => ".*"@,
            });
            text::holds_the_middle(head, place, ")"@);
            assert(words =~= head + place + ")"@);
        },
        ArmedOn::Monitor(mon) => {
            let head = "monitor request "@ + id + " ("@;
            text::holds_the_middle(head, mon.kind.word(), ")"@);
        },
    }
}

/// A line stop is told by its class and its line.
pub proof fn a_line_is_told_by_its_class_and_number(bp: LineBreakpoint)
    ensures
        text::holds(ArmedOn::Line(bp).words(), bp.class_pattern@),
        text::holds(ArmedOn::Line(bp).words(), ":"@ + text::dec(bp.line as nat)),
{
    let line = ":"@ + text::dec(bp.line as nat);
    let words = ArmedOn::Line(bp).words();
    assert(words =~= bp.class_pattern@ + line);
    text::holds_each_of_two(bp.class_pattern@, line);
}

/// A field stop is told by its class and its field.
pub proof fn a_field_is_told_by_its_class_and_name(wp: Watchpoint)
    ensures
        text::holds(ArmedOn::Watchpoint(wp).words(), wp.class_name@ + "."@ + wp.field_name@),
{
    let place = wp.class_name@ + "."@ + wp.field_name@;
    let words = ArmedOn::Watchpoint(wp).words();
    assert(words =~= "watch "@ + place);
    text::holds_each_of_two("watch "@, place);
}

/// An exception stop and a method-exit stop are told by their classes, and a monitor stop by its event.
pub proof fn any_other_is_told_by_its_class_or_event(
    er: ExceptionBreakpoint,
    me: MethodExitRequest,
    mon: MonitorStop,
)
    ensures
        text::holds(ArmedOn::Exception(er).words(), er.class_pattern@),
        text::holds(ArmedOn::MethodExit(me).words(), me.class_pattern@),
        text::holds(ArmedOn::Monitor(mon).words(), mon.kind.word()),
{
    text::holds_each_of_two("exception "@, er.class_pattern@);
    text::holds_each_of_two("method-exit "@, me.class_pattern@);
    text::holds_each_of_two("monitor "@, mon.kind.word());
}

} // verus!
