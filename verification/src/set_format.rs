//! What a stop-point set says: the calls that would arm a session's stop points again, how they are
//! written down as JSON, and what of a JSON value can be read back as such calls.

use crate::jdwp;
use crate::json;
use crate::json::{Entries, Json, JsonView};
use crate::session;
use crate::session::{PatternStopSet, PendingBreakpoint};
use crate::stop_point;
use crate::stop_point::{StopPoint, StopPointKind};
use crate::text;
use vstd::prelude::*;

verus! {

/// The key that marks a JSON object as a stop-point set, with the version of the format beside it.
pub const FORMAT_KEY: &'static str = "jdwp_mcp_stop_point_set";

/// The version of the format that is written and read.
pub const FORMAT_VERSION: u64 = 1;

/// The tools that a set may name. Each arms a stop point and does nothing else.
pub const ARMABLE_TOOLS: [&'static str; 5] = [
    "debug.set_line_stop",
    "debug.set_exception_stop",
    "debug.set_field_stop",
    "debug.set_method_exit_stop",
    "debug.set_monitor_stop",
];

/// One call that would arm a stop point.
pub struct CallView {
    pub tool: Seq<char>,
    /// The stop point it stands for; several, where one call arms several.
    pub from: Seq<char>,
    pub enabled: bool,
    /// Whether a hit is recorded and let go rather than stopped at.
    pub trace: bool,
    pub args: Entries,
}

/// What has been written down so far, and what could not be.
pub struct BuildView {
    pub calls: Seq<CallView>,
    /// Stop points whose instance filter was left out.
    pub instance: Seq<Seq<char>>,
    /// Stop points whose thread filter was left out.
    pub thread: Seq<Seq<char>>,
    /// Stop points that no call describes.
    pub undescribable: Seq<Seq<char>>,
}

// ---------------------------------------------------------------------------------------------
// The order of ids
// ---------------------------------------------------------------------------------------------
/// An id as its prefix up to the last underscore and the number behind it; the greatest number where
/// there is none.
pub open spec fn id_key(id: Seq<char>) -> (Seq<char>, u64) {
    let cut = text::cut_behind(id, '_');
    (
        id.take(cut),
        match text::unsigned(id.skip(cut), 10) {
            Some(n) => n,
            None => u64::MAX,
        },
    )
}

/// `a` may stand before `b`: by prefix, then by number, then by text, so that no two ids are of equal
/// order.
pub open spec fn in_order(a: Seq<char>, b: Seq<char>) -> bool {
    let (p, m) = id_key(a);
    let (q, n) = id_key(b);
    text::before(p, q) || (p == q && (m < n || (m == n && (a == b || text::before(a, b)))))
}

/// The ids of a domain, each once, in order.
pub open spec fn lists(ids: Seq<Seq<char>>, domain: Set<Seq<char>>) -> bool {
    &&& ids.no_duplicates()
    &&& forall|id: Seq<char>| #[trigger] ids.contains(id) <==> domain.contains(id)
    &&& forall|i: int, j: int|
        0 <= i < j < ids.len() ==> in_order(#[trigger] ids[i], #[trigger] ids[j])
}

/// The ids of rows of a map.
pub open spec fn ids_of<V>(rows: Seq<(&String, &V)>) -> Seq<Seq<char>> {
    rows.map_values(|row: (&String, &V)| row.0@)
}

/// The rows of a map whose ids are in `domain`: each once, in order, with what the map holds at it.
pub open spec fn rows_of<V>(
    rows: Seq<(&String, &V)>,
    map: Map<Seq<char>, V>,
    domain: Set<Seq<char>>,
) -> bool {
    &&& lists(ids_of(rows), domain)
    &&& forall|i: int| 0 <= i < rows.len() ==> *(#[trigger] rows[i]).1 == map[rows[i].0@]
}

// ---------------------------------------------------------------------------------------------
// Calls
// ---------------------------------------------------------------------------------------------
/// `args` with `key` bound to `value`, if there is one.
pub open spec fn with(args: Entries, key: Seq<char>, value: Option<JsonView>) -> Entries {
    match value {
        Some(v) => json::put(args, key, v),
        None => args,
    }
}

pub open spec fn int_value(n: Option<i32>) -> Option<JsonView> {
    match n {
        Some(n) => Some(Json::integer_view(n as int)),
        None => None,
    }
}

pub open spec fn text_value(s: Option<Seq<char>>) -> Option<JsonView> {
    match s {
        Some(s) => Some(JsonView::Text(s)),
        None => None,
    }
}

pub open spec fn texts_value(parts: Seq<Seq<char>>) -> Option<JsonView> {
    if parts.len() == 0 {
        None
    } else {
        Some(json::texts_view(parts))
    }
}

pub open spec fn seen(s: Option<String>) -> Option<Seq<char>> {
    match s {
        Some(s) => Some(s@),
        None => None,
    }
}

/// What every kind of stop point can be told.
pub struct Common {
    pub hit_count: Option<i32>,
    pub condition: Option<Seq<char>>,
    pub trace: bool,
    pub trace_expr: Seq<Seq<char>>,
    /// The budget that is left.
    pub trace_budget: Option<u32>,
    pub trace_frames: usize,
    pub trace_max_length: Option<usize>,
}

/// `args` with what every kind can be told: what is not set is left out.
pub open spec fn common_args(args: Entries, c: Common) -> Entries {
    let args = json::put(args, "trace"@, JsonView::Bool(c.trace));
    let args = json::put(args, "trace_frames"@, JsonView::Unsigned(c.trace_frames as u64));
    let args = with(args, "hit_count"@, int_value(c.hit_count));
    let args = with(args, "condition"@, text_value(c.condition));
    let args = with(args, "trace_expr"@, texts_value(c.trace_expr));
    let args = with(
        args,
        "trace_max_hits"@,
        match c.trace_budget {
            Some(n) => Some(JsonView::Unsigned(n as u64)),
            None => None,
        },
    );
    with(
        args,
        "trace_max_length"@,
        match c.trace_max_length {
            Some(n) => Some(JsonView::Unsigned(n as u64)),
            None => None,
        },
    )
}

pub open spec fn stop_point_common(sp: StopPoint) -> Common {
    Common {
        hit_count: sp.hit_count,
        condition: seen(sp.condition),
        trace: sp.trace,
        trace_expr: text::views(sp.trace_expr@),
        trace_budget: sp.trace_budget,
        trace_frames: sp.trace_frames,
        trace_max_length: sp.trace_max_length,
    }
}

pub open spec fn family_common(fam: PatternStopSet) -> Common {
    Common {
        hit_count: fam.hit_count,
        condition: seen(fam.condition),
        trace: fam.trace,
        trace_expr: text::views(fam.trace_expr@),
        trace_budget: fam.trace_budget,
        trace_frames: fam.trace_frames,
        trace_max_length: fam.trace_max_length,
    }
}

pub open spec fn pending_common(pb: PendingBreakpoint) -> Common {
    Common {
        hit_count: pb.hit_count,
        condition: seen(pb.condition),
        trace: pb.trace,
        trace_expr: text::views(pb.trace_expr@),
        trace_budget: pb.trace_budget,
        trace_frames: pb.trace_frames,
        trace_max_length: pb.trace_max_length,
    }
}

/// Where a line stop is: a class pattern, and a line or a method or both.
pub open spec fn line_args(
    class_pattern: Seq<char>,
    line: Option<i32>,
    method: Option<Seq<char>>,
) -> Entries {
    let args = json::put(Seq::empty(), "class_pattern"@, JsonView::Text(class_pattern));
    let args = with(args, "line"@, int_value(line));
    with(args, "method"@, text_value(method))
}

/// The call that arms a stop point, and where it is; nothing where there is no place left to name.
/// Monitor stops are armed together, see [`with_monitors`].
pub open spec fn locator(sp: StopPoint) -> Option<(Seq<char>, Entries)> {
    match sp.armed_on {
        stop_point::ArmedOn::Line(bp) => if bp.arm_line is None && bp.arm_method is None {
            None
        } else {
            Some(
                (
                    "debug.set_line_stop"@,
                    line_args(bp.class_pattern@, bp.arm_line, seen(bp.arm_method)),
                ),
            )
        },
        stop_point::ArmedOn::Exception(er) => {
            // No pattern is every exception, which is told by leaving it out.
            let args = with(
                Seq::empty(),
                "class_pattern"@,
                if er.class_pattern@.len() == 0 {
                    None
                } else {
                    Some(JsonView::Text(er.class_pattern@))
                },
            );
            let args = json::put(args, "caught"@, JsonView::Bool(er.caught));
            let args = json::put(args, "uncaught"@, JsonView::Bool(er.uncaught));
            Some(("debug.set_exception_stop"@, args))
        },
        stop_point::ArmedOn::Watchpoint(wp) => {
            let args = json::put(Seq::empty(), "class_name"@, JsonView::Text(wp.class_name@));
            let args = json::put(args, "field_name"@, JsonView::Text(wp.field_name@));
            let args = json::put(args, "modify"@, JsonView::Bool(wp.kind == jdwp::WatchKind::Modify));
            let args = json::put(args, "access"@, JsonView::Bool(wp.kind == jdwp::WatchKind::Access));
            Some(("debug.set_field_stop"@, args))
        },
        stop_point::ArmedOn::MethodExit(me) => {
            let args = json::put(Seq::empty(), "class_pattern"@, JsonView::Text(me.class_pattern@));
            let args = with(args, "method"@, text_value(seen(me.method)));
            let args = with(
                args,
                "exclude_classes"@,
                texts_value(text::views(me.exclude_classes@)),
            );
            Some(("debug.set_method_exit_stop"@, args))
        },
        stop_point::ArmedOn::Monitor(_) => None,
    }
}

// ---------------------------------------------------------------------------------------------
// Writing a session down
// ---------------------------------------------------------------------------------------------
/// Nothing written down yet.
pub open spec fn nothing() -> BuildView {
    BuildView {
        calls: Seq::empty(),
        instance: Seq::empty(),
        thread: Seq::empty(),
        undescribable: Seq::empty(),
    }
}

/// Filters hold numbers that mean something in one JVM only. They are left out, and that is noted.
pub open spec fn without_filters(
    b: BuildView,
    id: Seq<char>,
    instance: Option<u64>,
    thread: Option<u64>,
) -> BuildView {
    BuildView {
        instance: if instance is Some {
            b.instance.push(id)
        } else {
            b.instance
        },
        thread: if thread is Some {
            b.thread.push(id)
        } else {
            b.thread
        },
        ..b
    }
}

pub open spec fn with_call(b: BuildView, call: CallView) -> BuildView {
    BuildView { calls: b.calls.push(call), ..b }
}

pub open spec fn with_undescribable(b: BuildView, id: Seq<char>) -> BuildView {
    BuildView { undescribable: b.undescribable.push(id), ..b }
}

/// A stop point written down. One that belongs to a family is armed by the family's call, and one that
/// watches a monitor by a call for several.
pub open spec fn with_stop_point(b: BuildView, sp: StopPoint, members: Set<Seq<char>>) -> BuildView {
    let kind = sp.armed_on.kind_of();
    if kind == StopPointKind::Monitor || (kind == StopPointKind::Line && members.contains(sp.id@)) {
        b
    } else {
        match locator(sp) {
            None => with_undescribable(b, sp.id@),
            Some((tool, args)) => with_call(
                without_filters(b, sp.id@, sp.instance_filter, sp.thread_filter),
                CallView {
                    tool,
                    from: sp.id@,
                    enabled: sp.enabled && !sp.spent,
                    trace: sp.trace,
                    args: common_args(args, stop_point_common(sp)),
                },
            ),
        }
    }
}

/// Stop points written down one after the other.
pub open spec fn with_stop_points(
    b: BuildView,
    ids: Seq<Seq<char>>,
    all: Map<Seq<char>, StopPoint>,
    members: Set<Seq<char>>,
) -> BuildView
    decreases ids.len(),
{
    if ids.len() == 0 {
        b
    } else {
        with_stop_point(
            with_stop_points(b, ids.drop_last(), all, members),
            all[ids.last()],
            members,
        )
    }
}

/// The line that a family asks for: the one that its first member that is still there was armed with.
pub open spec fn family_line(members: Seq<Seq<char>>, all: Map<Seq<char>, StopPoint>) -> Option<i32>
    decreases members.len(),
{
    if members.len() == 0 {
        None
    } else if all.dom().contains(members[0]) {
        match all[members[0]].armed_on {
            stop_point::ArmedOn::Line(bp) => bp.arm_line,
            _ => None,
        }
    } else {
        family_line(members.drop_first(), all)
    }
}

/// A family written down as the one call that arms all of it.
pub open spec fn with_family(
    b: BuildView,
    id: Seq<char>,
    fam: PatternStopSet,
    all: Map<Seq<char>, StopPoint>,
) -> BuildView {
    let line = family_line(text::views(fam.members@), all);
    if line is None && fam.method is None {
        with_undescribable(b, id)
    } else {
        let args = line_args(fam.class_pattern@, line, seen(fam.method));
        let args = json::put(args, "max_classes"@, JsonView::Unsigned(fam.max_classes as u64));
        with_call(
            without_filters(b, id, fam.instance_filter, fam.thread_filter),
            CallView {
                tool: "debug.set_line_stop"@,
                from: id,
                enabled: fam.enabled,
                trace: fam.trace,
                args: common_args(args, family_common(fam)),
            },
        )
    }
}

/// Families written down one after the other.
pub open spec fn with_families(
    b: BuildView,
    ids: Seq<Seq<char>>,
    families: Map<Seq<char>, PatternStopSet>,
    all: Map<Seq<char>, StopPoint>,
) -> BuildView
    decreases ids.len(),
{
    if ids.len() == 0 {
        b
    } else {
        with_family(
            with_families(b, ids.drop_last(), families, all),
            ids.last(),
            families[ids.last()],
            all,
        )
    }
}

/// The breakpoints that belong to a family.
pub open spec fn family_members(families: Map<Seq<char>, PatternStopSet>) -> Set<Seq<char>> {
    Set::new(
        |id: Seq<char>|
            exists|f: Seq<char>| #[trigger]
                families.dom().contains(f) && text::views(families[f].members@).contains(id),
    )
}

/// A deferral written down as the line stop it is: whether its class is loaded is for the next JVM to
/// say.
pub open spec fn with_pending(b: BuildView, pb: PendingBreakpoint) -> BuildView {
    with_call(
        without_filters(b, pb.bp_id@, pb.instance_filter, pb.thread_filter),
        CallView {
            tool: "debug.set_line_stop"@,
            from: pb.bp_id@,
            enabled: true,
            trace: pb.trace,
            args: common_args(
                line_args(pb.class_pattern@, pb.line, seen(pb.method)),
                pending_common(pb),
            ),
        },
    )
}

/// Deferrals written down one after the other.
pub open spec fn with_all_pending(b: BuildView, pending: Seq<PendingBreakpoint>) -> BuildView
    decreases pending.len(),
{
    if pending.len() == 0 {
        b
    } else {
        with_pending(with_all_pending(b, pending.drop_last()), pending.last())
    }
}

/// What two monitor stops have to agree in to be armed by one call.
pub open spec fn same_settings(a: StopPoint, b: StopPoint) -> bool {
    match (a.armed_on, b.armed_on) {
        (stop_point::ArmedOn::Monitor(m), stop_point::ArmedOn::Monitor(n)) => {
            &&& a.thread_filter == b.thread_filter
            &&& seen(m.monitor_class) == seen(n.monitor_class)
            &&& m.min_duration_ms == n.min_duration_ms
            &&& a.trace == b.trace
            &&& a.hit_count == b.hit_count
            &&& a.trace_frames == b.trace_frames
            &&& a.trace_max_length == b.trace_max_length
            &&& text::views(a.trace_expr@) == text::views(b.trace_expr@)
        },
        _ => false,
    }
}

/// The first group that `sp` agrees with; the number of groups where it agrees with none.
pub open spec fn group_of(groups: Seq<Seq<StopPoint>>, sp: StopPoint) -> int
    decreases groups.len(),
{
    if groups.len() == 0 || same_settings(groups[0][0], sp) {
        0
    } else {
        1 + group_of(groups.drop_first(), sp)
    }
}

/// `sp` put to the first group that it agrees with, or into one of its own.
pub open spec fn grouped_with(groups: Seq<Seq<StopPoint>>, sp: StopPoint) -> Seq<Seq<StopPoint>> {
    let at = group_of(groups, sp);
    if at < groups.len() {
        groups.update(at, groups[at].push(sp))
    } else {
        groups.push(seq![sp])
    }
}

/// Monitor stops in groups that agree.
pub open spec fn grouped(ids: Seq<Seq<char>>, all: Map<Seq<char>, StopPoint>) -> Seq<Seq<StopPoint>>
    decreases ids.len(),
{
    if ids.len() == 0 {
        Seq::empty()
    } else {
        grouped_with(grouped(ids.drop_last(), all), all[ids.last()])
    }
}

/// The thread filters of monitor stops are left out, under the id of each.
pub open spec fn without_monitor_filters(
    b: BuildView,
    ids: Seq<Seq<char>>,
    all: Map<Seq<char>, StopPoint>,
) -> BuildView
    decreases ids.len(),
{
    if ids.len() == 0 {
        b
    } else {
        without_filters(
            without_monitor_filters(b, ids.drop_last(), all),
            ids.last(),
            None,
            all[ids.last()].thread_filter,
        )
    }
}

pub open spec fn kind_words(group: Seq<StopPoint>) -> Seq<Seq<char>> {
    group.map_values(
        |sp: StopPoint|
            match sp.armed_on {
                stop_point::ArmedOn::Monitor(m) => m.kind.word(),
                _ => Seq::empty(),
            },
    )
}

pub open spec fn group_ids(group: Seq<StopPoint>) -> Seq<Seq<char>> {
    group.map_values(|sp: StopPoint| sp.id@)
}

/// The one call that arms a group of monitor stops. It is enabled where all of them are.
pub open spec fn group_call(group: Seq<StopPoint>) -> CallView {
    let first = group[0];
    let monitor = match first.armed_on {
        stop_point::ArmedOn::Monitor(m) => (seen(m.monitor_class), m.min_duration_ms),
        _ => (None, None),
    };
    let args = json::put(Seq::empty(), "kinds"@, json::texts_view(kind_words(group)));
    let args = with(args, "monitor_class"@, text_value(monitor.0));
    let args = with(
        args,
        "min_duration_ms"@,
        match monitor.1 {
            Some(n) => Some(JsonView::Unsigned(n)),
            None => None,
        },
    );
    CallView {
        tool: "debug.set_monitor_stop"@,
        from: text::joined(group_ids(group), "+"@),
        enabled: forall|i: int|
            0 <= i < group.len() ==> (#[trigger] group[i]).enabled && !group[i].spent,
        trace: first.trace,
        args: common_args(args, Common { condition: None, ..stop_point_common(first) }),
    }
}

/// Groups of monitor stops written down one after the other.
pub open spec fn with_groups(b: BuildView, groups: Seq<Seq<StopPoint>>) -> BuildView
    decreases groups.len(),
{
    if groups.len() == 0 {
        b
    } else {
        with_call(with_groups(b, groups.drop_last()), group_call(groups.last()))
    }
}

/// Monitor stops written down: those that agree in every setting as one call for all their kinds, since
/// a duration can only be asked for where both events of a pair are armed together.
pub open spec fn with_monitors(
    b: BuildView,
    ids: Seq<Seq<char>>,
    all: Map<Seq<char>, StopPoint>,
) -> BuildView {
    with_groups(without_monitor_filters(b, ids, all), grouped(ids, all))
}

/// The orders in which the parts of a session are written down.
pub struct Listing {
    pub families: Seq<Seq<char>>,
    pub lines: Seq<Seq<char>>,
    pub exceptions: Seq<Seq<char>>,
    pub watchpoints: Seq<Seq<char>>,
    pub method_exits: Seq<Seq<char>>,
    pub monitors: Seq<Seq<char>>,
}

/// The ids of the stop points of a kind.
pub open spec fn of_kind(all: Map<Seq<char>, StopPoint>, kind: StopPointKind) -> Set<Seq<char>> {
    Set::new(|id: Seq<char>| all.dom().contains(id) && all[id].armed_on.kind_of() == kind)
}

/// Every family and every stop point is listed, those of a kind in the order of their ids.
pub open spec fn is_listing<E>(l: Listing, s: session::DebugSession<E>) -> bool {
    let all = s.state.stop_points@;
    &&& lists(l.families, s.pattern_sets@.dom())
    &&& lists(l.lines, of_kind(all, StopPointKind::Line))
    &&& lists(l.exceptions, of_kind(all, StopPointKind::Exception))
    &&& lists(l.watchpoints, of_kind(all, StopPointKind::Watchpoint))
    &&& lists(l.method_exits, of_kind(all, StopPointKind::MethodExit))
    &&& lists(l.monitors, of_kind(all, StopPointKind::Monitor))
}

/// A session written down: its families, then its stop points by kind in listing order, with the
/// deferrals behind the line stops that they will be.
pub open spec fn written<E>(s: session::DebugSession<E>, l: Listing) -> BuildView {
    let all = s.state.stop_points@;
    let members = family_members(s.pattern_sets@);
    let b = with_families(nothing(), l.families, s.pattern_sets@, all);
    let b = with_stop_points(b, l.lines, all, members);
    let b = with_all_pending(b, s.state.pending_breakpoints@);
    let b = with_stop_points(b, l.exceptions, all, members);
    let b = with_stop_points(b, l.watchpoints, all, members);
    let b = with_stop_points(b, l.method_exits, all, members);
    with_monitors(b, l.monitors, all)
}

/// A call as an entry of a set.
pub open spec fn entry_view(call: CallView) -> JsonView {
    let e = json::put(Seq::empty(), "tool"@, JsonView::Text(call.tool));
    let e = json::put(e, "from"@, JsonView::Text(call.from));
    let e = json::put(e, "enabled"@, JsonView::Bool(call.enabled));
    JsonView::Object(json::put(e, "args"@, JsonView::Object(call.args)))
}

pub open spec fn entry_views(calls: Seq<CallView>) -> Seq<JsonView> {
    calls.map_values(|c: CallView| entry_view(c))
}

/// Calls as a set.
pub open spec fn set_view(calls: Seq<CallView>) -> JsonView {
    let set = json::put(Seq::empty(), FORMAT_KEY@, JsonView::Unsigned(FORMAT_VERSION));
    JsonView::Object(json::put(set, "entries"@, JsonView::Array(entry_views(calls))))
}

/// How many calls arm nothing until they are enabled.
pub open spec fn disabled_calls(calls: Seq<CallView>) -> nat
    decreases calls.len(),
{
    if calls.len() == 0 {
        0
    } else {
        disabled_calls(calls.drop_last()) + if calls.last().enabled {
            0nat
        } else {
            1
        }
    }
}

/// How many calls arm something that stops the debuggee.
pub open spec fn suspending_calls(calls: Seq<CallView>) -> nat
    decreases calls.len(),
{
    if calls.len() == 0 {
        0
    } else {
        suspending_calls(calls.drop_last()) + if calls.last().trace {
            0nat
        } else {
            1
        }
    }
}

// ---------------------------------------------------------------------------------------------
// Reading a set back
// ---------------------------------------------------------------------------------------------
/// One entry read back.
pub struct EntryView {
    pub tool: Seq<char>,
    pub enabled: bool,
    pub args: JsonView,
}

pub const EMPTY_ARGUMENT: &'static str = "The `set` argument is empty. Pass the block that debug.list_stop_points {export: true} returned.";

pub const NOT_JSON_HEAD: &'static str = "The `set` argument is not JSON (";

pub const NOT_JSON_TAIL: &'static str = "). Pass the block that debug.list_stop_points {export: true} returned, not the rendered listing.";

pub const NOT_AN_OBJECT_HEAD: &'static str = "A stop-point set is a JSON object with a `jdwp_mcp_stop_point_set` key. This is a ";

pub const NO_KEY_HEAD: &'static str = "This JSON has no `jdwp_mcp_stop_point_set` key, so it is not a stop-point set. Keys present: ";

pub const NO_KEY_TAIL: &'static str = ". Export one with debug.list_stop_points {export: true}.";

pub const NEWER_HEAD: &'static str = "This set is format version ";

pub const NEWER_TAIL: &'static str = " and this server reads version 1. It was exported by a NEWER build, so re-arming it here could arm something other than what it describes. Export a fresh set from this build.";

pub const BAD_VERSION_HEAD: &'static str = "`jdwp_mcp_stop_point_set` should be the format version as a number; it is ";

pub const NO_ENTRIES: &'static str = "A stop-point set needs an `entries` array.";

pub const NO_ENTRY: &'static str = "This set has no entries, so there is nothing to arm. That is what an export of a session with no stop points looks like.";

pub const NOT_ARMABLE_MIDDLE: &'static str = "`, which debug.arm_stop_points will not call. A set may only arm stop points, and the tools it may name are: ";

pub const NOT_ARMABLE_TAIL: &'static str = ". This is a whitelist rather than a check on this one name — without it, a set would be a way to invoke anything in this server from a blob of JSON.";

/// The names of the tools that a set may name.
pub open spec fn armable() -> Seq<Seq<char>> {
    seq![
        "debug.set_line_stop"@,
        "debug.set_exception_stop"@,
        "debug.set_field_stop"@,
        "debug.set_method_exit_stop"@,
        "debug.set_monitor_stop"@,
    ]
}

/// What a JSON value is called.
pub open spec fn noun(v: JsonView) -> Seq<char> {
    match v {
        JsonView::Null => "null"@,
        JsonView::Bool(_) => "boolean"@,
        JsonView::Unsigned(_) => "number"@,
        JsonView::Negative(_) => "number"@,
        JsonView::Other(_) => "number"@,
        JsonView::Text(_) => "string"@,
        JsonView::Array(_) => "array"@,
        JsonView::Object(_) => "object"@,
    }
}

pub open spec fn entry_name(i: int) -> Seq<char> {
    "entries["@ + text::dec(i as nat) + "]"@
}

/// The `i`-th entry read back, or why it is none.
pub open spec fn read_entry(i: int, raw: JsonView) -> Result<EntryView, Seq<char>> {
    match raw {
        JsonView::Object(entry) => match json::lookup(entry, "tool"@) {
            Some(JsonView::Text(tool)) => if !armable().contains(tool) {
                Err(
                    entry_name(i) + " names `"@ + tool + NOT_ARMABLE_MIDDLE@ + text::joined(
                        armable(),
                        ", "@,
                    ) + NOT_ARMABLE_TAIL@,
                )
            } else {
                let args = match json::lookup(entry, "args"@) {
                    Some(args) => args,
                    None => JsonView::Object(Seq::empty()),
                };
                if !(args is Object) {
                    Err(entry_name(i) + "'s `args` is not an object."@)
                } else {
                    Ok(
                        EntryView {
                            tool,
                            // Nothing said is enabled: only the other state has to be.
                            enabled: match json::lookup(entry, "enabled"@) {
                                Some(JsonView::Bool(enabled)) => enabled,
                                _ => true,
                            },
                            args,
                        },
                    )
                }
            },
            _ => Err(entry_name(i) + " has no `tool` name."@),
        },
        _ => Err(entry_name(i) + " is not an object."@),
    }
}

/// The first `n` entries read back, or why the first of them that is none is none.
pub open spec fn read_entries(raw: Seq<JsonView>, n: nat) -> Result<Seq<EntryView>, Seq<char>>
    decreases n,
{
    if n == 0 {
        Ok(Seq::empty())
    } else {
        match read_entries(raw, (n - 1) as nat) {
            Err(why) => Err(why),
            Ok(found) => match read_entry(n - 1, raw[n - 1]) {
                Err(why) => Err(why),
                Ok(entry) => Ok(found.push(entry)),
            },
        }
    }
}

/// The first eight keys of an object.
pub open spec fn few_keys(entries: Entries) -> Seq<Seq<char>> {
    entries.take(
        if entries.len() < 8 {
            entries.len() as int
        } else {
            8
        },
    ).map_values(|e: (Seq<char>, JsonView)| e.0)
}

/// The entries of a set, or why this is none.
pub open spec fn read_set(root: JsonView) -> Result<Seq<EntryView>, Seq<char>> {
    match root {
        JsonView::Object(set) => match json::lookup(set, FORMAT_KEY@) {
            None => Err(NO_KEY_HEAD@ + text::joined(few_keys(set), ", "@) + NO_KEY_TAIL@),
            Some(version) => match version {
                JsonView::Unsigned(v) => if v == FORMAT_VERSION {
                    match json::lookup(set, "entries"@) {
                        Some(JsonView::Array(raw)) => match read_entries(raw, raw.len()) {
                            Err(why) => Err(why),
                            Ok(found) => if found.len() == 0 {
                                Err(NO_ENTRY@)
                            } else {
                                Ok(found)
                            },
                        },
                        _ => Err(NO_ENTRIES@),
                    }
                } else if v > FORMAT_VERSION {
                    Err(NEWER_HEAD@ + text::dec(v as nat) + NEWER_TAIL@)
                } else {
                    Err(BAD_VERSION_HEAD@ + noun(version) + "."@)
                },
                _ => Err(BAD_VERSION_HEAD@ + noun(version) + "."@),
            },
        },
        _ => Err(NOT_AN_OBJECT_HEAD@ + noun(root) + "."@),
    }
}

/// A text without the code fence round it, if there is one.
pub open spec fn unfenced(s: Seq<char>) -> Seq<char> {
    match text::behind(s, "```"@) {
        None => s,
        Some(rest) => {
            let body = text::behind_first(rest, '\n');
            text::trimmed(
                match text::ahead_of(text::trimmed(body), "```"@) {
                    Some(inner) => inner,
                    None => body,
                },
            )
        },
    }
}

/// The entries of the set that a text holds, or why it holds none.
pub open spec fn read_text(raw: Seq<char>) -> Result<Seq<EntryView>, Seq<char>> {
    let trimmed = text::trimmed(raw);
    if trimmed.len() == 0 {
        Err(EMPTY_ARGUMENT@)
    } else {
        match json::json_reading(unfenced(trimmed)) {
            Err(why) => Err(NOT_JSON_HEAD@ + why + NOT_JSON_TAIL@),
            Ok(root) => read_set(root),
        }
    }
}

/// A fault in the first `k` of `n` entries is the fault of all of them.
pub proof fn entries_fault(raw: Seq<JsonView>, k: nat, n: nat)
    requires
        k <= n,
        read_entries(raw, k) is Err,
    ensures
        read_entries(raw, n) == read_entries(raw, k),
    decreases n,
{
    if k < n {
        entries_fault(raw, k, (n - 1) as nat);
    }
}

} // verus!
