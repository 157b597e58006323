//! What holds of the calls that a session is written down as: each argument holds the stop point's own
//! value, and what was not set is not there.

use crate::jdwp;
use crate::json;
use crate::json::{Entries, JsonView};
use crate::session::{PatternStopSet, PendingBreakpoint};
use crate::set_format;
use crate::stop_point;
use crate::stop_point::{ExceptionBreakpoint, LineBreakpoint, MethodExitRequest, StopPoint, Watchpoint};
use crate::stop_point_set;
use crate::text;
use vstd::prelude::*;

verus! {

/// `key` holds this truth value.
pub open spec fn has_flag(args: Entries, key: Seq<char>, value: bool) -> bool {
    json::lookup(args, key) == Some(JsonView::Bool(value))
}

/// `key` holds this text; it is not there where there is none.
pub open spec fn has_text(args: Entries, key: Seq<char>, value: Option<String>) -> bool {
    match value {
        Some(s) => json::lookup(args, key) == Some(JsonView::Text(s@)),
        None => json::lookup(args, key) is None,
    }
}

/// `key` holds this number, below zero or not; it is not there where there is none.
pub open spec fn has_number(args: Entries, key: Seq<char>, value: Option<int>) -> bool {
    match value {
        Some(n) => match json::lookup(args, key) {
            Some(JsonView::Unsigned(m)) => m == n,
            Some(JsonView::Negative(m)) => m == n && n < 0,
            _ => false,
        },
        None => json::lookup(args, key) is None,
    }
}

/// `key` holds these texts in their order; it is not there where there are none.
pub open spec fn has_texts(args: Entries, key: Seq<char>, value: Seq<String>) -> bool {
    if value.len() == 0 {
        json::lookup(args, key) is None
    } else {
        &&& json::lookup(args, key) matches Some(JsonView::Array(items))
        &&& items.len() == value.len()
        &&& forall|i: int| 0 <= i < items.len() ==> #[trigger] items[i] == JsonView::Text(value[i]@)
    }
}

/// The arguments that a stop point of any kind can be told hold these values.
pub open spec fn tells(
    args: Entries,
    hit_count: Option<i32>,
    condition: Option<String>,
    trace: bool,
    trace_expr: Seq<String>,
    trace_budget: Option<u32>,
    trace_frames: usize,
    trace_max_length: Option<usize>,
) -> bool {
    &&& has_number(
        args,
        "hit_count"@,
        match hit_count {
            Some(n) => Some(n as int),
            None => None,
        },
    )
    &&& has_text(args, "condition"@, condition)
    &&& has_flag(args, "trace"@, trace)
    &&& has_texts(args, "trace_expr"@, trace_expr)
    &&& has_number(
        args,
        "trace_max_hits"@,
        match trace_budget {
            Some(n) => Some(n as int),
            None => None,
        },
    )
    &&& has_number(args, "trace_frames"@, Some(trace_frames as int))
    &&& has_number(
        args,
        "trace_max_length"@,
        match trace_max_length {
            Some(n) => Some(n as int),
            None => None,
        },
    )
}

// ---------------------------------------------------------------------------------------------
// Keys
// ---------------------------------------------------------------------------------------------
/// A number that tells the keys of arguments apart.
spec fn mark(key: Seq<char>) -> int {
    key.len() * 1000000 + (key[0] as int) * 1000 + key[2] as int
}

proof fn marks()
    ensures
        mark("class_pattern"@) == 13099097,
        mark("line"@) == 4108110,
        mark("method"@) == 6109116,
        mark("max_classes"@) == 11109120,
        mark("caught"@) == 6099117,
        mark("uncaught"@) == 8117099,
        mark("class_name"@) == 10099097,
        mark("field_name"@) == 10102101,
        mark("modify"@) == 6109100,
        mark("access"@) == 6097099,
        mark("exclude_classes"@) == 15101099,
        mark("kinds"@) == 5107110,
        mark("monitor_class"@) == 13109110,
        mark("min_duration_ms"@) == 15109110,
        mark("trace"@) == 5116097,
        mark("trace_frames"@) == 12116097,
        mark("hit_count"@) == 9104116,
        mark("condition"@) == 9099110,
        mark("trace_expr"@) == 10116097,
        mark("trace_max_hits"@) == 14116097,
        mark("trace_max_length"@) == 16116097,
{
    reveal_strlit("class_pattern");
    reveal_strlit("line");
    reveal_strlit("method");
    reveal_strlit("max_classes");
    reveal_strlit("caught");
    reveal_strlit("uncaught");
    reveal_strlit("class_name");
    reveal_strlit("field_name");
    reveal_strlit("modify");
    reveal_strlit("access");
    reveal_strlit("exclude_classes");
    reveal_strlit("kinds");
    reveal_strlit("monitor_class");
    reveal_strlit("min_duration_ms");
    reveal_strlit("trace");
    reveal_strlit("trace_frames");
    reveal_strlit("hit_count");
    reveal_strlit("condition");
    reveal_strlit("trace_expr");
    reveal_strlit("trace_max_hits");
    reveal_strlit("trace_max_length");
}

proof fn one_more(args: Entries, key: Seq<char>, value: Option<JsonView>)
    requires
        json::ascending(args),
    ensures
        json::ascending(set_format::with(args, key, value)),
        forall|other: Seq<char>| #[trigger]
            json::lookup(set_format::with(args, key, value), other) == (if other == key
                && value is Some {
                value
            } else {
                json::lookup(args, other)
            }),
{
    if let Some(v) = value {
        json::put_keeps_order(args, key, v);
        assert forall|other: Seq<char>| #[trigger]
            json::lookup(set_format::with(args, key, value), other) == (if other == key
                && value is Some {
                value
            } else {
                json::lookup(args, other)
            }) by {
            json::what_is_bound_reads_back(args, key, v, other);
        }
    }
}

spec fn budget_value(n: Option<u32>) -> Option<JsonView> {
    match n {
        Some(n) => Some(JsonView::Unsigned(n as u64)),
        None => None,
    }
}

spec fn length_value(n: Option<usize>) -> Option<JsonView> {
    match n {
        Some(n) => Some(JsonView::Unsigned(n as u64)),
        None => None,
    }
}

/// None of what every kind can be told is there yet.
spec fn is_open(args: Entries) -> bool {
    &&& json::ascending(args)
    &&& json::lookup(args, "trace"@) is None
    &&& json::lookup(args, "trace_frames"@) is None
    &&& json::lookup(args, "hit_count"@) is None
    &&& json::lookup(args, "condition"@) is None
    &&& json::lookup(args, "trace_expr"@) is None
    &&& json::lookup(args, "trace_max_hits"@) is None
    &&& json::lookup(args, "trace_max_length"@) is None
}

proof fn common_holds(args: Entries, c: set_format::Common)
    requires
        is_open(args),
    ensures
        ({
            let all = set_format::common_args(args, c);
            &&& json::lookup(all, "trace"@) == Some(JsonView::Bool(c.trace))
            &&& json::lookup(all, "trace_frames"@) == Some(
                JsonView::Unsigned(c.trace_frames as u64),
            )
            &&& json::lookup(all, "hit_count"@) == set_format::int_value(c.hit_count)
            &&& json::lookup(all, "condition"@) == set_format::text_value(c.condition)
            &&& json::lookup(all, "trace_expr"@) == set_format::texts_value(c.trace_expr)
            &&& json::lookup(all, "trace_max_hits"@) == budget_value(c.trace_budget)
            &&& json::lookup(all, "trace_max_length"@) == length_value(c.trace_max_length)
            &&& forall|other: Seq<char>|
                other != "trace"@
                    && other != "trace_frames"@
                    && other != "hit_count"@
                    && other != "condition"@
                    && other != "trace_expr"@
                    && other != "trace_max_hits"@
                    && other != "trace_max_length"@ ==> #[trigger] json::lookup(all, other)
                    == json::lookup(args, other)
        }),
{
    marks();
    let trace = JsonView::Bool(c.trace);
    let frames = JsonView::Unsigned(c.trace_frames as u64);
    let a = set_format::with(args, "trace"@, Some(trace));
    one_more(args, "trace"@, Some(trace));
    let b = set_format::with(a, "trace_frames"@, Some(frames));
    one_more(a, "trace_frames"@, Some(frames));
    let d = set_format::with(b, "hit_count"@, set_format::int_value(c.hit_count));
    one_more(b, "hit_count"@, set_format::int_value(c.hit_count));
    let e = set_format::with(d, "condition"@, set_format::text_value(c.condition));
    one_more(d, "condition"@, set_format::text_value(c.condition));
    let f = set_format::with(e, "trace_expr"@, set_format::texts_value(c.trace_expr));
    one_more(e, "trace_expr"@, set_format::texts_value(c.trace_expr));
    let g = set_format::with(f, "trace_max_hits"@, budget_value(c.trace_budget));
    one_more(f, "trace_max_hits"@, budget_value(c.trace_budget));
    let h = set_format::with(g, "trace_max_length"@, length_value(c.trace_max_length));
    one_more(g, "trace_max_length"@, length_value(c.trace_max_length));
    assert(h == set_format::common_args(args, c));
}

/// Texts that are bound are those that were given, in their order.
proof fn texts_hold(args: Entries, key: Seq<char>, value: Seq<String>)
    requires
        json::lookup(args, key) == set_format::texts_value(text::views(value)),
    ensures
        has_texts(args, key, value),
{
    let parts = text::views(value);
    assert(parts.len() == value.len());
    if value.len() > 0 {
        let items = json::lookup(args, key)->0->Array_0;
        assert forall|i: int| 0 <= i < items.len() implies #[trigger] items[i] == JsonView::Text(
            value[i]@,
        ) by {
            assert(parts[i] == value[i]@);
        }
    }
}

proof fn line_holds(class_pattern: Seq<char>, line: Option<i32>, method: Option<Seq<char>>)
    ensures
        ({
            let args = set_format::line_args(class_pattern, line, method);
            &&& is_open(args)
            &&& json::lookup(args, "class_pattern"@) == Some(JsonView::Text(class_pattern))
            &&& json::lookup(args, "line"@) == set_format::int_value(line)
            &&& json::lookup(args, "method"@) == set_format::text_value(method)
            &&& json::lookup(args, "max_classes"@) is None
        }),
{
    marks();
    let none: Entries = Seq::empty();
    let class = JsonView::Text(class_pattern);
    let a = set_format::with(none, "class_pattern"@, Some(class));
    one_more(none, "class_pattern"@, Some(class));
    let b = set_format::with(a, "line"@, set_format::int_value(line));
    one_more(a, "line"@, set_format::int_value(line));
    one_more(b, "method"@, set_format::text_value(method));
}

// ---------------------------------------------------------------------------------------------
// Laws
// ---------------------------------------------------------------------------------------------
/// A line stop is written with the class, the line and the method that the caller gave, and with its own
/// settings.
pub proof fn a_line_stop_is_written_as_it_was_asked_for(
    b: set_format::BuildView,
    sp: StopPoint,
    bp: LineBreakpoint,
    members: Set<Seq<char>>,
)
    requires
        sp.armed_on == stop_point::ArmedOn::Line(bp),
        bp.arm_line is Some || bp.arm_method is Some,
        !members.contains(sp.id@),
    ensures
        ({
            let now = set_format::with_stop_point(b, sp, members);
            let call = now.calls.last();
            &&& now.calls == b.calls.push(call)
            &&& call.tool == "debug.set_line_stop"@
            &&& call.from == sp.id@
            &&& call.enabled == (sp.enabled && !sp.spent)
            &&& call.trace == sp.trace
            &&& json::lookup(call.args, "class_pattern"@) == Some(JsonView::Text(bp.class_pattern@))
            &&& has_number(
                call.args,
                "line"@,
                match bp.arm_line {
                    Some(n) => Some(n as int),
                    None => None,
                },
            )
            &&& has_text(call.args, "method"@, bp.arm_method)
            &&& json::lookup(call.args, "max_classes"@) is None
            &&& tells(
                call.args,
                sp.hit_count,
                sp.condition,
                sp.trace,
                sp.trace_expr@,
                sp.trace_budget,
                sp.trace_frames,
                sp.trace_max_length,
            )
        }),
{
    marks();
    let none: Entries = Seq::empty();
    let method = set_format::seen(bp.arm_method);
    let args = set_format::line_args(bp.class_pattern@, bp.arm_line, method);
    line_holds(bp.class_pattern@, bp.arm_line, method);
    common_holds(args, set_format::stop_point_common(sp));
    let all = set_format::with_stop_point(b, sp, members).calls.last().args;
    texts_hold(all, "trace_expr"@, sp.trace_expr@);
}

/// An exception stop is written with its class, unless it is for every exception, and with whether it is for
/// caught and for uncaught ones.
pub proof fn an_exception_stop_is_written_as_it_is(
    b: set_format::BuildView,
    sp: StopPoint,
    er: ExceptionBreakpoint,
    members: Set<Seq<char>>,
)
    requires
        sp.armed_on == stop_point::ArmedOn::Exception(er),
    ensures
        ({
            let now = set_format::with_stop_point(b, sp, members);
            let call = now.calls.last();
            &&& now.calls == b.calls.push(call)
            &&& call.tool == "debug.set_exception_stop"@
            &&& call.from == sp.id@
            &&& call.enabled == (sp.enabled && !sp.spent)
            &&& call.trace == sp.trace
            &&& er.class_pattern@.len() > 0 ==> json::lookup(call.args, "class_pattern"@) == Some(
                JsonView::Text(er.class_pattern@),
            )
            &&& er.class_pattern@.len() == 0 ==> json::lookup(call.args, "class_pattern"@) is None
            &&& has_flag(call.args, "caught"@, er.caught)
            &&& has_flag(call.args, "uncaught"@, er.uncaught)
            &&& tells(
                call.args,
                sp.hit_count,
                sp.condition,
                sp.trace,
                sp.trace_expr@,
                sp.trace_budget,
                sp.trace_frames,
                sp.trace_max_length,
            )
        }),
{
    marks();
    let none: Entries = Seq::empty();
    let class = if er.class_pattern@.len() == 0 {
        None
    } else {
        Some(JsonView::Text(er.class_pattern@))
    };
    let a = set_format::with(none, "class_pattern"@, class);
    one_more(none, "class_pattern"@, class);
    let c = set_format::with(a, "caught"@, Some(JsonView::Bool(er.caught)));
    one_more(a, "caught"@, Some(JsonView::Bool(er.caught)));
    let args = set_format::with(c, "uncaught"@, Some(JsonView::Bool(er.uncaught)));
    one_more(c, "uncaught"@, Some(JsonView::Bool(er.uncaught)));
    common_holds(args, set_format::stop_point_common(sp));
    let all = set_format::with_stop_point(b, sp, members).calls.last().args;
    texts_hold(all, "trace_expr"@, sp.trace_expr@);
}

/// A field stop is written with its class and its field, with `modify` true exactly where it is for writes
/// and `access` true exactly where it is for reads.
pub proof fn a_field_stop_is_written_as_it_is(
    b: set_format::BuildView,
    sp: StopPoint,
    wp: Watchpoint,
    members: Set<Seq<char>>,
)
    requires
        sp.armed_on == stop_point::ArmedOn::Watchpoint(wp),
    ensures
        ({
            let now = set_format::with_stop_point(b, sp, members);
            let call = now.calls.last();
            &&& now.calls == b.calls.push(call)
            &&& call.tool == "debug.set_field_stop"@
            &&& call.from == sp.id@
            &&& call.enabled == (sp.enabled && !sp.spent)
            &&& call.trace == sp.trace
            &&& json::lookup(call.args, "class_name"@) == Some(JsonView::Text(wp.class_name@))
            &&& json::lookup(call.args, "field_name"@) == Some(JsonView::Text(wp.field_name@))
            &&& has_flag(call.args, "modify"@, wp.kind is Modify)
            &&& has_flag(call.args, "access"@, wp.kind is Access)
            &&& tells(
                call.args,
                sp.hit_count,
                sp.condition,
                sp.trace,
                sp.trace_expr@,
                sp.trace_budget,
                sp.trace_frames,
                sp.trace_max_length,
            )
        }),
{
    marks();
    let none: Entries = Seq::empty();
    let class = Some(JsonView::Text(wp.class_name@));
    let field = Some(JsonView::Text(wp.field_name@));
    let modify = Some(JsonView::Bool(wp.kind is Modify));
    let access = Some(JsonView::Bool(wp.kind is Access));
    let a = set_format::with(none, "class_name"@, class);
    one_more(none, "class_name"@, class);
    let c = set_format::with(a, "field_name"@, field);
    one_more(a, "field_name"@, field);
    let d = set_format::with(c, "modify"@, modify);
    one_more(c, "modify"@, modify);
    let args = set_format::with(d, "access"@, access);
    one_more(d, "access"@, access);
    assert(wp.kind is Modify == (wp.kind == jdwp::WatchKind::Modify));
    assert(wp.kind is Access == (wp.kind == jdwp::WatchKind::Access));
    common_holds(args, set_format::stop_point_common(sp));
    let all = set_format::with_stop_point(b, sp, members).calls.last().args;
    texts_hold(all, "trace_expr"@, sp.trace_expr@);
}

/// A method-exit stop is written with its class, its method and the classes it leaves out.
pub proof fn a_method_exit_stop_is_written_as_it_is(
    b: set_format::BuildView,
    sp: StopPoint,
    me: MethodExitRequest,
    members: Set<Seq<char>>,
)
    requires
        sp.armed_on == stop_point::ArmedOn::MethodExit(me),
    ensures
        ({
            let now = set_format::with_stop_point(b, sp, members);
            let call = now.calls.last();
            &&& now.calls == b.calls.push(call)
            &&& call.tool == "debug.set_method_exit_stop"@
            &&& call.from == sp.id@
            &&& call.enabled == (sp.enabled && !sp.spent)
            &&& call.trace == sp.trace
            &&& json::lookup(call.args, "class_pattern"@) == Some(JsonView::Text(me.class_pattern@))
            &&& has_text(call.args, "method"@, me.method)
            &&& has_texts(call.args, "exclude_classes"@, me.exclude_classes@)
            &&& tells(
                call.args,
                sp.hit_count,
                sp.condition,
                sp.trace,
                sp.trace_expr@,
                sp.trace_budget,
                sp.trace_frames,
                sp.trace_max_length,
            )
        }),
{
    marks();
    let none: Entries = Seq::empty();
    let class = Some(JsonView::Text(me.class_pattern@));
    let method = set_format::text_value(set_format::seen(me.method));
    let excluded = set_format::texts_value(text::views(me.exclude_classes@));
    let a = set_format::with(none, "class_pattern"@, class);
    one_more(none, "class_pattern"@, class);
    let c = set_format::with(a, "method"@, method);
    one_more(a, "method"@, method);
    let args = set_format::with(c, "exclude_classes"@, excluded);
    one_more(c, "exclude_classes"@, excluded);
    common_holds(args, set_format::stop_point_common(sp));
    let all = set_format::with_stop_point(b, sp, members).calls.last().args;
    texts_hold(all, "trace_expr"@, sp.trace_expr@);
    texts_hold(all, "exclude_classes"@, me.exclude_classes@);
}

/// A family is written with its pattern, the line of its members, its method and how many classes it may
/// arm, and with its own settings.
pub proof fn a_family_is_written_as_it_is(
    b: set_format::BuildView,
    id: Seq<char>,
    fam: PatternStopSet,
    all: Map<Seq<char>, StopPoint>,
    line: Option<i32>,
)
    requires
        line == set_format::family_line(text::views(fam.members@), all),
        line is Some || fam.method is Some,
    ensures
        ({
            let now = set_format::with_family(b, id, fam, all);
            let call = now.calls.last();
            &&& now.calls == b.calls.push(call)
            &&& call.tool == "debug.set_line_stop"@
            &&& call.from == id
            &&& call.enabled == fam.enabled
            &&& call.trace == fam.trace
            &&& json::lookup(call.args, "class_pattern"@) == Some(JsonView::Text(fam.class_pattern@))
            &&& has_number(
                call.args,
                "line"@,
                match line {
                    Some(n) => Some(n as int),
                    None => None,
                },
            )
            &&& has_text(call.args, "method"@, fam.method)
            &&& has_number(call.args, "max_classes"@, Some(fam.max_classes as int))
            &&& tells(
                call.args,
                fam.hit_count,
                fam.condition,
                fam.trace,
                fam.trace_expr@,
                fam.trace_budget,
                fam.trace_frames,
                fam.trace_max_length,
            )
        }),
{
    marks();
    let method = set_format::seen(fam.method);
    let a = set_format::line_args(fam.class_pattern@, line, method);
    line_holds(fam.class_pattern@, line, method);
    let most = Some(JsonView::Unsigned(fam.max_classes as u64));
    one_more(a, "max_classes"@, most);
    common_holds(set_format::with(a, "max_classes"@, most), set_format::family_common(fam));
    texts_hold(
        set_format::with_family(b, id, fam, all).calls.last().args,
        "trace_expr"@,
        fam.trace_expr@,
    );
}

/// The line of a family is the one that the first of its members that is still there was armed with: one
/// that is gone is passed over, and one that is there settles it.
pub proof fn the_first_member_that_is_left_tells_the_line(
    member: Seq<char>,
    rest: Seq<Seq<char>>,
    all: Map<Seq<char>, StopPoint>,
)
    ensures
        set_format::family_line(Seq::empty(), all) is None,
        !all.dom().contains(member) ==> set_format::family_line(seq![member] + rest, all)
            == set_format::family_line(rest, all),
        all.dom().contains(member) ==> (all[member].armed_on matches stop_point::ArmedOn::Line(bp)
            ==> set_format::family_line(seq![member] + rest, all) == bp.arm_line),
{
    assert((seq![member] + rest).drop_first() =~= rest);
}

/// A deferral is written as the line stop it will be: enabled, with its class, its line and its method, and
/// with its own settings.
pub proof fn a_deferral_is_written_as_it_is(b: set_format::BuildView, pb: PendingBreakpoint)
    ensures
        ({
            let now = set_format::with_pending(b, pb);
            let call = now.calls.last();
            &&& now.calls == b.calls.push(call)
            &&& call.tool == "debug.set_line_stop"@
            &&& call.from == pb.bp_id@
            &&& call.enabled
            &&& call.trace == pb.trace
            &&& json::lookup(call.args, "class_pattern"@) == Some(JsonView::Text(pb.class_pattern@))
            &&& has_number(
                call.args,
                "line"@,
                match pb.line {
                    Some(n) => Some(n as int),
                    None => None,
                },
            )
            &&& has_text(call.args, "method"@, pb.method)
            &&& tells(
                call.args,
                pb.hit_count,
                pb.condition,
                pb.trace,
                pb.trace_expr@,
                pb.trace_budget,
                pb.trace_frames,
                pb.trace_max_length,
            )
        }),
{
    marks();
    let method = set_format::seen(pb.method);
    line_holds(pb.class_pattern@, pb.line, method);
    common_holds(
        set_format::line_args(pb.class_pattern@, pb.line, method),
        set_format::pending_common(pb),
    );
    texts_hold(
        set_format::with_pending(b, pb).calls.last().args,
        "trace_expr"@,
        pb.trace_expr@,
    );
}

/// The call of a group of monitor stops names the event of each of them in their order, arms nothing where
/// any of them is not enabled, and holds the settings they agree in. A monitor stop has no condition.
pub proof fn a_group_is_written_as_its_stops_are(
    group: Seq<StopPoint>,
    first: stop_point::MonitorStop,
    i: int,
)
    requires
        group.len() > 0,
        group[0].armed_on == stop_point::ArmedOn::Monitor(first),
    ensures
        ({
            let call = set_format::group_call(group);
            let sp = group[0];
            &&& call.tool == "debug.set_monitor_stop"@
            &&& call.trace == sp.trace
            &&& call.enabled ==> (0 <= i < group.len() ==> group[i].enabled && !group[i].spent)
            &&& !call.enabled ==> exists|k: int|
                0 <= k < group.len() && !((#[trigger] group[k]).enabled && !group[k].spent)
            &&& group.len() == 1 ==> call.from == sp.id@
            &&& json::lookup(call.args, "kinds"@) matches Some(JsonView::Array(kinds))
            &&& kinds.len() == group.len()
            &&& 0 <= i < group.len() ==> (group[i].armed_on matches stop_point::ArmedOn::Monitor(m)
                ==> kinds[i] == JsonView::Text(
                match m.kind {
                    jdwp::MonitorKind::Blocked => "blocked"@,
                    jdwp::MonitorKind::Acquired => "acquired"@,
                    jdwp::MonitorKind::Wait => "wait"@,
                    jdwp::MonitorKind::Waited => "waited"@,
                },
            ))
            &&& has_text(call.args, "monitor_class"@, first.monitor_class)
            &&& has_number(
                call.args,
                "min_duration_ms"@,
                match first.min_duration_ms {
                    Some(n) => Some(n as int),
                    None => None,
                },
            )
            &&& tells(
                call.args,
                sp.hit_count,
                None,
                sp.trace,
                sp.trace_expr@,
                sp.trace_budget,
                sp.trace_frames,
                sp.trace_max_length,
            )
        }),
{
    marks();
    let none: Entries = Seq::empty();
    let words = set_format::kind_words(group);
    let kinds = Some(json::texts_view(words));
    let class = set_format::text_value(set_format::seen(first.monitor_class));
    let least = match first.min_duration_ms {
        Some(n) => Some(JsonView::Unsigned(n)),
        None => None,
    };
    let a = set_format::with(none, "kinds"@, kinds);
    one_more(none, "kinds"@, kinds);
    let c = set_format::with(a, "monitor_class"@, class);
    one_more(a, "monitor_class"@, class);
    let args = set_format::with(c, "min_duration_ms"@, least);
    one_more(c, "min_duration_ms"@, least);
    let common = set_format::Common { condition: None, ..set_format::stop_point_common(group[0]) };
    common_holds(args, common);
    let all = set_format::group_call(group).args;
    assert(all == set_format::common_args(args, common));
    texts_hold(all, "trace_expr"@, group[0].trace_expr@);
    if 0 <= i < group.len() {
        assert(words[i] == match group[i].armed_on {
            stop_point::ArmedOn::Monitor(m) => m.kind.word(),
            _ => Seq::empty(),
        });
    }
    if group.len() == 1 {
        assert(set_format::group_ids(group) =~= seq![group[0].id@]);
    }
}

/// Of each filter that is left out the stop point is named, under the filter it had, and no other.
pub proof fn a_filter_is_named_where_there_was_one(
    b: set_format::BuildView,
    id: Seq<char>,
    instance: Option<u64>,
    thread: Option<u64>,
)
    ensures
        ({
            let now = set_format::without_filters(b, id, instance, thread);
            &&& instance is Some ==> now.instance == b.instance.push(id)
            &&& instance is None ==> now.instance == b.instance
            &&& thread is Some ==> now.thread == b.thread.push(id)
            &&& thread is None ==> now.thread == b.thread
            &&& now.calls == b.calls
            &&& now.undescribable == b.undescribable
        }),
{
}

/// As many calls are counted as disabled as are not enabled, and as many as suspending as do not trace.
pub proof fn calls_are_counted_one_by_one(
    calls: Seq<set_format::CallView>,
    call: set_format::CallView,
)
    ensures
        set_format::disabled_calls(Seq::empty()) == 0,
        set_format::suspending_calls(Seq::empty()) == 0,
        call.enabled ==> set_format::disabled_calls(calls.push(call)) == set_format::disabled_calls(
            calls,
        ),
        !call.enabled ==> set_format::disabled_calls(calls.push(call)) == set_format::disabled_calls(
            calls,
        ) + 1,
        call.trace ==> set_format::suspending_calls(calls.push(call))
            == set_format::suspending_calls(calls),
        !call.trace ==> set_format::suspending_calls(calls.push(call))
            == set_format::suspending_calls(calls) + 1,
{
    assert(calls.push(call).drop_last() =~= calls);
}

// ---------------------------------------------------------------------------------------------
// What is said of an export
// ---------------------------------------------------------------------------------------------
/// A text that holds a part holds it with anything before and behind it too.
proof fn holds_in_more(head: Seq<char>, s: Seq<char>, tail: Seq<char>, part: Seq<char>)
    requires
        text::holds(s, part),
    ensures
        text::holds(head + s + tail, part),
{
    let at = choose|at: int|
        0 <= at <= s.len() - part.len() && #[trigger] s.subrange(at, at + part.len()) == part;
    let all = head + s + tail;
    let there = head.len() + at;
    assert(all.subrange(there, there + part.len()) =~= s.subrange(at, at + part.len()));
}

proof fn joined_holds_each(parts: Seq<Seq<char>>, sep: Seq<char>, i: int)
    requires
        0 <= i < parts.len(),
    ensures
        text::holds(text::joined(parts, sep), parts[i]),
    decreases parts.len(),
{
    let none = Seq::<char>::empty();
    if parts.len() == 1 {
        text::holds_the_middle(none, parts[0], none);
        assert(none + parts[0] + none =~= parts[0]);
    } else if i == parts.len() - 1 {
        let head = text::joined(parts.drop_last(), sep) + sep;
        text::holds_the_middle(head, parts.last(), none);
        assert(text::joined(parts, sep) =~= head + parts.last() + none);
    } else {
        let rest = parts.drop_last();
        joined_holds_each(rest, sep, i);
        let s = text::joined(rest, sep);
        holds_in_more(none, s, sep + parts.last(), rest[i]);
        assert(text::joined(parts, sep) =~= none + s + (sep + parts.last()));
    }
}

/// Every stop point that lost a filter or could not be written is named, and nothing is said where there is
/// none.
pub proof fn whatever_was_left_out_is_named(
    instance: Seq<Seq<char>>,
    thread: Seq<Seq<char>>,
    undescribable: Seq<Seq<char>>,
    i: int,
)
    ensures
        ({
            let words = stop_point_set::dropped_words(instance, thread, undescribable);
            &&& 0 <= i < instance.len() ==> text::holds(words, instance[i])
            &&& 0 <= i < thread.len() ==> text::holds(words, thread[i])
            &&& 0 <= i < undescribable.len() ==> text::holds(words, undescribable[i])
            &&& instance.len() == 0 && thread.len() == 0 && undescribable.len() == 0 ==> words.len() == 0
            &&& words == stop_point_set::dropped_words(instance, Seq::empty(), Seq::empty())
                + stop_point_set::dropped_words(Seq::empty(), thread, Seq::empty())
                + stop_point_set::dropped_words(Seq::empty(), Seq::empty(), undescribable)
        }),
{
    let none = Seq::<Seq<char>>::empty();
    let a = stop_point_set::dropped_words(instance, none, none);
    let b = stop_point_set::dropped_words(none, thread, none);
    let c = stop_point_set::dropped_words(none, none, undescribable);
    let words = stop_point_set::dropped_words(instance, thread, undescribable);
    assert(words =~= a + b + c);
    let blank = Seq::<char>::empty();
    if 0 <= i < instance.len() {
        joined_holds_each(instance, ", "@, i);
        let s = text::joined(instance, ", "@);
        let head = "\n⚠️  Instance filter DROPPED from "@ + stop_point_set::plural_words(
            instance.len(),
            "stop point"@,
        ) + ": "@;
        holds_in_more(head, s, stop_point_set::INSTANCE_TAIL@, instance[i]);
        assert(a =~= head + s + stop_point_set::INSTANCE_TAIL@);
        holds_in_more(blank, a, b + c, instance[i]);
        assert(words =~= blank + a + (b + c));
    }
    if 0 <= i < thread.len() {
        joined_holds_each(thread, ", "@, i);
        let s = text::joined(thread, ", "@);
        let head = "\n⚠️  Thread filter DROPPED from "@ + stop_point_set::plural_words(
            thread.len(),
            "stop point"@,
        ) + ": "@;
        holds_in_more(head, s, stop_point_set::THREAD_TAIL@, thread[i]);
        assert(b =~= head + s + stop_point_set::THREAD_TAIL@);
        holds_in_more(a, b, c, thread[i]);
    }
    if 0 <= i < undescribable.len() {
        joined_holds_each(undescribable, ", "@, i);
        let s = text::joined(undescribable, ", "@);
        let head = "\n⚠️  NOT exported: "@;
        holds_in_more(head, s, stop_point_set::UNDESCRIBABLE_TAIL@, undescribable[i]);
        assert(c =~= head + s + stop_point_set::UNDESCRIBABLE_TAIL@);
        holds_in_more(a + b, c, blank, undescribable[i]);
        assert(words =~= a + b + c + blank);
    }
}

} // verus!
