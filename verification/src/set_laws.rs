//! What holds of stop-point sets as a whole: a set reads back as the calls that were written, nothing
//! but arming calls is ever read, and no filter crosses over unnoticed.

use crate::jdwp::WatchKind;
use crate::json;
use crate::json::JsonView;
use crate::session;
use crate::session::{PatternStopSet, PendingBreakpoint};
use crate::set_format;
use crate::stop_point;
use crate::stop_point::StopPoint;
use crate::stop_point_set;
use crate::text;
use vstd::prelude::*;

verus! {

// ---------------------------------------------------------------------------------------------
// What is written reads back
// ---------------------------------------------------------------------------------------------
/// The entry that a call is written as.
pub open spec fn entry_of(call: set_format::CallView) -> set_format::EntryView {
    set_format::EntryView {
        tool: call.tool,
        enabled: call.enabled,
        args: JsonView::Object(call.args),
    }
}

/// Calls of tools that a set may name.
pub open spec fn all_armable(calls: Seq<set_format::CallView>) -> bool {
    forall|i: int| 0 <= i < calls.len() ==> set_format::armable().contains((#[trigger] calls[i]).tool)
}

proof fn entry_keys_differ()
    ensures
        "tool"@ != "from"@,
        "tool"@ != "enabled"@,
        "tool"@ != "args"@,
        "from"@ != "enabled"@,
        "from"@ != "args"@,
        "enabled"@ != "args"@,
        set_format::FORMAT_KEY@ != "entries"@,
{
    reveal_strlit("tool");
    reveal_strlit("from");
    reveal_strlit("enabled");
    reveal_strlit("args");
    reveal_strlit("entries");
    reveal_strlit("jdwp_mcp_stop_point_set");
    assert("tool"@[0] == 't' && "from"@[0] == 'f' && "args"@[0] == 'a' && "enabled"@[0] == 'e');
    assert(set_format::FORMAT_KEY@.len() != "entries"@.len());
}

/// An entry reads back as the call that it was written from.
pub proof fn an_entry_reads_back(i: int, call: set_format::CallView)
    requires
        set_format::armable().contains(call.tool),
    ensures
        set_format::read_entry(i, set_format::entry_view(call)) == Ok::<
            set_format::EntryView,
            Seq<char>,
        >(entry_of(call)),
{
    entry_keys_differ();
    let none: json::Entries = Seq::empty();
    let a = json::put(none, "tool"@, JsonView::Text(call.tool));
    let b = json::put(a, "from"@, JsonView::Text(call.from));
    let c = json::put(b, "enabled"@, JsonView::Bool(call.enabled));
    let d = json::put(c, "args"@, JsonView::Object(call.args));
    json::put_keeps_order(none, "tool"@, JsonView::Text(call.tool));
    json::put_keeps_order(a, "from"@, JsonView::Text(call.from));
    json::put_keeps_order(b, "enabled"@, JsonView::Bool(call.enabled));
    json::what_is_bound_reads_back(none, "tool"@, JsonView::Text(call.tool), "tool"@);
    json::what_is_bound_reads_back(a, "from"@, JsonView::Text(call.from), "tool"@);
    json::what_is_bound_reads_back(b, "enabled"@, JsonView::Bool(call.enabled), "tool"@);
    json::what_is_bound_reads_back(c, "args"@, JsonView::Object(call.args), "tool"@);
    json::what_is_bound_reads_back(c, "args"@, JsonView::Object(call.args), "enabled"@);
    assert(json::lookup(d, "tool"@) == Some(JsonView::Text(call.tool)));
    assert(json::lookup(d, "enabled"@) == Some(JsonView::Bool(call.enabled)));
    assert(json::lookup(d, "args"@) == Some(JsonView::Object(call.args)));
}

proof fn entries_read_back(calls: Seq<set_format::CallView>, n: nat)
    requires
        all_armable(calls),
        n <= calls.len(),
    ensures
        set_format::read_entries(set_format::entry_views(calls), n) == Ok::<
            Seq<set_format::EntryView>,
            Seq<char>,
        >(calls.take(n as int).map_values(|c: set_format::CallView| entry_of(c))),
    decreases n,
{
    if n > 0 {
        entries_read_back(calls, (n - 1) as nat);
        an_entry_reads_back(n - 1, calls[n - 1]);
        assert(calls.take(n as int).map_values(|c: set_format::CallView| entry_of(c)) =~= calls.take(
            n - 1,
        ).map_values(|c: set_format::CallView| entry_of(c)).push(entry_of(calls[n - 1])));
    } else {
        assert(calls.take(0).map_values(|c: set_format::CallView| entry_of(c)) =~= Seq::empty());
    }
}

/// A set reads back as the calls that it was written from, each with its tool, its arguments and
/// whether it was enabled. A set of no calls is refused.
pub proof fn a_set_reads_back_as_its_calls(calls: Seq<set_format::CallView>)
    requires
        all_armable(calls),
    ensures
        set_format::read_set(set_format::set_view(calls)) == (if calls.len() == 0 {
            Err(set_format::NO_ENTRY@)
        } else {
            Ok(calls.map_values(|c: set_format::CallView| entry_of(c)))
        }),
{
    entry_keys_differ();
    let none: json::Entries = Seq::empty();
    let version = JsonView::Unsigned(set_format::FORMAT_VERSION);
    let entries = JsonView::Array(set_format::entry_views(calls));
    let a = json::put(none, set_format::FORMAT_KEY@, version);
    json::put_keeps_order(none, set_format::FORMAT_KEY@, version);
    json::what_is_bound_reads_back(
        none,
        set_format::FORMAT_KEY@,
        version,
        set_format::FORMAT_KEY@,
    );
    json::what_is_bound_reads_back(a, "entries"@, entries, set_format::FORMAT_KEY@);
    entries_read_back(calls, calls.len());
    assert(calls.take(calls.len() as int) =~= calls);
}

proof fn each_tool_is_armable()
    ensures
        set_format::armable().contains("debug.set_line_stop"@),
        set_format::armable().contains("debug.set_exception_stop"@),
        set_format::armable().contains("debug.set_field_stop"@),
        set_format::armable().contains("debug.set_method_exit_stop"@),
        set_format::armable().contains("debug.set_monitor_stop"@),
{
    let tools = set_format::armable();
    assert(tools[0] == "debug.set_line_stop"@);
    assert(tools[1] == "debug.set_exception_stop"@);
    assert(tools[2] == "debug.set_field_stop"@);
    assert(tools[3] == "debug.set_method_exit_stop"@);
    assert(tools[4] == "debug.set_monitor_stop"@);
}

proof fn stop_points_are_armable(
    b: set_format::BuildView,
    ids: Seq<Seq<char>>,
    all: Map<Seq<char>, StopPoint>,
    members: Set<Seq<char>>,
)
    requires
        all_armable(b.calls),
    ensures
        all_armable(set_format::with_stop_points(b, ids, all, members).calls),
    decreases ids.len(),
{
    each_tool_is_armable();
    if ids.len() > 0 {
        stop_points_are_armable(b, ids.drop_last(), all, members);
    }
}

proof fn families_are_armable(
    b: set_format::BuildView,
    ids: Seq<Seq<char>>,
    families: Map<Seq<char>, PatternStopSet>,
    all: Map<Seq<char>, StopPoint>,
)
    requires
        all_armable(b.calls),
    ensures
        all_armable(set_format::with_families(b, ids, families, all).calls),
    decreases ids.len(),
{
    each_tool_is_armable();
    if ids.len() > 0 {
        families_are_armable(b, ids.drop_last(), families, all);
    }
}

proof fn pending_are_armable(b: set_format::BuildView, pending: Seq<PendingBreakpoint>)
    requires
        all_armable(b.calls),
    ensures
        all_armable(set_format::with_all_pending(b, pending).calls),
    decreases pending.len(),
{
    each_tool_is_armable();
    if pending.len() > 0 {
        pending_are_armable(b, pending.drop_last());
    }
}

proof fn monitor_filters_add_no_call(
    b: set_format::BuildView,
    ids: Seq<Seq<char>>,
    all: Map<Seq<char>, StopPoint>,
)
    ensures
        set_format::without_monitor_filters(b, ids, all).calls == b.calls,
    decreases ids.len(),
{
    if ids.len() > 0 {
        monitor_filters_add_no_call(b, ids.drop_last(), all);
    }
}

proof fn groups_are_armable(b: set_format::BuildView, groups: Seq<Seq<StopPoint>>)
    requires
        all_armable(b.calls),
    ensures
        all_armable(set_format::with_groups(b, groups).calls),
    decreases groups.len(),
{
    each_tool_is_armable();
    if groups.len() > 0 {
        groups_are_armable(b, groups.drop_last());
    }
}

/// Whatever a session holds, it is written down in calls that a set may hold.
pub proof fn a_session_is_written_in_arming_calls<E>(
    s: session::DebugSession<E>,
    l: set_format::Listing,
)
    ensures
        all_armable(set_format::written(s, l).calls),
{
    let all = s.state.stop_points@;
    let members = set_format::family_members(s.pattern_sets@);
    let b = set_format::nothing();
    families_are_armable(b, l.families, s.pattern_sets@, all);
    let b = set_format::with_families(b, l.families, s.pattern_sets@, all);
    stop_points_are_armable(b, l.lines, all, members);
    let b = set_format::with_stop_points(b, l.lines, all, members);
    pending_are_armable(b, s.state.pending_breakpoints@);
    let b = set_format::with_all_pending(b, s.state.pending_breakpoints@);
    stop_points_are_armable(b, l.exceptions, all, members);
    let b = set_format::with_stop_points(b, l.exceptions, all, members);
    stop_points_are_armable(b, l.watchpoints, all, members);
    let b = set_format::with_stop_points(b, l.watchpoints, all, members);
    stop_points_are_armable(b, l.method_exits, all, members);
    let b = set_format::with_stop_points(b, l.method_exits, all, members);
    monitor_filters_add_no_call(b, l.monitors, all);
    groups_are_armable(
        set_format::without_monitor_filters(b, l.monitors, all),
        set_format::grouped(l.monitors, all),
    );
}

/// The set of a session that holds anything at all reads back as the calls that would arm it again.
pub proof fn an_exported_session_reads_back<E>(s: session::DebugSession<E>, l: set_format::Listing)
    requires
        set_format::written(s, l).calls.len() > 0,
    ensures
        set_format::read_set(set_format::set_view(set_format::written(s, l).calls)) == Ok::<
            Seq<set_format::EntryView>,
            Seq<char>,
        >(set_format::written(s, l).calls.map_values(|c: set_format::CallView| entry_of(c))),
{
    a_session_is_written_in_arming_calls(s, l);
    a_set_reads_back_as_its_calls(set_format::written(s, l).calls);
}

// ---------------------------------------------------------------------------------------------
// The fence
// ---------------------------------------------------------------------------------------------
proof fn nothing_to_trim(s: Seq<char>)
    requires
        s.len() > 0,
        !text::is_space(s[0]),
        !text::is_space(s.last()),
    ensures
        text::trimmed(s) == s,
{
}

proof fn a_braced_text_has_no_fence(body: Seq<char>)
    requires
        json::is_braced(body),
    ensures
        text::trimmed(body) == body,
        set_format::unfenced(body) == body,
{
    nothing_to_trim(body);
    reveal_strlit("```");
    assert(text::behind(body, "```"@) is None) by {
        if body.len() >= 3 {
            assert(body.take(3)[0] == '{');
            assert("```"@[0] == '`');
        }
    }
}

/// A set shown in its fence reads as the set itself: what a caller copies from an export can be passed
/// back as it stands.
pub proof fn a_fenced_set_reads_as_the_set(set: JsonView)
    requires
        json::is_braced(json::json_pretty_text(set)),
        json::reads_as(json::json_pretty_text(set), set),
    ensures
        set_format::read_text(stop_point_set::fenced(set)) == set_format::read_set(set),
        set_format::read_text(json::json_pretty_text(set)) == set_format::read_set(set),
{
    let body = json::json_pretty_text(set);
    let shown = stop_point_set::fenced(set);
    reveal_strlit("```json\n");
    reveal_strlit("\n```");
    reveal_strlit("```");
    let head = "```json\n"@;
    let tail = "\n```"@;
    let mark = "```"@;
    assert(shown == head + body + tail);
    assert(shown[0] == '`' && shown.last() == '`');
    nothing_to_trim(shown);
    assert(shown.take(3) =~= mark);
    let rest = shown.skip(3);
    assert(text::behind(shown, mark) == Some(rest));
    let inner = body + tail;
    assert(rest[0] == 'j' && rest[1] == 's' && rest[2] == 'o' && rest[3] == 'n' && rest[4] == '\n');
    assert(text::first_of(rest, '\n') == 4) by {
        let r1 = rest.drop_first();
        let r2 = r1.drop_first();
        let r3 = r2.drop_first();
        let r4 = r3.drop_first();
        assert(r1[0] == 's' && r2[0] == 'o' && r3[0] == 'n' && r4[0] == '\n');
        assert(text::first_of(r4, '\n') == 0);
        assert(text::first_of(r3, '\n') == 1);
        assert(text::first_of(r2, '\n') == 2);
        assert(text::first_of(r1, '\n') == 3);
    }
    assert(rest.skip(5) =~= inner);
    assert(text::behind_first(rest, '\n') == inner);
    assert(inner[0] == '{' && inner.last() == '`');
    nothing_to_trim(inner);
    let kept = body.push('\n');
    assert(inner.skip(inner.len() - 3) =~= mark);
    assert(inner.take(inner.len() - 3) =~= kept);
    assert(text::ahead_of(inner, mark) == Some(kept));
    assert(kept.drop_last() =~= body);
    assert(text::is_space('\n'));
    a_braced_text_has_no_fence(body);
    assert(text::without_leading_space(kept) == kept);
    assert(text::without_trailing_space(kept) == text::without_trailing_space(body));
    assert(text::trimmed(kept) == body);
    assert(set_format::unfenced(shown) == body);
}

/// A set written on one line, with no fence, reads as the set itself.
pub proof fn a_set_on_one_line_reads_as_the_set(set: JsonView)
    requires
        json::is_braced(json::json_text(set)),
        json::reads_as(json::json_text(set), set),
    ensures
        set_format::read_text(json::json_text(set)) == set_format::read_set(set),
{
    a_braced_text_has_no_fence(json::json_text(set));
}

// ---------------------------------------------------------------------------------------------
// Nothing but arming calls is read
// ---------------------------------------------------------------------------------------------
proof fn entries_are_armable(raw: Seq<JsonView>, n: nat)
    requires
        set_format::read_entries(raw, n) is Ok,
    ensures
        forall|i: int|
            0 <= i < set_format::read_entries(raw, n)->Ok_0.len() ==> set_format::armable().contains(
                (#[trigger] set_format::read_entries(raw, n)->Ok_0[i]).tool,
            ) && set_format::read_entries(raw, n)->Ok_0[i].args is Object,
    decreases n,
{
    if n > 0 {
        entries_are_armable(raw, (n - 1) as nat);
    }
}

/// Whatever text is read as a set, it holds at least one entry, and each names a tool that arms a stop
/// point, with an object for its arguments.
pub proof fn a_set_can_only_arm_stop_points(raw: Seq<char>)
    requires
        set_format::read_text(raw) is Ok,
    ensures
        set_format::read_text(raw)->Ok_0.len() > 0,
        forall|i: int|
            0 <= i < set_format::read_text(raw)->Ok_0.len() ==> set_format::armable().contains(
                (#[trigger] set_format::read_text(raw)->Ok_0[i]).tool,
            ) && set_format::read_text(raw)->Ok_0[i].args is Object,
{
    match json::json_reading(set_format::unfenced(text::trimmed(raw))) {
        Ok(JsonView::Object(set)) => match json::lookup(set, "entries"@) {
            Some(JsonView::Array(items)) => entries_are_armable(items, items.len()),
            _ => {},
        },
        _ => {},
    }
}

// ---------------------------------------------------------------------------------------------
// What does not cross over
// ---------------------------------------------------------------------------------------------
/// A stop point of a family is armed by the family's call and by no call of its own.
pub proof fn a_family_member_is_written_once(
    b: set_format::BuildView,
    sp: StopPoint,
    members: Set<Seq<char>>,
)
    requires
        sp.armed_on is Line,
        members.contains(sp.id@),
    ensures
        set_format::with_stop_point(b, sp, members) == b,
{
}

/// The arguments that say what a caller asked for. None of them means something in one JVM only.
pub open spec fn is_setting(key: Seq<char>) -> bool {
    ||| key == "class_pattern"@
    ||| key == "line"@
    ||| key == "method"@
    ||| key == "max_classes"@
    ||| key == "caught"@
    ||| key == "uncaught"@
    ||| key == "class_name"@
    ||| key == "field_name"@
    ||| key == "modify"@
    ||| key == "access"@
    ||| key == "exclude_classes"@
    ||| key == "kinds"@
    ||| key == "monitor_class"@
    ||| key == "min_duration_ms"@
    ||| key == "trace"@
    ||| key == "trace_frames"@
    ||| key == "hit_count"@
    ||| key == "condition"@
    ||| key == "trace_expr"@
    ||| key == "trace_max_hits"@
    ||| key == "trace_max_length"@
}

/// Whether arguments hold settings and nothing else.
pub open spec fn only_settings(args: json::Entries) -> bool {
    &&& json::ascending(args)
    &&& forall|key: Seq<char>| #[trigger] json::lookup(args, key) is Some ==> is_setting(key)
}

proof fn a_setting_more(args: json::Entries, key: Seq<char>, value: Option<JsonView>)
    requires
        only_settings(args),
        is_setting(key),
    ensures
        only_settings(set_format::with(args, key, value)),
{
    if let Some(v) = value {
        let now = json::put(args, key, v);
        json::put_keeps_order(args, key, v);
        assert forall|other: Seq<char>| #[trigger] json::lookup(now, other) is Some implies is_setting(
            other,
        ) by {
            json::what_is_bound_reads_back(args, key, v, other);
        }
    }
}

proof fn common_settings(args: json::Entries, c: set_format::Common)
    requires
        only_settings(args),
    ensures
        only_settings(set_format::common_args(args, c)),
{
    let a = json::put(args, "trace"@, JsonView::Bool(c.trace));
    a_setting_more(args, "trace"@, Some(JsonView::Bool(c.trace)));
    let frames = JsonView::Unsigned(c.trace_frames as u64);
    let b = json::put(a, "trace_frames"@, frames);
    a_setting_more(a, "trace_frames"@, Some(frames));
    let d = set_format::with(b, "hit_count"@, set_format::int_value(c.hit_count));
    a_setting_more(b, "hit_count"@, set_format::int_value(c.hit_count));
    let e = set_format::with(d, "condition"@, set_format::text_value(c.condition));
    a_setting_more(d, "condition"@, set_format::text_value(c.condition));
    let f = set_format::with(e, "trace_expr"@, set_format::texts_value(c.trace_expr));
    a_setting_more(e, "trace_expr"@, set_format::texts_value(c.trace_expr));
    let hits = match c.trace_budget {
        Some(n) => Some(JsonView::Unsigned(n as u64)),
        None => None,
    };
    let g = set_format::with(f, "trace_max_hits"@, hits);
    a_setting_more(f, "trace_max_hits"@, hits);
    let length = match c.trace_max_length {
        Some(n) => Some(JsonView::Unsigned(n as u64)),
        None => None,
    };
    a_setting_more(g, "trace_max_length"@, length);
}

proof fn line_settings(class_pattern: Seq<char>, line: Option<i32>, method: Option<Seq<char>>)
    ensures
        only_settings(set_format::line_args(class_pattern, line, method)),
{
    let none: json::Entries = Seq::empty();
    let class = JsonView::Text(class_pattern);
    let a = json::put(none, "class_pattern"@, class);
    a_setting_more(none, "class_pattern"@, Some(class));
    let b = set_format::with(a, "line"@, set_format::int_value(line));
    a_setting_more(a, "line"@, set_format::int_value(line));
    a_setting_more(b, "method"@, set_format::text_value(method));
}

proof fn a_place_is_settings(sp: StopPoint)
    ensures
        set_format::locator(sp) matches Some((_, args)) ==> only_settings(args),
{
    let none: json::Entries = Seq::empty();
    match sp.armed_on {
        stop_point::ArmedOn::Line(bp) => {
            line_settings(bp.class_pattern@, bp.arm_line, set_format::seen(bp.arm_method));
        },
        stop_point::ArmedOn::Exception(er) => {
            let class = if er.class_pattern@.len() == 0 {
                None
            } else {
                Some(JsonView::Text(er.class_pattern@))
            };
            let a = set_format::with(none, "class_pattern"@, class);
            a_setting_more(none, "class_pattern"@, class);
            let b = json::put(a, "caught"@, JsonView::Bool(er.caught));
            a_setting_more(a, "caught"@, Some(JsonView::Bool(er.caught)));
            a_setting_more(b, "uncaught"@, Some(JsonView::Bool(er.uncaught)));
        },
        stop_point::ArmedOn::Watchpoint(wp) => {
            let class = JsonView::Text(wp.class_name@);
            let a = json::put(none, "class_name"@, class);
            a_setting_more(none, "class_name"@, Some(class));
            let field = JsonView::Text(wp.field_name@);
            let b = json::put(a, "field_name"@, field);
            a_setting_more(a, "field_name"@, Some(field));
            let modify = JsonView::Bool(wp.kind == WatchKind::Modify);
            let c = json::put(b, "modify"@, modify);
            a_setting_more(b, "modify"@, Some(modify));
            a_setting_more(c, "access"@, Some(JsonView::Bool(wp.kind == WatchKind::Access)));
        },
        stop_point::ArmedOn::MethodExit(me) => {
            let class = JsonView::Text(me.class_pattern@);
            let a = json::put(none, "class_pattern"@, class);
            a_setting_more(none, "class_pattern"@, Some(class));
            let method = set_format::text_value(set_format::seen(me.method));
            let b = set_format::with(a, "method"@, method);
            a_setting_more(a, "method"@, method);
            let excluded = set_format::texts_value(text::views(me.exclude_classes@));
            a_setting_more(b, "exclude_classes"@, excluded);
        },
        stop_point::ArmedOn::Monitor(_) => {},
    }
}

proof fn a_group_is_settings(group: Seq<StopPoint>)
    ensures
        only_settings(set_format::group_call(group).args),
{
    let none: json::Entries = Seq::empty();
    let first = group[0];
    let (class, least) = match first.armed_on {
        stop_point::ArmedOn::Monitor(m) => (set_format::seen(m.monitor_class), m.min_duration_ms),
        _ => (None, None),
    };
    let kinds = json::texts_view(set_format::kind_words(group));
    let a = json::put(none, "kinds"@, kinds);
    a_setting_more(none, "kinds"@, Some(kinds));
    let b = set_format::with(a, "monitor_class"@, set_format::text_value(class));
    a_setting_more(a, "monitor_class"@, set_format::text_value(class));
    let duration = match least {
        Some(n) => Some(JsonView::Unsigned(n)),
        None => None,
    };
    let c = set_format::with(b, "min_duration_ms"@, duration);
    a_setting_more(b, "min_duration_ms"@, duration);
    common_settings(
        c,
        set_format::Common { condition: None, ..set_format::stop_point_common(first) },
    );
}

/// Whether calls hold settings and nothing else.
pub open spec fn all_settings(calls: Seq<set_format::CallView>) -> bool {
    forall|i: int| 0 <= i < calls.len() ==> only_settings((#[trigger] calls[i]).args)
}

proof fn stop_points_are_settings(
    b: set_format::BuildView,
    ids: Seq<Seq<char>>,
    all: Map<Seq<char>, StopPoint>,
    members: Set<Seq<char>>,
)
    requires
        all_settings(b.calls),
    ensures
        all_settings(set_format::with_stop_points(b, ids, all, members).calls),
    decreases ids.len(),
{
    if ids.len() > 0 {
        stop_points_are_settings(b, ids.drop_last(), all, members);
        let sp = all[ids.last()];
        a_place_is_settings(sp);
        if let Some((_, args)) = set_format::locator(sp) {
            common_settings(args, set_format::stop_point_common(sp));
        }
    }
}

proof fn families_are_settings(
    b: set_format::BuildView,
    ids: Seq<Seq<char>>,
    families: Map<Seq<char>, PatternStopSet>,
    all: Map<Seq<char>, StopPoint>,
)
    requires
        all_settings(b.calls),
    ensures
        all_settings(set_format::with_families(b, ids, families, all).calls),
    decreases ids.len(),
{
    if ids.len() > 0 {
        families_are_settings(b, ids.drop_last(), families, all);
        let fam = families[ids.last()];
        let line = set_format::family_line(text::views(fam.members@), all);
        let args = set_format::line_args(fam.class_pattern@, line, set_format::seen(fam.method));
        line_settings(fam.class_pattern@, line, set_format::seen(fam.method));
        let most = JsonView::Unsigned(fam.max_classes as u64);
        a_setting_more(args, "max_classes"@, Some(most));
        common_settings(json::put(args, "max_classes"@, most), set_format::family_common(fam));
    }
}

proof fn pending_are_settings(b: set_format::BuildView, pending: Seq<PendingBreakpoint>)
    requires
        all_settings(b.calls),
    ensures
        all_settings(set_format::with_all_pending(b, pending).calls),
    decreases pending.len(),
{
    if pending.len() > 0 {
        pending_are_settings(b, pending.drop_last());
        let pb = pending.last();
        line_settings(pb.class_pattern@, pb.line, set_format::seen(pb.method));
        common_settings(
            set_format::line_args(pb.class_pattern@, pb.line, set_format::seen(pb.method)),
            set_format::pending_common(pb),
        );
    }
}

proof fn groups_are_settings(b: set_format::BuildView, groups: Seq<Seq<StopPoint>>)
    requires
        all_settings(b.calls),
    ensures
        all_settings(set_format::with_groups(b, groups).calls),
    decreases groups.len(),
{
    if groups.len() > 0 {
        groups_are_settings(b, groups.drop_last());
        a_group_is_settings(groups.last());
    }
}

/// No filter crosses over: whatever a session holds, it is written down by what a caller asked for alone,
/// and never by a number that means something in one JVM only.
pub proof fn no_filter_crosses_over<E>(s: session::DebugSession<E>, l: set_format::Listing)
    ensures
        all_settings(set_format::written(s, l).calls),
        !is_setting("thread_id"@),
        !is_setting("instance_id"@),
        forall|i: int|
            0 <= i < set_format::written(s, l).calls.len() ==> {
                let args = (#[trigger] set_format::written(s, l).calls[i]).args;
                json::lookup(args, "thread_id"@) is None && json::lookup(args, "instance_id"@) is None
            },
{
    let all = s.state.stop_points@;
    let members = set_format::family_members(s.pattern_sets@);
    let b = set_format::nothing();
    families_are_settings(b, l.families, s.pattern_sets@, all);
    let b = set_format::with_families(b, l.families, s.pattern_sets@, all);
    stop_points_are_settings(b, l.lines, all, members);
    let b = set_format::with_stop_points(b, l.lines, all, members);
    pending_are_settings(b, s.state.pending_breakpoints@);
    let b = set_format::with_all_pending(b, s.state.pending_breakpoints@);
    stop_points_are_settings(b, l.exceptions, all, members);
    let b = set_format::with_stop_points(b, l.exceptions, all, members);
    stop_points_are_settings(b, l.watchpoints, all, members);
    let b = set_format::with_stop_points(b, l.watchpoints, all, members);
    stop_points_are_settings(b, l.method_exits, all, members);
    let b = set_format::with_stop_points(b, l.method_exits, all, members);
    monitor_filters_add_no_call(b, l.monitors, all);
    groups_are_settings(
        set_format::without_monitor_filters(b, l.monitors, all),
        set_format::grouped(l.monitors, all),
    );
    an_id_is_no_setting();
    let calls = set_format::written(s, l).calls;
    assert forall|i: int| 0 <= i < calls.len() implies json::lookup(
        (#[trigger] calls[i]).args,
        "thread_id"@,
    ) is None && json::lookup(calls[i].args, "instance_id"@) is None by {
        assert(only_settings(calls[i].args));
    }
}

proof fn an_id_is_no_setting()
    ensures
        !is_setting("thread_id"@),
        !is_setting("instance_id"@),
{
    reveal_strlit("thread_id");
    reveal_strlit("instance_id");
    reveal_strlit("class_pattern");
    reveal_strlit("line");
    reveal_strlit("method");
    reveal_strlit("max_classes");
    reveal_strlit("caught");
    reveal_strlit("uncaught");
    reveal_strlit("class_name");
    reveal_strlit("field_name");
    reveal_strlit("modify");
    reveal_strlit("access");
    reveal_strlit("exclude_classes");
    reveal_strlit("kinds");
    reveal_strlit("monitor_class");
    reveal_strlit("min_duration_ms");
    reveal_strlit("trace");
    reveal_strlit("trace_frames");
    reveal_strlit("hit_count");
    reveal_strlit("condition");
    reveal_strlit("trace_expr");
    reveal_strlit("trace_max_hits");
    reveal_strlit("trace_max_length");
    assert("thread_id"@.len() == 9 && "thread_id"@[0] == 't');
    assert("hit_count"@[0] == 'h' && "condition"@[0] == 'c');
    assert("instance_id"@.len() == 11 && "instance_id"@[0] == 'i');
}

/// Whether whatever is named as left out in `a` is named in `b` too.
spec fn names_as_much(a: set_format::BuildView, b: set_format::BuildView) -> bool {
    forall|id: Seq<char>|
        #![trigger b.instance.contains(id)]
        #![trigger b.thread.contains(id)]
        #![trigger b.undescribable.contains(id)]
        (a.instance.contains(id) ==> b.instance.contains(id)) && (a.thread.contains(id)
            ==> b.thread.contains(id)) && (a.undescribable.contains(id) ==> b.undescribable.contains(
            id,
        ))
}

proof fn pushing_keeps(s: Seq<Seq<char>>, x: Seq<char>)
    ensures
        s.push(x).contains(x),
        forall|y: Seq<char>| s.contains(y) ==> #[trigger] s.push(x).contains(y),
{
    assert(s.push(x)[s.len() as int] == x);
    assert forall|y: Seq<char>| s.contains(y) implies #[trigger] s.push(x).contains(y) by {
        assert(s.push(x)[s.index_of(y)] == y);
    }
}

proof fn a_stop_point_keeps_names(
    b: set_format::BuildView,
    sp: StopPoint,
    members: Set<Seq<char>>,
)
    ensures
        names_as_much(b, set_format::with_stop_point(b, sp, members)),
{
    pushing_keeps(b.instance, sp.id@);
    pushing_keeps(b.thread, sp.id@);
    pushing_keeps(b.undescribable, sp.id@);
}

/// Whether what is left out of a stop point is named: its filters, or the stop point as a whole.
pub open spec fn is_accounted_for(w: set_format::BuildView, sp: StopPoint) -> bool {
    ||| w.undescribable.contains(sp.id@)
    ||| (sp.thread_filter is Some ==> w.thread.contains(sp.id@)) && (sp.instance_filter is Some
        ==> w.instance.contains(sp.id@))
}

proof fn stop_points_keep_names(
    b: set_format::BuildView,
    ids: Seq<Seq<char>>,
    all: Map<Seq<char>, StopPoint>,
    members: Set<Seq<char>>,
)
    ensures
        names_as_much(b, set_format::with_stop_points(b, ids, all, members)),
        forall|i: int|
            0 <= i < ids.len() && !(all[#[trigger] ids[i]].armed_on is Monitor) && !(
            all[ids[i]].armed_on is Line && members.contains(all[ids[i]].id@)) ==> is_accounted_for(
                set_format::with_stop_points(b, ids, all, members),
                all[ids[i]],
            ),
    decreases ids.len(),
{
    if ids.len() > 0 {
        let rest = ids.drop_last();
        let sp = all[ids.last()];
        let before = set_format::with_stop_points(b, rest, all, members);
        let after = set_format::with_stop_points(b, ids, all, members);
        stop_points_keep_names(b, rest, all, members);
        a_stop_point_keeps_names(before, sp, members);
        assert(after == set_format::with_stop_point(before, sp, members));
        assert forall|id: Seq<char>|
            #![trigger after.instance.contains(id)]
            #![trigger after.thread.contains(id)]
            #![trigger after.undescribable.contains(id)]
            (b.instance.contains(id) ==> after.instance.contains(id)) && (b.thread.contains(id)
                ==> after.thread.contains(id)) && (b.undescribable.contains(id)
                ==> after.undescribable.contains(id)) by {
            assert(b.instance.contains(id) ==> before.instance.contains(id));
            assert(b.thread.contains(id) ==> before.thread.contains(id));
            assert(b.undescribable.contains(id) ==> before.undescribable.contains(id));
        }
        assert forall|i: int|
            0 <= i < ids.len() && !(all[#[trigger] ids[i]].armed_on is Monitor) && !(
            all[ids[i]].armed_on is Line && members.contains(all[ids[i]].id@)) implies is_accounted_for(
            after,
            all[ids[i]],
        ) by {
            if i < rest.len() {
                assert(rest[i] == ids[i]);
                assert(is_accounted_for(before, all[ids[i]]));
            } else {
                pushing_keeps(before.instance, sp.id@);
                pushing_keeps(before.thread, sp.id@);
                pushing_keeps(before.undescribable, sp.id@);
            }
        }
    }
}

proof fn names_add_up(
    a: set_format::BuildView,
    b: set_format::BuildView,
    c: set_format::BuildView,
)
    requires
        names_as_much(a, b),
        names_as_much(b, c),
    ensures
        names_as_much(a, c),
{
    assert forall|id: Seq<char>|
        #![trigger c.instance.contains(id)]
        #![trigger c.thread.contains(id)]
        #![trigger c.undescribable.contains(id)]
        (a.instance.contains(id) ==> c.instance.contains(id)) && (a.thread.contains(id)
            ==> c.thread.contains(id)) && (a.undescribable.contains(id) ==> c.undescribable.contains(
            id,
        )) by {
        assert(a.instance.contains(id) ==> b.instance.contains(id));
        assert(a.thread.contains(id) ==> b.thread.contains(id));
        assert(a.undescribable.contains(id) ==> b.undescribable.contains(id));
    }
}

proof fn pending_keep_names(b: set_format::BuildView, pending: Seq<PendingBreakpoint>)
    ensures
        names_as_much(b, set_format::with_all_pending(b, pending)),
    decreases pending.len(),
{
    if pending.len() > 0 {
        let before = set_format::with_all_pending(b, pending.drop_last());
        pending_keep_names(b, pending.drop_last());
        pushing_keeps(before.instance, pending.last().bp_id@);
        pushing_keeps(before.thread, pending.last().bp_id@);
        names_add_up(b, before, set_format::with_all_pending(b, pending));
    }
}

proof fn monitors_keep_names(
    b: set_format::BuildView,
    ids: Seq<Seq<char>>,
    all: Map<Seq<char>, StopPoint>,
)
    ensures
        names_as_much(b, set_format::without_monitor_filters(b, ids, all)),
        forall|i: int|
            0 <= i < ids.len() && all[#[trigger] ids[i]].thread_filter is Some
                ==> set_format::without_monitor_filters(b, ids, all).thread.contains(ids[i]),
    decreases ids.len(),
{
    if ids.len() > 0 {
        let rest = ids.drop_last();
        let before = set_format::without_monitor_filters(b, rest, all);
        let after = set_format::without_monitor_filters(b, ids, all);
        monitors_keep_names(b, rest, all);
        pushing_keeps(before.thread, ids.last());
        names_add_up(b, before, after);
        assert forall|i: int|
            0 <= i < ids.len() && all[#[trigger] ids[i]].thread_filter is Some implies after.thread.contains(
            ids[i],
        ) by {
            if i < rest.len() {
                assert(rest[i] == ids[i]);
                assert(before.thread.contains(ids[i]));
            }
        }
    }
}

proof fn groups_keep_names(b: set_format::BuildView, groups: Seq<Seq<StopPoint>>)
    ensures
        set_format::with_groups(b, groups).instance == b.instance,
        set_format::with_groups(b, groups).thread == b.thread,
        set_format::with_groups(b, groups).undescribable == b.undescribable,
    decreases groups.len(),
{
    if groups.len() > 0 {
        groups_keep_names(b, groups.drop_last());
    }
}

/// What an export leaves out of a session it names: of every stop point, its thread filter and its instance
/// filter, or the stop point as a whole where no call describes it. A line stop of a family goes by the
/// family, and monitor stops have no instance filter.
pub proof fn nothing_is_left_out_unnamed<E>(
    s: session::DebugSession<E>,
    l: set_format::Listing,
    id: Seq<char>,
)
    requires
        s.wf(),
        set_format::is_listing(l, s),
        s.state.stop_points@.dom().contains(id),
        s.state.stop_points@[id].armed_on is Line ==> !set_format::family_members(
            s.pattern_sets@,
        ).contains(id),
        s.state.stop_points@[id].armed_on is Monitor ==> s.state.stop_points@[id].instance_filter is None,
    ensures
        is_accounted_for(set_format::written(s, l), s.state.stop_points@[id]),
{
    let all = s.state.stop_points@;
    let sp = all[id];
    let members = set_format::family_members(s.pattern_sets@);
    let b1 = set_format::with_families(set_format::nothing(), l.families, s.pattern_sets@, all);
    let b2 = set_format::with_stop_points(b1, l.lines, all, members);
    let b3 = set_format::with_all_pending(b2, s.state.pending_breakpoints@);
    let b4 = set_format::with_stop_points(b3, l.exceptions, all, members);
    let b5 = set_format::with_stop_points(b4, l.watchpoints, all, members);
    let b6 = set_format::with_stop_points(b5, l.method_exits, all, members);
    let b7 = set_format::without_monitor_filters(b6, l.monitors, all);
    let w = set_format::written(s, l);
    stop_points_keep_names(b1, l.lines, all, members);
    pending_keep_names(b2, s.state.pending_breakpoints@);
    stop_points_keep_names(b3, l.exceptions, all, members);
    stop_points_keep_names(b4, l.watchpoints, all, members);
    stop_points_keep_names(b5, l.method_exits, all, members);
    monitors_keep_names(b6, l.monitors, all);
    groups_keep_names(b7, set_format::grouped(l.monitors, all));
    names_add_up(b5, b6, b7);
    names_add_up(b4, b5, b7);
    names_add_up(b3, b4, b7);
    names_add_up(b2, b3, b7);
    let kind = sp.armed_on.kind_of();
    assert(set_format::of_kind(all, kind).contains(id));
    match sp.armed_on {
        stop_point::ArmedOn::Line(_) => {
            assert(l.lines.contains(id));
            assert(l.lines[l.lines.index_of(id)] == id);
            assert(is_accounted_for(b2, sp));
        },
        stop_point::ArmedOn::Exception(_) => {
            assert(l.exceptions.contains(id));
            assert(l.exceptions[l.exceptions.index_of(id)] == id);
            assert(is_accounted_for(b4, sp));
        },
        stop_point::ArmedOn::Watchpoint(_) => {
            assert(l.watchpoints.contains(id));
            assert(l.watchpoints[l.watchpoints.index_of(id)] == id);
            assert(is_accounted_for(b5, sp));
        },
        stop_point::ArmedOn::MethodExit(_) => {
            assert(l.method_exits.contains(id));
            assert(l.method_exits[l.method_exits.index_of(id)] == id);
            assert(is_accounted_for(b6, sp));
        },
        stop_point::ArmedOn::Monitor(_) => {
            assert(l.monitors.contains(id));
            assert(l.monitors[l.monitors.index_of(id)] == id);
        },
    }
}

/// Whether groups are by settings: those of a group agree, and no two groups do.
pub open spec fn by_settings(groups: Seq<Seq<StopPoint>>) -> bool {
    &&& forall|g: int| 0 <= g < groups.len() ==> (#[trigger] groups[g]).len() > 0
    &&& forall|g: int, k: int|
        0 <= g < groups.len() && 0 <= k < groups[g].len() ==> set_format::same_settings(
            groups[g][0],
            #[trigger] groups[g][k],
        )
    &&& forall|g: int, h: int|
        0 <= g < groups.len() && 0 <= h < groups.len() && g != h ==> !set_format::same_settings(
            (#[trigger] groups[g])[0],
            (#[trigger] groups[h])[0],
        )
}

/// Whether a stop point is in one of the groups.
pub open spec fn is_grouped(groups: Seq<Seq<StopPoint>>, sp: StopPoint) -> bool {
    exists|g: int| 0 <= g < groups.len() && (#[trigger] groups[g]).contains(sp)
}

proof fn the_first_that_agrees(groups: Seq<Seq<StopPoint>>, sp: StopPoint)
    ensures
        0 <= set_format::group_of(groups, sp) <= groups.len(),
        set_format::group_of(groups, sp) < groups.len() ==> set_format::same_settings(
            groups[set_format::group_of(groups, sp)][0],
            sp,
        ),
        forall|k: int|
            0 <= k < set_format::group_of(groups, sp) ==> !set_format::same_settings(
                (#[trigger] groups[k])[0],
                sp,
            ),
    decreases groups.len(),
{
    if groups.len() > 0 && !set_format::same_settings(groups[0][0], sp) {
        let rest = groups.drop_first();
        the_first_that_agrees(rest, sp);
        assert forall|k: int| 0 <= k < set_format::group_of(groups, sp) implies
            !set_format::same_settings((#[trigger] groups[k])[0], sp) by {
            if k > 0 {
                assert(rest[k - 1] == groups[k]);
            }
        }
    }
}

proof fn one_more_is_grouped(groups: Seq<Seq<StopPoint>>, sp: StopPoint, other: StopPoint)
    requires
        by_settings(groups),
        sp.armed_on is Monitor,
    ensures
        by_settings(set_format::grouped_with(groups, sp)),
        is_grouped(set_format::grouped_with(groups, sp), sp),
        is_grouped(groups, other) ==> is_grouped(set_format::grouped_with(groups, sp), other),
{
    the_first_that_agrees(groups, sp);
    let at = set_format::group_of(groups, sp);
    let now = set_format::grouped_with(groups, sp);
    if at < groups.len() {
        assert(now[at] == groups[at].push(sp));
        assert(now[at][groups[at].len() as int] == sp);
    } else {
        assert(now[at] == seq![sp]);
        assert(now[at][0] == sp);
    }
    assert(now[at].contains(sp));
    assert forall|g: int| 0 <= g < groups.len() implies (#[trigger] now[g])[0] == groups[g][0] by {
        assert(groups[g].len() > 0);
    }
    assert forall|g: int, k: int|
        0 <= g < now.len() && 0 <= k < now[g].len() implies set_format::same_settings(
        now[g][0],
        #[trigger] now[g][k],
    ) by {
        if g < groups.len() && k < groups[g].len() {
            assert(now[g][k] == groups[g][k]);
        }
    }
    if is_grouped(groups, other) {
        let g = choose|g: int| 0 <= g < groups.len() && (#[trigger] groups[g]).contains(other);
        let k = groups[g].index_of(other);
        assert(now[g][k] == other);
        assert(now[g].contains(other));
    }
}

/// Monitor stops are armed by one call exactly where they agree in every setting: each is in a group,
/// those of a group agree, and no two groups do.
pub proof fn monitors_that_agree_are_armed_together(
    ids: Seq<Seq<char>>,
    all: Map<Seq<char>, StopPoint>,
    i: int,
)
    requires
        forall|k: int| 0 <= k < ids.len() ==> all[#[trigger] ids[k]].armed_on is Monitor,
        0 <= i < ids.len(),
    ensures
        by_settings(set_format::grouped(ids, all)),
        is_grouped(set_format::grouped(ids, all), all[ids[i]]),
    decreases ids.len(),
{
    let rest = ids.drop_last();
    let last = all[ids.last()];
    assert(ids[ids.len() - 1] == ids.last());
    assert forall|k: int| 0 <= k < rest.len() implies all[#[trigger] rest[k]].armed_on is Monitor by {
        assert(rest[k] == ids[k]);
    }
    if rest.len() > 0 {
        let j = if i < rest.len() {
            i
        } else {
            0
        };
        monitors_that_agree_are_armed_together(rest, all, j);
        assert(rest[j] == ids[j]);
    }
    one_more_is_grouped(set_format::grouped(rest, all), last, all[ids[i]]);
}

// ---------------------------------------------------------------------------------------------
// Order
// ---------------------------------------------------------------------------------------------
proof fn last_of_prefix(p: Seq<char>, digits: Seq<char>)
    requires
        p.len() > 0,
        p.last() == '_',
        forall|i: int| 0 <= i < digits.len() ==> text::is_digit(#[trigger] digits[i]),
    ensures
        text::last_of(p + digits, '_') == p.len() - 1,
    decreases digits.len(),
{
    let s = p + digits;
    if digits.len() == 0 {
        assert(s =~= p);
    } else {
        let rest = digits.drop_last();
        assert forall|i: int| 0 <= i < rest.len() implies text::is_digit(#[trigger] rest[i]) by {
            assert(rest[i] == digits[i]);
        }
        last_of_prefix(p, rest);
        assert(s.drop_last() =~= p + rest);
        assert(s.last() == digits.last());
        assert(text::is_digit(digits.last()));
    }
}

/// Ids of one prefix are ordered by their numbers, so the tenth comes behind the second.
pub proof fn ids_are_ordered_by_number(prefix: Seq<char>, a: u64, b: u64)
    requires
        prefix.len() > 0,
        prefix.last() == '_',
    ensures
        set_format::in_order(prefix + text::dec(a as nat), prefix + text::dec(b as nat)) <==> a <= b,
{
    numbered_key(prefix, a);
    numbered_key(prefix, b);
    text::before_is_strict(prefix, prefix);
}

proof fn order_is_strict(a: Seq<char>, b: Seq<char>)
    requires
        set_format::in_order(a, b),
        set_format::in_order(b, a),
    ensures
        a == b,
{
    let (p, m) = set_format::id_key(a);
    let (q, n) = set_format::id_key(b);
    text::before_is_strict(p, q);
    text::before_is_strict(q, p);
    text::before_is_strict(a, b);
}

proof fn the_rest_is_listed(ids: Seq<Seq<char>>, domain: Set<Seq<char>>)
    requires
        set_format::lists(ids, domain),
        ids.len() > 0,
    ensures
        set_format::lists(ids.drop_first(), domain.remove(ids[0])),
{
    let rest = ids.drop_first();
    let left = domain.remove(ids[0]);
    assert forall|id: Seq<char>| #[trigger] rest.contains(id) <==> left.contains(id) by {
        if rest.contains(id) {
            let k = choose|k: int| 0 <= k < rest.len() && rest[k] == id;
            assert(ids[k + 1] == id);
            assert(ids.contains(id));
        }
        if left.contains(id) {
            assert(ids.contains(id));
            let k = choose|k: int| 0 <= k < ids.len() && ids[k] == id;
            assert(rest[k - 1] == id);
        }
    }
    assert forall|i: int, j: int| 0 <= i < j < rest.len() implies set_format::in_order(
        #[trigger] rest[i],
        #[trigger] rest[j],
    ) by {
        assert(rest[i] == ids[i + 1] && rest[j] == ids[j + 1]);
    }
}

/// The ids of a domain are listed in one order only.
pub proof fn ids_are_listed_in_one_order(a: Seq<Seq<char>>, b: Seq<Seq<char>>, domain: Set<Seq<char>>)
    requires
        set_format::lists(a, domain),
        set_format::lists(b, domain),
    ensures
        a == b,
    decreases a.len(),
{
    if a.len() == 0 {
        if b.len() > 0 {
            assert(b.contains(b[0]));
            assert(a.contains(b[0]));
        }
        assert(a =~= b);
    } else {
        assert(a.contains(a[0]));
        assert(b.contains(a[0]));
        let k = choose|k: int| 0 <= k < b.len() && b[k] == a[0];
        assert(b.contains(b[0]));
        assert(a.contains(b[0]));
        let n = choose|n: int| 0 <= n < a.len() && a[n] == b[0];
        if k > 0 && n > 0 {
            assert(set_format::in_order(a[0], a[n]));
            assert(set_format::in_order(b[0], b[k]));
            order_is_strict(a[0], b[0]);
        }
        the_rest_is_listed(a, domain);
        the_rest_is_listed(b, domain);
        ids_are_listed_in_one_order(a.drop_first(), b.drop_first(), domain.remove(a[0]));
        assert(a =~= seq![a[0]] + a.drop_first());
        assert(b =~= seq![b[0]] + b.drop_first());
    }
}

/// What a map holds settles how it is sorted, and how it came to hold it does not: every entry is there once,
/// no id is followed by one with a smaller prefix or, of the same prefix, with a smaller number, and two maps
/// that hold the same are sorted alike.
pub proof fn what_a_map_holds_settles_its_order<V>(
    map: Map<Seq<char>, V>,
    a: Seq<(&String, &V)>,
    b: Seq<(&String, &V)>,
)
    requires
        set_format::rows_of(a, map, map.dom()),
        set_format::rows_of(b, map, map.dom()),
    ensures
        forall|id: Seq<char>| #[trigger]
            map.dom().contains(id) ==> exists|i: int|
                0 <= i < a.len() && (#[trigger] a[i]).0@ == id && *a[i].1 == map[id],
        forall|i: int, j: int|
            0 <= i < j < a.len() ==> (#[trigger] a[i]).0@ != (#[trigger] a[j]).0@,
        forall|i: int, j: int|
            0 <= i < j < a.len() ==> {
                let (p, m) = set_format::id_key((#[trigger] a[i]).0@);
                let (q, n) = set_format::id_key((#[trigger] a[j]).0@);
                text::before(p, q) || (p == q && m <= n)
            },
        a.len() == b.len(),
        forall|i: int|
            0 <= i < a.len() ==> (#[trigger] a[i]).0@ == b[i].0@ && *a[i].1 == *b[i].1,
{
    let ids = set_format::ids_of(a);
    ids_are_listed_in_one_order(ids, set_format::ids_of(b), map.dom());
    assert(ids.len() == a.len() && set_format::ids_of(b).len() == b.len());
    assert forall|i: int| 0 <= i < a.len() implies (#[trigger] a[i]).0@ == b[i].0@ && *a[i].1
        == *b[i].1 by {
        assert(ids[i] == set_format::ids_of(b)[i]);
        assert(b[i].0@ == ids[i]);
    }
    assert forall|id: Seq<char>| #[trigger] map.dom().contains(id) implies exists|i: int|
        0 <= i < a.len() && (#[trigger] a[i]).0@ == id && *a[i].1 == map[id] by {
        assert(ids.contains(id));
        let i = choose|i: int| 0 <= i < ids.len() && ids[i] == id;
        assert(a[i].0@ == id && *a[i].1 == map[id]);
    }
    assert forall|i: int, j: int| 0 <= i < j < a.len() implies (#[trigger] a[i]).0@ != (
    #[trigger] a[j]).0@ && set_format::in_order(a[i].0@, a[j].0@) by {
        assert(ids[i] == a[i].0@ && ids[j] == a[j].0@);
    }
}

/// What a session holds settles what is written of it, down to the order: two sessions that hold the
/// same families, stop points and deferrals are written alike.
pub proof fn what_is_held_settles_what_is_written<E>(
    s: session::DebugSession<E>,
    l: set_format::Listing,
    t: session::DebugSession<E>,
    m: set_format::Listing,
)
    requires
        set_format::is_listing(l, s),
        set_format::is_listing(m, t),
        s.pattern_sets@ == t.pattern_sets@,
        s.state.stop_points@ == t.state.stop_points@,
        s.state.pending_breakpoints@ == t.state.pending_breakpoints@,
    ensures
        l == m,
        set_format::written(s, l) == set_format::written(t, m),
{
    let all = s.state.stop_points@;
    ids_are_listed_in_one_order(l.families, m.families, s.pattern_sets@.dom());
    ids_are_listed_in_one_order(
        l.lines,
        m.lines,
        set_format::of_kind(all, stop_point::StopPointKind::Line),
    );
    ids_are_listed_in_one_order(
        l.exceptions,
        m.exceptions,
        set_format::of_kind(all, stop_point::StopPointKind::Exception),
    );
    ids_are_listed_in_one_order(
        l.watchpoints,
        m.watchpoints,
        set_format::of_kind(all, stop_point::StopPointKind::Watchpoint),
    );
    ids_are_listed_in_one_order(
        l.method_exits,
        m.method_exits,
        set_format::of_kind(all, stop_point::StopPointKind::MethodExit),
    );
    ids_are_listed_in_one_order(
        l.monitors,
        m.monitors,
        set_format::of_kind(all, stop_point::StopPointKind::Monitor),
    );
}

proof fn numbered_key(prefix: Seq<char>, a: u64)
    requires
        prefix.len() > 0,
        prefix.last() == '_',
    ensures
        set_format::id_key(prefix + text::dec(a as nat)) == (prefix, a),
{
    let digits = text::dec(a as nat);
    let id = prefix + digits;
    text::dec_is_digits(a as nat);
    last_of_prefix(prefix, digits);
    assert(id.take(prefix.len() as int) =~= prefix);
    assert(id.skip(prefix.len() as int) =~= digits);
    text::a_numeral_reads_back(a as nat, 10);
    assert(text::is_digit(digits[0]));
    assert(text::unsigned(digits, 10) == Some(a));
}

// ---------------------------------------------------------------------------------------------
// What is read
// ---------------------------------------------------------------------------------------------
/// The entries of a set are read one by one in their order, each by itself, and a set is read only where
/// every one of them is an entry.
pub proof fn entries_are_read_one_by_one(raw: Seq<JsonView>, n: nat, i: int)
    requires
        set_format::read_entries(raw, n) is Ok,
        0 <= i < n,
    ensures
        set_format::read_entries(raw, n)->Ok_0.len() == n,
        set_format::read_entry(i, raw[i]) is Ok,
        set_format::read_entries(raw, n)->Ok_0[i] == set_format::read_entry(i, raw[i])->Ok_0,
    decreases n,
{
    let m = (n - 1) as nat;
    if m == 0 {
        assert(set_format::read_entries(raw, 0)->Ok_0.len() == 0);
    } else {
        if i < m {
            entries_are_read_one_by_one(raw, m, i);
        } else {
            entries_are_read_one_by_one(raw, m, 0);
        }
    }
}

/// An entry is read as the tool that it names, which arms a stop point, with the arguments it holds, none
/// where it holds none, and as enabled unless it says that it is not.
pub proof fn an_entry_is_read_as_it_stands(i: int, entry: json::Entries, tool: Seq<char>)
    requires
        json::lookup(entry, "tool"@) == Some(JsonView::Text(tool)),
        tool == "debug.set_line_stop"@ || tool == "debug.set_exception_stop"@ || tool
            == "debug.set_field_stop"@ || tool == "debug.set_method_exit_stop"@ || tool
            == "debug.set_monitor_stop"@,
        json::lookup(entry, "args"@) matches Some(args) ==> args is Object,
    ensures
        set_format::read_entry(i, JsonView::Object(entry)) is Ok,
        ({
            let read = set_format::read_entry(i, JsonView::Object(entry))->Ok_0;
            &&& read.tool == tool
            &&& read.enabled <==> json::lookup(entry, "enabled"@) != Some(JsonView::Bool(false))
            &&& read.args == match json::lookup(entry, "args"@) {
                Some(args) => args,
                None => JsonView::Object(Seq::empty()),
            }
        }),
{
    let all = set_format::armable();
    assert(all[0] == "debug.set_line_stop"@ && all[1] == "debug.set_exception_stop"@ && all[2]
        == "debug.set_field_stop"@ && all[3] == "debug.set_method_exit_stop"@ && all[4]
        == "debug.set_monitor_stop"@);
}

/// Two monitor stops are armed by one call exactly where they agree in everything that the call says of
/// both, and in the thread they are filtered by.
pub proof fn one_call_is_for_stops_that_agree(
    a: StopPoint,
    b: StopPoint,
    m: stop_point::MonitorStop,
    n: stop_point::MonitorStop,
)
    requires
        a.armed_on == stop_point::ArmedOn::Monitor(m),
        b.armed_on == stop_point::ArmedOn::Monitor(n),
    ensures
        set_format::same_settings(a, b) <==> {
            &&& a.thread_filter == b.thread_filter
            &&& m.monitor_class is Some == n.monitor_class is Some
            &&& m.monitor_class is Some ==> m.monitor_class->0@ == n.monitor_class->0@
            &&& m.min_duration_ms == n.min_duration_ms
            &&& a.trace == b.trace
            &&& a.hit_count == b.hit_count
            &&& a.trace_frames == b.trace_frames
            &&& a.trace_max_length == b.trace_max_length
            &&& a.trace_expr@.len() == b.trace_expr@.len()
            &&& forall|i: int|
                0 <= i < a.trace_expr@.len() ==> (#[trigger] a.trace_expr@[i])@ == b.trace_expr@[i]@
        },
{
    let x = text::views(a.trace_expr@);
    let y = text::views(b.trace_expr@);
    assert(x.len() == a.trace_expr@.len() && y.len() == b.trace_expr@.len());
    if x == y {
        assert forall|i: int| 0 <= i < a.trace_expr@.len() implies (#[trigger] a.trace_expr@[i])@
            == b.trace_expr@[i]@ by {
            assert(x[i] == y[i]);
        }
    }
    if x.len() == y.len() && forall|i: int|
        0 <= i < a.trace_expr@.len() ==> (#[trigger] a.trace_expr@[i])@ == b.trace_expr@[i]@ {
        assert forall|i: int| 0 <= i < x.len() implies x[i] == y[i] by {
            assert(a.trace_expr@[i]@ == b.trace_expr@[i]@);
        }
        assert(x =~= y);
    }
}

} // verus!
