//! A stop-point set: the stop points of a session in a form that outlives it.
//!
//! A set is a list of the calls that would arm the stop points again, so that reading one back goes
//! through the same checks as any other call. It holds what the caller asked for, a class and a line
//! or a method, and nothing that only one JVM understands. A set may name five tools, each of which
//! arms a stop point and does nothing else.

use crate::jdwp::WatchKind;
use crate::json;
use crate::json::{Json, JsonView};
use crate::session::{DebugSession, PatternStopSet, PendingBreakpoint};
use crate::set_format;
use crate::set_laws;
pub use crate::set_format::{ARMABLE_TOOLS, FORMAT_KEY, FORMAT_VERSION};
use crate::stop_point::{ArmedOn, StopPoint, StopPointKind};
use crate::text;
use crate::text_map::TextMap;
use vstd::prelude::*;

verus! {

/// One entry of a set: the call that would arm one stop point.
#[derive(Debug)]
pub struct SetEntry {
    pub tool: String,
    /// Whether the stop point was enabled when the set was written.
    pub enabled: bool,
    /// The arguments, as the tool takes them.
    pub args: Json,
}

impl View for SetEntry {
    type V = set_format::EntryView;

    open spec fn view(&self) -> set_format::EntryView {
        set_format::EntryView { tool: self.tool@, enabled: self.enabled, args: self.args@ }
    }
}

/// What a set could not carry.
#[derive(Debug, PartialEq, Eq)]
pub struct Dropped {
    /// Stop points whose instance filter was left out.
    pub instance: Vec<String>,
    /// Stop points whose thread filter was left out.
    pub thread: Vec<String>,
    /// Stop points that no call describes.
    pub undescribable: Vec<String>,
}

impl Default for Dropped {
    fn default() -> (r: Self)
        ensures
            r.instance@.len() == 0,
            r.thread@.len() == 0,
            r.undescribable@.len() == 0,
    {
        Dropped { instance: Vec::new(), thread: Vec::new(), undescribable: Vec::new() }
    }
}

/// A finished set.
#[derive(Debug)]
pub struct Export {
    pub set: Json,
    pub entries: usize,
    /// How many entries stand for stop points that were not enabled.
    pub disabled: usize,
    /// How many entries arm something that stops the debuggee.
    pub suspending: usize,
    pub dropped: Dropped,
}

impl Export {
    /// This is what was written down.
    pub open spec fn shows(self, b: set_format::BuildView) -> bool {
        &&& self.set@ == set_format::set_view(b.calls)
        &&& self.entries == b.calls.len()
        &&& self.disabled == set_format::disabled_calls(b.calls)
        &&& self.suspending == set_format::suspending_calls(b.calls)
        &&& self.dropped.shows(b)
    }
}

impl Dropped {
    /// This is what was left out.
    pub open spec fn shows(self, b: set_format::BuildView) -> bool {
        &&& text::views(self.instance@) == b.instance
        &&& text::views(self.thread@) == b.thread
        &&& text::views(self.undescribable@) == b.undescribable
    }
}

// ---------------------------------------------------------------------------------------------
// Order
// ---------------------------------------------------------------------------------------------
/// What an id is ordered by: its prefix, then its number, so that `bp_10` comes behind `bp_2`.
pub fn id_order(id: &str) -> (r: (String, u64))
    ensures
        (r.0@, r.1) == set_format::id_key(id@),
{
    let chars = text::chars_of(id);
    let cut: usize = text::find_cut(&chars, '_');
    assert(chars@.subrange(0, cut as int) =~= id@.take(cut as int));
    assert(chars@.subrange(cut as int, chars@.len() as int) =~= id@.skip(cut as int));
    let prefix = text::text_between(&chars, 0, cut);
    let digits = text::text_between(&chars, cut, chars.len());
    match text::parse_unsigned(digits.as_str(), 10) {
        Some(n) => (prefix, n),
        None => (prefix, u64::MAX),
    }
}

fn may_precede(a: &str, b: &str) -> (r: bool)
    ensures
        r == set_format::in_order(a@, b@),
{
    let (p, m) = id_order(a);
    let (q, n) = id_order(b);
    if text::precedes(p.as_str(), q.as_str()) {
        return true;
    }
    text::same(p.as_str(), q.as_str()) && (m < n || (m == n && (text::same(a, b) || text::precedes(
        a,
        b,
    ))))
}

proof fn order_is_total(a: Seq<char>, b: Seq<char>)
    ensures
        set_format::in_order(a, b) || set_format::in_order(b, a),
{
    let (p, m) = set_format::id_key(a);
    let (q, n) = set_format::id_key(b);
    text::before_is_total(p, q);
    text::before_is_total(a, b);
}

proof fn order_is_transitive(a: Seq<char>, b: Seq<char>, c: Seq<char>)
    requires
        set_format::in_order(a, b),
        set_format::in_order(b, c),
    ensures
        set_format::in_order(a, c),
{
    let (p, m) = set_format::id_key(a);
    let (q, n) = set_format::id_key(b);
    let (s, k) = set_format::id_key(c);
    if text::before(p, q) && text::before(q, s) {
        text::before_is_transitive(p, q, s);
    }
    if text::before(a, b) && text::before(b, c) {
        text::before_is_transitive(a, b, c);
    }
}

spec fn is_ordered(ids: Seq<Seq<char>>) -> bool {
    forall|i: int, j: int|
        0 <= i < j < ids.len() ==> set_format::in_order(#[trigger] ids[i], #[trigger] ids[j])
}

/// Puts a row in its place among ordered ones.
fn place_row<'a, V>(rows: &mut Vec<(&'a String, &'a V)>, id: &'a String, value: &'a V)
    requires
        is_ordered(set_format::ids_of(old(rows)@)),
        !set_format::ids_of(old(rows)@).contains(id@),
        set_format::ids_of(old(rows)@).no_duplicates(),
    ensures
        is_ordered(set_format::ids_of(final(rows)@)),
        set_format::ids_of(final(rows)@).no_duplicates(),
        forall|x: Seq<char>| #[trigger]
            set_format::ids_of(final(rows)@).contains(x) <==> set_format::ids_of(old(rows)@).contains(x)
                || x == id@,
        forall|i: int|
            0 <= i < final(rows)@.len() ==> old(rows)@.contains(#[trigger] final(rows)@[i])
                || final(rows)@[i] == (id, value),
{
    let ghost before = set_format::ids_of(rows@);
    let ghost rows_before = rows@;
    let ghost new = id@;
    let mut at: usize = rows.len();
    while at > 0 && !may_precede(rows[at - 1].0.as_str(), id.as_str())
        invariant
            at <= rows@.len(),
            rows@ == rows_before,
            before == set_format::ids_of(rows@),
            new == id@,
            is_ordered(before),
            forall|k: int| at <= k < before.len() ==> set_format::in_order(new, #[trigger] before[k]),
        decreases at,
    {
        proof {
            order_is_total(before[at - 1], new);
        }
        at -= 1;
    }
    rows.insert(at, (id, value));
    proof {
        assert forall|i: int| 0 <= i < rows@.len() implies rows_before.contains(#[trigger] rows@[i])
            || rows@[i] == (id, value) by {
            if i < at {
                assert(rows@[i] == rows_before[i]);
            } else if i > at {
                assert(rows@[i] == rows_before[i - 1]);
            }
        }
    }
    proof {
        let now = set_format::ids_of(rows@);
        assert(now =~= before.insert(at as int, new));
        assert forall|k: int| 0 <= k < at implies set_format::in_order(#[trigger] before[k], new) by {
            if k < at - 1 {
                order_is_transitive(before[k], before[at - 1], new);
            }
        }
        assert forall|i: int, j: int| 0 <= i < j < now.len() implies set_format::in_order(
            #[trigger] now[i],
            #[trigger] now[j],
        ) by {
            let x = if i < at {
                i
            } else {
                i - 1
            };
            let y = if j < at {
                j
            } else {
                j - 1
            };
            if i != at {
                assert(now[i] == before[x]);
            }
            if j != at {
                assert(now[j] == before[y]);
            }
        }
        assert forall|x: Seq<char>| #[trigger] now.contains(x) <==> before.contains(x) || x == new by {
            if now.contains(x) {
                let k = choose|k: int| 0 <= k < now.len() && now[k] == x;
                if k < at {
                    assert(before[k] == x);
                } else if k > at {
                    assert(before[k - 1] == x);
                }
            }
            if before.contains(x) {
                let k = choose|k: int| 0 <= k < before.len() && before[k] == x;
                assert(now[if k < at {
                    k
                } else {
                    k + 1
                }] == x);
            }
            if x == new {
                assert(now[at as int] == x);
            }
        }
        assert forall|i: int, j: int| 0 <= i < now.len() && 0 <= j < now.len() && i != j implies now[i]
            != now[j] by {
            let x = if i < at {
                i
            } else {
                i - 1
            };
            let y = if j < at {
                j
            } else {
                j - 1
            };
            if i != at {
                assert(now[i] == before[x]);
            }
            if j != at {
                assert(now[j] == before[y]);
            }
        }
    }
}

/// The rows of a map in the order of their ids. What the map holds settles the order, and how it came to
/// hold it does not.
pub fn sorted_by_id<V>(map: &TextMap<V>) -> (r: Vec<(&String, &V)>)
    requires
        map.wf(),
    ensures
        set_format::rows_of(r@, map@, map@.dom()),
{
    let mut rows: Vec<(&String, &V)> = Vec::new();
    proof {
        map.keys_are_its_domain();
    }
    let ghost keys = map.keys();
    let mut i: usize = 0;
    assert(set_format::ids_of(rows@) =~= Seq::empty());
    while i < map.len()
        invariant
            map.wf(),
            keys == map.keys(),
            i <= keys.len(),
            is_ordered(set_format::ids_of(rows@)),
            set_format::ids_of(rows@).no_duplicates(),
            forall|x: Seq<char>| #[trigger]
                set_format::ids_of(rows@).contains(x) <==> keys.take(i as int).contains(x),
            forall|k: int| 0 <= k < rows@.len() ==> *(#[trigger] rows@[k]).1 == map@[rows@[k].0@],
            forall|a: int, b: int|
                0 <= a < b < keys.len() ==> text::before(#[trigger] keys[a], #[trigger] keys[b]),
        decreases keys.len() - i,
    {
        let (id, value) = map.at(i);
        proof {
            take_more(keys, i as int);
        }
        place_row(&mut rows, id, value);
        i += 1;
    }
    proof {
        assert(keys.take(i as int) =~= keys);
        map.keys_are_its_domain();
        assert forall|x: Seq<char>| keys.contains(x) implies map@.dom().contains(x) by {
            let k = choose|k: int| 0 <= k < keys.len() && keys[k] == x;
            assert(map@.dom().contains(keys[k]));
        }
    }
    rows
}

/// The first `i + 1` of ascending keys are the first `i` and the next, which is new.
proof fn take_more(keys: Seq<Seq<char>>, i: int)
    requires
        0 <= i < keys.len(),
        forall|a: int, b: int|
            0 <= a < b < keys.len() ==> text::before(#[trigger] keys[a], #[trigger] keys[b]),
    ensures
        !keys.take(i).contains(keys[i]),
        forall|x: Seq<char>| #[trigger]
            keys.take(i + 1).contains(x) <==> keys.take(i).contains(x) || x == keys[i],
{
    let now = keys.take(i + 1);
    let before = keys.take(i);
    if before.contains(keys[i]) {
        let k = choose|k: int| 0 <= k < before.len() && before[k] == keys[i];
        assert(keys[k] == keys[i]);
        text::before_is_strict(keys[k], keys[i]);
    }
    assert forall|x: Seq<char>| #[trigger] now.contains(x) <==> before.contains(x) || x == keys[i] by {
        if now.contains(x) {
            let k = choose|k: int| 0 <= k < now.len() && now[k] == x;
            if k < i {
                assert(before[k] == x);
            }
        }
        if before.contains(x) {
            let k = choose|k: int| 0 <= k < before.len() && before[k] == x;
            assert(now[k] == x);
        }
        if x == keys[i] {
            assert(now[i] == x);
        }
    }
}

/// The stop points of a kind, in the order of their ids.
pub fn sorted_of_kind(all: &TextMap<StopPoint>, kind: StopPointKind) -> (r: Vec<
    (&String, &StopPoint),
>)
    requires
        all.wf(),
    ensures
        set_format::rows_of(r@, all@, set_format::of_kind(all@, kind)),
{
    let mut rows: Vec<(&String, &StopPoint)> = Vec::new();
    proof {
        all.keys_are_its_domain();
    }
    let ghost keys = all.keys();
    let ghost wanted = set_format::of_kind(all@, kind);
    let mut i: usize = 0;
    assert(set_format::ids_of(rows@) =~= Seq::empty());
    while i < all.len()
        invariant
            all.wf(),
            keys == all.keys(),
            wanted == set_format::of_kind(all@, kind),
            i <= keys.len(),
            is_ordered(set_format::ids_of(rows@)),
            set_format::ids_of(rows@).no_duplicates(),
            forall|x: Seq<char>| #[trigger]
                set_format::ids_of(rows@).contains(x) <==> keys.take(i as int).contains(x)
                    && wanted.contains(x),
            forall|k: int| 0 <= k < rows@.len() ==> *(#[trigger] rows@[k]).1 == all@[rows@[k].0@],
            forall|a: int, b: int|
                0 <= a < b < keys.len() ==> text::before(#[trigger] keys[a], #[trigger] keys[b]),
        decreases keys.len() - i,
    {
        let (id, sp) = all.at(i);
        proof {
            take_more(keys, i as int);
        }
        if sp.kind() == kind {
            assert(wanted.contains(id@));
            place_row(&mut rows, id, sp);
        }
        i += 1;
    }
    proof {
        assert(keys.take(i as int) =~= keys);
        all.keys_are_its_domain();
    }
    rows
}

// ---------------------------------------------------------------------------------------------
// Writing
// ---------------------------------------------------------------------------------------------
/// Arguments that can be written and read back: values that are one, none but flat arrays among them.
spec fn args_ok(args: json::Entries) -> bool {
    JsonView::Object(args).wf() && JsonView::Object(args).exact(2)
}

fn bind_arg(args: &mut Vec<(String, Json)>, key: &str, value: Json)
    requires
        args_ok(json::entries_view(old(args)@)),
        value@.wf(),
        value@.exact(1),
    ensures
        json::entries_view(final(args)@) == json::put(
            json::entries_view(old(args)@),
            key@,
            value@,
        ),
        args_ok(json::entries_view(final(args)@)),
{
    proof {
        json::put_keeps_wf(json::entries_view(args@), key@, value@, 1);
    }
    json::bind(args, key, value);
}

fn new_args() -> (r: Vec<(String, Json)>)
    ensures
        json::entries_view(r@) == Seq::<(Seq<char>, JsonView)>::empty(),
        args_ok(json::entries_view(r@)),
{
    let r: Vec<(String, Json)> = Vec::new();
    proof {
        assert(json::entries_view(r@) =~= Seq::empty());
        json::empty_object_is_wf(1);
    }
    r
}

fn bind_int(args: &mut Vec<(String, Json)>, key: &str, value: Option<i32>)
    requires
        args_ok(json::entries_view(old(args)@)),
    ensures
        json::entries_view(final(args)@) == set_format::with(
            json::entries_view(old(args)@),
            key@,
            set_format::int_value(value),
        ),
        args_ok(json::entries_view(final(args)@)),
{
    match value {
        Some(n) => bind_arg(args, key, Json::integer(n as i64)),
        None => {},
    }
}

fn bind_text(args: &mut Vec<(String, Json)>, key: &str, value: &Option<String>)
    requires
        args_ok(json::entries_view(old(args)@)),
    ensures
        json::entries_view(final(args)@) == set_format::with(
            json::entries_view(old(args)@),
            key@,
            set_format::text_value(set_format::seen(*value)),
        ),
        args_ok(json::entries_view(final(args)@)),
{
    match value {
        Some(s) => bind_arg(args, key, Json::text(s.as_str())),
        None => {},
    }
}

fn bind_texts(args: &mut Vec<(String, Json)>, key: &str, value: &Vec<String>)
    requires
        args_ok(json::entries_view(old(args)@)),
    ensures
        json::entries_view(final(args)@) == set_format::with(
            json::entries_view(old(args)@),
            key@,
            set_format::texts_value(text::views(value@)),
        ),
        args_ok(json::entries_view(final(args)@)),
{
    if value.len() > 0 {
        bind_arg(args, key, Json::texts(value));
    }
}

/// What every kind of stop point can be told, written into `args`.
fn write_common(
    args: &mut Vec<(String, Json)>,
    hit_count: Option<i32>,
    condition: &Option<String>,
    trace: bool,
    trace_expr: &Vec<String>,
    trace_budget: Option<u32>,
    trace_frames: usize,
    trace_max_length: Option<usize>,
)
    requires
        args_ok(json::entries_view(old(args)@)),
    ensures
        json::entries_view(final(args)@) == set_format::common_args(
            json::entries_view(old(args)@),
            (set_format::Common {
                hit_count,
                condition: set_format::seen(*condition),
                trace,
                trace_expr: text::views(trace_expr@),
                trace_budget,
                trace_frames,
                trace_max_length,
            }),
        ),
        args_ok(json::entries_view(final(args)@)),
{
    bind_arg(args, "trace", Json::Bool(trace));
    bind_arg(args, "trace_frames", Json::Unsigned(trace_frames as u64));
    bind_int(args, "hit_count", hit_count);
    bind_text(args, "condition", condition);
    bind_texts(args, "trace_expr", trace_expr);
    match trace_budget {
        Some(n) => bind_arg(args, "trace_max_hits", Json::Unsigned(n as u64)),
        None => {},
    }
    match trace_max_length {
        Some(n) => bind_arg(args, "trace_max_length", Json::Unsigned(n as u64)),
        None => {},
    }
}

/// One call that would arm a stop point.
struct Call {
    tool: &'static str,
    from: String,
    enabled: bool,
    trace: bool,
    args: Vec<(String, Json)>,
}

impl View for Call {
    type V = set_format::CallView;

    closed spec fn view(&self) -> set_format::CallView {
        set_format::CallView {
            tool: self.tool@,
            from: self.from@,
            enabled: self.enabled,
            trace: self.trace,
            args: json::entries_view(self.args@),
        }
    }
}

spec fn call_ok(call: set_format::CallView) -> bool {
    args_ok(call.args) && set_format::armable().contains(call.tool)
}

spec fn call_views(calls: Seq<Call>) -> Seq<set_format::CallView> {
    calls.map_values(|c: Call| c@)
}

/// What has been written down so far, and what could not be.
struct Builder {
    calls: Vec<Call>,
    dropped: Dropped,
}

impl Builder {
    spec fn shows(self, b: set_format::BuildView) -> bool {
        &&& call_views(self.calls@) == b.calls
        &&& self.dropped.shows(b)
        &&& forall|i: int| 0 <= i < b.calls.len() ==> call_ok(#[trigger] b.calls[i])
    }

    fn new() -> (r: Self)
        ensures
            r.shows(set_format::nothing()),
    {
        let r = Builder { calls: Vec::new(), dropped: Dropped::default() };
        assert(call_views(r.calls@) =~= Seq::empty());
        assert(text::views(r.dropped.instance@) =~= Seq::empty());
        assert(text::views(r.dropped.thread@) =~= Seq::empty());
        assert(text::views(r.dropped.undescribable@) =~= Seq::empty());
        r
    }

    fn push(&mut self, call: Call, Ghost(b): Ghost<set_format::BuildView>)
        requires
            old(self).shows(b),
            call_ok(call@),
        ensures
            final(self).shows(set_format::with_call(b, call@)),
    {
        let ghost c = call@;
        self.calls.push(call);
        assert(call_views(self.calls@) =~= b.calls.push(c));
    }

    fn push_undescribable(&mut self, id: &str, Ghost(b): Ghost<set_format::BuildView>)
        requires
            old(self).shows(b),
        ensures
            final(self).shows(set_format::with_undescribable(b, id@)),
    {
        self.dropped.undescribable.push(text::owned(id));
        assert(text::views(self.dropped.undescribable@) =~= b.undescribable.push(id@));
    }

    /// Notes the filters that are left out, under the stop point they belong to.
    fn drop_filters(
        &mut self,
        id: &str,
        instance: Option<u64>,
        thread: Option<u64>,
        Ghost(b): Ghost<set_format::BuildView>,
    )
        requires
            old(self).shows(b),
        ensures
            final(self).shows(set_format::without_filters(b, id@, instance, thread)),
    {
        if instance.is_some() {
            self.dropped.instance.push(text::owned(id));
            assert(text::views(self.dropped.instance@) =~= b.instance.push(id@));
        }
        if thread.is_some() {
            self.dropped.thread.push(text::owned(id));
            assert(text::views(self.dropped.thread@) =~= b.thread.push(id@));
        }
    }

    /// One stop point, as the call that would arm it again.
    fn push_stop_point(
        &mut self,
        sp: &StopPoint,
        members: &Vec<String>,
        Ghost(b): Ghost<set_format::BuildView>,
        Ghost(family): Ghost<Set<Seq<char>>>,
    )
        requires
            old(self).shows(b),
            forall|id: Seq<char>| #[trigger]
                family.contains(id) <==> text::views(members@).contains(id),
        ensures
            final(self).shows(set_format::with_stop_point(b, *sp, family)),
    {
        let mut args = new_args();
        let tool: &'static str = match &sp.armed_on {
            ArmedOn::Line(bp) => {
                // A family is one call that armed several breakpoints. Naming a member as well would arm
                // the same place twice.
                if has_text(members, sp.id.as_str()) {
                    return;
                }
                // What the caller asked for, not what it was resolved to: that may have moved.
                if bp.arm_line.is_none() && bp.arm_method.is_none() {
                    self.push_undescribable(sp.id.as_str(), Ghost(b));
                    return;
                }
                bind_arg(&mut args, "class_pattern", Json::text(bp.class_pattern.as_str()));
                bind_int(&mut args, "line", bp.arm_line);
                bind_text(&mut args, "method", &bp.arm_method);
                "debug.set_line_stop"
            },
            ArmedOn::Exception(er) => {
                if !er.class_pattern.as_str().is_empty() {
                    bind_arg(&mut args, "class_pattern", Json::text(er.class_pattern.as_str()));
                }
                bind_arg(&mut args, "caught", Json::Bool(er.caught));
                bind_arg(&mut args, "uncaught", Json::Bool(er.uncaught));
                "debug.set_exception_stop"
            },
            ArmedOn::Watchpoint(wp) => {
                bind_arg(&mut args, "class_name", Json::text(wp.class_name.as_str()));
                bind_arg(&mut args, "field_name", Json::text(wp.field_name.as_str()));
                bind_arg(&mut args, "modify", Json::Bool(wp.kind == WatchKind::Modify));
                bind_arg(&mut args, "access", Json::Bool(wp.kind == WatchKind::Access));
                "debug.set_field_stop"
            },
            ArmedOn::MethodExit(me) => {
                bind_arg(&mut args, "class_pattern", Json::text(me.class_pattern.as_str()));
                bind_text(&mut args, "method", &me.method);
                bind_texts(&mut args, "exclude_classes", &me.exclude_classes);
                "debug.set_method_exit_stop"
            },
            ArmedOn::Monitor(_) => {
                return;
            },
        };
        assert(set_format::locator(*sp) == Some((tool@, json::entries_view(args@))));
        write_common(
            &mut args,
            sp.hit_count,
            &sp.condition,
            sp.trace,
            &sp.trace_expr,
            sp.trace_budget,
            sp.trace_frames,
            sp.trace_max_length,
        );
        self.drop_filters(sp.id.as_str(), sp.instance_filter, sp.thread_filter, Ghost(b));
        let call = Call {
            tool,
            from: sp.id.clone(),
            enabled: sp.enabled && !sp.spent,
            trace: sp.trace,
            args,
        };
        proof {
            armable_tools(tool@);
        }
        self.push(
            call,
            Ghost(set_format::without_filters(b, sp.id@, sp.instance_filter, sp.thread_filter)),
        );
    }

    /// A family, as the one call that would arm all of it.
    fn push_family(
        &mut self,
        id: &str,
        fam: &PatternStopSet,
        all: &TextMap<StopPoint>,
        Ghost(b): Ghost<set_format::BuildView>,
    )
        requires
            old(self).shows(b),
            all.wf(),
        ensures
            final(self).shows(set_format::with_family(b, id@, *fam, all@)),
    {
        let line = line_of_family(&fam.members, all);
        if line.is_none() && fam.method.is_none() {
            self.push_undescribable(id, Ghost(b));
            return;
        }
        let mut args = new_args();
        bind_arg(&mut args, "class_pattern", Json::text(fam.class_pattern.as_str()));
        bind_int(&mut args, "line", line);
        bind_text(&mut args, "method", &fam.method);
        bind_arg(&mut args, "max_classes", Json::Unsigned(fam.max_classes as u64));
        write_common(
            &mut args,
            fam.hit_count,
            &fam.condition,
            fam.trace,
            &fam.trace_expr,
            fam.trace_budget,
            fam.trace_frames,
            fam.trace_max_length,
        );
        self.drop_filters(id, fam.instance_filter, fam.thread_filter, Ghost(b));
        proof {
            armable_tools("debug.set_line_stop"@);
        }
        self.push(
            Call {
                tool: "debug.set_line_stop",
                from: text::owned(id),
                enabled: fam.enabled,
                trace: fam.trace,
                args,
            },
            Ghost(set_format::without_filters(b, id@, fam.instance_filter, fam.thread_filter)),
        );
    }

    /// The families, and the ids of the breakpoints that belong to one.
    fn push_families(
        &mut self,
        families: &TextMap<PatternStopSet>,
        all: &TextMap<StopPoint>,
        Ghost(b): Ghost<set_format::BuildView>,
    ) -> (r: (Ghost<Seq<Seq<char>>>, Vec<String>))
        requires
            old(self).shows(b),
            families.wf(),
            all.wf(),
        ensures
            set_format::lists(r.0@, families@.dom()),
            final(self).shows(set_format::with_families(b, r.0@, families@, all@)),
            forall|id: Seq<char>| #[trigger]
                text::views(r.1@).contains(id) <==> set_format::family_members(families@).contains(id),
    {
        let rows = sorted_by_id(families);
        let ghost keys = set_format::ids_of(rows@);
        let mut members: Vec<String> = Vec::new();
        let mut i: usize = 0;
        assert(keys.take(0) =~= Seq::empty());
        assert(text::views(members@) =~= Seq::empty());
        while i < rows.len()
            invariant
                i <= rows@.len(),
                keys == set_format::ids_of(rows@),
                families.wf(),
                all.wf(),
                set_format::rows_of(rows@, families@, families@.dom()),
                self.shows(set_format::with_families(b, keys.take(i as int), families@, all@)),
                forall|id: Seq<char>| #[trigger]
                    text::views(members@).contains(id) <==> exists|k: int|
                        0 <= k < i && text::views(families@[#[trigger] keys[k]].members@).contains(id),
            decreases rows@.len() - i,
        {
            assert(keys.contains(keys[i as int]));
            assert(families@.dom().contains(keys[i as int]));
            assert(keys.take(i + 1).drop_last() =~= keys.take(i as int));
            let (id, fam) = rows[i];
            assert(id@ == keys[i as int]);
            let ghost before = text::views(members@);
            add_texts(&mut members, &fam.members);
            self.push_family(
                id.as_str(),
                fam,
                all,
                Ghost(set_format::with_families(b, keys.take(i as int), families@, all@)),
            );
            proof {
                let now = text::views(members@);
                assert forall|id: Seq<char>| #[trigger] now.contains(id) <==> exists|k: int|
                    0 <= k < i + 1 && text::views(families@[#[trigger] keys[k]].members@).contains(
                        id,
                    ) by {
                    if now.contains(id) {
                        if before.contains(id) {
                            let k = choose|k: int|
                                0 <= k < i && text::views(
                                    families@[#[trigger] keys[k]].members@,
                                ).contains(id);
                            assert(0 <= k < i + 1);
                        } else {
                            assert(text::views(families@[keys[i as int]].members@).contains(
                                id,
                            ));
                        }
                    }
                    if exists|k: int|
                        0 <= k < i + 1 && text::views(
                            families@[#[trigger] keys[k]].members@,
                        ).contains(id) {
                        let k = choose|k: int|
                            0 <= k < i + 1 && text::views(
                                families@[#[trigger] keys[k]].members@,
                            ).contains(id);
                        if k < i {
                            assert(before.contains(id));
                        }
                    }
                }
            }
            i += 1;
        }
        assert(keys.take(i as int) =~= keys);
        proof {
            let now = text::views(members@);
            assert forall|id: Seq<char>| #[trigger] now.contains(id) <==> set_format::family_members(
                families@,
            ).contains(id) by {
                if now.contains(id) {
                    let k = choose|k: int|
                        0 <= k < i && text::views(families@[#[trigger] keys[k]].members@).contains(id);
                    assert(keys.contains(keys[k]));
                    assert(families@.dom().contains(keys[k]));
                }
                if set_format::family_members(families@).contains(id) {
                    let f = choose|f: Seq<char>| #[trigger]
                        families@.dom().contains(f) && text::views(families@[f].members@).contains(id);
                    assert(keys.contains(f));
                    let k = choose|k: int| 0 <= k < keys.len() && keys[k] == f;
                    assert(0 <= k < i && keys[k] == f);
                }
            }
        }
        (Ghost(keys), members)
    }

    /// The deferrals, as the line stops they are.
    fn push_pending(
        &mut self,
        pending: &Vec<PendingBreakpoint>,
        Ghost(b): Ghost<set_format::BuildView>,
    )
        requires
            old(self).shows(b),
        ensures
            final(self).shows(set_format::with_all_pending(b, pending@)),
    {
        let mut i: usize = 0;
        assert(pending@.take(0) =~= Seq::empty());
        while i < pending.len()
            invariant
                i <= pending@.len(),
                self.shows(set_format::with_all_pending(b, pending@.take(i as int))),
            decreases pending@.len() - i,
        {
            let ghost now = set_format::with_all_pending(b, pending@.take(i as int));
            assert(pending@.take(i + 1).drop_last() =~= pending@.take(i as int));
            let pb = &pending[i];
            let mut args = new_args();
            bind_arg(&mut args, "class_pattern", Json::text(pb.class_pattern.as_str()));
            bind_int(&mut args, "line", pb.line);
            bind_text(&mut args, "method", &pb.method);
            write_common(
                &mut args,
                pb.hit_count,
                &pb.condition,
                pb.trace,
                &pb.trace_expr,
                pb.trace_budget,
                pb.trace_frames,
                pb.trace_max_length,
            );
            self.drop_filters(pb.bp_id.as_str(), pb.instance_filter, pb.thread_filter, Ghost(now));
            proof {
                armable_tools("debug.set_line_stop"@);
            }
            self.push(
                Call {
                    tool: "debug.set_line_stop",
                    from: pb.bp_id.clone(),
                    enabled: true,
                    trace: pb.trace,
                    args,
                },
                Ghost(
                    set_format::without_filters(
                        now,
                        pb.bp_id@,
                        pb.instance_filter,
                        pb.thread_filter,
                    ),
                ),
            );
            i += 1;
        }
        assert(pending@.take(i as int) =~= pending@);
    }

    /// The stop points of a kind, each as the call that would arm it again.
    fn push_kind(
        &mut self,
        kind: StopPointKind,
        all: &TextMap<StopPoint>,
        members: &Vec<String>,
        Ghost(b): Ghost<set_format::BuildView>,
        Ghost(family): Ghost<Set<Seq<char>>>,
    ) -> (r: Ghost<Seq<Seq<char>>>)
        requires
            old(self).shows(b),
            all.wf(),
            forall|id: Seq<char>| #[trigger]
                family.contains(id) <==> text::views(members@).contains(id),
        ensures
            set_format::lists(r@, set_format::of_kind(all@, kind)),
            final(self).shows(set_format::with_stop_points(b, r@, all@, family)),
    {
        let rows = sorted_of_kind(all, kind);
        let ghost keys = set_format::ids_of(rows@);
        let mut i: usize = 0;
        assert(keys.take(0) =~= Seq::empty());
        while i < rows.len()
            invariant
                i <= rows@.len(),
                keys == set_format::ids_of(rows@),
                all.wf(),
                set_format::rows_of(rows@, all@, set_format::of_kind(all@, kind)),
                forall|id: Seq<char>| #[trigger]
                    family.contains(id) <==> text::views(members@).contains(id),
                self.shows(set_format::with_stop_points(b, keys.take(i as int), all@, family)),
            decreases rows@.len() - i,
        {
            assert(keys.contains(keys[i as int]));
            assert(set_format::of_kind(all@, kind).contains(keys[i as int]));
            assert(keys.take(i + 1).drop_last() =~= keys.take(i as int));
            let (id, sp) = rows[i];
            assert(id@ == keys[i as int]);
            self.push_stop_point(
                sp,
                members,
                Ghost(set_format::with_stop_points(b, keys.take(i as int), all@, family)),
                Ghost(family),
            );
            i += 1;
        }
        assert(keys.take(i as int) =~= keys);
        Ghost(keys)
    }

    /// A group of monitor stops, as the one call that would arm them again.
    fn push_group(&mut self, group: &Vec<&StopPoint>, Ghost(b): Ghost<set_format::BuildView>)
        requires
            old(self).shows(b),
            group@.len() > 0,
            forall|i: int| 0 <= i < group@.len() ==> (#[trigger] group@[i]).armed_on is Monitor,
        ensures
            final(self).shows(set_format::with_call(b, set_format::group_call(pointed(group@)))),
    {
        let first = group[0];
        let mut kinds: Vec<String> = Vec::new();
        let mut ids: Vec<String> = Vec::new();
        let mut enabled: bool = true;
        let mut i: usize = 0;
        let ghost stops = pointed(group@);
        assert(text::views(kinds@) =~= set_format::kind_words(stops).take(0));
        assert(text::views(ids@) =~= set_format::group_ids(stops).take(0));
        while i < group.len()
            invariant
                i <= group@.len(),
                stops == pointed(group@),
                forall|k: int| 0 <= k < group@.len() ==> (#[trigger] group@[k]).armed_on is Monitor,
                text::views(kinds@) == set_format::kind_words(stops).take(i as int),
                text::views(ids@) == set_format::group_ids(stops).take(i as int),
                enabled == (forall|k: int| 0 <= k < i ==> (#[trigger] stops[k]).enabled && !stops[k].spent),
            decreases group@.len() - i,
        {
            let sp = group[i];
            assert(*sp == stops[i as int]);
            let ghost words = text::views(kinds@);
            let ghost names = text::views(ids@);
            match sp.monitor() {
                Some(m) => kinds.push(text::owned(m.kind.label())),
                None => {},
            }
            ids.push(sp.id.clone());
            if !sp.enabled || sp.spent {
                enabled = false;
            }
            proof {
                let word = set_format::kind_words(stops)[i as int];
                assert(text::views(kinds@) =~= words.push(word));
                assert(set_format::kind_words(stops).take(i + 1) =~= words.push(word));
                assert(text::views(ids@) =~= names.push(sp.id@));
                assert(set_format::group_ids(stops).take(i + 1) =~= names.push(sp.id@));
            }
            i += 1;
        }
        assert(set_format::kind_words(stops).take(i as int) =~= set_format::kind_words(stops));
        assert(set_format::group_ids(stops).take(i as int) =~= set_format::group_ids(stops));
        let mut args = new_args();
        bind_arg(&mut args, "kinds", Json::texts(&kinds));
        match first.monitor() {
            Some(m) => {
                bind_text(&mut args, "monitor_class", &m.monitor_class);
                match m.min_duration_ms {
                    Some(n) => bind_arg(&mut args, "min_duration_ms", Json::Unsigned(n)),
                    None => {},
                }
            },
            None => {},
        }
        write_common(
            &mut args,
            first.hit_count,
            &None,
            first.trace,
            &first.trace_expr,
            first.trace_budget,
            first.trace_frames,
            first.trace_max_length,
        );
        let call = Call {
            tool: "debug.set_monitor_stop",
            from: text::join(&ids, "+"),
            enabled,
            trace: first.trace,
            args,
        };
        proof {
            armable_tools("debug.set_monitor_stop"@);
            assert(*first == stops[0]);
            let want = set_format::group_call(stops);
            assert(call@.args == want.args);
            assert(call@.from == want.from);
            assert(call@.enabled == want.enabled);
            assert(call@ == want);
        }
        self.push(call, Ghost(b));
    }

    /// The monitor stops, in calls for those that agree in every setting.
    fn push_monitors(&mut self, all: &TextMap<StopPoint>, Ghost(b): Ghost<set_format::BuildView>) -> (r:
        Ghost<Seq<Seq<char>>>)
        requires
            old(self).shows(b),
            all.wf(),
        ensures
            set_format::lists(r@, set_format::of_kind(all@, StopPointKind::Monitor)),
            final(self).shows(set_format::with_monitors(b, r@, all@)),
    {
        let rows = sorted_of_kind(all, StopPointKind::Monitor);
        let ghost keys = set_format::ids_of(rows@);
        let mut groups: Vec<Vec<&StopPoint>> = Vec::new();
        let mut i: usize = 0;
        assert(keys.take(0) =~= Seq::empty());
        assert(all_pointed(groups@) =~= Seq::empty());
        while i < rows.len()
            invariant
                i <= rows@.len(),
                keys == set_format::ids_of(rows@),
                all.wf(),
                set_format::rows_of(rows@, all@, set_format::of_kind(all@, StopPointKind::Monitor)),
                self.shows(set_format::without_monitor_filters(b, keys.take(i as int), all@)),
                all_pointed(groups@) == set_format::grouped(keys.take(i as int), all@),
                monitors_only(groups@),
            decreases rows@.len() - i,
        {
            assert(keys.contains(keys[i as int]));
            assert(set_format::of_kind(all@, StopPointKind::Monitor).contains(keys[i as int]));
            assert(keys.take(i + 1).drop_last() =~= keys.take(i as int));
            let (id, sp) = rows[i];
            assert(id@ == keys[i as int]);
            put_to_group(&mut groups, sp);
            // Under its own id, although the call is shared: that is the one the caller knows.
            self.drop_filters(
                id.as_str(),
                None,
                sp.thread_filter,
                Ghost(set_format::without_monitor_filters(b, keys.take(i as int), all@)),
            );
            i += 1;
        }
        assert(keys.take(i as int) =~= keys);
        let ghost before = set_format::without_monitor_filters(b, keys, all@);
        let ghost want = set_format::grouped(keys, all@);
        let mut k: usize = 0;
        assert(want.take(0) =~= Seq::empty());
        while k < groups.len()
            invariant
                k <= groups@.len(),
                want == all_pointed(groups@),
                monitors_only(groups@),
                self.shows(set_format::with_groups(before, want.take(k as int))),
            decreases groups@.len() - k,
        {
            assert(want.take(k + 1).drop_last() =~= want.take(k as int));
            assert(want.take(k + 1).last() == pointed(groups@[k as int]@));
            self.push_group(
                &groups[k],
                Ghost(set_format::with_groups(before, want.take(k as int))),
            );
            k += 1;
        }
        assert(want.take(k as int) =~= want);
        Ghost(keys)
    }

    /// The set that was written down.
    fn finish(self, Ghost(b): Ghost<set_format::BuildView>) -> (r: Export)
        requires
            self.shows(b),
        ensures
            r.shows(b),
            r.set@.wf(),
            r.set@.exact(127),
    {
        broadcast use {json::array_view, json::object_view};

        let count: usize = self.calls.len();
        let mut entries: Vec<Json> = Vec::new();
        let mut disabled: usize = 0;
        let mut suspending: usize = 0;
        let ghost all = b.calls;
        let mut i: usize = 0;
        assert(all.take(0) =~= Seq::empty());
        while i < self.calls.len()
            invariant
                i <= self.calls@.len(),
                all == call_views(self.calls@),
                forall|k: int| 0 <= k < all.len() ==> call_ok(#[trigger] all[k]),
                entries@.len() == i,
                forall|k: int|
                    0 <= k < i ==> (#[trigger] entries@[k])@ == set_format::entry_view(all[k])
                        && entries@[k]@.wf() && entries@[k]@.exact(3),
                disabled == set_format::disabled_calls(all.take(i as int)),
                suspending == set_format::suspending_calls(all.take(i as int)),
                disabled <= i,
                suspending <= i,
            decreases self.calls@.len() - i,
        {
            assert(all.take(i + 1).drop_last() =~= all.take(i as int));
            assert(call_ok(all[i as int]));
            if !self.calls[i].enabled {
                disabled += 1;
            }
            if !self.calls[i].trace {
                suspending += 1;
            }
            entries.push(entry_of(&self.calls[i]));
            i += 1;
        }
        assert(all.take(i as int) =~= all);
        let entries = Json::Array(entries);
        assert(entries@->Array_0 =~= set_format::entry_views(all));
        proof {
            let items = entries@->Array_0;
            assert forall|k: int| 0 <= k < items.len() implies (#[trigger] items[k]).wf()
                && items[k].exact(3) by {}
            json::empty_object_is_wf(4);
        }
        let mut set: Vec<(String, Json)> = Vec::new();
        assert(json::entries_view(set@) =~= Seq::empty());
        proof {
            json::put_keeps_wf(
                Seq::empty(),
                FORMAT_KEY@,
                JsonView::Unsigned(FORMAT_VERSION),
                4,
            );
            json::put_keeps_wf(
                json::put(Seq::empty(), FORMAT_KEY@, JsonView::Unsigned(FORMAT_VERSION)),
                "entries"@,
                entries@,
                4,
            );
        }
        json::bind(&mut set, FORMAT_KEY, Json::Unsigned(FORMAT_VERSION));
        json::bind(&mut set, "entries", entries);
        let set = Json::Object(set);
        proof {
            json::exact_grows(set@, 5, 127);
        }
        Export {
            set,
            entries: count,
            disabled,
            suspending,
            dropped: self.dropped,
        }
    }
}

/// The stop points that references point to.
spec fn pointed(group: Seq<&StopPoint>) -> Seq<StopPoint> {
    group.map_values(|sp: &StopPoint| *sp)
}

spec fn all_pointed(groups: Seq<Vec<&StopPoint>>) -> Seq<Seq<StopPoint>> {
    groups.map_values(|g: Vec<&StopPoint>| pointed(g@))
}

spec fn monitors_only(groups: Seq<Vec<&StopPoint>>) -> bool {
    forall|g: int|
        0 <= g < groups.len() ==> (#[trigger] groups[g])@.len() > 0 && forall|i: int|
            0 <= i < groups[g]@.len() ==> (#[trigger] groups[g]@[i]).armed_on is Monitor
}

fn same_optional_text(a: &Option<String>, b: &Option<String>) -> (r: bool)
    ensures
        r == (set_format::seen(*a) == set_format::seen(*b)),
{
    match (a, b) {
        (Some(x), Some(y)) => text::same(x.as_str(), y.as_str()),
        (None, None) => true,
        _ => false,
    }
}

fn same_texts(a: &Vec<String>, b: &Vec<String>) -> (r: bool)
    ensures
        r == (text::views(a@) == text::views(b@)),
{
    if a.len() != b.len() {
        assert(text::views(a@).len() != text::views(b@).len());
        return false;
    }
    let mut i: usize = 0;
    while i < a.len()
        invariant
            i <= a@.len() == b@.len(),
            forall|k: int| 0 <= k < i ==> (#[trigger] a@[k])@ == b@[k]@,
        decreases a@.len() - i,
    {
        if !text::same(a[i].as_str(), b[i].as_str()) {
            assert(text::views(a@)[i as int] != text::views(b@)[i as int]);
            return false;
        }
        i += 1;
    }
    assert(text::views(a@) =~= text::views(b@));
    true
}

/// Whether one call can arm both monitor stops.
fn agree(a: &StopPoint, b: &StopPoint) -> (r: bool)
    ensures
        r == set_format::same_settings(*a, *b),
{
    match (a.monitor(), b.monitor()) {
        (Some(m), Some(n)) => a.thread_filter == b.thread_filter && same_optional_text(
            &m.monitor_class,
            &n.monitor_class,
        ) && m.min_duration_ms == n.min_duration_ms && a.trace == b.trace && a.hit_count
            == b.hit_count && a.trace_frames == b.trace_frames && a.trace_max_length
            == b.trace_max_length && same_texts(&a.trace_expr, &b.trace_expr),
        _ => false,
    }
}

/// Puts a monitor stop to the first group that it agrees with, or into one of its own.
fn put_to_group<'a>(groups: &mut Vec<Vec<&'a StopPoint>>, sp: &'a StopPoint)
    requires
        monitors_only(old(groups)@),
        sp.armed_on is Monitor,
    ensures
        monitors_only(final(groups)@),
        all_pointed(final(groups)@) == set_format::grouped_with(all_pointed(old(groups)@), *sp),
{
    let ghost before = all_pointed(groups@);
    let mut i: usize = 0;
    assert(before.skip(0) =~= before);
    while i < groups.len()
        invariant
            i <= groups@.len(),
            groups@ == old(groups)@,
            before == all_pointed(groups@),
            monitors_only(groups@),
            sp.armed_on is Monitor,
            set_format::group_of(before, *sp) == i + set_format::group_of(before.skip(i as int), *sp),
        decreases groups@.len() - i,
    {
        assert(groups@[i as int]@.len() > 0);
        assert(before.skip(i as int)[0] == pointed(groups@[i as int]@));
        let first = groups[i][0];
        if agree(first, sp) {
            let mut group: Vec<&'a StopPoint> = Vec::new();
            core::mem::swap(&mut group, &mut groups[i]);
            let ghost old_group = group@;
            group.push(sp);
            assert(pointed(group@) =~= pointed(old_group).push(*sp));
            groups[i] = group;
            assert(all_pointed(groups@) =~= before.update(i as int, before[i as int].push(*sp)));
            return;
        }
        assert(before.skip(i as int).drop_first() =~= before.skip(i + 1));
        i += 1;
    }
    let mut own: Vec<&'a StopPoint> = Vec::new();
    own.push(sp);
    assert(pointed(own@) =~= seq![*sp]);
    groups.push(own);
    assert(all_pointed(groups@) =~= before.push(seq![*sp]));
}

/// A call as an entry of a set.
fn entry_of(call: &Call) -> (r: Json)
    requires
        call_ok(call@),
    ensures
        r@ == set_format::entry_view(call@),
        r@.wf(),
        r@.exact(3),
{
    broadcast use json::object_view;

    let mut entry: Vec<(String, Json)> = Vec::new();
    let ghost none: json::Entries = Seq::empty();
    assert(json::entries_view(entry@) =~= none);
    let args = Json::Object(json::duplicate_entries(&call.args));
    proof {
        json::empty_object_is_wf(2);
        let a = json::put(none, "tool"@, JsonView::Text(call@.tool));
        let b = json::put(a, "from"@, JsonView::Text(call@.from));
        let c = json::put(b, "enabled"@, JsonView::Bool(call@.enabled));
        json::put_keeps_wf(none, "tool"@, JsonView::Text(call@.tool), 2);
        json::put_keeps_wf(a, "from"@, JsonView::Text(call@.from), 2);
        json::put_keeps_wf(b, "enabled"@, JsonView::Bool(call@.enabled), 2);
        json::put_keeps_wf(c, "args"@, args@, 2);
    }
    json::bind(&mut entry, "tool", Json::text(call.tool));
    json::bind(&mut entry, "from", Json::text(call.from.as_str()));
    json::bind(&mut entry, "enabled", Json::Bool(call.enabled));
    json::bind(&mut entry, "args", args);
    Json::Object(entry)
}

/// The set of a session's stop points, as they stand now.
pub fn export<E>(session: &DebugSession<E>) -> (r: Export)
    requires
        session.wf(),
    ensures
        exists|l: set_format::Listing| #[trigger]
            set_format::is_listing(l, *session) && r.shows(set_format::written(*session, l)),
        r.set@.wf(),
        r.set@.exact(127),
{
    let all = &session.state.stop_points;
    let mut b = Builder::new();
    let ghost family = set_format::family_members(session.pattern_sets@);
    let ghost v0 = set_format::nothing();
    let (families, members) = b.push_families(&session.pattern_sets, all, Ghost(v0));
    let ghost v1 = set_format::with_families(v0, families@, session.pattern_sets@, all@);
    let lines = b.push_kind(StopPointKind::Line, all, &members, Ghost(v1), Ghost(family));
    let ghost v2 = set_format::with_stop_points(v1, lines@, all@, family);
    b.push_pending(&session.state.pending_breakpoints, Ghost(v2));
    let ghost v3 = set_format::with_all_pending(v2, session.state.pending_breakpoints@);
    let exceptions = b.push_kind(StopPointKind::Exception, all, &members, Ghost(v3), Ghost(family));
    let ghost v4 = set_format::with_stop_points(v3, exceptions@, all@, family);
    let watchpoints = b.push_kind(
        StopPointKind::Watchpoint,
        all,
        &members,
        Ghost(v4),
        Ghost(family),
    );
    let ghost v5 = set_format::with_stop_points(v4, watchpoints@, all@, family);
    let method_exits = b.push_kind(
        StopPointKind::MethodExit,
        all,
        &members,
        Ghost(v5),
        Ghost(family),
    );
    let ghost v6 = set_format::with_stop_points(v5, method_exits@, all@, family);
    let monitors = b.push_monitors(all, Ghost(v6));
    let ghost v7 = set_format::with_monitors(v6, monitors@, all@);
    let r = b.finish(Ghost(v7));
    proof {
        let l = set_format::Listing {
            families: families@,
            lines: lines@,
            exceptions: exceptions@,
            watchpoints: watchpoints@,
            method_exits: method_exits@,
            monitors: monitors@,
        };
        assert(set_format::is_listing(l, *session));
        assert(set_format::written(*session, l) == v7);
    }
    r
}

/// The line that a family asks for: the one that its first member that is still there was armed with.
fn line_of_family(members: &Vec<String>, all: &TextMap<StopPoint>) -> (r: Option<i32>)
    requires
        all.wf(),
    ensures
        r == set_format::family_line(text::views(members@), all@),
{
    let ghost ids = text::views(members@);
    let mut i: usize = 0;
    assert(ids.skip(0) =~= ids);
    while i < members.len()
        invariant
            i <= members@.len(),
            all.wf(),
            ids == text::views(members@),
            set_format::family_line(ids, all@) == set_format::family_line(ids.skip(i as int), all@),
        decreases members@.len() - i,
    {
        match all.get(members[i].as_str()) {
            Some(sp) => {
                return match sp.line() {
                    Some(bp) => bp.arm_line,
                    None => None,
                };
            },
            None => {},
        }
        assert(ids.skip(i as int).drop_first() =~= ids.skip(i + 1));
        i += 1;
    }
    None
}

/// Puts copies of `more` behind `parts`.
fn add_texts(parts: &mut Vec<String>, more: &Vec<String>)
    ensures
        text::views(final(parts)@) == text::views(old(parts)@) + text::views(more@),
        forall|x: Seq<char>| #[trigger]
            text::views(final(parts)@).contains(x) <==> text::views(old(parts)@).contains(x)
                || text::views(more@).contains(x),
{
    let ghost before = text::views(parts@);
    let ghost new = text::views(more@);
    let mut i: usize = 0;
    assert(text::views(parts@) =~= before + new.take(0));
    while i < more.len()
        invariant
            i <= more@.len(),
            new == text::views(more@),
            text::views(parts@) == before + new.take(i as int),
        decreases more@.len() - i,
    {
        let ghost now = text::views(parts@);
        parts.push(more[i].clone());
        assert(text::views(parts@) =~= now.push(new[i as int]));
        assert(new.take(i + 1) =~= new.take(i as int).push(new[i as int]));
        i += 1;
        assert(text::views(parts@) =~= before + new.take(i as int));
    }
    assert(new.take(i as int) =~= new);
    proof {
        let all = text::views(parts@);
        assert forall|x: Seq<char>| #[trigger] all.contains(x) <==> before.contains(x) || new.contains(
            x,
        ) by {
            if all.contains(x) {
                let k = choose|k: int| 0 <= k < all.len() && all[k] == x;
                if k < before.len() {
                    assert(before[k] == x);
                } else {
                    assert(new[k - before.len()] == x);
                }
            }
            if before.contains(x) {
                let k = choose|k: int| 0 <= k < before.len() && before[k] == x;
                assert(all[k] == x);
            }
            if new.contains(x) {
                let k = choose|k: int| 0 <= k < new.len() && new[k] == x;
                assert(all[k + before.len()] == x);
            }
        }
    }
}

/// Each of the five tools is one that a set may name.
proof fn armable_tools(tool: Seq<char>)
    requires
        tool == "debug.set_line_stop"@ || tool == "debug.set_exception_stop"@ || tool
            == "debug.set_field_stop"@ || tool == "debug.set_method_exit_stop"@ || tool
            == "debug.set_monitor_stop"@,
    ensures
        set_format::armable().contains(tool),
{
    let tools = set_format::armable();
    assert(tools[0] == "debug.set_line_stop"@);
    assert(tools[1] == "debug.set_exception_stop"@);
    assert(tools[2] == "debug.set_field_stop"@);
    assert(tools[3] == "debug.set_method_exit_stop"@);
    assert(tools[4] == "debug.set_monitor_stop"@);
}

/// Whether `s` is one of `parts`.
fn has_text(parts: &Vec<String>, s: &str) -> (r: bool)
    ensures
        r == text::views(parts@).contains(s@),
{
    let mut i: usize = 0;
    while i < parts.len()
        invariant
            i <= parts@.len(),
            forall|k: int| 0 <= k < i ==> (#[trigger] parts@[k])@ != s@,
        decreases parts@.len() - i,
    {
        if text::same(parts[i].as_str(), s) {
            assert(text::views(parts@)[i as int] == s@);
            return true;
        }
        i += 1;
    }
    assert(!text::views(parts@).contains(s@)) by {
        if text::views(parts@).contains(s@) {
            let k = choose|k: int| 0 <= k < parts@.len() && text::views(parts@)[k] == s@;
            assert(parts@[k]@ == s@);
        }
    }
    false
}

// ---------------------------------------------------------------------------------------------
// Reading
// ---------------------------------------------------------------------------------------------
/// What a JSON value is called.
fn type_name_of(v: &Json) -> (r: &'static str)
    ensures
        r@ == set_format::noun(v@),
{
    match v {
        Json::Null => "null",
        Json::Bool(_) => "boolean",
        Json::Unsigned(_) => "number",
        Json::Negative(_) => "number",
        Json::Other(_) => "number",
        Json::Text(_) => "string",
        Json::Array(_) => "array",
        Json::Object(_) => "object",
    }
}

/// The tools that a set may name.
fn armable_names() -> (r: Vec<String>)
    ensures
        text::views(r@) == set_format::armable(),
{
    let mut r: Vec<String> = Vec::new();
    r.push(text::owned(ARMABLE_TOOLS[0]));
    r.push(text::owned(ARMABLE_TOOLS[1]));
    r.push(text::owned(ARMABLE_TOOLS[2]));
    r.push(text::owned(ARMABLE_TOOLS[3]));
    r.push(text::owned(ARMABLE_TOOLS[4]));
    assert(text::views(r@) =~= set_format::armable());
    r
}

fn entry_name(i: usize) -> (r: String)
    ensures
        r@ == set_format::entry_name(i as int),
{
    let mut r = text::owned("entries[");
    r.append(text::decimal(i as u64).as_str());
    r.append("]");
    r
}

/// One entry, refused by its number.
fn parse_entry(i: usize, raw: &Json) -> (r: Result<SetEntry, String>)
    ensures
        match set_format::read_entry(i as int, raw@) {
            Ok(entry) => r is Ok && r->Ok_0@ == entry,
            Err(why) => r is Err && r->Err_0@ == why,
        },
{
    broadcast use json::object_view;

    match raw {
        Json::Object(_) => {},
        _ => {
            return Err(entry_name(i).concat(" is not an object."));
        },
    }
    let tool = match raw.get("tool") {
        Some(Json::Text(tool)) => tool,
        _ => {
            return Err(entry_name(i).concat(" has no `tool` name."));
        },
    };
    let names = armable_names();
    if !has_text(&names, tool.as_str()) {
        let mut why = entry_name(i);
        why.append(" names `");
        why.append(tool.as_str());
        why.append(set_format::NOT_ARMABLE_MIDDLE);
        why.append(text::join(&names, ", ").as_str());
        why.append(set_format::NOT_ARMABLE_TAIL);
        return Err(why);
    }
    let args = match raw.get("args") {
        Some(args) => args.duplicate(),
        None => {
            let none: Vec<(String, Json)> = Vec::new();
            assert(json::entries_view(none@) =~= Seq::empty());
            Json::Object(none)
        },
    };
    match &args {
        Json::Object(_) => {},
        _ => {
            return Err(entry_name(i).concat("'s `args` is not an object."));
        },
    }
    let enabled: bool = match raw.get("enabled") {
        Some(Json::Bool(enabled)) => *enabled,
        _ => true,
    };
    Ok(SetEntry { tool: tool.clone(), enabled, args })
}

spec fn found_views(found: Seq<SetEntry>) -> Seq<set_format::EntryView> {
    found.map_values(|e: SetEntry| e@)
}

fn parse_entries(raw: &Vec<Json>) -> (r: Result<Vec<SetEntry>, String>)
    ensures
        match set_format::read_entries(json::items_view(raw@), raw@.len()) {
            Ok(found) => r is Ok && found_views(r->Ok_0@) == found,
            Err(why) => r is Err && r->Err_0@ == why,
        },
{
    let ghost items = json::items_view(raw@);
    let mut out: Vec<SetEntry> = Vec::new();
    let mut i: usize = 0;
    assert(found_views(out@) =~= Seq::empty());
    while i < raw.len()
        invariant
            i <= raw@.len(),
            items == json::items_view(raw@),
            set_format::read_entries(items, i as nat) == Ok::<
                Seq<set_format::EntryView>,
                Seq<char>,
            >(found_views(out@)),
        decreases raw@.len() - i,
    {
        let ghost before = found_views(out@);
        match parse_entry(i, &raw[i]) {
            Err(why) => {
                proof {
                    set_format::entries_fault(items, (i + 1) as nat, raw@.len());
                }
                return Err(why);
            },
            Ok(entry) => {
                let ghost found = entry@;
                out.push(entry);
                assert(found_views(out@) =~= before.push(found));
            },
        }
        i += 1;
    }
    Ok(out)
}

/// The first eight keys of an object.
fn first_keys(entries: &Vec<(String, Json)>) -> (r: Vec<String>)
    ensures
        text::views(r@) == set_format::few_keys(json::entries_view(entries@)),
{
    let ghost want = set_format::few_keys(json::entries_view(entries@));
    let n: usize = if entries.len() < 8 {
        entries.len()
    } else {
        8
    };
    let mut out: Vec<String> = Vec::new();
    let mut i: usize = 0;
    assert(text::views(out@) =~= want.take(0));
    while i < n
        invariant
            i <= n <= entries@.len(),
            n == want.len(),
            want == set_format::few_keys(json::entries_view(entries@)),
            text::views(out@) == want.take(i as int),
        decreases n - i,
    {
        let ghost before = text::views(out@);
        out.push(entries[i].0.clone());
        assert(want[i as int] == entries@[i as int].0@);
        assert(text::views(out@) =~= before.push(want[i as int]));
        assert(want.take(i + 1) =~= want.take(i as int).push(want[i as int]));
        i += 1;
    }
    assert(want.take(i as int) =~= want);
    out
}

/// The entries of a set, or why this value is none.
pub fn parse_value(root: &Json) -> (r: Result<Vec<SetEntry>, String>)
    ensures
        match set_format::read_set(root@) {
            Ok(found) => r is Ok && r->Ok_0@.map_values(|e: SetEntry| e@) == found,
            Err(why) => r is Err && r->Err_0@ == why,
        },
{
    broadcast use {json::array_view, json::object_view};

    let obj = match root {
        Json::Object(obj) => obj,
        _ => {
            let mut why = text::owned(set_format::NOT_AN_OBJECT_HEAD);
            why.append(type_name_of(root));
            why.append(".");
            return Err(why);
        },
    };
    let version = match root.get(FORMAT_KEY) {
        Some(version) => version,
        None => {
            let mut why = text::owned(set_format::NO_KEY_HEAD);
            why.append(text::join(&first_keys(obj), ", ").as_str());
            why.append(set_format::NO_KEY_TAIL);
            return Err(why);
        },
    };
    let number: u64 = match version {
        Json::Unsigned(v) => *v,
        _ => 0,
    };
    if number > FORMAT_VERSION {
        let mut why = text::owned(set_format::NEWER_HEAD);
        why.append(text::decimal(number).as_str());
        why.append(set_format::NEWER_TAIL);
        return Err(why);
    }
    if number != FORMAT_VERSION {
        let mut why = text::owned(set_format::BAD_VERSION_HEAD);
        why.append(type_name_of(version));
        why.append(".");
        return Err(why);
    }
    let raw = match root.get("entries") {
        Some(Json::Array(raw)) => raw,
        _ => {
            return Err(text::owned(set_format::NO_ENTRIES));
        },
    };
    match parse_entries(raw) {
        Err(why) => Err(why),
        Ok(found) => if found.len() == 0 {
            Err(text::owned(set_format::NO_ENTRY))
        } else {
            Ok(found)
        },
    }
}

/// A text without the code fence round it, if there is one.
fn strip_code_fence(s: &str) -> (r: String)
    ensures
        r@ == set_format::unfenced(s@),
{
    match text::strip_prefix(s, "```") {
        None => text::owned(s),
        Some(rest) => {
            let body = text::split_behind(rest.as_str(), '\n');
            match text::strip_suffix(text::trim(body.as_str()).as_str(), "```") {
                Some(inner) => text::trim(inner.as_str()),
                None => text::trim(body.as_str()),
            }
        },
    }
}

/// The entries of the set that a text holds, or why it holds none. A fence round it is let pass, since
/// that is how a set is shown.
pub fn parse(raw: &str) -> (r: Result<Vec<SetEntry>, String>)
    ensures
        match set_format::read_text(raw@) {
            Ok(found) => r is Ok && r->Ok_0@.map_values(|e: SetEntry| e@) == found,
            Err(why) => r is Err && r->Err_0@ == why,
        },
{
    let trimmed = text::trim(raw);
    if trimmed.as_str().is_empty() {
        return Err(text::owned(set_format::EMPTY_ARGUMENT));
    }
    let unfenced = strip_code_fence(trimmed.as_str());
    match json::read(unfenced.as_str()) {
        Err(e) => {
            let mut why = text::owned(set_format::NOT_JSON_HEAD);
            why.append(e.as_str());
            why.append(set_format::NOT_JSON_TAIL);
            Err(why)
        },
        Ok(root) => parse_value(&root),
    }
}

// ---------------------------------------------------------------------------------------------
// Reporting
// ---------------------------------------------------------------------------------------------
/// What happened to one entry of a set that was armed.
#[derive(Debug, Clone, PartialEq, Eq)]
pub enum ArmOutcome {
    Armed,
    /// The class is not loaded yet.
    Deferred,
    /// The tool refused it, and this says why.
    Refused(String),
    /// It was not enabled when the set was written, and was let be.
    SkippedDisabled,
}

pub const DEFERRED_TAIL: &'static str = " — deferred: the class is not loaded yet, so it is armed on a class-load watch and fires when it is.\n";

pub const SKIPPED_TAIL: &'static str = " — NOT armed: it was disabled or spent when the set was exported. Its arguments are still in the set, so arm it with the tool named there if you want it back.\n";

pub const UNVERIFIED_LINES: &'static str = "\n📐 Lines were NOT checked against the loaded bytecode. A set carries line numbers, which are a claim about the build it was exported from — against a redeployed one they resolve to whatever is now on that line, and arming reports success either way. Run debug.check_stale to settle it.\n";

pub const SUSPENDING_TAIL: &'static str = " of these are SUSPENDING stop points. On a shared JVM this one call is enough to freeze it on the next hit of any of them — which is more exposure than arming them one at a time, where you read a reply between each. The watchdog still applies. Consider trace:true in the set instead.\n";

pub const INSTANCE_TAIL: &'static str = ". A JDWP object id is a weak reference to one object in one JVM (ADR-0022), so it cannot mean anything in the next one — carrying it over would scope the stop point to whatever now lives at that address. These entries are therefore BROADER than what you exported. Take a fresh handle from debug.list_instances and re-apply it.\n";

pub const THREAD_TAIL: &'static str = ". A JDWP thread id belongs to one JVM for the same reason, and a pool that retires idle workers invalidates it even within one. These entries are BROADER than what you exported. Read debug.list_threads for a live id and re-apply it.\n";

pub const UNDESCRIBABLE_TAIL: &'static str = ". A wildcard family whose members are all gone and which names no method has no line and no method left to re-arm from, so there is nothing to write down. Re-arm it with debug.set_line_stop.\n";

pub const EXPORT_DISABLED_TAIL: &'static str = " of them were disabled or spent, and are recorded as such: debug.arm_stop_points will NOT arm those.\n";

pub const EXPORT_SUSPENDING_TAIL: &'static str = " of them are SUSPENDING. Arming this set later is one call that can freeze a shared JVM on the next hit of any of them — worth knowing now, while you still have the chance to re-arm them with trace:true and export again.\n";

pub const EXPORT_KEEP: &'static str = "\nNothing was written to disk — this server has no filesystem write path (BP-8). Store the block below and pass it back verbatim as debug.arm_stop_points {\"set\": \"…\"}.\n\n";

/// How many of the outcomes are of this sort.
pub open spec fn tally(
    outcomes: Seq<(String, ArmOutcome)>,
    sort: spec_fn(ArmOutcome) -> bool,
) -> nat
    decreases outcomes.len(),
{
    if outcomes.len() == 0 {
        0
    } else {
        tally(outcomes.drop_last(), sort) + if sort(outcomes.last().1) {
            1nat
        } else {
            0
        }
    }
}

/// What is said of one entry. One that was armed needs no line.
pub open spec fn outcome_line(label: Seq<char>, outcome: ArmOutcome) -> Seq<char> {
    match outcome {
        ArmOutcome::Armed => Seq::empty(),
        ArmOutcome::Deferred => "   ⏳ "@ + label + DEFERRED_TAIL@,
        ArmOutcome::Refused(why) => "   🛑 "@ + label + " — refused: "@ + why@ + "\n"@,
        ArmOutcome::SkippedDisabled => "   ⏸  "@ + label + SKIPPED_TAIL@,
    }
}

pub open spec fn outcome_lines(outcomes: Seq<(String, ArmOutcome)>) -> Seq<char>
    decreases outcomes.len(),
{
    if outcomes.len() == 0 {
        Seq::empty()
    } else {
        outcome_lines(outcomes.drop_last()) + outcome_line(
            outcomes.last().0@,
            outcomes.last().1,
        )
    }
}

/// How many were armed, deferred, refused and, where there are any, skipped.
pub open spec fn outcome_counts(armed: nat, deferred: nat, refused: nat, skipped: nat) -> Seq<char> {
    text::dec(armed) + " armed, "@ + text::dec(deferred) + " deferred, "@ + text::dec(refused)
        + " refused"@ + (if skipped > 0 {
        ", "@ + text::dec(skipped) + " skipped (disabled when exported)"@
    } else {
        Seq::empty()
    })
}

/// The counts, then a line for every entry that was not armed.
pub open spec fn outcome_report(outcomes: Seq<(String, ArmOutcome)>) -> Seq<char> {
    outcome_counts(
        tally(outcomes, |o: ArmOutcome| o is Armed),
        tally(outcomes, |o: ArmOutcome| o is Deferred),
        tally(outcomes, |o: ArmOutcome| o is Refused),
        tally(outcomes, |o: ArmOutcome| o is SkippedDisabled),
    ) + "\n"@ + outcome_lines(outcomes)
}

/// What happened to the entries of a set: the counts first, then every entry that was not armed, with
/// the reason.
pub fn describe_arm_outcomes(outcomes: &[(String, ArmOutcome)]) -> (r: String)
    ensures
        r@ == outcome_report(outcomes@),
{
    let ghost all = outcomes@;
    let ghost is_armed = |o: ArmOutcome| o is Armed;
    let ghost is_deferred = |o: ArmOutcome| o is Deferred;
    let ghost is_refused = |o: ArmOutcome| o is Refused;
    let ghost is_skipped = |o: ArmOutcome| o is SkippedDisabled;
    let mut armed: usize = 0;
    let mut deferred: usize = 0;
    let mut refused: usize = 0;
    let mut skipped: usize = 0;
    let mut lines = String::new();
    let mut i: usize = 0;
    assert(all.take(0) =~= Seq::empty());
    while i < outcomes.len()
        invariant
            i <= outcomes@.len(),
            all == outcomes@,
            is_armed == (|o: ArmOutcome| o is Armed),
            is_deferred == (|o: ArmOutcome| o is Deferred),
            is_refused == (|o: ArmOutcome| o is Refused),
            is_skipped == (|o: ArmOutcome| o is SkippedDisabled),
            armed == tally(all.take(i as int), is_armed),
            deferred == tally(all.take(i as int), is_deferred),
            refused == tally(all.take(i as int), is_refused),
            skipped == tally(all.take(i as int), is_skipped),
            armed <= i,
            deferred <= i,
            refused <= i,
            skipped <= i,
            lines@ == outcome_lines(all.take(i as int)),
        decreases outcomes@.len() - i,
    {
        let ghost before = lines@;
        assert(all.take(i + 1).drop_last() =~= all.take(i as int));
        let entry = &outcomes[i];
        match &entry.1 {
            ArmOutcome::Armed => {
                armed += 1;
            },
            ArmOutcome::Deferred => {
                deferred += 1;
                lines.append("   ⏳ ");
                lines.append(entry.0.as_str());
                lines.append(DEFERRED_TAIL);
            },
            ArmOutcome::Refused(why) => {
                refused += 1;
                lines.append("   🛑 ");
                lines.append(entry.0.as_str());
                lines.append(" — refused: ");
                lines.append(why.as_str());
                lines.append("\n");
            },
            ArmOutcome::SkippedDisabled => {
                skipped += 1;
                lines.append("   ⏸  ");
                lines.append(entry.0.as_str());
                lines.append(SKIPPED_TAIL);
            },
        }
        assert(lines@ =~= before + outcome_line(entry.0@, entry.1));
        i += 1;
    }
    assert(all.take(i as int) =~= all);
    let mut out = text::decimal(armed as u64);
    out.append(" armed, ");
    out.append(text::decimal(deferred as u64).as_str());
    out.append(" deferred, ");
    out.append(text::decimal(refused as u64).as_str());
    out.append(" refused");
    if skipped > 0 {
        out.append(", ");
        out.append(text::decimal(skipped as u64).as_str());
        out.append(" skipped (disabled when exported)");
    }
    out.append("\n");
    out.append(lines.as_str());
    assert(out@ =~= outcome_report(all));
    out
}

/// That nothing held the lines against the code that runs; nothing where nothing was armed.
pub fn describe_unverified_lines(armed: usize) -> (r: String)
    ensures
        r@ == (if armed == 0 {
            Seq::empty()
        } else {
            UNVERIFIED_LINES@
        }),
{
    if armed == 0 {
        String::new()
    } else {
        text::owned(UNVERIFIED_LINES)
    }
}

/// That so many of the entries stop the debuggee; nothing where none does.
pub fn describe_suspending(count: usize) -> (r: String)
    ensures
        r@ == (if count == 0 {
            Seq::empty()
        } else {
            "\n⚠️  "@ + text::dec(count as nat) + SUSPENDING_TAIL@
        }),
{
    if count == 0 {
        return String::new();
    }
    let mut r = text::owned("\n⚠️  ");
    r.append(text::decimal(count as u64).as_str());
    r.append(SUSPENDING_TAIL);
    r
}

/// A number of things, by a noun that takes an `s`.
pub open spec fn plural_words(n: nat, noun: Seq<char>) -> Seq<char> {
    text::dec(n) + " "@ + noun + (if n == 1 {
        Seq::empty()
    } else {
        "s"@
    })
}

fn plural(n: usize, noun: &str) -> (r: String)
    ensures
        r@ == plural_words(n as nat, noun@),
{
    let mut r = text::decimal(n as u64);
    r.append(" ");
    r.append(noun);
    if n != 1 {
        r.append("s");
    }
    assert(r@ =~= plural_words(n as nat, noun@));
    r
}

/// What is said of the filters and stop points that a set could not carry: one paragraph for each sort,
/// naming every stop point concerned, and nothing where there is none.
pub open spec fn dropped_words(
    instance: Seq<Seq<char>>,
    thread: Seq<Seq<char>>,
    undescribable: Seq<Seq<char>>,
) -> Seq<char> {
    (if instance.len() == 0 {
        Seq::empty()
    } else {
        "\n⚠️  Instance filter DROPPED from "@ + plural_words(instance.len(), "stop point"@) + ": "@
            + text::joined(instance, ", "@) + INSTANCE_TAIL@
    }) + (if thread.len() == 0 {
        Seq::empty()
    } else {
        "\n⚠️  Thread filter DROPPED from "@ + plural_words(thread.len(), "stop point"@) + ": "@
            + text::joined(thread, ", "@) + THREAD_TAIL@
    }) + (if undescribable.len() == 0 {
        Seq::empty()
    } else {
        "\n⚠️  NOT exported: "@ + text::joined(undescribable, ", "@) + UNDESCRIBABLE_TAIL@
    })
}

/// What is said of the filters and stop points that a set could not carry.
pub fn describe_dropped(dropped: &Dropped) -> (r: String)
    ensures
        r@ == dropped_words(
            text::views(dropped.instance@),
            text::views(dropped.thread@),
            text::views(dropped.undescribable@),
        ),
{
    let mut out = String::new();
    if dropped.instance.len() > 0 {
        out.append("\n⚠️  Instance filter DROPPED from ");
        out.append(plural(dropped.instance.len(), "stop point").as_str());
        out.append(": ");
        out.append(text::join(&dropped.instance, ", ").as_str());
        out.append(INSTANCE_TAIL);
    }
    let ghost first = out@;
    if dropped.thread.len() > 0 {
        out.append("\n⚠️  Thread filter DROPPED from ");
        out.append(plural(dropped.thread.len(), "stop point").as_str());
        out.append(": ");
        out.append(text::join(&dropped.thread, ", ").as_str());
        out.append(THREAD_TAIL);
    }
    let ghost second = out@;
    if dropped.undescribable.len() > 0 {
        out.append("\n⚠️  NOT exported: ");
        out.append(text::join(&dropped.undescribable, ", ").as_str());
        out.append(UNDESCRIBABLE_TAIL);
    }
    assert(out@ =~= dropped_words(
        text::views(dropped.instance@),
        text::views(dropped.thread@),
        text::views(dropped.undescribable@),
    ));
    out
}

/// A number of entries.
pub open spec fn entries_words(n: nat) -> Seq<char> {
    if n == 1 {
        "1 entry"@
    } else {
        text::dec(n) + " entries"@
    }
}

fn entries_phrase(n: usize) -> (r: String)
    ensures
        r@ == entries_words(n as nat),
{
    if n == 1 {
        text::owned("1 entry")
    } else {
        text::decimal(n as u64).concat(" entries")
    }
}

/// A set as it is shown, in a code fence.
pub open spec fn fenced(set: JsonView) -> Seq<char> {
    "```json\n"@ + json::json_pretty_text(set) + "\n```"@
}

/// What is said of an export: the warnings first, then the block to keep.
pub open spec fn export_words(export: Export) -> Seq<char> {
    "📦 Stop-point set exported — "@ + entries_words(export.entries as nat) + ".\n"@ + (
    if export.disabled > 0 {
        "   "@ + text::dec(export.disabled as nat) + EXPORT_DISABLED_TAIL@
    } else {
        Seq::empty()
    }) + (if export.suspending > 0 {
        "   "@ + text::dec(export.suspending as nat) + EXPORT_SUSPENDING_TAIL@
    } else {
        Seq::empty()
    }) + dropped_words(
        text::views(export.dropped.instance@),
        text::views(export.dropped.thread@),
        text::views(export.dropped.undescribable@),
    ) + EXPORT_KEEP@ + fenced(export.set@) + "\n"@
}

/// What is said of an export: the warnings first, then the block to keep. The block reads back as the
/// set that was exported.
pub fn render_export(export: &Export) -> (r: String)
    requires
        export.set@.wf(),
    ensures
        r@ == export_words(*export),
        export.set@ is Object && export.set@.exact(127) ==> set_format::read_text(
            fenced(export.set@),
        ) == set_format::read_set(export.set@),
{
    let mut out = text::owned("📦 Stop-point set exported — ");
    out.append(entries_phrase(export.entries).as_str());
    out.append(".\n");
    if export.disabled > 0 {
        out.append("   ");
        out.append(text::decimal(export.disabled as u64).as_str());
        out.append(EXPORT_DISABLED_TAIL);
    }
    if export.suspending > 0 {
        out.append("   ");
        out.append(text::decimal(export.suspending as u64).as_str());
        out.append(EXPORT_SUSPENDING_TAIL);
    }
    out.append(describe_dropped(&export.dropped).as_str());
    out.append(EXPORT_KEEP);
    out.append("```json\n");
    out.append(json::write_pretty(&export.set).as_str());
    out.append("\n```");
    out.append("\n");
    proof {
        if export.set@ is Object && export.set@.exact(127) {
            set_laws::a_fenced_set_reads_as_the_set(export.set@);
        }
    }
    assert(out@ =~= export_words(*export));
    out
}

} // verus!
