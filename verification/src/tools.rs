//! The tools that the server lists.

use crate::json;
use crate::json::{Json, JsonView};
use crate::protocol::Tool;
use crate::text;
use crate::tool_texts;
use vstd::prelude::*;

verus! {

/// The argument that selects a session, which every tool takes.
pub const SESSION_ID_ARG: &'static str = "session_id";

/// The schemas of the arguments that tools take of their own, each where it is known.
#[derive(Debug)]
pub struct Schemas {
    pub attach: Option<Json>,
    pub launch: Option<Json>,
    pub set_breakpoint: Option<Json>,
    pub set_exception_breakpoint: Option<Json>,
    pub set_watchpoint: Option<Json>,
    pub set_method_breakpoint: Option<Json>,
    pub set_monitor_stop: Option<Json>,
    pub clear_breakpoint: Option<Json>,
    pub toggle_breakpoint: Option<Json>,
    pub suspend_thread: Option<Json>,
    pub resume_thread: Option<Json>,
    pub step: Option<Json>,
    pub set_value: Option<Json>,
    pub force_return: Option<Json>,
    pub reload_class: Option<Json>,
    pub pop_frame: Option<Json>,
    pub get_last_event: Option<Json>,
    pub get_stack: Option<Json>,
    pub evaluate: Option<Json>,
    pub evaluate_chain: Option<Json>,
    pub list_threads: Option<Json>,
    pub list_classes: Option<Json>,
    pub list_methods: Option<Json>,
    pub list_fields: Option<Json>,
    pub list_instances: Option<Json>,
    pub run_named_query: Option<Json>,
    pub source: Option<Json>,
    pub check_stale: Option<Json>,
    pub thread_dump: Option<Json>,
    pub get_traces: Option<Json>,
}

impl Schemas {
    /// Every schema that is known is a JSON value.
    pub open spec fn wf(self) -> bool {
        &&& is_value(self.attach)
        &&& is_value(self.launch)
        &&& is_value(self.set_breakpoint)
        &&& is_value(self.set_exception_breakpoint)
        &&& is_value(self.set_watchpoint)
        &&& is_value(self.set_method_breakpoint)
        &&& is_value(self.set_monitor_stop)
        &&& is_value(self.clear_breakpoint)
        &&& is_value(self.toggle_breakpoint)
        &&& is_value(self.suspend_thread)
        &&& is_value(self.resume_thread)
        &&& is_value(self.step)
        &&& is_value(self.set_value)
        &&& is_value(self.force_return)
        &&& is_value(self.reload_class)
        &&& is_value(self.pop_frame)
        &&& is_value(self.get_last_event)
        &&& is_value(self.get_stack)
        &&& is_value(self.evaluate)
        &&& is_value(self.evaluate_chain)
        &&& is_value(self.list_threads)
        &&& is_value(self.list_classes)
        &&& is_value(self.list_methods)
        &&& is_value(self.list_fields)
        &&& is_value(self.list_instances)
        &&& is_value(self.run_named_query)
        &&& is_value(self.source)
        &&& is_value(self.check_stale)
        &&& is_value(self.thread_dump)
        &&& is_value(self.get_traces)
    }

    /// No schema is known.
    pub fn none() -> (r: Self)
        ensures
            r.wf(),
            r == (Schemas {
                attach: None,
                launch: None,
                set_breakpoint: None,
                set_exception_breakpoint: None,
                set_watchpoint: None,
                set_method_breakpoint: None,
                set_monitor_stop: None,
                clear_breakpoint: None,
                toggle_breakpoint: None,
                suspend_thread: None,
                resume_thread: None,
                step: None,
                set_value: None,
                force_return: None,
                reload_class: None,
                pop_frame: None,
                get_last_event: None,
                get_stack: None,
                evaluate: None,
                evaluate_chain: None,
                list_threads: None,
                list_classes: None,
                list_methods: None,
                list_fields: None,
                list_instances: None,
                run_named_query: None,
                source: None,
                check_stale: None,
                thread_dump: None,
                get_traces: None,
            }),
    {
        Schemas {
            attach: None,
            launch: None,
            set_breakpoint: None,
            set_exception_breakpoint: None,
            set_watchpoint: None,
            set_method_breakpoint: None,
            set_monitor_stop: None,
            clear_breakpoint: None,
            toggle_breakpoint: None,
            suspend_thread: None,
            resume_thread: None,
            step: None,
            set_value: None,
            force_return: None,
            reload_class: None,
            pop_frame: None,
            get_last_event: None,
            get_stack: None,
            evaluate: None,
            evaluate_chain: None,
            list_threads: None,
            list_classes: None,
            list_methods: None,
            list_fields: None,
            list_instances: None,
            run_named_query: None,
            source: None,
            check_stale: None,
            thread_dump: None,
            get_traces: None,
        }
    }
}

pub open spec fn is_value(schema: Option<Json>) -> bool {
    match schema {
        Some(schema) => schema@.wf(),
        None => true,
    }
}

/// A tool as it is listed.
#[verifier::ext_equal]
pub ghost struct ToolView {
    pub name: Seq<char>,
    pub description: Seq<char>,
    pub input_schema: JsonView,
}

pub open spec fn tool_view(tool: Tool) -> ToolView {
    ToolView {
        name: tool.name@,
        description: tool.description@,
        input_schema: tool.input_schema@,
    }
}

pub open spec fn tools_view(tools: Seq<Tool>) -> Seq<ToolView> {
    tools.map_values(|tool: Tool| tool_view(tool))
}

/// What is said of the argument that selects a session: a text or nothing, and nothing by default.
pub open spec fn session_id_schema() -> JsonView {
    JsonView::Object(
        json::put(
            json::put(
                json::put(
                    Seq::empty(),
                    "type"@,
                    JsonView::Array(seq![JsonView::Text("string"@), JsonView::Text("null"@)]),
                ),
                "default"@,
                JsonView::Null,
            ),
            "description"@,
            JsonView::Text(tool_texts::SESSION_ID@),
        ),
    )
}

/// A schema that takes no arguments but those it lists, the session among them.
pub open spec fn with_session(schema: JsonView) -> JsonView {
    match schema {
        JsonView::Object(entries) => {
            let closed = json::put(entries, "additionalProperties"@, JsonView::Bool(false));
            JsonView::Object(
                match json::lookup(closed, "properties"@) {
                    Some(JsonView::Object(properties)) => json::put(
                        closed,
                        "properties"@,
                        JsonView::Object(
                            json::put(properties, SESSION_ID_ARG@, session_id_schema()),
                        ),
                    ),
                    _ => closed,
                },
            )
        },
        _ => schema,
    }
}

/// The schema of an object without properties.
pub open spec fn plain_object() -> JsonView {
    JsonView::Object(
        json::put(
            json::put(Seq::empty(), "type"@, JsonView::Text("object"@)),
            "properties"@,
            JsonView::Object(Seq::empty()),
        ),
    )
}

/// The schema that is listed for arguments.
pub open spec fn listed(schema: Option<Json>) -> JsonView {
    match schema {
        Some(schema) => with_session(schema@),
        None => with_session(plain_object()),
    }
}

/// The schema that is listed for a tool without arguments of its own.
pub open spec fn listed_empty() -> JsonView {
    with_session(
        JsonView::Object(
            json::put(
                plain_object()->Object_0,
                "additionalProperties"@,
                JsonView::Bool(false),
            ),
        ),
    )
}

/// A row of the listing.
pub open spec fn row(
    name: &'static str,
    description: &'static str,
    input_schema: JsonView,
) -> ToolView {
    ToolView { name: name@, description: description@, input_schema }
}

/// Connecting to a JVM and leaving it.
pub open spec fn session_rows(schemas: Schemas) -> Seq<ToolView> {
    seq![
        row("debug.attach", tool_texts::ATTACH, listed(schemas.attach)),
        row("debug.launch", tool_texts::LAUNCH, listed(schemas.launch)),
        row("debug.list_sessions", tool_texts::LIST_SESSIONS, listed_empty()),
        row("debug.disconnect", tool_texts::DISCONNECT, listed_empty()),
    ]
}

/// What can stop the VM, and what is armed.
pub open spec fn stop_point_rows(schemas: Schemas) -> Seq<ToolView> {
    seq![
        row("debug.set_line_stop", tool_texts::SET_LINE_STOP, listed(schemas.set_breakpoint)),
        row("debug.set_exception_stop", tool_texts::SET_EXCEPTION_STOP, listed(schemas.set_exception_breakpoint)),
        row("debug.set_field_stop", tool_texts::SET_FIELD_STOP, listed(schemas.set_watchpoint)),
        row("debug.set_method_exit_stop", tool_texts::SET_METHOD_EXIT_STOP, listed(schemas.set_method_breakpoint)),
        row("debug.set_monitor_stop", tool_texts::SET_MONITOR_STOP, listed(schemas.set_monitor_stop)),
        row("debug.list_stop_points", tool_texts::LIST_STOP_POINTS, listed_empty()),
        row("debug.clear_stop_point", tool_texts::CLEAR_STOP_POINT, listed(schemas.clear_breakpoint)),
        row("debug.toggle_stop_point", tool_texts::TOGGLE_STOP_POINT, listed(schemas.toggle_breakpoint)),
        row("debug.panic", tool_texts::PANIC, listed_empty()),
    ]
}

/// Driving the VM on, and changing what it does next.
pub open spec fn execution_rows(schemas: Schemas) -> Seq<ToolView> {
    seq![
        row("debug.continue", tool_texts::CONTINUE, listed_empty()),
        row("debug.pause", tool_texts::PAUSE, listed_empty()),
        row("debug.suspend_thread", tool_texts::SUSPEND_THREAD, listed(schemas.suspend_thread)),
        row("debug.resume_thread", tool_texts::RESUME_THREAD, listed(schemas.resume_thread)),
        row("debug.step_over", tool_texts::STEP_OVER, listed(schemas.step)),
        row("debug.step_into", tool_texts::STEP_INTO, listed(schemas.step)),
        row("debug.step_out", tool_texts::STEP_OUT, listed(schemas.step)),
        row("debug.set_value", tool_texts::SET_VALUE, listed(schemas.set_value)),
        row("debug.force_return", tool_texts::FORCE_RETURN, listed(schemas.force_return)),
        row("debug.reload_class", tool_texts::RELOAD_CLASS, listed(schemas.reload_class)),
        row("debug.pop_frame", tool_texts::POP_FRAME, listed(schemas.pop_frame)),
    ]
}

/// Reading what the VM is doing.
pub open spec fn inspection_rows(schemas: Schemas) -> Seq<ToolView> {
    seq![
        row("debug.get_last_event", tool_texts::GET_LAST_EVENT, listed(schemas.get_last_event)),
        row("debug.get_stack", tool_texts::GET_STACK, listed(schemas.get_stack)),
        row("debug.evaluate", tool_texts::EVALUATE, listed(schemas.evaluate)),
        row("debug.evaluate_chain", tool_texts::EVALUATE_CHAIN, listed(schemas.evaluate_chain)),
        row("debug.list_threads", tool_texts::LIST_THREADS, listed(schemas.list_threads)),
        row("debug.list_classes", tool_texts::LIST_CLASSES, listed(schemas.list_classes)),
        row("debug.list_methods", tool_texts::LIST_METHODS, listed(schemas.list_methods)),
        row("debug.list_fields", tool_texts::LIST_FIELDS, listed(schemas.list_fields)),
        row("debug.list_instances", tool_texts::LIST_INSTANCES, listed(schemas.list_instances)),
        row("debug.run_named_query", tool_texts::RUN_NAMED_QUERY, listed(schemas.run_named_query)),
        row("debug.source", tool_texts::SOURCE, listed(schemas.source)),
        row("debug.check_stale", tool_texts::CHECK_STALE, listed(schemas.check_stale)),
        row("debug.thread_dump", tool_texts::THREAD_DUMP, listed(schemas.thread_dump)),
        row("debug.get_traces", tool_texts::GET_TRACES, listed(schemas.get_traces)),
    ]
}

/// Every tool, in the order in which it is listed.
pub open spec fn rows(schemas: Schemas) -> Seq<ToolView> {
    session_rows(schemas) + stop_point_rows(schemas) + execution_rows(schemas) + inspection_rows(
        schemas,
    )
}

fn described_session_id() -> (r: Json)
    ensures
        r@ == session_id_schema(),
{
    broadcast use {json::object_view, json::array_view};

    let mut kinds: Vec<Json> = Vec::new();
    kinds.push(Json::text("string"));
    kinds.push(Json::text("null"));
    let mut entries: Vec<(String, Json)> = Vec::new();
    assert(json::entries_view(entries@) =~= Seq::empty());
    let kinds = Json::Array(kinds);
    assert(kinds@->Array_0 =~= seq![JsonView::Text("string"@), JsonView::Text("null"@)]);
    json::bind(&mut entries, "type", kinds);
    json::bind(&mut entries, "default", Json::Null);
    json::bind(&mut entries, "description", Json::text(tool_texts::SESSION_ID));
    Json::Object(entries)
}

/// A schema that takes no arguments but those it lists, the session among them.
pub fn with_session_id(schema: Json) -> (r: Json)
    requires
        schema@.wf(),
    ensures
        r@ == with_session(schema@),
{
    broadcast use json::object_view;

    match schema {
        Json::Object(entries) => {
            let mut entries = entries;
            json::bind(&mut entries, "additionalProperties", Json::Bool(false));
            let closed = Json::Object(entries);
            match closed.get("properties") {
                Some(Json::Object(properties)) => {
                    let mut properties = json::duplicate_entries(properties);
                    proof {
                        a_member_is_ordered(schema@, "properties"@);
                    }
                    json::bind(&mut properties, SESSION_ID_ARG, described_session_id());
                    match closed {
                        Json::Object(entries) => {
                            let mut entries = entries;
                            json::bind(&mut entries, "properties", Json::Object(properties));
                            Json::Object(entries)
                        },
                        other => other,
                    }
                },
                _ => closed,
            }
        },
        other => other,
    }
}

proof fn a_member_is_ordered(schema: JsonView, key: Seq<char>)
    requires
        schema.wf(),
        schema is Object,
    ensures
        match json::lookup(
            json::put(schema->Object_0, "additionalProperties"@, JsonView::Bool(false)),
            key,
        ) {
            Some(JsonView::Object(entries)) => json::ascending(entries),
            _ => true,
        },
{
    let entries = schema->Object_0;
    json::put_keeps_wf(entries, "additionalProperties"@, JsonView::Bool(false), 0);
    json::what_is_looked_up_is_wf(
        json::put(entries, "additionalProperties"@, JsonView::Bool(false)),
        key,
    );
}

fn object_schema() -> (r: Vec<(String, Json)>)
    ensures
        JsonView::Object(json::entries_view(r@)) == plain_object(),
        json::ascending(json::entries_view(r@)),
        plain_object().wf(),
{
    broadcast use json::object_view;

    let mut entries: Vec<(String, Json)> = Vec::new();
    assert(json::entries_view(entries@) =~= Seq::empty());
    json::bind(&mut entries, "type", Json::text("object"));
    let none: Vec<(String, Json)> = Vec::new();
    assert(json::entries_view(none@) =~= Seq::empty());
    json::bind(&mut entries, "properties", Json::Object(none));
    proof {
        json::empty_object_is_wf(0);
        json::put_keeps_wf(Seq::empty(), "type"@, JsonView::Text("object"@), 0);
        json::put_keeps_wf(
            json::put(Seq::empty(), "type"@, JsonView::Text("object"@)),
            "properties"@,
            JsonView::Object(Seq::empty()),
            0,
        );
    }
    entries
}

/// The schema that is listed for arguments.
fn to_val(schema: &Option<Json>) -> (r: Json)
    requires
        is_value(*schema),
    ensures
        r@ == listed(*schema),
{
    broadcast use json::object_view;

    match schema {
        Some(schema) => with_session_id(schema.duplicate()),
        None => with_session_id(Json::Object(object_schema())),
    }
}

/// The schema that is listed for a tool without arguments of its own.
fn empty() -> (r: Json)
    ensures
        r@ == listed_empty(),
{
    broadcast use json::object_view;

    let mut entries = object_schema();
    proof {
        json::put_keeps_wf(
            json::entries_view(entries@),
            "additionalProperties"@,
            JsonView::Bool(false),
            0,
        );
    }
    json::bind(&mut entries, "additionalProperties", Json::Bool(false));
    with_session_id(Json::Object(entries))
}

fn tool(name: &'static str, description: &'static str, input_schema: Json) -> (r: Tool)
    ensures
        tool_view(r) == row(name, description, input_schema@),
{
    Tool { name: text::owned(name), description: text::owned(description), input_schema }
}

fn extend(tools: &mut Vec<Tool>, more: Vec<Tool>)
    ensures
        tools_view(final(tools)@) == tools_view(old(tools)@) + tools_view(more@),
{
    let ghost before = tools@;
    for tool in it: more.into_iter()
        invariant
            it.seq() == more@,
            before == old(tools)@,
            tools@ == before + more@.take(it.index() as int),
    {
        tools.push(tool);
        assert(more@.take(it.index() + 1) =~= more@.take(it.index() as int).push(tool));
    }
    assert(more@.take(more@.len() as int) =~= more@);
    assert(tools_view(tools@) =~= tools_view(before) + tools_view(more@));
}

/// Connecting to a JVM and leaving it.
pub fn session_tools(schemas: &Schemas) -> (r: Vec<Tool>)
    requires
        schemas.wf(),
    ensures
        tools_view(r@) == session_rows(*schemas),
{
    let mut tools: Vec<Tool> = Vec::new();
    tools.push(tool("debug.attach", tool_texts::ATTACH, to_val(&schemas.attach)));
    tools.push(tool("debug.launch", tool_texts::LAUNCH, to_val(&schemas.launch)));
    tools.push(tool("debug.list_sessions", tool_texts::LIST_SESSIONS, empty()));
    tools.push(tool("debug.disconnect", tool_texts::DISCONNECT, empty()));
    assert(tools_view(tools@) =~= session_rows(*schemas));
    tools
}

/// What can stop the VM, and what is armed.
pub fn stop_point_tools(schemas: &Schemas) -> (r: Vec<Tool>)
    requires
        schemas.wf(),
    ensures
        tools_view(r@) == stop_point_rows(*schemas),
{
    let mut tools: Vec<Tool> = Vec::new();
    tools.push(tool("debug.set_line_stop", tool_texts::SET_LINE_STOP, to_val(&schemas.set_breakpoint)));
    tools.push(tool("debug.set_exception_stop", tool_texts::SET_EXCEPTION_STOP, to_val(&schemas.set_exception_breakpoint)));
    tools.push(tool("debug.set_field_stop", tool_texts::SET_FIELD_STOP, to_val(&schemas.set_watchpoint)));
    tools.push(tool("debug.set_method_exit_stop", tool_texts::SET_METHOD_EXIT_STOP, to_val(&schemas.set_method_breakpoint)));
    tools.push(tool("debug.set_monitor_stop", tool_texts::SET_MONITOR_STOP, to_val(&schemas.set_monitor_stop)));
    tools.push(tool("debug.list_stop_points", tool_texts::LIST_STOP_POINTS, empty()));
    tools.push(tool("debug.clear_stop_point", tool_texts::CLEAR_STOP_POINT, to_val(&schemas.clear_breakpoint)));
    tools.push(tool("debug.toggle_stop_point", tool_texts::TOGGLE_STOP_POINT, to_val(&schemas.toggle_breakpoint)));
    tools.push(tool("debug.panic", tool_texts::PANIC, empty()));
    assert(tools_view(tools@) =~= stop_point_rows(*schemas));
    tools
}

/// Driving the VM on, and changing what it does next.
pub fn execution_tools(schemas: &Schemas) -> (r: Vec<Tool>)
    requires
        schemas.wf(),
    ensures
        tools_view(r@) == execution_rows(*schemas),
{
    let mut tools: Vec<Tool> = Vec::new();
    tools.push(tool("debug.continue", tool_texts::CONTINUE, empty()));
    tools.push(tool("debug.pause", tool_texts::PAUSE, empty()));
    tools.push(tool("debug.suspend_thread", tool_texts::SUSPEND_THREAD, to_val(&schemas.suspend_thread)));
    tools.push(tool("debug.resume_thread", tool_texts::RESUME_THREAD, to_val(&schemas.resume_thread)));
    tools.push(tool("debug.step_over", tool_texts::STEP_OVER, to_val(&schemas.step)));
    tools.push(tool("debug.step_into", tool_texts::STEP_INTO, to_val(&schemas.step)));
    tools.push(tool("debug.step_out", tool_texts::STEP_OUT, to_val(&schemas.step)));
    tools.push(tool("debug.set_value", tool_texts::SET_VALUE, to_val(&schemas.set_value)));
    tools.push(tool("debug.force_return", tool_texts::FORCE_RETURN, to_val(&schemas.force_return)));
    tools.push(tool("debug.reload_class", tool_texts::RELOAD_CLASS, to_val(&schemas.reload_class)));
    tools.push(tool("debug.pop_frame", tool_texts::POP_FRAME, to_val(&schemas.pop_frame)));
    assert(tools_view(tools@) =~= execution_rows(*schemas));
    tools
}

/// Reading what the VM is doing.
pub fn inspection_tools(schemas: &Schemas) -> (r: Vec<Tool>)
    requires
        schemas.wf(),
    ensures
        tools_view(r@) == inspection_rows(*schemas),
{
    let mut tools: Vec<Tool> = Vec::new();
    tools.push(tool("debug.get_last_event", tool_texts::GET_LAST_EVENT, to_val(&schemas.get_last_event)));
    tools.push(tool("debug.get_stack", tool_texts::GET_STACK, to_val(&schemas.get_stack)));
    tools.push(tool("debug.evaluate", tool_texts::EVALUATE, to_val(&schemas.evaluate)));
    tools.push(tool("debug.evaluate_chain", tool_texts::EVALUATE_CHAIN, to_val(&schemas.evaluate_chain)));
    tools.push(tool("debug.list_threads", tool_texts::LIST_THREADS, to_val(&schemas.list_threads)));
    tools.push(tool("debug.list_classes", tool_texts::LIST_CLASSES, to_val(&schemas.list_classes)));
    tools.push(tool("debug.list_methods", tool_texts::LIST_METHODS, to_val(&schemas.list_methods)));
    tools.push(tool("debug.list_fields", tool_texts::LIST_FIELDS, to_val(&schemas.list_fields)));
    tools.push(tool("debug.list_instances", tool_texts::LIST_INSTANCES, to_val(&schemas.list_instances)));
    tools.push(tool("debug.run_named_query", tool_texts::RUN_NAMED_QUERY, to_val(&schemas.run_named_query)));
    tools.push(tool("debug.source", tool_texts::SOURCE, to_val(&schemas.source)));
    tools.push(tool("debug.check_stale", tool_texts::CHECK_STALE, to_val(&schemas.check_stale)));
    tools.push(tool("debug.thread_dump", tool_texts::THREAD_DUMP, to_val(&schemas.thread_dump)));
    tools.push(tool("debug.get_traces", tool_texts::GET_TRACES, to_val(&schemas.get_traces)));
    assert(tools_view(tools@) =~= inspection_rows(*schemas));
    tools
}

/// Every tool, in the order in which it is listed.
pub fn get_tools(schemas: &Schemas) -> (r: Vec<Tool>)
    requires
        schemas.wf(),
    ensures
        tools_view(r@) == rows(*schemas),
{
    let mut tools = session_tools(schemas);
    extend(&mut tools, stop_point_tools(schemas));
    extend(&mut tools, execution_tools(schemas));
    extend(&mut tools, inspection_tools(schemas));
    tools
}

/// Whether a schema is an object with properties.
pub open spec fn has_properties(schema: JsonView) -> bool {
    &&& schema.wf()
    &&& schema is Object
    &&& json::member(schema, "properties"@) is Some
    &&& json::member(schema, "properties"@)->0 is Object
}

/// Whether a schema takes a session, and nothing that it does not list.
pub open spec fn takes_a_session(schema: JsonView) -> bool {
    &&& json::member(schema, "additionalProperties"@) == Some(JsonView::Bool(false))
    &&& json::member(schema, "properties"@) is Some
    &&& json::member(json::member(schema, "properties"@)->0, SESSION_ID_ARG@) == Some(
        session_id_schema(),
    )
}

/// Listing a schema adds the session to its properties and closes it, and leaves everything else as it is:
/// each other property, and each other key.
pub proof fn listing_adds_only_the_session(schema: JsonView, other: Seq<char>)
    requires
        has_properties(schema),
    ensures
        takes_a_session(with_session(schema)),
        other != SESSION_ID_ARG@ ==> json::member(
            json::member(with_session(schema), "properties"@)->0,
            other,
        ) == json::member(json::member(schema, "properties"@)->0, other),
        other != "properties"@ && other != "additionalProperties"@ ==> json::member(
            with_session(schema),
            other,
        ) == json::member(schema, other),
{
    reveal_strlit("additionalProperties");
    reveal_strlit("properties");
    let entries = schema->Object_0;
    let shut = JsonView::Bool(false);
    let closed = json::put(entries, "additionalProperties"@, shut);
    json::put_keeps_order(entries, "additionalProperties"@, shut);
    json::what_is_bound_reads_back(entries, "additionalProperties"@, shut, "properties"@);
    json::what_is_bound_reads_back(entries, "additionalProperties"@, shut, other);
    let properties = json::lookup(entries, "properties"@)->0->Object_0;
    json::what_is_looked_up_is_wf(entries, "properties"@);
    let wider = json::put(properties, SESSION_ID_ARG@, session_id_schema());
    json::what_is_bound_reads_back(properties, SESSION_ID_ARG@, session_id_schema(), other);
    json::what_is_bound_reads_back(
        closed,
        "properties"@,
        JsonView::Object(wider),
        "additionalProperties"@,
    );
    json::what_is_bound_reads_back(closed, "properties"@, JsonView::Object(wider), other);
}

proof fn an_object_has_properties(with: JsonView)
    requires
        with is Bool,
    ensures
        has_properties(plain_object()),
        has_properties(
            JsonView::Object(
                json::put(plain_object()->Object_0, "additionalProperties"@, with),
            ),
        ),
{
    reveal_strlit("additionalProperties");
    reveal_strlit("properties");
    let none: json::Entries = Seq::empty();
    let nothing = JsonView::Object(none);
    let typed = json::put(none, "type"@, JsonView::Text("object"@));
    let plain = json::put(typed, "properties"@, nothing);
    json::empty_object_is_wf(0);
    json::put_keeps_wf(none, "type"@, JsonView::Text("object"@), 0);
    json::put_keeps_wf(typed, "properties"@, nothing, 0);
    json::put_keeps_wf(plain, "additionalProperties"@, with, 0);
    json::what_is_bound_reads_back(typed, "properties"@, nothing, "properties"@);
    json::what_is_bound_reads_back(plain, "additionalProperties"@, with, "properties"@);
}

/// Whether a schema, where it is known, is an object with properties.
pub open spec fn is_usable(schema: Option<Json>) -> bool {
    match schema {
        Some(schema) => has_properties(schema@),
        None => true,
    }
}

proof fn a_listed_schema_takes_a_session(schema: Option<Json>)
    requires
        is_usable(schema),
    ensures
        takes_a_session(listed(schema)),
        takes_a_session(listed_empty()),
{
    an_object_has_properties(JsonView::Bool(false));
    listing_adds_only_the_session(plain_object(), Seq::empty());
    listing_adds_only_the_session(
        JsonView::Object(
            json::put(
                plain_object()->Object_0,
                "additionalProperties"@,
                JsonView::Bool(false),
            ),
        ),
        Seq::empty(),
    );
    if let Some(s) = schema {
        listing_adds_only_the_session(s@, Seq::empty());
    }
}

impl Schemas {
    /// Every schema that is known is an object with properties.
    pub open spec fn usable(self) -> bool {
        &&& is_usable(self.attach)
        &&& is_usable(self.launch)
        &&& is_usable(self.set_breakpoint)
        &&& is_usable(self.set_exception_breakpoint)
        &&& is_usable(self.set_watchpoint)
        &&& is_usable(self.set_method_breakpoint)
        &&& is_usable(self.set_monitor_stop)
        &&& is_usable(self.clear_breakpoint)
        &&& is_usable(self.toggle_breakpoint)
        &&& is_usable(self.suspend_thread)
        &&& is_usable(self.resume_thread)
        &&& is_usable(self.step)
        &&& is_usable(self.set_value)
        &&& is_usable(self.force_return)
        &&& is_usable(self.reload_class)
        &&& is_usable(self.pop_frame)
        &&& is_usable(self.get_last_event)
        &&& is_usable(self.get_stack)
        &&& is_usable(self.evaluate)
        &&& is_usable(self.evaluate_chain)
        &&& is_usable(self.list_threads)
        &&& is_usable(self.list_classes)
        &&& is_usable(self.list_methods)
        &&& is_usable(self.list_fields)
        &&& is_usable(self.list_instances)
        &&& is_usable(self.run_named_query)
        &&& is_usable(self.source)
        &&& is_usable(self.check_stale)
        &&& is_usable(self.thread_dump)
        &&& is_usable(self.get_traces)
    }
}

/// Every tool takes a session.
pub proof fn every_tool_takes_a_session(schemas: Schemas, i: int)
    requires
        schemas.usable(),
        0 <= i < rows(schemas).len(),
    ensures
        takes_a_session(rows(schemas)[i].input_schema),
{
    a_listed_schema_takes_a_session(schemas.attach);
    a_listed_schema_takes_a_session(schemas.launch);
    a_listed_schema_takes_a_session(schemas.set_breakpoint);
    a_listed_schema_takes_a_session(schemas.set_exception_breakpoint);
    a_listed_schema_takes_a_session(schemas.set_watchpoint);
    a_listed_schema_takes_a_session(schemas.set_method_breakpoint);
    a_listed_schema_takes_a_session(schemas.set_monitor_stop);
    a_listed_schema_takes_a_session(schemas.clear_breakpoint);
    a_listed_schema_takes_a_session(schemas.toggle_breakpoint);
    a_listed_schema_takes_a_session(schemas.suspend_thread);
    a_listed_schema_takes_a_session(schemas.resume_thread);
    a_listed_schema_takes_a_session(schemas.step);
    a_listed_schema_takes_a_session(schemas.set_value);
    a_listed_schema_takes_a_session(schemas.force_return);
    a_listed_schema_takes_a_session(schemas.reload_class);
    a_listed_schema_takes_a_session(schemas.pop_frame);
    a_listed_schema_takes_a_session(schemas.get_last_event);
    a_listed_schema_takes_a_session(schemas.get_stack);
    a_listed_schema_takes_a_session(schemas.evaluate);
    a_listed_schema_takes_a_session(schemas.evaluate_chain);
    a_listed_schema_takes_a_session(schemas.list_threads);
    a_listed_schema_takes_a_session(schemas.list_classes);
    a_listed_schema_takes_a_session(schemas.list_methods);
    a_listed_schema_takes_a_session(schemas.list_fields);
    a_listed_schema_takes_a_session(schemas.list_instances);
    a_listed_schema_takes_a_session(schemas.run_named_query);
    a_listed_schema_takes_a_session(schemas.source);
    a_listed_schema_takes_a_session(schemas.check_stale);
    a_listed_schema_takes_a_session(schemas.thread_dump);
    a_listed_schema_takes_a_session(schemas.get_traces);
    let (a, b, c, d) = (
        session_rows(schemas),
        stop_point_rows(schemas),
        execution_rows(schemas),
        inspection_rows(schemas),
    );
    if i < a.len() {
        assert(rows(schemas)[i] == a[i]);
    } else if i < a.len() + b.len() {
        assert(rows(schemas)[i] == b[i - a.len()]);
    } else if i < a.len() + b.len() + c.len() {
        assert(rows(schemas)[i] == c[i - a.len() - b.len()]);
    } else {
        assert(rows(schemas)[i] == d[i - a.len() - b.len() - c.len()]);
    }
}

/// A number that a name of a tool is told by: its length, the letter behind the dot, and the last letter but two.
spec fn mark(name: Seq<char>) -> int {
    name.len() * 65536 + (name[6] as int) * 256 + (name[name.len() - 3] as int)
}

/// Where the tool with a mark stands in the listing.
spec fn place(mark: int) -> int {
    if mark == 811361 {
        0
    } else if mark == 814190 {
        1
    } else if mark == 1272943 {
        2
    } else if mark == 1074277 {
        3
    } else if mark == 1274740 {
        4
    } else if mark == 1602420 {
        5
    } else if mark == 1340276 {
        6
    } else if mark == 1733492 {
        7
    } else if mark == 1471348 {
        8
    } else if mark == 1469550 {
        9
    } else if mark == 1467241 {
        10
    } else if mark == 1537129 {
        11
    } else if mark == 749678 {
        12
    } else if mark == 942958 {
        13
    } else if mark == 749685 {
        14
    } else if mark == 1340261 {
        15
    } else if mark == 1274469 {
        16
    } else if mark == 1012598 {
        17
    } else if mark == 1012590 {
        18
    } else if mark == 947055 {
        19
    } else if mark == 1012588 {
        20
    } else if mark == 1205877 {
        21
    } else if mark == 1208929 {
        22
    } else if mark == 1011809 {
        23
    } else if mark == 1337189 {
        24
    } else if mark == 1009505 {
        25
    } else if mark == 943457 {
        26
    } else if mark == 1336673 {
        27
    } else if mark == 1207393 {
        28
    } else if mark == 1207411 {
        29
    } else if mark == 1207407 {
        30
    } else if mark == 1141868 {
        31
    } else if mark == 1338467 {
        32
    } else if mark == 1405541 {
        33
    } else if mark == 815986 {
        34
    } else if mark == 1139553 {
        35
    } else if mark == 1143925 {
        36
    } else if mark == 1075043 {
        37
    } else {
        -1
    }
}

proof fn session_names_have_their_places(schemas: Schemas, i: int)
    requires
        0 <= i < session_rows(schemas).len(),
    ensures
        place(mark(session_rows(schemas)[i].name)) == i + 0,
{
    let all = session_rows(schemas);
    if i == 0 {
        reveal_strlit("debug.attach");
        assert(all[0].name == "debug.attach"@);
    } else if i == 1 {
        reveal_strlit("debug.launch");
        assert(all[1].name == "debug.launch"@);
    } else if i == 2 {
        reveal_strlit("debug.list_sessions");
        assert(all[2].name == "debug.list_sessions"@);
    } else {
        reveal_strlit("debug.disconnect");
        assert(all[3].name == "debug.disconnect"@);
    }
}

proof fn stop_point_names_have_their_places(schemas: Schemas, i: int)
    requires
        0 <= i < stop_point_rows(schemas).len(),
    ensures
        place(mark(stop_point_rows(schemas)[i].name)) == i + 4,
{
    let all = stop_point_rows(schemas);
    if i == 0 {
        reveal_strlit("debug.set_line_stop");
        assert(all[0].name == "debug.set_line_stop"@);
    } else if i == 1 {
        reveal_strlit("debug.set_exception_stop");
        assert(all[1].name == "debug.set_exception_stop"@);
    } else if i == 2 {
        reveal_strlit("debug.set_field_stop");
        assert(all[2].name == "debug.set_field_stop"@);
    } else if i == 3 {
        reveal_strlit("debug.set_method_exit_stop");
        assert(all[3].name == "debug.set_method_exit_stop"@);
    } else if i == 4 {
        reveal_strlit("debug.set_monitor_stop");
        assert(all[4].name == "debug.set_monitor_stop"@);
    } else if i == 5 {
        reveal_strlit("debug.list_stop_points");
        assert(all[5].name == "debug.list_stop_points"@);
    } else if i == 6 {
        reveal_strlit("debug.clear_stop_point");
        assert(all[6].name == "debug.clear_stop_point"@);
    } else if i == 7 {
        reveal_strlit("debug.toggle_stop_point");
        assert(all[7].name == "debug.toggle_stop_point"@);
    } else {
        reveal_strlit("debug.panic");
        assert(all[8].name == "debug.panic"@);
    }
}

proof fn execution_names_have_their_places(schemas: Schemas, i: int)
    requires
        0 <= i < execution_rows(schemas).len(),
    ensures
        place(mark(execution_rows(schemas)[i].name)) == i + 13,
{
    let all = execution_rows(schemas);
    if i == 0 {
        reveal_strlit("debug.continue");
        assert(all[0].name == "debug.continue"@);
    } else if i == 1 {
        reveal_strlit("debug.pause");
        assert(all[1].name == "debug.pause"@);
    } else if i == 2 {
        reveal_strlit("debug.suspend_thread");
        assert(all[2].name == "debug.suspend_thread"@);
    } else if i == 3 {
        reveal_strlit("debug.resume_thread");
        assert(all[3].name == "debug.resume_thread"@);
    } else if i == 4 {
        reveal_strlit("debug.step_over");
        assert(all[4].name == "debug.step_over"@);
    } else if i == 5 {
        reveal_strlit("debug.step_into");
        assert(all[5].name == "debug.step_into"@);
    } else if i == 6 {
        reveal_strlit("debug.step_out");
        assert(all[6].name == "debug.step_out"@);
    } else if i == 7 {
        reveal_strlit("debug.set_value");
        assert(all[7].name == "debug.set_value"@);
    } else if i == 8 {
        reveal_strlit("debug.force_return");
        assert(all[8].name == "debug.force_return"@);
    } else if i == 9 {
        reveal_strlit("debug.reload_class");
        assert(all[9].name == "debug.reload_class"@);
    } else {
        reveal_strlit("debug.pop_frame");
        assert(all[10].name == "debug.pop_frame"@);
    }
}

proof fn inspection_names_have_their_places(schemas: Schemas, i: int)
    requires
        0 <= i < inspection_rows(schemas).len(),
    ensures
        place(mark(inspection_rows(schemas)[i].name)) == i + 24,
{
    let all = inspection_rows(schemas);
    if i == 0 {
        reveal_strlit("debug.get_last_event");
        assert(all[0].name == "debug.get_last_event"@);
    } else if i == 1 {
        reveal_strlit("debug.get_stack");
        assert(all[1].name == "debug.get_stack"@);
    } else if i == 2 {
        reveal_strlit("debug.evaluate");
        assert(all[2].name == "debug.evaluate"@);
    } else if i == 3 {
        reveal_strlit("debug.evaluate_chain");
        assert(all[3].name == "debug.evaluate_chain"@);
    } else if i == 4 {
        reveal_strlit("debug.list_threads");
        assert(all[4].name == "debug.list_threads"@);
    } else if i == 5 {
        reveal_strlit("debug.list_classes");
        assert(all[5].name == "debug.list_classes"@);
    } else if i == 6 {
        reveal_strlit("debug.list_methods");
        assert(all[6].name == "debug.list_methods"@);
    } else if i == 7 {
        reveal_strlit("debug.list_fields");
        assert(all[7].name == "debug.list_fields"@);
    } else if i == 8 {
        reveal_strlit("debug.list_instances");
        assert(all[8].name == "debug.list_instances"@);
    } else if i == 9 {
        reveal_strlit("debug.run_named_query");
        assert(all[9].name == "debug.run_named_query"@);
    } else if i == 10 {
        reveal_strlit("debug.source");
        assert(all[10].name == "debug.source"@);
    } else if i == 11 {
        reveal_strlit("debug.check_stale");
        assert(all[11].name == "debug.check_stale"@);
    } else if i == 12 {
        reveal_strlit("debug.thread_dump");
        assert(all[12].name == "debug.thread_dump"@);
    } else {
        reveal_strlit("debug.get_traces");
        assert(all[13].name == "debug.get_traces"@);
    }
}

proof fn a_name_has_its_place(schemas: Schemas, i: int)
    requires
        0 <= i < rows(schemas).len(),
    ensures
        place(mark(rows(schemas)[i].name)) == i,
{
    let (a, b, c, d) = (
        session_rows(schemas),
        stop_point_rows(schemas),
        execution_rows(schemas),
        inspection_rows(schemas),
    );
    let (x, y, z) = (a.len(), a.len() + b.len(), a.len() + b.len() + c.len());
    if i < x {
        assert(rows(schemas)[i] == a[i]);
        session_names_have_their_places(schemas, i);
    } else if i < y {
        assert(rows(schemas)[i] == b[i - x]);
        stop_point_names_have_their_places(schemas, i - x);
    } else if i < z {
        assert(rows(schemas)[i] == c[i - y]);
        execution_names_have_their_places(schemas, i - y);
    } else {
        assert(rows(schemas)[i] == d[i - z]);
        inspection_names_have_their_places(schemas, i - z);
    }
}

/// No two tools have the same name, whatever their schemas are.
pub proof fn no_two_tools_share_a_name(schemas: Schemas, i: int, j: int)
    requires
        0 <= i < rows(schemas).len(),
        0 <= j < rows(schemas).len(),
        rows(schemas)[i].name == rows(schemas)[j].name,
    ensures
        i == j,
{
    a_name_has_its_place(schemas, i);
    a_name_has_its_place(schemas, j);
}

/// Each of the tools to connect to a JVM and leave it is listed with its own description and with the schema of its own arguments.
pub proof fn session_tools_are_listed_with_their_own_arguments(schemas: Schemas)
    ensures
        rows(schemas).contains(
            ToolView {
                name: "debug.attach"@,
                description: tool_texts::ATTACH@,
                input_schema: listed(schemas.attach),
            },
        ),
        rows(schemas).contains(
            ToolView {
                name: "debug.launch"@,
                description: tool_texts::LAUNCH@,
                input_schema: listed(schemas.launch),
            },
        ),
        rows(schemas).contains(
            ToolView {
                name: "debug.list_sessions"@,
                description: tool_texts::LIST_SESSIONS@,
                input_schema: listed_empty(),
            },
        ),
        rows(schemas).contains(
            ToolView {
                name: "debug.disconnect"@,
                description: tool_texts::DISCONNECT@,
                input_schema: listed_empty(),
            },
        ),
{
    let all = rows(schemas);
    assert(all[0].name == "debug.attach"@ && all[0] == session_rows(schemas)[0]);
    assert(all[1].name == "debug.launch"@ && all[1] == session_rows(schemas)[1]);
    assert(all[2].name == "debug.list_sessions"@ && all[2] == session_rows(schemas)[2]);
    assert(all[3].name == "debug.disconnect"@ && all[3] == session_rows(schemas)[3]);
}

/// Each of the tools to arm stop points is listed with its own description and with the schema of its own arguments.
pub proof fn stop_point_tools_are_listed_with_their_own_arguments(schemas: Schemas)
    ensures
        rows(schemas).contains(
            ToolView {
                name: "debug.set_line_stop"@,
                description: tool_texts::SET_LINE_STOP@,
                input_schema: listed(schemas.set_breakpoint),
            },
        ),
        rows(schemas).contains(
            ToolView {
                name: "debug.set_exception_stop"@,
                description: tool_texts::SET_EXCEPTION_STOP@,
                input_schema: listed(schemas.set_exception_breakpoint),
            },
        ),
        rows(schemas).contains(
            ToolView {
                name: "debug.set_field_stop"@,
                description: tool_texts::SET_FIELD_STOP@,
                input_schema: listed(schemas.set_watchpoint),
            },
        ),
        rows(schemas).contains(
            ToolView {
                name: "debug.set_method_exit_stop"@,
                description: tool_texts::SET_METHOD_EXIT_STOP@,
                input_schema: listed(schemas.set_method_breakpoint),
            },
        ),
        rows(schemas).contains(
            ToolView {
                name: "debug.set_monitor_stop"@,
                description: tool_texts::SET_MONITOR_STOP@,
                input_schema: listed(schemas.set_monitor_stop),
            },
        ),
        rows(schemas).contains(
            ToolView {
                name: "debug.list_stop_points"@,
                description: tool_texts::LIST_STOP_POINTS@,
                input_schema: listed_empty(),
            },
        ),
        rows(schemas).contains(
            ToolView {
                name: "debug.clear_stop_point"@,
                description: tool_texts::CLEAR_STOP_POINT@,
                input_schema: listed(schemas.clear_breakpoint),
            },
        ),
        rows(schemas).contains(
            ToolView {
                name: "debug.toggle_stop_point"@,
                description: tool_texts::TOGGLE_STOP_POINT@,
                input_schema: listed(schemas.toggle_breakpoint),
            },
        ),
        rows(schemas).contains(
            ToolView {
                name: "debug.panic"@,
                description: tool_texts::PANIC@,
                input_schema: listed_empty(),
            },
        ),
{
    let all = rows(schemas);
    assert(all[4].name == "debug.set_line_stop"@ && all[4] == stop_point_rows(schemas)[0]);
    assert(all[5].name == "debug.set_exception_stop"@ && all[5] == stop_point_rows(schemas)[1]);
    assert(all[6].name == "debug.set_field_stop"@ && all[6] == stop_point_rows(schemas)[2]);
    assert(all[7].name == "debug.set_method_exit_stop"@ && all[7] == stop_point_rows(schemas)[3]);
    assert(all[8].name == "debug.set_monitor_stop"@ && all[8] == stop_point_rows(schemas)[4]);
    assert(all[9].name == "debug.list_stop_points"@ && all[9] == stop_point_rows(schemas)[5]);
    assert(all[10].name == "debug.clear_stop_point"@ && all[10] == stop_point_rows(schemas)[6]);
    assert(all[11].name == "debug.toggle_stop_point"@ && all[11] == stop_point_rows(schemas)[7]);
    assert(all[12].name == "debug.panic"@ && all[12] == stop_point_rows(schemas)[8]);
}

/// Each of the tools to drive the VM on is listed with its own description and with the schema of its own arguments.
pub proof fn execution_tools_are_listed_with_their_own_arguments(schemas: Schemas)
    ensures
        rows(schemas).contains(
            ToolView {
                name: "debug.continue"@,
                description: tool_texts::CONTINUE@,
                input_schema: listed_empty(),
            },
        ),
        rows(schemas).contains(
            ToolView {
                name: "debug.pause"@,
                description: tool_texts::PAUSE@,
                input_schema: listed_empty(),
            },
        ),
        rows(schemas).contains(
            ToolView {
                name: "debug.suspend_thread"@,
                description: tool_texts::SUSPEND_THREAD@,
                input_schema: listed(schemas.suspend_thread),
            },
        ),
        rows(schemas).contains(
            ToolView {
                name: "debug.resume_thread"@,
                description: tool_texts::RESUME_THREAD@,
                input_schema: listed(schemas.resume_thread),
            },
        ),
        rows(schemas).contains(
            ToolView {
                name: "debug.step_over"@,
                description: tool_texts::STEP_OVER@,
                input_schema: listed(schemas.step),
            },
        ),
        rows(schemas).contains(
            ToolView {
                name: "debug.step_into"@,
                description: tool_texts::STEP_INTO@,
                input_schema: listed(schemas.step),
            },
        ),
        rows(schemas).contains(
            ToolView {
                name: "debug.step_out"@,
                description: tool_texts::STEP_OUT@,
                input_schema: listed(schemas.step),
            },
        ),
        rows(schemas).contains(
            ToolView {
                name: "debug.set_value"@,
                description: tool_texts::SET_VALUE@,
                input_schema: listed(schemas.set_value),
            },
        ),
        rows(schemas).contains(
            ToolView {
                name: "debug.force_return"@,
                description: tool_texts::FORCE_RETURN@,
                input_schema: listed(schemas.force_return),
            },
        ),
        rows(schemas).contains(
            ToolView {
                name: "debug.reload_class"@,
                description: tool_texts::RELOAD_CLASS@,
                input_schema: listed(schemas.reload_class),
            },
        ),
        rows(schemas).contains(
            ToolView {
                name: "debug.pop_frame"@,
                description: tool_texts::POP_FRAME@,
                input_schema: listed(schemas.pop_frame),
            },
        ),
{
    let all = rows(schemas);
    assert(all[13].name == "debug.continue"@ && all[13] == execution_rows(schemas)[0]);
    assert(all[14].name == "debug.pause"@ && all[14] == execution_rows(schemas)[1]);
    assert(all[15].name == "debug.suspend_thread"@ && all[15] == execution_rows(schemas)[2]);
    assert(all[16].name == "debug.resume_thread"@ && all[16] == execution_rows(schemas)[3]);
    assert(all[17].name == "debug.step_over"@ && all[17] == execution_rows(schemas)[4]);
    assert(all[18].name == "debug.step_into"@ && all[18] == execution_rows(schemas)[5]);
    assert(all[19].name == "debug.step_out"@ && all[19] == execution_rows(schemas)[6]);
    assert(all[20].name == "debug.set_value"@ && all[20] == execution_rows(schemas)[7]);
    assert(all[21].name == "debug.force_return"@ && all[21] == execution_rows(schemas)[8]);
    assert(all[22].name == "debug.reload_class"@ && all[22] == execution_rows(schemas)[9]);
    assert(all[23].name == "debug.pop_frame"@ && all[23] == execution_rows(schemas)[10]);
}

/// Each of the tools to read what the VM is doing is listed with its own description and with the schema of its own arguments.
pub proof fn inspection_tools_are_listed_with_their_own_arguments(schemas: Schemas)
    ensures
        rows(schemas).contains(
            ToolView {
                name: "debug.get_last_event"@,
                description: tool_texts::GET_LAST_EVENT@,
                input_schema: listed(schemas.get_last_event),
            },
        ),
        rows(schemas).contains(
            ToolView {
                name: "debug.get_stack"@,
                description: tool_texts::GET_STACK@,
                input_schema: listed(schemas.get_stack),
            },
        ),
        rows(schemas).contains(
            ToolView {
                name: "debug.evaluate"@,
                description: tool_texts::EVALUATE@,
                input_schema: listed(schemas.evaluate),
            },
        ),
        rows(schemas).contains(
            ToolView {
                name: "debug.evaluate_chain"@,
                description: tool_texts::EVALUATE_CHAIN@,
                input_schema: listed(schemas.evaluate_chain),
            },
        ),
        rows(schemas).contains(
            ToolView {
                name: "debug.list_threads"@,
                description: tool_texts::LIST_THREADS@,
                input_schema: listed(schemas.list_threads),
            },
        ),
        rows(schemas).contains(
            ToolView {
                name: "debug.list_classes"@,
                description: tool_texts::LIST_CLASSES@,
                input_schema: listed(schemas.list_classes),
            },
        ),
        rows(schemas).contains(
            ToolView {
                name: "debug.list_methods"@,
                description: tool_texts::LIST_METHODS@,
                input_schema: listed(schemas.list_methods),
            },
        ),
        rows(schemas).contains(
            ToolView {
                name: "debug.list_fields"@,
                description: tool_texts::LIST_FIELDS@,
                input_schema: listed(schemas.list_fields),
            },
        ),
        rows(schemas).contains(
            ToolView {
                name: "debug.list_instances"@,
                description: tool_texts::LIST_INSTANCES@,
                input_schema: listed(schemas.list_instances),
            },
        ),
        rows(schemas).contains(
            ToolView {
                name: "debug.run_named_query"@,
                description: tool_texts::RUN_NAMED_QUERY@,
                input_schema: listed(schemas.run_named_query),
            },
        ),
        rows(schemas).contains(
            ToolView {
                name: "debug.source"@,
                description: tool_texts::SOURCE@,
                input_schema: listed(schemas.source),
            },
        ),
        rows(schemas).contains(
            ToolView {
                name: "debug.check_stale"@,
                description: tool_texts::CHECK_STALE@,
                input_schema: listed(schemas.check_stale),
            },
        ),
        rows(schemas).contains(
            ToolView {
                name: "debug.thread_dump"@,
                description: tool_texts::THREAD_DUMP@,
                input_schema: listed(schemas.thread_dump),
            },
        ),
        rows(schemas).contains(
            ToolView {
                name: "debug.get_traces"@,
                description: tool_texts::GET_TRACES@,
                input_schema: listed(schemas.get_traces),
            },
        ),
{
    let all = rows(schemas);
    assert(all[24].name == "debug.get_last_event"@ && all[24] == inspection_rows(schemas)[0]);
    assert(all[25].name == "debug.get_stack"@ && all[25] == inspection_rows(schemas)[1]);
    assert(all[26].name == "debug.evaluate"@ && all[26] == inspection_rows(schemas)[2]);
    assert(all[27].name == "debug.evaluate_chain"@ && all[27] == inspection_rows(schemas)[3]);
    assert(all[28].name == "debug.list_threads"@ && all[28] == inspection_rows(schemas)[4]);
    assert(all[29].name == "debug.list_classes"@ && all[29] == inspection_rows(schemas)[5]);
    assert(all[30].name == "debug.list_methods"@ && all[30] == inspection_rows(schemas)[6]);
    assert(all[31].name == "debug.list_fields"@ && all[31] == inspection_rows(schemas)[7]);
    assert(all[32].name == "debug.list_instances"@ && all[32] == inspection_rows(schemas)[8]);
    assert(all[33].name == "debug.run_named_query"@ && all[33] == inspection_rows(schemas)[9]);
    assert(all[34].name == "debug.source"@ && all[34] == inspection_rows(schemas)[10]);
    assert(all[35].name == "debug.check_stale"@ && all[35] == inspection_rows(schemas)[11]);
    assert(all[36].name == "debug.thread_dump"@ && all[36] == inspection_rows(schemas)[12]);
    assert(all[37].name == "debug.get_traces"@ && all[37] == inspection_rows(schemas)[13]);
}

} // verus!
