//! The arguments of the tools, and what they are where they are not given.

use crate::json;
use crate::json::{Json, JsonView};
use crate::text;
use vstd::prelude::*;

verus! {

/// How many frames a snapshot holds where nothing else is asked for.
pub const DEFAULT_TRACE_FRAMES: usize = 3;

/// For how long a dump may hold the VM where nothing else is asked for.
pub const DEFAULT_MAX_SUSPEND_MS: u64 = 2000;

/// The host of a JVM.
pub fn default_host() -> (r: String)
    ensures
        r@ == "localhost"@,
{
    text::owned("localhost")
}

/// The port of a JVM.
pub fn default_port() -> (r: u16)
    ensures
        r == 5005,
{
    5005
}

/// How many frames of a stack are shown.
pub fn default_max_frames() -> (r: usize)
    ensures
        r == 20,
{
    20
}

/// What is on unless it is turned off.
pub fn default_true() -> (r: bool)
    ensures
        r == true,
{
    true
}

/// How much of a result is shown.
pub fn default_max_result_length() -> (r: usize)
    ensures
        r == 2000,
{
    2000
}

/// How many entries of a listing are shown.
pub fn default_limit() -> (r: usize)
    ensures
        r == 40,
{
    40
}

/// How many classes are shown. A class takes one short line, and thousands are loaded.
pub fn default_class_limit() -> (r: usize)
    ensures
        r == 100,
{
    100
}

/// How many lines are shown on either side of a line.
pub fn default_source_context() -> (r: usize)
    ensures
        r == 20,
{
    20
}

/// How many lines of a source file are shown at most.
pub fn default_source_max_lines() -> (r: usize)
    ensures
        r == 400,
{
    400
}

/// How many snapshots are shown.
pub fn default_trace_limit() -> (r: usize)
    ensures
        r == 50,
{
    50
}

/// How many events are shown.
pub fn default_event_limit() -> (r: usize)
    ensures
        r == 1,
{
    1
}

/// How deep an object is expanded.
pub fn default_max_depth() -> (r: usize)
    ensures
        r == 2,
{
    2
}

/// How many children of an object are shown.
pub fn default_max_children() -> (r: usize)
    ensures
        r == 16,
{
    16
}

/// How many frames a snapshot holds.
pub fn default_trace_frames() -> (r: usize)
    ensures
        r == DEFAULT_TRACE_FRAMES,
{
    DEFAULT_TRACE_FRAMES
}

/// How many frames of each thread a dump shows.
pub fn default_dump_frames() -> (r: usize)
    ensures
        r == 8,
{
    8
}

/// For how long a dump may hold the VM.
pub fn default_max_suspend_ms() -> (r: u64)
    ensures
        r == DEFAULT_MAX_SUSPEND_MS,
{
    DEFAULT_MAX_SUSPEND_MS
}

/// `s` without the prefixes `0x` that it starts with.
pub open spec fn bare(s: Seq<char>) -> Seq<char>
    decreases s.len(),
{
    match text::behind(s, "0x"@) {
        Some(rest) => if rest.len() < s.len() {
            bare(rest)
        } else {
            s
        },
        None => s,
    }
}

/// The id that a hexadecimal number says, with `0x` before it or without.
pub open spec fn thread_id(s: Option<Seq<char>>) -> Option<u64> {
    match s {
        Some(s) => text::unsigned(bare(s), 16),
        None => None,
    }
}

/// The id of a thread, as it was given.
pub fn parse_thread_id(s: Option<&str>) -> (r: Option<u64>)
    ensures
        r == thread_id(
            match s {
                Some(s) => Some(s@),
                None => None,
            },
        ),
{
    match s {
        Some(s) => {
            proof {
                reveal_strlit("0x");
            }
            let mut rest = text::owned(s);
            let mut more = true;
            while more
                invariant
                    "0x"@.len() == 2,
                    bare(rest@) == bare(s@),
                    !more ==> text::behind(rest@, "0x"@) is None,
                decreases rest@.len(), (if more { 1int } else { 0int }),
            {
                match text::strip_prefix(rest.as_str(), "0x") {
                    Some(shorter) => {
                        rest = shorter;
                    },
                    None => {
                        more = false;
                    },
                }
            }
            text::parse_unsigned(rest.as_str(), 16)
        },
        None => None,
    }
}

/// An id reads the same with `0x` before it.
pub proof fn an_id_reads_the_same_with_its_prefix(s: Seq<char>)
    ensures
        thread_id(Some("0x"@ + s)) == thread_id(Some(s)),
{
    reveal_strlit("0x");
    assert(("0x"@ + s).take(2) =~= "0x"@);
    assert(("0x"@ + s).skip(2) =~= s);
}

/// An id that is shown in hexadecimal reads back.
pub proof fn a_shown_id_reads_back(id: u64)
    ensures
        thread_id(Some("0x"@ + text::hex(id as nat))) == Some(id),
{
    let digits = text::hex(id as nat);
    text::a_numeral_reads_back(id as nat, 16);
    text::numerals_hold_no_sign(id as nat, 16);
    reveal_strlit("0x");
    an_id_reads_the_same_with_its_prefix(digits);
    assert(bare(digits) == digits) by {
        if digits.len() >= 2 {
            assert(digits.take(2)[1] == digits[1]);
            assert("0x"@[1] == 'x');
        }
    }
}

/// The arguments that a call is read from: none given stand for none at all.
pub open spec fn given(args: JsonView) -> JsonView {
    match args {
        JsonView::Null => JsonView::Object(Seq::empty()),
        _ => args,
    }
}

/// The arguments that a call is read from.
pub fn arguments(args: &Json) -> (r: Json)
    ensures
        r@ == given(args@),
{
    broadcast use json::object_view;

    match args {
        Json::Null => {
            let none: Vec<(String, Json)> = Vec::new();
            assert(json::entries_view(none@) =~= Seq::empty());
            Json::Object(none)
        },
        _ => args.duplicate(),
    }
}

/// What is answered to arguments that cannot be read.
pub fn invalid_arguments(why: &str) -> (r: String)
    ensures
        r@ == "Invalid arguments: "@ + why@,
{
    text::owned("Invalid arguments: ").concat(why)
}

/// The arguments of `debug.attach`.
#[derive(Debug)]
pub struct AttachArgs {
    pub host: String,
    pub port: u16,
    pub read_only: bool,
    pub source_roots: Option<Vec<String>>,
}

/// The arguments of `debug.set_line_stop`.
#[derive(Debug)]
pub struct SetBreakpointArgs {
    pub class_pattern: String,
    pub line: Option<i32>,
    pub method: Option<String>,
    pub hit_count: Option<i32>,
    pub thread_id: Option<String>,
    pub condition: Option<String>,
    pub trace: bool,
    pub trace_expr: Option<String>,
    pub trace_max_hits: Option<u32>,
    pub trace_frames: usize,
}

/// The arguments of `debug.toggle_stop_point`.
#[derive(Debug)]
pub struct ToggleBreakpointArgs {
    pub breakpoint_id: String,
    pub enabled: Option<bool>,
}

/// The arguments of `debug.get_traces`.
#[derive(Debug)]
pub struct GetTracesArgs {
    pub limit: usize,
    pub clear: bool,
    pub bp_id: Option<String>,
    pub class_filter: Option<String>,
    pub since: Option<u64>,
}

/// The arguments of `debug.get_last_event`.
#[derive(Debug)]
pub struct GetLastEventArgs {
    pub limit: usize,
    pub drain: bool,
}

/// The arguments of `debug.clear_stop_point`.
#[derive(Debug)]
pub struct ClearBreakpointArgs {
    pub breakpoint_id: String,
}

/// The arguments of `debug.step_over`, `debug.step_into` and `debug.step_out`.
#[derive(Debug)]
pub struct StepArgs {
    pub thread_id: Option<String>,
}

/// The arguments of `debug.get_stack`.
#[derive(Debug)]
pub struct GetStackArgs {
    pub thread_id: Option<String>,
    pub max_frames: usize,
    pub include_variables: bool,
    pub package_filter: Option<String>,
    pub expand_objects: bool,
    pub max_depth: usize,
    pub max_children: usize,
}

/// The arguments of `debug.evaluate`.
#[derive(Debug)]
pub struct EvaluateArgs {
    pub expression: String,
    pub thread_id: Option<String>,
    pub frame_index: usize,
    pub max_result_length: usize,
    pub expand_objects: bool,
    pub max_depth: usize,
    pub max_children: usize,
}

/// The arguments of `debug.list_threads`.
#[derive(Debug)]
pub struct ListThreadsArgs {
    pub name_filter: Option<String>,
    pub only_suspended: bool,
    pub limit: usize,
}

/// The arguments of `debug.list_classes`.
#[derive(Debug)]
pub struct ListClassesArgs {
    pub filter: Option<String>,
    pub limit: usize,
    pub include_arrays: bool,
}

/// The arguments of `debug.list_methods`.
#[derive(Debug)]
pub struct ListMethodsArgs {
    pub class_name: String,
    pub name_filter: Option<String>,
    pub inherited: bool,
    pub limit: usize,
}

/// The arguments of `debug.list_fields`.
#[derive(Debug)]
pub struct ListFieldsArgs {
    pub class_name: String,
    pub name_filter: Option<String>,
    pub inherited: bool,
    pub limit: usize,
}

/// The arguments of `debug.source`.
#[derive(Debug)]
pub struct SourceArgs {
    pub class_name: String,
    pub line: Option<i32>,
    pub context: usize,
    pub whole_file: bool,
    pub max_lines: usize,
    pub source_roots: Option<Vec<String>>,
}

/// The arguments of `debug.thread_dump`.
#[derive(Debug)]
pub struct ThreadDumpArgs {
    pub name_filter: Option<String>,
    pub only_suspended: bool,
    pub limit: usize,
    pub max_frames: usize,
    pub package_filter: Option<String>,
    pub monitors: bool,
    pub monitors_only: bool,
    pub max_suspend_ms: u64,
    pub suspend: bool,
}

/// The arguments of `debug.set_value`.
#[derive(Debug)]
pub struct SetValueArgs {
    pub target: String,
    pub value: String,
    pub thread_id: Option<String>,
    pub frame_index: usize,
}

/// The arguments of `debug.set_exception_stop`.
#[derive(Debug)]
pub struct SetExceptionBreakpointArgs {
    pub class_pattern: Option<String>,
    pub caught: bool,
    pub uncaught: bool,
    pub trace: bool,
    pub trace_expr: Option<String>,
    pub trace_max_hits: Option<u32>,
    pub trace_frames: usize,
    pub thread_id: Option<String>,
}

/// The arguments of `debug.set_field_stop`.
#[derive(Debug)]
pub struct SetWatchpointArgs {
    pub class_name: String,
    pub field_name: String,
    pub modify: bool,
    pub access: bool,
    pub trace: bool,
    pub trace_expr: Option<String>,
    pub trace_max_hits: Option<u32>,
    pub trace_frames: usize,
    pub thread_id: Option<String>,
}

/// The arguments of `debug.set_method_exit_stop`.
#[derive(Debug)]
pub struct SetMethodBreakpointArgs {
    pub class_pattern: String,
    pub method: Option<String>,
    pub trace: bool,
    pub trace_expr: Option<String>,
    pub trace_max_hits: Option<u32>,
    pub trace_frames: usize,
    pub thread_id: Option<String>,
}

/// The arguments of `debug.force_return`.
#[derive(Debug)]
pub struct ForceReturnArgs {
    pub value: Option<String>,
    pub thread_id: Option<String>,
}

} // verus!
