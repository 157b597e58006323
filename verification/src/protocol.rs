//! The messages of the protocol, and the alerts that are pushed without being asked for.

use crate::json;
use crate::json::{Json, JsonView};
use crate::text;
use vstd::prelude::*;

verus! {

/// A message that expects an answer.
#[derive(Debug)]
pub struct JsonRpcRequest {
    pub jsonrpc: String,
    pub id: Json,
    pub method: String,
    pub params: Option<Json>,
}

/// An answer.
#[derive(Debug)]
pub struct JsonRpcResponse {
    pub jsonrpc: String,
    pub id: Json,
    pub result: Option<Json>,
    pub error: Option<JsonRpcError>,
}

/// Why a request was not met.
#[derive(Debug)]
pub struct JsonRpcError {
    pub code: i32,
    pub message: String,
    pub data: Option<Json>,
}

/// A message that expects no answer.
#[derive(Debug)]
pub struct JsonRpcNotification {
    pub jsonrpc: String,
    pub method: String,
    pub params: Option<Json>,
}

#[derive(Debug)]
pub struct InitializeParams {
    pub protocol_version: String,
    pub capabilities: ClientCapabilities,
    pub client_info: ClientInfo,
}

#[derive(Debug)]
pub struct ClientCapabilities {
    pub tools: Option<ToolsCapability>,
}

#[derive(Debug)]
pub struct ToolsCapability {}

#[derive(Debug)]
pub struct ClientInfo {
    pub name: String,
    pub version: String,
}

#[derive(Debug)]
pub struct InitializeResult {
    pub protocol_version: String,
    pub capabilities: ServerCapabilities,
    pub server_info: ServerInfo,
    pub instructions: Option<String>,
}

#[derive(Debug)]
pub struct ServerCapabilities {
    pub tools: ToolsCapability,
    pub logging: Option<LoggingCapability>,
}

#[derive(Debug)]
pub struct LoggingCapability {}

#[derive(Debug)]
pub struct ServerInfo {
    pub name: String,
    pub version: String,
}

/// A tool as it is listed.
#[derive(Debug)]
pub struct Tool {
    pub name: String,
    pub description: String,
    pub input_schema: Json,
}

#[derive(Debug)]
pub struct ListToolsResult {
    pub tools: Vec<Tool>,
    pub ttl_ms: u64,
    pub cache_scope: String,
}

#[derive(Debug)]
pub struct CallToolParams {
    pub name: String,
    pub arguments: Json,
}

#[derive(Debug)]
pub struct CallToolResult {
    pub content: Vec<ContentBlock>,
    pub is_error: Option<bool>,
}

#[derive(Debug)]
pub enum ContentBlock {
    Text { text: String },
}

#[derive(Debug)]
pub struct DiscoverResult {
    pub supported_versions: Vec<String>,
    pub capabilities: ServerCapabilities,
    pub instructions: Option<String>,
    pub ttl_ms: u64,
    pub cache_scope: String,
}

pub const PARSE_ERROR: i32 = -32700;

pub const INVALID_REQUEST: i32 = -32600;

pub const METHOD_NOT_FOUND: i32 = -32601;

pub const INVALID_PARAMS: i32 = -32602;

pub const INTERNAL_ERROR: i32 = -32603;

pub const UNSUPPORTED_PROTOCOL_VERSION: i32 = -32022;

/// The versions of the stateless protocol that are spoken.
pub const MODERN_PROTOCOL_VERSIONS: [&'static str; 1] = ["2026-07-28"];

/// The version of the protocol with a handshake that is spoken.
pub const LEGACY_PROTOCOL_VERSION: &'static str = "2024-11-05";

pub const META_PROTOCOL_VERSION: &'static str = "io.modelcontextprotocol/protocolVersion";

pub const META_CLIENT_CAPABILITIES: &'static str = "io.modelcontextprotocol/clientCapabilities";

pub const META_CLIENT_INFO: &'static str = "io.modelcontextprotocol/clientInfo";

pub const META_LOG_LEVEL: &'static str = "io.modelcontextprotocol/logLevel";

pub const META_SERVER_INFO: &'static str = "io.modelcontextprotocol/serverInfo";

/// The log levels, from the least to the most severe.
pub const LOG_LEVELS: [&'static str; 8] = [
    "debug",
    "info",
    "notice",
    "warning",
    "error",
    "critical",
    "alert",
    "emergency",
];

/// For how long a listing may be kept.
pub const CACHE_TTL_MS: u64 = 3_600_000;

/// Who may share a kept listing.
pub const CACHE_SCOPE: &'static str = "public";

/// How many alerts may wait to be written.
pub const ALERT_CAPACITY: usize = 64;

/// Which protocol the client speaks.
#[derive(Clone, Copy, Debug, PartialEq, Eq, Structural)]
pub enum Era {
    /// It has not said anything yet.
    Unknown,
    /// The protocol with a handshake.
    Legacy,
    /// The stateless protocol.
    Modern,
}

impl Era {
    /// The number of an era.
    pub open spec fn number(self) -> u8 {
        match self {
            Era::Unknown => 0,
            Era::Legacy => 1,
            Era::Modern => 2,
        }
    }

    /// The era of a number. Any other number stands for an unknown one.
    pub open spec fn numbered(v: u8) -> Era {
        if v == 1 {
            Era::Legacy
        } else if v == 2 {
            Era::Modern
        } else {
            Era::Unknown
        }
    }

    /// The number of an era.
    pub fn to_u8(self) -> (r: u8)
        ensures
            r == self.number(),
    {
        match self {
            Era::Unknown => 0,
            Era::Legacy => 1,
            Era::Modern => 2,
        }
    }

    /// The era of a number.
    pub fn from_u8(v: u8) -> (r: Self)
        ensures
            r == Era::numbered(v),
    {
        match v {
            1 => Era::Legacy,
            2 => Era::Modern,
            _ => Era::Unknown,
        }
    }
}

/// An era is told from its number.
pub proof fn an_era_is_told_from_its_number(era: Era)
    ensures
        Era::numbered(era.number()) == era,
{
}

/// `tokio::sync::mpsc::Sender`, the end of a channel that lines are put into.
#[verifier::external_type_specification]
#[verifier::external_body]
#[verifier::reject_recursive_types(T)]
pub struct ExSender<T>(tokio::sync::mpsc::Sender<T>);

/// Pushes alerts to the client.
#[derive(Debug)]
pub struct Alerter {
    pub tx: tokio::sync::mpsc::Sender<String>,
    /// Whether the handshake is complete.
    pub armed: bool,
    pub era: Era,
    /// How many alerts were lost since the last one that went out.
    pub dropped: u64,
}

/// What an alert says.
pub open spec fn alert_params(level: Seq<char>, data: JsonView, missed: u64) -> JsonView {
    let said = json::put(
        json::put(
            json::put(Seq::empty(), "level"@, JsonView::Text(level)),
            "logger"@,
            JsonView::Text("jdwp-mcp"@),
        ),
        "data"@,
        data,
    );
    JsonView::Object(
        if missed > 0 {
            json::put(said, "droppedSinceLast"@, JsonView::Unsigned(missed))
        } else {
            said
        },
    )
}

/// A message without an id.
pub open spec fn notification(method: Seq<char>, params: JsonView) -> JsonView {
    JsonView::Object(
        json::put(
            json::put(
                json::put(Seq::empty(), "jsonrpc"@, JsonView::Text("2.0"@)),
                "method"@,
                JsonView::Text(method),
            ),
            "params"@,
            params,
        ),
    )
}

/// The line that an alert is written as.
pub open spec fn alert_text(level: Seq<char>, data: JsonView, missed: u64) -> Seq<char> {
    json::json_text(notification("notifications/message"@, alert_params(level, data, missed)))
}

/// The lines that were handed to this end of a channel so far, whether the channel took them or not.
pub uninterp spec fn offered(tx: tokio::sync::mpsc::Sender<String>) -> Seq<Seq<char>>;

/// The lines that were put into the channel through this end of it so far.
pub uninterp spec fn taken(tx: tokio::sync::mpsc::Sender<String>) -> Seq<Seq<char>>;

/// `tokio::sync::mpsc::Sender::try_send`: hands a line to the channel. It is put in at once, or handed back
/// as it was where the channel is full or nobody reads it. Which of the two happens rests on the reader.
#[verifier::external_body]
fn offer(tx: &mut tokio::sync::mpsc::Sender<String>, line: String) -> (r: Option<String>)
    ensures
        offered(*final(tx)) == offered(*old(tx)).push(line@),
        r is Some ==> r->0@ == line@ && taken(*final(tx)) == taken(*old(tx)),
        r is None ==> taken(*final(tx)) == taken(*old(tx)).push(line@),
{
    tx.try_send(line).err().map(|e| e.into_inner())
}

/// The line of an alert, which owns up to the `missed` ones that were lost before it.
pub fn alert_line(level: &str, data: &Json, missed: u64) -> (r: String)
    requires
        data@.wf(),
    ensures
        r@ == alert_text(level@, data@, missed),
        json::is_one_line(r@),
        data@.exact(125) ==> json::reads_as(
            r@,
            notification("notifications/message"@, alert_params(level@, data@, missed)),
        ),
{
    broadcast use json::object_view;

    let mut params: Vec<(String, Json)> = Vec::new();
    assert(json::entries_view(params@) =~= Seq::empty());
    json::bind(&mut params, "level", Json::text(level));
    json::bind(&mut params, "logger", Json::text("jdwp-mcp"));
    json::bind(&mut params, "data", data.duplicate());
    if missed > 0 {
        json::bind(&mut params, "droppedSinceLast", Json::Unsigned(missed));
    }
    let params = Json::Object(params);
    assert(params@ == alert_params(level@, data@, missed));
    let mut note: Vec<(String, Json)> = Vec::new();
    assert(json::entries_view(note@) =~= Seq::empty());
    json::bind(&mut note, "jsonrpc", Json::text("2.0"));
    json::bind(&mut note, "method", Json::text("notifications/message"));
    json::bind(&mut note, "params", params);
    let note = Json::Object(note);
    proof {
        an_alert_is_one(level@, data@, missed);
    }
    json::write(&note)
}

proof fn an_alert_is_one(level: Seq<char>, data: JsonView, missed: u64)
    requires
        data.wf(),
    ensures
        notification("notifications/message"@, alert_params(level, data, missed)).wf(),
        data.exact(125) ==> notification(
            "notifications/message"@,
            alert_params(level, data, missed),
        ).exact(127),
{
    json::empty_object_is_wf(125);
    json::empty_object_is_wf(126);
    let none: json::Entries = Seq::empty();
    let a = json::put(none, "level"@, JsonView::Text(level));
    json::put_keeps_wf(none, "level"@, JsonView::Text(level), 125);
    let b = json::put(a, "logger"@, JsonView::Text("jdwp-mcp"@));
    json::put_keeps_wf(a, "logger"@, JsonView::Text("jdwp-mcp"@), 125);
    let c = json::put(b, "data"@, data);
    json::put_keeps_wf(b, "data"@, data, 125);
    json::put_keeps_wf(c, "droppedSinceLast"@, JsonView::Unsigned(missed), 125);
    let params = alert_params(level, data, missed);
    let x = json::put(none, "jsonrpc"@, JsonView::Text("2.0"@));
    json::put_keeps_wf(none, "jsonrpc"@, JsonView::Text("2.0"@), 126);
    let y = json::put(x, "method"@, JsonView::Text("notifications/message"@));
    json::put_keeps_wf(x, "method"@, JsonView::Text("notifications/message"@), 126);
    json::put_keeps_wf(y, "params"@, params, 126);
}

impl Alerter {
    /// Whether an alert may be pushed: alerts are wanted, and the client completed the handshake of a
    /// protocol that has them.
    pub open spec fn may_push(self, enabled: bool) -> bool {
        enabled && self.era == Era::Legacy && self.armed
    }

    /// The state once an alert was put into the channel, or lost.
    pub open spec fn settled(self, sent: bool) -> Self {
        Alerter {
            dropped: (if sent {
                0
            } else {
                (self.dropped + 1) as u64
            }),
            ..self
        }
    }

    /// An alerter that may push nothing yet.
    pub fn new(tx: tokio::sync::mpsc::Sender<String>) -> (r: Self)
        ensures
            r == (Alerter { tx, armed: false, era: Era::Unknown, dropped: 0 }),
    {
        Alerter { tx, armed: false, era: Era::Unknown, dropped: 0 }
    }

    /// The handshake is complete. Only the protocol with a handshake has one.
    pub fn arm(&mut self)
        ensures
            *final(self) == (Alerter { armed: true, era: Era::Legacy, ..*old(self) }),
    {
        self.armed = true;
        let _ = self.note_era(Era::Legacy);
    }

    /// Takes down which protocol the client speaks, and says whether that is news.
    pub fn note_era(&mut self, era: Era) -> (r: bool)
        ensures
            *final(self) == (Alerter { era, ..*old(self) }),
            r == (old(self).era != era),
    {
        let news = self.era != era;
        self.era = era;
        news
    }

    /// Which protocol the client speaks.
    pub fn era(&self) -> (r: Era)
        ensures
            r == self.era,
    {
        self.era
    }

    /// Takes in what became of an alert: one that went out accounts for those that were lost before it,
    /// and one that did not is lost as well.
    pub fn settle(&mut self, sent: bool)
        requires
            old(self).dropped < u64::MAX,
        ensures
            *final(self) == old(self).settled(sent),
    {
        if sent {
            self.dropped = 0;
        } else {
            self.dropped = self.dropped + 1;
        }
    }

    /// Pushes an alert, and says whether it went out: whether its line was put into the channel. It never
    /// waits: where the channel takes no more, the alert is lost and counted. Where no alert may be pushed,
    /// nothing is handed to the channel.
    pub fn alert(&mut self, enabled: bool, level: &str, data: &Json) -> (r: bool)
        requires
            data@.wf(),
            old(self).dropped < u64::MAX,
        ensures
            !old(self).may_push(enabled) ==> !r && *final(self) == *old(self),
            old(self).may_push(enabled) ==> {
                &&& offered(final(self).tx) == offered(old(self).tx).push(
                    alert_text(level@, data@, old(self).dropped),
                )
                &&& r ==> taken(final(self).tx) == taken(old(self).tx).push(
                    alert_text(level@, data@, old(self).dropped),
                )
                &&& !r ==> taken(final(self).tx) == taken(old(self).tx)
                &&& *final(self) == (Alerter { tx: final(self).tx, ..old(self).settled(r) })
            },
    {
        if !enabled {
            return false;
        }
        if self.era() != Era::Legacy {
            return false;
        }
        if !self.armed {
            return false;
        }
        let line = alert_line(level, data, self.dropped);
        let sent = match offer(&mut self.tx, line) {
            Some(_) => false,
            None => true,
        };
        self.settle(sent);
        sent
    }
}

/// What lower case makes of an ASCII letter. Any other character stays.
pub open spec fn lower(c: char) -> char {
    if 'A' <= c <= 'Z' {
        ((c as u32) + 32) as char
    } else {
        c
    }
}

/// Whether what the environment says of alerts leaves them on: anything but `0`, `false` and `no`, in
/// whichever case and with whatever space around it.
pub open spec fn leaves_on(setting: Option<Seq<char>>) -> bool {
    match setting {
        Some(s) => {
            let word = text::trimmed(s).map_values(|c: char| lower(c));
            word != "0"@ && word != "false"@ && word != "no"@
        },
        None => true,
    }
}

fn to_lower(s: &str) -> (r: String)
    ensures
        r@ == s@.map_values(|c: char| lower(c)),
{
    let mut r = String::new();
    for c in it: s.chars()
        invariant
            it.seq() == s@,
            r@ == s@.take(it.index() as int).map_values(|c: char| lower(c)),
    {
        if 'A' <= c && c <= 'Z' {
            r.push((c as u8 + 32) as char);
        } else {
            r.push(c);
        }
        assert(r@ =~= s@.take(it.index() + 1).map_values(|c: char| lower(c)));
    }
    assert(s@.take(s@.len() as int) =~= s@);
    r
}

/// Whether alerts are on, given what the environment says of them.
pub fn alerts_enabled(setting: Option<&str>) -> (r: bool)
    ensures
        r == leaves_on(
            match setting {
                Some(s) => Some(s@),
                None => None,
            },
        ),
{
    match setting {
        Some(s) => {
            let trimmed = text::trim(s);
            let word = to_lower(trimmed.as_str());
            !(text::same(word.as_str(), "0") || text::same(word.as_str(), "false") || text::same(
                word.as_str(),
                "no",
            ))
        },
        None => true,
    }
}

/// What a run of alerts leaves behind: `sent[i]` says whether the channel took the `i`th one.
pub open spec fn after_alerts(alerter: Alerter, sent: Seq<bool>) -> Alerter
    decreases sent.len(),
{
    if sent.len() == 0 {
        alerter
    } else {
        after_alerts(alerter, sent.drop_last()).settled(sent.last())
    }
}

/// How many at the end of a run were lost.
pub open spec fn lost_at_the_end(sent: Seq<bool>) -> nat
    decreases sent.len(),
{
    if sent.len() == 0 || sent.last() {
        0
    } else {
        lost_at_the_end(sent.drop_last()) + 1
    }
}

/// No loss goes unsaid: an alert owns up to exactly those that were lost since the last one that went out,
/// and to none of them twice.
pub proof fn an_alert_owns_up_to_what_was_lost(alerter: Alerter, sent: Seq<bool>)
    requires
        alerter.dropped == 0,
        sent.len() < u64::MAX,
    ensures
        after_alerts(alerter, sent).dropped == lost_at_the_end(sent),
        lost_at_the_end(sent) <= sent.len(),
        after_alerts(alerter, sent) == (Alerter {
            dropped: lost_at_the_end(sent) as u64,
            ..alerter
        }),
    decreases sent.len(),
{
    if sent.len() > 0 {
        an_alert_owns_up_to_what_was_lost(alerter, sent.drop_last());
    }
}

/// An alert carries no id, the level and the data that it was given, and the count of what was lost before
/// it exactly where anything was.
pub proof fn an_alert_says_what_it_was_given(level: Seq<char>, data: JsonView, missed: u64)
    ensures
        ({
            let params = alert_params(level, data, missed);
            let note = notification("notifications/message"@, params);
            &&& json::member(note, "id"@) is None
            &&& json::member(note, "params"@) == Some(params)
            &&& json::member(params, "level"@) == Some(JsonView::Text(level))
            &&& json::member(params, "data"@) == Some(data)
            &&& json::member(params, "droppedSinceLast"@) == if missed > 0 {
                Some(JsonView::Unsigned(missed))
            } else {
                None
            }
        }),
{
    reveal_strlit("level");
    reveal_strlit("logger");
    reveal_strlit("data");
    reveal_strlit("droppedSinceLast");
    reveal_strlit("jsonrpc");
    reveal_strlit("method");
    reveal_strlit("params");
    reveal_strlit("id");
    let none: json::Entries = Seq::empty();
    let a = json::put(none, "level"@, JsonView::Text(level));
    let b = json::put(a, "logger"@, JsonView::Text("jdwp-mcp"@));
    let c = json::put(b, "data"@, data);
    let params = alert_params(level, data, missed);
    let x = json::put(none, "jsonrpc"@, JsonView::Text("2.0"@));
    let y = json::put(x, "method"@, JsonView::Text("notifications/message"@));
    assert("level"@[0] == 'l' && "level"@[1] == 'e' && "logger"@[1] == 'o' && "data"@[0] == 'd'
        && "data"@[1] == 'a' && "droppedSinceLast"@[0] == 'd' && "droppedSinceLast"@[1] == 'r');
    assert("jsonrpc"@[0] == 'j' && "method"@[0] == 'm' && "params"@[0] == 'p' && "id"@[0] == 'i');
    json::put_keeps_order(none, "level"@, JsonView::Text(level));
    json::put_keeps_order(a, "logger"@, JsonView::Text("jdwp-mcp"@));
    json::put_keeps_order(b, "data"@, data);
    json::put_keeps_order(none, "jsonrpc"@, JsonView::Text("2.0"@));
    json::put_keeps_order(x, "method"@, JsonView::Text("notifications/message"@));
    json::what_is_bound_reads_back(none, "level"@, JsonView::Text(level), "droppedSinceLast"@);
    json::what_is_bound_reads_back(a, "logger"@, JsonView::Text("jdwp-mcp"@), "level"@);
    json::what_is_bound_reads_back(
        a,
        "logger"@,
        JsonView::Text("jdwp-mcp"@),
        "droppedSinceLast"@,
    );
    json::what_is_bound_reads_back(b, "data"@, data, "level"@);
    json::what_is_bound_reads_back(b, "data"@, data, "droppedSinceLast"@);
    json::what_is_bound_reads_back(
        c,
        "droppedSinceLast"@,
        JsonView::Unsigned(missed),
        "level"@,
    );
    json::what_is_bound_reads_back(c, "droppedSinceLast"@, JsonView::Unsigned(missed), "data"@);
    json::what_is_bound_reads_back(none, "jsonrpc"@, JsonView::Text("2.0"@), "id"@);
    json::what_is_bound_reads_back(
        x,
        "method"@,
        JsonView::Text("notifications/message"@),
        "id"@,
    );
    json::what_is_bound_reads_back(y, "params"@, params, "id"@);
}

/// Until the handshake is complete nothing is pushed, and to a client of the stateless protocol nothing
/// ever is. Completing the handshake is what makes it possible.
pub proof fn nothing_is_pushed_without_a_handshake(alerter: Alerter, enabled: bool, era: Era)
    ensures
        !alerter.armed ==> !alerter.may_push(enabled),
        era != Era::Legacy ==> !(Alerter { era, ..alerter }).may_push(enabled),
        (Alerter { armed: true, era: Era::Legacy, ..alerter }).may_push(true),
        !alerter.may_push(false),
{
}

proof fn a_letter_has_two_cases(c: char)
    ensures
        lower(c) == '0' <==> c == '0',
        lower(c) == 'n' <==> c == 'n' || c == 'N',
        lower(c) == 'o' <==> c == 'o' || c == 'O',
        lower(c) == 'f' <==> c == 'f' || c == 'F',
        lower(c) == 'a' <==> c == 'a' || c == 'A',
        lower(c) == 'l' <==> c == 'l' || c == 'L',
        lower(c) == 's' <==> c == 's' || c == 'S',
        lower(c) == 'e' <==> c == 'e' || c == 'E',
{
    if 'A' <= c <= 'Z' {
        let n: u32 = ((c as u32) + 32) as u32;
        assert(97 <= n <= 122);
        assert(n as char as u32 == n);
    }
}

/// Alerts stay on unless they are turned off by one of three words, in whichever case: `0`, `false` or
/// `no`. Space around the word changes nothing.
pub proof fn three_words_turn_alerts_off(head: Seq<char>, s: Seq<char>, tail: Seq<char>)
    requires
        forall|i: int| 0 <= i < head.len() ==> text::is_space(#[trigger] head[i]),
        forall|i: int| 0 <= i < tail.len() ==> text::is_space(#[trigger] tail[i]),
        s.len() > 0,
        !text::is_space(s[0]),
        !text::is_space(s.last()),
    ensures
        leaves_on(None),
        !leaves_on(Some(head + s + tail)) <==> (s.len() == 1 && s[0] == '0') || (s.len() == 2 && (s[0]
            == 'n' || s[0] == 'N') && (s[1] == 'o' || s[1] == 'O')) || (s.len() == 5 && (s[0] == 'f'
            || s[0] == 'F') && (s[1] == 'a' || s[1] == 'A') && (s[2] == 'l' || s[2] == 'L') && (s[3]
            == 's' || s[3] == 'S') && (s[4] == 'e' || s[4] == 'E')),
{
    text::only_the_space_around_is_taken_off(head, s, tail);
    reveal_strlit("0");
    reveal_strlit("no");
    reveal_strlit("false");
    let word = s.map_values(|c: char| lower(c));
    assert(text::trimmed(head + s + tail) == s);
    assert(word.len() == s.len());
    assert("0"@.len() == 1 && "no"@.len() == 2 && "false"@.len() == 5);
    assert(leaves_on(Some(head + s + tail)) == (word != "0"@ && word != "no"@ && word != "false"@));
    assert forall|i: int| 0 <= i < s.len() implies (#[trigger] word[i]) == lower(s[i]) by {}
    if s.len() == 1 {
        a_letter_has_two_cases(s[0]);
        assert("0"@ =~= seq!['0']);
        assert(word[0] == lower(s[0]));
        if lower(s[0]) == '0' {
            assert(word =~= seq!['0']);
        }
        assert(word == "0"@ <==> lower(s[0]) == '0');
    } else if s.len() == 2 {
        a_letter_has_two_cases(s[0]);
        a_letter_has_two_cases(s[1]);
        assert("no"@ =~= seq!['n', 'o']);
        assert(word[0] == lower(s[0]) && word[1] == lower(s[1]));
        if lower(s[0]) == 'n' && lower(s[1]) == 'o' {
            assert(word =~= seq!['n', 'o']);
        }
        assert(word == "no"@ <==> lower(s[0]) == 'n' && lower(s[1]) == 'o');
    } else if s.len() == 5 {
        a_letter_has_two_cases(s[0]);
        a_letter_has_two_cases(s[1]);
        a_letter_has_two_cases(s[2]);
        a_letter_has_two_cases(s[3]);
        a_letter_has_two_cases(s[4]);
        assert("false"@ =~= seq!['f', 'a', 'l', 's', 'e']);
        assert(word[0] == lower(s[0]) && word[1] == lower(s[1]) && word[2] == lower(s[2]) && word[3]
            == lower(s[3]) && word[4] == lower(s[4]));
        if lower(s[0]) == 'f' && lower(s[1]) == 'a' && lower(s[2]) == 'l' && lower(s[3]) == 's'
            && lower(s[4]) == 'e' {
            assert(word =~= seq!['f', 'a', 'l', 's', 'e']);
        }
        if word == "false"@ {
            assert(word[0] == 'f' && word[1] == 'a' && word[2] == 'l' && word[3] == 's' && word[4]
                == 'e');
        }
        assert(word == "false"@ <==> lower(s[0]) == 'f' && lower(s[1]) == 'a' && lower(s[2]) == 'l'
            && lower(s[3]) == 's' && lower(s[4]) == 'e');
    }
}

} // verus!
