use jdwp_mcp::json;
use jdwp_mcp::json::Json;
use jdwp_mcp::tools::{get_tools, with_session_id, Schemas, SESSION_ID_ARG};

#[test]
fn tool_names_are_unique_and_complete() {
    let tools = get_tools(&Schemas::none());
    let names: std::collections::BTreeSet<&str> = tools.iter().map(|t| t.name.as_str()).collect();
    assert_eq!(names.len(), tools.len(), "duplicate tool name in get_tools()");
    for expected in [
        "debug.attach",
        "debug.launch",
        "debug.list_sessions",
        "debug.disconnect",
        "debug.set_line_stop",
        "debug.set_exception_stop",
        "debug.set_field_stop",
        "debug.set_method_exit_stop",
        "debug.set_monitor_stop",
        "debug.list_stop_points",
        "debug.clear_stop_point",
        "debug.toggle_stop_point",
        "debug.panic",
        "debug.continue",
        "debug.pause",
        "debug.suspend_thread",
        "debug.resume_thread",
        "debug.step_over",
        "debug.step_into",
        "debug.step_out",
        "debug.set_value",
        "debug.force_return",
        "debug.reload_class",
        "debug.pop_frame",
        "debug.get_last_event",
        "debug.get_stack",
        "debug.evaluate",
        "debug.evaluate_chain",
        "debug.list_threads",
        "debug.list_classes",
        "debug.list_methods",
        "debug.list_fields",
        "debug.list_instances",
        "debug.run_named_query",
        "debug.source",
        "debug.check_stale",
        "debug.thread_dump",
        "debug.get_traces",
    ] {
        assert!(names.contains(expected), "missing tool: {expected}");
    }
}

#[test]
fn no_tool_description_carries_the_marks_of_a_bad_merge() {
    let allowed = ["VirtualMachine.Resume"];

    let mut complaints: Vec<String> = Vec::new();

    for tool in get_tools(&Schemas::none()) {
        let d = &tool.description;
        complaints.clear();

        for needle in [" . ", ". ,", "—.", "  ", " ,"] {
            if let Some(at) = d.find(needle) {
                let from = at.saturating_sub(70);
                let to = (at + needle.len() + 70).min(d.len());
                let window = &d[char_boundary(d, from)..char_boundary(d, to)];
                if allowed.iter().any(|ok| window.contains(ok)) {
                    continue;
                }
                complaints.push(format!("{needle:?} at {at}: …{window}…"));
            }
        }

        if !d.trim_end().ends_with(['.', '!', '?', ')']) {
            complaints.push(format!(
                "ends mid-sentence: …{}",
                &d[char_boundary(d, d.len().saturating_sub(80))..]
            ));
        }

        let words: Vec<&str> = d.split_whitespace().collect();
        for pair in words.windows(2) {
            if pair[0].len() >= 4 && pair[0].eq_ignore_ascii_case(pair[1]) {
                complaints.push(format!("doubled word {:?}", pair[0]));
            }
        }

        assert!(
            complaints.is_empty(),
            "{}'s description carries the marks of a bad merge — these are the shapes an interleaved \
             one-line string leaves, and DOC-7 (#108) shipped four of them:\n  {}",
            tool.name,
            complaints.join("\n  ")
        );
    }
}

fn char_boundary(s: &str, mut at: usize) -> usize {
    while at > 0 && !s.is_char_boundary(at) {
        at -= 1;
    }
    at
}

#[test]
fn no_description_carries_the_indentation_of_the_source_it_was_written_in() {
    let mut offenders: Vec<String> = Vec::new();
    for tool in get_tools(&Schemas::none()) {
        let mut check = |what: &str, text: &str| {
            for line in text.lines() {
                let body = line.trim_start();
                if body.contains("  ") {
                    offenders.push(format!("{} {what}: …{body}…", tool.name));
                    break;
                }
            }
        };
        check("description", &tool.description);
        if let Some(Json::Object(properties)) = tool.input_schema.get("properties") {
            for (argument, schema) in properties {
                if let Some(Json::Text(text)) = schema.get("description") {
                    check(&format!("{{{argument}}}"), text);
                }
            }
        }
    }
    assert!(
        offenders.is_empty(),
        "{} description(s) contain a run of two or more spaces, which is source indentation that \
         reached the caller rather than anything a human typed.\n  {}",
        offenders.len(),
        offenders.join("\n  ")
    );
}

#[test]
fn every_listed_tool_takes_a_session() {
    let tools = get_tools(&Schemas::none());
    assert_eq!(tools.len(), 38);
    for tool in tools {
        let properties = tool.input_schema.get("properties").expect("an object has properties");
        let session = properties.get(SESSION_ID_ARG).expect("the session is among them");
        assert_eq!(
            json::write(session.get("type").unwrap()),
            r#"["string","null"]"#,
            "{}",
            tool.name
        );
        assert!(matches!(tool.input_schema.get("additionalProperties"), Some(Json::Bool(false))));
    }
}

#[test]
fn a_schema_keeps_its_own_properties() {
    let schema = json::read(r#"{"properties":{"port":{"type":"integer"}},"required":["port"]}"#).unwrap();
    let listed = with_session_id(schema);
    assert_eq!(json::write(listed.get("required").unwrap()), r#"["port"]"#);
    let properties = listed.get("properties").unwrap();
    assert_eq!(json::write(properties.get("port").unwrap()), r#"{"type":"integer"}"#);
    assert!(properties.get("session_id").is_some());

    let mut schemas = Schemas::none();
    schemas.attach = Some(json::read(r#"{"properties":{"port":{}}}"#).unwrap());
    let tools = get_tools(&schemas);
    assert!(tools[0].input_schema.get("properties").unwrap().get("port").is_some());
}

#[test]
fn what_is_no_object_is_listed_as_it_is() {
    assert_eq!(json::write(&with_session_id(Json::Bool(true))), "true");
    let no_properties = with_session_id(json::read("{}").unwrap());
    assert_eq!(json::write(&no_properties), r#"{"additionalProperties":false}"#);
}
