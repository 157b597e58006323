use jdwp_mcp::jdwp::{MonitorKind, SuspendPolicy, WatchKind};
use jdwp_mcp::json;
use jdwp_mcp::json::Json;
use jdwp_mcp::session::{
    ClassLoadWatch, DebugSession, PatternStopSet, PendingBreakpoint, SessionManager, SessionSeed,
};
use jdwp_mcp::stop_point::{
    ArmedOn, BreakpointArm, DriftCheck, ExceptionBreakpoint, LineBreakpoint, MethodExitRequest, MonitorStop,
    RearmState, StopPoint, StopPointKind, TraceCost, Watchpoint,
};
use jdwp_mcp::stop_point_set::{
    describe_arm_outcomes, describe_dropped, describe_suspending, describe_unverified_lines, export, id_order,
    parse, render_export, sorted_by_id, sorted_of_kind, ArmOutcome, Dropped, ARMABLE_TOOLS, FORMAT_KEY, FORMAT_VERSION,
};
use jdwp_mcp::text_map::TextMap;

/// A stop point of `kind`, armed on one live request, with everything optional left off.
fn armed(id: &str, kind: StopPointKind) -> StopPoint {
    StopPoint {
        id: id.to_string(),
        request_ids: vec![7],
        enabled: true,
        spent: false,
        hit_count: None,
        hits: 0,
        condition: None,
        trace: false,
        trace_expr: Vec::new(),
        trace_budget: None,
        trace_frames: 0,
        trace_max_length: None,
        trace_cost: TraceCost::default(),
        thread_filter: None,
        instance_filter: None,
        armed_on: armed_on(kind),
    }
}

/// The quietest payload each kind can have.
fn armed_on(kind: StopPointKind) -> ArmedOn {
    match kind {
        StopPointKind::Line => ArmedOn::Line(LineBreakpoint {
            class_pattern: "com.example.Orders".to_string(),
            line: 42,
            method: Some("save".to_string()),
            arm_line: Some(42),
            arm_method: None,
            drift: DriftCheck::NotChecked("a stated stop point never reached a JVM".to_string()),
            loaders: Vec::new(),
            arm: BreakpointArm {
                class_id: 0x10,
                method_id: 0x20,
                bytecode_index: 0,
                extra_locations: Vec::new(),
                suspend_policy: SuspendPolicy::EventThread,
            },
            rearm: RearmState::Unwatched,
        }),
        StopPointKind::Exception => ArmedOn::Exception(ExceptionBreakpoint {
            class_pattern: "java.lang.IllegalStateException".to_string(),
            caught: true,
            uncaught: true,
        }),
        StopPointKind::Watchpoint => ArmedOn::Watchpoint(Watchpoint {
            kind: WatchKind::Modify,
            class_name: "com.example.Orders".to_string(),
            field_name: "total".to_string(),
            is_static: false,
        }),
        StopPointKind::MethodExit => ArmedOn::MethodExit(MethodExitRequest {
            discarded: 0,
            class_pattern: "com.example.Orders".to_string(),
            exclude_classes: Vec::new(),
            method: Some("save".to_string()),
            with_return_value: true,
        }),
        StopPointKind::Monitor => ArmedOn::Monitor(MonitorStop {
            kind: MonitorKind::Blocked,
            paired: true,
            monitor_class: None,
            min_duration_ms: None,
        }),
    }
}

#[test]
fn anything_that_is_not_a_set_is_refused_with_what_it_was_instead() {
    assert!(parse("").unwrap_err().contains("empty"));
    assert!(parse("not json at all").unwrap_err().contains("not JSON"));
    let listing = parse("📍 2 breakpoint(s), 0 deferred").unwrap_err();
    assert!(
        listing.contains("rendered listing"),
        "the refusal should name the likely mistake: {listing}"
    );

    let wrong_shape = parse("[1,2,3]").unwrap_err();
    assert!(wrong_shape.contains("array"), "it must say what was passed: {wrong_shape}");

    let no_key = parse(r#"{"entries":[]}"#).unwrap_err();
    assert!(no_key.contains(FORMAT_KEY) && no_key.contains("entries"), "{no_key}");
}

#[test]
fn a_newer_format_version_is_refused_and_an_older_one_is_not_invented() {
    let newer = format!(r#"{{"{FORMAT_KEY}":{},"entries":[]}}"#, FORMAT_VERSION + 1);
    let err = parse(&newer).unwrap_err();
    assert!(err.contains("NEWER build"), "{err}");
    assert!(err.contains(&(FORMAT_VERSION + 1).to_string()), "it must quote the version it saw: {err}");

    let not_a_number = format!(r#"{{"{FORMAT_KEY}":"1","entries":[]}}"#);
    assert!(parse(&not_a_number).unwrap_err().contains("string"));
}

#[test]
fn a_set_may_only_name_the_five_arming_tools() {
    let sneaky = format!(
        r#"{{"{FORMAT_KEY}":{FORMAT_VERSION},"entries":[{{"tool":"debug.disconnect","args":{{}}}}]}}"#
    );
    let err = parse(&sneaky).unwrap_err();
    assert!(err.contains("debug.disconnect"), "it must quote the tool it refused: {err}");
    assert!(err.contains("whitelist"), "and say it is a whitelist, not a check on this name: {err}");
    for tool in ARMABLE_TOOLS {
        assert!(err.contains(tool), "the refusal lists what IS allowed, so {tool} must appear: {err}");
    }
    for tool in ARMABLE_TOOLS {
        let ok =
            format!(r#"{{"{FORMAT_KEY}":{FORMAT_VERSION},"entries":[{{"tool":"{tool}","args":{{}}}}]}}"#);
        assert_eq!(parse(&ok).expect("must parse").len(), 1, "{tool}");
    }
}

#[test]
fn the_block_is_accepted_with_or_without_the_fence_it_was_shown_in() {
    let bare = format!(
        r#"{{"{FORMAT_KEY}":{FORMAT_VERSION},"entries":[{{"tool":"debug.set_line_stop","args":{{}}}}]}}"#
    );
    let fenced = format!("```json\n{bare}\n```");
    assert_eq!(parse(&bare).expect("bare").len(), 1);
    assert_eq!(parse(&fenced).expect("fenced").len(), 1, "our own rendering must round-trip");
}

#[test]
fn a_missing_enabled_flag_means_enabled() {
    let set = format!(
        r#"{{"{FORMAT_KEY}":{FORMAT_VERSION},"entries":[
             {{"tool":"debug.set_line_stop","args":{{}}}},
             {{"tool":"debug.set_line_stop","enabled":false,"args":{{}}}}]}}"#
    );
    let entries = parse(&set).expect("parse");
    assert!(entries[0].enabled, "absent means enabled");
    assert!(!entries[1].enabled, "and an explicit false is honoured");
}

#[test]
fn an_empty_entry_list_is_refused_rather_than_armed_as_nothing() {
    let empty = format!(r#"{{"{FORMAT_KEY}":{FORMAT_VERSION},"entries":[]}}"#);
    assert!(parse(&empty).unwrap_err().contains("nothing to arm"));
}

#[test]
fn arm_outcomes_lead_with_counts_and_then_name_everything_that_is_not_armed() {
    let outcomes = vec![
        ("bp_1 com.x.Foo:42".to_string(), ArmOutcome::Armed),
        ("bp_2 com.x.Bar:7".to_string(), ArmOutcome::Deferred),
        ("bp_3 com.x.Gone:1".to_string(), ArmOutcome::Refused("no such line".to_string())),
        ("bp_4 com.x.Off:3".to_string(), ArmOutcome::SkippedDisabled),
    ];
    let out = describe_arm_outcomes(&outcomes);
    assert!(out.starts_with("1 armed, 1 deferred, 1 refused"), "counts first: {out}");
    assert!(out.contains("1 skipped"), "and the skipped count when there is one: {out}");
    assert!(!out.contains("bp_1"), "an armed entry needs no line of its own: {out}");
    for id in ["bp_2", "bp_3", "bp_4"] {
        assert!(out.contains(id), "{id} must be named: {out}");
    }
    assert!(out.contains("no such line"), "a refusal carries the tool's own reason: {out}");
}

#[test]
fn nothing_claims_the_lines_were_checked() {
    assert_eq!(describe_unverified_lines(0), "", "nothing armed, so there is nothing to disclaim");
    let note = describe_unverified_lines(3);
    assert!(note.contains("check_stale"), "it must name the tool that CAN answer it: {note}");
    assert!(note.contains("NOT checked"), "and be unambiguous that it did not: {note}");
}

#[test]
fn a_dropped_filter_says_the_stop_point_is_now_broader() {
    assert_eq!(describe_dropped(&Dropped::default()), "", "nothing dropped, nothing said");

    let both = Dropped {
        instance: vec!["bp_1".to_string()],
        thread: vec!["bp_2".to_string(), "mexit_1".to_string()],
        undescribable: vec![],
    };
    let out = describe_dropped(&both);
    assert!(out.contains("bp_1") && out.contains("mexit_1"), "every id is named: {out}");
    assert_eq!(out.matches("BROADER").count(), 2, "each half states the consequence: {out}");
    assert!(
        out.contains("list_instances") && out.contains("list_threads"),
        "each names its own fix: {out}"
    );
    assert!(out.contains("1 stop point:") || out.contains("1 stop point"), "no `1 stop point(s)`: {out}");
    assert!(!out.contains("point(s)"), "the plural is resolved, not deferred to the reader: {out}");
}

#[test]
fn a_set_of_suspending_stop_points_is_warned_about_and_not_refused() {
    assert_eq!(describe_suspending(0), "");
    let warn = describe_suspending(4);
    assert!(warn.contains('4') && warn.contains("SUSPENDING"), "{warn}");
    assert!(warn.contains("one call"), "the point is the multiplicity, not the kind: {warn}");
    assert!(warn.contains("trace:true"), "and it names the cheaper alternative: {warn}");
}

#[test]
fn entries_are_ordered_by_number_and_not_by_string() {
    let mut ids = vec!["bp_10", "bp_2", "mexit_1", "bp_1"];
    ids.sort_by_key(|i| id_order(i));
    assert_eq!(ids, vec!["bp_1", "bp_2", "bp_10", "mexit_1"]);
}

fn with_session(check: impl FnOnce(&mut DebugSession<()>)) {
    let mut manager: SessionManager<()> = SessionManager::new();
    let id = manager.create_session(
        1,
        0,
        "localhost:5005".to_string(),
        SessionSeed {
            read_only: false,
            source_roots: Vec::new(),
            class_roots: Vec::new(),
            trace_exprs: Vec::new(),
            step_exclude_classes: None,
            step_only_classes: None,
        },
    );
    check(manager.get_session_by_id_mut(&id).unwrap());
}

#[test]
fn an_exported_session_arms_every_kind_again() {
    with_session(|session| {
        for (n, kind) in StopPointKind::LISTING_ORDER.into_iter().enumerate() {
            session.state.register_stop_point(armed(&format!("sp_{n}"), kind));
        }
        let exported = export(session);
        assert_eq!(exported.entries, 5);
        assert_eq!(exported.disabled, 0);
        let text = json::write_pretty(&exported.set);
        let entries = parse(&text).expect("what is written can be read");
        let mut tools: Vec<&str> = entries.iter().map(|e| e.tool.as_str()).collect();
        tools.sort_unstable();
        let mut all = ARMABLE_TOOLS.to_vec();
        all.sort_unstable();
        assert_eq!(tools, all, "each kind is armed by its own tool");
        assert!(entries.iter().all(|e| e.enabled));
    });
}

#[test]
fn a_rendered_export_can_be_passed_back() {
    with_session(|session| {
        let mut spent = armed("bp_2", StopPointKind::Line);
        spent.spent = true;
        session.state.register_stop_point(armed("bp_1", StopPointKind::Line));
        session.state.register_stop_point(spent);
        let exported = export(session);
        assert_eq!((exported.entries, exported.disabled), (2, 1));
        let reply = render_export(&exported);
        let from = reply.find("```").expect("the block is fenced");
        let entries = parse(&reply[from..]).expect("the fence comes off");
        assert_eq!(entries.len(), 2);
        assert_eq!(entries.iter().filter(|e| e.enabled).count(), 1, "a spent one stays unarmed");
    });
}

#[test]
fn a_compact_export_can_be_passed_back() {
    with_session(|session| {
        session.state.register_stop_point(armed("bp_1", StopPointKind::Line));
        session.state.register_stop_point(armed("mexit_1", StopPointKind::MethodExit));
        let text = json::write(&export(session).set);
        assert!(text.starts_with('{') && text.ends_with('}') && !text.contains('\n'), "{text}");
        assert_eq!(parse(&text).expect("one line reads like any other").len(), 2);
    });
}

#[test]
fn the_order_of_arming_leaves_no_trace_in_an_export() {
    let ids = ["bp_10", "bp_1", "bp_01", "bp_x", "bp_y", "bp_001"];
    let mut written = Vec::new();
    for turn in 0..ids.len() {
        with_session(|session| {
            for k in 0..ids.len() {
                session.state.register_stop_point(armed(ids[(turn + k) % ids.len()], StopPointKind::Line));
            }
            written.push(json::write(&export(session).set));
        });
    }
    assert!(written.iter().all(|text| *text == written[0]));
    let at = |id: &str| written[0].find(&format!("\"from\":\"{id}\"")).unwrap();
    let in_order = ["bp_001", "bp_01", "bp_1", "bp_10", "bp_x", "bp_y"];
    for pair in in_order.windows(2) {
        assert!(at(pair[0]) < at(pair[1]), "{pair:?} in {}", written[0]);
    }
}

#[test]
fn a_map_is_sorted_by_what_it_holds() {
    let ids = ["bp_10", "mexit_1", "bp_2", "bp_02", "bp_1"];
    let mut forth: TextMap<usize> = TextMap::new();
    let mut back: TextMap<usize> = TextMap::new();
    for (n, id) in ids.iter().enumerate() {
        forth.insert((*id).to_string(), n);
    }
    for (n, id) in ids.iter().enumerate().rev() {
        back.insert((*id).to_string(), n);
    }
    let rows = sorted_by_id(&forth);
    assert_eq!(rows, sorted_by_id(&back));
    let found: Vec<(&str, usize)> = rows.iter().map(|(id, n)| (id.as_str(), **n)).collect();
    assert_eq!(found, [("bp_1", 4), ("bp_02", 3), ("bp_2", 2), ("bp_10", 0), ("mexit_1", 1)]);
    assert!(rows.windows(2).all(|w| id_order(w[0].0) <= id_order(w[1].0)));
}

#[test]
fn the_stop_points_of_a_kind_are_sorted_among_themselves() {
    with_session(|session| {
        for id in ["bp_10", "bp_2"] {
            session.state.register_stop_point(armed(id, StopPointKind::Line));
        }
        session.state.register_stop_point(armed("bp_3", StopPointKind::Monitor));
        let rows = sorted_of_kind(&session.state.stop_points, StopPointKind::Line);
        let found: Vec<&str> = rows.iter().map(|(_, sp)| sp.id.as_str()).collect();
        assert_eq!(found, ["bp_2", "bp_10"]);
    });
}

#[test]
fn an_outcome_has_one_line_and_an_armed_one_has_none() {
    let mut outcomes = vec![
        ("a".to_string(), ArmOutcome::Deferred),
        ("b".to_string(), ArmOutcome::Refused("no such line".to_string())),
        ("c".to_string(), ArmOutcome::SkippedDisabled),
        ("d".to_string(), ArmOutcome::Refused("no such class".to_string())),
    ];
    let out = describe_arm_outcomes(&outcomes);
    let lines: Vec<&str> = out.lines().collect();
    assert_eq!(lines.len(), 5);
    assert_eq!(lines[0], "0 armed, 1 deferred, 2 refused, 1 skipped (disabled when exported)");
    assert!(lines[1].contains(" a — deferred"));
    assert_eq!(lines[2], "   🛑 b — refused: no such line");
    assert!(lines[3].contains(" c — NOT armed"));
    assert_eq!(lines[4], "   🛑 d — refused: no such class");
    outcomes.insert(2, ("new".to_string(), ArmOutcome::Armed));
    let more = describe_arm_outcomes(&outcomes);
    assert_eq!(more, out.replace("0 armed", "1 armed"));
    assert_eq!(describe_arm_outcomes(&[]), "0 armed, 0 deferred, 0 refused\n");
}

#[test]
fn a_filter_of_one_jvm_is_dropped_and_named() {
    with_session(|session| {
        let mut filtered = armed("bp_1", StopPointKind::Line);
        filtered.thread_filter = Some(0x22);
        filtered.instance_filter = Some(0x33);
        session.state.register_stop_point(filtered);
        let exported = export(session);
        assert_eq!(exported.dropped.thread, vec!["bp_1".to_string()]);
        assert_eq!(exported.dropped.instance, vec!["bp_1".to_string()]);
        let text = json::write(&exported.set);
        assert!(!text.contains("thread_id") && !text.contains("instance"), "{text}");
    });
}

#[test]
fn every_refusal_of_a_set_has_its_words() {
    let no_array = format!(r#"{{"{FORMAT_KEY}":{FORMAT_VERSION}}}"#);
    assert_eq!(parse(&no_array).unwrap_err(), "A stop-point set needs an `entries` array.");
    let not_an_object = format!(r#"{{"{FORMAT_KEY}":{FORMAT_VERSION},"entries":[7]}}"#);
    assert!(parse(&not_an_object).is_err());
    let no_tool = format!(r#"{{"{FORMAT_KEY}":{FORMAT_VERSION},"entries":[{{"args":{{}}}}]}}"#);
    assert!(parse(&no_tool).is_err());
}

#[test]
fn the_number_in_an_id_decides() {
    assert_eq!(id_order("bp_10"), ("bp_".to_string(), 10));
    assert_eq!(id_order("watch_modify_3"), ("watch_modify_".to_string(), 3));
}

fn family(members: Vec<String>, method: Option<String>) -> PatternStopSet {
    PatternStopSet {
        id: "bpset_1".to_string(),
        class_pattern: "com.example.*".to_string(),
        watch: ClassLoadWatch::Disabled,
        enabled: true,
        members,
        armed_later: Vec::new(),
        armed_later_total: 0,
        method,
        hit_count: None,
        instance_filter: None,
        thread_filter: None,
        condition: None,
        trace: true,
        trace_expr: Vec::new(),
        trace_budget: None,
        trace_frames: 3,
        trace_max_length: None,
        max_classes: 50,
        skipped_at_cap: 0,
        no_method: 0,
    }
}

#[test]
fn a_member_of_a_family_is_armed_by_the_family_alone() {
    with_session(|session| {
        session.state.register_stop_point(armed("bp_1", StopPointKind::Line));
        session.state.register_stop_point(armed("bp_2", StopPointKind::Line));
        session.pattern_sets.insert("bpset_1".to_string(), family(vec!["bp_1".to_string()], None));
        let exported = export(session);
        assert_eq!(exported.entries, 2, "the family, and the one that is no member");
        let entries = parse(&json::write(&exported.set)).unwrap();
        assert!(matches!(entries[0].args.get("max_classes"), Some(Json::Unsigned(50))));
        assert!(matches!(entries[0].args.get("line"), Some(Json::Unsigned(42))), "its members know the line");
        assert!(entries[1].args.get("max_classes").is_none());
        assert_eq!(exported.suspending, 1, "the family only traces");
    });
}

#[test]
fn a_family_with_no_place_left_is_named_as_such() {
    with_session(|session| {
        session.pattern_sets.insert("bpset_1".to_string(), family(vec!["bp_9".to_string()], None));
        let exported = export(session);
        assert_eq!(exported.entries, 0);
        assert_eq!(exported.dropped.undescribable, vec!["bpset_1".to_string()]);
        assert!(describe_dropped(&exported.dropped).contains("bpset_1"));
    });
}

#[test]
fn monitors_that_agree_are_one_call_for_all_their_kinds() {
    with_session(|session| {
        let mut acquired = armed("mon_2", StopPointKind::Monitor);
        acquired.armed_on = ArmedOn::Monitor(MonitorStop {
            kind: MonitorKind::Acquired,
            paired: true,
            monitor_class: None,
            min_duration_ms: None,
        });
        let mut other = armed("mon_10", StopPointKind::Monitor);
        other.trace = true;
        session.state.register_stop_point(other);
        session.state.register_stop_point(acquired);
        session.state.register_stop_point(armed("mon_1", StopPointKind::Monitor));
        let exported = export(session);
        let entries = parse(&json::write(&exported.set)).unwrap();
        assert_eq!(entries.len(), 2);
        match entries[0].args.get("kinds") {
            Some(Json::Array(kinds)) => assert_eq!(kinds.len(), 2),
            other => panic!("{other:?}"),
        }
    });
}

#[test]
fn a_deferral_is_written_as_the_line_stop_it_will_be() {
    with_session(|session| {
        session.state.pending_breakpoints.push(PendingBreakpoint {
            bp_id: "bp_3".to_string(),
            class_prepare_request_id: 99,
            class_pattern: "com.example.Later".to_string(),
            signature: "Lcom/example/Later;".to_string(),
            line: None,
            method: Some("run".to_string()),
            hit_count: Some(2),
            instance_filter: None,
            thread_filter: None,
            condition: Some("x > 1".to_string()),
            trace: false,
            trace_expr: Vec::new(),
            trace_budget: None,
            trace_frames: 0,
            trace_max_length: None,
        });
        let set = json::write(&export(session).set);
        assert_eq!(
            set,
            concat_lines(&[
                r#"{"entries":[{"args":{"class_pattern":"com.example.Later","condition":"x > 1","#,
                r#""hit_count":2,"method":"run","trace":false,"trace_frames":0},"enabled":true,"#,
                r#""from":"bp_3","tool":"debug.set_line_stop"}],"jdwp_mcp_stop_point_set":1}"#,
            ])
        );
    });
}

fn concat_lines(lines: &[&str]) -> String {
    lines.join("")
}
