use jdwp_mcp::jdwp::{MonitorKind, SuspendPolicy, WatchKind};
use jdwp_mcp::stop_point::{
    ArmedOn, BreakpointArm, DriftCheck, ExceptionBreakpoint, LineBreakpoint, MethodExitRequest, MonitorStop,
    ReArmWatch, RearmState, StopPoint, StopPointKind, TraceCost, Watchpoint,
};
use jdwp_mcp::time::{Moment, Span};

/// A stop point of `kind`, armed on one live request, with everything optional left off.
fn armed(id: &str, kind: StopPointKind) -> StopPoint {
    StopPoint {
        id: id.to_string(),
        request_ids: vec![7],
        enabled: true,
        spent: false,
        hit_count: None,
        hits: 0,
        condition: None,
        trace: false,
        trace_expr: Vec::new(),
        trace_budget: None,
        trace_frames: 0,
        trace_max_length: None,
        trace_cost: TraceCost::default(),
        thread_filter: None,
        instance_filter: None,
        armed_on: armed_on(kind),
    }
}

/// The quietest payload each kind can have.
fn armed_on(kind: StopPointKind) -> ArmedOn {
    match kind {
        StopPointKind::Line => ArmedOn::Line(LineBreakpoint {
            class_pattern: "com.example.Orders".to_string(),
            line: 42,
            method: Some("save".to_string()),
            arm_line: Some(42),
            arm_method: None,
            drift: DriftCheck::NotChecked("a stated stop point never reached a JVM".to_string()),
            loaders: Vec::new(),
            arm: BreakpointArm {
                class_id: 0x10,
                method_id: 0x20,
                bytecode_index: 0,
                extra_locations: Vec::new(),
                suspend_policy: SuspendPolicy::EventThread,
            },
            rearm: RearmState::Unwatched,
        }),
        StopPointKind::Exception => ArmedOn::Exception(ExceptionBreakpoint {
            class_pattern: "java.lang.IllegalStateException".to_string(),
            caught: true,
            uncaught: true,
        }),
        StopPointKind::Watchpoint => ArmedOn::Watchpoint(Watchpoint {
            kind: WatchKind::Modify,
            class_name: "com.example.Orders".to_string(),
            field_name: "total".to_string(),
            is_static: false,
        }),
        StopPointKind::MethodExit => ArmedOn::MethodExit(MethodExitRequest {
            discarded: 0,
            class_pattern: "com.example.Orders".to_string(),
            exclude_classes: Vec::new(),
            method: Some("save".to_string()),
            with_return_value: true,
        }),
        StopPointKind::Monitor => ArmedOn::Monitor(MonitorStop {
            kind: MonitorKind::Blocked,
            paired: true,
            monitor_class: None,
            min_duration_ms: None,
        }),
    }
}

const fn declared_rank(kind: StopPointKind) -> usize {
    match kind {
        StopPointKind::Line => 0,
        StopPointKind::Exception => 1,
        StopPointKind::Watchpoint => 2,
        StopPointKind::MethodExit => 3,
        StopPointKind::Monitor => 4,
    }
}

#[test]
fn the_listing_order_covers_every_kind_once() {
    assert_eq!(
        StopPointKind::LISTING_ORDER.len(),
        5,
        "a kind added to the enum needs a place in LISTING_ORDER too, or it is never listed"
    );
    for kind in StopPointKind::LISTING_ORDER {
        assert_eq!(
            StopPointKind::LISTING_ORDER.iter().position(|k| *k == kind),
            Some(declared_rank(kind)),
            "{kind:?} is not where it says it is"
        );
    }
}

#[test]
fn the_state_matrix_reads_the_same_on_every_kind() {
    for kind in StopPointKind::LISTING_ORDER {
        let quiet = armed("id_1", kind);
        assert_eq!(quiet.glyph(), kind.armed_glyph(), "{kind:?} armed");
        assert_eq!(quiet.state_suffix(), "", "{kind:?}: an armed stop point says nothing extra");
        assert_eq!(quiet.clear_note(), "", "{kind:?}: nothing to add when it was not spent");
        assert!(quiet.is_armed(), "{kind:?}");

        let mut disabled = armed("id_1", kind);
        disabled.enabled = false;
        disabled.request_ids.clear();
        assert_eq!(disabled.glyph(), "✗", "{kind:?} disabled");
        assert!(disabled.state_suffix().contains("DISABLED"), "{kind:?}");
        assert!(!disabled.state_suffix().contains("SPENT"), "{kind:?}");
        assert_eq!(disabled.clear_note(), "", "{kind:?}: a disable sends a clear like any other");

        let mut spent = armed("id_1", kind);
        spent.enabled = false;
        spent.spent = true;
        spent.request_ids.clear();
        assert_eq!(spent.glyph(), "⏹", "{kind:?}: spent has its own glyph");
        let suffix = spent.state_suffix();
        assert!(suffix.contains("SPENT"), "{kind:?}: {suffix}");
        assert!(
            !suffix.contains("DISABLED"),
            "{kind:?}: spent must not read as the caller's own toggle — they did not switch this \
             off:\n{suffix}"
        );
        assert!(
            suffix.contains("toggle_stop_point"),
            "{kind:?}: a caller told their stop point is gone needs the way back:\n{suffix}"
        );
        assert!(
            spent.clear_note().contains("nothing was sent to the debuggee"),
            "{kind:?}: ADR-0026 — a clear that sent no packet has to say so:\n{}",
            spent.clear_note()
        );
    }
}

#[test]
fn a_spent_stop_point_never_reads_as_armed_even_if_enabled_says_otherwise() {
    for kind in StopPointKind::LISTING_ORDER {
        let mut contradictory = armed("id_1", kind);
        contradictory.spent = true; // and `enabled` deliberately left true
        assert_eq!(
            contradictory.glyph(),
            "⏹",
            "{kind:?}: spent wins, or a listing claims the JVM still holds a request it deleted"
        );
        assert!(
            contradictory.state_suffix().contains("SPENT"),
            "{kind:?}: {}",
            contradictory.state_suffix()
        );
    }
}

#[test]
fn a_rescue_description_names_the_id_and_a_toggle_description_does_not() {
    for kind in StopPointKind::LISTING_ORDER {
        let sp = armed("id_1", kind);
        assert!(
            sp.describe_for_rescue().contains("id_1"),
            "{kind:?}: a caller who was away is told only this:\n{}",
            sp.describe_for_rescue()
        );
        assert!(
            !sp.armed_on.describe().contains("id_1"),
            "{kind:?}: the toggle reply has already printed the id:\n{}",
            sp.armed_on.describe()
        );
    }
}

#[test]
fn only_the_monitor_kind_refuses_a_condition() {
    for kind in StopPointKind::LISTING_ORDER {
        assert_eq!(
            kind.takes_condition(),
            kind != StopPointKind::Monitor,
            "{kind:?}: a condition is evaluated on the hit thread, and a thread suspended at a \
             monitorenter is blocked on the very lock in the snapshot"
        );
    }
}

#[test]
fn a_lookup_finds_every_request_a_stop_point_owns() {
    let mut sp = armed("bp_1", StopPointKind::Line);
    sp.request_ids = vec![11, 12];
    assert!(sp.owns_request(11), "the primary");
    assert!(sp.owns_request(12), "the `finally` body's second copy, which fires on the throw");
    assert!(!sp.owns_request(13));

    sp.request_ids.clear();
    assert!(!sp.owns_request(11));
    assert!(!sp.is_armed());
}

#[test]
fn a_payload_accessor_answers_only_for_its_own_kind() {
    for kind in StopPointKind::LISTING_ORDER {
        let sp = armed("id_1", kind);
        assert_eq!(sp.kind(), kind);
        assert_eq!(sp.line().is_some(), kind == StopPointKind::Line, "{kind:?}");
        assert_eq!(sp.method_exit().is_some(), kind == StopPointKind::MethodExit, "{kind:?}");
        assert_eq!(sp.monitor().is_some(), kind == StopPointKind::Monitor, "{kind:?}");
    }
}

#[test]
fn every_kind_has_its_own_label_and_glyph() {
    let mut labels: Vec<&str> = StopPointKind::LISTING_ORDER.iter().map(|k| k.label()).collect();
    labels.sort_unstable();
    labels.dedup();
    assert_eq!(labels.len(), StopPointKind::LISTING_ORDER.len(), "two kinds share a label: {labels:?}");

    let mut glyphs: Vec<&str> = StopPointKind::LISTING_ORDER.iter().map(|k| k.armed_glyph()).collect();
    glyphs.sort_unstable();
    glyphs.dedup();
    assert_eq!(glyphs.len(), StopPointKind::LISTING_ORDER.len(), "two kinds share a glyph: {glyphs:?}");
    for k in StopPointKind::LISTING_ORDER {
        for taken in ["⏹", "✗"] {
            assert_ne!(
                k.armed_glyph(),
                taken,
                "{k:?}'s armed glyph collides with a NOT-armed one, so a listing cannot be read"
            );
        }
    }
}

#[test]
fn every_kind_names_its_own_wire_request() {
    let nouns: Vec<&str> = StopPointKind::LISTING_ORDER
        .iter()
        .map(|k| armed("id_1", *k).armed_on.wire_noun())
        .collect();
    let mut unique = nouns.clone();
    unique.sort_unstable();
    unique.dedup();
    assert_eq!(unique.len(), nouns.len(), "two kinds report the same failed request: {nouns:?}");
}

#[test]
fn a_trace_cost_reports_a_rate_only_once_it_has_an_interval() {
    let sp: StopPoint = armed("bp_1", StopPointKind::Line);
    assert!(sp.trace_cost.mean_capture().is_none(), "unmeasured is not free");
    assert!(sp.trace_cost.observed_rate().is_none());

    let mut cost = sp.trace_cost;
    let start = Moment { nanos: 5_000 };
    cost.record(start, Span::from_millis(2));
    assert_eq!(cost.mean_capture(), Some(Span::from_millis(2)));
    assert!(cost.observed_rate().is_none(), "one capture spans no interval, so there is no rate yet");
}

#[test]
fn a_mean_is_cut_to_whole_nanoseconds() {
    let mut cost = TraceCost::default();
    cost.record(Moment { nanos: 0 }, Span { nanos: 5 });
    cost.record(Moment { nanos: 10 }, Span { nanos: 2 });
    assert_eq!(cost.mean_capture(), Some(Span { nanos: 3 }));
    assert_eq!(cost.total, Span { nanos: 7 });
}

#[test]
fn hits_at_the_same_moment_give_no_rate() {
    let mut cost = TraceCost::default();
    cost.record(Moment { nanos: 9 }, Span { nanos: 1 });
    cost.record(Moment { nanos: 9 }, Span { nanos: 1 });
    assert!(cost.observed_rate().is_none());
    assert!(cost.capture_share().is_none());
}

#[test]
fn what_is_armed_is_described_by_its_kind() {
    let words: Vec<String> =
        StopPointKind::LISTING_ORDER.iter().map(|k| armed("id_1", *k).armed_on.describe()).collect();
    for (i, a) in words.iter().enumerate() {
        for b in &words[i + 1..] {
            assert_ne!(a, b);
        }
    }
    let rescue = armed("bp_1", StopPointKind::Line).describe_for_rescue();
    assert!(rescue.contains("com.example.Orders"), "{rescue}");
    assert!(rescue.contains("42"), "{rescue}");
}

#[test]
fn a_watch_for_later_copies_can_be_changed_in_place() {
    let mut sp = armed("bp_1", StopPointKind::Line);
    assert!(sp.line().unwrap().rearm.watch().is_none());
    if let Some(line) = sp.line_mut() {
        line.rearm = RearmState::Watching(ReArmWatch {
            request_id: 90,
            signature: "Lcom/example/Orders;".to_string(),
            later_copies: 0,
            line: Some(42),
            method: None,
        });
    }
    if let Some(watch) = sp.line_mut().and_then(|l| l.rearm.watch_mut()) {
        watch.later_copies += 1;
    }
    assert_eq!(sp.line().unwrap().rearm.watch().unwrap().later_copies, 1);
    assert!(sp.method_exit_mut().is_none());
}
