use jdwp_mcp::jdwp::{MonitorKind, SuspendPolicy, WatchKind};
use jdwp_mcp::session::{
    remember_bounded, ClassLoadWatch, DebugSession, EventPump, LaunchedJvm, MonitorPair, MonitorPairKey,
    PatternStopSet, PendingBreakpoint, RethrowFold, SessionManager, SessionSeed, SessionState, SuspendCause,
    Task, ThrowKind, MAX_ARMED_LATER_SAMPLE, MAX_DISARMED_TRACED, MAX_EVENTS, MAX_MONITOR_PENDING,
    MAX_RETHROW_CHAINS, MAX_TRACE_DISARMS,
};
use jdwp_mcp::stop_point::{
    ArmedOn, BreakpointArm, DriftCheck, ExceptionBreakpoint, LineBreakpoint, MethodExitRequest, MonitorStop,
    RearmState, StopPoint, StopPointKind, TraceCost, Watchpoint,
};
use jdwp_mcp::time::{Moment, Span};

/// A stop point of `kind`, armed on one live request, with everything optional left off.
fn armed(id: &str, kind: StopPointKind) -> StopPoint {
    StopPoint {
        id: id.to_string(),
        request_ids: vec![7],
        enabled: true,
        spent: false,
        hit_count: None,
        hits: 0,
        condition: None,
        trace: false,
        trace_expr: Vec::new(),
        trace_budget: None,
        trace_frames: 0,
        trace_max_length: None,
        trace_cost: TraceCost::default(),
        thread_filter: None,
        instance_filter: None,
        armed_on: armed_on(kind),
    }
}

/// The quietest payload each kind can have.
fn armed_on(kind: StopPointKind) -> ArmedOn {
    match kind {
        StopPointKind::Line => ArmedOn::Line(LineBreakpoint {
            class_pattern: "com.example.Orders".to_string(),
            line: 42,
            method: Some("save".to_string()),
            arm_line: Some(42),
            arm_method: None,
            drift: DriftCheck::NotChecked("a stated stop point never reached a JVM".to_string()),
            loaders: Vec::new(),
            arm: BreakpointArm {
                class_id: 0x10,
                method_id: 0x20,
                bytecode_index: 0,
                extra_locations: Vec::new(),
                suspend_policy: SuspendPolicy::EventThread,
            },
            rearm: RearmState::Unwatched,
        }),
        StopPointKind::Exception => ArmedOn::Exception(ExceptionBreakpoint {
            class_pattern: "java.lang.IllegalStateException".to_string(),
            caught: true,
            uncaught: true,
        }),
        StopPointKind::Watchpoint => ArmedOn::Watchpoint(Watchpoint {
            kind: WatchKind::Modify,
            class_name: "com.example.Orders".to_string(),
            field_name: "total".to_string(),
            is_static: false,
        }),
        StopPointKind::MethodExit => ArmedOn::MethodExit(MethodExitRequest {
            discarded: 0,
            class_pattern: "com.example.Orders".to_string(),
            exclude_classes: Vec::new(),
            method: Some("save".to_string()),
            with_return_value: true,
        }),
        StopPointKind::Monitor => ArmedOn::Monitor(MonitorStop {
            kind: MonitorKind::Blocked,
            paired: true,
            monitor_class: None,
            min_duration_ms: None,
        }),
    }
}

fn pending(bp_id: &str, class_prepare_request_id: i32) -> PendingBreakpoint {
    PendingBreakpoint {
        bp_id: bp_id.to_string(),
        class_prepare_request_id,
        class_pattern: "com.example.Orders".to_string(),
        signature: "Lcom/example/Orders;".to_string(),
        line: Some(42),
        method: None,
        hit_count: None,
        instance_filter: None,
        thread_filter: None,
        condition: None,
        trace: false,
        trace_expr: Vec::new(),
        trace_budget: None,
        trace_frames: 0,
        trace_max_length: None,
    }
}

fn seed() -> SessionSeed {
    SessionSeed {
        read_only: false,
        source_roots: Vec::new(),
        class_roots: Vec::new(),
        trace_exprs: Vec::new(),
        step_exclude_classes: None,
        step_only_classes: None,
    }
}

fn with_session(check: impl FnOnce(&mut DebugSession<&'static str>)) {
    let mut manager: SessionManager<&'static str> = SessionManager::new();
    let id = manager.create_session(1, 0, "localhost:5005".to_string(), seed());
    check(manager.get_session_by_id_mut(&id).unwrap());
}

#[test]
fn stop_ids_are_sequential_and_prefixed() {
    let mut state = SessionState::new();
    assert_eq!(state.next_stop_id("bp_"), "bp_1");
    assert_eq!(state.next_stop_id("exc_"), "exc_2");
    assert_eq!(state.next_stop_id("watch_modify_"), "watch_modify_3");
    assert_eq!(state.next_stop_id("bp_"), "bp_4", "ids must never be reused within a session");
}

#[test]
fn a_live_stop_point_of_every_kind_owns_its_request() {
    for kind in StopPointKind::LISTING_ORDER {
        let mut state = SessionState::new();
        state.register_stop_point(armed("sp_1", kind));
        assert!(
            state.owns_live_request(7),
            "{kind:?}: an armed stop point must own its live request. If it does not, \
             `was_traced_and_disarmed` matches on list membership alone and a hit already in flight is \
             resumed and dropped — a suspending stop point that silently never suspends"
        );
        assert!(!state.owns_live_request(8), "{kind:?}: and it must not claim a request it never held");
    }
}

#[test]
fn a_deferrals_class_prepare_counts_as_a_live_request() {
    let mut state = SessionState::new();
    state.pending_breakpoints.push(pending("bp_1", 99));
    assert!(state.owns_live_request(99), "the CLASS_PREPARE that will arm the real breakpoint is live");
    assert!(!state.owns_live_request(7), "and nothing else is");
}

#[test]
fn a_disarmed_traced_request_stops_matching_once_its_id_is_live_again() {
    let mut state = SessionState::new();
    state.note_disarmed_traced(7);
    assert!(
        state.was_traced_and_disarmed(7),
        "a disarmed traced request is recognised while its id is free"
    );

    state.register_stop_point(armed(
        "bp_1",
        StopPointKind::Line,
    ));
    assert!(
        !state.was_traced_and_disarmed(7),
        "once 7 belongs to a live stop point it must NOT read as disarmed-and-traced: the hit would be \
         resumed and dropped instead of surfaced"
    );
    assert!(
        state.disarmed_traced_requests.contains(&7),
        "and the entry goes inert rather than being purged"
    );
}

#[test]
fn a_resolved_deferral_moves_between_the_two_collections_in_one_step() {
    let mut state = SessionState::new();
    state.pending_breakpoints.push(pending("bp_1", 99));
    assert_eq!(state.pending_breakpoints.len() + state.stop_points.len(), 1);

    let now_armed = armed("bp_1", StopPointKind::Line);
    assert!(state.resolve_pending(now_armed), "the deferral was there, so it must report having removed it");

    assert!(state.pending_breakpoints.is_empty(), "the deferral is gone");
    assert!(state.stop_points.contains_key("bp_1"), "and the armed stop point kept the caller's id");
    assert_eq!(
        state.pending_breakpoints.len() + state.stop_points.len(),
        1,
        "one thing before and one thing after — a caller counting stop points never sees zero"
    );
}

#[test]
fn resolving_a_deferral_that_was_never_pending_says_so() {
    let mut state = SessionState::new();
    let now_armed = armed("bp_1", StopPointKind::Line);
    assert!(!state.resolve_pending(now_armed), "nothing was pending, and the caller is told");
    assert!(state.stop_points.contains_key("bp_1"), "the stop point is still registered");
}

#[test]
fn trace_disarm_notes_collapse_repeats_and_stay_bounded() {
    with_session(|session| {
        for _ in 0..500 {
            session.note_trace_disarm("watch_3 stopped recording".to_string());
        }
        assert_eq!(session.trace_disarms.len(), 1, "repeats must collapse, not accumulate");
        assert_eq!(
            session.trace_disarms.get("watch_3 stopped recording"),
            Some(&500),
            "the count is what carries the repetition"
        );
        assert_eq!(session.trace_disarms_dropped, 0);

        for i in 0..MAX_TRACE_DISARMS + 10 {
            session.note_trace_disarm(format!("bp_{i} stopped recording"));
        }
        assert_eq!(session.trace_disarms.len(), MAX_TRACE_DISARMS, "distinct notes must be capped");
        assert!(
            session.trace_disarms_dropped > 0,
            "overflow must be counted so a full buffer never reads as a quiet one"
        );
        assert_eq!(session.trace_disarms_dropped, 11);
    });
}

#[test]
fn disarmed_traced_ids_are_deduplicated_and_bounded() {
    let mut q = std::collections::VecDeque::new();

    for _ in 0..500 {
        remember_bounded(&mut q, 7, MAX_DISARMED_TRACED);
    }
    assert_eq!(q.len(), 1, "repeats must not accumulate");

    for i in 0..i32::try_from(MAX_DISARMED_TRACED).unwrap_or(i32::MAX) + 5 {
        remember_bounded(&mut q, 1000 + i, MAX_DISARMED_TRACED);
    }
    assert_eq!(q.len(), MAX_DISARMED_TRACED, "the list must stay bounded");
    assert!(!q.contains(&7), "the oldest entry must be the one evicted");
    let newest = 1000 + i32::try_from(MAX_DISARMED_TRACED).unwrap_or(i32::MAX) + 4;
    assert!(q.contains(&newest), "the newest disarm is the one most likely to have a hit in flight");

    let mut zero = std::collections::VecDeque::new();
    remember_bounded(&mut zero, 1, 0);
    assert!(zero.is_empty(), "cap 0 must store nothing rather than push after not evicting");
}

#[test]
fn an_untouched_trace_cost_reports_no_figures_at_all() {
    let cost = TraceCost::default();
    assert_eq!(cost.captures, 0);
    assert!(cost.mean_capture().is_none(), "no captures means no mean, not a zero mean");
    assert!(cost.observed_rate().is_none());
    assert!(cost.capture_share().is_none());
}

#[test]
fn one_capture_gives_a_cost_but_no_arrival_rate() {
    let mut cost = TraceCost::default();
    let t0 = Moment { nanos: 1_000_000 };
    cost.record(t0, Span::from_micros(800));
    assert_eq!(cost.mean_capture(), Some(Span::from_micros(800)));
    assert!(cost.observed_rate().is_none(), "one capture spans no interval");
    assert!(cost.capture_share().is_none());
}

#[test]
fn arrival_rate_and_capture_share_are_measured_over_the_observed_window() {
    let mut cost = TraceCost::default();
    for i in 0..10u64 {
        cost.record(Moment { nanos: 1_000 + i * 100_000_000 }, Span::from_millis(1));
    }
    assert_eq!(cost.captures, 10);
    assert_eq!(cost.mean_capture(), Some(Span::from_millis(1)));

    // 10 captures span NINE 100ms intervals: 900ms, not a full second.
    let observed = cost.observed_rate().expect("ten captures span nine intervals");
    let rate = observed.intervals as f64 / (observed.window.nanos as f64 / 1e9);
    assert!((rate - 10.0).abs() < 0.01, "expected 10/s, got {rate}");

    let figures = cost.capture_share().expect("both figures are present");
    let share = figures.rate.intervals as f64 / (figures.rate.window.nanos as f64 / 1e9)
        * (figures.mean.nanos as f64 / 1e9);
    assert!((share - 0.01).abs() < 0.0005, "expected ~1% of the window, got {share}");
}

#[test]
fn suspend_cause_distinguishes_a_stop_point_from_a_manual_pause() {
    assert_ne!(SuspendCause::ManualPause, SuspendCause::StopPoint(7));
    assert_eq!(SuspendCause::StopPoint(7), SuspendCause::StopPoint(7));
    assert_ne!(SuspendCause::StopPoint(7), SuspendCause::StopPoint(8));
}

#[test]
fn events_are_numbered_and_the_oldest_is_forgotten() {
    with_session(|session| {
        for i in 1..=MAX_EVENTS as u64 {
            assert_eq!(session.push_event("hit", None), i);
        }
        assert_eq!(session.events_dropped, 0);
        assert_eq!(session.push_event("one more", None), MAX_EVENTS as u64 + 1);
        assert_eq!(session.events.len(), MAX_EVENTS);
        assert_eq!(session.events_dropped, 1);
        assert_eq!(session.events.front().map(|e| e.seq), Some(2));
        assert_eq!(session.events.back().map(|e| e.set), Some("one more"));
    });
}

#[test]
fn a_watchdog_note_is_shown_until_something_newer_happens() {
    with_session(|session| {
        let seen = session.push_event("hit", None);
        session.note_watchdog("resumed after 5s".to_string());
        assert_eq!(session.watchdog_note_for(Some(seen)), Some("resumed after 5s"));
        let newer = session.push_event("hit", None);
        assert_eq!(session.watchdog_note_for(Some(newer)), None);
    });
}

#[test]
fn the_cause_of_a_suspension_goes_with_it() {
    with_session(|session| {
        session.mark_suspended(SuspendCause::StopPoint(4), Moment { nanos: 70 });
        assert_eq!(session.suspended_since, Some(Moment { nanos: 70 }));
        assert_eq!(session.suspended_cause, Some(SuspendCause::StopPoint(4)));
        session.mark_resumed();
        assert_eq!(session.suspended_since, None);
        assert_eq!(session.suspended_cause, None);
    });
}

#[test]
fn a_pump_that_ended_is_told_from_one_that_never_ran() {
    with_session(|session| {
        assert_eq!(session.event_pump(), EventPump::Unstarted);
        session.event_listener_task = Some(Task { number: 3, finished: false });
        assert_eq!(session.event_pump(), EventPump::Running);
        session.event_listener_task = Some(Task { number: 3, finished: true });
        assert_eq!(session.event_pump(), EventPump::Ended);
    });
}

#[test]
fn a_rethrow_takes_the_place_of_the_last_record_of_its_throw() {
    with_session(|session| {
        assert_eq!(session.classify_throw(1, 2, Some(3), 10), ThrowKind::First);
        match session.classify_throw(1, 2, Some(3), 11) {
            ThrowKind::Rethrow { fold, supersedes } => {
                assert_eq!(fold.first_seq, 10);
                assert_eq!(supersedes, None);
            }
            ThrowKind::First => panic!("the second sighting of a throw is no throw of its own"),
        }
        match session.classify_throw(1, 2, Some(3), 12) {
            ThrowKind::Rethrow { fold, supersedes } => {
                assert_eq!(fold.first_seq, 10);
                assert_eq!(supersedes, Some(11));
            }
            ThrowKind::First => panic!("nor is the third"),
        }
        for n in 0..MAX_RETHROW_CHAINS as u64 + 5 {
            assert_eq!(session.classify_throw(1, 2, Some(100 + n), 20 + n), ThrowKind::First);
        }
        assert_eq!(session.rethrow_chains.len(), MAX_RETHROW_CHAINS);
        assert_eq!(session.classify_throw(1, 2, None, 90), ThrowKind::First, "nothing to tell it by");
    });
}

#[test]
fn a_run_of_sightings_is_one_throw() {
    with_session(|session| {
        let seqs = [10, 14, 15, 21, 40, 41];
        for (k, seq) in seqs.into_iter().enumerate() {
            let kind = session.classify_throw(1, 2, Some(3), seq);
            if k == 0 {
                assert_eq!(kind, ThrowKind::First);
                assert_eq!(session.classify_throw(1, 9, Some(3), 11), ThrowKind::First, "another thread");
            } else {
                let fold = RethrowFold { collapsed: k as u32 - 1, first_seq: 10 };
                let supersedes = if k == 1 { None } else { Some(seqs[k - 1]) };
                assert_eq!(kind, ThrowKind::Rethrow { fold, supersedes });
                assert!(matches!(session.classify_throw(1, 9, Some(3), seq), ThrowKind::Rethrow { .. }));
                assert_eq!(session.classify_throw(1, 2, None, seq), ThrowKind::First);
            }
        }
        assert_eq!(session.rethrow_chains.len(), 2);
    });
}

#[test]
fn a_monitor_pair_closes_with_the_time_between() {
    with_session(|session| {
        let key = MonitorPairKey { thread: 1, monitor: 2, pair: MonitorPair::Contended };
        session.open_monitor_pair(key, Moment { nanos: 1_000 });
        assert_eq!(session.close_monitor_pair(&key, Moment { nanos: 1_250 }), Some(Span { nanos: 250 }));
        assert_eq!(session.close_monitor_pair(&key, Moment { nanos: 1_300 }), None, "it is closed");
        for n in 0..MAX_MONITOR_PENDING as u64 + 3 {
            let other = MonitorPairKey { thread: n, monitor: 2, pair: MonitorPair::Wait };
            session.open_monitor_pair(other, Moment { nanos: n });
        }
        assert_eq!(session.monitor_pending.len(), MAX_MONITOR_PENDING);
        assert_eq!(session.monitor_pending_dropped, 3);
    });
    with_session(|session| {
        let one = MonitorPairKey { thread: 1, monitor: 2, pair: MonitorPair::Contended };
        let two = MonitorPairKey { thread: 1, monitor: 2, pair: MonitorPair::Wait };
        session.open_monitor_pair(one, Moment { nanos: 10 });
        session.open_monitor_pair(two, Moment { nanos: 20 });
        assert_eq!(session.close_monitor_pair(&two, Moment { nanos: 50 }), Some(Span { nanos: 30 }));
        assert_eq!(session.close_monitor_pair(&one, Moment { nanos: 60 }), Some(Span { nanos: 50 }));
    });
    assert_eq!(MonitorPair::of(MonitorKind::Acquired), (MonitorPair::Contended, false));
    assert_eq!(MonitorPair::Wait.duration_label(), "waited_for");
}

#[test]
fn a_replaced_class_counts_its_replacements_and_forgets_a_pop() {
    with_session(|session| {
        session.note_redefinition("com.example.Order", Moment { nanos: 5 });
        session.note_pop("com.example.Order");
        assert!(session.redefinitions.get("com.example.Order").unwrap().popped_since);
        session.note_redefinition("com.example.Order", Moment { nanos: 9 });
        let now = session.redefinitions.get("com.example.Order").unwrap();
        assert_eq!(now.count, 2);
        assert_eq!(now.at, Moment { nanos: 9 });
        assert!(!now.popped_since, "the newest code has yet to run");
        session.note_pop("com.example.Other");
        assert_eq!(session.redefinitions.len(), 1);
    });
}

#[test]
fn the_newest_session_is_the_current_one() {
    let mut manager: SessionManager<&'static str> = SessionManager::new();
    assert!(manager.get_current_session().is_none());
    let first = manager.create_session(0x1234, 0, "localhost:5005".to_string(), seed());
    let second = manager.create_session(0x1234, 1, "localhost:8787".to_string(), seed());
    assert!(first.starts_with("session_"), "{first}");
    assert_ne!(first, second, "the running number tells sessions of one moment apart");
    assert_eq!(manager.get_current_session_id().as_deref(), Some(second.as_str()));
    assert_eq!(manager.get_current_session().map(|s| s.endpoint.as_str()), Some("localhost:8787"));

    assert_eq!(manager.make_current(&first).as_deref(), Some(second.as_str()));
    assert_eq!(manager.get_current_session_id().as_deref(), Some(first.as_str()));
    assert_eq!(manager.list().0.len(), 2);

    manager.get_session_by_id_mut(&first).unwrap().event_listener_task =
        Some(Task { number: 5, finished: false });
    let stopped = manager.remove_session(&first);
    assert_eq!(stopped, vec![Task { number: 5, finished: false }]);
    assert!(manager.get_session_by_id(&first).is_none());
    assert!(manager.get_session_by_id(&second).is_some());
}

#[test]
fn a_family_names_only_so_many_late_classes() {
    let mut family = PatternStopSet {
        id: "bpset_1".to_string(),
        class_pattern: "com.example.*".to_string(),
        watch: ClassLoadWatch::Watching(12),
        enabled: true,
        members: vec!["bp_1".to_string()],
        armed_later: Vec::new(),
        armed_later_total: 0,
        method: Some("save".to_string()),
        hit_count: None,
        instance_filter: None,
        thread_filter: None,
        condition: None,
        trace: false,
        trace_expr: Vec::new(),
        trace_budget: None,
        trace_frames: 0,
        trace_max_length: None,
        max_classes: 2,
        skipped_at_cap: 0,
        no_method: 0,
    };
    for i in 0..MAX_ARMED_LATER_SAMPLE + 4 {
        family.note_armed_later(&format!("com.example.C{i}"));
    }
    assert_eq!(family.armed_later.len(), MAX_ARMED_LATER_SAMPLE);
    assert_eq!(family.armed_later_total, MAX_ARMED_LATER_SAMPLE + 4);
    assert!(family.has_room());
    family.members.push("bp_2".to_string());
    assert!(!family.has_room());
    assert_eq!(family.watch.request_id(), Some(12));
    assert!(family.watch.is_watching());
    assert_eq!(ClassLoadWatch::Parked.request_id(), None);
}

#[test]
fn the_tail_of_the_output_is_its_last_lines() {
    let jvm = LaunchedJvm {
        pid: Some(4),
        command: "java Main".to_string(),
        output: ["a", "b", "c"].into_iter().map(str::to_string).collect(),
        detach_on_disconnect: false,
    };
    assert_eq!(jvm.tail(2), vec!["b".to_string(), "c".to_string()]);
    assert_eq!(jvm.tail(9).len(), 3);
}
