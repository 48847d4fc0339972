use telemetry_agent::backoff::apply_outcome;
use telemetry_agent::backoff::classify_status;
use telemetry_agent::backoff::BackoffState;
use telemetry_agent::backoff::CycleOutcome;
use telemetry_agent::record::build_record;
use telemetry_agent::record::plan_cycle;
use telemetry_agent::record::CyclePlan;
use telemetry_agent::signals::collect;
use telemetry_agent::signals::CollectionError;
use telemetry_agent::signals::SignalSource;

#[test]
fn repeated_failures_walk_the_backoff_sequence() {
    let expected_waits: [u64; 9] = [1, 2, 4, 8, 16, 32, 60, 60, 60];
    let mut state = BackoffState::new();
    for expected in expected_waits.iter() {
        let d = apply_outcome(&state, CycleOutcome::TransportFailure);
        assert_eq!(d.wait_secs, *expected);
        assert!(d.next.current_delay_secs <= 60);
        state = d.next;
    }
}

#[test]
fn server_rejection_escalates_like_transport_failure() {
    let mut rejected = BackoffState::new();
    let mut failed = BackoffState::new();
    for _ in 0..10 {
        let dr = apply_outcome(&rejected, CycleOutcome::RejectedByServer(500));
        let df = apply_outcome(&failed, CycleOutcome::TransportFailure);
        assert_eq!(dr.wait_secs, df.wait_secs);
        assert_eq!(dr.next.current_delay_secs, df.next.current_delay_secs);
        rejected = dr.next;
        failed = df.next;
    }
}

#[test]
fn success_resets_delay_after_any_failure_run() {
    for failures in 0..12 {
        let mut state = BackoffState::new();
        for _ in 0..failures {
            state = apply_outcome(&state, CycleOutcome::TransportFailure).next;
        }
        let d = apply_outcome(&state, CycleOutcome::TransmitSuccess);
        assert_eq!(d.next.current_delay_secs, 1);
    }
}

#[test]
fn success_waits_the_fixed_heartbeat() {
    for delay in [1u64, 2, 16, 60] {
        let state = BackoffState { current_delay_secs: delay };
        let d = apply_outcome(&state, CycleOutcome::TransmitSuccess);
        assert_eq!(d.wait_secs, 5);
    }
}

#[test]
fn collection_failure_leaves_backoff_untouched() {
    for delay in [1u64, 8, 60] {
        let state = BackoffState { current_delay_secs: delay };
        let d = apply_outcome(&state, CycleOutcome::CollectionFailed);
        assert_eq!(d.next.current_delay_secs, delay);
        assert_eq!(d.wait_secs, 5);
    }
}

#[test]
fn collection_failure_never_reaches_the_transmitter() {
    let err = CollectionError::Malformed(SignalSource::LoadAvg);
    let plan = plan_cycle("node-1".to_string(), Err(err));
    match plan {
        CyclePlan::SkipCollection(e) => assert_eq!(e, err),
        CyclePlan::Send(_) => panic!("a failed collection must never be sent"),
    }
}

#[test]
fn statuses_in_the_2xx_range_are_success() {
    for status in [200u16, 204, 250, 299] {
        assert_eq!(classify_status(status), CycleOutcome::TransmitSuccess);
    }
}

#[test]
fn statuses_outside_the_2xx_range_are_rejections() {
    for status in [100u16, 199, 300, 404, 500] {
        assert_eq!(classify_status(status), CycleOutcome::RejectedByServer(status));
    }
}

#[test]
fn build_record_copies_every_field() {
    let signals = collect(
        b"Node 0, zone Normal 100 50 20 10 5 2 1 0 0 1 2\n",
        b"procs_blocked 7\n",
        b"nr_dirty 10\n",
        b"0.42 0.38 0.31 2/345 6789\n",
    )
    .unwrap();
    let rec = build_record("node-xyz".to_string(), "2024-05-01T00:00:00+00:00".to_string(), signals);
    assert_eq!(rec.meta.node_id, "node-xyz");
    assert_eq!(rec.meta.timestamp_utc, "2024-05-01T00:00:00+00:00");
    assert_eq!(rec.meta.kernel_version, "5.15.0-generic");
    assert_eq!(rec.memory.mem_frag.huge_free_pages, 2560);
    assert_eq!(rec.memory.mem_frag.total_free_pages, 3128);
    assert_eq!(rec.memory.oom_kill_count, 0);
    assert_eq!(rec.scheduler.load_avg_1m_centi, 42);
    assert_eq!(rec.scheduler.procs_blocked, 7);
    assert_eq!(rec.io.dirty_pages_bytes, 40960);
}

#[test]
fn planned_send_is_stamped() {
    let signals = collect(b"", b"procs_blocked 2\n", b"nr_dirty 1\n", b"0.10").unwrap();
    let plan = plan_cycle("node-abc".to_string(), Ok(signals));
    match plan {
        CyclePlan::Send(rec) => {
            assert_eq!(rec.meta.node_id, "node-abc");
            assert!(!rec.meta.timestamp_utc.is_empty());
            assert_eq!(rec.meta.kernel_version, "5.15.0-generic");
            assert_eq!(rec.scheduler.procs_blocked, 2);
            assert_eq!(rec.io.dirty_pages_bytes, 4096);
            assert_eq!(rec.scheduler.load_avg_1m_centi, 10);
        },
        CyclePlan::SkipCollection(_) => panic!("a successful collection must be sent"),
    }
}
