use login_watch::login::monitor::{
    classify_wait, compute_wait_timeout, get_timeout, plan_batch, registration_mask,
    setup_multiplexer, usec_of_parts, wait_step, Category, InitError, Monitor, TeardownAction,
    WaitStep, WatchAction, EPOLLET_MASK, EPOLLIN_MASK, INTERRUPTED_ERRNO, NO_DEADLINE,
};
use login_watch::{to_result, OsError};

#[test]
fn to_result_passes_non_negative_values_through() {
    assert_eq!(to_result(0), Ok(0));
    assert_eq!(to_result(7), Ok(7));
}

#[test]
fn to_result_maps_negative_values_to_errno() {
    assert_eq!(to_result(-22), Err(OsError { errno: 22 }));
    assert_eq!(to_result(-1), Err(OsError { errno: 1 }));
}

#[test]
fn category_keywords() {
    assert_eq!(Category::All.as_str(), None);
    assert_eq!(Category::Seats.as_str(), Some("seat"));
    assert_eq!(Category::Sessions.as_str(), Some("session"));
    assert_eq!(Category::Uids.as_str(), Some("uid"));
    assert_eq!(Category::Machines.as_str(), Some("machine"));
}

#[test]
fn no_deadline_sentinel_waits_indefinitely() {
    assert_eq!(compute_wait_timeout(NO_DEADLINE, 0), -1);
    assert_eq!(compute_wait_timeout(NO_DEADLINE, 123_456_789), -1);
    assert_eq!(compute_wait_timeout(u64::MAX, u64::MAX - 1), -1);
}

#[test]
fn future_deadline_rounds_up_to_milliseconds() {
    // 500,000 microseconds ahead of a clock reading zero: 500 milliseconds.
    assert_eq!(compute_wait_timeout(500_000, 0), 500);
    assert_eq!(compute_wait_timeout(1_500, 0), 2);
    assert_eq!(compute_wait_timeout(1_000, 0), 1);
    assert_eq!(compute_wait_timeout(1, 0), 1);
    assert_eq!(compute_wait_timeout(2_000_500, 2_000_000), 1);
}

#[test]
fn past_deadline_polls_immediately() {
    assert_eq!(compute_wait_timeout(100, 200), 0);
    assert_eq!(compute_wait_timeout(100, 100), 0);
    assert_eq!(compute_wait_timeout(0, 0), 0);
}

#[test]
fn far_deadline_is_clamped() {
    assert_eq!(compute_wait_timeout(u64::MAX - 1, 0), i32::MAX);
}

#[test]
fn get_timeout_honours_the_sentinel() {
    assert_eq!(get_timeout(NO_DEADLINE), Ok(-1));
}

#[test]
fn get_timeout_on_a_past_deadline_is_zero() {
    // The monotonic clock reads at least zero, so a deadline of zero has
    // always passed.
    assert_eq!(get_timeout(0), Ok(0));
}

#[test]
fn registration_mask_adds_edge_triggered_interest() {
    assert_eq!(registration_mask(EPOLLIN_MASK), EPOLLIN_MASK | EPOLLET_MASK);
    assert_eq!(registration_mask(0), EPOLLET_MASK);
}

const CANCEL: u64 = 10;
const DIR: u64 = 20;

#[test]
fn directory_readiness_plans_one_callback_then_one_flush() {
    let plan = plan_batch(&vec![DIR], CANCEL, DIR);
    assert_eq!(
        plan,
        vec![WatchAction::InvokeCallback, WatchAction::FlushDirectory]
    );
}

#[test]
fn cancellation_alone_plans_exit_then_release() {
    let plan = plan_batch(&vec![CANCEL], CANCEL, DIR);
    assert_eq!(
        plan,
        vec![WatchAction::ExitLoop, WatchAction::ReleaseDirectory]
    );
}

#[test]
fn cancellation_stops_the_scan_of_later_events() {
    let plan = plan_batch(&vec![DIR, CANCEL, DIR], CANCEL, DIR);
    assert_eq!(
        plan,
        vec![
            WatchAction::InvokeCallback,
            WatchAction::FlushDirectory,
            WatchAction::ExitLoop,
            WatchAction::ReleaseDirectory,
        ]
    );
    let plan = plan_batch(&vec![CANCEL, DIR], CANCEL, DIR);
    assert_eq!(
        plan,
        vec![WatchAction::ExitLoop, WatchAction::ReleaseDirectory]
    );
}

#[test]
fn unknown_tags_and_empty_batches_plan_nothing() {
    assert_eq!(plan_batch(&vec![], CANCEL, DIR), vec![]);
    assert_eq!(plan_batch(&vec![99], CANCEL, DIR), vec![]);
}

#[test]
fn each_directory_event_gets_its_own_callback_and_flush() {
    let plan = plan_batch(&vec![DIR, DIR], CANCEL, DIR);
    assert_eq!(
        plan,
        vec![
            WatchAction::InvokeCallback,
            WatchAction::FlushDirectory,
            WatchAction::InvokeCallback,
            WatchAction::FlushDirectory,
        ]
    );
}

#[test]
fn init_hands_out_the_cancellation_descriptor_and_selector() {
    let mut m = Monitor::new(3, 4);
    let ws = m.init(Category::Sessions).unwrap();
    assert_eq!(ws.cancel_fd, 3);
    assert_eq!(ws.selector, Some("session"));
}

#[test]
fn init_with_all_selects_no_filter() {
    let mut m = Monitor::new(5, 6);
    let ws = m.init(Category::All).unwrap();
    assert_eq!(ws.selector, None);
}

#[test]
fn a_second_init_is_refused() {
    let mut m = Monitor::new(3, 4);
    assert!(m.init(Category::Seats).is_ok());
    assert_eq!(m.init(Category::Seats), Err(InitError::AlreadyStarted));
}

#[test]
fn teardown_after_start_signals_joins_then_closes() {
    let mut m = Monitor::new(3, 4);
    m.init(Category::Uids).unwrap();
    assert_eq!(
        m.teardown_plan(),
        vec![
            TeardownAction::SignalCancel(4),
            TeardownAction::JoinLoop,
            TeardownAction::CloseFd(3),
            TeardownAction::CloseFd(4),
        ]
    );
}

#[test]
fn teardown_without_start_only_closes_each_descriptor_once() {
    let m = Monitor::new(3, 4);
    assert_eq!(
        m.teardown_plan(),
        vec![TeardownAction::CloseFd(3), TeardownAction::CloseFd(4)]
    );
}

#[test]
fn two_notifications_then_discard_invokes_the_callback_twice() {
    let mut m = Monitor::new(3, 4);
    let ws = m.init(Category::Sessions).unwrap();
    let cancel_tag = ws.cancel_fd as u64;
    let dir_tag = 20u64;

    let mut counter = 0u32;
    let mut flushes = 0u32;
    for batch in [vec![dir_tag], vec![dir_tag]] {
        for action in plan_batch(&batch, cancel_tag, dir_tag) {
            match action {
                WatchAction::InvokeCallback => counter += 1,
                WatchAction::FlushDirectory => flushes += 1,
                WatchAction::ExitLoop | WatchAction::ReleaseDirectory => unreachable!(),
            }
        }
    }
    assert_eq!(counter, 2);
    assert_eq!(flushes, 2);

    let plan = m.teardown_plan();
    assert_eq!(plan[0], TeardownAction::SignalCancel(4));
    assert_eq!(plan[1], TeardownAction::JoinLoop);

    let wake = plan_batch(&vec![cancel_tag], cancel_tag, dir_tag);
    assert_eq!(
        wake,
        vec![WatchAction::ExitLoop, WatchAction::ReleaseDirectory]
    );
}

// The writability event bit of the multiplexer, used so that a standard
// output descriptor, which is essentially always writable, can stand in for
// a ready directory descriptor.
const WRITABLE_MASK: u32 = 4;

#[test]
fn a_ready_descriptor_is_reported_under_its_tag() {
    // Standard error (the stand-in directory descriptor, registered for
    // writability) is ready at once; standard output (the stand-in
    // cancellation descriptor, registered for readability) is not.
    let ep_fd = setup_multiplexer(1, 2, WRITABLE_MASK).unwrap();
    assert!(ep_fd >= 0);
    match wait_step(ep_fd, 1000) {
        WaitStep::Ready(tags) => {
            assert_eq!(tags, vec![2]);
            let plan = plan_batch(&tags, 1, 2);
            assert_eq!(
                plan,
                vec![WatchAction::InvokeCallback, WatchAction::FlushDirectory]
            );
        }
        other => panic!("expected a ready report, got {:?}", other),
    }
}

#[test]
fn a_wait_with_nothing_ready_reports_no_tags() {
    // Both stand-ins are registered for readability; neither write end of
    // the harness's pipes is readable, so the wait times out empty.
    let ep_fd = setup_multiplexer(1, 2, EPOLLIN_MASK).unwrap();
    match wait_step(ep_fd, 50) {
        WaitStep::Ready(tags) => assert_eq!(tags, Vec::<u64>::new()),
        other => panic!("expected an empty ready report, got {:?}", other),
    }
}

#[test]
fn registering_one_descriptor_twice_is_an_error() {
    assert!(setup_multiplexer(1, 1, EPOLLIN_MASK).is_err());
}

#[test]
fn microseconds_of_a_monotonic_reading() {
    assert_eq!(usec_of_parts(0, 0), 0);
    assert_eq!(usec_of_parts(1, 500), 1_000_000);
    assert_eq!(usec_of_parts(2, 1_500), 2_000_001);
    assert_eq!(usec_of_parts(-5, 0), 0);
    assert_eq!(usec_of_parts(i64::MAX, 999_999_999), u64::MAX);
}

#[test]
fn waiting_on_an_invalid_multiplexer_fails_with_the_os_error() {
    // A negative descriptor is refused by the multiplexer with "bad file
    // descriptor", which is not the interrupted-wait code.
    match wait_step(-1, 0) {
        WaitStep::Fail(e) => assert_eq!(e.errno, 9),
        other => panic!("expected a failure, got {:?}", other),
    }
}

#[test]
fn a_ready_outcome_is_dispatched_as_it_is() {
    assert_eq!(
        classify_wait(Ok(vec![7, 8])),
        WaitStep::Ready(vec![7, 8])
    );
    assert_eq!(classify_wait(Ok(vec![])), WaitStep::Ready(vec![]));
}

#[test]
fn an_interrupted_wait_is_retried_not_surfaced() {
    assert_eq!(
        classify_wait(Err(INTERRUPTED_ERRNO)),
        WaitStep::RetrySameTimeout
    );
}

#[test]
fn any_other_wait_failure_is_surfaced_as_fatal() {
    assert_eq!(classify_wait(Err(9)), WaitStep::Fail(OsError { errno: 9 }));
    assert_eq!(classify_wait(Err(22)), WaitStep::Fail(OsError { errno: 22 }));
}
