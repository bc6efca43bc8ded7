use scooper::budget::{ByteBudget, StartupError, Verdict};
use scooper::console::{
    flush_failure_notice, listen_address, log_failure_notice, overflow_notice, oversize_notice,
    receipt_notice, session_summary, shutdown_message, socket_failure_notice, startup_banner,
};
use scooper::record::encode_record;
use scooper::server::{graceful_shutdown, log_message, Event, HandlerPlan, Phase};

#[test]
fn budget_starts_at_the_size_on_disk() {
    let budget = ByteBudget::start(40, 100).unwrap();
    assert_eq!(budget.total(), 40);
    assert_eq!(budget.startup_size(), 40);
    assert_eq!(budget.max_size(), 100);
    assert_eq!(budget.written_this_session(), 0);
    assert!(!budget.exceeded());
}

#[test]
fn a_file_at_the_cap_is_accepted() {
    let budget = ByteBudget::start(100, 100).unwrap();
    assert_eq!(budget.total(), 100);
    assert!(!budget.exceeded());
}

#[test]
fn a_file_over_the_cap_is_refused() {
    let refused = ByteBudget::start(101, 100);
    assert_eq!(refused.err(), Some(StartupError::OverBudget { size: 101, max: 100 }));
    let phase = Phase::Starting.next(Event::Measured { startup_size: 101, max_size: 100 });
    assert_eq!(phase, Phase::Exited { code: 1 });
    assert_eq!(phase.exit_code(), Some(1));
    assert!(!phase.writes_records());
}

#[test]
fn total_is_startup_plus_the_sum_of_the_sizes() {
    let mut budget = ByteBudget::start(1000, 1_000_000).unwrap();
    let sizes = [1usize, 4096, 17, 300, 4096];
    for n in sizes {
        assert_eq!(budget.increment(n), Verdict::Within);
    }
    let sum: usize = sizes.iter().sum();
    assert_eq!(budget.total(), (1000 + sum) as u128);
    assert_eq!(budget.written_this_session(), sum as u128);
}

#[test]
fn total_does_not_depend_on_the_order() {
    let mut forward = ByteBudget::start(7, 10_000).unwrap();
    let mut backward = ByteBudget::start(7, 10_000).unwrap();
    let sizes = [4096usize, 1, 512, 33, 2048];
    for n in sizes {
        forward.increment(n);
    }
    for n in sizes.iter().rev() {
        backward.increment(*n);
    }
    assert_eq!(forward.total(), 6697);
    assert_eq!(backward.total(), 6697);
}

#[test]
fn reaching_the_cap_exactly_is_within() {
    let mut budget = ByteBudget::start(0, 100).unwrap();
    assert_eq!(budget.increment(100), Verdict::Within);
    assert!(!budget.exceeded());
    assert_eq!(budget.increment(1), Verdict::Exceeded);
    assert_eq!(budget.total(), 101);
}

#[test]
fn overflow_is_detected_after_the_write() {
    let mut log: Vec<u8> = Vec::new();
    let mut budget = ByteBudget::start(0, 100).unwrap();
    let mut phase = Phase::Starting.next(Event::Measured { startup_size: 0, max_size: 100 });
    assert_eq!(phase, Phase::Listening);

    let a = vec![b'a'; 60];
    let record_a = match log_message(10, "10.0.0.1:1000", Some(&a)) {
        HandlerPlan::Append { record, length } => {
            assert_eq!(length, 60);
            record
        }
        HandlerPlan::FlushOnly => panic!("a message was received"),
    };
    log.extend_from_slice(&record_a);
    let verdict = budget.increment(60);
    assert_eq!(verdict, Verdict::Within);
    assert_eq!(verdict.exit_code(), None);
    phase = phase.next(Event::Counted { verdict });
    assert_eq!(phase, Phase::Listening);
    assert_eq!(budget.total(), 60);

    let b = vec![b'b'; 50];
    let record_b = match log_message(11, "10.0.0.2:2000", Some(&b)) {
        HandlerPlan::Append { record, length } => {
            assert_eq!(length, 50);
            record
        }
        HandlerPlan::FlushOnly => panic!("a message was received"),
    };
    log.extend_from_slice(&record_b);
    let verdict = budget.increment(50);
    assert_eq!(verdict, Verdict::Exceeded);
    assert_eq!(verdict.exit_code(), Some(1));
    phase = phase.next(Event::Counted { verdict });
    assert_eq!(phase, Phase::Exited { code: 1 });
    assert_eq!(budget.total(), 110);
    assert!(budget.exceeded());

    let mut expected = encode_record(10, "10.0.0.1:1000", &a);
    expected.extend_from_slice(&encode_record(11, "10.0.0.2:2000", &b));
    assert_eq!(log, expected);
}

#[test]
fn nothing_is_counted_once_the_cap_is_passed() {
    let mut budget = ByteBudget::start(90, 100).unwrap();
    assert_eq!(budget.increment(20), Verdict::Exceeded);
    assert_eq!(budget.total(), 110);
    assert_eq!(budget.increment(5), Verdict::Exceeded);
    assert_eq!(budget.increment(0), Verdict::Exceeded);
    assert_eq!(budget.total(), 110);
    assert_eq!(budget.written_this_session(), 20);
}

#[test]
fn the_cap_may_be_the_largest_size() {
    let mut budget = ByteBudget::start(usize::MAX - 1, usize::MAX).unwrap();
    assert_eq!(budget.increment(1), Verdict::Within);
    assert_eq!(budget.increment(usize::MAX), Verdict::Exceeded);
    assert_eq!(budget.total(), usize::MAX as u128 * 2);
}

#[test]
fn an_empty_connection_leaves_the_server_listening() {
    let phase = Phase::Starting.next(Event::Measured { startup_size: 0, max_size: 100 });
    let budget = ByteBudget::start(0, 100).unwrap();
    assert!(matches!(log_message(1, "10.0.0.3:3000", Some(&[])), HandlerPlan::FlushOnly));
    assert_eq!(phase, Phase::Listening);
    assert!(phase.writes_records());
    assert_eq!(phase.exit_code(), None);
    assert_eq!(budget.total(), 0);
}

#[test]
fn phases_follow_the_events() {
    let listening = Phase::Listening;
    assert_eq!(Phase::Starting.next(Event::Reported), Phase::Starting);
    assert_eq!(Phase::Starting.next(Event::Interrupt { delivered: true }), Phase::Starting);
    assert!(!Phase::Starting.writes_records());
    assert_eq!(
        listening.next(Event::Interrupt { delivered: true }),
        Phase::ShuttingDown { code: 0 }
    );
    assert_eq!(
        listening.next(Event::Interrupt { delivered: false }),
        Phase::ShuttingDown { code: 1 }
    );
    assert_eq!(listening.next(Event::Reported), Phase::Listening);
    assert_eq!(
        listening.next(Event::Measured { startup_size: 5, max_size: 1 }),
        Phase::Listening
    );
    let closing = Phase::ShuttingDown { code: 0 };
    assert!(closing.writes_records());
    assert_eq!(closing.next(Event::Reported), Phase::Exited { code: 0 });
    assert_eq!(closing.next(Event::Counted { verdict: Verdict::Within }), closing);
    assert_eq!(
        closing.next(Event::Counted { verdict: Verdict::Exceeded }),
        Phase::Exited { code: 1 }
    );
    assert_eq!(closing.next(Event::Interrupt { delivered: false }), closing);
    assert_eq!(
        (Phase::ShuttingDown { code: 1 }).next(Event::Reported),
        Phase::Exited { code: 1 }
    );
}

#[test]
fn nothing_leads_out_of_an_exit() {
    let ended = Phase::Exited { code: 1 };
    for event in [
        Event::Measured { startup_size: 0, max_size: 10 },
        Event::Counted { verdict: Verdict::Within },
        Event::Counted { verdict: Verdict::Exceeded },
        Event::Interrupt { delivered: true },
        Event::Reported,
    ] {
        assert_eq!(ended.next(event), ended);
    }
    assert!(!ended.writes_records());
    assert_eq!((Phase::Exited { code: 0 }).exit_code(), Some(0));
}

#[test]
fn shutdown_reports_totals() {
    let mut budget = ByteBudget::start(2048, 1 << 30).unwrap();
    budget.increment(1024);
    let report = graceful_shutdown(None, &budget);
    assert_eq!(report.message, "Ctrl+C received, shutting down server...");
    assert_eq!(report.summary, "Total log size: 3.00 KB | Written in this session: 1.00 KB");
    assert_eq!(report.exit_code, 0);
    assert_eq!(session_summary(&budget), report.summary);
}

#[test]
fn a_failed_wait_for_the_interrupt_exits_with_one() {
    let budget = ByteBudget::start(0, 10).unwrap();
    let report = graceful_shutdown(Some("no handler"), &budget);
    assert_eq!(report.message, "Failed to listen for Ctrl+C: no handler");
    assert_eq!(report.summary, "Total log size: 0 B | Written in this session: 0 B");
    assert_eq!(report.exit_code, 1);
    assert_eq!(shutdown_message(Some("x")), "Failed to listen for Ctrl+C: x");
    assert_eq!(shutdown_message(None), "Ctrl+C received, shutting down server...");
}

#[test]
fn console_lines() {
    assert_eq!(listen_address(8001), "0.0.0.0:8001");
    assert_eq!(listen_address(0), "0.0.0.0:0");
    assert_eq!(
        startup_banner("0.0.0.0:8001", "messages.log", 52428800),
        "Server listening on port 0.0.0.0:8001 and writing to messages.log (max file size: 50.00 MB)"
    );
    assert_eq!(oversize_notice(100), "File size exceeds the limit of 100 bytes | Exiting...");
    assert_eq!(overflow_notice(2048), "File size exceeds the limit of 2.00 KB | Exiting...");
    assert_eq!(receipt_notice(60, "10.0.0.1:1000"), "Received 60 B from 10.0.0.1:1000");
    assert_eq!(receipt_notice(4096, "[::1]:9"), "Received 4.00 KB from [::1]:9");
}

#[test]
fn failure_lines() {
    assert_eq!(
        log_failure_notice("10.0.0.1:1000", "broken pipe"),
        "Failed to log message from 10.0.0.1:1000: broken pipe"
    );
    assert_eq!(
        socket_failure_notice("10.0.0.1:1000", "not connected"),
        "Failed to shutdown client socket 10.0.0.1:1000: not connected"
    );
    assert_eq!(flush_failure_notice("disk full"), "Failed to flush log file: disk full");
}
