use ai_news_pusher::engine::scheduler::{
    due_messages, fires_at, CronScheduler, Job, SchedulerMessage, Timestamp,
};
use std::str::FromStr;

#[test]
fn eight_o_clock_runs_everything() {
    assert_eq!(due_messages(8, 0), vec![SchedulerMessage::TriggerAll]);
}

#[test]
fn every_six_hours_collects() {
    for h in [0u32, 6, 12, 18] {
        assert_eq!(due_messages(h, 0), vec![SchedulerMessage::TriggerCollect]);
    }
}

#[test]
fn other_times_send_nothing() {
    for h in 0u32..24 {
        for m in 1u32..60 {
            assert!(due_messages(h, m).is_empty());
        }
    }
    for h in [1u32, 5, 7, 9, 13, 23] {
        assert!(due_messages(h, 0).is_empty());
    }
}

#[test]
fn messages_stand_for_jobs() {
    assert_eq!(SchedulerMessage::TriggerCollect.jobs(), vec![Job::Collect]);
    assert_eq!(SchedulerMessage::TriggerProcess.jobs(), vec![Job::Process]);
    assert_eq!(SchedulerMessage::TriggerPush.jobs(), vec![Job::Push]);
    assert_eq!(SchedulerMessage::TriggerAll.jobs(), vec![Job::Collect, Job::Process, Job::Push]);
}

#[test]
fn valid_cron_expressions_are_kept_with_their_action() {
    let s = CronScheduler::new("0 0 8 * * *", "collect").ok().unwrap();
    assert_eq!(s.action(), "collect");
}

#[test]
fn invalid_cron_expressions_are_refused_with_the_crate_text() {
    for expr in ["not a cron", "61 * * * * *", ""] {
        let expected = match cron::Schedule::from_str(expr) {
            Err(e) => format!("无效的 cron 表达式: {}", e),
            Ok(_) => panic!("{:?} should be invalid", expr),
        };
        match CronScheduler::new(expr, "push") {
            Err(msg) => assert_eq!(msg, expected),
            Ok(_) => panic!("{:?} should be refused", expr),
        }
    }
}

#[test]
fn firing_compares_with_the_next_time() {
    let now = Timestamp { secs: 1_700_000_000, nanos: 500 };
    assert!(fires_at(&now, Some(Timestamp { secs: 1_700_000_000, nanos: 500 })));
    assert!(fires_at(&now, Some(Timestamp { secs: 1_699_999_999, nanos: 999_999_999 })));
    assert!(!fires_at(&now, Some(Timestamp { secs: 1_700_000_000, nanos: 501 })));
    assert!(!fires_at(&now, Some(Timestamp { secs: 1_700_000_001, nanos: 0 })));
    assert!(!fires_at(&now, None));
}

#[test]
fn a_schedule_never_runs_before_its_next_firing() {
    // the next firing of a yearly schedule lies in the future, so a time in
    // the past never reaches it
    let s = CronScheduler::new("0 0 0 1 1 *", "all").ok().unwrap();
    assert!(!s.should_run(&Timestamp { secs: 0, nanos: 0 }));
    let far = Timestamp { secs: 4_102_444_800 * 10, nanos: 0 };
    assert!(s.should_run(&far));
    let every_second = CronScheduler::new("* * * * * *", "push").ok().unwrap();
    assert!(every_second.should_run(&far));
}
