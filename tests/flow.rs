use stream_worker::clock::{epoch_millis_to_u64, now_ms};
use stream_worker::dispatch::{completion_from, Action, Dispatch, Event, Failure, Outcome, RunnerStatus, Stage};
use stream_worker::value::{decode_response, BrokerValue, StreamEntry};
use stream_worker::worker::{ends_batch, iteration_sleep_ms, reconnect_delay, Worker};

fn job_entry(id: &str, fields: &[(&[u8], &[u8])]) -> StreamEntry {
    StreamEntry {
        id: id.as_bytes().to_vec(),
        fields: fields.iter().map(|(k, v)| (k.to_vec(), v.to_vec())).collect(),
    }
}

fn url(s: &str) -> Event {
    Event::ResultUrlRead(Some(s.to_string()))
}

/// Runs the events in order and returns the actions asked for.
fn drive(d: &mut Dispatch, events: Vec<Event>) -> Vec<Action> {
    events.into_iter().map(|e| d.step(e)).collect()
}

fn text(d: &Dispatch) -> String {
    String::from_utf8(d.failure_message().unwrap()).unwrap()
}

#[test]
fn fresh_start_new_only() {
    let mut w = Worker::new(None, b"$".to_vec(), 80, 600);
    let v = BrokerValue::Array(vec![BrokerValue::Array(vec![
        BrokerValue::Bytes(b"videogen:jobs".to_vec()),
        BrokerValue::Array(vec![BrokerValue::Array(vec![
            BrokerValue::Bytes(b"1700000000000-0".to_vec()),
            BrokerValue::Array(vec![
                BrokerValue::Bytes(b"id".to_vec()),
                BrokerValue::Bytes(b"jobA".to_vec()),
            ]),
        ])]),
    ])]);
    let mut entries = decode_response(&v);
    let mut d = w.begin(entries.remove(0)).unwrap();
    assert_eq!(d.jid.as_deref(), Some("jobA"));
    let actions = drive(
        &mut d,
        vec![
            Event::Begin,
            Event::CompletedChecked(Some(false)),
            Event::ProcessingMarked(true),
            Event::Written,
            Event::ResultUrlRead(None),
            Event::Spawned(true),
            Event::Polled(RunnerStatus::Running { elapsed_ms: 100 }),
            Event::Woke,
            Event::Polled(RunnerStatus::Exited { success: true, code: Some(0) }),
            url("s3://x"),
            Event::Written,
            Event::Written,
        ],
    );
    assert_eq!(
        actions,
        vec![
            Action::CheckCompleted,
            Action::MarkProcessing,
            Action::SetJobProcessing,
            Action::ReadResultUrl,
            Action::SpawnRunner,
            Action::PollRunner,
            Action::Sleep(100),
            Action::PollRunner,
            Action::ReadResultUrl,
            Action::MarkCompleted,
            Action::SetJobCompleted,
            Action::Finish(Outcome::Completed),
        ]
    );
    assert!(d.completion_marked);
    assert!(w.settle(&d));
    assert_eq!(w.cursor, b"1700000000000-0".to_vec());
}

#[test]
fn crash_after_success_replay_skips() {
    let mut w = Worker::new(Some(b"0-0".to_vec()), b"$".to_vec(), 80, 600);
    let mut d = w.begin(job_entry("1700000000000-0", &[(b"id", b"jobA")])).unwrap();
    let actions = drive(&mut d, vec![Event::Begin, Event::CompletedChecked(Some(true))]);
    assert_eq!(actions, vec![Action::CheckCompleted, Action::Finish(Outcome::Skipped)]);
    assert!(!d.spawned);
    assert!(w.settle(&d));
    assert_eq!(w.cursor, b"1700000000000-0".to_vec());
}

#[test]
fn replays_of_completed_entry_never_spawn() {
    let w = Worker::new(None, b"0-0".to_vec(), 80, 600);
    for _ in 0..5 {
        let mut d = w.begin(job_entry("9-0", &[(b"id", b"jobR")])).unwrap();
        let actions = drive(&mut d, vec![Event::Begin, Event::CompletedChecked(Some(true))]);
        assert_eq!(actions, vec![Action::CheckCompleted, Action::Finish(Outcome::Skipped)]);
        assert!(!d.spawned);
    }
}

#[test]
fn child_timeout_fails_without_advancing() {
    let mut w = Worker::new(Some(b"1-0".to_vec()), b"$".to_vec(), 80, 600);
    let mut d = w.begin(job_entry("1700000000000-0", &[(b"id", b"jobB")])).unwrap();
    let actions = drive(
        &mut d,
        vec![
            Event::Begin,
            Event::CompletedChecked(Some(false)),
            Event::ProcessingMarked(true),
            Event::Written,
            Event::ResultUrlRead(Some(String::new())),
            Event::Spawned(true),
            Event::Polled(RunnerStatus::Running { elapsed_ms: 599_999 }),
            Event::Woke,
            Event::Polled(RunnerStatus::Running { elapsed_ms: 600_000 }),
            Event::Killed,
        ],
    );
    assert_eq!(actions[4], Action::SpawnRunner);
    assert_eq!(actions[6], Action::Sleep(100));
    assert_eq!(actions[8], Action::KillRunner);
    assert_eq!(actions[9], Action::RecordFailure);
    assert_eq!(text(&d), "python runner timeout after 600s");
    assert_eq!(d.step(Event::Written), Action::Finish(Outcome::RunnerFailed));
    assert!(ends_batch(Outcome::RunnerFailed));
    assert!(!w.settle(&d));
    assert_eq!(w.cursor, b"1-0".to_vec());
    // The next iteration reads the same entry again and starts the runner anew.
    let mut again = w.begin(job_entry("1700000000000-0", &[(b"id", b"jobB")])).unwrap();
    let actions = drive(
        &mut again,
        vec![
            Event::Begin,
            Event::CompletedChecked(Some(false)),
            Event::ProcessingMarked(true),
            Event::Written,
            Event::ResultUrlRead(None),
        ],
    );
    assert_eq!(actions[4], Action::SpawnRunner);
}

#[test]
fn present_result_short_circuits() {
    let mut w = Worker::new(None, b"$".to_vec(), 80, 600);
    let mut d = w.begin(job_entry("1700000000100-0", &[(b"id", b"jobC")])).unwrap();
    let actions = drive(
        &mut d,
        vec![
            Event::Begin,
            Event::CompletedChecked(Some(false)),
            Event::ProcessingMarked(true),
            Event::Written,
            url("s3://y"),
            Event::Written,
            Event::Written,
        ],
    );
    assert!(!actions.contains(&Action::SpawnRunner));
    assert_eq!(actions[4], Action::MarkCompleted);
    assert_eq!(actions[6], Action::Finish(Outcome::Completed));
    assert!(!d.spawned);
    assert!(w.settle(&d));
    assert_eq!(w.cursor, b"1700000000100-0".to_vec());
}

#[test]
fn missing_jid_is_skipped_for_good() {
    let mut w = Worker::new(None, b"$".to_vec(), 80, 600);
    let mut d = w.begin(job_entry("1700000000500-0", &[])).unwrap();
    assert_eq!(d.step(Event::Begin), Action::Finish(Outcome::Malformed));
    assert!(!d.completion_marked);
    assert!(w.settle(&d));
    assert_eq!(w.cursor, b"1700000000500-0".to_vec());
}

#[test]
fn empty_jid_counts_as_missing() {
    let w = Worker::new(None, b"$".to_vec(), 80, 600);
    let mut d = w.begin(job_entry("3-0", &[(b"id", b"")])).unwrap();
    assert_eq!(d.step(Event::Begin), Action::Finish(Outcome::Malformed));
}

#[test]
fn unknown_fields_are_ignored() {
    let w = Worker::new(None, b"$".to_vec(), 80, 600);
    let mut d = w
        .begin(job_entry("4-0", &[(b"foo", b"bar"), (b"id", b"jobX"), (b"prompt", b"a cat")]))
        .unwrap();
    assert_eq!(d.jid.as_deref(), Some("jobX"));
    assert_eq!(d.step(Event::Begin), Action::CheckCompleted);
}

#[test]
fn last_id_field_wins() {
    let w = Worker::new(None, b"$".to_vec(), 80, 600);
    let d = w.begin(job_entry("4-1", &[(b"id", b"first"), (b"id", b"second")])).unwrap();
    assert_eq!(d.jid.as_deref(), Some("second"));
}

#[test]
fn invalid_utf8_jid_is_decoded_lossily() {
    let w = Worker::new(None, b"$".to_vec(), 80, 600);
    let mut d = w.begin(job_entry("4-2", &[(b"id", &[0x6a, 0x6f, 0xff])])).unwrap();
    assert_eq!(d.jid.as_deref(), Some("jo\u{FFFD}"));
    assert_eq!(d.step(Event::Begin), Action::CheckCompleted);
}

#[test]
fn processing_marker_failure_does_not_advance() {
    let mut w = Worker::new(Some(b"1-0".to_vec()), b"$".to_vec(), 80, 600);
    let mut d = w.begin(job_entry("2-0", &[(b"id", b"jobD")])).unwrap();
    let actions = drive(&mut d, vec![Event::Begin, Event::CompletedChecked(None), Event::ProcessingMarked(false)]);
    assert_eq!(actions[1], Action::MarkProcessing);
    assert_eq!(actions[2], Action::Finish(Outcome::NotMarked));
    assert!(d.failure_message().is_none());
    assert!(ends_batch(Outcome::NotMarked));
    assert!(!w.settle(&d));
    assert_eq!(w.cursor, b"1-0".to_vec());
}

#[test]
fn failure_texts() {
    let w = Worker::new(None, b"$".to_vec(), 80, 600);
    let start = |d: &mut Dispatch| {
        drive(
            d,
            vec![
                Event::Begin,
                Event::CompletedChecked(Some(false)),
                Event::ProcessingMarked(true),
                Event::Written,
                Event::ResultUrlRead(None),
            ],
        );
    };
    let mut d = w.begin(job_entry("5-0", &[(b"id", b"j")])).unwrap();
    start(&mut d);
    assert_eq!(d.step(Event::Spawned(false)), Action::RecordFailure);
    assert_eq!(text(&d), "failed to spawn python runner");

    let mut d = w.begin(job_entry("5-1", &[(b"id", b"j")])).unwrap();
    start(&mut d);
    d.step(Event::Spawned(true));
    let a = d.step(Event::Polled(RunnerStatus::Exited { success: false, code: Some(1) }));
    assert_eq!(a, Action::RecordFailure);
    assert_eq!(text(&d), "python runner failed with status Some(1)");

    let mut d = w.begin(job_entry("5-2", &[(b"id", b"j")])).unwrap();
    start(&mut d);
    d.step(Event::Spawned(true));
    d.step(Event::Polled(RunnerStatus::Exited { success: false, code: Some(-9) }));
    assert_eq!(text(&d), "python runner failed with status Some(-9)");

    let mut d = w.begin(job_entry("5-3", &[(b"id", b"j")])).unwrap();
    start(&mut d);
    d.step(Event::Spawned(true));
    d.step(Event::Polled(RunnerStatus::Exited { success: false, code: None }));
    assert_eq!(text(&d), "python runner failed with status None");

    let mut d = w.begin(job_entry("5-4", &[(b"id", b"j")])).unwrap();
    start(&mut d);
    d.step(Event::Spawned(true));
    let a = d.step(Event::Polled(RunnerStatus::WaitFailed(b"interrupted".to_vec())));
    assert_eq!(a, Action::KillRunner);
    assert_eq!(text(&d), "python runner wait error: interrupted");

    let mut d = w.begin(job_entry("5-5", &[(b"id", b"j")])).unwrap();
    start(&mut d);
    d.step(Event::Spawned(true));
    d.step(Event::Polled(RunnerStatus::Exited { success: true, code: Some(0) }));
    assert_eq!(d.step(Event::ResultUrlRead(Some(String::new()))), Action::RecordFailure);
    assert_eq!(text(&d), "runner produced no result");
    assert!(matches!(d.failure, Some(Failure::NoResult)));
}

#[test]
fn unexpected_event_repeats_the_awaited_action() {
    let w = Worker::new(None, b"$".to_vec(), 80, 600);
    let mut d = w.begin(job_entry("6-0", &[(b"id", b"j")])).unwrap();
    assert_eq!(d.step(Event::Begin), Action::CheckCompleted);
    assert_eq!(d.step(Event::Woke), Action::CheckCompleted);
    assert_eq!(d.stage, Stage::CheckingCompleted);
}

#[test]
fn stale_entries_are_not_handled() {
    let w = Worker::new(Some(b"1700000000000-5".to_vec()), b"$".to_vec(), 80, 600);
    assert!(w.begin(job_entry("1700000000000-5", &[(b"id", b"j")])).is_none());
    assert!(w.begin(job_entry("1699999999999-9", &[(b"id", b"j")])).is_none());
    assert!(w.begin(job_entry("garbage", &[(b"id", b"j")])).is_none());
    assert!(w.begin(job_entry("1700000000000-6", &[(b"id", b"j")])).is_some());
}

#[test]
fn cursor_only_moves_forward() {
    let mut w = Worker::new(None, b"$".to_vec(), 80, 600);
    let mut d = w.begin(job_entry("10-0", &[])).unwrap();
    d.step(Event::Begin);
    assert!(w.settle(&d));
    assert_eq!(w.cursor, b"10-0".to_vec());
    // A finished handling of an entry that is not after the cursor moves nothing.
    let mut older = Worker::new(None, b"$".to_vec(), 80, 600).begin(job_entry("9-0", &[])).unwrap();
    older.step(Event::Begin);
    assert!(!w.settle(&older));
    assert_eq!(w.cursor, b"10-0".to_vec());
}

#[test]
fn iteration_sleeps() {
    assert_eq!(iteration_sleep_ms(false, false, false), 10);
    assert_eq!(iteration_sleep_ms(true, false, false), 25);
    assert_eq!(iteration_sleep_ms(true, true, false), 0);
    assert_eq!(iteration_sleep_ms(true, true, true), 250);
    assert_eq!(iteration_sleep_ms(true, false, true), 275);
}

#[test]
fn empty_read_keeps_cursor() {
    let w = Worker::new(Some(b"3-3".to_vec()), b"$".to_vec(), 80, 600);
    assert!(decode_response(&BrokerValue::Nil).is_empty());
    assert_eq!(w.cursor, b"3-3".to_vec());
    assert_eq!(iteration_sleep_ms(false, false, false), 10);
}

#[test]
fn trim_cadence() {
    let mut w = Worker::new(None, b"$".to_vec(), 3, 600);
    let mut due = Vec::new();
    for _ in 0..7 {
        w.start_iteration();
        due.push(w.trim_due());
    }
    assert_eq!(due, vec![false, false, true, false, false, true, false]);
    let mut never = Worker::new(None, b"$".to_vec(), 0, 600);
    never.start_iteration();
    assert!(!never.trim_due());
}

#[test]
fn persisted_cursor_wins_over_start_id() {
    assert_eq!(Worker::new(Some(b"7-7".to_vec()), b"$".to_vec(), 80, 600).cursor, b"7-7".to_vec());
    assert_eq!(Worker::new(None, b"0-0".to_vec(), 80, 600).cursor, b"0-0".to_vec());
}

#[test]
fn reconnect_schedule() {
    let delays: Vec<Option<u64>> = (0..9).map(reconnect_delay).collect();
    assert_eq!(
        delays,
        vec![
            Some(200),
            Some(400),
            Some(800),
            Some(1600),
            Some(3200),
            Some(5000),
            Some(5000),
            Some(5000),
            None
        ]
    );
}

#[test]
fn clock_reads_after_2023() {
    assert!(now_ms() > 1_700_000_000_000);
}

#[test]
fn completion_check_reads_legacy_set_only_when_marker_absent() {
    assert_eq!(completion_from(Some(true), None), Some(true));
    assert_eq!(completion_from(Some(true), Some(false)), Some(true));
    assert_eq!(completion_from(Some(false), Some(true)), Some(true));
    assert_eq!(completion_from(Some(false), Some(false)), Some(false));
    assert_eq!(completion_from(Some(false), None), None);
    assert_eq!(completion_from(None, Some(true)), None);
}

#[test]
fn epoch_offset_to_millis() {
    assert_eq!(epoch_millis_to_u64(None), 0);
    assert_eq!(epoch_millis_to_u64(Some(1_700_000_000_123)), 1_700_000_000_123);
    assert_eq!(epoch_millis_to_u64(Some(u64::MAX as u128)), u64::MAX);
    assert_eq!(epoch_millis_to_u64(Some((1u128 << 64) + 5)), 5);
}
