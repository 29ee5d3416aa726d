use usbbench::config::BenchmarkConfig;
use usbbench::meter::{Action, Event, Meter, Notice, Pass, PhaseResult, Stage, PROGRESS_THRESHOLD};

fn meter_of(total: u64, block: u64, keep: bool) -> Meter {
    let config = BenchmarkConfig::new(total, block, String::from("/mnt/usb"), keep).unwrap();
    Meter::start(&config)
}

fn done(elapsed_nanos: u64) -> Event {
    Event::Completed { elapsed_nanos }
}

fn read(count: u64, elapsed_nanos: u64) -> Event {
    Event::Read { count, elapsed_nanos }
}

#[test]
fn first_action_opens_for_write() {
    let meter = meter_of(1_000_000, 100_000, false);
    assert_eq!(meter.stage(), Stage::OpenWrite);
    assert_eq!(meter.pending(), Action::OpenForWrite);
    assert_eq!(meter.results(), None);
}

#[test]
fn million_bytes_in_ten_chunks() {
    let mut meter = meter_of(1_000_000, 100_000, false);
    let mut action = meter.step(done(0)).0;
    let mut chunks = 0u64;
    let mut written = 0u64;
    while let Action::Write { len } = action {
        assert_eq!(len, 100_000);
        chunks += 1;
        written += len;
        let (next, notice) = meter.step(done(chunks * 1000));
        assert_eq!(
            notice,
            Notice::Progress { pass: Pass::Write, done: written, elapsed_nanos: chunks * 1000 }
        );
        action = next;
    }
    assert_eq!(chunks, 10);
    assert_eq!(written, 1_000_000);
    assert_eq!(action, Action::Sync);
    assert_eq!(meter.step(done(20_000)), (Action::OpenForRead, Notice::PassEnd));
    assert_eq!(meter.step(done(0)), (Action::Read { max_len: 100_000 }, Notice::Silent));
    let mut total_read = 0u64;
    for i in 1..=10u64 {
        total_read += 100_000;
        assert_eq!(
            meter.step(read(100_000, i * 500)),
            (
                Action::Read { max_len: 100_000 },
                Notice::Progress { pass: Pass::Read, done: total_read, elapsed_nanos: i * 500 }
            )
        );
        assert_eq!(meter.results(), None);
    }
    assert_eq!(meter.step(read(0, 6000)), (Action::Report, Notice::PassEnd));
    assert_eq!(
        meter.results(),
        Some((
            PhaseResult { bytes_transferred: 1_000_000, elapsed_nanos: 20_000 },
            PhaseResult { bytes_transferred: 1_000_000, elapsed_nanos: 6000 },
        ))
    );
    assert_eq!(meter.step(done(0)), (Action::RemoveFile, Notice::Silent));
    assert_eq!(meter.step(done(0)), (Action::Finish, Notice::Silent));
    assert_eq!(meter.stage(), Stage::Done);
    assert_eq!(meter.step(Event::Failed), (Action::Finish, Notice::Silent));
}

#[test]
fn last_chunk_is_what_is_left() {
    let mut meter = meter_of(250, 100, true);
    assert_eq!(meter.step(done(0)).0, Action::Write { len: 100 });
    assert_eq!(meter.step(done(1)).0, Action::Write { len: 100 });
    assert_eq!(meter.step(done(2)).0, Action::Write { len: 50 });
    assert_eq!(
        meter.step(done(3)),
        (Action::Sync, Notice::Progress { pass: Pass::Write, done: 250, elapsed_nanos: 3 })
    );
}

#[test]
fn block_as_large_as_total_is_one_chunk() {
    let mut meter = meter_of(4096, 4096, false);
    assert_eq!(meter.step(done(0)).0, Action::Write { len: 4096 });
    assert_eq!(meter.step(done(1)).0, Action::Sync);
}

#[test]
fn sync_time_counts_for_the_write_pass() {
    let mut meter = meter_of(200, 100, true);
    meter.step(done(0));
    meter.step(done(10));
    meter.step(done(20));
    meter.step(done(5_000_000));
    meter.step(done(0));
    meter.step(read(0, 7));
    let (write, read_result) = meter.results().unwrap();
    assert_eq!(write, PhaseResult { bytes_transferred: 200, elapsed_nanos: 5_000_000 });
    assert_eq!(read_result, PhaseResult { bytes_transferred: 0, elapsed_nanos: 7 });
}

#[test]
fn short_reads_add_up() {
    let mut meter = meter_of(300, 100, true);
    meter.step(done(0));
    meter.step(done(1));
    meter.step(done(2));
    meter.step(done(3));
    meter.step(done(4));
    meter.step(done(0));
    assert_eq!(meter.stage(), Stage::Read);
    meter.step(read(100, 1));
    meter.step(read(37, 2));
    meter.step(read(63, 3));
    meter.step(read(100, 4));
    assert_eq!(meter.step(read(0, 5)).0, Action::Report);
    assert_eq!(
        meter.results().unwrap().1,
        PhaseResult { bytes_transferred: 300, elapsed_nanos: 5 }
    );
}

#[test]
fn kept_file_is_not_removed() {
    let mut meter = meter_of(100, 100, true);
    meter.step(done(0));
    meter.step(done(1));
    meter.step(done(2));
    meter.step(done(0));
    meter.step(read(100, 1));
    assert_eq!(meter.step(read(0, 2)).0, Action::Report);
    assert_eq!(meter.step(done(0)).0, Action::Finish);
    assert_eq!(meter.stage(), Stage::Done);
    assert_eq!(meter.step(done(0)).0, Action::Finish);
}

#[test]
fn file_is_removed_unless_kept() {
    let mut meter = meter_of(100, 100, false);
    meter.step(done(0));
    meter.step(done(1));
    meter.step(done(2));
    meter.step(done(0));
    meter.step(read(100, 1));
    meter.step(read(0, 2));
    assert_eq!(meter.step(done(0)).0, Action::RemoveFile);
    assert_eq!(meter.stage(), Stage::Cleanup);
    assert!(meter.results().is_some());
}

#[test]
fn failed_removal_fails_the_run() {
    let mut meter = meter_of(100, 100, false);
    meter.step(done(0));
    meter.step(done(1));
    meter.step(done(2));
    meter.step(done(0));
    meter.step(read(0, 2));
    assert_eq!(meter.step(done(0)).0, Action::RemoveFile);
    assert_eq!(meter.step(Event::Failed), (Action::Abort, Notice::Silent));
    assert_eq!(meter.stage(), Stage::Failed);
    assert_eq!(meter.results(), None);
    assert_eq!(meter.step(done(0)).0, Action::Abort);
}

#[test]
fn removal_answered_by_a_read_fails_the_run() {
    let mut meter = meter_of(100, 100, false);
    meter.step(done(0));
    meter.step(done(1));
    meter.step(done(2));
    meter.step(done(0));
    meter.step(read(0, 2));
    meter.step(done(0));
    assert_eq!(meter.stage(), Stage::Cleanup);
    assert_eq!(meter.step(read(0, 0)).0, Action::Abort);
}

#[test]
fn failure_aborts_at_every_stage() {
    for steps in 0..=8usize {
        let mut meter = meter_of(200, 100, false);
        let events =
            [done(0), done(1), done(2), done(3), done(0), read(100, 1), read(0, 2), done(0)];
        for e in events.iter().take(steps) {
            meter.step(*e);
        }
        assert_eq!(meter.step(Event::Failed), (Action::Abort, Notice::Silent));
        assert_eq!(meter.stage(), Stage::Failed);
        assert_eq!(meter.results(), None);
        assert_eq!(meter.step(done(0)).0, Action::Abort);
        assert_eq!(meter.step(read(0, 0)).0, Action::Abort);
        assert_eq!(meter.results(), None);
    }
}

#[test]
fn event_that_cannot_be_fails_the_run() {
    let mut meter = meter_of(200, 100, false);
    assert_eq!(meter.step(read(10, 0)).0, Action::Abort);

    let mut meter = meter_of(200, 100, false);
    meter.step(done(0));
    assert_eq!(meter.step(read(100, 0)).0, Action::Abort);

    let mut meter = meter_of(200, 100, false);
    meter.step(done(0));
    meter.step(done(1));
    meter.step(done(2));
    meter.step(done(3));
    meter.step(done(0));
    assert_eq!(meter.pending(), Action::Read { max_len: 100 });
    assert_eq!(meter.step(done(0)).0, Action::Abort);

    let mut meter = meter_of(200, 100, false);
    meter.step(done(0));
    meter.step(done(1));
    meter.step(done(2));
    meter.step(done(3));
    meter.step(done(0));
    assert_eq!(meter.step(read(101, 0)), (Action::Abort, Notice::Silent));
}

#[test]
fn small_runs_show_no_progress() {
    assert_eq!(PROGRESS_THRESHOLD, 100);
    let mut meter = meter_of(99, 33, true);
    assert_eq!(meter.step(done(0)), (Action::Write { len: 33 }, Notice::Silent));
    assert_eq!(meter.step(done(1)), (Action::Write { len: 33 }, Notice::Silent));
    assert_eq!(meter.step(done(2)), (Action::Write { len: 33 }, Notice::Silent));
    assert_eq!(meter.step(done(3)), (Action::Sync, Notice::Silent));
    assert_eq!(meter.step(done(4)), (Action::OpenForRead, Notice::Silent));
    assert_eq!(meter.step(done(0)), (Action::Read { max_len: 33 }, Notice::Silent));
    assert_eq!(meter.step(read(33, 1)), (Action::Read { max_len: 33 }, Notice::Silent));
    assert_eq!(meter.step(read(0, 2)), (Action::Report, Notice::Silent));
}

#[test]
fn notice_is_what_step_shows() {
    let mut meter = meter_of(100, 50, true);
    meter.step(done(0));
    assert_eq!(
        meter.notice(done(9)),
        Notice::Progress { pass: Pass::Write, done: 50, elapsed_nanos: 9 }
    );
    assert_eq!(meter.notice(Event::Failed), Notice::Silent);
    assert_eq!(meter.stage(), Stage::Write);
}
