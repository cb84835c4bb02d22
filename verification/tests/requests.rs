use hyperv_virtiofs::dispatcher::{Action, Dispatcher, Event};
use hyperv_virtiofs::offload::{dispatch_one, DispatchOutcome, OffloadVirtioFsDevice, CONFIG_LEN};
use hyperv_virtiofs::payload::{
    chain_ok, Offer, PayloadBuffer, PayloadReader, PayloadReplySender, PayloadWriter, ReplyEnd,
    Segment, Transfer,
};
use hyperv_virtiofs::pool::{contained, parse_workers, WorkerPool, WorkerStep};
use hyperv_virtiofs::ratelimit::{should_emit, WINDOW_MS};
use hyperv_virtiofs::reqstats::{ReqStats, StageStat, Stages};

fn r(address: u64, length: u32) -> PayloadBuffer {
    PayloadBuffer { writeable: false, address, length }
}

fn w(address: u64, length: u32) -> PayloadBuffer {
    PayloadBuffer { writeable: true, address, length }
}

#[test]
fn reader_skips_writeable_buffers_and_never_crosses_one() {
    let chain = [w(0x9000, 8), r(0x1000, 4), w(0x9100, 8), r(0x2000, 6)];
    let mut p = PayloadReader::new(&chain);
    assert_eq!(p.remaining_len(), 10);
    assert_eq!(p.read(100), Offer::Bytes(Transfer { address: 0x1000, size: 4 }));
    p.read_done(3);
    assert_eq!(p.remaining_len(), 7);
    assert_eq!(p.read(100), Offer::Bytes(Transfer { address: 0x1003, size: 1 }));
    p.read_done(1);
    assert_eq!(p.read(2), Offer::Bytes(Transfer { address: 0x2000, size: 2 }));
    p.read_done(2);
    assert_eq!(p.read(100), Offer::Bytes(Transfer { address: 0x2002, size: 4 }));
    p.read_done(4);
    assert_eq!(p.read(100), Offer::End);
    assert_eq!(p.remaining_len(), 0);
}

#[test]
fn an_empty_buffer_gives_an_empty_transfer_once() {
    let chain = [r(0x1000, 1), r(0x2000, 0), r(0x3000, 1)];
    let mut p = PayloadReader::new(&chain);
    p.read(1);
    p.read_done(1);
    assert_eq!(p.read(1), Offer::Bytes(Transfer { address: 0x2000, size: 0 }));
    assert_eq!(p.read(1), Offer::Bytes(Transfer { address: 0x3000, size: 1 }));
}

#[test]
fn scan_goes_over_buffers_and_stops_after_the_byte() {
    let chain = [r(0x1000, 2), r(0x2000, 4)];
    let mut p = PayloadReader::new(&chain);
    let mut found = Vec::new();
    assert_eq!(p.read_until(), Offer::Bytes(Transfer { address: 0x1000, size: 2 }));
    assert!(!p.until_done(b"ab", 0, &mut found));
    assert_eq!(p.read_until(), Offer::Bytes(Transfer { address: 0x2000, size: 4 }));
    assert!(p.until_done(b"c\0de", 0, &mut found));
    assert_eq!(found, b"abc");
    assert_eq!(p.read(9), Offer::Bytes(Transfer { address: 0x2002, size: 2 }));
    assert_eq!(p.remaining_len(), 0);
}

#[test]
fn a_scan_counts_the_buffer_that_it_looked_at() {
    let chain = [r(0x1000, 4)];
    let mut p = PayloadReader::new(&chain);
    let mut found = Vec::new();
    p.read_until();
    assert!(p.until_done(b"a\0bc", 0, &mut found));
    assert!(p.has_remaining_len());
    assert_eq!(p.remaining_len(), 0);
    assert_eq!(p.read(9), Offer::Bytes(Transfer { address: 0x1002, size: 2 }));
    p.read_done(2);
    assert!(!p.has_remaining_len());
}

#[test]
fn scan_fails_at_the_end() {
    let chain = [r(0x1000, 1)];
    let mut p = PayloadReader::new(&chain);
    let mut found = Vec::new();
    p.read_until();
    assert!(!p.until_done(b"a", 0, &mut found));
    assert_eq!(p.read_until(), Offer::End);
}

#[test]
fn writer_offers_the_writeable_buffers() {
    let chain = [r(0x1000, 4), w(0x2000, 4)];
    let mut p = PayloadWriter::new(&chain);
    assert_eq!(p.write(3), Offer::Bytes(Transfer { address: 0x2000, size: 3 }));
    p.write_done(3);
    assert_eq!(p.write(3), Offer::Bytes(Transfer { address: 0x2003, size: 1 }));
    p.write_done(1);
    assert_eq!(p.write(3), Offer::End);
}

#[test]
fn reply_is_laid_out_over_the_buffers() {
    let chain = [r(0x1000, 4), w(0x2000, 5), w(0x3000, 10)];
    let mut s = PayloadReplySender::new(&chain);
    let plan = s.send(&[3, 0, 6]);
    assert_eq!(plan.end, ReplyEnd::Complete);
    assert_eq!(plan.total, 9);
    assert_eq!(
        plan.segments,
        vec![
            Segment { part: 0, start: 0, address: 0x2000, size: 3 },
            Segment { part: 2, start: 0, address: 0x2003, size: 2 },
            Segment { part: 2, start: 2, address: 0x3000, size: 4 },
        ]
    );
    assert_eq!(s.bytes_written, 0);
    s.sent(plan.total);
    assert_eq!(s.bytes_written, 9);
    s.sent(0x1_0000_0002);
    assert_eq!(s.bytes_written, 2);
}

#[test]
fn reply_that_does_not_fit_is_incomplete() {
    let chain = [w(0x2000, 2), w(0x3000, 2)];
    let s = PayloadReplySender::new(&chain);
    let plan = s.send(&[3, 3]);
    assert_eq!(plan.end, ReplyEnd::NoRoom);
    assert_eq!(plan.segments.iter().map(|s| s.size).sum::<usize>(), 4);
    let plan = s.send(&[4]);
    assert_eq!(plan.end, ReplyEnd::Complete);
}

#[test]
fn an_empty_buffer_ends_a_reply() {
    let chain = [w(0x2000, 2), w(0x3000, 0), w(0x4000, 2)];
    let s = PayloadReplySender::new(&chain);
    assert_eq!(s.send(&[2]).end, ReplyEnd::Complete);
    assert_eq!(s.send(&[3]).end, ReplyEnd::NoRoom);
    let first_empty = [w(0x2000, 0), w(0x3000, 2)];
    assert_eq!(PayloadReplySender::new(&first_empty).send(&[2]).end, ReplyEnd::Complete);
}

#[test]
fn a_transfer_past_the_address_space_is_an_error() {
    let chain = [r(0x1000, 2), w(u64::MAX, 2), r(u64::MAX - 1, 3), w(0x2000, 4)];
    assert!(chain_ok(&chain));
    let mut p = PayloadReader::new(&chain);
    assert_eq!(p.read(9), Offer::Bytes(Transfer { address: 0x1000, size: 2 }));
    assert!(p.position_fits(usize::MAX));
    p.read_done(2);
    assert!(!p.position_fits(usize::MAX - 1));
    assert_eq!(p.read(3), Offer::Bad);
    assert_eq!(p.read_until(), Offer::Bad);
    assert_eq!(p.read(2), Offer::Bytes(Transfer { address: u64::MAX - 1, size: 2 }));
    p.read_done(2);
    assert_eq!(p.read(1), Offer::Bad);
    assert_eq!(p.read_until(), Offer::Bad);
    assert_eq!(p.remaining_len(), 1);
    assert_eq!(PayloadWriter::new(&chain).write(2), Offer::Bad);
    let last = [r(u64::MAX, 1), w(u64::MAX, 0), w(u64::MAX, 1)];
    assert_eq!(
        PayloadReader::new(&last).read(1),
        Offer::Bytes(Transfer { address: u64::MAX, size: 1 })
    );
    assert_eq!(
        PayloadWriter::new(&last).write(1),
        Offer::Bytes(Transfer { address: u64::MAX, size: 1 })
    );
}

#[test]
fn the_bytes_before_the_end_of_the_address_space_are_transferred() {
    let at = u64::MAX - 9;
    assert_eq!(
        PayloadReader::new(&[r(at, 100)]).read(5),
        Offer::Bytes(Transfer { address: at, size: 5 })
    );
    let chain = [w(at, 100)];
    let plan = PayloadReplySender::new(&chain).send(&[5]);
    assert_eq!(plan.end, ReplyEnd::Complete);
    assert_eq!(plan.segments, vec![Segment { part: 0, start: 0, address: at, size: 5 }]);
    let plan = PayloadReplySender::new(&chain).send(&[5, 5, 1]);
    assert_eq!(plan.end, ReplyEnd::BadBuffer);
    assert_eq!(plan.segments.len(), 2);
    let plan = PayloadReplySender::new(&chain).send(&[5, 6]);
    assert_eq!(plan.end, ReplyEnd::BadBuffer);
    assert_eq!(plan.segments, vec![Segment { part: 0, start: 0, address: at, size: 5 }]);
}

#[test]
fn a_bad_buffer_of_the_other_direction_does_not_matter() {
    let chain = [w(u64::MAX, 9), r(0x1000, 2)];
    let mut p = PayloadReader::new(&chain);
    assert_eq!(p.read_until(), Offer::Bytes(Transfer { address: 0x1000, size: 2 }));
    let chain = [r(u64::MAX, 9), w(0x2000, 2)];
    let plan = PayloadReplySender::new(&chain).send(&[2]);
    assert_eq!(plan.end, ReplyEnd::Complete);
    assert_eq!(plan.segments, vec![Segment { part: 0, start: 0, address: 0x2000, size: 2 }]);
}

#[test]
fn a_reply_ends_at_a_bad_buffer() {
    let chain = [w(0x2000, 2), w(u64::MAX, 2), w(0x3000, 8)];
    let s = PayloadReplySender::new(&chain);
    assert_eq!(s.send(&[2]).end, ReplyEnd::Complete);
    let plan = s.send(&[1, 4]);
    assert_eq!(plan.end, ReplyEnd::BadBuffer);
    assert_eq!(plan.total, 5);
    assert_eq!(
        plan.segments,
        vec![
            Segment { part: 0, start: 0, address: 0x2000, size: 1 },
            Segment { part: 1, start: 0, address: 0x2001, size: 1 },
        ]
    );
}

#[test]
fn lone_request_runs_inline() {
    let (mut d, a) = Dispatcher::<u32>::new();
    assert!(matches!(a, Action::TryNext));
    assert!(matches!(d.step(Event::Popped(1)), Action::TryNext));
    assert!(matches!(d.step(Event::QueueEmpty), Action::RecordPop(1)));
    assert!(matches!(d.step(Event::Recorded), Action::RunInline(1)));
    assert!(matches!(d.step(Event::Ran(1, 16)), Action::Complete(1, 16)));
    assert!(matches!(d.step(Event::Completed), Action::TryNext));
    assert_eq!(d.inflight(), 0);
}

#[test]
fn batch_goes_to_the_pool_and_stop_quiesces() {
    let (mut d, _) = Dispatcher::<u32>::new();
    d.step(Event::Popped(1));
    d.step(Event::Popped(2));
    assert!(matches!(d.step(Event::QueueEmpty), Action::RecordPop(2)));
    assert!(matches!(d.step(Event::Recorded), Action::Submit(1)));
    assert!(matches!(d.step(Event::Submitted), Action::Submit(2)));
    assert!(matches!(d.step(Event::Submitted), Action::PollDone));
    assert_eq!(d.inflight(), 2);
    assert!(matches!(d.step(Event::NotDone), Action::PollStop));
    assert!(matches!(d.step(Event::NoStop), Action::PollKick));
    assert!(matches!(d.step(Event::NoKick), Action::Suspend));
    assert!(matches!(d.step(Event::Woken), Action::PollDone));
    assert!(matches!(d.step(Event::Done(2, 5)), Action::Complete(2, 5)));
    assert!(matches!(d.step(Event::Completed), Action::PollDone));
    assert!(matches!(d.step(Event::NotDone), Action::PollStop));
    assert!(matches!(d.step(Event::Stop), Action::PollDone));
    assert!(matches!(d.step(Event::NotDone), Action::Suspend));
    assert!(matches!(d.step(Event::Woken), Action::PollDone));
    assert!(matches!(d.step(Event::Done(1, 0)), Action::Complete(1, 0)));
    assert!(matches!(d.step(Event::Completed), Action::PollDone));
    assert!(matches!(d.step(Event::NotDone), Action::Return));
    assert_eq!(d.inflight(), 0);
}

#[test]
fn lone_request_with_others_in_flight_goes_to_the_pool() {
    let (mut d, _) = Dispatcher::<u32>::new();
    d.step(Event::Popped(1));
    d.step(Event::Popped(2));
    d.step(Event::QueueEmpty);
    d.step(Event::Recorded);
    d.step(Event::Submitted);
    d.step(Event::Submitted);
    d.step(Event::NotDone);
    d.step(Event::NoStop);
    assert!(matches!(d.step(Event::Kick), Action::TryNext));
    d.step(Event::Popped(3));
    assert!(matches!(d.step(Event::QueueEmpty), Action::RecordPop(1)));
    assert!(matches!(d.step(Event::Recorded), Action::Submit(3)));
}

#[test]
fn failed_queue_is_not_popped_again_but_can_be_stopped() {
    let (mut d, _) = Dispatcher::<u32>::new();
    d.step(Event::Popped(1));
    assert!(matches!(d.step(Event::QueueError), Action::RecordPop(1)));
    assert!(matches!(d.step(Event::Recorded), Action::RunInline(1)));
    assert!(matches!(d.step(Event::Ran(1, 0)), Action::Complete(1, 0)));
    assert!(matches!(d.step(Event::Completed), Action::PollDone));
    assert!(matches!(d.step(Event::NotDone), Action::PollStop));
    assert!(matches!(d.step(Event::NoStop), Action::Suspend));
    assert!(matches!(d.step(Event::Woken), Action::PollDone));
    assert!(matches!(d.step(Event::NotDone), Action::PollStop));
    assert!(matches!(d.step(Event::Stop), Action::Return));
}

#[test]
fn config_space_holds_tag_and_queue_count() {
    let d: OffloadVirtioFsDevice<u8> = OffloadVirtioFsDevice::new("ws");
    assert_eq!(d.config.len(), CONFIG_LEN);
    assert_eq!(d.read_registers_u32(0), u32::from_le_bytes(*b"ws\0\0"));
    assert_eq!(d.read_registers_u32(36), 1);
    assert_eq!(d.read_registers_u32(35), 0x100);
    assert_eq!(d.read_registers_u32(37), 0);
    assert_eq!(d.read_registers_u32(u16::MAX), 0);
    assert_eq!(d.task_name, "virtiofs-offload-ws");
    assert_eq!(d.queue_task_name(12), "virtiofs-offload-ws-q12");
    assert_eq!(d.traits().device_register_length, 40);
    assert_eq!(d.traits().max_queues, 2);
}

#[test]
fn long_tags_are_cut_off() {
    let tag = "0123456789012345678901234567890123456789";
    let d: OffloadVirtioFsDevice<u8> = OffloadVirtioFsDevice::new(tag);
    assert_eq!(&d.config[..36], &tag.as_bytes()[..36]);
    assert_eq!(&d.config[36..], &[1, 0, 0, 0]);
}

#[test]
fn queues_start_stop_and_reset() {
    let mut d: OffloadVirtioFsDevice<char> = OffloadVirtioFsDevice::new("t");
    assert_eq!(d.stop_queue(3), None);
    assert_eq!(d.start_queue(2, 'c'), None);
    assert_eq!(d.start_queue(0, 'a'), None);
    assert_eq!(d.queues, vec![Some('a'), None, Some('c')]);
    assert_eq!(d.start_queue(2, 'd'), Some('c'));
    assert_eq!(d.stop_queue(0), Some('a'));
    assert_eq!(d.stop_queue(0), None);
    d.start_queue(1, 'b');
    assert_eq!(d.reset(), vec!['b', 'd']);
    assert_eq!(d.queues, vec![None, None, None]);
}

#[test]
fn unparsed_requests_are_corruption() {
    assert_eq!(dispatch_one(true, 9), DispatchOutcome { bytes: 9, corrupt: false });
    assert_eq!(dispatch_one(false, 9), DispatchOutcome { bytes: 0, corrupt: true });
}

#[test]
fn runs_all_jobs_and_drains_on_drop() {
    let mut pool: WorkerPool<usize> = WorkerPool::new(4);
    for i in 0..100 {
        assert!(pool.submit(i).is_none());
    }
    pool.state.shut_down();
    let mut ran = Vec::new();
    loop {
        match pool.state.worker_loop() {
            WorkerStep::Run(job) => ran.push(job),
            WorkerStep::Exit => break,
            WorkerStep::Wait => panic!("the pool was shut down"),
        }
    }
    assert_eq!(ran.len(), 100);
    assert_eq!(ran, (0..100).collect::<Vec<_>>());
}

#[test]
fn zero_workers_runs_inline() {
    let mut pool: WorkerPool<&str> = WorkerPool::new(0);
    assert_eq!(pool.submit("job"), Some("job"));
    assert!(pool.state.jobs.is_empty());
}

#[test]
fn idle_workers_wait() {
    let mut pool: WorkerPool<u8> = WorkerPool::new(1);
    assert!(matches!(pool.state.worker_loop(), WorkerStep::Wait));
    pool.submit(7);
    assert!(matches!(pool.state.worker_loop(), WorkerStep::Run(7)));
    assert!(matches!(pool.state.worker_loop(), WorkerStep::Wait));
}

#[test]
fn a_job_that_panicked_replies_with_nothing() {
    assert_eq!(contained(None), 0);
    assert_eq!(contained(Some(12)), 12);
}

#[test]
fn panicking_job_does_not_kill_worker() {
    // A job gives what running it behind the guard gives: nothing, where it panicked.
    let mut pool: WorkerPool<fn() -> Option<u32>> = WorkerPool::new(1);
    assert!(pool.submit(|| None).is_none());
    assert!(pool.submit(|| Some(7)).is_none());
    pool.state.shut_down();
    let mut replies = Vec::new();
    loop {
        match pool.state.worker_loop() {
            WorkerStep::Run(job) => replies.push(contained(job())),
            WorkerStep::Exit => break,
            WorkerStep::Wait => panic!("the pool was shut down"),
        }
    }
    assert_eq!(replies, vec![0, 7]);
}

#[test]
fn parse_workers_rules() {
    assert_eq!(parse_workers(None, 8), 0);
    assert_eq!(parse_workers(Some("0"), 8), 0);
    assert_eq!(parse_workers(Some("6"), 8), 6);
    assert_eq!(parse_workers(Some("32"), 8), 32);
    assert_eq!(parse_workers(Some("auto"), 8), 8);
    assert_eq!(parse_workers(Some("auto"), 2), 4);
    assert_eq!(parse_workers(Some("auto"), 64), 16);
    assert_eq!(parse_workers(Some(""), 8), 8);
}

#[test]
fn parse_workers_reads_numbers_as_the_standard_library_does() {
    for s in [" 7\n", "+5", "+", "-1", "007", "1_0", "99999999999999999999999", "18446744073709551615", "x1"] {
        let expected = match s.trim().parse::<usize>() {
            Ok(n) => n,
            Err(_) => 8,
        };
        assert_eq!(parse_workers(Some(s), 8), expected, "{s:?}");
    }
}

#[test]
fn warnings_are_a_window_apart() {
    let mut last = 0;
    assert!(should_emit(&mut last, 0));
    assert_eq!(last, 1);
    assert!(!should_emit(&mut last, WINDOW_MS));
    assert!(should_emit(&mut last, WINDOW_MS + 1));
    assert_eq!(last, WINDOW_MS + 1);
    assert!(!should_emit(&mut last, 3));
    assert_eq!(last, WINDOW_MS + 1);
}

#[test]
fn stage_stat_mean_and_max() {
    let mut s = StageStat::default();
    assert_eq!(s.mean_us(), 0);
    s.record_us(100);
    s.record_us(300);
    s.record_us(20);
    assert_eq!(s.count_now(), 3);
    assert_eq!(s.mean_us(), 140);
    assert_eq!(s.max(), 300);
}

#[test]
fn disabled_stats_are_inert() {
    let mut stats = ReqStats::new(false);
    assert!(stats.now().is_none());
    stats.rec_pop(None, 5);
    stats.rec_complete(None);
    assert_eq!(stats.stages.complete.count_now(), 0);
    assert_eq!(stats.stages.batch_items, 0);
    assert!(stats.emit_final().is_none());
}

#[test]
fn disabled_stats_do_not_record_a_timer_either() {
    let mut stats = ReqStats::new(false);
    let t = Some(std::time::Instant::now());
    stats.rec_pop(t, 5);
    stats.rec_inline(t);
    stats.rec_pool(t);
    stats.rec_pool_wait(t);
    stats.rec_done_hop(t);
    stats.rec_deliver(t);
    assert!(stats.rec_complete(t).is_none());
    let s = &stats.stages;
    for stage in [&s.pop, &s.inline, &s.pool, &s.pool_wait, &s.done_hop, &s.deliver, &s.complete] {
        assert_eq!(stage.count_now(), 0);
    }
    assert_eq!((s.batch_items, s.batch_max, s.lone_batches), (0, 0, 0));
}

#[test]
fn samples_are_measured_from_the_timer_that_is_handed_in() {
    let mut stats = ReqStats::new(true);
    while stats.start.elapsed() < std::time::Duration::from_millis(50) {}
    let t = stats.now();
    stats.rec_inline(t);
    let just_now = stats.stages.inline.max();
    let start = Some(stats.start);
    stats.rec_inline(start);
    let since_start = stats.stages.inline.max();
    assert!(since_start >= 50_000 && since_start > just_now, "{just_now} {since_start}");
}

#[test]
fn batch_accounting() {
    let mut stats = ReqStats::new(true);
    let t = stats.now();
    stats.rec_pop(t, 1);
    let t = stats.now();
    stats.rec_pop(t, 4);
    let t = stats.now();
    stats.rec_pop(t, 2);
    assert_eq!(stats.stages.pop.count_now(), 3);
    assert_eq!(stats.stages.batch_items, 7);
    assert_eq!(stats.stages.batch_max, 4);
    assert_eq!(stats.stages.lone_batches, 1);
}

#[test]
fn stages_are_timed_in_microseconds() {
    let mut stats = ReqStats::new(true);
    let t = stats.now();
    while t.unwrap().elapsed() < std::time::Duration::from_millis(3) {}
    stats.rec_inline(t);
    stats.rec_pool(t);
    stats.rec_pool_wait(t);
    stats.rec_done_hop(t);
    stats.rec_deliver(t);
    stats.rec_complete(t);
    let s = stats.emit_final().unwrap();
    for us in [
        s.inline_max_us,
        s.pool_max_us,
        s.pool_wait_max_us,
        s.done_hop_max_us,
        s.deliver_max_us,
        s.complete_max_us,
    ] {
        assert!((3_000..3_000_000).contains(&us), "{us}");
    }
    assert_eq!((s.ops, s.inline_n, s.pool_n, s.delivers, s.batches), (1, 1, 1, 1, 0));
}

#[test]
fn summaries_follow_completions_and_clock() {
    let mut s = Stages::new();
    s.complete.count = 4095;
    assert!(!s.maybe_emit(100));
    s.complete.count = 4096;
    assert!(s.maybe_emit(100));
    s.complete.count = 4097;
    assert!(s.maybe_emit(500));
    assert_eq!(s.last_emit_ms, 500);
    assert!(!s.maybe_emit(999));
    assert!(!s.maybe_emit(0));
}
