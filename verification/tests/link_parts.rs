use srtla_send::connection::batch_send::{
    BatchSender, SendProgress, SendStalled, BATCH_SEND_SIZE, BATCH_SIZE_THRESHOLD,
};
use srtla_send::connection::bitrate::BitrateTracker;
use srtla_send::connection::packet_log::PacketLog;
use srtla_send::connection::rtt::{RttTracker, FAST_WINDOW_SAMPLES, SLOW_WINDOW_SAMPLES};
use srtla_send::protocol::builders::keepalive_packet_at;

const NOW: u64 = 100_000;

#[test]
fn test_batch_sender_queue() {
    let mut sender = BatchSender::new(NOW);
    let data = [0u8; 100];

    for i in 0..BATCH_SIZE_THRESHOLD - 1 {
        assert!(!sender.queue_packet(&data, Some(i as u32), 0));
        assert_eq!(sender.queue.len(), i + 1);
    }

    assert!(sender.queue_packet(&data, Some(15), 0));
    assert_eq!(sender.queue.len(), BATCH_SIZE_THRESHOLD);
}

#[test]
fn test_batch_sender_time_flush() {
    let mut sender = BatchSender::new(NOW);
    let data = [0u8; 100];

    sender.queue_packet(&data, Some(1), 0);
    assert!(!sender.needs_time_flush(NOW));

    sender.last_flush_ms = NOW - 20;
    assert!(sender.needs_time_flush(NOW));
}

#[test]
fn test_batch_sender_reset() {
    let mut sender = BatchSender::new(NOW);
    let data = [0u8; 100];

    sender.queue_packet(&data, Some(1), 0);
    sender.queue_packet(&data, Some(2), 0);

    sender.reset(NOW);

    assert!(sender.queue.is_empty());
}

#[test]
fn queued_packets_keep_their_bytes() {
    let mut sender = BatchSender::new(NOW);
    sender.queue_packet(&[1, 2, 3], Some(7), NOW + 1);
    sender.queue_packet(&[9; 1400], None, NOW + 2);
    assert_eq!(sender.queued_count(), 2);
    let batch = sender.drain(NOW + 5);
    assert_eq!(batch[0].bytes(), &[1, 2, 3]);
    assert_eq!(batch[0].seq, Some(7));
    assert_eq!(batch[0].queued_ms, NOW + 1);
    assert_eq!(batch[1].bytes(), &[9; 1400][..]);
    assert!(!sender.has_queued_packets());
    assert_eq!(sender.last_flush_ms, NOW + 5);
}

#[test]
fn failed_flush_keeps_what_was_not_sent() {
    let mut sender = BatchSender::new(NOW);
    for i in 0..4u8 {
        sender.queue_packet(&[i], Some(i as u32), NOW + i as u64);
    }
    assert!(sender.flush(1, NOW + 10).is_none());
    assert_eq!(sender.queue.len(), 3);
    assert_eq!(sender.queue[0].bytes(), &[1]);
    assert_eq!(
        sender.flush(3, NOW + 11),
        Some(vec![(Some(1), NOW + 1), (Some(2), NOW + 2), (Some(3), NOW + 3)])
    );
    assert!(sender.queue.is_empty());
}

#[test]
fn batches_go_out_in_chunks() {
    let mut progress = SendProgress::new(70);
    let mut chunks = Vec::new();
    while let Some((from, to)) = progress.next_chunk() {
        chunks.push((from, to));
        progress.accept(to - from).unwrap();
    }
    assert_eq!(chunks, vec![(0, 32), (32, 64), (64, 70)]);
    assert_eq!(BATCH_SEND_SIZE, 32);
}

#[test]
fn short_sends_are_continued_and_stalls_end_them() {
    let mut progress = SendProgress::new(10);
    progress.accept(4).unwrap();
    assert_eq!(progress.next_chunk(), Some((4, 10)));
    assert_eq!(progress.accept(0), Err(SendStalled));
    assert_eq!(progress.sent, 4);
    assert_eq!(SendStalled.to_text(), "sendmmsg accepted no datagrams");
}

#[test]
fn bitrate_send_raises_estimate() {
    let mut t = BitrateTracker::new(NOW);
    assert_eq!(t.current_bitrate_bps, 0);

    t.last_rate_update_ms = NOW - 2_500;
    t.update_on_send(500_000);
    assert_eq!(t.bytes_sent_total, 500_000);

    t.calculate(NOW);
    assert!(t.current_bitrate_bps > 0, "sending bytes must raise the estimate");
}

#[test]
fn bitrate_idle_decay() {
    let mut t = BitrateTracker::new(NOW);

    t.last_rate_update_ms = NOW - 2_500;
    t.update_on_send(500_000);
    t.calculate(NOW);
    assert!(t.current_bitrate_bps > 0);

    t.last_rate_update_ms = NOW - 2_500;
    t.calculate(NOW);
    assert_eq!(t.current_bitrate_bps, 0, "an idle window must decay the estimate to zero");
}

#[test]
fn bitrate_wire_bytes_basis() {
    let mut t = BitrateTracker::new(NOW);

    let before = NOW - 4_000;
    t.last_rate_update_ms = before;
    t.bytes_sent_window = 0;
    t.update_on_send(1_000_000);

    t.calculate(NOW);

    let elapsed = t.last_rate_update_ms.saturating_sub(before);
    let expected = (1_000_000u64 * 8) as f64 * 1000.0 / elapsed as f64;
    assert!(
        (t.current_bitrate_bps as f64 - expected).abs() < 1.0,
        "bitrate is wire-bytes/s x8 (bps): got {}, expected {}",
        t.current_bitrate_bps,
        expected
    );
}

#[test]
fn test_dual_window_adapts_to_handover() {
    let mut tracker = RttTracker::default();

    for _ in 0..FAST_WINDOW_SAMPLES {
        tracker.update_estimate(50, NOW);
    }
    assert_eq!(tracker.rtt_min_ms, 50);

    for _ in 0..FAST_WINDOW_SAMPLES {
        tracker.update_estimate(120, NOW);
    }

    for _ in 0..(SLOW_WINDOW_SAMPLES) {
        tracker.update_estimate(120, NOW);
    }

    assert_eq!(tracker.rtt_min_ms, 120);
}

#[test]
fn test_dual_window_tracks_minimum() {
    let mut tracker = RttTracker::default();

    tracker.update_estimate(100, NOW);
    tracker.update_estimate(80, NOW);
    tracker.update_estimate(60, NOW);
    tracker.update_estimate(90, NOW);
    tracker.update_estimate(70, NOW);

    assert_eq!(tracker.rtt_min_ms, 60);
}

#[test]
fn test_dual_window_reset_clears_windows() {
    let mut tracker = RttTracker::default();

    for _ in 0..20 {
        tracker.update_estimate(50, NOW);
    }
    assert_eq!(tracker.rtt_min_ms, 50);

    tracker.reset();

    assert_eq!(tracker.rtt_min_ms, 200);

    tracker.update_estimate(80, NOW);
    assert_eq!(tracker.rtt_min_ms, 80);
}

#[test]
fn test_dual_window_fast_window_forgets_old_minimum() {
    let mut tracker = RttTracker::default();

    tracker.update_estimate(20, NOW);

    for _ in 0..FAST_WINDOW_SAMPLES {
        tracker.update_estimate(100, NOW);
    }

    assert_eq!(tracker.rtt_min_ms, 20);

    for _ in 0..SLOW_WINDOW_SAMPLES {
        tracker.update_estimate(100, NOW);
    }

    assert_eq!(tracker.rtt_min_ms, 100);
}

#[test]
fn answers_are_measured_only_while_awaited() {
    let mut tracker = RttTracker::default();
    let pkt = keepalive_packet_at(NOW);
    assert_eq!(tracker.handle_keepalive_response(&pkt, "test", NOW + 30), None);
    tracker.record_keepalive_sent(NOW);
    assert!(!tracker.is_sample_due(NOW + 10_000));
    assert_eq!(tracker.handle_keepalive_response(&pkt, "test", NOW + 30), Some(30));
    assert!(!tracker.waiting_for_keepalive_response);
    assert_eq!(tracker.handle_keepalive_response(&pkt, "test", NOW + 40), None);
    tracker.record_keepalive_sent(NOW);
    assert_eq!(tracker.handle_keepalive_response(&pkt, "test", NOW + 10_001), None);
    assert!(!tracker.waiting_for_keepalive_response);
    assert_eq!(tracker.rtt_min_ms, 30);
}

#[test]
fn measurements_wait_for_registration() {
    let tracker = RttTracker::default();
    assert!(!tracker.needs_measurement(true, 0, NOW));
    assert!(!tracker.needs_measurement(false, 1, NOW));
    assert!(tracker.needs_measurement(true, 1, NOW));
}

#[test]
fn log_holds_what_is_in_flight() {
    let mut log = PacketLog::with_capacity(4);
    assert_eq!(log.len(), 0);
    for seq in 1..=9 {
        log.insert(seq, NOW + seq as u64);
    }
    assert_eq!(log.get(4), Some(NOW + 4));
    assert_eq!(log.remove(4), Some(NOW + 4));
    assert_eq!(log.remove(4), None);
    assert_eq!(log.get(4), None);
    log.retain_after(2);
    assert_eq!(log.len(), 6);
    log.remove_range(5, 7);
    assert_eq!(log.len(), 4);
    assert_eq!(log.get(3), Some(NOW + 3));
    assert_eq!(log.get(6), None);
    log.insert(3, 1);
    assert_eq!(log.get(3), Some(1));
    log.clear();
    assert_eq!(log.len(), 0);
}
