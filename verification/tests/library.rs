use std::collections::VecDeque;
use udp_retransmitter::display::{display_width, packet_line, preview_len, render_bytes};
use udp_retransmitter::payload::generate_payload;
use udp_retransmitter::probe::{port_reported_open, probe_address, ProbeOutcome};
use udp_retransmitter::retry::{RetryPolicy, SendStep};
use udp_retransmitter::stats::{TrafficStats, MAX_RECENT_PACKETS, ROLLING_WINDOW};
use udp_retransmitter::text::{decimal_string, format_number};
use udp_retransmitter::units::{byte_unit, ByteUnit};
use udp_retransmitter::window::{update_sliding_window, window_sum};

#[test]
fn format_number_small_values_have_no_commas() {
    assert_eq!(format_number(0), "0");
    assert_eq!(format_number(7), "7");
    assert_eq!(format_number(999), "999");
}

#[test]
fn format_number_groups_by_thousands() {
    assert_eq!(format_number(1000), "1,000");
    assert_eq!(format_number(12345), "12,345");
    assert_eq!(format_number(100000), "100,000");
    assert_eq!(format_number(1234567), "1,234,567");
    assert_eq!(format_number(u64::MAX), "18,446,744,073,709,551,615");
}

#[test]
fn format_number_keeps_the_digits() {
    for n in [0u64, 5, 42, 999, 1000, 65535, 1_000_000, 987_654_321, u64::MAX] {
        let grouped = format_number(n);
        let digits: String = grouped.chars().filter(|c| *c != ',').collect();
        assert_eq!(digits, n.to_string());
        let len = digits.len();
        assert_eq!(grouped.len(), len + (len - 1) / 3);
    }
}

#[test]
fn decimal_string_matches_std() {
    for n in [0u64, 9, 10, 4096, 18_446_744_073_709_551_615] {
        assert_eq!(decimal_string(n), n.to_string());
    }
}

#[test]
fn sliding_window_drops_the_oldest_when_full() {
    let mut w: VecDeque<u64> = VecDeque::new();
    for v in 1..=5u64 {
        update_sliding_window(&mut w, v, 3);
    }
    assert_eq!(w, VecDeque::from(vec![3, 4, 5]));
}

#[test]
fn sliding_window_grows_until_full() {
    let mut w: VecDeque<u64> = VecDeque::new();
    update_sliding_window(&mut w, 10, 3);
    update_sliding_window(&mut w, 20, 3);
    assert_eq!(w, VecDeque::from(vec![10, 20]));
}

#[test]
fn sliding_window_of_size_zero_keeps_everything() {
    let mut w: VecDeque<u64> = VecDeque::new();
    for v in [4u64, 5, 6] {
        update_sliding_window(&mut w, v, 0);
    }
    assert_eq!(w, VecDeque::from(vec![4, 5, 6]));
}

#[test]
fn window_sum_is_exact() {
    let w: VecDeque<u64> = VecDeque::from(vec![u64::MAX, u64::MAX, 3]);
    assert_eq!(window_sum(&w), 2 * (u64::MAX as u128) + 3);
    let empty: VecDeque<u64> = VecDeque::new();
    assert_eq!(window_sum(&empty), 0);
}

#[test]
fn byte_unit_thresholds() {
    assert_eq!(byte_unit(0, 1), ByteUnit::B);
    assert_eq!(byte_unit(1023, 1), ByteUnit::B);
    assert_eq!(byte_unit(1024, 1), ByteUnit::KB);
    assert_eq!(byte_unit(1536, 1), ByteUnit::KB);
    assert_eq!(byte_unit(1024 * 1024, 1), ByteUnit::MB);
    assert_eq!(byte_unit(1024 * 1024 * 1024 - 1, 1), ByteUnit::MB);
    assert_eq!(byte_unit(1024 * 1024 * 1024, 1), ByteUnit::GB);
    assert_eq!(byte_unit(1 << 40, 1), ByteUnit::TB);
    assert_eq!(byte_unit(u128::MAX, 1), ByteUnit::TB);
}

#[test]
fn byte_unit_of_an_average() {
    assert_eq!(byte_unit(3069, 3), ByteUnit::B);
    assert_eq!(byte_unit(3072, 3), ByteUnit::KB);
}

#[test]
fn byte_unit_sizes_and_labels() {
    assert_eq!(ByteUnit::B.size_in_bytes(), 1);
    assert_eq!(ByteUnit::KB.size_in_bytes(), 1024);
    assert_eq!(ByteUnit::MB.size_in_bytes(), 1_048_576);
    assert_eq!(ByteUnit::GB.size_in_bytes(), 1_073_741_824);
    assert_eq!(ByteUnit::TB.size_in_bytes(), 1_099_511_627_776);
    assert_eq!(ByteUnit::B.label(), "B");
    assert_eq!(ByteUnit::KB.label(), "KB");
    assert_eq!(ByteUnit::MB.label(), "MB");
    assert_eq!(ByteUnit::GB.label(), "GB");
    assert_eq!(ByteUnit::TB.label(), "TB");
}

#[test]
fn retry_policy_retries_then_fails() {
    let mut p = RetryPolicy::new(2, 50);
    match p.on_attempt::<&str>(Err("a")) {
        SendStep::Retry { error, attempt, delay_ms } => {
            assert_eq!((error, attempt, delay_ms), ("a", 1, 50));
        }
        _ => panic!("expected a retry"),
    }
    match p.on_attempt::<&str>(Err("b")) {
        SendStep::Retry { error, attempt, delay_ms } => {
            assert_eq!((error, attempt, delay_ms), ("b", 2, 50));
        }
        _ => panic!("expected a retry"),
    }
    match p.on_attempt::<&str>(Err("c")) {
        SendStep::Failed(e) => assert_eq!(e, "c"),
        _ => panic!("expected a failure"),
    }
    assert_eq!(p.retries, 2);
}

#[test]
fn retry_policy_success_ends_the_send() {
    let mut p = RetryPolicy::new(3, 100);
    match p.on_attempt::<&str>(Ok(256)) {
        SendStep::Sent(n) => assert_eq!(n, 256),
        _ => panic!("expected a success"),
    }
    assert_eq!(p.retries, 0);
}

#[test]
fn retry_policy_without_retries_fails_at_once() {
    let mut p = RetryPolicy::new(0, 100);
    assert!(matches!(p.on_attempt::<&str>(Err("x")), SendStep::Failed("x")));
}

#[test]
fn forwarding_policy_makes_four_attempts() {
    let mut p = RetryPolicy::forwarding();
    assert_eq!((p.max_retries, p.retry_delay_ms, p.retries), (3, 100, 0));
    let mut attempts = 0;
    loop {
        attempts += 1;
        match p.on_attempt::<()>(Err(())) {
            SendStep::Retry { .. } => continue,
            SendStep::Failed(()) => break,
            SendStep::Sent(_) => panic!("no success was reported"),
        }
    }
    assert_eq!(attempts, 4);
}

#[test]
fn render_bytes_writes_a_list() {
    assert_eq!(render_bytes(&[]), "[]");
    assert_eq!(render_bytes(&[7]), "[7]");
    assert_eq!(render_bytes(&[1, 22, 255]), "[1, 22, 255]");
    let data: Vec<u8> = (0..=255).collect();
    assert_eq!(render_bytes(&data), format!("{:?}", data));
}

#[test]
fn packet_line_truncates_long_content() {
    assert_eq!(packet_line(&[1, 2, 3, 4, 5], 10), "[1, 2, ...");
    assert_eq!(packet_line(&[1, 2, 3, 4, 5], 15), "[1, 2, 3, 4, 5]");
    assert_eq!(packet_line(&[1, 2, 3, 4, 5], 14), "[1, 2, 3, 4...");
    assert_eq!(packet_line(&[1, 2, 3], 0), "...");
    assert_eq!(packet_line(&[1, 2, 3], 2), "...");
}

#[test]
fn packet_line_never_exceeds_the_width() {
    let data: Vec<u8> = (0..100).collect();
    for w in 3..400usize {
        assert!(packet_line(&data, w).len() <= w);
    }
}

#[test]
fn widths_for_the_terminal() {
    assert_eq!(display_width(80), 50);
    assert_eq!(display_width(30), 0);
    assert_eq!(display_width(10), 0);
    assert_eq!(preview_len(80, 256), 50);
    assert_eq!(preview_len(80, 20), 20);
    assert_eq!(preview_len(0, 20), 0);
}

#[test]
fn probe_address_joins_target_and_port() {
    assert_eq!(probe_address("127.0.0.1", 8080), "127.0.0.1:8080");
    assert_eq!(probe_address("example.org", 0), "example.org:0");
}

#[test]
fn probe_sends_the_word_probe() {
    assert_eq!(udp_retransmitter::probe::probe_payload(), b"probe".to_vec());
}

#[test]
fn byte_unit_grows_with_the_amount() {
    let units = [ByteUnit::B, ByteUnit::KB, ByteUnit::MB, ByteUnit::GB, ByteUnit::TB];
    let rank = |u: ByteUnit| units.iter().position(|v| *v == u).unwrap();
    let amounts: Vec<u128> = vec![0, 1, 1023, 1024, 5000, 1 << 20, (1 << 30) - 1, 1 << 30, 1 << 40, 1 << 50];
    for w in amounts.windows(2) {
        assert!(rank(byte_unit(w[0], 1)) <= rank(byte_unit(w[1], 1)));
    }
}

#[test]
fn only_a_reply_means_open() {
    assert!(port_reported_open(ProbeOutcome::Responded));
    assert!(!port_reported_open(ProbeOutcome::TimedOut));
    assert!(!port_reported_open(ProbeOutcome::ReceiveFailed));
    assert!(!port_reported_open(ProbeOutcome::SendFailed));
    assert!(!port_reported_open(ProbeOutcome::BindFailed));
}

#[test]
fn payload_has_the_requested_size() {
    assert_eq!(generate_payload(0).len(), 0);
    assert_eq!(generate_payload(256).len(), 256);
    let big = generate_payload(4096);
    assert!(big.iter().any(|b| *b != big[0]));
}

#[test]
fn stats_count_packets_and_keep_the_latest() {
    let mut s: TrafficStats<u32> = TrafficStats::new(ROLLING_WINDOW);
    for i in 0..15u32 {
        assert!(s.can_record(100));
        s.record_packet(i, 100);
    }
    assert_eq!((s.total_packets, s.total_bytes), (15, 1500));
    assert_eq!((s.interval_packets, s.interval_bytes), (15, 1500));
    assert_eq!(s.recent.len(), MAX_RECENT_PACKETS);
    assert_eq!(s.recent, (5..15u32).collect::<VecDeque<u32>>());
}

#[test]
fn stats_close_interval_records_counts_and_resets() {
    let mut s: TrafficStats<()> = TrafficStats::new(ROLLING_WINDOW);
    s.record_packet((), 10);
    s.record_packet((), 30);
    s.close_interval();
    assert_eq!(s.packet_rates, VecDeque::from(vec![2]));
    assert_eq!(s.byte_rates, VecDeque::from(vec![40]));
    assert_eq!((s.interval_packets, s.interval_bytes), (0, 0));
    assert_eq!((s.total_packets, s.total_bytes), (2, 40));
    s.close_interval();
    assert_eq!(s.sample_count(), 2);
    assert_eq!(s.packet_rate_sum(), 2);
    assert_eq!(s.byte_rate_sum(), 40);
    assert_eq!(s.scaled_packet_rate_sum(30), 60);
    assert_eq!(s.scaled_byte_rate_sum(30), 1200);
}

#[test]
fn stats_rate_window_is_bounded() {
    let mut s: TrafficStats<()> = TrafficStats::new(2);
    for n in 1..=4usize {
        for _ in 0..n {
            s.record_packet((), 1);
        }
        s.close_interval();
    }
    assert_eq!(s.packet_rates, VecDeque::from(vec![3, 4]));
    assert_eq!(s.byte_rates, VecDeque::from(vec![3, 4]));
}

#[test]
fn stats_scaled_sum_does_not_cap() {
    let mut s: TrafficStats<()> = TrafficStats::new(ROLLING_WINDOW);
    s.record_packet((), usize::MAX);
    s.close_interval();
    s.total_bytes = 0;
    s.record_packet((), 1);
    s.close_interval();
    let expected = (usize::MAX as u128 + 1) * (u32::MAX as u128);
    assert_eq!(s.scaled_byte_rate_sum(u32::MAX), expected);
    assert!(expected > u64::MAX as u128);
}

#[test]
fn stats_record_sent_feeds_the_windows() {
    let mut s: TrafficStats<()> = TrafficStats::new(10);
    s.record_sent(256, 10);
    s.record_sent(128, 10);
    assert_eq!((s.total_packets, s.total_bytes), (2, 384));
    assert_eq!(s.packet_rates, VecDeque::from(vec![10, 10]));
    assert_eq!(s.byte_rates, VecDeque::from(vec![256, 128]));
    assert_eq!((s.interval_packets, s.interval_bytes), (0, 0));
}

#[test]
fn stats_refuse_to_overflow() {
    let mut s: TrafficStats<()> = TrafficStats::new(1);
    s.total_packets = u64::MAX;
    s.total_bytes = 5;
    assert!(!s.can_record(0));
    s.total_packets = 0;
    s.total_bytes = u64::MAX - 5;
    assert!(s.can_record(5));
    assert!(!s.can_record(6));
}
