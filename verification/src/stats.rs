//! Live traffic statistics: totals, per-interval counts, the most recent
//! packets and sliding windows of per-interval rates.

use crate::window::{lemma_slide_len, lemma_sum_bound, seq_sum, slide, update_sliding_window, window_sum};
use std::collections::VecDeque;
use vstd::prelude::*;

verus! {

/// How many recent packets the displays keep.
pub const MAX_RECENT_PACKETS: usize = 10;

/// How many intervals the relay's rate windows span.
pub const ROLLING_WINDOW: usize = 300;

fn scale_sum(total: u128, Ghost(samples): Ghost<Seq<u64>>, scale: u32) -> (scaled: u128)
    requires
        total == seq_sum(samples),
        samples.len() <= u32::MAX,
    ensures
        scaled == total * scale,
{
    proof {
        lemma_sum_bound(samples);
        let n = samples.len() as int;
        assert(total * scale <= u128::MAX) by (nonlinear_arith)
            requires
                0 <= total <= n * (u64::MAX as int),
                0 <= n <= u32::MAX,
                0 <= scale <= u32::MAX,
        {
            assert(total * scale <= n * (u64::MAX as int) * scale);
            assert(n * (u64::MAX as int) * scale <= (u32::MAX as int) * (u64::MAX as int) * (
            u32::MAX as int));
        }
    }
    total * scale as u128
}

/// The statistics of one tool. `T` is what is kept of each recent packet.
pub struct TrafficStats<T> {
    /// Packets counted since the start.
    pub total_packets: u64,
    /// Bytes counted since the start.
    pub total_bytes: u64,
    /// Packets counted in the current interval.
    pub interval_packets: u64,
    /// Bytes counted in the current interval.
    pub interval_bytes: u64,
    /// The most recent packets, oldest first.
    pub recent: VecDeque<T>,
    /// Per-interval packet rates, oldest first.
    pub packet_rates: VecDeque<u64>,
    /// Per-interval byte rates, oldest first, beside `packet_rates`.
    pub byte_rates: VecDeque<u64>,
    /// How many samples each rate window holds at most (when nonzero).
    pub window_size: usize,
}

impl<T> TrafficStats<T> {
    /// The interval counts are part of the totals, at most
    /// `MAX_RECENT_PACKETS` packets are kept, the two rate windows have
    /// one sample per interval each, and they are within their size.
    pub open spec fn wf(&self) -> bool {
        &&& self.interval_packets <= self.total_packets
        &&& self.interval_bytes <= self.total_bytes
        &&& self.recent@.len() <= MAX_RECENT_PACKETS
        &&& self.packet_rates@.len() == self.byte_rates@.len()
        &&& self.window_size > 0 ==> self.packet_rates@.len() <= self.window_size
    }

    /// Statistics with nothing counted, whose rate windows hold
    /// `window_size` samples.
    pub fn new(window_size: usize) -> (s: Self)
        ensures
            s.wf(),
            s.total_packets == 0,
            s.total_bytes == 0,
            s.interval_packets == 0,
            s.interval_bytes == 0,
            s.recent@ == Seq::<T>::empty(),
            s.packet_rates@ == Seq::<u64>::empty(),
            s.byte_rates@ == Seq::<u64>::empty(),
            s.window_size == window_size,
    {
        TrafficStats {
            total_packets: 0,
            total_bytes: 0,
            interval_packets: 0,
            interval_bytes: 0,
            recent: VecDeque::new(),
            packet_rates: VecDeque::new(),
            byte_rates: VecDeque::new(),
            window_size,
        }
    }

    /// Whether one more packet of `len` bytes can be counted without the
    /// totals overflowing.
    pub fn can_record(&self, len: usize) -> (ok: bool)
        ensures
            ok <==> self.total_packets < u64::MAX && self.total_bytes + len <= u64::MAX,
    {
        self.total_packets < u64::MAX && len as u64 <= u64::MAX - self.total_bytes
    }

    /// Counts a packet of `len` bytes in the totals and in the current
    /// interval, and keeps `item` among the recent packets, dropping the
    /// oldest when `MAX_RECENT_PACKETS` are kept.
    pub fn record_packet(&mut self, item: T, len: usize)
        requires
            old(self).wf(),
            old(self).total_packets < u64::MAX,
            old(self).total_bytes + len <= u64::MAX,
        ensures
            final(self).wf(),
            final(self).total_packets == old(self).total_packets + 1,
            final(self).total_bytes == old(self).total_bytes + len,
            final(self).interval_packets == old(self).interval_packets + 1,
            final(self).interval_bytes == old(self).interval_bytes + len,
            final(self).recent@ == slide(old(self).recent@, item, MAX_RECENT_PACKETS as nat),
            final(self).packet_rates@ == old(self).packet_rates@,
            final(self).byte_rates@ == old(self).byte_rates@,
            final(self).window_size == old(self).window_size,
    {
        proof {
            lemma_slide_len(self.recent@, item, MAX_RECENT_PACKETS as nat);
        }
        self.total_packets = self.total_packets + 1;
        self.total_bytes = self.total_bytes + len as u64;
        self.interval_packets = self.interval_packets + 1;
        self.interval_bytes = self.interval_bytes + len as u64;
        update_sliding_window(&mut self.recent, item, MAX_RECENT_PACKETS);
    }

    /// Ends the current interval: its packet and byte counts join the rate
    /// windows, and the interval counts restart at 0.
    pub fn close_interval(&mut self)
        requires
            old(self).wf(),
        ensures
            final(self).wf(),
            final(self).packet_rates@ == slide(
                old(self).packet_rates@,
                old(self).interval_packets,
                old(self).window_size as nat,
            ),
            final(self).byte_rates@ == slide(
                old(self).byte_rates@,
                old(self).interval_bytes,
                old(self).window_size as nat,
            ),
            final(self).interval_packets == 0,
            final(self).interval_bytes == 0,
            final(self).total_packets == old(self).total_packets,
            final(self).total_bytes == old(self).total_bytes,
            final(self).recent@ == old(self).recent@,
            final(self).window_size == old(self).window_size,
    {
        proof {
            if self.window_size > 0 {
                lemma_slide_len(self.packet_rates@, self.interval_packets, self.window_size as nat);
            }
        }
        update_sliding_window(&mut self.packet_rates, self.interval_packets, self.window_size);
        update_sliding_window(&mut self.byte_rates, self.interval_bytes, self.window_size);
        self.interval_packets = 0;
        self.interval_bytes = 0;
    }

    /// Counts a datagram of `bytes_sent` bytes that went out while sending
    /// at `target_rate` packets per second: both join the rate windows.
    pub fn record_sent(&mut self, bytes_sent: usize, target_rate: u32)
        requires
            old(self).wf(),
            old(self).total_packets < u64::MAX,
            old(self).total_bytes + bytes_sent <= u64::MAX,
        ensures
            final(self).wf(),
            final(self).total_packets == old(self).total_packets + 1,
            final(self).total_bytes == old(self).total_bytes + bytes_sent,
            final(self).packet_rates@ == slide(
                old(self).packet_rates@,
                target_rate as u64,
                old(self).window_size as nat,
            ),
            final(self).byte_rates@ == slide(
                old(self).byte_rates@,
                bytes_sent as u64,
                old(self).window_size as nat,
            ),
            final(self).interval_packets == old(self).interval_packets,
            final(self).interval_bytes == old(self).interval_bytes,
            final(self).recent@ == old(self).recent@,
            final(self).window_size == old(self).window_size,
    {
        proof {
            if self.window_size > 0 {
                lemma_slide_len(self.packet_rates@, target_rate as u64, self.window_size as nat);
            }
        }
        self.total_packets = self.total_packets + 1;
        self.total_bytes = self.total_bytes + bytes_sent as u64;
        update_sliding_window(&mut self.packet_rates, target_rate as u64, self.window_size);
        update_sliding_window(&mut self.byte_rates, bytes_sent as u64, self.window_size);
    }

    /// The sum of the packet rate window.
    pub fn packet_rate_sum(&self) -> (total: u128)
        ensures
            total == seq_sum(self.packet_rates@),
    {
        window_sum(&self.packet_rates)
    }

    /// The sum of the byte rate window.
    pub fn byte_rate_sum(&self) -> (total: u128)
        ensures
            total == seq_sum(self.byte_rates@),
    {
        window_sum(&self.byte_rates)
    }

    /// The sum of the packet rate window when each interval's count is
    /// taken `scale` times (the relay's rates per second at `scale` frames
    /// per second), exactly.
    pub fn scaled_packet_rate_sum(&self, scale: u32) -> (total: u128)
        requires
            self.packet_rates@.len() <= u32::MAX,
        ensures
            total == seq_sum(self.packet_rates@) * scale,
    {
        scale_sum(window_sum(&self.packet_rates), Ghost(self.packet_rates@), scale)
    }

    /// The sum of the byte rate window when each interval's count is taken
    /// `scale` times, exactly.
    pub fn scaled_byte_rate_sum(&self, scale: u32) -> (total: u128)
        requires
            self.byte_rates@.len() <= u32::MAX,
        ensures
            total == seq_sum(self.byte_rates@) * scale,
    {
        scale_sum(window_sum(&self.byte_rates), Ghost(self.byte_rates@), scale)
    }

    /// How many intervals the rate windows hold.
    pub fn sample_count(&self) -> (n: usize)
        ensures
            n == self.packet_rates@.len(),
    {
        self.packet_rates.len()
    }
}

} // verus!
