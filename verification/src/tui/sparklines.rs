//! Rolling histories behind the sparklines of CPU, RAM and network use.
use vstd::prelude::*;

use std::collections::VecDeque;

use crate::tui::network::{sum_u64, total_of};

verus! {

/// Most samples kept in each history (one per second).
pub const HISTORY_CAP: usize = 60;

/// `h` with `value` appended, dropping the oldest sample first when `h`
/// already holds `cap` or more.
pub open spec fn capped_push(h: Seq<u64>, value: u64, cap: nat) -> Seq<u64> {
    if h.len() >= cap && h.len() > 0 {
        h.drop_first().push(value)
    } else {
        h.push(value)
    }
}

/// Appends `value`, dropping the oldest sample when `cap` are held.
pub fn push_capped(deque: &mut VecDeque<u64>, value: u64, cap: usize)
    ensures
        final(deque)@ == capped_push(old(deque)@, value, cap as nat),
{
    if deque.len() >= cap {
        deque.pop_front();
    }
    deque.push_back(value);
}

/// A history that starts within the cap stays within it.
pub proof fn lemma_capped_push_len(h: Seq<u64>, value: u64, cap: nat)
    requires
        h.len() <= cap,
        cap > 0,
    ensures
        capped_push(h, value, cap).len() <= cap,
        capped_push(h, value, cap).last() == value,
{
}

/// View of the sparkline histories.
pub struct SparklineHistories {
    pub cpu: Seq<u64>,
    pub ram: Seq<u64>,
    pub net: Seq<u64>,
}

/// Rolling sparkline state for CPU, RAM, and network metrics.
#[derive(Debug)]
pub struct SystemSparklines {
    cpu_history: VecDeque<u64>,
    ram_history: VecDeque<u64>,
    net_history: VecDeque<u64>,
}

impl View for SystemSparklines {
    type V = SparklineHistories;

    closed spec fn view(&self) -> SparklineHistories {
        SparklineHistories { cpu: self.cpu_history@, ram: self.ram_history@, net: self.net_history@ }
    }
}

impl Default for SystemSparklines {
    fn default() -> (s: Self)
        ensures
            s@.cpu == Seq::<u64>::empty(),
            s@.ram == Seq::<u64>::empty(),
            s@.net == Seq::<u64>::empty(),
    {
        SystemSparklines {
            cpu_history: VecDeque::with_capacity(HISTORY_CAP),
            ram_history: VecDeque::with_capacity(HISTORY_CAP),
            net_history: VecDeque::with_capacity(HISTORY_CAP),
        }
    }
}

impl SystemSparklines {
    /// Records one sample: `avg_cpu` (average CPU use, whole per cent), the
    /// total of `mem_bytes` in whole megabytes, and the total of `edge_rates`
    /// (bytes per second).
    pub fn update(&mut self, avg_cpu: u64, mem_bytes: &[u64], edge_rates: &[u64])
        requires
            sum_u64(mem_bytes@) <= u64::MAX,
            sum_u64(edge_rates@) <= u64::MAX,
        ensures
            final(self)@.cpu == capped_push(old(self)@.cpu, avg_cpu, HISTORY_CAP as nat),
            final(self)@.ram == capped_push(
                old(self)@.ram,
                (sum_u64(mem_bytes@) / (1024 * 1024)) as u64,
                HISTORY_CAP as nat,
            ),
            final(self)@.net == capped_push(old(self)@.net, sum_u64(edge_rates@) as u64, HISTORY_CAP as nat),
    {
        let ram_mb = total_of(mem_bytes) / (1024 * 1024);
        let net_bps = total_of(edge_rates);
        push_capped(&mut self.cpu_history, avg_cpu, HISTORY_CAP);
        push_capped(&mut self.ram_history, ram_mb, HISTORY_CAP);
        push_capped(&mut self.net_history, net_bps, HISTORY_CAP);
    }

    /// CPU samples, oldest first.
    pub fn cpu_history(&self) -> (h: &VecDeque<u64>)
        ensures
            h@ == self@.cpu,
    {
        &self.cpu_history
    }

    /// RAM samples in megabytes, oldest first.
    pub fn ram_history(&self) -> (h: &VecDeque<u64>)
        ensures
            h@ == self@.ram,
    {
        &self.ram_history
    }

    /// Network samples in bytes per second, oldest first.
    pub fn net_history(&self) -> (h: &VecDeque<u64>)
        ensures
            h@ == self@.net,
    {
        &self.net_history
    }
}

} // verus!
