//! Scheduling counters, the debug command interface and the switch-time log.
use vstd::prelude::*;
use super::EnclaveType;
use super::EnclaveScheduler;
use super::queue::QueueStatus;
use super::context_switch::{ContextSwitchManager, ContextSwitchStats};
use super::ring_buffer::RING_BUFFER_SIZE;
use super::core_binding::{CoreConfig, CpuMask};
use vstd::relations::{sorted_by, total_ordering};
use vstd::seq_lib::lemma_sorted_unique;

verus! {

/// How often each enclave kind has been scheduled.
#[derive(Debug, Clone, Copy)]
pub struct EnclaveScheduleStats {
    pub total_schedules: usize,
    pub ai_schedules: usize,
    pub graphic_schedules: usize,
    pub media_schedules: usize,
    pub network_schedules: usize,
}

/// Scheduling counters and the start time stamp.
pub struct MonitoringStats {
    schedule_stats: EnclaveScheduleStats,
    total_schedules: usize,
    ai_schedules: usize,
    graphic_schedules: usize,
    media_schedules: usize,
    network_schedules: usize,
    start_time: u64,
}

impl MonitoringStats {
    /// Total schedules, then those of AI, graphics, media and network enclaves.
    pub closed spec fn counts(&self) -> (usize, usize, usize, usize, usize) {
        (self.total_schedules, self.ai_schedules, self.graphic_schedules, self.media_schedules, self.network_schedules)
    }

    /// The recorded start time stamp.
    pub closed spec fn start(&self) -> u64 {
        self.start_time
    }

    /// The counter of kind `t` in `c`.
    pub open spec fn count_of(c: (usize, usize, usize, usize, usize), t: EnclaveType) -> usize {
        match t {
            EnclaveType::AIEnclave => c.1,
            EnclaveType::GraphicEnclave => c.2,
            EnclaveType::MediaEnclave => c.3,
            EnclaveType::NetworkEnclave => c.4,
        }
    }

    /// All counters zero, start time zero.
    pub fn new() -> (m: Self)
        ensures
            m.counts() == (0usize, 0usize, 0usize, 0usize, 0usize),
            m.start() == 0,
    {
        MonitoringStats {
            schedule_stats: EnclaveScheduleStats {
                total_schedules: 0,
                ai_schedules: 0,
                graphic_schedules: 0,
                media_schedules: 0,
                network_schedules: 0,
            },
            total_schedules: 0,
            ai_schedules: 0,
            graphic_schedules: 0,
            media_schedules: 0,
            network_schedules: 0,
            start_time: 0,
        }
    }

    /// Counts one schedule of kind `enclave_type`, in the total and in its own counter,
    /// both modulo the word size.
    pub fn record_schedule(&mut self, enclave_type: EnclaveType)
        ensures
            final(self).counts().0 == old(self).counts().0.wrapping_add(1),
            MonitoringStats::count_of(final(self).counts(), enclave_type)
                == MonitoringStats::count_of(old(self).counts(), enclave_type).wrapping_add(1),
            forall|t: EnclaveType| t != enclave_type ==>
                #[trigger] MonitoringStats::count_of(final(self).counts(), t) == MonitoringStats::count_of(old(self).counts(), t),
            final(self).start() == old(self).start(),
    {
        self.total_schedules = self.total_schedules.wrapping_add(1);
        match enclave_type {
            EnclaveType::AIEnclave => { self.ai_schedules = self.ai_schedules.wrapping_add(1); },
            EnclaveType::GraphicEnclave => { self.graphic_schedules = self.graphic_schedules.wrapping_add(1); },
            EnclaveType::MediaEnclave => { self.media_schedules = self.media_schedules.wrapping_add(1); },
            EnclaveType::NetworkEnclave => { self.network_schedules = self.network_schedules.wrapping_add(1); },
        }
    }

    /// Sets the start time stamp.
    pub fn set_start_time(&mut self, time: u64)
        ensures
            final(self).start() == time,
            final(self).counts() == old(self).counts(),
    {
        self.start_time = time;
    }

    /// The counters as a statistics record.
    pub fn get_schedule_stats(&self) -> (s: EnclaveScheduleStats)
        ensures
            (s.total_schedules, s.ai_schedules, s.graphic_schedules, s.media_schedules, s.network_schedules)
                == self.counts(),
    {
        EnclaveScheduleStats {
            total_schedules: self.total_schedules,
            ai_schedules: self.ai_schedules,
            graphic_schedules: self.graphic_schedules,
            media_schedules: self.media_schedules,
            network_schedules: self.network_schedules,
        }
    }

    /// Zeroes the counters; the start time stays.
    pub fn reset_stats(&mut self)
        ensures
            final(self).counts() == (0usize, 0usize, 0usize, 0usize, 0usize),
            final(self).start() == old(self).start(),
    {
        self.total_schedules = 0;
        self.ai_schedules = 0;
        self.graphic_schedules = 0;
        self.media_schedules = 0;
        self.network_schedules = 0;
    }
}

impl Default for MonitoringStats {
    fn default() -> (m: Self)
        ensures
            m.counts() == (0usize, 0usize, 0usize, 0usize, 0usize),
            m.start() == 0,
    {
        Self::new()
    }
}

/// Commands of the scheduler's debug interface.
#[derive(Debug, Clone, Copy, PartialEq, Eq, Structural)]
pub enum DebugCommand {
    ShowStatus,
    ShowCoreBinding,
    ShowContextSwitchStats,
    ShowQueueStatus,
    ResetStats,
}

/// What a debug command reports; the console prints it.
pub enum DebugReport {
    /// The running enclave and the scheduling counters.
    Status { current: Option<EnclaveType>, stats: EnclaveScheduleStats },
    /// The number of cores, their layout and the cores exclusive to enclaves.
    CoreBinding { total_cores: u64, config: CoreConfig, exclusive: CpuMask },
    /// The totals and extremes of the recorded switch times.
    ContextSwitchStats { stats: ContextSwitchStats },
    /// The status of the AI, graphics, media and network queues, in that order.
    QueueStatus { queues: Vec<(EnclaveType, QueueStatus)> },
    /// The scheduling counters were zeroed.
    ResetStats,
}

/// The scheduler's debug interface.
pub struct DebugInterface;

impl DebugInterface {
    /// Runs `command` on `scheduler`, with `switches` as the record of context
    /// switches: every command but the reset only reports and changes nothing;
    /// the reset zeroes the scheduling counters and leaves the rest.
    pub fn execute_command(scheduler: &mut EnclaveScheduler, switches: &ContextSwitchManager, command: DebugCommand) -> (r: DebugReport)
        requires
            old(scheduler).wf(),
        ensures
            final(scheduler).wf(),
            command != DebugCommand::ResetStats ==> *final(scheduler) == *old(scheduler),
            command == DebugCommand::ShowStatus ==> (r matches DebugReport::Status { current, stats }
                && current == old(scheduler).current_spec()
                && (stats.total_schedules, stats.ai_schedules, stats.graphic_schedules, stats.media_schedules,
                    stats.network_schedules) == old(scheduler).monitoring_spec().counts()),
            command == DebugCommand::ShowCoreBinding ==> (r matches DebugReport::CoreBinding { total_cores, config, exclusive }
                && total_cores == old(scheduler).core_binding_spec().total_cores_spec()
                && config == old(scheduler).core_binding_spec().config_spec()
                && forall|c: u64| #[trigger] exclusive.has(c) == (
                    (config.ai_cores.has(c) || config.graphic_cores.has(c) || config.media_cores.has(c)
                        || config.network_cores.has(c)) && c < 64 && !config.normal_cores.has(c))),
            command == DebugCommand::ShowContextSwitchStats ==> (r matches DebugReport::ContextSwitchStats { stats }
                && stats.total_switches == switches@.0
                && stats.total_switch_time_ns == switches@.1
                && stats.min_switch_time_ns == switches@.2
                && stats.max_switch_time_ns == switches@.3),
            command == DebugCommand::ShowQueueStatus ==> (r matches DebugReport::QueueStatus { queues }
                && queues@.len() == 4
                && queues@[0].0 == EnclaveType::AIEnclave && queues@[1].0 == EnclaveType::GraphicEnclave
                && queues@[2].0 == EnclaveType::MediaEnclave && queues@[3].0 == EnclaveType::NetworkEnclave
                && forall|i: int| 0 <= i < 4 ==> {
                    let (t, st) = #[trigger] queues@[i];
                    &&& st.length == old(scheduler).queue_of(t).len()
                    &&& st.is_empty == (old(scheduler).queue_of(t).len() == 0)
                    &&& st.is_full == (old(scheduler).queue_of(t).len() == RING_BUFFER_SIZE - 1)
                    &&& st.total_enqueues == old(scheduler).queue_spec(t).enqueues()
                    &&& st.total_dequeues == old(scheduler).queue_spec(t).dequeues()
                }),
            command == DebugCommand::ResetStats ==> (r is ResetStats
                && final(scheduler).monitoring_spec().counts() == (0usize, 0usize, 0usize, 0usize, 0usize)
                && final(scheduler).monitoring_spec().start() == old(scheduler).monitoring_spec().start()
                && (forall|t: EnclaveType| #[trigger] final(scheduler).queue_spec(t) == old(scheduler).queue_spec(t))
                && final(scheduler).current_spec() == old(scheduler).current_spec()
                && final(scheduler).core_binding_spec() == old(scheduler).core_binding_spec()),
    {
        match command {
            DebugCommand::ShowStatus => DebugReport::Status {
                current: scheduler.current_enclave(),
                stats: scheduler.monitoring().get_schedule_stats(),
            },
            DebugCommand::ShowCoreBinding => {
                let core_binding = scheduler.core_binding();
                DebugReport::CoreBinding {
                    total_cores: core_binding.total_cores(),
                    config: *core_binding.config(),
                    exclusive: core_binding.get_enclave_exclusive_cores(),
                }
            },
            DebugCommand::ShowContextSwitchStats => DebugReport::ContextSwitchStats { stats: switches.get_stats() },
            DebugCommand::ShowQueueStatus => {
                let mut queues: Vec<(EnclaveType, QueueStatus)> = Vec::new();
                queues.push((EnclaveType::AIEnclave, scheduler.queue_status(EnclaveType::AIEnclave)));
                queues.push((EnclaveType::GraphicEnclave, scheduler.queue_status(EnclaveType::GraphicEnclave)));
                queues.push((EnclaveType::MediaEnclave, scheduler.queue_status(EnclaveType::MediaEnclave)));
                queues.push((EnclaveType::NetworkEnclave, scheduler.queue_status(EnclaveType::NetworkEnclave)));
                DebugReport::QueueStatus { queues }
            },
            DebugCommand::ResetStats => {
                scheduler.reset_stats();
                DebugReport::ResetStats
            },
        }
    }
}

/// Number of switch times the log keeps.
pub const SWITCH_LOG_SIZE: usize = 1024;

/// A circular log of the most recent switch times.
/// The order of switch times: numeric.
pub open spec fn time_leq() -> spec_fn(u64, u64) -> bool {
    |a: u64, b: u64| a <= b
}

/// The position of the 99th percentile in a sorted log of `SWITCH_LOG_SIZE` times.
pub const PERCENTILE_INDEX: usize = 1013;

/// The numeric order is total.
pub proof fn lemma_time_order()
    ensures
        total_ordering(time_leq()),
{
}

/// `s` with `x` inserted at the first place whose element exceeds it stays sorted.
proof fn lemma_insert_sorted(s: Seq<u64>, p: int, x: u64)
    requires
        sorted_by(s, time_leq()),
        0 <= p <= s.len(),
        forall|k: int| 0 <= k < p ==> s[k] <= x,
        p < s.len() ==> x < s[p],
    ensures
        sorted_by(s.insert(p, x), time_leq()),
{
    let t = s.insert(p, x);
    assert forall|i: int, j: int| 0 <= i < j < t.len() implies #[trigger] (time_leq())(t[i], t[j]) by {
        if j < p {
            assert((time_leq())(s[i], s[j]));
        } else if j == p {
            assert(s[i] <= x);
        } else if i < p {
            assert((time_leq())(s[i], s[j - 1]));
        } else if i == p {
            assert((time_leq())(s[p], s[j - 1]));
        } else {
            assert((time_leq())(s[i - 1], s[j - 1]));
        }
    }
}

pub struct PerformanceMonitorBuffer {
    switch_times: Vec<u64>,
    write_idx: usize,
}

impl PerformanceMonitorBuffer {
    /// The log has `SWITCH_LOG_SIZE` slots.
    pub closed spec fn wf(&self) -> bool {
        self.switch_times@.len() == SWITCH_LOG_SIZE
    }

    /// The slots of the log.
    pub closed spec fn times(&self) -> Seq<u64> {
        self.switch_times@
    }

    /// Number of times recorded so far, modulo the word size.
    pub closed spec fn recorded(&self) -> usize {
        self.write_idx
    }

    /// A log of zeros.
    pub fn new() -> (b: Self)
        ensures
            b.wf(),
            b.times() == Seq::new(SWITCH_LOG_SIZE as nat, |i: int| 0u64),
            b.recorded() == 0,
    {
        let mut switch_times: Vec<u64> = Vec::new();
        let mut i: usize = 0;
        while i < SWITCH_LOG_SIZE
            invariant
                i <= SWITCH_LOG_SIZE,
                switch_times@ == Seq::new(i as nat, |k: int| 0u64),
            decreases SWITCH_LOG_SIZE - i,
        {
            switch_times.push(0);
            i = i + 1;
        }
        PerformanceMonitorBuffer { switch_times, write_idx: 0 }
    }

    /// Stores `time_ns` in the slot of the current count and advances the count.
    pub fn record_switch_time(&mut self, time_ns: u64)
        requires
            old(self).wf(),
        ensures
            final(self).wf(),
            final(self).times() == old(self).times().update((old(self).recorded() % SWITCH_LOG_SIZE) as int, time_ns),
            final(self).recorded() == old(self).recorded().wrapping_add(1),
    {
        let idx = self.write_idx % SWITCH_LOG_SIZE;
        self.write_idx = self.write_idx.wrapping_add(1);
        self.switch_times.set(idx, time_ns);
    }

    /// The `count` slots before the current count (at most `SWITCH_LOG_SIZE`), oldest first.
    pub fn get_recent_switch_times(&self, count: usize) -> (r: Vec<u64>)
        requires
            self.wf(),
            self.recorded() + SWITCH_LOG_SIZE <= usize::MAX,
            count <= self.recorded() + SWITCH_LOG_SIZE,
        ensures
            r@.len() == vstd::math::min(count as int, SWITCH_LOG_SIZE as int),
            forall|i: int| 0 <= i < r@.len() ==> #[trigger] r@[i]
                == self.times()[(self.recorded() + SWITCH_LOG_SIZE - count + i) % (SWITCH_LOG_SIZE as int)],
    {
        let mut result: Vec<u64> = Vec::new();
        let write_idx = self.write_idx;
        let n = if count < SWITCH_LOG_SIZE { count } else { SWITCH_LOG_SIZE };
        let mut i: usize = 0;
        while i < n
            invariant
                i <= n,
                n == vstd::math::min(count as int, SWITCH_LOG_SIZE as int),
                write_idx == self.recorded(),
                self.wf(),
                write_idx + SWITCH_LOG_SIZE <= usize::MAX,
                count <= write_idx + SWITCH_LOG_SIZE,
                result@.len() == i,
                forall|k: int| 0 <= k < i ==> #[trigger] result@[k]
                    == self.times()[(write_idx + SWITCH_LOG_SIZE - count + k) % (SWITCH_LOG_SIZE as int)],
            decreases n - i,
        {
            let idx = (write_idx + SWITCH_LOG_SIZE - count + i) % SWITCH_LOG_SIZE;
            result.push(self.switch_times[idx]);
            i = i + 1;
        }
        result
    }

    /// The 99th-percentile switch time: entry `PERCENTILE_INDEX` of the
    /// logged times in increasing order.
    pub fn calculate_99th_latency(&self) -> (r: u64)
        requires
            self.wf(),
        ensures
            r == self.times().sort_by(time_leq())[PERCENTILE_INDEX as int],
    {
        broadcast use vstd::seq_lib::group_to_multiset_ensures;
        let mut times: Vec<u64> = Vec::new();
        let mut i: usize = 0;
        while i < SWITCH_LOG_SIZE
            invariant
                i <= SWITCH_LOG_SIZE,
                self.wf(),
                times@.len() == i,
                sorted_by(times@, time_leq()),
                times@.to_multiset() == self.times().take(i as int).to_multiset(),
            decreases SWITCH_LOG_SIZE - i,
        {
            let x = self.switch_times[i];
            let mut p: usize = 0;
            while p < times.len() && times[p] <= x
                invariant
                    p <= times@.len(),
                    forall|k: int| 0 <= k < p ==> times@[k] <= x,
                decreases times@.len() - p,
            {
                p = p + 1;
            }
            proof {
                lemma_insert_sorted(times@, p as int, x);
                assert(self.times().take(i + 1) =~= self.times().take(i as int).push(x));
                vstd::seq_lib::to_multiset_insert(times@, p as int, x);
                vstd::seq_lib::to_multiset_build(self.times().take(i as int), x);
            }
            times.insert(p, x);
            i = i + 1;
        }
        proof {
            assert(self.times().take(SWITCH_LOG_SIZE as int) =~= self.times());
            lemma_time_order();
            self.times().lemma_sort_by_ensures(time_leq());
            lemma_sorted_unique(times@, self.times().sort_by(time_leq()), time_leq());
        }
        let idx = (times.len() * 99) / 100;
        match times.get(idx) {
            Some(t) => *t,
            None => 0,
        }
    }
}

} // verus!
