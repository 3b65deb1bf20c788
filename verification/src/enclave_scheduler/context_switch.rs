//! Saved enclave register state, switch-time statistics and preemption control.
use vstd::prelude::*;

verus! {

/// Totals and extremes of the recorded switch times.
#[derive(Debug, Clone, Copy)]
pub struct ContextSwitchStats {
    pub total_switches: usize,
    pub total_switch_time_ns: u64,
    pub min_switch_time_ns: u64,
    pub max_switch_time_ns: u64,
}

/// Register state saved for an enclave.
pub struct EnclaveContext {
    pub rax: u64,
    pub rbx: u64,
    pub rcx: u64,
    pub rdx: u64,
    pub rsi: u64,
    pub rdi: u64,
    pub rbp: u64,
    pub rsp: u64,
    pub r8: u64,
    pub r9: u64,
    pub r10: u64,
    pub r11: u64,
    pub r12: u64,
    pub r13: u64,
    pub r14: u64,
    pub r15: u64,
    pub rip: u64,
    pub rflags: u64,
    pub uses_fpu: bool,
}

impl EnclaveContext {
    /// Whether every register is zero and no floating-point state is kept.
    pub open spec fn is_zeroed(&self) -> bool {
        &&& self.rax == 0 && self.rbx == 0 && self.rcx == 0 && self.rdx == 0
        &&& self.rsi == 0 && self.rdi == 0 && self.rbp == 0 && self.rsp == 0
        &&& self.r8 == 0 && self.r9 == 0 && self.r10 == 0 && self.r11 == 0
        &&& self.r12 == 0 && self.r13 == 0 && self.r14 == 0 && self.r15 == 0
        &&& self.rip == 0 && self.rflags == 0
        &&& !self.uses_fpu
    }

    /// A context with every register zero.
    pub fn new() -> (c: Self)
        ensures
            c.is_zeroed(),
    {
        EnclaveContext {
            rax: 0,
            rbx: 0,
            rcx: 0,
            rdx: 0,
            rsi: 0,
            rdi: 0,
            rbp: 0,
            rsp: 0,
            r8: 0,
            r9: 0,
            r10: 0,
            r11: 0,
            r12: 0,
            r13: 0,
            r14: 0,
            r15: 0,
            rip: 0,
            rflags: 0,
            uses_fpu: false,
        }
    }
}

impl Default for EnclaveContext {
    fn default() -> (c: Self)
        ensures
            c.is_zeroed(),
    {
        Self::new()
    }
}

/// Statistics over the context switches performed.
pub struct ContextSwitchManager {
    stats: ContextSwitchStats,
    total_switches: usize,
    total_switch_time: u64,
    min_switch_time: u64,
    max_switch_time: u64,
}

impl ContextSwitchManager {
    /// The counters: number of switches, summed time, least and greatest time.
    pub closed spec fn view(&self) -> (usize, u64, u64, u64) {
        (self.total_switches, self.total_switch_time, self.min_switch_time, self.max_switch_time)
    }

    /// A manager with no switch recorded: the minimum starts at `u64::MAX`.
    pub fn new() -> (m: Self)
        ensures
            m@ == (0usize, 0u64, u64::MAX, 0u64),
    {
        ContextSwitchManager {
            stats: ContextSwitchStats {
                total_switches: 0,
                total_switch_time_ns: 0,
                min_switch_time_ns: u64::MAX,
                max_switch_time_ns: 0,
            },
            total_switches: 0,
            total_switch_time: 0,
            min_switch_time: u64::MAX,
            max_switch_time: 0,
        }
    }

    /// Records a switch that took `time_ns`: the counters advance modulo the
    /// word size, the extremes take the new time where it lies beyond them.
    pub fn record_switch(&mut self, time_ns: u64)
        ensures
            final(self)@.0 == old(self)@.0.wrapping_add(1),
            final(self)@.1 == old(self)@.1.wrapping_add(time_ns),
            final(self)@.2 == (if time_ns < old(self)@.2 { time_ns } else { old(self)@.2 }),
            final(self)@.3 == (if time_ns > old(self)@.3 { time_ns } else { old(self)@.3 }),
    {
        self.total_switches = self.total_switches.wrapping_add(1);
        self.total_switch_time = self.total_switch_time.wrapping_add(time_ns);
        if time_ns < self.min_switch_time {
            self.min_switch_time = time_ns;
        }
        if time_ns > self.max_switch_time {
            self.max_switch_time = time_ns;
        }
    }

    /// Records a switch that started at time stamp `start` and ended at `end`.
    pub fn finish_switch(&mut self, start: u64, end: u64)
        requires
            start <= end,
        ensures
            final(self)@.0 == old(self)@.0.wrapping_add(1),
            final(self)@.1 == old(self)@.1.wrapping_add((end - start) as u64),
            final(self)@.2 == (if ((end - start) as u64) < old(self)@.2 { (end - start) as u64 } else { old(self)@.2 }),
            final(self)@.3 == (if ((end - start) as u64) > old(self)@.3 { (end - start) as u64 } else { old(self)@.3 }),
    {
        let switch_time = end - start;
        self.record_switch(switch_time);
    }

    /// The counters as a statistics record.
    pub fn get_stats(&self) -> (s: ContextSwitchStats)
        ensures
            s.total_switches == self@.0,
            s.total_switch_time_ns == self@.1,
            s.min_switch_time_ns == self@.2,
            s.max_switch_time_ns == self@.3,
    {
        ContextSwitchStats {
            total_switches: self.total_switches,
            total_switch_time_ns: self.total_switch_time,
            min_switch_time_ns: self.min_switch_time,
            max_switch_time_ns: self.max_switch_time,
        }
    }

    /// Mean switch time, rounded down; 0 before any switch.
    pub fn average_switch_time(&self) -> (r: u64)
        ensures
            self@.0 == 0 ==> r == 0,
            self@.0 != 0 ==> r == self@.1 / (self@.0 as u64),
    {
        let total = self.total_switches;
        if total == 0 {
            return 0;
        }
        self.total_switch_time / (total as u64)
    }

    /// Forgets every recorded switch.
    pub fn reset_stats(&mut self)
        ensures
            final(self)@ == (0usize, 0u64, u64::MAX, 0u64),
    {
        self.total_switches = 0;
        self.total_switch_time = 0;
        self.min_switch_time = u64::MAX;
        self.max_switch_time = 0;
    }
}

impl Default for ContextSwitchManager {
    fn default() -> (m: Self)
        ensures
            m@ == (0usize, 0u64, u64::MAX, 0u64),
    {
        Self::new()
    }
}

/// Whether a newly ready enclave may take the processor from the running one.
pub struct PreemptionControl {
    preemption_enabled: bool,
    current_priority: u8,
}

impl PreemptionControl {
    /// Whether preemption is enabled.
    pub closed spec fn enabled(&self) -> bool {
        self.preemption_enabled
    }

    /// Priority of the running enclave.
    pub closed spec fn priority(&self) -> u8 {
        self.current_priority
    }

    /// Preemption enabled, running priority 0.
    pub fn new() -> (p: Self)
        ensures
            p.enabled(),
            p.priority() == 0,
    {
        PreemptionControl { preemption_enabled: true, current_priority: 0 }
    }

    /// Preempt only when enabled and `new_priority` exceeds the running priority.
    pub fn should_preempt(&self, new_priority: u8) -> (r: bool)
        ensures
            r == (self.enabled() && new_priority > self.priority()),
    {
        if !self.preemption_enabled {
            return false;
        }
        new_priority > self.current_priority
    }

    /// Sets the running priority.
    pub fn set_current_priority(&mut self, priority: u8)
        ensures
            final(self).priority() == priority,
            final(self).enabled() == old(self).enabled(),
    {
        self.current_priority = priority;
    }

    /// Enables or disables preemption.
    pub fn set_preemption_enabled(&mut self, enabled: bool)
        ensures
            final(self).enabled() == enabled,
            final(self).priority() == old(self).priority(),
    {
        self.preemption_enabled = enabled;
    }

    /// Whether preemption is enabled.
    pub fn is_preemption_enabled(&self) -> (r: bool)
        ensures
            r == self.enabled(),
    {
        self.preemption_enabled
    }
}

impl Default for PreemptionControl {
    fn default() -> (p: Self)
        ensures
            p.enabled(),
            p.priority() == 0,
    {
        Self::new()
    }
}

} // verus!
