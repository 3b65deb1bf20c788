//! CPU frequency levels.
use vstd::prelude::*;

verus! {

/// The three frequency levels.
#[derive(Debug, Clone, Copy, PartialEq, Eq, Structural)]
pub enum CpuFrequencyLevel {
    High,
    Medium,
    Low,
}

/// The current level and the frequencies, in MHz.
pub struct CpuFrequencyInfo {
    pub current_level: CpuFrequencyLevel,
    pub current_frequency: u64,
    pub max_frequency: u64,
    pub min_frequency: u64,
}

/// The frequency of a level: the maximum, the mean of the extremes, or the minimum.
pub open spec fn frequency_of(level: CpuFrequencyLevel, max: u64, min: u64) -> u64 {
    match level {
        CpuFrequencyLevel::High => max,
        CpuFrequencyLevel::Medium => ((max + min) / 2) as u64,
        CpuFrequencyLevel::Low => min,
    }
}

/// The maximum frequency estimated from the time-stamp counter ticks counted
/// over about a millisecond; estimates below 100 MHz give the default 2000 MHz.
pub fn max_frequency_from_tsc(tsc_diff: u64) -> (f: u64)
    ensures
        f == (if tsc_diff / 1000 < 100 { 2000 } else { tsc_diff / 1000 }),
{
    let freq = tsc_diff / 1000;
    if freq < 100 {
        2000
    } else {
        freq
    }
}

/// Frequency information for a CPU of maximum frequency `max_freq`: the minimum is
/// half of it, the level medium and the current frequency half the maximum.
pub fn init(max_freq: u64) -> (info: Option<CpuFrequencyInfo>)
    ensures
        info matches Some(i) && i.current_level == CpuFrequencyLevel::Medium
            && i.current_frequency == max_freq / 2 && i.max_frequency == max_freq
            && i.min_frequency == max_freq / 2,
{
    let min_freq = max_freq / 2;
    Some(CpuFrequencyInfo {
        current_level: CpuFrequencyLevel::Medium,
        current_frequency: max_freq / 2,
        max_frequency: max_freq,
        min_frequency: min_freq,
    })
}

/// Whether the extremes of `info` can be summed without overflow.
pub open spec fn summable(info: Option<CpuFrequencyInfo>) -> bool {
    info matches Some(i) ==> i.max_frequency + i.min_frequency <= u64::MAX
}

/// Switches to `level` and its frequency; without information nothing changes.
pub fn set_frequency_level(info: &mut Option<CpuFrequencyInfo>, level: CpuFrequencyLevel)
    requires
        summable(*old(info)),
    ensures
        *old(info) is None ==> *final(info) is None,
        *old(info) is Some ==> *final(info) is Some && {
            let o = old(info)->0;
            let n = final(info)->0;
            &&& n.current_level == level
            &&& n.current_frequency == frequency_of(level, o.max_frequency, o.min_frequency)
            &&& n.max_frequency == o.max_frequency
            &&& n.min_frequency == o.min_frequency
        },
{
    match info {
        Some(i) => {
            i.current_level = level;
            i.current_frequency = match level {
                CpuFrequencyLevel::High => i.max_frequency,
                CpuFrequencyLevel::Medium => (i.max_frequency + i.min_frequency) / 2,
                CpuFrequencyLevel::Low => i.min_frequency,
            };
        },
        None => {},
    }
}

/// The current level, if known.
pub fn get_frequency_level(info: &Option<CpuFrequencyInfo>) -> (r: Option<CpuFrequencyLevel>)
    ensures
        match *info {
            Some(i) => r == Some(i.current_level),
            None => r is None,
        },
{
    match info {
        Some(i) => Some(i.current_level),
        None => None,
    }
}

/// The frequency information, if known.
pub fn get_frequency_info(info: &Option<CpuFrequencyInfo>) -> (r: Option<&CpuFrequencyInfo>)
    ensures
        match *info {
            Some(i) => r == Some(&i),
            None => r is None,
        },
{
    match info {
        Some(i) => Some(i),
        None => None,
    }
}

/// The level for a load given in percent: above 80 high, above 40 medium, else
/// low. These are the thresholds 0.8 and 0.4 on the load `percent / 100.0`:
/// 80 / 100.0 and 40 / 100.0 round to exactly those constants.
pub fn level_for_load_percent(percent: u64) -> (l: CpuFrequencyLevel)
    ensures
        l == (if percent > 80 {
            CpuFrequencyLevel::High
        } else if percent > 40 {
            CpuFrequencyLevel::Medium
        } else {
            CpuFrequencyLevel::Low
        }),
{
    if percent > 80 {
        CpuFrequencyLevel::High
    } else if percent > 40 {
        CpuFrequencyLevel::Medium
    } else {
        CpuFrequencyLevel::Low
    }
}

/// Numeric code of a level: High 0, Medium 1, Low 2.
pub open spec fn level_code(l: CpuFrequencyLevel) -> isize {
    match l {
        CpuFrequencyLevel::High => 0,
        CpuFrequencyLevel::Medium => 1,
        CpuFrequencyLevel::Low => 2,
    }
}

/// What the CPU frequency system call does.
pub open spec fn cpu_call_post(oldi: Option<CpuFrequencyInfo>, newi: Option<CpuFrequencyInfo>, cmd: u64, arg1: u64, r: isize) -> bool {
    &&& (cmd == 0 ==> newi == oldi && r == match oldi {
        Some(i) => level_code(i.current_level),
        None => -1isize,
    })
    &&& (cmd == 2 ==> newi == oldi && r == match oldi {
        Some(i) => i.current_frequency as isize,
        None => -1isize,
    })
    &&& ((cmd == 1 && arg1 > 2) || cmd > 3 ==> r == -1 && newi == oldi)
    &&& ((cmd == 1 && arg1 <= 2) || cmd == 3 ==> r == 0 && {
        let level = if cmd == 1 {
            if arg1 == 0 { CpuFrequencyLevel::High } else if arg1 == 1 { CpuFrequencyLevel::Medium } else { CpuFrequencyLevel::Low }
        } else if arg1 > 80 {
            CpuFrequencyLevel::High
        } else if arg1 > 40 {
            CpuFrequencyLevel::Medium
        } else {
            CpuFrequencyLevel::Low
        };
        match oldi {
            None => newi is None,
            Some(o) => newi matches Some(n) && n.current_level == level
                && n.current_frequency == frequency_of(level, o.max_frequency, o.min_frequency)
                && n.max_frequency == o.max_frequency && n.min_frequency == o.min_frequency,
        }
    })
}

/// The CPU frequency system call. Command 0 reports the level's code; 1 sets the
/// level of code `arg1`; 2 reports the current frequency; 3 sets the level for
/// the load `arg1` percent. Settings give 0; unknown codes and commands, and
/// reports without information, give -1.
pub fn syscall_cpu_frequency(
    info: &mut Option<CpuFrequencyInfo>,
    cmd: u64,
    arg1: u64,
    _arg2: u64,
    _arg3: u64,
    _arg4: u64,
    _arg5: u64,
    _arg6: u64,
) -> (r: isize)
    requires
        summable(*old(info)),
    ensures
        cpu_call_post(*old(info), *final(info), cmd, arg1, r),
{
    if cmd == 0 {
        match get_frequency_level(info) {
            Some(level) => match level {
                CpuFrequencyLevel::High => 0,
                CpuFrequencyLevel::Medium => 1,
                CpuFrequencyLevel::Low => 2,
            },
            None => -1isize,
        }
    } else if cmd == 1 {
        let level = if arg1 == 0 {
            CpuFrequencyLevel::High
        } else if arg1 == 1 {
            CpuFrequencyLevel::Medium
        } else if arg1 == 2 {
            CpuFrequencyLevel::Low
        } else {
            return -1;
        };
        set_frequency_level(info, level);
        0
    } else if cmd == 2 {
        match get_frequency_info(info) {
            Some(i) => #[verifier::truncate] (i.current_frequency as isize),
            None => -1isize,
        }
    } else if cmd == 3 {
        let level = level_for_load_percent(arg1);
        set_frequency_level(info, level);
        0
    } else {
        -1
    }
}

/// The level set through the frequency call is the level it reports, and
/// the frequency it reports is that level's: after command 1 with level code
/// `l` (0 high, 1 medium, 2 low), command 0 answers `l` and command 2 answers
/// the level's frequency. (Right after `init` the level is medium but the
/// frequency is half the maximum, not the mean of the extremes; the match
/// holds from the first level set on.)
pub proof fn law_set_level_then_report(
    i0: Option<CpuFrequencyInfo>, i1: Option<CpuFrequencyInfo>, i2: Option<CpuFrequencyInfo>, i3: Option<CpuFrequencyInfo>,
    l: u64, a2: u64, a3: u64, r1: isize, r2: isize, r3: isize,
)
    requires
        i0 is Some,
        l <= 2,
        cpu_call_post(i0, i1, 1, l, r1),
        cpu_call_post(i1, i2, 0, a2, r2),
        cpu_call_post(i2, i3, 2, a3, r3),
    ensures
        r1 == 0,
        r2 == l,
        r3 == frequency_of(i3->0.current_level, i0->0.max_frequency, i0->0.min_frequency) as isize,
        i3 == i1,
{
}

} // verus!
