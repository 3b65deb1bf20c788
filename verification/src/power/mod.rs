//! Power management: system power states, ACPI, CPU frequency and device power.
use vstd::prelude::*;

pub mod acpi;
pub mod cpu;
pub mod device;

verus! {

/// System power states.
#[derive(Debug, Clone, Copy, PartialEq, Eq, Structural)]
pub enum PowerState {
    Normal,
    Standby,
    Sleep,
    Off,
}

/// Errors of the power services.
#[derive(Debug, Clone, Copy, PartialEq, Eq, Structural)]
pub enum PowerError {
    AcpiUnavailable,
    UnsupportedOperation,
    DeviceError,
    Timeout,
}

/// A system power manager.
pub trait PowerManager {
    /// The state the manager reports.
    spec fn state_spec(&self) -> PowerState;

    /// Prepares the manager.
    fn init(&mut self) -> (r: Result<(), PowerError>)
        ensures
            final(self).state_spec() == old(self).state_spec();

    /// Enters `state`; on success the manager reports it.
    fn set_power_state(&mut self, state: PowerState) -> (r: Result<(), PowerError>)
        ensures
            r is Ok ==> final(self).state_spec() == state,
            r is Err ==> final(self).state_spec() == old(self).state_spec();

    /// The state the manager reports.
    fn get_power_state(&self) -> (s: PowerState)
        ensures
            s == self.state_spec();

    /// Returns to the normal state.
    fn wakeup(&mut self) -> (r: Result<(), PowerError>)
        ensures
            r is Ok ==> final(self).state_spec() == PowerState::Normal,
            r is Err ==> final(self).state_spec() == old(self).state_spec();

    /// Enters the sleep state.
    fn sleep(&mut self) -> (r: Result<(), PowerError>)
        ensures
            r is Ok ==> final(self).state_spec() == PowerState::Sleep,
            r is Err ==> final(self).state_spec() == old(self).state_spec();

    /// Enters the standby state.
    fn standby(&mut self) -> (r: Result<(), PowerError>)
        ensures
            r is Ok ==> final(self).state_spec() == PowerState::Standby,
            r is Err ==> final(self).state_spec() == old(self).state_spec();

    /// Powers off.
    fn shutdown(&mut self) -> (r: Result<(), PowerError>)
        ensures
            r is Ok ==> final(self).state_spec() == PowerState::Off,
            r is Err ==> final(self).state_spec() == old(self).state_spec();
}

/// The power manager used when ACPI is not available: it only records the state.
pub struct DefaultPowerManager {
    current_state: PowerState,
}

impl DefaultPowerManager {
    /// A manager in the normal state.
    pub fn new() -> (m: Self)
        ensures
            m.state_spec() == PowerState::Normal,
    {
        DefaultPowerManager { current_state: PowerState::Normal }
    }
}

impl PowerManager for DefaultPowerManager {
    closed spec fn state_spec(&self) -> PowerState {
        self.current_state
    }

    fn init(&mut self) -> (r: Result<(), PowerError>)
        ensures
            r is Ok,
    {
        Ok(())
    }

    fn set_power_state(&mut self, state: PowerState) -> (r: Result<(), PowerError>)
        ensures
            r is Ok,
    {
        self.current_state = state;
        Ok(())
    }

    fn get_power_state(&self) -> (s: PowerState) {
        self.current_state
    }

    fn wakeup(&mut self) -> (r: Result<(), PowerError>)
        ensures
            r is Ok,
    {
        self.current_state = PowerState::Normal;
        Ok(())
    }

    fn sleep(&mut self) -> (r: Result<(), PowerError>)
        ensures
            r is Ok,
    {
        self.current_state = PowerState::Sleep;
        Ok(())
    }

    fn standby(&mut self) -> (r: Result<(), PowerError>)
        ensures
            r is Ok,
    {
        self.current_state = PowerState::Standby;
        Ok(())
    }

    fn shutdown(&mut self) -> (r: Result<(), PowerError>)
        ensures
            r is Ok,
    {
        self.current_state = PowerState::Off;
        Ok(())
    }
}

/// The installed system power manager: ACPI when the firmware offers it, else the default.
pub enum SystemPowerManager {
    Acpi(acpi::AcpiManager),
    Default(DefaultPowerManager),
}

/// The value written to the ACPI control port to enter `state`.
pub open spec fn acpi_command(state: PowerState) -> u16 {
    match state {
        PowerState::Standby => 0x1000,
        PowerState::Sleep => 0x2000,
        PowerState::Off => 0x7000,
        PowerState::Normal => 0,
    }
}

/// Numeric code of a power state: Normal 0, Standby 1, Sleep 2, Off 3.
pub open spec fn power_state_code(s: PowerState) -> isize {
    match s {
        PowerState::Normal => 0,
        PowerState::Standby => 1,
        PowerState::Sleep => 2,
        PowerState::Off => 3,
    }
}

/// The power state of code `c`, if `c` is a code.
pub open spec fn power_state_of_code(c: u64) -> Option<PowerState> {
    if c == 0 {
        Some(PowerState::Normal)
    } else if c == 1 {
        Some(PowerState::Standby)
    } else if c == 2 {
        Some(PowerState::Sleep)
    } else if c == 3 {
        Some(PowerState::Off)
    } else {
        None
    }
}

impl SystemPowerManager {
    /// The state the installed manager reports.
    pub open spec fn state_spec(&self) -> PowerState {
        match self {
            SystemPowerManager::Acpi(m) => m.state_spec(),
            SystemPowerManager::Default(m) => m.state_spec(),
        }
    }

    /// Whether the installed manager is the default one.
    pub open spec fn is_default(&self) -> bool {
        self is Default
    }

    /// Whether the installed manager can enter a sleeping state: the default
    /// one always, the ACPI one when its table names a control port.
    pub open spec fn can_command(&self) -> bool {
        match self {
            SystemPowerManager::Acpi(m) => m.command_ok(),
            SystemPowerManager::Default(_) => true,
        }
    }

    /// `new` is `self` after entering `state`: the same kind of manager, in
    /// `state` on success and unchanged in state on failure, which comes
    /// exactly when a sleeping state is asked of a manager that cannot enter one.
    pub open spec fn moved_to(&self, new: &SystemPowerManager, state: PowerState, r: Result<(), PowerError>) -> bool {
        &&& new.is_default() == self.is_default()
        &&& new.can_command() == self.can_command()
        &&& if state == PowerState::Normal || self.can_command() {
            r is Ok && new.state_spec() == state
        } else {
            r is Err && new.state_spec() == self.state_spec()
        }
        &&& match (self, new) {
            (SystemPowerManager::Acpi(a), SystemPowerManager::Acpi(b)) => if state == PowerState::Normal {
                b.pending() == a.pending() && b.fadt_spec() == a.fadt_spec()
            } else {
                a.entered(b, acpi_command(state), state, r)
            },
            _ => true,
        }
    }

    /// The state the installed manager reports.
    pub fn get_power_state(&self) -> (s: PowerState)
        ensures
            s == self.state_spec(),
    {
        match self {
            SystemPowerManager::Acpi(m) => m.get_power_state(),
            SystemPowerManager::Default(m) => m.get_power_state(),
        }
    }

    /// Enters `state`.
    pub fn set_power_state(&mut self, state: PowerState) -> (r: Result<(), PowerError>)
        ensures
            old(self).moved_to(final(self), state, r),
    {
        match self {
            SystemPowerManager::Acpi(m) => m.set_power_state(state),
            SystemPowerManager::Default(m) => m.set_power_state(state),
        }
    }

    /// Returns to the normal state.
    pub fn wakeup(&mut self) -> (r: Result<(), PowerError>)
        ensures
            old(self).moved_to(final(self), PowerState::Normal, r),
    {
        match self {
            SystemPowerManager::Acpi(m) => m.wakeup(),
            SystemPowerManager::Default(m) => m.wakeup(),
        }
    }

    /// Enters the sleep state.
    pub fn sleep(&mut self) -> (r: Result<(), PowerError>)
        ensures
            old(self).moved_to(final(self), PowerState::Sleep, r),
    {
        match self {
            SystemPowerManager::Acpi(m) => m.sleep(),
            SystemPowerManager::Default(m) => m.sleep(),
        }
    }

    /// Enters the standby state.
    pub fn standby(&mut self) -> (r: Result<(), PowerError>)
        ensures
            old(self).moved_to(final(self), PowerState::Standby, r),
    {
        match self {
            SystemPowerManager::Acpi(m) => m.standby(),
            SystemPowerManager::Default(m) => m.standby(),
        }
    }

    /// Powers off.
    pub fn shutdown(&mut self) -> (r: Result<(), PowerError>)
        ensures
            old(self).moved_to(final(self), PowerState::Off, r),
    {
        match self {
            SystemPowerManager::Acpi(m) => m.shutdown(),
            SystemPowerManager::Default(m) => m.shutdown(),
        }
    }
}

/// Installs ACPI power management when `acpi` could be created and initialised,
/// else the default manager.
pub fn init(acpi: Result<acpi::AcpiManager, PowerError>) -> (m: SystemPowerManager)
    ensures
        match acpi {
            Ok(a) => if a.fadt_spec() is Some {
                m == SystemPowerManager::Acpi(a)
            } else {
                m.is_default() && m.state_spec() == PowerState::Normal
            },
            Err(_) => m.is_default() && m.state_spec() == PowerState::Normal,
        },
{
    match acpi {
        Ok(mut acpi_manager) => {
            if acpi_manager.init().is_ok() {
                SystemPowerManager::Acpi(acpi_manager)
            } else {
                SystemPowerManager::Default(DefaultPowerManager::new())
            }
        },
        Err(_) => SystemPowerManager::Default(DefaultPowerManager::new()),
    }
}

/// Entering `state` through the system call: `f` is `m` moved to `state`,
/// and the call answers 0 on success and -1 on failure.
pub open spec fn call_moved(m: SystemPowerManager, f: SystemPowerManager, state: PowerState, r: isize) -> bool {
    exists|res: Result<(), PowerError>| #[trigger] m.moved_to(&f, state, res) && r == (if res is Ok { 0isize } else { -1isize })
}

/// What the power system call does.
pub open spec fn power_call_post(oldm: Option<SystemPowerManager>, newm: Option<SystemPowerManager>, cmd: u64, arg1: u64, r: isize) -> bool {
    &&& (oldm is None ==> r == -1 && newm is None)
    &&& (oldm is Some ==> newm is Some)
    &&& (oldm is Some ==> {
        let m = oldm->0;
        let f = newm->0;
        &&& cmd == 0 ==> r == power_state_code(m.state_spec()) && f == m
        &&& cmd == 1 ==> match power_state_of_code(arg1) {
            None => r == -1 && f == m,
            Some(s) => call_moved(m, f, s, r),
        }
        &&& cmd == 2 ==> call_moved(m, f, PowerState::Sleep, r)
        &&& cmd == 3 ==> call_moved(m, f, PowerState::Normal, r)
        &&& cmd == 4 ==> call_moved(m, f, PowerState::Standby, r)
        &&& cmd == 5 ==> call_moved(m, f, PowerState::Off, r)
        &&& cmd > 5 ==> r == -1 && f == m
    })
}

/// The power system call. Command 0 reports the state's code; 1 enters the state
/// of code `arg1`; 2 sleeps, 3 wakes, 4 stands by, 5 powers off. Successful
/// changes give 0, failures, unknown codes and a missing manager give -1.
pub fn syscall_power_management(
    manager: &mut Option<SystemPowerManager>,
    cmd: u64,
    arg1: u64,
    _arg2: u64,
    _arg3: u64,
    _arg4: u64,
    _arg5: u64,
    _arg6: u64,
) -> (r: isize)
    ensures
        power_call_post(*old(manager), *final(manager), cmd, arg1, r),
{
    match manager {
        Some(m) => {
            if cmd == 0 {
                match m.get_power_state() {
                    PowerState::Normal => 0,
                    PowerState::Standby => 1,
                    PowerState::Sleep => 2,
                    PowerState::Off => 3,
                }
            } else if cmd == 1 {
                let state = if arg1 == 0 {
                    PowerState::Normal
                } else if arg1 == 1 {
                    PowerState::Standby
                } else if arg1 == 2 {
                    PowerState::Sleep
                } else if arg1 == 3 {
                    PowerState::Off
                } else {
                    return -1;
                };
                match m.set_power_state(state) {
                    Ok(_) => 0,
                    Err(_) => -1,
                }
            } else if cmd == 2 {
                match m.sleep() {
                    Ok(_) => 0,
                    Err(_) => -1,
                }
            } else if cmd == 3 {
                match m.wakeup() {
                    Ok(_) => 0,
                    Err(_) => -1,
                }
            } else if cmd == 4 {
                match m.standby() {
                    Ok(_) => 0,
                    Err(_) => -1,
                }
            } else if cmd == 5 {
                match m.shutdown() {
                    Ok(_) => 0,
                    Err(_) => -1,
                }
            } else {
                -1
            }
        },
        None => -1,
    }
}

/// Setting the power state by code and then asking for it gives the code back,
/// and each dedicated command leads to the code of its state: waking to 0,
/// standby to 1, sleep to 2, power-off to 3. This holds of a manager that can
/// enter every state; asking changes nothing.
pub proof fn law_power_state_round_trip(
    m0: Option<SystemPowerManager>, m1: Option<SystemPowerManager>, m2: Option<SystemPowerManager>,
    cmd: u64, c: u64, r1: isize, x: u64, r2: isize,
)
    requires
        m0 matches Some(m) && m.can_command(),
        power_call_post(m0, m1, cmd, c, r1),
        power_call_post(m1, m2, 0, x, r2),
    ensures
        cmd == 1 && c <= 3 ==> r1 == 0 && r2 == c as isize,
        cmd == 3 ==> r1 == 0 && r2 == 0,
        cmd == 4 ==> r1 == 0 && r2 == 1,
        cmd == 2 ==> r1 == 0 && r2 == 2,
        cmd == 5 ==> r1 == 0 && r2 == 3,
        m2 == m1,
{
    let m = m0->0;
    let f = m1->0;
    if (cmd == 1 && c <= 3) || (2 <= cmd <= 5) {
        let st = if cmd == 1 { power_state_of_code(c)->0 } else if cmd == 2 { PowerState::Sleep }
            else if cmd == 3 { PowerState::Normal } else if cmd == 4 { PowerState::Standby } else { PowerState::Off };
        assert(call_moved(m, f, st, r1));
        let res = choose|res: Result<(), PowerError>| #[trigger] m.moved_to(&f, st, res) && r1 == (if res is Ok { 0isize } else { -1isize });
        assert(m.moved_to(&f, st, res));
        assert(res is Ok && f.state_spec() == st);
    }
}

/// The power call refuses what it does not know and what the manager cannot
/// do: an unknown command, or command 1 with a code above 3, answers -1 and
/// changes nothing; without a manager every call answers -1; a manager that
/// cannot enter a sleeping state answers -1 to standby, sleep and power-off
/// and stays in its state, while waking always succeeds.
pub proof fn law_power_call_refusals(
    m0: Option<SystemPowerManager>, m1: Option<SystemPowerManager>,
    cmd: u64, c: u64, r: isize,
)
    requires
        power_call_post(m0, m1, cmd, c, r),
    ensures
        m0 is None ==> r == -1 && m1 is None,
        m0 is Some && (cmd > 5 || (cmd == 1 && c > 3)) ==> r == -1 && m1 == m0,
        m0 is Some && !m0->0.can_command() && (cmd == 2 || cmd == 4 || cmd == 5 || (cmd == 1 && 1 <= c <= 3))
            ==> r == -1 && m1->0.state_spec() == m0->0.state_spec(),
        m0 is Some && (cmd == 3 || (cmd == 1 && c == 0)) ==> r == 0 && m1->0.state_spec() == PowerState::Normal,
{
    if m0 is Some && (2 <= cmd <= 5 || (cmd == 1 && c <= 3)) {
        let m = m0->0;
        let f = m1->0;
        let st = if cmd == 1 { power_state_of_code(c)->0 } else if cmd == 2 { PowerState::Sleep }
            else if cmd == 3 { PowerState::Normal } else if cmd == 4 { PowerState::Standby } else { PowerState::Off };
        assert(call_moved(m, f, st, r));
        let res = choose|res: Result<(), PowerError>| #[trigger] m.moved_to(&f, st, res) && r == (if res is Ok { 0isize } else { -1isize });
        assert(m.moved_to(&f, st, res));
    }
}

} // verus!
