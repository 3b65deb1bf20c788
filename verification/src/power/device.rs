//! Device power states and the registry of devices.
use vstd::prelude::*;

verus! {

/// Kinds of device.
#[derive(Debug, Clone, Copy, PartialEq, Eq, Hash, Structural)]
pub enum DeviceType {
    Storage,
    Network,
    Input,
    Display,
    Audio,
    Other,
}

/// Power states of a device.
#[derive(Debug, Clone, Copy, PartialEq, Eq, Structural)]
pub enum DevicePowerState {
    On,
    Standby,
    Off,
}

/// A registered device.
#[derive(Clone, Copy)]
pub struct DeviceInfo {
    pub device_id: u32,
    pub device_type: DeviceType,
    pub power_state: DevicePowerState,
    pub name: &'static str,
}

/// Errors of device power management.
#[derive(Debug, Clone, Copy, PartialEq, Eq, Structural)]
pub enum DevicePowerError {
    DeviceNotFound,
    UnsupportedOperation,
    DeviceError,
}

/// The index of the first device from `start` on with id `id` in `ds`, if any.
pub open spec fn first_from(ds: Seq<DeviceInfo>, id: u32, start: int) -> Option<int>
    decreases ds.len() - start,
{
    if start < 0 || start >= ds.len() {
        None
    } else if ds[start].device_id == id {
        Some(start)
    } else {
        first_from(ds, id, start + 1)
    }
}

/// The index of the first device with id `id` in `ds`, if any.
pub open spec fn first_with_id(ds: Seq<DeviceInfo>, id: u32) -> Option<int> {
    first_from(ds, id, 0)
}

/// A found index is in range and carries the id.
pub proof fn lemma_first_from(ds: Seq<DeviceInfo>, id: u32, start: int)
    requires
        0 <= start,
    ensures
        first_from(ds, id, start) matches Some(k) ==> start <= k < ds.len() && ds[k].device_id == id,
    decreases ds.len() - start,
{
    if start < ds.len() && ds[start].device_id != id {
        lemma_first_from(ds, id, start + 1);
    }
}

/// The powered-on device of kind `t` named `name` under id `id`.
pub open spec fn device(id: u32, t: DeviceType, name: &'static str) -> DeviceInfo {
    DeviceInfo { device_id: id, device_type: t, power_state: DevicePowerState::On, name }
}

/// The platform's devices, numbered from `first`: a hard disk, an ethernet
/// card, a keyboard, a mouse, a monitor and a speaker.
pub open spec fn platform_devices(first: u32) -> Seq<DeviceInfo> {
    seq![
        device(first, DeviceType::Storage, "Hard Disk"),
        device((first + 1) as u32, DeviceType::Network, "Ethernet Card"),
        device((first + 2) as u32, DeviceType::Input, "Keyboard"),
        device((first + 3) as u32, DeviceType::Input, "Mouse"),
        device((first + 4) as u32, DeviceType::Display, "Monitor"),
        device((first + 5) as u32, DeviceType::Audio, "Speaker"),
    ]
}

/// A device power manager.
pub trait DevicePowerManager {
    /// The registered devices, in registration order.
    spec fn devices_spec(&self) -> Seq<DeviceInfo>;

    /// Whether registering the platform's devices stays within the id space.
    spec fn can_init(&self) -> bool;

    /// Registers the platform's devices.
    fn init(&mut self) -> (r: Result<(), DevicePowerError>)
        requires
            old(self).can_init();

    /// Sets the power state of the first device with id `device_id`.
    fn set_device_power_state(&mut self, device_id: u32, state: DevicePowerState) -> (r: Result<(), DevicePowerError>)
        ensures
            r is Err ==> final(self).devices_spec() == old(self).devices_spec();

    /// The power state of the first device with id `device_id`.
    fn get_device_power_state(&self, device_id: u32) -> (r: Result<DevicePowerState, DevicePowerError>);

    /// The registered devices.
    fn list_devices(&self) -> (r: Vec<DeviceInfo>)
        ensures
            r@ == self.devices_spec();
}

/// A registry of devices with sequential ids from 1.
pub struct SimpleDevicePowerManager {
    devices: Vec<DeviceInfo>,
    next_device_id: u32,
}

impl SimpleDevicePowerManager {
    /// The id the next registration receives.
    pub closed spec fn next_id(&self) -> u32 {
        self.next_device_id
    }

    /// No device; ids start at 1.
    pub fn new() -> (m: Self)
        ensures
            m.devices_spec() == Seq::<DeviceInfo>::empty(),
            m.next_id() == 1,
    {
        SimpleDevicePowerManager { devices: Vec::new(), next_device_id: 1 }
    }

    /// Registers a powered-on device under the next id and returns the id.
    pub fn register_device(&mut self, device_type: DeviceType, name: &'static str) -> (id: u32)
        requires
            old(self).next_id() < u32::MAX,
        ensures
            id == old(self).next_id(),
            final(self).next_id() == old(self).next_id() + 1,
            final(self).devices_spec() == old(self).devices_spec().push(DeviceInfo {
                device_id: id,
                device_type,
                power_state: DevicePowerState::On,
                name,
            }),
    {
        let device_id = self.next_device_id;
        self.next_device_id = self.next_device_id + 1;
        self.devices.push(DeviceInfo { device_id, device_type, power_state: DevicePowerState::On, name });
        device_id
    }

    /// The index of the first device with id `device_id`.
    fn find(&self, device_id: u32) -> (r: Option<usize>)
        ensures
            match r {
                Some(i) => i < self.devices_spec().len() && first_with_id(self.devices_spec(), device_id) == Some(i as int),
                None => first_with_id(self.devices_spec(), device_id) is None,
            },
    {
        let mut i: usize = 0;
        while i < self.devices.len()
            invariant
                i <= self.devices@.len(),
                first_with_id(self.devices@, device_id) == first_from(self.devices@, device_id, i as int),
            decreases self.devices@.len() - i,
        {
            if self.devices[i].device_id == device_id {
                return Some(i);
            }
            i = i + 1;
        }
        None
    }
}

impl DevicePowerManager for SimpleDevicePowerManager {
    closed spec fn devices_spec(&self) -> Seq<DeviceInfo> {
        self.devices@
    }

    open spec fn can_init(&self) -> bool {
        self.next_id() < u32::MAX - 6
    }

    /// Registers a hard disk, an ethernet card, a keyboard, a mouse, a monitor and a speaker.
    fn init(&mut self) -> (r: Result<(), DevicePowerError>)
        ensures
            r is Ok,
            final(self).devices_spec() == old(self).devices_spec() + platform_devices(old(self).next_id()),
            final(self).next_id() == old(self).next_id() + 6,
    {
        self.register_device(DeviceType::Storage, "Hard Disk");
        self.register_device(DeviceType::Network, "Ethernet Card");
        self.register_device(DeviceType::Input, "Keyboard");
        self.register_device(DeviceType::Input, "Mouse");
        self.register_device(DeviceType::Display, "Monitor");
        self.register_device(DeviceType::Audio, "Speaker");
        assert(self.devices_spec() =~= old(self).devices_spec() + platform_devices(old(self).next_id()));
        Ok(())
    }

    fn set_device_power_state(&mut self, device_id: u32, state: DevicePowerState) -> (r: Result<(), DevicePowerError>)
        ensures
            final(self).next_id() == old(self).next_id(),
            match first_with_id(old(self).devices_spec(), device_id) {
                Some(i) => r is Ok && final(self).devices_spec() == old(self).devices_spec().update(i, DeviceInfo {
                    power_state: state,
                    ..old(self).devices_spec()[i]
                }),
                None => r == Err::<(), DevicePowerError>(DevicePowerError::DeviceNotFound),
            },
    {
        match self.find(device_id) {
            Some(i) => {
                let mut d = self.devices[i];
                d.power_state = state;
                self.devices.set(i, d);
                Ok(())
            },
            None => Err(DevicePowerError::DeviceNotFound),
        }
    }

    fn get_device_power_state(&self, device_id: u32) -> (r: Result<DevicePowerState, DevicePowerError>)
        ensures
            match first_with_id(self.devices_spec(), device_id) {
                Some(i) => r == Ok::<DevicePowerState, DevicePowerError>(self.devices_spec()[i].power_state),
                None => r == Err::<DevicePowerState, DevicePowerError>(DevicePowerError::DeviceNotFound),
            },
    {
        proof { lemma_first_from(self.devices_spec(), device_id, 0); }
        match self.find(device_id) {
            Some(i) => Ok(self.devices[i].power_state),
            None => Err(DevicePowerError::DeviceNotFound),
        }
    }

    fn list_devices(&self) -> (r: Vec<DeviceInfo>) {
        let mut out: Vec<DeviceInfo> = Vec::new();
        let mut i: usize = 0;
        while i < self.devices.len()
            invariant
                i <= self.devices@.len(),
                out@ == self.devices@.take(i as int),
            decreases self.devices@.len() - i,
        {
            out.push(self.devices[i]);
            i = i + 1;
            assert(out@ =~= self.devices@.take(i as int));
        }
        assert(self.devices@.take(self.devices@.len() as int) =~= self.devices@);
        out
    }
}

/// Creates the registry and registers the platform's devices.
pub fn init() -> (m: Option<SimpleDevicePowerManager>)
    ensures
        m matches Some(mm) && mm.devices_spec() == platform_devices(1) && mm.next_id() == 7,
{
    let mut manager = SimpleDevicePowerManager::new();
    if manager.init().is_ok() {
        Some(manager)
    } else {
        None
    }
}

/// Registers a device with the installed registry; `None` without one.
pub fn register_device(manager: &mut Option<SimpleDevicePowerManager>, device_type: DeviceType, name: &'static str) -> (r: Option<u32>)
    requires
        *old(manager) matches Some(m) ==> m.next_id() < u32::MAX,
    ensures
        match *old(manager) {
            Some(m) => r == Some(m.next_id()) && (*final(manager) matches Some(n)
                && n.next_id() == m.next_id() + 1
                && n.devices_spec() == m.devices_spec().push(DeviceInfo {
                    device_id: m.next_id(),
                    device_type,
                    power_state: DevicePowerState::On,
                    name,
                })),
            None => r is None && *final(manager) is None,
        },
{
    match manager {
        Some(m) => Some(m.register_device(device_type, name)),
        None => None,
    }
}

/// Sets a device's power state through the installed registry; `DeviceError` without one.
pub fn set_device_power_state(manager: &mut Option<SimpleDevicePowerManager>, device_id: u32, state: DevicePowerState)
    -> (r: Result<(), DevicePowerError>)
    ensures
        match *old(manager) {
            Some(m) => *final(manager) matches Some(n) && n.next_id() == m.next_id()
                && match first_with_id(m.devices_spec(), device_id) {
                    Some(i) => r is Ok && n.devices_spec() == m.devices_spec().update(i, DeviceInfo {
                        power_state: state,
                        ..m.devices_spec()[i]
                    }),
                    None => r == Err::<(), DevicePowerError>(DevicePowerError::DeviceNotFound)
                        && n.devices_spec() == m.devices_spec(),
                },
            None => r == Err::<(), DevicePowerError>(DevicePowerError::DeviceError) && *final(manager) is None,
        },
{
    match manager {
        Some(m) => m.set_device_power_state(device_id, state),
        None => Err(DevicePowerError::DeviceError),
    }
}

/// A device's power state through the installed registry; `DeviceError` without one.
pub fn get_device_power_state(manager: &Option<SimpleDevicePowerManager>, device_id: u32)
    -> (r: Result<DevicePowerState, DevicePowerError>)
    ensures
        match *manager {
            Some(m) => match first_with_id(m.devices_spec(), device_id) {
                Some(i) => r == Ok::<DevicePowerState, DevicePowerError>(m.devices_spec()[i].power_state),
                None => r == Err::<DevicePowerState, DevicePowerError>(DevicePowerError::DeviceNotFound),
            },
            None => r == Err::<DevicePowerState, DevicePowerError>(DevicePowerError::DeviceError),
        },
{
    match manager {
        Some(m) => m.get_device_power_state(device_id),
        None => Err(DevicePowerError::DeviceError),
    }
}

/// The registered devices; none without a registry.
pub fn list_devices(manager: &Option<SimpleDevicePowerManager>) -> (r: Vec<DeviceInfo>)
    ensures
        match *manager {
            Some(m) => r@ == m.devices_spec(),
            None => r@ == Seq::<DeviceInfo>::empty(),
        },
{
    match manager {
        Some(m) => m.list_devices(),
        None => Vec::new(),
    }
}

/// Numeric code of a device power state: On 0, Standby 1, Off 2.
pub open spec fn device_state_code(s: DevicePowerState) -> isize {
    match s {
        DevicePowerState::On => 0,
        DevicePowerState::Standby => 1,
        DevicePowerState::Off => 2,
    }
}

/// What the device power system call does.
pub open spec fn device_call_post(oldm: Option<SimpleDevicePowerManager>, newm: Option<SimpleDevicePowerManager>, cmd: u64, arg1: u64, arg2: u64, r: isize) -> bool {
    &&& (oldm is None ==> r == -1 && newm is None)
    &&& (oldm is Some ==> newm is Some)
    &&& (oldm is Some ==> {
        let m = oldm->0;
        let n = newm->0;
        let id = arg1 as u32;
        &&& n.next_id() == m.next_id()
        &&& cmd == 0 ==> r == m.devices_spec().len() as isize && n.devices_spec() == m.devices_spec()
        &&& cmd == 1 ==> n.devices_spec() == m.devices_spec() && r == match first_with_id(m.devices_spec(), id) {
            Some(i) => device_state_code(m.devices_spec()[i].power_state),
            None => -1isize,
        }
        &&& cmd == 2 && arg2 > 2 ==> r == -1 && n.devices_spec() == m.devices_spec()
        &&& cmd == 2 && arg2 <= 2 ==> {
            let state = if arg2 == 0 { DevicePowerState::On } else if arg2 == 1 { DevicePowerState::Standby } else { DevicePowerState::Off };
            match first_with_id(m.devices_spec(), id) {
                Some(i) => r == 0 && n.devices_spec() == m.devices_spec().update(i, DeviceInfo {
                    power_state: state,
                    ..m.devices_spec()[i]
                }),
                None => r == -1 && n.devices_spec() == m.devices_spec(),
            }
        }
        &&& cmd > 2 ==> r == -1 && n.devices_spec() == m.devices_spec()
    })
}

/// The device power system call. Command 0 reports the number of devices; 1 the
/// code of device `arg1`'s state; 2 sets device `arg1` to the state of code
/// `arg2`. Device ids are `arg1` truncated to 32 bits. Settings give 0; unknown
/// devices, codes and commands, and a missing registry, give -1.
pub fn syscall_device_power_management(
    manager: &mut Option<SimpleDevicePowerManager>,
    cmd: u64,
    arg1: u64,
    arg2: u64,
    _arg3: u64,
    _arg4: u64,
    _arg5: u64,
    _arg6: u64,
) -> (r: isize)
    ensures
        device_call_post(*old(manager), *final(manager), cmd, arg1, arg2, r),
{
    match manager {
        Some(m) => {
            if cmd == 0 {
                let devices = m.list_devices();
                #[verifier::truncate] (devices.len() as isize)
            } else if cmd == 1 {
                match m.get_device_power_state(#[verifier::truncate] (arg1 as u32)) {
                    Ok(state) => match state {
                        DevicePowerState::On => 0,
                        DevicePowerState::Standby => 1,
                        DevicePowerState::Off => 2,
                    },
                    Err(_) => -1,
                }
            } else if cmd == 2 {
                let state = if arg2 == 0 {
                    DevicePowerState::On
                } else if arg2 == 1 {
                    DevicePowerState::Standby
                } else if arg2 == 2 {
                    DevicePowerState::Off
                } else {
                    return -1;
                };
                match m.set_device_power_state(#[verifier::truncate] (arg1 as u32), state) {
                    Ok(_) => 0,
                    Err(_) => -1,
                }
            } else {
                -1
            }
        },
        None => -1,
    }
}

/// Replacing a device by one with the same id leaves every id search unchanged.
proof fn lemma_first_from_update(ds: Seq<DeviceInfo>, id: u32, start: int, i: int, d: DeviceInfo)
    requires
        0 <= start,
        0 <= i < ds.len(),
        d.device_id == ds[i].device_id,
    ensures
        first_from(ds.update(i, d), id, start) == first_from(ds, id, start),
    decreases ds.len() - start,
{
    if start < ds.len() {
        assert(ds.update(i, d)[start].device_id == ds[start].device_id);
        lemma_first_from_update(ds, id, start + 1, i, d);
    }
}

/// Reading a device's state after setting it gives the state set: when
/// device `id` is registered, setting its state to `state` and reading it
/// back yields `state`; every other device keeps its state.
pub proof fn law_set_then_get(ds: Seq<DeviceInfo>, id: u32, state: DevicePowerState)
    requires
        first_with_id(ds, id) is Some,
    ensures
        ({
            let i = first_with_id(ds, id)->0;
            let after = ds.update(i, DeviceInfo { power_state: state, ..ds[i] });
            &&& first_with_id(after, id) == Some(i)
            &&& after[i].power_state == state
            &&& forall|j: int| 0 <= j < ds.len() && j != i ==> #[trigger] after[j] == ds[j]
        }),
{
    let i = first_with_id(ds, id)->0;
    lemma_first_from(ds, id, 0);
    lemma_first_from_update(ds, id, 0, i, DeviceInfo { power_state: state, ..ds[i] });
}

/// Through the device call, a state set is the state read back: setting
/// registered device `id` to the state of code `s` (0 on, 1 standby, 2 off)
/// answers 0, and reading that device's state then answers `s`; every other
/// device keeps its state.
pub proof fn law_call_set_then_get(
    m0: Option<SimpleDevicePowerManager>, m1: Option<SimpleDevicePowerManager>, m2: Option<SimpleDevicePowerManager>,
    id: u64, s: u64, a: u64, r1: isize, r2: isize,
)
    requires
        m0 is Some,
        first_with_id(m0->0.devices_spec(), id as u32) is Some,
        s <= 2,
        device_call_post(m0, m1, 2, id, s, r1),
        device_call_post(m1, m2, 1, id, a, r2),
    ensures
        r1 == 0,
        r2 == s as isize,
        m2->0.devices_spec() == m1->0.devices_spec(),
        forall|j: int| 0 <= j < m0->0.devices_spec().len() && j != first_with_id(m0->0.devices_spec(), id as u32)->0
            ==> #[trigger] m1->0.devices_spec()[j] == m0->0.devices_spec()[j],
{
    let ds = m0->0.devices_spec();
    let state = if s == 0 { DevicePowerState::On } else if s == 1 { DevicePowerState::Standby } else { DevicePowerState::Off };
    law_set_then_get(ds, id as u32, state);
}

} // verus!
