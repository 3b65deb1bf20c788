use moyuan_kernel::power::acpi::{check_rsdp_checksum, find_rsdp, search_rsdp, AcpiManager};
use moyuan_kernel::power::cpu::{self, CpuFrequencyLevel};
use moyuan_kernel::power::device::{self, DevicePowerError, DevicePowerState, DeviceType};
use moyuan_kernel::power::{self, syscall_power_management, PowerError, PowerState, SystemPowerManager};

#[test]
fn cpu_frequency_from_tsc() {
    assert_eq!(cpu::max_frequency_from_tsc(3_000_000), 3000);
    assert_eq!(cpu::max_frequency_from_tsc(99_999), 2000);
    assert_eq!(cpu::max_frequency_from_tsc(100_000), 100);
}

#[test]
fn cpu_levels_and_frequencies() {
    let mut info = cpu::init(3000);
    assert_eq!(cpu::get_frequency_level(&info), Some(CpuFrequencyLevel::Medium));
    assert_eq!(cpu::get_frequency_info(&info).unwrap().current_frequency, 1500);
    assert_eq!(cpu::get_frequency_info(&info).unwrap().min_frequency, 1500);
    cpu::set_frequency_level(&mut info, CpuFrequencyLevel::High);
    assert_eq!(cpu::get_frequency_info(&info).unwrap().current_frequency, 3000);
    cpu::set_frequency_level(&mut info, CpuFrequencyLevel::Medium);
    assert_eq!(cpu::get_frequency_info(&info).unwrap().current_frequency, 2250);
    cpu::set_frequency_level(&mut info, CpuFrequencyLevel::Low);
    assert_eq!(cpu::get_frequency_info(&info).unwrap().current_frequency, 1500);
    let mut none = None;
    cpu::set_frequency_level(&mut none, CpuFrequencyLevel::High);
    assert!(none.is_none());
    assert_eq!(cpu::get_frequency_level(&none), None);
}

#[test]
fn cpu_level_for_load() {
    assert_eq!(cpu::level_for_load_percent(81), CpuFrequencyLevel::High);
    assert_eq!(cpu::level_for_load_percent(80), CpuFrequencyLevel::Medium);
    assert_eq!(cpu::level_for_load_percent(41), CpuFrequencyLevel::Medium);
    assert_eq!(cpu::level_for_load_percent(40), CpuFrequencyLevel::Low);
    assert_eq!(cpu::level_for_load_percent(0), CpuFrequencyLevel::Low);
}

#[test]
fn cpu_system_call() {
    let mut info = cpu::init(2000);
    assert_eq!(cpu::syscall_cpu_frequency(&mut info, 0, 0, 0, 0, 0, 0, 0), 1);
    assert_eq!(cpu::syscall_cpu_frequency(&mut info, 2, 0, 0, 0, 0, 0, 0), 1000);
    assert_eq!(cpu::syscall_cpu_frequency(&mut info, 1, 0, 0, 0, 0, 0, 0), 0);
    assert_eq!(cpu::syscall_cpu_frequency(&mut info, 2, 0, 0, 0, 0, 0, 0), 2000);
    assert_eq!(cpu::syscall_cpu_frequency(&mut info, 1, 3, 0, 0, 0, 0, 0), -1);
    // command 3 picks the level for a load in percent
    assert_eq!(cpu::syscall_cpu_frequency(&mut info, 3, 10, 0, 0, 0, 0, 0), 0);
    assert_eq!(cpu::syscall_cpu_frequency(&mut info, 0, 0, 0, 0, 0, 0, 0), 2);
    assert_eq!(cpu::syscall_cpu_frequency(&mut info, 9, 0, 0, 0, 0, 0, 0), -1);
    let mut none = None;
    assert_eq!(cpu::syscall_cpu_frequency(&mut none, 0, 0, 0, 0, 0, 0, 0), -1);
}

#[test]
fn device_registry() {
    let mut m = device::init();
    assert_eq!(device::list_devices(&m).len(), 6);
    assert_eq!(device::get_device_power_state(&m, 1), Ok(DevicePowerState::On));
    assert_eq!(device::set_device_power_state(&mut m, 2, DevicePowerState::Standby), Ok(()));
    assert_eq!(device::get_device_power_state(&m, 2), Ok(DevicePowerState::Standby));
    assert_eq!(device::get_device_power_state(&m, 99), Err(DevicePowerError::DeviceNotFound));
    assert_eq!(
        device::set_device_power_state(&mut m, 99, DevicePowerState::Off),
        Err(DevicePowerError::DeviceNotFound)
    );
    assert_eq!(device::register_device(&mut m, DeviceType::Audio, "speaker"), Some(7));
    let list = device::list_devices(&m);
    assert_eq!(list[6].name, "speaker");
    assert_eq!(list[6].device_type, DeviceType::Audio);
    let mut none = None;
    assert_eq!(device::register_device(&mut none, DeviceType::Other, "x"), None);
    assert_eq!(device::get_device_power_state(&none, 1), Err(DevicePowerError::DeviceError));
    assert_eq!(device::set_device_power_state(&mut none, 1, DevicePowerState::On), Err(DevicePowerError::DeviceError));
    assert!(device::list_devices(&none).is_empty());
}

#[test]
fn device_system_call() {
    let mut m = device::init();
    assert_eq!(device::syscall_device_power_management(&mut m, 0, 0, 0, 0, 0, 0, 0), 6);
    assert_eq!(device::syscall_device_power_management(&mut m, 2, 3, 2, 0, 0, 0, 0), 0);
    assert_eq!(device::syscall_device_power_management(&mut m, 1, 3, 0, 0, 0, 0, 0), 2);
    assert_eq!(device::syscall_device_power_management(&mut m, 2, 3, 5, 0, 0, 0, 0), -1);
    assert_eq!(device::syscall_device_power_management(&mut m, 1, 42, 0, 0, 0, 0, 0), -1);
    assert_eq!(device::syscall_device_power_management(&mut m, 7, 0, 0, 0, 0, 0, 0), -1);
}

#[test]
fn default_power_manager() {
    let mut m = power::init(Err(PowerError::AcpiUnavailable));
    assert_eq!(m.get_power_state(), PowerState::Normal);
    assert_eq!(m.sleep(), Ok(()));
    assert_eq!(m.get_power_state(), PowerState::Sleep);
    assert_eq!(m.wakeup(), Ok(()));
    assert_eq!(m.standby(), Ok(()));
    assert_eq!(m.get_power_state(), PowerState::Standby);
    assert_eq!(m.set_power_state(PowerState::Normal), Ok(()));
    assert_eq!(m.shutdown(), Ok(()));
    assert_eq!(m.get_power_state(), PowerState::Off);
}

#[test]
fn power_system_call() {
    let mut m = Some(power::init(Err(PowerError::AcpiUnavailable)));
    assert_eq!(syscall_power_management(&mut m, 0, 0, 0, 0, 0, 0, 0), 0);
    assert_eq!(syscall_power_management(&mut m, 1, 2, 0, 0, 0, 0, 0), 0);
    assert_eq!(syscall_power_management(&mut m, 0, 0, 0, 0, 0, 0, 0), 2);
    assert_eq!(syscall_power_management(&mut m, 1, 9, 0, 0, 0, 0, 0), -1);
    assert_eq!(syscall_power_management(&mut m, 4, 0, 0, 0, 0, 0, 0), 0);
    assert_eq!(syscall_power_management(&mut m, 0, 0, 0, 0, 0, 0, 0), 1);
    assert_eq!(syscall_power_management(&mut m, 3, 0, 0, 0, 0, 0, 0), 0);
    assert_eq!(syscall_power_management(&mut m, 0, 0, 0, 0, 0, 0, 0), 0);
    assert_eq!(syscall_power_management(&mut m, 6, 0, 0, 0, 0, 0, 0), -1);
    let mut none: Option<SystemPowerManager> = None;
    assert_eq!(syscall_power_management(&mut none, 0, 0, 0, 0, 0, 0, 0), -1);
}

fn put_u32(mem: &mut [u8], at: usize, v: u32) {
    mem[at..at + 4].copy_from_slice(&v.to_le_bytes());
}

/// A memory image with a version-1 pointer at 0xE0010, a root table at 0x2000
/// listing a fixed table at 0x3000 whose control port is 0x404.
fn acpi_image() -> Vec<u8> {
    let mut mem = vec![0u8; 0x10_0000];
    let p = 0xE0010;
    mem[p..p + 8].copy_from_slice(b"RSD PTR ");
    mem[p + 9..p + 15].copy_from_slice(b"MOYUAN");
    put_u32(&mut mem, p + 16, 0x2000);
    let sum: u8 = mem[p..p + 20].iter().fold(0u8, |a, b| a.wrapping_add(*b));
    mem[p + 8] = 0u8.wrapping_sub(sum);
    mem[0x2000..0x2004].copy_from_slice(b"RSDT");
    put_u32(&mut mem, 0x2004, 40);
    put_u32(&mut mem, 0x2000 + 36, 0x3000);
    mem[0x3000..0x3004].copy_from_slice(b"FACP");
    put_u32(&mut mem, 0x3004, 244);
    mem[0x3008] = 1;
    put_u32(&mut mem, 0x3000 + 64, 0x404);
    mem
}

#[test]
fn rsdp_is_found_and_checked() {
    let mem = acpi_image();
    assert!(check_rsdp_checksum(&mem[0xE0010..]));
    assert_eq!(find_rsdp(&mem), Some(0xE0010));
    assert_eq!(search_rsdp(&mem, 0xE0000, 0x10), None);
    let mut bad = mem.clone();
    bad[0xE0010 + 8] = bad[0xE0010 + 8].wrapping_add(1);
    assert!(!check_rsdp_checksum(&bad[0xE0010..]));
    assert_eq!(find_rsdp(&bad), None);
}

#[test]
fn acpi_manager_reads_tables_and_issues_commands() {
    let mem = acpi_image();
    let mut acpi = AcpiManager::new(&mem).unwrap();
    assert_eq!(acpi.find_table(&mem, b"FACP"), Some(0x3000));
    assert_eq!(acpi.find_table(&mem, b"APIC"), None);
    assert_eq!(acpi.send_acpi_command(0x2000), Err(PowerError::AcpiUnavailable));
    assert!(acpi.read_fadt(&mem));
    assert_eq!(acpi.send_acpi_command(0x2000), Ok(()));
    let c = acpi.take_pending_command().unwrap();
    assert_eq!((c.port, c.value), (0x404, 0x2000));
    assert!(acpi.take_pending_command().is_none());
    let mut sys = power::init(Ok(acpi));
    assert_eq!(sys.shutdown(), Ok(()));
    assert_eq!(sys.get_power_state(), PowerState::Off);
    match &mut sys {
        SystemPowerManager::Acpi(a) => {
            let c = a.take_pending_command().unwrap();
            assert_eq!((c.port, c.value), (0x404, 0x7000));
        }
        SystemPowerManager::Default(_) => panic!("ACPI manager expected"),
    }
}

#[test]
fn acpi_unavailable_without_pointer() {
    let mem = vec![0u8; 0x10_0000];
    assert!(matches!(AcpiManager::new(&mem), Err(PowerError::AcpiUnavailable)));
    let mut acpi_without_table = AcpiManager::new(&acpi_image()).unwrap();
    let empty = vec![0u8; 0x10_0000];
    assert!(!acpi_without_table.read_fadt(&empty));
    // without the fixed table the ACPI manager is not installed
    let sys = power::init(Ok(acpi_without_table));
    assert!(matches!(sys, SystemPowerManager::Default(_)));
}

#[test]
fn platform_devices_in_registration_order() {
    let m = device::init();
    let list = device::list_devices(&m);
    let expected = [
        (1, DeviceType::Storage, "Hard Disk"),
        (2, DeviceType::Network, "Ethernet Card"),
        (3, DeviceType::Input, "Keyboard"),
        (4, DeviceType::Input, "Mouse"),
        (5, DeviceType::Display, "Monitor"),
        (6, DeviceType::Audio, "Speaker"),
    ];
    for (d, (id, t, name)) in list.iter().zip(expected.iter()) {
        assert_eq!((d.device_id, d.device_type, d.name), (*id, *t, *name));
        assert_eq!(d.power_state, DevicePowerState::On);
    }
}

#[test]
fn cpu_level_set_then_reported_with_its_frequency() {
    let mut info = cpu::init(2000);
    let expected = [2000isize, 1500, 1000];
    for l in [2u64, 0, 1, 2, 1, 0] {
        assert_eq!(cpu::syscall_cpu_frequency(&mut info, 1, l, 0, 0, 0, 0, 0), 0);
        assert_eq!(cpu::syscall_cpu_frequency(&mut info, 0, 0, 0, 0, 0, 0, 0), l as isize);
        assert_eq!(cpu::syscall_cpu_frequency(&mut info, 2, 0, 0, 0, 0, 0, 0), expected[l as usize]);
    }
}

#[test]
fn device_state_set_then_read_back() {
    let mut m = device::init();
    for id in 1..=6u64 {
        for s in 0..=2u64 {
            assert_eq!(device::syscall_device_power_management(&mut m, 2, id, s, 0, 0, 0, 0), 0);
            assert_eq!(device::syscall_device_power_management(&mut m, 1, id, 0, 0, 0, 0, 0), s as isize);
        }
    }
    // every device was left Off; setting one leaves the others alone
    assert_eq!(device::syscall_device_power_management(&mut m, 2, 4, 1, 0, 0, 0, 0), 0);
    for id in 1..=6u64 {
        let want = if id == 4 { 1 } else { 2 };
        assert_eq!(device::syscall_device_power_management(&mut m, 1, id, 0, 0, 0, 0, 0), want);
    }
    assert_eq!(device::syscall_device_power_management(&mut m, 2, 3, 3, 0, 0, 0, 0), -1);
    assert_eq!(device::syscall_device_power_management(&mut m, 1, 3, 0, 0, 0, 0, 0), 2);
}
