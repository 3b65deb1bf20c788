//! ACPI: locating the root system description pointer and the fixed ACPI
//! description table in an image of physical memory, and issuing sleep commands.
use vstd::prelude::*;
use super::{PowerError, PowerManager, PowerState};

verus! {

/// The little-endian 16-bit value at `off` in `s`.
pub open spec fn le_u16(s: Seq<u8>, off: int) -> u16 {
    (s[off] as int + 256 * s[off + 1] as int) as u16
}

/// The little-endian 32-bit value at `off` in `s`.
pub open spec fn le_u32(s: Seq<u8>, off: int) -> u32 {
    (le_u16(s, off) as int + 65536 * le_u16(s, off + 2) as int) as u32
}

/// The little-endian 64-bit value at `off` in `s`.
pub open spec fn le_u64(s: Seq<u8>, off: int) -> u64 {
    (le_u32(s, off) as int + 4294967296 * le_u32(s, off + 4) as int) as u64
}

/// The byte at `off` in `s`.
pub open spec fn le_u8(s: Seq<u8>, off: int) -> u8 {
    s[off]
}

fn read_u8(bytes: &[u8], off: usize) -> (r: u8)
    requires
        off < bytes@.len(),
    ensures
        r == le_u8(bytes@, off as int),
{
    bytes[off]
}

fn read_u16(bytes: &[u8], off: usize) -> (r: u16)
    requires
        off + 2 <= bytes@.len(),
    ensures
        r == le_u16(bytes@, off as int),
{
    let _len = bytes.len();
    (bytes[off] as u16) + 256 * (bytes[off + 1] as u16)
}

fn read_u32(bytes: &[u8], off: usize) -> (r: u32)
    requires
        off + 4 <= bytes@.len(),
    ensures
        r == le_u32(bytes@, off as int),
{
    let _len = bytes.len();
    (read_u16(bytes, off) as u32) + 65536 * (read_u16(bytes, off + 2) as u32)
}

fn read_u64(bytes: &[u8], off: usize) -> (r: u64)
    requires
        off + 8 <= bytes@.len(),
    ensures
        r == le_u64(bytes@, off as int),
{
    let _len = bytes.len();
    (read_u32(bytes, off) as u64) + 4294967296 * (read_u32(bytes, off + 4) as u64)
}

/// `n` bytes of `bytes` from `off`.
fn read_bytes(bytes: &[u8], off: usize, n: usize) -> (r: Vec<u8>)
    requires
        off + n <= bytes@.len(),
    ensures
        r@ == bytes@.subrange(off as int, off + n),
{
    let len = bytes.len();
    let mut out: Vec<u8> = Vec::new();
    let mut i: usize = 0;
    while i < n
        invariant
            i <= n,
            len == bytes@.len(),
            off + n <= bytes@.len(),
            out@ == bytes@.subrange(off as int, off + i),
        decreases n - i,
    {
        out.push(bytes[off + i]);
        i = i + 1;
        assert(out@ =~= bytes@.subrange(off as int, off + i));
    }
    out
}

/// Size in bytes of the root system description pointer.
pub const RSDP_SIZE: usize = 36;
/// Size in bytes of a system description table header.
pub const SDT_HEADER_SIZE: usize = 36;
/// Size in bytes of the fixed ACPI description table.
pub const FADT_SIZE: usize = 234;

/// The root system description pointer.
pub struct Rsdp {
    pub signature: Vec<u8>,
    pub checksum: u8,
    pub oem_id: Vec<u8>,
    pub revision: u8,
    pub rsdt_address: u32,
    pub length: u32,
    pub xsdt_address: u64,
    pub extended_checksum: u8,
    pub reserved: Vec<u8>,
}

/// The header of a system description table.
pub struct SdtHeader {
    pub signature: Vec<u8>,
    pub length: u32,
    pub revision: u8,
    pub checksum: u8,
    pub oem_id: Vec<u8>,
    pub oem_table_id: Vec<u8>,
    pub oem_revision: u32,
    pub creator_id: u32,
    pub creator_revision: u32,
}

/// The fixed ACPI description table.
pub struct Fadt {
    pub header: SdtHeader,
    pub firmware_ctrl: u32,
    pub dsdt: u32,
    pub reserved1: u8,
    pub preferred_pm_profile: u8,
    pub sci_int: u16,
    pub smi_cmd: u32,
    pub acpi_enable: u8,
    pub acpi_disable: u8,
    pub s4bios_req: u8,
    pub pstate_cnt: u8,
    pub pm1a_evt_blk: u32,
    pub pm1b_evt_blk: u32,
    pub pm1a_cnt_blk: u32,
    pub pm1b_cnt_blk: u32,
    pub pm2_cnt_blk: u32,
    pub pm_tmr_blk: u32,
    pub gpe0_blk: u32,
    pub gpe1_blk: u32,
    pub pm1_evt_len: u8,
    pub pm1_cnt_len: u8,
    pub pm2_cnt_len: u8,
    pub pm_tmr_len: u8,
    pub gpe0_blk_len: u8,
    pub gpe1_blk_len: u8,
    pub gpe1_base: u8,
    pub cst_cnt: u8,
    pub p_lvl2_lat: u16,
    pub p_lvl3_lat: u16,
    pub flush_size: u16,
    pub flush_stride: u16,
    pub duty_offset: u8,
    pub duty_width: u8,
    pub day_alrm: u8,
    pub mon_alrm: u8,
    pub century: u8,
    pub iapc_boot_arch: u16,
    pub reserved2: u8,
    pub flags: u32,
    pub reset_reg: u16,
    pub reset_value: u8,
    pub arm_boot_arch: u16,
    pub fadt_minor_version: u8,
    pub x_firmware_ctrl: u64,
    pub x_dsdt: u64,
    pub x_pm1a_evt_blk: u64,
    pub x_pm1b_evt_blk: u64,
    pub x_pm1a_cnt_blk: u64,
    pub x_pm1b_cnt_blk: u64,
    pub x_pm2_cnt_blk: u64,
    pub x_pm_tmr_blk: u64,
    pub x_gpe0_blk: u64,
    pub x_gpe1_blk: u64,
    pub sleep_control_reg: u64,
    pub sleep_status_reg: u64,
    pub hypervisor_vendor_id: Vec<u8>,
}

/// Whether `p` is the pointer laid out at the start of `bytes`.
pub open spec fn decodes_rsdp(p: Rsdp, bytes: Seq<u8>) -> bool {
    &&& p.signature@ == bytes.subrange(0, 8)
    &&& p.checksum == bytes[8]
    &&& p.oem_id@ == bytes.subrange(9, 15)
    &&& p.revision == bytes[15]
    &&& p.rsdt_address == le_u32(bytes, 16)
    &&& p.length == le_u32(bytes, 20)
    &&& p.xsdt_address == le_u64(bytes, 24)
    &&& p.extended_checksum == bytes[32]
    &&& p.reserved@ == bytes.subrange(33, 36)
}

/// Whether `f` is the table laid out at the start of `bytes`.
pub open spec fn decodes_fadt(f: Fadt, bytes: Seq<u8>) -> bool {
    &&& f.header.revision == bytes[8]
    &&& f.header.signature@ == bytes.subrange(0, 4)
    &&& f.header.length == le_u32(bytes, 4)
    &&& f.firmware_ctrl == le_u32(bytes, 36)
    &&& f.dsdt == le_u32(bytes, 40)
    &&& f.reserved1 == le_u8(bytes, 44)
    &&& f.preferred_pm_profile == le_u8(bytes, 45)
    &&& f.sci_int == le_u16(bytes, 46)
    &&& f.smi_cmd == le_u32(bytes, 48)
    &&& f.acpi_enable == le_u8(bytes, 52)
    &&& f.acpi_disable == le_u8(bytes, 53)
    &&& f.s4bios_req == le_u8(bytes, 54)
    &&& f.pstate_cnt == le_u8(bytes, 55)
    &&& f.pm1a_evt_blk == le_u32(bytes, 56)
    &&& f.pm1b_evt_blk == le_u32(bytes, 60)
    &&& f.pm1a_cnt_blk == le_u32(bytes, 64)
    &&& f.pm1b_cnt_blk == le_u32(bytes, 68)
    &&& f.pm2_cnt_blk == le_u32(bytes, 72)
    &&& f.pm_tmr_blk == le_u32(bytes, 76)
    &&& f.gpe0_blk == le_u32(bytes, 80)
    &&& f.gpe1_blk == le_u32(bytes, 84)
    &&& f.pm1_evt_len == le_u8(bytes, 88)
    &&& f.pm1_cnt_len == le_u8(bytes, 89)
    &&& f.pm2_cnt_len == le_u8(bytes, 90)
    &&& f.pm_tmr_len == le_u8(bytes, 91)
    &&& f.gpe0_blk_len == le_u8(bytes, 92)
    &&& f.gpe1_blk_len == le_u8(bytes, 93)
    &&& f.gpe1_base == le_u8(bytes, 94)
    &&& f.cst_cnt == le_u8(bytes, 95)
    &&& f.p_lvl2_lat == le_u16(bytes, 96)
    &&& f.p_lvl3_lat == le_u16(bytes, 98)
    &&& f.flush_size == le_u16(bytes, 100)
    &&& f.flush_stride == le_u16(bytes, 102)
    &&& f.duty_offset == le_u8(bytes, 104)
    &&& f.duty_width == le_u8(bytes, 105)
    &&& f.day_alrm == le_u8(bytes, 106)
    &&& f.mon_alrm == le_u8(bytes, 107)
    &&& f.century == le_u8(bytes, 108)
    &&& f.iapc_boot_arch == le_u16(bytes, 109)
    &&& f.reserved2 == le_u8(bytes, 111)
    &&& f.flags == le_u32(bytes, 112)
    &&& f.reset_reg == le_u16(bytes, 116)
    &&& f.reset_value == le_u8(bytes, 118)
    &&& f.arm_boot_arch == le_u16(bytes, 119)
    &&& f.fadt_minor_version == le_u8(bytes, 121)
    &&& f.x_firmware_ctrl == le_u64(bytes, 122)
    &&& f.x_dsdt == le_u64(bytes, 130)
    &&& f.x_pm1a_evt_blk == le_u64(bytes, 138)
    &&& f.x_pm1b_evt_blk == le_u64(bytes, 146)
    &&& f.x_pm1a_cnt_blk == le_u64(bytes, 154)
    &&& f.x_pm1b_cnt_blk == le_u64(bytes, 162)
    &&& f.x_pm2_cnt_blk == le_u64(bytes, 170)
    &&& f.x_pm_tmr_blk == le_u64(bytes, 178)
    &&& f.x_gpe0_blk == le_u64(bytes, 186)
    &&& f.x_gpe1_blk == le_u64(bytes, 194)
    &&& f.sleep_control_reg == le_u64(bytes, 202)
    &&& f.sleep_status_reg == le_u64(bytes, 210)
    &&& f.hypervisor_vendor_id@ == bytes.subrange(218, 234)
}

impl Rsdp {
    /// Decodes the pointer laid out at the start of `bytes`.
    pub fn parse(bytes: &[u8]) -> (p: Rsdp)
        requires
            bytes@.len() >= RSDP_SIZE,
        ensures
            decodes_rsdp(p, bytes@),
    {
        Rsdp {
            signature: read_bytes(bytes, 0, 8),
            checksum: bytes[8],
            oem_id: read_bytes(bytes, 9, 6),
            revision: bytes[15],
            rsdt_address: read_u32(bytes, 16),
            length: read_u32(bytes, 20),
            xsdt_address: read_u64(bytes, 24),
            extended_checksum: bytes[32],
            reserved: read_bytes(bytes, 33, 3),
        }
    }
}

impl SdtHeader {
    /// Decodes the header laid out at the start of `bytes`.
    pub fn parse(bytes: &[u8]) -> (h: SdtHeader)
        requires
            bytes@.len() >= SDT_HEADER_SIZE,
        ensures
            h.signature@ == bytes@.subrange(0, 4),
            h.length == le_u32(bytes@, 4),
            h.revision == bytes@[8],
            h.checksum == bytes@[9],
            h.oem_id@ == bytes@.subrange(10, 16),
            h.oem_table_id@ == bytes@.subrange(16, 24),
            h.oem_revision == le_u32(bytes@, 24),
            h.creator_id == le_u32(bytes@, 28),
            h.creator_revision == le_u32(bytes@, 32),
    {
        SdtHeader {
            signature: read_bytes(bytes, 0, 4),
            length: read_u32(bytes, 4),
            revision: bytes[8],
            checksum: bytes[9],
            oem_id: read_bytes(bytes, 10, 6),
            oem_table_id: read_bytes(bytes, 16, 8),
            oem_revision: read_u32(bytes, 24),
            creator_id: read_u32(bytes, 28),
            creator_revision: read_u32(bytes, 32),
        }
    }
}

impl Fadt {
    /// Decodes the table laid out at the start of `bytes`.
    pub fn parse(bytes: &[u8]) -> (f: Fadt)
        requires
            bytes@.len() >= FADT_SIZE,
        ensures
            decodes_fadt(f, bytes@),
    {
        Fadt {
            header: SdtHeader::parse(bytes),
            firmware_ctrl: read_u32(bytes, 36),
            dsdt: read_u32(bytes, 40),
            reserved1: read_u8(bytes, 44),
            preferred_pm_profile: read_u8(bytes, 45),
            sci_int: read_u16(bytes, 46),
            smi_cmd: read_u32(bytes, 48),
            acpi_enable: read_u8(bytes, 52),
            acpi_disable: read_u8(bytes, 53),
            s4bios_req: read_u8(bytes, 54),
            pstate_cnt: read_u8(bytes, 55),
            pm1a_evt_blk: read_u32(bytes, 56),
            pm1b_evt_blk: read_u32(bytes, 60),
            pm1a_cnt_blk: read_u32(bytes, 64),
            pm1b_cnt_blk: read_u32(bytes, 68),
            pm2_cnt_blk: read_u32(bytes, 72),
            pm_tmr_blk: read_u32(bytes, 76),
            gpe0_blk: read_u32(bytes, 80),
            gpe1_blk: read_u32(bytes, 84),
            pm1_evt_len: read_u8(bytes, 88),
            pm1_cnt_len: read_u8(bytes, 89),
            pm2_cnt_len: read_u8(bytes, 90),
            pm_tmr_len: read_u8(bytes, 91),
            gpe0_blk_len: read_u8(bytes, 92),
            gpe1_blk_len: read_u8(bytes, 93),
            gpe1_base: read_u8(bytes, 94),
            cst_cnt: read_u8(bytes, 95),
            p_lvl2_lat: read_u16(bytes, 96),
            p_lvl3_lat: read_u16(bytes, 98),
            flush_size: read_u16(bytes, 100),
            flush_stride: read_u16(bytes, 102),
            duty_offset: read_u8(bytes, 104),
            duty_width: read_u8(bytes, 105),
            day_alrm: read_u8(bytes, 106),
            mon_alrm: read_u8(bytes, 107),
            century: read_u8(bytes, 108),
            iapc_boot_arch: read_u16(bytes, 109),
            reserved2: read_u8(bytes, 111),
            flags: read_u32(bytes, 112),
            reset_reg: read_u16(bytes, 116),
            reset_value: read_u8(bytes, 118),
            arm_boot_arch: read_u16(bytes, 119),
            fadt_minor_version: read_u8(bytes, 121),
            x_firmware_ctrl: read_u64(bytes, 122),
            x_dsdt: read_u64(bytes, 130),
            x_pm1a_evt_blk: read_u64(bytes, 138),
            x_pm1b_evt_blk: read_u64(bytes, 146),
            x_pm1a_cnt_blk: read_u64(bytes, 154),
            x_pm1b_cnt_blk: read_u64(bytes, 162),
            x_pm2_cnt_blk: read_u64(bytes, 170),
            x_pm_tmr_blk: read_u64(bytes, 178),
            x_gpe0_blk: read_u64(bytes, 186),
            x_gpe1_blk: read_u64(bytes, 194),
            sleep_control_reg: read_u64(bytes, 202),
            sleep_status_reg: read_u64(bytes, 210),
            hypervisor_vendor_id: read_bytes(bytes, 218, 16),
        }
    }
}

/// Sum of the first `n` bytes of `s`.
pub open spec fn byte_sum(s: Seq<u8>, n: int) -> int
    decreases n,
{
    if n <= 0 { 0 } else { byte_sum(s, n - 1) + s[n - 1] as int }
}

/// The pointer at the start of `s` checks out: its first 20 bytes sum to zero
/// modulo 256 and, from revision 2 on, so do its first `length` bytes, which
/// must lie in `s`.
pub open spec fn rsdp_checksum_ok(s: Seq<u8>) -> bool {
    &&& byte_sum(s, 20) % 256 == 0
    &&& s[15] >= 2 ==> (le_u32(s, 20) <= s.len() && byte_sum(s, le_u32(s, 20) as int) % 256 == 0)
}

/// The signature bytes "RSD PTR ".
pub open spec fn rsdp_signature() -> Seq<u8> {
    seq![82u8, 83u8, 68u8, 32u8, 80u8, 84u8, 82u8, 32u8]
}

/// Whether a valid pointer lies at address `a` of the memory image `mem`.
pub open spec fn rsdp_at(mem: Seq<u8>, a: int) -> bool {
    &&& 0 <= a
    &&& a + RSDP_SIZE <= mem.len()
    &&& mem.subrange(a, a + 8) == rsdp_signature()
    &&& rsdp_checksum_ok(mem.subrange(a, mem.len() as int))
}

/// Sum modulo 256 of the first `n` bytes.
fn wrapping_byte_sum(bytes: &[u8], n: usize) -> (r: u8)
    requires
        n <= bytes@.len(),
    ensures
        r == byte_sum(bytes@, n as int) % 256,
{
    let mut sum: u8 = 0;
    let mut i: usize = 0;
    while i < n
        invariant
            i <= n,
            n <= bytes@.len(),
            sum == byte_sum(bytes@, i as int) % 256,
        decreases n - i,
    {
        proof {
            vstd::arithmetic::div_mod::lemma_add_mod_noop(byte_sum(bytes@, i as int), bytes@[i as int] as int, 256);
        }
        sum = sum.wrapping_add(bytes[i]);
        i = i + 1;
    }
    sum
}

/// Checks the pointer laid out at the start of `bytes`.
pub fn check_rsdp_checksum(bytes: &[u8]) -> (r: bool)
    requires
        bytes@.len() >= RSDP_SIZE,
    ensures
        r == rsdp_checksum_ok(bytes@),
{
    if wrapping_byte_sum(bytes, 20) != 0 {
        return false;
    }
    if bytes[15] >= 2 {
        let length = read_u32(bytes, 20);
        if length as usize > bytes.len() {
            return false;
        }
        if wrapping_byte_sum(bytes, length as usize) != 0 {
            return false;
        }
    }
    true
}

/// Whether the eight bytes at `a` read "RSD PTR ".
fn has_rsdp_signature(mem: &[u8], a: usize) -> (r: bool)
    requires
        a + 8 <= mem@.len(),
    ensures
        r == (mem@.subrange(a as int, a + 8) == rsdp_signature()),
{
    let sig: [u8; 8] = [82u8, 83u8, 68u8, 32u8, 80u8, 84u8, 82u8, 32u8];
    assert(sig@ =~= rsdp_signature());
    let len = mem.len();
    let mut i: usize = 0;
    while i < 8
        invariant
            i <= 8,
            len == mem@.len(),
            a + 8 <= mem@.len(),
            sig@ == rsdp_signature(),
            forall|k: int| 0 <= k < i ==> #[trigger] mem@[a + k] == sig@[k],
        decreases 8 - i,
    {
        if mem[a + i] != sig[i] {
            assert(mem@.subrange(a as int, a + 8)[i as int] != rsdp_signature()[i as int]);
            return false;
        }
        i = i + 1;
    }
    assert forall|k: int| 0 <= k < 8 implies mem@.subrange(a as int, a + 8)[k] == rsdp_signature()[k] by {
        assert(mem@[a + k] == sig@[k]);
    }
    assert(mem@.subrange(a as int, a + 8) =~= rsdp_signature());
    true
}

/// Whether a valid pointer lies at address `a` of the image.
fn rsdp_valid_at(mem: &[u8], a: usize) -> (r: bool)
    ensures
        r == rsdp_at(mem@, a as int),
{
    if a > mem.len() || mem.len() - a < RSDP_SIZE {
        return false;
    }
    if !has_rsdp_signature(mem, a) {
        return false;
    }
    let rest = &mem[a..mem.len()];
    check_rsdp_checksum(rest)
}

/// The first address from `start`, in steps of 16 below `start + length`, where
/// a valid pointer lies.
pub fn search_rsdp(mem: &[u8], start: u32, length: u32) -> (r: Option<u32>)
    requires
        start + length + 16 <= u32::MAX,
    ensures
        match r {
            Some(a) => start <= a < start + length && (a - start) % 16 == 0 && rsdp_at(mem@, a as int)
                && forall|b: int| start <= b < a && (b - start) % 16 == 0 ==> !rsdp_at(mem@, b),
            None => forall|b: int| start <= b < start + length && (b - start) % 16 == 0 ==> !rsdp_at(mem@, b),
        },
{
    let mut address = start;
    while address < start + length
        invariant
            start <= address,
            address <= start + length + 15,
            start + length + 16 <= u32::MAX,
            (address - start) % 16 == 0,
            forall|b: int| start <= b < address && (b - start) % 16 == 0 ==> !rsdp_at(mem@, b),
        decreases start + length + 16 - address,
    {
        if rsdp_valid_at(mem, address as usize) {
            return Some(address);
        }
        address = address + 16;
    }
    None
}

/// The base of the extended BIOS data area: the 16-bit segment at 0x40E, times 16.
pub open spec fn ebda_base(mem: Seq<u8>) -> int {
    le_u16(mem, 0x40E) as int * 16
}

/// No valid pointer lies at the 16-byte steps of `[start, start + length)`.
pub open spec fn no_rsdp_in(mem: Seq<u8>, start: int, length: int) -> bool {
    forall|b: int| start <= b < start + length && (b - start) % 16 == 0 ==> !rsdp_at(mem, b)
}

/// `a` is the first 16-byte step of `[start, start + length)` holding a valid pointer.
pub open spec fn first_rsdp_in(mem: Seq<u8>, start: int, length: int, a: int) -> bool {
    &&& start <= a < start + length
    &&& (a - start) % 16 == 0
    &&& rsdp_at(mem, a)
    &&& forall|b: int| start <= b < a && (b - start) % 16 == 0 ==> !rsdp_at(mem, b)
}

/// `a` is where the pointer is found: the first one in the 1 KiB of the
/// extended BIOS data area when that area's segment is not zero and holds
/// one, else the first one in 0xE0000..0x100000.
pub open spec fn rsdp_location(mem: Seq<u8>, a: int) -> bool {
    let e = ebda_base(mem);
    if e > 0 && !no_rsdp_in(mem, e, 1024) {
        first_rsdp_in(mem, e, 1024, a)
    } else {
        first_rsdp_in(mem, 0xE0000, 0x20000, a)
    }
}

/// No pointer is found: none in the extended BIOS data area (or its segment
/// is zero) and none in 0xE0000..0x100000.
pub open spec fn rsdp_absent(mem: Seq<u8>) -> bool {
    &&& ebda_base(mem) == 0 || no_rsdp_in(mem, ebda_base(mem), 1024)
    &&& no_rsdp_in(mem, 0xE0000, 0x20000)
}

/// Where the pointer is found: first in the 1 KiB at the extended BIOS data
/// area, whose segment is the 16-bit value at 0x40E, when that segment is not
/// zero; else in 0xE0000..0x100000.
pub fn find_rsdp(mem: &[u8]) -> (r: Option<u32>)
    requires
        mem@.len() >= 0x410,
    ensures
        match r {
            Some(a) => rsdp_location(mem@, a as int),
            None => rsdp_absent(mem@),
        },
{
    let segment = read_u16(mem, 0x40E);
    let ebda_address = (segment as u32) * 16;
    if ebda_address > 0 {
        match search_rsdp(mem, ebda_address, 1024) {
            Some(a) => { return Some(a); },
            None => {},
        }
    }
    search_rsdp(mem, 0xE0000, 0x20000)
}

/// The "FACP" signature of the fixed ACPI description table.
pub open spec fn facp_signature() -> Seq<u8> {
    seq![70u8, 65u8, 67u8, 80u8]
}

/// Whether a table header with signature `sig` lies at address `a` of the image.
pub open spec fn table_at(mem: Seq<u8>, a: int, sig: Seq<u8>) -> bool {
    a + SDT_HEADER_SIZE <= mem.len() && mem.subrange(a, a + 4) == sig
}

/// The root table's address the pointer gives: the extended one, truncated to
/// 32 bits, from revision 2 on.
pub open spec fn root_table_address(p: Rsdp) -> int {
    if p.revision >= 2 { (p.xsdt_address as u32) as int } else { p.rsdt_address as int }
}

/// Number of 32-bit entries the root table at `base` lists, when its header
/// and its list lie in `mem` and its length covers the header.
pub open spec fn root_entry_count(mem: Seq<u8>, base: int) -> Option<int> {
    if base > mem.len() || mem.len() - base < SDT_HEADER_SIZE {
        None
    } else {
        let length = le_u32(mem, base + 4) as int;
        if length < SDT_HEADER_SIZE {
            None
        } else {
            let n = (length - SDT_HEADER_SIZE) / 4;
            if mem.len() - base - SDT_HEADER_SIZE < n * 4 { None } else { Some(n) }
        }
    }
}

/// Entry `i` of the root table at `base`.
pub open spec fn root_entry(mem: Seq<u8>, base: int, i: int) -> u32 {
    le_u32(mem, base + SDT_HEADER_SIZE + 4 * i)
}

/// The first of entries `i` to `n - 1` of the root table at `base` that names
/// a table with signature `sig`.
pub open spec fn first_listed(mem: Seq<u8>, base: int, n: int, sig: Seq<u8>, i: int) -> Option<u32>
    decreases n - i,
{
    if i >= n {
        None
    } else if table_at(mem, root_entry(mem, base, i) as int, sig) {
        Some(root_entry(mem, base, i))
    } else {
        first_listed(mem, base, n, sig, i + 1)
    }
}

/// What looking up the table with signature `sig` through the pointer `rsdp` finds.
pub open spec fn table_lookup(rsdp: Option<Rsdp>, mem: Seq<u8>, sig: Seq<u8>) -> Option<u32> {
    match rsdp {
        None => None,
        Some(p) => match root_entry_count(mem, root_table_address(p)) {
            None => None,
            Some(n) => first_listed(mem, root_table_address(p), n, sig, 0),
        },
    }
}

/// A command written to a power-management control port.
pub struct AcpiCommand {
    pub port: u32,
    pub value: u16,
}

/// Power management through ACPI.
pub struct AcpiManager {
    rsdp: Option<Rsdp>,
    rsdt: Option<SdtHeader>,
    fadt: Option<Fadt>,
    current_state: PowerState,
    pending_command: Option<AcpiCommand>,
}

/// The PM1a control port of a table: the extended field, truncated, from revision 5 on.
pub open spec fn pm1a_port(f: Fadt) -> u32 {
    if f.header.revision >= 5 { f.x_pm1a_cnt_blk as u32 } else { f.pm1a_cnt_blk }
}

impl AcpiManager {
    /// The table the manager has read, if any.
    pub closed spec fn fadt_spec(&self) -> Option<Fadt> {
        self.fadt
    }

    /// The pointer the manager was created with.
    pub closed spec fn rsdp_spec(&self) -> Option<Rsdp> {
        self.rsdp
    }

    /// The command last issued and not yet written out.
    pub closed spec fn pending(&self) -> Option<AcpiCommand> {
        self.pending_command
    }

    /// A manager on the pointer found in the image, in the normal state;
    /// `AcpiUnavailable` when no pointer is found.
    pub fn new(mem: &[u8]) -> (r: Result<Self, PowerError>)
        requires
            mem@.len() >= 0x410,
        ensures
            match r {
                Ok(m) => (m.rsdp_spec() matches Some(p)
                        && exists|a: int| #[trigger] rsdp_location(mem@, a) && decodes_rsdp(p, mem@.subrange(a, mem@.len() as int)))
                    && m.fadt_spec() is None && m.state_spec() == PowerState::Normal && m.pending() is None,
                Err(e) => e == PowerError::AcpiUnavailable && rsdp_absent(mem@),
            },
    {
        match find_rsdp(mem) {
            Some(a) => {
                let rsdp = Rsdp::parse(&mem[a as usize..mem.len()]);
                Ok(AcpiManager { rsdp: Some(rsdp), rsdt: None, fadt: None, current_state: PowerState::Normal, pending_command: None })
            },
            None => Err(PowerError::AcpiUnavailable),
        }
    }

    /// The address of the first table with signature `signature` listed by the
    /// root table, reading 32-bit entries after its header. A root table or an
    /// entry list that does not lie in the image, or a root length below the
    /// header size, lists no table.
    pub fn find_table(&self, mem: &[u8], signature: &[u8]) -> (r: Option<u32>)
        requires
            signature@.len() == 4,
        ensures
            r == table_lookup(self.rsdp_spec(), mem@, signature@),
            r matches Some(a) ==> table_at(mem@, a as int, signature@),
    {
        let rsdp = match &self.rsdp {
            Some(p) => p,
            None => { return None; },
        };
        let rsdt_address = if rsdp.revision >= 2 { #[verifier::truncate] (rsdp.xsdt_address as u32) } else { rsdp.rsdt_address };
        let base = rsdt_address as usize;
        if base > mem.len() || mem.len() - base < SDT_HEADER_SIZE {
            return None;
        }
        let length = read_u32(mem, base + 4);
        if (length as usize) < SDT_HEADER_SIZE {
            return None;
        }
        let entry_count = (length as usize - SDT_HEADER_SIZE) / 4;
        if mem.len() - base - SDT_HEADER_SIZE < entry_count * 4 {
            return None;
        }
        let len = mem.len();
        let mut i: usize = 0;
        while i < entry_count
            invariant
                self.rsdp_spec() is Some,
                len == mem@.len(),
                i <= entry_count,
                base + SDT_HEADER_SIZE + entry_count * 4 <= mem@.len(),
                signature@.len() == 4,
                base == root_table_address(self.rsdp_spec()->0),
                root_entry_count(mem@, base as int) == Some(entry_count as int),
                table_lookup(self.rsdp_spec(), mem@, signature@)
                    == first_listed(mem@, base as int, entry_count as int, signature@, i as int),
            decreases entry_count - i,
        {
            let table_address = read_u32(mem, base + SDT_HEADER_SIZE + 4 * i);
            let t = table_address as usize;
            if t <= mem.len() && mem.len() - t >= SDT_HEADER_SIZE {
                let mut same = true;
                let mut k: usize = 0;
                while k < 4
                    invariant
                        len == mem@.len(),
                        k <= 4,
                        t + SDT_HEADER_SIZE <= mem@.len(),
                        signature@.len() == 4,
                        same == (forall|j: int| 0 <= j < k ==> #[trigger] mem@[t + j] == signature@[j]),
                    decreases 4 - k,
                {
                    if mem[t + k] != signature[k] {
                        same = false;
                    }
                    k = k + 1;
                }
                if same {
                    assert forall|j: int| 0 <= j < 4 implies mem@.subrange(t as int, t + 4)[j] == signature@[j] by {
                        assert(mem@[t + j] == signature@[j]);
                    }
                    assert(mem@.subrange(t as int, t + 4) =~= signature@);
                    return Some(table_address);
                }
                proof {
                    let j = choose|j: int| 0 <= j < 4 && mem@[t + j] != signature@[j];
                    assert(mem@.subrange(t as int, t + 4)[j] != signature@[j]);
                }
            }
            i = i + 1;
        }
        None
    }

    /// Reads the fixed ACPI description table listed by the root table, when it
    /// lies in the image; reports whether the manager now holds a table.
    pub fn read_fadt(&mut self, mem: &[u8]) -> (found: bool)
        ensures
            found == (final(self).fadt_spec() is Some),
            match table_lookup(old(self).rsdp_spec(), mem@, facp_signature()) {
                Some(a) => if a + FADT_SIZE <= mem@.len() {
                    final(self).fadt_spec() matches Some(f) && decodes_fadt(f, mem@.subrange(a as int, mem@.len() as int))
                } else {
                    final(self).fadt_spec() == old(self).fadt_spec()
                },
                None => final(self).fadt_spec() == old(self).fadt_spec(),
            },
            final(self).state_spec() == old(self).state_spec(),
            final(self).pending() == old(self).pending(),
            final(self).rsdp_spec() == old(self).rsdp_spec(),
    {
        let facp: [u8; 4] = [70u8, 65u8, 67u8, 80u8];
        assert(facp@ =~= facp_signature());
        match self.find_table(mem, &facp) {
            Some(a) => {
                let t = a as usize;
                if t <= mem.len() && mem.len() - t >= FADT_SIZE {
                    let fadt = Fadt::parse(&mem[t..mem.len()]);
                    self.fadt = Some(fadt);
                    true
                } else {
                    self.fadt.is_some()
                }
            },
            None => self.fadt.is_some(),
        }
    }

    /// Issues `command` to the PM1a control port of the table: no table gives
    /// `AcpiUnavailable`, a zero port `UnsupportedOperation`.
    pub fn send_acpi_command(&mut self, command: u16) -> (r: Result<(), PowerError>)
        ensures
            final(self).state_spec() == old(self).state_spec(),
            final(self).fadt_spec() == old(self).fadt_spec(),
            final(self).rsdp_spec() == old(self).rsdp_spec(),
            old(self).fadt_spec() is None ==> r == Err::<(), PowerError>(PowerError::AcpiUnavailable)
                && final(self).pending() == old(self).pending(),
            old(self).fadt_spec() matches Some(f) ==> (if pm1a_port(f) > 0 {
                r == Ok::<(), PowerError>(()) && final(self).pending() == Some(AcpiCommand { port: pm1a_port(f), value: command })
            } else {
                r == Err::<(), PowerError>(PowerError::UnsupportedOperation) && final(self).pending() == old(self).pending()
            }),
    {
        match &self.fadt {
            Some(fadt) => {
                let pm1a_cnt_blk = if fadt.header.revision >= 5 {
                    #[verifier::truncate] (fadt.x_pm1a_cnt_blk as u32)
                } else {
                    fadt.pm1a_cnt_blk
                };
                if pm1a_cnt_blk > 0 {
                    self.pending_command = Some(AcpiCommand { port: pm1a_cnt_blk, value: command });
                    Ok(())
                } else {
                    Err(PowerError::UnsupportedOperation)
                }
            },
            None => Err(PowerError::AcpiUnavailable),
        }
    }

    /// Hands out the issued command, to be written to its port.
    pub fn take_pending_command(&mut self) -> (c: Option<AcpiCommand>)
        ensures
            c == old(self).pending(),
            final(self).pending() is None,
            final(self).state_spec() == old(self).state_spec(),
            final(self).fadt_spec() == old(self).fadt_spec(),
    {
        let c = self.pending_command.take();
        c
    }

    /// Whether issuing a command succeeds with the held table.
    pub open spec fn command_ok(&self) -> bool {
        self.fadt_spec() matches Some(f) && pm1a_port(f) > 0
    }

    /// The error issuing a command gives when it fails: no table, or no port.
    pub open spec fn command_error(&self) -> PowerError {
        if self.fadt_spec() is None { PowerError::AcpiUnavailable } else { PowerError::UnsupportedOperation }
    }

    /// What entering a sleeping state with `command` does: on success the
    /// command is pending for the port and the state is `state`; on failure
    /// the error says why and nothing changes.
    pub open spec fn entered(&self, new: &AcpiManager, command: u16, state: PowerState, r: Result<(), PowerError>) -> bool {
        &&& new.fadt_spec() == self.fadt_spec()
        &&& new.rsdp_spec() == self.rsdp_spec()
        &&& if self.command_ok() {
            &&& r == Ok::<(), PowerError>(())
            &&& new.state_spec() == state
            &&& new.pending() == Some(AcpiCommand { port: pm1a_port(self.fadt_spec()->0), value: command })
        } else {
            &&& r == Err::<(), PowerError>(self.command_error())
            &&& new.state_spec() == self.state_spec()
            &&& new.pending() == self.pending()
        }
    }
}

impl PowerManager for AcpiManager {
    closed spec fn state_spec(&self) -> PowerState {
        self.current_state
    }

    fn init(&mut self) -> (r: Result<(), PowerError>)
        ensures
            r is Ok == (old(self).fadt_spec() is Some),
            r is Err ==> r == Err::<(), PowerError>(PowerError::AcpiUnavailable),
            *final(self) == *old(self),
    {
        if self.fadt.is_none() {
            return Err(PowerError::AcpiUnavailable);
        }
        Ok(())
    }

    fn set_power_state(&mut self, state: PowerState) -> (r: Result<(), PowerError>)
        ensures
            state == PowerState::Normal ==> r is Ok && final(self).fadt_spec() == old(self).fadt_spec()
                && final(self).rsdp_spec() == old(self).rsdp_spec() && final(self).pending() == old(self).pending(),
            state == PowerState::Standby ==> old(self).entered(final(self), 0x1000, state, r),
            state == PowerState::Sleep ==> old(self).entered(final(self), 0x2000, state, r),
            state == PowerState::Off ==> old(self).entered(final(self), 0x7000, state, r),
    {
        match state {
            PowerState::Normal => {
                self.current_state = state;
                Ok(())
            },
            PowerState::Standby => self.standby(),
            PowerState::Sleep => self.sleep(),
            PowerState::Off => self.shutdown(),
        }
    }

    fn get_power_state(&self) -> (s: PowerState) {
        self.current_state
    }

    fn wakeup(&mut self) -> (r: Result<(), PowerError>)
        ensures
            r is Ok,
            final(self).fadt_spec() == old(self).fadt_spec(),
            final(self).rsdp_spec() == old(self).rsdp_spec(),
            final(self).pending() == old(self).pending(),
    {
        self.current_state = PowerState::Normal;
        Ok(())
    }

    fn sleep(&mut self) -> (r: Result<(), PowerError>)
        ensures
            old(self).entered(final(self), 0x2000, PowerState::Sleep, r),
    {
        self.send_acpi_command(0x2000)?;
        self.current_state = PowerState::Sleep;
        Ok(())
    }

    fn standby(&mut self) -> (r: Result<(), PowerError>)
        ensures
            old(self).entered(final(self), 0x1000, PowerState::Standby, r),
    {
        self.send_acpi_command(0x1000)?;
        self.current_state = PowerState::Standby;
        Ok(())
    }

    fn shutdown(&mut self) -> (r: Result<(), PowerError>)
        ensures
            old(self).entered(final(self), 0x7000, PowerState::Off, r),
    {
        self.send_acpi_command(0x7000)?;
        self.current_state = PowerState::Off;
        Ok(())
    }
}

} // verus!
