//! CPU core masks and the assignment of cores to enclave kinds.
use vstd::prelude::*;
use super::EnclaveType;

verus! {

/// The bits of all 64 cores a mask can hold; the first sixteen are named
/// `CORE_0` to `CORE_15`.
pub const ALL_CORES: u64 = 0xFFFF_FFFF_FFFF_FFFF;

/// Whether bit `c` (below 64) of `bits` is set.
pub open spec fn has_core(bits: u64, c: u64) -> bool {
    c < 64 && (bits >> c) & 1u64 == 1u64
}

/// Bit `c` of `a | b`, of `a & b`, of the complement of `a`, and of a
/// single-core mask.
pub proof fn lemma_core_bits(a: u64, b: u64, c: u64, k: u64)
    requires
        c < 64,
        k < 64,
    ensures
        has_core(a | b, c) == (has_core(a, c) || has_core(b, c)),
        has_core(a & b, c) == (has_core(a, c) && has_core(b, c)),
        has_core(!a & ALL_CORES, c) == !has_core(a, c),
        has_core((1u64 << k) & ALL_CORES, c) == (c == k),
        has_core(a & ALL_CORES, c) == has_core(a, c),
        has_core(0u64, c) == false,
{
    assert(((a | b) >> c) & 1u64 == 1u64 <==> (((a >> c) & 1u64 == 1u64) || ((b >> c) & 1u64 == 1u64))) by (bit_vector)
        requires c < 64u64;
    assert(((a & b) >> c) & 1u64 == 1u64 <==> (((a >> c) & 1u64 == 1u64) && ((b >> c) & 1u64 == 1u64))) by (bit_vector)
        requires c < 64u64;
    assert(((!a & 0xFFFF_FFFF_FFFF_FFFFu64) >> c) & 1u64 == 1u64 <==> !((a >> c) & 1u64 == 1u64)) by (bit_vector)
        requires c < 64u64;
    assert((((1u64 << k) & 0xFFFF_FFFF_FFFF_FFFFu64) >> c) & 1u64 == 1u64 <==> c == k) by (bit_vector)
        requires c < 64u64, k < 64u64;
    assert(((a & 0xFFFF_FFFF_FFFF_FFFFu64) >> c) & 1u64 == 1u64 <==> ((a >> c) & 1u64 == 1u64)) by (bit_vector)
        requires c < 64u64;
    assert((0u64 >> c) & 1u64 != 1u64) by (bit_vector)
        requires c < 64u64;
}

/// The masks of the fixed layouts are their own truncation.
pub proof fn lemma_layout_bits()
    ensures
        1u64 & ALL_CORES == 1u64,
        2u64 & ALL_CORES == 2u64,
        12u64 & ALL_CORES == 12u64,
{
    assert(1u64 & 0xFFFF_FFFF_FFFF_FFFFu64 == 1u64) by (bit_vector);
    assert(2u64 & 0xFFFF_FFFF_FFFF_FFFFu64 == 2u64) by (bit_vector);
    assert(12u64 & 0xFFFF_FFFF_FFFF_FFFFu64 == 12u64) by (bit_vector);
}

/// Number of cores below `n` in `bits`.
pub open spec fn count_cores(bits: u64, n: nat) -> nat
    decreases n,
{
    if n == 0 {
        0
    } else {
        count_cores(bits, (n - 1) as nat) + (if has_core(bits, (n - 1) as u64) { 1nat } else { 0nat })
    }
}

/// A set of CPU cores 0 to 63, one bit per core.
#[derive(Debug, Clone, Copy, PartialEq, Eq, Structural)]
pub struct CpuMask {
    bits: u64,
}

impl CpuMask {
    /// The raw bits.
    pub closed spec fn bits_spec(&self) -> u64 {
        self.bits
    }

    /// Only bits of `ALL_CORES` are set.
    pub closed spec fn wf(&self) -> bool {
        self.bits & ALL_CORES == self.bits
    }

    /// Whether core `c` is in the mask.
    pub open spec fn has(&self, c: u64) -> bool {
        has_core(self.bits_spec(), c)
    }

    /// The mask of the cores among `bits`.
    pub fn from_bits_truncate(bits: u64) -> (m: CpuMask)
        ensures
            m.wf(),
            m.bits_spec() == bits & ALL_CORES,
            forall|c: u64| #[trigger] m.has(c) == has_core(bits, c),
    {
        let m = CpuMask { bits: bits & ALL_CORES };
        proof {
            assert(bits & 0xFFFF_FFFF_FFFF_FFFFu64 & 0xFFFF_FFFF_FFFF_FFFFu64 == bits & 0xFFFF_FFFF_FFFF_FFFFu64) by (bit_vector);
            assert forall|c: u64| #[trigger] m.has(c) == has_core(bits, c) by {
                if c < 64 { lemma_core_bits(bits, 0, c, 0); }
            }
        }
        m
    }

    /// The raw bits.
    pub fn bits(&self) -> (r: u64)
        ensures
            r == self.bits_spec(),
    {
        self.bits
    }

    /// The mask with no core.
    pub fn empty() -> (m: CpuMask)
        ensures
            m.wf(),
            m.bits_spec() == 0,
            forall|c: u64| !#[trigger] m.has(c),
    {
        let m = CpuMask { bits: 0 };
        proof {
            assert(0u64 & 0xFFFF_FFFF_FFFF_FFFFu64 == 0u64) by (bit_vector);
            assert forall|c: u64| !#[trigger] m.has(c) by {
                if c < 64 { lemma_core_bits(0, 0, c, 0); }
            }
        }
        m
    }

    /// Cores in either mask.
    pub fn union(&self, other: &CpuMask) -> (m: CpuMask)
        requires
            self.wf(),
            other.wf(),
        ensures
            m.wf(),
            m.bits_spec() == self.bits_spec() | other.bits_spec(),
            forall|c: u64| #[trigger] m.has(c) == (self.has(c) || other.has(c)),
    {
        let m = CpuMask { bits: self.bits | other.bits };
        proof {
            let a = self.bits;
            let b = other.bits;
            assert((a & 0xFFFF_FFFF_FFFF_FFFFu64 == a && b & 0xFFFF_FFFF_FFFF_FFFFu64 == b) ==> (a | b) & 0xFFFF_FFFF_FFFF_FFFFu64 == a | b) by (bit_vector);
            assert forall|c: u64| #[trigger] m.has(c) == (self.has(c) || other.has(c)) by {
                if c < 64 { lemma_core_bits(a, b, c, 0); }
            }
        }
        m
    }

    /// Cores in both masks.
    pub fn intersection(&self, other: &CpuMask) -> (m: CpuMask)
        requires
            self.wf(),
            other.wf(),
        ensures
            m.wf(),
            m.bits_spec() == self.bits_spec() & other.bits_spec(),
            forall|c: u64| #[trigger] m.has(c) == (self.has(c) && other.has(c)),
    {
        let m = CpuMask { bits: self.bits & other.bits };
        proof {
            let a = self.bits;
            let b = other.bits;
            assert((a & 0xFFFF_FFFF_FFFF_FFFFu64 == a) ==> (a & b) & 0xFFFF_FFFF_FFFF_FFFFu64 == a & b) by (bit_vector);
            assert forall|c: u64| #[trigger] m.has(c) == (self.has(c) && other.has(c)) by {
                if c < 64 { lemma_core_bits(a, b, c, 0); }
            }
        }
        m
    }

    /// The cores below 64 not in the mask.
    pub fn complement(&self) -> (m: CpuMask)
        requires
            self.wf(),
        ensures
            m.wf(),
            m.bits_spec() == !self.bits_spec() & ALL_CORES,
            forall|c: u64| #[trigger] m.has(c) == (c < 64 && !self.has(c)),
    {
        let m = CpuMask { bits: !self.bits & ALL_CORES };
        proof {
            let a = self.bits;
            assert((!a & 0xFFFF_FFFF_FFFF_FFFFu64) & 0xFFFF_FFFF_FFFF_FFFFu64 == !a & 0xFFFF_FFFF_FFFF_FFFFu64) by (bit_vector);
            assert forall|c: u64| #[trigger] m.has(c) == (c < 64 && !self.has(c)) by {
                if c < 64 { lemma_core_bits(a, a, c, 0); }
            }
        }
        m
    }

    /// Whether core `core_id` is in the mask; ids from 64 on never are.
    pub fn contains_core(&self, core_id: u8) -> (r: bool)
        ensures
            r == self.has(core_id as u64),
    {
        if core_id >= 64 {
            return false;
        }
        let c = core_id as u64;
        let b = self.bits;
        proof {
            assert(c < 64u64 ==> ((b & (1u64 << c) != 0u64) <==> ((b >> c) & 1u64 == 1u64))) by (bit_vector);
        }
        self.bits & (1u64 << c) != 0
    }

    /// Adds core `core_id`; ids from 64 on change nothing.
    pub fn add_core(&mut self, core_id: u8)
        requires
            old(self).wf(),
        ensures
            final(self).wf(),
            core_id < 64 ==> final(self).bits_spec() == old(self).bits_spec() | ((1u64 << core_id as u64) & ALL_CORES),
            core_id >= 64 ==> *final(self) == *old(self),
            forall|c: u64| #[trigger] final(self).has(c) == (old(self).has(c) || (c == core_id && core_id < 64)),
    {
        if core_id < 64 {
            let single = CpuMask::from_bits_truncate(1u64 << (core_id as u64));
            let m = self.union(&single);
            proof {
                assert forall|c: u64| #[trigger] m.has(c) == (old(self).has(c) || (c == core_id && core_id < 64)) by {
                    if c < 64 { lemma_core_bits(old(self).bits, 1u64 << (core_id as u64), c, core_id as u64); }
                }
            }
            *self = m;
        }
    }

    /// Removes core `core_id`.
    pub fn remove_core(&mut self, core_id: u8)
        requires
            old(self).wf(),
        ensures
            final(self).wf(),
            core_id < 64 ==> final(self).bits_spec()
                == old(self).bits_spec() & (!((1u64 << core_id as u64) & ALL_CORES) & ALL_CORES),
            core_id >= 64 ==> *final(self) == *old(self),
            forall|c: u64| #[trigger] final(self).has(c) == (old(self).has(c) && c != core_id),
    {
        if core_id < 64 {
            let single = CpuMask::from_bits_truncate(1u64 << (core_id as u64));
            let keep = single.complement();
            let m = self.intersection(&keep);
            proof {
                assert forall|c: u64| #[trigger] m.has(c) == (old(self).has(c) && c != core_id) by {
                    if c < 64 {
                        lemma_core_bits(old(self).bits, 1u64 << (core_id as u64), c, core_id as u64);
                    }
                }
            }
            *self = m;
        } else {
            proof {
                assert forall|c: u64| #[trigger] self.has(c) == (old(self).has(c) && c != core_id) by {
                    if c == core_id as u64 && c < 64 {
                    }
                }
            }
        }
    }

    /// Number of cores in the mask.
    pub fn core_count(&self) -> (r: usize)
        ensures
            r == count_cores(self.bits_spec(), 64),
    {
        let mut n: usize = 0;
        let mut c: u8 = 0;
        while c < 64
            invariant
                c <= 64,
                n == count_cores(self.bits_spec(), c as nat),
                n <= c,
            decreases 64 - c,
        {
            if self.contains_core(c) {
                n = n + 1;
            }
            c = c + 1;
        }
        n
    }

    /// The lowest core in the mask.
    pub fn first_core(&self) -> (r: Option<u8>)
        ensures
            match r {
                Some(c) => c < 64 && self.has(c as u64) && forall|d: u64| d < c ==> !#[trigger] self.has(d),
                None => forall|d: u64| !#[trigger] self.has(d),
            },
    {
        let mut core: u8 = 0;
        while core < 64
            invariant
                core <= 64,
                forall|d: u64| d < core ==> !#[trigger] self.has(d),
            decreases 64 - core,
        {
            if self.contains_core(core) {
                return Some(core);
            }
            core = core + 1;
        }
        proof {
            assert forall|d: u64| !#[trigger] self.has(d) by {
                if d < 64 { assert(d < core); }
            }
        }
        None
    }
}

/// Removing a core undoes adding it: for a core `k` not in `m`, the mask
/// `added` that `add_core(k)` makes of `m` and the mask `removed` that
/// `remove_core(k)` then makes of it hold exactly the cores of `m`.
pub proof fn law_remove_core_undoes_add(m: CpuMask, k: u8, added: CpuMask, removed: CpuMask)
    requires
        !m.has(k as u64),
        forall|c: u64| #[trigger] added.has(c) == (m.has(c) || (c == k && k < 64)),
        forall|c: u64| #[trigger] removed.has(c) == (added.has(c) && c != k),
    ensures
        forall|c: u64| #[trigger] removed.has(c) == m.has(c),
{
    assert forall|c: u64| #[trigger] removed.has(c) == m.has(c) by {
        assert(added.has(c) == (m.has(c) || (c == k && k < 64)));
    }
}

/// Cores reserved for each enclave kind and cores open to ordinary processes.
#[derive(Debug, Clone, Copy)]
pub struct CoreConfig {
    pub ai_cores: CpuMask,
    pub graphic_cores: CpuMask,
    pub media_cores: CpuMask,
    pub network_cores: CpuMask,
    pub normal_cores: CpuMask,
}

impl CoreConfig {
    /// Every mask is well formed.
    pub open spec fn wf(&self) -> bool {
        &&& self.ai_cores.wf()
        &&& self.graphic_cores.wf()
        &&& self.media_cores.wf()
        &&& self.network_cores.wf()
        &&& self.normal_cores.wf()
    }

    /// The four-core layout: AI on cores 2 and 3, graphics on core 1, the rest on core 0.
    pub open spec fn is_four_core_layout(&self) -> bool {
        &&& self.ai_cores.bits_spec() == 0b1100
        &&& self.graphic_cores.bits_spec() == 0b10
        &&& self.media_cores.bits_spec() == 1
        &&& self.network_cores.bits_spec() == 1
        &&& self.normal_cores.bits_spec() == 1
    }

    /// The masks reserved for `t`.
    pub open spec fn cores_of(&self, t: EnclaveType) -> CpuMask {
        match t {
            EnclaveType::AIEnclave => self.ai_cores,
            EnclaveType::GraphicEnclave => self.graphic_cores,
            EnclaveType::MediaEnclave => self.media_cores,
            EnclaveType::NetworkEnclave => self.network_cores,
        }
    }
}

impl Default for CoreConfig {
    fn default() -> (c: Self)
        ensures
            c.wf(),
            c.is_four_core_layout(),
    {
        proof { lemma_layout_bits(); }
        CoreConfig {
            ai_cores: CpuMask::from_bits_truncate(0b1100),
            graphic_cores: CpuMask::from_bits_truncate(0b10),
            media_cores: CpuMask::from_bits_truncate(1),
            network_cores: CpuMask::from_bits_truncate(1),
            normal_cores: CpuMask::from_bits_truncate(1),
        }
    }
}

/// Number of cores assumed until detection runs, and the number detection reports.
pub const DEFAULT_CORE_COUNT: u64 = 4;

/// The layout the manager chooses for `n` cores, as a predicate on a configuration.
pub open spec fn allocation_for(n: u8, c: CoreConfig) -> bool {
    if n == 1 {
        &&& c.ai_cores.bits_spec() == 1
        &&& c.graphic_cores.bits_spec() == 1
        &&& c.media_cores.bits_spec() == 1
        &&& c.network_cores.bits_spec() == 1
        &&& c.normal_cores.bits_spec() == 1
    } else if n == 2 {
        &&& c.ai_cores.bits_spec() == 0b10
        &&& c.graphic_cores.bits_spec() == 0b10
        &&& c.media_cores.bits_spec() == 1
        &&& c.network_cores.bits_spec() == 1
        &&& c.normal_cores.bits_spec() == 1
    } else if n == 4 {
        c.is_four_core_layout()
    } else {
        &&& forall|k: u64| #[trigger] c.ai_cores.has(k) == (2 <= k < n && k < 64)
        &&& forall|k: u64| #[trigger] c.graphic_cores.has(k) == (k == 1 && n > 1)
        &&& forall|k: u64| #[trigger] c.media_cores.has(k) == (k == 0 && n > 0)
        &&& forall|k: u64| #[trigger] c.network_cores.has(k) == (k == 0 && n > 0)
        &&& forall|k: u64| #[trigger] c.normal_cores.has(k) == (k == 0 && n > 0)
    }
}

/// The assignment of cores to enclave kinds.
pub struct CoreBindingManager {
    config: CoreConfig,
    total_cores: u64,
    initialized: bool,
}

impl CoreBindingManager {
    /// The configuration's masks are well formed.
    pub closed spec fn wf(&self) -> bool {
        self.config.wf()
    }

    /// The current configuration.
    pub closed spec fn config_spec(&self) -> CoreConfig {
        self.config
    }

    /// The number of cores the manager works with.
    pub closed spec fn total_cores_spec(&self) -> u64 {
        self.total_cores
    }

    /// Whether initialisation has run.
    pub closed spec fn is_initialized(&self) -> bool {
        self.initialized
    }

    /// A manager with the four-core layout, not yet initialised.
    pub fn new() -> (m: Self)
        ensures
            m.wf(),
            m.config_spec().is_four_core_layout(),
            m.total_cores_spec() == DEFAULT_CORE_COUNT,
            !m.is_initialized(),
    {
        CoreBindingManager { config: CoreConfig::default(), total_cores: DEFAULT_CORE_COUNT, initialized: false }
    }

    /// Detects the cores (four), chooses their layout and marks the manager initialised.
    pub fn init(&mut self)
        requires
            old(self).wf(),
        ensures
            final(self).wf(),
            final(self).total_cores_spec() == DEFAULT_CORE_COUNT,
            allocation_for(DEFAULT_CORE_COUNT as u8, final(self).config_spec()),
            final(self).is_initialized(),
    {
        self.detect_cpu_cores();
        self.setup_default_core_allocation();
        self.initialized = true;
    }

    /// Records the number of cores; this platform reports four.
    fn detect_cpu_cores(&mut self)
        requires
            old(self).wf(),
        ensures
            final(self).wf(),
            final(self).total_cores_spec() == DEFAULT_CORE_COUNT,
            final(self).config_spec() == old(self).config_spec(),
            final(self).is_initialized() == old(self).is_initialized(),
    {
        self.total_cores = DEFAULT_CORE_COUNT;
    }

    /// Chooses the layout for the recorded core count (taken modulo 256).
    fn setup_default_core_allocation(&mut self)
        requires
            old(self).wf(),
        ensures
            final(self).wf(),
            allocation_for(#[verifier::truncate] (old(self).total_cores_spec() as u8), final(self).config_spec()),
            final(self).total_cores_spec() == old(self).total_cores_spec(),
            final(self).is_initialized() == old(self).is_initialized(),
    {
        proof { lemma_layout_bits(); }
        let total_cores = #[verifier::truncate] (self.total_cores as u8);
        if total_cores == 1 {
            self.config.ai_cores = CpuMask::from_bits_truncate(1);
            self.config.graphic_cores = CpuMask::from_bits_truncate(1);
            self.config.media_cores = CpuMask::from_bits_truncate(1);
            self.config.network_cores = CpuMask::from_bits_truncate(1);
            self.config.normal_cores = CpuMask::from_bits_truncate(1);
        } else if total_cores == 2 {
            self.config.ai_cores = CpuMask::from_bits_truncate(0b10);
            self.config.graphic_cores = CpuMask::from_bits_truncate(0b10);
            self.config.media_cores = CpuMask::from_bits_truncate(1);
            self.config.network_cores = CpuMask::from_bits_truncate(1);
            self.config.normal_cores = CpuMask::from_bits_truncate(1);
        } else if total_cores == 4 {
            self.config = CoreConfig::default();
        } else {
            let mut ai_cores = CpuMask::empty();
            let mut graphic_cores = CpuMask::empty();
            let mut media_cores = CpuMask::empty();
            let mut network_cores = CpuMask::empty();
            let mut normal_cores = CpuMask::empty();
            let mut core: u8 = 0;
            while core < total_cores
                invariant
                    core <= total_cores,
                    ai_cores.wf(),
                    graphic_cores.wf(),
                    media_cores.wf(),
                    network_cores.wf(),
                    normal_cores.wf(),
                    forall|k: u64| #[trigger] ai_cores.has(k) == (2 <= k < core && k < 64),
                    forall|k: u64| #[trigger] graphic_cores.has(k) == (k == 1 && core > 1),
                    forall|k: u64| #[trigger] media_cores.has(k) == (k == 0 && core > 0),
                    forall|k: u64| #[trigger] network_cores.has(k) == (k == 0 && core > 0),
                    forall|k: u64| #[trigger] normal_cores.has(k) == (k == 0 && core > 0),
                decreases total_cores - core,
            {
                if core == 0 {
                    media_cores.add_core(core);
                    network_cores.add_core(core);
                    normal_cores.add_core(core);
                } else if core == 1 {
                    graphic_cores.add_core(core);
                } else {
                    ai_cores.add_core(core);
                }
                core = core + 1;
            }
            self.config.ai_cores = ai_cores;
            self.config.graphic_cores = graphic_cores;
            self.config.media_cores = media_cores;
            self.config.network_cores = network_cores;
            self.config.normal_cores = normal_cores;
        }
    }

    /// The cores reserved for `enclave_type`.
    pub fn get_enclave_cores(&self, enclave_type: EnclaveType) -> (m: CpuMask)
        ensures
            m == self.config_spec().cores_of(enclave_type),
    {
        match enclave_type {
            EnclaveType::AIEnclave => self.config.ai_cores,
            EnclaveType::GraphicEnclave => self.config.graphic_cores,
            EnclaveType::MediaEnclave => self.config.media_cores,
            EnclaveType::NetworkEnclave => self.config.network_cores,
        }
    }

    /// The lowest core reserved for `enclave_type`.
    pub fn get_binded_core(&self, enclave_type: EnclaveType) -> (r: Option<u8>)
        ensures
            match r {
                Some(c) => c < 64 && self.config_spec().cores_of(enclave_type).has(c as u64)
                    && forall|d: u64| d < c ==> !#[trigger] self.config_spec().cores_of(enclave_type).has(d),
                None => forall|d: u64| !#[trigger] self.config_spec().cores_of(enclave_type).has(d),
            },
    {
        let cores = self.get_enclave_cores(enclave_type);
        cores.first_core()
    }

    /// The cores open to ordinary processes.
    pub fn get_normal_cores(&self) -> (m: CpuMask)
        ensures
            m == self.config_spec().normal_cores,
    {
        self.config.normal_cores
    }

    /// Cores reserved for some enclave kind and closed to ordinary processes.
    pub fn get_enclave_exclusive_cores(&self) -> (m: CpuMask)
        requires
            self.wf(),
        ensures
            m.wf(),
            forall|c: u64| #[trigger] m.has(c) == (
                (self.config_spec().ai_cores.has(c) || self.config_spec().graphic_cores.has(c)
                    || self.config_spec().media_cores.has(c) || self.config_spec().network_cores.has(c))
                && c < 64 && !self.config_spec().normal_cores.has(c)),
    {
        let all_enclave_cores = self.config.ai_cores.union(&self.config.graphic_cores)
            .union(&self.config.media_cores).union(&self.config.network_cores);
        all_enclave_cores.intersection(&self.config.normal_cores.complement())
    }

    /// Whether `core_id` is reserved for enclaves only.
    pub fn is_enclave_core(&self, core_id: u8) -> (r: bool)
        requires
            self.wf(),
        ensures
            r == (
                (self.config_spec().ai_cores.has(core_id as u64) || self.config_spec().graphic_cores.has(core_id as u64)
                    || self.config_spec().media_cores.has(core_id as u64) || self.config_spec().network_cores.has(core_id as u64))
                && core_id < 64 && !self.config_spec().normal_cores.has(core_id as u64)),
    {
        let exclusive_cores = self.get_enclave_exclusive_cores();
        exclusive_cores.contains_core(core_id)
    }

    /// Gives `enclave_type` the cores `new_cores`; always succeeds.
    pub fn reallocate_cores(&mut self, enclave_type: EnclaveType, new_cores: CpuMask) -> (r: Result<(), &'static str>)
        requires
            old(self).wf(),
            new_cores.wf(),
        ensures
            final(self).wf(),
            r == Ok::<(), &str>(()),
            final(self).config_spec().cores_of(enclave_type) == new_cores,
            forall|t: EnclaveType| t != enclave_type ==> #[trigger] final(self).config_spec().cores_of(t)
                == old(self).config_spec().cores_of(t),
            final(self).config_spec().normal_cores == old(self).config_spec().normal_cores,
            final(self).total_cores_spec() == old(self).total_cores_spec(),
            final(self).is_initialized() == old(self).is_initialized(),
    {
        match enclave_type {
            EnclaveType::AIEnclave => self.config.ai_cores = new_cores,
            EnclaveType::GraphicEnclave => self.config.graphic_cores = new_cores,
            EnclaveType::MediaEnclave => self.config.media_cores = new_cores,
            EnclaveType::NetworkEnclave => self.config.network_cores = new_cores,
        }
        Ok(())
    }

    /// Confirms the affinity of `enclave_type` to its reserved cores; always succeeds.
    pub fn set_cpu_affinity(&self, enclave_type: EnclaveType) -> (r: Result<(), &'static str>)
        ensures
            r == Ok::<(), &str>(()),
    {
        let _cores = self.get_enclave_cores(enclave_type);
        Ok(())
    }

    /// The current configuration.
    pub fn config(&self) -> (c: &CoreConfig)
        ensures
            *c == self.config_spec(),
    {
        &self.config
    }

    /// The number of cores the manager works with.
    pub fn total_cores(&self) -> (r: u64)
        ensures
            r == self.total_cores_spec(),
    {
        self.total_cores
    }
}

impl Default for CoreBindingManager {
    fn default() -> (m: Self)
        ensures
            m.wf(),
            m.config_spec().is_four_core_layout(),
            m.total_cores_spec() == DEFAULT_CORE_COUNT,
            !m.is_initialized(),
    {
        Self::new()
    }
}

} // verus!
