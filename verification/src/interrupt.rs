//! Interrupt descriptors, the handler table, and the timer tick.
use vstd::prelude::*;

verus! {

/// Entries of the interrupt descriptor table.
pub const IDT_ENTRIES: usize = 256;
/// Bytes of one entry.
pub const IDT_ENTRY_SIZE: usize = 16;
/// Code segment selector of the kernel.
pub const KERNEL_CODE_SELECTOR: u16 = 0x08;
/// Attributes of a present ring-0 interrupt gate.
pub const INTERRUPT_GATE: u8 = 0x8E;
/// Vector of the timer interrupt.
pub const TIMER_VECTOR: u8 = 32;
/// Vector of the keyboard interrupt.
pub const KEYBOARD_VECTOR: u8 = 33;
/// Ticks between two reports of the tick count.
pub const TICKS_PER_REPORT: u32 = 100;
/// Ticks between two scheduling rounds.
pub const TICKS_PER_SCHEDULE: u32 = 10;

/// One gate of the descriptor table.
#[derive(Debug, Clone, Copy, PartialEq, Eq, Structural)]
pub struct IdtEntry {
    pub offset_low: u16,
    pub selector: u16,
    pub ist: u8,
    pub attributes: u8,
    pub offset_middle: u16,
    pub offset_high: u32,
    pub zero: u32,
}

/// What the processor loads to find the table.
#[derive(Debug, Clone, Copy, PartialEq, Eq, Structural)]
pub struct IdtDescriptor {
    pub limit: u16,
    pub base: u64,
}

/// The address an entry sends the processor to.
pub open spec fn gate_target(e: IdtEntry) -> u64 {
    (e.offset_low as u64) | ((e.offset_middle as u64) << 16u64) | ((e.offset_high as u64) << 32u64)
}

/// The entry that sends the processor to `handler_address`: a present
/// ring-0 interrupt entry in the kernel code segment.
pub open spec fn gate_for(handler_address: u64) -> IdtEntry {
    IdtEntry {
        offset_low: (handler_address & 0xFFFF) as u16,
        selector: KERNEL_CODE_SELECTOR,
        ist: 0,
        attributes: INTERRUPT_GATE,
        offset_middle: ((handler_address >> 16u64) & 0xFFFF) as u16,
        offset_high: (handler_address >> 32u64) as u32,
        zero: 0,
    }
}

/// An empty gate.
pub open spec fn empty_gate() -> IdtEntry {
    IdtEntry { offset_low: 0, selector: 0, ist: 0, attributes: 0, offset_middle: 0, offset_high: 0, zero: 0 }
}

impl IdtEntry {
    /// An empty gate.
    pub fn empty() -> (e: Self)
        ensures
            e == empty_gate(),
    {
        IdtEntry { offset_low: 0, selector: 0, ist: 0, attributes: 0, offset_middle: 0, offset_high: 0, zero: 0 }
    }

    /// The entry that sends the processor to `handler_address`.
    pub fn for_handler(handler_address: u64) -> (e: Self)
        ensures
            e == gate_for(handler_address),
    {
        IdtEntry {
            offset_low: (handler_address & 0xFFFF) as u16,
            selector: KERNEL_CODE_SELECTOR,
            ist: 0,
            attributes: INTERRUPT_GATE,
            offset_middle: ((handler_address >> 16u64) & 0xFFFF) as u16,
            offset_high: (handler_address >> 32u64) as u32,
            zero: 0,
        }
    }

    /// The address the entry sends the processor to.
    pub fn target(&self) -> (a: u64)
        ensures
            a == gate_target(*self),
    {
        (self.offset_low as u64) | ((self.offset_middle as u64) << 16u64) | ((self.offset_high as u64) << 32u64)
    }
}

/// A gate sends the processor to exactly the handler it was built for.
pub proof fn lemma_gate_round_trip(handler_address: u64)
    ensures
        gate_target(gate_for(handler_address)) == handler_address,
{
    let a = handler_address;
    assert(((a & 0xFFFF) as u16 as u64) | ((((a >> 16u64) & 0xFFFF) as u16 as u64) << 16u64)
        | (((a >> 32u64) as u32 as u64) << 32u64) == a) by (bit_vector);
}

/// The descriptor of a table at `base`: its size in bytes less one.
pub fn idt_descriptor(base: u64) -> (d: IdtDescriptor)
    ensures
        d == (IdtDescriptor { limit: (IDT_ENTRIES * IDT_ENTRY_SIZE - 1) as u16, base }),
{
    IdtDescriptor { limit: (IDT_ENTRIES * IDT_ENTRY_SIZE - 1) as u16, base }
}

/// The interrupt descriptor table.
pub struct Idt {
    entries: Vec<IdtEntry>,
}

/// The vectors `register_handlers` fills, in the order it fills them: the
/// processor exceptions 0 to 8 and 10 to 14, then the timer.
pub open spec fn handled_vectors() -> Seq<u8> {
    seq![0u8, 1, 2, 3, 4, 5, 6, 7, 8, 10, 11, 12, 13, 14, 32]
}

/// The number of handlers `register_handlers` installs.
pub const HANDLER_COUNT: usize = 15;

impl Idt {
    /// The gates, by vector.
    pub closed spec fn gates(&self) -> Seq<IdtEntry> {
        self.entries@
    }

    /// A table of empty gates.
    pub fn new() -> (t: Self)
        ensures
            t.gates() == Seq::new(IDT_ENTRIES as nat, |i: int| empty_gate()),
    {
        let mut entries: Vec<IdtEntry> = Vec::new();
        let mut i: usize = 0;
        while i < IDT_ENTRIES
            invariant
                i <= IDT_ENTRIES,
                entries@ == Seq::new(i as nat, |k: int| empty_gate()),
            decreases IDT_ENTRIES - i,
        {
            entries.push(IdtEntry::empty());
            i = i + 1;
        }
        Idt { entries }
    }

    /// The gates, by vector, as the table the processor loads.
    pub fn entries(&self) -> (e: &[IdtEntry])
        ensures
            e@ == self.gates(),
    {
        self.entries.as_slice()
    }

    /// Points vector `interrupt_number` at the handler at `handler_address`.
    pub fn register_interrupt_handler(&mut self, interrupt_number: u8, handler_address: u64)
        requires
            old(self).gates().len() == IDT_ENTRIES,
        ensures
            final(self).gates() == old(self).gates().update(interrupt_number as int, gate_for(handler_address)),
    {
        self.entries.set(interrupt_number as usize, IdtEntry::for_handler(handler_address));
    }

    /// Installs the exception handlers and the timer handler: `handlers[i]`
    /// serves vector `handled_vectors()[i]`.
    pub fn register_handlers(&mut self, handlers: &[u64])
        requires
            old(self).gates().len() == IDT_ENTRIES,
            handlers@.len() == HANDLER_COUNT,
        ensures
            final(self).gates().len() == IDT_ENTRIES,
            forall|i: int| 0 <= i < HANDLER_COUNT ==> #[trigger] final(self).gates()[handled_vectors()[i] as int] == gate_for(handlers@[i]),
            forall|v: int| 0 <= v < IDT_ENTRIES && !handled_vectors().contains(v as u8) ==> #[trigger] final(self).gates()[v] == old(self).gates()[v],
    {
        let vectors: [u8; 15] = [0, 1, 2, 3, 4, 5, 6, 7, 8, 10, 11, 12, 13, 14, 32];
        assert(vectors@ =~= handled_vectors());
        let mut i: usize = 0;
        while i < HANDLER_COUNT
            invariant
                i <= HANDLER_COUNT,
                vectors@ == handled_vectors(),
                handlers@.len() == HANDLER_COUNT,
                self.gates().len() == IDT_ENTRIES,
                forall|k: int| 0 <= k < i ==> #[trigger] self.gates()[handled_vectors()[k] as int] == gate_for(handlers@[k]),
                forall|v: int| 0 <= v < IDT_ENTRIES && !handled_vectors().take(i as int).contains(v as u8) ==> #[trigger] self.gates()[v] == old(self).gates()[v],
            decreases HANDLER_COUNT - i,
        {
            let ghost before = self.gates();
            self.register_interrupt_handler(vectors[i], handlers[i]);
            proof {
                assert(handled_vectors().take(i + 1) =~= handled_vectors().take(i as int).push(vectors[i as int]));
                assert forall|k: int| 0 <= k < i + 1 implies #[trigger] self.gates()[handled_vectors()[k] as int] == gate_for(handlers@[k]) by {
                    if k < i {
                        assert(handled_vectors()[k] != handled_vectors()[i as int]);
                    }
                }
                assert forall|v: int| 0 <= v < IDT_ENTRIES && !handled_vectors().take(i + 1).contains(v as u8)
                    implies #[trigger] self.gates()[v] == old(self).gates()[v] by {
                    assert(handled_vectors().take(i + 1)[i as int] == vectors[i as int]);
                    assert(v as u8 != vectors[i as int]);
                    assert(!handled_vectors().take(i as int).contains(v as u8)) by {
                        if handled_vectors().take(i as int).contains(v as u8) {
                            let w = choose|w: int| 0 <= w < i && handled_vectors().take(i as int)[w] == v as u8;
                            assert(handled_vectors().take(i + 1)[w] == v as u8);
                        }
                    }
                }
            }
            i = i + 1;
        }
        assert(handled_vectors().take(HANDLER_COUNT as int) =~= handled_vectors());
    }
}

/// What a timer tick asks for: the count to report, if any, and whether to schedule.
#[derive(Debug, Clone, Copy, PartialEq, Eq, Structural)]
pub struct TickAction {
    pub report: Option<u32>,
    pub schedule: bool,
}

/// The count of timer ticks.
pub struct TimerState {
    count: u32,
}

impl TimerState {
    /// The ticks counted.
    pub closed spec fn count_spec(&self) -> u32 {
        self.count
    }

    /// No tick counted.
    pub fn new() -> (t: Self)
        ensures
            t.count_spec() == 0,
    {
        TimerState { count: 0 }
    }

    /// The ticks counted.
    pub fn count(&self) -> (r: u32)
        ensures
            r == self.count_spec(),
    {
        self.count
    }

    /// Counts a tick; every hundredth is reported and every tenth schedules.
    pub fn tick(&mut self) -> (a: TickAction)
        requires
            old(self).count_spec() < u32::MAX,
        ensures
            final(self).count_spec() == old(self).count_spec() + 1,
            a.report == (if final(self).count_spec() % TICKS_PER_REPORT == 0 { Some(final(self).count_spec()) } else { None::<u32> }),
            a.schedule == (final(self).count_spec() % TICKS_PER_SCHEDULE == 0),
    {
        self.count = self.count + 1;
        let report = if self.count % TICKS_PER_REPORT == 0 { Some(self.count) } else { None };
        TickAction { report, schedule: self.count % TICKS_PER_SCHEDULE == 0 }
    }
}

/// The handlers serve the processor's exception vectors in order, then the
/// timer: after `register_handlers`, handler `i` serves vector `i` for the
/// first nine (divide error to double fault), vector `i + 1` for the next five
/// (invalid TSS to page fault, vector 9 being left out), and the last serves
/// the timer's vector 32; vector 9 and every vector from 15 on but 32 keep
/// their gates.
pub proof fn law_handlers_serve_exception_vectors(old: Idt, new: Idt, handlers: Seq<u64>)
    requires
        old.gates().len() == IDT_ENTRIES,
        handlers.len() == HANDLER_COUNT,
        new.gates().len() == IDT_ENTRIES,
        forall|i: int| 0 <= i < HANDLER_COUNT ==> #[trigger] new.gates()[handled_vectors()[i] as int] == gate_for(handlers[i]),
        forall|v: int| 0 <= v < IDT_ENTRIES && !handled_vectors().contains(v as u8) ==> #[trigger] new.gates()[v] == old.gates()[v],
    ensures
        forall|i: int| 0 <= i < 9 ==> #[trigger] new.gates()[i] == gate_for(handlers[i]),
        forall|i: int| 9 <= i < 14 ==> #[trigger] new.gates()[i + 1] == gate_for(handlers[i]),
        new.gates()[32] == gate_for(handlers[14]),
        new.gates()[9] == old.gates()[9],
        forall|v: int| 15 <= v < IDT_ENTRIES && v != 32 ==> #[trigger] new.gates()[v] == old.gates()[v],
{
    let hv = handled_vectors();
    assert forall|i: int| 0 <= i < 9 implies #[trigger] new.gates()[i] == gate_for(handlers[i]) by {
        assert(hv[i] as int == i);
    }
    assert forall|i: int| 9 <= i < 14 implies #[trigger] new.gates()[i + 1] == gate_for(handlers[i]) by {
        assert(hv[i] as int == i + 1);
    }
    assert(hv[14] == 32);
    assert forall|v: int| (15 <= v < IDT_ENTRIES && v != 32) || v == 9 implies #[trigger] new.gates()[v] == old.gates()[v] by {
        assert(!hv.contains(v as u8)) by {
            if hv.contains(v as u8) {
                let k = choose|k: int| 0 <= k < hv.len() && hv[k] == v as u8;
                assert(0 <= k < 15);
                assert(hv[k] == 0 || hv[k] == 1 || hv[k] == 2 || hv[k] == 3 || hv[k] == 4 || hv[k] == 5 || hv[k] == 6
                    || hv[k] == 7 || hv[k] == 8 || hv[k] == 10 || hv[k] == 11 || hv[k] == 12 || hv[k] == 13
                    || hv[k] == 14 || hv[k] == 32);
            }
        }
    }
}

/// Every installed gate is a present ring-0 interrupt gate (attributes 0x8E)
/// in the kernel code segment (selector 0x08), with no interrupt stack and
/// its reserved field zero, and it sends the processor to the handler's
/// address: the low 16 bits, the next 16 and the high 32 of the address go to
/// the three offset fields.
pub proof fn law_gate_fields(a: u64)
    ensures
        gate_for(a).selector == 0x08,
        gate_for(a).attributes == 0x8E,
        gate_for(a).ist == 0,
        gate_for(a).zero == 0,
        gate_for(a).offset_low as u64 == a % 0x1_0000,
        gate_for(a).offset_middle as u64 == (a / 0x1_0000) % 0x1_0000,
        gate_for(a).offset_high as u64 == a / 0x1_0000_0000,
        gate_target(gate_for(a)) == a,
{
    lemma_gate_round_trip(a);
    assert((a & 0xFFFF) as u16 as u64 == a % 0x1_0000) by (bit_vector);
    assert(((a >> 16u64) & 0xFFFF) as u16 as u64 == (a / 0x1_0000) % 0x1_0000) by (bit_vector);
    assert((a >> 32u64) as u32 as u64 == a / 0x1_0000_0000) by (bit_vector);
}

} // verus!
