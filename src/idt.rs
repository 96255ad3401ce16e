//! The interrupt descriptor table: 256 gate entries that the CPU reads on an
//! interrupt. Entries that were never installed stay not present.

use vstd::prelude::*;
use vstd::arithmetic::div_mod::{lemma_div_denominator, lemma_fundamental_div_mod};

verus! {

/// Number of entries in the table.
pub const IDT_ENTRIES: usize = 256;

/// Code-segment selector of the kernel's code segment.
pub const KERNEL_CODE_SELECTOR: u16 = 0x8;

/// Gate attributes: present, privilege level 0, interrupt gate.
pub const INTERRUPT_GATE_OPTIONS: u16 = 0x8E00;

/// One gate of the table, in the CPU's field order.
#[derive(Clone, Copy, Debug)]
pub struct IdtEntry {
    pointer_low: u16,
    gdt_selector: u16,
    options: u16,
    pointer_middle: u16,
    pointer_high: u32,
    reserved: u32,
}

impl IdtEntry {
    /// The handler address the entry points at.
    pub closed spec fn spec_handler_address(self) -> int {
        self.pointer_low + 65536 * self.pointer_middle + 4294967296 * self.pointer_high
    }

    /// The entry's code-segment selector.
    pub closed spec fn spec_selector(self) -> u16 {
        self.gdt_selector
    }

    /// The entry's attribute word.
    pub closed spec fn spec_options(self) -> u16 {
        self.options
    }

    /// The entry's reserved word.
    pub closed spec fn spec_reserved(self) -> u32 {
        self.reserved
    }

    /// The CPU may dispatch through this entry: the present bit is set.
    pub open spec fn is_present(self) -> bool {
        self.spec_options() >= 0x8000
    }

    /// The entry is an all-zero, not-present gate.
    pub open spec fn is_empty(self) -> bool {
        &&& self.spec_handler_address() == 0
        &&& self.spec_selector() == 0
        &&& self.spec_options() == 0
        &&& self.spec_reserved() == 0
    }

    /// The entry is a present kernel interrupt gate that points at `addr`.
    pub open spec fn is_gate_to(self, addr: u64) -> bool {
        &&& self.spec_handler_address() == addr
        &&& self.spec_selector() == KERNEL_CODE_SELECTOR
        &&& self.spec_options() == INTERRUPT_GATE_OPTIONS
    }

    /// An empty, not-present entry.
    pub fn new() -> (r: Self)
        ensures
            r.is_empty(),
            !r.is_present(),
    {
        IdtEntry {
            pointer_low: 0,
            gdt_selector: 0,
            options: 0,
            pointer_middle: 0,
            pointer_high: 0,
            reserved: 0,
        }
    }

    /// Points the entry at `handler_addr` as a present kernel interrupt gate.
    pub fn set_handler(&mut self, handler_addr: u64) -> (r: &mut Self)
        ensures
            r.is_gate_to(handler_addr),
            r.is_present(),
            r.spec_reserved() == old(self).spec_reserved(),
            *final(self) == *final(r),
    {
        let low = handler_addr % 65536;
        let middle = (handler_addr / 65536) % 65536;
        let high = handler_addr / 4294967296;
        proof {
            let a = handler_addr as int;
            lemma_fundamental_div_mod(a, 65536);
            lemma_fundamental_div_mod(a / 65536, 65536);
            lemma_div_denominator(a, 65536, 65536);
            assert(a == low + 65536 * middle + 4294967296 * high) by (nonlinear_arith)
                requires
                    a == 65536 * (a / 65536) + low,
                    a / 65536 == 65536 * ((a / 65536) / 65536) + middle,
                    (a / 65536) / 65536 == high,
            ;
        }
        self.pointer_low = low as u16;
        self.pointer_middle = middle as u16;
        self.pointer_high = high as u32;
        self.gdt_selector = KERNEL_CODE_SELECTOR;
        self.options = INTERRUPT_GATE_OPTIONS;
        self
    }

    /// The handler address the entry points at.
    pub fn handler_address(&self) -> (r: u64)
        ensures
            r == self.spec_handler_address(),
    {
        self.pointer_low as u64 + (self.pointer_middle as u64) * 65536 + (self.pointer_high as u64)
            * 4294967296
    }

    /// The entry's code-segment selector.
    pub fn selector(&self) -> (r: u16)
        ensures
            r == self.spec_selector(),
    {
        self.gdt_selector
    }

    /// The entry's attribute word.
    pub fn options(&self) -> (r: u16)
        ensures
            r == self.spec_options(),
    {
        self.options
    }
}

/// The table of 256 entries.
pub struct InterruptDescriptorTable {
    entries: [IdtEntry; 256],
}

impl View for InterruptDescriptorTable {
    type V = Seq<IdtEntry>;

    closed spec fn view(&self) -> Seq<IdtEntry> {
        self.entries@
    }
}

impl InterruptDescriptorTable {
    /// Every table has exactly 256 entries.
    pub proof fn lemma_size(&self)
        ensures
            self@.len() == IDT_ENTRIES,
    {
    }

    /// A table of 256 empty, not-present entries.
    pub fn new() -> (r: Self)
        ensures
            r@.len() == IDT_ENTRIES,
            forall|i: int| 0 <= i < IDT_ENTRIES ==> (#[trigger] r@[i]).is_empty(),
    {
        InterruptDescriptorTable { entries: [IdtEntry::new(); 256] }
    }

    /// The entry for `vector`.
    pub fn entry(&self, vector: usize) -> (r: IdtEntry)
        requires
            vector < IDT_ENTRIES,
        ensures
            self@.len() == IDT_ENTRIES,
            r == self@[vector as int],
    {
        self.entries[vector]
    }

    /// Installs a present kernel interrupt gate to `handler_addr` at
    /// `vector`; every other entry is left as it was.
    pub fn install(&mut self, vector: usize, handler_addr: u64)
        requires
            vector < IDT_ENTRIES,
        ensures
            final(self)@.len() == old(self)@.len(),
            final(self)@ == old(self)@.update(vector as int, final(self)@[vector as int]),
            final(self)@[vector as int].is_gate_to(handler_addr),
            final(self)@[vector as int].spec_reserved() == old(self)@[vector as int].spec_reserved(),
    {
        let mut e = self.entries[vector];
        e.set_handler(handler_addr);
        self.entries[vector] = e;
    }
}

} // verus!
