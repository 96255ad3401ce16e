//! Hardware interrupt vectors: where the two cascaded controllers deliver,
//! which vectors this kernel handles, and the table that routes them.

use vstd::prelude::*;
use crate::idt::{IDT_ENTRIES, InterruptDescriptorTable};

verus! {

/// First vector of the primary controller; below it lie the CPU exceptions.
pub const PIC_1_OFFSET: u8 = 32;

/// First vector of the secondary controller.
pub const PIC_2_OFFSET: u8 = PIC_1_OFFSET + 8;

/// The base vectors of the two cascaded controllers.
#[derive(Clone, Copy, Debug, PartialEq, Eq)]
pub struct ControllerOffsets {
    primary: u8,
    secondary: u8,
}

impl ControllerOffsets {
    /// Hardware vectors never alias CPU exceptions, and the secondary
    /// controller's base sits eight vectors above the primary's.
    pub closed spec fn wf(self) -> bool {
        &&& self.primary >= 32
        &&& self.secondary == self.primary + 8
    }

    /// The primary controller's base vector.
    pub closed spec fn spec_primary(self) -> u8 {
        self.primary
    }

    /// The secondary controller's base vector.
    pub closed spec fn spec_secondary(self) -> u8 {
        self.secondary
    }

    /// Offsets with the primary controller at `primary` and the secondary
    /// eight vectors above it. A base below 32 is a configuration error.
    pub fn new(primary: u8) -> (r: Self)
        requires
            32 <= primary,
            primary + 8 <= u8::MAX,
        ensures
            r.wf(),
            r.spec_primary() == primary,
            r.spec_secondary() == primary + 8,
    {
        ControllerOffsets { primary, secondary: primary + 8 }
    }

    /// The primary controller's base vector.
    pub fn primary(&self) -> (r: u8)
        ensures
            r == self.spec_primary(),
    {
        self.primary
    }

    /// The secondary controller's base vector.
    pub fn secondary(&self) -> (r: u8)
        ensures
            r == self.spec_secondary(),
    {
        self.secondary
    }
}

/// The hardware interrupts this kernel handles.
#[derive(Clone, Copy, Debug, PartialEq, Eq)]
pub enum InterruptIndex {
    /// The timer, on the primary controller's first line.
    Timer,
    /// The keyboard, on the next line.
    Keyboard,
}

impl InterruptIndex {
    /// The vector of the interrupt.
    pub open spec fn vector(self) -> int {
        match self {
            InterruptIndex::Timer => PIC_1_OFFSET as int,
            InterruptIndex::Keyboard => PIC_1_OFFSET + 1,
        }
    }

    /// The vector of the interrupt, as a byte.
    pub fn as_u8(self) -> (r: u8)
        ensures
            r == self.vector(),
    {
        match self {
            InterruptIndex::Timer => PIC_1_OFFSET,
            InterruptIndex::Keyboard => PIC_1_OFFSET + 1,
        }
    }

    /// The vector of the interrupt, as a table index.
    pub fn as_usize(self) -> (r: usize)
        ensures
            r == self.vector(),
    {
        self.as_u8() as usize
    }
}

/// The kernel's table: a present gate to `timer_handler` at the timer vector,
/// one to `keyboard_handler` at the keyboard vector, and every other entry
/// empty and not present.
pub fn build_idt(timer_handler: u64, keyboard_handler: u64) -> (r: InterruptDescriptorTable)
    ensures
        r@.len() == IDT_ENTRIES,
        r@[InterruptIndex::Timer.vector()].is_gate_to(timer_handler),
        r@[InterruptIndex::Keyboard.vector()].is_gate_to(keyboard_handler),
        r@[InterruptIndex::Timer.vector()].spec_reserved() == 0,
        r@[InterruptIndex::Keyboard.vector()].spec_reserved() == 0,
        forall|i: int|
            0 <= i < IDT_ENTRIES && i != InterruptIndex::Timer.vector() && i
                != InterruptIndex::Keyboard.vector() ==> (#[trigger] r@[i]).is_empty(),
{
    let mut idt = InterruptDescriptorTable::new();
    idt.install(InterruptIndex::Timer.as_usize(), timer_handler);
    idt.install(InterruptIndex::Keyboard.as_usize(), keyboard_handler);
    idt
}

} // verus!
