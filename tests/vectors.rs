use vesper_core::idt::{IdtEntry, InterruptDescriptorTable, IDT_ENTRIES};
use vesper_core::interrupts::{build_idt, ControllerOffsets, InterruptIndex, PIC_1_OFFSET, PIC_2_OFFSET};

#[test]
fn new_entry_is_not_present() {
    let e = IdtEntry::new();
    assert_eq!(e.handler_address(), 0);
    assert_eq!(e.selector(), 0);
    assert_eq!(e.options(), 0);
}

#[test]
fn set_handler_splits_the_address() {
    let mut e = IdtEntry::new();
    let addr = 0xFFFF_8000_1234_5678u64;
    let r = e.set_handler(addr);
    assert_eq!(r.handler_address(), addr);
    assert_eq!(e.handler_address(), addr);
    assert_eq!(e.selector(), 0x8);
    assert_eq!(e.options(), 0x8E00);
}

#[test]
fn set_handler_can_be_chained() {
    let mut e = IdtEntry::new();
    e.set_handler(1).set_handler(0x1_0000_0001);
    assert_eq!(e.handler_address(), 0x1_0000_0001);
}

#[test]
fn new_table_is_all_empty() {
    let t = InterruptDescriptorTable::new();
    for v in 0..IDT_ENTRIES {
        assert_eq!(t.entry(v).options(), 0);
        assert_eq!(t.entry(v).handler_address(), 0);
    }
}

#[test]
fn install_touches_one_entry() {
    let mut t = InterruptDescriptorTable::new();
    t.install(255, 0xABCD);
    assert_eq!(t.entry(255).handler_address(), 0xABCD);
    assert_eq!(t.entry(255).options(), 0x8E00);
    assert_eq!(t.entry(254).options(), 0);
}

#[test]
fn kernel_table_has_timer_and_keyboard_only() {
    let t = build_idt(0x1000, 0x2000);
    for v in 0..IDT_ENTRIES {
        let e = t.entry(v);
        match v {
            32 => assert_eq!((e.handler_address(), e.options(), e.selector()), (0x1000, 0x8E00, 8)),
            33 => assert_eq!((e.handler_address(), e.options(), e.selector()), (0x2000, 0x8E00, 8)),
            _ => assert_eq!(e.options(), 0),
        }
    }
}

#[test]
fn interrupt_vectors() {
    assert_eq!(InterruptIndex::Timer.as_u8(), 32);
    assert_eq!(InterruptIndex::Keyboard.as_u8(), 33);
    assert_eq!(InterruptIndex::Keyboard.as_usize(), 33);
}

#[test]
fn controller_offsets() {
    let o = ControllerOffsets::new(PIC_1_OFFSET);
    assert_eq!(o.primary(), 32);
    assert_eq!(o.secondary(), 40);
    assert_eq!(PIC_2_OFFSET, 40);
    let p = ControllerOffsets::new(0x70);
    assert_eq!(p.secondary(), 0x78);
}
