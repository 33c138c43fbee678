use lazuli::mmio::{AramDmaControl, AramDmaDirection, Control, DspDmaControl, DspDmaDirection, DspDmaTarget, Mailbox, Mmio};

#[test]
fn control_after_reset() {
    let c = Control::new();
    assert!(c.reset_high());
    assert!(!c.any_interrupt());
    assert_eq!(Mmio::new().control.0, 0x0800);
}

#[test]
fn control_interrupts_need_masks() {
    let mut c = Control(0);
    c.set_bit(7, true);
    assert!(c.dsp_interrupt());
    assert!(!c.any_interrupt());
    c.set_bit(8, true);
    assert!(c.any_interrupt());
    c.set_bit(7, false);
    assert!(!c.any_interrupt());
    assert!(Control((1 << 3) | (1 << 4)).any_interrupt());
    assert!(Control((1 << 5) | (1 << 6)).any_interrupt());
}

#[test]
fn mailbox_halves() {
    let mut m = Mailbox(0);
    m.set_high_and_status(0x8123);
    m.set_low(0x4567);
    assert_eq!(m.0, 0x8123_4567);
    assert!(m.status());
    assert_eq!(m.high(), 0x0123);
    assert_eq!(m.data(), 0x0123_4567);
    m.set_status(false);
    assert_eq!(m.high_and_status(), 0x0123);
    assert_eq!(m.low(), 0x4567);
}

#[test]
fn dma_controls() {
    let c = AramDmaControl(0x8000_0020);
    assert_eq!(c.length(), 0x20);
    assert_eq!(c.direction(), AramDmaDirection::FromAramToRam);
    let mut d = DspDmaControl(0b011);
    assert_eq!(d.direction(), DspDmaDirection::FromDspToRam);
    assert_eq!(d.dsp_target(), DspDmaTarget::Imem);
    assert!(!d.transfer_ongoing());
    d.set_transfer_ongoing(true);
    assert_eq!(d.0, 0b111);
}
