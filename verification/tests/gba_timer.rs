use crabboy::gba::timer::{Timers, IRQ};

#[test]
fn timer_counts_and_overflows() {
    let mut tm = Timers::new();
    tm.write_cnt_l(0, 0xFFFE);
    // Prescaler 0 = /1, IRQ on, start.
    tm.write_cnt_h(0, 0x40 | 0x80);
    tm.step(1);
    assert_eq!(tm.read_cnt_l(0), 0xFFFF);
    tm.step(1);
    // Overflow: reload to 0xFFFE, raise IRQ.
    assert_eq!(tm.read_cnt_l(0), 0xFFFE);
    assert_eq!(tm.irq_flags() & IRQ[0], IRQ[0]);
}

#[test]
fn timer_prescaler_divides() {
    let mut tm = Timers::new();
    tm.write_cnt_l(1, 0);
    tm.write_cnt_h(1, 0x01 | 0x80); // /64
    tm.step(64);
    assert_eq!(tm.read_cnt_l(1), 1);
    tm.step(63);
    assert_eq!(tm.read_cnt_l(1), 1);
    tm.step(1);
    assert_eq!(tm.read_cnt_l(1), 2);
}
