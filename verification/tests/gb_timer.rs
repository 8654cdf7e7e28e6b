use crabboy::gb::timer::Timer;

#[test]
fn tima_overflow_reloads_from_tma_after_delay() {
    let mut timer = Timer::new();
    let mut io = [0u8; 0x80];
    io[0x07] = 0x04; // timer enabled, 4096 Hz (bit 9)
    io[0x06] = 0x42; // TMA
    io[0x05] = 0xFF; // TIMA about to overflow
    timer.div_counter = 1023; // bit 9 set; the next tick makes it fall
    io[0x0F] = 0;

    timer.step(1, &mut io); // counter -> 1024, bit 9 falls, TIMA overflows
    assert_eq!(io[0x05], 0x00, "TIMA reads 0 during the reload delay");
    assert_eq!(io[0x0F] & 0x04, 0, "the interrupt comes with the reload");

    timer.step(4, &mut io); // reload delay elapses
    assert_eq!(io[0x05], 0x42, "TIMA reloaded from TMA");
    assert_ne!(io[0x0F] & 0x04, 0, "timer interrupt requested on reload");
}

#[test]
fn div_register_is_upper_byte_of_per_cycle_counter() {
    let mut timer = Timer::new();
    let mut io = [0u8; 0x80];
    timer.step(255, &mut io);
    assert_eq!(io[0x04], 0, "DIV unchanged before counter crosses 256");
    timer.step(1, &mut io);
    assert_eq!(io[0x04], 1, "DIV is the upper byte of the 16-bit counter");
}

#[test]
fn div_write_resets_counter() {
    let mut timer = Timer::new();
    let mut io = [0u8; 0x80];
    timer.step(600, &mut io); // DIV = 2
    assert_eq!(io[0x04], 2);
    timer.on_div_write(&mut io);
    timer.step(1, &mut io);
    assert_eq!(io[0x04], 0, "counter reset by DIV write");
    assert_eq!(timer.div_counter, 1);
}

#[test]
fn tma_write_during_reload_window_is_loaded() {
    let mut timer = Timer::new();
    let mut io = [0u8; 0x80];
    io[0x07] = 0x04;
    io[0x05] = 0xFF;
    io[0x06] = 0x42;
    timer.div_counter = 1023;
    timer.step(1, &mut io); // overflow, reload 0x42 pending
    assert_eq!(io[0x05], 0x00);
    // Write TMA within the 4-cycle window: the new value should be loaded.
    timer.write_tma(&mut io, 0x77);
    timer.step(4, &mut io);
    assert_eq!(io[0x05], 0x77, "TMA written during reload is loaded");
}

#[test]
fn tima_write_in_the_pending_cycle_cancels_and_in_the_reload_cycle_loses() {
    let mut timer = Timer::new();
    let mut io = [0u8; 0x80];
    io[0x07] = 0x04;
    io[0x06] = 0x42;
    io[0x05] = 0xFF;
    timer.div_counter = 1020;
    timer.step(4, &mut io); // overflow at the end of this cycle; reload pending
    timer.write_tima(&mut io, 0x7F);
    timer.step(4, &mut io);
    assert_eq!(io[0x05], 0x7F, "the write cancelled the reload");
    assert_eq!(io[0x0F] & 0x04, 0, "no interrupt when cancelled");

    let mut timer = Timer::new();
    io = [0u8; 0x80];
    io[0x07] = 0x04;
    io[0x06] = 0x42;
    io[0x05] = 0xFF;
    timer.div_counter = 1020;
    timer.step(4, &mut io); // overflow
    timer.step(4, &mut io); // reload applied during this cycle
    timer.write_tima(&mut io, 0x7F); // same cycle: ignored
    assert_eq!(io[0x05], 0x42);
    timer.step(4, &mut io);
    timer.write_tima(&mut io, 0x7F);
    assert_eq!(io[0x05], 0x7F, "a later write is normal");
}

#[test]
fn disabling_the_timer_while_the_selected_bit_is_set_increments_tima() {
    let mut timer = Timer::new();
    let mut io = [0u8; 0x80];
    io[0x07] = 0x04; // enabled, bit 9
    io[0x05] = 0x10;
    timer.div_counter = 1 << 9;
    timer.write_tac(&mut io, 0x00);
    assert_eq!(io[0x05], 0x11, "falling edge from the enable bit");
    timer.write_tac(&mut io, 0x04);
    assert_eq!(io[0x05], 0x11, "enabling is a rising edge");
    timer.write_tac(&mut io, 0x05); // switch to bit 3 (clear): falls again
    assert_eq!(io[0x05], 0x12);
}
