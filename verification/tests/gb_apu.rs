use crabboy::gb::apu::{Apu, FULL_SCALE};

/// The pending samples as fractions of full scale.
fn amplitudes(apu: &Apu) -> Vec<f32> {
    let scale = FULL_SCALE as f32;
    apu.buffer.samples.iter().map(|&s| s as f32 / scale).collect()
}

fn regs() -> ([u8; 0x80], [u8; 16]) {
    let io = [0u8; 0x80];
    let wave_ram = [0u8; 16];
    (io, wave_ram)
}

#[test]
fn ch2_square_produces_samples() {
    let (mut io, wave_ram) = regs();
    let mut apu = Apu::new();
    io[0x26] = 0x80;
    apu.write(0xFF26, 0x80, &mut io); // power on
    apu.write(0xFF16, 0x80, &mut io); // duty 50%, length load
    apu.write(0xFF17, 0xF0, &mut io); // volume 15, no envelope
    apu.write(0xFF18, 0x00, &mut io); // freq low
    apu.write(0xFF24, 0x77, &mut io); // max left/right master volume
    apu.write(0xFF25, 0xFF, &mut io); // all channels -> both sides
    apu.write(0xFF19, 0x80, &mut io); // trigger + freq high
    assert!(apu.ch2.on, "CH2 enabled after trigger");

    apu.step(8192, &mut io, &wave_ram);
    assert!(
        apu.produced >= 8,
        "samples produced at 8192 Hz: {}",
        apu.produced
    );

    // Non-silent: CH2 is a 50% square at max volume, panned to both sides.
    let has_audio = amplitudes(&apu).iter().any(|&s| s.abs() > 0.1);
    assert!(has_audio, "mixed output is non-silent");
}

#[test]
fn power_off_silences_and_clears() {
    let (mut io, wave_ram) = regs();
    let mut apu = Apu::new();
    io[0x26] = 0x80;
    apu.write(0xFF26, 0x80, &mut io);
    apu.write(0xFF26, 0x00, &mut io); // power off
    assert!(!apu.power);
    apu.step(2048, &mut io, &wave_ram);
    assert_eq!(apu.buffer.samples.len(), 0, "no samples while powered off");
    assert_eq!(io[0x24], 0, "NR50 cleared on power-off");
}

#[test]
fn retrigger_keeps_length_counter() {
    let (mut io, _wave_ram) = regs();
    let mut apu = Apu::new();
    io[0x26] = 0x80;
    apu.write(0xFF26, 0x80, &mut io);
    apu.write(0xFF16, 0x80, &mut io); // NR21: duty 2, length load
    apu.write(0xFF17, 0xF0, &mut io);
    apu.write(0xFF18, 0x00, &mut io);
    apu.write(0xFF24, 0x77, &mut io);
    apu.write(0xFF25, 0xFF, &mut io);
    apu.write(0xFF19, 0x80, &mut io); // trigger CH2 (length 0 -> 64)
    assert_eq!(
        apu.ch2.length, 64,
        "length loaded to max on trigger-from-zero"
    );

    // Length counted down; retriggering must NOT reload the counter.
    apu.ch2.length = 32;
    apu.write(0xFF19, 0x80, &mut io); // retrigger
    assert_eq!(
        apu.ch2.length, 32,
        "retrigger must not reload length counter"
    );
}

#[test]
fn simultaneous_loud_channels_do_not_saturate_to_dc() {
    let (mut io, wave_ram) = regs();
    let mut apu = Apu::new();
    io[0x26] = 0x80;
    apu.write(0xFF26, 0x80, &mut io);
    // CH1: 50% duty, volume 15, high frequency (short freq timer).
    apu.write(0xFF10, 0x00, &mut io);
    apu.write(0xFF11, 0x80, &mut io);
    apu.write(0xFF12, 0xF0, &mut io);
    apu.write(0xFF13, 0xFD, &mut io); // freq 0x7FD -> timer 12
    apu.write(0xFF14, 0x87, &mut io); // trigger
                                      // CH2: 50% duty, volume 15, different frequency.
    apu.write(0xFF16, 0x80, &mut io);
    apu.write(0xFF17, 0xF0, &mut io);
    apu.write(0xFF18, 0xFB, &mut io); // freq 0x7FB -> timer 20
    apu.write(0xFF19, 0x87, &mut io); // trigger
    apu.write(0xFF24, 0x77, &mut io);
    apu.write(0xFF25, 0xFF, &mut io); // all channels -> both sides
    apu.step(65536, &mut io, &wave_ram);

    let samples = amplitudes(&apu);
    assert!(!samples.is_empty());
    let min = samples.iter().cloned().fold(f32::INFINITY, f32::min);
    let max = samples.iter().cloned().fold(f32::NEG_INFINITY, f32::max);
    assert!(
        max - min > 0.1,
        "mix must vary (AC), got min {min} max {max}"
    );
    assert!(max > 0.0, "mix should be audible, max {max}");
    assert!(min < 0.0, "mix should swing negative too, min {min}");
    // Two loud channels clip at the amp, so the output pins to +-1.0; that
    // is authentic hard saturation, NOT a constant-DC silence. The signal
    // still alternates (min < 0 < max), so it stays audible.
    assert!(
        min != max,
        "clipped mix must still alternate, got min {min} max {max}"
    );
}

#[test]
fn envelope_write_does_not_reload_timer() {
    let (mut io, _wave_ram) = regs();
    let mut apu = Apu::new();
    io[0x26] = 0x80;
    apu.write(0xFF26, 0x80, &mut io);
    apu.write(0xFF16, 0x80, &mut io);
    apu.write(0xFF17, 0xF2, &mut io); // volume 15, period 2
    apu.write(0xFF18, 0x00, &mut io);
    apu.write(0xFF24, 0x77, &mut io);
    apu.write(0xFF25, 0xFF, &mut io);
    apu.write(0xFF19, 0x80, &mut io); // trigger: reload timer to 2
    assert_eq!(apu.ch2.env.timer, 2, "timer loaded on trigger");

    // Rewriting NRx2 must update parameters but NOT reset the timer.
    apu.ch2.env.timer = 1;
    apu.write(0xFF17, 0xE2, &mut io);
    assert_eq!(
        apu.ch2.env.timer, 1,
        "NRx2 write must not reload envelope timer"
    );
    assert_eq!(
        apu.ch2.env.volume, 14,
        "NRx2 write updates volume immediately"
    );
}
