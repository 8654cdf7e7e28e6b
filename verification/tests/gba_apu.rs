use crabboy::gba::apu::{run_timer, Apu, Noise, Wave, CYCLES_PER_SAMPLE, FULL_SCALE};

/// The pending samples as fractions of full scale.
fn amplitudes(apu: &mut Apu) -> Vec<f32> {
    let scale = FULL_SCALE as f32;
    apu.take_audio()
        .samples
        .iter()
        .map(|&s| s as f32 / scale)
        .collect()
}

/// Master enable on, every PSG channel to both sides at full volume.
fn enabled() -> Apu {
    let mut apu = Apu::new();
    apu.write16(0x84, 0x80);
    apu.write16(0x80, 0xFF77);
    apu.write16(0x82, 2);
    apu
}

fn left_samples(apu: &mut Apu) -> Vec<f32> {
    amplitudes(apu).iter().step_by(2).copied().collect()
}

#[test]
fn square_trigger_produces_audio() {
    let mut apu = enabled();
    apu.write16(0x62, 0xF080);
    apu.write16(0x64, 0x8000 | 1024);
    apu.step(CYCLES_PER_SAMPLE * 4);
    let audio = amplitudes(&mut apu);
    assert_eq!(audio.len(), 8);
    assert!(audio.iter().any(|&s| s != 0.0));
}

#[test]
fn square_channel_frequency_from_register() {
    let mut apu = enabled();
    // f = 1792: period (2048 - 1792) * 16 * 8 = 32768 cycles = 512 Hz,
    // i.e. 64 samples per period; a 50 % duty cycle flips twice.
    apu.write16(0x68, 0xF000 | (2 << 6));
    apu.write16(0x6C, 0x8000 | 1792);
    apu.step(32768);
    let left = left_samples(&mut apu);
    assert_eq!(left.len(), 64);
    let flips = left
        .windows(2)
        .filter(|w| (w[0] > 0.0) != (w[1] > 0.0))
        .count();
    assert_eq!(flips, 2, "{left:?}");
    // The second period repeats the first exactly.
    apu.step(32768);
    assert_eq!(left_samples(&mut apu), left);
}

#[test]
fn noise_period_uses_dividing_ratio_and_shift() {
    let mut n = Noise::new();
    n.set_ctrl(0x8000 | (3 << 4)); // r = 0, s = 3
    assert_eq!(n.period(), 32 << 3);
    n.set_ctrl(0x8000 | 7); // r = 7, s = 0
    assert_eq!(n.period(), 64 * 7);
    n.set_ctrl(0x8000 | 1 | (14 << 4));
    let before = n.lfsr;
    n.clock(1 << 20);
    assert_eq!(n.lfsr, before, "s = 14 never clocks");
}

#[test]
fn wave_length_and_volume_come_from_sound3cnt_h() {
    let mut w = Wave::new();
    w.set_ctrl_l(0x80);
    w.set_len_vol(0xFF | (2 << 13));
    assert_eq!(w.length, 1);
    assert_eq!(w.volume, 2);
    w.set_len_vol(0x8000);
    assert!(w.force75);
    assert_eq!(w.length, 256);
    w.set_freq_ctrl(0x8000 | 2047);
    assert_eq!(w.period(), 8);
    assert!(w.on);
}

#[test]
fn wave_ram_writes_land_in_the_bank_not_playing() {
    let mut apu = enabled();
    apu.write16(0x70, 0x80); // bank 0 plays, CPU sees bank 1
    apu.write16(0x90, 0x1234);
    apu.write16(0x9E, 0xABCD);
    assert_eq!(apu.read16(0x90), 0x1234);
    assert_eq!(apu.read16(0x9E), 0xABCD);
    assert_eq!(apu.wave.ram[16], 0x34);
    assert_eq!(apu.wave.ram[31], 0xAB);
    apu.write16(0x70, 0x80 | 0x40); // bank 1 plays, CPU sees bank 0
    assert_eq!(apu.read16(0x90), 0);
    apu.write16(0x90, 0x5678);
    assert_eq!(apu.wave.ram[0], 0x78);
    assert_eq!(apu.wave.ram[16], 0x34, "bank 1 untouched");
}

#[test]
fn frame_sequencer_runs_at_512_hz() {
    let mut apu = enabled();
    // Envelope: volume 15, decreasing, period 1 -> one step per envelope
    // clock, which is sequencer step 7 (after 7 x 32768 cycles) and then
    // every 262144 cycles.
    apu.write16(0x62, 0xF100);
    apu.write16(0x64, 0x8000);
    assert_eq!(apu.sq1.env.volume, 15);
    apu.step(7 * 32768 - 1);
    assert_eq!(apu.sq1.env.volume, 15);
    apu.step(1);
    assert_eq!(apu.sq1.env.volume, 14);
    apu.step(262144 * 2);
    assert_eq!(apu.sq1.env.volume, 12);
}

#[test]
fn run_timer_counts_expiries_in_bulk() {
    let mut t: u32 = 10;
    assert_eq!(run_timer(&mut t, 16, 4), 0);
    assert_eq!(t, 6);
    assert_eq!(run_timer(&mut t, 16, 6), 1);
    assert_eq!(t, 16);
    // Expiries at cycles 16 and 32 of the 40; 8 cycles remain of the next.
    assert_eq!(run_timer(&mut t, 16, 40), 2);
    assert_eq!(t, 8);
}

#[test]
fn directsound_mixes_into_selected_channels() {
    let mut apu = enabled();
    // A at 100 % to the left only, clocked by timer 0.
    apu.write16(0x82, (1 << 2) | (1 << 9));
    apu.write16(0xA0, 0x007F);
    apu.timer_overflow(0);
    apu.step(CYCLES_PER_SAMPLE);
    let s = amplitudes(&mut apu);
    assert!(s[0] > 0.9, "left {}", s[0]);
    assert_eq!(s[1], 0.0, "right is silent");
    // Now B at 50 % to the right, clocked by timer 1.
    apu.write16(0x82, (1 << 12) | (1 << 14));
    apu.write16(0xA4, 0x0040);
    apu.timer_overflow(1);
    apu.step(CYCLES_PER_SAMPLE);
    let s = amplitudes(&mut apu);
    assert_eq!(s[0], 0.0);
    assert_eq!(s[1], 0.25, "0x40 * 2 / 512");
}

#[test]
fn psg_volume_and_master_volume_scale_the_mix() {
    let mut apu = enabled();
    apu.write16(0x62, 0xF0C0); // volume 15, duty 3 (75 %: starts high)
    apu.write16(0x64, 0x8000);
    apu.step(CYCLES_PER_SAMPLE);
    // 15 * 7 = 105 above the bias; the default 9-bit resolution drops
    // the lowest bit of 617, giving 616 - 512 = 104.
    let full = amplitudes(&mut apu)[0];
    assert_eq!(full, 104.0 / 512.0);
    apu.write16(0x82, 1); // 50 %: 52 -> 564, even
    apu.step(CYCLES_PER_SAMPLE);
    assert_eq!(amplitudes(&mut apu)[0], 52.0 / 512.0);
    apu.write16(0x82, 2);
    apu.write16(0x80, 0xFF37); // left master 3 (45 -> 556), right 7
    apu.step(CYCLES_PER_SAMPLE);
    let s = amplitudes(&mut apu);
    assert_eq!(s[0], 44.0 / 512.0);
    assert_eq!(s[1], 104.0 / 512.0);
}

#[test]
fn soundbias_offsets_and_reduces_resolution() {
    let mut apu = enabled();
    apu.write16(0x88, 0x100);
    apu.step(CYCLES_PER_SAMPLE);
    assert_eq!(amplitudes(&mut apu)[0], -0.5);
    apu.write16(0x88, 0x200 | (3 << 14));
    apu.write16(0x62, 0xF0C0);
    apu.write16(0x64, 0x8000);
    apu.step(CYCLES_PER_SAMPLE);
    // 105 + 0x200 = 617 -> 6-bit resolution keeps 608.
    assert_eq!(amplitudes(&mut apu)[0], (608 - 512) as f32 / 512.0);
}

#[test]
fn master_disable_silences_output() {
    let mut apu = enabled();
    apu.write16(0x62, 0xF0C0);
    apu.write16(0x64, 0x8000);
    apu.step(CYCLES_PER_SAMPLE);
    assert!(amplitudes(&mut apu)[0] != 0.0);
    apu.write16(0x84, 0);
    assert_eq!(apu.read16(0x80), 0);
    assert_eq!(apu.read_soundcnt_x(), 0);
    apu.step(CYCLES_PER_SAMPLE * 4);
    assert!(amplitudes(&mut apu).iter().all(|&s| s == 0.0));
    // PSG registers are ignored while off; SOUNDCNT_H is not.
    apu.write16(0x62, 0xF0C0);
    assert_eq!(apu.sq1.env.initial, 0);
    apu.write16(0x82, 0x0F);
    assert_eq!(apu.read16(0x82), 0x0F);
}

#[test]
fn fifo_produces_output() {
    let mut apu = enabled();
    apu.write16(0x82, (1 << 2) | (1 << 8) | (1 << 9));
    apu.write16(0xA0, 0x80 | 0x20);
    // Nothing reaches the DAC until the selected timer (0) overflows.
    apu.step(CYCLES_PER_SAMPLE);
    assert_eq!(amplitudes(&mut apu), vec![0.0, 0.0]);
    apu.timer_overflow(0);
    apu.step(CYCLES_PER_SAMPLE);
    let audio = amplitudes(&mut apu);
    assert_eq!(audio.len(), 2);
    assert!(audio[0] != 0.0 || audio[1] != 0.0);
}

#[test]
fn fifo_halfword_writes_queue_both_bytes() {
    let mut apu = Apu::new();
    apu.write16(0xA0, 0x0201);
    apu.write16(0xA2, 0x0403);
    assert_eq!(apu.fifo_a_count(), 4);
    assert_eq!(apu.dsa.sample(), 1);
    assert_eq!(apu.dsa.sample(), 2);
    assert_eq!(apu.dsa.sample(), 3);
    assert_eq!(apu.dsa.sample(), 4);
}

#[test]
fn fifo_samples_are_signed() {
    let mut apu = enabled();
    apu.write16(0x82, (1 << 2) | (1 << 9));
    apu.write16(0xA0, 0x80);
    apu.timer_overflow(0);
    apu.step(CYCLES_PER_SAMPLE);
    let audio = amplitudes(&mut apu);
    assert_eq!(audio[0], -1.0);
}

#[test]
fn fifo_empty_is_silent() {
    let mut apu = enabled();
    apu.write16(0x82, (1 << 2) | (1 << 8) | (1 << 9));
    apu.step(CYCLES_PER_SAMPLE);
    let audio = amplitudes(&mut apu);
    assert_eq!(audio, vec![0.0, 0.0]);
}
