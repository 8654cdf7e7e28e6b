use crabboy::gba::rtc::{Rtc, CYCLES_PER_SECOND, EPOCH_2000};

/// Drive the pins the way the game's `siirtc` library does.
struct Driver<'a>(&'a mut Rtc);

impl Driver<'_> {
    fn select(&mut self) {
        self.0.write_pins(0b001); // SCK high, CS low
        self.0.write_pins(0b101); // CS high
    }
    fn deselect(&mut self) {
        self.0.write_pins(0b001);
    }
    fn write_command(&mut self, cmd: u8) {
        for i in (0..8).rev() {
            let sio = ((cmd >> i) & 1) << 1;
            self.0.write_pins(0b100 | sio);
            self.0.write_pins(0b101 | sio);
        }
    }
    fn write_data(&mut self, value: u8) {
        for i in 0..8 {
            let sio = ((value >> i) & 1) << 1;
            self.0.write_pins(0b100 | sio);
            self.0.write_pins(0b101 | sio);
        }
    }
    fn read_data(&mut self) -> u8 {
        let mut v = 0u8;
        for i in 0..8 {
            self.0.write_pins(0b100);
            self.0.write_pins(0b101);
            v |= (self.0.sio_out() as u8) << i;
        }
        v
    }
    fn read(&mut self, cmd: u8, n: usize) -> Vec<u8> {
        self.select();
        self.write_command(cmd);
        let v = (0..n).map(|_| self.read_data()).collect();
        self.deselect();
        v
    }
    fn write(&mut self, cmd: u8, data: &[u8]) {
        self.select();
        self.write_command(cmd);
        for &b in data {
            self.write_data(b);
        }
        self.deselect();
    }
}

#[test]
fn status_read_reports_24_hour_mode_and_no_power_failure() {
    let mut rtc = Rtc::new();
    let mut d = Driver(&mut rtc);
    assert_eq!(d.read(0x63, 1), vec![0x40]);
}

#[test]
fn date_time_reads_back_in_bcd_and_advances_with_cycles() {
    let mut rtc = Rtc::new();
    rtc.set_unix_time(1_136_239_445); // 2006-01-02 22:04:05 UTC, a Monday
    rtc.advance(CYCLES_PER_SECOND * 2 + 5);
    let mut d = Driver(&mut rtc);
    assert_eq!(d.read(0x65, 7), vec![0x06, 0x01, 0x02, 1, 0x22, 0x04, 0x07]);
    assert_eq!(d.read(0x67, 3), vec![0x22, 0x04, 0x07]);
}

#[test]
fn time_and_date_writes_set_the_clock() {
    let mut rtc = Rtc::new();
    let mut d = Driver(&mut rtc);
    d.write(0x64, &[0x24, 0x02, 0x29, 4, 0x23, 0x59, 0x58]); // 2024-02-29 23:59:58
    assert_eq!(rtc.unix_time(), 1_709_251_198);
    rtc.advance(CYCLES_PER_SECOND * 3);
    let mut d = Driver(&mut rtc);
    assert_eq!(d.read(0x65, 7), vec![0x24, 0x03, 0x01, 5, 0x00, 0x00, 0x01]);
    d.write(0x66, &[0x12, 0x30, 0x00]);
    assert_eq!(d.read(0x67, 3), vec![0x12, 0x30, 0x00]);
}

#[test]
fn reset_command_returns_to_the_epoch() {
    let mut rtc = Rtc::new();
    rtc.set_unix_time(1_700_000_000);
    let mut d = Driver(&mut rtc);
    d.write(0x60, &[]);
    assert_eq!(rtc.unix_time(), EPOCH_2000);
    let mut d = Driver(&mut rtc);
    assert_eq!(d.read(0x65, 7), vec![0x00, 0x01, 0x01, 6, 0x00, 0x00, 0x00]);
}

#[test]
fn invalid_command_and_cs_drop_are_ignored() {
    let mut rtc = Rtc::new();
    let mut d = Driver(&mut rtc);
    d.select();
    d.write_command(0x12);
    assert_eq!(d.read_data(), 0);
    d.deselect();
    // A transfer aborted by CS starts over cleanly.
    d.select();
    d.write_command(0x63);
    d.deselect();
    assert_eq!(d.read(0x63, 1), vec![0x40]);
}

#[test]
fn state_round_trip_keeps_the_clock_and_transfer() {
    let mut rtc = Rtc::new();
    rtc.set_unix_time(1_234_567_890);
    let mut d = Driver(&mut rtc);
    d.select();
    d.write_command(0x65);
    let first = d.read_data();
    let saved = rtc.save_state();
    let mut other = Rtc::new();
    other.load_state(&saved);
    let mut d1 = Driver(&mut rtc);
    let mut d2 = Driver(&mut other);
    assert_eq!(d1.read_data(), d2.read_data());
    assert_eq!(first, 0x09);
}
