//! The sound part of a saved machine: the APU's channels and registers as
//! bytes.

use crate::emu::audio::AudioBuffer;
use crate::emu::state::{
    end_message, get_array, get_bool, get_u16, get_u32, get_u8, group_extends, group_round_trips,
    put_bool, put_raw, put_u16, put_u32, put_u8, Reader, Writer,
};
use crate::gba::apu::{
    signed8, to_signed8, Apu, ApuState, Clock, Control, Dacs, DirectSound, Envelope, Noise, Square,
    Wave,
};
use vstd::prelude::*;

verus! {

/// The byte of a signed sample.
pub open spec fn unsigned8(v: i8) -> u8 {
    (if v < 0 {
        v + 256
    } else {
        v as int
    }) as u8
}

fn to_unsigned8(v: i8) -> (r: u8)
    ensures
        r == unsigned8(v),
{
    if v < 0 {
        (v as i16 + 256) as u8
    } else {
        v as u8
    }
}

/// A timer never holds 0.
pub open spec fn at_least_one(v: u32) -> u32 {
    if v == 0 {
        1
    } else {
        v
    }
}

fn positive(v: u32) -> (r: u32)
    ensures
        r == at_least_one(v),
{
    if v == 0 {
        1
    } else {
        v
    }
}

/// An envelope: 5 bytes.
pub const ENVELOPE_LEN: usize = 5;

#[verifier::opaque]
pub open spec fn put_envelope(v: Envelope, rest: Seq<u8>) -> Seq<u8> {
    let s4 = put_u8(v.timer, rest);
    let s3 = put_u8(v.period, s4);
    let s2 = put_bool(v.up, s3);
    let s1 = put_u8(v.initial, s2);
    let s0 = put_u8(v.volume, s1);
    s0
}

#[verifier::opaque]
pub open spec fn get_envelope(s: Seq<u8>) -> (Envelope, Seq<u8>) {
    let (volume, s1) = get_u8(s);
    let (initial, s2) = get_u8(s1);
    let (up, s3) = get_bool(s2);
    let (period, s4) = get_u8(s3);
    let (timer, s5) = get_u8(s4);
    (
        Envelope {
            volume,
            initial,
            up,
            period,
            timer,
        },
        s5,
    )
}

proof fn lemma_envelope_round_trip(v: Envelope, rest: Seq<u8>)
    ensures
        get_envelope(put_envelope(v, rest)) == (v, rest),
        put_envelope(v, rest).len() == rest.len() + ENVELOPE_LEN,
{
    broadcast use group_round_trips;

    reveal(put_envelope);
    reveal(get_envelope);
    let s4 = put_u8(v.timer, rest);
    let s3 = put_u8(v.period, s4);
    let s2 = put_bool(v.up, s3);
    let s1 = put_u8(v.initial, s2);
    let s0 = put_u8(v.volume, s1);
}

proof fn lemma_envelope_extends(s: Seq<u8>, t: Seq<u8>)
    requires
        s.len() >= ENVELOPE_LEN,
    ensures
        get_envelope(s + t) == (get_envelope(s).0, get_envelope(s).1 + t),
        get_envelope(s).1.len() == s.len() - ENVELOPE_LEN,
{
    broadcast use group_extends;

    reveal(get_envelope);
    let s1 = get_u8(s).1;
    let s2 = get_u8(s1).1;
    let s3 = get_bool(s2).1;
    let s4 = get_u8(s3).1;
    let s5 = get_u8(s4).1;
}

fn save_envelope(w: &mut Writer, v: &Envelope)
    ensures
        forall|rest: Seq<u8>|
            #[trigger] (final(w)@ + rest) == old(w)@ + put_envelope(*v, rest),
{
    reveal(put_envelope);
    w.u8(v.volume);
    w.u8(v.initial);
    w.bool(v.up);
    w.u8(v.period);
    w.u8(v.timer);
}

fn load_envelope(r: &mut Reader) -> (v: Envelope)
    requires
        old(r).wf(),
        old(r).rest().len() >= ENVELOPE_LEN,
    ensures
        final(r).wf(),
        final(r).data@ == old(r).data@,
        (v, final(r).rest()) == get_envelope(old(r).rest()),
        final(r).rest().len() == old(r).rest().len() - ENVELOPE_LEN,
{
    reveal(get_envelope);
    let volume: u8 = r.next_u8();
    let initial: u8 = r.next_u8();
    let up: bool = r.next_bool();
    let period: u8 = r.next_u8();
    let timer: u8 = r.next_u8();
    Envelope {
        volume,
        initial,
        up,
        period,
        timer,
    }
}

/// A square channel: 21 bytes.
pub const SQUARE_LEN: usize = 21;

#[verifier::opaque]
pub open spec fn put_square(v: Square, rest: Seq<u8>) -> Seq<u8> {
    let s12 = put_bool(v.on, rest);
    let s11 = put_bool(v.sweep_enabled, s12);
    let s10 = put_u8(v.sweep_timer, s11);
    let s9 = put_u8(v.sweep_shift, s10);
    let s8 = put_bool(v.sweep_negate, s9);
    let s7 = put_u8(v.sweep_period, s8);
    let s6 = put_envelope(v.env, s7);
    let s5 = put_bool(v.length_enable, s6);
    let s4 = put_u8(v.length, s5);
    let s3 = put_u8(v.phase, s4);
    let s2 = put_u16(v.freq, s3);
    let s1 = put_u32(v.freq_timer, s2);
    let s0 = put_u8(v.duty, s1);
    s0
}

#[verifier::opaque]
pub open spec fn get_square(s: Seq<u8>) -> (Square, Seq<u8>) {
    let (duty, s1) = get_u8(s);
    let (freq_timer, s2) = get_u32(s1);
    let (freq, s3) = get_u16(s2);
    let (phase, s4) = get_u8(s3);
    let (length, s5) = get_u8(s4);
    let (length_enable, s6) = get_bool(s5);
    let (env, s7) = get_envelope(s6);
    let (sweep_period, s8) = get_u8(s7);
    let (sweep_negate, s9) = get_bool(s8);
    let (sweep_shift, s10) = get_u8(s9);
    let (sweep_timer, s11) = get_u8(s10);
    let (sweep_enabled, s12) = get_bool(s11);
    let (on, s13) = get_bool(s12);
    (
        Square {
            duty: (duty % 4) as u8,
            freq_timer: at_least_one(freq_timer),
            freq: (freq % 2048) as u16,
            phase: (phase % 8) as u8,
            length,
            length_enable,
            env,
            sweep_period,
            sweep_negate,
            sweep_shift,
            sweep_timer,
            sweep_enabled,
            on,
        },
        s13,
    )
}

proof fn lemma_square_round_trip(v: Square, rest: Seq<u8>)
    requires
        v.wf(),
    ensures
        get_square(put_square(v, rest)) == (v, rest),
        put_square(v, rest).len() == rest.len() + SQUARE_LEN,
{
    broadcast use group_round_trips;

    reveal(put_square);
    reveal(get_square);
    let s12 = put_bool(v.on, rest);
    let s11 = put_bool(v.sweep_enabled, s12);
    let s10 = put_u8(v.sweep_timer, s11);
    let s9 = put_u8(v.sweep_shift, s10);
    let s8 = put_bool(v.sweep_negate, s9);
    let s7 = put_u8(v.sweep_period, s8);
    let s6 = put_envelope(v.env, s7);
    lemma_envelope_round_trip(v.env, s7);
    let s5 = put_bool(v.length_enable, s6);
    let s4 = put_u8(v.length, s5);
    let s3 = put_u8(v.phase, s4);
    let s2 = put_u16(v.freq, s3);
    let s1 = put_u32(v.freq_timer, s2);
    let s0 = put_u8(v.duty, s1);
}

proof fn lemma_square_extends(s: Seq<u8>, t: Seq<u8>)
    requires
        s.len() >= SQUARE_LEN,
    ensures
        get_square(s + t) == (get_square(s).0, get_square(s).1 + t),
        get_square(s).1.len() == s.len() - SQUARE_LEN,
{
    broadcast use group_extends;

    reveal(get_square);
    let s1 = get_u8(s).1;
    let s2 = get_u32(s1).1;
    let s3 = get_u16(s2).1;
    let s4 = get_u8(s3).1;
    let s5 = get_u8(s4).1;
    let s6 = get_bool(s5).1;
    lemma_envelope_extends(s6, t);
    let s7 = get_envelope(s6).1;
    let s8 = get_u8(s7).1;
    let s9 = get_bool(s8).1;
    let s10 = get_u8(s9).1;
    let s11 = get_u8(s10).1;
    let s12 = get_bool(s11).1;
    let s13 = get_bool(s12).1;
}

fn save_square(w: &mut Writer, v: &Square)
    ensures
        forall|rest: Seq<u8>|
            #[trigger] (final(w)@ + rest) == old(w)@ + put_square(*v, rest),
{
    reveal(put_square);
    w.u8(v.duty);
    w.u32(v.freq_timer);
    w.u16(v.freq);
    w.u8(v.phase);
    w.u8(v.length);
    w.bool(v.length_enable);
    save_envelope(w, &v.env);
    w.u8(v.sweep_period);
    w.bool(v.sweep_negate);
    w.u8(v.sweep_shift);
    w.u8(v.sweep_timer);
    w.bool(v.sweep_enabled);
    w.bool(v.on);
}

fn load_square(r: &mut Reader) -> (v: Square)
    requires
        old(r).wf(),
        old(r).rest().len() >= SQUARE_LEN,
    ensures
        final(r).wf(),
        final(r).data@ == old(r).data@,
        (v, final(r).rest()) == get_square(old(r).rest()),
        final(r).rest().len() == old(r).rest().len() - SQUARE_LEN,
{
    reveal(get_square);
    let duty: u8 = r.next_u8();
    let freq_timer: u32 = r.next_u32();
    let freq: u16 = r.next_u16();
    let phase: u8 = r.next_u8();
    let length: u8 = r.next_u8();
    let length_enable: bool = r.next_bool();
    let env: Envelope = load_envelope(r);
    let sweep_period: u8 = r.next_u8();
    let sweep_negate: bool = r.next_bool();
    let sweep_shift: u8 = r.next_u8();
    let sweep_timer: u8 = r.next_u8();
    let sweep_enabled: bool = r.next_bool();
    let on: bool = r.next_bool();
    Square {
        duty: duty % 4,
        freq_timer: positive(freq_timer),
        freq: freq % 2048,
        phase: phase % 8,
        length,
        length_enable,
        env,
        sweep_period,
        sweep_negate,
        sweep_shift,
        sweep_timer,
        sweep_enabled,
        on,
    }
}

/// The wave channel: 48 bytes.
pub const WAVE_LEN: usize = 48;

#[verifier::opaque]
pub open spec fn put_wave(v: Wave, rest: Seq<u8>) -> Seq<u8> {
    let s11 = put_raw(v.ram@, rest);
    let s10 = put_bool(v.on, s11);
    let s9 = put_u8(v.pos, s10);
    let s8 = put_u16(v.freq, s9);
    let s7 = put_u32(v.freq_timer, s8);
    let s6 = put_bool(v.force75, s7);
    let s5 = put_u8(v.volume, s6);
    let s4 = put_bool(v.length_enable, s5);
    let s3 = put_u16(v.length, s4);
    let s2 = put_bool(v.dac_on, s3);
    let s1 = put_u8(v.bank, s2);
    let s0 = put_bool(v.dimension, s1);
    s0
}

#[verifier::opaque]
pub open spec fn get_wave(s: Seq<u8>) -> (Wave, Seq<u8>) {
    let (dimension, s1) = get_bool(s);
    let (bank, s2) = get_u8(s1);
    let (dac_on, s3) = get_bool(s2);
    let (length, s4) = get_u16(s3);
    let (length_enable, s5) = get_bool(s4);
    let (volume, s6) = get_u8(s5);
    let (force75, s7) = get_bool(s6);
    let (freq_timer, s8) = get_u32(s7);
    let (freq, s9) = get_u16(s8);
    let (pos, s10) = get_u8(s9);
    let (on, s11) = get_bool(s10);
    let (ram, s12) = get_array::<32>(s11);
    (
        Wave {
            dimension,
            bank: (bank % 2) as u8,
            dac_on,
            length,
            length_enable,
            volume: (volume % 4) as u8,
            force75,
            freq_timer: at_least_one(freq_timer),
            freq: (freq % 2048) as u16,
            pos: (pos % 64) as u8,
            on,
            ram,
        },
        s12,
    )
}

proof fn lemma_wave_round_trip(v: Wave, rest: Seq<u8>)
    requires
        v.wf(),
    ensures
        get_wave(put_wave(v, rest)) == (v, rest),
        put_wave(v, rest).len() == rest.len() + WAVE_LEN,
{
    broadcast use group_round_trips;

    reveal(put_wave);
    reveal(get_wave);
    let s11 = put_raw(v.ram@, rest);
    let s10 = put_bool(v.on, s11);
    let s9 = put_u8(v.pos, s10);
    let s8 = put_u16(v.freq, s9);
    let s7 = put_u32(v.freq_timer, s8);
    let s6 = put_bool(v.force75, s7);
    let s5 = put_u8(v.volume, s6);
    let s4 = put_bool(v.length_enable, s5);
    let s3 = put_u16(v.length, s4);
    let s2 = put_bool(v.dac_on, s3);
    let s1 = put_u8(v.bank, s2);
    let s0 = put_bool(v.dimension, s1);
}

proof fn lemma_wave_extends(s: Seq<u8>, t: Seq<u8>)
    requires
        s.len() >= WAVE_LEN,
    ensures
        get_wave(s + t) == (get_wave(s).0, get_wave(s).1 + t),
        get_wave(s).1.len() == s.len() - WAVE_LEN,
{
    broadcast use group_extends;

    reveal(get_wave);
    let s1 = get_bool(s).1;
    let s2 = get_u8(s1).1;
    let s3 = get_bool(s2).1;
    let s4 = get_u16(s3).1;
    let s5 = get_bool(s4).1;
    let s6 = get_u8(s5).1;
    let s7 = get_bool(s6).1;
    let s8 = get_u32(s7).1;
    let s9 = get_u16(s8).1;
    let s10 = get_u8(s9).1;
    let s11 = get_bool(s10).1;
    let s12 = get_array::<32>(s11).1;
}

fn save_wave(w: &mut Writer, v: &Wave)
    ensures
        forall|rest: Seq<u8>|
            #[trigger] (final(w)@ + rest) == old(w)@ + put_wave(*v, rest),
{
    reveal(put_wave);
    w.bool(v.dimension);
    w.u8(v.bank);
    w.bool(v.dac_on);
    w.u16(v.length);
    w.bool(v.length_enable);
    w.u8(v.volume);
    w.bool(v.force75);
    w.u32(v.freq_timer);
    w.u16(v.freq);
    w.u8(v.pos);
    w.bool(v.on);
    w.raw(v.ram.as_slice());
}

fn load_wave(r: &mut Reader) -> (v: Wave)
    requires
        old(r).wf(),
        old(r).rest().len() >= WAVE_LEN,
    ensures
        final(r).wf(),
        final(r).data@ == old(r).data@,
        (v, final(r).rest()) == get_wave(old(r).rest()),
        final(r).rest().len() == old(r).rest().len() - WAVE_LEN,
{
    reveal(get_wave);
    let dimension: bool = r.next_bool();
    let bank: u8 = r.next_u8();
    let dac_on: bool = r.next_bool();
    let length: u16 = r.next_u16();
    let length_enable: bool = r.next_bool();
    let volume: u8 = r.next_u8();
    let force75: bool = r.next_bool();
    let freq_timer: u32 = r.next_u32();
    let freq: u16 = r.next_u16();
    let pos: u8 = r.next_u8();
    let on: bool = r.next_bool();
    let ram: [u8; 32] = r.next_array();
    Wave {
        dimension,
        bank: bank % 2,
        dac_on,
        length,
        length_enable,
        volume: volume % 4,
        force75,
        freq_timer: positive(freq_timer),
        freq: freq % 2048,
        pos: pos % 64,
        on,
        ram,
    }
}

/// The noise channel: 17 bytes.
pub const NOISE_LEN: usize = 17;

#[verifier::opaque]
pub open spec fn put_noise(v: Noise, rest: Seq<u8>) -> Seq<u8> {
    let s8 = put_bool(v.on, rest);
    let s7 = put_envelope(v.env, s8);
    let s6 = put_bool(v.length_enable, s7);
    let s5 = put_u8(v.length, s6);
    let s4 = put_u16(v.lfsr, s5);
    let s3 = put_bool(v.width, s4);
    let s2 = put_u8(v.shift, s3);
    let s1 = put_u8(v.divisor, s2);
    let s0 = put_u32(v.freq_timer, s1);
    s0
}

#[verifier::opaque]
pub open spec fn get_noise(s: Seq<u8>) -> (Noise, Seq<u8>) {
    let (freq_timer, s1) = get_u32(s);
    let (divisor, s2) = get_u8(s1);
    let (shift, s3) = get_u8(s2);
    let (width, s4) = get_bool(s3);
    let (lfsr, s5) = get_u16(s4);
    let (length, s6) = get_u8(s5);
    let (length_enable, s7) = get_bool(s6);
    let (env, s8) = get_envelope(s7);
    let (on, s9) = get_bool(s8);
    (
        Noise {
            freq_timer: at_least_one(freq_timer),
            divisor: (divisor % 8) as u8,
            shift: (shift % 16) as u8,
            width,
            lfsr,
            length,
            length_enable,
            env,
            on,
        },
        s9,
    )
}

proof fn lemma_noise_round_trip(v: Noise, rest: Seq<u8>)
    requires
        v.wf(),
    ensures
        get_noise(put_noise(v, rest)) == (v, rest),
        put_noise(v, rest).len() == rest.len() + NOISE_LEN,
{
    broadcast use group_round_trips;

    reveal(put_noise);
    reveal(get_noise);
    let s8 = put_bool(v.on, rest);
    let s7 = put_envelope(v.env, s8);
    lemma_envelope_round_trip(v.env, s8);
    let s6 = put_bool(v.length_enable, s7);
    let s5 = put_u8(v.length, s6);
    let s4 = put_u16(v.lfsr, s5);
    let s3 = put_bool(v.width, s4);
    let s2 = put_u8(v.shift, s3);
    let s1 = put_u8(v.divisor, s2);
    let s0 = put_u32(v.freq_timer, s1);
}

proof fn lemma_noise_extends(s: Seq<u8>, t: Seq<u8>)
    requires
        s.len() >= NOISE_LEN,
    ensures
        get_noise(s + t) == (get_noise(s).0, get_noise(s).1 + t),
        get_noise(s).1.len() == s.len() - NOISE_LEN,
{
    broadcast use group_extends;

    reveal(get_noise);
    let s1 = get_u32(s).1;
    let s2 = get_u8(s1).1;
    let s3 = get_u8(s2).1;
    let s4 = get_bool(s3).1;
    let s5 = get_u16(s4).1;
    let s6 = get_u8(s5).1;
    let s7 = get_bool(s6).1;
    lemma_envelope_extends(s7, t);
    let s8 = get_envelope(s7).1;
    let s9 = get_bool(s8).1;
}

fn save_noise(w: &mut Writer, v: &Noise)
    ensures
        forall|rest: Seq<u8>|
            #[trigger] (final(w)@ + rest) == old(w)@ + put_noise(*v, rest),
{
    reveal(put_noise);
    w.u32(v.freq_timer);
    w.u8(v.divisor);
    w.u8(v.shift);
    w.bool(v.width);
    w.u16(v.lfsr);
    w.u8(v.length);
    w.bool(v.length_enable);
    save_envelope(w, &v.env);
    w.bool(v.on);
}

fn load_noise(r: &mut Reader) -> (v: Noise)
    requires
        old(r).wf(),
        old(r).rest().len() >= NOISE_LEN,
    ensures
        final(r).wf(),
        final(r).data@ == old(r).data@,
        (v, final(r).rest()) == get_noise(old(r).rest()),
        final(r).rest().len() == old(r).rest().len() - NOISE_LEN,
{
    reveal(get_noise);
    let freq_timer: u32 = r.next_u32();
    let divisor: u8 = r.next_u8();
    let shift: u8 = r.next_u8();
    let width: bool = r.next_bool();
    let lfsr: u16 = r.next_u16();
    let length: u8 = r.next_u8();
    let length_enable: bool = r.next_bool();
    let env: Envelope = load_envelope(r);
    let on: bool = r.next_bool();
    Noise {
        freq_timer: positive(freq_timer),
        divisor: divisor % 8,
        shift: shift % 16,
        width,
        lfsr,
        length,
        length_enable,
        env,
        on,
    }
}

/// A Direct Sound channel: 34 bytes.
pub const DIRECT_LEN: usize = 34;

#[verifier::opaque]
pub open spec fn put_direct(v: DirectSound, rest: Seq<u8>) -> Seq<u8> {
    let s2 = put_u8(v.fifo_read as u8, rest);
    let s1 = put_u8(v.fifo_count as u8, s2);
    let s0 = put_raw(v.fifo@, s1);
    s0
}

#[verifier::opaque]
pub open spec fn get_direct(s: Seq<u8>) -> (DirectSound, Seq<u8>) {
    let (fifo, s1) = get_array::<32>(s);
    let (fifo_count, s2) = get_u8(s1);
    let (fifo_read, s3) = get_u8(s2);
    (
        DirectSound {
            fifo,
            fifo_count: (if fifo_count < 32 {
                fifo_count as usize
            } else {
                32
            }),
            fifo_read: (fifo_read % 32) as usize,
        },
        s3,
    )
}

proof fn lemma_direct_round_trip(v: DirectSound, rest: Seq<u8>)
    requires
        v.wf(),
    ensures
        get_direct(put_direct(v, rest)) == (v, rest),
        put_direct(v, rest).len() == rest.len() + DIRECT_LEN,
{
    broadcast use group_round_trips;

    reveal(put_direct);
    reveal(get_direct);
    let s2 = put_u8(v.fifo_read as u8, rest);
    let s1 = put_u8(v.fifo_count as u8, s2);
    let s0 = put_raw(v.fifo@, s1);
}

proof fn lemma_direct_extends(s: Seq<u8>, t: Seq<u8>)
    requires
        s.len() >= DIRECT_LEN,
    ensures
        get_direct(s + t) == (get_direct(s).0, get_direct(s).1 + t),
        get_direct(s).1.len() == s.len() - DIRECT_LEN,
{
    broadcast use group_extends;

    reveal(get_direct);
    let s1 = get_array::<32>(s).1;
    let s2 = get_u8(s1).1;
    let s3 = get_u8(s2).1;
}

fn save_direct(w: &mut Writer, v: &DirectSound)
    ensures
        forall|rest: Seq<u8>|
            #[trigger] (final(w)@ + rest) == old(w)@ + put_direct(*v, rest),
{
    reveal(put_direct);
    w.raw(v.fifo.as_slice());
    w.u8(v.fifo_count as u8);
    w.u8(v.fifo_read as u8);
}

fn load_direct(r: &mut Reader) -> (v: DirectSound)
    requires
        old(r).wf(),
        old(r).rest().len() >= DIRECT_LEN,
    ensures
        final(r).wf(),
        final(r).data@ == old(r).data@,
        (v, final(r).rest()) == get_direct(old(r).rest()),
        final(r).rest().len() == old(r).rest().len() - DIRECT_LEN,
{
    reveal(get_direct);
    let fifo: [u8; 32] = r.next_array();
    let fifo_count: u8 = r.next_u8();
    let fifo_read: u8 = r.next_u8();
    DirectSound {
        fifo,
        fifo_count: if fifo_count < 32 {
            fifo_count as usize
        } else {
            32
        },
        fifo_read: (fifo_read % 32) as usize,
    }
}

/// The Direct Sound DACs: 4 bytes.
pub const DACS_LEN: usize = 4;

#[verifier::opaque]
pub open spec fn put_dacs(v: Dacs, rest: Seq<u8>) -> Seq<u8> {
    let s3 = put_u8(v.b_timer, rest);
    let s2 = put_u8(v.a_timer, s3);
    let s1 = put_u8(unsigned8(v.b), s2);
    let s0 = put_u8(unsigned8(v.a), s1);
    s0
}

#[verifier::opaque]
pub open spec fn get_dacs(s: Seq<u8>) -> (Dacs, Seq<u8>) {
    let (a, s1) = get_u8(s);
    let (b, s2) = get_u8(s1);
    let (a_timer, s3) = get_u8(s2);
    let (b_timer, s4) = get_u8(s3);
    (
        Dacs {
            a: signed8(a),
            b: signed8(b),
            a_timer: (a_timer % 2) as u8,
            b_timer: (b_timer % 2) as u8,
        },
        s4,
    )
}

proof fn lemma_dacs_round_trip(v: Dacs, rest: Seq<u8>)
    requires
        v.a_timer <= 1,
        v.b_timer <= 1,
    ensures
        get_dacs(put_dacs(v, rest)) == (v, rest),
        put_dacs(v, rest).len() == rest.len() + DACS_LEN,
{
    broadcast use group_round_trips;

    reveal(put_dacs);
    reveal(get_dacs);
    let s3 = put_u8(v.b_timer, rest);
    let s2 = put_u8(v.a_timer, s3);
    let s1 = put_u8(unsigned8(v.b), s2);
    let s0 = put_u8(unsigned8(v.a), s1);
}

proof fn lemma_dacs_extends(s: Seq<u8>, t: Seq<u8>)
    requires
        s.len() >= DACS_LEN,
    ensures
        get_dacs(s + t) == (get_dacs(s).0, get_dacs(s).1 + t),
        get_dacs(s).1.len() == s.len() - DACS_LEN,
{
    broadcast use group_extends;

    reveal(get_dacs);
    let s1 = get_u8(s).1;
    let s2 = get_u8(s1).1;
    let s3 = get_u8(s2).1;
    let s4 = get_u8(s3).1;
}

fn save_dacs(w: &mut Writer, v: &Dacs)
    ensures
        forall|rest: Seq<u8>|
            #[trigger] (final(w)@ + rest) == old(w)@ + put_dacs(*v, rest),
{
    reveal(put_dacs);
    w.u8(to_unsigned8(v.a));
    w.u8(to_unsigned8(v.b));
    w.u8(v.a_timer);
    w.u8(v.b_timer);
}

fn load_dacs(r: &mut Reader) -> (v: Dacs)
    requires
        old(r).wf(),
        old(r).rest().len() >= DACS_LEN,
    ensures
        final(r).wf(),
        final(r).data@ == old(r).data@,
        (v, final(r).rest()) == get_dacs(old(r).rest()),
        final(r).rest().len() == old(r).rest().len() - DACS_LEN,
{
    reveal(get_dacs);
    let a: u8 = r.next_u8();
    let b: u8 = r.next_u8();
    let a_timer: u8 = r.next_u8();
    let b_timer: u8 = r.next_u8();
    Dacs {
        a: to_signed8(a),
        b: to_signed8(b),
        a_timer: a_timer % 2,
        b_timer: b_timer % 2,
    }
}

/// The clock: 9 bytes.
pub const CLOCK_LEN: usize = 9;

#[verifier::opaque]
pub open spec fn put_clock(v: Clock, rest: Seq<u8>) -> Seq<u8> {
    let s2 = put_u8(v.fs, rest);
    let s1 = put_u32(v.fs_cycles, s2);
    let s0 = put_u32(v.cycles, s1);
    s0
}

#[verifier::opaque]
pub open spec fn get_clock(s: Seq<u8>) -> (Clock, Seq<u8>) {
    let (cycles, s1) = get_u32(s);
    let (fs_cycles, s2) = get_u32(s1);
    let (fs, s3) = get_u8(s2);
    (
        Clock {
            cycles,
            fs_cycles,
            fs,
        },
        s3,
    )
}

proof fn lemma_clock_round_trip(v: Clock, rest: Seq<u8>)
    ensures
        get_clock(put_clock(v, rest)) == (v, rest),
        put_clock(v, rest).len() == rest.len() + CLOCK_LEN,
{
    broadcast use group_round_trips;

    reveal(put_clock);
    reveal(get_clock);
    let s2 = put_u8(v.fs, rest);
    let s1 = put_u32(v.fs_cycles, s2);
    let s0 = put_u32(v.cycles, s1);
}

proof fn lemma_clock_extends(s: Seq<u8>, t: Seq<u8>)
    requires
        s.len() >= CLOCK_LEN,
    ensures
        get_clock(s + t) == (get_clock(s).0, get_clock(s).1 + t),
        get_clock(s).1.len() == s.len() - CLOCK_LEN,
{
    broadcast use group_extends;

    reveal(get_clock);
    let s1 = get_u32(s).1;
    let s2 = get_u32(s1).1;
    let s3 = get_u8(s2).1;
}

fn save_clock(w: &mut Writer, v: &Clock)
    ensures
        forall|rest: Seq<u8>|
            #[trigger] (final(w)@ + rest) == old(w)@ + put_clock(*v, rest),
{
    reveal(put_clock);
    w.u32(v.cycles);
    w.u32(v.fs_cycles);
    w.u8(v.fs);
}

fn load_clock(r: &mut Reader) -> (v: Clock)
    requires
        old(r).wf(),
        old(r).rest().len() >= CLOCK_LEN,
    ensures
        final(r).wf(),
        final(r).data@ == old(r).data@,
        (v, final(r).rest()) == get_clock(old(r).rest()),
        final(r).rest().len() == old(r).rest().len() - CLOCK_LEN,
{
    reveal(get_clock);
    let cycles: u32 = r.next_u32();
    let fs_cycles: u32 = r.next_u32();
    let fs: u8 = r.next_u8();
    Clock {
        cycles,
        fs_cycles,
        fs,
    }
}

/// The control registers: 8 bytes.
pub const CONTROL_LEN: usize = 8;

#[verifier::opaque]
pub open spec fn put_control(v: Control, rest: Seq<u8>) -> Seq<u8> {
    let s3 = put_u16(v.soundbias, rest);
    let s2 = put_u16(v.soundcnt_x, s3);
    let s1 = put_u16(v.soundcnt_h, s2);
    let s0 = put_u16(v.soundcnt_l, s1);
    s0
}

#[verifier::opaque]
pub open spec fn get_control(s: Seq<u8>) -> (Control, Seq<u8>) {
    let (soundcnt_l, s1) = get_u16(s);
    let (soundcnt_h, s2) = get_u16(s1);
    let (soundcnt_x, s3) = get_u16(s2);
    let (soundbias, s4) = get_u16(s3);
    (
        Control {
            soundcnt_l,
            soundcnt_h,
            soundcnt_x,
            soundbias,
        },
        s4,
    )
}

proof fn lemma_control_round_trip(v: Control, rest: Seq<u8>)
    ensures
        get_control(put_control(v, rest)) == (v, rest),
        put_control(v, rest).len() == rest.len() + CONTROL_LEN,
{
    broadcast use group_round_trips;

    reveal(put_control);
    reveal(get_control);
    let s3 = put_u16(v.soundbias, rest);
    let s2 = put_u16(v.soundcnt_x, s3);
    let s1 = put_u16(v.soundcnt_h, s2);
    let s0 = put_u16(v.soundcnt_l, s1);
}

proof fn lemma_control_extends(s: Seq<u8>, t: Seq<u8>)
    requires
        s.len() >= CONTROL_LEN,
    ensures
        get_control(s + t) == (get_control(s).0, get_control(s).1 + t),
        get_control(s).1.len() == s.len() - CONTROL_LEN,
{
    broadcast use group_extends;

    reveal(get_control);
    let s1 = get_u16(s).1;
    let s2 = get_u16(s1).1;
    let s3 = get_u16(s2).1;
    let s4 = get_u16(s3).1;
}

fn save_control(w: &mut Writer, v: &Control)
    ensures
        forall|rest: Seq<u8>|
            #[trigger] (final(w)@ + rest) == old(w)@ + put_control(*v, rest),
{
    reveal(put_control);
    w.u16(v.soundcnt_l);
    w.u16(v.soundcnt_h);
    w.u16(v.soundcnt_x);
    w.u16(v.soundbias);
}

fn load_control(r: &mut Reader) -> (v: Control)
    requires
        old(r).wf(),
        old(r).rest().len() >= CONTROL_LEN,
    ensures
        final(r).wf(),
        final(r).data@ == old(r).data@,
        (v, final(r).rest()) == get_control(old(r).rest()),
        final(r).rest().len() == old(r).rest().len() - CONTROL_LEN,
{
    reveal(get_control);
    let soundcnt_l: u16 = r.next_u16();
    let soundcnt_h: u16 = r.next_u16();
    let soundcnt_x: u16 = r.next_u16();
    let soundbias: u16 = r.next_u16();
    Control {
        soundcnt_l,
        soundcnt_h,
        soundcnt_x,
        soundbias,
    }
}

/// The APU; pending audio is dropped: 196 bytes.
pub const APU_LEN: usize = 196;

#[verifier::opaque]
pub open spec fn put_apu(v: ApuState, rest: Seq<u8>) -> Seq<u8> {
    let s8 = put_control(v.control, rest);
    let s7 = put_clock(v.clock, s8);
    let s6 = put_dacs(v.dacs, s7);
    let s5 = put_direct(v.dsb, s6);
    let s4 = put_direct(v.dsa, s5);
    let s3 = put_noise(v.noise, s4);
    let s2 = put_wave(v.wave, s3);
    let s1 = put_square(v.sq2, s2);
    let s0 = put_square(v.sq1, s1);
    s0
}

#[verifier::opaque]
pub open spec fn get_apu(s: Seq<u8>) -> (ApuState, Seq<u8>) {
    let (sq1, s1) = get_square(s);
    let (sq2, s2) = get_square(s1);
    let (wave, s3) = get_wave(s2);
    let (noise, s4) = get_noise(s3);
    let (dsa, s5) = get_direct(s4);
    let (dsb, s6) = get_direct(s5);
    let (dacs, s7) = get_dacs(s6);
    let (clock, s8) = get_clock(s7);
    let (control, s9) = get_control(s8);
    (
        ApuState {
            sq1,
            sq2,
            wave,
            noise,
            dsa,
            dsb,
            dacs,
            clock,
            control,
            samples: Seq::empty(),
        },
        s9,
    )
}

proof fn lemma_apu_round_trip(v: ApuState, rest: Seq<u8>)
    requires
        v.wf(),
    ensures
        get_apu(put_apu(v, rest)) == (ApuState { samples: Seq::empty(), ..v }, rest),
        put_apu(v, rest).len() == rest.len() + APU_LEN,
{
    broadcast use group_round_trips;

    reveal(put_apu);
    reveal(get_apu);
    let s8 = put_control(v.control, rest);
    lemma_control_round_trip(v.control, rest);
    let s7 = put_clock(v.clock, s8);
    lemma_clock_round_trip(v.clock, s8);
    let s6 = put_dacs(v.dacs, s7);
    lemma_dacs_round_trip(v.dacs, s7);
    let s5 = put_direct(v.dsb, s6);
    lemma_direct_round_trip(v.dsb, s6);
    let s4 = put_direct(v.dsa, s5);
    lemma_direct_round_trip(v.dsa, s5);
    let s3 = put_noise(v.noise, s4);
    lemma_noise_round_trip(v.noise, s4);
    let s2 = put_wave(v.wave, s3);
    lemma_wave_round_trip(v.wave, s3);
    let s1 = put_square(v.sq2, s2);
    lemma_square_round_trip(v.sq2, s2);
    let s0 = put_square(v.sq1, s1);
    lemma_square_round_trip(v.sq1, s1);
}

proof fn lemma_apu_extends(s: Seq<u8>, t: Seq<u8>)
    requires
        s.len() >= APU_LEN,
    ensures
        get_apu(s + t) == (get_apu(s).0, get_apu(s).1 + t),
        get_apu(s).1.len() == s.len() - APU_LEN,
{
    broadcast use group_extends;

    reveal(get_apu);
    lemma_square_extends(s, t);
    let s1 = get_square(s).1;
    lemma_square_extends(s1, t);
    let s2 = get_square(s1).1;
    lemma_wave_extends(s2, t);
    let s3 = get_wave(s2).1;
    lemma_noise_extends(s3, t);
    let s4 = get_noise(s3).1;
    lemma_direct_extends(s4, t);
    let s5 = get_direct(s4).1;
    lemma_direct_extends(s5, t);
    let s6 = get_direct(s5).1;
    lemma_dacs_extends(s6, t);
    let s7 = get_dacs(s6).1;
    lemma_clock_extends(s7, t);
    let s8 = get_clock(s7).1;
    lemma_control_extends(s8, t);
    let s9 = get_control(s8).1;
}

fn save_apu(w: &mut Writer, v: &Apu)
    ensures
        forall|rest: Seq<u8>|
            #[trigger] (final(w)@ + rest) == old(w)@ + put_apu(v@, rest),
{
    reveal(put_apu);
    save_square(w, &v.sq1);
    save_square(w, &v.sq2);
    save_wave(w, &v.wave);
    save_noise(w, &v.noise);
    save_direct(w, &v.dsa);
    save_direct(w, &v.dsb);
    save_dacs(w, &v.dacs);
    save_clock(w, &v.clock);
    save_control(w, &v.control);
}

fn load_apu(r: &mut Reader) -> (v: Apu)
    requires
        old(r).wf(),
        old(r).rest().len() >= APU_LEN,
    ensures
        final(r).wf(),
        final(r).data@ == old(r).data@,
        (v@, final(r).rest()) == get_apu(old(r).rest()),
        final(r).rest().len() == old(r).rest().len() - APU_LEN,
{
    reveal(get_apu);
    let sq1: Square = load_square(r);
    let sq2: Square = load_square(r);
    let wave: Wave = load_wave(r);
    let noise: Noise = load_noise(r);
    let dsa: DirectSound = load_direct(r);
    let dsb: DirectSound = load_direct(r);
    let dacs: Dacs = load_dacs(r);
    let clock: Clock = load_clock(r);
    let control: Control = load_control(r);
    Apu {
        sq1,
        sq2,
        wave,
        noise,
        dsa,
        dsb,
        dacs,
        clock,
        control,
        output: AudioBuffer::new(),
    }
}

impl Apu {
    /// Append the channels and registers to a state.
    pub fn save(&self, w: &mut Writer)
        ensures
            forall|rest: Seq<u8>|
                #[trigger] (final(w)@ + rest) == old(w)@ + put_apu(self@, rest),
    {
        save_apu(w, self)
    }

    /// Restore the channels and registers from a state; audio that was pending
    /// is dropped. A state that is too short changes nothing.
    pub fn load(&mut self, r: &mut Reader) -> (res: Result<(), String>)
        requires
            old(r).wf(),
        ensures
            final(r).wf(),
            final(r).data@ == old(r).data@,
            match res {
                Ok(()) => old(r).rest().len() >= APU_LEN && (final(self)@, final(r).rest())
                    == get_apu(old(r).rest()),
                Err(e) => old(r).rest().len() < APU_LEN && e@ == end_message() && final(self)@
                    == old(self)@ && final(r).rest() == old(r).rest(),
            },
    {
        if r.remaining() < APU_LEN {
            return Err("unexpected end of state".to_owned());
        }
        *self = load_apu(r);
        Ok(())
    }
}

/// A saved APU comes back as it was, without the audio that was pending.
pub proof fn law_sound_round_trip(s: ApuState, rest: Seq<u8>)
    requires
        s.wf(),
    ensures
        get_apu(put_apu(s, rest)) == (ApuState { samples: Seq::empty(), ..s }, rest),
{
    lemma_apu_round_trip(s, rest);
}

/// Bytes behind a saved APU do not change what is restored.
pub proof fn law_sound_reads_its_own_bytes(s: Seq<u8>, t: Seq<u8>)
    requires
        s.len() >= APU_LEN,
    ensures
        get_apu(s + t) == (get_apu(s).0, get_apu(s).1 + t),
{
    lemma_apu_extends(s, t);
}

} // verus!
