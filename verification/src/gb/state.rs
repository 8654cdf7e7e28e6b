//! Full-machine save states in a hand-rolled binary format.
//!
//! A state is `b"CBSV"` (4-byte magic) + a little-endian u32 version, followed
//! by the serialized CPU and then the bus. All lengths are little-endian
//! u32-prefixed so a reader can bounds-check every field; loading validates the
//! magic, version, and every field, and never panics on malformed input.

use crate::bits::filled;
use crate::emu::audio::AudioBuffer;
use crate::emu::state::{
    bytes_extends, get_array, get_bool, get_bytes, get_u16, get_u32, get_u64, get_u8, group_extends,
    group_round_trips, has_bytes, put_bool, put_bytes, put_raw, put_u16, put_u32, put_u64, put_u8,
    Reader, Writer,
};
use crate::emu::text::{decimal, numbered, string_from_utf8};
use crate::gb::apu::{Apu, ApuState, Envelope, Noise, Square, Wave};
use crate::gb::bus::{Bus, BusState, Hdma, OamDma, Serial};
use crate::gb::cartridge::{CartState, Cartridge, MbcType};
use crate::gb::cpu::{Cpu, Machine};
use crate::gb::joypad::Joypad;
use crate::gb::machine::Gb;
use crate::gb::ppu::{Ppu, Sprite, FRAME_RGB};
use crate::gb::timer::Timer;
use vstd::prelude::*;
use vstd::utf8::{decode_utf8, encode_utf8, valid_utf8};

verus! {

/// Magic header identifying a CrabBoy save state.
pub const STATE_MAGIC: [u8; 4] = [0x43, 0x42, 0x53, 0x56];
/// Current save-state format version.
pub const STATE_VERSION: u32 = 2;

/// The CPU: 25 bytes.
pub const CPU_LEN: usize = 25;

#[verifier::opaque]
pub open spec fn put_cpu(v: Cpu, rest: Seq<u8>) -> Seq<u8> {
    let s15 = put_u64(v.timer_interrupts, rest);
    let s14 = put_bool(v.halt_bug, s15);
    let s13 = put_bool(v.stopped, s14);
    let s12 = put_bool(v.halted, s13);
    let s11 = put_bool(v.ei_pending, s12);
    let s10 = put_bool(v.ime, s11);
    let s9 = put_u16(v.pc, s10);
    let s8 = put_u16(v.sp, s9);
    let s7 = put_u8(v.l, s8);
    let s6 = put_u8(v.h, s7);
    let s5 = put_u8(v.e, s6);
    let s4 = put_u8(v.d, s5);
    let s3 = put_u8(v.c, s4);
    let s2 = put_u8(v.b, s3);
    let s1 = put_u8(v.f, s2);
    let s0 = put_u8(v.a, s1);
    s0
}

#[verifier::opaque]
pub open spec fn get_cpu(s: Seq<u8>) -> (Cpu, Seq<u8>) {
    let (a, s1) = get_u8(s);
    let (f, s2) = get_u8(s1);
    let (b, s3) = get_u8(s2);
    let (c, s4) = get_u8(s3);
    let (d, s5) = get_u8(s4);
    let (e, s6) = get_u8(s5);
    let (h, s7) = get_u8(s6);
    let (l, s8) = get_u8(s7);
    let (sp, s9) = get_u16(s8);
    let (pc, s10) = get_u16(s9);
    let (ime, s11) = get_bool(s10);
    let (ei_pending, s12) = get_bool(s11);
    let (halted, s13) = get_bool(s12);
    let (stopped, s14) = get_bool(s13);
    let (halt_bug, s15) = get_bool(s14);
    let (timer_interrupts, s16) = get_u64(s15);
    (
        Cpu {
            a,
            f,
            b,
            c,
            d,
            e,
            h,
            l,
            sp,
            pc,
            ime,
            ei_pending,
            halted,
            stopped,
            halt_bug,
            timer_interrupts,
            breakpoint: false,
            ticked: 0,
        },
        s16,
    )
}

proof fn lemma_cpu_round_trip(v: Cpu, rest: Seq<u8>)
    ensures
        get_cpu(put_cpu(v, rest)) == (Cpu { breakpoint: false, ticked: 0, ..v }, rest),
        put_cpu(v, rest).len() == rest.len() + CPU_LEN,
{
    broadcast use group_round_trips;

    reveal(put_cpu);
    reveal(get_cpu);
    let s15 = put_u64(v.timer_interrupts, rest);
    let s14 = put_bool(v.halt_bug, s15);
    let s13 = put_bool(v.stopped, s14);
    let s12 = put_bool(v.halted, s13);
    let s11 = put_bool(v.ei_pending, s12);
    let s10 = put_bool(v.ime, s11);
    let s9 = put_u16(v.pc, s10);
    let s8 = put_u16(v.sp, s9);
    let s7 = put_u8(v.l, s8);
    let s6 = put_u8(v.h, s7);
    let s5 = put_u8(v.e, s6);
    let s4 = put_u8(v.d, s5);
    let s3 = put_u8(v.c, s4);
    let s2 = put_u8(v.b, s3);
    let s1 = put_u8(v.f, s2);
    let s0 = put_u8(v.a, s1);
}

proof fn lemma_cpu_extends(s: Seq<u8>, t: Seq<u8>)
    requires
        s.len() >= CPU_LEN,
    ensures
        get_cpu(s + t) == (get_cpu(s).0, get_cpu(s).1 + t),
        get_cpu(s).1.len() == s.len() - CPU_LEN,
{
    broadcast use group_extends;

    reveal(get_cpu);
    let s1 = get_u8(s).1;
    let s2 = get_u8(s1).1;
    let s3 = get_u8(s2).1;
    let s4 = get_u8(s3).1;
    let s5 = get_u8(s4).1;
    let s6 = get_u8(s5).1;
    let s7 = get_u8(s6).1;
    let s8 = get_u8(s7).1;
    let s9 = get_u16(s8).1;
    let s10 = get_u16(s9).1;
    let s11 = get_bool(s10).1;
    let s12 = get_bool(s11).1;
    let s13 = get_bool(s12).1;
    let s14 = get_bool(s13).1;
    let s15 = get_bool(s14).1;
    let s16 = get_u64(s15).1;
}

fn save_cpu(w: &mut Writer, v: &Cpu)
    ensures
        forall|rest: Seq<u8>|
            #[trigger] (final(w)@ + rest) == old(w)@ + put_cpu(*v, rest),
{
    reveal(put_cpu);
    w.u8(v.a);
    w.u8(v.f);
    w.u8(v.b);
    w.u8(v.c);
    w.u8(v.d);
    w.u8(v.e);
    w.u8(v.h);
    w.u8(v.l);
    w.u16(v.sp);
    w.u16(v.pc);
    w.bool(v.ime);
    w.bool(v.ei_pending);
    w.bool(v.halted);
    w.bool(v.stopped);
    w.bool(v.halt_bug);
    w.u64(v.timer_interrupts);
}

fn load_cpu(r: &mut Reader) -> (v: Cpu)
    requires
        old(r).wf(),
        old(r).rest().len() >= CPU_LEN,
    ensures
        final(r).wf(),
        final(r).data@ == old(r).data@,
        (v, final(r).rest()) == get_cpu(old(r).rest()),
        final(r).rest().len() == old(r).rest().len() - CPU_LEN,
{
    reveal(get_cpu);
    let a: u8 = r.next_u8();
    let f: u8 = r.next_u8();
    let b: u8 = r.next_u8();
    let c: u8 = r.next_u8();
    let d: u8 = r.next_u8();
    let e: u8 = r.next_u8();
    let h: u8 = r.next_u8();
    let l: u8 = r.next_u8();
    let sp: u16 = r.next_u16();
    let pc: u16 = r.next_u16();
    let ime: bool = r.next_bool();
    let ei_pending: bool = r.next_bool();
    let halted: bool = r.next_bool();
    let stopped: bool = r.next_bool();
    let halt_bug: bool = r.next_bool();
    let timer_interrupts: u64 = r.next_u64();
    Cpu {
        a,
        f,
        b,
        c,
        d,
        e,
        h,
        l,
        sp,
        pc,
        ime,
        ei_pending,
        halted,
        stopped,
        halt_bug,
        timer_interrupts,
        breakpoint: false,
        ticked: 0,
    }
}

/// A sprite of the current line: 6 bytes.
pub const SPRITE_LEN: usize = 6;

#[verifier::opaque]
pub open spec fn put_sprite(v: Sprite, rest: Seq<u8>) -> Seq<u8> {
    let s4 = put_u8(v.height, rest);
    let s3 = put_u8(v.attr, s4);
    let s2 = put_u8(v.tile, s3);
    let s1 = put_u8(v.y, s2);
    let s0 = put_u16(v.x as u16, s1);
    s0
}

#[verifier::opaque]
pub open spec fn get_sprite(s: Seq<u8>) -> (Sprite, Seq<u8>) {
    let (x, s1) = get_u16(s);
    let (y, s2) = get_u8(s1);
    let (tile, s3) = get_u8(s2);
    let (attr, s4) = get_u8(s3);
    let (height, s5) = get_u8(s4);
    (
        Sprite {
            x: x as i16,
            y,
            tile,
            attr,
            height,
        },
        s5,
    )
}

proof fn lemma_sprite_round_trip(v: Sprite, rest: Seq<u8>)
    ensures
        get_sprite(put_sprite(v, rest)) == (v, rest),
        put_sprite(v, rest).len() == rest.len() + SPRITE_LEN,
{
    broadcast use group_round_trips;

    reveal(put_sprite);
    reveal(get_sprite);
    let s4 = put_u8(v.height, rest);
    let s3 = put_u8(v.attr, s4);
    let s2 = put_u8(v.tile, s3);
    let s1 = put_u8(v.y, s2);
    let s0 = put_u16(v.x as u16, s1);
    let word = v.x;
    assert((word as u16) as i16 == word) by (bit_vector);
}

proof fn lemma_sprite_extends(s: Seq<u8>, t: Seq<u8>)
    requires
        s.len() >= SPRITE_LEN,
    ensures
        get_sprite(s + t) == (get_sprite(s).0, get_sprite(s).1 + t),
        get_sprite(s).1.len() == s.len() - SPRITE_LEN,
{
    broadcast use group_extends;

    reveal(get_sprite);
    let s1 = get_u16(s).1;
    let s2 = get_u8(s1).1;
    let s3 = get_u8(s2).1;
    let s4 = get_u8(s3).1;
    let s5 = get_u8(s4).1;
}

fn save_sprite(w: &mut Writer, v: &Sprite)
    ensures
        forall|rest: Seq<u8>|
            #[trigger] (final(w)@ + rest) == old(w)@ + put_sprite(*v, rest),
{
    reveal(put_sprite);
    w.u16(v.x as u16);
    w.u8(v.y);
    w.u8(v.tile);
    w.u8(v.attr);
    w.u8(v.height);
}

fn load_sprite(r: &mut Reader) -> (v: Sprite)
    requires
        old(r).wf(),
        old(r).rest().len() >= SPRITE_LEN,
    ensures
        final(r).wf(),
        final(r).data@ == old(r).data@,
        (v, final(r).rest()) == get_sprite(old(r).rest()),
        final(r).rest().len() == old(r).rest().len() - SPRITE_LEN,
{
    reveal(get_sprite);
    let x: u16 = r.next_u16();
    let y: u8 = r.next_u8();
    let tile: u8 = r.next_u8();
    let attr: u8 = r.next_u8();
    let height: u8 = r.next_u8();
    Sprite {
        x: x as i16,
        y,
        tile,
        attr,
        height,
    }
}

/// The ten sprites of the line: 60 bytes.
pub const SPRITES_LEN: usize = 60;

#[verifier::opaque]
pub open spec fn put_sprites(v: [Sprite; 10], rest: Seq<u8>) -> Seq<u8> {
    let s9 = put_sprite(v[9], rest);
    let s8 = put_sprite(v[8], s9);
    let s7 = put_sprite(v[7], s8);
    let s6 = put_sprite(v[6], s7);
    let s5 = put_sprite(v[5], s6);
    let s4 = put_sprite(v[4], s5);
    let s3 = put_sprite(v[3], s4);
    let s2 = put_sprite(v[2], s3);
    let s1 = put_sprite(v[1], s2);
    let s0 = put_sprite(v[0], s1);
    s0
}

#[verifier::opaque]
pub open spec fn get_sprites(s: Seq<u8>) -> ([Sprite; 10], Seq<u8>) {
    let (p0, s1) = get_sprite(s);
    let (p1, s2) = get_sprite(s1);
    let (p2, s3) = get_sprite(s2);
    let (p3, s4) = get_sprite(s3);
    let (p4, s5) = get_sprite(s4);
    let (p5, s6) = get_sprite(s5);
    let (p6, s7) = get_sprite(s6);
    let (p7, s8) = get_sprite(s7);
    let (p8, s9) = get_sprite(s8);
    let (p9, s10) = get_sprite(s9);
    ([p0, p1, p2, p3, p4, p5, p6, p7, p8, p9], s10)
}

proof fn lemma_sprites_round_trip(v: [Sprite; 10], rest: Seq<u8>)
    ensures
        get_sprites(put_sprites(v, rest)) == (v, rest),
        put_sprites(v, rest).len() == rest.len() + SPRITES_LEN,
{
    reveal(put_sprites);
    reveal(get_sprites);
    let s9 = put_sprite(v[9], rest);
    lemma_sprite_round_trip(v[9], rest);
    let s8 = put_sprite(v[8], s9);
    lemma_sprite_round_trip(v[8], s9);
    let s7 = put_sprite(v[7], s8);
    lemma_sprite_round_trip(v[7], s8);
    let s6 = put_sprite(v[6], s7);
    lemma_sprite_round_trip(v[6], s7);
    let s5 = put_sprite(v[5], s6);
    lemma_sprite_round_trip(v[5], s6);
    let s4 = put_sprite(v[4], s5);
    lemma_sprite_round_trip(v[4], s5);
    let s3 = put_sprite(v[3], s4);
    lemma_sprite_round_trip(v[3], s4);
    let s2 = put_sprite(v[2], s3);
    lemma_sprite_round_trip(v[2], s3);
    let s1 = put_sprite(v[1], s2);
    lemma_sprite_round_trip(v[1], s2);
    let s0 = put_sprite(v[0], s1);
    lemma_sprite_round_trip(v[0], s1);
    assert(get_sprites(s0).0 =~= v);
}

proof fn lemma_sprites_extends(s: Seq<u8>, t: Seq<u8>)
    requires
        s.len() >= SPRITES_LEN,
    ensures
        get_sprites(s + t) == (get_sprites(s).0, get_sprites(s).1 + t),
        get_sprites(s).1.len() == s.len() - SPRITES_LEN,
{
    reveal(get_sprites);
    lemma_sprite_extends(s, t);
    let s1 = get_sprite(s).1;
    lemma_sprite_extends(s1, t);
    let s2 = get_sprite(s1).1;
    lemma_sprite_extends(s2, t);
    let s3 = get_sprite(s2).1;
    lemma_sprite_extends(s3, t);
    let s4 = get_sprite(s3).1;
    lemma_sprite_extends(s4, t);
    let s5 = get_sprite(s4).1;
    lemma_sprite_extends(s5, t);
    let s6 = get_sprite(s5).1;
    lemma_sprite_extends(s6, t);
    let s7 = get_sprite(s6).1;
    lemma_sprite_extends(s7, t);
    let s8 = get_sprite(s7).1;
    lemma_sprite_extends(s8, t);
    let s9 = get_sprite(s8).1;
    lemma_sprite_extends(s9, t);
    let s10 = get_sprite(s9).1;
}

fn save_sprites(w: &mut Writer, v: &[Sprite; 10])
    ensures
        forall|rest: Seq<u8>| #[trigger] (final(w)@ + rest) == old(w)@ + put_sprites(*v, rest),
{
    reveal(put_sprites);
    save_sprite(w, &v[0]);
    save_sprite(w, &v[1]);
    save_sprite(w, &v[2]);
    save_sprite(w, &v[3]);
    save_sprite(w, &v[4]);
    save_sprite(w, &v[5]);
    save_sprite(w, &v[6]);
    save_sprite(w, &v[7]);
    save_sprite(w, &v[8]);
    save_sprite(w, &v[9]);
}

fn load_sprites(r: &mut Reader) -> (v: [Sprite; 10])
    requires
        old(r).wf(),
        old(r).rest().len() >= SPRITES_LEN,
    ensures
        final(r).wf(),
        final(r).data@ == old(r).data@,
        (v, final(r).rest()) == get_sprites(old(r).rest()),
        final(r).rest().len() == old(r).rest().len() - SPRITES_LEN,
{
    reveal(get_sprites);
    let p0: Sprite = load_sprite(r);
    let p1: Sprite = load_sprite(r);
    let p2: Sprite = load_sprite(r);
    let p3: Sprite = load_sprite(r);
    let p4: Sprite = load_sprite(r);
    let p5: Sprite = load_sprite(r);
    let p6: Sprite = load_sprite(r);
    let p7: Sprite = load_sprite(r);
    let p8: Sprite = load_sprite(r);
    let p9: Sprite = load_sprite(r);
    let v: [Sprite; 10] = [p0, p1, p2, p3, p4, p5, p6, p7, p8, p9];
    assert(v =~= get_sprites(old(r).rest()).0);
    v
}

/// The PPU; the colour frame is drawn anew: 23253 bytes.
pub const PPU_LEN: usize = 23253;

#[verifier::opaque]
pub open spec fn put_ppu(v: Ppu, rest: Seq<u8>) -> Seq<u8> {
    let s12 = put_raw(v.obj_pal@, rest);
    let s11 = put_raw(v.bg_pal@, s12);
    let s10 = put_bool(v.cgb, s11);
    let s9 = put_raw(v.frame_buffer@, s10);
    let s8 = put_u64(v.vblank_interrupts, s9);
    let s7 = put_u32(v.line_sprite_count as u32, s8);
    let s6 = put_sprites(v.line_sprites, s7);
    let s5 = put_bool(v.prev_coinc, s6);
    let s4 = put_u8(v.prev_mode, s5);
    let s3 = put_u32(v.mode3_cycles, s4);
    let s2 = put_u32(v.dot, s3);
    let s1 = put_u8(v.mode, s2);
    let s0 = put_u8(v.ly, s1);
    s0
}

#[verifier::opaque]
pub open spec fn get_ppu(s: Seq<u8>) -> (Ppu, Seq<u8>) {
    let (ly, s1) = get_u8(s);
    let (mode, s2) = get_u8(s1);
    let (dot, s3) = get_u32(s2);
    let (mode3_cycles, s4) = get_u32(s3);
    let (prev_mode, s5) = get_u8(s4);
    let (prev_coinc, s6) = get_bool(s5);
    let (line_sprites, s7) = get_sprites(s6);
    let (line_sprite_count, s8) = get_u32(s7);
    let (vblank_interrupts, s9) = get_u64(s8);
    let (frame_buffer, s10) = get_array::<23040>(s9);
    let (cgb, s11) = get_bool(s10);
    let (bg_pal, s12) = get_array::<64>(s11);
    let (obj_pal, s13) = get_array::<64>(s12);
    (
        Ppu {
            ly,
            mode,
            dot,
            mode3_cycles,
            prev_mode,
            prev_coinc,
            line_sprites,
            line_sprite_count: line_sprite_count as usize,
            vblank_interrupts,
            frame_buffer,
            cgb,
            bg_pal,
            obj_pal,
            rgb_buffer: filled(0),
        },
        s13,
    )
}

proof fn lemma_ppu_round_trip(v: Ppu, rest: Seq<u8>)
    requires
        v.line_sprite_count <= 0xFFFF_FFFF,
    ensures
        get_ppu(put_ppu(v, rest)) == (Ppu { rgb_buffer: filled(0), ..v }, rest),
        put_ppu(v, rest).len() == rest.len() + PPU_LEN,
{
    broadcast use group_round_trips;

    reveal(put_ppu);
    reveal(get_ppu);
    let s12 = put_raw(v.obj_pal@, rest);
    let s11 = put_raw(v.bg_pal@, s12);
    let s10 = put_bool(v.cgb, s11);
    let s9 = put_raw(v.frame_buffer@, s10);
    let s8 = put_u64(v.vblank_interrupts, s9);
    let s7 = put_u32(v.line_sprite_count as u32, s8);
    let s6 = put_sprites(v.line_sprites, s7);
    lemma_sprites_round_trip(v.line_sprites, s7);
    let s5 = put_bool(v.prev_coinc, s6);
    let s4 = put_u8(v.prev_mode, s5);
    let s3 = put_u32(v.mode3_cycles, s4);
    let s2 = put_u32(v.dot, s3);
    let s1 = put_u8(v.mode, s2);
    let s0 = put_u8(v.ly, s1);
}

proof fn lemma_ppu_extends(s: Seq<u8>, t: Seq<u8>)
    requires
        s.len() >= PPU_LEN,
    ensures
        get_ppu(s + t) == (get_ppu(s).0, get_ppu(s).1 + t),
        get_ppu(s).1.len() == s.len() - PPU_LEN,
{
    broadcast use group_extends;

    reveal(get_ppu);
    let s1 = get_u8(s).1;
    let s2 = get_u8(s1).1;
    let s3 = get_u32(s2).1;
    let s4 = get_u32(s3).1;
    let s5 = get_u8(s4).1;
    let s6 = get_bool(s5).1;
    lemma_sprites_extends(s6, t);
    let s7 = get_sprites(s6).1;
    let s8 = get_u32(s7).1;
    let s9 = get_u64(s8).1;
    let s10 = get_array::<23040>(s9).1;
    let s11 = get_bool(s10).1;
    let s12 = get_array::<64>(s11).1;
    let s13 = get_array::<64>(s12).1;
}

fn save_ppu(w: &mut Writer, v: &Ppu)
    ensures
        forall|rest: Seq<u8>|
            #[trigger] (final(w)@ + rest) == old(w)@ + put_ppu(*v, rest),
{
    reveal(put_ppu);
    w.u8(v.ly);
    w.u8(v.mode);
    w.u32(v.dot);
    w.u32(v.mode3_cycles);
    w.u8(v.prev_mode);
    w.bool(v.prev_coinc);
    save_sprites(w, &v.line_sprites);
    w.u32(v.line_sprite_count as u32);
    w.u64(v.vblank_interrupts);
    w.raw(v.frame_buffer.as_slice());
    w.bool(v.cgb);
    w.raw(v.bg_pal.as_slice());
    w.raw(v.obj_pal.as_slice());
}

fn load_ppu(r: &mut Reader) -> (v: Ppu)
    requires
        old(r).wf(),
        old(r).rest().len() >= PPU_LEN,
    ensures
        final(r).wf(),
        final(r).data@ == old(r).data@,
        (v, final(r).rest()) == get_ppu(old(r).rest()),
        final(r).rest().len() == old(r).rest().len() - PPU_LEN,
{
    reveal(get_ppu);
    let ly: u8 = r.next_u8();
    let mode: u8 = r.next_u8();
    let dot: u32 = r.next_u32();
    let mode3_cycles: u32 = r.next_u32();
    let prev_mode: u8 = r.next_u8();
    let prev_coinc: bool = r.next_bool();
    let line_sprites: [Sprite; 10] = load_sprites(r);
    let line_sprite_count: u32 = r.next_u32();
    let vblank_interrupts: u64 = r.next_u64();
    let frame_buffer: [u8; 23040] = r.next_array();
    let cgb: bool = r.next_bool();
    let bg_pal: [u8; 64] = r.next_array();
    let obj_pal: [u8; 64] = r.next_array();
    Ppu {
        ly,
        mode,
        dot,
        mode3_cycles,
        prev_mode,
        prev_coinc,
        line_sprites,
        line_sprite_count: line_sprite_count as usize,
        vblank_interrupts,
        frame_buffer,
        cgb,
        bg_pal,
        obj_pal,
        rgb_buffer: [0; FRAME_RGB],
    }
}

/// The timer: 20 bytes.
pub const TIMER_LEN: usize = 20;

#[verifier::opaque]
pub open spec fn put_timer(v: Timer, rest: Seq<u8>) -> Seq<u8> {
    let s4 = put_bool(v.reload_pending, rest);
    let s3 = put_u8(v.reload_value, s4);
    let s2 = put_u64(v.reload_deadline, s3);
    let s1 = put_u64(v.abs_cycles, s2);
    let s0 = put_u16(v.div_counter, s1);
    s0
}

#[verifier::opaque]
pub open spec fn get_timer(s: Seq<u8>) -> (Timer, Seq<u8>) {
    let (div_counter, s1) = get_u16(s);
    let (abs_cycles, s2) = get_u64(s1);
    let (reload_deadline, s3) = get_u64(s2);
    let (reload_value, s4) = get_u8(s3);
    let (reload_pending, s5) = get_bool(s4);
    (
        Timer {
            div_counter,
            abs_cycles,
            reload_deadline,
            reload_value,
            reload_pending,
            reloaded_at: u64::MAX,
        },
        s5,
    )
}

proof fn lemma_timer_round_trip(v: Timer, rest: Seq<u8>)
    ensures
        get_timer(put_timer(v, rest)) == (Timer { reloaded_at: u64::MAX, ..v }, rest),
        put_timer(v, rest).len() == rest.len() + TIMER_LEN,
{
    broadcast use group_round_trips;

    reveal(put_timer);
    reveal(get_timer);
    let s4 = put_bool(v.reload_pending, rest);
    let s3 = put_u8(v.reload_value, s4);
    let s2 = put_u64(v.reload_deadline, s3);
    let s1 = put_u64(v.abs_cycles, s2);
    let s0 = put_u16(v.div_counter, s1);
}

proof fn lemma_timer_extends(s: Seq<u8>, t: Seq<u8>)
    requires
        s.len() >= TIMER_LEN,
    ensures
        get_timer(s + t) == (get_timer(s).0, get_timer(s).1 + t),
        get_timer(s).1.len() == s.len() - TIMER_LEN,
{
    broadcast use group_extends;

    reveal(get_timer);
    let s1 = get_u16(s).1;
    let s2 = get_u64(s1).1;
    let s3 = get_u64(s2).1;
    let s4 = get_u8(s3).1;
    let s5 = get_bool(s4).1;
}

fn save_timer(w: &mut Writer, v: &Timer)
    ensures
        forall|rest: Seq<u8>|
            #[trigger] (final(w)@ + rest) == old(w)@ + put_timer(*v, rest),
{
    reveal(put_timer);
    w.u16(v.div_counter);
    w.u64(v.abs_cycles);
    w.u64(v.reload_deadline);
    w.u8(v.reload_value);
    w.bool(v.reload_pending);
}

fn load_timer(r: &mut Reader) -> (v: Timer)
    requires
        old(r).wf(),
        old(r).rest().len() >= TIMER_LEN,
    ensures
        final(r).wf(),
        final(r).data@ == old(r).data@,
        (v, final(r).rest()) == get_timer(old(r).rest()),
        final(r).rest().len() == old(r).rest().len() - TIMER_LEN,
{
    reveal(get_timer);
    let div_counter: u16 = r.next_u16();
    let abs_cycles: u64 = r.next_u64();
    let reload_deadline: u64 = r.next_u64();
    let reload_value: u8 = r.next_u8();
    let reload_pending: bool = r.next_bool();
    Timer {
        div_counter,
        abs_cycles,
        reload_deadline,
        reload_value,
        reload_pending,
        reloaded_at: u64::MAX,
    }
}

/// An envelope: 4 bytes.
pub const ENVELOPE_LEN: usize = 4;

#[verifier::opaque]
pub open spec fn put_envelope(v: Envelope, rest: Seq<u8>) -> Seq<u8> {
    let s3 = put_u8(v.timer, rest);
    let s2 = put_u8(v.period, s3);
    let s1 = put_bool(v.up, s2);
    let s0 = put_u8(v.volume, s1);
    s0
}

#[verifier::opaque]
pub open spec fn get_envelope(s: Seq<u8>) -> (Envelope, Seq<u8>) {
    let (volume, s1) = get_u8(s);
    let (up, s2) = get_bool(s1);
    let (period, s3) = get_u8(s2);
    let (timer, s4) = get_u8(s3);
    (
        Envelope {
            volume,
            up,
            period,
            timer,
        },
        s4,
    )
}

proof fn lemma_envelope_round_trip(v: Envelope, rest: Seq<u8>)
    ensures
        get_envelope(put_envelope(v, rest)) == (v, rest),
        put_envelope(v, rest).len() == rest.len() + ENVELOPE_LEN,
{
    broadcast use group_round_trips;

    reveal(put_envelope);
    reveal(get_envelope);
    let s3 = put_u8(v.timer, rest);
    let s2 = put_u8(v.period, s3);
    let s1 = put_bool(v.up, s2);
    let s0 = put_u8(v.volume, s1);
}

proof fn lemma_envelope_extends(s: Seq<u8>, t: Seq<u8>)
    requires
        s.len() >= ENVELOPE_LEN,
    ensures
        get_envelope(s + t) == (get_envelope(s).0, get_envelope(s).1 + t),
        get_envelope(s).1.len() == s.len() - ENVELOPE_LEN,
{
    broadcast use group_extends;

    reveal(get_envelope);
    let s1 = get_u8(s).1;
    let s2 = get_bool(s1).1;
    let s3 = get_u8(s2).1;
    let s4 = get_u8(s3).1;
}

fn save_envelope(w: &mut Writer, v: &Envelope)
    ensures
        forall|rest: Seq<u8>|
            #[trigger] (final(w)@ + rest) == old(w)@ + put_envelope(*v, rest),
{
    reveal(put_envelope);
    w.u8(v.volume);
    w.bool(v.up);
    w.u8(v.period);
    w.u8(v.timer);
}

fn load_envelope(r: &mut Reader) -> (v: Envelope)
    requires
        old(r).wf(),
        old(r).rest().len() >= ENVELOPE_LEN,
    ensures
        final(r).wf(),
        final(r).data@ == old(r).data@,
        (v, final(r).rest()) == get_envelope(old(r).rest()),
        final(r).rest().len() == old(r).rest().len() - ENVELOPE_LEN,
{
    reveal(get_envelope);
    let volume: u8 = r.next_u8();
    let up: bool = r.next_bool();
    let period: u8 = r.next_u8();
    let timer: u8 = r.next_u8();
    Envelope {
        volume,
        up,
        period,
        timer,
    }
}

/// A square channel: 21 bytes.
pub const SQUARE_LEN: usize = 21;

#[verifier::opaque]
pub open spec fn put_square(v: Square, rest: Seq<u8>) -> Seq<u8> {
    let s12 = put_bool(v.on, rest);
    let s11 = put_bool(v.sweep_enabled, s12);
    let s10 = put_u8(v.sweep_timer, s11);
    let s9 = put_u8(v.sweep_shift, s10);
    let s8 = put_bool(v.sweep_negate, s9);
    let s7 = put_u8(v.sweep_period, s8);
    let s6 = put_envelope(v.env, s7);
    let s5 = put_bool(v.length_enable, s6);
    let s4 = put_u16(v.length, s5);
    let s3 = put_u8(v.phase, s4);
    let s2 = put_u16(v.freq, s3);
    let s1 = put_u32(v.freq_timer, s2);
    let s0 = put_u8(v.duty, s1);
    s0
}

#[verifier::opaque]
pub open spec fn get_square(s: Seq<u8>) -> (Square, Seq<u8>) {
    let (duty, s1) = get_u8(s);
    let (freq_timer, s2) = get_u32(s1);
    let (freq, s3) = get_u16(s2);
    let (phase, s4) = get_u8(s3);
    let (length, s5) = get_u16(s4);
    let (length_enable, s6) = get_bool(s5);
    let (env, s7) = get_envelope(s6);
    let (sweep_period, s8) = get_u8(s7);
    let (sweep_negate, s9) = get_bool(s8);
    let (sweep_shift, s10) = get_u8(s9);
    let (sweep_timer, s11) = get_u8(s10);
    let (sweep_enabled, s12) = get_bool(s11);
    let (on, s13) = get_bool(s12);
    (
        Square {
            duty,
            freq_timer,
            freq,
            phase,
            length,
            length_enable,
            env,
            sweep_period,
            sweep_negate,
            sweep_shift,
            sweep_timer,
            sweep_enabled,
            on,
        },
        s13,
    )
}

proof fn lemma_square_round_trip(v: Square, rest: Seq<u8>)
    ensures
        get_square(put_square(v, rest)) == (v, rest),
        put_square(v, rest).len() == rest.len() + SQUARE_LEN,
{
    broadcast use group_round_trips;

    reveal(put_square);
    reveal(get_square);
    let s12 = put_bool(v.on, rest);
    let s11 = put_bool(v.sweep_enabled, s12);
    let s10 = put_u8(v.sweep_timer, s11);
    let s9 = put_u8(v.sweep_shift, s10);
    let s8 = put_bool(v.sweep_negate, s9);
    let s7 = put_u8(v.sweep_period, s8);
    let s6 = put_envelope(v.env, s7);
    lemma_envelope_round_trip(v.env, s7);
    let s5 = put_bool(v.length_enable, s6);
    let s4 = put_u16(v.length, s5);
    let s3 = put_u8(v.phase, s4);
    let s2 = put_u16(v.freq, s3);
    let s1 = put_u32(v.freq_timer, s2);
    let s0 = put_u8(v.duty, s1);
}

proof fn lemma_square_extends(s: Seq<u8>, t: Seq<u8>)
    requires
        s.len() >= SQUARE_LEN,
    ensures
        get_square(s + t) == (get_square(s).0, get_square(s).1 + t),
        get_square(s).1.len() == s.len() - SQUARE_LEN,
{
    broadcast use group_extends;

    reveal(get_square);
    let s1 = get_u8(s).1;
    let s2 = get_u32(s1).1;
    let s3 = get_u16(s2).1;
    let s4 = get_u8(s3).1;
    let s5 = get_u16(s4).1;
    let s6 = get_bool(s5).1;
    lemma_envelope_extends(s6, t);
    let s7 = get_envelope(s6).1;
    let s8 = get_u8(s7).1;
    let s9 = get_bool(s8).1;
    let s10 = get_u8(s9).1;
    let s11 = get_u8(s10).1;
    let s12 = get_bool(s11).1;
    let s13 = get_bool(s12).1;
}

fn save_square(w: &mut Writer, v: &Square)
    ensures
        forall|rest: Seq<u8>|
            #[trigger] (final(w)@ + rest) == old(w)@ + put_square(*v, rest),
{
    reveal(put_square);
    w.u8(v.duty);
    w.u32(v.freq_timer);
    w.u16(v.freq);
    w.u8(v.phase);
    w.u16(v.length);
    w.bool(v.length_enable);
    save_envelope(w, &v.env);
    w.u8(v.sweep_period);
    w.bool(v.sweep_negate);
    w.u8(v.sweep_shift);
    w.u8(v.sweep_timer);
    w.bool(v.sweep_enabled);
    w.bool(v.on);
}

fn load_square(r: &mut Reader) -> (v: Square)
    requires
        old(r).wf(),
        old(r).rest().len() >= SQUARE_LEN,
    ensures
        final(r).wf(),
        final(r).data@ == old(r).data@,
        (v, final(r).rest()) == get_square(old(r).rest()),
        final(r).rest().len() == old(r).rest().len() - SQUARE_LEN,
{
    reveal(get_square);
    let duty: u8 = r.next_u8();
    let freq_timer: u32 = r.next_u32();
    let freq: u16 = r.next_u16();
    let phase: u8 = r.next_u8();
    let length: u16 = r.next_u16();
    let length_enable: bool = r.next_bool();
    let env: Envelope = load_envelope(r);
    let sweep_period: u8 = r.next_u8();
    let sweep_negate: bool = r.next_bool();
    let sweep_shift: u8 = r.next_u8();
    let sweep_timer: u8 = r.next_u8();
    let sweep_enabled: bool = r.next_bool();
    let on: bool = r.next_bool();
    Square {
        duty,
        freq_timer,
        freq,
        phase,
        length,
        length_enable,
        env,
        sweep_period,
        sweep_negate,
        sweep_shift,
        sweep_timer,
        sweep_enabled,
        on,
    }
}

/// The wave channel: 13 bytes.
pub const WAVE_LEN: usize = 13;

#[verifier::opaque]
pub open spec fn put_wave(v: Wave, rest: Seq<u8>) -> Seq<u8> {
    let s7 = put_bool(v.on, rest);
    let s6 = put_bool(v.dac_on, s7);
    let s5 = put_u8(v.volume_shift, s6);
    let s4 = put_bool(v.length_enable, s5);
    let s3 = put_u16(v.length, s4);
    let s2 = put_u8(v.phase, s3);
    let s1 = put_u16(v.freq, s2);
    let s0 = put_u32(v.freq_timer, s1);
    s0
}

#[verifier::opaque]
pub open spec fn get_wave(s: Seq<u8>) -> (Wave, Seq<u8>) {
    let (freq_timer, s1) = get_u32(s);
    let (freq, s2) = get_u16(s1);
    let (phase, s3) = get_u8(s2);
    let (length, s4) = get_u16(s3);
    let (length_enable, s5) = get_bool(s4);
    let (volume_shift, s6) = get_u8(s5);
    let (dac_on, s7) = get_bool(s6);
    let (on, s8) = get_bool(s7);
    (
        Wave {
            freq_timer,
            freq,
            phase,
            length,
            length_enable,
            volume_shift,
            dac_on,
            on,
        },
        s8,
    )
}

proof fn lemma_wave_round_trip(v: Wave, rest: Seq<u8>)
    ensures
        get_wave(put_wave(v, rest)) == (v, rest),
        put_wave(v, rest).len() == rest.len() + WAVE_LEN,
{
    broadcast use group_round_trips;

    reveal(put_wave);
    reveal(get_wave);
    let s7 = put_bool(v.on, rest);
    let s6 = put_bool(v.dac_on, s7);
    let s5 = put_u8(v.volume_shift, s6);
    let s4 = put_bool(v.length_enable, s5);
    let s3 = put_u16(v.length, s4);
    let s2 = put_u8(v.phase, s3);
    let s1 = put_u16(v.freq, s2);
    let s0 = put_u32(v.freq_timer, s1);
}

proof fn lemma_wave_extends(s: Seq<u8>, t: Seq<u8>)
    requires
        s.len() >= WAVE_LEN,
    ensures
        get_wave(s + t) == (get_wave(s).0, get_wave(s).1 + t),
        get_wave(s).1.len() == s.len() - WAVE_LEN,
{
    broadcast use group_extends;

    reveal(get_wave);
    let s1 = get_u32(s).1;
    let s2 = get_u16(s1).1;
    let s3 = get_u8(s2).1;
    let s4 = get_u16(s3).1;
    let s5 = get_bool(s4).1;
    let s6 = get_u8(s5).1;
    let s7 = get_bool(s6).1;
    let s8 = get_bool(s7).1;
}

fn save_wave(w: &mut Writer, v: &Wave)
    ensures
        forall|rest: Seq<u8>|
            #[trigger] (final(w)@ + rest) == old(w)@ + put_wave(*v, rest),
{
    reveal(put_wave);
    w.u32(v.freq_timer);
    w.u16(v.freq);
    w.u8(v.phase);
    w.u16(v.length);
    w.bool(v.length_enable);
    w.u8(v.volume_shift);
    w.bool(v.dac_on);
    w.bool(v.on);
}

fn load_wave(r: &mut Reader) -> (v: Wave)
    requires
        old(r).wf(),
        old(r).rest().len() >= WAVE_LEN,
    ensures
        final(r).wf(),
        final(r).data@ == old(r).data@,
        (v, final(r).rest()) == get_wave(old(r).rest()),
        final(r).rest().len() == old(r).rest().len() - WAVE_LEN,
{
    reveal(get_wave);
    let freq_timer: u32 = r.next_u32();
    let freq: u16 = r.next_u16();
    let phase: u8 = r.next_u8();
    let length: u16 = r.next_u16();
    let length_enable: bool = r.next_bool();
    let volume_shift: u8 = r.next_u8();
    let dac_on: bool = r.next_bool();
    let on: bool = r.next_bool();
    Wave {
        freq_timer,
        freq,
        phase,
        length,
        length_enable,
        volume_shift,
        dac_on,
        on,
    }
}

/// The noise channel: 17 bytes.
pub const NOISE_LEN: usize = 17;

#[verifier::opaque]
pub open spec fn put_noise(v: Noise, rest: Seq<u8>) -> Seq<u8> {
    let s8 = put_bool(v.on, rest);
    let s7 = put_envelope(v.env, s8);
    let s6 = put_bool(v.length_enable, s7);
    let s5 = put_u16(v.length, s6);
    let s4 = put_u16(v.lfsr, s5);
    let s3 = put_bool(v.width, s4);
    let s2 = put_u8(v.shift, s3);
    let s1 = put_u8(v.divisor, s2);
    let s0 = put_u32(v.freq_timer, s1);
    s0
}

#[verifier::opaque]
pub open spec fn get_noise(s: Seq<u8>) -> (Noise, Seq<u8>) {
    let (freq_timer, s1) = get_u32(s);
    let (divisor, s2) = get_u8(s1);
    let (shift, s3) = get_u8(s2);
    let (width, s4) = get_bool(s3);
    let (lfsr, s5) = get_u16(s4);
    let (length, s6) = get_u16(s5);
    let (length_enable, s7) = get_bool(s6);
    let (env, s8) = get_envelope(s7);
    let (on, s9) = get_bool(s8);
    (
        Noise {
            freq_timer,
            divisor,
            shift,
            width,
            lfsr,
            length,
            length_enable,
            env,
            on,
        },
        s9,
    )
}

proof fn lemma_noise_round_trip(v: Noise, rest: Seq<u8>)
    ensures
        get_noise(put_noise(v, rest)) == (v, rest),
        put_noise(v, rest).len() == rest.len() + NOISE_LEN,
{
    broadcast use group_round_trips;

    reveal(put_noise);
    reveal(get_noise);
    let s8 = put_bool(v.on, rest);
    let s7 = put_envelope(v.env, s8);
    lemma_envelope_round_trip(v.env, s8);
    let s6 = put_bool(v.length_enable, s7);
    let s5 = put_u16(v.length, s6);
    let s4 = put_u16(v.lfsr, s5);
    let s3 = put_bool(v.width, s4);
    let s2 = put_u8(v.shift, s3);
    let s1 = put_u8(v.divisor, s2);
    let s0 = put_u32(v.freq_timer, s1);
}

proof fn lemma_noise_extends(s: Seq<u8>, t: Seq<u8>)
    requires
        s.len() >= NOISE_LEN,
    ensures
        get_noise(s + t) == (get_noise(s).0, get_noise(s).1 + t),
        get_noise(s).1.len() == s.len() - NOISE_LEN,
{
    broadcast use group_extends;

    reveal(get_noise);
    let s1 = get_u32(s).1;
    let s2 = get_u8(s1).1;
    let s3 = get_u8(s2).1;
    let s4 = get_bool(s3).1;
    let s5 = get_u16(s4).1;
    let s6 = get_u16(s5).1;
    let s7 = get_bool(s6).1;
    lemma_envelope_extends(s7, t);
    let s8 = get_envelope(s7).1;
    let s9 = get_bool(s8).1;
}

fn save_noise(w: &mut Writer, v: &Noise)
    ensures
        forall|rest: Seq<u8>|
            #[trigger] (final(w)@ + rest) == old(w)@ + put_noise(*v, rest),
{
    reveal(put_noise);
    w.u32(v.freq_timer);
    w.u8(v.divisor);
    w.u8(v.shift);
    w.bool(v.width);
    w.u16(v.lfsr);
    w.u16(v.length);
    w.bool(v.length_enable);
    save_envelope(w, &v.env);
    w.bool(v.on);
}

fn load_noise(r: &mut Reader) -> (v: Noise)
    requires
        old(r).wf(),
        old(r).rest().len() >= NOISE_LEN,
    ensures
        final(r).wf(),
        final(r).data@ == old(r).data@,
        (v, final(r).rest()) == get_noise(old(r).rest()),
        final(r).rest().len() == old(r).rest().len() - NOISE_LEN,
{
    reveal(get_noise);
    let freq_timer: u32 = r.next_u32();
    let divisor: u8 = r.next_u8();
    let shift: u8 = r.next_u8();
    let width: bool = r.next_bool();
    let lfsr: u16 = r.next_u16();
    let length: u16 = r.next_u16();
    let length_enable: bool = r.next_bool();
    let env: Envelope = load_envelope(r);
    let on: bool = r.next_bool();
    Noise {
        freq_timer,
        divisor,
        shift,
        width,
        lfsr,
        length,
        length_enable,
        env,
        on,
    }
}

/// The APU; pending audio is dropped: 85 bytes.
pub const APU_LEN: usize = 85;

#[verifier::opaque]
pub open spec fn put_apu(v: ApuState, rest: Seq<u8>) -> Seq<u8> {
    let s7 = put_noise(v.ch4, rest);
    let s6 = put_wave(v.ch3, s7);
    let s5 = put_square(v.ch2, s6);
    let s4 = put_square(v.ch1, s5);
    let s3 = put_u32(v.frame_step_n, s4);
    let s2 = put_u32(v.frame_accum, s3);
    let s1 = put_u32(v.cycle_accum, s2);
    let s0 = put_bool(v.power, s1);
    s0
}

#[verifier::opaque]
pub open spec fn get_apu(s: Seq<u8>) -> (ApuState, Seq<u8>) {
    let (power, s1) = get_bool(s);
    let (cycle_accum, s2) = get_u32(s1);
    let (frame_accum, s3) = get_u32(s2);
    let (frame_step_n, s4) = get_u32(s3);
    let (ch1, s5) = get_square(s4);
    let (ch2, s6) = get_square(s5);
    let (ch3, s7) = get_wave(s6);
    let (ch4, s8) = get_noise(s7);
    (
        ApuState {
            power,
            cycle_accum,
            frame_accum,
            frame_step_n,
            ch1,
            ch2,
            ch3,
            ch4,
            samples: Seq::empty(),
            produced: 0,
        },
        s8,
    )
}

proof fn lemma_apu_round_trip(v: ApuState, rest: Seq<u8>)
    ensures
        get_apu(put_apu(v, rest)) == (ApuState { samples: Seq::empty(), produced: 0, ..v }, rest),
        put_apu(v, rest).len() == rest.len() + APU_LEN,
{
    broadcast use group_round_trips;

    reveal(put_apu);
    reveal(get_apu);
    let s7 = put_noise(v.ch4, rest);
    lemma_noise_round_trip(v.ch4, rest);
    let s6 = put_wave(v.ch3, s7);
    lemma_wave_round_trip(v.ch3, s7);
    let s5 = put_square(v.ch2, s6);
    lemma_square_round_trip(v.ch2, s6);
    let s4 = put_square(v.ch1, s5);
    lemma_square_round_trip(v.ch1, s5);
    let s3 = put_u32(v.frame_step_n, s4);
    let s2 = put_u32(v.frame_accum, s3);
    let s1 = put_u32(v.cycle_accum, s2);
    let s0 = put_bool(v.power, s1);
}

proof fn lemma_apu_extends(s: Seq<u8>, t: Seq<u8>)
    requires
        s.len() >= APU_LEN,
    ensures
        get_apu(s + t) == (get_apu(s).0, get_apu(s).1 + t),
        get_apu(s).1.len() == s.len() - APU_LEN,
{
    broadcast use group_extends;

    reveal(get_apu);
    let s1 = get_bool(s).1;
    let s2 = get_u32(s1).1;
    let s3 = get_u32(s2).1;
    let s4 = get_u32(s3).1;
    lemma_square_extends(s4, t);
    let s5 = get_square(s4).1;
    lemma_square_extends(s5, t);
    let s6 = get_square(s5).1;
    lemma_wave_extends(s6, t);
    let s7 = get_wave(s6).1;
    lemma_noise_extends(s7, t);
    let s8 = get_noise(s7).1;
}

fn save_apu(w: &mut Writer, v: &Apu)
    ensures
        forall|rest: Seq<u8>|
            #[trigger] (final(w)@ + rest) == old(w)@ + put_apu(v@, rest),
{
    reveal(put_apu);
    w.bool(v.power);
    w.u32(v.cycle_accum);
    w.u32(v.frame_accum);
    w.u32(v.frame_step_n);
    save_square(w, &v.ch1);
    save_square(w, &v.ch2);
    save_wave(w, &v.ch3);
    save_noise(w, &v.ch4);
}

fn load_apu(r: &mut Reader) -> (v: Apu)
    requires
        old(r).wf(),
        old(r).rest().len() >= APU_LEN,
    ensures
        final(r).wf(),
        final(r).data@ == old(r).data@,
        (v@, final(r).rest()) == get_apu(old(r).rest()),
        final(r).rest().len() == old(r).rest().len() - APU_LEN,
{
    reveal(get_apu);
    let power: bool = r.next_bool();
    let cycle_accum: u32 = r.next_u32();
    let frame_accum: u32 = r.next_u32();
    let frame_step_n: u32 = r.next_u32();
    let ch1: Square = load_square(r);
    let ch2: Square = load_square(r);
    let ch3: Wave = load_wave(r);
    let ch4: Noise = load_noise(r);
    Apu {
        power,
        cycle_accum,
        frame_accum,
        frame_step_n,
        ch1,
        ch2,
        ch3,
        ch4,
        buffer: AudioBuffer::new(),
        produced: 0,
    }
}

/// The VRAM DMA: 13 bytes.
pub const HDMA_LEN: usize = 13;

#[verifier::opaque]
pub open spec fn put_hdma(v: Hdma, rest: Seq<u8>) -> Seq<u8> {
    let s5 = put_bool(v.done, rest);
    let s4 = put_u32(v.dst as u32, s5);
    let s3 = put_u32(v.src as u32, s4);
    let s2 = put_u16(v.len, s3);
    let s1 = put_bool(v.hblank, s2);
    let s0 = put_bool(v.active, s1);
    s0
}

#[verifier::opaque]
pub open spec fn get_hdma(s: Seq<u8>) -> (Hdma, Seq<u8>) {
    let (active, s1) = get_bool(s);
    let (hblank, s2) = get_bool(s1);
    let (len, s3) = get_u16(s2);
    let (src, s4) = get_u32(s3);
    let (dst, s5) = get_u32(s4);
    let (done, s6) = get_bool(s5);
    (
        Hdma {
            active,
            hblank,
            len,
            src: src as usize,
            dst: dst as usize,
            done,
        },
        s6,
    )
}

proof fn lemma_hdma_round_trip(v: Hdma, rest: Seq<u8>)
    requires
        v.src <= 0xFFFF_FFFF,
        v.dst <= 0xFFFF_FFFF,
    ensures
        get_hdma(put_hdma(v, rest)) == (v, rest),
        put_hdma(v, rest).len() == rest.len() + HDMA_LEN,
{
    broadcast use group_round_trips;

    reveal(put_hdma);
    reveal(get_hdma);
    let s5 = put_bool(v.done, rest);
    let s4 = put_u32(v.dst as u32, s5);
    let s3 = put_u32(v.src as u32, s4);
    let s2 = put_u16(v.len, s3);
    let s1 = put_bool(v.hblank, s2);
    let s0 = put_bool(v.active, s1);
}

proof fn lemma_hdma_extends(s: Seq<u8>, t: Seq<u8>)
    requires
        s.len() >= HDMA_LEN,
    ensures
        get_hdma(s + t) == (get_hdma(s).0, get_hdma(s).1 + t),
        get_hdma(s).1.len() == s.len() - HDMA_LEN,
{
    broadcast use group_extends;

    reveal(get_hdma);
    let s1 = get_bool(s).1;
    let s2 = get_bool(s1).1;
    let s3 = get_u16(s2).1;
    let s4 = get_u32(s3).1;
    let s5 = get_u32(s4).1;
    let s6 = get_bool(s5).1;
}

fn save_hdma(w: &mut Writer, v: &Hdma)
    ensures
        forall|rest: Seq<u8>|
            #[trigger] (final(w)@ + rest) == old(w)@ + put_hdma(*v, rest),
{
    reveal(put_hdma);
    w.bool(v.active);
    w.bool(v.hblank);
    w.u16(v.len);
    w.u32(v.src as u32);
    w.u32(v.dst as u32);
    w.bool(v.done);
}

fn load_hdma(r: &mut Reader) -> (v: Hdma)
    requires
        old(r).wf(),
        old(r).rest().len() >= HDMA_LEN,
    ensures
        final(r).wf(),
        final(r).data@ == old(r).data@,
        (v, final(r).rest()) == get_hdma(old(r).rest()),
        final(r).rest().len() == old(r).rest().len() - HDMA_LEN,
{
    reveal(get_hdma);
    let active: bool = r.next_bool();
    let hblank: bool = r.next_bool();
    let len: u16 = r.next_u16();
    let src: u32 = r.next_u32();
    let dst: u32 = r.next_u32();
    let done: bool = r.next_bool();
    Hdma {
        active,
        hblank,
        len,
        src: src as usize,
        dst: dst as usize,
        done,
    }
}

/// A cartridge's bank controller and clock.
#[derive(Clone, Copy)]
pub struct Banks {
    pub num_rom_banks: usize,
    pub num_ram_banks: usize,
    pub rom_bank: usize,
    pub ram_bank: usize,
    pub bank_mode: bool,
    pub ram_enabled: bool,
    pub has_battery: bool,
    pub has_rtc: bool,
    pub rtc_selected: bool,
    pub rtc_register: u8,
    pub rtc: [u8; 5],
    pub rtc_latched: [u8; 5],
    pub rtc_latch: u8,
    pub rtc_cycles: u32,
    pub sram_dirty: bool,
}

/// The bus's own memory and switches.
#[derive(Clone, Copy)]
pub struct Memory {
    pub wram: [u8; 0x8000],
    pub vram: [u8; 0x4000],
    pub oam: [u8; 0xA0],
    pub io: [u8; 0x80],
    pub hram: [u8; 0x80],
    pub ie: u8,
    pub joypad: u8,
    pub is_cgb: bool,
    pub double_speed: bool,
    pub dev_accum: u32,
}

/// The transfers under way on a bus.
#[derive(Clone, Copy)]
pub struct Transfers {
    pub dma_source: u16,
    pub dma_remaining: u32,
    pub serial_remaining: u32,
    pub hdma: Hdma,
}

/// The controller of a cartridge: 38 bytes.
pub const BANKS_LEN: usize = 38;

#[verifier::opaque]
pub open spec fn put_banks(v: Banks, rest: Seq<u8>) -> Seq<u8> {
    let s14 = put_bool(v.sram_dirty, rest);
    let s13 = put_u32(v.rtc_cycles, s14);
    let s12 = put_u8(v.rtc_latch, s13);
    let s11 = put_raw(v.rtc_latched@, s12);
    let s10 = put_raw(v.rtc@, s11);
    let s9 = put_u8(v.rtc_register, s10);
    let s8 = put_bool(v.rtc_selected, s9);
    let s7 = put_bool(v.has_rtc, s8);
    let s6 = put_bool(v.has_battery, s7);
    let s5 = put_bool(v.ram_enabled, s6);
    let s4 = put_bool(v.bank_mode, s5);
    let s3 = put_u32(v.ram_bank as u32, s4);
    let s2 = put_u32(v.rom_bank as u32, s3);
    let s1 = put_u32(v.num_ram_banks as u32, s2);
    let s0 = put_u32(v.num_rom_banks as u32, s1);
    s0
}

#[verifier::opaque]
pub open spec fn get_banks(s: Seq<u8>) -> (Banks, Seq<u8>) {
    let (num_rom_banks, s1) = get_u32(s);
    let (num_ram_banks, s2) = get_u32(s1);
    let (rom_bank, s3) = get_u32(s2);
    let (ram_bank, s4) = get_u32(s3);
    let (bank_mode, s5) = get_bool(s4);
    let (ram_enabled, s6) = get_bool(s5);
    let (has_battery, s7) = get_bool(s6);
    let (has_rtc, s8) = get_bool(s7);
    let (rtc_selected, s9) = get_bool(s8);
    let (rtc_register, s10) = get_u8(s9);
    let (rtc, s11) = get_array::<5>(s10);
    let (rtc_latched, s12) = get_array::<5>(s11);
    let (rtc_latch, s13) = get_u8(s12);
    let (rtc_cycles, s14) = get_u32(s13);
    let (sram_dirty, s15) = get_bool(s14);
    (
        Banks {
            num_rom_banks: num_rom_banks as usize,
            num_ram_banks: num_ram_banks as usize,
            rom_bank: rom_bank as usize,
            ram_bank: ram_bank as usize,
            bank_mode,
            ram_enabled,
            has_battery,
            has_rtc,
            rtc_selected,
            rtc_register,
            rtc,
            rtc_latched,
            rtc_latch,
            rtc_cycles,
            sram_dirty,
        },
        s15,
    )
}

proof fn lemma_banks_round_trip(v: Banks, rest: Seq<u8>)
    requires
        v.num_rom_banks <= 0xFFFF_FFFF,
        v.num_ram_banks <= 0xFFFF_FFFF,
        v.rom_bank <= 0xFFFF_FFFF,
        v.ram_bank <= 0xFFFF_FFFF,
    ensures
        get_banks(put_banks(v, rest)) == (v, rest),
        put_banks(v, rest).len() == rest.len() + BANKS_LEN,
{
    broadcast use group_round_trips;

    reveal(put_banks);
    reveal(get_banks);
    let s14 = put_bool(v.sram_dirty, rest);
    let s13 = put_u32(v.rtc_cycles, s14);
    let s12 = put_u8(v.rtc_latch, s13);
    let s11 = put_raw(v.rtc_latched@, s12);
    let s10 = put_raw(v.rtc@, s11);
    let s9 = put_u8(v.rtc_register, s10);
    let s8 = put_bool(v.rtc_selected, s9);
    let s7 = put_bool(v.has_rtc, s8);
    let s6 = put_bool(v.has_battery, s7);
    let s5 = put_bool(v.ram_enabled, s6);
    let s4 = put_bool(v.bank_mode, s5);
    let s3 = put_u32(v.ram_bank as u32, s4);
    let s2 = put_u32(v.rom_bank as u32, s3);
    let s1 = put_u32(v.num_ram_banks as u32, s2);
    let s0 = put_u32(v.num_rom_banks as u32, s1);
}

proof fn lemma_banks_extends(s: Seq<u8>, t: Seq<u8>)
    requires
        s.len() >= BANKS_LEN,
    ensures
        get_banks(s + t) == (get_banks(s).0, get_banks(s).1 + t),
        get_banks(s).1.len() == s.len() - BANKS_LEN,
{
    broadcast use group_extends;

    reveal(get_banks);
    let s1 = get_u32(s).1;
    let s2 = get_u32(s1).1;
    let s3 = get_u32(s2).1;
    let s4 = get_u32(s3).1;
    let s5 = get_bool(s4).1;
    let s6 = get_bool(s5).1;
    let s7 = get_bool(s6).1;
    let s8 = get_bool(s7).1;
    let s9 = get_bool(s8).1;
    let s10 = get_u8(s9).1;
    let s11 = get_array::<5>(s10).1;
    let s12 = get_array::<5>(s11).1;
    let s13 = get_u8(s12).1;
    let s14 = get_u32(s13).1;
    let s15 = get_bool(s14).1;
}

fn save_banks(w: &mut Writer, v: &Banks)
    ensures
        forall|rest: Seq<u8>|
            #[trigger] (final(w)@ + rest) == old(w)@ + put_banks(*v, rest),
{
    reveal(put_banks);
    w.u32(v.num_rom_banks as u32);
    w.u32(v.num_ram_banks as u32);
    w.u32(v.rom_bank as u32);
    w.u32(v.ram_bank as u32);
    w.bool(v.bank_mode);
    w.bool(v.ram_enabled);
    w.bool(v.has_battery);
    w.bool(v.has_rtc);
    w.bool(v.rtc_selected);
    w.u8(v.rtc_register);
    w.raw(v.rtc.as_slice());
    w.raw(v.rtc_latched.as_slice());
    w.u8(v.rtc_latch);
    w.u32(v.rtc_cycles);
    w.bool(v.sram_dirty);
}

fn load_banks(r: &mut Reader) -> (v: Banks)
    requires
        old(r).wf(),
        old(r).rest().len() >= BANKS_LEN,
    ensures
        final(r).wf(),
        final(r).data@ == old(r).data@,
        (v, final(r).rest()) == get_banks(old(r).rest()),
        final(r).rest().len() == old(r).rest().len() - BANKS_LEN,
{
    reveal(get_banks);
    let num_rom_banks: u32 = r.next_u32();
    let num_ram_banks: u32 = r.next_u32();
    let rom_bank: u32 = r.next_u32();
    let ram_bank: u32 = r.next_u32();
    let bank_mode: bool = r.next_bool();
    let ram_enabled: bool = r.next_bool();
    let has_battery: bool = r.next_bool();
    let has_rtc: bool = r.next_bool();
    let rtc_selected: bool = r.next_bool();
    let rtc_register: u8 = r.next_u8();
    let rtc: [u8; 5] = r.next_array();
    let rtc_latched: [u8; 5] = r.next_array();
    let rtc_latch: u8 = r.next_u8();
    let rtc_cycles: u32 = r.next_u32();
    let sram_dirty: bool = r.next_bool();
    Banks {
        num_rom_banks: num_rom_banks as usize,
        num_ram_banks: num_ram_banks as usize,
        rom_bank: rom_bank as usize,
        ram_bank: ram_bank as usize,
        bank_mode,
        ram_enabled,
        has_battery,
        has_rtc,
        rtc_selected,
        rtc_register,
        rtc,
        rtc_latched,
        rtc_latch,
        rtc_cycles,
        sram_dirty,
    }
}

/// The bus's own memory and switches: 49576 bytes.
pub const MEMORY_LEN: usize = 49576;

#[verifier::opaque]
pub open spec fn put_memory(v: Memory, rest: Seq<u8>) -> Seq<u8> {
    let s9 = put_u32(v.dev_accum, rest);
    let s8 = put_bool(v.double_speed, s9);
    let s7 = put_bool(v.is_cgb, s8);
    let s6 = put_u8(v.joypad, s7);
    let s5 = put_u8(v.ie, s6);
    let s4 = put_raw(v.hram@, s5);
    let s3 = put_raw(v.io@, s4);
    let s2 = put_raw(v.oam@, s3);
    let s1 = put_raw(v.vram@, s2);
    let s0 = put_raw(v.wram@, s1);
    s0
}

#[verifier::opaque]
pub open spec fn get_memory(s: Seq<u8>) -> (Memory, Seq<u8>) {
    let (wram, s1) = get_array::<32768>(s);
    let (vram, s2) = get_array::<16384>(s1);
    let (oam, s3) = get_array::<160>(s2);
    let (io, s4) = get_array::<128>(s3);
    let (hram, s5) = get_array::<128>(s4);
    let (ie, s6) = get_u8(s5);
    let (joypad, s7) = get_u8(s6);
    let (is_cgb, s8) = get_bool(s7);
    let (double_speed, s9) = get_bool(s8);
    let (dev_accum, s10) = get_u32(s9);
    (
        Memory {
            wram,
            vram,
            oam,
            io,
            hram,
            ie,
            joypad,
            is_cgb,
            double_speed,
            dev_accum,
        },
        s10,
    )
}

proof fn lemma_memory_round_trip(v: Memory, rest: Seq<u8>)
    ensures
        get_memory(put_memory(v, rest)) == (v, rest),
        put_memory(v, rest).len() == rest.len() + MEMORY_LEN,
{
    broadcast use group_round_trips;

    reveal(put_memory);
    reveal(get_memory);
    let s9 = put_u32(v.dev_accum, rest);
    let s8 = put_bool(v.double_speed, s9);
    let s7 = put_bool(v.is_cgb, s8);
    let s6 = put_u8(v.joypad, s7);
    let s5 = put_u8(v.ie, s6);
    let s4 = put_raw(v.hram@, s5);
    let s3 = put_raw(v.io@, s4);
    let s2 = put_raw(v.oam@, s3);
    let s1 = put_raw(v.vram@, s2);
    let s0 = put_raw(v.wram@, s1);
}

proof fn lemma_memory_extends(s: Seq<u8>, t: Seq<u8>)
    requires
        s.len() >= MEMORY_LEN,
    ensures
        get_memory(s + t) == (get_memory(s).0, get_memory(s).1 + t),
        get_memory(s).1.len() == s.len() - MEMORY_LEN,
{
    broadcast use group_extends;

    reveal(get_memory);
    let s1 = get_array::<32768>(s).1;
    let s2 = get_array::<16384>(s1).1;
    let s3 = get_array::<160>(s2).1;
    let s4 = get_array::<128>(s3).1;
    let s5 = get_array::<128>(s4).1;
    let s6 = get_u8(s5).1;
    let s7 = get_u8(s6).1;
    let s8 = get_bool(s7).1;
    let s9 = get_bool(s8).1;
    let s10 = get_u32(s9).1;
}

fn save_memory(w: &mut Writer, v: &Memory)
    ensures
        forall|rest: Seq<u8>|
            #[trigger] (final(w)@ + rest) == old(w)@ + put_memory(*v, rest),
{
    reveal(put_memory);
    w.raw(v.wram.as_slice());
    w.raw(v.vram.as_slice());
    w.raw(v.oam.as_slice());
    w.raw(v.io.as_slice());
    w.raw(v.hram.as_slice());
    w.u8(v.ie);
    w.u8(v.joypad);
    w.bool(v.is_cgb);
    w.bool(v.double_speed);
    w.u32(v.dev_accum);
}

fn load_memory(r: &mut Reader) -> (v: Memory)
    requires
        old(r).wf(),
        old(r).rest().len() >= MEMORY_LEN,
    ensures
        final(r).wf(),
        final(r).data@ == old(r).data@,
        (v, final(r).rest()) == get_memory(old(r).rest()),
        final(r).rest().len() == old(r).rest().len() - MEMORY_LEN,
{
    reveal(get_memory);
    let wram: [u8; 32768] = r.next_array();
    let vram: [u8; 16384] = r.next_array();
    let oam: [u8; 160] = r.next_array();
    let io: [u8; 128] = r.next_array();
    let hram: [u8; 128] = r.next_array();
    let ie: u8 = r.next_u8();
    let joypad: u8 = r.next_u8();
    let is_cgb: bool = r.next_bool();
    let double_speed: bool = r.next_bool();
    let dev_accum: u32 = r.next_u32();
    Memory {
        wram,
        vram,
        oam,
        io,
        hram,
        ie,
        joypad,
        is_cgb,
        double_speed,
        dev_accum,
    }
}

/// The transfers under way: 23 bytes.
pub const TRANSFERS_LEN: usize = 23;

#[verifier::opaque]
pub open spec fn put_transfers(v: Transfers, rest: Seq<u8>) -> Seq<u8> {
    let s3 = put_hdma(v.hdma, rest);
    let s2 = put_u32(v.serial_remaining, s3);
    let s1 = put_u32(v.dma_remaining, s2);
    let s0 = put_u16(v.dma_source, s1);
    s0
}

#[verifier::opaque]
pub open spec fn get_transfers(s: Seq<u8>) -> (Transfers, Seq<u8>) {
    let (dma_source, s1) = get_u16(s);
    let (dma_remaining, s2) = get_u32(s1);
    let (serial_remaining, s3) = get_u32(s2);
    let (hdma, s4) = get_hdma(s3);
    (
        Transfers {
            dma_source,
            dma_remaining,
            serial_remaining,
            hdma,
        },
        s4,
    )
}

proof fn lemma_transfers_round_trip(v: Transfers, rest: Seq<u8>)
    requires
        v.hdma.src <= 0xFFFF_FFFF,
        v.hdma.dst <= 0xFFFF_FFFF,
    ensures
        get_transfers(put_transfers(v, rest)) == (v, rest),
        put_transfers(v, rest).len() == rest.len() + TRANSFERS_LEN,
{
    broadcast use group_round_trips;

    reveal(put_transfers);
    reveal(get_transfers);
    let s3 = put_hdma(v.hdma, rest);
    lemma_hdma_round_trip(v.hdma, rest);
    let s2 = put_u32(v.serial_remaining, s3);
    let s1 = put_u32(v.dma_remaining, s2);
    let s0 = put_u16(v.dma_source, s1);
}

proof fn lemma_transfers_extends(s: Seq<u8>, t: Seq<u8>)
    requires
        s.len() >= TRANSFERS_LEN,
    ensures
        get_transfers(s + t) == (get_transfers(s).0, get_transfers(s).1 + t),
        get_transfers(s).1.len() == s.len() - TRANSFERS_LEN,
{
    broadcast use group_extends;

    reveal(get_transfers);
    let s1 = get_u16(s).1;
    let s2 = get_u32(s1).1;
    let s3 = get_u32(s2).1;
    lemma_hdma_extends(s3, t);
    let s4 = get_hdma(s3).1;
}

fn save_transfers(w: &mut Writer, v: &Transfers)
    ensures
        forall|rest: Seq<u8>|
            #[trigger] (final(w)@ + rest) == old(w)@ + put_transfers(*v, rest),
{
    reveal(put_transfers);
    w.u16(v.dma_source);
    w.u32(v.dma_remaining);
    w.u32(v.serial_remaining);
    save_hdma(w, &v.hdma);
}

fn load_transfers(r: &mut Reader) -> (v: Transfers)
    requires
        old(r).wf(),
        old(r).rest().len() >= TRANSFERS_LEN,
    ensures
        final(r).wf(),
        final(r).data@ == old(r).data@,
        (v, final(r).rest()) == get_transfers(old(r).rest()),
        final(r).rest().len() == old(r).rest().len() - TRANSFERS_LEN,
{
    reveal(get_transfers);
    let dma_source: u16 = r.next_u16();
    let dma_remaining: u32 = r.next_u32();
    let serial_remaining: u32 = r.next_u32();
    let hdma: Hdma = load_hdma(r);
    Transfers {
        dma_source,
        dma_remaining,
        serial_remaining,
        hdma,
    }
}

/// The byte that stands for a memory bank controller.
pub open spec fn mbc_code(mbc: MbcType) -> u8 {
    match mbc {
        MbcType::RomOnly => 0,
        MbcType::Mbc1 => 1,
        MbcType::Mbc2 => 2,
        MbcType::Mbc3 => 3,
        MbcType::Mbc5 => 4,
        MbcType::Other => 5,
    }
}

/// The controller that a byte stands for, of those below 6.
pub open spec fn mbc_of(code: u8) -> MbcType {
    if code == 0 {
        MbcType::RomOnly
    } else if code == 1 {
        MbcType::Mbc1
    } else if code == 2 {
        MbcType::Mbc2
    } else if code == 3 {
        MbcType::Mbc3
    } else if code == 4 {
        MbcType::Mbc5
    } else {
        MbcType::Other
    }
}

/// Encode a cartridge's MBC type as a single byte.
fn mbc_to_u8(mbc: MbcType) -> (r: u8)
    ensures
        r == mbc_code(mbc),
{
    match mbc {
        MbcType::RomOnly => 0,
        MbcType::Mbc1 => 1,
        MbcType::Mbc2 => 2,
        MbcType::Mbc3 => 3,
        MbcType::Mbc5 => 4,
        MbcType::Other => 5,
    }
}

fn mbc_from_u8(v: u8) -> (r: Result<MbcType, String>)
    ensures
        match r {
            Ok(mbc) => v < 6 && mbc == mbc_of(v),
            Err(e) => v >= 6 && e@ == unknown_mbc(v),
        },
{
    match v {
        0 => Ok(MbcType::RomOnly),
        1 => Ok(MbcType::Mbc1),
        2 => Ok(MbcType::Mbc2),
        3 => Ok(MbcType::Mbc3),
        4 => Ok(MbcType::Mbc5),
        5 => Ok(MbcType::Other),
        _ => Err(numbered("unknown MBC discriminator ", v as u64)),
    }
}

pub open spec fn banks(c: CartState) -> Banks {
    Banks {
        num_rom_banks: c.num_rom_banks,
        num_ram_banks: c.num_ram_banks,
        rom_bank: c.rom_bank,
        ram_bank: c.ram_bank,
        bank_mode: c.bank_mode,
        ram_enabled: c.ram_enabled,
        has_battery: c.has_battery,
        has_rtc: c.has_rtc,
        rtc_selected: c.rtc_selected,
        rtc_register: c.rtc_register,
        rtc: c.rtc,
        rtc_latched: c.rtc_latched,
        rtc_latch: c.rtc_latch,
        rtc_cycles: c.rtc_cycles,
        sram_dirty: c.sram_dirty,
    }
}

pub open spec fn memory(b: BusState) -> Memory {
    Memory {
        wram: b.wram,
        vram: b.vram,
        oam: b.oam,
        io: b.io,
        hram: b.hram,
        ie: b.ie,
        joypad: b.joypad.state,
        is_cgb: b.is_cgb,
        double_speed: b.double_speed,
        dev_accum: b.dev_accum,
    }
}

pub open spec fn transfers(b: BusState) -> Transfers {
    Transfers {
        dma_source: b.dma.source,
        dma_remaining: b.dma.remaining,
        serial_remaining: b.serial.remaining,
        hdma: b.hdma,
    }
}

/// A cartridge put together from what a state holds of it.
pub open spec fn cart_from(
    title: Seq<char>,
    mbc: MbcType,
    cgb_flag: u8,
    rom: Seq<u8>,
    ram: Seq<u8>,
    k: Banks,
) -> CartState {
    CartState {
        title,
        mbc,
        cgb_flag,
        rom,
        ram,
        num_rom_banks: k.num_rom_banks,
        num_ram_banks: k.num_ram_banks,
        rom_bank: k.rom_bank,
        ram_bank: k.ram_bank,
        bank_mode: k.bank_mode,
        ram_enabled: k.ram_enabled,
        has_battery: k.has_battery,
        has_rtc: k.has_rtc,
        rtc_selected: k.rtc_selected,
        rtc_register: k.rtc_register,
        rtc: k.rtc,
        rtc_latched: k.rtc_latched,
        rtc_latch: k.rtc_latch,
        rtc_cycles: k.rtc_cycles,
        sram_dirty: k.sram_dirty,
    }
}

/// A bus put together from what a state holds of it; a serial transfer under
/// way goes on with the byte in SB.
pub open spec fn bus_from(
    cart: CartState,
    k: Memory,
    ppu: Ppu,
    timer: Timer,
    apu: ApuState,
    serial_buf: Seq<u8>,
    t: Transfers,
) -> BusState {
    BusState {
        cart,
        wram: k.wram,
        vram: k.vram,
        oam: k.oam,
        io: k.io,
        hram: k.hram,
        ie: k.ie,
        joypad: Joypad { state: k.joypad },
        ppu,
        timer,
        apu,
        serial_buf,
        is_cgb: k.is_cgb,
        double_speed: k.double_speed,
        dev_accum: k.dev_accum,
        dma: OamDma { source: t.dma_source, remaining: t.dma_remaining },
        serial: Serial { remaining: t.serial_remaining, out: k.io[0x01] },
        hdma: t.hdma,
    }
}

/// A cartridge's bytes.
pub open spec fn put_cart(c: CartState, rest: Seq<u8>) -> Seq<u8> {
    put_bytes(
        encode_utf8(c.title),
        put_u8(
            mbc_code(c.mbc),
            put_u8(c.cgb_flag, put_bytes(c.rom, put_bytes(c.ram, put_banks(banks(c), rest)))),
        ),
    )
}

/// The devices' bytes: memory, PPU, timer and APU.
pub open spec fn put_devices(b: BusState, rest: Seq<u8>) -> Seq<u8> {
    put_memory(memory(b), put_ppu(b.ppu, put_timer(b.timer, put_apu(b.apu, rest))))
}

/// A bus's bytes.
pub open spec fn put_bus(b: BusState, rest: Seq<u8>) -> Seq<u8> {
    put_cart(
        b.cart,
        put_devices(b, put_bytes(b.serial_buf, put_transfers(transfers(b), rest))),
    )
}

/// A machine's bytes: the whole save state.
pub open spec fn put_state(m: Machine) -> Seq<u8> {
    put_raw(
        STATE_MAGIC@,
        put_u32(STATE_VERSION, put_cpu(m.cpu, put_bus(m.bus, Seq::empty()))),
    )
}

/// The devices' bytes together.
pub const DEVICES_LEN: usize = MEMORY_LEN + PPU_LEN + TIMER_LEN + APU_LEN;

pub open spec fn truncated() -> Seq<char> {
    "save state truncated"@
}

pub open spec fn unknown_mbc(code: u8) -> Seq<char> {
    "unknown MBC discriminator "@ + decimal(code as nat)
}

/// Length-prefixed bytes, or why there are none.
pub open spec fn parse_bytes(s: Seq<u8>) -> Result<(Seq<u8>, Seq<u8>), Seq<char>> {
    if s.len() < 4 {
        Err(truncated())
    } else if !has_bytes(s) {
        Err("save state length prefix exceeds remaining data"@)
    } else {
        Ok(get_bytes(s))
    }
}

/// A cartridge's ROM, RAM and controller.
pub open spec fn parse_cart_body(title: Seq<char>, mbc: MbcType, s: Seq<u8>) -> Result<
    (CartState, Seq<u8>),
    Seq<char>,
> {
    if s.len() < 1 {
        Err(truncated())
    } else {
        let (cgb_flag, s1) = get_u8(s);
        match parse_bytes(s1) {
            Err(e) => Err(e),
            Ok((rom, s2)) => match parse_bytes(s2) {
                Err(e) => Err(e),
                Ok((ram, s3)) => if s3.len() < BANKS_LEN {
                    Err(truncated())
                } else {
                    let (k, s4) = get_banks(s3);
                    Ok((cart_from(title, mbc, cgb_flag, rom, ram, k), s4))
                },
            },
        }
    }
}

/// A cartridge, or why the bytes are none.
pub open spec fn parse_cart(s: Seq<u8>) -> Result<(CartState, Seq<u8>), Seq<char>> {
    match parse_bytes(s) {
        Err(e) => Err(e),
        Ok((title, s1)) => if !valid_utf8(title) {
            Err("invalid UTF-8 in save state"@)
        } else if s1.len() < 1 {
            Err(truncated())
        } else {
            let (code, s2) = get_u8(s1);
            if code >= 6 {
                Err(unknown_mbc(code))
            } else {
                parse_cart_body(decode_utf8(title), mbc_of(code), s2)
            }
        },
    }
}

/// The rest of a bus after its cartridge.
pub open spec fn parse_devices(cart: CartState, s: Seq<u8>) -> Result<
    (BusState, Seq<u8>),
    Seq<char>,
> {
    if s.len() < DEVICES_LEN {
        Err(truncated())
    } else {
        let (k, s1) = get_memory(s);
        let (ppu, s2) = get_ppu(s1);
        let (timer, s3) = get_timer(s2);
        let (apu, s4) = get_apu(s3);
        match parse_bytes(s4) {
            Err(e) => Err(e),
            Ok((serial_buf, s5)) => if s5.len() < TRANSFERS_LEN {
                Err(truncated())
            } else {
                let (t, s6) = get_transfers(s5);
                Ok((bus_from(cart, k, ppu, timer, apu, serial_buf, t), s6))
            },
        }
    }
}

/// A bus, or why the bytes are none.
pub open spec fn parse_bus(s: Seq<u8>) -> Result<(BusState, Seq<u8>), Seq<char>> {
    match parse_cart(s) {
        Err(e) => Err(e),
        Ok((cart, s1)) => parse_devices(cart, s1),
    }
}

/// The machine after the header, or why the bytes hold none.
pub open spec fn parse_body(s: Seq<u8>) -> Result<Machine, Seq<char>> {
    if s.len() < CPU_LEN {
        Err(truncated())
    } else {
        let (cpu, s1) = get_cpu(s);
        match parse_bus(s1) {
            Err(e) => Err(e),
            Ok((bus, rest)) => if rest.len() > 0 {
                Err("save state has "@ + decimal(rest.len()) + " trailing bytes"@)
            } else {
                Ok(Machine { cpu, bus })
            },
        }
    }
}

/// The machine that a save state holds, or why it holds none.
pub open spec fn parse_state(data: Seq<u8>) -> Result<Machine, Seq<char>> {
    if data.len() < 8 {
        Err("save state too short"@)
    } else if data.take(4) != STATE_MAGIC@ {
        Err("bad save state magic"@)
    } else {
        let (version, s) = get_u32(data.skip(4));
        if version != STATE_VERSION {
            Err("unsupported save state version "@ + decimal(version as nat))
        } else {
            parse_body(s)
        }
    }
}

/// What a save state keeps of a machine: everything but pending audio, the
/// colour frame (drawn anew within a frame), the breakpoint and cycle notes of
/// the last instruction, when the timer last reloaded, and the byte on the
/// serial line, which is taken from SB.
pub open spec fn restored(m: Machine) -> Machine {
    Machine {
        cpu: Cpu { breakpoint: false, ticked: 0, ..m.cpu },
        bus: BusState {
            ppu: Ppu { rgb_buffer: filled(0), ..m.bus.ppu },
            timer: Timer { reloaded_at: u64::MAX, ..m.bus.timer },
            apu: ApuState { samples: Seq::empty(), produced: 0, ..m.bus.apu },
            serial: Serial { out: m.bus.io[0x01], ..m.bus.serial },
            ..m.bus
        },
    }
}

/// The lengths fit the format's prefixes.
pub open spec fn saveable(m: Machine) -> bool {
    &&& encode_utf8(m.bus.cart.title).len() <= u32::MAX
    &&& m.bus.cart.rom.len() <= u32::MAX
    &&& m.bus.cart.ram.len() <= u32::MAX
    &&& m.bus.serial_buf.len() <= u32::MAX
}

fn save_cartridge(w: &mut Writer, c: &Cartridge)
    ensures
        forall|rest: Seq<u8>| #[trigger] (final(w)@ + rest) == old(w)@ + put_cart(c@, rest),
{
    w.bytes(c.title.as_str().as_bytes());
    w.u8(mbc_to_u8(c.mbc));
    w.u8(c.cgb_flag);
    w.bytes(c.rom.as_slice());
    w.bytes(c.ram.as_slice());
    let k = Banks {
        num_rom_banks: c.num_rom_banks,
        num_ram_banks: c.num_ram_banks,
        rom_bank: c.rom_bank,
        ram_bank: c.ram_bank,
        bank_mode: c.bank_mode,
        ram_enabled: c.ram_enabled,
        has_battery: c.has_battery,
        has_rtc: c.has_rtc,
        rtc_selected: c.rtc_selected,
        rtc_register: c.rtc_register,
        rtc: c.rtc,
        rtc_latched: c.rtc_latched,
        rtc_latch: c.rtc_latch,
        rtc_cycles: c.rtc_cycles,
        sram_dirty: c.sram_dirty,
    };
    assert(k == banks(c@));
    save_banks(w, &k);
}

fn save_devices(w: &mut Writer, b: &Bus)
    ensures
        forall|rest: Seq<u8>| #[trigger] (final(w)@ + rest) == old(w)@ + put_devices(b@, rest),
{
    let k = Memory {
        wram: b.wram,
        vram: b.vram,
        oam: b.oam,
        io: b.io,
        hram: b.hram,
        ie: b.ie,
        joypad: b.joypad.state,
        is_cgb: b.is_cgb,
        double_speed: b.double_speed,
        dev_accum: b.dev_accum,
    };
    assert(k == memory(b@));
    save_memory(w, &k);
    save_ppu(w, &b.ppu);
    save_timer(w, &b.timer);
    save_apu(w, &b.apu);
}

fn save_bus(w: &mut Writer, b: &Bus)
    ensures
        forall|rest: Seq<u8>| #[trigger] (final(w)@ + rest) == old(w)@ + put_bus(b@, rest),
{
    save_cartridge(w, &b.cart);
    save_devices(w, b);
    w.bytes(b.serial_buf.as_slice());
    let t = Transfers {
        dma_source: b.dma.source,
        dma_remaining: b.dma.remaining,
        serial_remaining: b.serial.remaining,
        hdma: b.hdma,
    };
    save_transfers(w, &t);
}

/// Length-prefixed bytes, copied.
fn load_bytes(r: &mut Reader) -> (v: Result<Vec<u8>, String>)
    requires
        old(r).wf(),
    ensures
        final(r).wf(),
        final(r).data@ == old(r).data@,
        match parse_bytes(old(r).rest()) {
            Ok((bytes, rest)) => v is Ok && v->Ok_0@ == bytes && final(r).rest() == rest,
            Err(message) => v is Err && v->Err_0@ == message,
        },
{
    if r.remaining() < 4 {
        return Err("save state truncated".to_owned());
    }
    let n: u32 = r.next_u32();
    if n as u64 > r.remaining() as u64 {
        return Err("save state length prefix exceeds remaining data".to_owned());
    }
    let b = r.next_slice(n as usize);
    let mut out: Vec<u8> = Vec::new();
    out.extend_from_slice(b);
    assert(out@ =~= b@);
    Ok(out)
}

fn load_cart_body(r: &mut Reader, title: String, mbc: MbcType) -> (v: Result<Cartridge, String>)
    requires
        old(r).wf(),
    ensures
        final(r).wf(),
        final(r).data@ == old(r).data@,
        match parse_cart_body(title@, mbc, old(r).rest()) {
            Ok((cart, rest)) => v is Ok && v->Ok_0@ == cart && final(r).rest() == rest,
            Err(message) => v is Err && v->Err_0@ == message,
        },
{
    if r.remaining() < 1 {
        return Err("save state truncated".to_owned());
    }
    let cgb_flag: u8 = r.next_u8();
    let rom: Vec<u8> = match load_bytes(r) {
        Ok(b) => b,
        Err(e) => return Err(e),
    };
    let ram: Vec<u8> = match load_bytes(r) {
        Ok(b) => b,
        Err(e) => return Err(e),
    };
    if r.remaining() < BANKS_LEN {
        return Err("save state truncated".to_owned());
    }
    let k: Banks = load_banks(r);
    Ok(
        Cartridge {
            title,
            mbc,
            cgb_flag,
            rom,
            ram,
            num_rom_banks: k.num_rom_banks,
            num_ram_banks: k.num_ram_banks,
            rom_bank: k.rom_bank,
            ram_bank: k.ram_bank,
            bank_mode: k.bank_mode,
            ram_enabled: k.ram_enabled,
            has_battery: k.has_battery,
            has_rtc: k.has_rtc,
            rtc_selected: k.rtc_selected,
            rtc_register: k.rtc_register,
            rtc: k.rtc,
            rtc_latched: k.rtc_latched,
            rtc_latch: k.rtc_latch,
            rtc_cycles: k.rtc_cycles,
            sram_dirty: k.sram_dirty,
        },
    )
}

fn load_cartridge(r: &mut Reader) -> (v: Result<Cartridge, String>)
    requires
        old(r).wf(),
    ensures
        final(r).wf(),
        final(r).data@ == old(r).data@,
        match parse_cart(old(r).rest()) {
            Ok((cart, rest)) => v is Ok && v->Ok_0@ == cart && final(r).rest() == rest,
            Err(message) => v is Err && v->Err_0@ == message,
        },
{
    let bytes: Vec<u8> = match load_bytes(r) {
        Ok(b) => b,
        Err(e) => return Err(e),
    };
    let title: String = match string_from_utf8(bytes) {
        Some(t) => t,
        None => return Err("invalid UTF-8 in save state".to_owned()),
    };
    if r.remaining() < 1 {
        return Err("save state truncated".to_owned());
    }
    let code: u8 = r.next_u8();
    match mbc_from_u8(code) {
        Ok(mbc) => load_cart_body(r, title, mbc),
        Err(e) => Err(e),
    }
}

fn load_devices(r: &mut Reader, cart: Cartridge) -> (v: Result<Bus, String>)
    requires
        old(r).wf(),
    ensures
        final(r).wf(),
        final(r).data@ == old(r).data@,
        match parse_devices(cart@, old(r).rest()) {
            Ok((bus, rest)) => v is Ok && v->Ok_0@ == bus && final(r).rest() == rest,
            Err(message) => v is Err && v->Err_0@ == message,
        },
{
    if r.remaining() < DEVICES_LEN {
        return Err("save state truncated".to_owned());
    }
    let k: Memory = load_memory(r);
    let ppu: Ppu = load_ppu(r);
    let timer: Timer = load_timer(r);
    let apu: Apu = load_apu(r);
    let serial_buf: Vec<u8> = match load_bytes(r) {
        Ok(b) => b,
        Err(e) => return Err(e),
    };
    if r.remaining() < TRANSFERS_LEN {
        return Err("save state truncated".to_owned());
    }
    let t: Transfers = load_transfers(r);
    Ok(
        Bus {
            cart,
            wram: k.wram,
            vram: k.vram,
            oam: k.oam,
            io: k.io,
            hram: k.hram,
            ie: k.ie,
            joypad: Joypad { state: k.joypad },
            ppu,
            timer,
            apu,
            serial_buf,
            is_cgb: k.is_cgb,
            double_speed: k.double_speed,
            dev_accum: k.dev_accum,
            dma: OamDma { source: t.dma_source, remaining: t.dma_remaining },
            serial: Serial { remaining: t.serial_remaining, out: k.io[0x01] },
            hdma: t.hdma,
        },
    )
}

fn load_bus(r: &mut Reader) -> (v: Result<Bus, String>)
    requires
        old(r).wf(),
    ensures
        final(r).wf(),
        final(r).data@ == old(r).data@,
        match parse_bus(old(r).rest()) {
            Ok((bus, rest)) => v is Ok && v->Ok_0@ == bus && final(r).rest() == rest,
            Err(message) => v is Err && v->Err_0@ == message,
        },
{
    match load_cartridge(r) {
        Ok(cart) => load_devices(r, cart),
        Err(e) => Err(e),
    }
}

/// Serialize the full CPU + bus state into a self-contained byte vector.
pub fn save_state(cpu: &Cpu, bus: &Bus) -> (r: Vec<u8>)
    ensures
        r@ == put_state(Machine { cpu: *cpu, bus: bus@ }),
{
    let mut w = Writer::with_header(&STATE_MAGIC, STATE_VERSION);
    save_cpu(&mut w, cpu);
    save_bus(&mut w, bus);
    proof {
        assert(w@ + Seq::<u8>::empty() =~= w@);
    }
    w.finish()
}

fn load_body(data: &[u8]) -> (v: Result<(Cpu, Bus), String>)
    requires
        data@.len() >= 8,
    ensures
        match parse_body(get_u32(data@.skip(4)).1) {
            Ok(m) => v is Ok && (Machine { cpu: v->Ok_0.0, bus: v->Ok_0.1@ }) == m,
            Err(message) => v is Err && v->Err_0@ == message,
        },
{
    let mut r = Reader { data, pos: 8 };
    assert(r.rest() =~= get_u32(data@.skip(4)).1);
    if r.remaining() < CPU_LEN {
        return Err("save state truncated".to_owned());
    }
    let cpu: Cpu = load_cpu(&mut r);
    let bus: Bus = match load_bus(&mut r) {
        Ok(b) => b,
        Err(e) => return Err(e),
    };
    let left: usize = r.remaining();
    if left > 0 {
        let mut message = numbered("save state has ", left as u64);
        message.push_str(" trailing bytes");
        return Err(message);
    }
    Ok((cpu, bus))
}

/// Validate and restore a state produced by [`save_state`], replacing the CPU
/// and bus in place. Returns an error on any malformed, truncated, or
/// oversize input without modifying either system.
pub fn load_state(cpu: &mut Cpu, bus: &mut Bus, data: &[u8]) -> (r: Result<(), String>)
    ensures
        match parse_state(data@) {
            Ok(m) => r is Ok && (Machine { cpu: *final(cpu), bus: final(bus)@ }) == m,
            Err(message) => r is Err && r->Err_0@ == message && *final(cpu) == *old(cpu)
                && *final(bus) == *old(bus),
        },
{
    if data.len() < 8 {
        return Err("save state too short".to_owned());
    }
    if data[0] != STATE_MAGIC[0] || data[1] != STATE_MAGIC[1] || data[2] != STATE_MAGIC[2]
        || data[3] != STATE_MAGIC[3] {
        proof {
            if data@.take(4) == STATE_MAGIC@ {
                assert(data@.take(4)[0] == STATE_MAGIC@[0] && data@.take(4)[1] == STATE_MAGIC@[1]
                    && data@.take(4)[2] == STATE_MAGIC@[2] && data@.take(4)[3]
                    == STATE_MAGIC@[3]);
            }
        }
        return Err("bad save state magic".to_owned());
    }
    assert(data@.take(4) =~= STATE_MAGIC@);
    let version: u32 = data[4] as u32 + data[5] as u32 * 0x100 + data[6] as u32 * 0x1_0000
        + data[7] as u32 * 0x100_0000;
    assert(version == get_u32(data@.skip(4)).0);
    if version != STATE_VERSION {
        return Err(numbered("unsupported save state version ", version as u64));
    }
    match load_body(data) {
        Ok((new_cpu, new_bus)) => {
            *cpu = new_cpu;
            *bus = new_bus;
            Ok(())
        },
        Err(e) => Err(e),
    }
}

impl Gb {
    /// Serialize the entire machine state.
    pub fn save_state(&self) -> (r: Vec<u8>)
        ensures
            r@ == put_state(self@),
    {
        save_state(&self.cpu, &self.bus)
    }

    /// Restore a machine state produced by [`Gb::save_state`]; on an error the
    /// machine is left as it was.
    pub fn load_state(&mut self, data: &[u8]) -> (r: Result<(), String>)
        ensures
            match parse_state(data@) {
                Ok(m) => r is Ok && final(self)@ == m,
                Err(message) => r is Err && r->Err_0@ == message && final(self)@ == old(self)@,
            },
    {
        load_state(&mut self.cpu, &mut self.bus, data)
    }
}

proof fn lemma_cart_round_trip(c: CartState, rest: Seq<u8>)
    requires
        c.wf(),
        encode_utf8(c.title).len() <= u32::MAX,
        c.rom.len() <= u32::MAX,
        c.ram.len() <= u32::MAX,
    ensures
        parse_cart(put_cart(c, rest)) == Ok::<(CartState, Seq<u8>), Seq<char>>((c, rest)),
{
    let s5 = put_banks(banks(c), rest);
    let s4 = put_bytes(c.ram, s5);
    let s3 = put_bytes(c.rom, s4);
    let s2 = put_u8(c.cgb_flag, s3);
    let s1 = put_u8(mbc_code(c.mbc), s2);
    let title = encode_utf8(c.title);
    let s0 = put_bytes(title, s1);
    lemma_banks_round_trip(banks(c), rest);
    lemma_parse_bytes(c.ram, s5);
    lemma_parse_bytes(c.rom, s4);
    lemma_parse_bytes(title, s1);
    crate::emu::state::u8_round_trip(c.cgb_flag, s3);
    crate::emu::state::u8_round_trip(mbc_code(c.mbc), s2);
    assert(valid_utf8(title) && decode_utf8(title) == c.title) by {
        broadcast use vstd::utf8::encode_utf8_valid_utf8;
        broadcast use vstd::utf8::encode_utf8_decode_utf8;
    }
    assert(s0 == put_cart(c, rest));
    assert(parse_cart_body(c.title, c.mbc, s2) == Ok::<(CartState, Seq<u8>), Seq<char>>((c, rest)));
    assert(mbc_of(mbc_code(c.mbc)) == c.mbc && mbc_code(c.mbc) < 6);
}

proof fn lemma_parse_bytes(b: Seq<u8>, rest: Seq<u8>)
    requires
        b.len() <= u32::MAX,
    ensures
        parse_bytes(put_bytes(b, rest)) == Ok::<(Seq<u8>, Seq<u8>), Seq<char>>((b, rest)),
{
    crate::emu::state::bytes_round_trip(b, rest);
    crate::emu::state::u32_round_trip(b.len() as u32, crate::emu::state::put_raw(b, rest));
}

proof fn lemma_devices_round_trip(m: Machine, rest: Seq<u8>)
    requires
        m.bus.wf(),
        m.bus.serial_buf.len() <= u32::MAX,
    ensures
        parse_devices(
            m.bus.cart,
            put_devices(
                m.bus,
                put_bytes(m.bus.serial_buf, put_transfers(transfers(m.bus), rest)),
            ),
        ) == Ok::<(BusState, Seq<u8>), Seq<char>>((restored(m).bus, rest)),
{
    broadcast use group_round_trips;

    let b = m.bus;
    let s6 = put_transfers(transfers(b), rest);
    lemma_transfers_round_trip(transfers(b), rest);
    let s5 = put_bytes(b.serial_buf, s6);
    let s4 = put_apu(b.apu, s5);
    lemma_apu_round_trip(b.apu, s5);
    let s3 = put_timer(b.timer, s4);
    lemma_timer_round_trip(b.timer, s4);
    let s2 = put_ppu(b.ppu, s3);
    lemma_ppu_round_trip(b.ppu, s3);
    lemma_memory_round_trip(memory(b), s2);
}

/// A saved machine loads back: what the state keeps of it is restored exactly.
pub proof fn law_state_round_trip(m: Machine)
    requires
        m.wf(),
        saveable(m),
    ensures
        parse_state(put_state(m)) == Ok::<Machine, Seq<char>>(restored(m)),
{
    broadcast use group_round_trips;

    let s2 = put_bus(m.bus, Seq::empty());
    let s1 = put_cpu(m.cpu, s2);
    let s0 = put_u32(STATE_VERSION, s1);
    let data = put_raw(STATE_MAGIC@, s0);
    assert(data.take(4) =~= STATE_MAGIC@);
    assert(data.skip(4) =~= s0);
    lemma_cpu_round_trip(m.cpu, s2);
    lemma_cart_round_trip(
        m.bus.cart,
        put_devices(
            m.bus,
            put_bytes(m.bus.serial_buf, put_transfers(transfers(m.bus), Seq::empty())),
        ),
    );
    lemma_devices_round_trip(m, Seq::empty());
    assert(parse_bus(s2) == Ok::<(BusState, Seq<u8>), Seq<char>>((restored(m).bus, Seq::empty())));
    assert(parse_body(s1) == Ok::<Machine, Seq<char>>(restored(m)));
}

/// Saving a restored machine gives the same bytes again.
pub proof fn law_save_is_idempotent(m: Machine)
    ensures
        put_state(restored(m)) == put_state(m),
{
    reveal(put_cpu);
    reveal(put_ppu);
    reveal(put_timer);
    reveal(put_apu);
}

proof fn lemma_parse_bytes_extends(s: Seq<u8>, t: Seq<u8>)
    requires
        parse_bytes(s) is Ok,
    ensures
        parse_bytes(s + t) == Ok::<(Seq<u8>, Seq<u8>), Seq<char>>(
            (parse_bytes(s)->Ok_0.0, parse_bytes(s)->Ok_0.1 + t),
        ),
{
    bytes_extends(s, t);
}

proof fn lemma_parse_cart_extends(s: Seq<u8>, t: Seq<u8>)
    requires
        parse_cart(s) is Ok,
    ensures
        parse_cart(s + t) == Ok::<(CartState, Seq<u8>), Seq<char>>(
            (parse_cart(s)->Ok_0.0, parse_cart(s)->Ok_0.1 + t),
        ),
{
    broadcast use group_extends;

    lemma_parse_bytes_extends(s, t);
    let s1 = parse_bytes(s)->Ok_0.1;
    let s2 = get_u8(s1).1;
    let s3 = get_u8(s2).1;
    lemma_parse_bytes_extends(s3, t);
    let s4 = parse_bytes(s3)->Ok_0.1;
    lemma_parse_bytes_extends(s4, t);
    let s5 = parse_bytes(s4)->Ok_0.1;
    lemma_banks_extends(s5, t);
}

proof fn lemma_parse_devices_extends(cart: CartState, s: Seq<u8>, t: Seq<u8>)
    requires
        parse_devices(cart, s) is Ok,
    ensures
        parse_devices(cart, s + t) == Ok::<(BusState, Seq<u8>), Seq<char>>(
            (parse_devices(cart, s)->Ok_0.0, parse_devices(cart, s)->Ok_0.1 + t),
        ),
{
    lemma_memory_extends(s, t);
    let s1 = get_memory(s).1;
    lemma_ppu_extends(s1, t);
    let s2 = get_ppu(s1).1;
    lemma_timer_extends(s2, t);
    let s3 = get_timer(s2).1;
    lemma_apu_extends(s3, t);
    let s4 = get_apu(s3).1;
    lemma_parse_bytes_extends(s4, t);
    let s5 = parse_bytes(s4)->Ok_0.1;
    lemma_transfers_extends(s5, t);
}

/// A state followed by anything more is rejected for its trailing bytes.
pub proof fn law_trailing_bytes_are_rejected(data: Seq<u8>, extra: Seq<u8>)
    requires
        parse_state(data) is Ok,
        extra.len() > 0,
    ensures
        parse_state(data + extra) == Err::<Machine, Seq<char>>(
            "save state has "@ + decimal(extra.len()) + " trailing bytes"@,
        ),
{
    broadcast use group_extends;

    let all = data + extra;
    assert(all.take(4) =~= data.take(4));
    assert(all.skip(4) =~= data.skip(4) + extra);
    let s = get_u32(data.skip(4)).1;
    lemma_cpu_extends(s, extra);
    let s1 = get_cpu(s).1;
    lemma_parse_cart_extends(s1, extra);
    let (cart, s2) = parse_cart(s1)->Ok_0;
    lemma_parse_devices_extends(cart, s2, extra);
    assert(parse_devices(cart, s2)->Ok_0.1 + extra =~= extra);
}

/// Every proper prefix of a saved state is rejected.
pub proof fn law_truncated_states_are_rejected(m: Machine, n: int)
    requires
        m.wf(),
        saveable(m),
        0 <= n < put_state(m).len(),
    ensures
        parse_state(put_state(m).take(n)) is Err,
{
    let full = put_state(m);
    let data = full.take(n);
    if parse_state(data) is Ok {
        assert(data + full.skip(n) =~= full);
        law_trailing_bytes_are_rejected(data, full.skip(n));
        law_state_round_trip(m);
    }
}

} // verus!
