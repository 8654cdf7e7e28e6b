//! Full-machine save states for the GBA.
//!
//! A state is `b"CRGA"` (4-byte magic) + a little-endian u32 version, followed
//! by the serialized CPU, I/O, main memory, save cartridge and frame-timing
//! state. All lengths are little-endian u32-prefixed so a reader can bounds-check
//! every field; loading validates the magic, version and each length.

use crate::emu::mem::{lemma_overlaid, Mem};
use crate::emu::state::{
    bytes_extends, bytes_round_trip, end_message, get_bool, get_bytes, get_u16, get_u32, get_u64,
    get_u8, group_extends, group_round_trips, has_bytes, lemma_to_array, put_bool, put_bytes,
    put_raw, put_u16, put_u32, put_u64, put_u8, to_array, Reader, Writer,
};
use crate::emu::text::{decimal, numbered, push_decimal};
use crate::gba::bus::Bus;
use crate::gba::cpu::{law_snapshot, Cpu, CpuSave};
use crate::gba::io::{Io, IoSave};
use crate::gba::machine::{Gba, GbaState};
use crate::gba::save::{SaveCartridge, SaveType};
use vstd::prelude::*;

verus! {

/// Magic header identifying a CrabBoy GBA save state.
pub const STATE_MAGIC: [u8; 4] = [0x43, 0x52, 0x47, 0x41];
/// Current save-state format version.
pub const STATE_VERSION: u32 = 2;

/// The keypad and interrupt registers.
#[derive(Clone, Copy, PartialEq, Eq, Debug)]
pub struct Interrupts {
    pub keypad: u16,
    pub keycnt: u16,
    pub ie: u16,
    pub iflags: u16,
    pub ime: bool,
    pub vcount: u16,
}

/// The mask of a wait, 0 without one.
pub open spec fn wait_mask(wait: Option<u16>) -> u16 {
    match wait {
        Some(mask) => mask,
        None => 0,
    }
}

fn mask_of(wait: Option<u16>) -> (r: u16)
    ensures
        r == wait_mask(wait),
{
    match wait {
        Some(mask) => mask,
        None => 0,
    }
}

/// The wait with a mask.
pub open spec fn wait_of(mask: u16) -> Option<u16> {
    if mask == 0 {
        None
    } else {
        Some(mask)
    }
}

fn mask_wait(mask: u16) -> (r: Option<u16>)
    ensures
        r == wait_of(mask),
{
    if mask == 0 {
        None
    } else {
        Some(mask)
    }
}

/// Four registers: 16 bytes.
pub const WORDS4_LEN: usize = 16;

#[verifier::opaque]
pub open spec fn put_words4(v: [u32; 4], rest: Seq<u8>) -> Seq<u8> {
    let s3 = put_u32(v[3], rest);
    let s2 = put_u32(v[2], s3);
    let s1 = put_u32(v[1], s2);
    let s0 = put_u32(v[0], s1);
    s0
}

#[verifier::opaque]
pub open spec fn get_words4(s: Seq<u8>) -> ([u32; 4], Seq<u8>) {
    let (w_0, s1) = get_u32(s);
    let (w_1, s2) = get_u32(s1);
    let (w_2, s3) = get_u32(s2);
    let (w_3, s4) = get_u32(s3);
    ([w_0, w_1, w_2, w_3], s4)
}

proof fn lemma_words4_round_trip(v: [u32; 4], rest: Seq<u8>)
    ensures
        get_words4(put_words4(v, rest)) == (v, rest),
        put_words4(v, rest).len() == rest.len() + WORDS4_LEN,
{
    broadcast use group_round_trips;

    reveal(put_words4);
    reveal(get_words4);
    let s3 = put_u32(v[3], rest);
    let s2 = put_u32(v[2], s3);
    let s1 = put_u32(v[1], s2);
    let s0 = put_u32(v[0], s1);
    assert(get_words4(s0).0 =~= v);
}

proof fn lemma_words4_extends(s: Seq<u8>, t: Seq<u8>)
    requires
        s.len() >= WORDS4_LEN,
    ensures
        get_words4(s + t) == (get_words4(s).0, get_words4(s).1 + t),
        get_words4(s).1.len() == s.len() - WORDS4_LEN,
{
    broadcast use group_extends;

    reveal(get_words4);
    let s1 = get_u32(s).1;
    let s2 = get_u32(s1).1;
    let s3 = get_u32(s2).1;
    let s4 = get_u32(s3).1;
}

fn save_words4(w: &mut Writer, v: &[u32; 4])
    ensures
        forall|rest: Seq<u8>|
            #[trigger] (final(w)@ + rest) == old(w)@ + put_words4(*v, rest),
{
    reveal(put_words4);
    w.u32(v[0]);
    w.u32(v[1]);
    w.u32(v[2]);
    w.u32(v[3]);
}

fn load_words4(r: &mut Reader) -> (v: [u32; 4])
    requires
        old(r).wf(),
        old(r).rest().len() >= WORDS4_LEN,
    ensures
        final(r).wf(),
        final(r).data@ == old(r).data@,
        (v, final(r).rest()) == get_words4(old(r).rest()),
        final(r).rest().len() == old(r).rest().len() - WORDS4_LEN,
{
    reveal(get_words4);
    let w_0: u32 = r.next_u32();
    let w_1: u32 = r.next_u32();
    let w_2: u32 = r.next_u32();
    let w_3: u32 = r.next_u32();
    let v: [u32; 4] = [w_0, w_1, w_2, w_3];
    assert(v =~= get_words4(old(r).rest()).0);
    v
}

/// Sixteen registers: 64 bytes.
pub const WORDS16_LEN: usize = 64;

#[verifier::opaque]
pub open spec fn put_words16(v: [u32; 16], rest: Seq<u8>) -> Seq<u8> {
    let s3 = put_words4([v[12], v[13], v[14], v[15]], rest);
    let s2 = put_words4([v[8], v[9], v[10], v[11]], s3);
    let s1 = put_words4([v[4], v[5], v[6], v[7]], s2);
    let s0 = put_words4([v[0], v[1], v[2], v[3]], s1);
    s0
}

#[verifier::opaque]
pub open spec fn get_words16(s: Seq<u8>) -> ([u32; 16], Seq<u8>) {
    let (q0, s1) = get_words4(s);
    let (q1, s2) = get_words4(s1);
    let (q2, s3) = get_words4(s2);
    let (q3, s4) = get_words4(s3);
    ([q0[0], q0[1], q0[2], q0[3], q1[0], q1[1], q1[2], q1[3], q2[0], q2[1], q2[2], q2[3], q3[0], q3[1], q3[2], q3[3]], s4)
}

proof fn lemma_words16_round_trip(v: [u32; 16], rest: Seq<u8>)
    ensures
        get_words16(put_words16(v, rest)) == (v, rest),
        put_words16(v, rest).len() == rest.len() + WORDS16_LEN,
{
    broadcast use group_round_trips;

    reveal(put_words16);
    reveal(get_words16);
    let s3 = put_words4([v[12], v[13], v[14], v[15]], rest);
    lemma_words4_round_trip([v[12], v[13], v[14], v[15]], rest);
    let s2 = put_words4([v[8], v[9], v[10], v[11]], s3);
    lemma_words4_round_trip([v[8], v[9], v[10], v[11]], s3);
    let s1 = put_words4([v[4], v[5], v[6], v[7]], s2);
    lemma_words4_round_trip([v[4], v[5], v[6], v[7]], s2);
    let s0 = put_words4([v[0], v[1], v[2], v[3]], s1);
    lemma_words4_round_trip([v[0], v[1], v[2], v[3]], s1);
    assert(get_words16(s0).0 =~= v);
}

proof fn lemma_words16_extends(s: Seq<u8>, t: Seq<u8>)
    requires
        s.len() >= WORDS16_LEN,
    ensures
        get_words16(s + t) == (get_words16(s).0, get_words16(s).1 + t),
        get_words16(s).1.len() == s.len() - WORDS16_LEN,
{
    broadcast use group_extends;

    reveal(get_words16);
    lemma_words4_extends(s, t);
    let s1 = get_words4(s).1;
    lemma_words4_extends(s1, t);
    let s2 = get_words4(s1).1;
    lemma_words4_extends(s2, t);
    let s3 = get_words4(s2).1;
    lemma_words4_extends(s3, t);
    let s4 = get_words4(s3).1;
}

fn save_words16(w: &mut Writer, v: &[u32; 16])
    ensures
        forall|rest: Seq<u8>|
            #[trigger] (final(w)@ + rest) == old(w)@ + put_words16(*v, rest),
{
    reveal(put_words16);
    save_words4(w, &[v[0], v[1], v[2], v[3]]);
    save_words4(w, &[v[4], v[5], v[6], v[7]]);
    save_words4(w, &[v[8], v[9], v[10], v[11]]);
    save_words4(w, &[v[12], v[13], v[14], v[15]]);
}

fn load_words16(r: &mut Reader) -> (v: [u32; 16])
    requires
        old(r).wf(),
        old(r).rest().len() >= WORDS16_LEN,
    ensures
        final(r).wf(),
        final(r).data@ == old(r).data@,
        (v, final(r).rest()) == get_words16(old(r).rest()),
        final(r).rest().len() == old(r).rest().len() - WORDS16_LEN,
{
    reveal(get_words16);
    let q0: [u32; 4] = load_words4(r);
    let q1: [u32; 4] = load_words4(r);
    let q2: [u32; 4] = load_words4(r);
    let q3: [u32; 4] = load_words4(r);
    let v: [u32; 16] = [q0[0], q0[1], q0[2], q0[3], q1[0], q1[1], q1[2], q1[3], q2[0], q2[1], q2[2], q2[3], q3[0], q3[1], q3[2], q3[3]];
    assert(v =~= get_words16(old(r).rest()).0);
    v
}

/// The registers of five banks: 20 bytes.
pub const WORDS5_LEN: usize = 20;

#[verifier::opaque]
pub open spec fn put_words5(v: [u32; 5], rest: Seq<u8>) -> Seq<u8> {
    let s4 = put_u32(v[4], rest);
    let s3 = put_u32(v[3], s4);
    let s2 = put_u32(v[2], s3);
    let s1 = put_u32(v[1], s2);
    let s0 = put_u32(v[0], s1);
    s0
}

#[verifier::opaque]
pub open spec fn get_words5(s: Seq<u8>) -> ([u32; 5], Seq<u8>) {
    let (w_0, s1) = get_u32(s);
    let (w_1, s2) = get_u32(s1);
    let (w_2, s3) = get_u32(s2);
    let (w_3, s4) = get_u32(s3);
    let (w_4, s5) = get_u32(s4);
    ([w_0, w_1, w_2, w_3, w_4], s5)
}

proof fn lemma_words5_round_trip(v: [u32; 5], rest: Seq<u8>)
    ensures
        get_words5(put_words5(v, rest)) == (v, rest),
        put_words5(v, rest).len() == rest.len() + WORDS5_LEN,
{
    broadcast use group_round_trips;

    reveal(put_words5);
    reveal(get_words5);
    let s4 = put_u32(v[4], rest);
    let s3 = put_u32(v[3], s4);
    let s2 = put_u32(v[2], s3);
    let s1 = put_u32(v[1], s2);
    let s0 = put_u32(v[0], s1);
    assert(get_words5(s0).0 =~= v);
}

proof fn lemma_words5_extends(s: Seq<u8>, t: Seq<u8>)
    requires
        s.len() >= WORDS5_LEN,
    ensures
        get_words5(s + t) == (get_words5(s).0, get_words5(s).1 + t),
        get_words5(s).1.len() == s.len() - WORDS5_LEN,
{
    broadcast use group_extends;

    reveal(get_words5);
    let s1 = get_u32(s).1;
    let s2 = get_u32(s1).1;
    let s3 = get_u32(s2).1;
    let s4 = get_u32(s3).1;
    let s5 = get_u32(s4).1;
}

fn save_words5(w: &mut Writer, v: &[u32; 5])
    ensures
        forall|rest: Seq<u8>|
            #[trigger] (final(w)@ + rest) == old(w)@ + put_words5(*v, rest),
{
    reveal(put_words5);
    w.u32(v[0]);
    w.u32(v[1]);
    w.u32(v[2]);
    w.u32(v[3]);
    w.u32(v[4]);
}

fn load_words5(r: &mut Reader) -> (v: [u32; 5])
    requires
        old(r).wf(),
        old(r).rest().len() >= WORDS5_LEN,
    ensures
        final(r).wf(),
        final(r).data@ == old(r).data@,
        (v, final(r).rest()) == get_words5(old(r).rest()),
        final(r).rest().len() == old(r).rest().len() - WORDS5_LEN,
{
    reveal(get_words5);
    let w_0: u32 = r.next_u32();
    let w_1: u32 = r.next_u32();
    let w_2: u32 = r.next_u32();
    let w_3: u32 = r.next_u32();
    let w_4: u32 = r.next_u32();
    let v: [u32; 5] = [w_0, w_1, w_2, w_3, w_4];
    assert(v =~= get_words5(old(r).rest()).0);
    v
}

/// The CPU: 179 bytes.
pub const CPU_LEN: usize = 179;

#[verifier::opaque]
pub open spec fn put_cpu(v: CpuSave, rest: Seq<u8>) -> Seq<u8> {
    let s10 = put_u16(wait_mask(v.bios_wait), rest);
    let s9 = put_bool(v.halted, s10);
    let s8 = put_u32(v.cycles, s9);
    let s7 = put_words5(v.spsr, s8);
    let s6 = put_words5(v.lr, s7);
    let s5 = put_words5(v.sp, s6);
    let s4 = put_words5(v.fiq_r8_12, s5);
    let s3 = put_words5(v.base_r8_12, s4);
    let s2 = put_u32(v.cpsr, s3);
    let s1 = put_u32(v.pc, s2);
    let s0 = put_words16(v.regs, s1);
    s0
}

#[verifier::opaque]
pub open spec fn get_cpu(s: Seq<u8>) -> (CpuSave, Seq<u8>) {
    let (regs, s1) = get_words16(s);
    let (pc, s2) = get_u32(s1);
    let (cpsr, s3) = get_u32(s2);
    let (base_r8_12, s4) = get_words5(s3);
    let (fiq_r8_12, s5) = get_words5(s4);
    let (sp, s6) = get_words5(s5);
    let (lr, s7) = get_words5(s6);
    let (spsr, s8) = get_words5(s7);
    let (cycles, s9) = get_u32(s8);
    let (halted, s10) = get_bool(s9);
    let (bios_wait, s11) = get_u16(s10);
    (
        CpuSave {
            regs,
            pc,
            cpsr,
            base_r8_12,
            fiq_r8_12,
            sp,
            lr,
            spsr,
            cycles,
            halted,
            bios_wait: wait_of(bios_wait),
        },
        s11,
    )
}

proof fn lemma_cpu_round_trip(v: CpuSave, rest: Seq<u8>)
    requires
        v.bios_wait != Some(0u16),
    ensures
        get_cpu(put_cpu(v, rest)) == (v, rest),
        put_cpu(v, rest).len() == rest.len() + CPU_LEN,
{
    broadcast use group_round_trips;

    reveal(put_cpu);
    reveal(get_cpu);
    let s10 = put_u16(wait_mask(v.bios_wait), rest);
    let s9 = put_bool(v.halted, s10);
    let s8 = put_u32(v.cycles, s9);
    let s7 = put_words5(v.spsr, s8);
    lemma_words5_round_trip(v.spsr, s8);
    let s6 = put_words5(v.lr, s7);
    lemma_words5_round_trip(v.lr, s7);
    let s5 = put_words5(v.sp, s6);
    lemma_words5_round_trip(v.sp, s6);
    let s4 = put_words5(v.fiq_r8_12, s5);
    lemma_words5_round_trip(v.fiq_r8_12, s5);
    let s3 = put_words5(v.base_r8_12, s4);
    lemma_words5_round_trip(v.base_r8_12, s4);
    let s2 = put_u32(v.cpsr, s3);
    let s1 = put_u32(v.pc, s2);
    let s0 = put_words16(v.regs, s1);
    lemma_words16_round_trip(v.regs, s1);
}

proof fn lemma_cpu_extends(s: Seq<u8>, t: Seq<u8>)
    requires
        s.len() >= CPU_LEN,
    ensures
        get_cpu(s + t) == (get_cpu(s).0, get_cpu(s).1 + t),
        get_cpu(s).1.len() == s.len() - CPU_LEN,
{
    broadcast use group_extends;

    reveal(get_cpu);
    lemma_words16_extends(s, t);
    let s1 = get_words16(s).1;
    let s2 = get_u32(s1).1;
    let s3 = get_u32(s2).1;
    lemma_words5_extends(s3, t);
    let s4 = get_words5(s3).1;
    lemma_words5_extends(s4, t);
    let s5 = get_words5(s4).1;
    lemma_words5_extends(s5, t);
    let s6 = get_words5(s5).1;
    lemma_words5_extends(s6, t);
    let s7 = get_words5(s6).1;
    lemma_words5_extends(s7, t);
    let s8 = get_words5(s7).1;
    let s9 = get_u32(s8).1;
    let s10 = get_bool(s9).1;
    let s11 = get_u16(s10).1;
}

fn save_cpu(w: &mut Writer, v: &CpuSave)
    ensures
        forall|rest: Seq<u8>|
            #[trigger] (final(w)@ + rest) == old(w)@ + put_cpu(*v, rest),
{
    reveal(put_cpu);
    save_words16(w, &v.regs);
    w.u32(v.pc);
    w.u32(v.cpsr);
    save_words5(w, &v.base_r8_12);
    save_words5(w, &v.fiq_r8_12);
    save_words5(w, &v.sp);
    save_words5(w, &v.lr);
    save_words5(w, &v.spsr);
    w.u32(v.cycles);
    w.bool(v.halted);
    w.u16(mask_of(v.bios_wait));
}

fn load_cpu(r: &mut Reader) -> (v: CpuSave)
    requires
        old(r).wf(),
        old(r).rest().len() >= CPU_LEN,
    ensures
        final(r).wf(),
        final(r).data@ == old(r).data@,
        (v, final(r).rest()) == get_cpu(old(r).rest()),
        final(r).rest().len() == old(r).rest().len() - CPU_LEN,
{
    reveal(get_cpu);
    let regs: [u32; 16] = load_words16(r);
    let pc: u32 = r.next_u32();
    let cpsr: u32 = r.next_u32();
    let base_r8_12: [u32; 5] = load_words5(r);
    let fiq_r8_12: [u32; 5] = load_words5(r);
    let sp: [u32; 5] = load_words5(r);
    let lr: [u32; 5] = load_words5(r);
    let spsr: [u32; 5] = load_words5(r);
    let cycles: u32 = r.next_u32();
    let halted: bool = r.next_bool();
    let bios_wait: u16 = r.next_u16();
    CpuSave {
        regs,
        pc,
        cpsr,
        base_r8_12,
        fiq_r8_12,
        sp,
        lr,
        spsr,
        cycles,
        halted,
        bios_wait: mask_wait(bios_wait),
    }
}

/// The interrupt and keypad registers: 11 bytes.
pub const LINES_LEN: usize = 11;

#[verifier::opaque]
pub open spec fn put_lines(v: Interrupts, rest: Seq<u8>) -> Seq<u8> {
    let s5 = put_u16(v.vcount, rest);
    let s4 = put_bool(v.ime, s5);
    let s3 = put_u16(v.iflags, s4);
    let s2 = put_u16(v.ie, s3);
    let s1 = put_u16(v.keycnt, s2);
    let s0 = put_u16(v.keypad, s1);
    s0
}

#[verifier::opaque]
pub open spec fn get_lines(s: Seq<u8>) -> (Interrupts, Seq<u8>) {
    let (keypad, s1) = get_u16(s);
    let (keycnt, s2) = get_u16(s1);
    let (ie, s3) = get_u16(s2);
    let (iflags, s4) = get_u16(s3);
    let (ime, s5) = get_bool(s4);
    let (vcount, s6) = get_u16(s5);
    (
        Interrupts {
            keypad,
            keycnt,
            ie,
            iflags,
            ime,
            vcount,
        },
        s6,
    )
}

proof fn lemma_lines_round_trip(v: Interrupts, rest: Seq<u8>)
    ensures
        get_lines(put_lines(v, rest)) == (v, rest),
        put_lines(v, rest).len() == rest.len() + LINES_LEN,
{
    broadcast use group_round_trips;

    reveal(put_lines);
    reveal(get_lines);
    let s5 = put_u16(v.vcount, rest);
    let s4 = put_bool(v.ime, s5);
    let s3 = put_u16(v.iflags, s4);
    let s2 = put_u16(v.ie, s3);
    let s1 = put_u16(v.keycnt, s2);
    let s0 = put_u16(v.keypad, s1);
}

proof fn lemma_lines_extends(s: Seq<u8>, t: Seq<u8>)
    requires
        s.len() >= LINES_LEN,
    ensures
        get_lines(s + t) == (get_lines(s).0, get_lines(s).1 + t),
        get_lines(s).1.len() == s.len() - LINES_LEN,
{
    broadcast use group_extends;

    reveal(get_lines);
    let s1 = get_u16(s).1;
    let s2 = get_u16(s1).1;
    let s3 = get_u16(s2).1;
    let s4 = get_u16(s3).1;
    let s5 = get_bool(s4).1;
    let s6 = get_u16(s5).1;
}

fn save_lines(w: &mut Writer, v: &Interrupts)
    ensures
        forall|rest: Seq<u8>|
            #[trigger] (final(w)@ + rest) == old(w)@ + put_lines(*v, rest),
{
    reveal(put_lines);
    w.u16(v.keypad);
    w.u16(v.keycnt);
    w.u16(v.ie);
    w.u16(v.iflags);
    w.bool(v.ime);
    w.u16(v.vcount);
}

fn load_lines(r: &mut Reader) -> (v: Interrupts)
    requires
        old(r).wf(),
        old(r).rest().len() >= LINES_LEN,
    ensures
        final(r).wf(),
        final(r).data@ == old(r).data@,
        (v, final(r).rest()) == get_lines(old(r).rest()),
        final(r).rest().len() == old(r).rest().len() - LINES_LEN,
{
    reveal(get_lines);
    let keypad: u16 = r.next_u16();
    let keycnt: u16 = r.next_u16();
    let ie: u16 = r.next_u16();
    let iflags: u16 = r.next_u16();
    let ime: bool = r.next_bool();
    let vcount: u16 = r.next_u16();
    Interrupts {
        keypad,
        keycnt,
        ie,
        iflags,
        ime,
        vcount,
    }
}

pub open spec fn save_code(kind: SaveType) -> u8 {
    match kind {
        SaveType::Absent => 0,
        SaveType::Sram => 1,
        SaveType::Flash => 2,
        SaveType::Eeprom => 3,
    }
}

fn save_type_to_u8(t: SaveType) -> (r: u8)
    ensures
        r == save_code(t),
{
    match t {
        SaveType::Absent => 0,
        SaveType::Sram => 1,
        SaveType::Flash => 2,
        SaveType::Eeprom => 3,
    }
}

/// The save type with code `v`, below 4.
pub open spec fn save_of(v: u8) -> SaveType {
    match v {
        0 => SaveType::Absent,
        1 => SaveType::Sram,
        2 => SaveType::Flash,
        _ => SaveType::Eeprom,
    }
}

fn save_type_from_u8(v: u8) -> (r: Result<SaveType, String>)
    ensures
        match r {
            Ok(t) => v <= 3 && t == save_of(v),
            Err(e) => v > 3 && e@ == unknown_save(v),
        },
{
    match v {
        0 => Ok(SaveType::Absent),
        1 => Ok(SaveType::Sram),
        2 => Ok(SaveType::Flash),
        3 => Ok(SaveType::Eeprom),
        _ => Err(numbered("unknown save type ", v as u64)),
    }
}

pub open spec fn unknown_save(v: u8) -> Seq<char> {
    "unknown save type "@ + decimal(v as nat)
}

pub open spec fn unknown_version(v: u32) -> Seq<char> {
    "unsupported version "@ + decimal(v as nat)
}

/// The message about four bytes that are not the magic.
pub open spec fn bad_magic(b: Seq<u8>) -> Seq<char> {
    "bad magic: ["@ + decimal(b[0] as nat) + ", "@ + decimal(b[1] as nat) + ", "@ + decimal(
        b[2] as nat,
    ) + ", "@ + decimal(b[3] as nat) + "]"@
}

fn magic_error(b: &[u8]) -> (r: String)
    requires
        b@.len() >= 4,
    ensures
        r@ == bad_magic(b@),
{
    let mut s = "bad magic: [".to_owned();
    push_decimal(&mut s, b[0] as u64);
    s.push_str(", ");
    push_decimal(&mut s, b[1] as u64);
    s.push_str(", ");
    push_decimal(&mut s, b[2] as u64);
    s.push_str(", ");
    push_decimal(&mut s, b[3] as u64);
    s.push_str("]");
    s
}

pub open spec fn interrupts(io: Io) -> Interrupts {
    Interrupts {
        keypad: io.keypad,
        keycnt: io.keycnt,
        ie: io.ie,
        iflags: io.iflags,
        ime: io.ime,
        vcount: io.vcount,
    }
}

#[verifier::opaque]
pub open spec fn put_io(io: Io, rest: Seq<u8>) -> Seq<u8> {
    put_bytes(io.regs@, put_lines(interrupts(io), rest))
}

#[verifier::opaque]
pub open spec fn put_memory(b: Bus, rest: Seq<u8>) -> Seq<u8> {
    put_bytes(
        b.ewram.0@,
        put_bytes(
            b.iwram.0@,
            put_bytes(b.vram.0@, put_bytes(b.palram.0@, put_bytes(b.oam.0@, rest))),
        ),
    )
}

#[verifier::opaque]
pub open spec fn put_save(s: SaveCartridge, rest: Seq<u8>) -> Seq<u8> {
    put_u8(save_code(s.kind), put_u8(s.bank as u8, put_bytes(s.bytes(), rest)))
}

#[verifier::opaque]
pub open spec fn put_timing(s: GbaState, rest: Seq<u8>) -> Seq<u8> {
    put_u32(s.line_cycles, put_u32(s.line, put_u64(s.frame_count, rest)))
}

#[verifier::opaque]
pub open spec fn put_body(s: GbaState) -> Seq<u8> {
    put_cpu(
        s.cpu.saved(),
        put_io(s.bus.io, put_memory(s.bus, put_save(s.bus.save, put_timing(s, Seq::empty())))),
    )
}

/// The whole machine as bytes.
#[verifier::opaque]
pub open spec fn put_state(s: GbaState) -> Seq<u8> {
    STATE_MAGIC@ + put_u32(STATE_VERSION, put_body(s))
}

/// The bytes of a length-prefixed field, and what follows it.
#[verifier::opaque]
pub open spec fn bytes_at(d: Seq<u8>) -> Option<(Seq<u8>, Seq<u8>)> {
    if has_bytes(d) {
        Some(get_bytes(d))
    } else {
        None
    }
}

/// What a loading step leaves: the machine, and what is left of the state or
/// why it was refused. A state that is refused has changed what was read
/// before the fault.
pub type Loaded = (GbaState, Result<Seq<u8>, Seq<char>>);

pub open spec fn with_saved_cpu(s: GbaState, c: CpuSave) -> GbaState {
    GbaState {
        // BIOS presence is a static property of the bus, not of the saved CPU.
        cpu: Cpu { has_bios: s.bus.bios@.len() >= 0x4000, ..s.cpu.restored(c) },
        ..s
    }
}

#[verifier::opaque]
pub open spec fn cpu_loaded(s: GbaState, d: Seq<u8>) -> Loaded {
    if d.len() < CPU_LEN {
        (s, Err(end_message()))
    } else {
        let (c, rest) = get_cpu(d);
        (with_saved_cpu(s, c), Ok(rest))
    }
}

pub open spec fn with_saved_io(s: GbaState, regs: Seq<u8>, i: Interrupts) -> GbaState {
    GbaState {
        bus: Bus {
            io: s.bus.io.restored(
                IoSave {
                    regs: to_array(regs),
                    keypad: i.keypad,
                    keycnt: i.keycnt,
                    ie: i.ie,
                    iflags: i.iflags,
                    ime: i.ime,
                    vcount: i.vcount,
                },
            ),
            ..s.bus
        },
        ..s
    }
}

#[verifier::opaque]
pub open spec fn io_loaded(s: GbaState, d: Seq<u8>) -> Loaded {
    match bytes_at(d) {
        None => (s, Err(end_message())),
        Some((regs, d1)) => if d1.len() < LINES_LEN {
            (s, Err(end_message()))
        } else if regs.len() != 0x400 {
            (s, Err("IO regs wrong size"@))
        } else {
            let (i, rest) = get_lines(d1);
            (with_saved_io(s, regs, i), Ok(rest))
        },
    }
}

/// The five memories of a state.
pub struct Memories {
    pub ewram: Seq<u8>,
    pub iwram: Seq<u8>,
    pub vram: Seq<u8>,
    pub palram: Seq<u8>,
    pub oam: Seq<u8>,
}

#[verifier::opaque]
pub open spec fn memories_at(d: Seq<u8>) -> Option<(Memories, Seq<u8>)> {
    match bytes_at(d) {
        None => None,
        Some((ewram, d1)) => match bytes_at(d1) {
            None => None,
            Some((iwram, d2)) => match bytes_at(d2) {
                None => None,
                Some((vram, d3)) => match bytes_at(d3) {
                    None => None,
                    Some((palram, d4)) => match bytes_at(d4) {
                        None => None,
                        Some((oam, rest)) => Some(
                            (Memories { ewram, iwram, vram, palram, oam }, rest),
                        ),
                    },
                },
            },
        },
    }
}

pub open spec fn memories_fit(m: Memories) -> bool {
    m.ewram.len() == 0x40000 && m.iwram.len() == 0x8000 && m.vram.len() == 0x18000
        && m.palram.len() == 0x400 && m.oam.len() == 0x400
}

#[verifier::opaque]
pub open spec fn with_saved_memory(s: GbaState, m: Memories) -> GbaState {
    GbaState {
        bus: Bus {
            ewram: s.bus.ewram.overlaid(0, m.ewram),
            iwram: s.bus.iwram.overlaid(0, m.iwram),
            vram: s.bus.vram.overlaid(0, m.vram),
            palram: s.bus.palram.overlaid(0, m.palram),
            oam: s.bus.oam.overlaid(0, m.oam),
            ..s.bus
        },
        ..s
    }
}

#[verifier::opaque]
pub open spec fn memory_loaded(s: GbaState, d: Seq<u8>) -> Loaded {
    match memories_at(d) {
        None => (s, Err(end_message())),
        Some((m, rest)) => if memories_fit(m) {
            (with_saved_memory(s, m), Ok(rest))
        } else {
            (s, Err("memory wrong size"@))
        },
    }
}

pub open spec fn with_saved_cartridge(s: GbaState, code: u8, bank: u8, data: Seq<u8>) -> GbaState {
    let c = SaveCartridge {
        kind: save_of(code),
        detected: true,
        bank: (bank % 2) as usize,
        ..s.bus.save
    };
    GbaState { bus: Bus { save: c.after_load(data), ..s.bus }, ..s }
}

#[verifier::opaque]
pub open spec fn save_loaded(s: GbaState, d: Seq<u8>) -> Loaded {
    if d.len() < 1 {
        (s, Err(end_message()))
    } else {
        let (code, d1) = get_u8(d);
        if code > 3 {
            (s, Err(unknown_save(code)))
        } else if d1.len() < 1 {
            (s, Err(end_message()))
        } else {
            let (bank, d2) = get_u8(d1);
            match bytes_at(d2) {
                None => (s, Err(end_message())),
                Some((data, rest)) => (with_saved_cartridge(s, code, bank, data), Ok(rest)),
            }
        }
    }
}

#[verifier::opaque]
pub open spec fn timing_loaded(s: GbaState, d: Seq<u8>) -> Loaded {
    if d.len() < 4 {
        (s, Err(end_message()))
    } else {
        let (line_cycles, d1) = get_u32(d);
        let s1 = GbaState { line_cycles, ..s };
        if d1.len() < 4 {
            (s1, Err(end_message()))
        } else {
            let (line, d2) = get_u32(d1);
            let s2 = GbaState { line, ..s1 };
            if d2.len() < 8 {
                (s2, Err(end_message()))
            } else {
                let (frame_count, rest) = get_u64(d2);
                (GbaState { frame_count, ..s2 }, Ok(rest))
            }
        }
    }
}

#[verifier::opaque]
pub open spec fn body_loaded(s: GbaState, d: Seq<u8>) -> Loaded {
    match cpu_loaded(s, d) {
        (s1, Err(e)) => (s1, Err(e)),
        (s1, Ok(d1)) => match io_loaded(s1, d1) {
            (s2, Err(e)) => (s2, Err(e)),
            (s2, Ok(d2)) => match memory_loaded(s2, d2) {
                (s3, Err(e)) => (s3, Err(e)),
                (s3, Ok(d3)) => match save_loaded(s3, d3) {
                    (s4, Err(e)) => (s4, Err(e)),
                    (s4, Ok(d4)) => timing_loaded(s4, d4),
                },
            },
        },
    }
}

/// The machine after a state was loaded, and whether it was accepted.
#[verifier::opaque]
pub open spec fn state_loaded(s: GbaState, data: Seq<u8>) -> (GbaState, Result<(), Seq<char>>) {
    if data.len() < 4 {
        (s, Err("state too short"@))
    } else if data.take(4) != STATE_MAGIC@ {
        (s, Err(bad_magic(data.take(4))))
    } else if data.len() < 8 {
        (s, Err(end_message()))
    } else {
        let (version, d) = get_u32(data.skip(4));
        if version != STATE_VERSION {
            (s, Err(unknown_version(version)))
        } else {
            match body_loaded(s, d) {
                (s1, Err(e)) => (s1, Err(e)),
                (s1, Ok(rest)) => if rest.len() == 0 {
                    (s1, Ok(()))
                } else {
                    (s1, Err("trailing bytes in state"@))
                },
            }
        }
    }
}

fn end() -> (r: String)
    ensures
        r@ == end_message(),
{
    "unexpected end of state".to_owned()
}

fn save_io(w: &mut Writer, io: &Io)
    ensures
        forall|rest: Seq<u8>| #[trigger] (final(w)@ + rest) == old(w)@ + put_io(*io, rest),
{
    reveal(put_io);
    w.bytes(io.regs.as_slice());
    save_lines(
        w,
        &Interrupts {
            keypad: io.keypad,
            keycnt: io.keycnt,
            ie: io.ie,
            iflags: io.iflags,
            ime: io.ime,
            vcount: io.vcount,
        },
    );
}

fn save_memory(w: &mut Writer, b: &Bus)
    ensures
        forall|rest: Seq<u8>| #[trigger] (final(w)@ + rest) == old(w)@ + put_memory(*b, rest),
{
    reveal(put_memory);
    w.bytes(b.ewram.as_slice());
    w.bytes(b.iwram.as_slice());
    w.bytes(b.vram.as_slice());
    w.bytes(b.palram.as_slice());
    w.bytes(b.oam.as_slice());
}

fn save_cartridge(w: &mut Writer, s: &SaveCartridge)
    ensures
        forall|rest: Seq<u8>| #[trigger] (final(w)@ + rest) == old(w)@ + put_save(*s, rest),
{
    reveal(put_save);
    w.u8(save_type_to_u8(s.kind()));
    w.u8(s.flash_bank() as u8);
    assert(s.bytes().len() <= 0x20000);
    w.bytes(s.raw());
}

fn save_timing(w: &mut Writer, g: &Gba)
    ensures
        forall|rest: Seq<u8>| #[trigger] (final(w)@ + rest) == old(w)@ + put_timing(g@, rest),
{
    reveal(put_timing);
    w.u32(g.line_cycles);
    w.u32(g.line);
    w.u64(g.frame_count);
}

/// Serialize the whole machine.
pub fn save_state(gba: &Gba) -> (r: Vec<u8>)
    ensures
        r@ == put_state(gba@),
{
    reveal(put_state);
    reveal(put_body);
    let mut w = Writer::with_header(&STATE_MAGIC, STATE_VERSION);
    let cpu: CpuSave = gba.cpu.save();
    save_cpu(&mut w, &cpu);
    save_io(&mut w, &gba.bus.io);
    save_memory(&mut w, &gba.bus);
    save_cartridge(&mut w, &gba.bus.save);
    save_timing(&mut w, gba);
    proof {
        assert(w@ =~= w@ + Seq::<u8>::empty());
    }
    w.finish()
}

fn load_cpu_state(gba: &mut Gba, r: &mut Reader) -> (res: Result<(), String>)
    requires
        old(r).wf(),
    ensures
        final(r).wf(),
        final(r).data@ == old(r).data@,
        loads(old(gba)@, old(r).rest(), final(gba)@, final(r).rest(), res, |s: GbaState, d: Seq<u8>| cpu_loaded(s, d)),
        old(gba)@.wf() ==> final(gba)@.wf(),
{
    reveal(cpu_loaded);
    if r.remaining() < CPU_LEN {
        return Err(end());
    }
    let c: CpuSave = load_cpu(r);
    gba.cpu.restore(c);
    gba.cpu.set_has_bios(gba.bus.has_real_bios());
    Ok(())
}

/// A step of loading went as `step` says.
pub open spec fn loads(
    before: GbaState,
    rest: Seq<u8>,
    after: GbaState,
    left: Seq<u8>,
    res: Result<(), String>,
    step: spec_fn(GbaState, Seq<u8>) -> Loaded,
) -> bool {
    match step(before, rest) {
        (s, Ok(d)) => res is Ok && after == s && left == d,
        (s, Err(e)) => res is Err && res->Err_0@ == e && after == s,
    }
}

/// The next length-prefixed field, copied.
fn load_bytes(r: &mut Reader) -> (res: Option<Vec<u8>>)
    requires
        old(r).wf(),
    ensures
        final(r).wf(),
        final(r).data@ == old(r).data@,
        match res {
            Some(v) => bytes_at(old(r).rest()) == Some((v@, final(r).rest())),
            None => bytes_at(old(r).rest()) is None,
        },
{
    reveal(bytes_at);
    match r.bytes() {
        Ok(b) => {
            let mut v: Vec<u8> = Vec::new();
            v.extend_from_slice(b);
            assert(v@ =~= b@);
            Some(v)
        },
        Err(_) => None,
    }
}

fn to_regs(v: &Vec<u8>) -> (r: [u8; 0x400])
    requires
        v@.len() == 0x400,
    ensures
        r == to_array::<0x400>(v@),
{
    let mut r: [u8; 0x400] = [0; 0x400];
    let mut i: usize = 0;
    while i < 0x400
        invariant
            i <= 0x400,
            v@.len() == 0x400,
            forall|k: int| 0 <= k < i ==> r@[k] == v@[k],
        decreases 0x400 - i,
    {
        r[i] = v[i];
        i = i + 1;
    }
    proof {
        assert(r@ =~= v@);
        lemma_to_array(r);
    }
    r
}

fn load_io_state(gba: &mut Gba, r: &mut Reader) -> (res: Result<(), String>)
    requires
        old(r).wf(),
    ensures
        final(r).wf(),
        final(r).data@ == old(r).data@,
        loads(old(gba)@, old(r).rest(), final(gba)@, final(r).rest(), res, |s: GbaState, d: Seq<u8>| io_loaded(s, d)),
        old(gba)@.wf() ==> final(gba)@.wf(),
{
    reveal(io_loaded);
    let regs: Vec<u8> = match load_bytes(r) {
        Some(v) => v,
        None => return Err(end()),
    };
    if r.remaining() < LINES_LEN {
        return Err(end());
    }
    if regs.len() != 0x400 {
        return Err("IO regs wrong size".to_owned());
    }
    let i: Interrupts = load_lines(r);
    let regs: [u8; 0x400] = to_regs(&regs);
    gba.bus.io.restore(
        IoSave {
            regs,
            keypad: i.keypad,
            keycnt: i.keycnt,
            ie: i.ie,
            iflags: i.iflags,
            ime: i.ime,
            vcount: i.vcount,
        },
    );
    Ok(())
}

/// The memories of a state, as they were read.
struct MemoryBytes {
    ewram: Vec<u8>,
    iwram: Vec<u8>,
    vram: Vec<u8>,
    palram: Vec<u8>,
    oam: Vec<u8>,
}

impl MemoryBytes {
    spec fn bytes(self) -> Memories {
        Memories {
            ewram: self.ewram@,
            iwram: self.iwram@,
            vram: self.vram@,
            palram: self.palram@,
            oam: self.oam@,
        }
    }

    fn load(r: &mut Reader) -> (res: Option<MemoryBytes>)
        requires
            old(r).wf(),
        ensures
            final(r).wf(),
            final(r).data@ == old(r).data@,
            match res {
                Some(m) => memories_at(old(r).rest()) == Some((m.bytes(), final(r).rest())),
                None => memories_at(old(r).rest()) is None,
            },
    {
        reveal(memories_at);
        let ewram: Vec<u8> = match load_bytes(r) {
            Some(v) => v,
            None => return None,
        };
        let iwram: Vec<u8> = match load_bytes(r) {
            Some(v) => v,
            None => return None,
        };
        let vram: Vec<u8> = match load_bytes(r) {
            Some(v) => v,
            None => return None,
        };
        let palram: Vec<u8> = match load_bytes(r) {
            Some(v) => v,
            None => return None,
        };
        let oam: Vec<u8> = match load_bytes(r) {
            Some(v) => v,
            None => return None,
        };
        Some(MemoryBytes { ewram, iwram, vram, palram, oam })
    }

    fn fits(&self) -> (r: bool)
        ensures
            r == memories_fit(self.bytes()),
    {
        self.ewram.len() == 0x40000 && self.iwram.len() == 0x8000 && self.vram.len() == 0x18000
            && self.palram.len() == 0x400 && self.oam.len() == 0x400
    }
}

/// Replace a region as a whole.
fn replace<const N: usize>(m: &mut Mem<u8, N>, bytes: &Vec<u8>)
    requires
        bytes@.len() == N,
    ensures
        *final(m) == old(m).overlaid(0, bytes@),
{
    assert(bytes@.take(N as int) =~= bytes@);
    m.copy_from(0, bytes.as_slice(), N);
}

fn set_memory(gba: &mut Gba, m: &MemoryBytes)
    requires
        memories_fit(m.bytes()),
    ensures
        final(gba)@ == with_saved_memory(old(gba)@, m.bytes()),
        old(gba)@.wf() ==> final(gba)@.wf(),
{
    reveal(with_saved_memory);
    replace(&mut gba.bus.ewram, &m.ewram);
    replace(&mut gba.bus.iwram, &m.iwram);
    replace(&mut gba.bus.vram, &m.vram);
    replace(&mut gba.bus.palram, &m.palram);
    replace(&mut gba.bus.oam, &m.oam);
}

fn load_memory_state(gba: &mut Gba, r: &mut Reader) -> (res: Result<(), String>)
    requires
        old(r).wf(),
    ensures
        final(r).wf(),
        final(r).data@ == old(r).data@,
        loads(old(gba)@, old(r).rest(), final(gba)@, final(r).rest(), res, |s: GbaState, d: Seq<u8>| memory_loaded(s, d)),
        old(gba)@.wf() ==> final(gba)@.wf(),
{
    reveal(memory_loaded);
    let m: MemoryBytes = match MemoryBytes::load(r) {
        Some(m) => m,
        None => return Err(end()),
    };
    if !m.fits() {
        return Err("memory wrong size".to_owned());
    }
    set_memory(gba, &m);
    Ok(())
}

fn load_save_state(gba: &mut Gba, r: &mut Reader) -> (res: Result<(), String>)
    requires
        old(r).wf(),
    ensures
        final(r).wf(),
        final(r).data@ == old(r).data@,
        loads(old(gba)@, old(r).rest(), final(gba)@, final(r).rest(), res, |s: GbaState, d: Seq<u8>| save_loaded(s, d)),
        old(gba)@.wf() ==> final(gba)@.wf(),
{
    reveal(save_loaded);
    if r.remaining() < 1 {
        return Err(end());
    }
    let code: u8 = r.next_u8();
    let kind: SaveType = match save_type_from_u8(code) {
        Ok(kind) => kind,
        Err(e) => return Err(e),
    };
    if r.remaining() < 1 {
        return Err(end());
    }
    let bank: u8 = r.next_u8();
    let data: Vec<u8> = match load_bytes(r) {
        Some(v) => v,
        None => return Err(end()),
    };
    gba.bus.save.set_kind(kind);
    gba.bus.save.set_flash_bank(bank as usize);
    gba.bus.save.load(data.as_slice());
    Ok(())
}

fn load_timing_state(gba: &mut Gba, r: &mut Reader) -> (res: Result<(), String>)
    requires
        old(r).wf(),
    ensures
        final(r).wf(),
        final(r).data@ == old(r).data@,
        loads(old(gba)@, old(r).rest(), final(gba)@, final(r).rest(), res, |s: GbaState, d: Seq<u8>| timing_loaded(s, d)),
        old(gba)@.wf() ==> final(gba)@.wf(),
{
    reveal(timing_loaded);
    if r.remaining() < 4 {
        return Err(end());
    }
    gba.line_cycles = r.next_u32();
    if r.remaining() < 4 {
        return Err(end());
    }
    gba.line = r.next_u32();
    if r.remaining() < 8 {
        return Err(end());
    }
    gba.frame_count = r.next_u64();
    Ok(())
}

fn load_body(gba: &mut Gba, r: &mut Reader) -> (res: Result<(), String>)
    requires
        old(r).wf(),
    ensures
        final(r).wf(),
        final(r).data@ == old(r).data@,
        loads(old(gba)@, old(r).rest(), final(gba)@, final(r).rest(), res, |s: GbaState, d: Seq<u8>| body_loaded(s, d)),
        old(gba)@.wf() ==> final(gba)@.wf(),
{
    reveal(body_loaded);
    match load_cpu_state(gba, r) {
        Ok(()) => {},
        Err(e) => return Err(e),
    }
    match load_io_state(gba, r) {
        Ok(()) => {},
        Err(e) => return Err(e),
    }
    match load_memory_state(gba, r) {
        Ok(()) => {},
        Err(e) => return Err(e),
    }
    match load_save_state(gba, r) {
        Ok(()) => {},
        Err(e) => return Err(e),
    }
    load_timing_state(gba, r)
}

/// Restore a machine from a serialized state. A state that is refused partway
/// has changed what was read before the fault.
pub fn load_state(gba: &mut Gba, data: &[u8]) -> (r: Result<(), String>)
    ensures
        match state_loaded(old(gba)@, data@) {
            (s, Ok(())) => r is Ok && final(gba)@ == s,
            (s, Err(e)) => r is Err && r->Err_0@ == e && final(gba)@ == s,
        },
        old(gba)@.wf() ==> final(gba)@.wf(),
{
    reveal(state_loaded);
    if data.len() < 4 {
        return Err("state too short".to_owned());
    }
    let mut r = Reader::new(data);
    assert(r.rest() =~= data@);
    let magic: [u8; 4] = r.next_array();
    if magic[0] != STATE_MAGIC[0] || magic[1] != STATE_MAGIC[1] || magic[2] != STATE_MAGIC[2]
        || magic[3] != STATE_MAGIC[3] {
        proof {
            assert(magic@ == data@.take(4));
            assert(magic@ != STATE_MAGIC@) by {
                if magic@ == STATE_MAGIC@ {
                    assert(magic@[0] == STATE_MAGIC@[0] && magic@[1] == STATE_MAGIC@[1] && magic@[2]
                        == STATE_MAGIC@[2] && magic@[3] == STATE_MAGIC@[3]);
                }
            }
        }
        return Err(magic_error(magic.as_slice()));
    }
    assert(data@.take(4) =~= STATE_MAGIC@);
    assert(r.rest() =~= data@.skip(4));
    if r.remaining() < 4 {
        return Err(end());
    }
    let version: u32 = r.next_u32();
    if version != STATE_VERSION {
        return Err(numbered("unsupported version ", version as u64));
    }
    match load_body(gba, &mut r) {
        Ok(()) => {},
        Err(e) => return Err(e),
    }
    if r.remaining() != 0 {
        return Err("trailing bytes in state".to_owned());
    }
    Ok(())
}

impl Gba {
    /// Serialize the entire machine state (save state).
    pub fn save_state(&self) -> (r: Vec<u8>)
        ensures
            r@ == put_state(self@),
    {
        save_state(self)
    }

    /// Restore a machine state produced by [`Gba::save_state`].
    pub fn load_state(&mut self, data: &[u8]) -> (r: Result<(), String>)
        ensures
            match state_loaded(old(self)@, data@) {
                (s, Ok(())) => r is Ok && final(self)@ == s,
                (s, Err(e)) => r is Err && r->Err_0@ == e && final(self)@ == s,
            },
            old(self)@.wf() ==> final(self)@.wf(),
    {
        load_state(self, data)
    }
}

/// The cartridge `m` as a state restores it into `t`.
pub open spec fn restored_save(t: SaveCartridge, m: SaveCartridge) -> SaveCartridge {
    SaveCartridge {
        kind: m.kind,
        detected: true,
        bank: m.bank,
        flash: if m.kind == SaveType::Flash {
            m.flash
        } else {
            t.flash
        },
        sram: if m.kind == SaveType::Sram {
            m.sram
        } else {
            t.sram
        },
        dirty: false,
        ..t
    }
}

/// The machine `m` as a state restores it into `t`: what a state does not hold
/// stays as it is.
pub open spec fn restored(t: GbaState, m: GbaState) -> GbaState {
    GbaState {
        cpu: Cpu { has_bios: t.bus.bios@.len() >= 0x4000, ..t.cpu.restored(m.cpu.saved()) },
        bus: Bus {
            io: t.bus.io.restored(m.bus.io.saved()),
            ewram: m.bus.ewram,
            iwram: m.bus.iwram,
            vram: m.bus.vram,
            palram: m.bus.palram,
            oam: m.bus.oam,
            save: restored_save(t.bus.save, m.bus.save),
            ..t.bus
        },
        line_cycles: m.line_cycles,
        line: m.line,
        frame_count: m.frame_count,
        ..t
    }
}

/// A region overlaid as a whole is what it is overlaid with.
proof fn lemma_overlaid_whole<const N: usize>(t: Mem<u8, N>, m: Mem<u8, N>)
    ensures
        t.overlaid(0, m.0@) == m,
{
    let all = Seq::new(
        N as nat,
        |i: int|
            if 0 <= i < 0 + m.0@.len() {
                m.0@[i - 0]
            } else {
                t.at(i)
            },
    );
    assert(all =~= m.0@);
    lemma_to_array(*m.0);
}

proof fn lemma_bytes(b: Seq<u8>, rest: Seq<u8>)
    requires
        b.len() <= 0x40000,
    ensures
        bytes_at(put_bytes(b, rest)) == Some((b, rest)),
{
    reveal(bytes_at);
    bytes_round_trip(b, rest);
}

/// The memories as bytes.
pub open spec fn memories(b: Bus) -> Memories {
    Memories {
        ewram: b.ewram.0@,
        iwram: b.iwram.0@,
        vram: b.vram.0@,
        palram: b.palram.0@,
        oam: b.oam.0@,
    }
}

proof fn lemma_memories(b: Bus, rest: Seq<u8>)
    ensures
        memories_at(put_memory(b, rest)) == Some((memories(b), rest)),
{
    reveal(put_memory);
    reveal(memories_at);
    let d4 = put_bytes(b.oam.0@, rest);
    let d3 = put_bytes(b.palram.0@, d4);
    let d2 = put_bytes(b.vram.0@, d3);
    let d1 = put_bytes(b.iwram.0@, d2);
    lemma_bytes(b.oam.0@, rest);
    lemma_bytes(b.palram.0@, d4);
    lemma_bytes(b.vram.0@, d3);
    lemma_bytes(b.iwram.0@, d2);
    lemma_bytes(b.ewram.0@, d1);
}

proof fn lemma_memory(t: GbaState, m: GbaState, rest: Seq<u8>)
    ensures
        memory_loaded(t, put_memory(m.bus, rest)) == (
            GbaState {
                bus: Bus {
                    ewram: m.bus.ewram,
                    iwram: m.bus.iwram,
                    vram: m.bus.vram,
                    palram: m.bus.palram,
                    oam: m.bus.oam,
                    ..t.bus
                },
                ..t
            },
            Ok::<Seq<u8>, Seq<char>>(rest),
        ),
{
    reveal(memory_loaded);
    lemma_memories(m.bus, rest);
    reveal(with_saved_memory);
    let b = m.bus;
    lemma_overlaid_whole(t.bus.ewram, b.ewram);
    lemma_overlaid_whole(t.bus.iwram, b.iwram);
    lemma_overlaid_whole(t.bus.vram, b.vram);
    lemma_overlaid_whole(t.bus.palram, b.palram);
    lemma_overlaid_whole(t.bus.oam, b.oam);
}

proof fn lemma_cartridge(t: GbaState, m: GbaState, rest: Seq<u8>)
    requires
        m.bus.save.wf(),
    ensures
        save_loaded(t, put_save(m.bus.save, rest)) == (
            GbaState { bus: Bus { save: restored_save(t.bus.save, m.bus.save), ..t.bus }, ..t },
            Ok::<Seq<u8>, Seq<char>>(rest),
        ),
{
    reveal(put_save);
    reveal(save_loaded);
    broadcast use group_round_trips;

    let s = m.bus.save;
    lemma_bytes(s.bytes(), rest);
    lemma_overlaid_whole(t.bus.save.flash, s.flash);
    lemma_overlaid_whole(t.bus.save.sram, s.sram);
    assert(s.bytes().take(s.bytes().len() as int) =~= s.bytes());
    let c = SaveCartridge { kind: s.kind, detected: true, bank: s.bank, ..t.bus.save };
    assert(c.after_load(s.bytes()) == restored_save(t.bus.save, s));
    let d2 = put_bytes(s.bytes(), rest);
    let d1 = put_u8(s.bank as u8, d2);
    assert(get_u8(put_u8(save_code(s.kind), d1)) == (save_code(s.kind), d1));
    assert(get_u8(d1) == (s.bank as u8, d2));
}

proof fn lemma_io(t: GbaState, m: GbaState, rest: Seq<u8>)
    ensures
        io_loaded(t, put_io(m.bus.io, rest)) == (
            GbaState { bus: Bus { io: t.bus.io.restored(m.bus.io.saved()), ..t.bus }, ..t },
            Ok::<Seq<u8>, Seq<char>>(rest),
        ),
{
    reveal(put_io);
    reveal(io_loaded);
    let io = m.bus.io;
    let d1 = put_lines(interrupts(io), rest);
    lemma_lines_round_trip(interrupts(io), rest);
    lemma_bytes(io.regs@, d1);
    lemma_to_array(io.regs);
}

proof fn lemma_timing(t: GbaState, m: GbaState)
    ensures
        timing_loaded(t, put_timing(m, Seq::empty())) == (
            GbaState {
                line_cycles: m.line_cycles,
                line: m.line,
                frame_count: m.frame_count,
                ..t
            },
            Ok::<Seq<u8>, Seq<char>>(Seq::empty()),
        ),
{
    reveal(put_timing);
    reveal(timing_loaded);
    broadcast use group_round_trips;

    let d2 = put_u64(m.frame_count, Seq::empty());
    let d1 = put_u32(m.line, d2);
    let d = put_u32(m.line_cycles, d1);
    assert(get_u32(d) == (m.line_cycles, d1));
    assert(get_u32(d1) == (m.line, d2));
    assert(get_u64(d2) == (m.frame_count, Seq::<u8>::empty()));
}

proof fn lemma_body(t: GbaState, m: GbaState)
    requires
        m.bus.save.wf(),
        m.cpu.bios_wait != Some(0u16),
    ensures
        body_loaded(t, put_body(m)) == (
            restored(t, m),
            Ok::<Seq<u8>, Seq<char>>(Seq::empty()),
        ),
{
    let d4 = put_timing(m, Seq::empty());
    let d3 = put_save(m.bus.save, d4);
    let d2 = put_memory(m.bus, d3);
    let d1 = put_io(m.bus.io, d2);
    lemma_cpu_round_trip(m.cpu.saved(), d1);
    let s1 = with_saved_cpu(t, m.cpu.saved());
    assert(put_body(m) == put_cpu(m.cpu.saved(), d1)) by {
        reveal(put_body);
    }
    assert(cpu_loaded(t, put_body(m)) == (s1, Ok::<Seq<u8>, Seq<char>>(d1))) by {
        reveal(cpu_loaded);
    }
    lemma_io(s1, m, d2);
    let s2 = io_loaded(s1, d1).0;
    lemma_memory(s2, m, d3);
    let s3 = memory_loaded(s2, d2).0;
    lemma_cartridge(s3, m, d4);
    let s4 = save_loaded(s3, d3).0;
    lemma_timing(s4, m);
    reveal(body_loaded);
}

/// A saved machine comes back as it was, in every part that a state holds.
pub proof fn law_state_round_trip(t: GbaState, m: GbaState)
    requires
        m.bus.save.wf(),
        m.cpu.bios_wait != Some(0u16),
    ensures
        state_loaded(t, put_state(m)) == (restored(t, m), Ok::<(), Seq<char>>(())),
{
    broadcast use group_round_trips;

    reveal(state_loaded);
    reveal(put_state);
    lemma_body(t, m);
    let d = put_body(m);
    let data = put_state(m);
    let v = put_u32(STATE_VERSION, d);
    assert(get_u32(v) == (STATE_VERSION, d));
    assert(data.take(4) =~= STATE_MAGIC@);
    assert(data.skip(4) =~= v);
    assert(v.len() == d.len() + 4);
}

/// Saving a restored machine gives the same bytes again.
pub proof fn law_save_is_idempotent(t: GbaState, m: GbaState)
    requires
        m.bus.save.wf(),
        m.cpu.bios_wait != Some(0u16),
    ensures
        put_state(restored(t, m)) == put_state(m),
{
    reveal(put_state);
    reveal(put_body);
    reveal(put_io);
    reveal(put_memory);
    reveal(put_save);
    reveal(put_timing);
    let r = restored(t, m);
    law_snapshot(t.cpu, m.cpu);
    assert(r.cpu.saved() == m.cpu.saved());
    assert(r.bus.save.bytes() =~= m.bus.save.bytes());
    assert(interrupts(r.bus.io) == interrupts(m.bus.io));
}

proof fn lemma_bytes_extend(d: Seq<u8>, t: Seq<u8>)
    requires
        bytes_at(d) is Some,
    ensures
        bytes_at(d + t) == Some(((bytes_at(d)->0).0, (bytes_at(d)->0).1 + t)),
{
    reveal(bytes_at);
    bytes_extends(d, t);
}

/// A step that reads what it needs leaves the bytes behind it alone.
pub open spec fn extends(short: Loaded, long: Loaded, t: Seq<u8>) -> bool {
    short.1 is Ok ==> long == (short.0, Ok::<Seq<u8>, Seq<char>>(short.1->Ok_0 + t))
}

proof fn lemma_cpu_step_extends(s: GbaState, d: Seq<u8>, t: Seq<u8>)
    ensures
        extends(cpu_loaded(s, d), cpu_loaded(s, d + t), t),
{
    reveal(cpu_loaded);
    if d.len() >= CPU_LEN {
        lemma_cpu_extends(d, t);
    }
}

proof fn lemma_io_step_extends(s: GbaState, d: Seq<u8>, t: Seq<u8>)
    ensures
        extends(io_loaded(s, d), io_loaded(s, d + t), t),
{
    reveal(io_loaded);
    if bytes_at(d) is Some {
        lemma_bytes_extend(d, t);
        let d1 = (bytes_at(d)->0).1;
        if d1.len() >= LINES_LEN {
            lemma_lines_extends(d1, t);
        }
    }
}

proof fn lemma_memory_step_extends(s: GbaState, d: Seq<u8>, t: Seq<u8>)
    ensures
        extends(memory_loaded(s, d), memory_loaded(s, d + t), t),
{
    reveal(memory_loaded);
    if memories_at(d) is Some {
        lemma_memories_extend(d, t);
    }
}

proof fn lemma_save_step_extends(s: GbaState, d: Seq<u8>, t: Seq<u8>)
    ensures
        extends(save_loaded(s, d), save_loaded(s, d + t), t),
{
    broadcast use group_extends;

    reveal(save_loaded);
    if save_loaded(s, d).1 is Ok {
        let d1 = get_u8(d).1;
        let d2 = get_u8(d1).1;
        assert(get_u8(d + t) == (get_u8(d).0, d1 + t));
        assert(get_u8(d1 + t) == (get_u8(d1).0, d2 + t));
        lemma_bytes_extend(d2, t);
    }
}

proof fn lemma_timing_step_extends(s: GbaState, d: Seq<u8>, t: Seq<u8>)
    ensures
        extends(timing_loaded(s, d), timing_loaded(s, d + t), t),
{
    broadcast use group_extends;

    reveal(timing_loaded);
    if timing_loaded(s, d).1 is Ok {
        let d1 = get_u32(d).1;
        let d2 = get_u32(d1).1;
        assert(get_u32(d + t) == (get_u32(d).0, d1 + t));
        assert(get_u32(d1 + t) == (get_u32(d1).0, d2 + t));
        assert(get_u64(d2 + t) == (get_u64(d2).0, get_u64(d2).1 + t));
    }
}

proof fn lemma_body_extends(s: GbaState, d: Seq<u8>, t: Seq<u8>)
    ensures
        extends(body_loaded(s, d), body_loaded(s, d + t), t),
{
    reveal(body_loaded);
    if body_loaded(s, d).1 is Ok {
        lemma_cpu_step_extends(s, d, t);
        let (s1, r1) = cpu_loaded(s, d);
        lemma_io_step_extends(s1, r1->Ok_0, t);
        let (s2, r2) = io_loaded(s1, r1->Ok_0);
        lemma_memory_step_extends(s2, r2->Ok_0, t);
        let (s3, r3) = memory_loaded(s2, r2->Ok_0);
        lemma_save_step_extends(s3, r3->Ok_0, t);
        let (s4, r4) = save_loaded(s3, r3->Ok_0);
        lemma_timing_step_extends(s4, r4->Ok_0, t);
    }
}

proof fn lemma_memories_extend(d: Seq<u8>, t: Seq<u8>)
    requires
        memories_at(d) is Some,
    ensures
        memories_at(d + t) == Some(((memories_at(d)->0).0, (memories_at(d)->0).1 + t)),
{
    reveal(memories_at);
    lemma_bytes_extend(d, t);
    let d1 = (bytes_at(d)->0).1;
    lemma_bytes_extend(d1, t);
    let d2 = (bytes_at(d1)->0).1;
    lemma_bytes_extend(d2, t);
    let d3 = (bytes_at(d2)->0).1;
    lemma_bytes_extend(d3, t);
    let d4 = (bytes_at(d3)->0).1;
    lemma_bytes_extend(d4, t);
}

/// A state with bytes behind its end is refused.
pub proof fn law_trailing_bytes_are_rejected(s: GbaState, data: Seq<u8>, extra: Seq<u8>)
    requires
        state_loaded(s, data).1 is Ok,
        extra.len() > 0,
    ensures
        state_loaded(s, data + extra).1 == Err::<(), Seq<char>>("trailing bytes in state"@),
{
    broadcast use group_extends;

    reveal(state_loaded);
    let all = data + extra;
    assert(all.take(4) =~= data.take(4));
    assert(all.skip(4) =~= data.skip(4) + extra);
    let (version, d) = get_u32(data.skip(4));
    assert(get_u32(data.skip(4) + extra) == (version, d + extra));
    lemma_body_extends(s, d, extra);
    assert((body_loaded(s, d).1->Ok_0 + extra).len() > 0);
}

/// A state that was cut short is refused.
pub proof fn law_truncated_states_are_rejected(t: GbaState, m: GbaState, n: int)
    requires
        m.bus.save.wf(),
        m.cpu.bios_wait != Some(0u16),
        0 <= n < put_state(m).len(),
    ensures
        state_loaded(t, put_state(m).take(n)).1 is Err,
{
    let whole = put_state(m);
    let data = whole.take(n);
    if state_loaded(t, data).1 is Ok {
        let extra = whole.skip(n);
        assert(data + extra =~= whole);
        law_trailing_bytes_are_rejected(t, data, extra);
        law_state_round_trip(t, m);
    }
}

} // verus!
