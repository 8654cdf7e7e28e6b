//! The command processor: command lists and the internal register file
//! (3dbrew, "GPU/Internal Registers").
//!
//! A command is a parameter word and a header word: the register ID, a mask
//! of the parameter's four bytes, a count of further parameters, and whether
//! those go to the following registers or all to the same one. Commands are
//! padded to a whole number of word pairs. A write to `FINALIZE` ends the
//! list and asks for the P3D interrupt.
//!
//! Most registers only hold what is written, for the later stages to read.
//! The shader blocks (geometry at 0x280, vertex at 0x2B0) have FIFOs behind
//! them: code and operand descriptors go to an index that advances by itself,
//! and float uniforms arrive as three words of 24-bit floats or four of
//! single precision, last component first.

use crate::bits::{filled, put};
use crate::pica::arith::{from_float24, widened};
use crate::pica::shader::{Program, Uniforms, Vec4};
use crate::softfloat::F32;
use vstd::prelude::*;

pub mod reg;
pub mod sh;

verus! {

pub const REGISTERS: usize = 0x300;

/// Words of shader code and of operand descriptors a unit holds: the index
/// registers are twelve bits wide.
pub const BANK: usize = 0x1000;

/// One of the two shader blocks: its program, its uniforms and the state of
/// the three upload FIFOs.
#[derive(Clone, Debug)]
pub struct ShaderSetup {
    pub program: Program,
    pub uniforms: Uniforms,
    pub entry: u32,
    pub float_index: usize,
    pub float_single: bool,
    pub float_words: Vec<u32>,
    pub code_index: usize,
    pub opdesc_index: usize,
}

/// A shader block's state as a value.
pub struct SetupState {
    pub code: Seq<u32>,
    pub operands: Seq<u32>,
    pub uniforms: Uniforms,
    pub entry: u32,
    pub float_index: usize,
    pub float_single: bool,
    pub float_words: Seq<u32>,
    pub code_index: usize,
    pub opdesc_index: usize,
}

impl View for ShaderSetup {
    type V = SetupState;

    open spec fn view(&self) -> SetupState {
        SetupState {
            code: self.program.code@,
            operands: self.program.operands@,
            uniforms: self.uniforms,
            entry: self.entry,
            float_index: self.float_index,
            float_single: self.float_single,
            float_words: self.float_words@,
            code_index: self.code_index,
            opdesc_index: self.opdesc_index,
        }
    }
}

/// The index after `i`; it stops at the largest one.
pub open spec fn advanced(i: usize) -> usize {
    if i == usize::MAX {
        i
    } else {
        (i + 1) as usize
    }
}

fn advance(i: usize) -> (r: usize)
    ensures
        r == advanced(i),
{
    if i == usize::MAX {
        i
    } else {
        i + 1
    }
}

/// `words` with word `i` replaced; one past the end is dropped.
pub open spec fn stored(words: Seq<u32>, i: usize, value: u32) -> Seq<u32> {
    if i < words.len() {
        words.update(i as int, value)
    } else {
        words
    }
}

/// The uniform that the words of the FIFO make up: w arrives first, x last.
/// Single precision is taken as it is; 24-bit floats are packed as ZZWWWWWW,
/// YYYYZZZZ, XXXXXXYY.
pub open spec fn vector(single: bool, w: Seq<u32>) -> Vec4 {
    if single {
        [F32(w[3]), F32(w[2]), F32(w[1]), F32(w[0])]
    } else {
        [
            widened((w[2] / 256) as u32),
            widened((w[2] % 256 * 0x1_0000 + w[1] / 0x1_0000) as u32),
            widened((w[1] % 0x1_0000 * 256 + w[0] / 0x100_0000) as u32),
            widened((w[0] % 0x100_0000) as u32),
        ]
    }
}

impl SetupState {
    pub open spec fn cleared() -> SetupState {
        SetupState {
            code: Seq::new(0x1000, |i: int| 0u32),
            operands: Seq::new(0x1000, |i: int| 0u32),
            uniforms: Uniforms::cleared(),
            entry: 0,
            float_index: 0,
            float_single: false,
            float_words: Seq::empty(),
            code_index: 0,
            opdesc_index: 0,
        }
    }

    /// The words that make up a uniform.
    pub open spec fn needed(self) -> nat {
        if self.float_single {
            4
        } else {
            3
        }
    }

    /// The FIFO holds less than a uniform.
    pub open spec fn wf(self) -> bool {
        self.float_words.len() < self.needed()
    }

    /// One more word in the float FIFO; a complete uniform is stored, and
    /// dropped where there is none of its number.
    pub open spec fn float_pushed(self, value: u32) -> SetupState {
        let words = self.float_words.push(value);
        if words.len() == self.needed() {
            SetupState {
                uniforms: if self.float_index < 96 {
                    Uniforms {
                        float: put(
                            self.uniforms.float,
                            self.float_index as int,
                            vector(self.float_single, words),
                        ),
                        ..self.uniforms
                    }
                } else {
                    self.uniforms
                },
                float_index: advanced(self.float_index),
                float_words: Seq::empty(),
                ..self
            }
        } else {
            SetupState { float_words: words, ..self }
        }
    }

    /// The block after a write at `offset`; `value` is the register after
    /// masking.
    pub open spec fn after_write(self, offset: u32, value: u32) -> SetupState {
        if offset == sh::BOOL {
            SetupState { uniforms: Uniforms { boolean: value as u16, ..self.uniforms }, ..self }
        } else if sh::INT <= offset <= sh::INT_LAST {
            SetupState {
                uniforms: Uniforms {
                    int: put(
                        self.uniforms.int,
                        offset - 1,
                        [
                            (value % 256) as u8,
                            (value / 0x100 % 256) as u8,
                            (value / 0x1_0000 % 256) as u8,
                            (value / 0x100_0000) as u8,
                        ],
                    ),
                    ..self.uniforms
                },
                ..self
            }
        } else if offset == sh::ENTRY {
            SetupState { entry: (value % 0x1_0000) as u32, ..self }
        } else if offset == sh::FLOAT_INDEX {
            SetupState {
                float_index: (value % 256) as usize,
                float_single: value >= 0x8000_0000,
                float_words: Seq::empty(),
                ..self
            }
        } else if sh::FLOAT_DATA <= offset <= sh::FLOAT_DATA_LAST {
            self.float_pushed(value)
        } else if offset == sh::CODE_INDEX {
            SetupState { code_index: (value % 0x1000) as usize, ..self }
        } else if sh::CODE_DATA <= offset <= sh::CODE_DATA_LAST {
            SetupState {
                code: stored(self.code, self.code_index, value),
                code_index: advanced(self.code_index),
                ..self
            }
        } else if offset == sh::OPDESC_INDEX {
            SetupState { opdesc_index: (value % 0x1000) as usize, ..self }
        } else if sh::OPDESC_DATA <= offset <= sh::OPDESC_DATA_LAST {
            SetupState {
                operands: stored(self.operands, self.opdesc_index, value),
                opdesc_index: advanced(self.opdesc_index),
                ..self
            }
        } else {
            self
        }
    }
}

impl ShaderSetup {
    pub fn new() -> (r: ShaderSetup)
        ensures
            r@ == SetupState::cleared(),
            r@.wf(),
    {
        let code: Vec<u32> = vec![0; BANK];
        let operands: Vec<u32> = vec![0; BANK];
        assert(code@ =~= Seq::new(0x1000, |i: int| 0u32));
        assert(operands@ =~= Seq::new(0x1000, |i: int| 0u32));
        ShaderSetup {
            program: Program { code, operands },
            uniforms: Uniforms::default(),
            entry: 0,
            float_index: 0,
            float_single: false,
            float_words: Vec::with_capacity(4),
            code_index: 0,
            opdesc_index: 0,
        }
    }

    fn push_float(&mut self, value: u32)
        requires
            old(self)@.wf(),
        ensures
            final(self)@ == old(self)@.float_pushed(value),
            final(self)@.wf(),
    {
        self.float_words.push(value);
        let needed: usize = if self.float_single {
            4
        } else {
            3
        };
        if self.float_words.len() == needed {
            let v: Vec4 = self.take_vector();
            if self.float_index < 96 {
                self.uniforms.float[self.float_index] = v;
            }
            self.float_index = advance(self.float_index);
        }
    }

    fn store_code(&mut self, value: u32)
        ensures
            final(self)@ == (SetupState {
                code: stored(old(self)@.code, old(self)@.code_index, value),
                code_index: advanced(old(self)@.code_index),
                ..old(self)@
            }),
    {
        if self.code_index < self.program.code.len() {
            self.program.code.set(self.code_index, value);
        }
        self.code_index = advance(self.code_index);
    }

    fn store_operand(&mut self, value: u32)
        ensures
            final(self)@ == (SetupState {
                operands: stored(old(self)@.operands, old(self)@.opdesc_index, value),
                opdesc_index: advanced(old(self)@.opdesc_index),
                ..old(self)@
            }),
    {
        if self.opdesc_index < self.program.operands.len() {
            self.program.operands.set(self.opdesc_index, value);
        }
        self.opdesc_index = advance(self.opdesc_index);
    }

    /// A write to the block at `offset`; `value` is the register after
    /// masking.
    pub fn write(&mut self, offset: u32, value: u32)
        requires
            old(self)@.wf(),
        ensures
            final(self)@ == old(self)@.after_write(offset, value),
            final(self)@.wf(),
    {
        if offset == sh::BOOL {
            self.uniforms.boolean = value as u16;
        } else if sh::INT <= offset && offset <= sh::INT_LAST {
            self.uniforms.int[(offset - 1) as usize] = [
                (value % 256) as u8,
                (value / 0x100 % 256) as u8,
                (value / 0x1_0000 % 256) as u8,
                (value / 0x100_0000) as u8,
            ];
        } else if offset == sh::ENTRY {
            self.entry = value % 0x1_0000;
        } else if offset == sh::FLOAT_INDEX {
            self.float_index = (value % 256) as usize;
            self.float_single = value >= 0x8000_0000;
            self.float_words = Vec::new();
            assert(self.float_words@ =~= Seq::<u32>::empty());
        } else if sh::FLOAT_DATA <= offset && offset <= sh::FLOAT_DATA_LAST {
            self.push_float(value);
        } else if offset == sh::CODE_INDEX {
            self.code_index = (value % 0x1000) as usize;
        } else if sh::CODE_DATA <= offset && offset <= sh::CODE_DATA_LAST {
            self.store_code(value);
        } else if offset == sh::OPDESC_INDEX {
            self.opdesc_index = (value % 0x1000) as usize;
        } else if sh::OPDESC_DATA <= offset && offset <= sh::OPDESC_DATA_LAST {
            self.store_operand(value);
        }
    }

    /// The uniform the FIFO has collected: w arrives first, x last.
    fn take_vector(&mut self) -> (r: Vec4)
        requires
            old(self)@.float_words.len() == old(self)@.needed(),
        ensures
            r == vector(old(self)@.float_single, old(self)@.float_words),
            final(self)@ == (SetupState { float_words: Seq::empty(), ..old(self)@ }),
    {
        let mut w: Vec<u32> = Vec::new();
        core::mem::swap(&mut w, &mut self.float_words);
        assert(self.float_words@ =~= Seq::<u32>::empty());
        let r: Vec4 = if self.float_single {
            // Subnormals and negative zero are dealt with when a shader reads
            // the value.
            [F32(w[3]), F32(w[2]), F32(w[1]), F32(w[0])]
        } else {
            [
                from_float24(w[2] / 256),
                from_float24(w[2] % 256 * 0x1_0000 + w[1] / 0x1_0000),
                from_float24(w[1] % 0x1_0000 * 256 + w[0] / 0x100_0000),
                from_float24(w[0] % 0x100_0000),
            ]
        };
        assert(r =~= vector(self.float_single, w@));
        r
    }
}

impl Default for ShaderSetup {
    fn default() -> (r: ShaderSetup)
        ensures
            r@ == SetupState::cleared(),
            r@.wf(),
    {
        ShaderSetup::new()
    }
}

/// What ended a command list.
#[derive(Clone, Copy, PartialEq, Eq, Structural, Debug)]
pub enum ListEnd {
    /// `FINALIZE` was written: the P3D interrupt is due.
    Finalized,
    /// The words ran out first; the hardware would hang here.
    Exhausted,
    /// A jump register was written: continue with the buffer of that index,
    /// whose address and size registers the caller reads.
    Jump(usize),
}

#[derive(Clone, Debug)]
pub struct Gpu {
    pub regs: [u32; 0x300],
    pub geometry: ShaderSetup,
    pub vertex: ShaderSetup,
}

/// A GPU's registers as a value.
pub struct GpuState {
    pub regs: [u32; 0x300],
    pub geometry: SetupState,
    pub vertex: SetupState,
}

impl View for Gpu {
    type V = GpuState;

    open spec fn view(&self) -> GpuState {
        GpuState { regs: self.regs, geometry: self.geometry@, vertex: self.vertex@ }
    }
}

/// One byte of a masked write.
pub open spec fn merged_byte(kept: int, new: int, selected: bool) -> int {
    if selected {
        new
    } else {
        kept
    }
}

/// `kept` with the bytes of `new` that the four-bit `mask` selects.
pub open spec fn merged(kept: u32, new: u32, mask: u32) -> u32 {
    (merged_byte(kept as int % 256, new as int % 256, mask % 2 == 1) + merged_byte(
        kept as int / 0x100 % 256,
        new as int / 0x100 % 256,
        mask / 2 % 2 == 1,
    ) * 0x100 + merged_byte(
        kept as int / 0x1_0000 % 256,
        new as int / 0x1_0000 % 256,
        mask / 4 % 2 == 1,
    ) * 0x1_0000 + merged_byte(
        kept as int / 0x100_0000,
        new as int / 0x100_0000,
        mask / 8 % 2 == 1,
    ) * 0x100_0000) as u32
}

fn merge(kept: u32, new: u32, mask: u32) -> (r: u32)
    ensures
        r == merged(kept, new, mask),
{
    let b0: u32 = if mask % 2 == 1 {
        new % 256
    } else {
        kept % 256
    };
    let b1: u32 = if mask / 2 % 2 == 1 {
        new / 0x100 % 256
    } else {
        kept / 0x100 % 256
    };
    let b2: u32 = if mask / 4 % 2 == 1 {
        new / 0x1_0000 % 256
    } else {
        kept / 0x1_0000 % 256
    };
    let b3: u32 = if mask / 8 % 2 == 1 {
        new / 0x100_0000
    } else {
        kept / 0x100_0000
    };
    b0 + b1 * 0x100 + b2 * 0x1_0000 + b3 * 0x100_0000
}

impl GpuState {
    pub open spec fn cleared() -> GpuState {
        GpuState {
            regs: filled(0),
            geometry: SetupState::cleared(),
            vertex: SetupState::cleared(),
        }
    }

    pub open spec fn wf(self) -> bool {
        self.geometry.wf() && self.vertex.wf()
    }

    /// The GPU after a masked write to register `id`; one that does not exist
    /// is ignored. The shader blocks see the register after masking.
    pub open spec fn after_write(self, id: u32, value: u32, mask: u32) -> GpuState {
        if id >= REGISTERS {
            self
        } else {
            let v = merged(self.regs[id as int], value, mask);
            let s = GpuState { regs: put(self.regs, id as int, v), ..self };
            if reg::GSH <= id < reg::VSH {
                GpuState { geometry: self.geometry.after_write((id - reg::GSH) as u32, v), ..s }
            } else if reg::VSH <= id <= 0x2DF {
                GpuState { vertex: self.vertex.after_write((id - reg::VSH) as u32, v), ..s }
            } else {
                s
            }
        }
    }

    /// The parameters of the command at `at`, from number `i` up to `n`.
    pub open spec fn parameters_written(
        self,
        words: Seq<u32>,
        at: int,
        i: int,
        n: int,
        id: u32,
        mask: u32,
        consecutive: bool,
    ) -> (GpuState, Option<ListEnd>)
        decreases n - i,
    {
        if i >= n {
            (self, None)
        } else {
            let value = if i == 0 {
                words[at]
            } else {
                words[at + 1 + i]
            };
            let s = self.after_write(id, value, mask);
            if id == reg::FINALIZE {
                (s, Some(ListEnd::Finalized))
            } else if id == reg::CMDBUF_JUMP0 || id == 0x23D {
                (s, Some(ListEnd::Jump((id - reg::CMDBUF_JUMP0) as usize)))
            } else {
                s.parameters_written(
                    words,
                    at,
                    i + 1,
                    n,
                    if consecutive {
                        (id + 1) as u32
                    } else {
                        id
                    },
                    mask,
                    consecutive,
                )
            }
        }
    }

    /// The command list `words` from `at` on.
    pub open spec fn list_run(self, words: Seq<u32>, at: int) -> (GpuState, ListEnd)
        decreases
                if at < words.len() {
                    words.len() - at
                } else {
                    0
                },
    {
        if at < 0 || at + 1 >= words.len() {
            (self, ListEnd::Exhausted)
        } else {
            let header = words[at + 1];
            let extra = header as int / 0x10_0000 % 256;
            let there = words.len() - at - 2;
            let n = 1 + (if extra < there {
                extra
            } else {
                there
            });
            let (s, end) = self.parameters_written(
                words,
                at,
                0,
                n,
                (header % 0x1_0000) as u32,
                (header / 0x1_0000 % 16) as u32,
                header >= 0x8000_0000,
            );
            match end {
                Some(e) => (s, e),
                // The header pair, the extra words, and padding to a pair.
                None => s.list_run(words, at + 2 + extra + extra % 2),
            }
        }
    }
}

impl Gpu {
    pub fn new() -> (r: Gpu)
        ensures
            r@ == GpuState::cleared(),
            r@.wf(),
    {
        Gpu { regs: [0; 0x300], geometry: ShaderSetup::new(), vertex: ShaderSetup::new() }
    }

    /// The physical address and length in bytes of command buffer `index`.
    pub fn command_buffer(&self, index: usize) -> (r: (u32, u32))
        requires
            index < 0xC6,
        ensures
            r.0 == self@.regs[0x23A + index] % 0x2000_0000 * 8,
            r.1 == self@.regs[0x238 + index] % 0x20_0000 * 8,
    {
        let size: u32 = self.regs[0x238 + index] % 0x20_0000;
        let addr: u32 = self.regs[0x23A + index] % 0x2000_0000;
        (addr * 8, size * 8)
    }

    /// Write the bytes of `value` that the four-bit `mask` selects to
    /// register `id`.
    pub fn write_register(&mut self, id: u32, value: u32, mask: u32)
        requires
            old(self)@.wf(),
        ensures
            final(self)@ == old(self)@.after_write(id, value, mask),
            final(self)@.wf(),
    {
        if id as usize >= REGISTERS {
            return;
        }
        let v: u32 = merge(self.regs[id as usize], value, mask);
        self.regs[id as usize] = v;
        if reg::GSH <= id && id < reg::VSH {
            self.geometry.write(id - reg::GSH, v);
        } else if reg::VSH <= id && id <= 0x2DF {
            self.vertex.write(id - reg::VSH, v);
        }
    }

    fn write_parameters(
        &mut self,
        words: &[u32],
        at: usize,
        n: usize,
        first: u32,
        mask: u32,
        consecutive: bool,
    ) -> (r: Option<ListEnd>)
        requires
            old(self)@.wf(),
            n >= 1,
            at + 1 + n <= words@.len(),
            n <= 257,
            first < 0x1_0000,
        ensures
            final(self)@.wf(),
            (final(self)@, r) == old(self)@.parameters_written(
                words@,
                at as int,
                0,
                n as int,
                first,
                mask,
                consecutive,
            ),
    {
        let total: usize = words.len();
        let mut id: u32 = first;
        let mut i: usize = 0;
        while i < n
            invariant
                self@.wf(),
                i <= n <= 257,
                at + 1 + n <= words@.len(),
                total == words@.len(),
                id <= first + i,
                first < 0x1_0000,
                self@.parameters_written(
                    words@,
                    at as int,
                    i as int,
                    n as int,
                    id,
                    mask,
                    consecutive,
                ) == old(self)@.parameters_written(
                    words@,
                    at as int,
                    0,
                    n as int,
                    first,
                    mask,
                    consecutive,
                ),
            decreases n - i,
        {
            let value: u32 = if i == 0 {
                words[at]
            } else {
                words[at + 1 + i]
            };
            self.write_register(id, value, mask);
            if id == reg::FINALIZE {
                return Some(ListEnd::Finalized);
            }
            if id == reg::CMDBUF_JUMP0 || id == 0x23D {
                return Some(ListEnd::Jump((id - reg::CMDBUF_JUMP0) as usize));
            }
            if consecutive {
                id = id + 1;
            }
            i = i + 1;
        }
        None
    }

    /// Carry out a command list.
    pub fn run_list(&mut self, words: &[u32]) -> (r: ListEnd)
        requires
            old(self)@.wf(),
        ensures
            final(self)@.wf(),
            (final(self)@, r) == old(self)@.list_run(words@, 0),
    {
        let total: usize = words.len();
        let mut at: usize = 0;
        while at < total && total - at >= 2
            invariant
                self@.wf(),
                total == words@.len(),
                self@.list_run(words@, at as int) == old(self)@.list_run(words@, 0),
            decreases total - at,
        {
            let ghost before = self@;
            let header: u32 = words[at + 1];
            let extra: usize = (header / 0x10_0000 % 256) as usize;
            let there: usize = total - at - 2;
            let n: usize = 1 + (if extra < there {
                extra
            } else {
                there
            });
            let end: Option<ListEnd> = self.write_parameters(
                words,
                at,
                n,
                header % 0x1_0000,
                header / 0x1_0000 % 16,
                header >= 0x8000_0000,
            );
            if let Some(e) = end {
                return e;
            }
            let skip: usize = 2 + extra + extra % 2;
            assert(before.list_run(words@, at as int) == self@.list_run(words@, at + skip));
            if skip > total - at {
                at = total;
            } else {
                at = at + skip;
            }
        }
        ListEnd::Exhausted
    }
}

impl Default for Gpu {
    fn default() -> (r: Gpu)
        ensures
            r@ == GpuState::cleared(),
            r@.wf(),
    {
        Gpu::new()
    }
}

/// A write with the full mask stores its value; one with an empty mask changes
/// no register.
pub proof fn law_masked_writes(g: GpuState, id: u32, value: u32)
    requires
        id < REGISTERS,
    ensures
        g.after_write(id, value, 0xF).regs[id as int] == value,
        g.after_write(id, value, 0).regs == g.regs,
{
    let k = g.regs[id as int];
    assert(merged(k, value, 0xF) == value);
    assert(merged(k, value, 0) == k);
    assert(g.after_write(id, value, 0).regs =~= g.regs);
}

/// The two shader blocks are separate: a write to one leaves the other as it
/// is, and any other register leaves both.
pub proof fn law_blocks_are_separate(g: GpuState, id: u32, value: u32, mask: u32)
    ensures
        id < reg::GSH || id >= reg::VSH ==> g.after_write(id, value, mask).geometry == g.geometry,
        id < reg::VSH || id > 0x2DF ==> g.after_write(id, value, mask).vertex == g.vertex,
{
}

/// A list that writes `FINALIZE` first ends there.
pub proof fn law_finalize_ends_the_list(g: GpuState, words: Seq<u32>)
    requires
        words.len() >= 2,
        words[1] % 0x1_0000 == reg::FINALIZE,
    ensures
        g.list_run(words, 0).1 == ListEnd::Finalized,
{
    let header = words[1];
    let extra = header as int / 0x10_0000 % 256;
    let there = words.len() - 2;
    let n = 1 + (if extra < there {
        extra
    } else {
        there
    });
    let (s, end) = g.parameters_written(
        words,
        0,
        0,
        n,
        reg::FINALIZE,
        (header / 0x1_0000 % 16) as u32,
        header >= 0x8000_0000,
    );
    assert(end == Some(ListEnd::Finalized));
}

/// A float uniform is uploaded by its index and its words, in single precision
/// or as 24-bit floats, last component first; the index moves on.
pub proof fn law_uniform_upload(s: SetupState, index: u32, a: u32, b: u32, c: u32, d: u32)
    requires
        index % 256 < 96,
    ensures
        ({
            let begun = s.after_write(sh::FLOAT_INDEX, index);
            let three = begun.after_write(sh::FLOAT_DATA, a).after_write(
                sh::FLOAT_DATA,
                b,
            ).after_write(sh::FLOAT_DATA, c);
            let i = index as int % 256;
            &&& index < 0x8000_0000 ==> three.uniforms.float[i] == vector(false, seq![a, b, c])
                && three.float_index == i + 1 && three.float_words.len() == 0
            &&& index >= 0x8000_0000 ==> {
                let four = three.after_write(sh::FLOAT_DATA, d);
                &&& four.uniforms.float[i] == [F32(d), F32(c), F32(b), F32(a)]
                &&& four.float_index == i + 1
                &&& four.float_words.len() == 0
            }
        }),
{
    let w0 = Seq::<u32>::empty();
    assert(w0.push(a).push(b).push(c) =~= seq![a, b, c]);
    assert(w0.push(a).push(b).push(c).push(d) =~= seq![a, b, c, d]);
}

/// Shader code goes to the place that its index names, and the index moves on.
pub proof fn law_code_upload(s: SetupState, index: u32, value: u32)
    requires
        s.code.len() == BANK,
    ensures
        ({
            let t = s.after_write(sh::CODE_INDEX, index).after_write(sh::CODE_DATA, value);
            let i = index as int % 0x1000;
            &&& t.code == s.code.update(i, value)
            &&& t.code_index == i + 1
        }),
{
}

} // verus!
