use crabboy::pica::arith::ONE;
use crabboy::pica::command::{reg, sh, Gpu, ListEnd};
use crabboy::pica::shader::Unit;
use crabboy::softfloat::F32;

fn header(id: u32, mask: u32, extra: u32, consecutive: bool) -> u32 {
    id | mask << 16 | extra << 20 | (consecutive as u32) << 31
}

#[test]
fn the_documented_example_writes_three_registers() {
    let mut gpu = Gpu::new();
    let list = [0xAAAA_AAAA, 0x802F_011C, 0xBBBB_BBBB, 0xCCCC_CCCC];
    assert_eq!(gpu.run_list(&list), ListEnd::Exhausted);
    assert_eq!(
        gpu.regs[0x11C..0x11F],
        [0xAAAA_AAAA, 0xBBBB_BBBB, 0xCCCC_CCCC]
    );

    // Without consecutive mode they all land on the first.
    let mut gpu = Gpu::new();
    let list = [0xAAAA_AAAA, 0x002F_011C, 0xBBBB_BBBB, 0xCCCC_CCCC];
    gpu.run_list(&list);
    assert_eq!(gpu.regs[0x11C..0x11F], [0xCCCC_CCCC, 0, 0]);
}

#[test]
fn the_mask_selects_bytes_and_odd_extras_are_padded() {
    let mut gpu = Gpu::new();
    let list = [
        0x1122_3344,
        header(0x100, 0xF, 0, false),
        0xAABB_CCDD,
        header(0x100, 0b0101, 1, true),
        0x5566_7788,
        0xDEAD_BEEF, // padding
        0x0000_0001,
        header(0x102, 0xF, 0, false),
    ];
    gpu.run_list(&list);
    assert_eq!(gpu.regs[0x100], 0x11BB_33DD);
    assert_eq!(gpu.regs[0x101], 0x0066_0088);
    assert_eq!(gpu.regs[0x102], 1);
}

#[test]
fn finalize_ends_the_list_and_a_jump_names_its_buffer() {
    let mut gpu = Gpu::new();
    let list = [
        0x1234_5678,
        header(reg::FINALIZE, 0xF, 0, false),
        7,
        header(0x100, 0xF, 0, false),
    ];
    assert_eq!(gpu.run_list(&list), ListEnd::Finalized);
    assert_eq!(gpu.regs[0x100], 0, "nothing runs after FINALIZE");

    let list = [
        0x0010_0000 >> 3,
        header(reg::CMDBUF_ADDR0 + 1, 0xF, 0, false),
        0x40 >> 3,
        header(reg::CMDBUF_SIZE0 + 1, 0xF, 0, false),
        1,
        header(reg::CMDBUF_JUMP0 + 1, 0xF, 0, false),
    ];
    assert_eq!(gpu.run_list(&list), ListEnd::Jump(1));
    assert_eq!(gpu.command_buffer(1), (0x0010_0000, 0x40));
}

#[test]
fn a_vertex_shader_is_uploaded_and_runs() {
    // mov o0, c5 ; end, with c5 sent as 24-bit floats and c6 as singles.
    let mov = 0x13 << 26 | 0x25 << 12;
    let end = 0x22 << 26;
    let plain = 0x1B << 5 | 0xF;
    // (x, y, z, w) = (1.0, -1.0, 3.0, 0.5) in the 24-bit format.
    let (x, y, z, w) = (0x3F_0000u32, 0xBF_0000u32, 0x40_8000u32, 0x3E_0000u32);
    let list = [
        0,
        header(reg::VSH + sh::CODE_INDEX, 0xF, 2, true),
        mov,
        end,
        0,
        header(reg::VSH + sh::OPDESC_INDEX, 0xF, 1, true),
        plain,
        0xDEAD_BEEF, // padding
        5,
        header(reg::VSH + sh::FLOAT_INDEX, 0xF, 3, true),
        z << 24 | w,
        y << 16 | z >> 8,
        x << 8 | y >> 16,
        0xDEAD_BEEF, // padding
        1 << 31 | 6,
        header(reg::VSH + sh::FLOAT_INDEX, 0xF, 4, true),
        2.0f32.to_bits(),
        0.0f32.to_bits(),
        0.0f32.to_bits(),
        4.0f32.to_bits(),
        0x0000_0B0B,
        header(reg::VSH + sh::BOOL, 0xF, 0, false),
        0x0403_0201,
        header(reg::VSH + 2, 0xF, 0, false),
        0,
        header(reg::VSH + sh::ENTRY, 0xF, 0, false),
        1,
        header(reg::FINALIZE, 0xF, 0, false),
    ];
    let mut gpu = Gpu::new();
    assert_eq!(gpu.run_list(&list), ListEnd::Finalized);
    let vertex = &gpu.vertex;
    assert_eq!(vertex.program.code[..2], [mov, end]);
    assert_eq!(vertex.uniforms.boolean, 0x0B0B);
    assert_eq!(vertex.uniforms.int[1], [1, 2, 3, 4]);
    let single = |v: f32| F32(v.to_bits());
    assert_eq!(vertex.uniforms.float[6], [4.0, 0.0, 0.0, 2.0].map(single));

    let mut unit = Unit::default();
    unit.run(&vertex.program, &vertex.uniforms, vertex.entry);
    assert_eq!(
        unit.outputs[0],
        [F32(ONE), single(-1.0), single(3.0), single(0.5)]
    );
    assert_eq!(
        gpu.geometry.uniforms.boolean, 0,
        "the geometry block is separate"
    );
}

#[test]
fn the_uniform_fifo_moves_on_to_the_next_register() {
    let mut gpu = Gpu::new();
    gpu.write_register(reg::VSH + sh::FLOAT_INDEX, 94, 0xF);
    for _ in 0..3 {
        for word in [0x3F_0000, 0, 0] {
            gpu.write_register(reg::VSH + 0x11, word, 0xF);
        }
    }
    // c94 and c95 are set; the third lands past the end and is dropped.
    assert_eq!(gpu.vertex.uniforms.float[94][3], F32(ONE));
    assert_eq!(gpu.vertex.uniforms.float[95][3], F32(ONE));
}
