use crabboy::pica::arith::{
    floor, from_float24, judge, less, negate, plus, reciprocal, reciprocal_root, tidy, times,
    INFINITY, ONE, ZERO,
};
use crabboy::pica::command::{reg, Gpu, ListEnd, ShaderSetup};
use crabboy::pica::shader::{Program, Stop, Uniforms, Unit};
use crabboy::pica::transfer::{DisplayTransfer, Format, TextureCopy};
use crabboy::softfloat::F32;

fn f(value: f32) -> F32 {
    F32(value.to_bits())
}

#[test]
fn results_are_tidy() {
    let tiny = F32(0x0000_0001);
    assert_eq!(tidy(tiny), F32(ZERO));
    assert_eq!(tidy(f(-0.0)), F32(ZERO));
    assert_eq!(plus(f(1.5), f(-1.5)), F32(ZERO));
    assert_eq!(negate(F32(ZERO)), F32(ZERO));
    assert_eq!(times(f(1e-30), f(1e-30)), F32(ZERO));
    assert_eq!(plus(f(1.25), f(2.5)), f(3.75));
    assert_eq!(times(f(-3.0), f(0.5)), f(-1.5));
}

#[test]
fn zero_absorbs_all_but_a_nan() {
    for v in [f(1.0), f(-7.5), F32(INFINITY), f(f32::NEG_INFINITY)] {
        assert_eq!(times(F32(ZERO), v), F32(ZERO));
        assert_eq!(times(v, F32(ZERO)), F32(ZERO));
    }
    assert!(times(F32(ZERO), F32(0x7FC0_0000)).is_nan());
}

#[test]
fn functions_of_one_value() {
    assert_eq!(floor(f(-1.5)), f(-2.0));
    assert_eq!(floor(f(2.75)), f(2.0));
    assert_eq!(floor(f(0.25)), F32(ZERO));
    assert_eq!(floor(f(1e30)), f(1e30));
    assert_eq!(reciprocal(f(4.0)), f(0.25));
    assert_eq!(reciprocal(F32(ZERO)), F32(INFINITY));
    assert_eq!(reciprocal(F32(INFINITY)), F32(ZERO));
    assert_eq!(reciprocal_root(f(4.0)), f(0.5));
    assert_eq!(reciprocal_root(F32(ZERO)), F32(INFINITY));
    assert!(reciprocal_root(f(-1.0)).is_nan());
    assert_eq!(from_float24(0x40_0000), f(2.0));
}

#[test]
fn comparisons_have_eight_kinds() {
    let outcomes = |a: F32, b: F32| -> Vec<bool> { (0..8).map(|k| judge(a, b, k)).collect() };
    assert_eq!(
        outcomes(f(1.0), f(2.0)),
        [false, true, true, true, false, false, true, true]
    );
    assert_eq!(
        outcomes(f(2.0), f(2.0)),
        [true, false, false, true, false, true, true, true]
    );
    assert_eq!(
        outcomes(f(f32::NAN), f(2.0)),
        [false, true, false, false, false, false, true, true]
    );
    assert!(less(f(-1.0), F32(ZERO)));
    assert!(!less(F32(ZERO), f(-1.0)));
}

#[test]
fn a_masked_write_keeps_the_other_bytes() {
    let mut gpu = Gpu::new();
    gpu.write_register(0x40, 0x1122_3344, 0xF);
    gpu.write_register(0x40, 0xAABB_CCDD, 0b1001);
    assert_eq!(gpu.regs[0x40], 0xAA22_33DD);
    gpu.write_register(0x41, 0xFFFF_FFFF, 0);
    assert_eq!(gpu.regs[0x41], 0);
}

#[test]
fn the_shader_blocks_are_separate() {
    let mut gpu = Gpu::new();
    gpu.write_register(reg::VSH, 0x8001, 0xF);
    gpu.write_register(reg::GSH, 0x0002, 0xF);
    assert_eq!(gpu.vertex.uniforms.boolean, 0x8001);
    assert_eq!(gpu.geometry.uniforms.boolean, 0x0002);
    assert_eq!(ShaderSetup::new().uniforms.boolean, 0);
}

#[test]
fn an_empty_list_is_exhausted() {
    let mut gpu = Gpu::new();
    assert_eq!(gpu.run_list(&[]), ListEnd::Exhausted);
    assert_eq!(gpu.run_list(&[5]), ListEnd::Exhausted);
    gpu.write_register(reg::CMDBUF_SIZE0, 0x30, 0xF);
    gpu.write_register(reg::CMDBUF_ADDR0, 0x1000, 0xF);
    assert_eq!(gpu.command_buffer(0), (0x8000, 0x180));
}

#[test]
fn an_end_stops_a_program_at_once() {
    let program = Program { code: vec![0x22 << 26], operands: vec![] };
    let mut unit = Unit::default();
    unit.temps[3][1] = F32(ONE);
    assert_eq!(unit.run(&program, &Uniforms::default(), 0), Stop::End);
    assert_eq!(unit.temps[3][1], F32(ONE));
}

#[test]
fn formats_are_numbered() {
    assert_eq!(Format::from_bits(0), Some(Format::Rgba8));
    assert_eq!(Format::from_bits(4), Some(Format::Rgba4));
    assert_eq!(Format::from_bits(5), None);
    assert_eq!(Format::Rgb8.bytes(), 3);
    assert_eq!(Format::Rgb565.bytes(), 2);
}

#[test]
fn transfers_of_other_scales_are_refused() {
    assert!(DisplayTransfer::from_registers(2 << 16 | 2, 2 << 16 | 2, 3 << 24).is_none());
    assert!(DisplayTransfer::from_registers(2 << 16 | 2, 2 << 16 | 2, 5 << 8).is_none());
}

#[test]
fn a_texture_copy_rearranges_lines() {
    // One line of 32 bytes in, lines of 16 with gaps of 16 out.
    let t = TextureCopy::from_registers(32, 0, 1 << 16 | 1);
    assert_eq!((t.input_len(), t.output_len()), (32, 48));
    let input: Vec<u8> = (1..=32).collect();
    let mut output = vec![0u8; 48];
    t.run(&input, &mut output);
    assert_eq!(output[..16], input[..16]);
    assert_eq!(output[16..32], [0; 16]);
    assert_eq!(output[32..], input[16..]);
    // A gap without a width copies nothing.
    let t = TextureCopy::from_registers(32, 1 << 16, 0);
    let mut output = vec![9u8; 32];
    t.run(&input, &mut output);
    assert_eq!(output, vec![9u8; 32]);
}
