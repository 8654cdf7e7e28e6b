use crabboy::pica::arith::{
    floor, from_float24, negate, plus, reciprocal, reciprocal_root, times, INFINITY, ONE, ZERO,
};
use crabboy::pica::shader::{Program, Stop, Uniforms, Unit, Vec4};
use crabboy::softfloat::F32;

fn f(value: f32) -> F32 {
    F32(value.to_bits())
}

fn vec(values: [f32; 4]) -> Vec4 {
    values.map(f)
}

/// `.xyzw`, nothing negated, every destination component.
const PLAIN: u32 = 0x1B << 23 | 0x1B << 14 | 0x1B << 5 | 0xF;
const END: u32 = 0x22 << 26;

fn op(opcode: u32, dst: u32, src1: u32, src2: u32, descriptor: u32) -> u32 {
    opcode << 26 | dst << 21 | src1 << 12 | src2 << 7 | descriptor
}

fn run(code: &[u32], operands: &[u32], uniforms: &Uniforms, unit: &mut Unit) -> Stop {
    let program = Program {
        code: code.to_vec(),
        operands: operands.to_vec(),
    };
    unit.run(&program, uniforms, 0)
}

#[test]
fn float24_widens_and_has_no_subnormals_or_negative_zero() {
    assert_eq!(from_float24(0x3F_0000), F32(ONE));
    assert_eq!(from_float24(0xBF_0000), f(-1.0));
    assert_eq!(from_float24(0x40_8000), f(3.0));
    assert_eq!(from_float24(0x00_FFFF), F32(ZERO));
    assert_eq!(from_float24(0x80_0000), F32(ZERO));
    assert_eq!(from_float24(0x7F_0000), F32(INFINITY));
    assert!(from_float24(0x7F_0001).is_nan());
}

#[test]
fn arithmetic_follows_the_hardware_tests() {
    let nan = F32(0x7FC0_0000);
    assert_eq!(times(F32(INFINITY), F32(ZERO)), F32(ZERO));
    assert!(times(nan, F32(ZERO)).is_nan());
    assert!(plus(F32(INFINITY), negate(F32(INFINITY))).is_nan());
    assert_eq!(reciprocal(F32(0x8000_0000)), F32(INFINITY));
    assert_eq!(reciprocal(F32(INFINITY)), F32(ZERO));
    assert_eq!(reciprocal_root(reciprocal(negate(F32(INFINITY)))), F32(INFINITY));
    assert!(reciprocal_root(f(-2.0)).is_nan());
    assert_eq!(reciprocal_root(F32(INFINITY)), F32(ZERO));
    assert_eq!(floor(f(-1.5)), f(-2.0));
    assert_eq!(floor(f(2.75)), f(2.0));
    assert_eq!(floor(f(-0.25)), f(-1.0));
    assert_eq!(floor(f(1e30)), f(1e30));
}

#[test]
fn a_transform_is_four_dot_products_with_masks() {
    // o0.x = dot(c0, v0) ... o0.w = dot(c3, v0), then o1 = v0.wzyx negated.
    let code: Vec<u32> = (0..4)
        .map(|row| op(0x02, 0, 0x20 + row, 0, row))
        .chain([op(0x13, 1, 0, 0, 4), END])
        .collect();
    let operands: Vec<u32> = (0..4)
        .map(|row| PLAIN & !0xF | 8 >> row)
        .chain([0xE4 << 5 | 1 << 4 | 0xF])
        .collect();
    let mut uniforms = Uniforms::default();
    uniforms.float[0] = vec([2.0, 0.0, 0.0, 1.0]);
    uniforms.float[1] = vec([0.0, 3.0, 0.0, 2.0]);
    uniforms.float[2] = vec([0.0, 0.0, 4.0, 3.0]);
    uniforms.float[3] = vec([0.0, 0.0, 0.0, 1.0]);
    let mut unit = Unit::default();
    unit.inputs[0] = vec([1.0, 2.0, 3.0, 1.0]);
    assert_eq!(run(&code, &operands, &uniforms, &mut unit), Stop::End);
    assert_eq!(unit.outputs[0], vec([3.0, 8.0, 15.0, 1.0]));
    assert_eq!(unit.outputs[1], vec([-1.0, -3.0, -2.0, -1.0]));
}

#[test]
fn max_and_min_let_a_nan_in_the_second_place_through() {
    let nan = F32(0x7FC0_0000);
    let code = [op(0x0C, 0, 0, 1, 0), op(0x0D, 1, 0, 1, 0), END];
    let mut unit = Unit::default();
    unit.inputs[0] = [F32(ZERO), nan, f(1.0), f(5.0)];
    unit.inputs[1] = [nan, F32(ZERO), f(2.0), F32(INFINITY)];
    run(&code, &[PLAIN], &Uniforms::default(), &mut unit);
    assert!(unit.outputs[0][0].is_nan());
    assert_eq!(unit.outputs[0][1..], [F32(ZERO), f(2.0), F32(INFINITY)]);
    assert!(unit.outputs[1][0].is_nan());
    assert_eq!(unit.outputs[1][1..], [F32(ZERO), f(1.0), f(5.0)]);
}

#[test]
fn relative_addressing_wraps_and_reads_one_past_the_constants() {
    // mova a0.xy, v0 ; mov o0, c8[a0.x] ; mov o1, c90[a0.y] ; mov o2, v1[a0.x]
    let code = [
        op(0x12, 0, 0, 0, 0),
        op(0x13, 0, 0x28, 0, 0) | 1 << 19,
        op(0x13, 1, 0x7A, 0, 0) | 2 << 19,
        op(0x13, 2, 0x01, 0, 0) | 1 << 19,
        END,
    ];
    let mut uniforms = Uniforms::default();
    uniforms.float[11] = vec([11.0; 4]);
    let mut unit = Unit::default();
    unit.inputs[0] = vec([3.9, 10.0, 0.0, 0.0]);
    unit.inputs[1] = vec([7.0; 4]);
    run(&code, &[PLAIN], &uniforms, &mut unit);
    assert_eq!(unit.address, [3, 10]);
    assert_eq!(unit.outputs[0], vec([11.0; 4]));
    assert_eq!(unit.outputs[1], [F32(ONE); 4], "c100 does not exist");
    assert_eq!(unit.outputs[2], vec([7.0; 4]), "inputs ignore the index");
}

#[test]
fn compare_and_the_conditional_forms() {
    // cmp v0 (x: EQ, y: GT) v1 ; ifc x&&y { mov o0, v0 } else { mov o0, v1 }
    let cmp = 0x2E << 26 | 1 << 7 | 4 << 21;
    let ifc = 0x28 << 26 | 1 << 22 | 1 << 25 | 1 << 24 | 3 << 10 | 1;
    let code = [cmp, ifc, op(0x13, 0, 0, 0, 0), op(0x13, 0, 1, 0, 0), END];
    let mut unit = Unit::default();
    unit.inputs[0] = vec([1.0, 5.0, 0.0, 0.0]);
    unit.inputs[1] = vec([1.0, 2.0, 9.0, 9.0]);
    run(&code, &[PLAIN], &Uniforms::default(), &mut unit);
    assert_eq!(unit.cmp, [true, true]);
    assert_eq!(unit.outputs[0], unit.inputs[0], "the else block is skipped");

    unit.inputs[0] = vec([1.0, 1.0, 0.0, 0.0]);
    run(&code, &[PLAIN], &Uniforms::default(), &mut unit);
    assert_eq!(unit.cmp, [true, false]);
    assert_eq!(unit.outputs[0], unit.inputs[1]);
}

#[test]
fn a_loop_runs_count_plus_one_times_and_steps_its_counter() {
    // loop i0 { mov r1, c0[aL] ; add r0, r0, r1 } ; mov o0, r0
    let code = [
        0x29 << 26 | 2 << 10,
        op(0x13, 0x11, 0x20, 0, 0) | 3 << 19,
        op(0x00, 0x10, 0x10, 0x11, 0),
        op(0x13, 0, 0x10, 0, 0),
        END,
    ];
    let mut uniforms = Uniforms::default();
    uniforms.int[0] = [2, 1, 2, 0];
    for i in 0..8 {
        uniforms.float[i] = vec([i as f32; 4]);
    }
    let mut unit = Unit::default();
    assert_eq!(run(&code, &[PLAIN], &uniforms, &mut unit), Stop::End);
    // c1 + c3 + c5.
    assert_eq!(unit.outputs[0], vec([9.0; 4]));
    assert_eq!(unit.loop_counter, 5, "still readable after the loop");
}

#[test]
fn call_returns_and_mad_rounds_its_product_first() {
    // call 3, 1 ; end ; nop ; mad o0, v0, v1, v2
    let mad = 0x38 << 26 | 2 << 5 | 1 << 10;
    let code = [0x24 << 26 | 3 << 10 | 1, END, 0x21 << 26, mad];
    let mut unit = Unit::default();
    unit.inputs[0] = vec([2.0, 3.0, 4.0, 0.0]);
    unit.inputs[1] = vec([5.0, 6.0, 7.0, f32::INFINITY]);
    unit.inputs[2] = vec([1.0, 1.0, 1.0, 1.0]);
    assert_eq!(
        run(&code, &[PLAIN], &Uniforms::default(), &mut unit),
        Stop::End
    );
    assert_eq!(unit.outputs[0], vec([11.0, 19.0, 29.0, 1.0]));
}

#[test]
fn a_program_without_an_end_is_cut_off() {
    let forever = [0x2C << 26 | 2 << 22];
    let mut unit = Unit::default();
    // cmp.x is false and the reference is false: the jump is always taken.
    assert_eq!(
        run(&forever, &[], &Uniforms::default(), &mut unit),
        Stop::StepLimit
    );
    assert_eq!(
        run(&[0x21 << 26], &[], &Uniforms::default(), &mut unit),
        Stop::OutOfCode
    );
}
