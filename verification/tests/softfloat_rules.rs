use crabboy::softfloat::{Env, Flags, Round, F32, F64};
use std::cmp::Ordering;
use std::ops::Neg;

fn env(round: Round) -> Env {
    Env { round, ..Env::default() }
}

const VALUES: [u32; 10] = [
    0x0000_0000,
    0x8000_0000,
    0x0000_0001,
    0x007F_FFFF,
    0x3F80_0000,
    0xBF80_0001,
    0x4049_0FDB,
    0x7F7F_FFFF,
    0x7F80_0000,
    0xFF80_0000,
];

#[test]
fn sums_and_products_commute() {
    for a in VALUES {
        for b in VALUES {
            let (mut x, mut y) = (Env::default(), Env::default());
            assert_eq!(F32(a).add(F32(b), &mut x), F32(b).add(F32(a), &mut y));
            assert_eq!(F32(a).mul(F32(b), &mut x), F32(b).mul(F32(a), &mut y));
            assert_eq!(x.flags, y.flags);
        }
    }
}

#[test]
fn rounding_modes_bracket_the_exact_quotient() {
    let (one, three) = (F32(0x3F80_0000), F32(0x4040_0000));
    let third = |r: Round| {
        let mut e = env(r);
        let q = one.div(three, &mut e);
        assert!(e.flags.has(Flags::INEXACT));
        q.0
    };
    assert_eq!(third(Round::Nearest), 0x3EAA_AAAB);
    assert_eq!(third(Round::Up), 0x3EAA_AAAB);
    assert_eq!(third(Round::Down), 0x3EAA_AAAA);
    assert_eq!(third(Round::Zero), 0x3EAA_AAAA);
}

#[test]
fn exact_results_raise_no_flag() {
    let mut e = Env::default();
    assert_eq!(F32(0x3FC0_0000).add(F32(0x3E80_0000), &mut e), F32(0x3FE0_0000));
    assert_eq!(F32(0x4110_0000).sqrt(&mut e), F32(0x4040_0000));
    assert_eq!(F32(0x40C0_0000).div(F32(0x4000_0000), &mut e), F32(0x4040_0000));
    assert_eq!(e.flags, Flags(0));
}

#[test]
fn a_value_less_itself_is_zero() {
    for r in [Round::Nearest, Round::Up, Round::Down, Round::Zero] {
        let mut e = env(r);
        let zero = F32(0x4049_0FDB).sub(F32(0x4049_0FDB), &mut e);
        assert_eq!(zero.0, if r == Round::Down { 0x8000_0000 } else { 0 });
        assert_eq!(e.flags, Flags(0));
    }
}

#[test]
fn a_product_with_zero_keeps_the_signs() {
    let mut e = Env::default();
    assert_eq!(F32(0xBF80_0001).mul(F32(0), &mut e), F32(0x8000_0000));
    assert_eq!(F32(0xBF80_0001).mul(F32(0x8000_0000), &mut e), F32(0));
    assert_eq!(e.flags, Flags(0));
    assert!(F32(0x7F80_0000).mul(F32(0), &mut e).is_nan());
    assert!(e.flags.has(Flags::INVALID));
}

#[test]
fn widening_loses_nothing() {
    for a in VALUES {
        let mut e = Env::default();
        let wide = F32(a).to_f64(&mut e);
        assert_eq!(wide.0, f64::from(f32::from_bits(a)).to_bits());
        assert_eq!(wide.to_f32(&mut e), F32(a));
        assert_eq!(e.flags, Flags(0));
    }
}

#[test]
fn negation_is_undone_by_negation() {
    for a in VALUES {
        assert_eq!(F32(a).neg().neg(), F32(a));
        assert_eq!(F32(a).abs().0, a & 0x7FFF_FFFF);
    }
    assert_eq!(F64(1).neg(), F64(0x8000_0000_0000_0001));
}

#[test]
fn the_order_is_that_of_the_numbers() {
    let mut e = Env::default();
    for a in VALUES {
        for b in VALUES {
            assert_eq!(
                F32(a).compare(F32(b), &mut e),
                f32::from_bits(a).partial_cmp(&f32::from_bits(b))
            );
        }
    }
    assert_eq!(e.flags, Flags(0));
    assert_eq!(F32(0x7FC0_0000).compare(F32(0), &mut e), None);
    assert_eq!(e.flags, Flags(0));
    assert_eq!(F32(0x7FC0_0000).compare_signaling(F32(0), &mut e), None);
    assert!(e.flags.has(Flags::INVALID));
    assert_eq!(
        F64(0).compare(F64(0x8000_0000_0000_0000), &mut e),
        Some(Ordering::Equal)
    );
}

#[test]
fn earlier_flags_stay_and_change_nothing() {
    let mut fresh = Env::default();
    let mut used = Env { flags: Flags(Flags::OVERFLOW), ..Env::default() };
    let a = F32(0x3DCC_CCCD);
    assert_eq!(a.mul(a, &mut fresh), a.mul(a, &mut used));
    assert_eq!(used.flags.0, fresh.flags.0 | Flags::OVERFLOW);
}

#[test]
fn quotients_are_bracketed_by_their_roundings() {
    for a in VALUES {
        for b in VALUES {
            let divide = |r: Round| {
                let mut e = env(r);
                (F32(a).div(F32(b), &mut e), e.flags.has(Flags::INEXACT))
            };
            let (n, inexact) = divide(Round::Nearest);
            if n.is_nan() {
                continue;
            }
            let (u, d, z) = (divide(Round::Up).0, divide(Round::Down).0, divide(Round::Zero).0);
            if !inexact {
                assert_eq!((u, d, z), (n, n, n));
            } else if d.0 < 0x8000_0000 {
                assert_eq!((u.0, z), (d.0 + 1, d));
                assert!(n == d || n == u);
            } else {
                assert_eq!((d.0, z), (u.0 + 1, u));
                assert!(n == d || n == u);
            }
        }
    }
}
