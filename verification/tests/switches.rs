use hax_export::error::Fatal;
use hax_export::ids::{BasicBlock, IntTy, Ty, TyList};
use hax_export::mir::{ScalarInt, SwitchTargets};
use hax_export::switch::{translate_switch_targets, RawSwitchTargets};

fn block(index: u32) -> BasicBlock {
    BasicBlock { index }
}

fn raw(branches: Vec<(u128, u32)>, otherwise: u32) -> RawSwitchTargets {
    RawSwitchTargets {
        branches: branches.into_iter().map(|(v, b)| (v, block(b))).collect(),
        otherwise: block(otherwise),
    }
}

fn bytes(low: &[u8]) -> [u8; 16] {
    let mut all = [0u8; 16];
    all[..low.len()].copy_from_slice(low);
    all
}

#[test]
fn boolean_switch_becomes_if() {
    // branches [(0, B)], otherwise C: then C, else B
    let got = translate_switch_targets(&Ty::Bool, &raw(vec![(0, 11)], 22));
    assert_eq!(got, Ok(SwitchTargets::If { then_branch: block(22), else_branch: block(11) }));
}

#[test]
fn boolean_switch_with_another_shape_is_fatal() {
    assert_eq!(
        translate_switch_targets(&Ty::Bool, &raw(vec![], 1)),
        Err(Fatal::MirSwitchBool { branches: 0, first: None })
    );
    assert_eq!(
        translate_switch_targets(&Ty::Bool, &raw(vec![(1, 2)], 1)),
        Err(Fatal::MirSwitchBool { branches: 1, first: Some(1) })
    );
    assert_eq!(
        translate_switch_targets(&Ty::Bool, &raw(vec![(0, 2), (1, 3)], 1)),
        Err(Fatal::MirSwitchBool { branches: 2, first: Some(0) })
    );
    assert_eq!(
        translate_switch_targets(&Ty::Bool, &raw(vec![(0, 2), (0, 3)], 1)),
        Err(Fatal::MirSwitchBool { branches: 2, first: Some(0) })
    );
}

#[test]
fn integer_switch_on_eight_bits() {
    // branches [(5, X), (9, Y)], otherwise Z
    let got = translate_switch_targets(&Ty::Int(IntTy::U8), &raw(vec![(5, 1), (9, 2)], 3));
    assert_eq!(
        got,
        Ok(SwitchTargets::SwitchInt {
            scrutinee_type: IntTy::U8,
            branches: vec![
                (ScalarInt { data_le_bytes: bytes(&[5]), int_ty: IntTy::U8 }, block(1)),
                (ScalarInt { data_le_bytes: bytes(&[9]), int_ty: IntTy::U8 }, block(2)),
            ],
            otherwise_branch: block(3),
        })
    );
}

#[test]
fn integer_switch_on_a_signed_type_keeps_the_bit_pattern() {
    // -2 as i16 is tested as 0xfffe
    let got = translate_switch_targets(&Ty::Int(IntTy::I16), &raw(vec![(0xfffe, 4)], 5));
    assert_eq!(
        got,
        Ok(SwitchTargets::SwitchInt {
            scrutinee_type: IntTy::I16,
            branches: vec![(
                ScalarInt { data_le_bytes: bytes(&[0xfe, 0xff]), int_ty: IntTy::I16 },
                block(4)
            )],
            otherwise_branch: block(5),
        })
    );
}

#[test]
fn integer_switch_without_branches() {
    let got = translate_switch_targets(&Ty::Int(IntTy::I32), &raw(vec![], 8));
    assert_eq!(
        got,
        Ok(SwitchTargets::SwitchInt {
            scrutinee_type: IntTy::I32,
            branches: vec![],
            otherwise_branch: block(8),
        })
    );
}

#[test]
fn switch_on_another_type_is_fatal() {
    for ty in [
        Ty::Char,
        Ty::Str,
        Ty::Never,
        Ty::Tuple(TyList::Nil),
        Ty::Slice(Box::new(Ty::Bool)),
    ] {
        assert_eq!(
            translate_switch_targets(&ty, &raw(vec![(0, 1)], 2)),
            Err(Fatal::UnexpectedSwitchTy(ty.clone()))
        );
    }
}

#[test]
fn scalar_bytes_are_little_endian() {
    let s = ScalarInt::from_bits(0x0102_0304, IntTy::U32);
    assert_eq!(s.data_le_bytes, bytes(&[4, 3, 2, 1]));
    assert_eq!(s.int_ty, IntTy::U32);
    let s = ScalarInt::from_bits(0, IntTy::Usize);
    assert_eq!(s.data_le_bytes, [0u8; 16]);
    let s = ScalarInt::from_bits(u128::MAX, IntTy::U128);
    assert_eq!(s.data_le_bytes, [0xffu8; 16]);
    let s = ScalarInt::from_bits(1u128 << 127, IntTy::I128);
    assert_eq!(s.data_le_bytes, {
        let mut b = [0u8; 16];
        b[15] = 0x80;
        b
    });
    let s = ScalarInt::from_bits(256, IntTy::U16);
    assert_eq!(s.data_le_bytes, bytes(&[0, 1]));
}

#[test]
fn scalar_bytes_agree_with_the_standard_library() {
    for value in [0u128, 1, 255, 256, 0xdead_beef, u64::MAX as u128, u128::MAX - 7] {
        assert_eq!(ScalarInt::from_bits(value, IntTy::U128).data_le_bytes, value.to_le_bytes());
        assert_eq!(
            u128::from_le_bytes(ScalarInt::from_bits(value, IntTy::U128).data_le_bytes),
            value
        );
    }
}

#[test]
fn integer_type_widths() {
    assert_eq!(IntTy::U8.bytes(), 1);
    assert_eq!(IntTy::I8.bytes(), 1);
    assert_eq!(IntTy::I16.bytes(), 2);
    assert_eq!(IntTy::U32.bytes(), 4);
    assert_eq!(IntTy::I64.bytes(), 8);
    assert_eq!(IntTy::Usize.bytes(), 8);
    assert_eq!(IntTy::Isize.bytes(), 8);
    assert_eq!(IntTy::U128.bytes(), 16);
}
