//! Recovering what a switch means from the raw branch table.
//!
//! After lowering, every branch is a switch on an integer: one target block
//! for each tested value and one for all others. On a boolean the table has
//! the one entry for `false`, which is 0, and the other block is where `true`
//! goes. On an integer each tested value is kept with its bytes.

use vstd::prelude::*;
use crate::error::Fatal;
use crate::ids::{BasicBlock, IntTy, Ty};
use crate::mir::{ScalarInt, ScalarIntView, SwitchTargets, SwitchTargetsView};

verus! {

/// The raw branch table of a switch.
#[derive(Debug, Clone, PartialEq, Eq)]
pub struct RawSwitchTargets {
    /// The tested values, each with the block to go to.
    pub branches: Vec<(u128, BasicBlock)>,
    /// The block for every value that is not tested.
    pub otherwise: BasicBlock,
}

/// The byte at position `i` of `value` written to base 256, lowest first.
pub open spec fn byte_at(value: nat, i: nat) -> u8
    decreases i,
{
    if i == 0 {
        (value % 256) as u8
    } else {
        byte_at(value / 256, (i - 1) as nat)
    }
}

/// The `count` lowest bytes of `value`, lowest first.
pub open spec fn le_bytes(value: nat, count: nat) -> Seq<u8> {
    Seq::new(count, |i: int| byte_at(value, i as nat))
}

/// The number that `bytes` is the little-endian form of.
pub open spec fn le_value(bytes: Seq<u8>) -> nat
    decreases bytes.len(),
{
    if bytes.len() == 0 {
        0
    } else {
        bytes[0] as nat + 256 * le_value(bytes.skip(1))
    }
}

/// The exported constant for the tested value `value` of a switch on `int_ty`.
pub open spec fn scalar_of(value: u128, int_ty: IntTy) -> ScalarIntView {
    ScalarIntView { data_le_bytes: le_bytes(value as nat, 16), int_ty }
}

/// What a switch on a value of type `switch_ty` with the given table means.
pub open spec fn lifted_switch(
    switch_ty: Ty,
    branches: Seq<(u128, BasicBlock)>,
    otherwise: BasicBlock,
) -> Result<SwitchTargetsView, Fatal> {
    match switch_ty {
        Ty::Bool => if branches.len() == 1 && branches[0].0 == 0 {
            Ok(SwitchTargetsView::If { then_branch: otherwise, else_branch: branches[0].1 })
        } else {
            Err(
                Fatal::MirSwitchBool {
                    branches: branches.len() as usize,
                    first: if branches.len() > 0 {
                        Some(branches[0].0)
                    } else {
                        None
                    },
                },
            )
        },
        Ty::Int(int_ty) => Ok(
            SwitchTargetsView::SwitchInt {
                scrutinee_type: int_ty,
                branches: branches.map_values(
                    |b: (u128, BasicBlock)| (scalar_of(b.0, int_ty), b.1),
                ),
                otherwise_branch: otherwise,
            },
        ),
        _ => Err(Fatal::UnexpectedSwitchTy(switch_ty)),
    }
}

/// The mathematical value of the result of a translation.
pub open spec fn switch_view(result: Result<SwitchTargets, Fatal>) -> Result<
    SwitchTargetsView,
    Fatal,
> {
    match result {
        Ok(targets) => Ok(targets@),
        Err(e) => Err(e),
    }
}

impl ScalarInt {
    /// The constant of type `int_ty` whose bytes are those of `value`.
    pub fn from_bits(value: u128, int_ty: IntTy) -> (scalar: ScalarInt)
        ensures
            scalar@ == scalar_of(value, int_ty),
    {
        let mut bytes: [u8; 16] = [0u8;16];
        let mut rest: u128 = value;
        let mut i: usize = 0;
        while i < 16
            invariant
                i <= 16,
                forall|j: nat| byte_at(value as nat, (i + j) as nat) == #[trigger] byte_at(rest as nat, j),
                forall|k: int| 0 <= k < i ==> bytes@[k] == byte_at(value as nat, k as nat),
            decreases 16 - i,
        {
            let ghost before = rest;
            let low: u8 = (rest % 256) as u8;
            bytes[i] = low;
            rest = rest / 256;
            proof {
                assert(byte_at(before as nat, 0) == low);
                assert(byte_at(value as nat, (i + 0) as nat) == byte_at(before as nat, 0));
                assert forall|j: nat| byte_at(value as nat, (i + 1 + j) as nat) == #[trigger] byte_at(
                    rest as nat,
                    j,
                ) by {
                    assert(byte_at(before as nat, j + 1) == byte_at(rest as nat, j));
                    assert(byte_at(value as nat, (i + (j + 1)) as nat) == byte_at(before as nat, j + 1));
                }
            }
            i = i + 1;
        }
        proof {
            assert(bytes@ =~= le_bytes(value as nat, 16));
        }
        ScalarInt { data_le_bytes: bytes, int_ty }
    }
}

/// Translates the branch table `targets` of a switch on a value of type
/// `switch_ty`.
///
/// On a boolean the table must hold the one branch for 0: its block is where
/// `false` goes, and the block for all other values is where `true` goes;
/// another table is refused, and the error holds its size and its first
/// tested value. On an integer every tested value is kept with its sixteen
/// bytes, lowest first, beside its block. A switch on any other type is
/// refused, and the error holds that type.
pub fn translate_switch_targets(switch_ty: &Ty, targets: &RawSwitchTargets) -> (result: Result<
    SwitchTargets,
    Fatal,
>)
    ensures
        switch_view(result) == lifted_switch(*switch_ty, targets.branches@, targets.otherwise),
{
    match switch_ty {
        Ty::Bool => {
            if targets.branches.len() == 1 && targets.branches[0].0 == 0 {
                Ok(
                    SwitchTargets::If {
                        then_branch: targets.otherwise,
                        else_branch: targets.branches[0].1,
                    },
                )
            } else {
                let first = if targets.branches.len() > 0 {
                    Some(targets.branches[0].0)
                } else {
                    None
                };
                Err(Fatal::MirSwitchBool { branches: targets.branches.len(), first })
            }
        },
        Ty::Int(int_ty) => {
            let mut branches: Vec<(ScalarInt, BasicBlock)> = Vec::new();
            let mut i: usize = 0;
            while i < targets.branches.len()
                invariant
                    i <= targets.branches.len(),
                    branches@.len() == i,
                    forall|k: int|
                        0 <= k < i ==> (#[trigger] branches@[k]).0@ == scalar_of(
                            targets.branches@[k].0,
                            *int_ty,
                        ) && branches@[k].1 == targets.branches@[k].1,
                decreases targets.branches.len() - i,
            {
                let value: u128 = targets.branches[i].0;
                let block: BasicBlock = targets.branches[i].1;
                branches.push((ScalarInt::from_bits(value, *int_ty), block));
                i = i + 1;
            }
            let lifted = SwitchTargets::SwitchInt {
                scrutinee_type: *int_ty,
                branches,
                otherwise_branch: targets.otherwise,
            };
            proof {
                let expected = targets.branches@.map_values(
                    |b: (u128, BasicBlock)| (scalar_of(b.0, *int_ty), b.1),
                );
                assert(lifted@->SwitchInt_branches =~= expected);
            }
            Ok(lifted)
        },
        _ => Err(Fatal::UnexpectedSwitchTy(switch_ty.clone())),
    }
}

/// Whether `value` is below 256 to the power `count`.
pub open spec fn fits_in_bytes(value: nat, count: nat) -> bool
    decreases count,
{
    if count == 0 {
        value == 0
    } else {
        fits_in_bytes(value / 256, (count - 1) as nat)
    }
}

/// The bytes of a value that fits in `count` bytes give the value back.
pub proof fn lemma_le_bytes_value(value: nat, count: nat)
    requires
        fits_in_bytes(value, count),
    ensures
        le_value(le_bytes(value, count)) == value,
    decreases count,
{
    let bytes = le_bytes(value, count);
    if count > 0 {
        lemma_le_bytes_value(value / 256, (count - 1) as nat);
        assert(bytes.skip(1) =~= le_bytes(value / 256, (count - 1) as nat)) by {
            assert forall|i: int| 0 <= i < count - 1 implies bytes.skip(1)[i] == byte_at(
                value / 256,
                i as nat,
            ) by {
                assert(bytes.skip(1)[i] == byte_at(value, (i + 1) as nat));
            }
        }
        assert(bytes[0] == (value % 256) as u8);
    }
}

/// Every tested value of a switch is read back from its sixteen bytes.
pub proof fn lemma_scalar_round_trip(value: u128, int_ty: IntTy)
    ensures
        le_value(scalar_of(value, int_ty).data_le_bytes) == value,
        scalar_of(value, int_ty).data_le_bytes.len() == 16,
{
    reveal_with_fuel(fits_in_bytes, 17);
    lemma_le_bytes_value(value as nat, 16);
}

/// The bytes of a value above those that it fits in are zero.
pub proof fn lemma_high_bytes_zero(value: nat, count: nat, i: nat)
    requires
        fits_in_bytes(value, count),
        count <= i,
    ensures
        byte_at(value, i) == 0,
    decreases count,
{
    if count > 0 {
        lemma_high_bytes_zero(value / 256, (count - 1) as nat, (i - 1) as nat);
    } else {
        lemma_byte_of_zero(i);
    }
}

/// Every byte of zero is zero.
pub proof fn lemma_byte_of_zero(i: nat)
    ensures
        byte_at(0, i) == 0,
    decreases i,
{
    if i > 0 {
        lemma_byte_of_zero((i - 1) as nat);
    }
}

/// A tested value that fits in the type that is switched on is held by as
/// many of its bytes as the type is wide: these give the value back, and the
/// bytes above them are zero.
pub proof fn lemma_scalar_within_width(value: u128, int_ty: IntTy)
    requires
        fits_in_bytes(value as nat, int_ty.spec_bytes() as nat),
    ensures
        le_value(scalar_of(value, int_ty).data_le_bytes.take(int_ty.spec_bytes() as int)) == value,
        forall|i: int|
            int_ty.spec_bytes() <= i < 16 ==> scalar_of(value, int_ty).data_le_bytes[i] == 0,
{
    let width = int_ty.spec_bytes() as nat;
    lemma_le_bytes_value(value as nat, width);
    assert(scalar_of(value, int_ty).data_le_bytes.take(width as int) =~= le_bytes(
        value as nat,
        width,
    ));
    assert forall|i: int| width <= i < 16 implies scalar_of(value, int_ty).data_le_bytes[i]
        == 0 by {
        lemma_high_bytes_zero(value as nat, width, i as nat);
    }
}

/// A switch on an integer keeps its table: as many branches, each to its
/// block and with the bytes of its tested value, and the same block for all
/// other values.
pub proof fn lemma_integer_switch_keeps_table(
    int_ty: IntTy,
    branches: Seq<(u128, BasicBlock)>,
    otherwise: BasicBlock,
)
    ensures
        lifted_switch(Ty::Int(int_ty), branches, otherwise) matches Ok(
            SwitchTargetsView::SwitchInt { scrutinee_type, branches: lifted, otherwise_branch },
        ) && scrutinee_type == int_ty && otherwise_branch == otherwise && lifted.len()
            == branches.len() && forall|i: int|
            0 <= i < branches.len() ==> (#[trigger] lifted[i]).1 == branches[i].1 && le_value(
                lifted[i].0.data_le_bytes,
            ) == branches[i].0,
{
    let lifted = branches.map_values(|b: (u128, BasicBlock)| (scalar_of(b.0, int_ty), b.1));
    assert forall|i: int| 0 <= i < branches.len() implies (#[trigger] lifted[i]).1 == branches[i].1
        && le_value(lifted[i].0.data_le_bytes) == branches[i].0 by {
        lemma_scalar_round_trip(branches[i].0, int_ty);
    }
}

/// A switch on a boolean with the one branch for `false` goes to the block
/// of that branch where the value is false, and to the other block where it
/// is true.
pub proof fn lemma_boolean_switch(on_false: BasicBlock, otherwise: BasicBlock)
    ensures
        lifted_switch(Ty::Bool, seq![(0u128, on_false)], otherwise) == Ok::<
            SwitchTargetsView,
            Fatal,
        >(SwitchTargetsView::If { then_branch: otherwise, else_branch: on_false }),
{
}

} // verus!
