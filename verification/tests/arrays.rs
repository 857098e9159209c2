//! Masks, statistics and primitive kernels.

use std::sync::Arc;

use vortex::array::vtable::Primitive;
use vortex::array::{ArrayRef, BoolArray, DictArray, FilterArray};
use vortex::arrays::primitive::take::{kernel_for, mojo_kernel, take_mojo, MojoKernel, TakeKernelMojo};
use vortex::arrays::primitive::PrimitiveArray;
use vortex::dtype::{DType, Nullability, PType};
use vortex::error::{VortexError, VortexResult};
use vortex::mask::Mask;
use vortex::native::{F64, I256};
use vortex::optimizer::kernels::{ExecutionCtx, VortexSession};
use vortex::order::scalar_at_most;
use vortex::scalar::{DecimalValue, PValue, Row, ScalarValue};
use vortex::stats::{Precision, Stat, StatsSet};
use vortex::validity::Validity;

fn i32_value(value: i32) -> ScalarValue {
    ScalarValue::Primitive(PValue::I32(value))
}

fn rows(array: &ArrayRef) -> Vec<Row> {
    (0..array.len()).map(|i| array.row_at(i)).collect()
}

#[test]
fn masks_agree_on_their_rows() {
    let mask = Mask::from_indices(5, vec![1, 2, 4]);
    assert_eq!(mask.len(), 5);
    assert_eq!(mask.true_count(), 3);
    assert_eq!((mask.first(), mask.last()), (Some(1), Some(4)));
    assert!(mask.value(2) && !mask.value(3));
    assert!(!mask.all_true() && !mask.all_false());
    assert_eq!(mask.position(2), 4);

    let run = Mask::from_slices(4, vec![(0, 4)]);
    assert!(run.all_true());
    assert!(Mask::from_bits(vec![false, false]).all_false());
    assert_eq!(Mask::from_bits(vec![false, false]).first(), None);
}

#[test]
fn statistics_are_set_and_replaced() {
    let mut stats = StatsSet::new();
    assert_eq!(stats.get(Stat::Min), None);
    stats.set(Stat::Min, Precision::Exact(i32_value(3)));
    stats.set(Stat::Max, Precision::Exact(i32_value(9)));
    stats.set(Stat::Min, Precision::Inexact(i32_value(2)));
    stats.set(Stat::NullCount, Precision::Exact(i32_value(0)));
    stats.set(Stat::Sum, Precision::Exact(i32_value(0)));
    stats.set(Stat::IsSorted, Precision::Exact(ScalarValue::Bool(true)));
    assert_eq!(stats.get(Stat::Min), Some(Precision::Inexact(i32_value(2))));
    assert_eq!(stats.copy().get(Stat::Max), Some(Precision::Exact(i32_value(9))));

    let bounds = stats.inexact_bounds();
    assert_eq!(bounds.get(Stat::Max), Some(Precision::Inexact(i32_value(9))));
    assert_eq!(bounds.get(Stat::NullCount), None);
}

#[test]
fn tighter_bounds_win() {
    let mut stats = StatsSet::new();
    assert!(stats.combine_bound(Stat::Max, i32_value(9), true).is_ok());
    assert_eq!(stats.get(Stat::Max), Some(Precision::Inexact(i32_value(9))));
    assert!(stats.combine_bound(Stat::Max, i32_value(5), true).is_ok());
    assert_eq!(stats.get(Stat::Max), Some(Precision::Inexact(i32_value(5))));
    assert!(stats.combine_bound(Stat::Max, i32_value(7), true).is_ok());
    assert_eq!(stats.get(Stat::Max), Some(Precision::Inexact(i32_value(5))));

    stats.set(Stat::Min, Precision::Exact(i32_value(4)));
    assert!(stats.combine_bound(Stat::Min, i32_value(4), false).is_ok());
    assert_eq!(stats.get(Stat::Min), Some(Precision::Exact(i32_value(4))));
    assert_eq!(
        stats.combine_bound(Stat::Min, i32_value(5), false).err(),
        Some(VortexError::StatBoundsDisjoint)
    );
    assert_eq!(
        stats.combine_bound(Stat::Max, ScalarValue::Bool(true), true).err(),
        Some(VortexError::StatBoundsDisjoint)
    );
}

#[test]
fn scalars_are_ordered() {
    let f64_value = |v: f64| ScalarValue::Primitive(PValue::F64(F64 { bits: v.to_bits() }));
    assert_eq!(scalar_at_most(&f64_value(-1.5), &f64_value(0.0)), Some(true));
    assert_eq!(scalar_at_most(&f64_value(2.0), &f64_value(-3.0)), Some(false));
    assert_eq!(scalar_at_most(&f64_value(-3.0), &f64_value(-2.0)), Some(true));

    let bytes = |s: &str| ScalarValue::Binary(Arc::new(s.as_bytes().to_vec()));
    assert_eq!(scalar_at_most(&bytes("ab"), &bytes("abc")), Some(true));
    assert_eq!(scalar_at_most(&bytes("b"), &bytes("abc")), Some(false));

    let small = ScalarValue::Decimal(DecimalValue::I8(-1));
    let large = ScalarValue::Decimal(DecimalValue::I256(I256 { high: 0, low: 5 }));
    assert_eq!(scalar_at_most(&small, &large), Some(true));
    assert_eq!(scalar_at_most(&large, &small), Some(false));
    assert_eq!(scalar_at_most(&small, &bytes("")), None);
}

fn with_stats(array: ArrayRef, entries: Vec<(Stat, Precision<ScalarValue>)>) -> ArrayRef {
    let mut stats = StatsSet::new();
    for (stat, value) in entries {
        stats.set(stat, value);
    }
    ArrayRef { inner: array.inner, stats: Arc::new(stats) }
}

#[test]
fn taken_rows_inherit_bounds_and_constness() -> VortexResult<()> {
    let child = PrimitiveArray::new(vec![3i32, 3, 3], Validity::NonNullable).into_array();
    let filter = with_stats(
        FilterArray::new(child, Mask::from_bits(vec![true, false, true])),
        vec![
            (Stat::IsConstant, Precision::Exact(ScalarValue::Bool(true))),
            (Stat::Min, Precision::Exact(i32_value(3))),
            (Stat::Max, Precision::Exact(i32_value(3))),
            (Stat::Sum, Precision::Exact(i32_value(6))),
        ],
    );
    let mut ctx = ExecutionCtx::new(VortexSession::empty());

    let codes = PrimitiveArray::new(vec![1u8, 0, 1], Validity::NonNullable).into_array();
    let dict = DictArray::try_new(codes, filter.clone())?;
    let taken = filter.execute_parent(&dict, 1, &mut ctx)?.expect("a take");
    assert_eq!(
        taken.stats.get(Stat::IsConstant),
        Some(Precision::Exact(ScalarValue::Bool(true)))
    );
    assert_eq!(taken.stats.get(Stat::Min), Some(Precision::Inexact(i32_value(3))));
    assert_eq!(taken.stats.get(Stat::Max), Some(Precision::Inexact(i32_value(3))));
    assert_eq!(taken.stats.get(Stat::Sum), None);

    let valid = Mask::from_bits(vec![true, false]);
    let codes = PrimitiveArray::new(vec![1u8, 0], Validity::Array(valid)).into_array();
    let dict = DictArray::try_new(codes, filter.clone())?;
    let taken = filter.execute_parent(&dict, 1, &mut ctx)?.expect("a take");
    assert_eq!(taken.stats.get(Stat::IsConstant), None);
    assert_eq!(taken.stats.get(Stat::Min), Some(Precision::Inexact(i32_value(3))));
    Ok(())
}

#[test]
fn kernels_are_chosen_by_width() {
    assert_eq!(mojo_kernel(1, PType::U8), Some(MojoKernel::Take1ByteU8Idx));
    assert_eq!(mojo_kernel(8, PType::U64), Some(MojoKernel::Take8ByteU64Idx));
    assert_eq!(mojo_kernel(3, PType::U8), None);
    assert_eq!(mojo_kernel(4, PType::I32), None);
    assert_eq!(kernel_for(PType::F16, PType::U32), MojoKernel::Take2ByteU32Idx);
    assert_eq!(kernel_for(PType::I32, PType::U16), MojoKernel::Take4ByteU16Idx);
}

#[test]
fn values_are_gathered() -> VortexResult<()> {
    assert_eq!(take_mojo(&[10i64, 20, 30], &[2u8, 0, 2]), vec![30, 10, 30]);

    let values = PrimitiveArray::new(
        vec![10i64, 20, 30],
        Validity::Array(Mask::from_bits(vec![true, true, false])),
    )
    .into_array();
    let indices = PrimitiveArray::new(vec![2u32, 0], Validity::NonNullable).into_array();
    let taken = TakeKernelMojo.take(
        values.as_typed::<Primitive>().expect("primitive values"),
        indices.as_typed::<Primitive>().expect("primitive indices"),
        Validity::Array(Mask::from_bits(vec![false, true])),
    )?;
    let dict = DictArray::try_new(indices, values)?;
    assert_eq!(rows(&taken), rows(&dict));
    assert_eq!(
        rows(&taken),
        vec![None, Some(ScalarValue::Primitive(PValue::I64(10)))]
    );
    Ok(())
}

#[test]
fn dictionaries_take_on_the_nullability_of_their_codes() -> VortexResult<()> {
    let values = BoolArray { bits: vec![true], validity: Validity::NonNullable }.into_array();
    let codes = PrimitiveArray::new(vec![0i16], Validity::AllValid).into_array();
    let dict = DictArray::try_new(codes, values)?;
    assert_eq!(dict.dtype(), &DType::Bool(Nullability::Nullable));
    Ok(())
}
