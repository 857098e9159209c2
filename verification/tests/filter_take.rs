//! Taking from filtered arrays.

use std::sync::Arc;

use vortex::array::construct::empty_array;
use vortex::array::vtable::{Decimal, Dict, Filter, Primitive};
use vortex::array::{ArrayRef, BoolArray, ConstantArray, DictArray, FilterArray, RowsArray};
use vortex::arrays::decimal::DecimalArray;
use vortex::arrays::dict::take::TakeExecute;
use vortex::arrays::filter::gather::take_filtered_values_nullable;
use vortex::arrays::filter::take::NULLABLE_FIXED_WIDTH_FULL_TAKE_FALLBACK_LEN;
use vortex::arrays::filter::translate::translate_nullable_ranks_fast;
use vortex::arrays::primitive::PrimitiveArray;
use vortex::dtype::{DType, DecimalDType, Field, Nullability, PType};
use vortex::error::{VortexError, VortexResult};
use vortex::mask::Mask;
use vortex::optimizer::kernels::{ExecutionCtx, VortexSession};
use vortex::scalar::{DecimalValue, PValue, Row, ScalarValue};
use vortex::validity::Validity;

fn bits(values: &[bool]) -> Mask {
    Mask::from_bits(values.to_vec())
}

fn validity(values: &[bool]) -> Validity {
    Validity::from_mask(bits(values), Nullability::Nullable)
}

fn i32s(values: &[i32]) -> ArrayRef {
    PrimitiveArray::new(values.to_vec(), Validity::NonNullable).into_array()
}

fn u64s(values: &[u64]) -> ArrayRef {
    PrimitiveArray::new(values.to_vec(), Validity::NonNullable).into_array()
}

fn option_i32s(values: &[Option<i32>]) -> ArrayRef {
    let valid: Vec<bool> = values.iter().map(|v| v.is_some()).collect();
    let values: Vec<i32> = values.iter().map(|v| v.unwrap_or(0)).collect();
    PrimitiveArray::new(values, validity(&valid)).into_array()
}

fn rows(array: &ArrayRef) -> Vec<Row> {
    (0..array.len()).map(|i| array.row_at(i)).collect()
}

fn assert_arrays_eq(left: &ArrayRef, right: &ArrayRef) {
    assert_eq!(left.dtype(), right.dtype());
    assert_eq!(left.len(), right.len());
    assert_eq!(rows(left), rows(right));
}

fn execute_dict(codes: ArrayRef, filter: &ArrayRef) -> VortexResult<Option<ArrayRef>> {
    let parent = DictArray::try_new(codes, filter.clone())?;
    let mut ctx = ExecutionCtx::new(VortexSession::empty());
    filter.execute_parent(&parent, 1, &mut ctx)
}

#[test]
fn test_take_execute_kernel_maps_indices_through_filter() -> VortexResult<()> {
    let filter = FilterArray::new(
        option_i32s(&[Some(10), Some(20), Some(30), Some(40), None]),
        bits(&[true, false, true, true, false]),
    );
    let codes = PrimitiveArray::new(vec![2u64, 100, 0], validity(&[true, false, true]));

    let result = execute_dict(codes.into_array(), &filter)?
        .expect("filter child should execute its take parent");

    assert!(result.as_typed::<Dict>().is_some());
    assert_arrays_eq(&result, &option_i32s(&[Some(40), None, Some(10)]));
    Ok(())
}

#[test]
fn test_take_execute_kernel_nullable_fast_path_maps_indices_through_filter() -> VortexResult<()> {
    let filter = FilterArray::new(
        i32s(&[10, 20, 30, 40, 50]),
        Mask::from_slices(5, vec![(1, 4)]),
    );
    let codes = PrimitiveArray::new(vec![2u64, 100, 0], validity(&[true, false, true]));

    let result = execute_dict(codes.into_array(), &filter)?
        .expect("filter child should execute its take parent");

    assert!(result.as_typed::<Primitive>().is_some());
    assert_arrays_eq(&result, &option_i32s(&[Some(40), None, Some(20)]));
    Ok(())
}

#[test]
fn test_take_execute_kernel_fast_path_maps_indices_through_filter() -> VortexResult<()> {
    let filter = FilterArray::new(
        i32s(&[10, 20, 30, 40, 50, 60]),
        Mask::from_indices(6, vec![1, 3, 4, 5]),
    );

    let result = execute_dict(u64s(&[2, 0, 3]), &filter)?
        .expect("filter child should execute its take parent");

    assert!(result.as_typed::<Primitive>().is_some());
    assert_arrays_eq(&result, &i32s(&[50, 20, 60]));
    Ok(())
}

fn assert_take_execute_maps_child_dtype(child: ArrayRef, expected: ArrayRef) -> VortexResult<()> {
    let filter = FilterArray::new(child, bits(&[true, false, true, true, false]));

    let result = execute_dict(u64s(&[2, 0, 1]), &filter)?
        .expect("filter child should execute its take parent");

    assert_arrays_eq(&result, &expected);
    Ok(())
}

#[test]
fn test_take_execute_kernel_skips_bool_filter_child() -> VortexResult<()> {
    let child = BoolArray {
        bits: vec![true, false, true, true, false],
        validity: Validity::NonNullable,
    };
    let filter = FilterArray::new(
        child.into_array(),
        bits(&[true, false, true, true, false]),
    );

    let result = execute_dict(u64s(&[2, 0, 1]), &filter)?;

    assert!(result.is_none());
    Ok(())
}

fn execute_large_nullable_fixed_width_take(child: ArrayRef) -> VortexResult<Option<ArrayRef>> {
    let filter = FilterArray::new(child, bits(&[true, false, true, true, false]));
    let ranks: Vec<u64> = (0..=NULLABLE_FIXED_WIDTH_FULL_TAKE_FALLBACK_LEN)
        .map(|idx| (idx % 3) as u64)
        .collect();
    let valid = vec![true; ranks.len()];
    let indices = PrimitiveArray::new(ranks, validity(&valid)).into_array();
    execute_dict(indices, &filter)
}

#[test]
fn test_take_execute_kernel_handles_large_nullable_primitive_take_without_child_nulls(
) -> VortexResult<()> {
    let result = execute_large_nullable_fixed_width_take(i32s(&[10, 20, 30, 40, 50]))?;

    assert_eq!(
        result
            .expect("non-null fixed-width child should stay on the fast path")
            .len(),
        NULLABLE_FIXED_WIDTH_FULL_TAKE_FALLBACK_LEN + 1
    );
    Ok(())
}

fn decimals(values: &[i128], decimal_validity: Validity) -> ArrayRef {
    let decimal_dtype = DecimalDType { precision: 19, scale: 2 };
    DecimalArray::new(values.to_vec(), decimal_dtype, decimal_validity).into_array()
}

#[test]
fn test_take_execute_kernel_handles_large_nullable_decimal_take_without_child_nulls(
) -> VortexResult<()> {
    let result = execute_large_nullable_fixed_width_take(decimals(
        &[100, 200, 300, 400, 500],
        Validity::NonNullable,
    ))?;

    assert_eq!(
        result
            .expect("non-null fixed-width child should stay on the fast path")
            .len(),
        NULLABLE_FIXED_WIDTH_FULL_TAKE_FALLBACK_LEN + 1
    );
    Ok(())
}

#[test]
fn test_take_execute_kernel_falls_back_for_large_nullable_primitive_take_with_child_nulls(
) -> VortexResult<()> {
    let result = execute_large_nullable_fixed_width_take(option_i32s(&[
        Some(10),
        Some(20),
        None,
        Some(40),
        Some(50),
    ]))?;

    assert!(result.is_none());
    Ok(())
}

#[test]
fn test_take_execute_kernel_falls_back_for_large_nullable_decimal_take_with_child_nulls(
) -> VortexResult<()> {
    let result = execute_large_nullable_fixed_width_take(decimals(
        &[100, 200, 0, 400, 500],
        validity(&[true, true, false, true, true]),
    ))?;

    assert!(result.is_none());
    Ok(())
}

#[test]
fn test_take_execute_kernel_handles_decimal_filter_child() -> VortexResult<()> {
    assert_take_execute_maps_child_dtype(
        decimals(&[100, 200, 300, 400, 500], Validity::NonNullable),
        decimals(&[400, 100, 300], Validity::NonNullable),
    )
}

fn u32_row(values: &[u32]) -> Row {
    let items: Vec<Row> = values
        .iter()
        .map(|v| Some(ScalarValue::Primitive(PValue::U32(*v))))
        .collect();
    Some(ScalarValue::List(Arc::new(items)))
}

#[test]
fn test_take_execute_kernel_handles_fixed_size_list_filter_child() -> VortexResult<()> {
    let element = || Arc::new(DType::Primitive(PType::U32, Nullability::NonNullable));
    let dtype = || DType::FixedSizeList(element(), 2, Nullability::NonNullable);
    assert_take_execute_maps_child_dtype(
        RowsArray {
            rows: vec![
                u32_row(&[10, 11]),
                u32_row(&[20, 21]),
                u32_row(&[30, 31]),
                u32_row(&[40, 41]),
                u32_row(&[50, 51]),
            ],
        }
        .into_array(dtype()),
        RowsArray {
            rows: vec![u32_row(&[40, 41]), u32_row(&[10, 11]), u32_row(&[30, 31])],
        }
        .into_array(dtype()),
    )
}

#[test]
fn test_take_execute_kernel_handles_list_filter_child() -> VortexResult<()> {
    let element = || Arc::new(DType::Primitive(PType::U32, Nullability::NonNullable));
    let dtype = || DType::List(element(), Nullability::NonNullable);
    assert_take_execute_maps_child_dtype(
        RowsArray {
            rows: vec![
                u32_row(&[10, 11]),
                u32_row(&[20]),
                u32_row(&[30, 31, 32]),
                u32_row(&[40]),
                u32_row(&[50, 51]),
            ],
        }
        .into_array(dtype()),
        RowsArray {
            rows: vec![u32_row(&[40]), u32_row(&[10, 11]), u32_row(&[30, 31, 32])],
        }
        .into_array(dtype()),
    )
}

fn strings(values: &[&str]) -> ArrayRef {
    let rows: Vec<Row> = values
        .iter()
        .map(|s| Some(ScalarValue::Utf8(Arc::new(s.as_bytes().to_vec()))))
        .collect();
    RowsArray { rows }.into_array(DType::Utf8(Nullability::NonNullable))
}

#[test]
fn test_take_execute_kernel_handles_string_filter_child() -> VortexResult<()> {
    assert_take_execute_maps_child_dtype(
        strings(&["a", "b", "c", "d", "e"]),
        strings(&["d", "a", "c"]),
    )
}

fn structs(ids: &[u32], values: &[u64]) -> ArrayRef {
    let field = |name: &str, ptype| Field {
        name: name.as_bytes().to_vec(),
        dtype: DType::Primitive(ptype, Nullability::NonNullable),
    };
    let fields = vec![field("id", PType::U32), field("value", PType::U64)];
    let rows: Vec<Row> = ids
        .iter()
        .zip(values.iter())
        .map(|(id, value)| {
            Some(ScalarValue::List(Arc::new(vec![
                Some(ScalarValue::Primitive(PValue::U32(*id))),
                Some(ScalarValue::Primitive(PValue::U64(*value))),
            ])))
        })
        .collect();
    RowsArray { rows }.into_array(DType::Struct(Arc::new(fields), Nullability::NonNullable))
}

#[test]
fn test_take_execute_kernel_handles_struct_filter_child() -> VortexResult<()> {
    assert_take_execute_maps_child_dtype(
        structs(&[10, 20, 30, 40, 50], &[100, 200, 300, 400, 500]),
        structs(&[40, 10, 30], &[400, 100, 300]),
    )
}

#[test]
fn codes_child_does_not_compute_its_parent() -> VortexResult<()> {
    let filter = FilterArray::new(i32s(&[1, 2, 3]), bits(&[true, false, true]));
    let parent = DictArray::try_new(u64s(&[0, 1]), filter.clone())?;
    let mut ctx = ExecutionCtx::new(VortexSession::empty());

    assert!(filter.execute_parent(&parent, 0, &mut ctx)?.is_none());
    assert!(filter.execute_parent(&filter, 1, &mut ctx)?.is_none());
    assert!(i32s(&[1]).execute_parent(&parent, 1, &mut ctx)?.is_none());
    Ok(())
}

#[test]
fn out_of_bounds_rank_is_refused() {
    let filter = FilterArray::new(i32s(&[1, 2, 3]), bits(&[true, false, true]));
    let refused = Some(VortexError::OutOfBounds { index: 2, start: 0, stop: 2 });

    assert_eq!(execute_dict(u64s(&[0, 2, 9]), &filter).err(), refused);

    let contiguous = FilterArray::new(i32s(&[1, 2, 3]), bits(&[true, true, false]));
    assert_eq!(execute_dict(u64s(&[0, 2]), &contiguous).err(), refused);

    let nullable = FilterArray::new(option_i32s(&[Some(1), None, Some(3)]), bits(&[true, false, true]));
    assert_eq!(execute_dict(u64s(&[0, 2]), &nullable).err(), refused);

    let signed = PrimitiveArray::new(vec![0i8, 2], Validity::NonNullable);
    assert_eq!(execute_dict(signed.into_array(), &filter).err(), refused);
}

#[test]
fn out_of_bounds_null_rank_is_ignored() -> VortexResult<()> {
    let filter = FilterArray::new(i32s(&[1, 2, 3]), bits(&[true, false, true]));
    let codes = PrimitiveArray::new(vec![9u8, 1], validity(&[false, true]));
    let result = execute_dict(codes.into_array(), &filter)?.expect("a take");
    assert_arrays_eq(&result, &option_i32s(&[None, Some(3)]));
    Ok(())
}

#[test]
fn negative_rank_does_not_cast() {
    let filter = FilterArray::new(i32s(&[1, 2, 3]), bits(&[true, false, true]));
    let codes = PrimitiveArray::new(vec![0i64, -1], Validity::NonNullable);
    assert_eq!(
        execute_dict(codes.into_array(), &filter).err(),
        Some(VortexError::CastOutOfRange)
    );
}

#[test]
fn negative_null_rank_casts() -> VortexResult<()> {
    let filter = FilterArray::new(i32s(&[1, 2, 3]), bits(&[true, false, true]));
    let codes = PrimitiveArray::new(vec![1i32, -1], validity(&[true, false]));
    let result = execute_dict(codes.into_array(), &filter)?.expect("a take");
    assert_arrays_eq(&result, &option_i32s(&[Some(3), None]));
    Ok(())
}

#[test]
fn indices_have_to_be_integers() {
    let filter = FilterArray::new(i32s(&[1, 2, 3]), bits(&[true, false, true]));
    let indices = BoolArray { bits: vec![true], validity: Validity::NonNullable }.into_array();
    let mut ctx = ExecutionCtx::new(VortexSession::empty());
    let view = filter.as_typed::<Filter>().expect("a filter");

    let result = <Filter as TakeExecute>::take(view, &indices, &mut ctx);

    assert_eq!(result.err(), Some(VortexError::InvalidIndicesDType));
    assert_eq!(
        DictArray::try_new(indices, filter).err(),
        Some(VortexError::InvalidIndicesDType)
    );
}

#[test]
fn empty_indices_give_an_empty_array() -> VortexResult<()> {
    let filter = FilterArray::new(i32s(&[1, 2, 3]), bits(&[true, false, true]));
    let codes = PrimitiveArray::new(Vec::<u64>::new(), validity(&[]));
    let result = execute_dict(codes.into_array(), &filter)?.expect("a take");
    let expected = empty_array(&DType::Primitive(PType::I32, Nullability::Nullable));
    assert_arrays_eq(&result, &expected);
    assert!(result.as_typed::<Primitive>().is_some());
    Ok(())
}

#[test]
fn empty_filter_gives_nulls() -> VortexResult<()> {
    let filter = FilterArray::new(i32s(&[1, 2, 3]), bits(&[false, false, false]));
    let codes = PrimitiveArray::new(vec![7u64, 8], validity(&[false, false]));
    let result = execute_dict(codes.into_array(), &filter)?.expect("a take");
    assert_arrays_eq(&result, &option_i32s(&[None, None]));
    Ok(())
}

#[test]
fn sequential_ranks_slice_a_contiguous_filter() -> VortexResult<()> {
    let filter = FilterArray::new(i32s(&[10, 20, 30, 40]), Mask::from_slices(4, vec![(1, 3)]));
    let result = execute_dict(u64s(&[0, 1]), &filter)?.expect("a take");
    assert_arrays_eq(&result, &i32s(&[20, 30]));

    let filter = FilterArray::new(
        decimals(&[10, 20, 30, 40], Validity::NonNullable),
        Mask::from_slices(4, vec![(1, 3)]),
    );
    let result = execute_dict(u64s(&[0, 1]), &filter)?.expect("a take");
    assert!(result.as_typed::<Decimal>().is_some());
    assert_arrays_eq(&result, &decimals(&[20, 30], Validity::NonNullable));
    Ok(())
}

#[test]
fn full_take_from_scattered_filter() -> VortexResult<()> {
    let filter = FilterArray::new(i32s(&[1, 2, 3, 4, 5]), bits(&[true, false, true, false, true]));
    let result = execute_dict(u64s(&[2, 1, 0]), &filter)?.expect("a take");
    assert_arrays_eq(&result, &i32s(&[5, 3, 1]));
    let result = execute_dict(u64s(&[0, 2, 1]), &filter)?.expect("a take");
    assert_arrays_eq(&result, &i32s(&[1, 5, 3]));
    Ok(())
}

#[test]
fn all_null_indices_read_nothing() -> VortexResult<()> {
    let filter = FilterArray::new(i32s(&[1, 2, 3]), bits(&[true, false, true]));
    let codes = PrimitiveArray::new(vec![50u16, 60], Validity::AllInvalid);
    let result = execute_dict(codes.into_array(), &filter)?.expect("a take");
    assert_arrays_eq(&result, &option_i32s(&[None, None]));
    Ok(())
}

#[test]
fn encoded_indices_are_computed_first() -> VortexResult<()> {
    let filter = FilterArray::new(i32s(&[1, 2, 3]), bits(&[true, false, true]));
    let one = ConstantArray { scalar: Some(ScalarValue::Primitive(PValue::U16(1))) }
        .into_array(DType::Primitive(PType::U16, Nullability::NonNullable), 3);
    let result = execute_dict(one, &filter)?.expect("a take");
    assert_arrays_eq(&result, &i32s(&[3, 3, 3]));
    Ok(())
}

#[test]
fn nullable_child_without_nulls_gives_up_its_nullability() -> VortexResult<()> {
    let child = PrimitiveArray::new(vec![1i32, 2, 3], Validity::AllValid).into_array();
    let filter = FilterArray::new(child, bits(&[true, false, true]));
    let parent = DictArray::try_new(u64s(&[1]), filter.clone())?;
    let result = execute_dict(u64s(&[1]), &filter)?.expect("a take");
    assert_eq!(rows(&result), rows(&parent));
    assert_eq!(result.dtype(), &DType::Primitive(PType::I32, Nullability::NonNullable));
    assert_eq!(parent.dtype(), &DType::Primitive(PType::I32, Nullability::Nullable));
    Ok(())
}

#[test]
fn decimal_rows_hold_unscaled_values() {
    let array = decimals(&[7], Validity::NonNullable);
    assert_eq!(
        rows(&array),
        vec![Some(ScalarValue::Decimal(DecimalValue::I128(7)))]
    );
}

#[test]
fn null_ranks_into_an_empty_filter_give_zeros() -> VortexResult<()> {
    let nothing = bits(&[false, false]);
    let nulls = bits(&[false, false, false]);
    assert_eq!(
        translate_nullable_ranks_fast(&nothing, &[5u16, 6, 7], &nulls, 0)?,
        vec![0, 0, 0]
    );
    assert_eq!(
        take_filtered_values_nullable(&[1i32, 2], &nothing, &[5u16, 6, 7], &nulls, 0)?,
        vec![0, 0, 0]
    );
    Ok(())
}
