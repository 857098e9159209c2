//! Parents, matchers, rules and the optimizer.

use vortex::array::parent::ParentRef;
use vortex::array::vtable::{ArrayView, Bool, Constant, Dict, Primitive, Slice};
use vortex::array::{ArrayId, ArrayRef, BoolArray, ConstantArray, DictArray, SliceArray};
use vortex::arrays::dict::take::TakeReduceAdaptor;
use vortex::arrays::primitive::PrimitiveArray;
use vortex::dtype::{DType, Nullability, PType};
use vortex::error::{VortexError, VortexResult};
use vortex::mask::Mask;
use vortex::matcher::{AnyArray, Matcher};
use vortex::optimizer::kernels::{ArrayKernels, ReduceParentPlugin, VortexSession};
use vortex::optimizer::rules::{
    reduce_matched_parent, ArrayParentReduceRule, ArrayReduceRule, ParentRuleSet, ReduceRuleSet, Reduced,
};
use vortex::scalar::{PValue, Row, ScalarValue};
use vortex::validity::Validity;

fn bools(bits: &[bool]) -> ArrayRef {
    BoolArray { bits: bits.to_vec(), validity: Validity::NonNullable }.into_array()
}

fn u32s(values: &[u32]) -> ArrayRef {
    PrimitiveArray::new(values.to_vec(), Validity::NonNullable).into_array()
}

fn i32_row(value: i32) -> Row {
    Some(ScalarValue::Primitive(PValue::I32(value)))
}

fn constant(value: i32, len: usize) -> ArrayRef {
    ConstantArray { scalar: i32_row(value) }
        .into_array(DType::Primitive(PType::I32, Nullability::NonNullable), len)
}

fn rows(array: &ArrayRef) -> Vec<Row> {
    (0..array.len()).map(|i| array.row_at(i)).collect()
}

#[test]
fn parts_parent_ref_exposes_parent_view() -> VortexResult<()> {
    let child = bools(&[true, false, true]);
    let parts = SliceArray::try_new_parts(child, 1..3)?;
    let parent = ParentRef::from_parts(&parts);

    let view = parent
        .try_view::<Slice>()
        .expect("Slice parts should match a Slice parent view");

    assert_eq!(view.slice_range(), &(1..3));
    assert!(parent.try_array_view::<Slice>().is_none());

    Ok(())
}

#[test]
fn slice_out_of_range_is_refused() {
    let child = bools(&[true, false, true]);
    assert_eq!(
        SliceArray::try_new_parts(child, 2..4).err(),
        Some(VortexError::OutOfBounds { index: 4, start: 2, stop: 3 })
    );
}

#[test]
fn parts_and_array_show_the_same_metadata() -> VortexResult<()> {
    let parts = SliceArray::try_new_parts(bools(&[true, false, true]), 1..3)?;
    let array = SliceArray::try_new_parts(bools(&[true, false, true]), 1..3)?.into_array();
    let stack = ParentRef::from_parts(&parts);
    let heap = ParentRef::from(&array);

    assert_eq!(stack.encoding_id(), ArrayId::Slice);
    assert_eq!(stack.encoding_id(), heap.encoding_id());
    assert_eq!(stack.dtype(), heap.dtype());
    assert_eq!((stack.len(), heap.len()), (2, 2));
    assert!(!stack.is_empty() && !heap.is_empty());
    assert_eq!(stack.slots().len(), 1);
    assert!(stack.array_ref().is_none() && heap.array_ref().is_some());
    assert!(stack.is_encoding::<Slice>() && heap.is_encoding::<Slice>());
    assert!(stack.typed_data::<Bool>().is_none());
    assert!(heap.try_array_view::<Slice>().is_some());
    assert!(heap.try_array_view::<Bool>().is_none());

    let view = heap.try_view::<Slice>().expect("a slice");
    assert_eq!(view.data().slice_range(), &(1..3));
    assert_eq!(view.dtype(), heap.dtype());
    assert_eq!(view.len(), 2);
    assert!(!view.is_empty());
    assert_eq!(view.slots().len(), 1);
    assert_eq!(rows(&array), vec![Some(ScalarValue::Bool(false)), Some(ScalarValue::Bool(true))]);
    Ok(())
}

#[test]
fn matchers_tell_allocated_parents_apart() -> VortexResult<()> {
    let parts = SliceArray::try_new_parts(bools(&[true, false]), 0..1)?;
    let stack = ParentRef::from_parts(&parts);
    let array = bools(&[true]);

    assert!(!AnyArray::matches_parent(&stack));
    assert!(AnyArray::matches(&array));
    assert!(AnyArray::try_match(&array).is_some());

    assert!(<Slice as Matcher>::matches_parent(&stack));
    assert!(<Slice as Matcher>::try_match_parent(&stack).is_none());
    assert!(!<Bool as Matcher>::matches_parent(&stack));
    assert!(<Bool as Matcher>::matches(&array));
    assert!(<Bool as Matcher>::try_match(&array).is_some());
    assert!(!<Slice as Matcher>::matches(&array));
    Ok(())
}

#[test]
fn reduce_adaptor_handles_stack_backed_dict_parent() -> VortexResult<()> {
    let indices = u32s(&[0, 0, 0]);
    let values = constant(7, 1);
    let parts = DictArray::try_new_parts(indices, values)?;

    let reduced = match ParentRef::from_parts(&parts).optimize()? {
        Some(reduced) => reduced,
        None => panic!("take reduce adaptor should optimize stack-backed parent"),
    };

    assert!(reduced.as_typed::<Constant>().is_some());
    assert_eq!(reduced.len(), 3);
    assert_eq!(rows(&reduced), vec![i32_row(7), i32_row(7), i32_row(7)]);
    Ok(())
}

#[test]
fn optimizing_keeps_rows_and_type() -> VortexResult<()> {
    let codes = PrimitiveArray::new(vec![0u32, 0], Validity::AllValid).into_array();
    let dict = DictArray::try_new(codes, constant(7, 1))?;
    let optimized = dict.optimize()?;
    assert_eq!(optimized.encoding_id(), ArrayId::Constant);
    assert_eq!(optimized.dtype(), dict.dtype());
    assert_eq!(rows(&optimized), rows(&dict));
    Ok(())
}

#[test]
fn null_codes_keep_a_constant_dictionary() -> VortexResult<()> {
    let valid = Mask::from_bits(vec![true, false]);
    let codes = PrimitiveArray::new(vec![0u32, 0], Validity::Array(valid)).into_array();
    let dict = DictArray::try_new(codes, constant(7, 1))?;
    assert!(ParentRef::from(&dict).optimize()?.is_none());
    assert_eq!(rows(&dict.optimize()?), vec![i32_row(7), None]);
    Ok(())
}

#[test]
fn null_constant_absorbs_null_codes() -> VortexResult<()> {
    let valid = Mask::from_bits(vec![true, false]);
    let codes = PrimitiveArray::new(vec![0u32, 0], Validity::Array(valid)).into_array();
    let null = ConstantArray { scalar: None }
        .into_array(DType::Primitive(PType::I32, Nullability::Nullable), 1);
    let dict = DictArray::try_new(codes, null)?;
    let optimized = dict.optimize()?;
    assert_eq!(optimized.encoding_id(), ArrayId::Constant);
    assert_eq!(rows(&optimized), vec![None, None]);
    Ok(())
}

#[test]
fn replacement_of_another_type_is_refused() -> VortexResult<()> {
    let dict = DictArray::try_new(u32s(&[0]), constant(7, 0))?;
    let refused = VortexError::ReducedDTypeMismatch { from: ArrayId::Dict, to: ArrayId::Constant };
    assert_eq!(ParentRef::from(&dict).optimize().err(), Some(refused));

    let values = constant(7, 0);
    let view = values.as_typed::<Constant>().expect("a constant");
    let rules = ParentRuleSet::new(vec![ParentRuleSet::lift(TakeReduceAdaptor(Constant))]);
    let parent = ParentRef::from(&dict);
    assert_eq!(rules.evaluate(view, &parent, 1, true).err(), Some(refused));
    let unchecked = rules.evaluate(view, &parent, 1, false)?.expect("a replacement");
    assert_eq!(rows(&unchecked), vec![None]);
    assert!(rules.evaluate(view, &parent, 0, true)?.is_none());
    Ok(())
}

struct Emptied;

impl ReduceParentPlugin for Emptied {
    fn allows(&self, _: ArrayRef, _: ParentRef<'_>, _: usize, _: Reduced) -> bool {
        unreachable!("only proofs speak of it")
    }

    fn reduce(
        &self,
        _child: &ArrayRef,
        parent: &ParentRef<'_>,
        slot_idx: usize,
    ) -> VortexResult<Option<ArrayRef>> {
        if slot_idx == 0 || parent.is_empty() {
            return Ok(None);
        }
        Ok(Some(constant(9, parent.len())))
    }
}

struct Failing;

impl ReduceParentPlugin for Failing {
    fn allows(&self, _: ArrayRef, _: ParentRef<'_>, _: usize, _: Reduced) -> bool {
        unreachable!("only proofs speak of it")
    }

    fn reduce(
        &self,
        _child: &ArrayRef,
        _parent: &ParentRef<'_>,
        _slot_idx: usize,
    ) -> VortexResult<Option<ArrayRef>> {
        Err(VortexError::CastOutOfRange)
    }
}

/// Drops the last row of what a slice is cut from, as long as there is more than one.
struct Shrink;

impl ReduceParentPlugin for Shrink {
    fn allows(&self, _: ArrayRef, _: ParentRef<'_>, _: usize, _: Reduced) -> bool {
        unreachable!("only proofs speak of it")
    }

    fn reduce(
        &self,
        child: &ArrayRef,
        _parent: &ParentRef<'_>,
        _slot_idx: usize,
    ) -> VortexResult<Option<ArrayRef>> {
        if child.len() == 1 {
            return Ok(None);
        }
        let shorter = bools(&vec![true; child.len() - 1]);
        Ok(Some(SliceArray::try_new_parts(shorter, 0..1)?.into_array()))
    }
}

#[test]
fn session_plugins_come_before_static_rules() -> VortexResult<()> {
    let dict = DictArray::try_new(u32s(&[0, 0]), constant(7, 1))?;

    let mut kernels = ArrayKernels::new();
    kernels.register_reduce_parent(ArrayId::Dict, ArrayId::Constant, Emptied);
    kernels.register_reduce_parent(ArrayId::Dict, ArrayId::Constant, Failing);
    let session = VortexSession::with_kernels(kernels);
    let reduced = ParentRef::from(&dict).optimize_ctx(&session)?.expect("a plugin applies");
    assert_eq!(rows(&reduced), vec![i32_row(9), i32_row(9)]);

    let mut kernels = ArrayKernels::new();
    kernels.register_reduce_parent(ArrayId::Dict, ArrayId::Primitive, Failing);
    let session = VortexSession::with_kernels(kernels);
    assert_eq!(
        ParentRef::from(&dict).optimize_ctx(&session).err(),
        Some(VortexError::CastOutOfRange)
    );

    let mut kernels = ArrayKernels::new();
    kernels.register_reduce_parent(ArrayId::Filter, ArrayId::Constant, Failing);
    let session = VortexSession::with_kernels(kernels);
    let reduced = ParentRef::from(&dict).optimize_ctx(&session)?.expect("the static rule applies");
    assert_eq!(rows(&reduced), vec![i32_row(7), i32_row(7)]);

    let session = VortexSession::empty();
    let reduced = dict.optimize_ctx(&session)?;
    assert_eq!(rows(&reduced), vec![i32_row(7), i32_row(7)]);
    Ok(())
}

#[test]
fn rewriting_goes_on_until_nothing_applies() -> VortexResult<()> {
    let slice = SliceArray::try_new_parts(bools(&[true; 500]), 0..1)?.into_array();
    let mut kernels = ArrayKernels::new();
    kernels.register_reduce_parent(ArrayId::Slice, ArrayId::Bool, Shrink);
    let session = VortexSession::with_kernels(kernels);

    let optimized = slice.optimize_ctx(&session)?;
    assert_eq!(ParentRef::from(&optimized).slots()[0].as_ref().map(|child| child.len()), Some(1));
    assert!(ParentRef::from(&optimized).optimize_ctx(&session)?.is_none());

    let optimized = ParentRef::from(&slice).optimize_ctx(&session)?.expect("the plugin applies");
    assert_eq!(ParentRef::from(&optimized).slots()[0].as_ref().map(|child| child.len()), Some(1));
    Ok(())
}

struct Decline;

impl ArrayReduceRule<Bool> for Decline {
    fn allows(&self, _: ArrayRef, _: Reduced) -> bool {
        unreachable!("only proofs speak of it")
    }

    fn reduce(&self, _array: ArrayView<'_, Bool>) -> VortexResult<Option<ArrayRef>> {
        Ok(None)
    }
}

struct First;

impl ArrayReduceRule<Bool> for First {
    fn allows(&self, _: ArrayRef, _: Reduced) -> bool {
        unreachable!("only proofs speak of it")
    }

    fn reduce(&self, array: ArrayView<'_, Bool>) -> VortexResult<Option<ArrayRef>> {
        Ok(Some(bools(&array.data().bits[..1])))
    }
}

struct Fail;

impl ArrayReduceRule<Bool> for Fail {
    fn allows(&self, _: ArrayRef, _: Reduced) -> bool {
        unreachable!("only proofs speak of it")
    }

    fn reduce(&self, _array: ArrayView<'_, Bool>) -> VortexResult<Option<ArrayRef>> {
        Err(VortexError::StatBoundsDisjoint)
    }
}

#[test]
fn first_rule_that_applies_wins() -> VortexResult<()> {
    let array = bools(&[true, false]);
    let view = array.as_typed::<Bool>().expect("booleans");

    let none: ReduceRuleSet<Bool> = ReduceRuleSet::new(&[]);
    assert!(none.evaluate(view)?.is_none());
    let declining: ReduceRuleSet<Bool> = ReduceRuleSet::new(&[&Decline, &Decline]);
    assert!(declining.evaluate(view)?.is_none());
    let first: ReduceRuleSet<Bool> = ReduceRuleSet::new(&[&Decline, &First, &Fail]);
    assert_eq!(first.evaluate(view)?.expect("a rule applies").len(), 1);
    let failing: ReduceRuleSet<Bool> = ReduceRuleSet::new(&[&Fail, &First]);
    assert_eq!(failing.evaluate(view).err(), Some(VortexError::StatBoundsDisjoint));
    Ok(())
}

struct Shorten;

impl ArrayParentReduceRule<Bool> for Shorten {
    type Parent = Slice;

    fn allows(&self, _: ArrayRef, _: ParentRef<'_>, _: usize, _: Reduced) -> bool {
        unreachable!("only proofs speak of it")
    }

    fn reduce_parent<'a>(
        &self,
        _array: ArrayView<'_, Bool>,
        parent: ArrayView<'a, Slice>,
        _child_idx: usize,
    ) -> VortexResult<Option<ArrayRef>> {
        Ok(Some(bools(&vec![true; parent.len() - 1])))
    }

    fn reduce_parent_ref(
        &self,
        array: ArrayView<'_, Bool>,
        parent: &ParentRef<'_>,
        child_idx: usize,
    ) -> VortexResult<Option<ArrayRef>> {
        reduce_matched_parent(self, array, parent, child_idx)
    }
}

#[test]
fn replacement_of_another_length_is_refused() -> VortexResult<()> {
    let child = bools(&[true, false, true]);
    let view = child.as_typed::<Bool>().expect("booleans");
    let rules = ParentRuleSet::new(vec![ParentRuleSet::lift(Shorten)]);
    let slice = SliceArray::try_new_parts(child.clone(), 0..2)?.into_array();
    let refused = VortexError::ReducedLengthMismatch { from: ArrayId::Slice, to: ArrayId::Bool };

    assert_eq!(
        rules.evaluate(view, &ParentRef::from(&slice), 0, true).err(),
        Some(refused)
    );
    let unchecked = rules.evaluate(view, &ParentRef::from(&slice), 0, false)?;
    assert_eq!(unchecked.expect("a replacement").len(), 1);
    Ok(())
}

#[test]
fn matched_rules_need_an_allocated_parent() -> VortexResult<()> {
    let child = bools(&[true, false, true]);
    let view = child.as_typed::<Bool>().expect("booleans");
    let rules = ParentRuleSet::new(vec![ParentRuleSet::lift(Shorten)]);
    let parts = SliceArray::try_new_parts(child.clone(), 0..2)?;
    assert!(rules.evaluate(view, &ParentRef::from_parts(&parts), 0, false)?.is_none());

    let dict = DictArray::try_new(u32s(&[0]), child.clone())?;
    assert!(rules.evaluate(view, &ParentRef::from(&dict), 1, false)?.is_none());
    assert!(<Dict as Matcher>::matches(&dict));
    assert!(!<Primitive as Matcher>::matches(&dict));
    Ok(())
}
