//! Compressing strings.

use vortex::arrays::primitive::PrimitiveArray;
use vortex::arrays::varbin::{VarBinArray, VarBinBuilder};
use vortex::arrays::varbinview::VarBinViewArray;
use vortex::dtype::{DType, Nullability, PType};
use vortex::encodings::fsst_array::codec::has_fitting_lengths;
use vortex::encodings::fsst_array::compress::{
    fsst_compress, fsst_compress_varbin, fsst_output_fits_in_i32_offsets, fsst_train_compressor,
    fsst_train_compressor_varbin, try_fsst_compress, try_fsst_compress_varbin, view_lines,
};
use vortex::encodings::fsst_array::FSSTArray;
use vortex::error::{VortexError, VortexResult};
use vortex::mask::Mask;
use vortex::optimizer::kernels::{ExecutionCtx, VortexSession};
use vortex::validity::Validity;

fn ctx() -> ExecutionCtx {
    ExecutionCtx::new(VortexSession::empty())
}

fn utf8(values: &[&str]) -> VarBinViewArray {
    let rows = values.iter().map(|s| s.as_bytes().to_vec()).collect();
    VarBinViewArray::from_rows(DType::Utf8(Nullability::NonNullable), rows)
}

fn decompressed(array: &FSSTArray, compressor: &fsst::Compressor) -> Vec<Option<Vec<u8>>> {
    let decompressor = compressor.decompressor();
    (0..array.codes().len())
        .map(|i| array.codes().row_at(i).map(|codes| decompressor.decompress(codes)))
        .collect()
}

#[test]
fn offset_width_boundary() {
    let m = i32::MAX as usize;
    assert!(fsst_output_fits_in_i32_offsets(m / 2 - 7, 1));
    assert!(!fsst_output_fits_in_i32_offsets(m / 2, 1));
    assert!(fsst_output_fits_in_i32_offsets(0, 0));
    assert!(!fsst_output_fits_in_i32_offsets(usize::MAX, 1));
}

#[test]
fn codes_offsets_dtype_small_input_is_i32() -> VortexResult<()> {
    let array = utf8(&["hello", "world", "fsst encoded"]);
    let mut ctx = ctx();
    let compressor = fsst_train_compressor(&array, &mut ctx)?;
    let fsst = fsst_compress(&array, &compressor, &mut ctx)?;
    assert_eq!(fsst.codes().offsets().dtype(), DType::Primitive(PType::I32, Nullability::NonNullable));
    Ok(())
}

#[test]
fn offsets_widen_exactly_past_the_bound() {
    let m = i32::MAX as usize;
    assert!(fsst_output_fits_in_i32_offsets((m - 7) / 2, 1));
    assert!(!fsst_output_fits_in_i32_offsets((m - 7) / 2 + 1, 1));
    assert!(fsst_output_fits_in_i32_offsets(0, m / 7));
    assert!(!fsst_output_fits_in_i32_offsets(0, m / 7 + 1));
    assert!(!fsst_output_fits_in_i32_offsets(0, usize::MAX));
}

#[test]
fn compressed_rows_decompress_to_the_input() -> VortexResult<()> {
    let long = "a string that is too long to be held in place".repeat(3);
    let values = ["hello hello hello", "", "world", &long, "hello world"];
    let array = utf8(&values);
    let mut ctx = ctx();
    let compressor = fsst_train_compressor(&array, &mut ctx)?;
    let fsst = fsst_compress(&array, &compressor, &mut ctx)?;

    let expected: Vec<Option<Vec<u8>>> =
        values.iter().map(|s| Some(s.as_bytes().to_vec())).collect();
    assert_eq!(decompressed(&fsst, &compressor), expected);
    let lengths: Vec<i32> = values.iter().map(|s| s.len() as i32).collect();
    assert_eq!(fsst.uncompressed_lengths, lengths);
    assert_eq!(fsst.dtype, DType::Utf8(Nullability::NonNullable));
    assert_eq!(fsst.codes().dtype, DType::Binary(Nullability::NonNullable));
    assert_ne!(fsst.codes().row_at(0), Some("hello hello hello".as_bytes()));
    Ok(())
}

/// Reads codes back with nothing but the symbol table that the array holds.
fn decode(array: &FSSTArray, codes: &[u8]) -> Vec<u8> {
    let mut row = Vec::new();
    let mut i = 0;
    while i < codes.len() {
        if codes[i] == 255 {
            row.push(codes[i + 1]);
            i += 2;
        } else {
            let code = codes[i] as usize;
            let length = array.symbol_lengths[code] as usize;
            row.extend_from_slice(&array.symbols[code].to_le_bytes()[..length]);
            i += 1;
        }
    }
    row
}

#[test]
fn symbol_table_decodes_every_row() -> VortexResult<()> {
    let mut rows: Vec<Vec<u8>> = vec![vec![0], vec![0, 0], vec![b'a', 0], vec![b'a'], vec![255, 255]];
    for i in 0..200u8 {
        rows.push(vec![i, 0, i, b'a', 0, 0, b'b', 0, i % 3]);
        rows.push(vec![0; i as usize]);
        rows.push((0..=i).collect());
    }
    let array = VarBinViewArray::from_rows(DType::Binary(Nullability::NonNullable), rows.clone());
    let mut ctx = ctx();
    let compressor = fsst_train_compressor(&array, &mut ctx)?;
    let fsst = fsst_compress(&array, &compressor, &mut ctx)?;
    let theirs = decompressed(&fsst, &compressor);
    for (i, row) in rows.iter().enumerate() {
        let codes = fsst.codes().row_at(i).expect("no row is null");
        assert_eq!(&decode(&fsst, codes), row);
        assert_eq!(theirs[i].as_ref(), Some(row));
    }
    for (symbol, length) in fsst.symbols.iter().zip(&fsst.symbol_lengths) {
        let used = 8 - (symbol.leading_zeros() / 8) as u8;
        assert_eq!(*length, used.max(1));
    }
    Ok(())
}

#[test]
fn overlong_symbols_are_found() -> VortexResult<()> {
    let array = utf8(&["hello", "world"]);
    let mut ctx = ctx();
    let trained = fsst_train_compressor(&array, &mut ctx)?;
    assert!(has_fitting_lengths(&trained));
    let checked = try_fsst_compress(&array, &trained, &mut ctx).expect("the lengths fit")?;
    assert_eq!(
        decompressed(&checked, &trained),
        vec![Some(b"hello".to_vec()), Some(b"world".to_vec())]
    );
    assert!(try_fsst_compress_varbin(&varbin(), &trained, &mut ctx).is_some());

    let overlong = fsst::Compressor::rebuild_from([fsst::Symbol::from_slice(b"abcdefgh")], [9u8]);
    assert!(!has_fitting_lengths(&overlong));
    assert!(try_fsst_compress(&array, &overlong, &mut ctx).is_none());
    assert!(try_fsst_compress_varbin(&varbin(), &overlong, &mut ctx).is_none());
    Ok(())
}

#[test]
fn symbol_table_is_that_of_the_compressor() -> VortexResult<()> {
    let array = utf8(&["abababab", "abababab", "cdcdcdcd"]);
    let mut ctx = ctx();
    let compressor = fsst_train_compressor(&array, &mut ctx)?;
    let fsst = fsst_compress(&array, &compressor, &mut ctx)?;
    let symbols: Vec<u64> = compressor.symbol_table().iter().map(|s| s.to_u64()).collect();
    assert!(!symbols.is_empty());
    assert_eq!(fsst.symbols, symbols);
    assert_eq!(fsst.symbol_lengths, compressor.symbol_lengths().to_vec());
    Ok(())
}

fn nullable_views() -> VarBinViewArray {
    let mut array = utf8(&["one", "two", "three"]);
    array.dtype = DType::Binary(Nullability::Nullable);
    array.validity = Validity::Array(Mask::from_bits(vec![true, false, true]));
    array
}

#[test]
fn null_rows_stay_null() -> VortexResult<()> {
    let array = nullable_views();
    let mut ctx = ctx();
    let compressor = fsst_train_compressor(&array, &mut ctx)?;
    let fsst = fsst_compress(&array, &compressor, &mut ctx)?;
    assert_eq!(
        decompressed(&fsst, &compressor),
        vec![Some(b"one".to_vec()), None, Some(b"three".to_vec())]
    );
    assert_eq!(fsst.uncompressed_lengths, vec![3, 0, 5]);
    assert_eq!(fsst.codes().dtype, DType::Binary(Nullability::Nullable));
    Ok(())
}

#[test]
fn training_sees_the_rows_that_are_not_null() {
    let array = nullable_views();
    let mask = array.validity.execute_mask(3);
    assert_eq!(view_lines(&array, &mask), vec![b"one".as_slice(), b"three".as_slice()]);
}

#[test]
fn all_null_rows_have_no_codes() -> VortexResult<()> {
    let mut array = nullable_views();
    array.validity = Validity::AllInvalid;
    let mut ctx = ctx();
    let compressor = fsst_train_compressor(&array, &mut ctx)?;
    let fsst = fsst_compress(&array, &compressor, &mut ctx)?;
    assert_eq!(decompressed(&fsst, &compressor), vec![None, None, None]);
    assert_eq!(fsst.codes().bytes.len(), 0);
    Ok(())
}

fn varbin() -> VarBinArray {
    VarBinArray {
        dtype: DType::Utf8(Nullability::Nullable),
        offsets: PrimitiveArray::new(vec![2u16, 5, 7, 12], Validity::NonNullable),
        bytes: b"..oneXXthree".to_vec(),
        validity: Validity::Array(Mask::from_bits(vec![true, false, true])),
    }
}

#[test]
fn rows_behind_each_other_compress_alike() -> VortexResult<()> {
    let array = varbin();
    assert_eq!(array.row_at(0), Some(b"one".as_slice()));
    assert_eq!(array.row_at(1), None);
    let mut ctx = ctx();
    let compressor = fsst_train_compressor_varbin(&array, &mut ctx)?;
    let fsst = fsst_compress_varbin(&array, &compressor, &mut ctx)?;
    assert_eq!(
        decompressed(&fsst, &compressor),
        vec![Some(b"one".to_vec()), None, Some(b"three".to_vec())]
    );
    assert_eq!(fsst.uncompressed_lengths, vec![3, 0, 5]);
    assert_eq!(fsst.codes().offsets().dtype(), DType::Primitive(PType::I32, Nullability::NonNullable));
    Ok(())
}

#[test]
fn builder_keeps_rows_apart() {
    let mut builder = VarBinBuilder::<i64>::with_capacity(3);
    builder.append_value(b"ab");
    builder.append_null();
    builder.append_value(b"");
    let array = builder.finish(DType::Binary(Nullability::Nullable));
    assert_eq!(array.row_at(0), Some(b"ab".as_slice()));
    assert_eq!(array.row_at(1), None);
    assert_eq!(array.row_at(2), Some(b"".as_slice()));
    assert_eq!(array.offsets().dtype(), DType::Primitive(PType::I64, Nullability::NonNullable));
}

#[test]
fn parts_that_do_not_fit_are_refused() {
    let codes = |nullability| {
        let mut builder = VarBinBuilder::<i32>::with_capacity(1);
        builder.append_value(b"a");
        builder.finish(DType::Binary(nullability))
    };
    let utf8 = || DType::Utf8(Nullability::NonNullable);
    let plain = || codes(Nullability::NonNullable);

    assert!(FSSTArray::try_new(utf8(), vec![1], vec![1], plain(), vec![1]).is_ok());
    assert_eq!(
        FSSTArray::try_new(utf8(), vec![1], vec![1], codes(Nullability::Nullable), vec![1]).err(),
        Some(VortexError::FsstDType)
    );
    assert_eq!(
        FSSTArray::try_new(DType::Null, vec![1], vec![1], plain(), vec![1]).err(),
        Some(VortexError::FsstDType)
    );
    assert_eq!(
        FSSTArray::try_new(utf8(), vec![1], vec![], plain(), vec![1]).err(),
        Some(VortexError::FsstSymbolTable)
    );
    assert_eq!(
        FSSTArray::try_new(utf8(), vec![0; 256], vec![1; 256], plain(), vec![1]).err(),
        Some(VortexError::FsstSymbolTable)
    );
    assert_eq!(
        FSSTArray::try_new(utf8(), vec![1], vec![1], plain(), vec![]).err(),
        Some(VortexError::FsstLengths)
    );
}
