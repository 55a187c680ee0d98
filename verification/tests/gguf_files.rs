//! Reading GGUF files and the small text helpers behind the messages.
use candle_core::quantized::gguf_file;
use candle_core::quantized::{GgmlDType as CandleDType, QTensor};
use candle_core::{Device, Tensor};
use qwen35_batch::alignment::find_zero_alignment;
use qwen35_batch::dequant::{bfloat_to_single, half_to_single, read_row};
use qwen35_batch::embedding::{check_sizes, QuantizedEmbedding};
use qwen35_batch::env_text::{
    parse_number, same_ignoring_case, switch_if_on, switch_unless_off,
};
use qwen35_batch::gguf::{GgmlDType, GgufIndex, MetaKind, MetaValue, TensorInfo};
use qwen35_batch::table::{is_name_less, same_text, NameTable};
use qwen35_batch::text::{join, push_decimal, push_hex, push_hexadecimal, push_list};
use std::io::Cursor;

fn written(metadata: &[(&str, &gguf_file::Value)], tensors: &[(&str, &QTensor)]) -> Vec<u8> {
    let mut file = Cursor::new(Vec::new());
    gguf_file::write(&mut file, metadata, tensors).unwrap();
    file.into_inner()
}

fn ramp(n: usize, cols: usize) -> Tensor {
    let data: Vec<f32> = (0..n).map(|i| (i as f32) * 0.25 - 7.0).collect();
    Tensor::from_vec(data, (n / cols, cols), &Device::Cpu).unwrap()
}

#[test]
fn a_written_file_is_read_back() {
    let name = gguf_file::Value::String("qwen35".to_string());
    let blocks = gguf_file::Value::U32(24);
    let eps = gguf_file::Value::F32(1e-6);
    let flag = gguf_file::Value::Bool(true);
    let wide = gguf_file::Value::U64(7);
    let table = QTensor::quantize(&ramp(128, 64), CandleDType::Q8_0).unwrap();
    let norm = QTensor::quantize(&ramp(64, 64), CandleDType::F32).unwrap();
    let bytes = written(
        &[
            ("general.architecture", &name),
            ("qwen35.block_count", &blocks),
            ("qwen35.attention.layer_norm_rms_epsilon", &eps),
            ("qwen35moe.router_norm_topk", &flag),
            ("general.wide", &wide),
        ],
        &[("token_embd.weight", &table), ("output_norm.weight", &norm)],
    );
    let index = GgufIndex::read(&bytes).unwrap();
    assert_eq!(index.meta("general.architecture").unwrap().to_text(), Some("qwen35"));
    assert_eq!(index.meta("qwen35.block_count").unwrap().to_u32(), Some(24));
    assert_eq!(
        index.meta("qwen35.attention.layer_norm_rms_epsilon").unwrap().to_float_bits(),
        Some(1e-6f32.to_bits())
    );
    assert_eq!(index.meta("qwen35moe.router_norm_topk").unwrap().to_bool(), Some(true));
    let other = index.meta("general.wide").unwrap();
    assert_eq!(other.to_u32(), None);
    assert_eq!(other.debug, "U64(7)");
    assert!(index.meta("general.absent").is_none());
    let info = index.tensor("token_embd.weight").unwrap();
    assert_eq!(info.ggml_dtype, GgmlDType::Q8_0);
    assert_eq!(info.dims, vec![2, 64]);
    assert_eq!(index.tensor("output_norm.weight").unwrap().ggml_dtype, GgmlDType::F32);
    let expected = gguf_file::Content::read(&mut Cursor::new(&bytes)).unwrap();
    assert_eq!(index.tensor_data_offset, expected.tensor_data_offset);
    assert_eq!(info.offset, expected.tensor_infos["token_embd.weight"].offset);
    assert_eq!(index.metadata.len(), 5);
    assert_eq!(index.tensor_infos.len(), 2);
}

#[test]
fn bytes_that_are_no_file_are_refused() {
    let error = GgufIndex::read(b"not a model file").unwrap_err();
    let expected = gguf_file::Content::read(&mut Cursor::new(b"not a model file")).unwrap_err();
    assert_eq!(error, expected.to_string());
    assert!(GgufIndex::read(&[]).is_err());
}

#[test]
fn an_alignment_of_zero_is_refused() {
    let zero = gguf_file::Value::U32(0);
    let bytes = written(&[("general.alignment", &zero)], &[]);
    assert!(find_zero_alignment(&bytes));
    assert_eq!(GgufIndex::read(&bytes).unwrap_err(), "gguf: alignment is zero");
    let usual = gguf_file::Value::U32(32);
    let bytes = written(&[("general.alignment", &usual)], &[]);
    assert!(!find_zero_alignment(&bytes));
    assert_eq!(
        GgufIndex::read(&bytes).unwrap().meta("general.alignment").unwrap().to_u32(),
        Some(32)
    );
}

#[test]
fn the_alignment_in_effect_counts() {
    let zero = gguf_file::Value::U32(0);
    let usual = gguf_file::Value::U32(64);
    let signed = gguf_file::Value::I16(0);
    let negative = gguf_file::Value::I8(-1);
    let long = gguf_file::Value::U64(0);
    let text = gguf_file::Value::String("general.alignment\u{4}\0\0\0\0\0\0\0".to_string());
    let nested = gguf_file::Value::Array(vec![
        gguf_file::Value::Array(vec![text.clone(), text.clone()]),
        gguf_file::Value::Array(vec![]),
    ]);
    for (entries, refused) in [
        (vec![("general.alignment", &usual), ("general.alignment", &zero)], true),
        (vec![("general.alignment", &zero), ("general.alignment", &usual)], false),
        (vec![("general.name", &text)], false),
        (vec![("general.names", &nested), ("general.alignment", &usual)], false),
        (vec![("general.names", &nested), ("general.alignment", &signed)], true),
        (vec![("general.alignment\0\0", &zero)], true),
        (vec![("general.alignment", &negative)], false),
        (vec![("general.alignment", &long)], false),
        (vec![("general.alignments", &zero)], false),
    ] {
        let bytes = written(&entries, &[]);
        assert_eq!(find_zero_alignment(&bytes), refused);
        let read = GgufIndex::read(&bytes);
        if refused {
            assert_eq!(read.unwrap_err(), "gguf: alignment is zero");
        } else {
            let expected = gguf_file::Content::read(&mut Cursor::new(&bytes)).unwrap();
            assert_eq!(read.unwrap().tensor_data_offset, expected.tensor_data_offset);
        }
    }
    assert!(!find_zero_alignment(&[]));
    let bytes = written(&[("general.alignment", &zero)], &[]);
    assert!(!find_zero_alignment(&bytes[..40]));
}

#[test]
fn elements_without_a_number_are_read_as_such() {
    let mut row = vec![0x00, 0x7c];
    row.extend([0u8; 16]);
    row.extend([2u8; 16]);
    let floats = read_row(GgmlDType::Q8_0, &row, 32);
    assert!(floats[..16].iter().all(|b| f32::from_bits(*b).is_nan()));
    assert!(floats[16..].iter().all(|b| f32::from_bits(*b) == f32::INFINITY));
    assert!(read_row(GgmlDType::Q8_0, &vec![], 0).is_empty());
}

#[test]
fn format_sizes_are_those_of_the_tensors() {
    let pairs = [
        (GgmlDType::F32, CandleDType::F32),
        (GgmlDType::F16, CandleDType::F16),
        (GgmlDType::BF16, CandleDType::BF16),
        (GgmlDType::Q4_0, CandleDType::Q4_0),
        (GgmlDType::Q4_1, CandleDType::Q4_1),
        (GgmlDType::Q5_0, CandleDType::Q5_0),
        (GgmlDType::Q5_1, CandleDType::Q5_1),
        (GgmlDType::Q8_0, CandleDType::Q8_0),
        (GgmlDType::Q8_1, CandleDType::Q8_1),
        (GgmlDType::Q2K, CandleDType::Q2K),
        (GgmlDType::Q3K, CandleDType::Q3K),
        (GgmlDType::Q4K, CandleDType::Q4K),
        (GgmlDType::Q5K, CandleDType::Q5K),
        (GgmlDType::Q6K, CandleDType::Q6K),
        (GgmlDType::Q8K, CandleDType::Q8K),
    ];
    for (own, outside) in pairs {
        assert_eq!(own.block_size(), outside.block_size());
        assert_eq!(own.type_size(), outside.type_size());
        assert_eq!(own.name(), format!("{outside:?}"));
    }
}

#[test]
fn embedding_rows_come_out_as_numbers() {
    for (own, outside) in [
        (GgmlDType::Q8_0, CandleDType::Q8_0),
        (GgmlDType::Q4_0, CandleDType::Q4_0),
        (GgmlDType::Q4_1, CandleDType::Q4_1),
        (GgmlDType::Q5_0, CandleDType::Q5_0),
        (GgmlDType::Q5_1, CandleDType::Q5_1),
        (GgmlDType::Q2K, CandleDType::Q2K),
        (GgmlDType::Q3K, CandleDType::Q3K),
        (GgmlDType::Q4K, CandleDType::Q4K),
        (GgmlDType::Q5K, CandleDType::Q5K),
        (GgmlDType::Q6K, CandleDType::Q6K),
        (GgmlDType::Q8K, CandleDType::Q8K),
        (GgmlDType::F16, CandleDType::F16),
        (GgmlDType::BF16, CandleDType::BF16),
        (GgmlDType::F32, CandleDType::F32),
    ] {
        let tensor = QTensor::quantize(&ramp(3 * 256, 256), outside).unwrap();
        let name = gguf_file::Value::String("qwen35".to_string());
        let bytes = written(&[("general.architecture", &name)], &[("token_embd.weight", &tensor)]);
        let index = GgufIndex::read(&bytes).unwrap();
        let info = index.tensor("token_embd.weight").unwrap();
        assert_eq!(info.ggml_dtype, own);
        assert!(check_sizes(info, index.tensor_data_offset));
        let table =
            QuantizedEmbedding::from_mmap(info, index.tensor_data_offset, bytes.len()).unwrap();
        assert_eq!(table.n_rows, 3);
        assert_eq!(table.n_cols, 256);
        assert!(table.is_elementwise());
        let found = table.forward(&bytes, &[2, 0], 2, 1).unwrap();
        assert_eq!((found.batch, found.seq_len, found.n_cols), (2, 1, 256));
        let expected: Vec<Vec<f32>> =
            tensor.dequantize(&Device::Cpu).unwrap().to_vec2().unwrap();
        let expected: Vec<u32> =
            expected[2].iter().chain(expected[0].iter()).map(|x| x.to_bits()).collect();
        assert_eq!(found.numbers, expected, "{outside:?}");
    }
}

#[test]
fn embeddings_have_the_shape_of_their_tokens() {
    let info = TensorInfo { ggml_dtype: GgmlDType::F32, dims: vec![3, 2], offset: 0 };
    let table = QuantizedEmbedding::from_mmap(&info, 0, 24).unwrap();
    let mut file = Vec::new();
    for i in 0..6 {
        file.extend_from_slice(&(i as f32).to_le_bytes());
    }
    let found = table.forward(&file, &[0, 1, 2, 2, 1, 0], 2, 3).unwrap();
    assert_eq!((found.batch, found.seq_len, found.n_cols), (2, 3, 2));
    let numbers: Vec<f32> = found.numbers.iter().map(|n| f32::from_bits(*n)).collect();
    assert_eq!(numbers, vec![0.0, 1.0, 2.0, 3.0, 4.0, 5.0, 4.0, 5.0, 2.0, 3.0, 0.0, 1.0]);
    let none = table.forward(&file, &[], 0, 3).unwrap();
    assert_eq!((none.batch, none.seq_len, none.n_cols), (0, 3, 2));
    assert!(none.numbers.is_empty());
}

#[test]
fn embedding_tables_are_checked() {
    let info = TensorInfo { ggml_dtype: GgmlDType::F32, dims: vec![2, 4], offset: 8 };
    let table = QuantizedEmbedding::from_mmap(&info, 100, 140).unwrap();
    assert_eq!(table.bytes_per_row, 16);
    assert_eq!(table.row_range(1).unwrap(), (124, 140));
    assert_eq!(
        table.row_range(2).unwrap_err(),
        "token_id 2 out of range (vocab_size=2)"
    );
    assert_eq!(
        QuantizedEmbedding::from_mmap(&info, 100, 139).unwrap_err(),
        "QuantizedEmbedding: data out of bounds 108..140 vs len 139"
    );
    let flat = TensorInfo { ggml_dtype: GgmlDType::F32, dims: vec![8], offset: 0 };
    assert_eq!(
        QuantizedEmbedding::from_mmap(&flat, 0, 64).unwrap_err(),
        "QuantizedEmbedding expects 2D tensor, got [8]"
    );
    let mut file = vec![0u8; 140];
    file[124..128].copy_from_slice(&1.5f32.to_le_bytes());
    let raw = table.gather(&file, &[1]).unwrap();
    assert_eq!(raw.len(), 16);
    assert_eq!(&raw[0..4], &1.5f32.to_le_bytes());
    assert_eq!(table.forward(&file, &[1], 1, 1).unwrap().numbers[0], 1.5f32.to_bits());
    assert_eq!(
        table.forward(&file, &[0, 9], 1, 2).unwrap_err(),
        "token_id 9 out of range (vocab_size=2)"
    );
    let odd = TensorInfo { ggml_dtype: GgmlDType::IQ2S, dims: vec![1, 256], offset: 0 };
    let odd_table = QuantizedEmbedding::from_mmap(&odd, 0, 4096).unwrap();
    assert_eq!(
        odd_table.gather(&vec![0u8; 4096], &[0]).unwrap_err(),
        "QuantizedEmbedding: unsupported dtype IQ2S"
    );
    assert!(!check_sizes(
        &TensorInfo { ggml_dtype: GgmlDType::F32, dims: vec![usize::MAX, 4], offset: 0 },
        0
    ));
}

#[test]
fn short_floats_widen_exactly() {
    for bits in 0..=u16::MAX {
        let half = half::f16::from_bits(bits).to_f32();
        let wide = f32::from_bits(half_to_single(bits));
        assert!(half.to_bits() == wide.to_bits() || (half.is_nan() && wide.is_nan()), "{bits:#x}");
        let brain = half::bf16::from_bits(bits).to_f32();
        let wide = f32::from_bits(bfloat_to_single(bits));
        assert!(
            brain.to_bits() == wide.to_bits() || (brain.is_nan() && wide.is_nan()),
            "{bits:#x}"
        );
    }
    assert_eq!(half_to_single(0x3c00), 1.0f32.to_bits());
    assert_eq!(half_to_single(0x0001), 5.960_464_5e-8f32.to_bits());
    assert_eq!(bfloat_to_single(0xc000), (-2.0f32).to_bits());
    assert_eq!(
        read_row(GgmlDType::F16, &vec![0x00, 0x3c, 0x00, 0xc0], 2),
        vec![1.0f32.to_bits(), (-2.0f32).to_bits()]
    );
}

#[test]
fn names_are_kept_in_order() {
    let mut table: NameTable<u32> = NameTable::new();
    table.insert("b".to_string(), 2);
    table.insert("a".to_string(), 1);
    table.insert("b".to_string(), 3);
    assert_eq!(table.len(), 2);
    assert_eq!(table.entries[0].0, "a");
    assert_eq!(table.get("b"), Some(&3));
    assert!(table.contains("a"));
    assert_eq!(table.get("c"), None);
    assert!(is_name_less("blk.1", "blk.10"));
    assert!(is_name_less("blk.10", "blk.2"));
    assert!(!is_name_less("a", "a"));
    assert!(same_text("ключ", "ключ"));
    assert!(!same_text("a", "ab"));
}

#[test]
fn values_say_what_they_are() {
    let value = MetaValue { kind: MetaKind::U32(5), debug: "U32(5)".to_string() };
    assert_eq!(value.to_u32(), Some(5));
    assert_eq!(value.to_float_bits(), None);
    assert_eq!(value.to_bool(), None);
    assert_eq!(value.to_text(), None);
    let mut index = GgufIndex::empty();
    index.set_meta("key".to_string(), value);
    index.set_tensor(
        "t".to_string(),
        TensorInfo { ggml_dtype: GgmlDType::Q4K, dims: vec![1, 256], offset: 0 },
    );
    assert_eq!(index.meta("key").unwrap().to_u32(), Some(5));
    assert_eq!(index.tensor("t").unwrap().ggml_dtype.type_size(), 144);
}

#[test]
fn numbers_are_written_out() {
    let mut out = String::new();
    push_decimal(&mut out, 0);
    out.push(' ');
    push_decimal(&mut out, u64::MAX);
    out.push(' ');
    push_hexadecimal(&mut out, 0xdead_beef);
    out.push(' ');
    push_hex(&mut out, 0xab, 16);
    out.push(' ');
    push_list(&mut out, &[1, 2, 3]);
    assert_eq!(
        out,
        format!("0 {} {:#x} {:016x} {:?}", u64::MAX, 0xdead_beefu64, 0xab, [1, 2, 3])
    );
    assert_eq!(join(&vec!["a".to_string(), "b".to_string()], "; "), "a; b");
    assert_eq!(join(&Vec::new(), "; "), "");
}

#[test]
fn switches_are_read_from_text() {
    assert!(same_ignoring_case("TrUe", "tRuE"));
    assert!(!same_ignoring_case("true", "tru"));
    assert!(switch_unless_off(Some("1"), false));
    assert!(!switch_unless_off(Some("0"), true));
    assert!(!switch_unless_off(Some("FALSE"), true));
    assert!(switch_unless_off(None, true));
    assert!(!switch_unless_off(None, false));
    assert!(switch_if_on(Some("1")));
    assert!(!switch_if_on(None));
    assert_eq!(parse_number("4096"), Some(4096));
    assert_eq!(parse_number(""), None);
    assert_eq!(parse_number("12a"), None);
    assert_eq!(parse_number("99999999999999999999999"), None);
}
