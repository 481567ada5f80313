use std::io::Cursor;
use zkneural::errors::ZKNeuralError;
use zkneural::pixel::{f32_unit_bits_value, f64_unit_bits_value};
use zkneural::quantize::byte_signal_value;
use zkneural::tensor::{
    collect_processed_data_to, decode_output_tensor, prepare_data_by_float_type,
    prepare_data_by_type, TensorDataType, TensorInvoker,
};

#[test]
fn unit_bit_patterns_match_ieee() {
    for b in 0..=255u8 {
        let single = (b as f32) / 255.0;
        assert_eq!(f32_unit_bits_value(b), single.to_bits(), "single precision of {}", b);
        let double = (b as f64) / 255.0;
        assert_eq!(f64_unit_bits_value(b), double.to_bits(), "double precision of {}", b);
    }
}

#[test]
fn byte_signal_matches_float_quantization() {
    for b in 0..=255u8 {
        let normalized = (b as f32) / 255.0;
        let reference = ((normalized as f64) * 32768.0) as i64;
        assert_eq!(byte_signal_value(b) as i64, reference, "signal of {}", b);
    }
}

#[test]
fn quantization_round_trip_stays_within_one_quantum() {
    for v in [0.0f64, 0.25, 0.5, 0.7, 0.9999, 1.0] {
        let q = (v * 32768.0).floor();
        assert!((q / 32768.0 - v).abs() < 1.0 / 32768.0);
    }
}

#[test]
fn prepare_float_buffers_match_ieee_layout() {
    let data: Vec<u8> = vec![0, 1, 127, 128, 254, 255];
    let (single, signals) = prepare_data_by_float_type(&data, false);
    assert_eq!(single.len(), data.len() * 4);
    for (i, &b) in data.iter().enumerate() {
        let expected = ((b as f32) / 255.0).to_le_bytes();
        assert_eq!(&single[i * 4..i * 4 + 4], &expected);
        let reference = (((b as f32 / 255.0) as f64) * 32768.0) as i64;
        assert_eq!(signals[i], reference.to_string());
    }
    let (double, signals2) = prepare_data_by_float_type(&data, true);
    assert_eq!(double.len(), data.len() * 8);
    for (i, &b) in data.iter().enumerate() {
        let expected = ((b as f64) / 255.0).to_le_bytes();
        assert_eq!(&double[i * 8..i * 8 + 8], &expected);
    }
    assert_eq!(signals, signals2);
}

#[test]
fn prepare_int_buffers_widen_little_endian() {
    let data: Vec<u8> = vec![0, 7, 255];
    let (one, signals) = prepare_data_by_type(&data, 1);
    assert_eq!(one, data);
    assert_eq!(signals, vec!["0".to_string(), "7".to_string(), "255".to_string()]);
    let (four, _) = prepare_data_by_type(&data, 4);
    let mut expected: Vec<u8> = Vec::new();
    for &b in &data {
        expected.extend_from_slice(&(b as i32).to_le_bytes());
    }
    assert_eq!(four, expected);
}

#[test]
fn collect_decodes_little_endian_two_complement() {
    let mut bytes: Vec<u8> = Vec::new();
    for v in [-1i16, 0, 300, -32768, 32767] {
        bytes.extend_from_slice(&v.to_le_bytes());
    }
    bytes.push(9); // a trailing byte that fills no chunk is dropped
    let decoded = collect_processed_data_to(&bytes, 2);
    assert_eq!(decoded, vec![-1i64, 0, 300, -32768, 32767]);

    let mut wide: Vec<u8> = Vec::new();
    for v in [i64::MIN, -1, 0, i64::MAX] {
        wide.extend_from_slice(&v.to_le_bytes());
    }
    assert_eq!(collect_processed_data_to(&wide, 8), vec![i64::MIN, -1, 0, i64::MAX]);

    assert_eq!(collect_processed_data_to(&vec![0u8, 255], 1), vec![0i64, 255]);
}

#[test]
fn decode_output_matches_reference_encoder() {
    let values: Vec<i32> = vec![-5, 0, 1000000];
    let mut bytes: Vec<u8> = Vec::new();
    for v in &values {
        bytes.extend_from_slice(&v.to_le_bytes());
    }
    let encoded = decode_output_tensor(&bytes, TensorDataType::Int32).unwrap().unwrap();
    assert_eq!(encoded, serde_json::to_vec(&values).unwrap());

    // Floating output is the caller's floating-point work.
    assert!(decode_output_tensor(&bytes, TensorDataType::Float32).unwrap().is_none());
    // Anything else is refused.
    assert!(matches!(
        decode_output_tensor(&bytes, TensorDataType::Bool),
        Err(ZKNeuralError::InvalidModelDataType)
    ));
}

fn tiny_png() -> Vec<u8> {
    let img = image::RgbImage::from_fn(2, 2, |x, y| image::Rgb([(40 * x) as u8, (80 * y) as u8, 200]));
    let mut buf: Vec<u8> = Vec::new();
    image::DynamicImage::ImageRgb8(img)
        .write_to(&mut Cursor::new(&mut buf), image::ImageFormat::Png)
        .unwrap();
    buf
}

fn invoker(shape: Vec<usize>, dtype: TensorDataType) -> TensorInvoker {
    TensorInvoker { model_data: Vec::new(), input_shape: shape, input_data_type: dtype, should_process: false }
}

#[test]
fn prepare_image_validates_dimensions() {
    let png = tiny_png();
    let three_dims = invoker(vec![1, 2, 2], TensorDataType::UInt8);
    assert!(matches!(
        three_dims.prepare_image(&png),
        Err(ZKNeuralError::ModelNotFourDimensional)
    ));
}

#[test]
fn prepare_image_validates_channels() {
    let png = tiny_png();
    let two_channels = invoker(vec![1, 2, 2, 2], TensorDataType::UInt8);
    assert!(matches!(
        two_channels.prepare_image(&png),
        Err(ZKNeuralError::InvalidModelChannel)
    ));
}

#[test]
fn prepare_image_validates_element_type() {
    let png = tiny_png();
    let boolean = invoker(vec![1, 2, 2, 3], TensorDataType::Bool);
    assert!(matches!(
        boolean.prepare_image(&png),
        Err(ZKNeuralError::InvalidModelDataType)
    ));
}

#[test]
fn prepare_image_rejects_undecodable_bytes() {
    let junk: Vec<u8> = vec![1, 2, 3, 4];
    let rgb = invoker(vec![1, 2, 2, 3], TensorDataType::UInt8);
    assert!(matches!(
        rgb.prepare_image(&junk),
        Err(ZKNeuralError::ImageProcessingError(_))
    ));
    // The image is decoded before the channel count is judged, so
    // undecodable bytes win over a bad channel count.
    let two_channels = invoker(vec![1, 2, 2, 2], TensorDataType::UInt8);
    assert!(matches!(
        two_channels.prepare_image(&junk),
        Err(ZKNeuralError::ImageProcessingError(_))
    ));
}

#[test]
fn prepare_image_byte_model_round_trip() {
    let png = tiny_png();
    let rgb = invoker(vec![1, 2, 2, 3], TensorDataType::UInt8);
    let (bytes, signals) = rgb.prepare_image(&png).unwrap();
    assert_eq!(bytes.len(), 2 * 2 * 3);
    assert_eq!(signals.len(), bytes.len());
    for (i, &b) in bytes.iter().enumerate() {
        assert_eq!(signals[i], b.to_string());
    }
}

#[test]
fn prepare_image_float_model_consistency() {
    let png = tiny_png();
    let rgb = invoker(vec![1, 2, 2, 3], TensorDataType::Float32);
    let (bytes, signals) = rgb.prepare_image(&png).unwrap();
    assert_eq!(bytes.len(), 2 * 2 * 3 * 4);
    assert_eq!(signals.len(), 2 * 2 * 3);
    for i in 0..signals.len() {
        let mut word = [0u8; 4];
        word.copy_from_slice(&bytes[i * 4..i * 4 + 4]);
        let value = f32::from_le_bytes(word);
        let reference = ((value as f64) * 32768.0) as i64;
        assert_eq!(signals[i], reference.to_string());
    }
}

#[test]
fn prepare_image_grayscale_channel() {
    let png = tiny_png();
    let gray = invoker(vec![1, 2, 2, 1], TensorDataType::UInt8);
    let (bytes, signals) = gray.prepare_image(&png).unwrap();
    assert_eq!(bytes.len(), 2 * 2);
    assert_eq!(signals.len(), 4);
}
