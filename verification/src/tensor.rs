//! The quantized tensor pipeline.
//!
//! A `TensorInvoker` describes a loaded model: its raw bytes, the input
//! tensor's four dimensions and element type, and whether floating output is
//! L2-normalized. The pipeline converts decoded pixel bytes into the exact
//! byte layout the model expects, and converts the model's raw output bytes
//! back into a typed numeric sequence, serialized as a JSON number array.
//! The inference engine itself is an external collaborator: the embedding
//! application queries the model description from it, runs it, and hands raw
//! output bytes back to the verified decoders here.

use crate::digits::{dec_chars, dec_string_u64};
use crate::errors::ZKNeuralError;
use crate::json::{json_int_array, push_json_int_array};
use crate::pixel::{
    f32_unit_bits, f32_unit_bits_value, f64_unit_bits, f64_unit_bits_value, le4, le8, push_le4,
    push_le8,
};
use crate::quantize::{byte_signal, byte_signal_value};
use vstd::prelude::*;

verus! {

/// The element type a tensor declares; mirrors the inference engine's own
/// enumeration.
#[derive(Clone, Copy, Debug, PartialEq, Eq, Structural)]
pub enum TensorDataType {
    Bool,
    UInt8,
    UInt16,
    UInt32,
    UInt64,
    Int4,
    Int8,
    Int16,
    Int32,
    Int64,
    BFloat16,
    Float16,
    Float32,
    Float64,
    Text,
    Complex64,
    Complex128,
}

/// Which preprocessing the pipeline applies before resizing: none, or face
/// localization first.
pub enum ImagePreprocessing {
    NoPreprocessing,
    FaceRecognition,
}

impl TensorDataType {
    /// The element width in bytes of the integer types the pipeline
    /// encodes; `None` for every other type.
    pub open spec fn int_width_spec(&self) -> Option<usize> {
        match self {
            TensorDataType::UInt8 => Some(1usize),
            TensorDataType::Int16 => Some(2usize),
            TensorDataType::Int32 => Some(4usize),
            TensorDataType::Int64 => Some(8usize),
            _ => None,
        }
    }

    /// The element width in bytes of the integer types the pipeline
    /// encodes.
    pub fn int_width(&self) -> (r: Option<usize>)
        ensures
            r == self.int_width_spec(),
    {
        match self {
            TensorDataType::UInt8 => Some(1),
            TensorDataType::Int16 => Some(2),
            TensorDataType::Int32 => Some(4),
            TensorDataType::Int64 => Some(8),
            _ => None,
        }
    }

    /// Whether this is one of the two floating types the pipeline encodes.
    pub open spec fn is_float_spec(&self) -> bool {
        self is Float32 || self is Float64
    }
}

/// One pixel byte, laid out as a `width`-byte little-endian integer. A byte
/// is never negative, so the upper bytes are zero.
pub open spec fn byte_le_bytes(b: u8, width: int) -> Seq<u8> {
    seq![b] + Seq::new((width - 1) as nat, |i: int| 0u8)
}

/// Every pixel byte of `data`, widened to `width`-byte little-endian
/// integers, concatenated.
pub open spec fn prepared_int_bytes(data: Seq<u8>, width: int) -> Seq<u8>
    decreases data.len(),
{
    if data.len() == 0 {
        Seq::empty()
    } else {
        byte_le_bytes(data[0], width) + prepared_int_bytes(data.drop_first(), width)
    }
}

/// Every pixel byte of `data`, encoded as the single-precision bits of
/// `b/255`, little-endian, concatenated.
pub open spec fn prepared_single_bytes(data: Seq<u8>) -> Seq<u8>
    decreases data.len(),
{
    if data.len() == 0 {
        Seq::empty()
    } else {
        le4(f32_unit_bits(data[0])) + prepared_single_bytes(data.drop_first())
    }
}

/// Every pixel byte of `data`, encoded as the double-precision bits of
/// `b/255`, little-endian, concatenated.
pub open spec fn prepared_double_bytes(data: Seq<u8>) -> Seq<u8>
    decreases data.len(),
{
    if data.len() == 0 {
        Seq::empty()
    } else {
        le8(f64_unit_bits(data[0])) + prepared_double_bytes(data.drop_first())
    }
}

/// The signal strings of the integer path: each pixel byte as its plain
/// decimal string.
pub open spec fn int_signal_strings(data: Seq<u8>) -> Seq<Seq<char>> {
    data.map_values(|b: u8| dec_chars(b as nat))
}

/// The signal strings of the floating path: each pixel byte quantized as
/// `(b * 32768) / 255` and rendered in decimal.
pub open spec fn float_signal_strings(data: Seq<u8>) -> Seq<Seq<char>> {
    data.map_values(|b: u8| dec_chars(byte_signal(b) as nat))
}

proof fn lemma_prepared_int_bytes_add(a: Seq<u8>, b: Seq<u8>, width: int)
    ensures
        prepared_int_bytes(a + b, width) == prepared_int_bytes(a, width) + prepared_int_bytes(
            b,
            width,
        ),
    decreases a.len(),
{
    if a.len() == 0 {
        assert(a + b =~= b);
        assert(prepared_int_bytes(a, width) + prepared_int_bytes(b, width) =~= prepared_int_bytes(
            b,
            width,
        ));
    } else {
        lemma_prepared_int_bytes_add(a.drop_first(), b, width);
        assert((a + b).drop_first() =~= a.drop_first() + b);
        assert(byte_le_bytes(a[0], width) + (prepared_int_bytes(a.drop_first(), width)
            + prepared_int_bytes(b, width)) =~= (byte_le_bytes(a[0], width) + prepared_int_bytes(
            a.drop_first(),
            width,
        )) + prepared_int_bytes(b, width));
    }
}

proof fn lemma_prepared_single_bytes_add(a: Seq<u8>, b: Seq<u8>)
    ensures
        prepared_single_bytes(a + b) == prepared_single_bytes(a) + prepared_single_bytes(b),
    decreases a.len(),
{
    if a.len() == 0 {
        assert(a + b =~= b);
        assert(prepared_single_bytes(a) + prepared_single_bytes(b) =~= prepared_single_bytes(b));
    } else {
        lemma_prepared_single_bytes_add(a.drop_first(), b);
        assert((a + b).drop_first() =~= a.drop_first() + b);
        assert(le4(f32_unit_bits(a[0])) + (prepared_single_bytes(a.drop_first())
            + prepared_single_bytes(b)) =~= (le4(f32_unit_bits(a[0])) + prepared_single_bytes(
            a.drop_first(),
        )) + prepared_single_bytes(b));
    }
}

proof fn lemma_prepared_double_bytes_add(a: Seq<u8>, b: Seq<u8>)
    ensures
        prepared_double_bytes(a + b) == prepared_double_bytes(a) + prepared_double_bytes(b),
    decreases a.len(),
{
    if a.len() == 0 {
        assert(a + b =~= b);
        assert(prepared_double_bytes(a) + prepared_double_bytes(b) =~= prepared_double_bytes(b));
    } else {
        lemma_prepared_double_bytes_add(a.drop_first(), b);
        assert((a + b).drop_first() =~= a.drop_first() + b);
        assert(le8(f64_unit_bits(a[0])) + (prepared_double_bytes(a.drop_first())
            + prepared_double_bytes(b)) =~= (le8(f64_unit_bits(a[0])) + prepared_double_bytes(
            a.drop_first(),
        )) + prepared_double_bytes(b));
    }
}

pub proof fn lemma_prepared_int_bytes_len(data: Seq<u8>, width: int)
    requires
        width >= 1,
    ensures
        prepared_int_bytes(data, width).len() == data.len() * width,
    decreases data.len(),
{
    if data.len() == 0 {
        assert(0 * width == 0) by (nonlinear_arith);
    } else {
        lemma_prepared_int_bytes_len(data.drop_first(), width);
        assert(byte_le_bytes(data[0], width).len() == width);
        assert(width + (data.len() - 1) * width == data.len() * width) by (nonlinear_arith);
    }
}

pub proof fn lemma_prepared_single_bytes_len(data: Seq<u8>)
    ensures
        prepared_single_bytes(data).len() == 4 * data.len(),
    decreases data.len(),
{
    if data.len() > 0 {
        lemma_prepared_single_bytes_len(data.drop_first());
    }
}

pub proof fn lemma_prepared_double_bytes_len(data: Seq<u8>)
    ensures
        prepared_double_bytes(data).len() == 8 * data.len(),
    decreases data.len(),
{
    if data.len() > 0 {
        lemma_prepared_double_bytes_len(data.drop_first());
    }
}

/// Law: for every element type the pipeline encodes, the signal sequence
/// carries exactly one string per pixel byte, and the encoded buffer
/// carries exactly the element width in bytes per pixel.
pub proof fn lemma_prepared_output_counts(dtype: TensorDataType, pix: Seq<u8>)
    requires
        dtype.int_width_spec() is Some || dtype.is_float_spec(),
    ensures
        signal_strings_for(dtype, pix).len() == pix.len(),
        dtype.int_width_spec() matches Some(w) ==> prepared_bytes_for(dtype, pix).len()
            == pix.len() * w,
        dtype is Float32 ==> prepared_bytes_for(dtype, pix).len() == 4 * pix.len(),
        dtype is Float64 ==> prepared_bytes_for(dtype, pix).len() == 8 * pix.len(),
{
    match dtype.int_width_spec() {
        Some(w) => {
            lemma_prepared_int_bytes_len(pix, w as int);
        },
        None => {
            if dtype is Float32 {
                lemma_prepared_single_bytes_len(pix);
            } else {
                lemma_prepared_double_bytes_len(pix);
            }
        },
    }
}

/// Widens every pixel byte to a `width`-byte little-endian integer and
/// renders each as its decimal signal string.
pub fn prepare_data_by_type(data: &Vec<u8>, width: usize) -> (r: (Vec<u8>, Vec<String>))
    requires
        1 <= width <= 8,
    ensures
        r.0@ == prepared_int_bytes(data@, width as int),
        r.1.deep_view() == int_signal_strings(data@),
{
    let mut out: Vec<u8> = Vec::new();
    let mut signals: Vec<String> = Vec::new();
    let mut i: usize = 0;
    proof {
        assert(prepared_int_bytes(data@.take(0), width as int) =~= Seq::<u8>::empty());
        assert(signals.deep_view() =~= Seq::<Seq<char>>::empty());
    }
    while i < data.len()
        invariant
            i <= data@.len(),
            1 <= width <= 8,
            out@ == prepared_int_bytes(data@.take(i as int), width as int),
            signals.deep_view() =~= data@.take(i as int).map_values(|b: u8| dec_chars(b as nat)),
        decreases data@.len() - i,
    {
        let b = data[i];
        let ghost old_out = out@;
        let ghost old_sigs = signals.deep_view();
        out.push(b);
        let mut j: usize = 1;
        while j < width
            invariant
                1 <= j <= width,
                out@ == old_out + seq![b] + Seq::new((j - 1) as nat, |k: int| 0u8),
            decreases width - j,
        {
            out.push(0);
            proof {
                assert(out@ =~= old_out + seq![b] + Seq::new(j as nat, |k: int| 0u8));
            }
            j = j + 1;
        }
        let s = dec_string_u64(b as u64);
        signals.push(s);
        proof {
            assert(data@.take(i + 1) =~= data@.take(i as int).push(b));
            assert(data@.take(i as int) + seq![b] =~= data@.take(i + 1));
            lemma_prepared_int_bytes_add(data@.take(i as int), seq![b], width as int);
            assert(seq![b].drop_first() =~= Seq::<u8>::empty());
            assert(prepared_int_bytes(Seq::<u8>::empty(), width as int) =~= Seq::<u8>::empty());
            assert(prepared_int_bytes(seq![b], width as int) == byte_le_bytes(b, width as int)
                + prepared_int_bytes(Seq::<u8>::empty(), width as int));
            assert(prepared_int_bytes(seq![b], width as int) =~= byte_le_bytes(b, width as int));
            assert(out@ =~= old_out + byte_le_bytes(b, width as int));
            assert(out@ =~= prepared_int_bytes(data@.take(i + 1), width as int));
            assert(signals.deep_view() =~= old_sigs.push(s@));
            assert(signals.deep_view() =~= data@.take(i + 1).map_values(
                |bb: u8| dec_chars(bb as nat),
            ));
        }
        i = i + 1;
    }
    proof {
        assert(data@.take(data@.len() as int) =~= data@);
    }
    (out, signals)
}

/// Encodes every pixel byte as the floating bits of `b/255`, little-endian,
/// in the requested precision, and renders each byte's quantized signal
/// `(b * 32768) / 255` as a decimal string.
pub fn prepare_data_by_float_type(data: &Vec<u8>, double_precision: bool) -> (r: (
    Vec<u8>,
    Vec<String>,
))
    ensures
        !double_precision ==> r.0@ == prepared_single_bytes(data@),
        double_precision ==> r.0@ == prepared_double_bytes(data@),
        r.1.deep_view() == float_signal_strings(data@),
{
    let mut out: Vec<u8> = Vec::new();
    let mut signals: Vec<String> = Vec::new();
    let mut i: usize = 0;
    proof {
        assert(prepared_single_bytes(data@.take(0)) =~= Seq::<u8>::empty());
        assert(prepared_double_bytes(data@.take(0)) =~= Seq::<u8>::empty());
        assert(signals.deep_view() =~= Seq::<Seq<char>>::empty());
    }
    while i < data.len()
        invariant
            i <= data@.len(),
            !double_precision ==> out@ == prepared_single_bytes(data@.take(i as int)),
            double_precision ==> out@ == prepared_double_bytes(data@.take(i as int)),
            signals.deep_view() =~= data@.take(i as int).map_values(
                |b: u8| dec_chars(byte_signal(b) as nat),
            ),
        decreases data@.len() - i,
    {
        let b = data[i];
        let ghost old_out = out@;
        if double_precision {
            let bits = f64_unit_bits_value(b);
            push_le8(&mut out, bits);
        } else {
            let bits = f32_unit_bits_value(b);
            push_le4(&mut out, bits);
        }
        let sig = byte_signal_value(b);
        let s = dec_string_u64(sig);
        let ghost old_sigs = signals.deep_view();
        signals.push(s);
        proof {
            assert(data@.take(i + 1) =~= data@.take(i as int).push(b));
            assert(data@.take(i as int) + seq![b] =~= data@.take(i + 1));
            assert(seq![b].drop_first() =~= Seq::<u8>::empty());
            if double_precision {
                lemma_prepared_double_bytes_add(data@.take(i as int), seq![b]);
                assert(prepared_double_bytes(Seq::<u8>::empty()) =~= Seq::<u8>::empty());
                assert(prepared_double_bytes(seq![b]) == le8(f64_unit_bits(b))
                    + prepared_double_bytes(Seq::<u8>::empty()));
                assert(prepared_double_bytes(seq![b]) =~= le8(f64_unit_bits(b)));
                assert(out@ =~= prepared_double_bytes(data@.take(i + 1)));
            } else {
                lemma_prepared_single_bytes_add(data@.take(i as int), seq![b]);
                assert(prepared_single_bytes(Seq::<u8>::empty()) =~= Seq::<u8>::empty());
                assert(prepared_single_bytes(seq![b]) == le4(f32_unit_bits(b))
                    + prepared_single_bytes(Seq::<u8>::empty()));
                assert(prepared_single_bytes(seq![b]) =~= le4(f32_unit_bits(b)));
                assert(out@ =~= prepared_single_bytes(data@.take(i + 1)));
            }
            assert(signals.deep_view() =~= old_sigs.push(s@));
            assert(signals.deep_view() =~= data@.take(i + 1).map_values(
                |bb: u8| dec_chars(byte_signal(bb) as nat),
            ));
        }
        i = i + 1;
    }
    proof {
        assert(data@.take(data@.len() as int) =~= data@);
    }
    (out, signals)
}

/// The little-endian value of a whole byte chunk, unsigned.
pub open spec fn le_chunk_val(s: Seq<u8>) -> int
    decreases s.len(),
{
    if s.len() == 0 {
        0
    } else {
        s[0] + 256 * le_chunk_val(s.drop_first())
    }
}

/// The unsigned chunk value reinterpreted in two's complement at the given
/// width; one-byte elements stay unsigned.
pub open spec fn sign_adjusted(raw: int, width: int) -> int {
    if width == 1 {
        raw
    } else {
        let half = if width == 2 {
            0x8000int
        } else if width == 4 {
            0x80000000int
        } else {
            0x8000000000000000int
        };
        if raw >= half {
            raw - 2 * half
        } else {
            raw
        }
    }
}

/// The typed numeric sequence encoded little-endian in `data` at the given
/// element width; trailing bytes that do not fill a chunk are dropped.
pub open spec fn collected_ints(data: Seq<u8>, width: int) -> Seq<int> {
    Seq::new(
        (data.len() as int / width) as nat,
        |k: int|
            sign_adjusted(le_chunk_val(data.subrange(k * width, k * width + width)), width),
    )
}

proof fn lemma_le_chunk_closed(s: Seq<u8>)
    requires
        s.len() == 1 || s.len() == 2 || s.len() == 4 || s.len() == 8,
    ensures
        s.len() == 1 ==> le_chunk_val(s) == s[0],
        s.len() == 2 ==> le_chunk_val(s) == s[0] + 256 * s[1],
        s.len() == 4 ==> le_chunk_val(s) == s[0] + 256 * s[1] + 0x10000 * s[2] + 0x1000000 * s[3],
        s.len() == 8 ==> le_chunk_val(s) == s[0] + 256 * s[1] + 0x10000 * s[2] + 0x1000000 * s[3]
            + 0x100000000 * s[4] + 0x10000000000 * s[5] + 0x1000000000000 * s[6]
            + 0x100000000000000 * s[7],
{
    let d1 = s.drop_first();
    assert(le_chunk_val(s) == s[0] + 256 * le_chunk_val(d1));
    if s.len() == 1 {
        assert(d1.len() == 0);
        assert(le_chunk_val(d1) == 0);
    } else if s.len() == 2 {
        let d2 = d1.drop_first();
        assert(d2.len() == 0);
        assert(le_chunk_val(d1) == d1[0] + 256 * le_chunk_val(d2));
        assert(d1[0] == s[1]);
    } else if s.len() == 4 {
        let d2 = d1.drop_first();
        let d3 = d2.drop_first();
        let d4 = d3.drop_first();
        assert(d4.len() == 0);
        assert(le_chunk_val(d3) == d3[0] + 256 * le_chunk_val(d4));
        assert(le_chunk_val(d2) == d2[0] + 256 * le_chunk_val(d3));
        assert(le_chunk_val(d1) == d1[0] + 256 * le_chunk_val(d2));
        assert(d1[0] == s[1] && d2[0] == s[2] && d3[0] == s[3]);
    } else {
        let d2 = d1.drop_first();
        let d3 = d2.drop_first();
        let d4 = d3.drop_first();
        let d5 = d4.drop_first();
        let d6 = d5.drop_first();
        let d7 = d6.drop_first();
        let d8 = d7.drop_first();
        assert(d8.len() == 0);
        assert(le_chunk_val(d7) == d7[0] + 256 * le_chunk_val(d8));
        assert(le_chunk_val(d6) == d6[0] + 256 * le_chunk_val(d7));
        assert(le_chunk_val(d5) == d5[0] + 256 * le_chunk_val(d6));
        assert(le_chunk_val(d4) == d4[0] + 256 * le_chunk_val(d5));
        assert(le_chunk_val(d3) == d3[0] + 256 * le_chunk_val(d4));
        assert(le_chunk_val(d2) == d2[0] + 256 * le_chunk_val(d3));
        assert(le_chunk_val(d1) == d1[0] + 256 * le_chunk_val(d2));
        assert(d1[0] == s[1] && d2[0] == s[2] && d3[0] == s[3] && d4[0] == s[4] && d5[0] == s[5]
            && d6[0] == s[6] && d7[0] == s[7]);
    }
}

/// Decodes `data` as a sequence of little-endian integers of the given
/// element width (one byte unsigned, wider ones two's complement), dropping
/// any trailing bytes that do not fill a chunk.
pub fn collect_processed_data_to(data: &Vec<u8>, width: usize) -> (r: Vec<i64>)
    requires
        width == 1 || width == 2 || width == 4 || width == 8,
    ensures
        r@.map_values(|x: i64| x as int) == collected_ints(data@, width as int),
{
    let n = data.len() / width;
    proof {
        vstd::arithmetic::div_mod::lemma_fundamental_div_mod(data@.len() as int, width as int);
        vstd::arithmetic::div_mod::lemma_mod_bound(data@.len() as int, width as int);
    }
    let mut out: Vec<i64> = Vec::new();
    let mut k: usize = 0;
    proof {
        assert(out@.map_values(|x: i64| x as int) =~= collected_ints(data@, width as int).take(0));
    }
    while k < n
        invariant
            k <= n,
            width == 1 || width == 2 || width == 4 || width == 8,
            n == data@.len() as int / width as int,
            n * width <= data@.len(),
            data@.len() <= usize::MAX,
            out@.map_values(|x: i64| x as int) =~= collected_ints(data@, width as int).take(
                k as int,
            ),
        decreases n - k,
    {
        proof {
            assert((k + 1) * width <= n * width) by (nonlinear_arith)
                requires
                    k + 1 <= n,
                    width >= 1,
            ;
            assert(k * width + width == (k + 1) * width) by (nonlinear_arith);
            assert(k * width <= (k + 1) * width) by (nonlinear_arith)
                requires
                    width >= 1,
                    k >= 0,
            ;
            assert(k * width + width <= data@.len());
        }
        let base = k * width;
        let ghost chunk = data@.subrange(base as int, base as int + width as int);
        proof {
            lemma_le_chunk_closed(chunk);
        }
        let value: i64 = if width == 1 {
            data[base] as i64
        } else if width == 2 {
            let v: u64 = data[base] as u64 + 256 * (data[base + 1] as u64);
            proof {
                assert(v as int == le_chunk_val(chunk));
            }
            if v >= 0x8000 {
                (v as i64) - 0x10000
            } else {
                v as i64
            }
        } else if width == 4 {
            let v: u64 = data[base] as u64 + 256 * (data[base + 1] as u64) + 0x10000 * (data[base
                + 2] as u64) + 0x1000000 * (data[base + 3] as u64);
            proof {
                assert(v as int == le_chunk_val(chunk));
            }
            if v >= 0x80000000 {
                (v as i64) - 0x100000000
            } else {
                v as i64
            }
        } else {
            let v: u64 = data[base] as u64 + 256 * (data[base + 1] as u64) + 0x10000 * (data[base
                + 2] as u64) + 0x1000000 * (data[base + 3] as u64) + 0x100000000 * (data[base
                + 4] as u64) + 0x10000000000 * (data[base + 5] as u64) + 0x1000000000000
                * (data[base + 6] as u64) + 0x100000000000000 * (data[base + 7] as u64);
            proof {
                assert(v as int == le_chunk_val(chunk));
            }
            if v >= 0x8000000000000000 {
                -((0xFFFFFFFFFFFFFFFFu64 - v) as i64) - 1
            } else {
                v as i64
            }
        };
        out.push(value);
        proof {
            assert(value as int == sign_adjusted(le_chunk_val(chunk), width as int));
            assert(collected_ints(data@, width as int)[k as int] == sign_adjusted(
                le_chunk_val(chunk),
                width as int,
            ));
            assert(collected_ints(data@, width as int).take(k + 1) =~= collected_ints(
                data@,
                width as int,
            ).take(k as int).push(value as int));
            assert(out@.map_values(|x: i64| x as int) =~= collected_ints(
                data@,
                width as int,
            ).take(k + 1));
        }
        k = k + 1;
    }
    proof {
        assert(collected_ints(data@, width as int).take(n as int) =~= collected_ints(
            data@,
            width as int,
        ));
    }
    out
}

/// Decodes the raw bytes of an output tensor by the output tensor's own
/// element type. Integer types yield the decoded sequence as a JSON number
/// array; the floating types yield `None` (their decoding, normalization
/// and rendering is the caller's floating-point work); any other type is
/// refused.
pub fn decode_output_tensor(output_data: &Vec<u8>, output_data_type: TensorDataType) -> (r: Result<
    Option<Vec<u8>>,
    ZKNeuralError,
>)
    ensures
        output_data_type.int_width_spec() matches Some(w) ==> (r matches Ok(b) && b matches Some(
            j,
        ) && j@ == json_int_array(collected_ints(output_data@, w as int))),
        output_data_type.is_float_spec() ==> r matches Ok(None),
        output_data_type.int_width_spec() is None && !output_data_type.is_float_spec()
            ==> r matches Err(ZKNeuralError::InvalidModelDataType),
{
    match output_data_type.int_width() {
        Some(w) => {
            let ints = collect_processed_data_to(output_data, w);
            let mut encoded: Vec<u8> = Vec::new();
            push_json_int_array(&mut encoded, &ints);
            Ok(Some(encoded))
        },
        None => {
            match output_data_type {
                TensorDataType::Float32 => Ok(None),
                TensorDataType::Float64 => Ok(None),
                _ => Err(ZKNeuralError::InvalidModelDataType),
            }
        },
    }
}

/// Whether `image::load_from_memory` decodes these bytes; a function of
/// the bytes alone.
pub uninterp spec fn image_decodes(bytes: Seq<u8>) -> bool;

/// The pixel bytes of the image decoded from `bytes`, resampled to exactly
/// `width` by `height` with the Catmull-Rom filter and converted to three
/// RGB bytes per pixel, row-major; a function of the arguments alone.
pub uninterp spec fn decoded_rgb_pixels_of(bytes: Seq<u8>, width: u32, height: u32) -> Seq<u8>;

/// As [`decoded_rgb_pixels_of`], but converted to luma; the width of one
/// sample follows the decoded image's own bit depth.
pub uninterp spec fn decoded_gray_pixels_of(bytes: Seq<u8>, width: u32, height: u32) -> Seq<u8>;

/// Relies on `image::load_from_memory`: decoding succeeds exactly when the
/// bytes are a decodable image; the error carries the codec's message.
#[verifier::external_body]
fn image_probe(data: &[u8]) -> (r: Result<(), String>)
    ensures
        r is Ok <==> image_decodes(data@),
{
    image::load_from_memory(data).map(|_| ()).map_err(|e| e.to_string())
}

/// Relies on `image::load_from_memory`, `DynamicImage::resize_exact` with
/// the Catmull-Rom filter, and `DynamicImage::to_rgb8` with `into_raw`:
/// decodes, resamples to exactly the given dimensions, and lays the pixels
/// out three bytes each, row-major — so the buffer holds three bytes per
/// output pixel. Fails exactly when the bytes do not decode; the error
/// carries the codec's message.
#[verifier::external_body]
fn decode_resize_rgb(data: &[u8], width: u32, height: u32) -> (r: Result<Vec<u8>, String>)
    ensures
        r is Ok <==> image_decodes(data@),
        r matches Ok(p) ==> p@ == decoded_rgb_pixels_of(data@, width, height),
        r matches Ok(p) ==> p@.len() == 3 * (width as int) * (height as int),
{
    let img = image::load_from_memory(data).map_err(|e| e.to_string())?;
    let resized = img.resize_exact(width, height, image::imageops::FilterType::CatmullRom);
    Ok(resized.to_rgb8().into_raw())
}

/// Relies on `image::load_from_memory`, `DynamicImage::resize_exact` with
/// the Catmull-Rom filter, and `DynamicImage::grayscale` with `as_bytes`:
/// decodes, resamples, and takes the raw bytes of the luma samples. Fails
/// exactly when the bytes do not decode; the error carries the codec's
/// message.
#[verifier::external_body]
fn decode_resize_gray(data: &[u8], width: u32, height: u32) -> (r: Result<Vec<u8>, String>)
    ensures
        r is Ok <==> image_decodes(data@),
        r matches Ok(p) ==> p@ == decoded_gray_pixels_of(data@, width, height),
{
    let img = image::load_from_memory(data).map_err(|e| e.to_string())?;
    let resized = img.resize_exact(width, height, image::imageops::FilterType::CatmullRom);
    Ok(resized.grayscale().as_bytes().to_vec())
}

/// The byte layout the model expects for the given pixel bytes.
pub open spec fn prepared_bytes_for(dtype: TensorDataType, pix: Seq<u8>) -> Seq<u8> {
    match dtype.int_width_spec() {
        Some(w) => prepared_int_bytes(pix, w as int),
        None => if dtype is Float32 {
            prepared_single_bytes(pix)
        } else if dtype is Float64 {
            prepared_double_bytes(pix)
        } else {
            Seq::empty()
        },
    }
}

/// The signal strings derived from the given pixel bytes.
pub open spec fn signal_strings_for(dtype: TensorDataType, pix: Seq<u8>) -> Seq<Seq<char>> {
    match dtype.int_width_spec() {
        Some(w) => int_signal_strings(pix),
        None => if dtype.is_float_spec() {
            float_signal_strings(pix)
        } else {
            Seq::empty()
        },
    }
}

/// Both pipeline outputs come from one pixel sequence.
pub open spec fn prepared_from(
    dtype: TensorDataType,
    pix: Seq<u8>,
    out_bytes: Seq<u8>,
    out_signals: Seq<Seq<char>>,
) -> bool {
    out_bytes == prepared_bytes_for(dtype, pix) && out_signals == signal_strings_for(dtype, pix)
}

/// A loaded model's description: its raw bytes, the input tensor's shape
/// and element type, and whether floating output is L2-normalized. The
/// embedding application reads the description from the inference engine
/// once and rebuilds the engine from `model_data` on every invocation.
pub struct TensorInvoker {
    pub model_data: Vec<u8>,
    pub input_shape: Vec<usize>,
    pub input_data_type: TensorDataType,
    pub should_process: bool,
}

impl TensorInvoker {
    /// The pixel bytes the pipeline derives from `image_data` under this
    /// model's declared dimensions and channel count.
    pub open spec fn decoded_pixels(&self, image_data: Seq<u8>) -> Seq<u8> {
        let w = self.input_shape@[1] as u32;
        let h = self.input_shape@[2] as u32;
        if self.input_shape@[3] == 1 {
            decoded_gray_pixels_of(image_data, w, h)
        } else {
            decoded_rgb_pixels_of(image_data, w, h)
        }
    }

    /// Whether this model description lets the pipeline prepare an image:
    /// four dimensions, one or three channels, and an element type the
    /// pipeline encodes.
    pub open spec fn accepts_model(&self) -> bool {
        &&& self.input_shape@.len() == 4
        &&& (self.input_shape@[3] == 1 || self.input_shape@[3] == 3)
        &&& (self.input_data_type.int_width_spec() is Some
            || self.input_data_type.is_float_spec())
    }

    /// Decodes `image_data`, resizes it to the model's declared width and
    /// height, converts it to the declared channel count (one for
    /// grayscale, three for RGB), and encodes every pixel byte in the
    /// declared element type, returning the encoded buffer together with
    /// the quantized signal strings of the same pixels. Each error names
    /// its exact cause, in the order the checks run: the shape, then the
    /// image bytes, then the channel count, then the element type.
    pub fn prepare_image(&self, image_data: &[u8]) -> (r: Result<
        (Vec<u8>, Vec<String>),
        ZKNeuralError,
    >)
        ensures
            (r matches Err(ZKNeuralError::ModelNotFourDimensional)) <==> self.input_shape@.len()
                != 4,
            (r matches Err(ZKNeuralError::ImageProcessingError(_))) <==> (self.input_shape@.len()
                == 4 && !image_decodes(image_data@)),
            (r matches Err(ZKNeuralError::InvalidModelChannel)) <==> (self.input_shape@.len() == 4
                && image_decodes(image_data@) && !(self.input_shape@[3] == 1
                || self.input_shape@[3] == 3)),
            (r matches Err(ZKNeuralError::InvalidModelDataType)) <==> (self.input_shape@.len()
                == 4 && image_decodes(image_data@) && (self.input_shape@[3] == 1
                || self.input_shape@[3] == 3) && self.input_data_type.int_width_spec() is None
                && !self.input_data_type.is_float_spec()),
            (r is Ok) <==> (self.accepts_model() && image_decodes(image_data@)),
            r matches Ok(p) ==> prepared_from(
                self.input_data_type,
                self.decoded_pixels(image_data@),
                p.0@,
                p.1.deep_view(),
            ),
            r matches Ok(p) ==> (self.input_shape@[3] == 3 ==> p.1@.len() == 3 * (
            self.input_shape@[1] as u32) * (self.input_shape@[2] as u32)),
    {
        if self.input_shape.len() != 4 {
            return Err(ZKNeuralError::ModelNotFourDimensional);
        }
        let width = self.input_shape[1];
        let height = self.input_shape[2];
        let channels = self.input_shape[3];
        let w = #[verifier::truncate] (width as u32);
        let h = #[verifier::truncate] (height as u32);
        let pix: Vec<u8> = if channels == 1 {
            match decode_resize_gray(image_data, w, h) {
                Err(msg) => {
                    return Err(ZKNeuralError::ImageProcessingError(msg));
                },
                Ok(p) => p,
            }
        } else if channels == 3 {
            match decode_resize_rgb(image_data, w, h) {
                Err(msg) => {
                    return Err(ZKNeuralError::ImageProcessingError(msg));
                },
                Ok(p) => p,
            }
        } else {
            match image_probe(image_data) {
                Err(msg) => {
                    return Err(ZKNeuralError::ImageProcessingError(msg));
                },
                Ok(_) => {
                    return Err(ZKNeuralError::InvalidModelChannel);
                },
            }
        };
        proof {
            assert(pix@ == self.decoded_pixels(image_data@));
        }
        match self.input_data_type.int_width() {
            Some(element_width) => {
                let out = prepare_data_by_type(&pix, element_width);
                proof {
                    assert(prepared_from(self.input_data_type, pix@, out.0@, out.1.deep_view()));
                    lemma_prepared_output_counts(self.input_data_type, pix@);
                }
                Ok(out)
            },
            None => {
                match self.input_data_type {
                    TensorDataType::Float32 => {
                        let out = prepare_data_by_float_type(&pix, false);
                        proof {
                            assert(prepared_from(
                                self.input_data_type,
                                pix@,
                                out.0@,
                                out.1.deep_view(),
                            ));
                            lemma_prepared_output_counts(self.input_data_type, pix@);
                        }
                        Ok(out)
                    },
                    TensorDataType::Float64 => {
                        let out = prepare_data_by_float_type(&pix, true);
                        proof {
                            assert(prepared_from(
                                self.input_data_type,
                                pix@,
                                out.0@,
                                out.1.deep_view(),
                            ));
                            lemma_prepared_output_counts(self.input_data_type, pix@);
                        }
                        Ok(out)
                    },
                    _ => Err(ZKNeuralError::InvalidModelDataType),
                }
            },
        }
    }
}

} // verus!
