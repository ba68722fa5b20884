//! The service's tagged cell values, the declared type tags of bind values,
//! and the two-way mapping between them and native scalars.

use byteorder::ByteOrder;
use vstd::prelude::*;
use vstd::utf8::*;

use crate::error::{DecodeError, RdsError};

verus! {

/// The type tag that goes with each bind value.
#[derive(Debug, Clone, Copy, PartialEq, Eq, Structural)]
pub enum RdsTypes {
    Blob,
    Boolean,
    Date,
    Time,
    TimeStamp,
    Double,
    Null,
    Long,
    String,
}

/// One cell as the service sends and takes it. A double travels as the bits
/// of its IEEE-754 binary64 form.
#[derive(Debug, Clone)]
pub enum Field {
    Null,
    Boolean(bool),
    Long(i64),
    Double(u64),
    Text(String),
    Blob(Vec<u8>),
}

/// What a cell holds, with text and bytes as sequences.
pub enum FieldView {
    Null,
    Boolean(bool),
    Long(i64),
    Double(u64),
    Text(Seq<char>),
    Blob(Seq<u8>),
}

impl View for Field {
    type V = FieldView;

    open spec fn view(&self) -> FieldView {
        match self {
            Field::Null => FieldView::Null,
            Field::Boolean(b) => FieldView::Boolean(*b),
            Field::Long(x) => FieldView::Long(*x),
            Field::Double(bits) => FieldView::Double(*bits),
            Field::Text(s) => FieldView::Text(s@),
            Field::Blob(b) => FieldView::Blob(b@),
        }
    }
}

/// The unsigned number that bytes spell, most significant byte first.
pub open spec fn be_uint(b: Seq<u8>) -> nat
    decreases b.len(),
{
    if b.len() == 0 {
        0
    } else {
        be_uint(b.drop_last()) * 256 + b.last() as nat
    }
}

/// 256 to the power `n`.
pub open spec fn byte_radix(n: nat) -> nat
    decreases n,
{
    if n == 0 {
        1
    } else {
        256 * byte_radix((n - 1) as nat)
    }
}

/// The two's-complement number that bytes spell, most significant byte first.
pub open spec fn be_int(b: Seq<u8>) -> int {
    if b.len() > 0 && b[0] >= 128 {
        be_uint(b) - byte_radix(b.len())
    } else {
        be_uint(b) as int
    }
}

/// Relies on byteorder's `NetworkEndian::read_i16`: two bytes, big-endian,
/// two's complement.
#[verifier::external_body]
fn read_be_i16(b: &[u8]) -> (r: i16)
    requires
        b@.len() == 2,
    ensures
        r as int == be_int(b@),
{
    byteorder::NetworkEndian::read_i16(b)
}

/// Relies on byteorder's `NetworkEndian::read_i32`: four bytes, big-endian,
/// two's complement.
#[verifier::external_body]
fn read_be_i32(b: &[u8]) -> (r: i32)
    requires
        b@.len() == 4,
    ensures
        r as int == be_int(b@),
{
    byteorder::NetworkEndian::read_i32(b)
}

/// Relies on byteorder's `NetworkEndian::read_i64`: eight bytes, big-endian,
/// two's complement.
#[verifier::external_body]
fn read_be_i64(b: &[u8]) -> (r: i64)
    requires
        b@.len() == 8,
    ensures
        r as int == be_int(b@),
{
    byteorder::NetworkEndian::read_i64(b)
}

/// Relies on byteorder's `NetworkEndian::read_u32`: four bytes, big-endian.
#[verifier::external_body]
fn read_be_u32(b: &[u8]) -> (r: u32)
    requires
        b@.len() == 4,
    ensures
        r as int == be_uint(b@),
{
    byteorder::NetworkEndian::read_u32(b)
}

/// Relies on byteorder's `NetworkEndian::read_u64`: eight bytes, big-endian.
#[verifier::external_body]
fn read_be_u64(b: &[u8]) -> (r: u64)
    requires
        b@.len() == 8,
    ensures
        r as int == be_uint(b@),
{
    byteorder::NetworkEndian::read_u64(b)
}

/// Relies on `String::from_utf8`: it succeeds exactly on valid UTF-8, and the
/// string it gives keeps the bytes.
#[verifier::external_body]
fn utf8_string(b: Vec<u8>) -> (r: Option<String>)
    ensures
        r is Some <==> valid_utf8(b@),
        r matches Some(s) ==> encode_utf8(s@) == b@,
{
    String::from_utf8(b).ok()
}

/// A subnormal mantissa doubled until its leading bit stands at position 23,
/// with the number of doublings; at most 24 of them are taken.
pub open spec fn normalize_mantissa(m: nat, k: nat) -> (nat, nat)
    decreases 24 - k,
{
    if m == 0 || m >= 0x800000 || k >= 24 {
        (m, k)
    } else {
        normalize_mantissa(2 * m, k + 1)
    }
}

/// The IEEE-754 binary64 bits of the value whose binary32 bits are `b`: the
/// sign kept, the exponent rebiased by 896, the mantissa moved up by 29 bits,
/// subnormals normalised, zeros, infinities and NaNs kept as such.
pub open spec fn widen_float_bits_spec(b: nat) -> nat {
    let sign = b / 0x80000000;
    let e = (b / 0x800000) % 256;
    let m = b % 0x800000;
    let e64: nat = if e == 255 {
        2047
    } else if e != 0 {
        e + 896
    } else if m == 0 {
        0
    } else {
        (897 - normalize_mantissa(m, 0).1) as nat
    };
    let m64: nat = if e == 0 && m != 0 {
        (normalize_mantissa(m, 0).0 % 0x800000) * 0x20000000
    } else {
        m * 0x20000000
    };
    sign * 0x8000000000000000 + e64 * 0x10000000000000 + m64
}

/// The binary64 bits of the value whose binary32 bits are `b`.
pub fn widen_float_bits(b: u32) -> (r: u64)
    ensures
        r as nat == widen_float_bits_spec(b as nat),
{
    let b64 = b as u64;
    let sign: u64 = b64 / 0x80000000;
    let e: u64 = (b64 / 0x800000) % 256;
    let m: u64 = b64 % 0x800000;
    let mut e64: u64 = 0;
    let mut m64: u64 = m * 0x20000000;
    if e == 255 {
        e64 = 2047;
    } else if e != 0 {
        e64 = e + 896;
    } else if m != 0 {
        let mut mm: u64 = m;
        let mut k: u64 = 0;
        while mm < 0x800000 && k < 24
            invariant
                0 < mm,
                k <= 24,
                mm < 0x1000000,
                normalize_mantissa(mm as nat, k as nat) == normalize_mantissa(m as nat, 0),
            decreases 24 - k,
        {
            mm = mm * 2;
            k = k + 1;
        }
        e64 = 897 - k;
        m64 = (mm % 0x800000) * 0x20000000;
    }
    sign * 0x8000000000000000 + e64 * 0x10000000000000 + m64
}

/// The cell that a bind value of declared type `t`, encoded as the bytes `b`,
/// is sent as; `None` where the bytes cannot encode a value of that type.
/// Integers of every width travel as a long, a single-precision float as the
/// double of the same value, and an empty encoding stands for
/// the type's default value. Dates, times and timestamps are bound as their
/// text (`YYYY-MM-DD`, `HH:MM:SS[.ffffff]`, `YYYY-MM-DD HH:MM:SS[.ffffff]`).
pub open spec fn bytes_to_field(t: RdsTypes, b: Seq<u8>) -> Option<FieldView> {
    match t {
        RdsTypes::Null => Some(FieldView::Null),
        RdsTypes::Boolean => if b.len() == 0 {
            Some(FieldView::Boolean(false))
        } else if b.len() == 1 {
            Some(FieldView::Boolean(b[0] != 0))
        } else {
            None
        },
        RdsTypes::Long => if b.len() == 0 || b.len() == 2 || b.len() == 4 || b.len() == 8 {
            Some(FieldView::Long(be_int(b) as i64))
        } else {
            None
        },
        RdsTypes::Double => if b.len() == 0 || b.len() == 8 {
            Some(FieldView::Double(be_uint(b) as u64))
        } else if b.len() == 4 {
            Some(FieldView::Double(widen_float_bits_spec(be_uint(b)) as u64))
        } else {
            None
        },
        RdsTypes::Blob => Some(FieldView::Blob(b)),
        _ => if valid_utf8(b) {
            Some(FieldView::Text(decode_utf8(b)))
        } else {
            None
        },
    }
}

impl RdsTypes {
    /// Turns the encoded bytes of a bind value of this type into the cell
    /// sent to the service.
    pub fn read_bytes(&self, bytes: Vec<u8>) -> (r: Result<Field, RdsError>)
        ensures
            match bytes_to_field(*self, bytes@) {
                Some(v) => r matches Ok(f) && f@ == v,
                None => r == Err::<Field, RdsError>(RdsError::MalformedBind),
            },
    {
        let n = bytes.len();
        match self {
            RdsTypes::Null => Ok(Field::Null),
            RdsTypes::Boolean => {
                if n == 0 {
                    Ok(Field::Boolean(false))
                } else if n == 1 {
                    Ok(Field::Boolean(bytes[0] != 0))
                } else {
                    Err(RdsError::MalformedBind)
                }
            },
            RdsTypes::Long => {
                if n == 0 {
                    proof {
                        assert(be_uint(bytes@) == 0);
                    }
                    Ok(Field::Long(0))
                } else if n == 2 {
                    Ok(Field::Long(read_be_i16(bytes.as_slice()) as i64))
                } else if n == 4 {
                    Ok(Field::Long(read_be_i32(bytes.as_slice()) as i64))
                } else if n == 8 {
                    Ok(Field::Long(read_be_i64(bytes.as_slice())))
                } else {
                    Err(RdsError::MalformedBind)
                }
            },
            RdsTypes::Double => {
                if n == 0 {
                    proof {
                        assert(be_uint(bytes@) == 0);
                    }
                    Ok(Field::Double(0))
                } else if n == 8 {
                    Ok(Field::Double(read_be_u64(bytes.as_slice())))
                } else if n == 4 {
                    Ok(Field::Double(widen_float_bits(read_be_u32(bytes.as_slice()))))
                } else {
                    Err(RdsError::MalformedBind)
                }
            },
            RdsTypes::Blob => Ok(Field::Blob(bytes)),
            _ => {
                match utf8_string(bytes) {
                    Some(s) => {
                        proof {
                            decode_utf8_encode_utf8(bytes@);
                            encode_utf8_decode_utf8(s@);
                        }
                        Ok(Field::Text(s))
                    },
                    None => Err(RdsError::MalformedBind),
                }
            },
        }
    }
}

/// The boolean that a cell reads as: `false` unless it holds a boolean.
pub open spec fn bool_of(v: FieldView) -> bool {
    match v {
        FieldView::Boolean(b) => b,
        _ => false,
    }
}

/// The integer that a cell reads as: `0` unless it holds a long.
pub open spec fn long_of(v: FieldView) -> i64 {
    match v {
        FieldView::Long(x) => x,
        _ => 0,
    }
}

/// The double bits that a cell reads as: those of `0.0` unless it holds a double.
pub open spec fn double_bits_of(v: FieldView) -> u64 {
    match v {
        FieldView::Double(bits) => bits,
        _ => 0,
    }
}

/// The text that a cell reads as: only a text cell holds any.
pub open spec fn text_of(v: FieldView) -> Result<Seq<char>, DecodeError> {
    match v {
        FieldView::Text(s) => Ok(s),
        _ => Err(DecodeError::UnexpectedVariant),
    }
}

/// The bytes that a cell reads as: only a blob cell holds any.
pub open spec fn blob_of(v: FieldView) -> Result<Seq<u8>, DecodeError> {
    match v {
        FieldView::Blob(b) => Ok(b),
        _ => Err(DecodeError::UnexpectedVariant),
    }
}

/// Reads a cell as a boolean.
pub fn bool_from_sql(val: Option<&Field>) -> (r: Result<bool, DecodeError>)
    ensures
        match val {
            Some(f) => r == Ok::<bool, DecodeError>(bool_of(f@)),
            None => r == Err::<bool, DecodeError>(DecodeError::NoValue),
        },
{
    match val {
        Some(Field::Boolean(b)) => Ok(*b),
        Some(_) => Ok(false),
        None => Err(DecodeError::NoValue),
    }
}

/// Reads a cell as a 64-bit integer.
pub fn i64_from_sql(val: Option<&Field>) -> (r: Result<i64, DecodeError>)
    ensures
        match val {
            Some(f) => r == Ok::<i64, DecodeError>(long_of(f@)),
            None => r == Err::<i64, DecodeError>(DecodeError::NoValue),
        },
{
    match val {
        Some(Field::Long(x)) => Ok(*x),
        Some(_) => Ok(0),
        None => Err(DecodeError::NoValue),
    }
}

/// Reads a cell as a 32-bit integer, keeping the low 32 bits of the long.
pub fn i32_from_sql(val: Option<&Field>) -> (r: Result<i32, DecodeError>)
    ensures
        match val {
            Some(f) => r == Ok::<i32, DecodeError>(long_of(f@) as i32),
            None => r == Err::<i32, DecodeError>(DecodeError::NoValue),
        },
{
    match i64_from_sql(val) {
        Ok(x) => Ok(#[verifier::truncate] (x as i32)),
        Err(e) => Err(e),
    }
}

/// Reads a cell as a 16-bit integer, keeping the low 16 bits of the long.
pub fn i16_from_sql(val: Option<&Field>) -> (r: Result<i16, DecodeError>)
    ensures
        match val {
            Some(f) => r == Ok::<i16, DecodeError>(long_of(f@) as i16),
            None => r == Err::<i16, DecodeError>(DecodeError::NoValue),
        },
{
    match i64_from_sql(val) {
        Ok(x) => Ok(#[verifier::truncate] (x as i16)),
        Err(e) => Err(e),
    }
}

/// Reads a cell as the IEEE-754 binary64 bits of a double.
pub fn f64_bits_from_sql(val: Option<&Field>) -> (r: Result<u64, DecodeError>)
    ensures
        match val {
            Some(f) => r == Ok::<u64, DecodeError>(double_bits_of(f@)),
            None => r == Err::<u64, DecodeError>(DecodeError::NoValue),
        },
{
    match val {
        Some(Field::Double(bits)) => Ok(*bits),
        Some(_) => Ok(0),
        None => Err(DecodeError::NoValue),
    }
}

/// Reads a cell as text: only a text cell can be read so.
pub fn string_from_sql(val: Option<&Field>) -> (r: Result<String, DecodeError>)
    ensures
        match val {
            Some(f) => match text_of(f@) {
                Ok(s) => r matches Ok(t) && t@ == s,
                Err(e) => r == Err::<String, DecodeError>(e),
            },
            None => r == Err::<String, DecodeError>(DecodeError::NoValue),
        },
{
    match val {
        Some(Field::Text(s)) => Ok(s.clone()),
        Some(_) => Err(DecodeError::UnexpectedVariant),
        None => Err(DecodeError::NoValue),
    }
}

/// Reads a cell as bytes: only a blob cell can be read so.
pub fn bytes_from_sql(val: Option<&Field>) -> (r: Result<Vec<u8>, DecodeError>)
    ensures
        match val {
            Some(f) => match blob_of(f@) {
                Ok(b) => r matches Ok(v) && v@ == b,
                Err(e) => r == Err::<Vec<u8>, DecodeError>(e),
            },
            None => r == Err::<Vec<u8>, DecodeError>(DecodeError::NoValue),
        },
{
    match val {
        Some(Field::Blob(b)) => Ok(b.clone()),
        Some(_) => Err(DecodeError::UnexpectedVariant),
        None => Err(DecodeError::NoValue),
    }
}

/// The cell that a boolean is sent as.
pub fn bool_to_field(v: bool) -> (r: Field)
    ensures
        r@ == FieldView::Boolean(v),
{
    Field::Boolean(v)
}

/// The cell that an integer of any width is sent as.
pub fn i64_to_field(v: i64) -> (r: Field)
    ensures
        r@ == FieldView::Long(v),
{
    Field::Long(v)
}

/// The cell that a double, given by its IEEE-754 binary64 bits, is sent as.
pub fn f64_bits_to_field(bits: u64) -> (r: Field)
    ensures
        r@ == FieldView::Double(bits),
{
    Field::Double(bits)
}

/// The cell that text is sent as.
pub fn string_to_field(s: String) -> (r: Field)
    ensures
        r@ == FieldView::Text(s@),
{
    Field::Text(s)
}

/// The cell that bytes are sent as.
pub fn bytes_to_blob_field(b: Vec<u8>) -> (r: Field)
    ensures
        r@ == FieldView::Blob(b@),
{
    Field::Blob(b)
}

/// Every scalar read back from the cell it is sent as is the scalar itself:
/// booleans, integers of each width, double bits, text and bytes.
pub proof fn lemma_scalar_round_trip(b: bool, x16: i16, x32: i32, x64: i64, bits: u64, s: Seq<char>, bytes: Seq<u8>)
    ensures
        bool_of(FieldView::Boolean(b)) == b,
        long_of(FieldView::Long(x16 as i64)) as i16 == x16,
        long_of(FieldView::Long(x32 as i64)) as i32 == x32,
        long_of(FieldView::Long(x64)) == x64,
        double_bits_of(FieldView::Double(bits)) == bits,
        text_of(FieldView::Text(s)) == Ok::<Seq<char>, DecodeError>(s),
        blob_of(FieldView::Blob(bytes)) == Ok::<Seq<u8>, DecodeError>(bytes),
{
}

/// Text is sent as its UTF-8 bytes and comes back as the same text.
pub proof fn lemma_text_bytes_round_trip(s: Seq<char>)
    ensures
        bytes_to_field(RdsTypes::String, encode_utf8(s)) == Some(FieldView::Text(s)),
{
    encode_utf8_valid_utf8(s);
    encode_utf8_decode_utf8(s);
}

/// Bytes bound as a blob are sent unchanged.
pub proof fn lemma_blob_bytes_round_trip(b: Seq<u8>)
    ensures
        bytes_to_field(RdsTypes::Blob, b) == Some(FieldView::Blob(b)),
{
}

} // verus!
