//! The column-value binary decoder for SQLite's record format.
//!
//! Each value stored in an SQLite database has one of five storage classes:
//! NULL; INTEGER (signed, big-endian, 1, 2, 3, 4, 6 or 8 bytes); REAL (an
//! 8-byte IEEE 754 value, kept here as its raw bytes); TEXT; BLOB. A column's
//! serial type is a small integer that determines the storage class and the
//! encoded width exactly; the width never depends on the buffer's content.

use vstd::prelude::*;

use crate::error::Error;

verus! {

/// `256^n`, the number of values a big-endian string of `n` bytes can take.
pub open spec fn pow256(n: nat) -> nat
    decreases n,
{
    if n == 0 {
        1
    } else {
        256 * pow256((n - 1) as nat)
    }
}

/// The unsigned value of a big-endian byte string.
pub open spec fn be_uint(s: Seq<u8>) -> nat
    decreases s.len(),
{
    if s.len() == 0 {
        0
    } else {
        be_uint(s.drop_last()) * 256 + s.last() as nat
    }
}

/// The signed (two's-complement) value of a big-endian byte string.
pub open spec fn be_sint(s: Seq<u8>) -> int {
    if s.len() > 0 && s[0] >= 128 {
        be_uint(s) - pow256(s.len())
    } else {
        be_uint(s) as int
    }
}

/// What `String::from_utf8_lossy` decodes a byte string to: UTF-8 decoding
/// where every malformed sequence becomes replacement characters. The result
/// depends on the bytes alone.
pub uninterp spec fn lossy_utf8(bytes: Seq<u8>) -> Seq<char>;

/// The mathematical shape of a decoded column value: each payload is the
/// byte (or character) sequence the variant carries.
#[verifier::ext_equal]
pub enum SpecValue {
    Null,
    Int8(Seq<u8>),
    Int16(Seq<u8>),
    Int24(Seq<u8>),
    Int32(Seq<u8>),
    Int48(Seq<u8>),
    Int64(Seq<u8>),
    Float64(Seq<u8>),
    Zero,
    One,
    Blob(Seq<u8>),
    Text(Seq<char>),
}

/// One decoded column value. Integers keep their big-endian encoded bytes;
/// `Float64` keeps the raw IEEE 754 bytes; `Zero` and `One` are the constants
/// serial types 8 and 9 stand for.
#[derive(Debug, PartialEq, Clone)]
pub enum ColumnValue {
    Null,
    Int8([u8; 1]),
    Int16([u8; 2]),
    Int24([u8; 3]),
    Int32([u8; 4]),
    Int48([u8; 6]),
    Int64([u8; 8]),
    Float64([u8; 8]),
    Zero,
    One,
    Blob(Vec<u8>),
    Text(String),
}

impl View for ColumnValue {
    type V = SpecValue;

    open spec fn view(&self) -> SpecValue {
        match self {
            ColumnValue::Null => SpecValue::Null,
            ColumnValue::Int8(b) => SpecValue::Int8(b@),
            ColumnValue::Int16(b) => SpecValue::Int16(b@),
            ColumnValue::Int24(b) => SpecValue::Int24(b@),
            ColumnValue::Int32(b) => SpecValue::Int32(b@),
            ColumnValue::Int48(b) => SpecValue::Int48(b@),
            ColumnValue::Int64(b) => SpecValue::Int64(b@),
            ColumnValue::Float64(b) => SpecValue::Float64(b@),
            ColumnValue::Zero => SpecValue::Zero,
            ColumnValue::One => SpecValue::One,
            ColumnValue::Blob(b) => SpecValue::Blob(b@),
            ColumnValue::Text(s) => SpecValue::Text(s@),
        }
    }
}

/// Whether the serial type is part of the record format. 10 and 11 are
/// reserved, and nothing below 0 or between 10 and 11 is defined.
pub open spec fn valid_serial_type(t: i64) -> bool {
    (0 <= t && t <= 9) || t >= 12
}

/// The number of buffer bytes a valid serial type consumes.
pub open spec fn serial_width(t: i64) -> nat {
    if t == 0 || t == 8 || t == 9 {
        0
    } else if 1 <= t && t <= 4 {
        t as nat
    } else if t == 5 {
        6
    } else if t == 6 || t == 7 {
        8
    } else if t >= 12 && t % 2 == 0 {
        ((t - 12) / 2) as nat
    } else {
        ((t - 13) / 2) as nat
    }
}

/// The value a valid serial type decodes from a sufficiently long buffer.
pub open spec fn decoded_value(t: i64, s: Seq<u8>) -> SpecValue {
    let w = serial_width(t) as int;
    if t == 0 {
        SpecValue::Null
    } else if t == 1 {
        SpecValue::Int8(s.take(w))
    } else if t == 2 {
        SpecValue::Int16(s.take(w))
    } else if t == 3 {
        SpecValue::Int24(s.take(w))
    } else if t == 4 {
        SpecValue::Int32(s.take(w))
    } else if t == 5 {
        SpecValue::Int48(s.take(w))
    } else if t == 6 {
        SpecValue::Int64(s.take(w))
    } else if t == 7 {
        SpecValue::Float64(s.take(w))
    } else if t == 8 {
        SpecValue::Zero
    } else if t == 9 {
        SpecValue::One
    } else if t % 2 == 0 {
        SpecValue::Blob(s.take(w))
    } else {
        SpecValue::Text(lossy_utf8(s.take(w)))
    }
}

/// What `parse` returns: the exact value and consumed count on success, and
/// the exact error otherwise. Decoding is a function of the serial type and
/// the buffer prefix of the documented width alone.
pub open spec fn spec_parse(t: i64, s: Seq<u8>) -> Result<(SpecValue, nat), Error> {
    if !valid_serial_type(t) {
        Err(Error::InvalidSerialType(t))
    } else if s.len() < serial_width(t) {
        Err(Error::TruncatedRecord)
    } else {
        Ok((decoded_value(t, s), serial_width(t)))
    }
}

/// Whether an executable parse result agrees with the model's.
pub open spec fn parse_obeys(
    r: Result<(ColumnValue, usize), Error>,
    m: Result<(SpecValue, nat), Error>,
) -> bool {
    match r {
        Ok(p) => m == Ok::<(SpecValue, nat), Error>((p.0@, p.1 as nat)),
        Err(e) => m == Err::<(SpecValue, nat), Error>(e),
    }
}

/// Relies on `String::from_utf8_lossy` (followed by `Cow::into_owned`) for
/// UTF-8 decoding with lossy repair; the result is a function of the input
/// bytes alone, named here by `lossy_utf8`.
#[verifier::external_body]
fn utf8_lossy(bytes: &[u8]) -> (r: String)
    ensures
        r@ == lossy_utf8(bytes@),
{
    String::from_utf8_lossy(bytes).into_owned()
}

impl ColumnValue {
    /// Parses one column value from the front of `stream` given its serial
    /// type, per the SQLite record format. Returns the decoded value and how
    /// many bytes of `stream` it consumed; trailing buffer content is ignored
    /// and left untouched. A reserved or undefined serial type is reported as
    /// `InvalidSerialType`, and a buffer shorter than the required width as
    /// `TruncatedRecord`; no input panics.
    pub fn parse(serial_type: i64, stream: &[u8]) -> (r: Result<(ColumnValue, usize), Error>)
        ensures
            parse_obeys(r, spec_parse(serial_type, stream@)),
    {
        let n = stream.len();
        if serial_type == 0 {
            Ok((ColumnValue::Null, 0))
        } else if serial_type == 1 {
            if n < 1 {
                Err(Error::TruncatedRecord)
            } else {
                let b = [stream[0]];
                proof {
                    assert(b@ =~= stream@.take(1));
                }
                Ok((ColumnValue::Int8(b), 1))
            }
        } else if serial_type == 2 {
            if n < 2 {
                Err(Error::TruncatedRecord)
            } else {
                let b = [stream[0], stream[1]];
                proof {
                    assert(b@ =~= stream@.take(2));
                }
                Ok((ColumnValue::Int16(b), 2))
            }
        } else if serial_type == 3 {
            if n < 3 {
                Err(Error::TruncatedRecord)
            } else {
                let b = [stream[0], stream[1], stream[2]];
                proof {
                    assert(b@ =~= stream@.take(3));
                }
                Ok((ColumnValue::Int24(b), 3))
            }
        } else if serial_type == 4 {
            if n < 4 {
                Err(Error::TruncatedRecord)
            } else {
                let b = [stream[0], stream[1], stream[2], stream[3]];
                proof {
                    assert(b@ =~= stream@.take(4));
                }
                Ok((ColumnValue::Int32(b), 4))
            }
        } else if serial_type == 5 {
            if n < 6 {
                Err(Error::TruncatedRecord)
            } else {
                let b = [stream[0], stream[1], stream[2], stream[3], stream[4], stream[5]];
                proof {
                    assert(b@ =~= stream@.take(6));
                }
                Ok((ColumnValue::Int48(b), 6))
            }
        } else if serial_type == 6 || serial_type == 7 {
            if n < 8 {
                Err(Error::TruncatedRecord)
            } else {
                let b = [
                    stream[0],
                    stream[1],
                    stream[2],
                    stream[3],
                    stream[4],
                    stream[5],
                    stream[6],
                    stream[7],
                ];
                proof {
                    assert(b@ =~= stream@.take(8));
                }
                if serial_type == 6 {
                    Ok((ColumnValue::Int64(b), 8))
                } else {
                    Ok((ColumnValue::Float64(b), 8))
                }
            }
        } else if serial_type == 8 {
            Ok((ColumnValue::Zero, 0))
        } else if serial_type == 9 {
            Ok((ColumnValue::One, 0))
        } else if serial_type >= 12 {
            let len64: i64 = if serial_type % 2 == 0 {
                (serial_type - 12) / 2
            } else {
                (serial_type - 13) / 2
            };
            if (len64 as u64) > (n as u64) {
                Err(Error::TruncatedRecord)
            } else {
                let len = len64 as usize;
                let prefix = vstd::slice::slice_subrange(stream, 0, len);
                proof {
                    assert(prefix@ =~= stream@.take(len as int));
                }
                if serial_type % 2 == 0 {
                    let bytes = vstd::slice::slice_to_vec(prefix);
                    Ok((ColumnValue::Blob(bytes), len))
                } else {
                    let text = utf8_lossy(prefix);
                    Ok((ColumnValue::Text(text), len))
                }
            }
        } else {
            Err(Error::InvalidSerialType(serial_type))
        }
    }
}

/// The concrete values of `pow256` up to eight bytes.
pub proof fn lemma_pow256_values()
    ensures
        pow256(0) == 1,
        pow256(1) == 0x100,
        pow256(2) == 0x1_0000,
        pow256(3) == 0x100_0000,
        pow256(4) == 0x1_0000_0000,
        pow256(5) == 0x100_0000_0000,
        pow256(6) == 0x1_0000_0000_0000,
        pow256(7) == 0x100_0000_0000_0000,
        pow256(8) == 0x1_0000_0000_0000_0000,
{
    reveal_with_fuel(pow256, 9);
}

/// A big-endian byte string's unsigned value is bounded by its first byte:
/// it lies in the block of `pow256(len - 1)` values that byte selects.
pub proof fn lemma_be_uint_bounds(s: Seq<u8>)
    requires
        s.len() >= 1,
    ensures
        s[0] as nat * pow256((s.len() - 1) as nat) <= be_uint(s),
        be_uint(s) < (s[0] as nat + 1) * pow256((s.len() - 1) as nat),
    decreases s.len(),
{
    if s.len() == 1 {
        assert(s.drop_last() =~= Seq::<u8>::empty());
        assert(be_uint(s) == be_uint(s.drop_last()) * 256 + s.last() as nat);
        assert(be_uint(s) == s[0] as nat);
        assert(pow256(0) == 1);
        assert(s[0] as nat * pow256(0) == s[0] as nat) by (nonlinear_arith)
            requires
                pow256(0) == 1,
        ;
        assert((s[0] as nat + 1) * pow256(0) == s[0] as nat + 1) by (nonlinear_arith)
            requires
                pow256(0) == 1,
        ;
    } else {
        let d = s.drop_last();
        let n1 = (s.len() - 1) as nat;
        let p = pow256((d.len() - 1) as nat);
        lemma_be_uint_bounds(d);
        assert(d[0] == s[0]);
        assert(pow256(n1) == 256 * p);
        assert(be_uint(s) == be_uint(d) * 256 + s.last() as nat);
        assert(be_uint(d) * 256 >= s[0] as nat * pow256(n1)) by (nonlinear_arith)
            requires
                be_uint(d) >= s[0] as nat * p,
                pow256(n1) == 256 * p,
        ;
        assert(be_uint(d) * 256 + 256 <= (s[0] as nat + 1) * pow256(n1)) by (nonlinear_arith)
            requires
                be_uint(d) + 1 <= (s[0] as nat + 1) * p,
                pow256(n1) == 256 * p,
        ;
    }
}

/// `pow256` grows with its argument.
pub proof fn lemma_pow256_le(a: nat, b: nat)
    requires
        a <= b,
    ensures
        pow256(a) <= pow256(b),
    decreases b,
{
    if a < b {
        lemma_pow256_le(a, (b - 1) as nat);
        assert(pow256(b) == 256 * pow256((b - 1) as nat));
    }
}

/// `pow256(n)` for `1 <= n <= 7` as a machine word.
fn pow256_u64(n: usize) -> (r: u64)
    requires
        1 <= n <= 7,
    ensures
        r as nat == pow256(n as nat),
{
    proof {
        lemma_pow256_values();
    }
    if n == 1 {
        0x100
    } else if n == 2 {
        0x1_0000
    } else if n == 3 {
        0x100_0000
    } else if n == 4 {
        0x1_0000_0000
    } else if n == 5 {
        0x100_0000_0000
    } else if n == 6 {
        0x1_0000_0000_0000
    } else {
        0x100_0000_0000_0000
    }
}

/// Reads a big-endian signed integer of one to eight bytes, exactly as the
/// record format's integer serial types store it.
pub fn decode_be_int(bytes: &[u8]) -> (r: i64)
    requires
        1 <= bytes@.len() <= 8,
    ensures
        r as int == be_sint(bytes@),
{
    let n = bytes.len();
    let mut acc: u64 = 0;
    let mut j: usize = 0;
    proof {
        assert(bytes@.take(0) =~= Seq::<u8>::empty());
        lemma_pow256_values();
    }
    while j < n
        invariant
            1 <= n <= 8,
            n == bytes@.len(),
            j <= n,
            acc as nat == be_uint(bytes@.take(j as int)),
            (acc as nat) < pow256(j as nat),
        decreases n - j,
    {
        proof {
            lemma_pow256_le(j as nat, 7);
            lemma_pow256_values();
            assert(bytes@.take(j + 1).drop_last() =~= bytes@.take(j as int));
            assert(bytes@.take(j + 1).last() == bytes@[j as int]);
            assert(pow256((j + 1) as nat) == 256 * pow256(j as nat));
        }
        acc = acc * 256 + (bytes[j] as u64);
        j = j + 1;
    }
    proof {
        assert(bytes@.take(n as int) =~= bytes@);
        lemma_be_uint_bounds(bytes@);
        lemma_pow256_values();
        lemma_pow256_le((n - 1) as nat, 7);
    }
    let first = bytes[0];
    if first >= 128 {
        if n == 8 {
            proof {
                assert(bytes@[0] as nat * pow256(7) >= 128 * pow256(7));
            }
            ((acc as i128) - 0x1_0000_0000_0000_0000i128) as i64
        } else {
            let sub = pow256_u64(n);
            proof {
                lemma_pow256_le(n as nat, 7);
            }
            (acc as i64) - (sub as i64)
        }
    } else {
        proof {
            assert(be_uint(bytes@) < (bytes@[0] as nat + 1) * pow256((bytes@.len() - 1) as nat));
            assert((bytes@[0] as nat + 1) * pow256((bytes@.len() - 1) as nat) <= 128 * pow256(
                (bytes@.len() - 1) as nat,
            )) by (nonlinear_arith)
                requires
                    bytes@[0] < 128,
            {
            }
        }
        acc as i64
    }
}

/// Splits a 32-bit word into its four big-endian bytes.
fn be_bytes4(u: u32) -> (r: [u8; 4])
    ensures
        be_uint(r@) == u as nat,
        r@[0] as nat == u as nat / 0x100_0000,
{
    let x1 = u / 0x100;
    let x2 = x1 / 0x100;
    let x3 = x2 / 0x100;
    let r = [(x3 % 0x100) as u8, (x2 % 0x100) as u8, (x1 % 0x100) as u8, (u % 0x100) as u8];
    proof {
        let s1 = seq![r@[0]];
        let s2 = seq![r@[0], r@[1]];
        let s3 = seq![r@[0], r@[1], r@[2]];
        assert(x3 < 0x100);
        assert(s1.drop_last() =~= Seq::<u8>::empty());
        assert(be_uint(s1) == be_uint(s1.drop_last()) * 256 + s1.last() as nat);
        assert(be_uint(s1) == x3 as nat);
        vstd::arithmetic::div_mod::lemma_fundamental_div_mod(x2 as int, 256);
        assert(s2.drop_last() =~= s1);
        assert(be_uint(s2) == be_uint(s1) * 256 + s2.last() as nat);
        assert(be_uint(s2) == x2 as nat);
        vstd::arithmetic::div_mod::lemma_fundamental_div_mod(x1 as int, 256);
        assert(s3.drop_last() =~= s2);
        assert(be_uint(s3) == be_uint(s2) * 256 + s3.last() as nat);
        assert(be_uint(s3) == x1 as nat);
        vstd::arithmetic::div_mod::lemma_fundamental_div_mod(u as int, 256);
        assert(r@.drop_last() =~= s3);
        assert(be_uint(r@) == be_uint(s3) * 256 + r@.last() as nat);
        assert(be_uint(r@) == u as nat);
    }
    r
}

/// Splits a 64-bit word into its eight big-endian bytes.
fn be_bytes8(u: u64) -> (r: [u8; 8])
    ensures
        be_uint(r@) == u as nat,
        r@[0] as nat == u as nat / 0x100_0000_0000_0000,
{
    let x1 = u / 0x100;
    let x2 = x1 / 0x100;
    let x3 = x2 / 0x100;
    let x4 = x3 / 0x100;
    let x5 = x4 / 0x100;
    let x6 = x5 / 0x100;
    let x7 = x6 / 0x100;
    let r = [
        (x7 % 0x100) as u8,
        (x6 % 0x100) as u8,
        (x5 % 0x100) as u8,
        (x4 % 0x100) as u8,
        (x3 % 0x100) as u8,
        (x2 % 0x100) as u8,
        (x1 % 0x100) as u8,
        (u % 0x100) as u8,
    ];
    proof {
        let s1 = seq![r@[0]];
        let s2 = seq![r@[0], r@[1]];
        let s3 = seq![r@[0], r@[1], r@[2]];
        let s4 = seq![r@[0], r@[1], r@[2], r@[3]];
        let s5 = seq![r@[0], r@[1], r@[2], r@[3], r@[4]];
        let s6 = seq![r@[0], r@[1], r@[2], r@[3], r@[4], r@[5]];
        let s7 = seq![r@[0], r@[1], r@[2], r@[3], r@[4], r@[5], r@[6]];
        assert(x7 < 0x100);
        assert(s1.drop_last() =~= Seq::<u8>::empty());
        assert(be_uint(s1) == be_uint(s1.drop_last()) * 256 + s1.last() as nat);
        assert(be_uint(s1) == x7 as nat);
        vstd::arithmetic::div_mod::lemma_fundamental_div_mod(x6 as int, 256);
        assert(s2.drop_last() =~= s1);
        assert(be_uint(s2) == be_uint(s1) * 256 + s2.last() as nat);
        assert(be_uint(s2) == x6 as nat);
        vstd::arithmetic::div_mod::lemma_fundamental_div_mod(x5 as int, 256);
        assert(s3.drop_last() =~= s2);
        assert(be_uint(s3) == be_uint(s2) * 256 + s3.last() as nat);
        assert(be_uint(s3) == x5 as nat);
        vstd::arithmetic::div_mod::lemma_fundamental_div_mod(x4 as int, 256);
        assert(s4.drop_last() =~= s3);
        assert(be_uint(s4) == be_uint(s3) * 256 + s4.last() as nat);
        assert(be_uint(s4) == x4 as nat);
        vstd::arithmetic::div_mod::lemma_fundamental_div_mod(x3 as int, 256);
        assert(s5.drop_last() =~= s4);
        assert(be_uint(s5) == be_uint(s4) * 256 + s5.last() as nat);
        assert(be_uint(s5) == x3 as nat);
        vstd::arithmetic::div_mod::lemma_fundamental_div_mod(x2 as int, 256);
        assert(s6.drop_last() =~= s5);
        assert(be_uint(s6) == be_uint(s5) * 256 + s6.last() as nat);
        assert(be_uint(s6) == x2 as nat);
        vstd::arithmetic::div_mod::lemma_fundamental_div_mod(x1 as int, 256);
        assert(s7.drop_last() =~= s6);
        assert(be_uint(s7) == be_uint(s6) * 256 + s7.last() as nat);
        assert(be_uint(s7) == x1 as nat);
        vstd::arithmetic::div_mod::lemma_fundamental_div_mod(u as int, 256);
        assert(r@.drop_last() =~= s7);
        assert(be_uint(r@) == be_uint(s7) * 256 + r@.last() as nat);
        assert(be_uint(r@) == u as nat);
    }
    r
}

impl ColumnValue {
    /// Encodes a 32-bit signed integer as the 4-byte integer variant.
    pub fn int32(value: i32) -> (r: ColumnValue)
        ensures
            r@ matches SpecValue::Int32(b) && b.len() == 4 && be_sint(b) == value as int,
    {
        let u: u32 = if value >= 0 {
            value as u32
        } else {
            ((value as i64) + 0x1_0000_0000i64) as u32
        };
        let b = be_bytes4(u);
        proof {
            lemma_pow256_values();
            if value < 0 {
                assert(u >= 0x8000_0000);
                assert(b@[0] >= 128);
            } else {
                assert(u < 0x8000_0000);
                assert(b@[0] < 128);
            }
        }
        ColumnValue::Int32(b)
    }

    /// Encodes an 8-bit signed integer as the 1-byte integer variant.
    pub fn int8(value: i8) -> (r: ColumnValue)
        ensures
            r@ matches SpecValue::Int8(b) && b.len() == 1 && be_sint(b) == value as int,
    {
        let u: u8 = if value >= 0 {
            value as u8
        } else {
            ((value as i16) + 0x100i16) as u8
        };
        let b = [u];
        proof {
            lemma_pow256_values();
            assert(b@.drop_last() =~= Seq::<u8>::empty());
            assert(be_uint(b@) == be_uint(b@.drop_last()) * 256 + b@.last() as nat);
        }
        ColumnValue::Int8(b)
    }

    /// Encodes a 64-bit signed integer as the 8-byte integer variant.
    pub fn int64(value: i64) -> (r: ColumnValue)
        ensures
            r@ matches SpecValue::Int64(b) && b.len() == 8 && be_sint(b) == value as int,
    {
        let u: u64 = if value >= 0 {
            value as u64
        } else {
            ((value as i128) + 0x1_0000_0000_0000_0000i128) as u64
        };
        let b = be_bytes8(u);
        proof {
            lemma_pow256_values();
            if value < 0 {
                assert(u >= 0x8000_0000_0000_0000);
                assert(b@[0] >= 128);
            } else {
                assert(u < 0x8000_0000_0000_0000);
                assert(b@[0] < 128);
            }
        }
        ColumnValue::Int64(b)
    }
}

/// For every valid serial type the number of consumed bytes equals the
/// documented width, whatever the buffer holds beyond that width; in
/// particular an odd serial type `t >= 13` always consumes `(t - 13) / 2`
/// bytes, whether or not they are valid UTF-8, and never fails on content.
pub proof fn lemma_parse_consumes_width(t: i64, s: Seq<u8>)
    requires
        valid_serial_type(t),
        serial_width(t) <= s.len(),
    ensures
        spec_parse(t, s) matches Ok(p) && p.1 == serial_width(t),
{
}

/// Decoding is a function of the serial type and the buffer prefix of the
/// documented width alone: two buffers that agree on that prefix decode to
/// the same value, whatever their trailing content.
pub proof fn lemma_parse_ignores_trailing(t: i64, s1: Seq<u8>, s2: Seq<u8>)
    requires
        valid_serial_type(t),
        serial_width(t) <= s1.len(),
        serial_width(t) <= s2.len(),
        s1.take(serial_width(t) as int) == s2.take(serial_width(t) as int),
    ensures
        spec_parse(t, s1) == spec_parse(t, s2),
{
}

} // verus!
