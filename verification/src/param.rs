//! Typed, bounded, endianness-aware parameters. A patch may reference a
//! parameter of its entry instead of carrying literal bytes; the
//! parameter's current value is materialized into a byte sequence of its
//! type's width, in its declared endianness, just before writing.
//!
//! Values (and the optional default, minimum and maximum) travel as the
//! same hex textual form the offset fields use, so integer and
//! bit-pattern values round-trip unchanged through the persisted form.

use vstd::prelude::*;
use vstd::string::*;

use crate::serialization::{all_hex_digits, hex_body, hex_val, is_hex_digit};
use crate::PatchError;

verus! {

/// Byte order of a materialized parameter value.
#[derive(Debug, Clone, Copy, PartialEq, Eq, Structural)]
pub enum Endiannness {
    Little,
    Big,
}

/// The runtime type tag of a parameter: one of the primitive numeric
/// kinds a patch byte sequence can stand for. Float kinds carry their
/// value as a bit pattern; no float arithmetic is ever performed on them.
#[derive(Debug, Clone, Copy, PartialEq, Eq, Structural)]
pub enum ParamType {
    F32,
    F64,
    U8,
    I8,
    U16,
    I16,
    U32,
    I32,
}

/// A named, typed, bounded value a patch can reference by index.
#[derive(Debug, Clone, PartialEq)]
pub struct Parameter {
    pub name: String,
    pub param_type: ParamType,
    pub endianness: Endiannness,
    pub default: Option<String>,
    pub min: Option<String>,
    pub max: Option<String>,
    pub value: String,
}

/// Width in bytes of a materialized value of this type.
pub open spec fn param_width(t: ParamType) -> int {
    match t {
        ParamType::U8 | ParamType::I8 => 1,
        ParamType::U16 | ParamType::I16 => 2,
        ParamType::U32 | ParamType::I32 | ParamType::F32 => 4,
        ParamType::F64 => 8,
    }
}

/// One past the largest value that fits in this type's width.
pub open spec fn param_limit(t: ParamType) -> int {
    match t {
        ParamType::U8 | ParamType::I8 => 0x100,
        ParamType::U16 | ParamType::I16 => 0x1_0000,
        ParamType::U32 | ParamType::I32 | ParamType::F32 => 0x1_0000_0000,
        ParamType::F64 => 0x1_0000_0000_0000_0000,
    }
}

pub open spec fn pow256(i: int) -> int
    decreases i,
{
    if i <= 0 {
        1
    } else {
        0x100 * pow256(i - 1)
    }
}

pub proof fn lemma_pow256_pos(i: int)
    ensures
        pow256(i) > 0,
    decreases i,
{
    if i > 0 {
        lemma_pow256_pos(i - 1);
    }
}

/// The little-endian bytes of a value: byte `i` holds bits `8i..8i+8`.
pub open spec fn le_bytes(v: int, w: int) -> Seq<u8> {
    Seq::new(w as nat, |i: int| ((v / pow256(i)) % 0x100) as u8)
}

/// Whether a parameter's value string is a well-formed hex value that
/// fits the width of its declared type.
pub open spec fn param_value_ok(p: Parameter) -> bool {
    let b = hex_body(p.value@);
    b.len() > 0 && all_hex_digits(b) && hex_val(b) < param_limit(p.param_type)
}

/// The byte sequence a parameter materializes to: its value, in its
/// type's width, in its declared byte order.
pub open spec fn param_bytes(p: Parameter) -> Seq<u8> {
    let v = hex_val(hex_body(p.value@));
    let w = param_width(p.param_type);
    match p.endianness {
        Endiannness::Little => le_bytes(v, w),
        Endiannness::Big => le_bytes(v, w).reverse(),
    }
}

/// Whether a string decodes as a hex value that fits in 64 bits.
pub open spec fn hex_u64_ok(s: Seq<char>) -> bool {
    let b = hex_body(s);
    b.len() > 0 && all_hex_digits(b) && hex_val(b) <= u64::MAX
}

/// Decodes a hex string (optional `"0x"` prefix, case-insensitive) into
/// the 64-bit value it writes.
fn parse_hex_value(s: &str) -> (r: Result<u64, PatchError>)
    ensures
        hex_u64_ok(s@) ==> r == Ok::<u64, PatchError>(hex_val(hex_body(s@)) as u64),
        !hex_u64_ok(s@) ==> r == Err::<u64, PatchError>(PatchError::MalformedHex),
{
    let len = s.unicode_len();
    let mut i: usize = 0;
    if len >= 2 && s.get_char(0) == '0' && s.get_char(1) == 'x' {
        i = 2;
    }
    let ghost b = hex_body(s@);
    let ghost start = i as int;
    assert(b =~= s@.skip(start));
    if i == len {
        return Err(PatchError::MalformedHex);
    }
    let mut acc: u64 = 0;
    while i < len
        invariant
            0 <= start <= i as int <= len,
            len == s@.len(),
            b == s@.skip(start),
            b == hex_body(s@),
            all_hex_digits(b.take(i - start)),
            acc == hex_val(b.take(i - start)),
        decreases len - i,
    {
        let c = s.get_char(i);
        assert(c == b[i - start]);
        match crate::serialization::hex_digit_value(c) {
            None => {
                assert(!is_hex_digit(b[i - start]));
                return Err(PatchError::MalformedHex);
            },
            Some(d) => {
                assert(b.take(i - start + 1).drop_last() =~= b.take(i - start));
                assert(b.take(i - start + 1).last() == b[i - start]);
                if acc > 0x0FFF_FFFF_FFFF_FFFF {
                    proof {
                        assert(hex_val(b.take(i - start + 1)) > u64::MAX);
                        assert(all_hex_digits(b.take(i - start + 1))) by {
                            assert(forall|k: int|
                                0 <= k < i - start + 1 ==> #[trigger] b.take(i - start + 1)[k]
                                    == b.take(i - start).push(b[i - start])[k]);
                        }
                        if all_hex_digits(b) {
                            crate::serialization::lemma_hex_val_prefix_le(b, i - start + 1);
                        }
                    }
                    return Err(PatchError::MalformedHex);
                }
                acc = acc * 16 + (d as u64);
            },
        }
        i = i + 1;
    }
    assert(b.take(i - start) =~= b);
    Ok(acc)
}

impl Parameter {
    /// Width in bytes of this parameter's materialized value.
    pub fn width(&self) -> (r: usize)
        ensures
            r == param_width(self.param_type),
    {
        match self.param_type {
            ParamType::U8 | ParamType::I8 => 1,
            ParamType::U16 | ParamType::I16 => 2,
            ParamType::U32 | ParamType::I32 | ParamType::F32 => 4,
            ParamType::F64 => 8,
        }
    }

    /// Serializes the parameter's current value into the byte sequence a
    /// patch writes: exactly `width` bytes of its hex value, in the
    /// declared endianness. A value string that is not well-formed hex,
    /// or that does not fit the width, is `MalformedHex`.
    pub fn materialize(&self) -> (r: Result<Vec<u8>, PatchError>)
        ensures
            param_value_ok(*self) ==> (r matches Ok(v) && v@ == param_bytes(*self)),
            !param_value_ok(*self) ==> r == Err::<Vec<u8>, PatchError>(PatchError::MalformedHex),
    {
        proof {
            if all_hex_digits(hex_body(self.value@)) {
                crate::serialization::lemma_hex_val_nonneg(hex_body(self.value@));
            }
        }
        let v: u64 = match parse_hex_value(self.value.as_str()) {
            Ok(v) => v,
            Err(_) => {
                return Err(PatchError::MalformedHex);
            },
        };
        let in_limit = match self.param_type {
            ParamType::U8 | ParamType::I8 => v < 0x100,
            ParamType::U16 | ParamType::I16 => v < 0x1_0000,
            ParamType::U32 | ParamType::I32 | ParamType::F32 => v < 0x1_0000_0000,
            ParamType::F64 => true,
        };
        if !in_limit {
            return Err(PatchError::MalformedHex);
        }
        let w = self.width();
        let mut le: Vec<u8> = Vec::new();
        let mut cur: u64 = v;
        let mut i: usize = 0;
        while i < w
            invariant
                i as int <= w,
                w == param_width(self.param_type),
                cur == v as int / pow256(i as int),
                le@.len() == i as int,
                forall|k: int|
                    0 <= k < i as int ==> #[trigger] le@[k] == ((v as int / pow256(k))
                        % 0x100) as u8,
            decreases w - i,
        {
            le.push((cur % 0x100) as u8);
            proof {
                lemma_pow256_pos(i as int);
                vstd::arithmetic::div_mod::lemma_div_denominator(v as int, pow256(i as int), 0x100);
                assert(pow256(i as int) * 0x100 == 0x100 * pow256(i as int)) by (nonlinear_arith);
                assert(pow256(i as int + 1) == 0x100 * pow256(i as int));
            }
            cur = cur / 0x100;
            i = i + 1;
        }
        assert(le@ =~= le_bytes(v as int, w as int));
        match self.endianness {
            Endiannness::Little => Ok(le),
            Endiannness::Big => {
                let mut be: Vec<u8> = Vec::new();
                let mut k: usize = w;
                while k > 0
                    invariant
                        k as int <= w,
                        w == le@.len(),
                        be@.len() == w - k,
                        forall|j: int|
                            0 <= j < be@.len() ==> #[trigger] be@[j] == le@[w - 1 - j],
                    decreases k,
                {
                    k = k - 1;
                    be.push(le[k]);
                }
                assert(be@ =~= le@.reverse());
                Ok(be)
            },
        }
    }
}

} // verus!
