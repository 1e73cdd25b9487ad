//! Hex-string wire encoding used by the persisted patch-set documents.
//!
//! Numeric offsets and byte sequences are persisted as `"0x"`-prefixed hex
//! strings (uppercase for the 8-digit offset field, lowercase for byte
//! sequences). Decoding tolerates a missing prefix, is case-insensitive on
//! the digits, rejects odd-length byte bodies and non-hex characters.

use vstd::prelude::*;
use vstd::string::*;

use crate::PatchError;

verus! {

/// Value of a hex digit character, or -1 for a character that is no hex digit.
pub open spec fn hex_digit_val(c: char) -> int {
    if c == '0' {
        0
    } else if c == '1' {
        1
    } else if c == '2' {
        2
    } else if c == '3' {
        3
    } else if c == '4' {
        4
    } else if c == '5' {
        5
    } else if c == '6' {
        6
    } else if c == '7' {
        7
    } else if c == '8' {
        8
    } else if c == '9' {
        9
    } else if c == 'a' || c == 'A' {
        10
    } else if c == 'b' || c == 'B' {
        11
    } else if c == 'c' || c == 'C' {
        12
    } else if c == 'd' || c == 'D' {
        13
    } else if c == 'e' || c == 'E' {
        14
    } else if c == 'f' || c == 'F' {
        15
    } else {
        -1
    }
}

pub open spec fn is_hex_digit(c: char) -> bool {
    hex_digit_val(c) >= 0
}

pub open spec fn all_hex_digits(s: Seq<char>) -> bool {
    forall|i: int| 0 <= i < s.len() ==> is_hex_digit(#[trigger] s[i])
}

/// The digits of a hex string: the characters after an optional `"0x"` prefix.
pub open spec fn hex_body(s: Seq<char>) -> Seq<char> {
    if s.len() >= 2 && s[0] == '0' && s[1] == 'x' {
        s.skip(2)
    } else {
        s
    }
}

/// The number written by a sequence of hex digits, most significant first.
pub open spec fn hex_val(s: Seq<char>) -> int
    decreases s.len(),
{
    if s.len() == 0 {
        0
    } else {
        hex_val(s.drop_last()) * 16 + hex_digit_val(s.last())
    }
}

/// Whether a string decodes to a `u32`: non-empty all-hex body whose value fits.
pub open spec fn hex_u32_ok(s: Seq<char>) -> bool {
    let b = hex_body(s);
    b.len() > 0 && all_hex_digits(b) && hex_val(b) <= u32::MAX
}

pub proof fn lemma_hex_val_nonneg(s: Seq<char>)
    requires
        all_hex_digits(s),
    ensures
        hex_val(s) >= 0,
    decreases s.len(),
{
    if s.len() > 0 {
        assert(all_hex_digits(s.drop_last())) by {
            assert(forall|i: int|
                0 <= i < s.drop_last().len() ==> #[trigger] s.drop_last()[i] == s[i]);
        }
        lemma_hex_val_nonneg(s.drop_last());
    }
}

/// The value of a proper prefix never exceeds the value of the whole string.
pub proof fn lemma_hex_val_prefix_le(s: Seq<char>, j: int)
    requires
        all_hex_digits(s),
        0 <= j <= s.len(),
    ensures
        hex_val(s.take(j)) <= hex_val(s),
    decreases s.len() - j,
{
    if j < s.len() {
        lemma_hex_val_prefix_le(s, j + 1);
        assert(s.take(j + 1).drop_last() =~= s.take(j));
        assert(s.take(j + 1).last() == s[j]);
        assert(all_hex_digits(s.take(j))) by {
            assert(forall|i: int| 0 <= i < j ==> #[trigger] s.take(j)[i] == s[i]);
        }
        lemma_hex_val_nonneg(s.take(j));
        assert(hex_val(s.take(j + 1)) == hex_val(s.take(j)) * 16 + hex_digit_val(s[j]));
        assert(hex_val(s.take(j)) <= hex_val(s.take(j)) * 16 + hex_digit_val(s[j]));
    } else {
        assert(s.take(j) =~= s);
    }
}

/// Maps a hex digit character to its value; `None` for any other character.
pub(crate) fn hex_digit_value(c: char) -> (r: Option<u8>)
    ensures
        is_hex_digit(c) ==> r == Some((hex_digit_val(c)) as u8),
        !is_hex_digit(c) ==> r is None,
{
    match c {
        '0' => Some(0),
        '1' => Some(1),
        '2' => Some(2),
        '3' => Some(3),
        '4' => Some(4),
        '5' => Some(5),
        '6' => Some(6),
        '7' => Some(7),
        '8' => Some(8),
        '9' => Some(9),
        'a' | 'A' => Some(10),
        'b' | 'B' => Some(11),
        'c' | 'C' => Some(12),
        'd' | 'D' => Some(13),
        'e' | 'E' => Some(14),
        'f' | 'F' => Some(15),
        _ => None,
    }
}

/// Decodes a hex string (optional `"0x"` prefix, case-insensitive digits)
/// into a `u32`, exactly when the body is non-empty, all hex, and fits.
pub fn de_hex_to_u32(s: &str) -> (r: Result<u32, PatchError>)
    ensures
        hex_u32_ok(s@) ==> r == Ok::<u32, PatchError>(hex_val(hex_body(s@)) as u32),
        !hex_u32_ok(s@) ==> r == Err::<u32, PatchError>(PatchError::MalformedHex),
{
    let len = s.unicode_len();
    let mut i: usize = 0;
    if len >= 2 && s.get_char(0) == '0' && s.get_char(1) == 'x' {
        i = 2;
    }
    let ghost b = hex_body(s@);
    let ghost start = i as int;
    assert(b =~= s@.skip(start));
    if i == len {
        // Empty body: nothing to decode.
        return Err(PatchError::MalformedHex);
    }
    let mut acc: u32 = 0;
    while i < len
        invariant
            start <= i as int <= len,
            len == s@.len(),
            start == 0 || start == 2,
            b == s@.skip(start),
            b == hex_body(s@),
            all_hex_digits(b.take(i - start)),
            acc == hex_val(b.take(i - start)),
        decreases len - i,
    {
        let c = s.get_char(i);
        assert(c == b[i - start]);
        match hex_digit_value(c) {
            None => {
                assert(!is_hex_digit(b[i - start]));
                return Err(PatchError::MalformedHex);
            },
            Some(d) => {
                assert(b.take(i - start + 1).drop_last() =~= b.take(i - start));
                assert(b.take(i - start + 1).last() == b[i - start]);
                if acc > 0x0FFF_FFFF {
                    // Any further digit pushes the value past u32::MAX.
                    proof {
                        assert(hex_val(b.take(i - start + 1)) > u32::MAX);
                        assert(all_hex_digits(b.take(i - start + 1))) by {
                            assert(forall|k: int|
                                0 <= k < i - start + 1 ==> #[trigger] b.take(i - start + 1)[k]
                                    == b.take(i - start).push(b[i - start])[k]);
                        }
                        if all_hex_digits(b) {
                            lemma_hex_val_prefix_le(b, i - start + 1);
                        }
                    }
                    return Err(PatchError::MalformedHex);
                }
                acc = acc * 16 + (d as u32);
            },
        }
        i = i + 1;
    }
    assert(b.take(i - start) =~= b);
    Ok(acc)
}

/// Whether a string decodes to a byte sequence: even-length all-hex body.
pub open spec fn hex_bytes_ok(s: Seq<char>) -> bool {
    let b = hex_body(s);
    b.len() % 2 == 0 && all_hex_digits(b)
}

/// The bytes written by a sequence of hex digit pairs.
pub open spec fn hex_pairs(b: Seq<char>) -> Seq<u8> {
    Seq::new(b.len() / 2, |i: int| (hex_digit_val(b[2 * i]) * 16 + hex_digit_val(b[2 * i + 1])) as u8)
}

/// Decodes a hex string (optional `"0x"` prefix, case-insensitive digits)
/// into bytes, two digits per byte; an odd-length body or a non-hex
/// character is malformed.
pub fn de_hex_to_vu8(s: &str) -> (r: Result<Vec<u8>, PatchError>)
    ensures
        hex_bytes_ok(s@) ==> (r matches Ok(v) && v@ == hex_pairs(hex_body(s@))),
        !hex_bytes_ok(s@) ==> r == Err::<Vec<u8>, PatchError>(PatchError::MalformedHex),
{
    let len = s.unicode_len();
    let mut i: usize = 0;
    if len >= 2 && s.get_char(0) == '0' && s.get_char(1) == 'x' {
        i = 2;
    }
    let ghost b = hex_body(s@);
    let ghost start = i as int;
    assert(b =~= s@.skip(start));
    if (len - i) % 2 != 0 {
        return Err(PatchError::MalformedHex);
    }
    let mut out: Vec<u8> = Vec::new();
    while i < len
        invariant
            0 <= start <= i as int <= len,
            len == s@.len(),
            b == s@.skip(start),
            b == hex_body(s@),
            b.len() % 2 == 0,
            (i - start) % 2 == 0,
            out@.len() == (i - start) / 2,
            forall|k: int| 0 <= k < i - start ==> is_hex_digit(#[trigger] b[k]),
            forall|k: int|
                0 <= k < out@.len() ==> #[trigger] out@[k] == (hex_digit_val(b[2 * k]) * 16
                    + hex_digit_val(b[2 * k + 1])) as u8,
        decreases len - i,
    {
        proof {
            assert(b.len() == len - start);
            assert((len - start) % 2 == 0);
            assert(i + 1 < len);
        }
        let c_hi = s.get_char(i);
        let c_lo = s.get_char(i + 1);
        assert(c_hi == b[i - start] && c_lo == b[i - start + 1]);
        let hi = match hex_digit_value(c_hi) {
            Some(d) => d,
            None => {
                assert(!is_hex_digit(b[i - start]));
                return Err(PatchError::MalformedHex);
            },
        };
        let lo = match hex_digit_value(c_lo) {
            Some(d) => d,
            None => {
                assert(!is_hex_digit(b[i - start + 1]));
                return Err(PatchError::MalformedHex);
            },
        };
        out.push(hi * 16 + lo);
        proof {
            let k = (i - start) / 2;
            assert(2 * k == i - start);
            assert(out@[k] == (hex_digit_val(b[2 * k]) * 16 + hex_digit_val(b[2 * k + 1])) as u8);
        }
        i = i + 2;
    }
    assert(out@ =~= hex_pairs(b));
    Ok(out)
}

/// Like `de_hex_to_vu8`, for an optional byte sequence that is present.
pub fn de_hex_to_ovu8(s: &str) -> (r: Result<Option<Vec<u8>>, PatchError>)
    ensures
        hex_bytes_ok(s@) ==> (r matches Ok(v) && v matches Some(bs) && bs@ == hex_pairs(
            hex_body(s@),
        )),
        !hex_bytes_ok(s@) ==> r == Err::<Option<Vec<u8>>, PatchError>(PatchError::MalformedHex),
{
    match de_hex_to_vu8(s) {
        Ok(v) => Ok(Some(v)),
        Err(e) => Err(e),
    }
}

/// The default for an omitted optional field.
pub fn get_none<T>() -> (r: Option<T>)
    ensures
        r is None,
{
    None
}

/// The uppercase hex character of a digit value.
pub open spec fn hex_upper_char(d: int) -> char {
    if d == 0 {
        '0'
    } else if d == 1 {
        '1'
    } else if d == 2 {
        '2'
    } else if d == 3 {
        '3'
    } else if d == 4 {
        '4'
    } else if d == 5 {
        '5'
    } else if d == 6 {
        '6'
    } else if d == 7 {
        '7'
    } else if d == 8 {
        '8'
    } else if d == 9 {
        '9'
    } else if d == 10 {
        'A'
    } else if d == 11 {
        'B'
    } else if d == 12 {
        'C'
    } else if d == 13 {
        'D'
    } else if d == 14 {
        'E'
    } else {
        'F'
    }
}

/// The lowercase hex character of a digit value.
pub open spec fn hex_lower_char(d: int) -> char {
    if d == 0 {
        '0'
    } else if d == 1 {
        '1'
    } else if d == 2 {
        '2'
    } else if d == 3 {
        '3'
    } else if d == 4 {
        '4'
    } else if d == 5 {
        '5'
    } else if d == 6 {
        '6'
    } else if d == 7 {
        '7'
    } else if d == 8 {
        '8'
    } else if d == 9 {
        '9'
    } else if d == 10 {
        'a'
    } else if d == 11 {
        'b'
    } else if d == 12 {
        'c'
    } else if d == 13 {
        'd'
    } else if d == 14 {
        'e'
    } else {
        'f'
    }
}

/// The eight uppercase hex digits of a `u32`, most significant first.
pub open spec fn u32_hex_digits(v: u32) -> Seq<char> {
    seq![
        hex_upper_char(((v / 0x1000_0000) % 16) as int),
        hex_upper_char(((v / 0x100_0000) % 16) as int),
        hex_upper_char(((v / 0x10_0000) % 16) as int),
        hex_upper_char(((v / 0x1_0000) % 16) as int),
        hex_upper_char(((v / 0x1000) % 16) as int),
        hex_upper_char(((v / 0x100) % 16) as int),
        hex_upper_char(((v / 0x10) % 16) as int),
        hex_upper_char((v % 16) as int),
    ]
}

/// The lowercase hex digits of a byte sequence, two per byte.
pub open spec fn bytes_hex_digits(bs: Seq<u8>) -> Seq<char> {
    Seq::new(
        bs.len() * 2,
        |i: int|
            if i % 2 == 0 {
                hex_lower_char(bs[i / 2] as int / 16)
            } else {
                hex_lower_char(bs[i / 2] as int % 16)
            },
    )
}

fn push_upper_nibble(r: &mut String, d: u8)
    requires
        d < 16,
    ensures
        final(r)@ == old(r)@ + seq![hex_upper_char(d as int)],
{
    match d {
        0 => {
            r.append("0");
            proof {
                reveal_strlit("0");
                assert(r@ =~= old(r)@ + seq![hex_upper_char(d as int)]);
            }
        },
        1 => {
            r.append("1");
            proof {
                reveal_strlit("1");
                assert(r@ =~= old(r)@ + seq![hex_upper_char(d as int)]);
            }
        },
        2 => {
            r.append("2");
            proof {
                reveal_strlit("2");
                assert(r@ =~= old(r)@ + seq![hex_upper_char(d as int)]);
            }
        },
        3 => {
            r.append("3");
            proof {
                reveal_strlit("3");
                assert(r@ =~= old(r)@ + seq![hex_upper_char(d as int)]);
            }
        },
        4 => {
            r.append("4");
            proof {
                reveal_strlit("4");
                assert(r@ =~= old(r)@ + seq![hex_upper_char(d as int)]);
            }
        },
        5 => {
            r.append("5");
            proof {
                reveal_strlit("5");
                assert(r@ =~= old(r)@ + seq![hex_upper_char(d as int)]);
            }
        },
        6 => {
            r.append("6");
            proof {
                reveal_strlit("6");
                assert(r@ =~= old(r)@ + seq![hex_upper_char(d as int)]);
            }
        },
        7 => {
            r.append("7");
            proof {
                reveal_strlit("7");
                assert(r@ =~= old(r)@ + seq![hex_upper_char(d as int)]);
            }
        },
        8 => {
            r.append("8");
            proof {
                reveal_strlit("8");
                assert(r@ =~= old(r)@ + seq![hex_upper_char(d as int)]);
            }
        },
        9 => {
            r.append("9");
            proof {
                reveal_strlit("9");
                assert(r@ =~= old(r)@ + seq![hex_upper_char(d as int)]);
            }
        },
        10 => {
            r.append("A");
            proof {
                reveal_strlit("A");
                assert(r@ =~= old(r)@ + seq![hex_upper_char(d as int)]);
            }
        },
        11 => {
            r.append("B");
            proof {
                reveal_strlit("B");
                assert(r@ =~= old(r)@ + seq![hex_upper_char(d as int)]);
            }
        },
        12 => {
            r.append("C");
            proof {
                reveal_strlit("C");
                assert(r@ =~= old(r)@ + seq![hex_upper_char(d as int)]);
            }
        },
        13 => {
            r.append("D");
            proof {
                reveal_strlit("D");
                assert(r@ =~= old(r)@ + seq![hex_upper_char(d as int)]);
            }
        },
        14 => {
            r.append("E");
            proof {
                reveal_strlit("E");
                assert(r@ =~= old(r)@ + seq![hex_upper_char(d as int)]);
            }
        },
        _ => {
            r.append("F");
            proof {
                reveal_strlit("F");
                assert(r@ =~= old(r)@ + seq![hex_upper_char(d as int)]);
            }
        },
    }
}

fn push_lower_nibble(r: &mut String, d: u8)
    requires
        d < 16,
    ensures
        final(r)@ == old(r)@ + seq![hex_lower_char(d as int)],
{
    match d {
        0 => {
            r.append("0");
            proof {
                reveal_strlit("0");
                assert(r@ =~= old(r)@ + seq![hex_lower_char(d as int)]);
            }
        },
        1 => {
            r.append("1");
            proof {
                reveal_strlit("1");
                assert(r@ =~= old(r)@ + seq![hex_lower_char(d as int)]);
            }
        },
        2 => {
            r.append("2");
            proof {
                reveal_strlit("2");
                assert(r@ =~= old(r)@ + seq![hex_lower_char(d as int)]);
            }
        },
        3 => {
            r.append("3");
            proof {
                reveal_strlit("3");
                assert(r@ =~= old(r)@ + seq![hex_lower_char(d as int)]);
            }
        },
        4 => {
            r.append("4");
            proof {
                reveal_strlit("4");
                assert(r@ =~= old(r)@ + seq![hex_lower_char(d as int)]);
            }
        },
        5 => {
            r.append("5");
            proof {
                reveal_strlit("5");
                assert(r@ =~= old(r)@ + seq![hex_lower_char(d as int)]);
            }
        },
        6 => {
            r.append("6");
            proof {
                reveal_strlit("6");
                assert(r@ =~= old(r)@ + seq![hex_lower_char(d as int)]);
            }
        },
        7 => {
            r.append("7");
            proof {
                reveal_strlit("7");
                assert(r@ =~= old(r)@ + seq![hex_lower_char(d as int)]);
            }
        },
        8 => {
            r.append("8");
            proof {
                reveal_strlit("8");
                assert(r@ =~= old(r)@ + seq![hex_lower_char(d as int)]);
            }
        },
        9 => {
            r.append("9");
            proof {
                reveal_strlit("9");
                assert(r@ =~= old(r)@ + seq![hex_lower_char(d as int)]);
            }
        },
        10 => {
            r.append("a");
            proof {
                reveal_strlit("a");
                assert(r@ =~= old(r)@ + seq![hex_lower_char(d as int)]);
            }
        },
        11 => {
            r.append("b");
            proof {
                reveal_strlit("b");
                assert(r@ =~= old(r)@ + seq![hex_lower_char(d as int)]);
            }
        },
        12 => {
            r.append("c");
            proof {
                reveal_strlit("c");
                assert(r@ =~= old(r)@ + seq![hex_lower_char(d as int)]);
            }
        },
        13 => {
            r.append("d");
            proof {
                reveal_strlit("d");
                assert(r@ =~= old(r)@ + seq![hex_lower_char(d as int)]);
            }
        },
        14 => {
            r.append("e");
            proof {
                reveal_strlit("e");
                assert(r@ =~= old(r)@ + seq![hex_lower_char(d as int)]);
            }
        },
        _ => {
            r.append("f");
            proof {
                reveal_strlit("f");
                assert(r@ =~= old(r)@ + seq![hex_lower_char(d as int)]);
            }
        },
    }
}

/// Encodes a `u32` as `"0x"` followed by its eight uppercase hex digits.
pub fn se_u32_to_hex(val: u32) -> (r: String)
    ensures
        r@ == seq!['0', 'x'] + u32_hex_digits(val),
{
    let mut r = String::new();
    r.append("0x");
    proof {
        reveal_strlit("0x");
    }
    push_upper_nibble(&mut r, ((val / 0x1000_0000) % 16) as u8);
    push_upper_nibble(&mut r, ((val / 0x100_0000) % 16) as u8);
    push_upper_nibble(&mut r, ((val / 0x10_0000) % 16) as u8);
    push_upper_nibble(&mut r, ((val / 0x1_0000) % 16) as u8);
    push_upper_nibble(&mut r, ((val / 0x1000) % 16) as u8);
    push_upper_nibble(&mut r, ((val / 0x100) % 16) as u8);
    push_upper_nibble(&mut r, ((val / 0x10) % 16) as u8);
    push_upper_nibble(&mut r, (val % 16) as u8);
    proof {
        assert(r@ =~= seq!['0', 'x'] + u32_hex_digits(val));
    }
    r
}

proof fn lemma_bytes_hex_step(bs: Seq<u8>, k: int)
    requires
        0 <= k < bs.len(),
    ensures
        bytes_hex_digits(bs.take(k + 1)) =~= bytes_hex_digits(bs.take(k)) + seq![
            hex_lower_char(bs[k] as int / 16),
            hex_lower_char(bs[k] as int % 16),
        ],
{
    let l = bytes_hex_digits(bs.take(k + 1));
    let r = bytes_hex_digits(bs.take(k)) + seq![
        hex_lower_char(bs[k] as int / 16),
        hex_lower_char(bs[k] as int % 16),
    ];
    assert forall|i: int| 0 <= i < l.len() implies l[i] == r[i] by {
        vstd::arithmetic::div_mod::lemma_fundamental_div_mod(i, 2);
        if i < 2 * k {
            assert(i / 2 < k);
        } else {
            assert(i / 2 == k);
        }
    }
}

/// Encodes bytes as `"0x"` followed by two lowercase hex digits per byte.
pub fn se_vu8_to_hex(val: &Vec<u8>) -> (r: String)
    ensures
        r@ == seq!['0', 'x'] + bytes_hex_digits(val@),
{
    let mut r = String::new();
    r.append("0x");
    proof {
        reveal_strlit("0x");
        assert(bytes_hex_digits(val@.take(0)) =~= Seq::<char>::empty());
        assert(r@ =~= seq!['0', 'x'] + bytes_hex_digits(val@.take(0)));
    }
    let mut k: usize = 0;
    while k < val.len()
        invariant
            k as int <= val@.len(),
            r@ == seq!['0', 'x'] + bytes_hex_digits(val@.take(k as int)),
        decreases val@.len() - k,
    {
        let byte = val[k];
        push_lower_nibble(&mut r, byte / 16);
        push_lower_nibble(&mut r, byte % 16);
        proof {
            lemma_bytes_hex_step(val@, k as int);
            assert(r@ =~= seq!['0', 'x'] + bytes_hex_digits(val@.take(k + 1)));
        }
        k = k + 1;
    }
    proof {
        assert(val@.take(val@.len() as int) =~= val@);
    }
    r
}

/// Encodes an optional byte sequence; an absent one stays absent rather
/// than becoming an explicit placeholder.
pub fn se_ovu8_to_hex(val: &Option<Vec<u8>>) -> (r: Option<String>)
    ensures
        val matches Some(v) ==> (r matches Some(s) && s@ == seq!['0', 'x'] + bytes_hex_digits(
            v@,
        )),
        val is None ==> r is None,
{
    match val {
        Some(v) => Some(se_vu8_to_hex(v)),
        None => None,
    }
}

proof fn lemma_hex_val_snoc(s: Seq<char>, c: char)
    ensures
        hex_val(s.push(c)) == hex_val(s) * 16 + hex_digit_val(c),
{
    assert(s.push(c).drop_last() =~= s);
    assert(s.push(c).last() == c);
}

/// Encoding a `u32` and decoding the result yields the same value: the
/// uppercase 8-digit form is a valid numeric hex string for that value.
pub proof fn lemma_u32_hex_round_trip(v: u32)
    ensures
        hex_u32_ok(seq!['0', 'x'] + u32_hex_digits(v)),
        hex_val(hex_body(seq!['0', 'x'] + u32_hex_digits(v))) == v,
{
    let full = seq!['0', 'x'] + u32_hex_digits(v);
    let d = u32_hex_digits(v);
    assert(hex_body(full) =~= d);
    assert forall|i: int| 0 <= i < d.len() implies is_hex_digit(#[trigger] d[i]) by {
        assert(forall|x: int| 0 <= x < 16 ==> hex_digit_val(#[trigger] hex_upper_char(x)) == x);
    }
    let e = Seq::<char>::empty();
    let s1 = e.push(d[0]);
    let s2 = s1.push(d[1]);
    let s3 = s2.push(d[2]);
    let s4 = s3.push(d[3]);
    let s5 = s4.push(d[4]);
    let s6 = s5.push(d[5]);
    let s7 = s6.push(d[6]);
    let s8 = s7.push(d[7]);
    lemma_hex_val_snoc(e, d[0]);
    lemma_hex_val_snoc(s1, d[1]);
    lemma_hex_val_snoc(s2, d[2]);
    lemma_hex_val_snoc(s3, d[3]);
    lemma_hex_val_snoc(s4, d[4]);
    lemma_hex_val_snoc(s5, d[5]);
    lemma_hex_val_snoc(s6, d[6]);
    lemma_hex_val_snoc(s7, d[7]);
    assert(d =~= s8);
    assert(forall|x: int| 0 <= x < 16 ==> hex_digit_val(#[trigger] hex_upper_char(x)) == x);
    assert(v / 0x1000_0000 % 16 * 0x1000_0000 + v / 0x100_0000 % 16 * 0x100_0000 + v / 0x10_0000
        % 16 * 0x10_0000 + v / 0x1_0000 % 16 * 0x1_0000 + v / 0x1000 % 16 * 0x1000 + v / 0x100
        % 16 * 0x100 + v / 0x10 % 16 * 0x10 + v % 16 == v) by (bit_vector);
}

/// Encoding bytes and decoding the result yields the same bytes: the
/// lowercase two-digits-per-byte form is a valid byte hex string.
pub proof fn lemma_vu8_hex_round_trip(bs: Seq<u8>)
    ensures
        hex_bytes_ok(seq!['0', 'x'] + bytes_hex_digits(bs)),
        hex_pairs(hex_body(seq!['0', 'x'] + bytes_hex_digits(bs))) == bs,
{
    let full = seq!['0', 'x'] + bytes_hex_digits(bs);
    let d = bytes_hex_digits(bs);
    assert(hex_body(full) =~= d);
    assert forall|i: int| 0 <= i < d.len() implies is_hex_digit(#[trigger] d[i]) by {
        vstd::arithmetic::div_mod::lemma_fundamental_div_mod(i, 2);
        assert(forall|x: int| 0 <= x < 16 ==> hex_digit_val(#[trigger] hex_lower_char(x)) == x);
        assert(0 <= bs[i / 2] as int / 16 < 16);
        assert(0 <= bs[i / 2] as int % 16 < 16);
    }
    assert forall|i: int| 0 <= i < bs.len() implies hex_pairs(d)[i] == bs[i] by {
        assert(d[2 * i] == hex_lower_char(bs[i] as int / 16));
        assert(d[2 * i + 1] == hex_lower_char(bs[i] as int % 16));
        assert(forall|x: int| 0 <= x < 16 ==> hex_digit_val(#[trigger] hex_lower_char(x)) == x);
        vstd::arithmetic::div_mod::lemma_fundamental_div_mod(bs[i] as int, 16);
    }
    assert(hex_pairs(d) =~= bs);
}

proof fn lemma_hex_val_digitwise(a: Seq<char>, b: Seq<char>)
    requires
        a.len() == b.len(),
        forall|i: int| 0 <= i < a.len() ==> hex_digit_val(#[trigger] a[i]) == hex_digit_val(b[i]),
    ensures
        hex_val(a) == hex_val(b),
    decreases a.len(),
{
    if a.len() > 0 {
        assert(forall|i: int|
            0 <= i < a.drop_last().len() ==> #[trigger] a.drop_last()[i] == a[i]);
        assert(forall|i: int|
            0 <= i < b.drop_last().len() ==> #[trigger] b.drop_last()[i] == b[i]);
        lemma_hex_val_digitwise(a.drop_last(), b.drop_last());
    }
}

/// Hex decoding is case-insensitive and tolerant of an optional `"0x"`
/// prefix: two strings whose bodies agree digit value by digit value (for
/// example `"0x1A2B"`, `"1a2b"` and `"1A2B"`) decode alike, both as a
/// number and as a byte sequence.
pub proof fn lemma_hex_decode_case_insensitive(s: Seq<char>, t: Seq<char>)
    requires
        hex_body(s).len() == hex_body(t).len(),
        forall|i: int|
            0 <= i < hex_body(s).len() ==> hex_digit_val(#[trigger] hex_body(s)[i])
                == hex_digit_val(hex_body(t)[i]),
    ensures
        hex_u32_ok(s) == hex_u32_ok(t),
        hex_u32_ok(s) ==> hex_val(hex_body(s)) == hex_val(hex_body(t)),
        hex_bytes_ok(s) == hex_bytes_ok(t),
        hex_bytes_ok(s) ==> hex_pairs(hex_body(s)) == hex_pairs(hex_body(t)),
{
    let a = hex_body(s);
    let b = hex_body(t);
    lemma_hex_val_digitwise(a, b);
    if all_hex_digits(a) {
        assert forall|i: int| 0 <= i < b.len() implies is_hex_digit(#[trigger] b[i]) by {
            assert(is_hex_digit(a[i]));
            assert(hex_digit_val(a[i]) == hex_digit_val(b[i]));
        }
    }
    if all_hex_digits(b) {
        assert forall|i: int| 0 <= i < a.len() implies is_hex_digit(#[trigger] a[i]) by {
            assert(is_hex_digit(b[i]));
            assert(hex_digit_val(a[i]) == hex_digit_val(b[i]));
        }
    }
    assert(hex_pairs(a) =~= hex_pairs(b));
}

} // verus!
