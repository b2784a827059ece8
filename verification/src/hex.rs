use vstd::prelude::*;
use vstd::utf8::*;
use vstd::string::*;
use crate::error::AppError;

verus! {

broadcast use vstd::utf8::encode_utf8_valid_utf8, vstd::utf8::is_char_boundary_start_end_of_seq,
    vstd::utf8::is_char_boundary_iff_not_is_continuation_byte;

/// `std::num::ParseIntError`, the error of `u8::from_str_radix`.
#[verifier::external_type_specification]
#[verifier::external_body]
pub struct ExParseIntError(std::num::ParseIntError);

/// An ASCII hexadecimal digit: `0-9`, `a-f` or `A-F`.
pub open spec fn is_hex_digit(b: u8) -> bool {
    (0x30 <= b <= 0x39) || (0x41 <= b <= 0x46) || (0x61 <= b <= 0x66)
}

/// The value of an ASCII hexadecimal digit.
pub open spec fn hex_digit_value(b: u8) -> int {
    if b <= 0x39 {
        b - 0x30
    } else if b <= 0x46 {
        b - 0x41 + 10
    } else {
        b - 0x61 + 10
    }
}

/// Whether the two bytes form a base-16 `u8` in the syntax of
/// `u8::from_str_radix`: an optional `+` sign followed by digits only.
pub open spec fn radix16_pair_ok(b0: u8, b1: u8) -> bool {
    (is_hex_digit(b0) || b0 == 0x2b) && is_hex_digit(b1)
}

/// The value of such a pair.
pub open spec fn radix16_pair_value(b0: u8, b1: u8) -> u8 {
    if b0 == 0x2b {
        hex_digit_value(b1) as u8
    } else {
        (hex_digit_value(b0) * 16 + hex_digit_value(b1)) as u8
    }
}

/// The `k`-th two-byte pair of `b` exists and parses.
pub open spec fn pair_ok_at(b: Seq<u8>, k: int) -> bool {
    0 <= 2 * k && 2 * k + 1 < b.len() && radix16_pair_ok(b[2 * k], b[2 * k + 1])
}

/// All pairs before the `k`-th one parse.
pub open spec fn pairs_ok_before(b: Seq<u8>, k: int) -> bool {
    forall|j: int| 0 <= j < k ==> #[trigger] pair_ok_at(b, j)
}

/// The bytes `b[i..i + 2]` can be cut out of the string `b` encodes.
pub open spec fn pair_sliceable(b: Seq<u8>, i: int) -> bool {
    &&& 0 <= i
    &&& i + 2 <= b.len()
    &&& is_char_boundary(b, i)
    &&& is_char_boundary(b, i + 2)
}

/// `decode_hex` cuts every pair it reaches out of the string without
/// panicking: each pair up to the first one that fails to parse lies
/// inside the string and on character boundaries.
pub open spec fn decode_hex_defined(b: Seq<u8>) -> bool {
    forall|k: int|
        0 <= k && 2 * k < b.len() && #[trigger] pairs_ok_before(b, k) ==> pair_sliceable(b, 2 * k)
}

/// The bytes are an even number of parsable pairs.
pub open spec fn hex_decodable(b: Seq<u8>) -> bool {
    b.len() % 2 == 0 && pairs_ok_before(b, (b.len() / 2) as int)
}

/// The values of the pairs of `b`.
pub open spec fn hex_decoded(b: Seq<u8>) -> Seq<u8> {
    Seq::new(b.len() / 2, |k: int| radix16_pair_value(b[2 * k], b[2 * k + 1]))
}

/// Parses two bytes as a base-16 `u8` (wraps `u8::from_str_radix(pair, 16)`).
/// The contract claims that the result is `Ok` exactly when the pair is an
/// optional `+` followed by hexadecimal digits only, as the function's
/// documentation describes, and that the value is the pair's base-16 value.
#[verifier::external_body]
fn parse_radix16_pair(pair: &str) -> (r: Result<u8, std::num::ParseIntError>)
    requires
        pair.spec_bytes().len() == 2,
    ensures
        r is Ok <==> radix16_pair_ok(pair.spec_bytes()[0], pair.spec_bytes()[1]),
        r matches Ok(v) ==> v == radix16_pair_value(pair.spec_bytes()[0], pair.spec_bytes()[1]),
{
    u8::from_str_radix(pair, 16)
}

proof fn lemma_boundary_in_suffix(b: Seq<u8>, i: int, k: int)
    requires
        valid_utf8(b),
        valid_utf8(b.subrange(i, b.len() as int)),
        0 <= i <= b.len(),
        0 <= k,
        i + k <= b.len(),
    ensures
        is_char_boundary(b, i + k) <==> is_char_boundary(b.subrange(i, b.len() as int), k),
{
    let rest = b.subrange(i, b.len() as int);
    if i + k < b.len() {
        assert(rest[k] == b[i + k]);
        is_char_boundary_iff_not_is_continuation_byte(b, i + k);
        is_char_boundary_iff_not_is_continuation_byte(rest, k);
    } else {
        is_char_boundary_start_end_of_seq(b);
        is_char_boundary_start_end_of_seq(rest);
    }
}

/// Decoding an ASCII string of even length never panics: every pair lies
/// inside the string and on character boundaries.
pub proof fn law_even_ascii_text_is_decodable_without_panic(s: &str)
    requires
        is_ascii(s),
        s@.len() % 2 == 0,
    ensures
        decode_hex_defined(s.spec_bytes()),
{
    let b = s.spec_bytes();
    broadcast use vstd::string::is_ascii_spec_bytes;
    assert(b.len() == s@.len());
    assert forall|k: int| 0 <= k && 2 * k < b.len() && #[trigger] pairs_ok_before(b, k) implies pair_sliceable(b, 2 * k) by {
        assert(2 * k + 2 <= b.len());
        assert(is_char_boundary(b, 2 * k)) by {
            assert(b[2 * k] == s@[2 * k] as u8);
            assert(!is_continuation_byte(b[2 * k]));
            is_char_boundary_iff_not_is_continuation_byte(b, 2 * k);
        }
        assert(is_char_boundary(b, 2 * k + 2)) by {
            if 2 * k + 2 < b.len() {
                assert(b[2 * k + 2] == s@[2 * k + 2] as u8);
                assert(!is_continuation_byte(b[2 * k + 2]));
                is_char_boundary_iff_not_is_continuation_byte(b, 2 * k + 2);
            } else {
                is_char_boundary_start_end_of_seq(b);
            }
        }
    }
}

/// Decodes a string of hexadecimal byte pairs: each two-byte pair, from the
/// start, is read with `u8::from_str_radix(pair, 16)`, and the first pair
/// that does not parse ends the decoding with its error.
pub fn decode_hex(s: &str) -> (r: Result<Vec<u8>, std::num::ParseIntError>)
    requires
        decode_hex_defined(s.spec_bytes()),
    ensures
        r is Ok <==> hex_decodable(s.spec_bytes()),
        r matches Ok(v) ==> v@ == hex_decoded(s.spec_bytes()),
{
    let ghost b = s.spec_bytes();
    let bytes = s.as_bytes();
    let n = bytes.len();
    let mut out: Vec<u8> = Vec::new();
    let mut i: usize = 0;
    while i < n
        invariant
            b == s.spec_bytes(),
            n == b.len(),
            valid_utf8(b),
            decode_hex_defined(b),
            i % 2 == 0,
            i <= n,
            pairs_ok_before(b, (i / 2) as int),
            out@.len() == i / 2,
            forall|k: int| 0 <= k < i / 2 ==> out@[k] == radix16_pair_value(b[2 * k], b[2 * k + 1]),
        decreases n - i,
    {
        assert(pair_sliceable(b, i as int)) by {
            assert(pairs_ok_before(b, (i / 2) as int));
        }
        let (_, rest) = s.split_at(i);
        proof {
            lemma_boundary_in_suffix(b, i as int, 2);
        }
        let (pair, _) = rest.split_at(2);
        assert(pair.spec_bytes() =~= b.subrange(i as int, i + 2));
        match parse_radix16_pair(pair) {
            Ok(v) => {
                out.push(v);
                proof {
                    assert(pair_ok_at(b, (i / 2) as int));
                    assert forall|j: int| 0 <= j < (i + 2) / 2 implies #[trigger] pair_ok_at(b, j) by {
                        if j < i / 2 {
                            assert(pairs_ok_before(b, (i / 2) as int));
                        }
                    }
                }
                i = i + 2;
            },
            Err(e) => {
                assert(!pair_ok_at(b, (i / 2) as int));
                return Err(e);
            },
        }
    }
    assert(out@ =~= hex_decoded(b));
    Ok(out)
}

} // verus!

verus! {

/// `hex::FromHexError`, the error of `hex::decode`.
#[verifier::external_type_specification]
#[verifier::external_body]
pub struct ExFromHexError(::hex::FromHexError);

/// What `hex::decode` accepts: an even number of bytes, each of them a
/// hexadecimal digit.
pub open spec fn hex_crate_decodable(b: Seq<u8>) -> bool {
    b.len() % 2 == 0 && forall|i: int| 0 <= i < b.len() ==> #[trigger] is_hex_digit(b[i])
}

/// What `hex::decode` returns for such bytes: each pair's high digit
/// times 16 plus its low digit.
pub open spec fn hex_crate_decoded(b: Seq<u8>) -> Seq<u8> {
    Seq::new(b.len() / 2, |k: int| (hex_digit_value(b[2 * k]) * 16 + hex_digit_value(b[2 * k + 1])) as u8)
}

/// Decodes a hexadecimal string (wraps `hex::decode`). The contract
/// states what the crate's source does: it refuses an odd length, then
/// decodes each pair of bytes, upper- and lower-case digits alike, and
/// refuses any byte that is not a hexadecimal digit.
#[verifier::external_body]
fn hex_decode(s: &str) -> (r: Result<Vec<u8>, ::hex::FromHexError>)
    ensures
        r is Ok <==> hex_crate_decodable(s.spec_bytes()),
        r matches Ok(v) ==> v@ == hex_crate_decoded(s.spec_bytes()),
{
    ::hex::decode(s)
}

/// Whether a character has the Unicode `White_Space` property (the set
/// listed in the Unicode Character Database's `PropList.txt`): U+0009 to
/// U+000D, U+0020, U+0085, U+00A0, U+1680, U+2000 to U+200A, U+2028, U+2029,
/// U+202F, U+205F and U+3000.
pub open spec fn white_space(c: char) -> bool {
    let u = c as u32;
    ||| 0x09 <= u <= 0x0d
    ||| u == 0x20
    ||| u == 0x85
    ||| u == 0xa0
    ||| u == 0x1680
    ||| 0x2000 <= u <= 0x200a
    ||| u == 0x2028
    ||| u == 0x2029
    ||| u == 0x202f
    ||| u == 0x205f
    ||| u == 0x3000
}

/// Tells whether a character is whitespace, as `char::is_whitespace` does.
pub fn is_white_space(c: char) -> (r: bool)
    ensures
        r == white_space(c),
{
    let u = c as u32;
    (0x09 <= u && u <= 0x0d) || u == 0x20 || u == 0x85 || u == 0xa0 || u == 0x1680 || (0x2000 <= u
        && u <= 0x200a) || u == 0x2028 || u == 0x2029 || u == 0x202f || u == 0x205f || u == 0x3000
}

/// `s` without its leading whitespace.
pub open spec fn trim_start_ws(s: Seq<char>) -> Seq<char>
    decreases s.len(),
{
    if s.len() > 0 && white_space(s[0]) {
        trim_start_ws(s.drop_first())
    } else {
        s
    }
}

/// `s` without its trailing whitespace.
pub open spec fn trim_end_ws(s: Seq<char>) -> Seq<char>
    decreases s.len(),
{
    if s.len() > 0 && white_space(s.last()) {
        trim_end_ws(s.drop_last())
    } else {
        s
    }
}

/// `s` without leading and trailing whitespace (what `str::trim` returns).
pub open spec fn trimmed(s: Seq<char>) -> Seq<char> {
    trim_end_ws(trim_start_ws(s))
}

/// Removes leading and trailing whitespace, as `str::trim` does.
pub fn trim_whitespace(s: &str) -> (r: &str)
    ensures
        r@ == trimmed(s@),
{
    let len = s.unicode_len();
    let mut a: usize = 0;
    assert(s@.subrange(0, len as int) =~= s@);
    while a < len && is_white_space(s.get_char(a))
        invariant
            len == s@.len(),
            a <= len,
            trim_start_ws(s@) == trim_start_ws(s@.subrange(a as int, len as int)),
        decreases len - a,
    {
        assert(s@.subrange(a as int, len as int).drop_first() =~= s@.subrange(a + 1, len as int));
        a = a + 1;
    }
    assert(trim_start_ws(s@) == s@.subrange(a as int, len as int));
    let mut b: usize = len;
    while b > a && is_white_space(s.get_char(b - 1))
        invariant
            len == s@.len(),
            a <= b <= len,
            trimmed(s@) == trim_end_ws(s@.subrange(a as int, b as int)),
        decreases b,
    {
        assert(s@.subrange(a as int, b as int).drop_last() =~= s@.subrange(a as int, b - 1));
        b = b - 1;
    }
    s.substring_char(a, b)
}

/// `s` without one leading `0x`, if it starts so.
pub open spec fn without_hex_prefix(s: Seq<char>) -> Seq<char> {
    if s.len() >= 2 && s[0] == '0' && s[1] == 'x' {
        s.skip(2)
    } else {
        s
    }
}

/// Removes one leading `0x`, if there is one.
pub fn strip_hex_prefix(s: &str) -> (r: &str)
    ensures
        r@ == without_hex_prefix(s@),
{
    let len = s.unicode_len();
    if len >= 2 && s.get_char(0) == '0' && s.get_char(1) == 'x' {
        s.substring_char(2, len)
    } else {
        assert(s@.subrange(0, len as int) =~= s@);
        s.substring_char(0, len)
    }
}

/// One leading `0x` is removed, and only one; text that does not start with
/// `0x` is kept as it is.
pub proof fn law_hex_prefix_is_removed_once(s: Seq<char>)
    ensures
        without_hex_prefix(seq!['0', 'x'] + s) == s,
        !(s.len() >= 2 && s[0] == '0' && s[1] == 'x') ==> without_hex_prefix(s) == s,
{
    assert((seq!['0', 'x'] + s).skip(2) =~= s);
}

/// The text of a file hash as the backend reads it: trimmed, then
/// stripped of one leading `0x` (the hash is written with or without it).
pub open spec fn hash_text(hash: Seq<char>) -> Seq<char> {
    without_hex_prefix(trimmed(hash))
}

/// The message of a hash that is not hexadecimal.
pub open spec fn invalid_hex_hash_msg() -> Seq<char> {
    "invalid hex hash"@
}

/// The message of a hash of another length than 32 bytes.
pub open spec fn hash_length_msg() -> Seq<char> {
    "hash must be exactly 32 bytes (64 hex chars)"@
}

/// Decodes an already trimmed and unprefixed file hash: 64 hexadecimal
/// digits give its 32 bytes, anything else a `BadRequest`.
pub fn hash_from_hex_digits(digits: &str) -> (r: Result<Vec<u8>, AppError>)
    ensures
        r is Ok <==> hex_crate_decodable(digits.spec_bytes()) && digits.spec_bytes().len() == 64,
        r matches Ok(v) ==> v@ == hex_crate_decoded(digits.spec_bytes()) && v@.len() == 32,
        !hex_crate_decodable(digits.spec_bytes()) ==> (r matches Err(AppError::BadRequest(m))
            && m@ == invalid_hex_hash_msg()),
        hex_crate_decodable(digits.spec_bytes()) && digits.spec_bytes().len() != 64 ==> (
        r matches Err(AppError::BadRequest(m)) && m@ == hash_length_msg()),
{
    match hex_decode(digits) {
        Err(_) => Err(AppError::BadRequest("invalid hex hash".to_string())),
        Ok(v) => {
            if v.len() != 32 {
                Err(AppError::BadRequest("hash must be exactly 32 bytes (64 hex chars)".to_string()))
            } else {
                Ok(v)
            }
        },
    }
}

/// Reads the file hash of a job request: whitespace around it and one
/// leading `0x` are ignored, the rest must be 64 hexadecimal digits.
pub fn hash_from_hex(hash: &str) -> (r: Result<Vec<u8>, AppError>)
    ensures
        r is Ok <==> hex_crate_decodable(encode_utf8(hash_text(hash@)))
            && encode_utf8(hash_text(hash@)).len() == 64,
        r matches Ok(v) ==> v@ == hex_crate_decoded(encode_utf8(hash_text(hash@))),
        !hex_crate_decodable(encode_utf8(hash_text(hash@))) ==> (
        r matches Err(AppError::BadRequest(m)) && m@ == invalid_hex_hash_msg()),
        hex_crate_decodable(encode_utf8(hash_text(hash@)))
            && encode_utf8(hash_text(hash@)).len() != 64 ==> (
        r matches Err(AppError::BadRequest(m)) && m@ == hash_length_msg()),
{
    let t = trim_whitespace(hash);
    let digits = strip_hex_prefix(t);
    hash_from_hex_digits(digits)
}

/// Why a KMS key identifier was refused.
#[derive(Debug)]
pub enum KeyIdError {
    /// A pair of characters is not a base-16 byte.
    InvalidHex(std::num::ParseIntError),
    /// The identifier does not decode to exactly 32 bytes.
    WrongLength,
}

/// Reads a KMS key identifier written as hexadecimal pairs; it must give
/// exactly 32 bytes.
pub fn parse_key_id(hex: &str) -> (r: Result<Vec<u8>, KeyIdError>)
    requires
        decode_hex_defined(hex.spec_bytes()),
    ensures
        r is Ok <==> hex_decodable(hex.spec_bytes()) && hex.spec_bytes().len() == 64,
        r matches Ok(v) ==> v@ == hex_decoded(hex.spec_bytes()) && v@.len() == 32,
        !hex_decodable(hex.spec_bytes()) ==> r matches Err(KeyIdError::InvalidHex(_)),
        hex_decodable(hex.spec_bytes()) && hex.spec_bytes().len() != 64 ==> r matches Err(
            KeyIdError::WrongLength,
        ),
{
    match decode_hex(hex) {
        Err(e) => Err(KeyIdError::InvalidHex(e)),
        Ok(bytes) => {
            if bytes.len() != 32 {
                Err(KeyIdError::WrongLength)
            } else {
                Ok(bytes)
            }
        },
    }
}

} // verus!

verus! {

/// Text that neither starts nor ends with whitespace is left whole by
/// trimming.
pub proof fn law_text_without_surrounding_whitespace_is_kept(s: Seq<char>)
    requires
        s.len() == 0 || (!white_space(s[0]) && !white_space(s.last())),
    ensures
        trimmed(s) == s,
{
}

} // verus!

verus! {

/// The lower-case hexadecimal digit of `d` (0 to 15).
pub open spec fn lower_hex_digit(d: int) -> char {
    if d < 10 {
        (d + 48) as char
    } else {
        (d + 87) as char
    }
}

/// The lower-case hexadecimal text of `bytes`: two digits per byte, the
/// high one first (what `hex::encode` writes).
pub open spec fn lower_hex_text(bytes: Seq<u8>) -> Seq<char> {
    Seq::new(
        2 * bytes.len(),
        |i: int|
            if i % 2 == 0 {
                lower_hex_digit(bytes[i / 2] as int / 16)
            } else {
                lower_hex_digit(bytes[i / 2] as int % 16)
            },
    )
}

proof fn lemma_lower_hex_digit(d: int)
    requires
        0 <= d < 16,
    ensures
        is_hex_digit(lower_hex_digit(d) as u8),
        hex_digit_value(lower_hex_digit(d) as u8) == d,
        (lower_hex_digit(d) as u8) as int == lower_hex_digit(d) as int,
        lower_hex_digit(d) as int <= 0x7f,
{
}

/// Decoding the lower-case hexadecimal text of any bytes gives the bytes
/// back, and never panics.
pub proof fn law_lower_hex_text_decodes_back(s: &str, bytes: Seq<u8>)
    requires
        s@ == lower_hex_text(bytes),
    ensures
        decode_hex_defined(s.spec_bytes()),
        hex_decodable(s.spec_bytes()),
        hex_decoded(s.spec_bytes()) == bytes,
{
    broadcast use vstd::string::is_ascii_spec_bytes;

    assert forall|i: int| 0 <= i < s@.len() implies '\0' <= #[trigger] s@[i] <= '\u{7f}' by {
        if i % 2 == 0 {
            lemma_lower_hex_digit(bytes[i / 2] as int / 16);
        } else {
            lemma_lower_hex_digit(bytes[i / 2] as int % 16);
        }
    }
    assert(is_ascii(s));
    law_even_ascii_text_is_decodable_without_panic(s);
    let b = s.spec_bytes();
    assert(b.len() == 2 * bytes.len());
    assert forall|k: int| 0 <= k < bytes.len() implies #[trigger] pair_ok_at(b, k)
        && radix16_pair_value(b[2 * k], b[2 * k + 1]) == bytes[k] by {
        let hi = bytes[k] as int / 16;
        let lo = bytes[k] as int % 16;
        lemma_lower_hex_digit(hi as int);
        lemma_lower_hex_digit(lo as int);
        assert(s@[2 * k] == lower_hex_digit(hi as int));
        assert((2 * k + 1) / 2 == k);
        assert(s@[2 * k + 1] == lower_hex_digit(lo as int));
        assert(b[2 * k] == s@[2 * k] as u8);
        assert(b[2 * k + 1] == s@[2 * k + 1] as u8);
    }
    assert(hex_decoded(b) =~= bytes);
}

} // verus!
