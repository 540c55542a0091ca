//! Multibase and hexadecimal encoding for values that cross the module boundary.

use crate::error;
use crate::error::{Error, ErrorView};
use crate::model;
use crate::plog::{Cid, Log, Multikey, Multisig, Vlad};
use crate::text;
use vstd::prelude::*;
use vstd::string::*;

verus! {

/// The base64url character of a six-bit value.
pub open spec fn base64url_char(v: int) -> char {
    if v < 26 {
        (v + 0x41) as char
    } else if v < 52 {
        (v - 26 + 0x61) as char
    } else if v < 62 {
        (v - 52 + 0x30) as char
    } else if v == 62 {
        '-'
    } else {
        '_'
    }
}

/// Bits `6 * i` to `6 * i + 5` of `bytes`, counted from the most significant bit of the first
/// byte; past the end all bits are zero.
pub open spec fn six_bits(bytes: Seq<u8>, i: int) -> int {
    let at = 6 * i / 8;
    let next = if at + 1 < bytes.len() {
        bytes[at + 1] as int
    } else {
        0
    };
    let window = bytes[at] * 256 + next;
    let offset = 6 * i % 8;
    (if offset == 0 {
        window / 1024
    } else if offset == 2 {
        window / 256
    } else if offset == 4 {
        window / 64
    } else {
        window / 16
    }) % 64
}

/// Multibase text of `bytes` in unpadded base64url, whose code is `u`.
pub open spec fn multibase_base64url(bytes: Seq<u8>) -> Seq<char> {
    seq!['u'] + Seq::new(
        ((4 * bytes.len() + 2) / 3) as nat,
        |i: int| base64url_char(six_bits(bytes, i)),
    )
}

/// What `multi_base::decode` gives for a text in its permissive mode: the bytes, or the words
/// of its error.
pub uninterp spec fn multibase_decoded(s: Seq<char>) -> Result<Seq<u8>, Seq<char>>;

/// `multi_base::encode` with `Base::Base64Url`: the code `u`, then the bytes in unpadded
/// base64url (RFC 4648). Decoding the text gives the bytes back.
#[verifier::external_body]
fn multibase_encode(bytes: &[u8]) -> (r: String)
    ensures
        r@ == multibase_base64url(bytes@),
        multibase_decoded(r@) is Ok && multibase_decoded(r@)->Ok_0 == bytes@,
{
    multi_base::encode(multi_base::Base::Base64Url, bytes)
}

/// `multi_base::decode` in permissive mode, its error rendered as text; the base that the text
/// was written in is dropped. The result depends on the text alone.
#[verifier::external_body]
fn multibase_decode(s: &str) -> (r: Result<Vec<u8>, String>)
    ensures
        model::fallible(r) == multibase_decoded(s@),
{
    match multi_base::decode(s, false) {
        Ok((_base, data)) => Ok(data),
        Err(e) => Err(e.to_string()),
    }
}

/// Encodes raw bytes as multibase (base64url, no padding).
pub fn encode_bytes_multibase(bytes: &[u8]) -> (r: String)
    ensures
        r@ == multibase_base64url(bytes@),
        multibase_decoded(r@) is Ok && multibase_decoded(r@)->Ok_0 == bytes@,
{
    multibase_encode(bytes)
}

/// Decodes a multibase text to raw bytes.
pub fn decode_bytes_multibase(s: &str) -> (r: Result<Vec<u8>, Error>)
    ensures
        error::outcome(r) == or_encoding_error(multibase_decoded(s@)),
{
    bytes_from_multibase(multibase_decode(s))
}

/// Takes over decoded bytes; a decoding failure becomes an encoding error.
pub fn bytes_from_multibase(decoded: Result<Vec<u8>, String>) -> (r: Result<Vec<u8>, Error>)
    ensures
        error::outcome(r) == or_encoding_error(model::fallible(decoded)),
{
    match decoded {
        Ok(b) => Ok(b),
        Err(reason) => Err(Error::Encoding(reason)),
    }
}

/// What an outside decoder produced; its failure becomes an encoding error.
pub open spec fn or_encoding_error<V>(decoded: Result<V, Seq<char>>) -> Result<V, ErrorView> {
    match decoded {
        Ok(v) => Ok(v),
        Err(reason) => Err(ErrorView::Encoding(reason)),
    }
}

/// Multibase text of a log.
pub fn encode_plog(log: &Log) -> (r: String)
    ensures
        r@ == log@.encoded,
{
    log.encoded.clone()
}

/// Takes over a log decoded from multibase.
pub fn decode_plog(decoded: Result<Log, String>) -> (r: Result<Log, Error>)
    ensures
        error::outcome(r) == or_encoding_error(model::fallible(decoded)),
{
    match decoded {
        Ok(v) => Ok(v),
        Err(reason) => Err(Error::Encoding(reason)),
    }
}

/// Binary form of a log.
pub fn plog_to_bytes(log: &Log) -> (r: Vec<u8>)
    ensures
        r@ == log@.bytes,
{
    model::copy_bytes(log.bytes.as_slice())
}

/// Takes over a log decoded from its binary form; a failure is the log's own.
pub fn plog_from_bytes(decoded: Result<Log, String>) -> (r: Result<Log, Error>)
    ensures
        error::outcome(r) == (match model::fallible(decoded) {
            Ok(v) => Ok(v),
            Err(reason) => Err(ErrorView::Plog(reason)),
        }),
{
    match decoded {
        Ok(v) => Ok(v),
        Err(reason) => Err(Error::Plog(reason)),
    }
}

/// Multibase text of a VLAD.
pub fn encode_vlad(vlad: &Vlad) -> (r: String)
    ensures
        r@ == vlad@,
{
    vlad.encoded.clone()
}

/// Takes over a VLAD decoded from multibase.
pub fn decode_vlad(decoded: Result<Vlad, String>) -> (r: Result<Vlad, Error>)
    ensures
        error::outcome(r) == or_encoding_error(model::fallible(decoded)),
{
    match decoded {
        Ok(v) => Ok(v),
        Err(reason) => Err(Error::Encoding(reason)),
    }
}

/// Multibase text of a CID.
pub fn encode_cid(cid: &Cid) -> (r: String)
    ensures
        r@ == cid@.encoded,
{
    cid.encoded.clone()
}

/// Multibase text of a Multikey.
pub fn encode_multikey(mk: &Multikey) -> (r: String)
    ensures
        r@ == mk@.encoded,
{
    mk.encoded.clone()
}

/// Takes over a Multikey decoded from multibase.
pub fn decode_multikey(decoded: Result<Multikey, String>) -> (r: Result<Multikey, Error>)
    ensures
        error::outcome(r) == or_encoding_error(model::fallible(decoded)),
{
    match decoded {
        Ok(v) => Ok(v),
        Err(reason) => Err(Error::Encoding(reason)),
    }
}

/// Multibase text of a Multisig.
pub fn encode_multisig(sig: &Multisig) -> (r: String)
    ensures
        r@ == sig@.encoded,
{
    sig.encoded.clone()
}

/// Takes over a Multisig decoded from multibase.
pub fn decode_multisig(decoded: Result<Multisig, String>) -> (r: Result<Multisig, Error>)
    ensures
        error::outcome(r) == or_encoding_error(model::fallible(decoded)),
{
    match decoded {
        Ok(v) => Ok(v),
        Err(reason) => Err(Error::Encoding(reason)),
    }
}

/// The lower-case hexadecimal digit of a value below sixteen.
pub open spec fn hex_char(v: int) -> char {
    if v < 10 {
        (v + 0x30) as char
    } else {
        (v - 10 + 0x61) as char
    }
}

/// Lower-case hexadecimal text of `bytes`, two digits per byte.
pub open spec fn hex_text(bytes: Seq<u8>) -> Seq<char> {
    Seq::new(
        2 * bytes.len(),
        |i: int|
            hex_char(
                if i % 2 == 0 {
                    bytes[i / 2] as int / 16
                } else {
                    bytes[i / 2] as int % 16
                },
            ),
    )
}

/// The value of a hexadecimal digit of either case.
pub open spec fn hex_value(c: char) -> Option<int> {
    let u = c as int;
    if 0x30 <= u <= 0x39 {
        Some(u - 0x30)
    } else if 0x61 <= u <= 0x66 {
        Some(u - 0x61 + 10)
    } else if 0x41 <= u <= 0x46 {
        Some(u - 0x41 + 10)
    } else {
        None
    }
}

/// The value of two hexadecimal digits.
pub open spec fn hex_pair(a: char, b: char) -> Option<int> {
    match (hex_value(a), hex_value(b)) {
        (Some(x), Some(y)) => Some(16 * x + y),
        _ => None,
    }
}

/// The digits of a hexadecimal text: without white space around them and without a leading
/// `0x`.
pub open spec fn hex_digits(s: Seq<char>) -> Seq<char> {
    let t = text::trimmed(s);
    if text::begins_with(t, "0x"@) {
        t.skip(2)
    } else {
        t
    }
}

/// The `i`-th pair of `digits` consists of hexadecimal digits.
pub open spec fn good_pair(digits: Seq<char>, i: int) -> bool {
    hex_pair(digits[2 * i], digits[2 * i + 1]) is Some
}

/// `digits` consists of pairs of hexadecimal digits.
pub open spec fn all_pairs_good(digits: Seq<char>) -> bool {
    digits.len() % 2 == 0 && forall|i: int| 0 <= i < digits.len() / 2 ==> good_pair(digits, i)
}

/// The numbers that the pairs of `digits` stand for.
pub open spec fn pair_values(digits: Seq<char>) -> Seq<u8> {
    Seq::new(
        (digits.len() / 2) as nat,
        |i: int| hex_pair(digits[2 * i], digits[2 * i + 1])->0 as u8,
    )
}

/// The bytes that a hexadecimal text stands for, or what is wrong with it.
pub open spec fn hex_bytes(s: Seq<char>) -> Result<Seq<u8>, ErrorView> {
    let digits = hex_digits(s);
    if vstd::utf8::encode_utf8(digits).len() % 2 != 0 {
        Err(ErrorView::Encoding("hex string has odd length"@))
    } else if all_pairs_good(digits) {
        Ok(pair_values(digits))
    } else {
        Err(ErrorView::Encoding("invalid hex: invalid digit found in string"@))
    }
}

/// Reading `digits` two bytes at a time up to the first bad pair never cuts a character in two.
pub open spec fn pairs_split(digits: Seq<char>) -> bool
    decreases digits.len(),
{
    if digits.len() == 0 {
        true
    } else if 0x80 <= digits[0] as u32 && (digits[0] as u32) < 0x800 {
        true
    } else {
        &&& digits.len() >= 2
        &&& (digits[0] as u32) < 0x80
        &&& (digits[1] as u32) < 0x80
        &&& hex_pair(digits[0], digits[1]) is Some ==> pairs_split(digits.skip(2))
    }
}

/// `s` can be read as hexadecimal two bytes at a time: its length in bytes is odd, or no pair
/// of bytes that has to be read ends inside a character.
pub open spec fn hex_splits(s: Seq<char>) -> bool {
    vstd::utf8::encode_utf8(hex_digits(s)).len() % 2 == 0 ==> pairs_split(hex_digits(s))
}

/// Hexadecimal digit of a value below sixteen.
fn hex_digit(v: u8) -> (r: char)
    requires
        v < 16,
    ensures
        r == hex_char(v as int),
{
    if v < 10 {
        (v + 0x30) as char
    } else {
        (v - 10 + 0x61) as char
    }
}

/// Encodes bytes as lower-case hex, without a `0x` prefix.
pub fn encode_hex(bytes: &[u8]) -> (r: String)
    ensures
        r@ == hex_text(bytes@),
{
    let mut out: String = String::new();
    let mut i: usize = 0;
    while i < bytes.len()
        invariant
            i <= bytes.len(),
            out@ == hex_text(bytes@).take(2 * i),
        decreases bytes.len() - i,
    {
        let b: u8 = bytes[i];
        out.push(hex_digit(b / 16));
        out.push(hex_digit(b % 16));
        i = i + 1;
        assert(out@ == hex_text(bytes@).take(2 * i));
    }
    assert(hex_text(bytes@).take(2 * bytes.len()) == hex_text(bytes@));
    out
}

/// Value of a hexadecimal digit.
fn digit_value(c: char) -> (r: Option<u8>)
    ensures
        match r {
            Some(v) => hex_value(c) == Some(v as int) && v < 16,
            None => hex_value(c) is None,
        },
{
    let u: u32 = c as u32;
    if 0x30 <= u && u <= 0x39 {
        Some((u - 0x30) as u8)
    } else if 0x61 <= u && u <= 0x66 {
        Some((u - 0x61 + 10) as u8)
    } else if 0x41 <= u && u <= 0x46 {
        Some((u - 0x41 + 10) as u8)
    } else {
        None
    }
}

/// Value of two hexadecimal digits.
fn pair_value(a: char, b: char) -> (r: Option<u8>)
    ensures
        match r {
            Some(v) => hex_pair(a, b) == Some(v as int),
            None => hex_pair(a, b) is None,
        },
{
    match (digit_value(a), digit_value(b)) {
        (Some(x), Some(y)) => Some(16 * x + y),
        _ => None,
    }
}

/// The digits of a hexadecimal text.
fn digits_of(s: &str) -> (r: &str)
    ensures
        r@ == hex_digits(s@),
{
    let t: &str = text::trim(s);
    if text::starts_with(t, "0x") {
        proof {
            reveal_strlit("0x");
        }
        let n: usize = t.unicode_len();
        let r: &str = t.substring_char(2, n);
        assert(r@ == t@.skip(2));
        r
    } else {
        t
    }
}

/// Whether a text can be passed to [`decode_hex`].
pub fn can_decode_hex(s: &str) -> (r: bool)
    ensures
        r == hex_splits(s@),
{
    let digits: &str = digits_of(s);
    if digits.as_bytes().len() % 2 != 0 {
        return true;
    }
    let chars: Vec<char> = text::chars_of(digits);
    let mut i: usize = 0;
    assert(chars@.skip(0) == chars@);
    while i < chars.len()
        invariant
            i <= chars.len(),
            chars@ == hex_digits(s@),
            vstd::utf8::encode_utf8(hex_digits(s@)).len() % 2 == 0,
            pairs_split(chars@) == pairs_split(chars@.skip(i as int)),
        decreases chars.len() - i,
    {
        let a: u32 = chars[i] as u32;
        if 0x80 <= a && a < 0x800 {
            return true;
        }
        if chars.len() - i < 2 || a >= 0x80 || (chars[i + 1] as u32) >= 0x80 {
            return false;
        }
        if pair_value(chars[i], chars[i + 1]).is_none() {
            return true;
        }
        assert(chars@.skip(i as int).skip(2) == chars@.skip(i + 2));
        i = i + 2;
    }
    true
}

/// Decodes a hex text, with or without a `0x` prefix, to bytes.
pub fn decode_hex(s: &str) -> (r: Result<Vec<u8>, Error>)
    requires
        hex_splits(s@),
    ensures
        error::outcome(r) == hex_bytes(s@),
{
    let digits: &str = digits_of(s);
    if digits.as_bytes().len() % 2 != 0 {
        return Err(Error::Encoding("hex string has odd length".to_owned()));
    }
    let chars: Vec<char> = text::chars_of(digits);
    let mut out: Vec<u8> = Vec::new();
    let mut i: usize = 0;
    while i < chars.len()
        invariant
            i <= chars.len(),
            2 * out.len() == i,
            chars@ == hex_digits(s@),
            vstd::utf8::encode_utf8(hex_digits(s@)).len() % 2 == 0,
            forall|k: int| 0 <= k < out.len() ==> good_pair(chars@, k),
            forall|k: int|
                0 <= k < out.len() ==> #[trigger] out@[k] == hex_pair(
                    chars@[2 * k],
                    chars@[2 * k + 1],
                )->0,
        decreases chars.len() - i,
    {
        if chars.len() - i < 2 {
            return Err(
                Error::Encoding("invalid hex: invalid digit found in string".to_owned()),
            );
        }
        match pair_value(chars[i], chars[i + 1]) {
            Some(v) => {
                out.push(v);
            },
            None => {
                assert(!good_pair(chars@, out@.len() as int));
                return Err(
                    Error::Encoding("invalid hex: invalid digit found in string".to_owned()),
                );
            },
        }
        i = i + 2;
    }
    assert(out@ == pair_values(chars@));
    Ok(out)
}

/// A 32-byte key that a hexadecimal text stands for, or what is wrong with it.
pub open spec fn hex32_bytes(s: Seq<char>) -> Result<Seq<u8>, ErrorView> {
    match hex_bytes(s) {
        Ok(b) => if b.len() == 32 {
            Ok(b)
        } else {
            Err(ErrorView::Encoding("expected 32 bytes, got "@ + text::decimal(b.len())))
        },
        Err(e) => Err(e),
    }
}

/// Decodes a 32-byte key from hex.
pub fn decode_hex32(s: &str) -> (r: Result<[u8; 32], Error>)
    requires
        hex_splits(s@),
    ensures
        error::outcome(r) == hex32_bytes(s@),
{
    let v: Vec<u8> = match decode_hex(s) {
        Ok(v) => v,
        Err(e) => return Err(e),
    };
    if v.len() != 32 {
        let mut m: String = "expected 32 bytes, got ".to_owned();
        m.append(text::decimal_text(v.len()).as_str());
        return Err(Error::Encoding(m));
    }
    Ok(model::to_array32(v.as_slice()))
}

proof fn lemma_hex_char(v: int)
    requires
        0 <= v < 16,
    ensures
        hex_value(hex_char(v)) == Some(v),
        (hex_char(v) as u32) < 0x80,
        !text::is_space(hex_char(v)),
        hex_char(v) != 'x',
{
}

proof fn lemma_hex_text_chars(bytes: Seq<u8>, i: int)
    requires
        0 <= i < 2 * bytes.len(),
    ensures
        (hex_text(bytes)[i] as u32) < 0x80,
        !text::is_space(hex_text(bytes)[i]),
        hex_text(bytes)[i] != 'x',
{
    let b = bytes[i / 2] as int;
    lemma_hex_char(b / 16);
    lemma_hex_char(b % 16);
}

proof fn lemma_hex_text_pairs(bytes: Seq<u8>, i: int)
    requires
        0 <= i < bytes.len(),
    ensures
        hex_pair(hex_text(bytes)[2 * i], hex_text(bytes)[2 * i + 1]) == Some(bytes[i] as int),
{
    let b = bytes[i] as int;
    lemma_hex_char(b / 16);
    lemma_hex_char(b % 16);
    assert((2 * i) / 2 == i && (2 * i + 1) / 2 == i && (2 * i + 1) % 2 == 1);
}

proof fn lemma_ascii_pairs_split(digits: Seq<char>)
    requires
        digits.len() % 2 == 0,
        forall|i: int| 0 <= i < digits.len() ==> (#[trigger] digits[i] as u32) < 0x80,
    ensures
        pairs_split(digits),
    decreases digits.len(),
{
    if digits.len() > 0 {
        lemma_ascii_pairs_split(digits.skip(2));
    }
}

proof fn lemma_hex_digits_of_text(s: Seq<char>, bytes: Seq<u8>)
    requires
        s == hex_text(bytes) || s == "0x"@ + hex_text(bytes),
    ensures
        hex_digits(s) == hex_text(bytes),
{
    reveal_strlit("0x");
    let h = hex_text(bytes);
    if bytes.len() > 0 {
        lemma_hex_text_chars(bytes, 0);
        lemma_hex_text_chars(bytes, 1);
        lemma_hex_text_chars(bytes, h.len() - 1);
    }
    assert(s.len() > 0 ==> !text::is_space(s[0]) && !text::is_space(s.last()));
    assert(text::trimmed(s) == s);
    if s == "0x"@ + h {
        assert(s.subrange(0, 2) == "0x"@);
        assert(s.skip(2) == h);
    }
    if s == h && text::begins_with(s, "0x"@) {
        assert(s.subrange(0, 2)[1] == 'x');
        assert(s == "0x"@ + h || h[1] == 'x');
        if h.len() >= 2 {
            lemma_hex_text_chars(bytes, 1);
        }
    }
}

/// What hex encoding writes, hex decoding reads back, with a `0x` prefix or without one.
pub proof fn law_hex_roundtrip(bytes: Seq<u8>)
    ensures
        hex_splits(hex_text(bytes)),
        hex_bytes(hex_text(bytes)) == Ok::<Seq<u8>, ErrorView>(bytes),
        hex_splits("0x"@ + hex_text(bytes)),
        hex_bytes("0x"@ + hex_text(bytes)) == Ok::<Seq<u8>, ErrorView>(bytes),
{
    let h = hex_text(bytes);
    lemma_hex_digits_of_text(h, bytes);
    lemma_hex_digits_of_text("0x"@ + h, bytes);
    assert forall|i: int| 0 <= i < h.len() implies (#[trigger] h[i] as u32) < 0x80 by {
        lemma_hex_text_chars(bytes, i);
    }
    assert(vstd::utf8::is_ascii_chars(h));
    vstd::utf8::is_ascii_chars_encode_utf8(h);
    lemma_ascii_pairs_split(h);
    assert forall|i: int| 0 <= i < bytes.len() implies good_pair(h, i) && #[trigger] pair_values(
        h,
    )[i] == bytes[i] by {
        lemma_hex_text_pairs(bytes, i);
    }
    assert(pair_values(h) == bytes);
}

/// A 32-byte key is read back from its hex text.
pub proof fn law_hex32_roundtrip(key: Seq<u8>)
    requires
        key.len() == 32,
    ensures
        hex_splits(hex_text(key)),
        hex32_bytes(hex_text(key)) == Ok::<Seq<u8>, ErrorView>(key),
{
    law_hex_roundtrip(key);
}

/// The sixteen hexadecimal digits, by their values; either case is read.
pub proof fn law_hex_digits(v: int)
    ensures
        0 <= v < 16 ==> hex_char(v) == "0123456789abcdef"@[v],
        forall|c: char| #[trigger]
            hex_value(c) == Some(v) <==> 0 <= v < 16 && (c == "0123456789abcdef"@[v] || c
                == "0123456789ABCDEF"@[v]),
{
    reveal_strlit("0123456789abcdef");
    reveal_strlit("0123456789ABCDEF");
}

/// The hexadecimal text of bytes has two digits for each byte: the upper half, then the lower
/// half.
pub proof fn law_hex_text(bytes: Seq<u8>, i: int)
    requires
        0 <= i < bytes.len(),
    ensures
        hex_text(bytes).len() == 2 * bytes.len(),
        hex_text(bytes)[2 * i] == "0123456789abcdef"@[bytes[i] as int / 16],
        hex_text(bytes)[2 * i + 1] == "0123456789abcdef"@[bytes[i] as int % 16],
{
    law_hex_digits(bytes[i] as int / 16);
    law_hex_digits(bytes[i] as int % 16);
    assert((2 * i) / 2 == i && (2 * i + 1) / 2 == i && (2 * i + 1) % 2 == 1);
}

/// The digits of a hexadecimal text are what is left of it without the white space around it and
/// without one leading `0x`.
pub proof fn law_hex_prefix(s: Seq<char>, rest: Seq<char>)
    ensures
        text::trimmed(s) == seq!['0', 'x'] + rest ==> hex_digits(s) == rest,
        !(text::trimmed(s).len() >= 2 && text::trimmed(s)[0] == '0' && text::trimmed(s)[1] == 'x')
            ==> hex_digits(s) == text::trimmed(s),
{
    reveal_strlit("0x");
    let t = text::trimmed(s);
    assert("0x"@ =~= seq!['0', 'x']);
    if t == seq!['0', 'x'] + rest {
        assert(t.subrange(0, 2) =~= "0x"@);
        assert(t.skip(2) =~= rest);
    }
    if text::begins_with(t, "0x"@) {
        assert(t.subrange(0, 2)[0] == '0' && t.subrange(0, 2)[1] == 'x');
    }
}

/// A hexadecimal text is read exactly if its digits are the two halves of each byte, in order.
/// Otherwise the fault is an odd length in bytes, or else a digit that is none.
pub proof fn law_hex_reading(s: Seq<char>, b: Seq<u8>)
    ensures
        hex_bytes(s) == Ok::<Seq<u8>, ErrorView>(b) <==> {
            &&& hex_digits(s).len() == 2 * b.len()
            &&& forall|i: int|
                0 <= i < b.len() ==> {
                    &&& hex_value(hex_digits(s)[2 * i]) == Some(#[trigger] b[i] as int / 16)
                    &&& hex_value(hex_digits(s)[2 * i + 1]) == Some(b[i] as int % 16)
                }
        },
        hex_bytes(s) is Err ==> hex_bytes(s)->Err_0 == ErrorView::Encoding(
            if vstd::utf8::encode_utf8(hex_digits(s)).len() % 2 != 0 {
                "hex string has odd length"@
            } else {
                "invalid hex: invalid digit found in string"@
            },
        ),
{
    let d = hex_digits(s);
    if hex_bytes(s) == Ok::<Seq<u8>, ErrorView>(b) {
        assert(b == pair_values(d));
        assert forall|i: int| 0 <= i < b.len() implies {
            &&& hex_value(d[2 * i]) == Some(#[trigger] b[i] as int / 16)
            &&& hex_value(d[2 * i + 1]) == Some(b[i] as int % 16)
        } by {
            assert(good_pair(d, i));
            let x = hex_value(d[2 * i])->0;
            let y = hex_value(d[2 * i + 1])->0;
            assert(0 <= x < 16 && 0 <= y < 16);
            assert(b[i] as int == 16 * x + y);
        }
    }
    if d.len() == 2 * b.len() && forall|i: int|
        0 <= i < b.len() ==> {
            &&& hex_value(d[2 * i]) == Some(#[trigger] b[i] as int / 16)
            &&& hex_value(d[2 * i + 1]) == Some(b[i] as int % 16)
        } {
        assert forall|i: int| 0 <= i < d.len() / 2 implies good_pair(d, i) by {
            assert(hex_value(d[2 * i]) == Some(b[i] as int / 16));
        }
        assert forall|k: int| 0 <= k < d.len() implies '\0' <= #[trigger] d[k] <= '\u{7f}' by {
            let i = k / 2;
            assert(hex_value(d[2 * i]) == Some(b[i] as int / 16));
            assert(k == 2 * i || k == 2 * i + 1);
        }
        assert(vstd::utf8::is_ascii_chars(d));
        vstd::utf8::is_ascii_chars_encode_utf8(d);
        assert forall|i: int| 0 <= i < b.len() implies #[trigger] pair_values(d)[i] == b[i] by {
            assert(hex_value(d[2 * i]) == Some(b[i] as int / 16));
        }
        assert(pair_values(d) =~= b);
    }
}

/// Every text of ASCII digits can be read as hexadecimal, for better or worse.
pub proof fn law_ascii_can_be_read(s: Seq<char>)
    requires
        vstd::utf8::is_ascii_chars(hex_digits(s)),
    ensures
        hex_splits(s),
{
    let d = hex_digits(s);
    vstd::utf8::is_ascii_chars_encode_utf8(d);
    if d.len() % 2 == 0 {
        assert forall|i: int| 0 <= i < d.len() implies (#[trigger] d[i] as u32) < 0x80 by {
            assert('\0' <= d[i] <= '\u{7f}');
        }
        lemma_ascii_pairs_split(d);
    }
}

/// A key is read exactly if the text holds thirty-two bytes; another number is told.
pub proof fn law_hex32_reading(s: Seq<char>, key: Seq<u8>)
    ensures
        hex32_bytes(s) == Ok::<Seq<u8>, ErrorView>(key) <==> {
            &&& key.len() == 32
            &&& hex_bytes(s) == Ok::<Seq<u8>, ErrorView>(key)
        },
        hex_bytes(s) is Err ==> hex32_bytes(s) == Err::<Seq<u8>, ErrorView>(hex_bytes(s)->Err_0),
        hex_bytes(s) is Ok && hex_bytes(s)->Ok_0.len() != 32 ==> hex32_bytes(s) == Err::<
            Seq<u8>,
            ErrorView,
        >(
            ErrorView::Encoding(
                "expected 32 bytes, got "@ + text::decimal(hex_bytes(s)->Ok_0.len()),
            ),
        ),
{
}

/// What an outside decoder gives passes through; its complaint becomes an encoding error with
/// the same words.
pub proof fn law_decoded_values_pass<V>(v: V, reason: Seq<char>)
    ensures
        or_encoding_error(Ok::<V, Seq<char>>(v)) == Ok::<V, ErrorView>(v),
        or_encoding_error(Err::<V, Seq<char>>(reason)) == Err::<V, ErrorView>(
            ErrorView::Encoding(reason),
        ),
{
}

/// The text of binary data is the letter `u` and then one letter of the base64url alphabet for
/// each six bits, without padding.
pub proof fn law_base64url_letters(bytes: Seq<u8>, i: int)
    requires
        0 <= i < (4 * bytes.len() + 2) / 3,
    ensures
        multibase_base64url(bytes).len() == 1 + (4 * bytes.len() + 2) / 3,
        multibase_base64url(bytes)[0] == 'u',
        0 <= six_bits(bytes, i) < 64,
        multibase_base64url(bytes)[1 + i]
            == "ABCDEFGHIJKLMNOPQRSTUVWXYZabcdefghijklmnopqrstuvwxyz0123456789-_"@[six_bits(
            bytes,
            i,
        )],
{
    reveal_strlit("ABCDEFGHIJKLMNOPQRSTUVWXYZabcdefghijklmnopqrstuvwxyz0123456789-_");
}

/// Empty data has the text `u`.
pub proof fn law_base64url_of_nothing()
    ensures
        multibase_base64url(Seq::empty()) == seq!['u'],
{
    assert(multibase_base64url(Seq::empty()) =~= seq!['u']);
}

/// Four letters hold the bits of three bytes, most significant first; at the end, two letters
/// hold one byte and three letters two bytes, filled up with zero bits.
pub proof fn law_base64url_bits(bytes: Seq<u8>, g: int)
    requires
        0 <= 3 * g < bytes.len(),
    ensures
        ({
            let v = |k: int| six_bits(bytes, 4 * g + k);
            let b = |k: int| bytes[3 * g + k] as int;
            &&& 3 * g + 2 < bytes.len() ==> 262144 * v(0) + 4096 * v(1) + 64 * v(2) + v(3)
                == 65536 * b(0) + 256 * b(1) + b(2)
            &&& 3 * g + 2 == bytes.len() ==> 4096 * v(0) + 64 * v(1) + v(2) == 4 * (256 * b(0) + b(
                1,
            ))
            &&& 3 * g + 1 == bytes.len() ==> 64 * v(0) + v(1) == 16 * b(0)
        }),
{
    let n = bytes.len();
    let b0 = bytes[3 * g] as int;
    let b1 = if 3 * g + 1 < n {
        bytes[3 * g + 1] as int
    } else {
        0
    };
    let b2 = if 3 * g + 2 < n {
        bytes[3 * g + 2] as int
    } else {
        0
    };
    assert(six_bits(bytes, 4 * g + 0) == b0 / 4);
    assert(six_bits(bytes, 4 * g + 1) == (256 * b0 + b1) / 16 % 64);
    if 3 * g + 1 < n {
        assert(six_bits(bytes, 4 * g + 2) == (256 * b1 + b2) / 64 % 64);
    }
    if 3 * g + 2 < n {
        assert(six_bits(bytes, 4 * g + 3) == b2 % 64);
    }
    lemma_groups(b0, b1, b2);
}

proof fn lemma_groups(b0: int, b1: int, b2: int)
    requires
        0 <= b0 < 256,
        0 <= b1 < 256,
        0 <= b2 < 256,
    ensures
        262144 * (b0 / 4) + 4096 * ((256 * b0 + b1) / 16 % 64) + 64 * ((256 * b1 + b2) / 64 % 64)
            + b2 % 64 == 65536 * b0 + 256 * b1 + b2,
        4096 * (b0 / 4) + 64 * ((256 * b0 + b1) / 16 % 64) + (256 * b1) / 64 % 64 == 4 * (256 * b0
            + b1),
        64 * (b0 / 4) + (256 * b0) / 16 % 64 == 16 * b0,
{
    assert((256 * b0 + b1) / 16 == 16 * b0 + b1 / 16);
    assert((16 * b0 + b1 / 16) % 64 == 16 * (b0 % 4) + b1 / 16);
    assert((256 * b1 + b2) / 64 == 4 * b1 + b2 / 64);
    assert((4 * b1 + b2 / 64) % 64 == 4 * (b1 % 16) + b2 / 64);
    assert((256 * b1) / 64 == 4 * b1 && (4 * b1) % 64 == 4 * (b1 % 16));
    assert((256 * b0) / 16 == 16 * b0 && (16 * b0) % 64 == 16 * (b0 % 4));
}

/// Where the digits can be read two bytes at a time: every pair that is read, up to the first bad
/// one, is two ASCII characters or one character of two bytes. Where they cannot, some pair that
/// has to be read is neither; it is told which.
pub proof fn law_pairs_of_bytes(digits: Seq<char>, k: int) -> (bad: int)
    ensures
        ({
            let two_bytes = |i: int| 0x80 <= digits[2 * i] as u32 && (digits[2 * i] as u32) < 0x800;
            let two_ascii = |i: int|
                2 * i + 1 < digits.len() && (digits[2 * i] as u32) < 0x80 && (digits[2 * i
                    + 1] as u32) < 0x80;
            let reached = |i: int|
                0 <= 2 * i < digits.len() && forall|j: int|
                    0 <= j < i ==> #[trigger] good_pair(digits, j);
            &&& pairs_split(digits) && reached(k) ==> two_bytes(k) || two_ascii(k)
            &&& !pairs_split(digits) ==> reached(bad) && !two_bytes(bad) && !two_ascii(bad)
        }),
    decreases digits.len(),
{
    if digits.len() >= 2 && (digits[0] as u32) < 0x80 && (digits[1] as u32) < 0x80 && good_pair(
        digits,
        0,
    ) {
        let rest = digits.skip(2);
        let later = law_pairs_of_bytes(rest, k - 1);
        assert forall|j: int| 0 <= j && 2 * j + 1 < rest.len() implies #[trigger] good_pair(rest, j)
            == good_pair(digits, j + 1) by {
            assert(rest[2 * j] == digits[2 * (j + 1)]);
            assert(rest[2 * j + 1] == digits[2 * (j + 1) + 1]);
        }
        if 0 < k && 2 * k < digits.len() {
            if forall|j: int| 0 <= j < k ==> #[trigger] good_pair(digits, j) {
                assert forall|j: int| 0 <= j < k - 1 implies #[trigger] good_pair(rest, j) by {
                    assert(good_pair(digits, j + 1));
                }
            }
            assert(rest[2 * (k - 1)] == digits[2 * k]);
            if 2 * k + 1 < digits.len() {
                assert(rest[2 * (k - 1) + 1] == digits[2 * k + 1]);
            }
        }
        if !pairs_split(rest) {
            assert(rest[2 * later] == digits[2 * (later + 1)]);
            if 2 * later + 1 < rest.len() {
                assert(rest[2 * later + 1] == digits[2 * (later + 1) + 1]);
            }
            assert forall|j: int| 0 <= j < later + 1 implies #[trigger] good_pair(digits, j) by {
                if j > 0 {
                    assert(good_pair(rest, j - 1));
                }
            }
        }
        later + 1
    } else {
        if pairs_split(digits) && digits.len() > 0 {
            assert(hex_value(digits[0]) is Some ==> (digits[0] as u32) < 0x80);
            assert(!good_pair(digits, 0));
        }
        0
    }
}

}
