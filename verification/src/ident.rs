//! Content-addressed identifiers: a CRC-32 checksum of the whole content,
//! taken as four big-endian bytes, URL-safe base64 encoded, truncated to the
//! first four characters. The identifier is a pure function of the content,
//! so uploading the same bytes twice always yields the same identifier.

use vstd::prelude::*;

verus! {

/// The CRC-32/ISO-HDLC checksum of a byte sequence: a fixed, deterministic
/// function of the bytes alone, not restated here.
pub uninterp spec fn crc32_of(data: Seq<u8>) -> u32;

/// Relies on crc's `Crc::<u32>::checksum` with the `CRC_32_ISO_HDLC`
/// algorithm: a deterministic checksum of the byte slice alone.
#[verifier::external_body]
fn crc32_iso_hdlc(data: &[u8]) -> (r: u32)
    ensures
        r == crc32_of(data@),
{
    crc::Crc::<u32>::new(&crc::CRC_32_ISO_HDLC).checksum(data)
}

/// Character `i` of the URL-safe base64 alphabet: A-Z, a-z, 0-9, '-', '_'.
pub open spec fn b64url_char(i: int) -> char
    recommends
        0 <= i < 64,
{
    if i < 26 {
        (65 + i) as char
    } else if i < 52 {
        (97 + (i - 26)) as char
    } else if i < 62 {
        (48 + (i - 52)) as char
    } else if i == 62 {
        '-'
    } else {
        '_'
    }
}

/// URL-safe, '='-padded base64 encoding of exactly four bytes: six alphabet
/// characters carrying the 32 bits in groups of six, then two padding
/// characters.
pub open spec fn b64url_of_4(b0: u8, b1: u8, b2: u8, b3: u8) -> Seq<char> {
    seq![
        b64url_char(b0 as int / 4),
        b64url_char((b0 as int % 4) * 16 + b1 as int / 16),
        b64url_char((b1 as int % 16) * 4 + b2 as int / 64),
        b64url_char(b2 as int % 64),
        b64url_char(b3 as int / 4),
        b64url_char((b3 as int % 4) * 16),
        '=',
        '=',
    ]
}

/// Relies on base64's `BASE64_URL_SAFE` engine: standard base64 over the
/// URL-safe alphabet with '=' padding, which on a four-byte input is the
/// eight characters stated by `b64url_of_4`.
#[verifier::external_body]
fn b64url_encode_4(b0: u8, b1: u8, b2: u8, b3: u8) -> (r: String)
    ensures
        r@ == b64url_of_4(b0, b1, b2, b3),
{
    base64::Engine::encode(&base64::prelude::BASE64_URL_SAFE, [b0, b1, b2, b3])
}

/// The identifier derived from content: the first four characters of the
/// URL-safe base64 encoding of the checksum's big-endian bytes.
pub open spec fn ident_of(content: Seq<u8>) -> Seq<char> {
    let c = crc32_of(content) as int;
    b64url_of_4(
        (c / 0x1000000) as u8,
        ((c / 0x10000) % 256) as u8,
        ((c / 256) % 256) as u8,
        (c % 256) as u8,
    ).take(4)
}

/// The characters an identifier can be made of: the unpadded part of the
/// URL-safe base64 alphabet.
pub open spec fn is_ident_char(c: char) -> bool {
    (65 <= c as int <= 90) || (97 <= c as int <= 122) || (48 <= c as int <= 57) || c == '-' || c
        == '_'
}

proof fn lemma_b64url_char_in_alphabet(i: int)
    requires
        0 <= i < 64,
    ensures
        is_ident_char(b64url_char(i)),
{
    if i < 26 {
        assert((65 + i) as char as int == 65 + i);
    } else if i < 52 {
        assert((97 + (i - 26)) as char as int == 97 + (i - 26));
    } else if i < 62 {
        assert((48 + (i - 52)) as char as int == 48 + (i - 52));
    }
}

/// Every identifier has exactly four characters, all from the URL-safe
/// alphabet; in particular an identifier holds no '/', no '.', no whitespace
/// and no ':'.
pub proof fn lemma_ident_chars(content: Seq<u8>)
    ensures
        ident_of(content).len() == 4,
        forall|i: int| 0 <= i < 4 ==> is_ident_char(#[trigger] ident_of(content)[i]),
{
    let c = crc32_of(content) as int;
    let b0 = (c / 0x1000000) as u8;
    let b1 = ((c / 0x10000) % 256) as u8;
    let b2 = ((c / 256) % 256) as u8;
    let b3 = (c % 256) as u8;
    lemma_b64url_char_in_alphabet(b0 as int / 4);
    lemma_b64url_char_in_alphabet((b0 as int % 4) * 16 + b1 as int / 16);
    lemma_b64url_char_in_alphabet((b1 as int % 16) * 4 + b2 as int / 64);
    lemma_b64url_char_in_alphabet(b2 as int % 64);
}

/// An identifier character is never a separator, a field delimiter or
/// whitespace, so an identifier passes unharmed through routes, file names
/// and the upload response.
pub proof fn lemma_ident_char_plain(c: char)
    requires
        is_ident_char(c),
    ensures
        c != '\n',
        c != ' ',
        c != '\t',
        c != '\r',
        c != ':',
        c != '/',
        c != '.',
{
}

/// Derives the identifier for `content`. Identical content always yields the
/// identical identifier: the result is fixed by `ident_of(content@)`, a
/// function of the bytes alone, with no randomness, collision check or retry.
pub fn generate(content: &[u8]) -> (r: String)
    ensures
        r@ == ident_of(content@),
        r@.len() == 4,
{
    let c: u32 = crc32_iso_hdlc(content);
    let b0: u8 = (c / 0x1000000) as u8;
    let b1: u8 = ((c / 0x10000) % 256) as u8;
    let b2: u8 = ((c / 256) % 256) as u8;
    let b3: u8 = (c % 256) as u8;
    let full = b64url_encode_4(b0, b1, b2, b3);
    let short = full.as_str().substring_char(0, 4);
    proof {
        assert(short@ =~= ident_of(content@));
    }
    String::from_str(short)
}

} // verus!
