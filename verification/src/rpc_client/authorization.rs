//! The `authorization` entry of a call: how a credential pair becomes its
//! value, and how the value is read back.

use base64::{prelude::BASE64_STANDARD, Engine};
use tonic::metadata::{Ascii, MetadataValue};
use vstd::prelude::*;
use vstd::string::{StrSliceExecFns, StringExecFns};
use vstd::utf8::{encode_utf8, is_ascii_chars, is_ascii_chars_encode_utf8};
use crate::config::Authorization;
use crate::errors::{Error, Result};

verus! {

/// The text that base64 gives for `bytes`, in the standard alphabet and with
/// padding.
pub uninterp spec fn base64_standard(bytes: Seq<u8>) -> Seq<char>;

/// Whether a character belongs to the standard base64 alphabet or is the
/// padding sign.
pub open spec fn is_base64_char(c: char) -> bool {
    ('A' <= c && c <= 'Z') || ('a' <= c && c <= 'z') || ('0' <= c && c <= '9') || c == '+' || c
        == '/' || c == '='
}

/// Whether a text holds nothing but base64 characters.
pub open spec fn is_base64_text(text: Seq<char>) -> bool {
    forall|i: int| 0 <= i < text.len() ==> is_base64_char(#[trigger] text[i])
}

/// `Engine::encode` of base64, on `BASE64_STANDARD`: the result is the
/// standard encoding of the bytes, which this library names and does not
/// spell out, and it holds only letters, digits, `+`, `/` and `=`. The
/// call fails only where the encoded length does not fit the machine's
/// word, which the bound on the input excludes.
#[verifier::external_body]
fn base64_encode(bytes: &[u8]) -> (r: String)
    requires
        bytes@.len() <= isize::MAX,
    ensures
        r@ == base64_standard(bytes@),
        is_base64_text(r@),
{
    BASE64_STANDARD.encode(bytes)
}

/// The bytes that a text stands for in standard base64, where it stands
/// for any.
pub uninterp spec fn base64_standard_decoded(text: Seq<char>) -> Option<Seq<u8>>;

/// Whether `r` undoes the encoding: where `text` is the standard encoding
/// of some bytes, `r` is those bytes.
pub open spec fn decodes_back(r: Option<Vec<u8>>, text: Seq<char>) -> bool {
    forall|bytes: Seq<u8>| #[trigger]
        base64_standard(bytes) == text ==> (r matches Some(v) && v@ == bytes)
}

/// `Engine::decode` of base64, on `BASE64_STANDARD`. The result is what the
/// text decodes to, which this library names and does not spell out; and a
/// text that is the standard encoding of some bytes decodes to those bytes.
#[verifier::external_body]
fn base64_decode(text: &str) -> (r: Option<Vec<u8>>)
    ensures
        r matches Some(v) ==> base64_standard_decoded(text@) == Some(v@),
        r is None ==> base64_standard_decoded(text@) is None,
        decodes_back(r, text@),
{
    BASE64_STANDARD.decode(text).ok()
}

/// Whether a byte may stand in the value of a header.
pub open spec fn header_byte_ok(b: u8) -> bool {
    (b >= 32 && b != 127) || b == 9
}

/// Whether a text may be the value of a metadata entry: each byte of its
/// UTF-8 form may stand in a header.
pub open spec fn header_text_ok(text: Seq<char>) -> bool {
    forall|i: int|
        0 <= i < encode_utf8(text).len() ==> header_byte_ok(#[trigger] encode_utf8(text)[i])
}

/// `str::parse` into tonic's `MetadataValue<Ascii>`: it succeeds exactly
/// where every byte of the text is at least 32 and not 127, or is a tab.
#[verifier::external_body]
fn parses_as_metadata(text: &str) -> (r: bool)
    ensures
        r == header_text_ok(text@),
{
    text.parse::<MetadataValue<Ascii>>().is_ok()
}

/// The bytes that stand for a credential pair: the name, a colon, the
/// password.
pub open spec fn credential_bytes(auth: Authorization) -> Seq<u8> {
    encode_utf8(auth.username@) + seq![58u8] + encode_utf8(auth.password@)
}

/// Whether a credential pair is short enough for its bytes to be encoded
/// on this machine.
pub open spec fn credential_fits(auth: Authorization) -> bool {
    credential_bytes(auth).len() <= isize::MAX
}

/// Tests whether a credential pair is short enough to be encoded.
pub fn fits_encoding(auth: &Authorization) -> (r: bool)
    ensures
        r == credential_fits(*auth),
{
    let limit: usize = isize::MAX as usize;
    let name: usize = auth.username.as_str().as_bytes().len();
    let password: usize = auth.password.as_str().as_bytes().len();
    if name >= limit {
        false
    } else {
        password <= limit - name - 1
    }
}

/// The value of the `authorization` entry for an encoded credential.
pub open spec fn basic_text(encoded: Seq<char>) -> Seq<char> {
    "Basic "@ + encoded
}

/// Whether `r` is the outcome of making a metadata value from `text`: the
/// text itself where it may be one, else the error that says it may not.
pub open spec fn metadata_outcome(r: Result<String>, text: Seq<char>) -> bool {
    if header_text_ok(text) {
        r matches Ok(v) && v@ == text
    } else {
        r matches Err(Error::Unknown(m)) && m@ == "invalid grpc metadata"@
    }
}

fn push_bytes(buf: &mut Vec<u8>, bytes: &[u8])
    ensures
        final(buf)@ == old(buf)@ + bytes@,
{
    let mut i: usize = 0;
    while i < bytes.len()
        invariant
            i <= bytes@.len(),
            buf@ == old(buf)@ + bytes@.subrange(0, i as int),
        decreases bytes@.len() - i,
    {
        buf.push(bytes[i]);
        i += 1;
    }
    assert(bytes@.subrange(0, i as int) == bytes@);
}

/// Lays out a credential pair as the bytes that get encoded.
pub fn authorization_payload(auth: &Authorization) -> (r: Vec<u8>)
    ensures
        r@ == credential_bytes(*auth),
{
    let mut buf: Vec<u8> = Vec::new();
    push_bytes(&mut buf, auth.username.as_str().as_bytes());
    buf.push(58u8);
    push_bytes(&mut buf, auth.password.as_str().as_bytes());
    buf
}

/// Makes the `authorization` value from an encoded credential, and refuses
/// one that cannot be a metadata value.
pub fn basic_authorization_value(encoded: &str) -> (r: Result<String>)
    ensures
        metadata_outcome(r, basic_text(encoded@)),
{
    let text = String::from_str("Basic ").concat(encoded);
    if parses_as_metadata(text.as_str()) {
        Ok(text)
    } else {
        Err(Error::Unknown(String::from_str("invalid grpc metadata")))
    }
}

/// `Basic ` and a base64 text may always be a metadata value.
pub proof fn lemma_basic_text_ok(encoded: Seq<char>)
    requires
        is_base64_text(encoded),
    ensures
        header_text_ok(basic_text(encoded)),
{
    reveal_strlit("Basic ");
    let text = basic_text(encoded);
    assert forall|i: int| 0 <= i < text.len() implies ' ' <= #[trigger] text[i] && text[i]
        <= 'z' by {
        if i >= 6 {
            assert(text[i] == encoded[i - 6]);
            assert(is_base64_char(encoded[i - 6]));
        }
    }
    assert(is_ascii_chars(text));
    is_ascii_chars_encode_utf8(text);
    assert forall|i: int| 0 <= i < encode_utf8(text).len() implies header_byte_ok(
        #[trigger] encode_utf8(text)[i],
    ) by {
        assert(' ' <= text[i] && text[i] <= 'z');
        assert(encode_utf8(text)[i] == text[i] as u8);
    }
}

/// The `authorization` value of a credential pair: `Basic` and the base64
/// of `username:password`. It can always be made.
pub fn authorization_value(auth: &Authorization) -> (r: Result<String>)
    requires
        credential_fits(*auth),
    ensures
        r matches Ok(v) && v@ == basic_text(base64_standard(credential_bytes(*auth))),
{
    let buf = authorization_payload(auth);
    let encoded = base64_encode(buf.as_slice());
    proof {
        lemma_basic_text_ok(encoded@);
    }
    basic_authorization_value(encoded.as_str())
}

/// `i` is the place of the first colon among `bytes`.
pub open spec fn first_colon(bytes: Seq<u8>, i: int) -> bool {
    &&& 0 <= i < bytes.len()
    &&& bytes[i] == 58
    &&& forall|j: int| 0 <= j < i ==> bytes[j] != 58
}

/// The two halves of `bytes` around its first colon, if it has one.
pub open spec fn split_credential(bytes: Seq<u8>) -> Option<(Seq<u8>, Seq<u8>)> {
    if exists|i: int| first_colon(bytes, i) {
        let i = choose|i: int| first_colon(bytes, i);
        Some((bytes.subrange(0, i), bytes.subrange(i + 1, bytes.len() as int)))
    } else {
        None
    }
}

/// The credential that an `authorization` value carries: the value is
/// `Basic ` and a base64 text, whose bytes fall into a name and a password
/// around their first colon.
pub open spec fn basic_credential(value: Seq<char>) -> Option<(Seq<u8>, Seq<u8>)> {
    if value.len() >= 6 && value.subrange(0, 6) == "Basic "@ {
        match base64_standard_decoded(value.subrange(6, value.len() as int)) {
            Some(bytes) => split_credential(bytes),
            None => None,
        }
    } else {
        None
    }
}

fn copy_range(bytes: &Vec<u8>, from: usize, to: usize) -> (r: Vec<u8>)
    requires
        from <= to <= bytes@.len(),
    ensures
        r@ == bytes@.subrange(from as int, to as int),
{
    let mut out: Vec<u8> = Vec::new();
    let mut i: usize = from;
    while i < to
        invariant
            from <= i <= to <= bytes@.len(),
            out@ == bytes@.subrange(from as int, i as int),
        decreases to - i,
    {
        out.push(bytes[i]);
        assert(out@ == bytes@.subrange(from as int, i + 1));
        i += 1;
    }
    out
}

/// Parts the bytes of a credential into name and password, at the first
/// colon.
pub fn split_credential_bytes(bytes: &Vec<u8>) -> (r: Option<(Vec<u8>, Vec<u8>)>)
    ensures
        match r {
            Some(pair) => split_credential(bytes@) == Some((pair.0@, pair.1@)),
            None => split_credential(bytes@) is None,
        },
{
    let mut i: usize = 0;
    while i < bytes.len()
        invariant
            i <= bytes@.len(),
            forall|j: int| 0 <= j < i ==> bytes@[j] != 58,
        decreases bytes@.len() - i,
    {
        if bytes[i] == 58u8 {
            assert(first_colon(bytes@, i as int));
            let ghost k = choose|k: int| first_colon(bytes@, k);
            assert(k == i);
            let name = copy_range(bytes, 0, i);
            let password = copy_range(bytes, i + 1, bytes.len());
            return Some((name, password));
        }
        i += 1;
    }
    None
}

/// The credential bytes fall apart into the pair they were made of, where
/// the name holds no colon.
pub proof fn lemma_split_credential(auth: Authorization)
    requires
        !encode_utf8(auth.username@).contains(58u8),
    ensures
        split_credential(credential_bytes(auth)) == Some(
            (encode_utf8(auth.username@), encode_utf8(auth.password@)),
        ),
{
    let name = encode_utf8(auth.username@);
    let password = encode_utf8(auth.password@);
    let bytes = credential_bytes(auth);
    let at = name.len() as int;
    assert(bytes[at] == 58);
    assert forall|j: int| 0 <= j < at implies bytes[j] != 58 by {
        assert(bytes[j] == name[j]);
        assert(name.contains(name[j]));
    }
    assert(first_colon(bytes, at));
    let k = choose|k: int| first_colon(bytes, k);
    assert(k == at);
    assert(bytes.subrange(0, at) =~= name);
    assert(bytes.subrange(at + 1, bytes.len() as int) =~= password);
}

/// Reads the credential back from an `authorization` value: the bytes of
/// the name and of the password. A value that this library made from a
/// credential whose name holds no colon gives that credential back.
pub fn decode_basic_authorization(value: &str) -> (r: Option<(Vec<u8>, Vec<u8>)>)
    ensures
        match r {
            Some(pair) => basic_credential(value@) == Some((pair.0@, pair.1@)),
            None => basic_credential(value@) is None,
        },
        forall|auth: Authorization|
            value@ == #[trigger] basic_text(base64_standard(credential_bytes(auth)))
                && !encode_utf8(auth.username@).contains(58u8) ==> (r matches Some(pair)
                && pair.0@ == encode_utf8(auth.username@) && pair.1@ == encode_utf8(
                auth.password@,
            )),
{
    proof {
        reveal_strlit("Basic ");
    }
    let len = value.unicode_len();
    if len < 6 {
        assert forall|auth: Authorization|
            value@ != #[trigger] basic_text(base64_standard(credential_bytes(auth))) by {}
        return None;
    }
    let head = String::from_str(value.substring_char(0, 6));
    if head != String::from_str("Basic ") {
        assert forall|auth: Authorization|
            value@ != #[trigger] basic_text(base64_standard(credential_bytes(auth))) by {
            let text = basic_text(base64_standard(credential_bytes(auth)));
            assert(text.subrange(0, 6) =~= "Basic "@);
        }
        return None;
    }
    let rest = value.substring_char(6, len);
    let decoded = base64_decode(rest);
    assert forall|auth: Authorization|
        value@ == #[trigger] basic_text(base64_standard(credential_bytes(auth)))
            && !encode_utf8(auth.username@).contains(58u8) implies (decoded matches Some(v)
        && split_credential(v@) == Some(
        (encode_utf8(auth.username@), encode_utf8(auth.password@)),
    )) by {
        let encoded = base64_standard(credential_bytes(auth));
        assert(rest@ =~= encoded);
        lemma_split_credential(auth);
    }
    match decoded {
        Some(bytes) => split_credential_bytes(&bytes),
        None => None,
    }
}

} // verus!
