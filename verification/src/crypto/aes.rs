//! AES-256-CBC with PKCS#7 padding, sealed by HMAC-SHA256 over IV and
//! ciphertext, and the cipher strings that carry the result.

use crate::crypto::b64::{
    base64_decode, base64_decode_spec, base64_encode, base64_encode_spec, base64_len,
    is_base64_char,
};
use crate::error::{bytes_result, Error};
use crate::text::{
    append, chars_of, contains_char, lemma_split_first, lemma_split_whole, split, split_spec,
    string_of,
};
use ::aes::cipher::block_padding::Pkcs7;
use ::aes::cipher::{BlockDecryptMut, BlockEncryptMut, KeyIvInit};
use hmac::Mac;
use rand::RngCore;
use vstd::prelude::*;
use vstd::slice::{slice_subrange, slice_to_vec};

verus! {

/// The AES-256-CBC ciphertext of `plaintext`, padded by PKCS#7, under a
/// 32-byte key and a 16-byte IV.
pub uninterp spec fn aes256_cbc_encrypt_spec(key: Seq<u8>, iv: Seq<u8>, plaintext: Seq<u8>) -> Seq<
    u8,
>;

/// The plaintext of an AES-256-CBC ciphertext under a 32-byte key and a
/// 16-byte IV, or `None` where the ciphertext is not a whole number of blocks
/// or does not end in PKCS#7 padding.
pub uninterp spec fn aes256_cbc_decrypt_spec(key: Seq<u8>, iv: Seq<u8>, ciphertext: Seq<u8>) -> Option<
    Seq<u8>,
>;

/// The HMAC-SHA256 tag of `message` under `key`.
pub uninterp spec fn hmac_sha256_spec(key: Seq<u8>, message: Seq<u8>) -> Seq<u8>;

/// The longest plaintext that `encrypt_aes256_cbc_hmac` takes.
pub const MAX_PLAINTEXT_LEN: usize = 0x3000_0000;

/// `encrypt_padded_mut` of `cbc::Encryptor<aes::Aes256>` with `Pkcs7`, on a
/// cipher made by `new_from_slices`. `buffer` holds the message in its first
/// `message_len` bytes and has room for the padding. The ciphertext is named
/// by `aes256_cbc_encrypt_spec`; it fills the blocks that the message and at
/// least one byte of padding need, and decrypts to the message.
#[verifier::external_body]
fn aes256_cbc_encrypt(key: &[u8], iv: &[u8], buffer: Vec<u8>, message_len: usize) -> (ct: Vec<u8>)
    requires
        key@.len() == 32,
        iv@.len() == 16,
        buffer@.len() == message_len + 16,
    ensures
        ct@ == aes256_cbc_encrypt_spec(key@, iv@, buffer@.take(message_len as int)),
        ct@.len() == (message_len / 16 + 1) * 16,
        aes256_cbc_decrypt_spec(key@, iv@, ct@) == Some(buffer@.take(message_len as int)),
{
    let mut buffer = buffer;
    let cipher = cbc::Encryptor::<::aes::Aes256>::new_from_slices(key, iv).unwrap();
    cipher.encrypt_padded_mut::<Pkcs7>(&mut buffer, message_len).unwrap().to_vec()
}

/// `decrypt_padded_mut` of `cbc::Decryptor<aes::Aes256>` with `Pkcs7`, on a
/// cipher made by `new_from_slices`: the plaintext named by
/// `aes256_cbc_decrypt_spec`, or `None` where the crate reports an unpad
/// error.
#[verifier::external_body]
fn aes256_cbc_decrypt(key: &[u8], iv: &[u8], ciphertext: &[u8]) -> (r: Option<Vec<u8>>)
    requires
        key@.len() == 32,
        iv@.len() == 16,
    ensures
        r matches Some(p) ==> aes256_cbc_decrypt_spec(key@, iv@, ciphertext@) == Some(p@),
        r is None ==> aes256_cbc_decrypt_spec(key@, iv@, ciphertext@) is None,
{
    let cipher = cbc::Decryptor::<::aes::Aes256>::new_from_slices(key, iv).unwrap();
    let mut buffer = ciphertext.to_vec();
    cipher.decrypt_padded_mut::<Pkcs7>(&mut buffer).ok().map(|p| p.to_vec())
}

/// `Mac::finalize` of `hmac::Hmac<sha2::Sha256>` after `update` with `head`
/// and then with `tail`: the 32-byte tag, named by `hmac_sha256_spec`, of
/// `head` followed by `tail`.
#[verifier::external_body]
fn hmac_sha256(key: &[u8], head: &[u8], tail: &[u8]) -> (tag: Vec<u8>)
    ensures
        tag@ == hmac_sha256_spec(key@, head@ + tail@),
        tag@.len() == 32,
{
    let mut mac = <hmac::Hmac<sha2::Sha256> as Mac>::new_from_slice(key).unwrap();
    mac.update(head);
    mac.update(tail);
    mac.finalize().into_bytes().to_vec()
}

/// `Mac::verify_slice` of `hmac::Hmac<sha2::Sha256>` after `update` with
/// `head` and then with `tail`: whether `tag` is the tag of `head` followed
/// by `tail`, compared in constant time.
#[verifier::external_body]
fn hmac_sha256_verify(key: &[u8], head: &[u8], tail: &[u8], tag: &[u8]) -> (ok: bool)
    ensures
        ok == (tag@ == hmac_sha256_spec(key@, head@ + tail@)),
{
    let mut mac = <hmac::Hmac<sha2::Sha256> as Mac>::new_from_slice(key).unwrap();
    mac.update(head);
    mac.update(tail);
    mac.verify_slice(tag).is_ok()
}

/// `RngCore::fill_bytes` of `rand::thread_rng()` on `n` bytes. Which bytes
/// come is left open.
#[verifier::external_body]
fn random_bytes(n: usize) -> (bytes: Vec<u8>)
    ensures
        bytes@.len() == n,
{
    let mut bytes = vec![0u8; n];
    rand::thread_rng().fill_bytes(&mut bytes);
    bytes
}

/// True for the ten ASCII decimal digits.
pub open spec fn is_ascii_digit_spec(c: char) -> bool {
    '0' <= c <= '9'
}

/// `text` without the type tag it may begin with: a decimal digit and a dot,
/// with something after them.
pub open spec fn strip_cipher_prefix_spec(text: Seq<char>) -> Seq<char> {
    if text.len() > 2 && text[1] == '.' && is_ascii_digit_spec(text[0]) {
        text.skip(2)
    } else {
        text
    }
}

/// Strips the type tag from a cipher string, where it has one.
pub fn strip_cipher_prefix(s: &str) -> (r: &str)
    ensures
        r@ == strip_cipher_prefix_spec(s@),
{
    let n = s.unicode_len();
    if n > 2 && s.get_char(1) == '.' && '0' <= s.get_char(0) && s.get_char(0) <= '9' {
        let r = s.substring_char(2, n);
        assert(s@.subrange(2, n as int) == s@.skip(2));
        r
    } else {
        s
    }
}

/// Whether `text` begins with the type tag `tag`: the digit and a dot.
pub open spec fn has_type_tag_spec(text: Seq<char>, tag: char) -> bool {
    text.len() >= 2 && text[0] == tag && text[1] == '.'
}

/// Whether the cipher string begins with the type tag `tag`.
pub fn has_type_tag(s: &str, tag: char) -> (r: bool)
    ensures
        r == has_type_tag_spec(s@, tag),
{
    let n = s.unicode_len();
    n >= 2 && s.get_char(0) == tag && s.get_char(1) == '.'
}

/// The body of a cipher string, as characters.
fn cipher_body(text: &str) -> (body: Vec<char>)
    ensures
        body@ == strip_cipher_prefix_spec(text@),
{
    chars_of(strip_cipher_prefix(text))
}

/// The three parts of a cipher string, each a base64 text.
#[derive(Debug)]
pub struct CipherParts {
    pub iv: String,
    pub ciphertext: String,
    pub mac: String,
}

/// The parts of a cipher string: the text, with or without type tag, is cut
/// at `|`, and must have the three parts IV, ciphertext and MAC.
pub open spec fn cipher_parts_spec(text: Seq<char>) -> Result<
    (Seq<char>, Seq<char>, Seq<char>),
    Error,
> {
    let body = strip_cipher_prefix_spec(text);
    let parts = split_spec(body, '|');
    if !body.contains('|') {
        Err(Error::MissingSeparator)
    } else if parts.len() != 3 {
        Err(Error::InvalidCipherString)
    } else {
        Ok((parts[0], parts[1], parts[2]))
    }
}

/// Cuts a cipher string into its parts.
pub fn parse_cipher_string(text: &str) -> (r: Result<CipherParts, Error>)
    ensures
        match cipher_parts_spec(text@) {
            Ok((iv, ct, mac)) => r matches Ok(p) && p.iv@ == iv && p.ciphertext@ == ct && p.mac@
                == mac,
            Err(e) => r matches Err(x) && x == e,
        },
{
    let body = cipher_body(text);
    if !contains_char(body.as_slice(), '|') {
        return Err(Error::MissingSeparator);
    }
    let parts = split(body.as_slice(), '|');
    if parts.len() != 3 {
        return Err(Error::InvalidCipherString);
    }
    Ok(
        CipherParts {
            iv: string_of(parts[0].as_slice()),
            ciphertext: string_of(parts[1].as_slice()),
            mac: string_of(parts[2].as_slice()),
        },
    )
}

/// The cipher string of three parts: the type tag `2.`, then the parts with
/// `|` between them.
pub open spec fn cipher_string_spec(iv: Seq<char>, ciphertext: Seq<char>, mac: Seq<char>) -> Seq<
    char,
> {
    seq!['2', '.'] + iv + seq!['|'] + ciphertext + seq!['|'] + mac
}

/// Puts three parts together to a cipher string with its type tag.
pub fn format_cipher_string(iv: &str, ciphertext: &str, mac: &str) -> (text: String)
    ensures
        text@ == cipher_string_spec(iv@, ciphertext@, mac@),
{
    let mut out: Vec<char> = Vec::new();
    out.push('2');
    out.push('.');
    let iv_chars = chars_of(iv);
    let ct_chars = chars_of(ciphertext);
    let mac_chars = chars_of(mac);
    append(&mut out, iv_chars.as_slice());
    out.push('|');
    append(&mut out, ct_chars.as_slice());
    out.push('|');
    append(&mut out, mac_chars.as_slice());
    string_of(out.as_slice())
}

/// What `decrypt_aes256_cbc_hmac` returns. The key has 64 bytes or more: a
/// shorter one holds no MAC key, and nothing is decrypted without the MAC.
/// The text, with or without type tag, is cut at `|` into IV, ciphertext and
/// MAC, each base64. The MAC is checked, under the bytes 32 to 64 of the key,
/// before anything is decrypted; the first 32 bytes of the key decrypt.
pub open spec fn decrypt_mac_spec(text: Seq<char>, key: Seq<u8>) -> Result<Seq<u8>, Error> {
    if key.len() < 64 {
        Err(Error::KeyTooShort)
    } else {
        match cipher_parts_spec(text) {
            Err(e) => Err(e),
            Ok((iv_text, ct_text, mac_text)) => match (
                base64_decode_spec(iv_text),
                base64_decode_spec(ct_text),
                base64_decode_spec(mac_text),
            ) {
                (Some(iv), Some(ct), Some(mac)) => {
                    if mac != hmac_sha256_spec(key.subrange(32, 64), iv + ct) {
                        Err(Error::MacMismatch)
                    } else if iv.len() != 16 {
                        Err(Error::InvalidLength)
                    } else {
                        match aes256_cbc_decrypt_spec(key.subrange(0, 32), iv, ct) {
                            Some(p) => Ok(p),
                            None => Err(Error::BadPadding),
                        }
                    }
                },
                _ => Err(Error::InvalidBase64),
            },
        }
    }
}

/// Decrypts a cipher string `IV|ciphertext|MAC`, with or without type tag,
/// under a key of 64 bytes or more, and checks its MAC first.
pub fn decrypt_aes256_cbc_hmac(ciphertext_b64: &str, key: &[u8]) -> (r: Result<Vec<u8>, Error>)
    ensures
        bytes_result(r) == decrypt_mac_spec(ciphertext_b64@, key@),
{
    if key.len() < 64 {
        return Err(Error::KeyTooShort);
    }
    let parts = match parse_cipher_string(ciphertext_b64) {
        Ok(p) => p,
        Err(e) => {
            return Err(e);
        },
    };
    let iv_text = parts.iv;
    let ct_text = parts.ciphertext;
    let mac_text = parts.mac;
    let iv = match base64_decode(iv_text.as_str()) {
        Some(b) => b,
        None => {
            return Err(Error::InvalidBase64);
        },
    };
    let ct = match base64_decode(ct_text.as_str()) {
        Some(b) => b,
        None => {
            return Err(Error::InvalidBase64);
        },
    };
    let mac = match base64_decode(mac_text.as_str()) {
        Some(b) => b,
        None => {
            return Err(Error::InvalidBase64);
        },
    };
    let mac_key = slice_subrange(key, 32, 64);
    if !hmac_sha256_verify(mac_key, iv.as_slice(), ct.as_slice(), mac.as_slice()) {
        return Err(Error::MacMismatch);
    }
    if iv.len() != 16 {
        return Err(Error::InvalidLength);
    }
    let enc_key = slice_subrange(key, 0, 32);
    match aes256_cbc_decrypt(enc_key, iv.as_slice(), ct.as_slice()) {
        Some(p) => Ok(p),
        None => Err(Error::BadPadding),
    }
}

/// What `decrypt_aes256_cbc_raw` returns. The text, with or without type
/// tag, is the base64 of a 16-byte IV followed by the ciphertext; there is no
/// MAC. The first 32 bytes of the key decrypt.
pub open spec fn decrypt_raw_spec(text: Seq<char>, key: Seq<u8>) -> Result<Seq<u8>, Error> {
    match base64_decode_spec(strip_cipher_prefix_spec(text)) {
        None => Err(Error::InvalidBase64),
        Some(bytes) => {
            if bytes.len() < 16 {
                Err(Error::CiphertextTooShort)
            } else if key.len() < 32 {
                Err(Error::InvalidLength)
            } else {
                match aes256_cbc_decrypt_spec(key.subrange(0, 32), bytes.subrange(0, 16), bytes.skip(16)) {
                    Some(p) => Ok(p),
                    None => Err(Error::BadPadding),
                }
            }
        },
    }
}

/// Decrypts the legacy form of a cipher string: IV and ciphertext in one
/// base64 text, without MAC.
pub fn decrypt_aes256_cbc_raw(ciphertext_b64: &str, key: &[u8]) -> (r: Result<Vec<u8>, Error>)
    ensures
        bytes_result(r) == decrypt_raw_spec(ciphertext_b64@, key@),
{
    let bytes = match base64_decode(strip_cipher_prefix(ciphertext_b64)) {
        Some(b) => b,
        None => {
            return Err(Error::InvalidBase64);
        },
    };
    if bytes.len() < 16 {
        return Err(Error::CiphertextTooShort);
    }
    if key.len() < 32 {
        return Err(Error::InvalidLength);
    }
    let enc_key = slice_subrange(key, 0, 32);
    let iv = slice_subrange(bytes.as_slice(), 0, 16);
    let ct = slice_subrange(bytes.as_slice(), 16, bytes.len());
    assert(bytes@.subrange(16, bytes@.len() as int) == bytes@.skip(16));
    match aes256_cbc_decrypt(enc_key, iv, ct) {
        Some(p) => Ok(p),
        None => Err(Error::BadPadding),
    }
}

/// The cipher string of `plaintext` under `key` and `iv`: the type tag `2.`,
/// then the base64 texts of the IV, of the ciphertext under the first 32
/// bytes of the key, and of the HMAC-SHA256 tag of IV and ciphertext under
/// the bytes 32 to 64 of the key, with `|` between them.
pub open spec fn sealed_text(key: Seq<u8>, iv: Seq<u8>, plaintext: Seq<u8>) -> Seq<char> {
    let ct = aes256_cbc_encrypt_spec(key.subrange(0, 32), iv, plaintext);
    let mac = hmac_sha256_spec(key.subrange(32, 64), iv + ct);
    cipher_string_spec(base64_encode_spec(iv), base64_encode_spec(ct), base64_encode_spec(mac))
}

/// Whether `text` is a cipher string of `plaintext` under `key`, for some IV
/// of 16 bytes.
pub open spec fn is_sealed(text: Seq<char>, key: Seq<u8>, plaintext: Seq<u8>) -> bool {
    exists|iv: Seq<u8>| iv.len() == 16 && text == #[trigger] sealed_text(key, iv, plaintext)
}

/// Whether every character of `text` is of the base64 alphabet.
pub open spec fn is_base64_text(text: Seq<char>) -> bool {
    forall|i: int| 0 <= i < text.len() ==> is_base64_char(#[trigger] text[i])
}

/// The shape of an emitted cipher string: the type tag `2.`, then three
/// base64 texts with `|` between them, of 24, at least 24, and 44 characters.
pub open spec fn has_sealed_shape(text: Seq<char>) -> bool {
    let parts = split_spec(text.skip(2), '|');
    &&& text.len() > 2
    &&& text[0] == '2'
    &&& text[1] == '.'
    &&& parts.len() == 3
    &&& parts[0].len() == 24
    &&& parts[1].len() >= 24
    &&& parts[2].len() == 44
    &&& is_base64_text(parts[0])
    &&& is_base64_text(parts[1])
    &&& is_base64_text(parts[2])
}

/// The lengths of a cipher string that seals `n` bytes: its shape, with a
/// ciphertext part of as many characters as the padded plaintext needs, and
/// three parts that are the base64 of 16 bytes, of the `n` bytes padded to
/// the next whole block of 16, and of 32 bytes.
pub open spec fn has_sealed_lengths(text: Seq<char>, n: nat) -> bool {
    let parts = split_spec(text.skip(2), '|');
    let padded = (n / 16 + 1) * 16;
    &&& has_sealed_shape(text)
    &&& parts[1].len() == base64_len(padded as nat)
    &&& base64_decode_spec(parts[0]) matches Some(iv) && iv.len() == 16
    &&& base64_decode_spec(parts[1]) matches Some(ct) && ct.len() == padded
    &&& base64_decode_spec(parts[2]) matches Some(mac) && mac.len() == 32
}

/// A base64 text holds no `|`.
proof fn lemma_base64_text_has_no_pipe(text: Seq<char>)
    requires
        is_base64_text(text),
    ensures
        !text.contains('|'),
{
    if text.contains('|') {
        let i = choose|i: int| 0 <= i < text.len() && text[i] == '|';
        assert(is_base64_char(text[i]));
    }
}

/// Three base64 texts with `|` between them are cut into themselves again.
proof fn lemma_split_three(a: Seq<char>, b: Seq<char>, c: Seq<char>)
    requires
        is_base64_text(a),
        is_base64_text(b),
        is_base64_text(c),
    ensures
        split_spec(a + seq!['|'] + b + seq!['|'] + c, '|') == seq![a, b, c],
        (a + seq!['|'] + b + seq!['|'] + c).contains('|'),
{
    lemma_base64_text_has_no_pipe(a);
    lemma_base64_text_has_no_pipe(b);
    lemma_base64_text_has_no_pipe(c);
    let whole = a + seq!['|'] + b + seq!['|'] + c;
    let tail = b + seq!['|'] + c;
    assert(whole == a + seq!['|'] + tail);
    lemma_split_first(a, tail, '|');
    lemma_split_first(b, c, '|');
    lemma_split_whole(c, '|');
    assert(seq![a] + (seq![b] + seq![c]) == seq![a, b, c]);
    assert(whole[a.len() as int] == '|');
}

/// Encrypts `plaintext` under the first 32 bytes of `key`, with a fresh
/// random IV, seals IV and ciphertext with the HMAC-SHA256 tag under the
/// bytes 32 to 64 of `key`, and returns the cipher string with its type tag.
/// The result decrypts to `plaintext` under `key`; its three parts are the
/// base64 of the 16 bytes of the IV, of the padded ciphertext and of the 32
/// bytes of the tag.
pub fn encrypt_aes256_cbc_hmac(plaintext: &[u8], key: &[u8]) -> (r: Result<String, Error>)
    ensures
        key@.len() < 64 ==> r == Err::<String, Error>(Error::KeyTooShort),
        key@.len() >= 64 && plaintext@.len() > MAX_PLAINTEXT_LEN ==> r == Err::<String, Error>(
            Error::PlaintextTooLong,
        ),
        key@.len() >= 64 && plaintext@.len() <= MAX_PLAINTEXT_LEN ==> r is Ok,
        r matches Ok(s) ==> {
            &&& is_sealed(s@, key@, plaintext@)
            &&& has_sealed_shape(s@)
            &&& has_sealed_lengths(s@, plaintext@.len())
            &&& decrypt_mac_spec(s@, key@) == Ok::<Seq<u8>, Error>(plaintext@)
        },
{
    if key.len() < 64 {
        return Err(Error::KeyTooShort);
    }
    if plaintext.len() > MAX_PLAINTEXT_LEN {
        return Err(Error::PlaintextTooLong);
    }
    let enc_key = slice_subrange(key, 0, 32);
    let mac_key = slice_subrange(key, 32, 64);
    let iv = random_bytes(16);
    let mut buffer = slice_to_vec(plaintext);
    let mut i: usize = 0;
    while i < 16
        invariant
            i <= 16,
            plaintext@.len() <= MAX_PLAINTEXT_LEN,
            buffer@.len() == plaintext@.len() + i,
            buffer@.take(plaintext@.len() as int) == plaintext@,
        decreases 16 - i,
    {
        buffer.push(0u8);
        i += 1;
    }
    let ct = aes256_cbc_encrypt(enc_key, iv.as_slice(), buffer, plaintext.len());
    let mac = hmac_sha256(mac_key, iv.as_slice(), ct.as_slice());
    let iv_text = base64_encode(iv.as_slice());
    let ct_text = base64_encode(ct.as_slice());
    let mac_text = base64_encode(mac.as_slice());
    let s = format_cipher_string(iv_text.as_str(), ct_text.as_str(), mac_text.as_str());
    proof {
        let body = iv_text@ + seq!['|'] + ct_text@ + seq!['|'] + mac_text@;
        assert(s@ == seq!['2', '.'] + iv_text@ + seq!['|'] + ct_text@ + seq!['|'] + mac_text@);
        assert(s@ == sealed_text(key@, iv@, plaintext@));
        assert(s@.skip(2) == body);
        assert(strip_cipher_prefix_spec(s@) == body);
        lemma_split_three(iv_text@, ct_text@, mac_text@);
        assert(base64_len(16) == 24);
        assert(base64_len(32) == 44);
        assert(ct@.len() >= 16);
        assert(base64_len(ct@.len()) >= 24);
    }
    Ok(s)
}

/// A cipher string whose three parts are base64, but whose MAC is not the
/// tag of its IV and ciphertext under the key, does not decrypt under a key
/// of 64 bytes or more: the MAC mismatch is reported, whatever the
/// ciphertext holds.
pub proof fn lemma_tampered_mac_is_rejected(
    text: Seq<char>,
    key: Seq<u8>,
    iv: Seq<u8>,
    ciphertext: Seq<u8>,
    mac: Seq<u8>,
)
    requires
        key.len() >= 64,
        cipher_parts_spec(text) is Ok,
        base64_decode_spec(cipher_parts_spec(text)->Ok_0.0) == Some(iv),
        base64_decode_spec(cipher_parts_spec(text)->Ok_0.1) == Some(ciphertext),
        base64_decode_spec(cipher_parts_spec(text)->Ok_0.2) == Some(mac),
        mac != hmac_sha256_spec(key.subrange(32, 64), iv + ciphertext),
    ensures
        decrypt_mac_spec(text, key) == Err::<Seq<u8>, Error>(Error::MacMismatch),
        Error::MacMismatch.kind_spec() == crate::error::ErrorKind::Crypto,
{
}

} // verus!
