//! The desktop app's encrypted files: how their key is unwrapped, and how they
//! are opened.

use crate::auth::{Error, ErrorView};
use crate::json;
use crate::text;
use crate::text::{to_decimal, trim_end};
use aes_gcm::aead::{AeadInOut, KeyInit};
use base64::prelude::Engine;
use cbc::cipher::{BlockModeDecrypt, KeyIvInit};
use vstd::prelude::*;

verus! {

/// The rounds by which the key of the safe storage is derived.
pub const SAFE_STORAGE_ROUNDS: u32 = 1003;

/// The length of the key of an encrypted file.
pub const KEY_LENGTH: usize = 32;

/// The length of the nonce that an encrypted file begins with.
pub const NONCE_LENGTH: usize = 12;

/// The length of the tag that an encrypted file ends with.
pub const TAG_LENGTH: usize = 16;

// ---- Outside ----------------------------------------------------------------

/// The key of 16 bytes that PBKDF2 with HMAC-SHA1 derives from a password, a
/// salt and a number of rounds.
pub uninterp spec fn derived_key(password: Seq<char>, salt: Seq<u8>, rounds: u32) -> Seq<u8>;

/// `pbkdf2::pbkdf2_hmac` with SHA-1, into 16 bytes: the key that
/// [`derived_key`] names.
#[verifier::external_body]
fn derive_key(password: &str, salt: &Vec<u8>, rounds: u32) -> (r: Vec<u8>)
    ensures
        r@ == derived_key(password@, salt@, rounds),
        r@.len() == 16,
{
    let mut key = [0u8; 16];
    pbkdf2::pbkdf2_hmac::<sha1::Sha1>(password.as_bytes(), salt, rounds, &mut key);
    key.to_vec()
}

/// What AES-128 in CBC mode with PKCS#7 padding decrypts, if the padding is
/// right.
pub uninterp spec fn cbc_opened(key: Seq<u8>, iv: Seq<u8>, sealed: Seq<u8>) -> Option<Seq<u8>>;

/// `cbc::Decryptor<Aes128>::decrypt_padded_vec` with `Pkcs7`: the bytes that
/// [`cbc_opened`] names.
#[verifier::external_body]
fn open_cbc(key: &Vec<u8>, iv: &Vec<u8>, sealed: &[u8]) -> (r: Option<Vec<u8>>)
    requires
        key@.len() == 16,
        iv@.len() == 16,
    ensures
        json::seen(r) == cbc_opened(key@, iv@, sealed@),
{
    let cipher = cbc::Decryptor::<aes::Aes128>::new_from_slices(key, iv).ok()?;
    cipher.decrypt_padded_vec::<cbc::cipher::block_padding::Pkcs7>(sealed).ok()
}

/// What AES-256 in GCM mode decrypts with no associated data, if the tag is
/// right.
pub uninterp spec fn gcm_opened(
    key: Seq<u8>,
    nonce: Seq<u8>,
    sealed: Seq<u8>,
    tag: Seq<u8>,
) -> Option<Seq<u8>>;

/// `aes_gcm::Aes256Gcm::decrypt_inout_detached` with no associated data: the
/// bytes that [`gcm_opened`] names.
#[verifier::external_body]
fn open_gcm(key: &[u8], nonce: &[u8], sealed: &[u8], tag: &[u8]) -> (r: Option<Vec<u8>>)
    requires
        key@.len() == 32,
        nonce@.len() == 12,
        tag@.len() == 16,
    ensures
        json::seen(r) == gcm_opened(key@, nonce@, sealed@, tag@),
{
    let cipher = aes_gcm::Aes256Gcm::new_from_slice(key).ok()?;
    let nonce = aes_gcm::Nonce::try_from(nonce).ok()?;
    let tag = aes_gcm::Tag::try_from(tag).ok()?;
    let mut data = sealed.to_vec();
    let buffer = data.as_mut_slice().into();
    cipher.decrypt_inout_detached(&nonce, b"", buffer, &tag).ok()?;
    Some(data)
}

/// The bytes that a text of standard Base64 writes, or what is said of a text
/// that writes none.
pub uninterp spec fn base64_bytes(s: Seq<char>) -> Result<Seq<u8>, Seq<char>>;

/// `base64::prelude::BASE64_STANDARD.decode`: the bytes, or the displayed
/// error, that [`base64_bytes`] names.
#[verifier::external_body]
fn read_base64(s: &str) -> (r: Result<Vec<u8>, String>)
    ensures
        match r {
            Ok(v) => base64_bytes(s@) == Ok::<Seq<u8>, Seq<char>>(v@),
            Err(e) => base64_bytes(s@) == Err::<Seq<u8>, Seq<char>>(e@),
        },
{
    base64::prelude::BASE64_STANDARD.decode(s).map_err(|e| e.to_string())
}

/// What is said of bytes that are no UTF-8.
pub uninterp spec fn utf8_complaint(bytes: Seq<u8>) -> Seq<char>;

/// `String::from_utf8`: the text of bytes that are UTF-8, and for others the
/// displayed error, which [`utf8_complaint`] names.
#[verifier::external_body]
fn read_utf8(bytes: Vec<u8>) -> (r: Result<String, String>)
    ensures
        match r {
            Ok(s) => vstd::utf8::valid_utf8(bytes@) && s@ == vstd::utf8::decode_utf8(bytes@),
            Err(e) => !vstd::utf8::valid_utf8(bytes@) && e@ == utf8_complaint(bytes@),
        },
{
    String::from_utf8(bytes).map_err(|e| e.to_string())
}

// ---- The wrapped key --------------------------------------------------------

/// The salt of the safe storage.
pub open spec fn safe_storage_salt() -> Seq<u8> {
    seq![115u8, 97u8, 108u8, 116u8, 121u8, 115u8, 97u8, 108u8, 116u8]
}

/// The initial block of the safe storage: spaces.
pub open spec fn safe_storage_iv() -> Seq<u8> {
    Seq::new(16, |i: int| 32u8)
}

/// The mark that a value of the safe storage may begin with.
pub open spec fn safe_storage_mark() -> Seq<u8> {
    seq![118u8, 49u8, 48u8]
}

/// Bytes without the mark that they may begin with.
pub open spec fn unmarked(v: Seq<u8>) -> Seq<u8> {
    if v.len() >= 3 && v.take(3) == safe_storage_mark() {
        v.skip(3)
    } else {
        v
    }
}

/// The text of decrypted bytes, or an error that begins with the given words.
pub open spec fn text_of(bytes: Seq<u8>, words: Seq<char>) -> Result<Seq<char>, Seq<char>> {
    if vstd::utf8::valid_utf8(bytes) {
        Ok(vstd::utf8::decode_utf8(bytes))
    } else {
        Err(words + utf8_complaint(bytes))
    }
}

/// The text of a value of the safe storage, given what was decrypted of it.
pub open spec fn safe_storage_text(opened: Option<Seq<u8>>) -> Result<Seq<char>, Seq<char>> {
    match opened {
        Some(bytes) => text_of(bytes, "Granola safe-storage key was not valid UTF-8: "@),
        None => Err("could not decrypt Granola safe-storage key: Padding error"@),
    }
}

/// The text of a value of the safe storage under a password.
pub open spec fn safe_storage_value(value: Seq<u8>, password: Seq<char>) -> Result<
    Seq<char>,
    Seq<char>,
> {
    safe_storage_text(
        cbc_opened(
            derived_key(password, safe_storage_salt(), SAFE_STORAGE_ROUNDS),
            safe_storage_iv(),
            unmarked(value),
        ),
    )
}

/// Whether a result is as stated; an error is one of encrypted files.
pub open spec fn is_result(r: Result<Seq<char>, ErrorView>, want: Result<Seq<char>, Seq<char>>) -> bool {
    match want {
        Ok(s) => r == Ok::<Seq<char>, ErrorView>(s),
        Err(e) => r == Err::<Seq<char>, ErrorView>(ErrorView::EncryptedDesktopCredentials(e)),
    }
}

/// What a result with a text says.
pub open spec fn text_result(r: Result<String, Error>) -> Result<Seq<char>, ErrorView> {
    match r {
        Ok(s) => Ok(s@),
        Err(e) => Err(e@),
    }
}

/// An error of encrypted files, in two parts.
fn broken(words: &str, cause: &str) -> (r: Error)
    ensures
        r@ == ErrorView::EncryptedDesktopCredentials(words@ + cause@),
{
    let mut out: String = words.to_owned();
    out.append(cause);
    Error::EncryptedDesktopCredentials(out)
}

/// The text of decrypted bytes, or an error that begins with the given words.
pub fn read_text(bytes: Vec<u8>, words: &str) -> (r: Result<String, Error>)
    ensures
        is_result(text_result(r), text_of(bytes@, words@)),
{
    match read_utf8(bytes) {
        Ok(s) => Ok(s),
        Err(e) => Err(broken(words, e.as_str())),
    }
}

/// The text of a value of the safe storage, given what was decrypted of it.
pub fn read_safe_storage(opened: Option<Vec<u8>>) -> (r: Result<String, Error>)
    ensures
        is_result(text_result(r), safe_storage_text(json::seen(opened))),
{
    match opened {
        Some(bytes) => read_text(bytes, "Granola safe-storage key was not valid UTF-8: "),
        None => Err(
            Error::EncryptedDesktopCredentials(
                "could not decrypt Granola safe-storage key: Padding error".to_owned(),
            ),
        ),
    }
}

/// Bytes without the mark that they may begin with.
fn unmark<'a>(v: &'a Vec<u8>) -> (r: &'a [u8])
    ensures
        r@ == unmarked(v@),
{
    if v.len() >= 3 && v[0] == 118 && v[1] == 49 && v[2] == 48 {
        assert(v@.take(3) =~= safe_storage_mark());
        let rest = vstd::slice::slice_subrange(v.as_slice(), 3, v.len());
        assert(rest@ =~= v@.skip(3));
        rest
    } else {
        proof {
            if v@.len() >= 3 && v@.take(3) == safe_storage_mark() {
                assert(v@.take(3)[0] == v@[0] && v@.take(3)[1] == v@[1] && v@.take(3)[2] == v@[2]);
            }
        }
        v.as_slice()
    }
}

/// The text of a value of the safe storage of macOS under a password.
pub fn decrypt_mac_safe_storage_value(encrypted_value: &Vec<u8>, password: &str) -> (r: Result<
    String,
    Error,
>)
    ensures
        is_result(text_result(r), safe_storage_value(encrypted_value@, password@)),
{
    let salt: Vec<u8> = vec![115, 97, 108, 116, 121, 115, 97, 108, 116];
    let iv: Vec<u8> = vec![32, 32, 32, 32, 32, 32, 32, 32, 32, 32, 32, 32, 32, 32, 32, 32];
    assert(salt@ =~= safe_storage_salt());
    assert(iv@ =~= safe_storage_iv());
    let key = derive_key(password, &salt, SAFE_STORAGE_ROUNDS);
    read_safe_storage(open_cbc(&key, &iv, unmark(encrypted_value)))
}

/// The key in the text of an unwrapped key, given what Base64 reads in it.
pub open spec fn key_in(bytes: Result<Seq<u8>, Seq<char>>) -> Result<Seq<u8>, Seq<char>> {
    match bytes {
        Ok(v) => if v.len() == KEY_LENGTH {
            Ok(v)
        } else {
            Err(
                "Granola storage key decoded to "@ + text::decimal(v.len())
                    + " bytes; expected 32"@,
            )
        },
        Err(e) => Err("Granola storage key was not valid base64: "@ + e),
    }
}

/// The key of the encrypted files, unwrapped under a password: the text of the
/// wrapped value, read as Base64 without white space at its end.
pub open spec fn unwrapped_key(wrapped: Seq<u8>, password: Seq<char>) -> Result<
    Seq<u8>,
    Seq<char>,
> {
    match safe_storage_value(wrapped, password) {
        Ok(s) => key_in(base64_bytes(text::trim_back(s))),
        Err(e) => Err(e),
    }
}

/// The key in the text of an unwrapped key, given what Base64 reads in it.
pub fn check_key(bytes: Result<Vec<u8>, String>) -> (r: Result<Vec<u8>, Error>)
    ensures
        match key_in(
            match bytes {
                Ok(v) => Ok(v@),
                Err(e) => Err(e@),
            },
        ) {
            Ok(key) => r matches Ok(v) && v@ == key && key.len() == KEY_LENGTH,
            Err(e) => r matches Err(f) && f@ == ErrorView::EncryptedDesktopCredentials(e),
        },
{
    match bytes {
        Ok(key) => if key.len() == KEY_LENGTH {
            Ok(key)
        } else {
            let mut out: String = "Granola storage key decoded to ".to_owned();
            out.append(to_decimal(key.len() as u64).as_str());
            out.append(" bytes; expected 32");
            Err(Error::EncryptedDesktopCredentials(out))
        },
        Err(e) => Err(broken("Granola storage key was not valid base64: ", e.as_str())),
    }
}

/// The key of the encrypted files, unwrapped under a password.
pub fn unwrap_storage_key(wrapped: &Vec<u8>, password: &str) -> (r: Result<Vec<u8>, Error>)
    ensures
        match unwrapped_key(wrapped@, password@) {
            Ok(key) => r matches Ok(v) && v@ == key && key.len() == KEY_LENGTH,
            Err(e) => r matches Err(f) && f@ == ErrorView::EncryptedDesktopCredentials(e),
        },
{
    let text = match decrypt_mac_safe_storage_value(wrapped, password) {
        Ok(s) => s,
        Err(e) => {
            return Err(e);
        },
    };
    check_key(read_base64(trim_end(text.as_str()).as_str()))
}

// ---- Encrypted files --------------------------------------------------------

/// The text of an encrypted file, given what was decrypted of it.
pub open spec fn storage_text(opened: Option<Seq<u8>>) -> Result<Seq<char>, Seq<char>> {
    match opened {
        Some(bytes) => text_of(bytes, "Granola desktop storage was not valid UTF-8: "@),
        None => Err("could not decrypt Granola desktop storage: aead::Error"@),
    }
}

/// The text of an encrypted file under a key: a nonce, the sealed bytes, and
/// their tag.
pub open spec fn storage_value(value: Seq<u8>, key: Seq<u8>) -> Result<Seq<char>, Seq<char>> {
    if key.len() != KEY_LENGTH {
        Err(
            "invalid Granola storage key length: expected 32 bytes, got "@ + text::decimal(
                key.len(),
            ),
        )
    } else if value.len() < NONCE_LENGTH + TAG_LENGTH {
        Err("encrypted Granola storage payload was too short"@)
    } else {
        storage_text(
            gcm_opened(
                key,
                value.take(NONCE_LENGTH as int),
                value.subrange(NONCE_LENGTH as int, value.len() - TAG_LENGTH),
                value.skip(value.len() - TAG_LENGTH),
            ),
        )
    }
}

/// The text of an encrypted file, given what was decrypted of it.
pub fn read_storage(opened: Option<Vec<u8>>) -> (r: Result<String, Error>)
    ensures
        is_result(text_result(r), storage_text(json::seen(opened))),
{
    match opened {
        Some(bytes) => read_text(bytes, "Granola desktop storage was not valid UTF-8: "),
        None => Err(
            Error::EncryptedDesktopCredentials(
                "could not decrypt Granola desktop storage: aead::Error".to_owned(),
            ),
        ),
    }
}

/// The text of an encrypted file under a key.
pub fn decrypt_granola_storage(encrypted_value: &Vec<u8>, dek: &Vec<u8>) -> (r: Result<
    String,
    Error,
>)
    ensures
        is_result(text_result(r), storage_value(encrypted_value@, dek@)),
{
    if dek.len() != KEY_LENGTH {
        return Err(
            broken(
                "invalid Granola storage key length: expected 32 bytes, got ",
                to_decimal(dek.len() as u64).as_str(),
            ),
        );
    }
    if encrypted_value.len() < NONCE_LENGTH + TAG_LENGTH {
        return Err(
            Error::EncryptedDesktopCredentials(
                "encrypted Granola storage payload was too short".to_owned(),
            ),
        );
    }
    let n = encrypted_value.len();
    let all = encrypted_value.as_slice();
    let nonce = vstd::slice::slice_subrange(all, 0, NONCE_LENGTH);
    let sealed = vstd::slice::slice_subrange(all, NONCE_LENGTH, n - TAG_LENGTH);
    let tag = vstd::slice::slice_subrange(all, n - TAG_LENGTH, n);
    assert(nonce@ =~= encrypted_value@.take(NONCE_LENGTH as int));
    assert(tag@ =~= encrypted_value@.skip(n - TAG_LENGTH));
    read_storage(open_gcm(dek.as_slice(), nonce, sealed, tag))
}

// ---- What holds of encrypted files ------------------------------------------

/// An encrypted file is a nonce of twelve bytes, the sealed bytes, and a tag of
/// sixteen; under a key of thirty-two its text is what the cipher opens.
pub proof fn law_file_is_nonce_sealed_tag(
    nonce: Seq<u8>,
    sealed: Seq<u8>,
    tag: Seq<u8>,
    key: Seq<u8>,
    plain: Seq<u8>,
)
    requires
        nonce.len() == 12,
        tag.len() == 16,
        key.len() == 32,
    ensures
        gcm_opened(key, nonce, sealed, tag) == Some(plain) && vstd::utf8::valid_utf8(plain)
            ==> storage_value(nonce + sealed + tag, key) == Ok::<Seq<char>, Seq<char>>(
            vstd::utf8::decode_utf8(plain),
        ),
        gcm_opened(key, nonce, sealed, tag) == Some(plain) && !vstd::utf8::valid_utf8(plain)
            ==> storage_value(nonce + sealed + tag, key) is Err,
        gcm_opened(key, nonce, sealed, tag) is None ==> storage_value(
            nonce + sealed + tag,
            key,
        ) is Err,
{
    let all = nonce + sealed + tag;
    assert(all.take(12) =~= nonce);
    assert(all.subrange(12, all.len() - 16) =~= sealed);
    assert(all.skip(all.len() - 16) =~= tag);
}

/// A key of another length opens nothing, and neither does any key what is too
/// short for a nonce and a tag.
pub proof fn law_wrong_lengths_are_refused(value: Seq<u8>, key: Seq<u8>)
    ensures
        key.len() != 32 ==> storage_value(value, key) is Err,
        value.len() < 28 ==> storage_value(value, key) is Err,
{
}

/// The wrapped key is opened under the password, with the salt `saltysalt`, 1003
/// rounds and a block of spaces, whether or not it begins with the mark `v10`;
/// its text is Base64 of thirty-two bytes, and blanks at its end do not matter.
pub proof fn law_key_is_unwrapped(
    sealed: Seq<u8>,
    password: Seq<char>,
    iv: Seq<u8>,
    plain: Seq<u8>,
    key: Seq<u8>,
)
    requires
        iv.len() == 16,
        forall|i: int| 0 <= i < 16 ==> #[trigger] iv[i] == 32,
        cbc_opened(
            derived_key(
                password,
                seq![115u8, 97u8, 108u8, 116u8, 121u8, 115u8, 97u8, 108u8, 116u8],
                1003,
            ),
            iv,
            sealed,
        ) == Some(plain),
        vstd::utf8::valid_utf8(plain),
        base64_bytes(text::trim_back(vstd::utf8::decode_utf8(plain))) == Ok::<Seq<u8>, Seq<char>>(
            key,
        ),
    ensures
        key.len() == 32 ==> unwrapped_key(seq![118u8, 49u8, 48u8] + sealed, password) == Ok::<
            Seq<u8>,
            Seq<char>,
        >(key),
        key.len() == 32 && !(sealed.len() >= 3 && sealed[0] == 118 && sealed[1] == 49 && sealed[2]
            == 48) ==> unwrapped_key(sealed, password) == Ok::<Seq<u8>, Seq<char>>(key),
        key.len() != 32 ==> unwrapped_key(seq![118u8, 49u8, 48u8] + sealed, password) is Err,
{
    let marked = seq![118u8, 49u8, 48u8] + sealed;
    assert(marked.take(3) =~= safe_storage_mark());
    assert(marked.skip(3) =~= sealed);
    assert(iv =~= safe_storage_iv());
    if sealed.len() >= 3 && sealed.take(3) == safe_storage_mark() {
        assert(sealed.take(3)[0] == sealed[0] && sealed.take(3)[1] == sealed[1] && sealed.take(
            3,
        )[2] == sealed[2]);
    }
}

/// A key that comes out of the unwrapping has thirty-two bytes.
pub proof fn law_unwrapped_keys_fit(wrapped: Seq<u8>, password: Seq<char>)
    ensures
        unwrapped_key(wrapped, password) matches Ok(key) ==> key.len() == 32,
{
}

/// What stands in the way is told in words of its own.
pub proof fn law_failures_are_told(
    bytes: Seq<u8>,
    value: Seq<u8>,
    key: Seq<u8>,
    s: Seq<char>,
    words: Seq<char>,
)
    ensures
        safe_storage_text(None) == Err::<Seq<char>, Seq<char>>(
            "could not decrypt Granola safe-storage key: Padding error"@,
        ),
        storage_text(None) == Err::<Seq<char>, Seq<char>>(
            "could not decrypt Granola desktop storage: aead::Error"@,
        ),
        vstd::utf8::valid_utf8(bytes) ==> {
            let text = vstd::utf8::decode_utf8(bytes);
            &&& text_of(bytes, words) == Ok::<Seq<char>, Seq<char>>(text)
            &&& safe_storage_text(Some(bytes)) == Ok::<Seq<char>, Seq<char>>(text)
            &&& storage_text(Some(bytes)) == Ok::<Seq<char>, Seq<char>>(text)
        },
        !vstd::utf8::valid_utf8(bytes) ==> {
            &&& text_of(bytes, words) == Err::<Seq<char>, Seq<char>>(words + utf8_complaint(bytes))
            &&& safe_storage_text(Some(bytes)) == Err::<Seq<char>, Seq<char>>(
                "Granola safe-storage key was not valid UTF-8: "@ + utf8_complaint(bytes),
            )
            &&& storage_text(Some(bytes)) == Err::<Seq<char>, Seq<char>>(
                "Granola desktop storage was not valid UTF-8: "@ + utf8_complaint(bytes),
            )
        },
        key_in(Err(s)) == Err::<Seq<u8>, Seq<char>>(
            "Granola storage key was not valid base64: "@ + s,
        ),
        bytes.len() == 32 ==> key_in(Ok(bytes)) == Ok::<Seq<u8>, Seq<char>>(bytes),
        bytes.len() != 32 ==> key_in(Ok(bytes)) == Err::<Seq<u8>, Seq<char>>(
            "Granola storage key decoded to "@ + text::decimal(bytes.len())
                + " bytes; expected 32"@,
        ),
        key.len() != 32 ==> storage_value(value, key) == Err::<Seq<char>, Seq<char>>(
            "invalid Granola storage key length: expected 32 bytes, got "@ + text::decimal(
                key.len(),
            ),
        ),
        key.len() == 32 && value.len() < 28 ==> storage_value(value, key) == Err::<
            Seq<char>,
            Seq<char>,
        >("encrypted Granola storage payload was too short"@),
{
}

/// A result is as stated only if it is the text, or the error with the words.
pub proof fn law_results_are_as_stated(
    r: Result<Seq<char>, ErrorView>,
    s: Seq<char>,
    t: Result<String, Error>,
)
    ensures
        is_result(r, Ok(s)) <==> r == Ok::<Seq<char>, ErrorView>(s),
        is_result(r, Err(s)) <==> r == Err::<Seq<char>, ErrorView>(
            ErrorView::EncryptedDesktopCredentials(s),
        ),
        t matches Ok(x) ==> text_result(t) == Ok::<Seq<char>, ErrorView>(x@),
        t matches Err(e) ==> text_result(t) == Err::<Seq<char>, ErrorView>(e@),
{
}

} // verus!
