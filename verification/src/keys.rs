//! The master key of a node: derived once from the operator's password, kept as
//! hexadecimal text beside the node, and held in memory in a container that wipes it.

use vstd::prelude::*;
use argon2::PasswordHasher;
use crate::bytes::copy_range;
use crate::error::StoreError;
use crate::params::KEY_LEN;
use crate::text::{trim_ascii, trimmed_ascii};

verus! {

/// The number that a hexadecimal digit of either case stands for; `None` for any other
/// byte.
pub open spec fn hex_value(digit: u8) -> Option<int> {
    if 48 <= digit <= 57 {
        Some(digit - 48)
    } else if 97 <= digit <= 102 {
        Some(digit - 87)
    } else if 65 <= digit <= 70 {
        Some(digit - 55)
    } else {
        None
    }
}

/// The lower-case hexadecimal digit of a number below 16.
pub open spec fn hex_digit(value: u8) -> u8 {
    if value < 10 {
        (48 + value) as u8
    } else {
        (87 + value) as u8
    }
}

/// The bytes that hexadecimal text spells, two digits to a byte; `None` for text of odd
/// length or with a byte that is no digit.
pub open spec fn hex_decoded(text: Seq<u8>) -> Option<Seq<u8>> {
    if text.len() % 2 != 0 || exists|i: int|
        0 <= i < text.len() && hex_value(#[trigger] text[i]) is None {
        None
    } else {
        Some(
            Seq::new(
                text.len() / 2,
                |i: int| (hex_value(text[2 * i])->0 * 16 + hex_value(text[2 * i + 1])->0) as u8,
            ),
        )
    }
}

/// The lower-case hexadecimal text of bytes, two digits to a byte.
pub open spec fn hex_encoded(bytes: Seq<u8>) -> Seq<u8> {
    Seq::new(
        2 * bytes.len(),
        |i: int|
            if i % 2 == 0 {
                hex_digit(bytes[i / 2] / 16)
            } else {
                hex_digit(bytes[i / 2] % 16)
            },
    )
}

/// Hexadecimal text spells the bytes that it was written from.
pub proof fn lemma_hex_round_trip(bytes: Seq<u8>)
    ensures
        hex_decoded(hex_encoded(bytes)) == Some(bytes),
{
    let text = hex_encoded(bytes);
    assert forall|i: int| 0 <= i < text.len() implies hex_value(#[trigger] text[i]) is Some by {
        let byte = bytes[i / 2];
        assert(0 <= byte / 16 < 16 && 0 <= byte % 16 < 16);
    }
    let back = hex_decoded(text)->0;
    assert(back.len() == bytes.len());
    assert forall|i: int| 0 <= i < bytes.len() implies back[i] == bytes[i] by {
        let byte = bytes[i];
        assert((2 * i) / 2 == i && (2 * i + 1) / 2 == i);
        assert((2 * i) % 2 == 0 && (2 * i + 1) % 2 == 1);
        assert(text[2 * i] == hex_digit(byte / 16));
        assert(text[2 * i + 1] == hex_digit(byte % 16));
        assert(hex_value(hex_digit(byte / 16)) == Some((byte / 16) as int));
        assert(hex_value(hex_digit(byte % 16)) == Some((byte % 16) as int));
    }
    assert(back =~= bytes);
}

/// The number that a hexadecimal digit stands for, if the byte is one.
fn digit_value(digit: u8) -> (value: Option<u8>)
    ensures
        match value {
            Some(v) => hex_value(digit) == Some(v as int) && v < 16,
            None => hex_value(digit) is None,
        },
{
    if 48 <= digit && digit <= 57 {
        Some(digit - 48)
    } else if 97 <= digit && digit <= 102 {
        Some(digit - 87)
    } else if 65 <= digit && digit <= 70 {
        Some(digit - 55)
    } else {
        None
    }
}

/// The lower-case hexadecimal digit of a number below 16.
fn digit_of(value: u8) -> (digit: u8)
    requires
        value < 16,
    ensures
        digit == hex_digit(value),
{
    if value < 10 {
        48 + value
    } else {
        87 + value
    }
}

/// Reads hexadecimal text: digits of either case, two to a byte, the first as the upper
/// half. Text of odd length, or with a byte that is no digit, is refused.
pub fn hex_decode(text: &[u8]) -> (res: Option<Vec<u8>>)
    ensures
        match res {
            Some(bytes) => hex_decoded(text@) == Some(bytes@),
            None => hex_decoded(text@) is None,
        },
{
    if text.len() % 2 != 0 {
        return None;
    }
    let count: usize = text.len() / 2;
    let mut bytes: Vec<u8> = Vec::new();
    let mut i: usize = 0;
    while i < count
        invariant
            i <= count,
            text@.len() == 2 * count <= usize::MAX,
            bytes@.len() == i,
            forall|k: int| 0 <= k < 2 * i ==> hex_value(#[trigger] text@[k]) is Some,
            forall|k: int|
                0 <= k < i ==> #[trigger] bytes@[k] == (hex_value(text@[2 * k])->0 * 16
                    + hex_value(text@[2 * k + 1])->0) as u8,
        decreases count - i,
    {
        let high = match digit_value(text[2 * i]) {
            Some(high) => high,
            None => {
                assert(hex_value(text@[2 * i]) is None);
                return None;
            },
        };
        let low = match digit_value(text[2 * i + 1]) {
            Some(low) => low,
            None => {
                assert(hex_value(text@[2 * i + 1]) is None);
                return None;
            },
        };
        bytes.push(high * 16 + low);
        i = i + 1;
    }
    assert(bytes@ =~= hex_decoded(text@)->0);
    Some(bytes)
}

/// Writes bytes as hexadecimal text: two lower-case digits to a byte, the upper half
/// first.
pub fn hex_encode(bytes: &[u8]) -> (text: Vec<u8>)
    ensures
        text@ == hex_encoded(bytes@),
{
    let mut text: Vec<u8> = Vec::new();
    let mut i: usize = 0;
    while i < bytes.len()
        invariant
            i <= bytes@.len(),
            text@.len() == 2 * i,
            forall|k: int| 0 <= k < 2 * i ==> #[trigger] text@[k] == hex_encoded(bytes@)[k],
        decreases bytes@.len() - i,
    {
        let byte: u8 = bytes[i];
        text.push(digit_of(byte / 16));
        text.push(digit_of(byte % 16));
        i = i + 1;
    }
    assert(text@ =~= hex_encoded(bytes@));
    text
}

/// A byte buffer in the container `Zeroizing` of the crate zeroize, which overwrites what
/// it holds with zeros when it is dropped.
#[verifier::external_body]
pub struct Wiped {
    held: zeroize::Zeroizing<Vec<u8>>,
}

/// The bytes that a wiping container holds.
pub uninterp spec fn wiped_bytes(wiped: Wiped) -> Seq<u8>;

/// Calls `Zeroizing::new` of the crate zeroize.
///
/// The contract claims that the container holds the bytes that it was given.
#[verifier::external_body]
fn wiped_new(bytes: Vec<u8>) -> (wiped: Wiped)
    ensures
        wiped_bytes(wiped) == bytes@,
{
    Wiped { held: zeroize::Zeroizing::new(bytes) }
}

/// Calls `Deref::deref` of `Zeroizing`.
///
/// The contract claims that the slice shows the bytes that the container holds.
#[verifier::external_body]
fn wiped_slice(wiped: &Wiped) -> (bytes: &[u8])
    ensures
        bytes@ == wiped_bytes(*wiped),
{
    wiped.held.as_slice()
}

/// The key under which a node seals its manifests: 32 bytes that never leave the node and
/// are wiped from memory when the key is dropped.
pub struct MasterKey {
    held: Wiped,
}

impl View for MasterKey {
    type V = Seq<u8>;

    closed spec fn view(&self) -> Seq<u8> {
        wiped_bytes(self.held)
    }
}

impl MasterKey {
    /// A master key has 32 bytes.
    #[verifier::type_invariant]
    closed spec fn inv(&self) -> bool {
        wiped_bytes(self.held).len() == KEY_LEN
    }

    /// Takes 32 bytes as a master key; `None` for any other number of bytes.
    pub fn from_bytes(bytes: Vec<u8>) -> (res: Option<MasterKey>)
        ensures
            res is Some <==> bytes@.len() == KEY_LEN,
            res matches Some(key) ==> key@ == bytes@,
    {
        if bytes.len() != KEY_LEN {
            return None;
        }
        Some(MasterKey { held: wiped_new(bytes) })
    }

    /// The bytes of the key.
    pub fn as_bytes(&self) -> (bytes: &[u8])
        ensures
            bytes@ == self@,
            bytes@.len() == KEY_LEN,
    {
        proof {
            use_type_invariant(self);
        }
        wiped_slice(&self.held)
    }

    /// The text that is written to the key file: the key in lower-case hexadecimal.
    pub fn to_hex(&self) -> (text: Vec<u8>)
        ensures
            text@ == hex_encoded(self@),
            key_file_outcome(text@) == Ok::<Seq<u8>, StoreError>(self@),
    {
        let text = hex_encode(self.as_bytes());
        proof {
            lemma_hex_round_trip(self@);
            lemma_hex_text_is_trimmed(self@);
        }
        text
    }
}

/// Hexadecimal text has no white space at its ends.
proof fn lemma_hex_text_is_trimmed(bytes: Seq<u8>)
    ensures
        trimmed_ascii(hex_encoded(bytes)) == hex_encoded(bytes),
{
    let text = hex_encoded(bytes);
    if text.len() > 0 {
        let first = bytes[0];
        assert(0 <= first / 16 < 16);
        assert(text[0] == hex_digit(first / 16));
        let last = bytes[bytes.len() - 1];
        assert(0 <= last % 16 < 16);
        let at = text.len() - 1;
        assert(at % 2 == 1 && at / 2 == bytes.len() - 1);
        assert(text[at] == hex_digit(last % 16));
    }
}

/// What the contents of a key file give: the 32 bytes that the text spells in hexadecimal,
/// ASCII white space around it set aside. Anything else is an invalid key file.
pub open spec fn key_file_outcome(contents: Seq<u8>) -> Result<Seq<u8>, StoreError> {
    match hex_decoded(trimmed_ascii(contents)) {
        Some(bytes) => if bytes.len() == KEY_LEN {
            Ok(bytes)
        } else {
            Err(StoreError::InvalidKeyFile)
        },
        None => Err(StoreError::InvalidKeyFile),
    }
}

/// Reads the master key from the contents of its file.
pub fn parse_key_file(contents: &[u8]) -> (res: Result<MasterKey, StoreError>)
    ensures
        match res {
            Ok(key) => key_file_outcome(contents@) == Ok::<Seq<u8>, StoreError>(key@),
            Err(e) => key_file_outcome(contents@) == Err::<Seq<u8>, StoreError>(e),
        },
{
    let text = trim_ascii(contents);
    let bytes = match hex_decode(text.as_slice()) {
        Some(bytes) => bytes,
        None => {
            return Err(StoreError::InvalidKeyFile);
        },
    };
    match MasterKey::from_bytes(bytes) {
        Some(key) => Ok(key),
        None => Err(StoreError::InvalidKeyFile),
    }
}

/// The raw hash that Argon2id, with the parameters that the crate argon2 takes by default,
/// gives for a password and a salt in its B64 text form; `None` where the crate refuses the
/// salt or the password.
pub uninterp spec fn argon2id_hash(password: Seq<u8>, salt: Seq<char>) -> Option<Seq<u8>>;

/// Calls `SaltString::from_b64`, `Argon2::default` and `PasswordHasher::hash_password` of
/// the crate argon2, and takes the bytes of the hash.
///
/// The contract names the result and claims of it only that a hash has the 32 bytes that
/// the crate puts out by default.
#[verifier::external_body]
fn argon2_hash(password: &[u8], salt: &str) -> (res: Option<Vec<u8>>)
    ensures
        match res {
            Some(hash) => argon2id_hash(password@, salt@) == Some(hash@),
            None => argon2id_hash(password@, salt@) is None,
        },
        res matches Some(hash) ==> hash@.len() == 32,
{
    let salt = argon2::password_hash::SaltString::from_b64(salt).ok()?;
    let hash = argon2::Argon2::default().hash_password(password, &salt).ok()?;
    hash.hash.map(|output| output.as_bytes().to_vec())
}

/// Calls `SaltString::generate` of the crate argon2 on `rand::thread_rng`, and takes the
/// salt as text.
///
/// The contract claims nothing of the salt.
#[verifier::external_body]
fn random_salt() -> (salt: String)
{
    argon2::password_hash::SaltString::generate(&mut rand::thread_rng()).as_str().to_string()
}

/// What deriving a key from a password and a salt gives: the first 32 bytes of the
/// password's hash. An empty password is refused; a hash that is refused or too short
/// gives no key.
pub open spec fn derived_key(password: Seq<u8>, salt: Seq<char>) -> Result<Seq<u8>, StoreError> {
    if password.len() == 0 {
        Err(StoreError::EmptyPassword)
    } else {
        match argon2id_hash(password, salt) {
            Some(hash) => if hash.len() >= KEY_LEN {
                Ok(hash.take(KEY_LEN as int))
            } else {
                Err(StoreError::KeyDerivation)
            },
            None => Err(StoreError::KeyDerivation),
        }
    }
}

/// Makes a master key of a password hash; `None` where the hash has fewer than 32 bytes.
pub fn key_from_hash(hash: &[u8]) -> (res: Option<MasterKey>)
    ensures
        res is Some <==> hash@.len() >= KEY_LEN,
        res matches Some(key) ==> key@ == hash@.take(KEY_LEN as int),
{
    if hash.len() < KEY_LEN {
        return None;
    }
    let bytes = copy_range(hash, 0, KEY_LEN);
    MasterKey::from_bytes(bytes)
}

/// Derives the master key from the operator's password and a given salt.
pub fn derive_key_with_salt(password: &[u8], salt: &str) -> (res: Result<MasterKey, StoreError>)
    ensures
        match res {
            Ok(key) => derived_key(password@, salt@) == Ok::<Seq<u8>, StoreError>(key@),
            Err(e) => derived_key(password@, salt@) == Err::<Seq<u8>, StoreError>(e),
        },
{
    if password.len() == 0 {
        return Err(StoreError::EmptyPassword);
    }
    let hash = match argon2_hash(password, salt) {
        Some(hash) => hash,
        None => {
            return Err(StoreError::KeyDerivation);
        },
    };
    match key_from_hash(hash.as_slice()) {
        Some(key) => Ok(key),
        None => Err(StoreError::KeyDerivation),
    }
}

/// Derives the master key from the operator's password and a fresh random salt.
///
/// An empty password is refused. Which salt is drawn is not determined; whichever it is,
/// the outcome is that of `derive_key_with_salt` under it.
pub fn derive_key(password: &[u8]) -> (res: Result<MasterKey, StoreError>)
    ensures
        password@.len() == 0 <==> res matches Err(StoreError::EmptyPassword),
        res matches Ok(key) ==> exists|salt: Seq<char>|
            #[trigger] derived_key(password@, salt) == Ok::<Seq<u8>, StoreError>(key@),
        res matches Err(e) ==> exists|salt: Seq<char>|
            #[trigger] derived_key(password@, salt) == Err::<Seq<u8>, StoreError>(e),
{
    if password.len() == 0 {
        return Err(StoreError::EmptyPassword);
    }
    let salt = random_salt();
    derive_key_with_salt(password, salt.as_str())
}

} // verus!
