//! Persistent secret keys, so that an endpoint keeps its id across restarts.

use vstd::prelude::*;
use vstd::string::StringExecFns;

use crate::text::join3;

verus! {

/// How long a secret key is.
pub const KEY_LEN: usize = 32;

/// `<iroh::SecretKey as TryFrom<&[u8]>>::try_from` takes exactly the byte
/// strings of 32 bytes, and `iroh::SecretKey::to_bytes` gives the same bytes
/// back.
#[verifier::external_body]
fn parse_secret_key(bytes: &[u8]) -> (res: Option<[u8; 32]>)
    ensures
        res is Some <==> bytes@.len() == 32,
        res matches Some(key) ==> key@ == bytes@,
{
    iroh::SecretKey::try_from(bytes).ok().map(|key| key.to_bytes())
}

/// `iroh::SecretKey::generate` makes a fresh key; which one is chance, so
/// nothing is stated of it.
#[verifier::external_body]
fn generate_secret_key() -> (res: [u8; 32]) {
    iroh::SecretKey::generate().to_bytes()
}

/// What reading the key file gave.
#[derive(Debug, Clone)]
pub enum KeyFile {
    /// The file holds these bytes.
    Found(Vec<u8>),
    /// There is no such file.
    Missing,
    /// The file could not be read, for this reason.
    Unreadable(String),
}

/// What to do about the key.
#[derive(Debug, Clone)]
pub enum KeyStep {
    /// Use the key that was persisted.
    Use([u8; 32]),
    /// Persist this fresh key, readable by its owner only, and use it.
    Create([u8; 32]),
    /// Give up.
    Fail(String),
}

/// Decide what to do about the key file of `owner` (the role it belongs to).
///
/// A persisted key is reused, so the endpoint id stays stable; a missing one
/// is created; a file that holds no key is never overwritten.
pub fn load_or_create_key(owner: &str, file: &KeyFile) -> (res: KeyStep)
    ensures
        match *file {
            KeyFile::Found(bytes) => if bytes@.len() == KEY_LEN {
                res matches KeyStep::Use(key) && key@ == bytes@
            } else {
                res matches KeyStep::Fail(e) && e@ == "parse "@ + owner@
                    + " key file: invalid length"@
            },
            KeyFile::Missing => res is Create,
            KeyFile::Unreadable(cause) => res matches KeyStep::Fail(e) && e@ == "read "@ + owner@
                + " key file: "@ + cause@,
        },
{
    match file {
        KeyFile::Found(bytes) => match parse_secret_key(bytes.as_slice()) {
            Some(key) => KeyStep::Use(key),
            None => KeyStep::Fail(join3("parse ", owner, " key file: invalid length")),
        },
        KeyFile::Missing => KeyStep::Create(generate_secret_key()),
        KeyFile::Unreadable(cause) => {
            let mut out = join3("read ", owner, " key file: ");
            out.append(cause.as_str());
            KeyStep::Fail(out)
        },
    }
}

/// The mode of a key file: readable and writable by its owner only.
pub const OWNER_ONLY: u32 = 0o600;

/// Whether a mode lets anyone but the owner at the file.
pub open spec fn open_to_others(mode: u32) -> bool {
    mode % 0o100 != 0
}

/// The mode to set on an existing key file, where it is open beyond its
/// owner.
pub fn restrict_key_permissions(mode: u32) -> (res: Option<u32>)
    ensures
        res == (if open_to_others(mode) {
            Some(OWNER_ONLY)
        } else {
            None
        }),
{
    assert((mode & 0o077 != 0) == (mode % 0o100 != 0)) by (bit_vector);
    if mode & 0o077 != 0 {
        Some(OWNER_ONLY)
    } else {
        None
    }
}

/// After the restriction a key file is closed to everyone but its owner.
pub proof fn law_restricted_is_owner_only(mode: u32)
    ensures
        !open_to_others(
            if open_to_others(mode) {
                OWNER_ONLY
            } else {
                mode
            },
        ),
{
}

/// A key file is open to others exactly where its mode has a bit set for the
/// group or for everyone else; a restricted one has those for reading and
/// writing by its owner alone. A key is 32 bytes.
pub proof fn law_key_file_modes(mode: u32)
    ensures
        open_to_others(mode) <==> mode & 0o077 != 0,
        OWNER_ONLY == 0o600,
        OWNER_ONLY & 0o077 == 0,
        KEY_LEN == 32,
{
    assert((mode & 0o077 != 0) == (mode % 0o100 != 0)) by (bit_vector);
    assert(0o600u32 & 0o077 == 0) by (bit_vector);
}

} // verus!
