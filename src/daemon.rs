use vstd::prelude::*;
use vstd::string::StringSliceAdditionalSpecFns;
use crate::vault_handler::{Cipher, Vault, VaultHandlerError, cipher_from_name};

verus! {

/// The daemon process: it owns one vault lifecycle manager and serves it.
pub struct Daemon {}

impl Daemon {
    pub fn new() -> (r: Self)
        ensures
            r == (Daemon {}),
    {
        Daemon {}
    }
}

/// The error kinds that cross the RPC boundary: a closed set, so that a
/// client can tell each kind apart without reading text.
#[derive(Clone, Copy, Debug, PartialEq, Eq, Structural)]
pub enum DaemonServiceError {
    /// The lifecycle manager refused or failed the operation.
    VaultHandlerError(VaultHandlerError),
    /// The request is malformed: a wrong number of values, a bad id, or no
    /// key-derivation rounds.
    InvalidArgument,
    /// The request names no known cipher.
    InvalidCipher,
}

/// How a client should react to an error.
#[derive(Clone, Copy, Debug, PartialEq, Eq, Structural)]
pub enum ErrorClass {
    /// The request must be fixed; nothing changed.
    Client,
    /// The vault is in use; the request may be retried later.
    Busy,
    /// A collaborator (keyring, mount engine, configuration file) failed.
    Collaborator,
}

/// The class of each error kind.
pub open spec fn class_of(e: DaemonServiceError) -> ErrorClass {
    match e {
        DaemonServiceError::InvalidArgument | DaemonServiceError::InvalidCipher => ErrorClass::Client,
        DaemonServiceError::VaultHandlerError(h) => match h {
            VaultHandlerError::VaultBusy => ErrorClass::Busy,
            VaultHandlerError::CannotLockVault | VaultHandlerError::CannotUnlockVault
            | VaultHandlerError::CannotFindConfigFile | VaultHandlerError::CannotReadConfigFile
            | VaultHandlerError::CannotSaveConfigFile | VaultHandlerError::KeyringUnavailable
            | VaultHandlerError::InvalidPassword | VaultHandlerError::IdsExhausted => ErrorClass::Collaborator,
            _ => ErrorClass::Client,
        },
    }
}

impl DaemonServiceError {
    /// The class of this error, for a client deciding whether to retry.
    pub fn class(&self) -> (r: ErrorClass)
        ensures
            r == class_of(*self),
    {
        match self {
            DaemonServiceError::InvalidArgument | DaemonServiceError::InvalidCipher => ErrorClass::Client,
            DaemonServiceError::VaultHandlerError(h) => match h {
                VaultHandlerError::VaultBusy => ErrorClass::Busy,
                VaultHandlerError::CannotLockVault | VaultHandlerError::CannotUnlockVault
                | VaultHandlerError::CannotFindConfigFile | VaultHandlerError::CannotReadConfigFile
                | VaultHandlerError::CannotSaveConfigFile | VaultHandlerError::KeyringUnavailable
                | VaultHandlerError::InvalidPassword | VaultHandlerError::IdsExhausted => ErrorClass::Collaborator,
                _ => ErrorClass::Client,
            },
        }
    }
}

/// The reply to a request whose manager call returns nothing: success, or
/// the manager's error kind carried whole.
pub fn handle_handler_empty_response(response: Result<(), VaultHandlerError>) -> (r: Result<(), DaemonServiceError>)
    ensures
        match response {
            Ok(_) => r is Ok,
            Err(e) => r == Err::<(), DaemonServiceError>(DaemonServiceError::VaultHandlerError(e)),
        },
{
    match response {
        Ok(_) => Ok(()),
        Err(e) => Err(DaemonServiceError::VaultHandlerError(e)),
    }
}

/// The two values, old then new, of a change request; any other number of
/// values is a malformed request.
pub fn old_and_new(values: &Vec<String>) -> (r: Result<(String, String), DaemonServiceError>)
    ensures
        values@.len() != 2 ==> r == Err::<(String, String), DaemonServiceError>(DaemonServiceError::InvalidArgument),
        values@.len() == 2 ==> (r matches Ok((o, n)) && o@ == values@[0]@ && n@ == values@[1]@),
{
    if values.len() != 2 {
        return Err(DaemonServiceError::InvalidArgument);
    }
    Ok((values[0].clone(), values[1].clone()))
}

/// The vault that an insert request describes, locked and with id 0 until
/// the manager gives it one. The cipher must be a known name and the
/// key-derivation rounds positive.
pub fn vault_from_insert_request(
    name: String,
    mount_point: String,
    data_dir: String,
    cipher: &str,
    derive_key_hash_rounds: u32,
) -> (r: Result<Vault, DaemonServiceError>)
    ensures
        cipher_from_name(cipher@) is None ==> r == Err::<Vault, DaemonServiceError>(DaemonServiceError::InvalidCipher),
        cipher_from_name(cipher@) is Some && derive_key_hash_rounds == 0 ==> r == Err::<Vault, DaemonServiceError>(
            DaemonServiceError::InvalidArgument,
        ),
        cipher_from_name(cipher@) is Some && derive_key_hash_rounds > 0 ==> r == Ok::<Vault, DaemonServiceError>(
            Vault {
                id: 0,
                name,
                mount_point,
                data_dir,
                locked: true,
                cipher: cipher_from_name(cipher@).unwrap(),
                derive_key_hash_rounds,
            },
        ),
{
    let c = match Cipher::parse(cipher) {
        Some(c) => c,
        None => {
            return Err(DaemonServiceError::InvalidCipher);
        },
    };
    if derive_key_hash_rounds == 0 {
        return Err(DaemonServiceError::InvalidArgument);
    }
    Ok(Vault { id: 0, name, mount_point, data_dir, locked: true, cipher: c, derive_key_hash_rounds })
}

/// Whether every byte is an ASCII decimal digit.
pub open spec fn all_digits(b: Seq<u8>) -> bool {
    forall|i: int| 0 <= i < b.len() ==> 48 <= #[trigger] b[i] <= 57
}

/// The number that a string of ASCII decimal digits writes.
pub open spec fn decimal_value(b: Seq<u8>) -> nat
    decreases b.len(),
{
    if b.len() == 0 {
        0
    } else {
        decimal_value(b.drop_last()) * 10 + (b.last() - 48) as nat
    }
}

/// A longer run of digits never writes a smaller number than its prefix.
proof fn lemma_decimal_prefix(b: Seq<u8>, i: int)
    requires
        all_digits(b),
        0 <= i <= b.len(),
    ensures
        decimal_value(b.subrange(0, i)) <= decimal_value(b),
    decreases b.len(),
{
    if i < b.len() {
        let c = b.drop_last();
        assert(all_digits(c)) by {
            assert forall|k: int| 0 <= k < c.len() implies 48 <= #[trigger] c[k] <= 57 by {
                assert(c[k] == b[k]);
            }
        }
        lemma_decimal_prefix(c, i);
        assert(c.subrange(0, i) =~= b.subrange(0, i));
        assert(48 <= b[b.len() - 1] <= 57);
    } else {
        assert(b.subrange(0, i) =~= b);
    }
}

/// The vault id that a request carries as text: a non-empty run of ASCII
/// decimal digits whose value fits in 64 bits; anything else is a malformed
/// request.
pub fn parse_id(s: &str) -> (r: Result<u64, DaemonServiceError>)
    ensures
        r is Ok <==> s.spec_bytes().len() > 0 && all_digits(s.spec_bytes()) && decimal_value(s.spec_bytes())
            <= u64::MAX,
        r matches Ok(v) ==> v == decimal_value(s.spec_bytes()),
        r matches Err(e) ==> e == DaemonServiceError::InvalidArgument,
{
    let b = s.as_bytes();
    if b.len() == 0 {
        return Err(DaemonServiceError::InvalidArgument);
    }
    let mut acc: u64 = 0;
    let mut i: usize = 0;
    while i < b.len()
        invariant
            b@ == s.spec_bytes(),
            i <= b@.len(),
            all_digits(b@.subrange(0, i as int)),
            acc == decimal_value(b@.subrange(0, i as int)),
        decreases b@.len() - i,
    {
        let c = b[i];
        proof {
            assert(b@.subrange(0, i + 1).drop_last() =~= b@.subrange(0, i as int));
        }
        if c < 48 || c > 57 {
            proof {
                assert(b@[i as int] == c);
            }
            return Err(DaemonServiceError::InvalidArgument);
        }
        let d: u64 = (c - 48) as u64;
        if acc > (u64::MAX - d) / 10 {
            proof {
                assert(all_digits(b@.subrange(0, i + 1)));
                assert(acc * 10 + d > u64::MAX) by (nonlinear_arith)
                    requires
                        acc > (u64::MAX - d) / 10,
                        d <= 9,
                ;
                if all_digits(b@) {
                    lemma_decimal_prefix(b@, i + 1);
                }
            }
            return Err(DaemonServiceError::InvalidArgument);
        }
        acc = acc * 10 + d;
        i = i + 1;
    }
    proof {
        assert(b@.subrange(0, i as int) =~= b@);
    }
    Ok(acc)
}

} // verus!
