//! Where Wi-Fi passphrases, VPN keys and 802.1X credentials live --
//! deliberately not inside the connection profiles, which are the kind of
//! thing a user might back up or paste into a bug report.
//!
//! `SecretsBackend` is the boundary a storage implementation plugs into; the
//! file-backed one keeps one `0600` file per secret under
//! `<data-dir>/secrets/`, named `<owner>.<key>`.

use super::validation::{is_identifier, validate_identifier};
use crate::errors::{other_err, NetworkError};
use crate::text::{join_path, path_join};
use vstd::prelude::*;

verus! {

pub trait SecretsBackend {
    /// `owner` is a stable id for what the secret belongs to (a connection
    /// profile id, e.g. `"wifi-home"`); `key` says which of its secrets
    /// (`"psk"`, `"eap-password"`, `"private-key"`).
    fn get(&self, owner: &str, key: &str) -> Result<Option<String>, NetworkError>;

    fn set(&self, owner: &str, key: &str, value: &str) -> Result<(), NetworkError>;

    fn delete_all(&self, owner: &str) -> Result<(), NetworkError>;
}

/// Secrets stored as files under `<data-dir>/secrets/`.
pub struct FileSecretsBackend {
    pub dir: String,
}

impl FileSecretsBackend {
    pub fn new(data_dir: &str) -> (b: Self)
        ensures
            b.dir@ == path_join(data_dir@, "secrets"@),
    {
        FileSecretsBackend { dir: join_path(data_dir, "secrets") }
    }

    /// The file holding `owner`'s `key` secret: both must be identifiers,
    /// so neither can escape the secrets directory.
    pub fn path(&self, owner: &str, key: &str) -> (r: Result<String, NetworkError>)
        ensures
            r is Ok <==> is_identifier(owner) && is_identifier(key),
            r matches Ok(p) ==> p@ == path_join(self.dir@, owner@ + "."@ + key@),
    {
        validate_identifier(owner)?;
        validate_identifier(key)?;
        let mut name = String::from_str(owner);
        name.append(".");
        name.append(key);
        Ok(join_path(self.dir.as_str(), name.as_str()))
    }
}

/// A backend that never has a secret stored and refuses to store one.
pub struct NullSecretsBackend;

impl SecretsBackend for NullSecretsBackend {
    fn get(&self, owner: &str, key: &str) -> (r: Result<Option<String>, NetworkError>)
        ensures
            r matches Ok(None),
    {
        Ok(None)
    }

    fn set(&self, owner: &str, key: &str, value: &str) -> (r: Result<(), NetworkError>)
        ensures
            other_err(
                r,
                "no secrets backend configured; cannot store a secret for '"@ + owner@ + "'"@,
            ),
    {
        Err(
            NetworkError::Other(
                crate::errors::join3(
                    "no secrets backend configured; cannot store a secret for '",
                    owner,
                    "'",
                ),
            ),
        )
    }

    fn delete_all(&self, owner: &str) -> (r: Result<(), NetworkError>)
        ensures
            r is Ok,
    {
        Ok(())
    }
}

} // verus!
