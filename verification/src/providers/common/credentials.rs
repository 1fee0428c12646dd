//! Where the secret of a backend account is kept.

use vstd::prelude::*;

verus! {

/// Service and username of an entry in the secret store of the operating
/// system.
#[derive(Debug, Clone)]
pub struct CredentialKeyringEntry {
    pub service: String,
    pub username: String,
}

/// An account whose secret is found through a keyring entry. Reading the
/// secret itself is left to the caller.
pub trait HasSecretToken {
    /// The name of the account, used in messages.
    spec fn provider_id_view(&self) -> Seq<char>;

    /// The keyring entry of the account, if one is configured.
    spec fn credential_view(&self) -> Option<CredentialKeyringEntry>;

    /// The name of the account, used in messages.
    fn task_provider_id(&self) -> (id: String)
        ensures
            id@ == self.provider_id_view(),
    ;

    /// The keyring entry of the account, if one is configured.
    fn credential(&self) -> (entry: Option<&CredentialKeyringEntry>)
        ensures
            match entry {
                Some(e) => self.credential_view() == Some(*e),
                None => self.credential_view() is None,
            },
    ;

    /// The username of the keyring entry; `None` where the account has no
    /// entry.
    fn get_username(&self) -> (name: Option<String>)
        ensures
            match name {
                Some(n) => self.credential_view() is Some
                    && n@ == self.credential_view()->0.username@,
                None => self.credential_view() is None,
            },
    {
        match self.credential() {
            Some(entry) => Some(entry.username.clone()),
            None => None,
        }
    }
}

} // verus!
