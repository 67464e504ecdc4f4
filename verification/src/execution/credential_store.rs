//! Persistent credential storage. Secure storage exists only on Windows
//! (the Credential Manager); on every other platform the store reports
//! itself unavailable and refuses every operation.
use crate::execution::credentials::{BinanceCredentials, CredentialsError};
use crate::execution::environment::BinanceEnvironment;
use crate::text::owned;
use vstd::prelude::*;

verus! {

const TARGET_PREFIX: &'static str = "AnchorBell/Binance/";

#[derive(Debug, Clone, Copy, PartialEq, Eq, Structural)]
pub struct PersistentCredentialStore;

#[derive(Debug, Clone, PartialEq, Eq)]
pub enum CredentialStoreError {
    Unsupported,
    InvalidData,
    InvalidCredential(CredentialsError),
    Os { operation: &'static str, code: u32 },
}

impl Default for PersistentCredentialStore {
    fn default() -> (r: Self)
        ensures
            r == PersistentCredentialStore,
    {
        PersistentCredentialStore
    }
}

pub open spec fn environment_name(environment: BinanceEnvironment) -> Seq<char> {
    match environment {
        BinanceEnvironment::Testnet => "testnet"@,
        BinanceEnvironment::Production => "production"@,
    }
}

/// The credential-manager target of an environment: one per environment.
pub fn target_name(environment: BinanceEnvironment) -> (r: String)
    ensures
        r@ == "AnchorBell/Binance/"@ + environment_name(environment),
{
    let mut name = owned(TARGET_PREFIX);
    let suffix = match environment {
        BinanceEnvironment::Testnet => "testnet",
        BinanceEnvironment::Production => "production",
    };
    name.append(suffix);
    name
}

impl PersistentCredentialStore {
    pub fn is_available(&self) -> (r: bool)
        ensures
            !r,
    {
        false
    }

    pub fn load(&self, environment: BinanceEnvironment) -> (r: Result<Option<BinanceCredentials>, CredentialStoreError>)
        ensures
            r == Err::<Option<BinanceCredentials>, CredentialStoreError>(CredentialStoreError::Unsupported),
    {
        Err(CredentialStoreError::Unsupported)
    }

    pub fn save(&self, environment: BinanceEnvironment, credentials: &BinanceCredentials) -> (r: Result<(), CredentialStoreError>)
        ensures
            r == Err::<(), CredentialStoreError>(CredentialStoreError::Unsupported),
    {
        Err(CredentialStoreError::Unsupported)
    }

    pub fn delete(&self, environment: BinanceEnvironment) -> (r: Result<(), CredentialStoreError>)
        ensures
            r == Err::<(), CredentialStoreError>(CredentialStoreError::Unsupported),
    {
        Err(CredentialStoreError::Unsupported)
    }

    /// Whether credentials are saved for the environment; any failure to
    /// load is reported as it is.
    pub fn has_saved(&self, environment: BinanceEnvironment) -> (r: Result<bool, CredentialStoreError>)
        ensures
            r == Err::<bool, CredentialStoreError>(CredentialStoreError::Unsupported),
    {
        match self.load(environment) {
            Ok(loaded) => Ok(loaded.is_some()),
            Err(e) => Err(e),
        }
    }
}

} // verus!
