//! Binance API credentials.
use vstd::prelude::*;

verus! {

#[derive(Debug, Clone, PartialEq, Eq)]
pub struct BinanceCredentials {
    pub api_key: String,
    pub api_secret: String,
}

#[derive(Debug, Clone, Copy, PartialEq, Eq, Structural)]
pub enum CredentialsError {
    EmptyApiKey,
    EmptyApiSecret,
}

impl BinanceCredentials {
    /// Credentials need a key and a secret.
    pub fn new(api_key: String, api_secret: String) -> (r: Result<Self, CredentialsError>)
        ensures
            api_key@.len() == 0 ==> r == Err::<BinanceCredentials, CredentialsError>(CredentialsError::EmptyApiKey),
            api_key@.len() > 0 && api_secret@.len() == 0 ==> r == Err::<BinanceCredentials, CredentialsError>(
                CredentialsError::EmptyApiSecret,
            ),
            api_key@.len() > 0 && api_secret@.len() > 0 ==> r == Ok::<BinanceCredentials, CredentialsError>(
                BinanceCredentials { api_key, api_secret },
            ),
    {
        if api_key.as_str().is_empty() {
            return Err(CredentialsError::EmptyApiKey);
        }
        if api_secret.as_str().is_empty() {
            return Err(CredentialsError::EmptyApiSecret);
        }
        Ok(BinanceCredentials { api_key, api_secret })
    }
}

} // verus!
