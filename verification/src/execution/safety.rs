//! The deployment policy: which environment a process may talk to, and
//! whether it may send live orders there.
use crate::execution::environment::BinanceEnvironment;
use vstd::prelude::*;

verus! {

#[derive(Debug, Clone, Copy, PartialEq, Eq, Structural)]
pub enum SafetyError {
    EnvironmentMismatch,
    ProductionNotAllowed,
    CredentialsMissing,
    LiveOrdersNotAllowed,
}

#[derive(Debug, Clone, Copy, PartialEq, Eq, Structural)]
pub struct DeploymentPolicy {
    pub environment: BinanceEnvironment,
    pub allow_live_orders: bool,
    pub allow_production: bool,
    pub credentials_loaded: bool,
}

impl DeploymentPolicy {
    /// Why the policy refuses any traffic to `environment`, if it does.
    pub open spec fn refusal(self, environment: BinanceEnvironment) -> Option<SafetyError> {
        if self.environment != environment {
            Some(SafetyError::EnvironmentMismatch)
        } else if environment == BinanceEnvironment::Production && !self.allow_production {
            Some(SafetyError::ProductionNotAllowed)
        } else if !self.credentials_loaded {
            Some(SafetyError::CredentialsMissing)
        } else {
            None
        }
    }

    pub fn validate_for(&self, environment: BinanceEnvironment) -> (r: Result<(), SafetyError>)
        ensures
            match self.refusal(environment) {
                Some(e) => r == Err::<(), SafetyError>(e),
                None => r is Ok,
            },
    {
        if self.environment != environment {
            return Err(SafetyError::EnvironmentMismatch);
        }
        if environment == BinanceEnvironment::Production && !self.allow_production {
            return Err(SafetyError::ProductionNotAllowed);
        }
        if !self.credentials_loaded {
            return Err(SafetyError::CredentialsMissing);
        }
        Ok(())
    }

    /// Orders need everything traffic needs, and live orders allowed.
    pub fn validate_for_order(&self, environment: BinanceEnvironment) -> (r: Result<(), SafetyError>)
        ensures
            match self.refusal(environment) {
                Some(e) => r == Err::<(), SafetyError>(e),
                None => if self.allow_live_orders {
                    r is Ok
                } else {
                    r == Err::<(), SafetyError>(SafetyError::LiveOrdersNotAllowed)
                },
            },
    {
        match self.validate_for(environment) {
            Err(e) => {
                return Err(e);
            },
            Ok(()) => {},
        }
        if !self.allow_live_orders {
            return Err(SafetyError::LiveOrdersNotAllowed);
        }
        Ok(())
    }
}

} // verus!
