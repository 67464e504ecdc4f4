//! The calibration store: which calibration a process resumes from. The
//! file itself is read and written by the caller; this decides what a read
//! means.
use crate::calibration::{CalibrationError, CalibrationState};
use crate::text::{str_eq, trim_chars};
use vstd::prelude::*;

verus! {

/// A failed file operation: whether the file was absent, and what the
/// system said.
#[derive(Debug, Clone, PartialEq, Eq)]
pub struct StoreIoError {
    pub not_found: bool,
    pub message: String,
}

#[derive(Debug, Clone, PartialEq, Eq)]
pub enum CalibrationStoreError {
    Io(StoreIoError),
    Calibration(CalibrationError),
    InstrumentMismatch,
}

/// A calibration store kept in one file.
#[derive(Debug, Clone, PartialEq, Eq)]
pub struct FileCalibrationStore {
    path: String,
}

impl FileCalibrationStore {
    pub closed spec fn path_spec(&self) -> Seq<char> {
        self.path@
    }

    pub fn new(path: String) -> (r: Self)
        ensures
            r.path_spec() == path@,
    {
        FileCalibrationStore { path }
    }

    pub fn path(&self) -> (r: &str)
        ensures
            r@ == self.path_spec(),
    {
        self.path.as_str()
    }

    /// What a load gives once the file has been decoded and replay-checked:
    /// the decoded state, only when it belongs to `instrument`.
    pub fn accept_loaded(decoded: Result<CalibrationState, CalibrationError>, instrument: &str) -> (r: Result<
        CalibrationState,
        CalibrationStoreError,
    >)
        ensures
            match decoded {
                Err(e) => r == Err::<CalibrationState, CalibrationStoreError>(CalibrationStoreError::Calibration(e)),
                Ok(state) => if state.instrument@ == instrument@ {
                    r == Ok::<CalibrationState, CalibrationStoreError>(state)
                } else {
                    r == Err::<CalibrationState, CalibrationStoreError>(CalibrationStoreError::InstrumentMismatch)
                },
            },
    {
        match decoded {
            Err(e) => Err(CalibrationStoreError::Calibration(e)),
            Ok(state) => {
                if str_eq(state.instrument.as_str(), instrument) {
                    Ok(state)
                } else {
                    Err(CalibrationStoreError::InstrumentMismatch)
                }
            },
        }
    }

    /// Resumes from what a load gave: a stored state as it is, a missing
    /// file as a cold start, and any other failure as that failure. A
    /// malformed store is never replaced by a cold start.
    pub fn load_or_cold_start(&self, instrument: &str, loaded: Result<CalibrationState, CalibrationStoreError>) -> (r: Result<
        CalibrationState,
        CalibrationStoreError,
    >)
        ensures
            match loaded {
                Ok(state) => r == Ok::<CalibrationState, CalibrationStoreError>(state),
                Err(CalibrationStoreError::Io(e)) => if e.not_found {
                    if trim_chars(instrument@).len() == 0 {
                        r == Err::<CalibrationState, CalibrationStoreError>(
                            CalibrationStoreError::Calibration(CalibrationError::EmptyInstrument),
                        )
                    } else {
                        r matches Ok(s) && s.instrument@ == instrument@ && s.observations@.len() == 0
                            && s.admission is None && s.first_event_at_ms == 0 && s.last_event_at_ms == 0
                    }
                } else {
                    r == Err::<CalibrationState, CalibrationStoreError>(CalibrationStoreError::Io(e))
                },
                Err(e) => r == Err::<CalibrationState, CalibrationStoreError>(e),
            },
    {
        match loaded {
            Ok(state) => Ok(state),
            Err(CalibrationStoreError::Io(e)) => {
                if e.not_found {
                    match CalibrationState::new(instrument) {
                        Ok(state) => Ok(state),
                        Err(e) => Err(CalibrationStoreError::Calibration(e)),
                    }
                } else {
                    Err(CalibrationStoreError::Io(e))
                }
            },
            Err(e) => Err(e),
        }
    }
}

} // verus!
