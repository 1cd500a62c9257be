//! The faults of a call, and the reasons for which a blob is turned down.

use vstd::prelude::*;
use vstd::string::StringExecFns;

verus! {

/// Every fault an encryption or decryption call can end in. All of them are
/// fatal to the call that met them.
#[derive(Debug)]
pub enum Errors {
    InvalidNonce(String),
    InvalidMac(String),
    InvalidXor(String),
    ThreadPool(String),
    Argon2Failed(String),
    InvalidAlgorithm,
    KernelError(String),
    BuildFailed(String),
}

impl Errors {
    /// The fixed words that introduce each kind of fault.
    pub open spec fn spec_heading(self) -> Seq<char> {
        match self {
            Errors::InvalidNonce(_) => "Decryption failed: "@,
            Errors::InvalidMac(_) => "Invalid MAC: "@,
            Errors::InvalidXor(_) => "XOR failed: "@,
            Errors::ThreadPool(_) => "Thread Pool Failed: "@,
            Errors::Argon2Failed(_) => "Argon2 failed: "@,
            Errors::InvalidAlgorithm => "Invalid Algorithm"@,
            Errors::KernelError(_) => "Kernel Error: "@,
            Errors::BuildFailed(_) => "Build Failed: "@,
        }
    }

    /// The detail a fault carries; empty for `InvalidAlgorithm`.
    pub open spec fn spec_detail(self) -> Seq<char> {
        match self {
            Errors::InvalidNonce(m) => m@,
            Errors::InvalidMac(m) => m@,
            Errors::InvalidXor(m) => m@,
            Errors::ThreadPool(m) => m@,
            Errors::Argon2Failed(m) => m@,
            Errors::InvalidAlgorithm => Seq::<char>::empty(),
            Errors::KernelError(m) => m@,
            Errors::BuildFailed(m) => m@,
        }
    }

    /// The detail a fault carries.
    pub fn detail(&self) -> (r: String)
        ensures
            r@ == self.spec_detail(),
    {
        match self {
            Errors::InvalidNonce(m) => m.clone(),
            Errors::InvalidMac(m) => m.clone(),
            Errors::InvalidXor(m) => m.clone(),
            Errors::ThreadPool(m) => m.clone(),
            Errors::Argon2Failed(m) => m.clone(),
            Errors::InvalidAlgorithm => String::new(),
            Errors::KernelError(m) => m.clone(),
            Errors::BuildFailed(m) => m.clone(),
        }
    }

    /// The full message: the heading of the kind, then the detail.
    pub fn message(&self) -> (r: String)
        ensures
            r@ == self.spec_heading() + self.spec_detail(),
    {
        let head = match self {
            Errors::InvalidNonce(_) => String::from_str("Decryption failed: "),
            Errors::InvalidMac(_) => String::from_str("Invalid MAC: "),
            Errors::InvalidXor(_) => String::from_str("XOR failed: "),
            Errors::ThreadPool(_) => String::from_str("Thread Pool Failed: "),
            Errors::Argon2Failed(_) => String::from_str("Argon2 failed: "),
            Errors::InvalidAlgorithm => String::from_str("Invalid Algorithm"),
            Errors::KernelError(_) => String::from_str("Kernel Error: "),
            Errors::BuildFailed(_) => String::from_str("Build Failed: "),
        };
        let tail = self.detail();
        head.concat(tail.as_str())
    }
}

/// Why a decryption turns a blob down, as far as the blob, the password and
/// the settings decide it.
#[derive(Debug, Clone, Copy)]
pub enum Rejection {
    /// The blob is shorter than its frame.
    TooShort,
    /// Neither reading of the version tag shows the expected prefix.
    UnknownAlgorithm,
    /// The version is not one that can be decrypted, or the MAC does not match.
    FailedAuthentication,
    /// The blob frames an empty payload.
    EmptyPayload,
}

impl Errors {
    /// Whether this fault is the one that reports the rejection `why`.
    pub open spec fn reports(self, why: Rejection) -> bool {
        match why {
            Rejection::TooShort => self matches Errors::InvalidMac(m) && m@
                == "Data is too short"@,
            Rejection::UnknownAlgorithm => self is InvalidAlgorithm,
            Rejection::FailedAuthentication => self matches Errors::InvalidMac(m) && m@
                == "Invalid authentication"@,
            Rejection::EmptyPayload => self matches Errors::InvalidXor(m) && m@
                == "Empty vector"@,
        }
    }

    /// The fault that reports a rejection.
    pub fn from_rejection(why: Rejection) -> (r: Errors)
        ensures
            r.reports(why),
    {
        match why {
            Rejection::TooShort => Errors::InvalidMac("Data is too short".to_owned()),
            Rejection::UnknownAlgorithm => Errors::InvalidAlgorithm,
            Rejection::FailedAuthentication => Errors::InvalidMac(
                "Invalid authentication".to_owned(),
            ),
            Rejection::EmptyPayload => Errors::InvalidXor("Empty vector".to_owned()),
        }
    }
}

} // verus!
