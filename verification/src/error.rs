//! The failures an operation can end in.

use vstd::prelude::*;

verus! {

/// Why a setup or a mint was refused. A refused operation changes nothing.
#[derive(Clone, Copy, Debug, PartialEq, Eq, Structural)]
pub enum BridgeError {
    /// The asset code is not exactly twelve bytes long.
    InvalidCodeLength,
    /// No bump value yields an address outside the signable key space.
    DerivationExhausted,
    /// The named authority account is not the address the code derives.
    DerivationMismatch,
    /// The payer cannot fund the creation of the authority record.
    InsufficientFunds,
    /// No authority record exists for the code.
    AuthorityNotFound,
    /// The mint would exceed the representable supply of the asset.
    Overflow,
}

impl BridgeError {
    /// The numeric code of each failure; no two failures share one.
    pub open spec fn spec_code(self) -> u32 {
        match self {
            BridgeError::InvalidCodeLength => 6000,
            BridgeError::DerivationExhausted => 6001,
            BridgeError::DerivationMismatch => 6002,
            BridgeError::InsufficientFunds => 6003,
            BridgeError::AuthorityNotFound => 6004,
            BridgeError::Overflow => 6005,
        }
    }

    /// The number under which the failure is reported to callers.
    pub fn code(&self) -> (c: u32)
        ensures
            c == self.spec_code(),
    {
        match self {
            BridgeError::InvalidCodeLength => 6000,
            BridgeError::DerivationExhausted => 6001,
            BridgeError::DerivationMismatch => 6002,
            BridgeError::InsufficientFunds => 6003,
            BridgeError::AuthorityNotFound => 6004,
            BridgeError::Overflow => 6005,
        }
    }

    /// The name under which the failure is reported to callers.
    pub fn name(&self) -> (s: &'static str)
        ensures
            s@ == self.spec_name(),
    {
        match self {
            BridgeError::InvalidCodeLength => "InvalidCodeLength",
            BridgeError::DerivationExhausted => "DerivationExhausted",
            BridgeError::DerivationMismatch => "DerivationMismatch",
            BridgeError::InsufficientFunds => "InsufficientFunds",
            BridgeError::AuthorityNotFound => "AuthorityNotFound",
            BridgeError::Overflow => "Overflow",
        }
    }

    /// The name of each failure, as a sequence of characters.
    pub open spec fn spec_name(self) -> Seq<char> {
        match self {
            BridgeError::InvalidCodeLength => "InvalidCodeLength"@,
            BridgeError::DerivationExhausted => "DerivationExhausted"@,
            BridgeError::DerivationMismatch => "DerivationMismatch"@,
            BridgeError::InsufficientFunds => "InsufficientFunds"@,
            BridgeError::AuthorityNotFound => "AuthorityNotFound"@,
            BridgeError::Overflow => "Overflow"@,
        }
    }

    /// Distinct failures are reported under distinct numbers.
    pub proof fn lemma_codes_distinct(a: BridgeError, b: BridgeError)
        ensures
            a.spec_code() == b.spec_code() <==> a == b,
    {
    }
}

} // verus!
