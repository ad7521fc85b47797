//! The ways in which an operation of the session can fail.

use vstd::prelude::*;

verus! {

/// One of the three stored fields of a wallet.
#[derive(Debug, Clone, Copy, PartialEq, Eq, Structural)]
pub enum WalletField {
    Mnemonic,
    DerivationPath,
    Idx,
}

/// Why an operation did not take place. Whenever one is returned, the state
/// is what it was before the call.
#[derive(Debug, PartialEq, Eq)]
pub enum Error {
    /// No descriptor has the name, or the chain id, that was asked for.
    NetworkNotFound,
    /// The seed phrase is no mnemonic, or the derivation path is malformed.
    /// The text says which.
    Derivation(String),
    /// A stored wallet lacks one of its fields.
    MissingField(WalletField),
}

impl WalletField {
    /// The name of the field as it is stored.
    pub fn name(&self) -> (name: &'static str)
        ensures
            name@ == match *self {
                WalletField::Mnemonic => "mnemonic"@,
                WalletField::DerivationPath => "derivation_path"@,
                WalletField::Idx => "idx"@,
            },
    {
        match self {
            WalletField::Mnemonic => "mnemonic",
            WalletField::DerivationPath => "derivation_path",
            WalletField::Idx => "idx",
        }
    }
}

} // verus!
