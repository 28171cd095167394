//! Why a benchmark transaction could not be built.
use vstd::prelude::*;

verus! {

/// Why a transaction could not be built.
#[derive(Clone, Debug, PartialEq, Eq)]
pub enum BuildError {
    /// A Jupiter instruction without a `programId` string.
    MissingProgramId,
    /// A Jupiter instruction without an `accounts` array.
    MissingAccounts,
    /// A Jupiter account without a `pubkey` string.
    MissingAccountPubkey,
    /// A Jupiter instruction without a `data` string.
    MissingData,
    /// An address that is not the base58 text of 32 bytes.
    InvalidPubkey,
    /// Instruction data that is not standard base64.
    InvalidInstructionData,
    /// The tip address drawn for a sender is not a valid address.
    InvalidTipAddress { address: String, sender: String },
    /// An instruction list, or an instruction's accounts or data, is too
    /// long for the message's `short_vec` lengths (at most 65535 entries).
    MessageTooLarge,
    /// The v0 message could not be compiled from the instructions.
    CompileFailed,
    /// The payer could not sign the message.
    SigningFailed,
}

/// What a [`BuildError`] says, with its texts as character sequences.
pub enum BuildErrorView {
    MissingProgramId,
    MissingAccounts,
    MissingAccountPubkey,
    MissingData,
    InvalidPubkey,
    InvalidInstructionData,
    InvalidTipAddress { address: Seq<char>, sender: Seq<char> },
    MessageTooLarge,
    CompileFailed,
    SigningFailed,
}

impl View for BuildError {
    type V = BuildErrorView;

    open spec fn view(&self) -> BuildErrorView {
        match self {
            BuildError::MissingProgramId => BuildErrorView::MissingProgramId,
            BuildError::MissingAccounts => BuildErrorView::MissingAccounts,
            BuildError::MissingAccountPubkey => BuildErrorView::MissingAccountPubkey,
            BuildError::MissingData => BuildErrorView::MissingData,
            BuildError::InvalidPubkey => BuildErrorView::InvalidPubkey,
            BuildError::InvalidInstructionData => BuildErrorView::InvalidInstructionData,
            BuildError::InvalidTipAddress { address, sender } => BuildErrorView::InvalidTipAddress {
                address: address@,
                sender: sender@,
            },
            BuildError::MessageTooLarge => BuildErrorView::MessageTooLarge,
            BuildError::CompileFailed => BuildErrorView::CompileFailed,
            BuildError::SigningFailed => BuildErrorView::SigningFailed,
        }
    }
}

} // verus!
