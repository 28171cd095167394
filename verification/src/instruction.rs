//! Instructions as plain values, and the instructions that the benchmark
//! transaction is assembled from.
use vstd::prelude::*;
use solana_compute_budget_interface::ComputeBudgetInstruction;
use solana_pubkey::Pubkey;

verus! {

/// One account that an instruction reads or writes.
#[derive(Clone, Copy, Debug, PartialEq, Eq)]
pub struct AccountMeta {
    pub pubkey: [u8; 32],
    pub is_signer: bool,
    pub is_writable: bool,
}

/// What an account entry means: its address and its two flags.
pub struct AccountMetaView {
    pub pubkey: Seq<u8>,
    pub is_signer: bool,
    pub is_writable: bool,
}

impl View for AccountMeta {
    type V = AccountMetaView;

    open spec fn view(&self) -> AccountMetaView {
        AccountMetaView { pubkey: self.pubkey@, is_signer: self.is_signer, is_writable: self.is_writable }
    }
}

/// A program invocation: the program's address, the accounts it touches and
/// its instruction data.
#[derive(Clone, Debug)]
pub struct Instruction {
    pub program_id: [u8; 32],
    pub accounts: Vec<AccountMeta>,
    pub data: Vec<u8>,
}

/// What an instruction means, as plain sequences.
pub struct InstructionView {
    pub program_id: Seq<u8>,
    pub accounts: Seq<AccountMetaView>,
    pub data: Seq<u8>,
}

impl View for Instruction {
    type V = InstructionView;

    open spec fn view(&self) -> InstructionView {
        InstructionView {
            program_id: self.program_id@,
            accounts: self.accounts@.map_values(|a: AccountMeta| a@),
            data: self.data@,
        }
    }
}

/// The views of a list of instructions.
pub open spec fn instructions_view(ixs: Seq<Instruction>) -> Seq<InstructionView> {
    ixs.map_values(|ix: Instruction| ix@)
}

pub open spec fn meta(pubkey: Seq<u8>, is_signer: bool, is_writable: bool) -> AccountMetaView {
    AccountMetaView { pubkey, is_signer, is_writable }
}

/// The little-endian bytes of a 32-bit number.
pub open spec fn le_bytes_u32(x: u32) -> Seq<u8> {
    seq![
        (x % 0x100) as u8,
        ((x / 0x100) % 0x100) as u8,
        ((x / 0x1_0000) % 0x100) as u8,
        ((x / 0x100_0000) % 0x100) as u8,
    ]
}

/// The little-endian bytes of a 64-bit number.
pub open spec fn le_bytes_u64(x: u64) -> Seq<u8> {
    le_bytes_u32((x % 0x1_0000_0000) as u32) + le_bytes_u32((x / 0x1_0000_0000) as u32)
}

/// The system program's address, `11111111111111111111111111111111`.
pub open spec fn system_program_id() -> Seq<u8> {
    Seq::new(32, |i: int| 0u8)
}

/// The address of the recent-blockhashes sysvar,
/// `SysvarRecentB1ockHashes11111111111111111111`.
pub open spec fn recent_blockhashes_sysvar_id() -> Seq<u8> {
    seq![
        6u8, 167, 213, 23, 25, 44, 86, 142, 224, 138, 132, 95, 115, 210, 151, 136,
        207, 3, 92, 49, 69, 178, 26, 179, 68, 216, 6, 46, 169, 64, 0, 0,
    ]
}

/// The compute budget program's address,
/// `ComputeBudget111111111111111111111111111111`.
pub open spec fn compute_budget_program_id() -> Seq<u8> {
    seq![
        3u8, 6, 70, 111, 229, 33, 23, 50, 255, 236, 173, 186, 114, 195, 155, 231,
        188, 140, 229, 187, 197, 247, 18, 107, 44, 67, 155, 58, 64, 0, 0, 0,
    ]
}

/// The system instruction that advances a durable nonce: the nonce account
/// (writable), the recent-blockhashes sysvar and the nonce authority (signer);
/// its data is the bincode tag of `AdvanceNonceAccount`, variant 4.
pub open spec fn advance_nonce_instruction(nonce: Seq<u8>, authority: Seq<u8>) -> InstructionView {
    InstructionView {
        program_id: system_program_id(),
        accounts: seq![
            meta(nonce, false, true),
            meta(recent_blockhashes_sysvar_id(), false, false),
            meta(authority, true, false),
        ],
        data: seq![4u8, 0, 0, 0],
    }
}

/// The system instruction that moves `lamports` from `from` (a writable
/// signer) to `to` (writable); its data is the bincode of `Transfer`, variant 2.
pub open spec fn transfer_instruction(from: Seq<u8>, to: Seq<u8>, lamports: u64) -> InstructionView {
    InstructionView {
        program_id: system_program_id(),
        accounts: seq![meta(from, true, true), meta(to, false, true)],
        data: seq![2u8, 0, 0, 0] + le_bytes_u64(lamports),
    }
}

/// The compute budget instruction that caps the transaction's compute units.
pub open spec fn compute_unit_limit_instruction(units: u32) -> InstructionView {
    InstructionView {
        program_id: compute_budget_program_id(),
        accounts: seq![],
        data: seq![2u8] + le_bytes_u32(units),
    }
}

/// The compute budget instruction that sets the price of a compute unit, in
/// micro-lamports.
pub open spec fn compute_unit_price_instruction(micro_lamports: u64) -> InstructionView {
    InstructionView {
        program_id: compute_budget_program_id(),
        accounts: seq![],
        data: seq![3u8] + le_bytes_u64(micro_lamports),
    }
}

/// Calls `solana_system_interface::instruction::advance_nonce_account`. Its
/// source builds the instruction from the system program id, the three
/// account entries and the bincode encoding of `AdvanceNonceAccount`; the
/// contract claims exactly that instruction.
#[verifier::external_body]
pub(crate) fn advance_nonce_account(nonce: &[u8; 32], authority: &[u8; 32]) -> (ix: Instruction)
    ensures
        ix@ == advance_nonce_instruction(nonce@, authority@),
{
    let ix = solana_system_interface::instruction::advance_nonce_account(
        &Pubkey::new_from_array(*nonce),
        &Pubkey::new_from_array(*authority),
    );
    Instruction {
        program_id: ix.program_id.to_bytes(),
        accounts: ix.accounts.iter().map(|a| AccountMeta { pubkey: a.pubkey.to_bytes(), is_signer: a.is_signer, is_writable: a.is_writable }).collect(),
        data: ix.data,
    }
}

/// Calls `solana_system_interface::instruction::transfer`. Its source builds
/// the instruction from the system program id, the payer as a writable signer,
/// the recipient as writable, and the bincode encoding of `Transfer { lamports }`;
/// the contract claims exactly that instruction.
#[verifier::external_body]
pub(crate) fn transfer(from: &[u8; 32], to: &[u8; 32], lamports: u64) -> (ix: Instruction)
    ensures
        ix@ == transfer_instruction(from@, to@, lamports),
{
    let ix = solana_system_interface::instruction::transfer(
        &Pubkey::new_from_array(*from),
        &Pubkey::new_from_array(*to),
        lamports,
    );
    Instruction {
        program_id: ix.program_id.to_bytes(),
        accounts: ix.accounts.iter().map(|a| AccountMeta { pubkey: a.pubkey.to_bytes(), is_signer: a.is_signer, is_writable: a.is_writable }).collect(),
        data: ix.data,
    }
}

/// Calls `ComputeBudgetInstruction::set_compute_unit_limit`. Its source
/// writes the tag 2 and the little-endian units, with no accounts, for the
/// compute budget program; the contract claims exactly that instruction.
#[verifier::external_body]
pub(crate) fn set_compute_unit_limit(units: u32) -> (ix: Instruction)
    ensures
        ix@ == compute_unit_limit_instruction(units),
{
    let ix = ComputeBudgetInstruction::set_compute_unit_limit(units);
    Instruction {
        program_id: ix.program_id.to_bytes(),
        accounts: ix.accounts.iter().map(|a| AccountMeta { pubkey: a.pubkey.to_bytes(), is_signer: a.is_signer, is_writable: a.is_writable }).collect(),
        data: ix.data,
    }
}

/// Calls `ComputeBudgetInstruction::set_compute_unit_price`. Its source
/// writes the tag 3 and the little-endian price, with no accounts, for the
/// compute budget program; the contract claims exactly that instruction.
#[verifier::external_body]
pub(crate) fn set_compute_unit_price(micro_lamports: u64) -> (ix: Instruction)
    ensures
        ix@ == compute_unit_price_instruction(micro_lamports),
{
    let ix = ComputeBudgetInstruction::set_compute_unit_price(micro_lamports);
    Instruction {
        program_id: ix.program_id.to_bytes(),
        accounts: ix.accounts.iter().map(|a| AccountMeta { pubkey: a.pubkey.to_bytes(), is_signer: a.is_signer, is_writable: a.is_writable }).collect(),
        data: ix.data,
    }
}

} // verus!
