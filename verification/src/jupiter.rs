//! Instructions handed out by the Jupiter swap API, and their reading into
//! instructions.
use vstd::prelude::*;
use base64::Engine;
use crate::address::{address_from_str, base58_address};
use crate::encoding::base64_standard_decode;
use crate::error::{BuildError, BuildErrorView};
use crate::instruction::{AccountMeta, AccountMetaView, Instruction, InstructionView, meta};

verus! {

/// One entry of an instruction's `accounts` array, as the API sends it: each
/// field holds the value when it is present with the expected JSON type.
#[derive(Clone, Debug)]
pub struct JupiterAccount {
    pub pubkey: Option<String>,
    pub is_signer: Option<bool>,
    pub is_writable: Option<bool>,
}

pub struct JupiterAccountView {
    pub pubkey: Option<Seq<char>>,
    pub is_signer: Option<bool>,
    pub is_writable: Option<bool>,
}

impl View for JupiterAccount {
    type V = JupiterAccountView;

    open spec fn view(&self) -> JupiterAccountView {
        JupiterAccountView {
            pubkey: match self.pubkey {
                Some(s) => Some(s@),
                None => None,
            },
            is_signer: self.is_signer,
            is_writable: self.is_writable,
        }
    }
}

/// One instruction object of the API's answer: `programId` and `data` when
/// they are strings, `accounts` when it is an array.
#[derive(Clone, Debug)]
pub struct JupiterInstruction {
    pub program_id: Option<String>,
    pub accounts: Option<Vec<JupiterAccount>>,
    pub data: Option<String>,
}

pub struct JupiterInstructionView {
    pub program_id: Option<Seq<char>>,
    pub accounts: Option<Seq<JupiterAccountView>>,
    pub data: Option<Seq<char>>,
}

impl View for JupiterInstruction {
    type V = JupiterInstructionView;

    open spec fn view(&self) -> JupiterInstructionView {
        JupiterInstructionView {
            program_id: match self.program_id {
                Some(s) => Some(s@),
                None => None,
            },
            accounts: match self.accounts {
                Some(v) => Some(v@.map_values(|a: JupiterAccount| a@)),
                None => None,
            },
            data: match self.data {
                Some(s) => Some(s@),
                None => None,
            },
        }
    }
}

/// Calls `STANDARD.decode` of the `base64` crate. The contract claims that
/// it decodes as `base64_standard_decode` states: exactly the canonical
/// padded encodings are accepted, giving back the bytes they encode.
#[verifier::external_body]
fn decode_base64(text: &str) -> (res: Option<Vec<u8>>)
    ensures
        match res {
            Some(bytes) => base64_standard_decode(text@) == Some(bytes@),
            None => base64_standard_decode(text@) is None,
        },
{
    base64::engine::general_purpose::STANDARD.decode(text).ok()
}

/// An account entry: its `pubkey` is required and must be an address; an
/// absent flag reads as `false`.
pub open spec fn spec_parse_account(a: JupiterAccountView) -> Result<AccountMetaView, BuildErrorView> {
    match a.pubkey {
        None => Err(BuildErrorView::MissingAccountPubkey),
        Some(text) => match base58_address(text) {
            None => Err(BuildErrorView::InvalidPubkey),
            Some(key) => Ok(
                meta(
                    key,
                    match a.is_signer {
                        Some(b) => b,
                        None => false,
                    },
                    match a.is_writable {
                        Some(b) => b,
                        None => false,
                    },
                ),
            ),
        },
    }
}

/// The account entries read in order: the first entry that fails decides
/// the error.
pub open spec fn spec_parse_accounts(accounts: Seq<JupiterAccountView>) -> Result<Seq<AccountMetaView>, BuildErrorView>
    decreases accounts.len(),
{
    if accounts.len() == 0 {
        Ok(seq![])
    } else {
        match spec_parse_accounts(accounts.drop_last()) {
            Err(e) => Err(e),
            Ok(metas) => match spec_parse_account(accounts.last()) {
                Err(e) => Err(e),
                Ok(m) => Ok(metas.push(m)),
            },
        }
    }
}

/// A Jupiter instruction read into an instruction: the program id, then the
/// accounts, then the base64 data, each checked in that order.
pub open spec fn spec_parse_jupiter_instruction(ix: JupiterInstructionView) -> Result<InstructionView, BuildErrorView> {
    match ix.program_id {
        None => Err(BuildErrorView::MissingProgramId),
        Some(text) => match base58_address(text) {
            None => Err(BuildErrorView::InvalidPubkey),
            Some(program_id) => match ix.accounts {
                None => Err(BuildErrorView::MissingAccounts),
                Some(accounts) => match spec_parse_accounts(accounts) {
                    Err(e) => Err(e),
                    Ok(metas) => match ix.data {
                        None => Err(BuildErrorView::MissingData),
                        Some(data) => match base64_standard_decode(data) {
                            None => Err(BuildErrorView::InvalidInstructionData),
                            Some(bytes) => Ok(InstructionView { program_id, accounts: metas, data: bytes }),
                        },
                    },
                },
            },
        },
    }
}

/// The view of a parse result.
pub open spec fn instruction_result_view(r: Result<Instruction, BuildError>) -> Result<InstructionView, BuildErrorView> {
    match r {
        Ok(ix) => Ok(ix@),
        Err(e) => Err(e@),
    }
}

fn parse_account(a: &JupiterAccount) -> (res: Result<AccountMeta, BuildError>)
    ensures
        match res {
            Ok(m) => spec_parse_account(a@) == Ok::<AccountMetaView, BuildErrorView>(m@),
            Err(e) => spec_parse_account(a@) == Err::<AccountMetaView, BuildErrorView>(e@),
        },
{
    let text = match &a.pubkey {
        Some(t) => t,
        None => return Err(BuildError::MissingAccountPubkey),
    };
    let key = match address_from_str(text.as_str()) {
        Some(k) => k,
        None => return Err(BuildError::InvalidPubkey),
    };
    let is_signer = match a.is_signer {
        Some(b) => b,
        None => false,
    };
    let is_writable = match a.is_writable {
        Some(b) => b,
        None => false,
    };
    Ok(AccountMeta { pubkey: key, is_signer, is_writable })
}

/// Reads one instruction of the Jupiter API into an instruction: `programId`
/// must be an address, each account entry must carry an address (its flags
/// default to `false`), and `data` must be standard base64; the first check
/// that fails gives the error.
#[verifier::loop_isolation(false)]
pub fn parse_jupiter_instruction(ix: &JupiterInstruction) -> (res: Result<Instruction, BuildError>)
    ensures
        instruction_result_view(res) == spec_parse_jupiter_instruction(ix@),
{
    let text = match &ix.program_id {
        Some(t) => t,
        None => return Err(BuildError::MissingProgramId),
    };
    let program_id = match address_from_str(text.as_str()) {
        Some(k) => k,
        None => return Err(BuildError::InvalidPubkey),
    };
    let accounts_in = match &ix.accounts {
        Some(v) => v,
        None => return Err(BuildError::MissingAccounts),
    };
    let ghost src = accounts_in@.map_values(|a: JupiterAccount| a@);
    let mut accounts: Vec<AccountMeta> = Vec::new();
    let n = accounts_in.len();
    assert(src.take(0) =~= Seq::<JupiterAccountView>::empty());
    assert(accounts@.map_values(|m: AccountMeta| m@) =~= Seq::<AccountMetaView>::empty());
    for i in 0..n
        invariant
            n == accounts_in.len(),
            src == accounts_in@.map_values(|a: JupiterAccount| a@),
            spec_parse_accounts(src.take(i as int)) == Ok::<Seq<AccountMetaView>, BuildErrorView>(
                accounts@.map_values(|m: AccountMeta| m@),
            ),
    {
        assert(src.take(i + 1).drop_last() =~= src.take(i as int));
        assert(src.take(i + 1).last() == accounts_in@[i as int]@);
        let ghost before = accounts@;
        let m = match parse_account(&accounts_in[i]) {
            Ok(m) => m,
            Err(e) => {
                assert(spec_parse_accounts(src.take(i + 1)) == Err::<Seq<AccountMetaView>, BuildErrorView>(e@));
                proof {
                    lemma_parse_accounts_prefix_err(src, i + 1);
                }
                return Err(e);
            },
        };
        accounts.push(m);
        assert(accounts@.map_values(|m: AccountMeta| m@) =~= before.map_values(
            |m: AccountMeta| m@,
        ).push(m@));
    }
    assert(src.take(n as int) =~= src);
    let data_text = match &ix.data {
        Some(t) => t,
        None => return Err(BuildError::MissingData),
    };
    let data = match decode_base64(data_text.as_str()) {
        Some(d) => d,
        None => return Err(BuildError::InvalidInstructionData),
    };
    let res = Instruction { program_id, accounts, data };
    assert(res@.accounts =~= accounts@.map_values(|m: AccountMeta| m@));
    Ok(res)
}

/// Once a prefix of the account entries fails, every longer prefix fails
/// with the same error.
proof fn lemma_parse_accounts_prefix_err(s: Seq<JupiterAccountView>, k: int)
    requires
        0 <= k <= s.len(),
        spec_parse_accounts(s.take(k)) is Err,
    ensures
        spec_parse_accounts(s) == spec_parse_accounts(s.take(k)),
    decreases s.len() - k,
{
    if k < s.len() {
        assert(s.take(k + 1).drop_last() =~= s.take(k));
        lemma_parse_accounts_prefix_err(s, k + 1);
    } else {
        assert(s.take(k) =~= s);
    }
}

/// Reading account entries gives one account per entry, in the same order:
/// the address that the entry's `pubkey` text names, marked as a signer or
/// writable exactly when the entry says `true` for that flag. It succeeds
/// exactly when every entry carries a valid address, and otherwise fails for
/// a missing or invalid address.
pub proof fn lemma_accounts_read_in_order(accs: Seq<JupiterAccountView>)
    ensures
        spec_parse_accounts(accs) is Ok <==> forall|i: int| 0 <= i < accs.len() ==> ((#[trigger] accs[i]).pubkey matches Some(p) && base58_address(p) is Some),
        spec_parse_accounts(accs) matches Ok(metas) ==> metas.len() == accs.len(),
        spec_parse_accounts(accs) matches Ok(metas) ==> forall|i: int| 0 <= i < accs.len() ==> {
            &&& (#[trigger] accs[i]).pubkey matches Some(p) && base58_address(p) == Some(metas[i].pubkey)
            &&& metas[i].is_signer == (accs[i].is_signer == Some(true))
            &&& metas[i].is_writable == (accs[i].is_writable == Some(true))
        },
        spec_parse_accounts(accs) matches Err(e) ==> (e == BuildErrorView::MissingAccountPubkey || e == BuildErrorView::InvalidPubkey),
    decreases accs.len(),
{
    if accs.len() > 0 {
        let prev = accs.drop_last();
        let last = accs.last();
        lemma_accounts_read_in_order(prev);
        assert forall|i: int| 0 <= i < prev.len() implies prev[i] == accs[i] by {}
        match spec_parse_accounts(prev) {
            Err(e) => {
                let k = choose|k: int| 0 <= k < prev.len() && !((#[trigger] prev[k]).pubkey matches Some(p) && base58_address(p) is Some);
                assert(prev[k] == accs[k]);
            },
            Ok(metas) => {
                match spec_parse_account(last) {
                    Err(e) => {
                        assert(accs[accs.len() - 1] == last);
                    },
                    Ok(m) => {
                        let all = metas.push(m);
                        assert forall|i: int| 0 <= i < accs.len() implies ((#[trigger] accs[i]).pubkey matches Some(p) && base58_address(p) is Some) by {
                            if i < prev.len() {
                                assert(prev[i] == accs[i]);
                            }
                        }
                        assert forall|i: int| 0 <= i < accs.len() implies {
                            &&& (#[trigger] accs[i]).pubkey matches Some(p) && base58_address(p) == Some(all[i].pubkey)
                            &&& all[i].is_signer == (accs[i].is_signer == Some(true))
                            &&& all[i].is_writable == (accs[i].is_writable == Some(true))
                        } by {
                            if i < prev.len() {
                                assert(prev[i] == accs[i]);
                                assert(all[i] == metas[i]);
                            } else {
                                assert(accs[i] == last);
                            }
                        }
                    },
                }
            },
        }
    }
}

/// What reading one Jupiter instruction gives: the program the `programId`
/// text names, one account per account entry in order (as
/// `lemma_accounts_read_in_order` says), and the bytes the `data` text
/// decodes to. It succeeds exactly when each of these can be read, and
/// every failure is one of the reading errors.
pub proof fn lemma_instruction_read(ix: JupiterInstructionView)
    ensures
        spec_parse_jupiter_instruction(ix) is Ok <==> {
            &&& ix.program_id matches Some(t) && base58_address(t) is Some
            &&& ix.accounts matches Some(accs) && forall|i: int| 0 <= i < accs.len() ==> ((#[trigger] accs[i]).pubkey matches Some(p) && base58_address(p) is Some)
            &&& ix.data matches Some(d) && base64_standard_decode(d) is Some
        },
        spec_parse_jupiter_instruction(ix) matches Ok(out) ==> {
            &&& ix.program_id matches Some(t) && base58_address(t) == Some(out.program_id)
            &&& ix.data matches Some(d) && base64_standard_decode(d) == Some(out.data)
            &&& ix.accounts matches Some(accs) && out.accounts.len() == accs.len()
        },
        spec_parse_jupiter_instruction(ix) matches Ok(out) ==> (ix.accounts matches Some(accs) && forall|i: int| 0 <= i < accs.len() ==> {
            &&& (#[trigger] accs[i]).pubkey matches Some(p) && base58_address(p) == Some(out.accounts[i].pubkey)
            &&& out.accounts[i].is_signer == (accs[i].is_signer == Some(true))
            &&& out.accounts[i].is_writable == (accs[i].is_writable == Some(true))
        }),
        spec_parse_jupiter_instruction(ix) matches Err(e) ==> reading_error(e),
{
    if let Some(accs) = ix.accounts {
        lemma_accounts_read_in_order(accs);
    }
}

/// The errors that reading a Jupiter instruction can give.
pub open spec fn reading_error(e: BuildErrorView) -> bool {
    ||| e == BuildErrorView::MissingProgramId
    ||| e == BuildErrorView::InvalidPubkey
    ||| e == BuildErrorView::MissingAccounts
    ||| e == BuildErrorView::MissingAccountPubkey
    ||| e == BuildErrorView::MissingData
    ||| e == BuildErrorView::InvalidInstructionData
}

/// Why the swap-instructions answer could not be used.
#[derive(Debug, Clone, PartialEq, Eq)]
pub enum SwapResponseError {
    /// The answer has no `swapInstruction`.
    MissingSwapInstruction,
}

/// The instructions of a swap in the order they run: the setup
/// instructions (when the answer has an array of them), the swap
/// instruction, which is required, and the cleanup instruction when the
/// answer has one that is not null.
pub fn collect_swap_instructions(
    setup: Option<Vec<JupiterInstruction>>,
    swap: Option<JupiterInstruction>,
    cleanup: Option<JupiterInstruction>,
) -> (res: Result<Vec<JupiterInstruction>, SwapResponseError>)
    ensures
        match swap {
            None => res == Err::<Vec<JupiterInstruction>, SwapResponseError>(SwapResponseError::MissingSwapInstruction),
            Some(s) => res matches Ok(all) && all@ == (match setup {
                Some(v) => v@,
                None => Seq::<JupiterInstruction>::empty(),
            }) + seq![s] + (match cleanup {
                Some(c) => seq![c],
                None => Seq::<JupiterInstruction>::empty(),
            }),
        },
{
    let mut all: Vec<JupiterInstruction> = match setup {
        Some(v) => v,
        None => Vec::new(),
    };
    let ghost setup_view = all@;
    match swap {
        None => Err(SwapResponseError::MissingSwapInstruction),
        Some(s) => {
            all.push(s);
            match cleanup {
                Some(c) => {
                    all.push(c);
                    assert(all@ =~= setup_view + seq![s] + seq![c]);
                },
                None => {
                    assert(all@ =~= setup_view + seq![s] + Seq::<JupiterInstruction>::empty());
                },
            }
            Ok(all)
        },
    }
}

} // verus!
