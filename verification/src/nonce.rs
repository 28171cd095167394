//! Durable nonce accounts: which one to use next, and the blockhash that an
//! account holds.
use vstd::prelude::*;
use solana_nonce::state::State as NonceState;
use solana_nonce::versions::Versions as NonceVersions;
use crate::address::{address_from_str, base58_address};

verus! {

/// A nonce account and the durable blockhash it currently holds.
#[derive(Debug, Clone, Copy)]
pub struct NonceInfo {
    pub pubkey: [u8; 32],
    pub blockhash: [u8; 32],
}

/// Why a nonce account could not be used.
#[derive(Debug, Clone, PartialEq, Eq)]
pub enum NonceError {
    /// A configured nonce address that is not the base58 text of an address.
    InvalidPubkey { nonce: String },
    /// The configuration lists no nonce account.
    EmptyNonceList,
    /// The account holds a nonce that was never initialized.
    Uninitialized { legacy: bool },
    /// The account's data is not a nonce account.
    UndecodableAccount,
}

/// Where the round robin stands: the position handed out next, and how
/// many accounts were handed out so far.
struct Cursor {
    index: usize,
    turns: Ghost<nat>,
}

/// The nonce accounts of the configuration, handed out in turn.
pub struct NonceManager {
    nonces: Vec<[u8; 32]>,
    cursor: Cursor,
}

impl NonceManager {
    #[verifier::type_invariant]
    spec fn well_formed(self) -> bool {
        &&& self.nonces@.len() > 0
        &&& self.cursor.index == self.cursor.turns@ % (self.nonces@.len() as nat)
    }

    /// How many accounts were handed out since the manager was made.
    pub closed spec fn turns(self) -> nat {
        self.cursor.turns@
    }

    /// The nonce accounts, in the order of the configuration.
    pub closed spec fn accounts(self) -> Seq<Seq<u8>> {
        self.nonces@.map_values(|k: [u8; 32]| k@)
    }

    /// The position of the account that is handed out next.
    pub closed spec fn position(self) -> nat {
        self.cursor.index as nat
    }

    /// Reads the configured nonce addresses. The first text that is not an
    /// address is reported; an empty list is refused after that.
    pub fn new(nonces_b58: &[String]) -> (res: Result<NonceManager, NonceError>)
        ensures
            match res {
                Ok(m) => {
                    &&& nonces_b58@.len() > 0
                    &&& m.position() == 0
                    &&& m.turns() == 0
                    &&& m.accounts().len() == nonces_b58@.len()
                    &&& forall|i: int| 0 <= i < nonces_b58@.len()
                        ==> base58_address(#[trigger] nonces_b58@[i]@) == Some(m.accounts()[i])
                },
                Err(NonceError::InvalidPubkey { nonce }) => exists|i: int| {
                    &&& 0 <= i < nonces_b58@.len()
                    &&& base58_address(#[trigger] nonces_b58@[i]@) is None
                    &&& nonce@ == nonces_b58@[i]@
                    &&& forall|j: int| 0 <= j < i ==> base58_address(#[trigger] nonces_b58@[j]@) is Some
                },
                Err(NonceError::EmptyNonceList) => nonces_b58@.len() == 0,
                Err(_) => false,
            },
    {
        let mut nonces: Vec<[u8; 32]> = Vec::new();
        let n = nonces_b58.len();
        for i in 0..n
            invariant
                n == nonces_b58@.len(),
                nonces@.len() == i,
                forall|j: int| 0 <= j < i ==> base58_address(#[trigger] nonces_b58@[j]@) == Some(nonces@[j]@),
        {
            match address_from_str(nonces_b58[i].as_str()) {
                Some(key) => nonces.push(key),
                None => {
                    let ghost at = i as int;
                    assert(base58_address(nonces_b58@[at]@) is None);
                    assert forall|j: int| 0 <= j < at implies base58_address(#[trigger] nonces_b58@[j]@) is Some by {
                        assert(base58_address(nonces_b58@[j]@) == Some(nonces@[j]@));
                    }
                    return Err(NonceError::InvalidPubkey { nonce: nonces_b58[i].clone() });
                },
            }
        }
        if nonces.len() == 0 {
            return Err(NonceError::EmptyNonceList);
        }
        proof {
            vstd::arithmetic::div_mod::lemma_small_mod(0, nonces@.len() as nat);
        }
        let m = NonceManager { nonces, cursor: Cursor { index: 0, turns: Ghost(0) } };
        assert forall|i: int| 0 <= i < nonces_b58@.len() implies base58_address(
            #[trigger] nonces_b58@[i]@,
        ) == Some(m.accounts()[i]) by {
            assert(base58_address(nonces_b58@[i]@) == Some(m.nonces@[i]@));
        }
        Ok(m)
    }

    /// Hands out the nonce account whose turn it is and moves on to the
    /// next, wrapping around after the last: the call after `k` earlier ones
    /// hands out the account at `k` modulo their number (round robin, in
    /// the order of the configuration).
    pub fn next_nonce_account(&mut self) -> (pubkey: [u8; 32])
        ensures
            old(self).position() < old(self).accounts().len(),
            old(self).position() == old(self).turns() % old(self).accounts().len(),
            pubkey@ == old(self).accounts()[(old(self).turns() % old(self).accounts().len()) as int],
            final(self).accounts() == old(self).accounts(),
            final(self).turns() == old(self).turns() + 1,
            final(self).position() == (old(self).position() + 1) % old(self).accounts().len(),
    {
        proof {
            use_type_invariant(&*self);
        }
        let ghost n = self.nonces@.len() as nat;
        let ghost t = self.cursor.turns@;
        let index = self.cursor.index;
        let pubkey = self.nonces[index];
        let next = if index == self.nonces.len() - 1 {
            proof {
                vstd::arithmetic::div_mod::lemma_mod_self_0(n as int);
            }
            0
        } else {
            proof {
                vstd::arithmetic::div_mod::lemma_small_mod((index + 1) as nat, n);
            }
            index + 1
        };
        proof {
            vstd::arithmetic::div_mod::lemma_add_mod_noop_right(1, t as int, n as int);
            assert(1 + t == t + 1);
        }
        self.cursor = Cursor { index: next, turns: Ghost(t + 1) };
        pubkey
    }
}

/// What the data of a nonce account says: whether it was written in the
/// legacy layout, and the durable blockhash once initialized.
pub enum NonceAccountState {
    Uninitialized { legacy: bool },
    Initialized { legacy: bool, blockhash: [u8; 32] },
}

pub enum NonceAccountView {
    Uninitialized { legacy: bool },
    Initialized { legacy: bool, blockhash: Seq<u8> },
}

impl View for NonceAccountState {
    type V = NonceAccountView;

    open spec fn view(&self) -> NonceAccountView {
        match self {
            NonceAccountState::Uninitialized { legacy } => NonceAccountView::Uninitialized { legacy: *legacy },
            NonceAccountState::Initialized { legacy, blockhash } => NonceAccountView::Initialized {
                legacy: *legacy,
                blockhash: blockhash@,
            },
        }
    }
}

/// The little-endian 32-bit number at `at`.
pub open spec fn u32_le_at(data: Seq<u8>, at: int) -> int {
    data[at] + data[at + 1] * 0x100 + data[at + 2] * 0x1_0000 + data[at + 3] * 0x100_0000
}

/// The bincode layout of a nonce account: a 32-bit version tag (0 legacy,
/// 1 current), a 32-bit state tag (0 uninitialized, 1 initialized), then the
/// authority (32 bytes), the durable blockhash (32 bytes) and the fee per
/// signature (8 bytes); bytes after that are ignored.
pub open spec fn decoded_nonce_account(data: Seq<u8>) -> Option<NonceAccountView> {
    if data.len() < 8 {
        None
    } else {
        let version = u32_le_at(data, 0);
        let state = u32_le_at(data, 4);
        if version > 1 || state > 1 {
            None
        } else if state == 0 {
            Some(NonceAccountView::Uninitialized { legacy: version == 0 })
        } else if data.len() < 80 {
            None
        } else {
            Some(NonceAccountView::Initialized { legacy: version == 0, blockhash: data.subrange(40, 72) })
        }
    }
}

/// Calls `bincode::deserialize` for `solana_nonce::versions::Versions` and
/// tells its variants apart. The contract claims the layout that bincode's
/// default options give the serde derives of `Versions`, `State` and `Data`
/// in their source.
#[verifier::external_body]
fn decode_nonce_account(data: &[u8]) -> (res: Option<NonceAccountState>)
    ensures
        match res {
            Some(state) => decoded_nonce_account(data@) == Some(state@),
            None => decoded_nonce_account(data@) is None,
        },
{
    match bincode::deserialize::<NonceVersions>(data) {
        Ok(NonceVersions::Legacy(state)) => match *state {
            NonceState::Uninitialized => Some(NonceAccountState::Uninitialized { legacy: true }),
            NonceState::Initialized(d) => Some(NonceAccountState::Initialized { legacy: true, blockhash: d.blockhash().to_bytes() }),
        },
        Ok(NonceVersions::Current(state)) => match *state {
            NonceState::Uninitialized => Some(NonceAccountState::Uninitialized { legacy: false }),
            NonceState::Initialized(d) => Some(NonceAccountState::Initialized { legacy: false, blockhash: d.blockhash().to_bytes() }),
        },
        Err(_) => None,
    }
}

/// What reading a nonce account's data gives: its durable blockhash, or
/// why there is none.
pub open spec fn nonce_hash_result(data: Seq<u8>, res: Result<[u8; 32], NonceError>) -> bool {
    match decoded_nonce_account(data) {
        None => res == Err::<[u8; 32], NonceError>(NonceError::UndecodableAccount),
        Some(NonceAccountView::Uninitialized { legacy }) => res == Err::<[u8; 32], NonceError>(
            NonceError::Uninitialized { legacy },
        ),
        Some(NonceAccountView::Initialized { blockhash, .. }) => res matches Ok(h) && h@ == blockhash,
    }
}

/// The durable blockhash that a nonce account's data holds, or why there is
/// none.
pub fn nonce_hash_from_account(data: &[u8]) -> (res: Result<[u8; 32], NonceError>)
    ensures
        nonce_hash_result(data@, res),
{
    match decode_nonce_account(data) {
        None => Err(NonceError::UndecodableAccount),
        Some(NonceAccountState::Uninitialized { legacy }) => Err(NonceError::Uninitialized { legacy }),
        Some(NonceAccountState::Initialized { blockhash, .. }) => Ok(blockhash),
    }
}

/// The number of times an account is requested before giving up.
pub const NONCE_FETCH_ATTEMPTS: u32 = 3;

/// The pause after a failed request, in milliseconds.
pub const NONCE_RETRY_DELAY_MS: u64 = 500;

/// What to do next while fetching a nonce account.
#[derive(Debug, Clone, Copy, PartialEq, Eq)]
pub enum FetchStep {
    /// Request the account from the RPC endpoint.
    RequestAccount,
    /// Every attempt failed: give up.
    GiveUp,
}

/// What became of an answered request.
#[derive(Debug, PartialEq, Eq)]
pub enum FetchAnswer {
    /// The account's data came: the fetch is over, with this outcome.
    Finished(Result<[u8; 32], NonceError>),
    /// The request failed: wait this many milliseconds, then take the next
    /// step.
    RetryAfter(u64),
}

/// The state of fetching one nonce account: how many requests may still be
/// made.
pub struct NonceFetch {
    retries_left: u32,
}

impl View for NonceFetch {
    type V = nat;

    closed spec fn view(&self) -> nat {
        self.retries_left as nat
    }
}

impl NonceFetch {
    /// A fetch that may request the account three times.
    pub fn new() -> (f: NonceFetch)
        ensures
            f@ == NONCE_FETCH_ATTEMPTS,
    {
        NonceFetch { retries_left: NONCE_FETCH_ATTEMPTS }
    }

    /// Request while attempts are left; give up otherwise.
    pub fn next_step(&self) -> (step: FetchStep)
        ensures
            step == (if self@ > 0 { FetchStep::RequestAccount } else { FetchStep::GiveUp }),
    {
        if self.retries_left > 0 {
            FetchStep::RequestAccount
        } else {
            FetchStep::GiveUp
        }
    }

    /// A request was answered, with the account's data or (`None`) not at
    /// all. The first data that comes ends the fetch with what it holds; a
    /// failed request uses up one attempt and asks for a pause.
    pub fn on_answer(&mut self, answer: Option<&[u8]>) -> (res: FetchAnswer)
        requires
            old(self)@ > 0,
        ensures
            match answer {
                Some(data) => {
                    &&& final(self)@ == old(self)@
                    &&& res matches FetchAnswer::Finished(r) && nonce_hash_result(data@, r)
                },
                None => {
                    &&& final(self)@ == old(self)@ - 1
                    &&& res == FetchAnswer::RetryAfter(NONCE_RETRY_DELAY_MS)
                },
            },
    {
        match answer {
            Some(data) => FetchAnswer::Finished(nonce_hash_from_account(data)),
            None => FetchAnswer::RetryAfter(self.on_request_failed()),
        }
    }

    /// How many more requests may be made.
    pub fn retries_left(&self) -> (n: u32)
        ensures
            n == self@,
    {
        self.retries_left
    }

    /// A request failed: one attempt fewer is left, and the caller waits the
    /// returned number of milliseconds before the next step.
    pub fn on_request_failed(&mut self) -> (delay_ms: u64)
        requires
            old(self)@ > 0,
        ensures
            final(self)@ == old(self)@ - 1,
            delay_ms == NONCE_RETRY_DELAY_MS,
    {
        self.retries_left = self.retries_left - 1;
        NONCE_RETRY_DELAY_MS
    }
}

/// Fetching a nonce account as `NonceFetch` drives it, when the requests
/// answer `answers` in turn (`None` for a failed request, `Some(data)` for
/// the account's data) and `left` requests may still be made: a request is
/// made while one is left (`next_step`), a failure uses one up and the
/// first data read decides the outcome (`on_answer`). The result is what the data decodes to, or
/// `None` once every request failed, with the number of requests made.
pub open spec fn fetch_outcome(answers: Seq<Option<Seq<u8>>>, left: nat) -> (Option<Option<NonceAccountView>>, nat)
    decreases left,
{
    if left == 0 || answers.len() == 0 {
        (None, 0)
    } else {
        match answers[0] {
            Some(data) => (Some(decoded_nonce_account(data)), 1),
            None => {
                let rest = fetch_outcome(answers.drop_first(), (left - 1) as nat);
                (rest.0, rest.1 + 1)
            },
        }
    }
}

/// Failed requests are masked by retrying: when fewer than three requests
/// fail before the account's data comes, the outcome is what that data
/// decodes to, exactly as if the first request had succeeded, and the
/// account was requested once per failure plus once more.
pub proof fn lemma_retries_mask_failures(answers: Seq<Option<Seq<u8>>>, k: nat, data: Seq<u8>)
    requires
        k < NONCE_FETCH_ATTEMPTS,
        k < answers.len(),
        forall|i: int| 0 <= i < k ==> #[trigger] answers[i] is None,
        answers[k as int] == Some(data),
    ensures
        fetch_outcome(answers, NONCE_FETCH_ATTEMPTS as nat) == (Some(decoded_nonce_account(data)), k + 1),
        fetch_outcome(answers, NONCE_FETCH_ATTEMPTS as nat).0 == fetch_outcome(seq![Some(data)], NONCE_FETCH_ATTEMPTS as nat).0,
{
    lemma_fetch_after_failures(answers, k, data, NONCE_FETCH_ATTEMPTS as nat);
}

proof fn lemma_fetch_after_failures(answers: Seq<Option<Seq<u8>>>, k: nat, data: Seq<u8>, left: nat)
    requires
        k < left,
        k < answers.len(),
        forall|i: int| 0 <= i < k ==> #[trigger] answers[i] is None,
        answers[k as int] == Some(data),
    ensures
        fetch_outcome(answers, left) == (Some(decoded_nonce_account(data)), k + 1),
    decreases k,
{
    if k > 0 {
        let rest = answers.drop_first();
        assert(answers[0] is None);
        assert forall|i: int| 0 <= i < k - 1 implies #[trigger] rest[i] is None by {
            assert(answers[i + 1] is None);
        }
        lemma_fetch_after_failures(rest, (k - 1) as nat, data, (left - 1) as nat);
    }
}

/// Every request failing uses up all three: the fetch then gives up after
/// exactly three requests.
pub proof fn lemma_gives_up_after_three_failures(answers: Seq<Option<Seq<u8>>>)
    requires
        answers.len() >= NONCE_FETCH_ATTEMPTS,
        forall|i: int| 0 <= i < NONCE_FETCH_ATTEMPTS ==> #[trigger] answers[i] is None,
    ensures
        fetch_outcome(answers, NONCE_FETCH_ATTEMPTS as nat) == (None::<Option<NonceAccountView>>, 3nat),
{
    let a1 = answers.drop_first();
    let a2 = a1.drop_first();
    let a3 = a2.drop_first();
    assert(answers[0] is None && answers[1] is None && answers[2] is None);
    assert(a1[0] == answers[1] && a2[0] == answers[2]);
    assert(fetch_outcome(a3, 0) == (None::<Option<NonceAccountView>>, 0nat));
    assert(fetch_outcome(a2, 1) == (None::<Option<NonceAccountView>>, 1nat));
    assert(fetch_outcome(a1, 2) == (None::<Option<NonceAccountView>>, 2nat));
}

} // verus!
