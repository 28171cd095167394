//! Which sender each sent transaction was sent through.
use vstd::prelude::*;

verus! {

/// Whether two signatures are the same 64 bytes.
pub fn same_signature(a: &[u8; 64], b: &[u8; 64]) -> (same: bool)
    ensures
        same == (a@ == b@),
{
    let mut i: usize = 0;
    while i < 64
        invariant
            i <= 64,
            a@.len() == 64,
            b@.len() == 64,
            forall|j: int| 0 <= j < i ==> a@[j] == b@[j],
        decreases 64 - i,
    {
        if a[i] != b[i] {
            return false;
        }
        i = i + 1;
    }
    assert(a@ =~= b@);
    true
}

/// The signatures of the sent transactions, each with the name of the
/// sender it went through.
pub struct Tracker {
    entries: Vec<([u8; 64], String)>,
    senders: Ghost<Map<Seq<u8>, Seq<char>>>,
}

impl View for Tracker {
    type V = Map<Seq<u8>, Seq<char>>;

    closed spec fn view(&self) -> Map<Seq<u8>, Seq<char>> {
        self.senders@
    }
}

impl Tracker {
    /// The entries hold each signature once, and they are exactly the map.
    #[verifier::type_invariant]
    spec fn well_formed(self) -> bool {
        &&& self.senders@.dom().finite()
        &&& self.senders@.dom().len() == self.entries@.len()
        &&& forall|i: int, j: int|
            0 <= i < j < self.entries@.len() ==> #[trigger] self.entries@[i].0@ != #[trigger] self.entries@[j].0@
        &&& forall|i: int|
            0 <= i < self.entries@.len() ==> #[trigger] self.senders@.contains_key(self.entries@[i].0@)
                && self.senders@[self.entries@[i].0@] == self.entries@[i].1@
        &&& forall|k: Seq<u8>|
            #[trigger] self.senders@.contains_key(k) ==> exists|i: int|
                0 <= i < self.entries@.len() && #[trigger] self.entries@[i].0@ == k
    }

    /// An empty tracker.
    pub fn new() -> (t: Tracker)
        ensures
            t@ == Map::<Seq<u8>, Seq<char>>::empty(),
    {
        Tracker { entries: Vec::new(), senders: Ghost(Map::empty()) }
    }

    /// The position of a signature among the entries.
    fn find(&self, signature: &[u8; 64]) -> (at: Option<usize>)
        ensures
            match at {
                Some(i) => i < self.entries@.len() && self.entries@[i as int].0@ == signature@,
                None => !self@.contains_key(signature@),
            },
    {
        proof {
            use_type_invariant(self);
        }
        let n = self.entries.len();
        for i in 0..n
            invariant
                n == self.entries@.len(),
                self.well_formed(),
                forall|j: int| 0 <= j < i ==> self.entries@[j].0@ != signature@,
        {
            if same_signature(&self.entries[i].0, signature) {
                return Some(i);
            }
        }
        proof {
            if self@.contains_key(signature@) {
                let i = choose|i: int| 0 <= i < self.entries@.len() && #[trigger] self.entries@[i].0@ == signature@;
                assert(self.entries@[i].0@ != signature@);
            }
        }
        None
    }

    /// Records that a transaction with this signature was sent through the
    /// named sender; a signature recorded before is given the new name.
    pub fn record_signature(&mut self, signature: [u8; 64], sender_name: String)
        ensures
            final(self)@ == old(self)@.insert(signature@, sender_name@),
    {
        let found = self.find(&signature);
        let mut taken = Tracker::new();
        std::mem::swap(self, &mut taken);
        proof {
            use_type_invariant(&taken);
        }
        let ghost old_map = taken.senders@;
        let ghost old_entries = taken.entries@;
        let ghost key = signature@;
        let ghost name = sender_name@;
        let ghost new_map = old_map.insert(key, name);
        let Tracker { mut entries, senders: _ } = taken;
        match found {
            Some(i) => {
                entries.set(i, (signature, sender_name));
                assert(old_map.dom().insert(key) =~= old_map.dom());
                assert forall|j: int| 0 <= j < entries@.len() implies #[trigger] entries@[j].0@ == old_entries[j].0@ by {}
                assert forall|k: Seq<u8>| #[trigger] new_map.contains_key(k) implies exists|j: int|
                    0 <= j < entries@.len() && #[trigger] entries@[j].0@ == k by {
                    let j = choose|j: int| 0 <= j < old_entries.len() && #[trigger] old_entries[j].0@ == k;
                    assert(entries@[j].0@ == k);
                }
                assert forall|j: int| 0 <= j < entries@.len() implies #[trigger] new_map.contains_key(entries@[j].0@)
                    && new_map[entries@[j].0@] == entries@[j].1@ by {
                    if j != i {
                        assert(old_map.contains_key(old_entries[j].0@));
                    }
                }
                assert forall|a: int, b: int| 0 <= a < b < entries@.len() implies #[trigger] entries@[a].0@
                    != #[trigger] entries@[b].0@ by {
                    assert(old_entries[a].0@ != old_entries[b].0@);
                }
            },
            None => {
                entries.push((signature, sender_name));
                assert forall|j: int| 0 <= j < old_entries.len() implies #[trigger] old_entries[j].0@ != key by {
                    assert(old_map.contains_key(old_entries[j].0@));
                }
                assert forall|k: Seq<u8>| #[trigger] new_map.contains_key(k) implies exists|j: int|
                    0 <= j < entries@.len() && #[trigger] entries@[j].0@ == k by {
                    if k == key {
                        assert(entries@[old_entries.len() as int].0@ == k);
                    } else {
                        let j = choose|j: int| 0 <= j < old_entries.len() && #[trigger] old_entries[j].0@ == k;
                        assert(entries@[j].0@ == k);
                    }
                }
                assert(new_map.dom() =~= old_map.dom().insert(key));
                assert(new_map.dom().len() == old_map.dom().len() + 1);
                assert forall|j: int| 0 <= j < entries@.len() implies #[trigger] new_map.contains_key(entries@[j].0@)
                    && new_map[entries@[j].0@] == entries@[j].1@ by {
                    if j < old_entries.len() {
                        assert(old_map.contains_key(old_entries[j].0@));
                    }
                }
                assert forall|a: int, b: int| 0 <= a < b < entries@.len() implies #[trigger] entries@[a].0@
                    != #[trigger] entries@[b].0@ by {
                    if b < old_entries.len() {
                        assert(old_entries[a].0@ != old_entries[b].0@);
                    } else {
                        assert(old_entries[a].0@ != key);
                    }
                }
            },
        }
        *self = Tracker { entries, senders: Ghost(new_map) };
    }

    /// How many signatures are recorded.
    pub fn len(&self) -> (n: usize)
        ensures
            n == self@.len(),
    {
        proof {
            use_type_invariant(self);
        }
        self.entries.len()
    }

    /// The sender a signature was sent through, if it was recorded.
    pub fn sender_of(&self, signature: &[u8; 64]) -> (name: Option<&String>)
        ensures
            match name {
                Some(n) => self@.contains_key(signature@) && self@[signature@] == n@,
                None => !self@.contains_key(signature@),
            },
    {
        proof {
            use_type_invariant(self);
        }
        match self.find(signature) {
            Some(i) => {
                assert(self.senders@.contains_key(self.entries@[i as int].0@));
                Some(&self.entries[i].1)
            },
            None => None,
        }
    }

    /// Every recorded signature, once each.
    pub fn signatures(&self) -> (sigs: Vec<[u8; 64]>)
        ensures
            sigs@.len() == self@.len(),
            forall|i: int, j: int| 0 <= i < j < sigs@.len() ==> #[trigger] sigs@[i]@ != #[trigger] sigs@[j]@,
            forall|i: int| 0 <= i < sigs@.len() ==> self@.contains_key(#[trigger] sigs@[i]@),
            forall|k: Seq<u8>| #[trigger] self@.contains_key(k) ==> exists|i: int|
                0 <= i < sigs@.len() && #[trigger] sigs@[i]@ == k,
    {
        proof {
            use_type_invariant(self);
        }
        let mut sigs: Vec<[u8; 64]> = Vec::new();
        let n = self.entries.len();
        for i in 0..n
            invariant
                n == self.entries@.len(),
                self.well_formed(),
                sigs@.len() == i,
                forall|j: int| 0 <= j < i ==> #[trigger] sigs@[j] == self.entries@[j].0,
        {
            sigs.push(self.entries[i].0);
        }
        assert forall|k: Seq<u8>| #[trigger] self@.contains_key(k) implies exists|i: int|
            0 <= i < sigs@.len() && #[trigger] sigs@[i]@ == k by {
            let j = choose|j: int| 0 <= j < self.entries@.len() && #[trigger] self.entries@[j].0@ == k;
            assert(sigs@[j]@ == k);
        }
        assert forall|i: int, j: int| 0 <= i < j < sigs@.len() implies #[trigger] sigs@[i]@ != #[trigger] sigs@[j]@ by {
            assert(sigs@[i] == self.entries@[i].0);
            assert(sigs@[j] == self.entries@[j].0);
        }
        assert forall|i: int| 0 <= i < sigs@.len() implies self@.contains_key(#[trigger] sigs@[i]@) by {
            assert(sigs@[i] == self.entries@[i].0);
        }
        sigs
    }
}

/// What a read gives back of a write: after a signature is recorded, the
/// tracker names the recorded sender for it and still names the earlier
/// sender for every other signature.
pub proof fn lemma_record_then_lookup(
    before: Map<Seq<u8>, Seq<char>>,
    signature: Seq<u8>,
    sender: Seq<char>,
    other: Seq<u8>,
)
    requires
        other != signature,
    ensures
        before.insert(signature, sender).contains_key(signature),
        before.insert(signature, sender)[signature] == sender,
        before.insert(signature, sender).contains_key(other) == before.contains_key(other),
        before.insert(signature, sender)[other] == before[other],
{
}

} // verus!
