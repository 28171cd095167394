//! Counting, per sender, the transactions that landed, and ranking the
//! senders for the summary.
use vstd::prelude::*;
use crate::tracker::{Tracker, same_signature};

verus! {

/// How many signatures are asked about in one status request.
pub const STATUS_BATCH_SIZE: usize = 200;

/// Splits the signatures into consecutive batches of `size`, the last one
/// possibly shorter.
pub fn signature_batches(signatures: &Vec<[u8; 64]>, size: usize) -> (batches: Vec<Vec<[u8; 64]>>)
    requires
        size > 0,
    ensures
        batches@.map_values(|b: Vec<[u8; 64]>| b@).flatten() == signatures@,
        forall|i: int| 0 <= i < batches@.len() ==> 0 < (#[trigger] batches@[i])@.len() <= size,
        forall|i: int| 0 <= i < batches@.len() - 1 ==> (#[trigger] batches@[i])@.len() == size,
{
    let mut batches: Vec<Vec<[u8; 64]>> = Vec::new();
    let mut current: Vec<[u8; 64]> = Vec::new();
    let n = signatures.len();
    assert(batches@.map_values(|b: Vec<[u8; 64]>| b@) =~= Seq::<Seq<[u8; 64]>>::empty());
    for i in 0..n
        invariant
            n == signatures@.len(),
            size > 0,
            current@.len() < size,
            batches@.map_values(|b: Vec<[u8; 64]>| b@).flatten() + current@ == signatures@.take(i as int),
            forall|j: int| 0 <= j < batches@.len() ==> (#[trigger] batches@[j])@.len() == size,
    {
        let ghost before = batches@.map_values(|b: Vec<[u8; 64]>| b@);
        current.push(signatures[i]);
        assert(signatures@.take(i + 1) =~= signatures@.take(i as int).push(signatures@[i as int]));
        assert(before.flatten() + current@ =~= signatures@.take(i + 1));
        if current.len() == size {
            let full = current;
            current = Vec::new();
            let ghost full_view = full@;
            batches.push(full);
            assert(batches@.map_values(|b: Vec<[u8; 64]>| b@) =~= before.push(full_view));
            proof {
                lemma_flatten_push(before, full_view);
            }
            assert(batches@.map_values(|b: Vec<[u8; 64]>| b@).flatten() + current@ =~= signatures@.take(i + 1));
        }
    }
    if current.len() > 0 {
        let ghost before = batches@.map_values(|b: Vec<[u8; 64]>| b@);
        let ghost last = current@;
        batches.push(current);
        assert(batches@.map_values(|b: Vec<[u8; 64]>| b@) =~= before.push(last));
        proof {
            lemma_flatten_push(before, last);
        }
    } else {
        assert(batches@.map_values(|b: Vec<[u8; 64]>| b@).flatten() =~= batches@.map_values(
            |b: Vec<[u8; 64]>| b@,
        ).flatten() + current@);
    }
    assert(signatures@.take(n as int) =~= signatures@);
    batches
}

/// Flattening a sequence of sequences after pushing one more is flattening
/// it before, followed by the new one.
pub proof fn lemma_flatten_push<A>(s: Seq<Seq<A>>, last: Seq<A>)
    ensures
        s.push(last).flatten() == s.flatten() + last,
    decreases s.len(),
{
    if s.len() == 0 {
        assert(s.push(last).drop_first() =~= Seq::<Seq<A>>::empty());
        assert(s.push(last).drop_first().flatten() =~= Seq::<A>::empty());
        assert(s.push(last).flatten() =~= last);
        assert(s.flatten() =~= Seq::<A>::empty());
    } else {
        lemma_flatten_push(s.drop_first(), last);
        assert(s.push(last).drop_first() =~= s.drop_first().push(last));
        assert(s.push(last).flatten() =~= s.first() + s.drop_first().push(last).flatten());
        assert(s.flatten() =~= s.first() + s.drop_first().flatten());
    }
}

/// The name and count of one sender, as sequences.
pub open spec fn tally_view(t: (String, usize)) -> (Seq<char>, nat) {
    (t.0@, t.1 as nat)
}

/// The position of a name among the tallies, if it is there.
pub open spec fn index_of_name(tallies: Seq<(Seq<char>, nat)>, name: Seq<char>) -> Option<int>
    decreases tallies.len(),
{
    if tallies.len() == 0 {
        None
    } else if tallies.last().0 == name {
        Some(tallies.len() - 1)
    } else {
        index_of_name(tallies.drop_last(), name)
    }
}

/// One more landed transaction for a sender: its count goes up by one, and
/// a sender not counted before is added with one.
pub open spec fn spec_record_landed(tallies: Seq<(Seq<char>, nat)>, name: Seq<char>) -> Seq<(Seq<char>, nat)> {
    match index_of_name(tallies, name) {
        Some(i) => tallies.update(i, (name, tallies[i].1 + 1)),
        None => tallies.push((name, 1nat)),
    }
}

/// The tallies of the configured senders before any status is known: each
/// name once, in the order of its first appearance, with nothing landed.
pub open spec fn spec_initial_tallies(names: Seq<Seq<char>>) -> Seq<(Seq<char>, nat)>
    decreases names.len(),
{
    if names.len() == 0 {
        seq![]
    } else {
        let prev = spec_initial_tallies(names.drop_last());
        match index_of_name(prev, names.last()) {
            Some(_) => prev,
            None => prev.push((names.last(), 0nat)),
        }
    }
}

/// The senders of the signatures that landed, in order: a signature counts
/// when its status says it landed and the tracker knows its sender; the two
/// lists are read side by side up to the shorter one.
pub open spec fn landed_senders(known: Map<Seq<u8>, Seq<char>>, signatures: Seq<Seq<u8>>, landed: Seq<bool>) -> Seq<Seq<char>>
    decreases signatures.len() + landed.len(),
{
    if signatures.len() == 0 || landed.len() == 0 {
        seq![]
    } else if signatures.len() > landed.len() {
        landed_senders(known, signatures.take(landed.len() as int), landed)
    } else if landed.len() > signatures.len() {
        landed_senders(known, signatures, landed.take(signatures.len() as int))
    } else {
        let prev = landed_senders(known, signatures.drop_last(), landed.drop_last());
        if landed.last() && known.contains_key(signatures.last()) {
            prev.push(known[signatures.last()])
        } else {
            prev
        }
    }
}

/// The tallies after counting the landed senders one by one.
pub open spec fn spec_record_all(tallies: Seq<(Seq<char>, nat)>, names: Seq<Seq<char>>) -> Seq<(Seq<char>, nat)>
    decreases names.len(),
{
    if names.len() == 0 {
        tallies
    } else {
        spec_record_landed(spec_record_all(tallies, names.drop_last()), names.last())
    }
}

/// The number of landed transactions over all senders.
pub open spec fn spec_total(tallies: Seq<(Seq<char>, nat)>) -> nat
    decreases tallies.len(),
{
    if tallies.len() == 0 {
        0
    } else {
        spec_total(tallies.drop_last()) + tallies.last().1
    }
}

/// The landed count of each sender, in the order the senders were first
/// seen.
pub struct LandedCounts {
    entries: Vec<(String, usize)>,
}

impl View for LandedCounts {
    type V = Seq<(Seq<char>, nat)>;

    closed spec fn view(&self) -> Seq<(Seq<char>, nat)> {
        tallies_of(self.entries@)
    }
}

/// The tallies that a list of (name, count) entries holds.
pub open spec fn tallies_of(entries: Seq<(String, usize)>) -> Seq<(Seq<char>, nat)> {
    entries.map_values(|t: (String, usize)| tally_view(t))
}

/// No name appears twice.
pub open spec fn distinct_names(entries: Seq<(String, usize)>) -> bool {
    forall|i: int, j: int| 0 <= i < j < entries.len() ==> #[trigger] entries[i].0@ != #[trigger] entries[j].0@
}

/// The position of the entry with this name.
fn find_name(entries: &Vec<(String, usize)>, name: &String) -> (at: Option<usize>)
    ensures
        match at {
            Some(i) => index_of_name(tallies_of(entries@), name@) == Some(i as int),
            None => index_of_name(tallies_of(entries@), name@) is None,
        },
{
    let ghost v = tallies_of(entries@);
    let mut i = entries.len();
    assert(v.take(i as int) =~= v);
    while i > 0
        invariant
            i <= entries@.len(),
            v == tallies_of(entries@),
            v.len() == entries@.len(),
            index_of_name(v.take(i as int), name@) == index_of_name(v, name@),
        decreases i,
    {
        i = i - 1;
        assert(v.take(i + 1).drop_last() =~= v.take(i as int));
        assert(v.take(i + 1).last() == tally_view(entries@[i as int]));
        if entries[i].0 == *name {
            return Some(i);
        }
    }
    None
}

/// `index_of_name` finds the last tally with the name, and only then says
/// it is absent.
pub proof fn lemma_index_of_name(tallies: Seq<(Seq<char>, nat)>, name: Seq<char>)
    ensures
        match index_of_name(tallies, name) {
            Some(i) => 0 <= i < tallies.len() && tallies[i].0 == name,
            None => forall|j: int| 0 <= j < tallies.len() ==> (#[trigger] tallies[j]).0 != name,
        },
    decreases tallies.len(),
{
    if tallies.len() > 0 {
        lemma_index_of_name(tallies.drop_last(), name);
        if tallies.last().0 != name && index_of_name(tallies.drop_last(), name) is None {
            assert forall|j: int| 0 <= j < tallies.len() - 1 implies (#[trigger] tallies[j]).0 != name by {
                assert(tallies.drop_last()[j] == tallies[j]);
            }
        }
    }
}

/// Each count is at most the total.
pub proof fn lemma_count_le_total(tallies: Seq<(Seq<char>, nat)>, i: int)
    requires
        0 <= i < tallies.len(),
    ensures
        tallies[i].1 <= spec_total(tallies),
    decreases tallies.len(),
{
    if i < tallies.len() - 1 {
        lemma_count_le_total(tallies.drop_last(), i);
    }
}

/// Raising one count by one raises the total by one.
pub proof fn lemma_total_update(tallies: Seq<(Seq<char>, nat)>, i: int, name: Seq<char>)
    requires
        0 <= i < tallies.len(),
    ensures
        spec_total(tallies.update(i, (name, tallies[i].1 + 1))) == spec_total(tallies) + 1,
    decreases tallies.len(),
{
    let t2 = tallies.update(i, (name, tallies[i].1 + 1));
    if i == tallies.len() - 1 {
        assert(t2.drop_last() =~= tallies.drop_last());
    } else {
        lemma_total_update(tallies.drop_last(), i, name);
        assert(t2.drop_last() =~= tallies.drop_last().update(i, (name, tallies[i].1 + 1)));
    }
}

/// Every landed transaction adds one to the total: after counting a batch,
/// the total has grown by the number of landed signatures whose sender is
/// known.
pub proof fn lemma_total_after_recording(tallies: Seq<(Seq<char>, nat)>, names: Seq<Seq<char>>)
    ensures
        spec_total(spec_record_all(tallies, names)) == spec_total(tallies) + names.len(),
    decreases names.len(),
{
    if names.len() > 0 {
        lemma_total_after_recording(tallies, names.drop_last());
        let t = spec_record_all(tallies, names.drop_last());
        lemma_index_of_name(t, names.last());
        match index_of_name(t, names.last()) {
            Some(i) => lemma_total_update(t, i, names.last()),
            None => {
                assert(t.push((names.last(), 1nat)).drop_last() =~= t);
            },
        }
    }
}

/// Reading both lists only up to the shorter one.
proof fn lemma_landed_senders_trim(known: Map<Seq<u8>, Seq<char>>, signatures: Seq<Seq<u8>>, landed: Seq<bool>, k: int)
    requires
        k == if signatures.len() < landed.len() { signatures.len() as int } else { landed.len() as int },
    ensures
        landed_senders(known, signatures, landed) == landed_senders(known, signatures.take(k), landed.take(k)),
{
    assert(signatures.take(k).len() == k);
    assert(landed.take(k).len() == k);
    if signatures.len() > landed.len() {
        assert(landed.take(k) =~= landed);
    } else if landed.len() > signatures.len() {
        assert(signatures.take(k) =~= signatures);
    } else {
        assert(landed.take(k) =~= landed);
        assert(signatures.take(k) =~= signatures);
    }
}

impl LandedCounts {
    /// Each sender appears once, and the landed counts add up to a `usize`.
    #[verifier::type_invariant]
    spec fn well_formed(self) -> bool {
        &&& distinct_names(self.entries@)
        &&& spec_total(tallies_of(self.entries@)) <= usize::MAX
    }

    /// The configured senders, each once and in the order of first
    /// appearance, with nothing landed yet.
    pub fn new(sender_names: &Vec<String>) -> (counts: LandedCounts)
        ensures
            counts@ == spec_initial_tallies(sender_names@.map_values(|s: String| s@)),
    {
        let ghost names = sender_names@.map_values(|s: String| s@);
        let mut entries: Vec<(String, usize)> = Vec::new();
        assert(names.take(0) =~= Seq::<Seq<char>>::empty());
        assert(tallies_of(entries@) =~= Seq::<(Seq<char>, nat)>::empty());
        let n = sender_names.len();
        for i in 0..n
            invariant
                n == sender_names@.len(),
                names == sender_names@.map_values(|s: String| s@),
                distinct_names(entries@),
                spec_total(tallies_of(entries@)) == 0,
                tallies_of(entries@) == spec_initial_tallies(names.take(i as int)),
        {
            assert(names.take(i + 1).drop_last() =~= names.take(i as int));
            assert(names.take(i + 1).last() == sender_names@[i as int]@);
            let ghost before = tallies_of(entries@);
            let ghost old_entries = entries@;
            match find_name(&entries, &sender_names[i]) {
                Some(_) => {},
                None => {
                    proof {
                        lemma_index_of_name(before, sender_names@[i as int]@);
                    }
                    entries.push((sender_names[i].clone(), 0));
                    assert(tallies_of(entries@) =~= before.push((sender_names@[i as int]@, 0nat)));
                    assert(tallies_of(entries@).drop_last() =~= before);
                    assert forall|a: int, b: int| 0 <= a < b < entries@.len() implies #[trigger] entries@[a].0@
                        != #[trigger] entries@[b].0@ by {
                        if b == entries@.len() - 1 {
                            assert(before[a] == tally_view(entries@[a]));
                        } else {
                            assert(entries@[a] == old_entries[a] && entries@[b] == old_entries[b]);
                        }
                    }
                },
            }
        }
        assert(names.take(n as int) =~= names);
        LandedCounts { entries }
    }

    /// Counts one more landed transaction for the named sender.
    pub fn record_landed(&mut self, name: &String)
        requires
            spec_total(old(self)@) < usize::MAX,
        ensures
            final(self)@ == spec_record_landed(old(self)@, name@),
    {
        proof {
            use_type_invariant(&*self);
        }
        let ghost before = self@;
        proof {
            lemma_index_of_name(before, name@);
        }
        let mut entries: Vec<(String, usize)> = Vec::new();
        std::mem::swap(&mut entries, &mut self.entries);
        let ghost old_entries = entries@;
        assert(tallies_of(old_entries) == before);
        match find_name(&entries, name) {
            Some(i) => {
                proof {
                    lemma_count_le_total(before, i as int);
                    lemma_total_update(before, i as int, name@);
                }
                let count = entries[i].1;
                let existing = entries[i].0.clone();
                entries.set(i, (existing, count + 1));
                assert(tallies_of(entries@) =~= before.update(i as int, (name@, before[i as int].1 + 1)));
                assert forall|a: int, b: int| 0 <= a < b < entries@.len() implies #[trigger] entries@[a].0@
                    != #[trigger] entries@[b].0@ by {
                    assert(entries@[a].0@ == old_entries[a].0@);
                    assert(entries@[b].0@ == old_entries[b].0@);
                }
            },
            None => {
                entries.push((name.clone(), 1));
                assert(tallies_of(entries@) =~= before.push((name@, 1nat)));
                assert(tallies_of(entries@).drop_last() =~= before);
                assert forall|a: int, b: int| 0 <= a < b < entries@.len() implies #[trigger] entries@[a].0@
                    != #[trigger] entries@[b].0@ by {
                    if b == entries@.len() - 1 {
                        assert(before[a] == tally_view(entries@[a]));
                    } else {
                        assert(entries@[a] == old_entries[a] && entries@[b] == old_entries[b]);
                    }
                }
            },
        }
        self.entries = entries;
    }

    /// Counts the landed transactions of one status answer: `landed[i]` says
    /// whether the transaction with `signatures[i]` landed, and it counts for
    /// the sender the tracker recorded for it.
    pub fn record_batch(&mut self, tracker: &Tracker, signatures: &[[u8; 64]], landed: &[bool])
        requires
            spec_total(old(self)@) + signatures@.len() <= usize::MAX,
        ensures
            final(self)@ == spec_record_all(
                old(self)@,
                landed_senders(tracker@, signatures@.map_values(|s: [u8; 64]| s@), landed@),
            ),
    {
        let ghost sigs = signatures@.map_values(|s: [u8; 64]| s@);
        let ghost start = self@;
        let n = if signatures.len() < landed.len() {
            signatures.len()
        } else {
            landed.len()
        };
        proof {
            lemma_landed_senders_trim(tracker@, sigs, landed@, n as int);
            assert(sigs.take(0) =~= Seq::<Seq<u8>>::empty());
            assert(landed@.take(0) =~= Seq::<bool>::empty());
        }
        for i in 0..n
            invariant
                n <= signatures@.len(),
                n <= landed@.len(),
                sigs == signatures@.map_values(|s: [u8; 64]| s@),
                spec_total(start) + signatures@.len() <= usize::MAX,
                self@ == spec_record_all(start, landed_senders(tracker@, sigs.take(i as int), landed@.take(i as int))),
                spec_total(self@) == spec_total(start) + landed_senders(tracker@, sigs.take(i as int), landed@.take(i as int)).len(),
                landed_senders(tracker@, sigs.take(i as int), landed@.take(i as int)).len() <= i,
        {
            let ghost names = landed_senders(tracker@, sigs.take(i as int), landed@.take(i as int));
            assert(sigs.take(i + 1).drop_last() =~= sigs.take(i as int));
            assert(landed@.take(i + 1).drop_last() =~= landed@.take(i as int));
            assert(sigs.take(i + 1).last() == signatures@[i as int]@);
            if landed[i] {
                match tracker.sender_of(&signatures[i]) {
                    Some(name) => {
                        self.record_landed(name);
                        proof {
                            lemma_total_after_recording(start, names.push(name@));
                            assert(names.push(name@).drop_last() =~= names);
                        }
                    },
                    None => {},
                }
            }
        }
    }

    /// The number of landed transactions over all senders.
    pub fn total(&self) -> (total: usize)
        ensures
            total == spec_total(self@),
    {
        proof {
            use_type_invariant(self);
        }
        let ghost v = self@;
        let mut total: usize = 0;
        let n = self.entries.len();
        assert(v.take(0) =~= Seq::<(Seq<char>, nat)>::empty());
        for i in 0..n
            invariant
                n == v.len(),
                v == self@,
                spec_total(v) <= usize::MAX,
                total == spec_total(v.take(i as int)),
        {
            assert(v.take(i + 1).drop_last() =~= v.take(i as int));
            proof {
                lemma_total_prefix_le(v, i + 1);
            }
            total = total + self.entries[i].1;
        }
        assert(v.take(n as int) =~= v);
        total
    }

    /// The senders with their landed counts, most first: the same tallies,
    /// reordered.
    pub fn ranked(&self) -> (ranking: Vec<(String, usize)>)
        ensures
            ranking@.map_values(|t: (String, usize)| tally_view(t)).to_multiset() == self@.to_multiset(),
            forall|a: int, b: int| 0 <= a < b < ranking@.len() ==> (#[trigger] ranking@[a]).1 >= (#[trigger] ranking@[b]).1,
    {
        let ghost v = self@;
        let mut ranking: Vec<(String, usize)> = Vec::new();
        let n = self.entries.len();
        broadcast use vstd::seq_lib::group_to_multiset_ensures;
        assert(v.take(0) =~= Seq::<(Seq<char>, nat)>::empty());
        assert(ranking@.map_values(|t: (String, usize)| tally_view(t)) =~= Seq::<(Seq<char>, nat)>::empty());
        for i in 0..n
            invariant
                n == v.len(),
                v == self@,
                ranking@.map_values(|t: (String, usize)| tally_view(t)).to_multiset() == v.take(i as int).to_multiset(),
                forall|a: int, b: int| 0 <= a < b < ranking@.len() ==> (#[trigger] ranking@[a]).1 >= (#[trigger] ranking@[b]).1,
        {
            let count = self.entries[i].1;
            let mut pos: usize = 0;
            while pos < ranking.len() && ranking[pos].1 >= count
                invariant
                    pos <= ranking@.len(),
                    forall|j: int| 0 <= j < pos ==> (#[trigger] ranking@[j]).1 >= count,
                decreases ranking@.len() - pos,
            {
                pos = pos + 1;
            }
            let ghost before = ranking@;
            let item = (self.entries[i].0.clone(), count);
            ranking.insert(pos, item);
            assert(ranking@ == before.insert(pos as int, item));
            proof {
                vstd::seq_lib::to_multiset_insert(
                    before.map_values(|t: (String, usize)| tally_view(t)),
                    pos as int,
                    tally_view(item),
                );
                vstd::seq_lib::to_multiset_build(v.take(i as int), v[i as int]);
            }
            assert(ranking@.map_values(|t: (String, usize)| tally_view(t)) =~= before.map_values(
                |t: (String, usize)| tally_view(t),
            ).insert(pos as int, tally_view(item)));
            assert(v.take(i + 1) =~= v.take(i as int).push(v[i as int]));
            assert(tally_view(item) == v[i as int]);
            assert forall|a: int, b: int| 0 <= a < b < ranking@.len() implies (#[trigger] ranking@[a]).1
                >= (#[trigger] ranking@[b]).1 by {
                if pos < before.len() && b > pos as int {
                    assert(before[pos as int].1 < count);
                }
            }
        }
        assert(v.take(n as int) =~= v);
        ranking
    }
}

/// A prefix's total is at most the whole total.
pub proof fn lemma_total_prefix_le(tallies: Seq<(Seq<char>, nat)>, k: int)
    requires
        0 <= k <= tallies.len(),
    ensures
        spec_total(tallies.take(k)) <= spec_total(tallies),
    decreases tallies.len() - k,
{
    if k < tallies.len() {
        lemma_total_prefix_le(tallies, k + 1);
        assert(tallies.take(k + 1).drop_last() =~= tallies.take(k));
    } else {
        assert(tallies.take(k) =~= tallies);
    }
}

/// One signature counts exactly when its status says it landed and the
/// tracker knows its sender, and then it counts for that sender.
pub proof fn lemma_landed_one(known: Map<Seq<u8>, Seq<char>>, signature: Seq<u8>, landed: bool)
    ensures
        landed_senders(known, seq![signature], seq![landed]) == (if landed && known.contains_key(signature) {
            seq![known[signature]]
        } else {
            Seq::<Seq<char>>::empty()
        }),
{
    let s = seq![signature];
    let l = seq![landed];
    assert(s.drop_last() =~= Seq::<Seq<u8>>::empty());
    assert(l.drop_last() =~= Seq::<bool>::empty());
    assert(landed_senders(known, s.drop_last(), l.drop_last()) == Seq::<Seq<char>>::empty());
    assert(s.last() == signature && l.last() == landed);
    if landed && known.contains_key(signature) {
        assert(Seq::<Seq<char>>::empty().push(known[signature]) =~= seq![known[signature]]);
    }
}

/// Counting a status answer signature by signature: the senders that count
/// for two answers read one after the other are those of the first
/// followed by those of the second, whatever their sizes.
pub proof fn lemma_landed_senders_append(
    known: Map<Seq<u8>, Seq<char>>,
    s1: Seq<Seq<u8>>,
    l1: Seq<bool>,
    s2: Seq<Seq<u8>>,
    l2: Seq<bool>,
)
    requires
        s1.len() == l1.len(),
        s2.len() == l2.len(),
    ensures
        landed_senders(known, s1 + s2, l1 + l2) == landed_senders(known, s1, l1) + landed_senders(known, s2, l2),
    decreases s2.len(),
{
    if s2.len() == 0 {
        assert(s1 + s2 =~= s1);
        assert(l1 + l2 =~= l1);
        assert(landed_senders(known, s1, l1) + landed_senders(known, s2, l2) =~= landed_senders(known, s1, l1));
    } else {
        lemma_landed_senders_append(known, s1, l1, s2.drop_last(), l2.drop_last());
        assert((s1 + s2).drop_last() =~= s1 + s2.drop_last());
        assert((l1 + l2).drop_last() =~= l1 + l2.drop_last());
        assert((s1 + s2).last() == s2.last());
        assert((l1 + l2).last() == l2.last());
        let a = landed_senders(known, s1, l1);
        let b = landed_senders(known, s2.drop_last(), l2.drop_last());
        if l2.last() && known.contains_key(s2.last()) {
            assert(a + b.push(known[s2.last()]) =~= (a + b).push(known[s2.last()]));
        }
    }
}

/// Counting names one after the other: counting a first list and then a
/// second gives the same tallies as counting both lists together.
pub proof fn lemma_record_all_append(tallies: Seq<(Seq<char>, nat)>, first: Seq<Seq<char>>, second: Seq<Seq<char>>)
    ensures
        spec_record_all(spec_record_all(tallies, first), second) == spec_record_all(tallies, first + second),
    decreases second.len(),
{
    if second.len() == 0 {
        assert(first + second =~= first);
    } else {
        lemma_record_all_append(tallies, first, second.drop_last());
        assert((first + second).drop_last() =~= first + second.drop_last());
        assert((first + second).last() == second.last());
    }
}

/// Recording two status answers one after the other (as `record_batch`
/// does, batch by batch) gives the same tallies as recording them as one
/// answer: no landed signature is lost or counted twice at a batch border.
pub proof fn lemma_batches_count_as_one(
    tallies: Seq<(Seq<char>, nat)>,
    known: Map<Seq<u8>, Seq<char>>,
    s1: Seq<Seq<u8>>,
    l1: Seq<bool>,
    s2: Seq<Seq<u8>>,
    l2: Seq<bool>,
)
    requires
        s1.len() == l1.len(),
        s2.len() == l2.len(),
    ensures
        spec_record_all(spec_record_all(tallies, landed_senders(known, s1, l1)), landed_senders(known, s2, l2))
            == spec_record_all(tallies, landed_senders(known, s1 + s2, l1 + l2)),
{
    lemma_landed_senders_append(known, s1, l1, s2, l2);
    lemma_record_all_append(tallies, landed_senders(known, s1, l1), landed_senders(known, s2, l2));
}

} // verus!
