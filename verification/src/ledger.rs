//! The set of unspent outputs, held in memory.

use crate::types::{Output, OutputRef};
use vstd::prelude::*;

verus! {

/// No two entries have the same key.
spec fn distinct_keys<R>(entries: Seq<(OutputRef, Output<R>)>) -> bool {
    forall|i: int, j: int|
        0 <= i < j < entries.len() ==> (#[trigger] entries[i]).0 != (#[trigger] entries[j]).0
}

/// Some entry has the key `key`.
spec fn has_key<R>(entries: Seq<(OutputRef, Output<R>)>, key: OutputRef) -> bool {
    exists|i: int| 0 <= i < entries.len() && (#[trigger] entries[i]).0 == key
}

/// The position of an entry with the key `key`.
spec fn position_of<R>(entries: Seq<(OutputRef, Output<R>)>, key: OutputRef) -> int {
    choose|i: int| 0 <= i < entries.len() && (#[trigger] entries[i]).0 == key
}

/// The mapping that a list of entries stands for.
spec fn map_of<R>(entries: Seq<(OutputRef, Output<R>)>) -> Map<OutputRef, Output<R>> {
    Map::new(
        |key: OutputRef| has_key(entries, key),
        |key: OutputRef| entries[position_of(entries, key)].1,
    )
}

/// With distinct keys, each entry is what its key is mapped to.
proof fn lemma_map_of_entry<R>(entries: Seq<(OutputRef, Output<R>)>, at: int)
    requires
        distinct_keys(entries),
        0 <= at < entries.len(),
    ensures
        map_of(entries).contains_key(entries[at].0),
        map_of(entries)[entries[at].0] == entries[at].1,
{
    let key = entries[at].0;
    assert(has_key(entries, key));
    let chosen = position_of(entries, key);
    assert(chosen == at) by {
        if chosen < at {
            assert(entries[chosen].0 != entries[at].0);
        } else if at < chosen {
            assert(entries[at].0 != entries[chosen].0);
        }
    }
}

/// The keys of the entries, in order.
spec fn keys_of<R>(entries: Seq<(OutputRef, Output<R>)>) -> Seq<OutputRef> {
    Seq::new(entries.len(), |i: int| entries[i].0)
}

/// With distinct keys, the mapping has as many keys as there are entries.
proof fn lemma_map_of_len<R>(entries: Seq<(OutputRef, Output<R>)>)
    requires
        distinct_keys(entries),
    ensures
        map_of(entries).dom().finite(),
        map_of(entries).dom().len() == entries.len(),
{
    let keys = keys_of(entries);
    assert(keys.no_duplicates()) by {
        assert forall|i: int, j: int| 0 <= i < keys.len() && 0 <= j < keys.len() && i != j implies keys[i]
            != keys[j] by {
            if i < j {
                assert(entries[i].0 != entries[j].0);
            } else {
                assert(entries[j].0 != entries[i].0);
            }
        }
    }
    keys.unique_seq_to_set();
    assert(map_of(entries).dom() =~= keys.to_set()) by {
        assert forall|key: OutputRef| map_of(entries).dom().contains(key) == keys.to_set().contains(
            key,
        ) by {
            if has_key(entries, key) {
                let at = position_of(entries, key);
                assert(keys[at] == key);
            }
            if keys.contains(key) {
                let at = choose|i: int| 0 <= i < keys.len() && keys[i] == key;
                assert(entries[at].0 == key);
            }
        }
    }
}

/// The unspent outputs of a ledger: a finite mapping from the identity of an
/// output to the output.
#[derive(Debug)]
pub struct UtxoSet<R> {
    entries: Vec<(OutputRef, Output<R>)>,
}

impl<R> View for UtxoSet<R> {
    type V = Map<OutputRef, Output<R>>;

    closed spec fn view(&self) -> Map<OutputRef, Output<R>> {
        map_of(self.entries@)
    }
}

impl<R> UtxoSet<R> {
    #[verifier::type_invariant]
    spec fn well_formed(self) -> bool {
        distinct_keys(self.entries@)
    }

    /// The set that holds no output.
    pub fn new() -> (set: Self)
        ensures
            set@ == Map::<OutputRef, Output<R>>::empty(),
    {
        let set = UtxoSet { entries: Vec::new() };
        assert(set@ =~= Map::<OutputRef, Output<R>>::empty());
        set
    }

    /// How many outputs the set holds.
    pub fn len(&self) -> (count: usize)
        ensures
            self@.dom().finite(),
            count == self@.dom().len(),
    {
        proof {
            use_type_invariant(self);
            lemma_map_of_len(self.entries@);
        }
        self.entries.len()
    }

    /// Where the entry for `output_ref` stands, if there is one.
    fn position(&self, output_ref: &OutputRef) -> (found: Option<usize>)
        ensures
            match found {
                Some(at) => at < self.entries@.len() && self.entries@[at as int].0 == *output_ref,
                None => !has_key(self.entries@, *output_ref),
            },
    {
        let mut at: usize = 0;
        while at < self.entries.len()
            invariant
                at <= self.entries@.len(),
                forall|k: int| 0 <= k < at ==> (#[trigger] self.entries@[k]).0 != *output_ref,
            decreases self.entries@.len() - at,
        {
            if self.entries[at].0 == *output_ref {
                return Some(at);
            }
            at += 1;
        }
        None
    }

    /// Whether the set holds an output under `output_ref`.
    pub fn contains(&self, output_ref: &OutputRef) -> (held: bool)
        ensures
            held == self@.contains_key(*output_ref),
    {
        self.position(output_ref).is_some()
    }

    /// The output held under `output_ref`.
    pub fn get(&self, output_ref: &OutputRef) -> (found: Option<&Output<R>>)
        ensures
            match found {
                Some(output) => self@.contains_key(*output_ref) && *output == self@[*output_ref],
                None => !self@.contains_key(*output_ref),
            },
    {
        proof {
            use_type_invariant(self);
        }
        match self.position(output_ref) {
            Some(at) => {
                proof {
                    lemma_map_of_entry(self.entries@, at as int);
                }
                Some(&self.entries[at].1)
            },
            None => None,
        }
    }

    /// Puts `output` under `output_ref`, in place of what was held there.
    pub fn insert(&mut self, output_ref: OutputRef, output: Output<R>)
        ensures
            final(self)@ == old(self)@.insert(output_ref, output),
    {
        proof {
            use_type_invariant(&*self);
        }
        let ghost before = self.entries@;
        let found = self.position(&output_ref);
        let mut entries: Vec<(OutputRef, Output<R>)> = Vec::new();
        core::mem::swap(&mut self.entries, &mut entries);
        match found {
            Some(at) => {
                entries[at] = (output_ref, output);
            },
            None => {
                entries.push((output_ref, output));
            },
        }
        proof {
            let after = entries@;
            assert(distinct_keys(after));
            assert forall|key: OutputRef| has_key(after, key) == (key == output_ref || has_key(
                before,
                key,
            )) by {
                if has_key(after, key) {
                    let k = position_of(after, key);
                    if key != output_ref {
                        assert(before[k].0 == key);
                    }
                }
                if has_key(before, key) {
                    let k = position_of(before, key);
                    assert(after[k].0 == key);
                }
                if key == output_ref {
                    if before.len() == after.len() {
                        let k = position_of(before, key);
                        assert(after[k].0 == key);
                    } else {
                        assert(after[after.len() - 1].0 == key);
                    }
                }
            }
            assert forall|key: OutputRef| has_key(after, key) implies map_of(after)[key] == old(
                self,
            )@.insert(output_ref, output)[key] by {
                let k = position_of(after, key);
                lemma_map_of_entry(after, k);
                if key != output_ref {
                    assert(before[k].0 == key);
                    lemma_map_of_entry(before, k);
                }
            }
            assert(map_of(after) =~= map_of(before).insert(output_ref, output));
        }
        core::mem::swap(&mut self.entries, &mut entries);
    }

    /// Takes out what is held under `output_ref`, and hands it over.
    pub fn remove(&mut self, output_ref: &OutputRef) -> (removed: Option<Output<R>>)
        ensures
            final(self)@ == old(self)@.remove(*output_ref),
            removed == if old(self)@.contains_key(*output_ref) {
                Some(old(self)@[*output_ref])
            } else {
                None
            },
    {
        proof {
            use_type_invariant(&*self);
        }
        let ghost before = self.entries@;
        match self.position(output_ref) {
            Some(at) => {
                proof {
                    lemma_map_of_entry(before, at as int);
                }
                let mut entries: Vec<(OutputRef, Output<R>)> = Vec::new();
                core::mem::swap(&mut self.entries, &mut entries);
                let entry = entries.remove(at);
                proof {
                    let after = entries@;
                    assert forall|i: int, j: int| 0 <= i < j < after.len() implies (
                    #[trigger] after[i]).0 != (#[trigger] after[j]).0 by {
                        let bi = if i < at { i } else { i + 1 };
                        let bj = if j < at { j } else { j + 1 };
                        assert(before[bi].0 != before[bj].0);
                    }
                    assert forall|key: OutputRef| has_key(after, key) == (key != *output_ref
                        && has_key(before, key)) by {
                        if has_key(after, key) {
                            let k = position_of(after, key);
                            let bk = if k < at { k } else { k + 1 };
                            assert(before[bk].0 == key);
                            if bk < at {
                                assert(before[bk].0 != before[at as int].0);
                            } else {
                                assert(before[at as int].0 != before[bk].0);
                            }
                        }
                        if key != *output_ref && has_key(before, key) {
                            let k = position_of(before, key);
                            let ak = if k < at { k } else { k - 1 };
                            assert(after[ak].0 == key);
                        }
                    }
                    assert forall|key: OutputRef| has_key(after, key) implies map_of(after)[key]
                        == map_of(before)[key] by {
                        let k = position_of(after, key);
                        let bk = if k < at { k } else { k + 1 };
                        lemma_map_of_entry(after, k);
                        assert(before[bk] == after[k]);
                        lemma_map_of_entry(before, bk);
                    }
                    assert(map_of(after) =~= map_of(before).remove(*output_ref));
                }
                core::mem::swap(&mut self.entries, &mut entries);
                Some(entry.1)
            },
            None => {
                assert(self@ =~= old(self)@.remove(*output_ref));
                None
            },
        }
    }
}

} // verus!
