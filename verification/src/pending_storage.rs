//! A set of values that wait for a confirmation.
use vstd::prelude::*;

verus! {

/// The texts held by a list of strings.
pub open spec fn texts(v: Seq<String>) -> Seq<Seq<char>> {
    v.map_values(|s: String| s@)
}

/// Values that wait for a confirmation, each held once.
pub struct PendingStorage {
    pending_confirmation: Vec<String>,
}

impl View for PendingStorage {
    type V = Set<Seq<char>>;

    closed spec fn view(&self) -> Set<Seq<char>> {
        texts(self.pending_confirmation@).to_set()
    }
}

impl PendingStorage {
    #[verifier::type_invariant]
    closed spec fn held_once(&self) -> bool {
        texts(self.pending_confirmation@).no_duplicates()
    }

    pub fn new() -> (res: PendingStorage)
        ensures
            res@ == Set::<Seq<char>>::empty(),
    {
        let res = PendingStorage { pending_confirmation: Vec::new() };
        assert(texts(res.pending_confirmation@).to_set() =~= Set::<Seq<char>>::empty());
        res
    }

    /// Where `value` is held, if it is.
    fn find(&self, value: &String) -> (res: Option<usize>)
        ensures
            match res {
                Some(i) => i < self.pending_confirmation@.len() && texts(
                    self.pending_confirmation@,
                )[i as int] == value@,
                None => !texts(self.pending_confirmation@).contains(value@),
            },
    {
        let mut i: usize = 0;
        while i < self.pending_confirmation.len()
            invariant
                i <= self.pending_confirmation@.len(),
                forall|k: int|
                    0 <= k < i ==> #[trigger] texts(self.pending_confirmation@)[k] != value@,
            decreases self.pending_confirmation@.len() - i,
        {
            if self.pending_confirmation[i] == *value {
                return Some(i);
            }
            i = i + 1;
        }
        None
    }

    /// Adds a value; a value already held stays held once.
    pub fn store(&mut self, value: String)
        ensures
            final(self)@ == old(self)@.insert(value@),
    {
        proof {
            use_type_invariant(&*self);
        }
        match self.find(&value) {
            Some(i) => {
                assert(texts(self.pending_confirmation@).to_set() =~= texts(
                    self.pending_confirmation@,
                ).to_set().insert(value@));
            },
            None => {
                let ghost before = texts(self.pending_confirmation@);
                let mut list = Vec::new();
                std::mem::swap(&mut list, &mut self.pending_confirmation);
                list.push(value);
                let ghost after = texts(list@);
                assert(after =~= before.push(value@));
                assert(after.no_duplicates()) by {
                    assert forall|a: int, b: int|
                        0 <= a < after.len() && 0 <= b < after.len() && a != b implies after[a]
                        != after[b] by {
                        if a < before.len() && b < before.len() {
                        } else if a < before.len() {
                            assert(before.contains(after[a]));
                        } else {
                            assert(before.contains(after[b]));
                        }
                    }
                }
                assert(after.to_set() =~= before.to_set().insert(value@)) by {
                    assert forall|x: Seq<char>| after.contains(x) implies #[trigger] before.to_set().insert(
                        value@,
                    ).contains(x) by {
                        let k = choose|k: int| 0 <= k < after.len() && after[k] == x;
                        if k < before.len() {
                            assert(before[k] == x);
                        }
                    }
                    assert forall|x: Seq<char>| #[trigger] before.to_set().insert(value@).contains(x) implies after.contains(x) by {
                        if x == value@ {
                            assert(after[before.len() as int] == x);
                        } else {
                            let k = choose|k: int| 0 <= k < before.len() && before[k] == x;
                            assert(after[k] == x);
                        }
                    }
                }
                self.pending_confirmation = list;
            },
        }
    }

    /// Removes a value, if it is held.
    pub fn remove(&mut self, value: String)
        ensures
            final(self)@ == old(self)@.remove(value@),
    {
        proof {
            use_type_invariant(&*self);
        }
        match self.find(&value) {
            Some(i) => {
                let ghost before = texts(self.pending_confirmation@);
                let mut list = Vec::new();
                std::mem::swap(&mut list, &mut self.pending_confirmation);
                list.remove(i);
                let ghost after = texts(list@);
                assert(after =~= before.remove(i as int));
                assert(after.no_duplicates()) by {
                    assert forall|a: int, b: int|
                        0 <= a < after.len() && 0 <= b < after.len() && a != b implies after[a]
                        != after[b] by {
                        let a2 = if a < i { a } else { a + 1 };
                        let b2 = if b < i { b } else { b + 1 };
                        assert(after[a] == before[a2]);
                        assert(after[b] == before[b2]);
                    }
                }
                assert(after.to_set() =~= before.to_set().remove(value@)) by {
                    assert forall|x: Seq<char>| after.contains(x) implies #[trigger] before.to_set().remove(
                        value@,
                    ).contains(x) by {
                        let k = choose|k: int| 0 <= k < after.len() && after[k] == x;
                        let k2 = if k < i { k } else { k + 1 };
                        assert(before[k2] == x);
                        assert(k2 != i);
                    }
                    assert forall|x: Seq<char>| #[trigger] before.to_set().remove(value@).contains(x) implies after.contains(x) by {
                        let k = choose|k: int| 0 <= k < before.len() && before[k] == x;
                        assert(k != i);
                        if k < i {
                            assert(after[k] == x);
                        } else {
                            assert(after[k - 1] == x);
                        }
                    }
                }
                self.pending_confirmation = list;
            },
            None => {
                assert(texts(self.pending_confirmation@).to_set() =~= texts(
                    self.pending_confirmation@,
                ).to_set().remove(value@));
            },
        }
    }

    /// Every value held, each once, in no particular order.
    pub fn get_all(&self) -> (res: Vec<String>)
        ensures
            texts(res@).to_set() == self@,
            texts(res@).no_duplicates(),
            res.len() == self@.len(),
    {
        proof {
            use_type_invariant(self);
        }
        let mut res: Vec<String> = Vec::new();
        let mut i: usize = 0;
        while i < self.pending_confirmation.len()
            invariant
                i <= self.pending_confirmation@.len(),
                texts(res@) == texts(self.pending_confirmation@).take(i as int),
            decreases self.pending_confirmation@.len() - i,
        {
            let v = self.pending_confirmation[i].clone();
            let ghost prev = res@;
            assert(v@ == texts(self.pending_confirmation@)[i as int]);
            res.push(v);
            assert(res@ == prev.push(v));
            assert(texts(res@) =~= texts(prev).push(v@));
            assert(texts(res@) =~= texts(self.pending_confirmation@).take(i + 1));
            i = i + 1;
        }
        let ghost all = texts(self.pending_confirmation@);
        assert(all.take(all.len() as int) =~= all);
        proof {
            all.unique_seq_to_set();
        }
        res
    }
}

/// The values held after a history of calls on an empty storage: each step
/// is `(true, v)` for `store(v)` and `(false, v)` for `remove(v)`.
pub open spec fn replay(ops: Seq<(bool, Seq<char>)>) -> Set<Seq<char>>
    decreases ops.len(),
{
    if ops.len() == 0 {
        Set::empty()
    } else {
        let held = replay(ops.drop_last());
        let (stored, v) = ops.last();
        if stored {
            held.insert(v)
        } else {
            held.remove(v)
        }
    }
}

/// One more call extends the history as `store` and `remove` change the
/// values held: a storage whose values are `replay(ops)` holds
/// `replay(ops.push((true, v)))` after `store(v)` and
/// `replay(ops.push((false, v)))` after `remove(v)`.
pub proof fn lemma_replay_step(ops: Seq<(bool, Seq<char>)>, stored: bool, v: Seq<char>)
    ensures
        replay(ops.push((stored, v))) == if stored {
            replay(ops).insert(v)
        } else {
            replay(ops).remove(v)
        },
{
    assert(ops.push((stored, v)).drop_last() =~= ops);
}

/// What `get_all` gives after a history of calls on a new storage: each
/// value once, and a value exactly when it was stored and not removed since.
pub proof fn lemma_get_all_history(ops: Seq<(bool, Seq<char>)>, all: Seq<Seq<char>>)
    requires
        all.to_set() == replay(ops),
    ensures
        forall|x: Seq<char>| #[trigger] all.contains(x) <==> stored_last(ops, x),
{
    lemma_history(ops);
    assert forall|x: Seq<char>| #[trigger] all.contains(x) <==> stored_last(ops, x) by {
        assert(all.to_set().contains(x) == all.contains(x));
    }
}

/// `x` was stored at some step of the history and not removed after it.
pub open spec fn stored_last(ops: Seq<(bool, Seq<char>)>, x: Seq<char>) -> bool {
    exists|i: int|
        0 <= i < ops.len() && #[trigger] ops[i] == (true, x) && forall|j: int|
            i < j < ops.len() ==> #[trigger] ops[j] != (false, x)
}

/// After any history of `store` and `remove` calls on a new storage, a value
/// is held exactly when it was stored and not removed since; so `get_all`
/// gives, each once, the values stored and not removed since.
pub proof fn lemma_history(ops: Seq<(bool, Seq<char>)>)
    ensures
        replay(ops).finite(),
        forall|x: Seq<char>| #[trigger] replay(ops).contains(x) <==> stored_last(ops, x),
    decreases ops.len(),
{
    if ops.len() > 0 {
        let prev = ops.drop_last();
        lemma_history(prev);
        let (stored, v) = ops.last();
        let n = ops.len() - 1;
        assert forall|x: Seq<char>| #[trigger] replay(ops).contains(x) <==> stored_last(ops, x) by {
            if x == v {
                if stored {
                    assert(ops[n] == (true, x));
                    assert(stored_last(ops, x));
                } else {
                    if stored_last(ops, x) {
                        let i = choose|i: int|
                            0 <= i < ops.len() && #[trigger] ops[i] == (true, x) && forall|j: int|
                                i < j < ops.len() ==> #[trigger] ops[j] != (false, x);
                        assert(ops[n] == (false, x));
                        assert(i != n);
                        assert(false);
                    }
                }
            } else {
                if stored_last(prev, x) {
                    let i = choose|i: int|
                        0 <= i < prev.len() && #[trigger] prev[i] == (true, x) && forall|j: int|
                            i < j < prev.len() ==> #[trigger] prev[j] != (false, x);
                    assert(ops[i] == prev[i]);
                    assert forall|j: int| i < j < ops.len() implies #[trigger] ops[j] != (
                        false,
                        x,
                    ) by {
                        if j < n {
                            assert(ops[j] == prev[j]);
                        }
                    }
                    assert(stored_last(ops, x));
                }
                if stored_last(ops, x) {
                    let i = choose|i: int|
                        0 <= i < ops.len() && #[trigger] ops[i] == (true, x) && forall|j: int|
                            i < j < ops.len() ==> #[trigger] ops[j] != (false, x);
                    assert(i != n);
                    assert(prev[i] == ops[i]);
                    assert forall|j: int| i < j < prev.len() implies #[trigger] prev[j] != (
                        false,
                        x,
                    ) by {
                        assert(ops[j] == prev[j]);
                    }
                    assert(stored_last(prev, x));
                }
            }
        }
    } else {
        assert forall|x: Seq<char>| #[trigger] replay(ops).contains(x) <==> stored_last(ops, x) by {
        }
    }
}

} // verus!
