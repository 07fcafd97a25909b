use vstd::prelude::*;

use crate::util::{bytes_eq, copy_bytes};

verus! {

/// The map an entry list denotes: later entries win.
pub open spec fn as_map(s: Seq<(Seq<u8>, Seq<u8>)>) -> Map<Seq<u8>, Seq<u8>>
    decreases s.len(),
{
    if s.len() == 0 {
        Map::empty()
    } else {
        as_map(s.drop_last()).insert(s.last().0, s.last().1)
    }
}

/// No two entries share a key.
pub open spec fn keys_unique(s: Seq<(Seq<u8>, Seq<u8>)>) -> bool {
    forall|i: int, j: int| 0 <= i < j < s.len() ==> (#[trigger] s[i]).0 != (#[trigger] s[j]).0
}

proof fn lemma_as_map_not_contains(s: Seq<(Seq<u8>, Seq<u8>)>, k: Seq<u8>)
    requires
        forall|i: int| 0 <= i < s.len() ==> (#[trigger] s[i]).0 != k,
    ensures
        !as_map(s).contains_key(k),
    decreases s.len(),
{
    if s.len() > 0 {
        assert(s.last() == s[s.len() - 1]);
        lemma_as_map_not_contains(s.drop_last(), k);
    }
}

proof fn lemma_as_map_found(s: Seq<(Seq<u8>, Seq<u8>)>, i: int)
    requires
        keys_unique(s),
        0 <= i < s.len(),
    ensures
        as_map(s).contains_key(s[i].0),
        as_map(s)[s[i].0] == s[i].1,
    decreases s.len(),
{
    if i == s.len() - 1 {
    } else {
        assert(s.drop_last()[i] == s[i]);
        lemma_as_map_found(s.drop_last(), i);
        assert(s.last() == s[s.len() - 1]);
        assert(s[s.len() - 1].0 != s[i].0);
    }
}

proof fn lemma_as_map_remove(s: Seq<(Seq<u8>, Seq<u8>)>, i: int)
    requires
        keys_unique(s),
        0 <= i < s.len(),
    ensures
        as_map(s.remove(i)) == as_map(s).remove(s[i].0),
    decreases s.len(),
{
    let k = s[i].0;
    if i == s.len() - 1 {
        assert(s.remove(i) =~= s.drop_last());
        assert forall|j: int| 0 <= j < s.drop_last().len() implies (#[trigger] s.drop_last()[
            j
        ]).0 != k by {
            assert(s.drop_last()[j] == s[j]);
        }
        lemma_as_map_not_contains(s.drop_last(), k);
        assert(as_map(s.drop_last()).remove(k) =~= as_map(s.drop_last()));
        assert(as_map(s).remove(k) =~= as_map(s.drop_last()).insert(s.last().0, s.last().1).remove(
            k,
        ));
        assert(as_map(s.drop_last()).insert(k, s.last().1).remove(k) =~= as_map(
            s.drop_last(),
        ).remove(k));
    } else {
        let t = s.remove(i);
        assert(t.len() == s.len() - 1);
        assert(t.last() == s.last());
        assert(t.drop_last() =~= s.drop_last().remove(i));
        assert(forall|j: int|
            0 <= j < s.drop_last().len() ==> #[trigger] s.drop_last()[j] == s[j]);
        lemma_as_map_remove(s.drop_last(), i);
        assert(as_map(t) == as_map(s.drop_last().remove(i)).insert(s.last().0, s.last().1));
        assert(as_map(s.drop_last().remove(i)) == as_map(s.drop_last()).remove(k));
        assert(s.last() == s[s.len() - 1]);
        assert(s.last().0 != k);
        assert(as_map(s.drop_last()).remove(k).insert(s.last().0, s.last().1) =~= as_map(
            s.drop_last(),
        ).insert(s.last().0, s.last().1).remove(k));
    }
}

/// The contract state: a byte-keyed, byte-valued mapping mutated only by
/// the virtual machine while executing transactions.
#[derive(Debug)]
pub struct State {
    entries: Vec<(Vec<u8>, Vec<u8>)>,
}

impl View for State {
    type V = Map<Seq<u8>, Seq<u8>>;

    closed spec fn view(&self) -> Map<Seq<u8>, Seq<u8>> {
        as_map(self.entries@.map_values(|e: (Vec<u8>, Vec<u8>)| (e.0@, e.1@)))
    }
}

impl State {
    spec fn entry_views(&self) -> Seq<(Seq<u8>, Seq<u8>)> {
        self.entries@.map_values(|e: (Vec<u8>, Vec<u8>)| (e.0@, e.1@))
    }

    #[verifier::type_invariant]
    spec fn type_inv(self) -> bool {
        keys_unique(self.entry_views())
    }

    /// An empty state.
    pub fn new() -> (s: State)
        ensures
            s@ == Map::<Seq<u8>, Seq<u8>>::empty(),
    {
        let s = State { entries: Vec::new() };
        assert(s.entry_views() =~= Seq::<(Seq<u8>, Seq<u8>)>::empty());
        s
    }

    /// The index of the entry holding key `k`, if any.
    fn find(&self, k: &Vec<u8>) -> (r: Option<usize>)
        ensures
            match r {
                Some(i) => i < self.entry_views().len() && self.entry_views()[i as int].0 == k@,
                None => forall|i: int|
                    0 <= i < self.entry_views().len() ==> (#[trigger] self.entry_views()[i]).0
                        != k@,
            },
    {
        let mut i: usize = 0;
        while i < self.entries.len()
            invariant
                i <= self.entries@.len(),
                forall|j: int| 0 <= j < i ==> (#[trigger] self.entry_views()[j]).0 != k@,
            decreases self.entries@.len() - i,
        {
            if bytes_eq(&self.entries[i].0, k) {
                return Some(i);
            }
            i = i + 1;
        }
        None
    }

    /// Drop any entry holding key `k`; afterwards no entry holds it.
    fn remove_key(&mut self, k: &Vec<u8>)
        ensures
            final(self)@ == old(self)@.remove(k@),
            keys_unique(final(self).entry_views()),
            forall|i: int|
                0 <= i < final(self).entry_views().len()
                    ==> (#[trigger] final(self).entry_views()[i]).0 != k@,
    {
        proof {
            use_type_invariant(&*self);
        }
        match self.find(k) {
            Some(i) => {
                let ghost pre = self.entry_views();
                let mut tmp: Vec<(Vec<u8>, Vec<u8>)> = Vec::new();
                std::mem::swap(&mut tmp, &mut self.entries);
                tmp.remove(i);
                proof {
                    let nv = tmp@.map_values(|e: (Vec<u8>, Vec<u8>)| (e.0@, e.1@));
                    assert(nv =~= pre.remove(i as int));
                    lemma_as_map_remove(pre, i as int);
                    assert forall|a: int, b: int| 0 <= a < b < nv.len() implies (#[trigger] nv[
                    a]).0 != (#[trigger] nv[b]).0 by {
                        let pa = if a < i { a } else { a + 1 };
                        let pb = if b < i { b } else { b + 1 };
                        assert(nv[a] == pre[pa]);
                        assert(nv[b] == pre[pb]);
                    }
                    assert forall|a: int| 0 <= a < nv.len() implies (#[trigger] nv[a]).0 != k@ by {
                        let pa = if a < i { a } else { a + 1 };
                        assert(nv[a] == pre[pa]);
                        if pa != i {
                            assert(pre[pa].0 != pre[i as int].0);
                        }
                    }
                }
                self.entries = tmp;
            },
            None => {
                proof {
                    lemma_as_map_not_contains(self.entry_views(), k@);
                    assert(self@.remove(k@) =~= self@);
                }
            },
        }
    }

    /// Bind `k` to `v`, replacing any earlier binding.
    pub fn put(&mut self, k: Vec<u8>, v: Vec<u8>)
        ensures
            final(self)@ == old(self)@.insert(k@, v@),
    {
        self.remove_key(&k);
        let ghost pre = self.entry_views();
        let mut tmp: Vec<(Vec<u8>, Vec<u8>)> = Vec::new();
        std::mem::swap(&mut tmp, &mut self.entries);
        let ghost kv = k@;
        let ghost vv = v@;
        tmp.push((k, v));
        proof {
            let nv = tmp@.map_values(|e: (Vec<u8>, Vec<u8>)| (e.0@, e.1@));
            assert(nv =~= pre.push((kv, vv)));
            assert(nv.drop_last() =~= pre);
            assert forall|i: int, j: int| 0 <= i < j < nv.len() implies (#[trigger] nv[i]).0 != (
            #[trigger] nv[j]).0 by {
                if j == nv.len() - 1 {
                    assert(pre[i].0 != kv);
                } else {
                    assert(pre[i].0 != pre[j].0);
                }
            }
        }
        self.entries = tmp;
        proof {
            assert(self.entry_views() =~= pre.push((kv, vv)));
            assert(self.entry_views().drop_last() =~= pre);
            assert(old(self)@.remove(kv).insert(kv, vv) =~= old(self)@.insert(kv, vv));
        }
    }

    /// Drop the binding of `k`, if there is one.
    pub fn delete(&mut self, k: &Vec<u8>)
        ensures
            final(self)@ == old(self)@.remove(k@),
    {
        self.remove_key(k);
    }

    /// The value bound to `k`, if there is one.
    pub fn get(&self, k: &Vec<u8>) -> (r: Option<Vec<u8>>)
        ensures
            match r {
                Some(v) => self@.contains_key(k@) && v@ == self@[k@],
                None => !self@.contains_key(k@),
            },
    {
        proof {
            use_type_invariant(self);
        }
        match self.find(k) {
            Some(i) => {
                proof {
                    lemma_as_map_found(self.entry_views(), i as int);
                }
                Some(copy_bytes(&self.entries[i].1))
            },
            None => {
                proof {
                    lemma_as_map_not_contains(self.entry_views(), k@);
                }
                None
            },
        }
    }

    /// An identical copy of the state, for snapshots.
    pub fn duplicate(&self) -> (r: State)
        ensures
            r@ == self@,
    {
        proof {
            use_type_invariant(self);
        }
        let mut entries: Vec<(Vec<u8>, Vec<u8>)> = Vec::new();
        let mut i: usize = 0;
        while i < self.entries.len()
            invariant
                i <= self.entries@.len(),
                entries@.map_values(|e: (Vec<u8>, Vec<u8>)| (e.0@, e.1@)) == self.entry_views().take(
                    i as int,
                ),
            decreases self.entries@.len() - i,
        {
            let ghost pre = entries@.map_values(|e: (Vec<u8>, Vec<u8>)| (e.0@, e.1@));
            let k = copy_bytes(&self.entries[i].0);
            let v = copy_bytes(&self.entries[i].1);
            entries.push((k, v));
            proof {
                assert(entries@.map_values(|e: (Vec<u8>, Vec<u8>)| (e.0@, e.1@)) =~= pre.push(
                    (self.entry_views()[i as int].0, self.entry_views()[i as int].1),
                ));
                assert(pre.push(self.entry_views()[i as int]) =~= self.entry_views().take(
                    i as int + 1,
                ));
            }
            i = i + 1;
        }
        proof {
            assert(self.entry_views().take(self.entries@.len() as int) =~= self.entry_views());
        }
        let r = State { entries };
        r
    }
}

} // verus!
