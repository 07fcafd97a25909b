use vstd::prelude::*;

use crate::error::Error;
use crate::transaction::{Transaction, TxV};
use crate::util::{lemma_lex_connected, lex_less};

verus! {

/// The cached hash of a transaction view; pool entries always carry one.
pub open spec fn tx_hash_v(t: TxV) -> Seq<u8> {
    match t.hash {
        Some(h) => h,
        None => Seq::empty(),
    }
}

/// The pool order: ascending by first-seen time, ties by hash bytes.
pub open spec fn tx_key_lt(a: TxV, b: TxV) -> bool {
    a.first_seen < b.first_seen || (a.first_seen == b.first_seen && lex_less(
        tx_hash_v(a),
        tx_hash_v(b),
    ))
}

/// Strictly ascending in the pool order.
pub open spec fn pool_sorted(s: Seq<TxV>) -> bool {
    forall|i: int, j: int| 0 <= i < j < s.len() ==> tx_key_lt(#[trigger] s[i], #[trigger] s[j])
}

/// No two entries share a hash.
pub open spec fn hashes_unique(s: Seq<TxV>) -> bool {
    forall|i: int, j: int|
        0 <= i < j < s.len() ==> tx_hash_v(#[trigger] s[i]) != tx_hash_v(#[trigger] s[j])
}

/// A well-formed pool side: every entry carries a cached hash, the order
/// is strictly ascending, and hashes are unique.
pub open spec fn pool_wf(s: Seq<TxV>) -> bool {
    &&& forall|i: int| 0 <= i < s.len() ==> (#[trigger] s[i]).hash is Some
    &&& pool_sorted(s)
    &&& hashes_unique(s)
}

/// Whether some entry carries the hash `h`.
pub open spec fn contains_hash(s: Seq<TxV>, h: Seq<u8>) -> bool {
    exists|i: int| 0 <= i < s.len() && tx_hash_v(#[trigger] s[i]) == h
}

/// The transaction as the pool stores it: with its hash cached.
pub open spec fn with_hash(t: TxV) -> TxV {
    TxV {
        hash: if t.hash is Some {
            t.hash
        } else {
            Some(crate::hash::sha256_of(t.data))
        },
        ..t
    }
}

/// Insert into a sorted sequence at the position the order dictates.
pub open spec fn sorted_insert(s: Seq<TxV>, t: TxV) -> Seq<TxV>
    decreases s.len(),
{
    if s.len() == 0 {
        seq![t]
    } else if tx_key_lt(t, s[0]) {
        seq![t] + s
    } else {
        seq![s[0]] + sorted_insert(s.drop_first(), t)
    }
}

/// Drop the first entry carrying hash `h`, if any.
pub open spec fn remove_hash(s: Seq<TxV>, h: Seq<u8>) -> Seq<TxV>
    decreases s.len(),
{
    if s.len() == 0 {
        s
    } else if tx_hash_v(s[0]) == h {
        s.drop_first()
    } else {
        seq![s[0]] + remove_hash(s.drop_first(), h)
    }
}

/// Two entries with different hashes are ordered one way or the other.
proof fn lemma_tx_key_total(a: TxV, b: TxV)
    requires
        tx_hash_v(a) != tx_hash_v(b),
    ensures
        tx_key_lt(a, b) || tx_key_lt(b, a),
{
    if a.first_seen == b.first_seen {
        lemma_lex_connected(tx_hash_v(a), tx_hash_v(b));
    }
}

/// The pool order is transitive.
proof fn lemma_tx_key_trans(a: TxV, b: TxV, c: TxV)
    requires
        tx_key_lt(a, b),
        tx_key_lt(b, c),
    ensures
        tx_key_lt(a, c),
{
    if a.first_seen == b.first_seen && b.first_seen == c.first_seen {
        crate::util::lemma_lex_trans(tx_hash_v(a), tx_hash_v(b), tx_hash_v(c));
    }
}

/// `sorted_insert` lands at the first position whose entry follows `t`.
proof fn lemma_sorted_insert_at(s: Seq<TxV>, t: TxV, idx: int)
    requires
        0 <= idx <= s.len(),
        forall|j: int| 0 <= j < idx ==> !tx_key_lt(t, #[trigger] s[j]),
        idx < s.len() ==> tx_key_lt(t, s[idx]),
    ensures
        sorted_insert(s, t) == s.insert(idx, t),
    decreases idx,
{
    if s.len() == 0 {
        assert(sorted_insert(s, t) =~= s.insert(0, t));
    } else if idx == 0 {
        assert(seq![t] + s =~= s.insert(0, t));
    } else {
        assert(!tx_key_lt(t, s[0]));
        lemma_sorted_insert_at(s.drop_first(), t, idx - 1);
        assert(seq![s[0]] + s.drop_first().insert(idx - 1, t) =~= s.insert(idx, t));
    }
}

/// `remove_hash` drops exactly the (first) entry at `i` holding `h`.
proof fn lemma_remove_hash_at(s: Seq<TxV>, h: Seq<u8>, i: int)
    requires
        0 <= i < s.len(),
        tx_hash_v(s[i]) == h,
        forall|j: int| 0 <= j < i ==> tx_hash_v(#[trigger] s[j]) != h,
    ensures
        remove_hash(s, h) == s.remove(i),
    decreases i,
{
    if i == 0 {
        assert(s.drop_first() =~= s.remove(0));
    } else {
        assert(tx_hash_v(s[0]) != h);
        lemma_remove_hash_at(s.drop_first(), h, i - 1);
        assert(seq![s[0]] + s.drop_first().remove(i - 1) =~= s.remove(i));
    }
}

/// `remove_hash` of an absent hash changes nothing.
proof fn lemma_remove_hash_absent(s: Seq<TxV>, h: Seq<u8>)
    requires
        !contains_hash(s, h),
    ensures
        remove_hash(s, h) == s,
    decreases s.len(),
{
    if s.len() > 0 {
        assert(tx_hash_v(s[0]) != h);
        assert(!contains_hash(s.drop_first(), h)) by {
            if contains_hash(s.drop_first(), h) {
                let i = choose|i: int|
                    0 <= i < s.drop_first().len() && tx_hash_v(#[trigger] s.drop_first()[i]) == h;
                assert(tx_hash_v(s[i + 1]) == h);
            }
        }
        lemma_remove_hash_absent(s.drop_first(), h);
        assert(seq![s[0]] + s.drop_first() =~= s);
    }
}

/// The views of a transaction list.
pub open spec fn tx_views(list: Seq<Transaction>) -> Seq<TxV> {
    list.map_values(|t: Transaction| t@)
}

/// The mathematical value of the pool: both sides and the capacity.
pub ghost struct PoolV {
    pub all: Seq<TxV>,
    pub pending: Seq<TxV>,
    pub max_length: int,
}

/// The bounded transaction pool: every transaction ever accepted (up to
/// eviction) and the pending set awaiting inclusion in a block, both
/// kept ascending by first-seen time with ties broken by hash.
pub struct TxPool {
    all: Vec<Transaction>,
    pending: Vec<Transaction>,
    max_length: usize,
}

impl View for TxPool {
    type V = PoolV;

    closed spec fn view(&self) -> PoolV {
        PoolV {
            all: self.all@.map_values(|t: Transaction| t@),
            pending: self.pending@.map_values(|t: Transaction| t@),
            max_length: self.max_length as int,
        }
    }
}

/// Compare two pool entries in the pool order.
fn tx_lt(a: &Transaction, b: &Transaction) -> (r: bool)
    requires
        a@.hash is Some,
        b@.hash is Some,
    ensures
        r == tx_key_lt(a@, b@),
{
    if a.first_seen < b.first_seen {
        true
    } else if a.first_seen > b.first_seen {
        false
    } else {
        match (&a.hash, &b.hash) {
            (Some(x), Some(y)) => x.lex_less_than(y),
            _ => unreached(),
        }
    }
}

impl TxPool {
    /// The pool never exceeds its capacity, and both sides stay sorted
    /// with unique hashes.
    #[verifier::type_invariant]
    pub(crate) open spec fn type_inv(self) -> bool {
        &&& pool_wf(self@.all)
        &&& pool_wf(self@.pending)
        &&& self@.all.len() <= self@.max_length
    }

    /// An empty pool with the given capacity.
    pub fn new(max_length: usize) -> (p: TxPool)
        ensures
            p@.all == Seq::<TxV>::empty(),
            p@.pending == Seq::<TxV>::empty(),
            p@.max_length == max_length,
    {
        let p = TxPool { all: Vec::new(), pending: Vec::new(), max_length };
        assert(p@.all =~= Seq::<TxV>::empty());
        assert(p@.pending =~= Seq::<TxV>::empty());
        p
    }

    /// How many transactions the pool holds.
    pub fn len(&self) -> (r: usize)
        ensures
            r == self@.all.len(),
    {
        self.all.len()
    }

    /// How many transactions await inclusion in a block.
    pub fn pending_count(&self) -> (r: usize)
        ensures
            r == self@.pending.len(),
    {
        self.pending.len()
    }

    /// Empty the pending side; the pool itself keeps its contents.
    pub fn clear_pending(&mut self)
        ensures
            final(self)@.pending == Seq::<TxV>::empty(),
            final(self)@.all == old(self)@.all,
            final(self)@.max_length == old(self)@.max_length,
    {
        proof {
            use_type_invariant(&*self);
        }
        self.pending = Vec::new();
        assert(self@.pending =~= Seq::<TxV>::empty());
    }

    /// Empty the pool entirely, pending side included.
    pub fn flush(&mut self)
        ensures
            final(self)@.pending == Seq::<TxV>::empty(),
            final(self)@.all == Seq::<TxV>::empty(),
            final(self)@.max_length == old(self)@.max_length,
    {
        proof {
            use_type_invariant(&*self);
        }
        self.all = Vec::new();
        self.pending = Vec::new();
        assert(self@.pending =~= Seq::<TxV>::empty());
        assert(self@.all =~= Seq::<TxV>::empty());
    }

    /// Whether the pool holds a transaction with this hash.
    pub fn has(&self, hash: &crate::hash::Hash) -> (r: bool)
        ensures
            r == contains_hash(self@.all, hash@),
    {
        proof {
            use_type_invariant(self);
        }
        let mut i: usize = 0;
        while i < self.all.len()
            invariant
                i <= self.all@.len(),
                pool_wf(self@.all),
                forall|j: int| 0 <= j < i ==> tx_hash_v(#[trigger] self@.all[j]) != hash@,
            decreases self.all@.len() - i,
        {
            proof {
                assert(self@.all[i as int] == self.all@[i as int]@);
            }
            let same = match &self.all[i].hash {
                Some(h) => *h == *hash,
                None => unreached(),
            };
            if same {
                assert(tx_hash_v(self@.all[i as int]) == hash@);
                return true;
            }
            i = i + 1;
        }
        false
    }

    /// Find the index at which `tx` belongs in the pool order.
    fn find_slot(list: &Vec<Transaction>, tx: &Transaction) -> (idx: usize)
        requires
            pool_wf(tx_views(list@)),
            tx@.hash is Some,
        ensures
            idx <= list@.len(),
            forall|j: int| 0 <= j < idx ==> !tx_key_lt(tx@, #[trigger] tx_views(list@)[j]),
            idx < list@.len() ==> tx_key_lt(tx@, tx_views(list@)[idx as int]),
    {
        let ghost vs = tx_views(list@);
        let mut i: usize = 0;
        while i < list.len()
            invariant
                i <= list@.len(),
                vs == tx_views(list@),
                pool_wf(vs),
                tx@.hash is Some,
                forall|j: int| 0 <= j < i ==> !tx_key_lt(tx@, #[trigger] vs[j]),
            decreases list@.len() - i,
        {
            proof {
                assert(vs[i as int] == list@[i as int]@);
            }
            if tx_lt(tx, &list[i]) {
                return i;
            }
            i = i + 1;
        }
        i
    }

    /// Insert `tx` into a sorted list whose hashes do not include its
    /// own.
    fn insert_sorted(list: &mut Vec<Transaction>, tx: Transaction)
        requires
            pool_wf(tx_views(old(list)@)),
            tx@.hash is Some,
            !contains_hash(tx_views(old(list)@), tx_hash_v(tx@)),
        ensures
            tx_views(final(list)@) == sorted_insert(tx_views(old(list)@), tx@),
            pool_wf(tx_views(final(list)@)),
            final(list)@.len() == old(list)@.len() + 1,
            forall|i: int|
                0 <= i < final(list)@.len() ==> (#[trigger] tx_views(final(list)@)[i] == tx@
                    || exists|j: int|
                    0 <= j < old(list)@.len() && tx_views(final(list)@)[i] == tx_views(
                        old(list)@,
                    )[j]),
    {
        let ghost vs = tx_views(list@);
        let idx = Self::find_slot(list, &tx);
        let ghost tv = tx@;
        list.insert(idx, tx);
        proof {
            let vs2 = tx_views(list@);
            assert(vs2 =~= vs.insert(idx as int, tv));
            lemma_sorted_insert_at(vs, tv, idx as int);
            assert forall|j: int| 0 <= j < idx implies tx_key_lt(#[trigger] vs[j], tv) by {
                assert(tx_hash_v(vs[j]) != tx_hash_v(tv));
                lemma_tx_key_total(vs[j], tv);
            }
            assert forall|a: int, b: int| 0 <= a < b < vs2.len() implies tx_key_lt(
                #[trigger] vs2[a],
                #[trigger] vs2[b],
            ) by {
                let pa = if a < idx {
                    a
                } else {
                    a - 1
                };
                let pb = if b < idx {
                    b
                } else {
                    b - 1
                };
                if a == idx {
                    assert(vs2[a] == tv);
                    assert(vs2[b] == vs[pb]);
                    assert(tx_key_lt(tv, vs[idx as int]));
                    if pb != idx {
                        lemma_tx_key_trans(tv, vs[idx as int], vs[pb]);
                    }
                } else if b == idx {
                    assert(vs2[b] == tv);
                    assert(vs2[a] == vs[pa]);
                } else {
                    assert(vs2[a] == vs[pa]);
                    assert(vs2[b] == vs[pb]);
                }
            }
            assert forall|a: int, b: int| 0 <= a < b < vs2.len() implies tx_hash_v(
                #[trigger] vs2[a],
            ) != tx_hash_v(#[trigger] vs2[b]) by {
                let pa = if a < idx {
                    a
                } else {
                    a - 1
                };
                let pb = if b < idx {
                    b
                } else {
                    b - 1
                };
                if a == idx {
                    assert(vs2[b] == vs[pb]);
                } else if b == idx {
                    assert(vs2[a] == vs[pa]);
                } else {
                    assert(vs2[a] == vs[pa]);
                    assert(vs2[b] == vs[pb]);
                }
            }
            assert forall|a: int| 0 <= a < vs2.len() implies (#[trigger] vs2[a]).hash is Some by {
                if a < idx {
                    assert(vs2[a] == vs[a]);
                } else if a == idx {
                    assert(vs2[a] == tv);
                } else {
                    assert(vs2[a] == vs[a - 1]);
                }
            }
            assert forall|a: int| 0 <= a < vs2.len() implies (#[trigger] vs2[a] == tv || exists|j:
                int| 0 <= j < vs.len() && vs2[a] == vs[j]) by {
                if a < idx {
                    assert(vs2[a] == vs[a]);
                } else if a > idx {
                    assert(vs2[a] == vs[a - 1]);
                }
            }
        }
    }

    /// Add a transaction: its hash is cached if absent; a transaction
    /// already present leaves the pool unchanged; otherwise, a full pool
    /// first evicts its oldest entry, and the transaction joins both
    /// sides in order. Only a pool built with capacity zero refuses.
    #[verifier::loop_isolation(false)]
    #[verifier::rlimit(60)]
    pub fn add(&mut self, tx: Transaction) -> (r: Result<(), Error>)
        ensures
            final(self)@.max_length == old(self)@.max_length,
            final(self)@.all.len() <= final(self)@.max_length,
            contains_hash(old(self)@.all, tx_hash_v(with_hash(tx@))) ==> r is Ok && final(self)@
                == old(self)@,
            r is Err <==> !contains_hash(old(self)@.all, tx_hash_v(with_hash(tx@))) && old(
                self,
            )@.max_length == 0,
            r matches Err(e) ==> e == Error::MempoolFull && final(self)@ == old(self)@,
            r is Ok && !contains_hash(old(self)@.all, tx_hash_v(with_hash(tx@))) ==> {
                let base = if old(self)@.all.len() == old(self)@.max_length {
                    old(self)@.all.drop_first()
                } else {
                    old(self)@.all
                };
                &&& final(self)@.all == sorted_insert(base, with_hash(tx@))
                &&& final(self)@.pending == sorted_insert(
                    remove_hash(old(self)@.pending, tx_hash_v(with_hash(tx@))),
                    with_hash(tx@),
                )
            },
            pool_sorted(final(self)@.all),
            pool_sorted(final(self)@.pending),
            (forall|i: int| 0 <= i < old(self)@.all.len() ==> (#[trigger] old(self)@.all[
            i]).sig_ok()) && tx@.sig_ok() ==> forall|i: int|
                0 <= i < final(self)@.all.len() ==> (#[trigger] final(self)@.all[i]).sig_ok(),
            (forall|i: int| 0 <= i < old(self)@.pending.len() ==> (#[trigger] old(self)@.pending[
            i]).sig_ok()) && tx@.sig_ok() ==> forall|i: int|
                0 <= i < final(self)@.pending.len() ==> (#[trigger] final(self)@.pending[
                i]).sig_ok(),
    {
        proof {
            use_type_invariant(&*self);
        }
        let mut tx = tx;
        tx.calculate_and_cache_hash();
        let h = tx.hash();
        if self.has(&h) {
            return Ok(());
        }
        let ghost evicted = self@.all.len() == self@.max_length;
        if self.all.len() == self.max_length {
            if self.max_length == 0 {
                return Err(Error::MempoolFull);
            }
            let ghost pre = self@.all;
            let mut tmp: Vec<Transaction> = Vec::new();
            std::mem::swap(&mut tmp, &mut self.all);
            tmp.remove(0);
            proof {
                let vs2 = tmp@.map_values(|t: Transaction| t@);
                assert(vs2 =~= pre.drop_first());
                assert forall|a: int, b: int| 0 <= a < b < vs2.len() implies tx_key_lt(
                    #[trigger] vs2[a],
                    #[trigger] vs2[b],
                ) && tx_hash_v(vs2[a]) != tx_hash_v(vs2[b]) by {
                    assert(vs2[a] == pre[a + 1]);
                    assert(vs2[b] == pre[b + 1]);
                }
                assert forall|a: int| 0 <= a < vs2.len() implies (#[trigger] vs2[
                a]).hash is Some by {
                    assert(vs2[a] == pre[a + 1]);
                }
            }
            self.all = tmp;
        }
        let ghost base = self@.all;
        proof {
            assert(base == if evicted {
                old(self)@.all.drop_first()
            } else {
                old(self)@.all
            });
            assert forall|j: int|
                0 <= j < base.len() implies tx_hash_v(#[trigger] base[j]) != h@ by {
                if evicted {
                    assert(base[j] == old(self)@.all[j + 1]);
                } else {
                    assert(base[j] == old(self)@.all[j]);
                }
            }
        }
        let pending_tx = tx.duplicate();
        let mut all_list: Vec<Transaction> = Vec::new();
        std::mem::swap(&mut all_list, &mut self.all);
        Self::insert_sorted(&mut all_list, tx);
        self.all = all_list;
        let ghost pend0 = self@.pending;
        let idx_opt = Self::find_hash_index(&self.pending, &h);
        let mut pend_list: Vec<Transaction> = Vec::new();
        std::mem::swap(&mut pend_list, &mut self.pending);
        match idx_opt {
            Some(i) => {
                pend_list.remove(i);
                proof {
                    let vs2 = pend_list@.map_values(|t: Transaction| t@);
                    assert(vs2 =~= pend0.remove(i as int));
                    lemma_remove_hash_at(pend0, h@, i as int);
                    assert forall|a: int, b: int| 0 <= a < b < vs2.len() implies tx_key_lt(
                        #[trigger] vs2[a],
                        #[trigger] vs2[b],
                    ) && tx_hash_v(vs2[a]) != tx_hash_v(vs2[b]) by {
                        let pa = if a < i {
                            a
                        } else {
                            a + 1
                        };
                        let pb = if b < i {
                            b
                        } else {
                            b + 1
                        };
                        assert(vs2[a] == pend0[pa]);
                        assert(vs2[b] == pend0[pb]);
                    }
                    assert forall|a: int| 0 <= a < vs2.len() implies (#[trigger] vs2[
                    a]).hash is Some by {
                        let pa = if a < i {
                            a
                        } else {
                            a + 1
                        };
                        assert(vs2[a] == pend0[pa]);
                    }
                    assert forall|a: int| 0 <= a < vs2.len() implies tx_hash_v(
                        #[trigger] vs2[a],
                    ) != h@ by {
                        let pa = if a < i {
                            a
                        } else {
                            a + 1
                        };
                        assert(vs2[a] == pend0[pa]);
                        if tx_hash_v(pend0[pa]) == h@ {
                            assert(tx_hash_v(pend0[i as int]) == h@);
                        }
                    }
                }
            },
            None => {
                proof {
                    lemma_remove_hash_absent(pend0, h@);
                }
            },
        }
        Self::insert_sorted(&mut pend_list, pending_tx);
        self.pending = pend_list;
        proof {
            if forall|i: int|
                0 <= i < old(self)@.all.len() ==> (#[trigger] old(self)@.all[i]).sig_ok() {
                assert forall|j: int| 0 <= j < base.len() implies (#[trigger] base[
                j]).sig_ok() by {
                    if evicted {
                        assert(base[j] == old(self)@.all[j + 1]);
                    } else {
                        assert(base[j] == old(self)@.all[j]);
                    }
                }
            }
        }
        Ok(())
    }

    /// The index of the entry carrying `hash`, if any.
    fn find_hash_index(list: &Vec<Transaction>, hash: &crate::hash::Hash) -> (r: Option<usize>)
        requires
            forall|j: int| 0 <= j < list@.len() ==> (#[trigger] tx_views(list@)[j]).hash is Some,
        ensures
            match r {
                Some(i) => i < list@.len() && tx_hash_v(tx_views(list@)[i as int]) == hash@
                    && forall|j: int| 0 <= j < i ==> tx_hash_v(#[trigger] tx_views(list@)[j]) != hash@,
                None => !contains_hash(tx_views(list@), hash@),
            },
    {
        let ghost vs = tx_views(list@);
        let mut i: usize = 0;
        while i < list.len()
            invariant
                i <= list@.len(),
                vs == tx_views(list@),
                forall|j: int| 0 <= j < list@.len() ==> (#[trigger] vs[j]).hash is Some,
                forall|j: int| 0 <= j < i ==> tx_hash_v(#[trigger] vs[j]) != hash@,
            decreases list@.len() - i,
        {
            proof {
                assert(vs[i as int] == list@[i as int]@);
            }
            let same = match &list[i].hash {
                Some(h) => *h == *hash,
                None => unreached(),
            };
            if same {
                assert(tx_hash_v(vs[i as int]) == hash@);
                return Some(i);
            }
            i = i + 1;
        }
        None
    }

    /// A snapshot of the pending side, ascending by first-seen time with
    /// ties broken by hash.
    pub fn pending_cloned(&self) -> (r: Vec<Transaction>)
        ensures
            tx_views(r@) == self@.pending,
            pool_sorted(self@.pending),
    {
        proof {
            use_type_invariant(self);
        }
        Self::clone_list(&self.pending)
    }

    /// A snapshot of everything the pool holds, in the same order.
    pub fn all_cloned(&self) -> (r: Vec<Transaction>)
        ensures
            tx_views(r@) == self@.all,
            pool_sorted(self@.all),
    {
        proof {
            use_type_invariant(self);
        }
        Self::clone_list(&self.all)
    }

    /// Copy a transaction list entry by entry.
    fn clone_list(list: &Vec<Transaction>) -> (r: Vec<Transaction>)
        ensures
            tx_views(r@) == tx_views(list@),
    {
        let ghost vs = tx_views(list@);
        let mut r: Vec<Transaction> = Vec::new();
        let mut i: usize = 0;
        while i < list.len()
            invariant
                i <= list@.len(),
                vs == tx_views(list@),
                tx_views(r@) == vs.take(i as int),
            decreases list@.len() - i,
        {
            let ghost pre = tx_views(r@);
            let d = list[i].duplicate();
            r.push(d);
            proof {
                assert(tx_views(r@) =~= pre.push(d@));
                assert(vs[i as int] == list@[i as int]@);
                assert(pre.push(d@) =~= vs.take(i as int + 1));
            }
            i = i + 1;
        }
        proof {
            assert(vs.take(list@.len() as int) =~= vs);
        }
        r
    }
}

} // verus!
