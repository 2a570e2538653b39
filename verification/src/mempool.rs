//! The mempool: validated transactions keyed by hash, at most one entry
//! per (sender, nonce) pair, with fee-priority replacement and top-K
//! selection.

use vstd::prelude::*;

use crate::strutil::str_eq;
use crate::tx::{ValidTxCore, ValidTxView};

verus! {

broadcast use vstd::seq_lib::group_to_multiset_ensures;

/// The views of a run of transactions.
pub open spec fn spec_views(s: Seq<ValidTxCore>) -> Seq<ValidTxView> {
    Seq::new(s.len(), |i: int| s[i]@)
}

/// The pool of validated, not-yet-included transactions.
pub struct Mempool {
    entries: Vec<ValidTxCore>,
}

impl View for Mempool {
    type V = Seq<ValidTxView>;

    closed spec fn view(&self) -> Seq<ValidTxView> {
        spec_views(self.entries@)
    }
}

/// Whether some entry carries the given hash.
pub open spec fn spec_has_hash(s: Seq<ValidTxView>, h: Seq<char>) -> bool {
    exists|i: int| 0 <= i < s.len() && s[i].tx_hash == h
}

/// The index of the entry carrying the given hash.
pub open spec fn spec_hash_idx(s: Seq<ValidTxView>, h: Seq<char>) -> int {
    choose|i: int| 0 <= i < s.len() && s[i].tx_hash == h
}

/// Whether some entry carries the given sender and nonce.
pub open spec fn spec_has_from_nonce(s: Seq<ValidTxView>, from: Seq<char>, nonce: u64) -> bool {
    exists|i: int| 0 <= i < s.len() && s[i].from == from && s[i].nonce == nonce
}

/// The index of the entry carrying the given sender and nonce.
pub open spec fn spec_from_nonce_idx(s: Seq<ValidTxView>, from: Seq<char>, nonce: u64) -> int {
    choose|i: int| 0 <= i < s.len() && s[i].from == from && s[i].nonce == nonce
}

impl Mempool {
    /// The pool invariant: hashes are unique, and so are (sender, nonce)
    /// pairs.
    pub open spec fn wf(self) -> bool {
        &&& forall|i: int, j: int|
            0 <= i < j < self@.len() ==> #[trigger] self@[i].tx_hash != #[trigger] self@[j].tx_hash
        &&& forall|i: int, j: int|
            0 <= i < j < self@.len() ==> !(#[trigger] self@[i].from == #[trigger] self@[j].from
                && self@[i].nonce == self@[j].nonce)
    }

    /// An empty pool.
    pub fn new() -> (m: Mempool)
        ensures
            m@ == Seq::<ValidTxView>::empty(),
            m.wf(),
    {
        let m = Mempool { entries: Vec::new() };
        proof {
            assert(m@ =~= Seq::<ValidTxView>::empty());
        }
        m
    }

    /// How many transactions the pool holds.
    pub fn len(&self) -> (n: usize)
        ensures
            n == self@.len(),
    {
        self.entries.len()
    }
}

/// The pool holds at most one entry per (sender, nonce) pair: two
/// entries that agree on both are one and the same.
pub proof fn lemma_at_most_one_per_sender_nonce(m: Mempool, i: int, j: int)
    requires
        m.wf(),
        0 <= i < m@.len(),
        0 <= j < m@.len(),
        m@[i].from == m@[j].from,
        m@[i].nonce == m@[j].nonce,
    ensures
        i == j,
{
    if i < j {
        assert(!(m@[i].from == m@[j].from && m@[i].nonce == m@[j].nonce));
    } else if j < i {
        assert(!(m@[j].from == m@[i].from && m@[j].nonce == m@[i].nonce));
    }
}

/// Admits a transaction under the fee-priority replacement rule: a
/// duplicate hash is a no-op; a known (sender, nonce) pair keeps the
/// incumbent unless the newcomer pays a strictly higher fee; anything
/// else is inserted.
pub fn mempool_add_tx(m: &mut Mempool, tx: ValidTxCore)
    requires
        old(m).wf(),
    ensures
        final(m).wf(),
        spec_has_hash(old(m)@, tx@.tx_hash) ==> final(m)@ == old(m)@,
        (!spec_has_hash(old(m)@, tx@.tx_hash) && !spec_has_from_nonce(
            old(m)@,
            tx@.from,
            tx@.nonce,
        )) ==> final(m)@ == old(m)@.push(tx@),
        (!spec_has_hash(old(m)@, tx@.tx_hash) && spec_has_from_nonce(old(m)@, tx@.from, tx@.nonce)
            && tx@.fee <= old(m)@[spec_from_nonce_idx(old(m)@, tx@.from, tx@.nonce)].fee)
            ==> final(m)@ == old(m)@,
        (!spec_has_hash(old(m)@, tx@.tx_hash) && spec_has_from_nonce(old(m)@, tx@.from, tx@.nonce)
            && tx@.fee > old(m)@[spec_from_nonce_idx(old(m)@, tx@.from, tx@.nonce)].fee)
            ==> final(m)@ == old(m)@.remove(spec_from_nonce_idx(old(m)@, tx@.from, tx@.nonce)).push(
            tx@,
        ),
{
    let ghost s0 = m@;
    let n = m.entries.len();
    for i in 0..n
        invariant
            n == s0.len(),
            m@ == s0,
            s0 == old(m)@,
            old(m).wf(),
            forall|j: int| 0 <= j < i ==> #[trigger] s0[j].tx_hash != tx@.tx_hash,
    {
        if str_eq(m.entries[i].tx_hash.as_str(), tx.tx_hash.as_str()) {
            proof {
                assert(s0[i as int].tx_hash == tx@.tx_hash);
                assert(m@ == old(m)@);
                assert forall|a: int, b: int| 0 <= a < b < m@.len() implies #[trigger] m@[a].tx_hash
                    != #[trigger] m@[b].tx_hash by {
                    assert(old(m)@[a].tx_hash != old(m)@[b].tx_hash);
                }
                assert forall|a: int, b: int| 0 <= a < b < m@.len() implies !(#[trigger] m@[a].from
                    == #[trigger] m@[b].from && m@[a].nonce == m@[b].nonce) by {
                    assert(!(old(m)@[a].from == old(m)@[b].from && old(m)@[a].nonce == old(
                        m,
                    )@[b].nonce));
                }
            }
            return ;
        }
    }
    assert(!spec_has_hash(s0, tx@.tx_hash));
    let mut found: Option<usize> = None;
    for i in 0..n
        invariant
            n == s0.len(),
            m@ == s0,
            s0 == old(m)@,
            found matches Some(k) ==> 0 <= k < s0.len() && s0[k as int].from == tx@.from
                && s0[k as int].nonce == tx@.nonce,
            found is None ==> forall|j: int|
                0 <= j < i ==> !(#[trigger] s0[j].from == tx@.from && s0[j].nonce == tx@.nonce),
    {
        if found.is_none() && str_eq(m.entries[i].from.as_str(), tx.from.as_str())
            && m.entries[i].nonce == tx.nonce {
            found = Some(i);
        }
    }
    match found {
        Some(k) => {
            proof {
                assert(spec_has_from_nonce(s0, tx@.from, tx@.nonce));
                let w = spec_from_nonce_idx(s0, tx@.from, tx@.nonce);
                assert(0 <= w < s0.len() && s0[w].from == tx@.from && s0[w].nonce == tx@.nonce);
                if w != k as int {
                    let ki = k as int;
                    if w < ki {
                        assert(!(s0[w].from == s0[ki].from && s0[w].nonce == s0[ki].nonce));
                    } else {
                        assert(!(s0[ki].from == s0[w].from && s0[ki].nonce == s0[w].nonce));
                    }
                }
                assert(w == k as int);
            }
            if tx.fee <= m.entries[k].fee {
                return ;
            }
            m.entries.remove(k);
            m.entries.push(tx);
            proof {
                assert(m@ =~= s0.remove(k as int).push(tx@));
                lemma_wf_after_replace(s0, k as int, tx@);
            }
        },
        None => {
            proof {
                assert(!spec_has_from_nonce(s0, tx@.from, tx@.nonce));
            }
            m.entries.push(tx);
            proof {
                assert(m@ =~= s0.push(tx@));
            }
        },
    }
}

/// Removing the incumbent of a (sender, nonce) pair and appending a
/// newcomer with that pair, a fresh hash, keeps the pool invariant.
proof fn lemma_wf_after_replace(s0: Seq<ValidTxView>, k: int, t: ValidTxView)
    requires
        0 <= k < s0.len(),
        forall|i: int, j: int|
            0 <= i < j < s0.len() ==> #[trigger] s0[i].tx_hash != #[trigger] s0[j].tx_hash,
        forall|i: int, j: int|
            0 <= i < j < s0.len() ==> !(#[trigger] s0[i].from == #[trigger] s0[j].from
                && s0[i].nonce == s0[j].nonce),
        !spec_has_hash(s0, t.tx_hash),
        s0[k].from == t.from && s0[k].nonce == t.nonce,
    ensures
        forall|i: int, j: int|
            0 <= i < j < s0.remove(k).push(t).len() ==> #[trigger] s0.remove(k).push(
                t,
            )[i].tx_hash != #[trigger] s0.remove(k).push(t)[j].tx_hash,
        forall|i: int, j: int|
            0 <= i < j < s0.remove(k).push(t).len() ==> !(#[trigger] s0.remove(k).push(t)[i].from
                == #[trigger] s0.remove(k).push(t)[j].from && s0.remove(k).push(t)[i].nonce
                == s0.remove(k).push(t)[j].nonce),
{
    let s = s0.remove(k).push(t);
    assert forall|i: int, j: int| 0 <= i < j < s.len() implies #[trigger] s[i].tx_hash
        != #[trigger] s[j].tx_hash by {
        if j < s.len() - 1 {
            let oi = if i < k {
                i
            } else {
                i + 1
            };
            let oj = if j < k {
                j
            } else {
                j + 1
            };
            assert(s[i] == s0[oi] && s[j] == s0[oj]);
        } else {
            let oi = if i < k {
                i
            } else {
                i + 1
            };
            assert(s[i] == s0[oi]);
            assert(!spec_has_hash(s0, t.tx_hash));
            assert(s0[oi].tx_hash != t.tx_hash);
        }
    }
    assert forall|i: int, j: int| 0 <= i < j < s.len() implies !(#[trigger] s[i].from
        == #[trigger] s[j].from && s[i].nonce == s[j].nonce) by {
        if j < s.len() - 1 {
            let oi = if i < k {
                i
            } else {
                i + 1
            };
            let oj = if j < k {
                j
            } else {
                j + 1
            };
            assert(s[i] == s0[oi] && s[j] == s0[oj]);
        } else {
            let oi = if i < k {
                i
            } else {
                i + 1
            };
            assert(s[i] == s0[oi]);
            if s0[oi].from == t.from && s0[oi].nonce == t.nonce {
                if oi < k {
                    assert(!(s0[oi].from == s0[k].from && s0[oi].nonce == s0[k].nonce));
                } else {
                    assert(!(s0[k].from == s0[oi].from && s0[k].nonce == s0[oi].nonce));
                }
            }
        }
    }
}

/// Holds when `sel` is a fee-optimal selection of `count` entries from
/// `pool` (all of them, when the pool is smaller): sorted by descending
/// fee, drawn from the pool without repetition, and paying at least as
/// much as every entry left behind.
pub open spec fn is_top_selection(pool: Seq<ValidTxView>, sel: Seq<ValidTxView>, count: int) -> bool {
    &&& sel.len() == vstd::math::min(count, pool.len() as int)
    &&& (forall|i: int, j: int|
        0 <= i < j < sel.len() ==> #[trigger] sel[i].fee >= #[trigger] sel[j].fee)
    &&& sel.to_multiset().subset_of(pool.to_multiset())
    &&& (forall|x: ValidTxView|
        #[trigger] pool.to_multiset().count(x) > sel.to_multiset().count(x) ==> forall|j: int|
            0 <= j < sel.len() ==> x.fee <= #[trigger] sel[j].fee)
}

/// Returns the `count` highest-fee transactions, fewer when the pool is
/// smaller; see [`is_top_selection`].
pub fn mempool_get_top(m: &Mempool, count: usize) -> (r: Vec<ValidTxCore>)
    ensures
        is_top_selection(m@, spec_views(r@), count as int),
{
    let ghost orig = m@;
    let mut pool: Vec<ValidTxCore> = Vec::new();
    let n = m.entries.len();
    for i in 0..n
        invariant
            n == m.entries@.len(),
            orig == m@,
            pool@.len() == i as int,
            spec_views(pool@) =~= spec_views(m.entries@).subrange(0, i as int),
    {
        pool.push(m.entries[i].duplicate());
        proof {
            assert(spec_views(pool@) =~= spec_views(m.entries@).subrange(0, i + 1));
        }
    }
    proof {
        assert(spec_views(pool@) =~= orig);
    }
    let mut out: Vec<ValidTxCore> = Vec::new();
    while out.len() < count && pool.len() > 0
        invariant
            out@.len() + pool@.len() == orig.len(),
            out@.len() <= count,
            out@.len() <= orig.len(),
            spec_views(out@).to_multiset().add(spec_views(pool@).to_multiset())
                =~= orig.to_multiset(),
            forall|i: int, j: int|
                0 <= i < j < out@.len() ==> #[trigger] spec_views(out@)[i].fee
                    >= #[trigger] spec_views(out@)[j].fee,
            forall|i: int, j: int|
                0 <= i < out@.len() && 0 <= j < pool@.len() ==> #[trigger] spec_views(out@)[i].fee
                    >= #[trigger] spec_views(pool@)[j].fee,
        decreases pool@.len(),
    {
        let mut mx: usize = 0;
        let plen = pool.len();
        for i in 1..plen
            invariant
                plen == pool@.len(),
                0 < plen,
                mx < i,
                forall|j: int|
                    0 <= j < i ==> #[trigger] spec_views(pool@)[j].fee <= spec_views(
                        pool@,
                    )[mx as int].fee,
        {
            if pool[i].fee > pool[mx].fee {
                mx = i;
            }
        }
        let ghost pool0 = pool@;
        let ghost out0 = out@;
        let picked = pool.remove(mx);
        out.push(picked);
        proof {
            assert(spec_views(out@) =~= spec_views(out0).push(picked@));
            assert(spec_views(pool@) =~= spec_views(pool0).remove(mx as int));
            assert(picked@ == spec_views(pool0)[mx as int]);
            assert(spec_views(pool0).remove(mx as int).to_multiset() =~= spec_views(
                pool0,
            ).to_multiset().remove(picked@));
            assert(spec_views(out0).push(picked@).to_multiset() =~= spec_views(
                out0,
            ).to_multiset().insert(picked@));
            assert(spec_views(pool0).to_multiset().count(picked@) > 0);
            assert(spec_views(out@).to_multiset().add(spec_views(pool@).to_multiset())
                =~= orig.to_multiset());
            assert forall|i: int, j: int|
                0 <= i < out@.len() && 0 <= j < pool@.len() implies #[trigger] spec_views(
                out@,
            )[i].fee >= #[trigger] spec_views(pool@)[j].fee by {
                let oj = if j < mx as int {
                    j
                } else {
                    j + 1
                };
                assert(spec_views(pool@)[j] == spec_views(pool0)[oj]);
                assert(spec_views(pool0)[oj].fee <= picked@.fee);
            }
        }
    }
    proof {
        assert(out@.len() == vstd::math::min(count as int, orig.len() as int)) by {
            assert(spec_views(out@).to_multiset().len() + spec_views(pool@).to_multiset().len()
                == orig.to_multiset().len());
        }
        assert(spec_views(out@).to_multiset().subset_of(orig.to_multiset())) by {
            assert(forall|x: ValidTxView|
                #[trigger] spec_views(out@).to_multiset().count(x) <= orig.to_multiset().count(x));
        }
        assert forall|x: ValidTxView|
            #[trigger] orig.to_multiset().count(x) > spec_views(out@).to_multiset().count(
                x,
            ) implies forall|j: int|
            0 <= j < out@.len() ==> x.fee <= #[trigger] spec_views(out@)[j].fee by {
            assert(spec_views(pool@).to_multiset().count(x) > 0);
            assert(spec_views(pool@).contains(x));
            let w = choose|w: int| 0 <= w < pool@.len() && spec_views(pool@)[w] == x;
            assert forall|j: int| 0 <= j < out@.len() implies x.fee <= #[trigger] spec_views(
                out@,
            )[j].fee by {
                assert(spec_views(out@)[j].fee >= spec_views(pool@)[w].fee);
            }
        }
    }
    out
}

/// Deletes the entry with the given hash, returning it when one existed.
pub fn mempool_remove_by_hash(m: &mut Mempool, tx_hash: &str) -> (r: Option<ValidTxCore>)
    requires
        old(m).wf(),
    ensures
        final(m).wf(),
        !spec_has_hash(old(m)@, tx_hash@) ==> (r is None && final(m)@ == old(m)@),
        spec_has_hash(old(m)@, tx_hash@) ==> {
            &&& r matches Some(t)
            &&& t@ == old(m)@[spec_hash_idx(old(m)@, tx_hash@)]
            &&& final(m)@ == old(m)@.remove(spec_hash_idx(old(m)@, tx_hash@))
        },
{
    let ghost s0 = m@;
    let n = m.entries.len();
    for i in 0..n
        invariant
            n == s0.len(),
            m@ == s0,
            s0 == old(m)@,
            old(m).wf(),
            forall|j: int| 0 <= j < i ==> #[trigger] s0[j].tx_hash != tx_hash@,
    {
        if str_eq(m.entries[i].tx_hash.as_str(), tx_hash) {
            let t = m.entries.remove(i);
            proof {
                assert(s0[i as int].tx_hash == tx_hash@);
                assert(spec_has_hash(s0, tx_hash@));
                let w = spec_hash_idx(s0, tx_hash@);
                assert(0 <= w < s0.len() && s0[w].tx_hash == tx_hash@);
                if w != i as int {
                    if w < i as int {
                        assert(s0[w].tx_hash != s0[i as int].tx_hash);
                    } else {
                        assert(s0[i as int].tx_hash != s0[w].tx_hash);
                    }
                }
                assert(w == i as int);
                assert(m@ =~= s0.remove(i as int));
                assert forall|a: int, b: int| 0 <= a < b < m@.len() implies #[trigger] m@[a].tx_hash
                    != #[trigger] m@[b].tx_hash by {
                    let oa = if a < i as int {
                        a
                    } else {
                        a + 1
                    };
                    let ob = if b < i as int {
                        b
                    } else {
                        b + 1
                    };
                    assert(m@[a] == s0[oa] && m@[b] == s0[ob]);
                }
                assert forall|a: int, b: int| 0 <= a < b < m@.len() implies !(#[trigger] m@[a].from
                    == #[trigger] m@[b].from && m@[a].nonce == m@[b].nonce) by {
                    let oa = if a < i as int {
                        a
                    } else {
                        a + 1
                    };
                    let ob = if b < i as int {
                        b
                    } else {
                        b + 1
                    };
                    assert(m@[a] == s0[oa] && m@[b] == s0[ob]);
                }
            }
            return Some(t);
        }
    }
    assert(!spec_has_hash(s0, tx_hash@));
    None
}


/// Whether some transaction of `sel` carries the given hash.
pub open spec fn spec_sel_has_hash(sel: Seq<ValidTxView>, h: Seq<char>) -> bool {
    exists|i: int| 0 <= i < sel.len() && sel[i].tx_hash == h
}

/// The pool entries that survive evicting the hashes of `sel`, in their
/// original order.
pub open spec fn spec_drop_sel_hashes(
    pool: Seq<ValidTxView>,
    sel: Seq<ValidTxView>,
) -> Seq<ValidTxView>
    decreases pool.len(),
{
    if pool.len() == 0 {
        Seq::empty()
    } else if spec_sel_has_hash(sel, pool[0].tx_hash) {
        spec_drop_sel_hashes(pool.drop_first(), sel)
    } else {
        seq![pool[0]] + spec_drop_sel_hashes(pool.drop_first(), sel)
    }
}

/// Extending the processed prefix by one entry appends it to the
/// survivors exactly when its hash is not selected.
proof fn lemma_drop_sel_snoc(pool: Seq<ValidTxView>, i: int, sel: Seq<ValidTxView>)
    requires
        0 <= i < pool.len(),
    ensures
        spec_drop_sel_hashes(pool.subrange(0, i + 1), sel) == spec_drop_sel_hashes(
            pool.subrange(0, i),
            sel,
        ) + (if spec_sel_has_hash(sel, pool[i].tx_hash) {
            Seq::<ValidTxView>::empty()
        } else {
            seq![pool[i]]
        }),
    decreases i,
{
    let pre = pool.subrange(0, i + 1);
    if i == 0 {
        assert(pre[0] == pool[0]);
        assert(pre.drop_first() =~= Seq::<ValidTxView>::empty());
        assert(pool.subrange(0, 0) =~= Seq::<ValidTxView>::empty());
        assert(spec_drop_sel_hashes(Seq::<ValidTxView>::empty(), sel) == Seq::<
            ValidTxView,
        >::empty());
        if spec_sel_has_hash(sel, pool[0].tx_hash) {
            assert(spec_drop_sel_hashes(pre, sel) =~= Seq::<ValidTxView>::empty());
        } else {
            assert(spec_drop_sel_hashes(pre, sel) =~= seq![pool[0]] + Seq::<
                ValidTxView,
            >::empty());
            assert(seq![pool[0]] + Seq::<ValidTxView>::empty() =~= seq![pool[0]]);
        }
    } else {
        lemma_drop_sel_snoc(pool.drop_first(), i - 1, sel);
        assert(pre[0] == pool[0]);
        assert(pre.drop_first() =~= pool.drop_first().subrange(0, i));
        assert(pool.subrange(0, i)[0] == pool[0]);
        assert(pool.subrange(0, i).drop_first() =~= pool.drop_first().subrange(0, i - 1));
        assert(pool.drop_first()[i - 1] == pool[i]);
        if !spec_sel_has_hash(sel, pool[0].tx_hash) {
            assert(seq![pool[0]] + (spec_drop_sel_hashes(pool.drop_first().subrange(0, i - 1), sel)
                + (if spec_sel_has_hash(sel, pool[i].tx_hash) {
                Seq::<ValidTxView>::empty()
            } else {
                seq![pool[i]]
            })) =~= (seq![pool[0]] + spec_drop_sel_hashes(
                pool.drop_first().subrange(0, i - 1),
                sel,
            )) + (if spec_sel_has_hash(sel, pool[i].tx_hash) {
                Seq::<ValidTxView>::empty()
            } else {
                seq![pool[i]]
            }));
        }
    }
}

/// What survives an eviction: every survivor is a pool entry, no
/// survivor carries a selected hash, and both pool uniqueness
/// invariants are kept.
pub proof fn lemma_drop_sel_facts(pool: Seq<ValidTxView>, sel: Seq<ValidTxView>)
    requires
        forall|i: int, j: int|
            0 <= i < j < pool.len() ==> #[trigger] pool[i].tx_hash != #[trigger] pool[j].tx_hash,
        forall|i: int, j: int|
            0 <= i < j < pool.len() ==> !(#[trigger] pool[i].from == #[trigger] pool[j].from
                && pool[i].nonce == pool[j].nonce),
    ensures
        forall|j: int|
            0 <= j < spec_drop_sel_hashes(pool, sel).len() ==> pool.contains(
                #[trigger] spec_drop_sel_hashes(pool, sel)[j],
            ),
        forall|j: int|
            0 <= j < spec_drop_sel_hashes(pool, sel).len() ==> !spec_sel_has_hash(
                sel,
                #[trigger] spec_drop_sel_hashes(pool, sel)[j].tx_hash,
            ),
        forall|i: int, j: int|
            0 <= i < j < spec_drop_sel_hashes(pool, sel).len() ==> #[trigger] spec_drop_sel_hashes(
                pool,
                sel,
            )[i].tx_hash != #[trigger] spec_drop_sel_hashes(pool, sel)[j].tx_hash,
        forall|i: int, j: int|
            0 <= i < j < spec_drop_sel_hashes(pool, sel).len() ==> !(
            #[trigger] spec_drop_sel_hashes(pool, sel)[i].from == #[trigger] spec_drop_sel_hashes(
                pool,
                sel,
            )[j].from && spec_drop_sel_hashes(pool, sel)[i].nonce == spec_drop_sel_hashes(
                pool,
                sel,
            )[j].nonce),
    decreases pool.len(),
{
    if pool.len() == 0 {
    } else {
        let tail = pool.drop_first();
        lemma_drop_sel_facts(tail, sel);
        let rt = spec_drop_sel_hashes(tail, sel);
        let r = spec_drop_sel_hashes(pool, sel);
        assert forall|j: int| 0 <= j < rt.len() implies pool.contains(rt[j]) by {
            assert(tail.contains(rt[j]));
            let k = choose|k: int| 0 <= k < tail.len() && tail[k] == rt[j];
            assert(pool[k + 1] == rt[j]);
        }
        if spec_sel_has_hash(sel, pool[0].tx_hash) {
            assert(r == rt);
        } else {
            assert(r == seq![pool[0]] + rt);
            assert(r[0] == pool[0]);
            assert forall|j: int| 0 <= j < r.len() implies pool.contains(#[trigger] r[j]) by {
                if j == 0 {
                    assert(pool[0] == r[0]);
                } else {
                    assert(r[j] == rt[j - 1]);
                }
            }
            assert forall|i: int, j: int| 0 <= i < j < r.len() implies #[trigger] r[i].tx_hash
                != #[trigger] r[j].tx_hash by {
                if i == 0 {
                    assert(r[j] == rt[j - 1]);
                    assert(tail.contains(rt[j - 1]));
                    let k = choose|k: int| 0 <= k < tail.len() && tail[k] == rt[j - 1];
                    assert(pool[0].tx_hash != pool[k + 1].tx_hash);
                } else {
                    assert(r[i] == rt[i - 1] && r[j] == rt[j - 1]);
                }
            }
            assert forall|i: int, j: int| 0 <= i < j < r.len() implies !(#[trigger] r[i].from
                == #[trigger] r[j].from && r[i].nonce == r[j].nonce) by {
                if i == 0 {
                    assert(r[j] == rt[j - 1]);
                    assert(tail.contains(rt[j - 1]));
                    let k = choose|k: int| 0 <= k < tail.len() && tail[k] == rt[j - 1];
                    let k1 = k + 1;
                    assert(!(pool[0].from == pool[k1].from && pool[0].nonce == pool[k1].nonce));
                } else {
                    assert(r[i] == rt[i - 1] && r[j] == rt[j - 1]);
                }
            }
        }
    }
}

/// Evicts from the pool, in one pass, every entry whose hash one of the
/// given transactions carries; everything else survives in place.
pub fn mempool_remove_hashes(m: &mut Mempool, txs: &Vec<ValidTxCore>)
    requires
        old(m).wf(),
    ensures
        final(m).wf(),
        final(m)@ == spec_drop_sel_hashes(old(m)@, spec_views(txs@)),
        forall|h: Seq<char>|
            spec_sel_has_hash(spec_views(txs@), h) ==> !spec_has_hash(final(m)@, h),
{
    let ghost s0 = m@;
    let ghost selv = spec_views(txs@);
    let mut kept: Vec<ValidTxCore> = Vec::new();
    let n = m.entries.len();
    proof {
        assert(s0.subrange(0, 0) =~= Seq::<ValidTxView>::empty());
        assert(spec_views(kept@) =~= Seq::<ValidTxView>::empty());
    }
    for i in 0..n
        invariant
            n == s0.len(),
            m@ == s0,
            s0 == old(m)@,
            selv == spec_views(txs@),
            spec_views(kept@) == spec_drop_sel_hashes(s0.subrange(0, i as int), selv),
    {
        let mut found = false;
        let tn = txs.len();
        for k in 0..tn
            invariant
                n == s0.len(),
                m@ == s0,
                i < n,
                tn == selv.len(),
                selv == spec_views(txs@),
                found ==> spec_sel_has_hash(selv, s0[i as int].tx_hash),
                !found ==> forall|l: int|
                    0 <= l < k ==> #[trigger] selv[l].tx_hash != s0[i as int].tx_hash,
        {
            if !found && str_eq(txs[k].tx_hash.as_str(), m.entries[i].tx_hash.as_str()) {
                found = true;
                proof {
                    assert(selv[k as int].tx_hash == s0[i as int].tx_hash);
                }
            }
        }
        proof {
            assert(found == spec_sel_has_hash(selv, s0[i as int].tx_hash));
            lemma_drop_sel_snoc(s0, i as int, selv);
        }
        if !found {
            let ghost kept0 = spec_views(kept@);
            kept.push(m.entries[i].duplicate());
            proof {
                assert(spec_views(kept@) =~= kept0 + seq![s0[i as int]]);
            }
        } else {
            proof {
                assert(spec_views(kept@) + Seq::<ValidTxView>::empty() =~= spec_views(kept@));
            }
        }
    }
    proof {
        assert(s0.subrange(0, n as int) =~= s0);
    }
    m.entries = kept;
    proof {
        lemma_drop_sel_facts(s0, selv);
        assert forall|h: Seq<char>|
            spec_sel_has_hash(selv, h) implies !spec_has_hash(m@, h) by {
            if spec_has_hash(m@, h) {
                let j = choose|j: int| 0 <= j < m@.len() && m@[j].tx_hash == h;
                assert(!spec_sel_has_hash(selv, m@[j].tx_hash));
            }
        }
    }
}

} // verus!
