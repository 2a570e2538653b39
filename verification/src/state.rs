//! The account ledger: balances keyed by (address, token), one nonce per
//! address, and the pointer to the last applied block.  Applying a block
//! is all-or-nothing: a failing transaction leaves the ledger untouched.

use vstd::prelude::*;

use crate::block::{Block, BlockView};
use crate::strutil::str_eq;
use crate::tx::ValidTxView;

verus! {

/// The distinguished account that collects all transaction fees.
pub const TREASURY_ADDR: &'static str = "gld21vakxgv57d5snlk3t06emkcu7uyk5snmu5xtsp7sjtasx69tqawy";

/// The treasury's genesis balance, in minimal units.
pub const TREASURY_INITIAL_GLD: u64 = 1_000_000_000_000_000;

/// The treasury address as a character sequence.
pub open spec fn spec_treasury_addr() -> Seq<char> {
    "gld21vakxgv57d5snlk3t06emkcu7uyk5snmu5xtsp7sjtasx69tqawy"@
}

/// The treasury address as a string slice.
pub fn treasury_addr() -> (s: &'static str)
    ensures
        s@ == spec_treasury_addr(),
{
    "gld21vakxgv57d5snlk3t06emkcu7uyk5snmu5xtsp7sjtasx69tqawy"
}

/// One account balance: an (address, token) key and what it holds.
#[derive(Debug, Clone, PartialEq, Eq)]
pub struct AccountBalance {
    pub address: String,
    pub token: String,
    pub amount: u64,
}

/// The mathematical value of an [`AccountBalance`].
pub ghost struct AccountBalanceView {
    pub address: Seq<char>,
    pub token: Seq<char>,
    pub amount: u64,
}

impl View for AccountBalance {
    type V = AccountBalanceView;

    open spec fn view(&self) -> AccountBalanceView {
        AccountBalanceView { address: self.address@, token: self.token@, amount: self.amount }
    }
}

/// One recorded nonce: an address and the highest nonce seen from it.
#[derive(Debug, Clone, PartialEq, Eq)]
pub struct AddressNonce {
    pub address: String,
    pub nonce: u64,
}

/// The mathematical value of an [`AddressNonce`].
pub ghost struct AddressNonceView {
    pub address: Seq<char>,
    pub nonce: u64,
}

impl View for AddressNonce {
    type V = AddressNonceView;

    open spec fn view(&self) -> AddressNonceView {
        AddressNonceView { address: self.address@, nonce: self.nonce }
    }
}

/// The height and identifier of the last applied block.
#[derive(Debug, Clone, PartialEq, Eq)]
pub struct BlockMeta {
    pub height: u64,
    pub hash: String,
}

/// The mathematical value of a [`BlockMeta`].
pub ghost struct BlockMetaView {
    pub height: u64,
    pub hash: Seq<char>,
}

impl View for BlockMeta {
    type V = BlockMetaView;

    open spec fn view(&self) -> BlockMetaView {
        BlockMetaView { height: self.height, hash: self.hash@ }
    }
}

/// The views of a run of balances.
pub open spec fn spec_bal_views(s: Seq<AccountBalance>) -> Seq<AccountBalanceView> {
    Seq::new(s.len(), |i: int| s[i]@)
}

/// The views of a run of nonces.
pub open spec fn spec_nonce_views(s: Seq<AddressNonce>) -> Seq<AddressNonceView> {
    Seq::new(s.len(), |i: int| s[i]@)
}

/// Whether some balance entry carries the given key.
pub open spec fn spec_has_account(
    s: Seq<AccountBalanceView>,
    addr: Seq<char>,
    token: Seq<char>,
) -> bool {
    exists|i: int| 0 <= i < s.len() && s[i].address == addr && s[i].token == token
}

/// The index of the balance entry carrying the given key.
pub open spec fn spec_account_idx(
    s: Seq<AccountBalanceView>,
    addr: Seq<char>,
    token: Seq<char>,
) -> int {
    choose|i: int| 0 <= i < s.len() && s[i].address == addr && s[i].token == token
}

/// The balance of an (address, token) key; 0 for an unknown key.
pub open spec fn spec_lookup_balance(
    s: Seq<AccountBalanceView>,
    addr: Seq<char>,
    token: Seq<char>,
) -> u64 {
    if spec_has_account(s, addr, token) {
        s[spec_account_idx(s, addr, token)].amount
    } else {
        0
    }
}

/// The balances after setting an (address, token) key to `amount`: the
/// entry is updated in place, or appended when the key is new.
pub open spec fn spec_set_balance(
    s: Seq<AccountBalanceView>,
    addr: Seq<char>,
    token: Seq<char>,
    amount: u64,
) -> Seq<AccountBalanceView> {
    let e = AccountBalanceView { address: addr, token: token, amount: amount };
    if spec_has_account(s, addr, token) {
        s.update(spec_account_idx(s, addr, token), e)
    } else {
        s.push(e)
    }
}

/// Whether some nonce entry carries the given address.
pub open spec fn spec_has_nonce(s: Seq<AddressNonceView>, addr: Seq<char>) -> bool {
    exists|i: int| 0 <= i < s.len() && s[i].address == addr
}

/// The index of the nonce entry carrying the given address.
pub open spec fn spec_nonce_idx(s: Seq<AddressNonceView>, addr: Seq<char>) -> int {
    choose|i: int| 0 <= i < s.len() && s[i].address == addr
}

/// The recorded nonce of an address; 0 for an unknown address.
pub open spec fn spec_lookup_nonce(s: Seq<AddressNonceView>, addr: Seq<char>) -> u64 {
    if spec_has_nonce(s, addr) {
        s[spec_nonce_idx(s, addr)].nonce
    } else {
        0
    }
}

/// The nonces after seeing `nonce` from `addr`: the recorded value only
/// ever rises.
pub open spec fn spec_bump_nonce(
    s: Seq<AddressNonceView>,
    addr: Seq<char>,
    nonce: u64,
) -> Seq<AddressNonceView> {
    if spec_has_nonce(s, addr) {
        let i = spec_nonce_idx(s, addr);
        if nonce > s[i].nonce {
            s.update(i, AddressNonceView { address: addr, nonce: nonce })
        } else {
            s
        }
    } else {
        s.push(AddressNonceView { address: addr, nonce: nonce })
    }
}

/// Balance keys are unique.
pub open spec fn wf_balances(s: Seq<AccountBalanceView>) -> bool {
    forall|i: int, j: int|
        0 <= i < j < s.len() ==> !(#[trigger] s[i].address == #[trigger] s[j].address && s[i].token
            == s[j].token)
}

/// Nonce addresses are unique.
pub open spec fn wf_nonces(s: Seq<AddressNonceView>) -> bool {
    forall|i: int, j: int|
        0 <= i < j < s.len() ==> #[trigger] s[i].address != #[trigger] s[j].address
}

/// The total held in a given token across all accounts.
pub open spec fn spec_sum_token(s: Seq<AccountBalanceView>, token: Seq<char>) -> int
    decreases s.len(),
{
    if s.len() == 0 {
        0
    } else {
        (if s[0].token == token {
            s[0].amount as int
        } else {
            0
        }) + spec_sum_token(s.drop_first(), token)
    }
}

proof fn lemma_sum_update(s: Seq<AccountBalanceView>, i: int, e: AccountBalanceView, token: Seq<char>)
    requires
        0 <= i < s.len(),
    ensures
        spec_sum_token(s.update(i, e), token) == spec_sum_token(s, token) - (if s[i].token
            == token {
            s[i].amount as int
        } else {
            0
        }) + (if e.token == token {
            e.amount as int
        } else {
            0
        }),
    decreases s.len(),
{
    if i == 0 {
        assert(s.update(0, e).drop_first() =~= s.drop_first());
    } else {
        assert(s.update(i, e).drop_first() =~= s.drop_first().update(i - 1, e));
        lemma_sum_update(s.drop_first(), i - 1, e, token);
    }
}

proof fn lemma_sum_push(s: Seq<AccountBalanceView>, e: AccountBalanceView, token: Seq<char>)
    ensures
        spec_sum_token(s.push(e), token) == spec_sum_token(s, token) + (if e.token == token {
            e.amount as int
        } else {
            0
        }),
    decreases s.len(),
{
    let p = s.push(e);
    assert(p.len() == s.len() + 1);
    if s.len() == 0 {
        assert(p[0] == e);
        assert(p.drop_first() =~= Seq::<AccountBalanceView>::empty());
        assert(spec_sum_token(p.drop_first(), token) == 0);
        assert(spec_sum_token(p, token) == (if p[0].token == token {
            p[0].amount as int
        } else {
            0
        }) + spec_sum_token(p.drop_first(), token));
    } else {
        assert(p[0] == s[0]);
        assert(p.drop_first() =~= s.drop_first().push(e));
        lemma_sum_push(s.drop_first(), e, token);
        assert(spec_sum_token(p, token) == (if p[0].token == token {
            p[0].amount as int
        } else {
            0
        }) + spec_sum_token(p.drop_first(), token));
    }
}

/// What setting one balance key does: the key reads back as written,
/// every other key is untouched, key uniqueness is kept, and the token
/// total moves by exactly the difference written.
pub proof fn lemma_set_balance(
    s: Seq<AccountBalanceView>,
    addr: Seq<char>,
    token: Seq<char>,
    amount: u64,
)
    requires
        wf_balances(s),
    ensures
        wf_balances(spec_set_balance(s, addr, token, amount)),
        spec_lookup_balance(spec_set_balance(s, addr, token, amount), addr, token) == amount,
        forall|a2: Seq<char>, t2: Seq<char>|
            !(a2 == addr && t2 == token) ==> #[trigger] spec_lookup_balance(
                spec_set_balance(s, addr, token, amount),
                a2,
                t2,
            ) == spec_lookup_balance(s, a2, t2),
        forall|t2: Seq<char>|
            #[trigger] spec_sum_token(spec_set_balance(s, addr, token, amount), t2)
                == spec_sum_token(s, t2) + (if t2 == token {
                amount as int - (if spec_has_account(s, addr, token) {
                    spec_lookup_balance(s, addr, token) as int
                } else {
                    0
                })
            } else {
                0
            }),
{
    let e = AccountBalanceView { address: addr, token: token, amount: amount };
    let r = spec_set_balance(s, addr, token, amount);
    if spec_has_account(s, addr, token) {
        let i = spec_account_idx(s, addr, token);
        assert(0 <= i < s.len() && s[i].address == addr && s[i].token == token);
        assert forall|a: int, b: int| 0 <= a < b < r.len() implies !(#[trigger] r[a].address
            == #[trigger] r[b].address && r[a].token == r[b].token) by {
            if a != i && b != i {
                assert(r[a] == s[a] && r[b] == s[b]);
            } else if a == i {
                assert(r[b] == s[b]);
                if r[a].address == r[b].address && r[a].token == r[b].token {
                    assert(s[i].address == s[b].address && s[i].token == s[b].token);
                }
            } else {
                assert(r[a] == s[a]);
                if r[a].address == r[b].address && r[a].token == r[b].token {
                    assert(s[a].address == s[i].address && s[a].token == s[i].token);
                }
            }
        }
        assert(spec_has_account(r, addr, token)) by {
            assert(r[i].address == addr && r[i].token == token);
        }
        let i2 = spec_account_idx(r, addr, token);
        assert(0 <= i2 < r.len() && r[i2].address == addr && r[i2].token == token);
        if i2 != i {
            if i2 < i {
                assert(!(r[i2].address == r[i].address && r[i2].token == r[i].token));
            } else {
                assert(!(r[i].address == r[i2].address && r[i].token == r[i2].token));
            }
        }
        assert(spec_lookup_balance(r, addr, token) == amount);
        assert forall|a2: Seq<char>, t2: Seq<char>|
            !(a2 == addr && t2 == token) implies #[trigger] spec_lookup_balance(r, a2, t2)
            == spec_lookup_balance(s, a2, t2) by {
            lemma_lookup_other_update(s, i, e, a2, t2);
        }
        assert forall|t2: Seq<char>| #[trigger] spec_sum_token(r, t2) == spec_sum_token(s, t2) + (
        if t2 == token {
            amount as int - spec_lookup_balance(s, addr, token) as int
        } else {
            0
        }) by {
            lemma_sum_update(s, i, e, t2);
        }
    } else {
        assert forall|a: int, b: int| 0 <= a < b < r.len() implies !(#[trigger] r[a].address
            == #[trigger] r[b].address && r[a].token == r[b].token) by {
            if b < s.len() {
                assert(r[a] == s[a] && r[b] == s[b]);
            } else {
                assert(r[a] == s[a] && r[b] == e);
                if r[a].address == addr && r[a].token == token {
                    assert(spec_has_account(s, addr, token));
                }
            }
        }
        assert(spec_has_account(r, addr, token)) by {
            assert(r[s.len() as int].address == addr && r[s.len() as int].token == token);
        }
        let i2 = spec_account_idx(r, addr, token);
        assert(0 <= i2 < r.len() && r[i2].address == addr && r[i2].token == token);
        if i2 < s.len() {
            assert(r[i2] == s[i2]);
            assert(spec_has_account(s, addr, token));
        }
        assert(spec_lookup_balance(r, addr, token) == amount);
        assert forall|a2: Seq<char>, t2: Seq<char>|
            !(a2 == addr && t2 == token) implies #[trigger] spec_lookup_balance(r, a2, t2)
            == spec_lookup_balance(s, a2, t2) by {
            lemma_lookup_other_push(s, e, a2, t2);
        }
        assert forall|t2: Seq<char>| #[trigger] spec_sum_token(r, t2) == spec_sum_token(s, t2) + (
        if t2 == token {
            amount as int
        } else {
            0
        }) by {
            lemma_sum_push(s, e, t2);
        }
    }
}

proof fn lemma_lookup_other_update(
    s: Seq<AccountBalanceView>,
    i: int,
    e: AccountBalanceView,
    a2: Seq<char>,
    t2: Seq<char>,
)
    requires
        wf_balances(s),
        0 <= i < s.len(),
        s[i].address == e.address && s[i].token == e.token,
        !(a2 == e.address && t2 == e.token),
    ensures
        spec_lookup_balance(s.update(i, e), a2, t2) == spec_lookup_balance(s, a2, t2),
{
    let r = s.update(i, e);
    if spec_has_account(r, a2, t2) {
        let k = spec_account_idx(r, a2, t2);
        assert(0 <= k < r.len() && r[k].address == a2 && r[k].token == t2);
        assert(k != i);
        assert(s[k].address == a2 && s[k].token == t2);
        assert(spec_has_account(s, a2, t2));
        let k2 = spec_account_idx(s, a2, t2);
        assert(0 <= k2 < s.len() && s[k2].address == a2 && s[k2].token == t2);
        assert(k2 != i);
        lemma_key_unique(s, k, k2);
        assert(r[k2].address == a2 && r[k2].token == t2);
        assert(r[k] == s[k2]);
    } else {
        if spec_has_account(s, a2, t2) {
            let k2 = spec_account_idx(s, a2, t2);
            assert(0 <= k2 < s.len() && s[k2].address == a2 && s[k2].token == t2);
            assert(k2 != i);
            assert(r[k2].address == a2 && r[k2].token == t2);
            assert(spec_has_account(r, a2, t2));
        }
    }
}

proof fn lemma_lookup_other_push(
    s: Seq<AccountBalanceView>,
    e: AccountBalanceView,
    a2: Seq<char>,
    t2: Seq<char>,
)
    requires
        wf_balances(s),
        !(a2 == e.address && t2 == e.token),
    ensures
        spec_lookup_balance(s.push(e), a2, t2) == spec_lookup_balance(s, a2, t2),
{
    let r = s.push(e);
    if spec_has_account(r, a2, t2) {
        let k = spec_account_idx(r, a2, t2);
        assert(0 <= k < r.len() && r[k].address == a2 && r[k].token == t2);
        assert(k != s.len());
        assert(s[k].address == a2 && s[k].token == t2);
        assert(spec_has_account(s, a2, t2));
        let k2 = spec_account_idx(s, a2, t2);
        assert(0 <= k2 < s.len() && s[k2].address == a2 && s[k2].token == t2);
        lemma_key_unique(s, k, k2);
        assert(r[k2].address == a2 && r[k2].token == t2);
        assert(r[k] == s[k2]);
    } else {
        if spec_has_account(s, a2, t2) {
            let k2 = spec_account_idx(s, a2, t2);
            assert(0 <= k2 < s.len() && s[k2].address == a2 && s[k2].token == t2);
            assert(r[k2].address == a2 && r[k2].token == t2);
            assert(spec_has_account(r, a2, t2));
        }
    }
}

/// Under key uniqueness, two balance entries with the same key are one.
pub proof fn lemma_key_unique(s: Seq<AccountBalanceView>, a: int, b: int)
    requires
        wf_balances(s),
        0 <= a < s.len(),
        0 <= b < s.len(),
        s[a].address == s[b].address && s[a].token == s[b].token,
    ensures
        a == b,
{
    if a < b {
        assert(!(s[a].address == s[b].address && s[a].token == s[b].token));
    } else if b < a {
        assert(!(s[b].address == s[a].address && s[b].token == s[a].token));
    }
}

/// Under address uniqueness, two nonce entries with the same address are
/// one.
pub proof fn lemma_nonce_unique(s: Seq<AddressNonceView>, a: int, b: int)
    requires
        wf_nonces(s),
        0 <= a < s.len(),
        0 <= b < s.len(),
        s[a].address == s[b].address,
    ensures
        a == b,
{
    if a < b {
        assert(s[a].address != s[b].address);
    } else if b < a {
        assert(s[b].address != s[a].address);
    }
}

/// Recording a nonce keeps address uniqueness and reads back as the
/// maximum of the old and new values.
pub proof fn lemma_bump_nonce(s: Seq<AddressNonceView>, addr: Seq<char>, nonce: u64)
    requires
        wf_nonces(s),
    ensures
        wf_nonces(spec_bump_nonce(s, addr, nonce)),
        spec_lookup_nonce(spec_bump_nonce(s, addr, nonce), addr) == (if nonce > spec_lookup_nonce(
            s,
            addr,
        ) {
            nonce
        } else {
            spec_lookup_nonce(s, addr)
        }),
        spec_lookup_nonce(spec_bump_nonce(s, addr, nonce), addr) >= spec_lookup_nonce(s, addr),
{
    let r = spec_bump_nonce(s, addr, nonce);
    if spec_has_nonce(s, addr) {
        let i = spec_nonce_idx(s, addr);
        assert(0 <= i < s.len() && s[i].address == addr);
        if nonce > s[i].nonce {
            assert forall|a: int, b: int| 0 <= a < b < r.len() implies #[trigger] r[a].address
                != #[trigger] r[b].address by {
                assert(r[a].address == s[a].address && r[b].address == s[b].address);
            }
            assert(spec_has_nonce(r, addr)) by {
                assert(r[i].address == addr);
            }
            let i2 = spec_nonce_idx(r, addr);
            assert(r[i2].address == addr);
            assert(s[i2].address == addr);
            lemma_nonce_unique(s, i2, i);
            assert(spec_lookup_nonce(r, addr) == nonce);
        }
    } else {
        assert forall|a: int, b: int| 0 <= a < b < r.len() implies #[trigger] r[a].address
            != #[trigger] r[b].address by {
            if b < s.len() {
                assert(r[a].address == s[a].address && r[b].address == s[b].address);
            } else {
                assert(r[a] == s[a]);
                if r[a].address == addr {
                    assert(spec_has_nonce(s, addr));
                }
            }
        }
        assert(spec_has_nonce(r, addr)) by {
            assert(r[s.len() as int].address == addr);
        }
        let i2 = spec_nonce_idx(r, addr);
        assert(0 <= i2 < r.len() && r[i2].address == addr);
        if i2 < s.len() {
            assert(s[i2].address == addr);
            assert(spec_has_nonce(s, addr));
        }
        assert(spec_lookup_nonce(r, addr) == nonce);
    }
}

/// The ledger transition of a single transaction: a non-transfer is
/// skipped; a transfer debits the sender by amount plus fee, credits the
/// recipient by the amount, credits the treasury by the fee, and raises
/// the sender's recorded nonce.  Each failure carries its exact text.
pub open spec fn spec_apply_tx(
    bal: Seq<AccountBalanceView>,
    non: Seq<AddressNonceView>,
    t: ValidTxView,
) -> Result<(Seq<AccountBalanceView>, Seq<AddressNonceView>), Seq<char>> {
    if t.tx_type != "transfer"@ {
        Ok((bal, non))
    } else if t.amount + t.fee > u64::MAX {
        Err("overflow on amount+fee"@)
    } else {
        let total = (t.amount + t.fee) as u64;
        let fb = spec_lookup_balance(bal, t.from, t.token);
        if fb < total {
            Err("insufficient balance"@)
        } else {
            let b1 = spec_set_balance(bal, t.from, t.token, (fb - total) as u64);
            let tb = spec_lookup_balance(b1, t.to, t.token);
            if tb + t.amount > u64::MAX {
                Err("overflow on receiver balance"@)
            } else {
                let b2 = spec_set_balance(b1, t.to, t.token, (tb + t.amount) as u64);
                let trb = spec_lookup_balance(b2, spec_treasury_addr(), t.token);
                if trb + t.fee > u64::MAX {
                    Err("overflow on treasury balance"@)
                } else {
                    let b3 = spec_set_balance(
                        b2,
                        spec_treasury_addr(),
                        t.token,
                        (trb + t.fee) as u64,
                    );
                    Ok((b3, spec_bump_nonce(non, t.from, t.nonce)))
                }
            }
        }
    }
}

/// The ledger transition of a run of transactions, in order, stopping at
/// the first failure.
pub open spec fn spec_apply_txs(
    bal: Seq<AccountBalanceView>,
    non: Seq<AddressNonceView>,
    txs: Seq<ValidTxView>,
) -> Result<(Seq<AccountBalanceView>, Seq<AddressNonceView>), Seq<char>>
    decreases txs.len(),
{
    if txs.len() == 0 {
        Ok((bal, non))
    } else {
        match spec_apply_tx(bal, non, txs[0]) {
            Err(e) => Err(e),
            Ok((b2, n2)) => spec_apply_txs(b2, n2, txs.drop_first()),
        }
    }
}

/// Applying a run of transactions splits at any point: first the prefix,
/// then the rest from the prefix's result.
pub proof fn lemma_apply_txs_split(
    bal: Seq<AccountBalanceView>,
    non: Seq<AddressNonceView>,
    txs: Seq<ValidTxView>,
    i: int,
)
    requires
        0 <= i <= txs.len(),
    ensures
        spec_apply_txs(bal, non, txs) == (match spec_apply_txs(bal, non, txs.subrange(0, i)) {
            Err(e) => Err(e),
            Ok((b2, n2)) => spec_apply_txs(b2, n2, txs.skip(i)),
        }),
    decreases i,
{
    if i == 0 {
        assert(txs.subrange(0, 0) =~= Seq::<ValidTxView>::empty());
        assert(txs.skip(0) =~= txs);
    } else {
        let pre = txs.subrange(0, i);
        assert(pre[0] == txs[0]);
        assert(txs.len() > 0);
        match spec_apply_tx(bal, non, txs[0]) {
            Err(e) => {
                assert(spec_apply_txs(bal, non, pre) == Err::<
                    (Seq<AccountBalanceView>, Seq<AddressNonceView>),
                    Seq<char>,
                >(e));
            },
            Ok((b2, n2)) => {
                lemma_apply_txs_split(b2, n2, txs.drop_first(), i - 1);
                assert(pre.drop_first() =~= txs.drop_first().subrange(0, i - 1));
                assert(txs.drop_first().skip(i - 1) =~= txs.skip(i));
            },
        }
    }
}

/// Token conservation over one transaction: a successful transition
/// leaves the total of every token unchanged — the sender's debit equals
/// the recipient's credit plus the treasury's fee.
pub proof fn lemma_apply_tx_conserves(
    bal: Seq<AccountBalanceView>,
    non: Seq<AddressNonceView>,
    t: ValidTxView,
    tok: Seq<char>,
)
    requires
        wf_balances(bal),
        wf_nonces(non),
        spec_apply_tx(bal, non, t) is Ok,
    ensures
        wf_balances((spec_apply_tx(bal, non, t)->Ok_0).0),
        wf_nonces((spec_apply_tx(bal, non, t)->Ok_0).1),
        spec_sum_token((spec_apply_tx(bal, non, t)->Ok_0).0, tok) == spec_sum_token(bal, tok),
{
    if t.tx_type != "transfer"@ {
    } else {
        let total = (t.amount + t.fee) as u64;
        let fb = spec_lookup_balance(bal, t.from, t.token);
        let b1 = spec_set_balance(bal, t.from, t.token, (fb - total) as u64);
        lemma_set_balance(bal, t.from, t.token, (fb - total) as u64);
        let tb = spec_lookup_balance(b1, t.to, t.token);
        let b2 = spec_set_balance(b1, t.to, t.token, (tb + t.amount) as u64);
        lemma_set_balance(b1, t.to, t.token, (tb + t.amount) as u64);
        let trb = spec_lookup_balance(b2, spec_treasury_addr(), t.token);
        let b3 = spec_set_balance(b2, spec_treasury_addr(), t.token, (trb + t.fee) as u64);
        lemma_set_balance(b2, spec_treasury_addr(), t.token, (trb + t.fee) as u64);
        lemma_bump_nonce(non, t.from, t.nonce);
        if tok == t.token {
            assert(spec_sum_token(b1, tok) == spec_sum_token(bal, tok) - total);
            assert(spec_sum_token(b2, tok) == spec_sum_token(b1, tok) + t.amount) by {
                if spec_has_account(b1, t.to, t.token) {
                    assert(spec_lookup_balance(b1, t.to, t.token) == tb);
                } else {
                    assert(tb == 0);
                }
            }
            assert(spec_sum_token(b3, tok) == spec_sum_token(b2, tok) + t.fee) by {
                if spec_has_account(b2, spec_treasury_addr(), t.token) {
                } else {
                    assert(trb == 0);
                }
            }
        } else {
            assert(spec_sum_token(b1, tok) == spec_sum_token(bal, tok));
            assert(spec_sum_token(b2, tok) == spec_sum_token(b1, tok));
            assert(spec_sum_token(b3, tok) == spec_sum_token(b2, tok));
        }
    }
}

/// Token conservation over a whole block body: a successful transition
/// leaves the total of every token unchanged.
pub proof fn lemma_apply_txs_conserves(
    bal: Seq<AccountBalanceView>,
    non: Seq<AddressNonceView>,
    txs: Seq<ValidTxView>,
    tok: Seq<char>,
)
    requires
        wf_balances(bal),
        wf_nonces(non),
        spec_apply_txs(bal, non, txs) is Ok,
    ensures
        wf_balances((spec_apply_txs(bal, non, txs)->Ok_0).0),
        wf_nonces((spec_apply_txs(bal, non, txs)->Ok_0).1),
        spec_sum_token((spec_apply_txs(bal, non, txs)->Ok_0).0, tok) == spec_sum_token(bal, tok),
    decreases txs.len(),
{
    if txs.len() == 0 {
    } else {
        match spec_apply_tx(bal, non, txs[0]) {
            Err(e) => {},
            Ok((b2, n2)) => {
                lemma_apply_tx_conserves(bal, non, txs[0], tok);
                lemma_apply_txs_conserves(b2, n2, txs.drop_first(), tok);
            },
        }
    }
}

/// Token conservation over a whole applied block: the total of every
/// token is the same after the transition as before it.
pub proof fn lemma_apply_block_conserves(st: ChainStateView, b: BlockView, tok: Seq<char>)
    requires
        wf_balances(st.balances),
        wf_nonces(st.nonces),
        spec_apply_block(st, b) is Ok,
    ensures
        spec_sum_token((spec_apply_block(st, b)->Ok_0).balances, tok) == spec_sum_token(
            st.balances,
            tok,
        ),
{
    lemma_apply_txs_conserves(st.balances, st.nonces, b.body.txs, tok);
}

/// The exact effect of applying a block of one transfer between three
/// pairwise distinct parties: the transition succeeds, the sender loses
/// amount plus fee, the recipient gains the amount, the treasury gains
/// the fee, the sender's recorded nonce rises to at least the
/// transaction's, and the block pointer advances.
pub proof fn lemma_single_transfer_block(st: ChainStateView, b: BlockView, t: ValidTxView)
    requires
        wf_balances(st.balances),
        wf_nonces(st.nonces),
        b.body.txs == seq![t],
        t.tx_type == "transfer"@,
        t.from != t.to,
        t.from != spec_treasury_addr(),
        t.to != spec_treasury_addr(),
        t.amount + t.fee <= u64::MAX,
        spec_lookup_balance(st.balances, t.from, t.token) >= t.amount + t.fee,
        spec_lookup_balance(st.balances, t.to, t.token) + t.amount <= u64::MAX,
        spec_lookup_balance(st.balances, spec_treasury_addr(), t.token) + t.fee <= u64::MAX,
    ensures
        spec_apply_block(st, b) is Ok,
        spec_lookup_balance((spec_apply_block(st, b)->Ok_0).balances, t.from, t.token)
            == spec_lookup_balance(st.balances, t.from, t.token) - (t.amount + t.fee),
        spec_lookup_balance((spec_apply_block(st, b)->Ok_0).balances, t.to, t.token)
            == spec_lookup_balance(st.balances, t.to, t.token) + t.amount,
        spec_lookup_balance(
            (spec_apply_block(st, b)->Ok_0).balances,
            spec_treasury_addr(),
            t.token,
        ) == spec_lookup_balance(st.balances, spec_treasury_addr(), t.token) + t.fee,
        spec_lookup_nonce((spec_apply_block(st, b)->Ok_0).nonces, t.from) == (if t.nonce
            > spec_lookup_nonce(st.nonces, t.from) {
            t.nonce
        } else {
            spec_lookup_nonce(st.nonces, t.from)
        }),
        (spec_apply_block(st, b)->Ok_0).latest_block == Some(
            BlockMetaView { height: b.header.height, hash: b.block_id },
        ),
{
    let total = (t.amount + t.fee) as u64;
    let fb = spec_lookup_balance(st.balances, t.from, t.token);
    let b1 = spec_set_balance(st.balances, t.from, t.token, (fb - total) as u64);
    lemma_set_balance(st.balances, t.from, t.token, (fb - total) as u64);
    let tb = spec_lookup_balance(b1, t.to, t.token);
    assert(tb == spec_lookup_balance(st.balances, t.to, t.token));
    let b2 = spec_set_balance(b1, t.to, t.token, (tb + t.amount) as u64);
    lemma_set_balance(b1, t.to, t.token, (tb + t.amount) as u64);
    let trb = spec_lookup_balance(b2, spec_treasury_addr(), t.token);
    assert(trb == spec_lookup_balance(st.balances, spec_treasury_addr(), t.token));
    let b3 = spec_set_balance(b2, spec_treasury_addr(), t.token, (trb + t.fee) as u64);
    lemma_set_balance(b2, spec_treasury_addr(), t.token, (trb + t.fee) as u64);
    lemma_bump_nonce(st.nonces, t.from, t.nonce);
    assert(spec_apply_tx(st.balances, st.nonces, t) == Ok::<_, Seq<char>>(
        (b3, spec_bump_nonce(st.nonces, t.from, t.nonce)),
    ));
    assert(seq![t][0] == t && seq![t].len() == 1);
    assert(seq![t].drop_first() =~= Seq::<ValidTxView>::empty());
    assert(spec_apply_txs(b3, spec_bump_nonce(st.nonces, t.from, t.nonce), Seq::<
        ValidTxView,
    >::empty()) == Ok::<_, Seq<char>>((b3, spec_bump_nonce(st.nonces, t.from, t.nonce))));
    assert(spec_lookup_balance(b3, t.from, t.token) == fb - total);
    assert(spec_lookup_balance(b3, t.to, t.token) == tb + t.amount);
}

/// The chain state: account balances, per-address nonces, and the last
/// applied block.
pub struct ChainState {
    balances: Vec<AccountBalance>,
    nonces: Vec<AddressNonce>,
    latest_block: Option<BlockMeta>,
}

/// The mathematical value of a [`ChainState`].
pub ghost struct ChainStateView {
    pub balances: Seq<AccountBalanceView>,
    pub nonces: Seq<AddressNonceView>,
    pub latest_block: Option<BlockMetaView>,
}

impl View for ChainState {
    type V = ChainStateView;

    closed spec fn view(&self) -> ChainStateView {
        ChainStateView {
            balances: spec_bal_views(self.balances@),
            nonces: spec_nonce_views(self.nonces@),
            latest_block: match self.latest_block {
                Some(m) => Some(m@),
                None => None,
            },
        }
    }
}

/// The ledger transition of a whole block: its transactions in order,
/// then the new latest-block pointer.
pub open spec fn spec_apply_block(st: ChainStateView, b: BlockView) -> Result<
    ChainStateView,
    Seq<char>,
> {
    match spec_apply_txs(st.balances, st.nonces, b.body.txs) {
        Err(e) => Err(e),
        Ok((bal, non)) => Ok(
            ChainStateView {
                balances: bal,
                nonces: non,
                latest_block: Some(BlockMetaView { height: b.header.height, hash: b.block_id }),
            },
        ),
    }
}

impl ChainState {
    /// The state invariant: balance keys and nonce addresses are unique.
    pub open spec fn wf(self) -> bool {
        wf_balances(self@.balances) && wf_nonces(self@.nonces)
    }

    /// The genesis state: the treasury alone holds its fixed balance, no
    /// nonces, no applied block.
    pub fn new() -> (st: ChainState)
        ensures
            st.wf(),
            st@.balances =~= seq![
                AccountBalanceView {
                    address: spec_treasury_addr(),
                    token: "GLD"@,
                    amount: TREASURY_INITIAL_GLD,
                },
            ],
            st@.nonces =~= Seq::<AddressNonceView>::empty(),
            st@.latest_block is None,
    {
        let mut balances: Vec<AccountBalance> = Vec::new();
        balances.push(
            AccountBalance {
                address: String::from_str(treasury_addr()),
                token: String::from_str("GLD"),
                amount: TREASURY_INITIAL_GLD,
            },
        );
        let st = ChainState { balances, nonces: Vec::new(), latest_block: None };
        proof {
            assert(st@.balances =~= seq![
                AccountBalanceView {
                    address: spec_treasury_addr(),
                    token: "GLD"@,
                    amount: TREASURY_INITIAL_GLD,
                },
            ]);
            assert(st@.nonces =~= Seq::<AddressNonceView>::empty());
        }
        st
    }
}

/// Looks up a balance entry; the first match is the only one under the
/// state invariant.
fn lookup_balance_vec(v: &Vec<AccountBalance>, addr: &str, token: &str) -> (r: u64)
    requires
        wf_balances(spec_bal_views(v@)),
    ensures
        r == spec_lookup_balance(spec_bal_views(v@), addr@, token@),
{
    let ghost s = spec_bal_views(v@);
    let n = v.len();
    for i in 0..n
        invariant
            n == v@.len(),
            s == spec_bal_views(v@),
            wf_balances(s),
            forall|j: int|
                0 <= j < i ==> !(#[trigger] s[j].address == addr@ && s[j].token == token@),
    {
        if str_eq(v[i].address.as_str(), addr) && str_eq(v[i].token.as_str(), token) {
            proof {
                assert(s[i as int].address == addr@ && s[i as int].token == token@);
                assert(spec_has_account(s, addr@, token@));
                let w = spec_account_idx(s, addr@, token@);
                assert(0 <= w < s.len() && s[w].address == addr@ && s[w].token == token@);
                lemma_key_unique(s, w, i as int);
            }
            return v[i].amount;
        }
    }
    proof {
        assert(!spec_has_account(s, addr@, token@));
    }
    0
}

/// Sets a balance entry, updating in place or appending a new key.
fn set_balance_vec(v: &mut Vec<AccountBalance>, addr: &str, token: &str, amount: u64)
    requires
        wf_balances(spec_bal_views(old(v)@)),
    ensures
        spec_bal_views(final(v)@) == spec_set_balance(
            spec_bal_views(old(v)@),
            addr@,
            token@,
            amount,
        ),
{
    let ghost s = spec_bal_views(v@);
    let n = v.len();
    for i in 0..n
        invariant
            n == v@.len(),
            s == spec_bal_views(v@),
            s == spec_bal_views(old(v)@),
            wf_balances(s),
            forall|j: int|
                0 <= j < i ==> !(#[trigger] s[j].address == addr@ && s[j].token == token@),
    {
        if str_eq(v[i].address.as_str(), addr) && str_eq(v[i].token.as_str(), token) {
            v[i].amount = amount;
            proof {
                assert(s[i as int].address == addr@ && s[i as int].token == token@);
                assert(spec_has_account(s, addr@, token@));
                let w = spec_account_idx(s, addr@, token@);
                assert(0 <= w < s.len() && s[w].address == addr@ && s[w].token == token@);
                lemma_key_unique(s, w, i as int);
                assert(spec_bal_views(v@) =~= s.update(
                    i as int,
                    AccountBalanceView { address: addr@, token: token@, amount: amount },
                ));
            }
            return ;
        }
    }
    proof {
        assert(!spec_has_account(s, addr@, token@));
    }
    v.push(
        AccountBalance {
            address: String::from_str(addr),
            token: String::from_str(token),
            amount,
        },
    );
    proof {
        assert(spec_bal_views(v@) =~= s.push(
            AccountBalanceView { address: addr@, token: token@, amount: amount },
        ));
    }
}

/// Raises an address's recorded nonce to at least the given value.
fn bump_nonce_vec(v: &mut Vec<AddressNonce>, addr: &str, nonce: u64)
    requires
        wf_nonces(spec_nonce_views(old(v)@)),
    ensures
        spec_nonce_views(final(v)@) == spec_bump_nonce(spec_nonce_views(old(v)@), addr@, nonce),
{
    let ghost s = spec_nonce_views(v@);
    let n = v.len();
    for i in 0..n
        invariant
            n == v@.len(),
            s == spec_nonce_views(v@),
            s == spec_nonce_views(old(v)@),
            wf_nonces(s),
            forall|j: int| 0 <= j < i ==> #[trigger] s[j].address != addr@,
    {
        if str_eq(v[i].address.as_str(), addr) {
            proof {
                assert(s[i as int].address == addr@);
                assert(spec_has_nonce(s, addr@));
                let w = spec_nonce_idx(s, addr@);
                assert(0 <= w < s.len() && s[w].address == addr@);
                lemma_nonce_unique(s, w, i as int);
            }
            if nonce > v[i].nonce {
                v[i].nonce = nonce;
                proof {
                    assert(spec_nonce_views(v@) =~= s.update(
                        i as int,
                        AddressNonceView { address: addr@, nonce: nonce },
                    ));
                }
            }
            return ;
        }
    }
    proof {
        assert(!spec_has_nonce(s, addr@));
    }
    v.push(AddressNonce { address: String::from_str(addr), nonce });
    proof {
        assert(spec_nonce_views(v@) =~= s.push(AddressNonceView { address: addr@, nonce: nonce }));
    }
}

/// Copies the balance entries.
fn clone_balances(v: &Vec<AccountBalance>) -> (r: Vec<AccountBalance>)
    ensures
        spec_bal_views(r@) == spec_bal_views(v@),
{
    let mut r: Vec<AccountBalance> = Vec::new();
    let n = v.len();
    for i in 0..n
        invariant
            n == v@.len(),
            r@.len() == i as int,
            spec_bal_views(r@) =~= spec_bal_views(v@).subrange(0, i as int),
    {
        r.push(
            AccountBalance {
                address: v[i].address.clone(),
                token: v[i].token.clone(),
                amount: v[i].amount,
            },
        );
        proof {
            assert(spec_bal_views(r@) =~= spec_bal_views(v@).subrange(0, i + 1));
        }
    }
    proof {
        assert(spec_bal_views(r@) =~= spec_bal_views(v@));
    }
    r
}

/// Copies the nonce entries.
fn clone_nonces(v: &Vec<AddressNonce>) -> (r: Vec<AddressNonce>)
    ensures
        spec_nonce_views(r@) == spec_nonce_views(v@),
{
    let mut r: Vec<AddressNonce> = Vec::new();
    let n = v.len();
    for i in 0..n
        invariant
            n == v@.len(),
            r@.len() == i as int,
            spec_nonce_views(r@) =~= spec_nonce_views(v@).subrange(0, i as int),
    {
        r.push(AddressNonce { address: v[i].address.clone(), nonce: v[i].nonce });
        proof {
            assert(spec_nonce_views(r@) =~= spec_nonce_views(v@).subrange(0, i + 1));
        }
    }
    proof {
        assert(spec_nonce_views(r@) =~= spec_nonce_views(v@));
    }
    r
}

/// Applies a block as one all-or-nothing transition: every balance delta
/// is computed against a scratch copy first, and the ledger is replaced
/// only when every transaction passes.  On failure the state is exactly
/// what it was.
pub fn apply_block(state: &mut ChainState, block: &Block) -> (r: Result<(), String>)
    requires
        old(state).wf(),
    ensures
        final(state).wf(),
        (r is Ok) == (spec_apply_block(old(state)@, block@) is Ok),
        r is Ok ==> final(state)@ == (spec_apply_block(old(state)@, block@)->Ok_0),
        r matches Err(e) ==> *final(state) == *old(state) && (spec_apply_block(
            old(state)@,
            block@,
        ) matches Err(me) && e@ == me),
{
    let ghost bal0 = state@.balances;
    let ghost non0 = state@.nonces;
    let ghost txviews = block@.body.txs;
    let mut bal = clone_balances(&state.balances);
    let mut non = clone_nonces(&state.nonces);
    let n = block.body.txs.len();
    proof {
        assert(txviews.subrange(0, 0) =~= Seq::<ValidTxView>::empty());
    }
    for i in 0..n
        invariant
            n == txviews.len(),
            txviews == block@.body.txs,
            bal0 == state@.balances,
            non0 == state@.nonces,
            wf_balances(bal0),
            wf_nonces(non0),
            wf_balances(spec_bal_views(bal@)),
            wf_nonces(spec_nonce_views(non@)),
            spec_apply_txs(bal0, non0, txviews.subrange(0, i as int)) == Ok::<_, Seq<char>>(
                (spec_bal_views(bal@), spec_nonce_views(non@)),
            ),
    {
        let tx = &block.body.txs[i];
        let ghost t = txviews[i as int];
        let ghost balv = spec_bal_views(bal@);
        let ghost nonv = spec_nonce_views(non@);
        proof {
            assert(t == tx@);
            lemma_apply_txs_split(bal0, non0, txviews, i as int);
        }
        if str_eq(tx.tx_type.as_str(), "transfer") {
            let total = if tx.amount <= u64::MAX - tx.fee {
                tx.amount + tx.fee
            } else {
                proof {
                    lemma_err_whole(bal0, non0, txviews, i as int, "overflow on amount+fee"@);
                }
                return Err(String::from_str("overflow on amount+fee"));
            };
            let fb = lookup_balance_vec(&bal, tx.from.as_str(), tx.token.as_str());
            if fb < total {
                proof {
                    lemma_err_whole(bal0, non0, txviews, i as int, "insufficient balance"@);
                }
                return Err(String::from_str("insufficient balance"));
            }
            set_balance_vec(&mut bal, tx.from.as_str(), tx.token.as_str(), fb - total);
            proof {
                lemma_set_balance(balv, t.from, t.token, (fb - total) as u64);
            }
            let tb = lookup_balance_vec(&bal, tx.to.as_str(), tx.token.as_str());
            if tb > u64::MAX - tx.amount {
                proof {
                    lemma_err_whole(bal0, non0, txviews, i as int, "overflow on receiver balance"@);
                }
                return Err(String::from_str("overflow on receiver balance"));
            }
            set_balance_vec(&mut bal, tx.to.as_str(), tx.token.as_str(), tb + tx.amount);
            proof {
                lemma_set_balance(
                    spec_set_balance(balv, t.from, t.token, (fb - total) as u64),
                    t.to,
                    t.token,
                    (tb + t.amount) as u64,
                );
            }
            let trb = lookup_balance_vec(&bal, treasury_addr(), tx.token.as_str());
            if trb > u64::MAX - tx.fee {
                proof {
                    lemma_err_whole(bal0, non0, txviews, i as int, "overflow on treasury balance"@);
                }
                return Err(String::from_str("overflow on treasury balance"));
            }
            set_balance_vec(&mut bal, treasury_addr(), tx.token.as_str(), trb + tx.fee);
            proof {
                lemma_set_balance(
                    spec_set_balance(
                        spec_set_balance(balv, t.from, t.token, (fb - total) as u64),
                        t.to,
                        t.token,
                        (tb + t.amount) as u64,
                    ),
                    spec_treasury_addr(),
                    t.token,
                    (trb + t.fee) as u64,
                );
            }
            bump_nonce_vec(&mut non, tx.from.as_str(), tx.nonce);
            proof {
                lemma_bump_nonce(nonv, t.from, t.nonce);
            }
        }
        proof {
            assert(spec_apply_tx(balv, nonv, t) == Ok::<_, Seq<char>>(
                (spec_bal_views(bal@), spec_nonce_views(non@)),
            ));
            assert(txviews.subrange(0, i + 1).drop_last() =~= txviews.subrange(0, i as int));
            assert(txviews.subrange(0, i + 1).last() == t);
            lemma_apply_txs_split(bal0, non0, txviews.subrange(0, i + 1), i as int);
            assert(txviews.subrange(0, i + 1).subrange(0, i as int) =~= txviews.subrange(
                0,
                i as int,
            ));
            assert(txviews.subrange(0, i + 1).skip(i as int) =~= seq![t]);
            assert(seq![t].drop_first() =~= Seq::<ValidTxView>::empty());
            let curb = spec_bal_views(bal@);
            let curn = spec_nonce_views(non@);
            assert(seq![t][0] == t && seq![t].len() == 1);
            assert(spec_apply_txs(curb, curn, Seq::<ValidTxView>::empty()) == Ok::<_, Seq<char>>(
                (curb, curn),
            ));
            assert(spec_apply_txs(balv, nonv, seq![t]) == Ok::<_, Seq<char>>((curb, curn)));
            assert(spec_apply_txs(bal0, non0, txviews.subrange(0, i + 1)) == Ok::<_, Seq<char>>(
                (curb, curn),
            ));
        }
    }
    proof {
        assert(txviews.subrange(0, n as int) =~= txviews);
    }
    state.balances = bal;
    state.nonces = non;
    state.latest_block = Some(
        BlockMeta { height: block.header.height, hash: block.block_id.clone() },
    );
    Ok(())
}

/// When a prefix applies cleanly and the next transaction fails, the
/// whole run fails with that transaction's text.
proof fn lemma_err_whole(
    bal0: Seq<AccountBalanceView>,
    non0: Seq<AddressNonceView>,
    txs: Seq<ValidTxView>,
    i: int,
    e: Seq<char>,
)
    requires
        0 <= i < txs.len(),
        spec_apply_txs(bal0, non0, txs.subrange(0, i)) matches Ok(p) && spec_apply_tx(
            p.0,
            p.1,
            txs[i],
        ) == Err::<(Seq<AccountBalanceView>, Seq<AddressNonceView>), Seq<char>>(e),
    ensures
        spec_apply_txs(bal0, non0, txs) == Err::<
            (Seq<AccountBalanceView>, Seq<AddressNonceView>),
            Seq<char>,
        >(e),
{
    lemma_apply_txs_split(bal0, non0, txs, i);
    let p = spec_apply_txs(bal0, non0, txs.subrange(0, i))->Ok_0;
    assert(txs.skip(i)[0] == txs[i]);
    assert(txs.skip(i).len() > 0);
}

/// The balance of an (address, token) key; 0 for an unknown key.
pub fn balance(state: &ChainState, addr: &str, token: &str) -> (r: u64)
    requires
        state.wf(),
    ensures
        r == spec_lookup_balance(state@.balances, addr@, token@),
{
    lookup_balance_vec(&state.balances, addr, token)
}

/// The recorded nonce of an address; 0 for an unknown address.
pub fn nonce(state: &ChainState, addr: &str) -> (r: u64)
    requires
        state.wf(),
    ensures
        r == spec_lookup_nonce(state@.nonces, addr@),
{
    let ghost s = spec_nonce_views(state.nonces@);
    let n = state.nonces.len();
    for i in 0..n
        invariant
            n == state.nonces@.len(),
            s == spec_nonce_views(state.nonces@),
            wf_nonces(s),
            forall|j: int| 0 <= j < i ==> #[trigger] s[j].address != addr@,
    {
        if str_eq(state.nonces[i].address.as_str(), addr) {
            proof {
                assert(s[i as int].address == addr@);
                assert(spec_has_nonce(s, addr@));
                let w = spec_nonce_idx(s, addr@);
                assert(0 <= w < s.len() && s[w].address == addr@);
                lemma_nonce_unique(s, w, i as int);
            }
            return state.nonces[i].nonce;
        }
    }
    proof {
        assert(!spec_has_nonce(s, addr@));
    }
    0
}

/// The height and identifier of the last applied block, when one exists.
pub fn block_info(state: &ChainState) -> (r: Option<(u64, String)>)
    ensures
        match (r, state@.latest_block) {
            (Some(p), Some(m)) => p.0 == m.height && p.1@ == m.hash,
            (None, None) => true,
            _ => false,
        },
{
    match &state.latest_block {
        Some(m) => Some((m.height, m.hash.clone())),
        None => None,
    }
}

} // verus!
