//! Transaction data: the wire-decoded, unvalidated transaction and the
//! validated core that the mempool, blocks and ledger consume.

use vstd::prelude::*;

verus! {

/// A wire-decoded, unvalidated transfer transaction.
///
/// `pubkey` and `signature` hold lowercase hex; `tx_hash` holds the
/// lowercase hex of the declared transaction hash, or is empty straight
/// out of the raw-transaction parser.
#[derive(Debug, Clone, PartialEq, Eq)]
pub struct Tx {
    pub tx_hash: String,
    pub domain_tag: String,
    pub chain_id: String,
    pub tx_type: String,
    pub from: String,
    pub to: String,
    pub token: String,
    pub amount: u64,
    pub fee: u64,
    pub nonce: u64,
    pub timestamp: u64,
    pub pubkey: String,
    pub signature: String,
    pub encoding: String,
}

/// The mathematical value of a [`Tx`]: its strings as character sequences.
pub ghost struct TxView {
    pub tx_hash: Seq<char>,
    pub domain_tag: Seq<char>,
    pub chain_id: Seq<char>,
    pub tx_type: Seq<char>,
    pub from: Seq<char>,
    pub to: Seq<char>,
    pub token: Seq<char>,
    pub amount: u64,
    pub fee: u64,
    pub nonce: u64,
    pub timestamp: u64,
    pub pubkey: Seq<char>,
    pub signature: Seq<char>,
    pub encoding: Seq<char>,
}

impl View for Tx {
    type V = TxView;

    open spec fn view(&self) -> TxView {
        TxView {
            tx_hash: self.tx_hash@,
            domain_tag: self.domain_tag@,
            chain_id: self.chain_id@,
            tx_type: self.tx_type@,
            from: self.from@,
            to: self.to@,
            token: self.token@,
            amount: self.amount,
            fee: self.fee,
            nonce: self.nonce,
            timestamp: self.timestamp,
            pubkey: self.pubkey@,
            signature: self.signature@,
            encoding: self.encoding@,
        }
    }
}

/// A transaction that has passed every validation stage, carrying only the
/// fields needed downstream.
#[derive(Debug, Clone, PartialEq, Eq)]
pub struct ValidTxCore {
    pub tx_hash: String,
    pub tx_type: String,
    pub from: String,
    pub to: String,
    pub token: String,
    pub amount: u64,
    pub fee: u64,
    pub nonce: u64,
    pub timestamp: u64,
    pub pubkey: String,
    pub signature: String,
}

/// The mathematical value of a [`ValidTxCore`].
pub ghost struct ValidTxView {
    pub tx_hash: Seq<char>,
    pub tx_type: Seq<char>,
    pub from: Seq<char>,
    pub to: Seq<char>,
    pub token: Seq<char>,
    pub amount: u64,
    pub fee: u64,
    pub nonce: u64,
    pub timestamp: u64,
    pub pubkey: Seq<char>,
    pub signature: Seq<char>,
}

impl View for ValidTxCore {
    type V = ValidTxView;

    open spec fn view(&self) -> ValidTxView {
        ValidTxView {
            tx_hash: self.tx_hash@,
            tx_type: self.tx_type@,
            from: self.from@,
            to: self.to@,
            token: self.token@,
            amount: self.amount,
            fee: self.fee,
            nonce: self.nonce,
            timestamp: self.timestamp,
            pubkey: self.pubkey@,
            signature: self.signature@,
        }
    }
}

impl ValidTxCore {
    /// An exact copy; unlike a derived `Clone`, its contract pins the value.
    pub fn duplicate(&self) -> (r: ValidTxCore)
        ensures
            r == *self,
    {
        ValidTxCore {
            tx_hash: self.tx_hash.clone(),
            tx_type: self.tx_type.clone(),
            from: self.from.clone(),
            to: self.to.clone(),
            token: self.token.clone(),
            amount: self.amount,
            fee: self.fee,
            nonce: self.nonce,
            timestamp: self.timestamp,
            pubkey: self.pubkey.clone(),
            signature: self.signature.clone(),
        }
    }
}

/// The fields of a validated transaction that survive from the raw form.
pub open spec fn spec_core_of(v: TxView) -> ValidTxView {
    ValidTxView {
        tx_hash: v.tx_hash,
        tx_type: v.tx_type,
        from: v.from,
        to: v.to,
        token: v.token,
        amount: v.amount,
        fee: v.fee,
        nonce: v.nonce,
        timestamp: v.timestamp,
        pubkey: v.pubkey,
        signature: v.signature,
    }
}

/// Projects a raw transaction to its validated core.  The validator calls
/// this only after every stage has passed.
pub fn return_structured_tx(tx: &Tx) -> (r: ValidTxCore)
    ensures
        r@ == spec_core_of(tx@),
{
    ValidTxCore {
        tx_hash: tx.tx_hash.clone(),
        tx_type: tx.tx_type.clone(),
        from: tx.from.clone(),
        to: tx.to.clone(),
        token: tx.token.clone(),
        amount: tx.amount,
        fee: tx.fee,
        nonce: tx.nonce,
        timestamp: tx.timestamp,
        pubkey: tx.pubkey.clone(),
        signature: tx.signature.clone(),
    }
}

} // verus!
