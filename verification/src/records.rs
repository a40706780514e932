//! Plain records: a reference to a transaction output, and an unspent output.
//!
//! The two records hold the transaction id in different forms, text in
//! `Outpoint` and raw bytes in `UTXO`; neither form is checked.

use vstd::prelude::*;
use vstd::std_specs::cmp::PartialEqSpecImpl;
use vstd::string::StringExecFns;

verus! {

/// A reference to one output of one transaction: the transaction id as
/// text, and the output's index.
#[derive(Debug)]
pub struct Outpoint(pub String, pub u32);

impl View for Outpoint {
    type V = (Seq<char>, u32);

    open spec fn view(&self) -> (Seq<char>, u32) {
        (self.0@, self.1)
    }
}

impl Clone for Outpoint {
    fn clone(&self) -> (copy: Self)
        ensures
            copy@ == self@,
    {
        Outpoint(self.0.clone(), self.1)
    }
}

impl PartialEq for Outpoint {
    fn eq(&self, other: &Self) -> (same: bool) {
        self.0 == other.0 && self.1 == other.1
    }
}

impl PartialEqSpecImpl for Outpoint {
    open spec fn obeys_eq_spec() -> bool {
        true
    }

    open spec fn eq_spec(&self, other: &Self) -> bool {
        self@ == other@
    }
}

/// An unspent transaction output: the transaction id as raw bytes, the
/// output's index, and its value in satoshis.
#[derive(Debug)]
pub struct UTXO {
    pub txid: Vec<u8>,
    pub vout: u32,
    pub value: u64,
}

/// What a `UTXO` holds, with the id as a sequence.
pub struct UtxoView {
    pub txid: Seq<u8>,
    pub vout: u32,
    pub value: u64,
}

impl View for UTXO {
    type V = UtxoView;

    open spec fn view(&self) -> UtxoView {
        UtxoView { txid: self.txid@, vout: self.vout, value: self.value }
    }
}

/// Whether two byte vectors hold the same bytes.
fn same_bytes(a: &Vec<u8>, b: &Vec<u8>) -> (same: bool)
    ensures
        same == (a@ == b@),
{
    if a.len() != b.len() {
        return false;
    }
    let mut i: usize = 0;
    while i < a.len()
        invariant
            i <= a@.len(),
            a@.len() == b@.len(),
            forall|k: int| 0 <= k < i ==> a@[k] == b@[k],
        decreases a@.len() - i,
    {
        if a[i] != b[i] {
            return false;
        }
        i += 1;
    }
    assert(a@ =~= b@);
    true
}

impl Clone for UTXO {
    fn clone(&self) -> (copy: Self)
        ensures
            copy@ == self@,
    {
        UTXO { txid: self.txid.clone(), vout: self.vout, value: self.value }
    }
}

impl PartialEq for UTXO {
    fn eq(&self, other: &Self) -> (same: bool) {
        same_bytes(&self.txid, &other.txid) && self.vout == other.vout && self.value == other.value
    }
}

impl PartialEqSpecImpl for UTXO {
    open spec fn obeys_eq_spec() -> bool {
        true
    }

    open spec fn eq_spec(&self, other: &Self) -> bool {
        self@ == other@
    }
}

/// Hands an unspent output back as it came: nothing is spent or marked.
pub fn consume_utxo(utxo: UTXO) -> (same: UTXO)
    ensures
        same == utxo,
{
    utxo
}

/// A transaction id in its display form, behind the label `txid: `.
pub fn move_txid(txid: String) -> (shown: String)
    ensures
        shown@ == "txid: "@ + txid@,
{
    let mut shown = String::from_str("txid: ");
    shown.append(txid.as_str());
    shown
}

} // verus!
