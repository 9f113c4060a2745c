//! The ledger's data: outputs, transactions, blocks, and how a record is
//! read as these.

use vstd::prelude::*;
use crate::json::{field, Json};

verus! {

/// A ledger entry: an amount under an identifier. A transaction names the
/// entries that it consumes and those that it produces.
#[derive(Debug, Clone, Copy, PartialEq, Eq)]
pub struct Input {
    pub id: u64,
    pub amount: u64,
}

/// A transfer: the entries that it consumes and the entries that it produces.
#[derive(Debug, Clone, PartialEq, Eq)]
pub struct Transaction {
    pub inputs: Vec<Input>,
    pub outputs: Vec<Input>,
}

/// An accepted block. Its hash is the digest of its content.
#[derive(Debug, Clone, PartialEq, Eq)]
pub struct Block {
    pub hash: String,
    pub predecessor: String,
    pub nonce: u32,
    pub difficulty: u32,
    pub transactions: Vec<Transaction>,
}

/// What a transaction is, as mathematics.
pub struct TransactionModel {
    pub inputs: Seq<Input>,
    pub outputs: Seq<Input>,
}

/// What a block is, as mathematics.
pub struct BlockModel {
    pub hash: Seq<char>,
    pub predecessor: Seq<char>,
    pub nonce: nat,
    pub difficulty: nat,
    pub transactions: Seq<TransactionModel>,
}

impl View for Transaction {
    type V = TransactionModel;

    open spec fn view(&self) -> TransactionModel {
        TransactionModel { inputs: self.inputs@, outputs: self.outputs@ }
    }
}

/// The models of a sequence of transactions.
pub open spec fn transaction_models(transactions: Seq<Transaction>) -> Seq<TransactionModel> {
    Seq::new(transactions.len(), |i: int| transactions[i]@)
}

impl View for Block {
    type V = BlockModel;

    open spec fn view(&self) -> BlockModel {
        BlockModel {
            hash: self.hash@,
            predecessor: self.predecessor@,
            nonce: self.nonce as nat,
            difficulty: self.difficulty as nat,
            transactions: transaction_models(self.transactions@),
        }
    }
}

/// The sum of the amounts of some entries.
pub open spec fn total(entries: Seq<Input>) -> nat
    decreases entries.len(),
{
    if entries.len() == 0 {
        0
    } else {
        total(entries.drop_last()) + entries.last().amount as nat
    }
}

/// Whether a transaction produces as much as it consumes.
pub open spec fn balanced(transaction: TransactionModel) -> bool {
    total(transaction.inputs) == total(transaction.outputs)
}

/// Whether each of some transactions produces as much as it consumes.
pub open spec fn all_balanced(transactions: Seq<TransactionModel>) -> bool {
    forall|i: int| 0 <= i < transactions.len() ==> balanced(#[trigger] transactions[i])
}

/// Makes an entry of an identifier and an amount.
pub fn init_input(id: u64, amount: u64) -> (input: Input)
    ensures
        input == (Input { id, amount }),
{
    Input { id, amount }
}

/// The entry that a JSON value stands for: an object with an unsigned `id`
/// and an unsigned `amount`.
pub open spec fn entry_of(v: Json) -> Option<Input> {
    match (field(v, "id"@), field(v, "amount"@)) {
        (Some(Json::Unsigned(id)), Some(Json::Unsigned(amount))) => Some(Input { id, amount }),
        _ => None,
    }
}

/// The entries that a JSON value stands for: an array in which each item
/// stands for an entry.
pub open spec fn entries_of(v: Json) -> Option<Seq<Input>> {
    match v {
        Json::Array(items) => if forall|i: int|
            0 <= i < items@.len() ==> (#[trigger] entry_of(items@[i])) is Some {
            Some(Seq::new(items@.len(), |i: int| entry_of(items@[i])->0))
        } else {
            None
        },
        _ => None,
    }
}

/// The transaction that a JSON value stands for: an object whose `inputs`
/// and `outputs` both stand for entries.
pub open spec fn transaction_of(v: Json) -> Option<TransactionModel> {
    match (field(v, "inputs"@), field(v, "outputs"@)) {
        (Some(inputs), Some(outputs)) => match (entries_of(inputs), entries_of(outputs)) {
            (Some(inputs), Some(outputs)) => Some(TransactionModel { inputs, outputs }),
            _ => None,
        },
        _ => None,
    }
}

/// The transactions that a JSON value stands for: an array in which each
/// item stands for a transaction.
pub open spec fn transactions_of(v: Json) -> Option<Seq<TransactionModel>> {
    match v {
        Json::Array(items) => if forall|i: int|
            0 <= i < items@.len() ==> (#[trigger] transaction_of(items@[i])) is Some {
            Some(Seq::new(items@.len(), |i: int| transaction_of(items@[i])->0))
        } else {
            None
        },
        _ => None,
    }
}

/// Reads a JSON value as an entry.
pub fn decode_entry(json: &Json) -> (out: Option<Input>)
    ensures
        out == entry_of(*json),
{
    match (json.get("id"), json.get("amount")) {
        (Some(Json::Unsigned(id)), Some(Json::Unsigned(amount))) => Some(init_input(*id, *amount)),
        _ => None,
    }
}

/// Reads a JSON value as a list of entries.
pub fn decode_entries(json: &Json) -> (out: Option<Vec<Input>>)
    ensures
        match out {
            Some(entries) => entries_of(*json) == Some(entries@),
            None => entries_of(*json) is None,
        },
{
    match json {
        Json::Array(items) => {
            let mut entries: Vec<Input> = Vec::new();
            let mut i: usize = 0;
            while i < items.len()
                invariant
                    i <= items.len(),
                    *json == Json::Array(*items),
                    entries@.len() == i,
                    forall|j: int| 0 <= j < i ==> #[trigger] entry_of(items@[j]) == Some(entries@[j]),
                decreases items.len() - i,
            {
                match decode_entry(&items[i]) {
                    Some(entry) => {
                        entries.push(entry);
                    },
                    None => {
                        return None;
                    },
                }
                i += 1;
            }
            Some(entries)
        },
        _ => None,
    }
}

/// Reads a JSON value as a transaction.
pub fn decode_transaction(json: &Json) -> (out: Option<Transaction>)
    ensures
        match out {
            Some(transaction) => transaction_of(*json) == Some(transaction@),
            None => transaction_of(*json) is None,
        },
{
    match (json.get("inputs"), json.get("outputs")) {
        (Some(inputs), Some(outputs)) => match (decode_entries(inputs), decode_entries(outputs)) {
            (Some(inputs), Some(outputs)) => Some(Transaction { inputs, outputs }),
            _ => None,
        },
        _ => None,
    }
}

/// Reads a JSON value as a list of transactions.
pub fn decode_transactions(json: &Json) -> (out: Option<Vec<Transaction>>)
    ensures
        match out {
            Some(transactions) => transactions_of(*json) == Some(
                transaction_models(transactions@),
            ),
            None => transactions_of(*json) is None,
        },
{
    match json {
        Json::Array(items) => {
            let mut transactions: Vec<Transaction> = Vec::new();
            let mut i: usize = 0;
            while i < items.len()
                invariant
                    i <= items.len(),
                    *json == Json::Array(*items),
                    transactions@.len() == i,
                    forall|j: int|
                        0 <= j < i ==> #[trigger] transaction_of(items@[j]) == Some(
                            transactions@[j]@,
                        ),
                decreases items.len() - i,
            {
                match decode_transaction(&items[i]) {
                    Some(transaction) => {
                        transactions.push(transaction);
                    },
                    None => {
                        return None;
                    },
                }
                i += 1;
            }
            assert(transaction_models(transactions@) =~= Seq::new(
                items@.len(),
                |i: int| transaction_of(items@[i])->0,
            ));
            Some(transactions)
        },
        _ => None,
    }
}

} // verus!
