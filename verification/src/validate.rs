//! The stages that a record passes before the chain takes it: schema, hash,
//! difficulty, balance.

use vstd::prelude::*;
use crate::codec::{hash_verified, verify_hash};
use crate::json::{field, Json};
use crate::model::{
    all_balanced, balanced, decode_entries, entries_of, total, transaction_of, transactions_of,
    Input,
};
use crate::rejection::Rejection;

verus! {

/// Whether a value is an unsigned integer of at most 32 bits.
pub open spec fn is_small_unsigned(v: Option<Json>) -> bool {
    v matches Some(Json::Unsigned(n)) && n <= u32::MAX
}

/// Whether a record has the fields of a block, each of its kind: a difficulty
/// and a nonce that are unsigned integers of at most 32 bits, a predecessor
/// and a hash that are strings, and transactions that are an array.
pub open spec fn block_schema_ok(record: Json) -> bool {
    &&& is_small_unsigned(field(record, "difficulty"@))
    &&& is_small_unsigned(field(record, "nonce"@))
    &&& field(record, "predecessor"@) matches Some(Json::Text(_))
    &&& field(record, "transactions"@) matches Some(Json::Array(_))
    &&& field(record, "hash"@) matches Some(Json::Text(_))
}

/// Whether a record has the fields of the first record, each of its kind: a
/// difficulty and a nonce of zero, an empty predecessor, a hash that is a
/// string, and transactions that are an array.
pub open spec fn init_schema_ok(record: Json) -> bool {
    &&& field(record, "difficulty"@) == Some(Json::Unsigned(0))
    &&& field(record, "nonce"@) == Some(Json::Unsigned(0))
    &&& field(record, "predecessor"@) matches Some(Json::Text(p)) && p@.len() == 0
    &&& field(record, "transactions"@) matches Some(Json::Array(_))
    &&& field(record, "hash"@) matches Some(Json::Text(_))
}

/// What the first two stages say of a block: the schema is checked first,
/// then the hash.
pub open spec fn block_check(record: Json) -> Result<(), Rejection> {
    if !block_schema_ok(record) {
        Err(Rejection::SchemaError)
    } else if !hash_verified(record) {
        Err(Rejection::HashMismatchError)
    } else {
        Ok(())
    }
}

/// What the first two stages say of the first record.
pub open spec fn init_check(record: Json) -> Result<(), Rejection> {
    if !init_schema_ok(record) {
        Err(Rejection::SchemaError)
    } else if !hash_verified(record) {
        Err(Rejection::HashMismatchError)
    } else {
        Ok(())
    }
}

fn small_unsigned(v: Option<&Json>) -> (ok: bool)
    ensures
        ok == match v {
            Some(value) => is_small_unsigned(Some(*value)),
            None => false,
        },
{
    match v {
        Some(Json::Unsigned(n)) => *n <= 0xffff_ffff,
        _ => false,
    }
}

fn zero(v: Option<&Json>) -> (ok: bool)
    ensures
        ok == match v {
            Some(value) => *value == Json::Unsigned(0),
            None => false,
        },
{
    match v {
        Some(Json::Unsigned(n)) => *n == 0,
        _ => false,
    }
}

fn text(v: Option<&Json>) -> (ok: bool)
    ensures
        ok == match v {
            Some(value) => *value is Text,
            None => false,
        },
{
    match v {
        Some(Json::Text(_)) => true,
        _ => false,
    }
}

fn array(v: Option<&Json>) -> (ok: bool)
    ensures
        ok == match v {
            Some(value) => *value is Array,
            None => false,
        },
{
    match v {
        Some(Json::Array(_)) => true,
        _ => false,
    }
}

fn empty_text(v: Option<&Json>) -> (ok: bool)
    ensures
        ok == match v {
            Some(value) => *value matches Json::Text(p) && p@.len() == 0,
            None => false,
        },
{
    match v {
        Some(Json::Text(p)) => p.as_str().is_empty(),
        _ => false,
    }
}

/// Checks the schema and the hash of a block.
pub fn validate_block(json: &Json) -> (out: Result<(), Rejection>)
    ensures
        out == block_check(*json),
{
    let schema = small_unsigned(json.get("difficulty")) && small_unsigned(json.get("nonce"))
        && text(json.get("predecessor")) && array(json.get("transactions")) && text(
        json.get("hash"),
    );
    if !schema {
        Err(Rejection::SchemaError)
    } else if !verify_hash(json) {
        Err(Rejection::HashMismatchError)
    } else {
        Ok(())
    }
}

/// Checks the schema and the hash of the first record.
pub fn validate_init(json: &Json) -> (out: Result<(), Rejection>)
    ensures
        out == init_check(*json),
{
    let schema = zero(json.get("difficulty")) && zero(json.get("nonce")) && empty_text(
        json.get("predecessor"),
    ) && array(json.get("transactions")) && text(json.get("hash"));
    if !schema {
        Err(Rejection::SchemaError)
    } else if !verify_hash(json) {
        Err(Rejection::HashMismatchError)
    } else {
        Ok(())
    }
}

/// The number of characters `0` in a row in `s`, from position `at` on.
pub open spec fn zeros_from(s: Seq<char>, at: int) -> nat
    decreases s.len() - at,
{
    if 0 <= at < s.len() && s[at] == '0' {
        1 + zeros_from(s, at + 1)
    } else {
        0
    }
}

/// The number of leading zeros of a hash, behind its prefix of two
/// characters.
pub open spec fn leading_zeros(hash: Seq<char>) -> nat {
    zeros_from(hash, 2)
}

/// What the difficulty stage says of a block: its difficulty is not below
/// that of its predecessor, and its hash has at least as many leading zeros
/// as the difficulty of its predecessor.
pub open spec fn difficulty_check(pred_diff: nat, new_diff: nat, hash: Seq<char>) -> Result<
    (),
    Rejection,
> {
    if new_diff < pred_diff {
        Err(Rejection::DifficultyRegressionError)
    } else if leading_zeros(hash) < pred_diff {
        Err(Rejection::ProofOfWorkError)
    } else {
        Ok(())
    }
}

/// The smaller of two numbers.
pub open spec fn least(a: nat, b: nat) -> nat {
    if a <= b {
        a
    } else {
        b
    }
}

/// Counts the leading zeros of a hash, as far as `limit`.
pub fn count_leading_zeros(hash: &str, limit: u32) -> (n: u32)
    ensures
        n == least(leading_zeros(hash@), limit as nat),
{
    let mut n: u32 = 0;
    let mut skipped: u8 = 0;
    let mut counting = true;
    for c in it: hash.chars()
        invariant
            n <= limit,
            it.seq() == hash@,
            skipped <= 2,
            skipped < 2 ==> skipped == it.index(),
            skipped == 2 ==> it.index() >= 2,
            counting ==> n + zeros_from(
                hash@,
                if it.index() < 2 {
                    2
                } else {
                    it.index() as int
                },
            ) == zeros_from(hash@, 2),
            !counting ==> n == least(zeros_from(hash@, 2), limit as nat),
    {
        if skipped < 2 {
            skipped += 1;
        } else if counting {
            if c == '0' && n < limit {
                n += 1;
            } else {
                counting = false;
            }
        }
    }
    n
}

/// Checks a block's difficulty and the zeros of its hash against the
/// difficulty of its predecessor.
pub fn validate_difficulty(pred_diff: &u32, new_diff: &u32, blockhash: &String) -> (out: Result<
    (),
    Rejection,
>)
    ensures
        out == difficulty_check(*pred_diff as nat, *new_diff as nat, blockhash@),
{
    if *new_diff < *pred_diff {
        return Err(Rejection::DifficultyRegressionError);
    }
    let zeros: u32 = count_leading_zeros(blockhash.as_str(), *pred_diff);
    if zeros < *pred_diff {
        Err(Rejection::ProofOfWorkError)
    } else {
        Ok(())
    }
}

/// What the balance stage asks of the transactions of a block: each of them
/// is well formed, and each of them is balanced.
pub open spec fn balance_ok(transactions: Json) -> bool {
    transactions_of(transactions) matches Some(ts) && all_balanced(ts)
}

/// Adds up the amounts of some entries.
pub fn total_of(entries: &Vec<Input>) -> (sum: u128)
    ensures
        sum == total(entries@),
{
    let mut sum: u128 = 0;
    let mut i: usize = 0;
    while i < entries.len()
        invariant
            i <= entries.len(),
            sum == total(entries@.take(i as int)),
            sum <= i * 0xffff_ffff_ffff_ffff,
        decreases entries.len() - i,
    {
        proof {
            assert(entries@.take(i + 1).drop_last() =~= entries@.take(i as int));
        }
        sum = sum + entries[i].amount as u128;
        i += 1;
    }
    assert(entries@.take(i as int) =~= entries@);
    sum
}

/// Adds up the amounts of the entries that a JSON value stands for. There is
/// no sum where the value does not stand for entries.
pub fn sum_inputs(json: &Json) -> (out: Option<u128>)
    ensures
        match out {
            Some(sum) => entries_of(*json) matches Some(entries) && sum == total(entries),
            None => entries_of(*json) is None,
        },
{
    match decode_entries(json) {
        Some(entries) => Some(total_of(&entries)),
        None => None,
    }
}

/// Checks the balance of the transactions of a block.
pub fn validate_transactions(transactions: &Json) -> (ok: bool)
    ensures
        ok == balance_ok(*transactions),
{
    match transactions {
        Json::Array(items) => {
            let mut i: usize = 0;
            while i < items.len()
                invariant
                    i <= items.len(),
                    *transactions == Json::Array(*items),
                    forall|j: int|
                        0 <= j < i ==> ((#[trigger] transaction_of(items@[j])) matches Some(t)
                            && balanced(t)),
                decreases items.len() - i,
            {
                let inputs = match items[i].get("inputs") {
                    Some(inputs) => sum_inputs(inputs),
                    None => None,
                };
                let outputs = match items[i].get("outputs") {
                    Some(outputs) => sum_inputs(outputs),
                    None => None,
                };
                match (inputs, outputs) {
                    (Some(consumed), Some(produced)) => {
                        if consumed != produced {
                            proof {
                                // This transaction is out of balance.
                                let ts = transactions_of(*transactions);
                                if ts is Some {
                                    assert(ts->0[i as int] == transaction_of(items@[i as int])->0);
                                }
                            }
                            return false;
                        }
                    },
                    _ => {
                        return false;
                    },
                }
                i += 1;
            }
            proof {
                let ts = transactions_of(*transactions)->0;
                assert forall|k: int| 0 <= k < ts.len() implies balanced(#[trigger] ts[k]) by {}
            }
            true
        },
        _ => false,
    }
}

} // verus!
