//! The engine: it takes the first record once, then blocks, and answers
//! queries about the chain.

use vstd::prelude::*;
use crate::chain::{
    accept_block, head_models, heads_query, initial, knows, position, state_query, wf,
    work_after, work_of, Blockchain, ChainModel, Head, State,
};
use crate::codec::{content_digest, record_digest};
use crate::json::{field, Json};
use crate::model::{decode_transactions, transactions_of, Block, BlockModel};
use crate::rejection::Rejection;
use crate::text::same_text;
use crate::validate::{
    balance_ok, block_check, block_schema_ok, difficulty_check, init_check, is_small_unsigned,
    validate_block, validate_difficulty, validate_init, validate_transactions,
};

verus! {

/// The string that a record holds under `key`, where it holds one.
pub open spec fn text_field(record: Json, key: Seq<char>) -> Seq<char> {
    match field(record, key) {
        Some(Json::Text(s)) => s@,
        _ => Seq::empty(),
    }
}

/// The unsigned integer that a record holds under `key`, where it holds one.
pub open spec fn unsigned_field(record: Json, key: Seq<char>) -> nat {
    match field(record, key) {
        Some(Json::Unsigned(n)) => n as nat,
        _ => 0,
    }
}

/// The block that a record stands for, under the hash `hash`.
pub open spec fn block_under(record: Json, hash: Seq<char>) -> BlockModel {
    BlockModel {
        hash,
        predecessor: text_field(record, "predecessor"@),
        nonce: unsigned_field(record, "nonce"@),
        difficulty: unsigned_field(record, "difficulty"@),
        transactions: match field(record, "transactions"@) {
            Some(transactions) => match transactions_of(transactions) {
                Some(ts) => ts,
                None => Seq::empty(),
            },
            None => Seq::empty(),
        },
    }
}

/// The block that a record stands for. Its hash is the digest of the
/// record's content.
pub open spec fn block_of(record: Json) -> BlockModel {
    block_under(
        record,
        match content_digest(record) {
            Some(digest) => digest,
            None => Seq::empty(),
        },
    )
}

/// What the stages behind the hash say of a block whose digest is `hash`;
/// the first stage that fails decides. The block must be new, and its
/// predecessor known; then its difficulty and the zeros of its hash are held
/// against the difficulty of its predecessor; then its transactions must
/// balance. A record that has not the fields of a block is turned down
/// before all that.
pub open spec fn placement(c: ChainModel, record: Json, hash: Seq<char>) -> Result<(), Rejection> {
    let block = block_under(record, hash);
    if !block_schema_ok(record) {
        Err(Rejection::SchemaError)
    } else if knows(c.history, hash) {
        Err(Rejection::DuplicateBlockError)
    } else if !knows(c.history, block.predecessor) {
        Err(Rejection::OrphanBlockError)
    } else if difficulty_check(
        c.blocks[position(c.history, block.predecessor)].difficulty,
        block.difficulty,
        hash,
    ) is Err {
        difficulty_check(
            c.blocks[position(c.history, block.predecessor)].difficulty,
            block.difficulty,
            hash,
        )
    } else if !balance_ok(field(record, "transactions"@)->0) {
        Err(Rejection::BalanceError)
    } else {
        Ok(())
    }
}

/// What the engine says of a block, stage by stage; the first stage that
/// fails decides. Schema, then hash, then what `placement` says of the block
/// under the digest of its content.
pub open spec fn verdict(c: ChainModel, record: Json) -> Result<(), Rejection> {
    if block_check(record) is Err {
        block_check(record)
    } else {
        placement(c, record, block_of(record).hash)
    }
}

/// The chain after a block has been handled: with the block where every
/// stage passes, and as it was where one fails.
pub open spec fn step(c: ChainModel, record: Json) -> ChainModel {
    if verdict(c, record) is Ok {
        accept_block(c, block_of(record))
    } else {
        c
    }
}

/// Whether the work of the chain stays within 128 bits if this record is
/// accepted. It does so for every record that names no known predecessor or
/// no difficulty.
pub open spec fn fits(c: ChainModel, record: Json) -> bool {
    (field(record, "predecessor"@) matches Some(Json::Text(_)) && is_small_unsigned(
        field(record, "difficulty"@),
    ) && knows(c.history, text_field(record, "predecessor"@))) ==> work_after(
        c.history,
        text_field(record, "predecessor"@),
        unsigned_field(record, "difficulty"@),
    ) <= u128::MAX
}

/// Whether the work of the chain stays within 128 bits if this record is
/// accepted.
pub fn has_room(json: &Json, blockchain: &Blockchain) -> (ok: bool)
    requires
        wf(blockchain@),
    ensures
        ok == fits(blockchain@, *json),
{
    match (json.get("predecessor"), json.get("difficulty")) {
        (Some(Json::Text(predecessor)), Some(Json::Unsigned(difficulty))) => {
            if *difficulty > 0xffff_ffff {
                return true;
            }
            match blockchain.find(predecessor.as_str()) {
                Some(at) => {
                    let (_, before) = blockchain.record_at(at);
                    match work_of(*difficulty as u32) {
                        Some(work) => before.checked_add(work).is_some(),
                        None => false,
                    }
                },
                None => true,
            }
        },
        _ => true,
    }
}

/// Takes a block whose digest is `hash` through the stages behind the hash,
/// and accepts it under that hash where all of them pass. A block that is
/// turned down leaves the chain as it was.
pub fn place_block(json: &Json, hash: String, blockchain: &mut Blockchain) -> (out: Result<
    (),
    Rejection,
>)
    requires
        wf(old(blockchain)@),
        fits(old(blockchain)@, *json),
    ensures
        out == placement(old(blockchain)@, *json, hash@),
        final(blockchain)@ == if out is Ok {
            accept_block(old(blockchain)@, block_under(*json, hash@))
        } else {
            old(blockchain)@
        },
        wf(final(blockchain)@),
{
    match (
        json.get("predecessor"),
        json.get("difficulty"),
        json.get("nonce"),
        json.get("transactions"),
        json.get("hash"),
    ) {
        (
            Some(Json::Text(predecessor)),
            Some(Json::Unsigned(difficulty)),
            Some(Json::Unsigned(nonce)),
            Some(Json::Array(_)),
            Some(Json::Text(_)),
        ) => {
            if *difficulty > 0xffff_ffff || *nonce > 0xffff_ffff {
                return Err(Rejection::SchemaError);
            }
            if blockchain.find(hash.as_str()).is_some() {
                return Err(Rejection::DuplicateBlockError);
            }
            let at: usize = match blockchain.find(predecessor.as_str()) {
                Some(at) => at,
                None => {
                    return Err(Rejection::OrphanBlockError);
                },
            };
            let (pred_diff, _) = blockchain.record_at(at);
            let diff: u32 = *difficulty as u32;
            match validate_difficulty(&pred_diff, &diff, &hash) {
                Err(reason) => {
                    return Err(reason);
                },
                Ok(()) => {},
            }
            let transactions = match json.get("transactions") {
                Some(transactions) => transactions,
                None => {
                    return Err(Rejection::SchemaError);
                },
            };
            if !validate_transactions(transactions) {
                return Err(Rejection::BalanceError);
            }
            let decoded = match decode_transactions(transactions) {
                Some(decoded) => decoded,
                None => {
                    return Err(Rejection::BalanceError);
                },
            };
            let block = Block {
                hash,
                predecessor: predecessor.clone(),
                nonce: *nonce as u32,
                difficulty: diff,
                transactions: decoded,
            };
            blockchain.add_block(block);
            Ok(())
        },
        _ => Err(Rejection::SchemaError),
    }
}

/// Takes a block through every stage, and accepts it where all of them pass.
/// A block that is turned down leaves the chain as it was.
pub fn handle_block(json: &Json, blockchain: &mut Blockchain) -> (out: Result<(), Rejection>)
    requires
        wf(old(blockchain)@),
        fits(old(blockchain)@, *json),
    ensures
        out == verdict(old(blockchain)@, *json),
        final(blockchain)@ == step(old(blockchain)@, *json),
        wf(final(blockchain)@),
{
    match validate_block(json) {
        Err(reason) => {
            return Err(reason);
        },
        Ok(()) => {},
    }
    match record_digest(json) {
        Some(hash) => place_block(json, hash, blockchain),
        None => Err(Rejection::SchemaError),
    }
}

/// Handles a block where the chain has room for its work, and leaves the
/// chain alone where it has not.
pub fn try_handle_block(json: &Json, blockchain: &mut Blockchain) -> (out: Option<
    Result<(), Rejection>,
>)
    requires
        wf(old(blockchain)@),
    ensures
        out is Some <==> fits(old(blockchain)@, *json),
        match out {
            Some(said) => said == verdict(old(blockchain)@, *json) && final(blockchain)@ == step(
                old(blockchain)@,
                *json,
            ),
            None => final(blockchain)@ == old(blockchain)@,
        },
        wf(final(blockchain)@),
{
    if has_room(json, blockchain) {
        Some(handle_block(json, blockchain))
    } else {
        None
    }
}

/// The engine: a chain, and whether the first record has been taken.
pub struct Engine {
    chain: Blockchain,
    active: bool,
}

/// What an engine is, as mathematics.
pub struct EngineModel {
    pub chain: ChainModel,
    pub active: bool,
}

impl View for Engine {
    type V = EngineModel;

    closed spec fn view(&self) -> EngineModel {
        EngineModel { chain: self.chain@, active: self.active }
    }
}

/// The answer to a query.
#[derive(Debug, PartialEq, Eq)]
pub enum Answer {
    /// The canonical state and the unspent outputs.
    State(State),
    /// The tips of all branches.
    Heads(Vec<Head>),
}

/// What holds of every engine: its chain is well formed, and it is the
/// initial chain until the first record has been taken.
pub open spec fn engine_wf(e: EngineModel) -> bool {
    &&& wf(e.chain)
    &&& !e.active ==> e.chain == initial()
}

/// What the engine says of a first record: it takes one only, and that one
/// where its schema and its hash pass.
pub open spec fn init_verdict(e: EngineModel, record: Json) -> Result<(), Rejection> {
    if e.active {
        Err(Rejection::AlreadyInitializedError)
    } else {
        init_check(record)
    }
}

/// What the engine says of a block: none is taken before the first record.
pub open spec fn block_verdict(e: EngineModel, record: Json) -> Result<(), Rejection> {
    if !e.active {
        Err(Rejection::UninitializedError)
    } else {
        verdict(e.chain, record)
    }
}

/// What the engine says of a query: it must ask for the state or for the
/// heads, and the first record must have been taken.
pub open spec fn query_verdict(e: EngineModel, what: Seq<char>) -> Result<(), Rejection> {
    if what != "state"@ && what != "heads"@ {
        Err(Rejection::InvalidQueryError)
    } else if !e.active {
        Err(Rejection::UninitializedError)
    } else {
        Ok(())
    }
}

impl Engine {
    /// An engine that has taken nothing yet.
    pub fn new() -> (engine: Engine)
        ensures
            engine@ == (EngineModel { chain: initial(), active: false }),
            engine_wf(engine@),
    {
        Engine { chain: Blockchain::new(), active: false }
    }

    /// Whether the first record has been taken.
    pub fn is_active(&self) -> (active: bool)
        ensures
            active == self@.active,
    {
        self.active
    }

    /// Takes the first record. Where it passes, the engine is active from
    /// then on; the chain is the initial chain either way.
    pub fn init(&mut self, json: &Json) -> (out: Result<(), Rejection>)
        requires
            engine_wf(old(self)@),
        ensures
            out == init_verdict(old(self)@, *json),
            final(self)@.chain == old(self)@.chain,
            final(self)@.active == (old(self)@.active || out is Ok),
            engine_wf(final(self)@),
    {
        if self.active {
            return Err(Rejection::AlreadyInitializedError);
        }
        match validate_init(json) {
            Err(reason) => Err(reason),
            Ok(()) => {
                self.active = true;
                Ok(())
            },
        }
    }

    /// Whether the work of the chain stays within 128 bits if this block is
    /// accepted.
    pub fn has_room(&self, json: &Json) -> (ok: bool)
        requires
            engine_wf(self@),
        ensures
            ok == fits(self@.chain, *json),
    {
        has_room(json, &self.chain)
    }

    /// Takes a block through every stage, once the first record has been
    /// taken. A block that is turned down leaves the engine as it was.
    pub fn block(&mut self, json: &Json) -> (out: Result<(), Rejection>)
        requires
            engine_wf(old(self)@),
            old(self)@.active ==> fits(old(self)@.chain, *json),
        ensures
            out == block_verdict(old(self)@, *json),
            final(self)@.active == old(self)@.active,
            final(self)@.chain == if old(self)@.active {
                step(old(self)@.chain, *json)
            } else {
                old(self)@.chain
            },
            engine_wf(final(self)@),
    {
        if !self.active {
            return Err(Rejection::UninitializedError);
        }
        handle_block(json, &mut self.chain)
    }

    /// Takes a block as `block` does where the chain has room for its work,
    /// and leaves the engine alone where it has not.
    pub fn try_block(&mut self, json: &Json) -> (out: Option<Result<(), Rejection>>)
        requires
            engine_wf(old(self)@),
        ensures
            out is Some <==> (old(self)@.active ==> fits(old(self)@.chain, *json)),
            match out {
                Some(said) => said == block_verdict(old(self)@, *json) && final(self)@.chain == if old(
                    self,
                )@.active {
                    step(old(self)@.chain, *json)
                } else {
                    old(self)@.chain
                },
                None => final(self)@.chain == old(self)@.chain,
            },
            final(self)@.active == old(self)@.active,
            engine_wf(final(self)@),
    {
        if !self.active || has_room(json, &self.chain) {
            Some(self.block(json))
        } else {
            None
        }
    }

    /// Answers a query for the `state` or for the `heads`.
    pub fn query(&self, what: &str) -> (out: Result<Answer, Rejection>)
        ensures
            match out {
                Ok(Answer::State(state)) => what@ == "state"@ && query_verdict(self@, what@) is Ok
                    && state@ == self@.chain.state,
                Ok(Answer::Heads(heads)) => what@ == "heads"@ && query_verdict(self@, what@) is Ok
                    && head_models(heads@) == self@.chain.heads,
                Err(reason) => query_verdict(self@, what@) == Err::<(), Rejection>(reason),
            },
    {
        let state = same_text(what, "state");
        let heads = same_text(what, "heads");
        if !state && !heads {
            Err(Rejection::InvalidQueryError)
        } else if !self.active {
            Err(Rejection::UninitializedError)
        } else if state {
            Ok(Answer::State(state_query(&self.chain)))
        } else {
            Ok(Answer::Heads(heads_query(&self.chain)))
        }
    }
}

} // verus!
