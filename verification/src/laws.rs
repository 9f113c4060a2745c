//! What holds of the engine whatever it is handed.

use vstd::prelude::*;
use vstd::utf8::encode_utf8;
use crate::chain::{
    block_work, has_head, initial, is_best, knows, lemma_accept_keeps_wf, lemma_position,
    lemma_position_push, linked, next_head, position, wf, ChainModel, HeadModel,
};
use crate::codec::{canonical_bytes, content_digest, hash_verified, lemma_digest_has_no_capitals};
use crate::engine::{block_of, step, text_field, verdict};
use crate::json::{field, Json};
use crate::model::{all_balanced, balanced, total, TransactionModel};
use crate::rejection::Rejection;
use crate::text::{lemma_same_bytes_same_text, lemma_same_without_capitals, no_capitals};
use crate::validate::{balance_ok, block_check, difficulty_check};

verus! {

/// The digest of a record depends on its predecessor, transactions,
/// difficulty and nonce alone: two records that agree in these four have one
/// digest, whatever else they hold.
pub proof fn law_digest_depends_on_content_alone(a: Json, b: Json)
    requires
        field(a, "predecessor"@) == field(b, "predecessor"@),
        field(a, "transactions"@) == field(b, "transactions"@),
        field(a, "difficulty"@) == field(b, "difficulty"@),
        field(a, "nonce"@) == field(b, "nonce"@),
    ensures
        content_digest(a) == content_digest(b),
{
}

/// An accepted block is kept under the digest of its own content, and the
/// hash that its record claimed is that digest, the case of letters apart.
pub proof fn law_accepted_hash_is_digest(c: ChainModel, record: Json)
    requires
        verdict(c, record) is Ok,
    ensures
        hash_verified(record),
        content_digest(record) == Some(block_of(record).hash),
        step(c, record).blocks.last().hash == block_of(record).hash,
        step(c, record).history.last().hash == block_of(record).hash,
{
}

/// Where the hash that a record claims has no capital letter in it, and the
/// record is accepted, that hash is the digest of the record's content,
/// character for character.
pub proof fn law_hash_round_trip(c: ChainModel, record: Json)
    requires
        verdict(c, record) is Ok,
        no_capitals(encode_utf8(text_field(record, "hash"@))),
    ensures
        content_digest(record) == Some(text_field(record, "hash"@)),
        step(c, record).blocks.last().hash == text_field(record, "hash"@),
{
    let claimed = text_field(record, "hash"@);
    let digest = content_digest(record)->0;
    lemma_digest_has_no_capitals(
        canonical_bytes(
            field(record, "predecessor"@)->0,
            field(record, "transactions"@)->0,
            field(record, "difficulty"@)->0,
            field(record, "nonce"@)->0,
        ),
    );
    lemma_same_without_capitals(encode_utf8(claimed), encode_utf8(digest));
    lemma_same_bytes_same_text(claimed, digest);
}

/// The inputs of all of `transactions` together.
pub open spec fn consumed(transactions: Seq<TransactionModel>) -> nat
    decreases transactions.len(),
{
    if transactions.len() == 0 {
        0
    } else {
        consumed(transactions.drop_last()) + total(transactions.last().inputs)
    }
}

/// The outputs of all of `transactions` together.
pub open spec fn produced(transactions: Seq<TransactionModel>) -> nat
    decreases transactions.len(),
{
    if transactions.len() == 0 {
        0
    } else {
        produced(transactions.drop_last()) + total(transactions.last().outputs)
    }
}

/// Where each transaction balances, all of them together balance.
pub proof fn lemma_balanced_together(transactions: Seq<TransactionModel>)
    requires
        all_balanced(transactions),
    ensures
        consumed(transactions) == produced(transactions),
    decreases transactions.len(),
{
    if transactions.len() > 0 {
        let rest = transactions.drop_last();
        assert forall|i: int| 0 <= i < rest.len() implies balanced(#[trigger] rest[i]) by {}
        lemma_balanced_together(rest);
    }
}

/// Every transaction of an accepted block produces as much as it consumes,
/// and so does the block as a whole.
pub proof fn law_accepted_block_balances(c: ChainModel, record: Json)
    requires
        verdict(c, record) is Ok,
    ensures
        all_balanced(block_of(record).transactions),
        consumed(block_of(record).transactions) == produced(block_of(record).transactions),
{
    lemma_balanced_together(block_of(record).transactions);
}

/// A block with a transaction that is malformed or out of balance is never
/// accepted and leaves the chain as it was; where it passes the stages
/// before, it is turned down for its balance.
pub proof fn law_unbalanced_block_is_rejected(c: ChainModel, record: Json)
    requires
        field(record, "transactions"@) matches Some(ts) ==> !balance_ok(ts),
    ensures
        verdict(c, record) is Err,
        step(c, record) == c,
        (block_check(record) is Ok && !knows(c.history, block_of(record).hash) && knows(
            c.history,
            block_of(record).predecessor,
        ) && difficulty_check(
            c.blocks[position(c.history, block_of(record).predecessor)].difficulty,
            block_of(record).difficulty,
            block_of(record).hash,
        ) is Ok) ==> verdict(c, record) == Err::<(), Rejection>(Rejection::BalanceError),
{
}

/// A block of lower difficulty than its predecessor is never accepted and
/// leaves the chain as it was; where it passes the stages before, it is
/// turned down for the regression.
pub proof fn law_difficulty_never_regresses(c: ChainModel, record: Json)
    requires
        knows(c.history, block_of(record).predecessor),
        block_of(record).difficulty < c.blocks[position(
            c.history,
            block_of(record).predecessor,
        )].difficulty,
    ensures
        verdict(c, record) is Err,
        step(c, record) == c,
        (block_check(record) is Ok && !knows(c.history, block_of(record).hash)) ==> verdict(
            c,
            record,
        ) == Err::<(), Rejection>(Rejection::DifficultyRegressionError),
{
}

/// A block whose predecessor is unknown is never accepted and leaves the
/// chain, its tips among the rest, as it was; where it passes the stages
/// before, it is turned down as an orphan.
pub proof fn law_orphan_is_rejected(c: ChainModel, record: Json)
    requires
        !knows(c.history, block_of(record).predecessor),
    ensures
        verdict(c, record) is Err,
        step(c, record) == c,
        step(c, record).heads == c.heads,
        (block_check(record) is Ok && !knows(c.history, block_of(record).hash)) ==> verdict(
            c,
            record,
        ) == Err::<(), Rejection>(Rejection::OrphanBlockError),
{
}

/// A record that has been taken into the history is known from then on.
pub proof fn lemma_known_after_push(history: Seq<HeadModel>, head: HeadModel)
    ensures
        knows(history.push(head), head.hash),
{
    let longer = history.push(head);
    lemma_position(longer, head.hash);
    assert(longer[history.len() as int].hash == head.hash);
}

/// What the chain knows, it knows after any further record: whether that
/// record is accepted or not.
pub proof fn law_known_blocks_stay_known(c: ChainModel, record: Json, hash: Seq<char>)
    requires
        knows(c.history, hash),
    ensures
        knows(step(c, record).history, hash),
        position(step(c, record).history, hash) == position(c.history, hash),
{
    if verdict(c, record) is Ok {
        let b = block_of(record);
        lemma_position_push(c.history, next_head(c.history, b.predecessor, b.hash, b.difficulty), hash);
    }
}

/// An accepted block is not accepted again: handed in once more, it is
/// turned down as a duplicate, and the chain stays as it was.
pub proof fn law_no_duplicate_acceptance(c: ChainModel, record: Json)
    requires
        verdict(c, record) is Ok,
    ensures
        verdict(step(c, record), record) == Err::<(), Rejection>(Rejection::DuplicateBlockError),
        step(step(c, record), record) == step(c, record),
{
    let b = block_of(record);
    lemma_known_after_push(c.history, next_head(c.history, b.predecessor, b.hash, b.difficulty));
}

/// A block that the chain knows is turned down as a duplicate whenever it is
/// handed in, and leaves the chain as it was.
pub proof fn law_known_block_is_a_duplicate(c: ChainModel, record: Json)
    requires
        block_check(record) is Ok,
        knows(c.history, block_of(record).hash),
    ensures
        verdict(c, record) == Err::<(), Rejection>(Rejection::DuplicateBlockError),
        step(c, record) == c,
{
}

/// The canonical tip is the best of the tips: it is one of them, none of
/// them is higher, and it is the record of the last block that was as high
/// as any before it.
pub proof fn law_canonical_tip_is_the_best_tip(c: ChainModel)
    requires
        wf(c),
    ensures
        c.heads.contains(c.state.tip),
        forall|k: int| 0 <= k < c.heads.len() ==> (#[trigger] c.heads[k]).height <= c.state.tip.height,
        exists|i: int|
            0 <= i < c.history.len() && #[trigger] c.history[i] == c.state.tip && forall|j: int|
                i < j < c.history.len() ==> (#[trigger] c.history[j]).height < c.state.tip.height,
{
    let best = choose|k: int| is_best(c.history, k) && c.history[k] == c.state.tip;
    assert forall|k: int| 0 <= k < c.heads.len() implies (#[trigger] c.heads[k]).height
        <= c.state.tip.height by {
        let i = choose|i: int| 0 <= i < c.history.len() && c.history[i] == c.heads[k];
        assert(c.history[i].height <= c.history[best].height);
    }
    assert(c.history[best] == c.state.tip);
}

/// The chain before any block is well formed.
pub proof fn law_initial_chain_is_well_formed()
    ensures
        wf(initial()),
{
    let c = initial();
    assert(c.heads[0] == c.state.tip);
}

/// Handling a record, whatever it holds, keeps a well-formed chain well
/// formed.
pub proof fn law_step_keeps_wf(c: ChainModel, record: Json)
    requires
        wf(c),
    ensures
        wf(step(c, record)),
{
    if verdict(c, record) is Ok {
        lemma_accept_keeps_wf(c, block_of(record));
    }
}

/// Handling a record takes nothing away: the blocks and the history of the
/// chain before are the first blocks and the first records after.
pub proof fn law_history_only_grows(c: ChainModel, record: Json)
    ensures
        c.blocks.is_prefix_of(step(c, record).blocks),
        c.history.is_prefix_of(step(c, record).history),
        step(c, record).history.len() == c.history.len() + if verdict(c, record) is Ok {
            1int
        } else {
            0int
        },
{
}

/// Accepting a block moves one tip or adds one: the tip at the block's
/// predecessor moves to the block, and where no tip is there the block
/// becomes one more tip. All other tips stay as they are.
pub proof fn law_accepting_moves_or_adds_one_tip(c: ChainModel, record: Json)
    requires
        wf(c),
        verdict(c, record) is Ok,
    ensures
        ({
            let b = block_of(record);
            let head = next_head(c.history, b.predecessor, b.hash, b.difficulty);
            let after = step(c, record).heads;
            if has_head(c.heads, b.predecessor) {
                exists|k: int|
                    0 <= k < c.heads.len() && (#[trigger] c.heads[k]).hash == b.predecessor && after
                        == c.heads.update(k, head)
            } else {
                after == c.heads.push(head)
            }
        }),
{
    let b = block_of(record);
    if has_head(c.heads, b.predecessor) {
        // No two tips are at one block: the tip at the predecessor is the
        // only one that moves.
        let k = choose|k: int| 0 <= k < c.heads.len() && (#[trigger] c.heads[k]).hash == b.predecessor;
        assert forall|l: int| 0 <= l < c.heads.len() && l != k implies (#[trigger] c.heads[l]).hash
            != b.predecessor by {}
    }
}

/// The record that is reached from the record at `i` by going to the
/// predecessor `steps` times.
pub open spec fn ancestor(c: ChainModel, i: int, steps: nat) -> int
    decreases steps,
{
    if steps == 0 {
        i
    } else {
        ancestor(c, position(c.history, c.blocks[i].predecessor), (steps - 1) as nat)
    }
}

/// Every record hangs on the genesis sentinel: going from it to the
/// predecessor as many times as it is high arrives there.
pub proof fn law_every_block_reaches_genesis(c: ChainModel, i: int)
    requires
        wf(c),
        0 <= i < c.history.len(),
    ensures
        ancestor(c, i, c.history[i].height) == 0,
        c.history[i].height == 0 <==> i == 0,
    decreases i,
{
    if i > 0 {
        assert(linked(c, i));
        law_every_block_reaches_genesis(c, position(c.history, c.blocks[i].predecessor));
    }
}

/// Along every branch the work adds up: a block's record holds the work of
/// its predecessor and sixteen to the power of its own difficulty, and the
/// difficulty does not fall from a block to the next.
pub proof fn law_work_adds_up(c: ChainModel, i: int)
    requires
        wf(c),
        1 <= i < c.history.len(),
    ensures
        ({
            let p = position(c.history, c.blocks[i].predecessor);
            &&& 0 <= p < i
            &&& c.history[p].hash == c.blocks[i].predecessor
            &&& c.history[i].height == c.history[p].height + 1
            &&& c.history[i].work == c.history[p].work + block_work(c.blocks[i].difficulty)
            &&& c.blocks[p].difficulty <= c.blocks[i].difficulty
        }),
{
    assert(linked(c, i));
    lemma_position(c.history, c.blocks[i].predecessor);
}

} // verus!
