//! The chain of accepted blocks: its branch tips, its history, the canonical
//! state and the unspent outputs.

use vstd::prelude::*;
use vstd::arithmetic::power::{lemma_pow0, lemma_pow_increases, pow};
use crate::model::{
    all_balanced, transaction_models, Block, BlockModel, Input, Transaction, TransactionModel,
};
use crate::text::same_text;

verus! {

/// The tip of a branch: the hash of its last block, the number of blocks
/// behind it, and the work that went into them.
#[derive(Debug, Clone, PartialEq, Eq)]
pub struct Head {
    pub height: u64,
    pub totalwork: u128,
    pub hash: String,
}

/// The canonical branch, and the outputs that nothing has consumed yet.
#[derive(Debug, Clone, PartialEq, Eq)]
pub struct State {
    pub height: u64,
    pub totalwork: u128,
    pub hash: String,
    pub outputs: Vec<Input>,
}

/// What a tip is, as mathematics.
pub struct HeadModel {
    pub hash: Seq<char>,
    pub height: nat,
    pub work: nat,
}

/// What the state is, as mathematics.
pub struct StateModel {
    pub tip: HeadModel,
    pub outputs: Seq<Input>,
}

/// What a chain is, as mathematics. `history` has one record for each block
/// of `blocks`, in the order in which they were accepted, behind the record
/// of the genesis sentinel.
pub struct ChainModel {
    pub state: StateModel,
    pub heads: Seq<HeadModel>,
    pub blocks: Seq<BlockModel>,
    pub history: Seq<HeadModel>,
}

impl View for Head {
    type V = HeadModel;

    open spec fn view(&self) -> HeadModel {
        HeadModel { hash: self.hash@, height: self.height as nat, work: self.totalwork as nat }
    }
}

impl View for State {
    type V = StateModel;

    open spec fn view(&self) -> StateModel {
        StateModel {
            tip: HeadModel {
                hash: self.hash@,
                height: self.height as nat,
                work: self.totalwork as nat,
            },
            outputs: self.outputs@,
        }
    }
}

/// The models of a sequence of tips.
pub open spec fn head_models(heads: Seq<Head>) -> Seq<HeadModel> {
    Seq::new(heads.len(), |i: int| heads[i]@)
}

/// The models of a sequence of blocks.
pub open spec fn block_models(blocks: Seq<Block>) -> Seq<BlockModel> {
    Seq::new(blocks.len(), |i: int| blocks[i]@)
}

/// The work that one block of difficulty `d` stands for: sixteen to the
/// power of `d`.
pub open spec fn block_work(d: nat) -> nat {
    pow(16, d) as nat
}

/// The position of the first record of `history` with this hash, counted
/// from `from`, or the length of `history` where there is none.
pub open spec fn position_from(history: Seq<HeadModel>, hash: Seq<char>, from: int) -> int
    decreases history.len() - from,
{
    if from < 0 || from >= history.len() {
        history.len() as int
    } else if history[from].hash == hash {
        from
    } else {
        position_from(history, hash, from + 1)
    }
}

/// The position of the first record of `history` with this hash, or the
/// length of `history` where there is none.
pub open spec fn position(history: Seq<HeadModel>, hash: Seq<char>) -> int {
    position_from(history, hash, 0)
}

/// Whether a block of this hash has been recorded.
pub open spec fn knows(history: Seq<HeadModel>, hash: Seq<char>) -> bool {
    position(history, hash) < history.len()
}

/// The record of the genesis sentinel: no hash, no height, no work.
pub open spec fn genesis() -> HeadModel {
    HeadModel { hash: Seq::empty(), height: 0, work: 0 }
}

/// The block that stands for the genesis sentinel.
pub open spec fn genesis_block() -> BlockModel {
    BlockModel {
        hash: Seq::empty(),
        predecessor: Seq::empty(),
        nonce: 0,
        difficulty: 0,
        transactions: Seq::empty(),
    }
}

/// The chain before any block: the genesis sentinel is its only tip and its
/// canonical state, and there are no outputs.
pub open spec fn initial() -> ChainModel {
    ChainModel {
        state: StateModel { tip: genesis(), outputs: Seq::empty() },
        heads: seq![genesis()],
        blocks: seq![genesis_block()],
        history: seq![genesis()],
    }
}

/// Where `position_from` arrives: at the first record with the hash, if
/// there is one from `from` on.
pub proof fn lemma_position_from(history: Seq<HeadModel>, hash: Seq<char>, from: int)
    requires
        0 <= from <= history.len(),
    ensures
        from <= position_from(history, hash, from) <= history.len(),
        position_from(history, hash, from) < history.len() ==> history[position_from(
            history,
            hash,
            from,
        )].hash == hash,
        forall|i: int|
            from <= i < position_from(history, hash, from) ==> (#[trigger] history[i]).hash != hash,
    decreases history.len() - from,
{
    if from < history.len() && history[from].hash != hash {
        lemma_position_from(history, hash, from + 1);
    }
}

/// A hash is known exactly where some record has it, and `position` gives
/// the first such record.
pub proof fn lemma_position(history: Seq<HeadModel>, hash: Seq<char>)
    ensures
        0 <= position(history, hash) <= history.len(),
        knows(history, hash) ==> history[position(history, hash)].hash == hash,
        knows(history, hash) <==> exists|i: int|
            0 <= i < history.len() && (#[trigger] history[i]).hash == hash,
        forall|i: int| 0 <= i < position(history, hash) ==> (#[trigger] history[i]).hash != hash,
{
    lemma_position_from(history, hash, 0);
}

/// Sixteen to the power of `diff`, where that fits.
pub fn work_of(diff: u32) -> (out: Option<u128>)
    ensures
        match out {
            Some(work) => work == block_work(diff as nat),
            None => block_work(diff as nat) > u128::MAX,
        },
{
    let mut work: u128 = 1;
    let mut k: u32 = 0;
    proof {
        lemma_pow0(16);
    }
    while k < diff
        invariant
            k <= diff,
            work == pow(16, k as nat),
        decreases diff - k,
    {
        proof {
            assert(pow(16, (k + 1) as nat) == 16 * pow(16, k as nat)) by {
                reveal(pow);
            }
            lemma_pow_increases(16, (k + 1) as nat, diff as nat);
        }
        match work.checked_mul(16) {
            Some(next) => {
                work = next;
            },
            None => {
                return None;
            },
        }
        k += 1;
    }
    Some(work)
}

/// The tips after a block has been put behind `pred`: each tip that was at
/// `pred` is now `head`.
pub open spec fn replace_heads(heads: Seq<HeadModel>, pred: Seq<char>, head: HeadModel) -> Seq<
    HeadModel,
> {
    Seq::new(
        heads.len(),
        |k: int|
            if heads[k].hash == pred {
                head
            } else {
                heads[k]
            },
    )
}

/// Whether one of the tips is at `hash`.
pub open spec fn has_head(heads: Seq<HeadModel>, hash: Seq<char>) -> bool {
    exists|k: int| 0 <= k < heads.len() && (#[trigger] heads[k]).hash == hash
}

/// The record of a block of difficulty `diff` behind the block `pred`: one
/// higher than its predecessor, with the predecessor's work and its own.
pub open spec fn next_head(
    history: Seq<HeadModel>,
    pred: Seq<char>,
    hash: Seq<char>,
    diff: nat,
) -> HeadModel {
    let before = history[position(history, pred)];
    HeadModel { hash, height: before.height + 1, work: before.work + block_work(diff) }
}

/// The chain after a block has been indexed. The tip at its predecessor
/// moves to it, or, where no tip is there, it becomes one more tip. It
/// becomes the canonical tip unless that is higher. Its record goes to the
/// end of the history. Blocks and outputs stay.
pub open spec fn extend(c: ChainModel, pred: Seq<char>, hash: Seq<char>, diff: nat) -> ChainModel {
    let head = next_head(c.history, pred, hash, diff);
    ChainModel {
        state: StateModel {
            tip: if head.height >= c.state.tip.height {
                head
            } else {
                c.state.tip
            },
            outputs: c.state.outputs,
        },
        heads: if has_head(c.heads, pred) {
            replace_heads(c.heads, pred, head)
        } else {
            c.heads.push(head)
        },
        blocks: c.blocks,
        history: c.history.push(head),
    }
}

/// Whether `head` is one of the records of `history`.
pub open spec fn recorded(history: Seq<HeadModel>, head: HeadModel) -> bool {
    exists|i: int| 0 <= i < history.len() && #[trigger] history[i] == head
}

/// Whether the record at `k` is the one that the fork choice selects: no
/// record is higher, and no later record is as high.
pub open spec fn is_best(history: Seq<HeadModel>, k: int) -> bool {
    &&& 0 <= k < history.len()
    &&& forall|i: int| 0 <= i < history.len() ==> (#[trigger] history[i]).height <= history[k].height
    &&& forall|i: int| k < i < history.len() ==> (#[trigger] history[i]).height < history[k].height
}

/// Whether `tip` is the record that the fork choice selects.
pub open spec fn selects(history: Seq<HeadModel>, tip: HeadModel) -> bool {
    exists|k: int| is_best(history, k) && #[trigger] history[k] == tip
}

/// What holds of the tips, the history and the canonical tip of every chain:
/// the history starts at the genesis sentinel; no two records have one hash;
/// a record is no higher than its position; every tip is a record, and no
/// two tips are at one block; the canonical tip is the record that the fork
/// choice selects, and one of the tips.
pub open spec fn index_wf(c: ChainModel) -> bool {
    &&& c.history.len() >= 1
    &&& c.history[0] == genesis()
    &&& forall|i: int, j: int|
        0 <= i < j < c.history.len() ==> (#[trigger] c.history[i]).hash != (
        #[trigger] c.history[j]).hash
    &&& forall|i: int| 0 <= i < c.history.len() ==> (#[trigger] c.history[i]).height <= i
    &&& forall|k: int| 0 <= k < c.heads.len() ==> recorded(c.history, #[trigger] c.heads[k])
    &&& forall|k: int, l: int|
        0 <= k < l < c.heads.len() ==> (#[trigger] c.heads[k]).hash != (#[trigger] c.heads[l]).hash
    &&& selects(c.history, c.state.tip)
    &&& exists|k: int| 0 <= k < c.heads.len() && #[trigger] c.heads[k] == c.state.tip
}

/// Indexing a new block behind a known one keeps the index well formed.
pub proof fn lemma_extend_keeps_index(c: ChainModel, pred: Seq<char>, hash: Seq<char>, diff: nat)
    requires
        index_wf(c),
        knows(c.history, pred),
        !knows(c.history, hash),
    ensures
        index_wf(extend(c, pred, hash, diff)),
{
    let head = next_head(c.history, pred, hash, diff);
    let d = extend(c, pred, hash, diff);
    let n = c.history.len() as int;
    lemma_position(c.history, pred);
    lemma_position(c.history, hash);
    assert(d.history[n] == head);
    assert forall|k: int| 0 <= k < d.heads.len() implies recorded(
        d.history,
        #[trigger] d.heads[k],
    ) by {
        if d.heads[k] != head {
            let i = choose|i: int| 0 <= i < c.history.len() && c.history[i] == c.heads[k];
            assert(d.history[i] == c.heads[k]);
        }
    }
    let best = choose|k: int| is_best(c.history, k) && c.history[k] == c.state.tip;
    if head.height >= c.state.tip.height {
        assert(is_best(d.history, n));
        if has_head(c.heads, pred) {
            let k = choose|k: int| 0 <= k < c.heads.len() && (#[trigger] c.heads[k]).hash == pred;
            assert(d.heads[k] == head);
        } else {
            assert(d.heads[c.heads.len() as int] == head);
        }
    } else {
        assert(is_best(d.history, best));
        // The canonical tip is not at `pred`: a block behind it would be as high.
        let k = choose|k: int| 0 <= k < c.heads.len() && #[trigger] c.heads[k] == c.state.tip;
        assert(d.heads[k] == c.state.tip);
    }
}

/// Whether one of `inputs` names the entry `id`.
pub open spec fn spends(inputs: Seq<Input>, id: u64) -> bool {
    exists|i: int| 0 <= i < inputs.len() && (#[trigger] inputs[i]).id == id
}

/// The test that an entry passes where none of `inputs` names it.
pub open spec fn unspent_by(inputs: Seq<Input>) -> spec_fn(Input) -> bool {
    |entry: Input| !spends(inputs, entry.id)
}

/// The unspent outputs after one transaction: to those before it come the
/// outputs that it produces, and of all these the entries stay that none of
/// its inputs names.
pub open spec fn apply_transaction(outputs: Seq<Input>, transaction: TransactionModel) -> Seq<
    Input,
> {
    (outputs + transaction.outputs).filter(unspent_by(transaction.inputs))
}

/// The unspent outputs after a block: only the first of its transactions is
/// applied.
pub open spec fn apply_outputs(outputs: Seq<Input>, transactions: Seq<TransactionModel>) -> Seq<
    Input,
> {
    if transactions.len() == 0 {
        outputs
    } else {
        apply_transaction(outputs, transactions[0])
    }
}

/// The chain after a block has been accepted: the block is indexed, its
/// first transaction is applied to the unspent outputs, and the block is
/// kept.
pub open spec fn accept_block(c: ChainModel, b: BlockModel) -> ChainModel {
    let indexed = extend(c, b.predecessor, b.hash, b.difficulty);
    ChainModel {
        state: StateModel {
            tip: indexed.state.tip,
            outputs: apply_outputs(c.state.outputs, b.transactions),
        },
        heads: indexed.heads,
        blocks: c.blocks.push(b),
        history: indexed.history,
    }
}

/// Whether the block at `i` hangs on an earlier block: one lower, with less
/// work by the block's own, and of no greater difficulty.
pub open spec fn linked(c: ChainModel, i: int) -> bool {
    let p = position(c.history, c.blocks[i].predecessor);
    &&& 0 <= p < i
    &&& c.history[i].height == c.history[p].height + 1
    &&& c.history[i].work == c.history[p].work + block_work(c.blocks[i].difficulty)
    &&& c.blocks[p].difficulty <= c.blocks[i].difficulty
}

/// Whether no block hangs on the block at `i`.
pub open spec fn is_tip(c: ChainModel, i: int) -> bool {
    forall|j: int|
        1 <= j < c.blocks.len() ==> (#[trigger] c.blocks[j]).predecessor != c.history[i].hash
}

/// What holds of every chain: its index is well formed; each block has its
/// record; the first block is the genesis sentinel; every other block hangs
/// on an earlier one; the tips are the records of the blocks on which no
/// block hangs; every transaction of every block is balanced.
pub open spec fn wf(c: ChainModel) -> bool {
    &&& index_wf(c)
    &&& c.blocks.len() == c.history.len()
    &&& c.blocks[0] == genesis_block()
    &&& forall|i: int| 0 <= i < c.blocks.len() ==> (#[trigger] c.blocks[i]).hash == c.history[i].hash
    &&& forall|i: int| 1 <= i < c.blocks.len() ==> #[trigger] linked(c, i)
    &&& forall|i: int|
        0 <= i < c.history.len() ==> (is_tip(c, i) <==> c.heads.contains(#[trigger] c.history[i]))
    &&& forall|i: int| 0 <= i < c.blocks.len() ==> all_balanced((#[trigger] c.blocks[i]).transactions)
}

/// The work that a block of difficulty `diff` behind `pred` would bring the
/// chain to.
pub open spec fn work_after(history: Seq<HeadModel>, pred: Seq<char>, diff: nat) -> nat {
    history[position(history, pred)].work + block_work(diff)
}

/// A record that has been found stays where it is when the history grows.
pub proof fn lemma_position_push(history: Seq<HeadModel>, head: HeadModel, hash: Seq<char>)
    requires
        knows(history, hash),
    ensures
        position(history.push(head), hash) == position(history, hash),
{
    lemma_position_push_from(history, head, hash, 0);
}

proof fn lemma_position_push_from(
    history: Seq<HeadModel>,
    head: HeadModel,
    hash: Seq<char>,
    from: int,
)
    requires
        0 <= from <= history.len(),
        position_from(history, hash, from) < history.len(),
    ensures
        position_from(history.push(head), hash, from) == position_from(history, hash, from),
    decreases history.len() - from,
{
    if from < history.len() && history[from].hash != hash {
        lemma_position_push_from(history, head, hash, from + 1);
    }
}

/// Accepting a new block of balanced transactions behind a known one of no
/// greater difficulty keeps the chain well formed.
pub proof fn lemma_accept_keeps_wf(c: ChainModel, b: BlockModel)
    requires
        wf(c),
        knows(c.history, b.predecessor),
        !knows(c.history, b.hash),
        c.blocks[position(c.history, b.predecessor)].difficulty <= b.difficulty,
        all_balanced(b.transactions),
    ensures
        wf(accept_block(c, b)),
{
    let d = accept_block(c, b);
    let n = c.history.len() as int;
    let p = position(c.history, b.predecessor);
    let head = d.history[n];
    lemma_extend_keeps_index(c, b.predecessor, b.hash, b.difficulty);
    lemma_position(c.history, b.predecessor);
    assert(index_wf(d)) by {
        assert(d.heads == extend(c, b.predecessor, b.hash, b.difficulty).heads);
    }
    assert forall|i: int| 1 <= i < d.blocks.len() implies #[trigger] linked(d, i) by {
        if i < n {
            assert(linked(c, i));
            lemma_position_push(c.history, head, c.blocks[i].predecessor);
        } else {
            lemma_position_push(c.history, head, b.predecessor);
        }
    }
    // No block hangs on the new block: every block hangs on a known one.
    assert(is_tip(d, n)) by {
        assert forall|j: int| 1 <= j < d.blocks.len() implies (#[trigger] d.blocks[j]).predecessor
            != d.history[n].hash by {
            if j < n {
                assert(linked(c, j));
            }
        }
    }
    assert(d.heads.contains(head)) by {
        if has_head(c.heads, b.predecessor) {
            let k = choose|k: int|
                0 <= k < c.heads.len() && (#[trigger] c.heads[k]).hash == b.predecessor;
            assert(d.heads[k] == head);
        } else {
            assert(d.heads[c.heads.len() as int] == head);
        }
    }
    assert forall|i: int| 0 <= i < n implies (is_tip(d, i) <==> d.heads.contains(
        #[trigger] d.history[i],
    )) by {
        if i == p {
            // The new block hangs on its predecessor, whose tip has moved.
            assert(d.blocks[n].predecessor == d.history[p].hash);
        } else if is_tip(c, i) {
            let k = choose|k: int| 0 <= k < c.heads.len() && c.heads[k] == c.history[i];
            assert(d.heads[k] == c.history[i]);
        } else {
            let j = choose|j: int|
                1 <= j < c.blocks.len() && (#[trigger] c.blocks[j]).predecessor
                    == c.history[i].hash;
            assert(d.blocks[j].predecessor == d.history[i].hash);
        }
    }
}

/// The chain: the canonical state, the tips of all branches, the accepted
/// blocks, and one record for each of them.
pub struct Blockchain {
    state: State,
    heads: Vec<Head>,
    blocks: Vec<Block>,
    head_history: Vec<Head>,
}

impl View for Blockchain {
    type V = ChainModel;

    closed spec fn view(&self) -> ChainModel {
        ChainModel {
            state: self.state@,
            heads: head_models(self.heads@),
            blocks: block_models(self.blocks@),
            history: head_models(self.head_history@),
        }
    }
}

/// Moves each tip of `heads` that is at `predecessor` to the given block,
/// and says whether there was one.
fn move_heads(
    heads: &mut Vec<Head>,
    predecessor: &String,
    new_hash: &String,
    height: u64,
    totalwork: u128,
) -> (moved: bool)
    ensures
        moved == has_head(head_models(old(heads)@), predecessor@),
        head_models(final(heads)@) == replace_heads(
            head_models(old(heads)@),
            predecessor@,
            HeadModel { hash: new_hash@, height: height as nat, work: totalwork as nat },
        ),
{
    let ghost before = head_models(heads@);
    let ghost head = HeadModel { hash: new_hash@, height: height as nat, work: totalwork as nat };
    let mut moved = false;
    let mut k: usize = 0;
    while k < heads.len()
        invariant
            k <= heads.len(),
            heads@.len() == before.len(),
            head == (HeadModel { hash: new_hash@, height: height as nat, work: totalwork as nat }),
            moved == exists|j: int| 0 <= j < k && (#[trigger] before[j]).hash == predecessor@,
            forall|j: int|
                0 <= j < k ==> (#[trigger] heads@[j])@ == replace_heads(
                    before,
                    predecessor@,
                    head,
                )[j],
            forall|j: int| k <= j < heads@.len() ==> (#[trigger] heads@[j])@ == before[j],
        decreases heads.len() - k,
    {
        if same_text(heads[k].hash.as_str(), predecessor.as_str()) {
            heads.set(k, Head { hash: new_hash.clone(), height, totalwork });
            moved = true;
        }
        k += 1;
    }
    moved
}

/// Whether one of `inputs` names the entry `id`.
fn names(inputs: &Vec<Input>, id: u64) -> (found: bool)
    ensures
        found == spends(inputs@, id),
{
    let mut i: usize = 0;
    while i < inputs.len()
        invariant
            i <= inputs.len(),
            forall|j: int| 0 <= j < i ==> (#[trigger] inputs@[j]).id != id,
        decreases inputs.len() - i,
    {
        if inputs[i].id == id {
            return true;
        }
        i += 1;
    }
    false
}

/// Appends to `kept` the entries that none of `inputs` names.
fn keep_unspent(kept: &mut Vec<Input>, entries: &Vec<Input>, inputs: &Vec<Input>)
    ensures
        final(kept)@ == old(kept)@ + entries@.filter(unspent_by(inputs@)),
{
    let ghost before = kept@;
    let mut i: usize = 0;
    while i < entries.len()
        invariant
            i <= entries.len(),
            kept@ == before + entries@.take(i as int).filter(unspent_by(inputs@)),
        decreases entries.len() - i,
    {
        let entry = entries[i];
        proof {
            assert(entries@.take(i + 1) =~= entries@.take(i as int).push(entry));
            entries@.take(i as int).lemma_filter_push(entry, unspent_by(inputs@));
        }
        if !names(inputs, entry.id) {
            kept.push(entry);
        }
        i += 1;
    }
    assert(entries@.take(i as int) =~= entries@);
}

impl Blockchain {
    /// The chain before any block.
    pub fn new() -> (chain: Blockchain)
        ensures
            chain@ == initial(),
            wf(chain@),
    {
        let mut heads: Vec<Head> = Vec::new();
        heads.push(Head { height: 0, totalwork: 0, hash: String::new() });
        let mut head_history: Vec<Head> = Vec::new();
        head_history.push(Head { height: 0, totalwork: 0, hash: String::new() });
        let mut blocks: Vec<Block> = Vec::new();
        blocks.push(
            Block {
                hash: String::new(),
                predecessor: String::new(),
                nonce: 0,
                difficulty: 0,
                transactions: Vec::new(),
            },
        );
        let chain = Blockchain {
            state: State { height: 0, totalwork: 0, hash: String::new(), outputs: Vec::new() },
            heads,
            blocks,
            head_history,
        };
        proof {
            assert(chain@.heads =~= initial().heads);
            assert(chain@.history =~= initial().history);
            assert(chain@.blocks[0].transactions =~= genesis_block().transactions);
            assert(chain@.blocks =~= initial().blocks);
        }
        chain
    }

    /// Looks for the record of a block.
    pub fn find(&self, hash: &str) -> (at: Option<usize>)
        ensures
            match at {
                Some(i) => knows(self@.history, hash@) && i == position(self@.history, hash@),
                None => !knows(self@.history, hash@),
            },
    {
        let mut i: usize = 0;
        while i < self.head_history.len()
            invariant
                i <= self.head_history.len(),
                position(self@.history, hash@) == position_from(self@.history, hash@, i as int),
            decreases self.head_history.len() - i,
        {
            if same_text(self.head_history[i].hash.as_str(), hash) {
                return Some(i);
            }
            i += 1;
        }
        None
    }

    /// Indexes a new block behind a known one. The tip at its predecessor
    /// moves to it, or it becomes one more tip; it becomes the canonical tip
    /// unless that is higher; its record goes to the end of the history.
    pub fn update_state(&mut self, predecessor: String, new_hash: String, diff: u32)
        requires
            index_wf(old(self)@),
            knows(old(self)@.history, predecessor@),
            !knows(old(self)@.history, new_hash@),
            old(self)@.history[position(old(self)@.history, predecessor@)].work + block_work(
                diff as nat,
            ) <= u128::MAX,
        ensures
            final(self)@ == extend(old(self)@, predecessor@, new_hash@, diff as nat),
            index_wf(final(self)@),
    {
        proof {
            lemma_extend_keeps_index(self@, predecessor@, new_hash@, diff as nat);
        }
        let ghost before = self@;
        let work: u128 = match work_of(diff) {
            Some(work) => work,
            None => 0,
        };
        let at: usize = match self.find(predecessor.as_str()) {
            Some(at) => at,
            None => 0,
        };
        assert(at < self.head_history.len());
        let height: u64 = self.head_history[at].height + 1;
        let totalwork: u128 = self.head_history[at].totalwork + work;
        if height >= self.state.height {
            self.state.height = height;
            self.state.totalwork = totalwork;
            self.state.hash = new_hash.clone();
        }
        let ghost head = next_head(before.history, predecessor@, new_hash@, diff as nat);
        assert(head == (HeadModel {
            hash: new_hash@,
            height: height as nat,
            work: totalwork as nat,
        }));
        let moved = move_heads(&mut self.heads, &predecessor, &new_hash, height, totalwork);
        if !moved {
            assert(head_models(self.heads@) =~= before.heads);
            self.heads.push(Head { hash: new_hash.clone(), height, totalwork });
            assert(head_models(self.heads@) =~= before.heads.push(head));
        }
        self.head_history.push(Head { hash: new_hash, height, totalwork });
        assert(self@.history =~= before.history.push(head));
    }

    /// Applies the transactions of a block to the unspent outputs: the
    /// outputs of the first transaction are added, then every entry that one
    /// of its inputs names is removed. Further transactions change nothing.
    pub fn update_outputs(&mut self, trans: &Vec<Transaction>)
        ensures
            final(self)@ == (ChainModel {
                state: StateModel {
                    tip: old(self)@.state.tip,
                    outputs: apply_outputs(old(self)@.state.outputs, transaction_models(trans@)),
                },
                ..old(self)@
            }),
    {
        if trans.len() > 0 {
            let first = &trans[0];
            let mut kept: Vec<Input> = Vec::new();
            keep_unspent(&mut kept, &self.state.outputs, &first.inputs);
            keep_unspent(&mut kept, &first.outputs, &first.inputs);
            proof {
                Seq::filter_distributes_over_add(
                    self.state.outputs@,
                    first.outputs@,
                    unspent_by(first.inputs@),
                );
            }
            self.state.outputs = kept;
        }
    }

    /// Accepts a block that has passed every check: indexes it, applies its
    /// transactions to the unspent outputs, and keeps it.
    pub fn add_block(&mut self, block: Block)
        requires
            wf(old(self)@),
            knows(old(self)@.history, block.predecessor@),
            !knows(old(self)@.history, block.hash@),
            old(self)@.blocks[position(old(self)@.history, block.predecessor@)].difficulty
                <= block.difficulty,
            all_balanced(block@.transactions),
            work_after(old(self)@.history, block.predecessor@, block.difficulty as nat)
                <= u128::MAX,
        ensures
            final(self)@ == accept_block(old(self)@, block@),
            wf(final(self)@),
    {
        proof {
            lemma_accept_keeps_wf(self@, block@);
        }
        let ghost before = self@;
        let diff: u32 = block.difficulty;
        let blockhash = block.hash.clone();
        let predecessor = block.predecessor.clone();
        self.update_state(predecessor, blockhash, diff);
        self.update_outputs(&block.transactions);
        self.blocks.push(block);
        assert(self@.blocks =~= before.blocks.push(block@));
    }

    /// The difficulty and the work of the block whose record is at `at`.
    pub fn record_at(&self, at: usize) -> (out: (u32, u128))
        requires
            wf(self@),
            at < self@.history.len(),
        ensures
            out.0 == self@.blocks[at as int].difficulty,
            out.1 == self@.history[at as int].work,
    {
        (self.blocks[at].difficulty, self.head_history[at].totalwork)
    }
}

/// The canonical state and the unspent outputs.
pub fn state_query(blockchain: &Blockchain) -> (state: State)
    ensures
        state@ == blockchain@.state,
{
    let mut outputs: Vec<Input> = Vec::new();
    let mut i: usize = 0;
    while i < blockchain.state.outputs.len()
        invariant
            i <= blockchain.state.outputs.len(),
            outputs@ == blockchain.state.outputs@.take(i as int),
        decreases blockchain.state.outputs.len() - i,
    {
        outputs.push(blockchain.state.outputs[i]);
        i += 1;
    }
    assert(outputs@ =~= blockchain.state.outputs@);
    State {
        height: blockchain.state.height,
        totalwork: blockchain.state.totalwork,
        hash: blockchain.state.hash.clone(),
        outputs,
    }
}

/// The tips of all branches.
pub fn heads_query(blockchain: &Blockchain) -> (heads: Vec<Head>)
    ensures
        head_models(heads@) == blockchain@.heads,
{
    let mut heads: Vec<Head> = Vec::new();
    let mut i: usize = 0;
    while i < blockchain.heads.len()
        invariant
            i <= blockchain.heads.len(),
            heads@.len() == i,
            forall|j: int| 0 <= j < i ==> (#[trigger] heads@[j])@ == blockchain.heads@[j]@,
        decreases blockchain.heads.len() - i,
    {
        let head = &blockchain.heads[i];
        heads.push(Head { height: head.height, totalwork: head.totalwork, hash: head.hash.clone() });
        i += 1;
    }
    heads
}

} // verus!
