use ledger_engine::chain::{Head, State};
use ledger_engine::codec::record_digest;
use ledger_engine::engine::{handle_block, has_room, try_handle_block, Answer, Engine};
use ledger_engine::chain::Blockchain;
use ledger_engine::json::{Json, Member};
use ledger_engine::model::init_input;
use ledger_engine::rejection::Rejection;

const INIT_HASH: &str = "0x71c9bfaf1175b875ba1f7d4b02f3b5b1e7153395743f91717babf0ca74955329";
const B1_HASH: &str = "0x173913803590a8f2a929ca280d3c9616508fc15ba662386cb08e2b15a7029939";
const B1A_HASH: &str = "0xe7b13d9b509332b9767ce98f39e8bb28174a8b05dfc2bbed5851649ab6763460";
const D1_HASH: &str = "0xbcf7c465aa2c6e37064d52f8f13f594a8cf89092eb58d9046b8103409f8152be";

fn member(key: &str, value: Json) -> Member {
    Member { key: key.to_string(), value }
}

fn entry(id: u64, amount: u64) -> Json {
    Json::Object(vec![
        member("amount", Json::Unsigned(amount)),
        member("id", Json::Unsigned(id)),
    ])
}

fn transaction(inputs: &[(u64, u64)], outputs: &[(u64, u64)]) -> Json {
    Json::Object(vec![
        member("inputs", Json::Array(inputs.iter().map(|e| entry(e.0, e.1)).collect())),
        member("outputs", Json::Array(outputs.iter().map(|e| entry(e.0, e.1)).collect())),
    ])
}

fn record(predecessor: &str, transactions: Vec<Json>, difficulty: u64, nonce: u64, hash: &str) -> Json {
    Json::Object(vec![
        member("difficulty", Json::Unsigned(difficulty)),
        member("hash", Json::Text(hash.to_string())),
        member("nonce", Json::Unsigned(nonce)),
        member("predecessor", Json::Text(predecessor.to_string())),
        member("transactions", Json::Array(transactions)),
    ])
}

fn active_engine() -> Engine {
    let mut engine = Engine::new();
    assert_eq!(engine.init(&record("", vec![], 0, 0, INIT_HASH)), Ok(()));
    engine
}

fn state_of(engine: &Engine) -> State {
    match engine.query("state") {
        Ok(Answer::State(state)) => state,
        other => panic!("no state: {:?}", other),
    }
}

fn heads_of(engine: &Engine) -> Vec<Head> {
    match engine.query("heads") {
        Ok(Answer::Heads(heads)) => heads,
        other => panic!("no heads: {:?}", other),
    }
}

#[test]
fn a_block_before_the_first_record_is_turned_down() {
    let mut engine = Engine::new();
    let block = record("", vec![], 0, 1, B1A_HASH);
    assert_eq!(engine.block(&block), Err(Rejection::UninitializedError));
    assert!(!engine.is_active());
    assert_eq!(engine.init(&record("", vec![], 0, 0, INIT_HASH)), Ok(()));
    assert_eq!(state_of(&engine).height, 0);
}

#[test]
fn a_query_before_the_first_record_is_turned_down() {
    let engine = Engine::new();
    assert_eq!(engine.query("state"), Err(Rejection::UninitializedError));
    assert_eq!(engine.query("heads"), Err(Rejection::UninitializedError));
}

#[test]
fn a_query_for_anything_else_is_invalid() {
    let engine = Engine::new();
    assert_eq!(engine.query("blocks"), Err(Rejection::InvalidQueryError));
    let engine = active_engine();
    assert_eq!(engine.query("blocks"), Err(Rejection::InvalidQueryError));
    assert_eq!(engine.query("State"), Err(Rejection::InvalidQueryError));
    assert_eq!(engine.query(""), Err(Rejection::InvalidQueryError));
}

#[test]
fn a_second_first_record_is_turned_down() {
    let mut engine = active_engine();
    assert_eq!(
        engine.init(&record("", vec![], 0, 0, INIT_HASH)),
        Err(Rejection::AlreadyInitializedError)
    );
    assert!(engine.is_active());
    assert_eq!(state_of(&engine).height, 0);
    assert_eq!(heads_of(&engine).len(), 1);
}

#[test]
fn a_first_record_that_fails_leaves_the_engine_waiting() {
    let mut engine = Engine::new();
    assert_eq!(engine.init(&record("", vec![], 0, 1, B1A_HASH)), Err(Rejection::SchemaError));
    assert_eq!(engine.init(&record("", vec![], 1, 0, D1_HASH)), Err(Rejection::SchemaError));
    assert_eq!(engine.init(&record("", vec![], 0, 0, B1_HASH)), Err(Rejection::HashMismatchError));
    assert!(!engine.is_active());
    assert_eq!(engine.init(&record("", vec![], 0, 0, INIT_HASH)), Ok(()));
    assert!(engine.is_active());
}

#[test]
fn the_first_record_leaves_the_outputs_empty() {
    let mut engine = Engine::new();
    let init = record("", vec![transaction(&[(1, 10)], &[(2, 10)])], 0, 0, B1_HASH);
    assert_eq!(engine.init(&init), Ok(()));
    let state = state_of(&engine);
    assert_eq!(state, State { height: 0, totalwork: 0, hash: String::new(), outputs: vec![] });
}

#[test]
fn an_accepted_block_is_kept_under_the_digest_of_its_content() {
    let mut engine = active_engine();
    let block = record("", vec![transaction(&[(1, 10)], &[(2, 10)])], 0, 0, B1_HASH);
    assert_eq!(engine.block(&block), Ok(()));
    assert_eq!(Some(state_of(&engine).hash), record_digest(&block));
    assert_eq!(heads_of(&engine)[0].hash, B1_HASH);
}

#[test]
fn a_hash_in_capitals_is_accepted_and_kept_in_small_letters() {
    let mut engine = active_engine();
    let block = record("", vec![], 0, 1, &B1A_HASH.to_uppercase());
    assert_eq!(engine.block(&block), Ok(()));
    assert_eq!(state_of(&engine).hash, B1A_HASH);
    // The same block in small letters is known already.
    let again = record("", vec![], 0, 1, B1A_HASH);
    assert_eq!(engine.block(&again), Err(Rejection::DuplicateBlockError));
}

#[test]
fn a_block_with_a_wrong_hash_is_turned_down() {
    let mut engine = active_engine();
    let block = record("", vec![], 0, 1, B1_HASH);
    assert_eq!(engine.block(&block), Err(Rejection::HashMismatchError));
    assert_eq!(state_of(&engine).height, 0);
}

#[test]
fn a_block_without_a_field_is_turned_down() {
    let mut engine = active_engine();
    let block = Json::Object(vec![
        member("hash", Json::Text(B1A_HASH.to_string())),
        member("nonce", Json::Unsigned(1)),
        member("predecessor", Json::Text(String::new())),
        member("transactions", Json::Array(vec![])),
    ]);
    assert_eq!(engine.block(&block), Err(Rejection::SchemaError));
    assert_eq!(engine.block(&Json::Null), Err(Rejection::SchemaError));
    assert_eq!(heads_of(&engine).len(), 1);
}

#[test]
fn an_accepted_block_handed_in_again_is_a_duplicate() {
    let mut engine = active_engine();
    let block = record("", vec![transaction(&[(1, 10)], &[(2, 10)])], 0, 0, B1_HASH);
    assert_eq!(engine.block(&block), Ok(()));
    let state = state_of(&engine);
    let heads = heads_of(&engine);
    assert_eq!(engine.block(&block), Err(Rejection::DuplicateBlockError));
    assert_eq!(state_of(&engine), state);
    assert_eq!(heads_of(&engine), heads);
    // And again, after the chain has grown.
    assert_eq!(engine.block(&record("", vec![], 0, 1, B1A_HASH)), Ok(()));
    assert_eq!(engine.block(&block), Err(Rejection::DuplicateBlockError));
}

#[test]
fn a_block_out_of_balance_is_turned_down_and_changes_nothing() {
    let mut engine = active_engine();
    let block = record(
        "",
        vec![transaction(&[(1, 10)], &[(2, 9)])],
        0,
        0,
        "0x104c0f2cfee4445b5130b8fb97d0857b6c1d7bdf75baf705bd95314a56aebcda",
    );
    let state = state_of(&engine);
    let heads = heads_of(&engine);
    assert_eq!(engine.block(&block), Err(Rejection::BalanceError));
    assert_eq!(state_of(&engine), state);
    assert_eq!(heads_of(&engine), heads);
}

#[test]
fn a_block_whose_transactions_balance_only_together_is_turned_down() {
    let mut engine = active_engine();
    let block = record(
        "",
        vec![transaction(&[(1, 10)], &[(2, 5)]), transaction(&[(3, 5)], &[(4, 10)])],
        0,
        0,
        "0x8c9c1c90ae744f7a21d60d02ad18b8e4e0cd0389a576b19ab7c1a2c5dab1cbab",
    );
    assert_eq!(engine.block(&block), Err(Rejection::BalanceError));
}

#[test]
fn a_block_with_malformed_amounts_is_turned_down_for_its_balance() {
    let mut engine = active_engine();
    let negative = Json::Object(vec![
        member(
            "inputs",
            Json::Array(vec![Json::Object(vec![
                member("amount", Json::Signed(-1)),
                member("id", Json::Unsigned(1)),
            ])]),
        ),
        member(
            "outputs",
            Json::Array(vec![Json::Object(vec![
                member("amount", Json::Signed(-1)),
                member("id", Json::Unsigned(2)),
            ])]),
        ),
    ]);
    let block = record(
        "",
        vec![negative],
        0,
        0,
        "0xcdb58a0a9b76fb562d1e4d33e4a505a87219122071216f4707be06b7c5c47fea",
    );
    assert_eq!(engine.block(&block), Err(Rejection::BalanceError));
    let words = Json::Object(vec![
        member(
            "inputs",
            Json::Array(vec![Json::Object(vec![
                member("amount", Json::Text("10".to_string())),
                member("id", Json::Unsigned(1)),
            ])]),
        ),
        member(
            "outputs",
            Json::Array(vec![Json::Object(vec![
                member("amount", Json::Text("10".to_string())),
                member("id", Json::Unsigned(2)),
            ])]),
        ),
    ]);
    let block = record(
        "",
        vec![words],
        0,
        0,
        "0x00d3f060c045a2c64b1750413f14d4bf377654f53f6e3d9aea6f3d5dd066ccf0",
    );
    assert_eq!(engine.block(&block), Err(Rejection::BalanceError));
    let block = record(
        "",
        vec![Json::Unsigned(5)],
        0,
        0,
        "0xcf2d52dc1244fb4eaed53e8fba976ac34c005bda14651f87a04375d44c76746e",
    );
    assert_eq!(engine.block(&block), Err(Rejection::BalanceError));
    assert_eq!(state_of(&engine).height, 0);
}

#[test]
fn a_transaction_of_nothing_balances() {
    let mut engine = active_engine();
    let block = record(
        "",
        vec![transaction(&[], &[])],
        0,
        0,
        "0xf8ec67622e880bba5434a965bfcc5645c7681b8335bc738bb039dcdadb7da099",
    );
    assert_eq!(engine.block(&block), Ok(()));
    assert_eq!(state_of(&engine).height, 1);
}

#[test]
fn a_block_of_lower_difficulty_than_its_predecessor_is_turned_down() {
    let mut engine = active_engine();
    assert_eq!(engine.block(&record("", vec![], 1, 0, D1_HASH)), Ok(()));
    let state = state_of(&engine);
    assert_eq!((state.height, state.totalwork), (1, 16));
    let lower = record(
        D1_HASH,
        vec![],
        0,
        0,
        "0xc5726d81b59f52b8aa41c777e0bdc25edd908ced3685612d767ceb556f7de157",
    );
    assert_eq!(engine.block(&lower), Err(Rejection::DifficultyRegressionError));
    assert_eq!(state_of(&engine), state);
}

#[test]
fn a_block_must_clear_the_difficulty_of_its_predecessor() {
    let mut engine = active_engine();
    assert_eq!(engine.block(&record("", vec![], 1, 0, D1_HASH)), Ok(()));
    let no_zero = record(
        D1_HASH,
        vec![],
        1,
        0,
        "0x93ef8cf8a0b21354f3d31c05b92bfeab813e7decb0f42771358f50d2381cddee",
    );
    assert_eq!(engine.block(&no_zero), Err(Rejection::ProofOfWorkError));
    assert_eq!(state_of(&engine).height, 1);
    let one_zero = record(
        D1_HASH,
        vec![],
        1,
        6,
        "0x0d929c9ce2a81a9caef2faec97e097f999ccb80b9e98c55e4a5ee04a9751ef56",
    );
    assert_eq!(engine.block(&one_zero), Ok(()));
    let state = state_of(&engine);
    assert_eq!((state.height, state.totalwork), (2, 32));
}

#[test]
fn the_threshold_is_the_difficulty_of_the_predecessor_not_the_block_s_own() {
    let mut engine = active_engine();
    let heavy = "0xc66e2601732de8a363173ce160e9d3cffe9e473034f7048c6ae1fa6808baf9c4";
    // Behind the genesis sentinel no zeros are asked for, whatever the
    // difficulty of the block.
    assert_eq!(engine.block(&record("", vec![], 2, 0, heavy)), Ok(()));
    assert_eq!(state_of(&engine).totalwork, 256);
    // Behind a block of difficulty two, two zeros are asked for.
    let one_zero = record(
        heavy,
        vec![],
        2,
        8,
        "0x02e2bffc2e76f811868f887386501aea094590da41f0ddd217026aebb2595a8c",
    );
    assert_eq!(engine.block(&one_zero), Err(Rejection::ProofOfWorkError));
    let two_zeros = record(
        heavy,
        vec![],
        2,
        127,
        "0x00812d8fd5716ab447b3c510f9341c8415910cb35022ae3764841f7b82305c3f",
    );
    assert_eq!(engine.block(&two_zeros), Ok(()));
    let state = state_of(&engine);
    assert_eq!((state.height, state.totalwork), (2, 512));
}

#[test]
fn a_block_consumes_what_an_earlier_block_produced() {
    let mut engine = active_engine();
    let first = record("", vec![transaction(&[(1, 10)], &[(2, 10)])], 0, 0, B1_HASH);
    assert_eq!(engine.block(&first), Ok(()));
    let second = record(
        B1_HASH,
        vec![transaction(&[(2, 10)], &[(3, 10)])],
        0,
        0,
        "0xce3af81e3ec298df2447466daba88c6d3a8a14942e23d77c1b221ea2ed218318",
    );
    assert_eq!(engine.block(&second), Ok(()));
    let state = state_of(&engine);
    assert_eq!(state.height, 2);
    assert_eq!(state.outputs, vec![init_input(3, 10)]);
}

#[test]
fn only_the_first_transaction_of_a_block_reaches_the_outputs() {
    let mut engine = active_engine();
    let block = record(
        "",
        vec![transaction(&[(1, 10)], &[(2, 10)]), transaction(&[(3, 5)], &[(4, 5)])],
        0,
        0,
        "0x7558e1f7cc759c6283d3235628864394bdaabf62f4726f4d6377694ac2186872",
    );
    assert_eq!(engine.block(&block), Ok(()));
    assert_eq!(state_of(&engine).outputs, vec![init_input(2, 10)]);
}

#[test]
fn a_longer_branch_takes_over() {
    let mut engine = active_engine();
    let heavy = "0xc66e2601732de8a363173ce160e9d3cffe9e473034f7048c6ae1fa6808baf9c4";
    assert_eq!(engine.block(&record("", vec![], 2, 0, heavy)), Ok(()));
    assert_eq!(engine.block(&record("", vec![], 0, 1, B1A_HASH)), Ok(()));
    let next = "0xaa228ba30e2cf878514cd686244e82b86bcbb88e298305b8787eac74295da284";
    assert_eq!(engine.block(&record(B1A_HASH, vec![], 0, 0, next)), Ok(()));
    let state = state_of(&engine);
    assert_eq!((state.height, state.totalwork, state.hash.as_str()), (2, 2, next));
    assert_eq!(
        heads_of(&engine),
        vec![
            Head { height: 1, totalwork: 256, hash: heavy.to_string() },
            Head { height: 2, totalwork: 2, hash: next.to_string() },
        ]
    );
}

#[test]
fn a_block_whose_work_is_beyond_128_bits_has_no_room() {
    let engine = active_engine();
    let too_much = record(
        "",
        vec![],
        32,
        0,
        "0xf737cfc2ac907a8fd07dccf95559298e39d02097b161ffca9e11599a5ec6eb08",
    );
    assert!(!engine.has_room(&too_much));
    let chain = Blockchain::new();
    assert!(!has_room(&too_much, &chain));
    // A record that names no known predecessor, or no difficulty, is not in
    // the way.
    assert!(engine.has_room(&record("0xdeadbeef", vec![], 32, 0, "")));
    assert!(engine.has_room(&Json::Null));
    assert!(engine.has_room(&record("", vec![], 4294967296, 0, "")));
}

#[test]
fn the_greatest_work_that_fits_is_taken() {
    let mut engine = active_engine();
    let block = record(
        "",
        vec![],
        31,
        0,
        "0x59aca05acba65a33bfd479e7f0de583dac4d067ed277bc6232add3afd6bcd092",
    );
    assert!(engine.has_room(&block));
    assert_eq!(engine.block(&block), Ok(()));
    assert_eq!(state_of(&engine).totalwork, 21267647932558653966460912964485513216);
}

#[test]
fn handle_block_turns_down_what_the_engine_turns_down() {
    let mut chain = Blockchain::new();
    assert_eq!(
        handle_block(&record("0xdeadbeef", vec![], 0, 0, "0x29d6abda851ffdf4fb150c3831c690702837616c4db24cf739e6c3737d20f67f"), &mut chain),
        Err(Rejection::OrphanBlockError)
    );
    assert_eq!(handle_block(&record("", vec![], 0, 1, B1A_HASH), &mut chain), Ok(()));
    assert_eq!(
        handle_block(&record("", vec![], 0, 1, B1A_HASH), &mut chain),
        Err(Rejection::DuplicateBlockError)
    );
}

#[test]
fn every_reason_has_its_words() {
    assert_eq!(Rejection::SchemaError.message(), "a field is missing or of the wrong kind");
    assert_eq!(Rejection::HashMismatchError.message(), "hash invalid");
    assert_eq!(Rejection::OrphanBlockError.message(), "no predecessor found");
    assert_eq!(Rejection::DuplicateBlockError.message(), "duplicate hash");
    assert_eq!(Rejection::DifficultyRegressionError.message(), "difficulty must not decrease");
    assert_eq!(
        Rejection::ProofOfWorkError.message(),
        "leading zeroes in block hash did not match difficulty"
    );
    assert_eq!(Rejection::BalanceError.message(), "invalid transaction");
    assert_eq!(Rejection::UninitializedError.message(), "must initialise first");
    assert_eq!(Rejection::AlreadyInitializedError.message(), "already initialised");
    assert_eq!(Rejection::InvalidQueryError.message(), "invalid query");
}

#[test]
fn try_block_takes_what_fits_and_leaves_what_does_not() {
    let mut engine = active_engine();
    let too_much = record(
        "",
        vec![],
        32,
        0,
        "0xf737cfc2ac907a8fd07dccf95559298e39d02097b161ffca9e11599a5ec6eb08",
    );
    assert_eq!(engine.try_block(&too_much), None);
    assert_eq!(state_of(&engine).height, 0);
    assert_eq!(engine.try_block(&record("", vec![], 0, 1, B1A_HASH)), Some(Ok(())));
    assert_eq!(
        engine.try_block(&record("", vec![], 0, 1, B1A_HASH)),
        Some(Err(Rejection::DuplicateBlockError))
    );
    assert_eq!(state_of(&engine).height, 1);
    let mut waiting = Engine::new();
    assert_eq!(waiting.try_block(&too_much), Some(Err(Rejection::UninitializedError)));
}

#[test]
fn try_handle_block_takes_what_fits_and_leaves_what_does_not() {
    let mut chain = Blockchain::new();
    let too_much = record(
        "",
        vec![],
        32,
        0,
        "0xf737cfc2ac907a8fd07dccf95559298e39d02097b161ffca9e11599a5ec6eb08",
    );
    assert_eq!(try_handle_block(&too_much, &mut chain), None);
    assert_eq!(try_handle_block(&record("", vec![], 0, 1, B1A_HASH), &mut chain), Some(Ok(())));
}
