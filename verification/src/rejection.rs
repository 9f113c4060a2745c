//! The reasons for which the engine turns an operation down.

use vstd::prelude::*;

verus! {

/// Why an operation was turned down. Each leaves the engine as it was.
#[derive(Debug, Clone, Copy, PartialEq, Eq, Structural)]
pub enum Rejection {
    /// A field of the record is missing or of the wrong kind.
    SchemaError,
    /// The hash that the record claims is not the digest of its content.
    HashMismatchError,
    /// The predecessor of the block is no known block.
    OrphanBlockError,
    /// The block is known already.
    DuplicateBlockError,
    /// The difficulty of the block is below that of its predecessor.
    DifficultyRegressionError,
    /// The hash of the block has too few leading zeros.
    ProofOfWorkError,
    /// A transaction of the block is malformed or does not balance.
    BalanceError,
    /// The engine has not been initialised.
    UninitializedError,
    /// The engine has been initialised before.
    AlreadyInitializedError,
    /// The query asks for nothing that the engine knows of.
    InvalidQueryError,
}

impl Rejection {
    /// The words that stand for a reason.
    pub open spec fn text(self) -> Seq<char> {
        match self {
            Rejection::SchemaError => "a field is missing or of the wrong kind"@,
            Rejection::HashMismatchError => "hash invalid"@,
            Rejection::OrphanBlockError => "no predecessor found"@,
            Rejection::DuplicateBlockError => "duplicate hash"@,
            Rejection::DifficultyRegressionError => "difficulty must not decrease"@,
            Rejection::ProofOfWorkError => "leading zeroes in block hash did not match difficulty"@,
            Rejection::BalanceError => "invalid transaction"@,
            Rejection::UninitializedError => "must initialise first"@,
            Rejection::AlreadyInitializedError => "already initialised"@,
            Rejection::InvalidQueryError => "invalid query"@,
        }
    }

    /// The words that stand for this reason.
    pub fn message(&self) -> (out: String)
        ensures
            out@ == self.text(),
    {
        match self {
            Rejection::SchemaError => "a field is missing or of the wrong kind".to_owned(),
            Rejection::HashMismatchError => "hash invalid".to_owned(),
            Rejection::OrphanBlockError => "no predecessor found".to_owned(),
            Rejection::DuplicateBlockError => "duplicate hash".to_owned(),
            Rejection::DifficultyRegressionError => "difficulty must not decrease".to_owned(),
            Rejection::ProofOfWorkError => "leading zeroes in block hash did not match difficulty".to_owned(),
            Rejection::BalanceError => "invalid transaction".to_owned(),
            Rejection::UninitializedError => "must initialise first".to_owned(),
            Rejection::AlreadyInitializedError => "already initialised".to_owned(),
            Rejection::InvalidQueryError => "invalid query".to_owned(),
        }
    }
}

} // verus!
