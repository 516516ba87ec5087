//! The resolver's error taxonomy.

use vstd::prelude::*;

verus! {

/// A failure of the external template parser, preserved value for value.
#[derive(Debug, Clone, Copy, PartialEq, Eq, Structural)]
pub enum ParseError {
    /// The template nests variables deeper than the parser limit allows.
    DepthExceeded {
        /// The parser depth limit that was exceeded.
        limit: usize,
        /// The byte offset where the error occurred.
        offset: usize,
    },
    /// The template holds more nodes than the parser limit allows.
    NodeLimitExceeded {
        /// The parser node-count limit that was exceeded.
        limit: usize,
        /// The byte offset where the error occurred.
        offset: usize,
    },
    /// A `{{` was opened but never closed with `}}`.
    UnclosedVariable {
        /// The byte offset of the unclosed `{{`.
        offset: usize,
    },
    /// A variable tag was empty, e.g. `{{}}`.
    EmptyVariable {
        /// The byte offset of the empty variable tag.
        offset: usize,
    },
    /// Unbalanced tag nesting was detected.
    UnbalancedTag {
        /// The byte offset where the imbalance was detected.
        offset: usize,
    },
}

/// A terminal failure of one `resolve` call, carrying the limit or key that
/// triggered it.
#[derive(Debug)]
pub enum Error {
    /// The template parser rejected the template; its error is preserved.
    Parse(ParseError),
    /// A variable's key expression required resolution deeper than the limit.
    DepthExceeded {
        /// The depth limit that was exceeded.
        limit: usize,
    },
    /// An accumulator's length would have exceeded the limit after an append.
    SizeExceeded {
        /// The size limit that was exceeded.
        limit: usize,
    },
    /// A resolved key contains a `{` or `}` character.
    Injection {
        /// The key that was rejected.
        key: String,
    },
    /// A key had no value and the not-found policy is [`crate::NotFound::Error`].
    NotFound {
        /// The key that had no value.
        key: String,
    },
}

/// The mathematical content of an [`Error`]: every variant carries the
/// offending limit or key, a parse failure the parser's error unchanged.
pub ghost enum ErrS {
    /// The template parser rejected the template.
    Parse { err: ParseError },
    /// Resolution deeper than the limit was required.
    DepthExceeded { limit: int },
    /// An append would have exceeded the size limit.
    SizeExceeded { limit: int },
    /// A resolved key contains a delimiter character.
    Injection { key: Seq<char> },
    /// A key had no value under the erroring not-found policy.
    NotFound { key: Seq<char> },
}

/// The content of an error value.
pub open spec fn err_view(e: Error) -> ErrS {
    match e {
        Error::Parse(p) => ErrS::Parse { err: p },
        Error::DepthExceeded { limit } => ErrS::DepthExceeded { limit: limit as int },
        Error::SizeExceeded { limit } => ErrS::SizeExceeded { limit: limit as int },
        Error::Injection { key } => ErrS::Injection { key: key@ },
        Error::NotFound { key } => ErrS::NotFound { key: key@ },
    }
}

} // verus!
