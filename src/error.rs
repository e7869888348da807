use vstd::prelude::*;

verus! {

/// Why a query did not produce a value.
#[derive(Debug)]
pub enum QueryError {
    /// Malformed hex or scalar text; holds the text.
    InvalidInput(String),
    /// A bad endpoint or contract address at construction.
    InvalidConfiguration(String),
    /// The call returned no values.
    EmptyResponse,
    /// The call returned fewer values than its protocol guarantees, or a value
    /// outside the protocol's range.
    ProtocolMismatch,
    /// The transport or the node failed; holds its message.
    RemoteCallFailure(String),
    /// A bounded-time probe ran out of time.
    Timeout,
    /// The storage aggregate has not been set up on chain.
    NotInitialized,
    /// Every candidate storage address read zero; holds each address tried.
    AllCandidatesExhausted(Vec<String>),
}

} // verus!
