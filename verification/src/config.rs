//! The fixed configuration of the relay and the subscription it asks for.

use vstd::prelude::*;
use vstd::string::*;
use crate::extract::option_text;
use crate::text::texts;

verus! {

/// The upstream endpoint.
pub const GRPC_ENDPOINT: &'static str = "https://fr.grpc.gadflynode.com:25565";

/// The authentication token for the upstream endpoint; empty for none.
pub const GRPC_TOKEN: &'static str = "";

/// The name under which the one transaction filter is registered.
pub const FILTER_NAME: &'static str = "pump_fun";

/// The address and port that local subscribers connect to.
pub const LISTEN_ADDRESS: &'static str = "0.0.0.0:8725";

/// The number of events that the hub keeps for slow subscribers.
pub const HUB_CAPACITY: usize = 10000;

/// How settled a transaction must be before upstream reports it.
#[derive(Debug, Clone, Copy, PartialEq, Eq)]
pub enum CommitmentLevel {
    /// As soon as the transaction has been processed.
    Processed,
    /// Once the cluster has confirmed it.
    Confirmed,
    /// Once it is final.
    Finalized,
}

/// Which transactions a subscription asks for.
#[derive(Debug, Clone, PartialEq, Eq)]
pub struct TransactionFilter {
    /// Whether vote transactions are wanted; none for either.
    pub vote: Option<bool>,
    /// Whether failed transactions are wanted; none for either.
    pub failed: Option<bool>,
    /// The one signature wanted; none for any.
    pub signature: Option<String>,
    /// Accounts of which a transaction must mention at least one.
    pub account_include: Vec<String>,
    /// Accounts of which a transaction must mention none.
    pub account_exclude: Vec<String>,
    /// Accounts all of which a transaction must mention.
    pub account_required: Vec<String>,
}

/// The one request that opens the subscription.
#[derive(Debug, Clone, PartialEq, Eq)]
pub struct SubscriptionRequest {
    /// The name of the transaction filter.
    pub filter_name: String,
    /// The transaction filter; the request holds no other filter.
    pub filter: TransactionFilter,
    /// The commitment level asked for.
    pub commitment: CommitmentLevel,
}

/// The request for the successful, non-vote transactions that mention the
/// given program, at the earliest commitment level.
pub fn subscription_request(program_id: &str) -> (request: SubscriptionRequest)
    ensures
        request.filter_name@ == FILTER_NAME@,
        texts(request.filter.account_include@) == seq![program_id@],
        request.filter.account_exclude@.len() == 0,
        request.filter.account_required@.len() == 0,
        request.filter.vote == Some(false),
        request.filter.failed == Some(false),
        request.filter.signature is None,
        request.commitment == CommitmentLevel::Processed,
{
    let mut account_include: Vec<String> = Vec::new();
    account_include.push(program_id.to_owned());
    assert(texts(account_include@) == seq![program_id@]);
    SubscriptionRequest {
        filter_name: FILTER_NAME.to_owned(),
        filter: TransactionFilter {
            vote: Some(false),
            failed: Some(false),
            signature: None,
            account_include,
            account_exclude: Vec::new(),
            account_required: Vec::new(),
        },
        commitment: CommitmentLevel::Processed,
    }
}

/// The token to attach to the upstream connection: none where the configured
/// token is empty.
pub fn auth_token(token: &str) -> (attached: Option<String>)
    ensures
        option_text(attached) == if token@.len() == 0 {
            None
        } else {
            Some(token@)
        },
{
    if token.is_empty() {
        None
    } else {
        Some(token.to_owned())
    }
}

} // verus!
