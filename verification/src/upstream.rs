//! The part of an upstream transaction frame that the relay reads.

use vstd::prelude::*;
use crate::text::texts;

verus! {

/// One token-balance entry of a transaction's metadata.
#[derive(Debug, Clone, PartialEq, Eq)]
pub struct TokenBalance {
    /// Text of the mint that the balance is held in.
    pub mint: String,
}

/// What executing a transaction left behind.
#[derive(Debug, Clone, PartialEq, Eq)]
pub struct TransactionMeta {
    /// The log lines, in the order they were written.
    pub log_messages: Vec<String>,
    /// Token balances before execution.
    pub pre_token_balances: Vec<TokenBalance>,
    /// Token balances after execution.
    pub post_token_balances: Vec<TokenBalance>,
}

/// The message of a transaction.
#[derive(Debug, Clone, PartialEq, Eq)]
pub struct TransactionMessage {
    /// The account keys, in message order.
    pub account_keys: Vec<Vec<u8>>,
}

/// A transaction as it was submitted.
#[derive(Debug, Clone, PartialEq, Eq)]
pub struct Transaction {
    /// The signatures, in order.
    pub signatures: Vec<Vec<u8>>,
    /// The message, if the frame carries one.
    pub message: Option<TransactionMessage>,
}

/// A transaction together with its signature and metadata.
#[derive(Debug, Clone, PartialEq, Eq)]
pub struct TransactionInfo {
    /// The signature bytes reported beside the transaction; may be empty.
    pub signature: Vec<u8>,
    /// The transaction, if the frame carries one.
    pub transaction: Option<Transaction>,
    /// The execution metadata, if the frame carries it.
    pub meta: Option<TransactionMeta>,
}

/// One transaction update of the upstream stream.
#[derive(Debug, Clone, PartialEq, Eq)]
pub struct UpstreamFrame {
    /// The transaction, if the update carries one.
    pub transaction: Option<TransactionInfo>,
    /// The slot the update was reported for.
    pub slot: u64,
}

/// The byte strings that a list of byte vectors holds, in order.
pub open spec fn byte_strings(vectors: Seq<Vec<u8>>) -> Seq<Seq<u8>> {
    Seq::new(vectors.len(), |i: int| vectors[i]@)
}

/// The mint texts of a list of token balances, in order.
pub open spec fn mint_texts(balances: Seq<TokenBalance>) -> Seq<Seq<char>> {
    Seq::new(balances.len(), |i: int| balances[i].mint@)
}

/// Model of [`TransactionMeta`].
pub struct MetaView {
    pub log_lines: Seq<Seq<char>>,
    pub pre_mints: Seq<Seq<char>>,
    pub post_mints: Seq<Seq<char>>,
}

/// Model of [`Transaction`]; the message is its list of account keys.
pub struct TransactionView {
    pub signatures: Seq<Seq<u8>>,
    pub account_keys: Option<Seq<Seq<u8>>>,
}

/// Model of [`TransactionInfo`].
pub struct InfoView {
    pub signature: Seq<u8>,
    pub transaction: Option<TransactionView>,
    pub meta: Option<MetaView>,
}

/// Model of [`UpstreamFrame`].
pub struct FrameView {
    pub info: Option<InfoView>,
    pub slot: u64,
}

impl View for TransactionMeta {
    type V = MetaView;

    open spec fn view(&self) -> MetaView {
        MetaView {
            log_lines: texts(self.log_messages@),
            pre_mints: mint_texts(self.pre_token_balances@),
            post_mints: mint_texts(self.post_token_balances@),
        }
    }
}

impl View for Transaction {
    type V = TransactionView;

    open spec fn view(&self) -> TransactionView {
        TransactionView {
            signatures: byte_strings(self.signatures@),
            account_keys: match self.message {
                Some(message) => Some(byte_strings(message.account_keys@)),
                None => None,
            },
        }
    }
}

impl View for TransactionInfo {
    type V = InfoView;

    open spec fn view(&self) -> InfoView {
        InfoView {
            signature: self.signature@,
            transaction: match self.transaction {
                Some(transaction) => Some(transaction@),
                None => None,
            },
            meta: match self.meta {
                Some(meta) => Some(meta@),
                None => None,
            },
        }
    }
}

impl View for UpstreamFrame {
    type V = FrameView;

    open spec fn view(&self) -> FrameView {
        FrameView {
            info: match self.transaction {
                Some(info) => Some(info@),
                None => None,
            },
            slot: self.slot,
        }
    }
}

} // verus!
