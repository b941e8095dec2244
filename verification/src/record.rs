//! The decoded creation event and its mathematical model.

use vstd::prelude::*;

verus! {

/// What a creation event is, as mathematical values.
pub struct CreateRecord {
    pub signature: Seq<char>,
    pub mint_address: Seq<char>,
    pub creator_address: Seq<char>,
    pub slot: u64,
    pub is_create_v2: bool,
}

/// A creation event decoded from one upstream transaction frame.
#[derive(Debug, Clone, PartialEq, Eq)]
pub struct CreateTransaction {
    /// Base58 text of the transaction signature.
    pub signature: String,
    /// Text of the newly minted token's account key.
    pub mint_address: String,
    /// Base58 text of the transaction's first account key.
    pub creator_address: String,
    /// The upstream ordering position at which the transaction was seen.
    pub slot: u64,
    /// Whether the second version of the creation instruction was logged.
    pub is_create_v2: bool,
}

impl CreateRecord {
    /// None of the three texts is empty.
    pub open spec fn has_texts(self) -> bool {
        &&& self.signature.len() > 0
        &&& self.mint_address.len() > 0
        &&& self.creator_address.len() > 0
    }
}

impl View for CreateTransaction {
    type V = CreateRecord;

    open spec fn view(&self) -> CreateRecord {
        CreateRecord {
            signature: self.signature@,
            mint_address: self.mint_address@,
            creator_address: self.creator_address@,
            slot: self.slot,
            is_create_v2: self.is_create_v2,
        }
    }
}

} // verus!
