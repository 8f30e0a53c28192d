//! The decoded block record types.
//!
//! A block arrives fully decoded: an ordered list of confirmed transactions,
//! each made of the signed transaction (signatures and a message holding the
//! account pool and the compiled instructions) and optional post-execution
//! metadata (error indicator, loaded address pools, and the inner-instruction
//! groups keyed by the index of their parent compiled instruction).
//!
//! Everything here is immutable once constructed; the view layer only
//! borrows it.

use vstd::prelude::*;

verus! {

/// A top-level instruction of a transaction message. Its indices point into
/// the transaction's unified address pool; it has no stack-height field and
/// always sits at depth zero.
#[derive(Debug, Clone, PartialEq)]
pub struct CompiledInstruction {
    pub program_id_index: u32,
    pub accounts: Vec<u8>,
    pub data: Vec<u8>,
}

/// An instruction nested under a compiled instruction. Shaped like
/// [`CompiledInstruction`] plus an optional stack depth (absent in records
/// produced before the field existed).
#[derive(Debug, Clone, PartialEq)]
pub struct InnerInstruction {
    pub program_id_index: u32,
    pub accounts: Vec<u8>,
    pub data: Vec<u8>,
    pub stack_height: Option<u32>,
}

/// The inner instructions of one compiled instruction, in original order.
/// `index` is the position of the parent in the message's instruction list.
#[derive(Debug, Clone, PartialEq)]
pub struct InnerInstructions {
    pub index: u32,
    pub instructions: Vec<InnerInstruction>,
}

/// A transaction message: the account pool it signs over and its compiled
/// instructions.
#[derive(Debug, Clone, PartialEq)]
pub struct Message {
    pub account_keys: Vec<Vec<u8>>,
    pub instructions: Vec<CompiledInstruction>,
}

/// The error indicator of a failed transaction; its payload is opaque here.
#[derive(Debug, Clone, PartialEq)]
pub struct TransactionError {
    pub err: Vec<u8>,
}

/// Post-execution metadata of a transaction: error indicator, the two pools
/// of loaded addresses, and the inner-instruction groups.
#[derive(Debug, Clone, PartialEq)]
pub struct TransactionStatusMeta {
    pub err: Option<TransactionError>,
    pub inner_instructions: Vec<InnerInstructions>,
    pub loaded_writable_addresses: Vec<Vec<u8>>,
    pub loaded_readonly_addresses: Vec<Vec<u8>>,
}

/// A signed transaction: a non-empty signature list (the first signature is
/// the transaction's hash) and its message.
#[derive(Debug, Clone, PartialEq)]
pub struct Transaction {
    pub signatures: Vec<Vec<u8>>,
    pub message: Option<Message>,
}

/// A transaction as confirmed in a block: the transaction itself together
/// with its optional post-execution metadata.
#[derive(Debug, Clone, PartialEq)]
pub struct ConfirmedTransaction {
    pub transaction: Option<Transaction>,
    pub meta: Option<TransactionStatusMeta>,
}

/// One decoded block: its transactions in ledger order.
#[derive(Debug, Clone, PartialEq)]
pub struct Block {
    pub transactions: Vec<ConfirmedTransaction>,
}

/// The first inner-instruction group in `groups` whose `index` field equals
/// `top`, if any.
pub open spec fn spec_find_group(groups: Seq<InnerInstructions>, top: int) -> Option<InnerInstructions>
    decreases groups.len(),
{
    if groups.len() == 0 {
        None
    } else if groups[0].index as int == top {
        Some(groups[0])
    } else {
        spec_find_group(groups.drop_first(), top)
    }
}

impl ConfirmedTransaction {
    /// The transaction record is present.
    pub open spec fn has_transaction(self) -> bool {
        self.transaction is Some
    }

    pub open spec fn spec_transaction(self) -> Transaction {
        self.transaction->Some_0
    }

    /// Both the transaction record and its message are present.
    pub open spec fn has_message(self) -> bool {
        self.transaction is Some && self.transaction->Some_0.message is Some
    }

    pub open spec fn spec_message(self) -> Message {
        self.transaction->Some_0.message->Some_0
    }

    pub open spec fn spec_account_keys(self) -> Seq<Seq<u8>> {
        self.spec_message().account_keys@.map_values(|a: Vec<u8>| a@)
    }

    /// The loaded-writable address pool; empty when metadata is absent.
    pub open spec fn spec_loaded_writable(self) -> Seq<Seq<u8>> {
        match self.meta {
            Some(m) => m.loaded_writable_addresses@.map_values(|a: Vec<u8>| a@),
            None => Seq::empty(),
        }
    }

    /// The loaded-readonly address pool; empty when metadata is absent.
    pub open spec fn spec_loaded_readonly(self) -> Seq<Seq<u8>> {
        match self.meta {
            Some(m) => m.loaded_readonly_addresses@.map_values(|a: Vec<u8>| a@),
            None => Seq::empty(),
        }
    }

    /// The unified address pool of the transaction: account keys, then the
    /// loaded-writable addresses, then the loaded-readonly addresses.
    pub open spec fn spec_address_pool(self) -> Seq<Seq<u8>> {
        self.spec_account_keys() + self.spec_loaded_writable() + self.spec_loaded_readonly()
    }

    /// A transaction is successful exactly when its metadata is present and
    /// carries no error indicator.
    pub open spec fn spec_is_successful(self) -> bool {
        self.meta is Some && self.meta->Some_0.err is None
    }

    /// The inner-instruction groups recorded by the metadata; empty when
    /// metadata is absent.
    pub open spec fn spec_inner_groups(self) -> Seq<InnerInstructions> {
        match self.meta {
            Some(m) => m.inner_instructions@,
            None => Seq::empty(),
        }
    }

    /// The inner instructions of the compiled instruction at `top`, in
    /// stored order; empty when no group is recorded for `top`.
    pub open spec fn spec_inner_group(self, top: int) -> Seq<InnerInstruction> {
        match spec_find_group(self.spec_inner_groups(), top) {
            Some(g) => g.instructions@,
            None => Seq::empty(),
        }
    }
}

} // verus!
