//! A resolved, navigable view over decoded Solana block records.
//!
//! A block arrives as an ordered list of transactions, each carrying a
//! compiled instruction tree and post-execution metadata. This crate
//! distinguishes successful transactions from failed ones, resolves account
//! indices into concrete addresses, and flattens the two-level instruction
//! tree into a deterministic depth-first traversal.

use vstd::prelude::*;

/// Account addresses.
pub mod address;
/// Base58 encoding and decoding helpers.
pub mod base58;
/// Views over blocks, transactions and instructions.
pub mod block_view;
/// The decoded block record types.
pub mod pb;

use address::Address;
use base58::base58_of;
use pb::{CompiledInstruction, ConfirmedTransaction, InnerInstruction, Transaction};

verus! {

/// A data-integrity fault found while resolving or traversing a transaction.
#[derive(Debug, Clone, Copy, PartialEq, Eq, Structural)]
pub enum ViewError {
    /// An instruction referenced an account index beyond all three address
    /// pools; carries the offending index and the pool sizes.
    IndexOutOfRange {
        index: u32,
        account_keys_len: usize,
        loaded_writable_len: usize,
        loaded_readonly_len: usize,
    },
    /// A record that the protocol guarantees was absent: a confirmed
    /// transaction without its transaction, or a transaction without its
    /// message.
    MissingRequiredStructure,
}

/// The read interface shared by the two instruction shapes, so that callers
/// can work on one instruction type instead of branching on
/// [`CompiledInstruction`] versus [`InnerInstruction`].
pub trait Instruction {
    /// The index of the instruction's program id in the unified address pool.
    spec fn spec_program_id_index(&self) -> u32;

    /// The unresolved account indices of the instruction.
    spec fn spec_accounts(&self) -> Seq<u8>;

    /// The instruction's opaque data bytes.
    spec fn spec_data(&self) -> Seq<u8>;

    /// The recorded stack depth, when the shape carries one.
    spec fn spec_stack_height(&self) -> Option<u32>;

    /// Returns the index of the program id in the unified address pool.
    fn program_id_index(&self) -> (r: u32)
        ensures
            r == self.spec_program_id_index(),
    ;

    /// Returns the indices of the accounts that the instruction names. Those
    /// are not resolved addresses but positions in the unified address pool.
    fn accounts(&self) -> (r: &Vec<u8>)
        ensures
            r@ == self.spec_accounts(),
    ;

    /// Returns the instruction's opaque data bytes.
    fn data(&self) -> (r: &Vec<u8>)
        ensures
            r@ == self.spec_data(),
    ;

    /// Returns the recorded stack depth: always `None` for a compiled
    /// instruction (the shape has no such field and sits at depth zero), and
    /// whatever the record carries for an inner instruction.
    fn stack_height(&self) -> (r: Option<u32>)
        ensures
            r == self.spec_stack_height(),
    ;
}

impl Instruction for CompiledInstruction {
    open spec fn spec_program_id_index(&self) -> u32 {
        self.program_id_index
    }

    open spec fn spec_accounts(&self) -> Seq<u8> {
        self.accounts@
    }

    open spec fn spec_data(&self) -> Seq<u8> {
        self.data@
    }

    open spec fn spec_stack_height(&self) -> Option<u32> {
        None
    }

    fn program_id_index(&self) -> (r: u32) {
        self.program_id_index
    }

    fn accounts(&self) -> (r: &Vec<u8>) {
        &self.accounts
    }

    fn data(&self) -> (r: &Vec<u8>) {
        &self.data
    }

    fn stack_height(&self) -> (r: Option<u32>) {
        None
    }
}

impl Instruction for InnerInstruction {
    open spec fn spec_program_id_index(&self) -> u32 {
        self.program_id_index
    }

    open spec fn spec_accounts(&self) -> Seq<u8> {
        self.accounts@
    }

    open spec fn spec_data(&self) -> Seq<u8> {
        self.data@
    }

    open spec fn spec_stack_height(&self) -> Option<u32> {
        self.stack_height
    }

    fn program_id_index(&self) -> (r: u32) {
        self.program_id_index
    }

    fn accounts(&self) -> (r: &Vec<u8>) {
        &self.accounts
    }

    fn data(&self) -> (r: &Vec<u8>) {
        &self.data
    }

    fn stack_height(&self) -> (r: Option<u32>) {
        self.stack_height
    }
}

impl ConfirmedTransaction {
    /// The error that resolving `index` in this transaction's address pool
    /// reports when the index falls beyond all three pools.
    pub open spec fn spec_oob_error(self, index: u32) -> ViewError {
        ViewError::IndexOutOfRange {
            index: index,
            account_keys_len: self.spec_account_keys().len() as usize,
            loaded_writable_len: self.spec_loaded_writable().len() as usize,
            loaded_readonly_len: self.spec_loaded_readonly().len() as usize,
        }
    }

    /// Resolves an index in the unified address pool: account keys first,
    /// then the loaded-writable addresses, then the loaded-readonly ones.
    pub(crate) fn resolve_index<'a>(&'a self, index: usize) -> (r: Result<
        Address<'a>,
        ViewError,
    >)
        requires
            index <= u32::MAX,
        ensures
            r is Ok <==> self.has_message() && index < self.spec_address_pool().len(),
            r matches Ok(a) ==> a.0@ == self.spec_address_pool()[index as int],
            !self.has_message() ==> r == Err::<Address<'a>, ViewError>(
                ViewError::MissingRequiredStructure,
            ),
            self.has_message() && index >= self.spec_address_pool().len() ==> r == Err::<
                Address<'a>,
                ViewError,
            >(self.spec_oob_error(index as u32)),
    {
        let trx = match &self.transaction {
            Some(t) => t,
            None => {
                return Err(ViewError::MissingRequiredStructure);
            },
        };
        let message = match &trx.message {
            Some(m) => m,
            None => {
                return Err(ViewError::MissingRequiredStructure);
            },
        };
        let keys_len = message.account_keys.len();
        if index < keys_len {
            return Ok(Address(&message.account_keys[index]));
        }
        let i = index - keys_len;
        match &self.meta {
            Some(meta) => {
                let writable_len = meta.loaded_writable_addresses.len();
                if i < writable_len {
                    return Ok(Address(&meta.loaded_writable_addresses[i]));
                }
                let j = i - writable_len;
                if j < meta.loaded_readonly_addresses.len() {
                    return Ok(Address(&meta.loaded_readonly_addresses[j]));
                }
                Err(
                    ViewError::IndexOutOfRange {
                        index: index as u32,
                        account_keys_len: keys_len,
                        loaded_writable_len: writable_len,
                        loaded_readonly_len: meta.loaded_readonly_addresses.len(),
                    },
                )
            },
            None => Err(
                ViewError::IndexOutOfRange {
                    index: index as u32,
                    account_keys_len: keys_len,
                    loaded_writable_len: 0,
                    loaded_readonly_len: 0,
                },
            ),
        }
    }

    /// Returns the address at `index` in the unified address pool: the
    /// account keys, then the loaded-writable addresses, then the
    /// loaded-readonly addresses. An index beyond all three pools is a
    /// data-integrity fault reported as [`ViewError::IndexOutOfRange`].
    pub fn account_at<'a>(&'a self, index: u8) -> (r: Result<Address<'a>, ViewError>)
        ensures
            r is Ok <==> self.has_message() && index < self.spec_address_pool().len(),
            r matches Ok(a) ==> a.0@ == self.spec_address_pool()[index as int],
            !self.has_message() ==> r == Err::<Address<'a>, ViewError>(
                ViewError::MissingRequiredStructure,
            ),
            self.has_message() && index >= self.spec_address_pool().len() ==> r == Err::<
                Address<'a>,
                ViewError,
            >(self.spec_oob_error(index as u32)),
    {
        self.resolve_index(index as usize)
    }

    /// Returns the whole resolved account list of the transaction: every
    /// address of the unified pool, in pool order, each borrowed from the
    /// record that owns it.
    pub fn resolved_accounts<'a>(&'a self) -> (r: Vec<&'a Vec<u8>>)
        requires
            self.has_message(),
        ensures
            r@.map_values(|a: &Vec<u8>| a@) == self.spec_address_pool(),
    {
        let message = self.transaction.as_ref().unwrap().message.as_ref().unwrap();
        let mut accounts: Vec<&'a Vec<u8>> = Vec::new();
        let keys_len = message.account_keys.len();
        let mut i: usize = 0;
        while i < keys_len
            invariant
                self.has_message(),
                message == self.spec_message(),
                keys_len == message.account_keys@.len(),
                0 <= i <= keys_len,
                accounts@.len() == i,
                forall|k: int| 0 <= k < i ==> accounts@[k]@ == self.spec_account_keys()[k],
            decreases keys_len - i,
        {
            accounts.push(&message.account_keys[i]);
            i = i + 1;
        }
        match &self.meta {
            Some(meta) => {
                let writable_len = meta.loaded_writable_addresses.len();
                let mut j: usize = 0;
                while j < writable_len
                    invariant
                        self.meta == Some(*meta),
                        writable_len == meta.loaded_writable_addresses@.len(),
                        0 <= j <= writable_len,
                        accounts@.len() == keys_len + j,
                        keys_len == self.spec_account_keys().len(),
                        forall|k: int|
                            0 <= k < keys_len ==> accounts@[k]@ == self.spec_account_keys()[k],
                        forall|k: int|
                            0 <= k < j ==> accounts@[keys_len + k]@
                                == self.spec_loaded_writable()[k],
                    decreases writable_len - j,
                {
                    accounts.push(&meta.loaded_writable_addresses[j]);
                    j = j + 1;
                }
                let readonly_len = meta.loaded_readonly_addresses.len();
                let mut k: usize = 0;
                while k < readonly_len
                    invariant
                        self.meta == Some(*meta),
                        readonly_len == meta.loaded_readonly_addresses@.len(),
                        0 <= k <= readonly_len,
                        accounts@.len() == keys_len + writable_len + k,
                        keys_len == self.spec_account_keys().len(),
                        writable_len == self.spec_loaded_writable().len(),
                        forall|m: int|
                            0 <= m < keys_len ==> accounts@[m]@ == self.spec_account_keys()[m],
                        forall|m: int|
                            0 <= m < writable_len ==> accounts@[keys_len + m]@
                                == self.spec_loaded_writable()[m],
                        forall|m: int|
                            0 <= m < k ==> accounts@[keys_len + writable_len + m]@
                                == self.spec_loaded_readonly()[m],
                    decreases readonly_len - k,
                {
                    accounts.push(&meta.loaded_readonly_addresses[k]);
                    k = k + 1;
                }
            },
            None => {},
        }
        proof {
            assert(accounts@.map_values(|a: &Vec<u8>| a@) =~= self.spec_address_pool());
        }
        accounts
    }

    /// The transaction's hash is present: the transaction record exists and
    /// its signature list is non-empty.
    pub open spec fn has_hash(self) -> bool {
        self.transaction is Some && self.transaction->Some_0.signatures@.len() > 0
    }

    /// Returns the transaction id as base58 text. Use [`Self::hash`] for the
    /// hash as a byte string.
    pub fn id(&self) -> (r: String)
        requires
            self.has_hash(),
        ensures
            r@ == base58_of(self.spec_transaction().signatures@[0]@),
    {
        self.transaction.as_ref().unwrap().id()
    }

    /// Returns the transaction's hash — its first signature — as a byte
    /// string. Use [`Self::id`] for the base58 text.
    pub fn hash<'a>(&'a self) -> (r: &'a Vec<u8>)
        requires
            self.has_hash(),
        ensures
            r@ == self.spec_transaction().signatures@[0]@,
    {
        self.transaction.as_ref().unwrap().hash()
    }
}

impl Transaction {
    /// Returns the transaction id — the base58 text of its first signature.
    /// Use [`Self::hash`] for the byte form.
    pub fn id(&self) -> (r: String)
        requires
            self.signatures@.len() > 0,
        ensures
            r@ == base58_of(self.signatures@[0]@),
    {
        base58::encode(self.hash())
    }

    /// Returns the transaction's hash: its first signature, as bytes. Use
    /// [`Self::id`] for the base58 text.
    pub fn hash<'a>(&'a self) -> (r: &'a Vec<u8>)
        requires
            self.signatures@.len() > 0,
        ensures
            r@ == self.signatures@[0]@,
    {
        &self.signatures[0]
    }
}

} // verus!
