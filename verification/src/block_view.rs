//! Views over blocks, transactions and instructions.
//!
//! [`InstructionView`] is the per-instruction facade handed to callers: it
//! joins one instruction shape (top-level or inner) with the owning
//! transaction's address pool and the instruction's position in the tree.
//! The traversal engine, [`AllInstructionIterator`], flattens the two-level
//! instruction tree into the canonical depth-first order: each top-level
//! instruction immediately followed by its inner instructions in stored
//! order.

use crate::address::Address;
use crate::pb::{
    spec_find_group, Block, CompiledInstruction, ConfirmedTransaction, InnerInstruction,
    InnerInstructions, Message, Transaction, TransactionStatusMeta,
};
use crate::ViewError;
use vstd::prelude::*;

verus! {

/// The first inner-instruction group of `meta` recorded for the compiled
/// instruction at `top`, if any.
fn find_inner_group<'a>(meta: &'a TransactionStatusMeta, top: usize) -> (r: Option<
    &'a InnerInstructions,
>)
    ensures
        r matches Some(g) ==> spec_find_group(meta.inner_instructions@, top as int) == Some(*g),
        r is None ==> spec_find_group(meta.inner_instructions@, top as int) is None,
{
    let n = meta.inner_instructions.len();
    let mut i: usize = 0;
    proof {
        assert(meta.inner_instructions@.skip(0) =~= meta.inner_instructions@);
    }
    while i < n
        invariant
            n == meta.inner_instructions@.len(),
            0 <= i <= n,
            spec_find_group(meta.inner_instructions@, top as int) == spec_find_group(
                meta.inner_instructions@.skip(i as int),
                top as int,
            ),
            forall|j: int| 0 <= j < i ==> meta.inner_instructions@[j].index as int != top as int,
        decreases n - i,
    {
        let group = &meta.inner_instructions[i];
        proof {
            assert(meta.inner_instructions@.skip(i as int)[0] == meta.inner_instructions@[
                i as int
            ]);
            assert(meta.inner_instructions@.skip(i as int).drop_first()
                =~= meta.inner_instructions@.skip(i as int + 1));
        }
        if group.index as usize == top {
            return Some(group);
        }
        i = i + 1;
    }
    proof {
        assert(meta.inner_instructions@.skip(n as int) =~= Seq::<InnerInstructions>::empty());
    }
    None
}

/// A view over one instruction met while traversing a transaction: the
/// owning transaction together with the instruction's position — the index
/// of its top-level instruction, and, for an inner instruction, the index
/// inside that group.
#[derive(Debug, Clone, Copy)]
pub struct InstructionView<'a> {
    pub trx: &'a ConfirmedTransaction,
    pub top_index: usize,
    pub inner_index: Option<usize>,
}

impl<'a> InstructionView<'a> {
    /// The view points at an instruction that its transaction really holds.
    pub open spec fn wf(self) -> bool {
        &&& self.trx.has_message()
        &&& (self.top_index as int) < self.trx.spec_message().instructions@.len()
        &&& (self.inner_index matches Some(j) ==> (j as int) < self.trx.spec_inner_group(
            self.top_index as int,
        ).len())
    }

    /// The view's position in the instruction tree, as ghost integers.
    pub open spec fn spec_position(self) -> (int, Option<int>) {
        (
            self.top_index as int,
            match self.inner_index {
                Some(j) => Some(j as int),
                None => None,
            },
        )
    }

    /// The top-level instruction under which this view's instruction sits
    /// (the instruction itself when the view is a root).
    pub open spec fn spec_top_instruction(self) -> CompiledInstruction {
        self.trx.spec_message().instructions@[self.top_index as int]
    }

    /// The index of the viewed instruction's program id in the unified
    /// address pool.
    pub open spec fn spec_program_id_index(self) -> u32 {
        match self.inner_index {
            None => self.spec_top_instruction().program_id_index,
            Some(j) => self.trx.spec_inner_group(self.top_index as int)[j as int].program_id_index,
        }
    }

    /// The viewed instruction's unresolved account indices.
    pub open spec fn spec_account_indices(self) -> Seq<u8> {
        match self.inner_index {
            None => self.spec_top_instruction().accounts@,
            Some(j) => self.trx.spec_inner_group(self.top_index as int)[j as int].accounts@,
        }
    }

    /// The viewed instruction's opaque data bytes.
    pub open spec fn spec_data(self) -> Seq<u8> {
        match self.inner_index {
            None => self.spec_top_instruction().data@,
            Some(j) => self.trx.spec_inner_group(self.top_index as int)[j as int].data@,
        }
    }

    /// The viewed instruction's recorded stack depth: none for a top-level
    /// instruction (the shape has no such field), and whatever the record
    /// carries for an inner instruction.
    pub open spec fn spec_maybe_stack_height(self) -> Option<u32> {
        match self.inner_index {
            None => None,
            Some(j) => self.trx.spec_inner_group(self.top_index as int)[j as int].stack_height,
        }
    }

    /// A borrow of the view's top-level instruction record.
    fn top_instruction(&self) -> (r: &'a CompiledInstruction)
        requires
            self.wf(),
        ensures
            *r == self.spec_top_instruction(),
    {
        &self.trx.transaction.as_ref().unwrap().message.as_ref().unwrap().instructions[
            self.top_index
        ]
    }

    /// A borrow of the inner instruction at `j` of the view's group.
    fn inner_instruction_at(&self, j: usize) -> (r: &'a InnerInstruction)
        requires
            self.wf(),
            (j as int) < self.trx.spec_inner_group(self.top_index as int).len(),
        ensures
            *r == self.trx.spec_inner_group(self.top_index as int)[j as int],
    {
        proof {
            assert(self.trx.spec_inner_groups().len() > 0) by {
                if self.trx.spec_inner_groups().len() == 0 {
                    assert(spec_find_group(self.trx.spec_inner_groups(), self.top_index as int)
                        is None);
                }
            }
            assert(self.trx.meta is Some);
        }
        let meta = self.trx.meta.as_ref().unwrap();
        let group = find_inner_group(meta, self.top_index).unwrap();
        &group.instructions[j]
    }

    /// Returns the resolved program id of this instruction, as an address
    /// borrowed from the transaction's pools. A program-id index beyond the
    /// unified pool is a data-integrity fault reported as
    /// [`ViewError::IndexOutOfRange`].
    pub fn program_id(&self) -> (r: Result<Address<'a>, ViewError>)
        requires
            self.wf(),
        ensures
            r is Ok <==> (self.spec_program_id_index() as int) < self.trx.spec_address_pool().len(),
            r matches Ok(a) ==> a.0@ == self.trx.spec_address_pool()[
                self.spec_program_id_index() as int
            ],
            r matches Err(e) ==> e == self.trx.spec_oob_error(self.spec_program_id_index()),
    {
        let pid = match self.inner_index {
            None => self.top_instruction().program_id_index,
            Some(j) => self.inner_instruction_at(j).program_id_index,
        };
        self.trx.resolve_index(pid as usize)
    }

    /// Returns the resolved addresses of every account the instruction
    /// names, in the instruction's order. Resolution stops at the first
    /// account index beyond the unified pool, reported as
    /// [`ViewError::IndexOutOfRange`].
    pub fn accounts(&self) -> (r: Result<Vec<Address<'a>>, ViewError>)
        requires
            self.wf(),
        ensures
            r is Ok <==> (forall|k: int|
                0 <= k < self.spec_account_indices().len()
                    ==> (self.spec_account_indices()[k] as int)
                    < self.trx.spec_address_pool().len()),
            r matches Ok(v) ==> {
                &&& v@.len() == self.spec_account_indices().len()
                &&& (forall|k: int|
                    0 <= k < v@.len() ==> v@[k].0@ == self.trx.spec_address_pool()[
                        self.spec_account_indices()[k] as int
                    ])
            },
            r matches Err(e) ==> (exists|k: int|
                {
                    &&& 0 <= k < self.spec_account_indices().len()
                    &&& self.trx.spec_address_pool().len() <= self.spec_account_indices()[k] as int
                    &&& (forall|j: int|
                        0 <= j < k ==> (self.spec_account_indices()[j] as int)
                            < self.trx.spec_address_pool().len())
                    &&& e == self.trx.spec_oob_error(self.spec_account_indices()[k] as u32)
                }),
    {
        let indices: &Vec<u8> = match self.inner_index {
            None => &self.top_instruction().accounts,
            Some(j) => &self.inner_instruction_at(j).accounts,
        };
        let n = indices.len();
        let mut resolved: Vec<Address<'a>> = Vec::new();
        let mut i: usize = 0;
        while i < n
            invariant
                self.wf(),
                indices@ == self.spec_account_indices(),
                n == indices@.len(),
                0 <= i <= n,
                resolved@.len() == i,
                forall|k: int|
                    0 <= k < i ==> (indices@[k] as int) < self.trx.spec_address_pool().len(),
                forall|k: int|
                    0 <= k < i ==> resolved@[k].0@ == self.trx.spec_address_pool()[
                        indices@[k] as int
                    ],
            decreases n - i,
        {
            match self.trx.resolve_index(indices[i] as usize) {
                Ok(a) => {
                    resolved.push(a);
                },
                Err(e) => {
                    return Err(e);
                },
            }
            i = i + 1;
        }
        Ok(resolved)
    }

    /// Returns the viewed instruction's opaque data bytes.
    pub fn data(&self) -> (r: &'a Vec<u8>)
        requires
            self.wf(),
        ensures
            r@ == self.spec_data(),
    {
        match self.inner_index {
            None => &self.top_instruction().data,
            Some(j) => &self.inner_instruction_at(j).data,
        }
    }

    /// Returns the stack height of the instruction, or zero when the record
    /// carries none: top-level instructions always, and inner instructions
    /// produced before the field existed. Use [`Self::maybe_stack_height`]
    /// to tell a recorded zero from an absent one.
    pub fn stack_height(&self) -> (r: u32)
        requires
            self.wf(),
        ensures
            r == match self.spec_maybe_stack_height() {
                Some(h) => h,
                None => 0u32,
            },
            self.inner_index is None ==> r == 0,
    {
        match self.maybe_stack_height() {
            Some(h) => h,
            None => 0,
        }
    }

    /// Returns the recorded stack height, or `None` where the record carries
    /// none. See [`Self::stack_height`] for the defaulting form.
    pub fn maybe_stack_height(&self) -> (r: Option<u32>)
        requires
            self.wf(),
        ensures
            r == self.spec_maybe_stack_height(),
    {
        match self.inner_index {
            None => None,
            Some(j) => self.inner_instruction_at(j).stack_height,
        }
    }

    /// Returns true when the view shows a top-level (compiled) instruction,
    /// false when it shows an inner instruction.
    pub fn is_root(&self) -> (r: bool)
        ensures
            r == (self.inner_index is None),
    {
        self.inner_index.is_none()
    }

    /// The inner instruction at `at` under the compiled instruction that
    /// holds this view's instruction — a direct child of
    /// [`Self::compiled_instruction`]. Returns `None` when this view is not
    /// a root ([`Self::is_root`] is false) or when no inner instruction
    /// exists at `at`.
    pub fn inner_instruction(&self, at: usize) -> (r: Option<InstructionView<'a>>)
        requires
            self.wf(),
        ensures
            (self.inner_index is None && (at as int) < self.trx.spec_inner_group(
                self.top_index as int,
            ).len()) ==> (r matches Some(v) && {
                &&& v.trx == self.trx
                &&& v.top_index == self.top_index
                &&& v.inner_index == Some(at)
                &&& v.wf()
            }),
            (self.inner_index is Some || (at as int) >= self.trx.spec_inner_group(
                self.top_index as int,
            ).len()) ==> r is None,
    {
        if self.inner_index.is_some() {
            return None;
        }
        let group_len = match &self.trx.meta {
            Some(meta) => {
                match find_inner_group(meta, self.top_index) {
                    Some(group) => group.instructions.len(),
                    None => 0,
                }
            },
            None => 0,
        };
        if at < group_len {
            Some(InstructionView { trx: self.trx, top_index: self.top_index, inner_index: Some(at) })
        } else {
            None
        }
    }

    /// The inner instructions under the compiled instruction that holds this
    /// view's instruction, in stored order — the direct children of
    /// [`Self::compiled_instruction`]. Empty when this view is not a root
    /// ([`Self::is_root`] is false) or when no group is recorded.
    pub fn inner_instructions(&self) -> (r: Vec<InstructionView<'a>>)
        requires
            self.wf(),
        ensures
            self.inner_index is Some ==> r@.len() == 0,
            self.inner_index is None ==> r@.len() == self.trx.spec_inner_group(
                self.top_index as int,
            ).len(),
            forall|j: int|
                0 <= j < r@.len() ==> {
                    &&& r@[j].trx == self.trx
                    &&& r@[j].top_index == self.top_index
                    &&& r@[j].inner_index == Some(j as usize)
                    &&& r@[j].wf()
                },
    {
        let mut views: Vec<InstructionView<'a>> = Vec::new();
        if self.inner_index.is_some() {
            return views;
        }
        let group_len = match &self.trx.meta {
            Some(meta) => {
                match find_inner_group(meta, self.top_index) {
                    Some(group) => group.instructions.len(),
                    None => 0,
                }
            },
            None => 0,
        };
        let mut j: usize = 0;
        while j < group_len
            invariant
                self.wf(),
                group_len == self.trx.spec_inner_group(self.top_index as int).len(),
                0 <= j <= group_len,
                views@.len() == j,
                forall|k: int|
                    0 <= k < j ==> {
                        &&& views@[k].trx == self.trx
                        &&& views@[k].top_index == self.top_index
                        &&& views@[k].inner_index == Some(k as usize)
                        &&& views@[k].wf()
                    },
            decreases group_len - j,
        {
            views.push(
                InstructionView { trx: self.trx, top_index: self.top_index, inner_index: Some(j) },
            );
            j = j + 1;
        }
        views
    }

    /// The view of the compiled instruction under which this instruction was
    /// found: this view itself when [`Self::is_root`] is true, otherwise the
    /// parent top-level instruction at its own position.
    pub fn compiled_instruction(&self) -> (r: InstructionView<'a>)
        requires
            self.wf(),
        ensures
            r.trx == self.trx,
            r.top_index == self.top_index,
            r.inner_index is None,
            r.wf(),
    {
        InstructionView { trx: self.trx, top_index: self.top_index, inner_index: None }
    }

    /// The message of the transaction that holds this instruction.
    pub fn message(&self) -> (r: &'a Message)
        requires
            self.wf(),
        ensures
            *r == self.trx.spec_message(),
    {
        self.trx.transaction.as_ref().unwrap().message.as_ref().unwrap()
    }

    /// The metadata of the transaction that holds this instruction, when
    /// present.
    pub fn meta(&self) -> (r: Option<&'a TransactionStatusMeta>)
        ensures
            r matches Some(m) ==> self.trx.meta == Some(*m),
            r is None <==> self.trx.meta is None,
    {
        match &self.trx.meta {
            Some(m) => Some(m),
            None => None,
        }
    }

    /// The transaction record that holds this instruction.
    pub fn transaction(&self) -> (r: &'a Transaction)
        requires
            self.wf(),
        ensures
            *r == self.trx.spec_transaction(),
    {
        self.trx.transaction.as_ref().unwrap()
    }

    /// The confirmed transaction that holds this instruction.
    pub fn confirmed_transaction(&self) -> (r: &'a ConfirmedTransaction)
        ensures
            r == self.trx,
    {
        self.trx
    }
}

/// The positions of the inner instructions grouped under the top-level
/// instruction at `k`, in stored order.
pub open spec fn spec_inner_positions(trx: ConfirmedTransaction, k: int) -> Seq<(int, Option<int>)> {
    Seq::new(trx.spec_inner_group(k).len(), |j: int| (k, Some(j)))
}

/// The depth-first traversal positions of `trx` from top-level instruction
/// `k` on: each top-level instruction immediately followed by its inner
/// instructions in stored order.
pub open spec fn spec_walk_positions_from(trx: ConfirmedTransaction, k: int) -> Seq<
    (int, Option<int>),
>
    decreases trx.spec_message().instructions@.len() - k,
{
    if k < 0 || k >= trx.spec_message().instructions@.len() {
        Seq::empty()
    } else {
        seq![(k, None::<int>)] + spec_inner_positions(trx, k) + spec_walk_positions_from(trx, k + 1)
    }
}

/// The full depth-first traversal positions of a transaction.
pub open spec fn spec_walk_positions(trx: ConfirmedTransaction) -> Seq<(int, Option<int>)> {
    spec_walk_positions_from(trx, 0)
}

/// The traversal engine: walks one transaction's instruction tree in
/// depth-first order, one step per [`Self::next`] call.
///
/// The state names the next position to emit: at a top-level instruction
/// (`inner_index` is `None`), or inside the inner group of `top_index`
/// (`inner_index` is `Some`). The traversal is forward-only; to restart it,
/// build a fresh one.
#[derive(Debug, Clone, Copy)]
pub struct AllInstructionIterator<'a> {
    pub trx: &'a ConfirmedTransaction,
    pub top_index: usize,
    pub inner_index: Option<usize>,
}

impl<'a> AllInstructionIterator<'a> {
    /// The traversal state points into the transaction it walks.
    pub open spec fn wf(self) -> bool {
        &&& self.trx.has_message()
        &&& self.top_index as int <= self.trx.spec_message().instructions@.len()
        &&& (self.inner_index matches Some(j) ==> {
            &&& (self.top_index as int) < self.trx.spec_message().instructions@.len()
            &&& j as int <= self.trx.spec_inner_group(self.top_index as int).len()
        })
    }

    /// The positions the traversal has yet to emit, in emission order.
    pub open spec fn remaining(self) -> Seq<(int, Option<int>)> {
        match self.inner_index {
            None => spec_walk_positions_from(*self.trx, self.top_index as int),
            Some(j) => Seq::new(
                (self.trx.spec_inner_group(self.top_index as int).len() - j) as nat,
                |i: int| (self.top_index as int, Some(j + i)),
            ) + spec_walk_positions_from(*self.trx, self.top_index as int + 1),
        }
    }

    /// Emits the view at the traversal's current position and advances, or
    /// returns `None` once the traversal is exhausted.
    pub fn next(&mut self) -> (r: Option<InstructionView<'a>>)
        requires
            old(self).wf(),
        ensures
            final(self).wf(),
            final(self).trx == old(self).trx,
            old(self).remaining().len() == 0 ==> r is None && final(self).remaining() == old(
                self,
            ).remaining(),
            old(self).remaining().len() > 0 ==> (r matches Some(v) && {
                &&& v.trx == old(self).trx
                &&& v.wf()
                &&& v.spec_position() == old(self).remaining()[0]
                &&& final(self).remaining() == old(self).remaining().drop_first()
            }),
    {
        loop
            invariant
                self.wf(),
                self.trx == old(self).trx,
                self.remaining() == old(self).remaining(),
            decreases
                    2 * (self.trx.spec_message().instructions@.len() - self.top_index) + (
                    if self.inner_index is None {
                        1int
                    } else {
                        0int
                    }),
        {
            let ghost rem = self.remaining();
            let message = self.trx.transaction.as_ref().unwrap().message.as_ref().unwrap();
            let n = message.instructions.len();
            if self.top_index >= n {
                return None;
            }
            let ghost glen = self.trx.spec_inner_group(self.top_index as int).len() as int;
            match self.inner_index {
                None => {
                    let view = InstructionView {
                        trx: self.trx,
                        top_index: self.top_index,
                        inner_index: None,
                    };
                    self.inner_index = Some(0);
                    proof {
                        assert(self.remaining() =~= rem.drop_first());
                    }
                    return Some(view);
                },
                Some(j) => {
                    let group_len = match &self.trx.meta {
                        Some(meta) => {
                            match find_inner_group(meta, self.top_index) {
                                Some(group) => group.instructions.len(),
                                None => 0,
                            }
                        },
                        None => 0,
                    };
                    proof {
                        assert(group_len as int == glen);
                    }
                    if j < group_len {
                        let view = InstructionView {
                            trx: self.trx,
                            top_index: self.top_index,
                            inner_index: Some(j),
                        };
                        self.inner_index = Some(j + 1);
                        proof {
                            assert(self.remaining() =~= rem.drop_first());
                        }
                        return Some(view);
                    } else {
                        self.inner_index = None;
                        self.top_index = self.top_index + 1;
                        proof {
                            assert(self.remaining() =~= rem);
                        }
                    }
                },
            }
        }
    }

    /// Collects every view the traversal has yet to emit, in emission order.
    pub fn into_views(self) -> (r: Vec<InstructionView<'a>>)
        requires
            self.wf(),
        ensures
            r@.len() == self.remaining().len(),
            forall|i: int| 0 <= i < r@.len() ==> (#[trigger] r@[i]).wf(),
            forall|i: int| 0 <= i < r@.len() ==> (#[trigger] r@[i]).trx == self.trx,
            forall|i: int|
                0 <= i < r@.len() ==> (#[trigger] r@[i]).spec_position() == self.remaining()[i],
    {
        let mut it = self;
        let mut views: Vec<InstructionView<'a>> = Vec::new();
        proof {
            assert(self.remaining().skip(0) =~= self.remaining());
        }
        loop
            invariant
                it.wf(),
                it.trx == self.trx,
                views@.len() <= self.remaining().len(),
                it.remaining() == self.remaining().skip(views@.len() as int),
                forall|i: int| 0 <= i < views@.len() ==> (#[trigger] views@[i]).wf(),
                forall|i: int| 0 <= i < views@.len() ==> (#[trigger] views@[i]).trx == self.trx,
                forall|i: int|
                    0 <= i < views@.len() ==> (#[trigger] views@[i]).spec_position()
                        == self.remaining()[i],
            decreases it.remaining().len(),
        {
            let ghost rem_before = it.remaining();
            match it.next() {
                Some(view) => {
                    proof {
                        assert(rem_before[0] == self.remaining()[views@.len() as int]);
                        assert(rem_before.drop_first() =~= self.remaining().skip(
                            views@.len() as int + 1,
                        ));
                    }
                    views.push(view);
                },
                None => {
                    return views;
                },
            }
        }
    }
}

impl ConfirmedTransaction {
    /// Returns one view per compiled (top-level) instruction of the
    /// transaction, in message order. Use
    /// [`InstructionView::inner_instructions`] on a returned view to descend
    /// on demand, or [`Self::walk_instructions`] for the flattened
    /// traversal. A transaction whose transaction record or message is
    /// absent has no instructions to show; that is a data-integrity fault
    /// reported as [`ViewError::MissingRequiredStructure`].
    pub fn compiled_instructions<'a>(&'a self) -> (r: Result<Vec<InstructionView<'a>>, ViewError>)
        ensures
            r is Ok <==> self.has_message(),
            r matches Ok(v) ==> {
                &&& v@.len() == self.spec_message().instructions@.len()
                &&& (forall|i: int|
                    0 <= i < v@.len() ==> {
                        &&& (#[trigger] v@[i]).trx == self
                        &&& v@[i].top_index == i
                        &&& v@[i].inner_index is None
                        &&& v@[i].wf()
                    })
            },
            r matches Err(e) ==> e == ViewError::MissingRequiredStructure,
    {
        let mut views: Vec<InstructionView<'a>> = Vec::new();
        let trx = match &self.transaction {
            Some(t) => t,
            None => {
                return Err(ViewError::MissingRequiredStructure);
            },
        };
        let message = match &trx.message {
            Some(m) => m,
            None => {
                return Err(ViewError::MissingRequiredStructure);
            },
        };
        let n = message.instructions.len();
        let mut i: usize = 0;
        while i < n
            invariant
                self.has_message(),
                n == self.spec_message().instructions@.len(),
                0 <= i <= n,
                views@.len() == i,
                forall|k: int|
                    0 <= k < i ==> {
                        &&& views@[k].trx == self
                        &&& views@[k].top_index == k
                        &&& views@[k].inner_index is None
                        &&& views@[k].wf()
                    },
            decreases n - i,
        {
            views.push(InstructionView { trx: self, top_index: i, inner_index: None });
            i = i + 1;
        }
        Ok(views)
    }

    /// Starts the depth-first traversal of every instruction of the
    /// transaction: each compiled instruction, immediately followed by its
    /// inner instructions in stored order. A transaction whose transaction
    /// record or message is absent cannot be walked; that is reported as
    /// [`ViewError::MissingRequiredStructure`].
    pub fn walk_instructions<'a>(&'a self) -> (r: Result<AllInstructionIterator<'a>, ViewError>)
        ensures
            r is Ok <==> self.has_message(),
            r matches Ok(it) ==> {
                &&& it.trx == self
                &&& it.wf()
                &&& it.remaining() == spec_walk_positions(*self)
            },
            r matches Err(e) ==> e == ViewError::MissingRequiredStructure,
    {
        let trx = match &self.transaction {
            Some(t) => t,
            None => {
                return Err(ViewError::MissingRequiredStructure);
            },
        };
        if trx.message.is_none() {
            return Err(ViewError::MissingRequiredStructure);
        }
        Ok(AllInstructionIterator { trx: self, top_index: 0, inner_index: None })
    }

    /// Returns whether this transaction was successful: its metadata is
    /// present and carries no error indicator. A transaction without
    /// metadata is not successful.
    pub fn is_successful(&self) -> (r: bool)
        ensures
            r == self.spec_is_successful(),
    {
        match &self.meta {
            Some(m) => m.err.is_none(),
            None => false,
        }
    }

    /// Returns this transaction when its metadata is present, error-free and
    /// records at least one inner-instruction group, and `None` otherwise.
    pub fn meta(&self) -> (r: Option<&ConfirmedTransaction>)
        ensures
            r matches Some(t) ==> {
                &&& t == self
                &&& self.meta is Some
                &&& self.meta->Some_0.err is None
                &&& self.meta->Some_0.inner_instructions@.len() > 0
            },
            r is None <==> (self.meta is None || self.meta->Some_0.err is Some
                || self.meta->Some_0.inner_instructions@.len() == 0),
    {
        match &self.meta {
            Some(m) => {
                match m.meta() {
                    Some(_) => Some(self),
                    None => None,
                }
            },
            None => None,
        }
    }
}

impl TransactionStatusMeta {
    /// Returns this metadata when it is error-free and records at least one
    /// inner-instruction group, and `None` otherwise.
    pub fn meta(&self) -> (r: Option<&TransactionStatusMeta>)
        ensures
            r matches Some(m) ==> *m == *self,
            r is Some <==> (self.err is None && self.inner_instructions@.len() > 0),
    {
        if self.err.is_some() || self.inner_instructions.len() == 0 {
            None
        } else {
            Some(self)
        }
    }
}

/// The transaction-success test, as a value handed to sequence operations.
pub open spec fn successful_pred() -> spec_fn(ConfirmedTransaction) -> bool {
    |t: ConfirmedTransaction| t.spec_is_successful()
}

/// The compiled-instruction positions one transaction contributes to a
/// block-level iteration: one `(transaction, top index)` pair per compiled
/// instruction, or nothing when the transaction or message is absent.
pub open spec fn spec_compiled_triples(trx: ConfirmedTransaction) -> Seq<
    (ConfirmedTransaction, int),
> {
    if trx.has_message() {
        Seq::new(trx.spec_message().instructions@.len(), |i: int| (trx, i))
    } else {
        Seq::empty()
    }
}

/// As [`spec_compiled_triples`], gated on the transaction being successful.
pub open spec fn compiled_gate() -> spec_fn(ConfirmedTransaction) -> Seq<
    (ConfirmedTransaction, int),
> {
    |t: ConfirmedTransaction|
        if t.spec_is_successful() {
            spec_compiled_triples(t)
        } else {
            Seq::empty()
        }
}

/// The depth-first traversal of one transaction as
/// `(transaction, top index, inner index)` triples.
pub open spec fn spec_walk_triples(trx: ConfirmedTransaction) -> Seq<
    (ConfirmedTransaction, int, Option<int>),
> {
    spec_walk_positions(trx).map_values(|p: (int, Option<int>)| (trx, p.0, p.1))
}

/// As [`spec_walk_triples`], gated on the transaction being successful.
pub open spec fn walk_gate() -> spec_fn(ConfirmedTransaction) -> Seq<
    (ConfirmedTransaction, int, Option<int>),
> {
    |t: ConfirmedTransaction|
        if t.spec_is_successful() {
            spec_walk_triples(t)
        } else {
            Seq::empty()
        }
}

/// Appending one element to a filtered sequence: the element joins the
/// result exactly when it satisfies the predicate.
proof fn lemma_filter_one(
    s: Seq<ConfirmedTransaction>,
    pred: spec_fn(ConfirmedTransaction) -> bool,
    x: ConfirmedTransaction,
)
    ensures
        (s + seq![x]).filter(pred) == s.filter(pred) + (if pred(x) {
            seq![x]
        } else {
            Seq::empty()
        }),
{
    reveal(Seq::filter);
    assert((s + seq![x]).drop_last() =~= s);
    assert((s + seq![x]).last() == x);
    if !pred(x) {
        assert(s.filter(pred) + Seq::<ConfirmedTransaction>::empty() =~= s.filter(pred));
    }
}

/// The projection that reads a borrowed transaction back as a value.
pub open spec fn deref_trx<'a>() -> spec_fn(&'a ConfirmedTransaction) -> ConfirmedTransaction {
    |t: &ConfirmedTransaction| *t
}

/// The projection of a view onto its `(transaction, top index)` pair.
pub open spec fn compiled_projection<'a>() -> spec_fn(InstructionView<'a>) -> (
    ConfirmedTransaction,
    int,
) {
    |v: InstructionView<'a>| (*v.trx, v.top_index as int)
}

/// The projection of a view onto its `(transaction, top index, inner index)`
/// triple.
pub open spec fn walk_projection<'a>() -> spec_fn(InstructionView<'a>) -> (
    ConfirmedTransaction,
    int,
    Option<int>,
) {
    |v: InstructionView<'a>| (*v.trx, v.spec_position().0, v.spec_position().1)
}

impl Block {
    /// The successful transactions of the block, in original order.
    pub open spec fn spec_successful(self) -> Seq<ConfirmedTransaction> {
        self.transactions@.filter(successful_pred())
    }

    /// The block-level compiled-instruction iteration: the compiled
    /// instructions of each successful transaction, in block order.
    pub open spec fn spec_block_compiled(self) -> Seq<(ConfirmedTransaction, int)> {
        self.transactions@.flat_map(compiled_gate())
    }

    /// The block-level depth-first traversal: the full instruction walk of
    /// each successful transaction, in block order.
    pub open spec fn spec_block_walk(self) -> Seq<(ConfirmedTransaction, int, Option<int>)> {
        self.transactions@.flat_map(walk_gate())
    }

    /// Returns the successful transactions of the block, in original order,
    /// by reference.
    pub fn transactions<'a>(&'a self) -> (r: Vec<&'a ConfirmedTransaction>)
        ensures
            r@.map_values(deref_trx()) == self.spec_successful(),
    {
        let n = self.transactions.len();
        let mut out: Vec<&'a ConfirmedTransaction> = Vec::new();
        let mut i: usize = 0;
        proof {
            reveal(Seq::filter);
            assert(self.transactions@.take(0) =~= Seq::<ConfirmedTransaction>::empty());
            assert(out@.map_values(deref_trx()) =~= self.transactions@.take(0).filter(
                successful_pred(),
            ));
        }
        while i < n
            invariant
                n == self.transactions@.len(),
                0 <= i <= n,
                out@.map_values(deref_trx()) == self.transactions@.take(i as int).filter(
                    successful_pred(),
                ),
            decreases n - i,
        {
            let ghost prefix = self.transactions@.take(i as int);
            let t = &self.transactions[i];
            if t.is_successful() {
                out.push(t);
            }
            proof {
                lemma_filter_one(prefix, successful_pred(), self.transactions@[i as int]);
                assert(self.transactions@.take(i as int + 1) =~= prefix + seq![self.transactions@[
                    i as int
                ]]);
                assert(out@.map_values(deref_trx()) =~= self.transactions@.take(i as int
                    + 1).filter(successful_pred()));
            }
            i = i + 1;
        }
        proof {
            assert(self.transactions@.take(n as int) =~= self.transactions@);
        }
        out
    }

    /// Returns the successful transactions of the block, in original order,
    /// taking ownership of them.
    pub fn transactions_owned(self) -> (r: Vec<ConfirmedTransaction>)
        ensures
            r@ == self.spec_successful(),
    {
        let mut source = self.transactions;
        let ghost orig = source@;
        let mut out: Vec<ConfirmedTransaction> = Vec::new();
        let ghost mut processed: int = 0;
        proof {
            reveal(Seq::filter);
            assert(orig.take(0) =~= Seq::<ConfirmedTransaction>::empty());
            assert(orig.skip(0) =~= orig);
            assert(out@ =~= orig.take(0).filter(successful_pred()));
        }
        while source.len() > 0
            invariant
                0 <= processed <= orig.len(),
                source@ == orig.skip(processed),
                out@ == orig.take(processed).filter(successful_pred()),
            decreases source@.len(),
        {
            let ghost prefix = orig.take(processed);
            let t = source.remove(0);
            proof {
                assert(t == orig[processed]);
                assert(orig.skip(processed).remove(0) =~= orig.skip(processed + 1));
            }
            if t.is_successful() {
                out.push(t);
            }
            proof {
                lemma_filter_one(prefix, successful_pred(), orig[processed]);
                assert(orig.take(processed + 1) =~= prefix + seq![orig[processed]]);
                assert(out@ =~= orig.take(processed + 1).filter(successful_pred()));
                processed = processed + 1;
            }
        }
        proof {
            assert(processed == orig.len());
            assert(orig.take(processed) =~= orig);
        }
        out
    }

    /// Returns one view per compiled instruction of every successful
    /// transaction of the block, in block order then message order. A
    /// successful transaction whose transaction record or message is absent
    /// is a data-integrity fault reported as
    /// [`ViewError::MissingRequiredStructure`]; to skip or report one
    /// malformed transaction and go on with the rest, iterate
    /// [`Self::transactions`] and call
    /// [`ConfirmedTransaction::compiled_instructions`] per transaction.
    pub fn compiled_instructions<'a>(&'a self) -> (r: Result<Vec<InstructionView<'a>>, ViewError>)
        ensures
            r is Ok <==> (forall|i: int|
                0 <= i < self.transactions@.len() ==> ((#[trigger] self.transactions@[
                    i
                ]).spec_is_successful() ==> self.transactions@[i].has_message())),
            r matches Ok(v) ==> {
                &&& v@.map_values(compiled_projection()) == self.spec_block_compiled()
                &&& (forall|k: int|
                    0 <= k < v@.len() ==> {
                        &&& (#[trigger] v@[k]).wf()
                        &&& v@[k].inner_index is None
                        &&& v@[k].trx.spec_is_successful()
                    })
            },
            r matches Err(e) ==> e == ViewError::MissingRequiredStructure,
    {
        let n = self.transactions.len();
        let mut out: Vec<InstructionView<'a>> = Vec::new();
        let mut i: usize = 0;
        proof {
            assert(self.transactions@.take(0).flat_map(compiled_gate()) =~= Seq::<
                (ConfirmedTransaction, int),
            >::empty());
            assert(out@.map_values(compiled_projection()) =~= self.transactions@.take(0).flat_map(
                compiled_gate(),
            ));
        }
        while i < n
            invariant
                n == self.transactions@.len(),
                0 <= i <= n,
                out@.map_values(compiled_projection()) == self.transactions@.take(
                    i as int,
                ).flat_map(compiled_gate()),
                forall|j: int|
                    0 <= j < i ==> ((#[trigger] self.transactions@[j]).spec_is_successful()
                        ==> self.transactions@[j].has_message()),
                forall|k: int|
                    0 <= k < out@.len() ==> {
                        &&& (#[trigger] out@[k]).wf()
                        &&& out@[k].inner_index is None
                        &&& out@[k].trx.spec_is_successful()
                    },
            decreases n - i,
        {
            let ghost before = out@;
            let t = &self.transactions[i];
            if t.is_successful() {
                let mut views = match t.compiled_instructions() {
                    Ok(v) => v,
                    Err(e) => {
                        return Err(e);
                    },
                };
                let ghost contributed = views@;
                out.append(&mut views);
                proof {
                    assert(contributed.map_values(compiled_projection()) =~= compiled_gate()(*t));
                    assert(out@.map_values(compiled_projection()) =~= before.map_values(
                        compiled_projection(),
                    ) + contributed.map_values(compiled_projection()));
                }
            } else {
                proof {
                    assert(compiled_gate()(*t) =~= Seq::<(ConfirmedTransaction, int)>::empty());
                    assert(out@.map_values(compiled_projection()) =~= before.map_values(
                        compiled_projection(),
                    ) + compiled_gate()(*t));
                }
            }
            proof {
                self.transactions@.lemma_flat_map_take_append(compiled_gate(), i as int);
                assert(out@.map_values(compiled_projection()) =~= self.transactions@.take(i as int
                    + 1).flat_map(compiled_gate()));
            }
            i = i + 1;
        }
        proof {
            assert(self.transactions@.take(n as int) =~= self.transactions@);
        }
        Ok(out)
    }

    /// Returns the full depth-first instruction walk of every successful
    /// transaction of the block, in block order: each compiled instruction
    /// immediately followed by its inner instructions. A successful
    /// transaction whose transaction record or message is absent is a
    /// data-integrity fault reported as
    /// [`ViewError::MissingRequiredStructure`]; to skip or report one
    /// malformed transaction and go on with the rest, iterate
    /// [`Self::transactions`] and call
    /// [`ConfirmedTransaction::walk_instructions`] per transaction.
    pub fn walk_instructions<'a>(&'a self) -> (r: Result<Vec<InstructionView<'a>>, ViewError>)
        ensures
            r is Ok <==> (forall|i: int|
                0 <= i < self.transactions@.len() ==> ((#[trigger] self.transactions@[
                    i
                ]).spec_is_successful() ==> self.transactions@[i].has_message())),
            r matches Ok(v) ==> {
                &&& v@.map_values(walk_projection()) == self.spec_block_walk()
                &&& (forall|k: int|
                    0 <= k < v@.len() ==> (#[trigger] v@[k]).wf()
                        && v@[k].trx.spec_is_successful())
            },
            r matches Err(e) ==> e == ViewError::MissingRequiredStructure,
    {
        let n = self.transactions.len();
        let mut out: Vec<InstructionView<'a>> = Vec::new();
        let mut i: usize = 0;
        proof {
            assert(self.transactions@.take(0).flat_map(walk_gate()) =~= Seq::<
                (ConfirmedTransaction, int, Option<int>),
            >::empty());
            assert(out@.map_values(walk_projection()) =~= self.transactions@.take(0).flat_map(
                walk_gate(),
            ));
        }
        while i < n
            invariant
                n == self.transactions@.len(),
                0 <= i <= n,
                out@.map_values(walk_projection()) == self.transactions@.take(i as int).flat_map(
                    walk_gate(),
                ),
                forall|j: int|
                    0 <= j < i ==> ((#[trigger] self.transactions@[j]).spec_is_successful()
                        ==> self.transactions@[j].has_message()),
                forall|k: int|
                    0 <= k < out@.len() ==> (#[trigger] out@[k]).wf()
                        && out@[k].trx.spec_is_successful(),
            decreases n - i,
        {
            let ghost before = out@;
            let t = &self.transactions[i];
            if t.is_successful() {
                let it = match t.walk_instructions() {
                    Ok(it) => it,
                    Err(e) => {
                        return Err(e);
                    },
                };
                let mut views = it.into_views();
                let ghost contributed = views@;
                out.append(&mut views);
                proof {
                    assert forall|k: int| 0 <= k < contributed.len() implies (
                    #[trigger] contributed.map_values(walk_projection())[k]) == walk_gate()(*t)[
                        k
                    ] by {
                        assert(contributed[k].spec_position() == spec_walk_positions(*t)[k]);
                    }
                    assert(contributed.map_values(walk_projection()) =~= walk_gate()(*t));
                    assert(out@.map_values(walk_projection()) =~= before.map_values(
                        walk_projection(),
                    ) + contributed.map_values(walk_projection()));
                    assert forall|k: int| 0 <= k < out@.len() implies (#[trigger] out@[k]).wf()
                        && out@[k].trx.spec_is_successful() by {
                        if k < before.len() {
                            assert(out@[k] == before[k]);
                        } else {
                            assert(out@[k] == contributed[k - before.len()]);
                        }
                    }
                }
            } else {
                proof {
                    assert(walk_gate()(*t) =~= Seq::<
                        (ConfirmedTransaction, int, Option<int>),
                    >::empty());
                    assert(out@.map_values(walk_projection()) =~= before.map_values(
                        walk_projection(),
                    ) + walk_gate()(*t));
                }
            }
            proof {
                self.transactions@.lemma_flat_map_take_append(walk_gate(), i as int);
                assert(out@.map_values(walk_projection()) =~= self.transactions@.take(i as int
                    + 1).flat_map(walk_gate()));
            }
            i = i + 1;
        }
        proof {
            assert(self.transactions@.take(n as int) =~= self.transactions@);
        }
        Ok(out)
    }
}

} // verus!

verus! {

/// The number of positions the depth-first walk emits before reaching the
/// top-level instruction at `k`: one per earlier top-level instruction plus
/// the sizes of their inner groups.
pub open spec fn spec_walk_offset(trx: ConfirmedTransaction, k: int) -> int
    decreases k,
{
    if k <= 0 {
        0
    } else {
        spec_walk_offset(trx, k - 1) + 1 + trx.spec_inner_group(k - 1).len()
    }
}

/// The total size of the inner groups of top-level instructions `k` and on.
pub open spec fn spec_inner_count_from(trx: ConfirmedTransaction, k: int) -> int
    decreases trx.spec_message().instructions@.len() - k,
{
    if k < 0 || k >= trx.spec_message().instructions@.len() {
        0
    } else {
        trx.spec_inner_group(k).len() + spec_inner_count_from(trx, k + 1)
    }
}

proof fn lemma_walk_from_count(trx: ConfirmedTransaction, k: int)
    requires
        0 <= k <= trx.spec_message().instructions@.len(),
    ensures
        spec_walk_positions_from(trx, k).len() == (trx.spec_message().instructions@.len() - k)
            + spec_inner_count_from(trx, k),
    decreases trx.spec_message().instructions@.len() - k,
{
    if k < trx.spec_message().instructions@.len() {
        lemma_walk_from_count(trx, k + 1);
    }
}

/// The depth-first walk visits every instruction exactly once: its length is
/// the number of top-level instructions plus the total size of the inner
/// groups.
pub proof fn lemma_walk_count(trx: ConfirmedTransaction)
    requires
        trx.has_message(),
    ensures
        spec_walk_positions(trx).len() == trx.spec_message().instructions@.len()
            + spec_inner_count_from(trx, 0),
{
    lemma_walk_from_count(trx, 0);
}

proof fn lemma_add_subrange_shift<T>(a: Seq<T>, b: Seq<T>, x: int, y: int)
    requires
        0 <= x <= y <= b.len(),
    ensures
        (a + b).subrange(a.len() + x, a.len() + y) == b.subrange(x, y),
{
    assert((a + b).subrange(a.len() + x, a.len() + y) =~= b.subrange(x, y));
}

proof fn lemma_walk_from_segment(trx: ConfirmedTransaction, k0: int, k: int)
    requires
        0 <= k0 <= k < trx.spec_message().instructions@.len(),
    ensures
        spec_walk_offset(trx, k0) <= spec_walk_offset(trx, k),
        spec_walk_offset(trx, k) - spec_walk_offset(trx, k0) + 1 + trx.spec_inner_group(k).len()
            <= spec_walk_positions_from(trx, k0).len(),
        spec_walk_positions_from(trx, k0).subrange(
            spec_walk_offset(trx, k) - spec_walk_offset(trx, k0),
            spec_walk_offset(trx, k) - spec_walk_offset(trx, k0) + 1 + trx.spec_inner_group(
                k,
            ).len(),
        ) == seq![(k, None::<int>)] + spec_inner_positions(trx, k),
    decreases k - k0,
{
    let head = seq![(k0, None::<int>)] + spec_inner_positions(trx, k0);
    let tail = spec_walk_positions_from(trx, k0 + 1);
    assert(spec_walk_positions_from(trx, k0) =~= head + tail);
    if k0 == k {
        assert(spec_walk_positions_from(trx, k0).subrange(
            0,
            1 + trx.spec_inner_group(k).len() as int,
        ) =~= head);
    } else {
        lemma_walk_from_segment(trx, k0 + 1, k);
        let x = spec_walk_offset(trx, k) - spec_walk_offset(trx, k0 + 1);
        let y = x + 1 + trx.spec_inner_group(k).len() as int;
        assert(head.len() == spec_walk_offset(trx, k0 + 1) - spec_walk_offset(trx, k0));
        lemma_add_subrange_shift(head, tail, x, y);
    }
}

/// The depth-first walk keeps the tree order: the top-level instruction at
/// `k` is emitted at its offset, its inner instructions follow it
/// immediately and contiguously in stored order, and the next top-level
/// instruction comes right after them. In particular the walk of a
/// transaction with any instructions at all starts at the first top-level
/// instruction.
pub proof fn lemma_walk_tree_order(trx: ConfirmedTransaction, k: int)
    requires
        trx.has_message(),
        0 <= k < trx.spec_message().instructions@.len(),
    ensures
        0 <= spec_walk_offset(trx, k),
        spec_walk_offset(trx, k) + 1 + trx.spec_inner_group(k).len() <= spec_walk_positions(
            trx,
        ).len(),
        spec_walk_positions(trx)[spec_walk_offset(trx, k)] == (k, None::<int>),
        forall|j: int|
            0 <= j < trx.spec_inner_group(k).len() ==> spec_walk_positions(trx)[spec_walk_offset(
                trx,
                k,
            ) + 1 + j] == (k, Some(j)),
        spec_walk_offset(trx, k + 1) == spec_walk_offset(trx, k) + 1 + trx.spec_inner_group(
            k,
        ).len(),
        spec_walk_offset(trx, 0) == 0,
{
    lemma_walk_from_segment(trx, 0, k);
    let off = spec_walk_offset(trx, k);
    let glen = trx.spec_inner_group(k).len() as int;
    let seg = spec_walk_positions(trx).subrange(off, off + 1 + glen);
    assert(seg[0] == (k, None::<int>));
    assert forall|j: int| 0 <= j < glen implies spec_walk_positions(trx)[off + 1 + j] == (
    k,
    Some(j),
    ) by {
        assert(seg[1 + j] == spec_inner_positions(trx, k)[j]);
    }
}

/// A position that the traversal can emit: a top-level index inside the
/// message, and, for an inner instruction, an index inside that top-level
/// instruction's group.
pub open spec fn spec_position_valid(trx: ConfirmedTransaction, p: (int, Option<int>)) -> bool {
    &&& 0 <= p.0 < trx.spec_message().instructions@.len()
    &&& (p.1 matches Some(j) ==> 0 <= j < trx.spec_inner_group(p.0).len())
}

/// Every account index the instruction at position `p` references — its
/// program id and each named account — falls inside the unified address
/// pool.
pub open spec fn spec_position_resolvable(trx: ConfirmedTransaction, p: (int, Option<int>)) -> bool {
    match p.1 {
        None => {
            let ins = trx.spec_message().instructions@[p.0];
            &&& (ins.program_id_index as int) < trx.spec_address_pool().len()
            &&& (forall|k: int|
                0 <= k < ins.accounts@.len() ==> (ins.accounts@[k] as int)
                    < trx.spec_address_pool().len())
        },
        Some(j) => {
            let ins = trx.spec_inner_group(p.0)[j];
            &&& (ins.program_id_index as int) < trx.spec_address_pool().len()
            &&& (forall|k: int|
                0 <= k < ins.accounts@.len() ==> (ins.accounts@[k] as int)
                    < trx.spec_address_pool().len())
        },
    }
}

impl ConfirmedTransaction {
    /// Well-formed input: every instruction the traversal can reach — every
    /// top-level instruction and every member of an inner group — references
    /// only indices inside the unified address pool.
    pub open spec fn spec_indices_in_range(self) -> bool {
        forall|p: (int, Option<int>)|
            #[trigger] spec_position_valid(self, p) ==> spec_position_resolvable(self, p)
    }
}

/// Resolution never fails on well-formed input: every view the traversal of
/// such a transaction hands out references only indices inside the unified
/// address pool, so by the contracts of [`InstructionView::program_id`] and
/// [`InstructionView::accounts`] both calls return `Ok`.
pub proof fn lemma_view_resolves<'a>(v: InstructionView<'a>)
    requires
        v.wf(),
        v.trx.spec_indices_in_range(),
    ensures
        (v.spec_program_id_index() as int) < v.trx.spec_address_pool().len(),
        forall|k: int|
            0 <= k < v.spec_account_indices().len() ==> (v.spec_account_indices()[k] as int)
                < v.trx.spec_address_pool().len(),
{
    assert(spec_position_valid(*v.trx, v.spec_position()));
    assert(spec_position_resolvable(*v.trx, v.spec_position()));
}

/// The successful-transaction sequence of a block holds exactly the
/// transactions of the block whose metadata is present and error-free:
/// every member has such metadata, every member comes from the block, and
/// every successful transaction of the block is a member. A transaction with
/// a populated error indicator, or with no metadata at all, is excluded
/// whatever its instructions hold.
pub proof fn lemma_successful_transactions(b: Block)
    ensures
        forall|i: int|
            0 <= i < b.spec_successful().len() ==> (#[trigger] b.spec_successful()[
                i
            ]).spec_is_successful(),
        forall|i: int|
            0 <= i < b.spec_successful().len() ==> (#[trigger] b.spec_successful()[i]).meta is Some
                && b.spec_successful()[i].meta->Some_0.err is None,
        forall|t: ConfirmedTransaction|
            #[trigger] b.spec_successful().contains(t) ==> b.transactions@.contains(t)
                && t.spec_is_successful(),
        forall|t: ConfirmedTransaction|
            b.transactions@.contains(t) && t.spec_is_successful() ==> #[trigger] b.spec_successful(
            ).contains(t),
{
    let pred = successful_pred();
    let s = b.transactions@;
    assert forall|i: int| 0 <= i < b.spec_successful().len() implies (#[trigger] b.spec_successful(
    )[i]).spec_is_successful() by {
        s.lemma_filter_pred(pred, i);
    }
    assert forall|t: ConfirmedTransaction| #[trigger]
        b.spec_successful().contains(t) implies s.contains(t) && t.spec_is_successful() by {
        s.lemma_filter_contains_rev(pred, t);
        let i = choose|i: int| 0 <= i < s.filter(pred).len() && s.filter(pred)[i] == t;
        s.lemma_filter_pred(pred, i);
    }
    assert forall|t: ConfirmedTransaction|
        s.contains(t) && t.spec_is_successful() implies #[trigger] b.spec_successful().contains(
        t,
    ) by {
        let i = choose|i: int| 0 <= i < s.len() && s[i] == t;
        s.lemma_filter_contains(pred, i);
    }
}

} // verus!

