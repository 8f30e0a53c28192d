use substreams_solana_core::block_view::InstructionView;
use substreams_solana_core::pb::{
    Block, CompiledInstruction, ConfirmedTransaction, InnerInstruction, InnerInstructions,
    Message, Transaction, TransactionError, TransactionStatusMeta,
};
use substreams_solana_core::ViewError;

fn empty_message() -> Message {
    Message {
        account_keys: vec![],
        instructions: vec![],
    }
}

fn plain_meta(err: Option<TransactionError>) -> TransactionStatusMeta {
    TransactionStatusMeta {
        err,
        inner_instructions: vec![],
        loaded_writable_addresses: vec![],
        loaded_readonly_addresses: vec![],
    }
}

fn full_trx() -> ConfirmedTransaction {
    ConfirmedTransaction {
        transaction: Some(Transaction {
            signatures: vec![vec![1, 2, 3]],
            message: Some(Message {
                account_keys: vec![
                    vec![0xa0],
                    vec![0xa1],
                    vec![0xa2],
                    vec![0xa3],
                    vec![0xa4],
                    vec![0xa5],
                    vec![0xa6],
                ],
                instructions: vec![
                    CompiledInstruction {
                        program_id_index: 1,
                        accounts: vec![0, 1],
                        data: vec![1, 2, 3],
                    },
                    CompiledInstruction {
                        program_id_index: 2,
                        accounts: vec![1, 2],
                        data: vec![6, 7, 8],
                    },
                    CompiledInstruction {
                        program_id_index: 3,
                        accounts: vec![2],
                        data: vec![9, 10, 11],
                    },
                ],
            }),
        }),
        meta: Some(TransactionStatusMeta {
            err: None,
            inner_instructions: vec![
                InnerInstructions {
                    index: 0,
                    instructions: vec![InnerInstruction {
                        program_id_index: 4,
                        accounts: vec![0, 1],
                        data: vec![4, 5, 6],
                        stack_height: Some(1),
                    }],
                },
                InnerInstructions {
                    index: 2,
                    instructions: vec![
                        InnerInstruction {
                            program_id_index: 5,
                            accounts: vec![0, 1],
                            data: vec![10, 11, 12],
                            stack_height: Some(1),
                        },
                        InnerInstruction {
                            program_id_index: 6,
                            accounts: vec![1, 2],
                            data: vec![13, 14, 15],
                            stack_height: Some(2),
                        },
                    ],
                },
            ],
            loaded_writable_addresses: vec![],
            loaded_readonly_addresses: vec![],
        }),
    }
}

/// The observable fields of one view: resolved program id, resolved
/// accounts, data, stack height, and the parent compiled instruction's
/// resolved program id.
fn comparable(v: &InstructionView) -> (Vec<u8>, Vec<Vec<u8>>, Vec<u8>, u32, Vec<u8>) {
    (
        v.program_id().unwrap().0.clone(),
        v.accounts().unwrap().iter().map(|a| a.0.clone()).collect(),
        v.data().clone(),
        v.stack_height(),
        v.compiled_instruction().program_id().unwrap().0.clone(),
    )
}

#[test]
fn test_is_successful_with_no_error() {
    let trx = ConfirmedTransaction {
        transaction: Some(Transaction {
            signatures: vec![vec![1, 2, 3]],
            message: Some(empty_message()),
        }),
        meta: Some(plain_meta(None)),
    };

    assert_eq!(true, trx.is_successful());
}

#[test]
fn test_is_successful_with_error() {
    let trx = ConfirmedTransaction {
        transaction: Some(Transaction {
            signatures: vec![vec![1, 2, 3]],
            message: Some(empty_message()),
        }),
        meta: Some(plain_meta(Some(TransactionError { err: vec![] }))),
    };

    assert_eq!(false, trx.is_successful());
}

#[test]
fn test_is_successful_with_no_meta() {
    let trx = ConfirmedTransaction {
        transaction: Some(Transaction {
            signatures: vec![vec![1, 2, 3]],
            message: Some(empty_message()),
        }),
        meta: None,
    };

    assert_eq!(false, trx.is_successful());
}

fn three_trx_block() -> Block {
    Block {
        transactions: vec![
            ConfirmedTransaction {
                transaction: Some(Transaction {
                    signatures: vec![vec![1, 2, 3]],
                    message: None,
                }),
                meta: Some(plain_meta(Some(TransactionError { err: vec![] }))),
            },
            ConfirmedTransaction {
                transaction: Some(Transaction {
                    signatures: vec![vec![4, 5, 6]],
                    message: None,
                }),
                meta: Some(plain_meta(None)),
            },
            ConfirmedTransaction {
                transaction: Some(Transaction {
                    signatures: vec![vec![7, 8, 9]],
                    message: None,
                }),
                meta: None,
            },
        ],
    }
}

#[test]
fn it_iterates_over_successful_transaction() {
    let block = three_trx_block();

    let successful = block.transactions();
    let expected = ConfirmedTransaction {
        transaction: Some(Transaction {
            signatures: vec![vec![4, 5, 6]],
            message: None,
        }),
        meta: Some(plain_meta(None)),
    };
    assert_eq!(1, successful.len());

    // ... the one successful transaction, and then nothing more.
    assert_eq!(&expected, successful[0]);
}

#[test]
fn it_owns_successful_transactions() {
    let block = three_trx_block();
    let expected = ConfirmedTransaction {
        transaction: Some(Transaction {
            signatures: vec![vec![4, 5, 6]],
            message: None,
        }),
        meta: Some(plain_meta(None)),
    };

    let owned = block.transactions_owned();
    assert_eq!(vec![expected], owned);
}

#[test]
fn compiled_instruction_inner_instruction() {
    let trx = full_trx();

    let views = trx.compiled_instructions().unwrap();
    let view = &views[2];

    assert_eq!(
        (
            vec![0xa5],
            vec![vec![0xa0], vec![0xa1]],
            vec![0x0a, 0x0b, 0x0c],
            1,
            vec![0xa3],
        ),
        comparable(&view.inner_instruction(0).unwrap())
    );

    assert_eq!(
        (
            vec![0xa6],
            vec![vec![0xa1], vec![0xa2]],
            vec![0x0d, 0x0e, 0x0f],
            2,
            vec![0xa3],
        ),
        comparable(&view.inner_instruction(1).unwrap())
    );

    assert_eq!(true, view.inner_instruction(2).is_none());
}

#[test]
fn it_walks_instructions_depth_first() {
    let trx = full_trx();

    let views = trx.walk_instructions().unwrap().into_views();
    let walked: Vec<_> = views.iter().map(comparable).collect();

    assert_eq!(
        vec![
            (
                vec![0xa1],
                vec![vec![0xa0], vec![0xa1]],
                vec![0x01, 0x02, 0x03],
                0,
                vec![0xa1],
            ),
            (
                vec![0xa4],
                vec![vec![0xa0], vec![0xa1]],
                vec![0x04, 0x05, 0x06],
                1,
                vec![0xa1],
            ),
            (
                vec![0xa2],
                vec![vec![0xa1], vec![0xa2]],
                vec![0x06, 0x07, 0x08],
                0,
                vec![0xa2],
            ),
            (
                vec![0xa3],
                vec![vec![0xa2]],
                vec![0x09, 0x0a, 0x0b],
                0,
                vec![0xa3],
            ),
            (
                vec![0xa5],
                vec![vec![0xa0], vec![0xa1]],
                vec![0x0a, 0x0b, 0x0c],
                1,
                vec![0xa3],
            ),
            (
                vec![0xa6],
                vec![vec![0xa1], vec![0xa2]],
                vec![0x0d, 0x0e, 0x0f],
                2,
                vec![0xa3],
            ),
        ],
        walked
    );

    let roots: Vec<bool> = views.iter().map(|v| v.is_root()).collect();
    assert_eq!(vec![true, false, true, true, false, false], roots);
}

#[test]
fn it_walks_one_step_at_a_time() {
    let trx = full_trx();

    let mut it = trx.walk_instructions().unwrap();
    assert_eq!(vec![0xa1], *it.next().unwrap().program_id().unwrap().0);
    assert_eq!(vec![0xa4], *it.next().unwrap().program_id().unwrap().0);
    assert_eq!(vec![0xa2], *it.next().unwrap().program_id().unwrap().0);
    assert_eq!(vec![0xa3], *it.next().unwrap().program_id().unwrap().0);
    assert_eq!(vec![0xa5], *it.next().unwrap().program_id().unwrap().0);
    assert_eq!(vec![0xa6], *it.next().unwrap().program_id().unwrap().0);
    assert!(it.next().is_none());
    assert!(it.next().is_none());
}

#[test]
fn it_walks_no_instructions_in_empty_message() {
    let trx = ConfirmedTransaction {
        transaction: Some(Transaction {
            signatures: vec![vec![1, 2, 3]],
            message: Some(Message {
                account_keys: vec![vec![0x00], vec![0x01], vec![0x02]],
                instructions: vec![],
            }),
        }),
        meta: Some(plain_meta(Some(TransactionError { err: vec![] }))),
    };

    assert_eq!(0, trx.walk_instructions().unwrap().into_views().len());
    assert_eq!(0, trx.compiled_instructions().unwrap().len());
}

#[test]
fn it_refuses_to_walk_without_message() {
    let trx = ConfirmedTransaction {
        transaction: Some(Transaction {
            signatures: vec![vec![1, 2, 3]],
            message: None,
        }),
        meta: Some(plain_meta(None)),
    };
    assert_eq!(
        ViewError::MissingRequiredStructure,
        trx.walk_instructions().unwrap_err()
    );
    assert_eq!(
        ViewError::MissingRequiredStructure,
        trx.compiled_instructions().unwrap_err()
    );

    let headless = ConfirmedTransaction {
        transaction: None,
        meta: Some(plain_meta(None)),
    };
    assert_eq!(
        ViewError::MissingRequiredStructure,
        headless.walk_instructions().unwrap_err()
    );
    assert_eq!(
        ViewError::MissingRequiredStructure,
        headless.compiled_instructions().unwrap_err()
    );
}

#[test]
fn it_defaults_stack_height_to_zero() {
    let trx = ConfirmedTransaction {
        transaction: Some(Transaction {
            signatures: vec![vec![1, 2, 3]],
            message: Some(Message {
                account_keys: vec![vec![0xa0], vec![0xa1]],
                instructions: vec![CompiledInstruction {
                    program_id_index: 1,
                    accounts: vec![0],
                    data: vec![1],
                }],
            }),
        }),
        meta: Some(TransactionStatusMeta {
            err: None,
            inner_instructions: vec![InnerInstructions {
                index: 0,
                instructions: vec![InnerInstruction {
                    program_id_index: 0,
                    accounts: vec![1],
                    data: vec![2],
                    stack_height: None,
                }],
            }],
            loaded_writable_addresses: vec![],
            loaded_readonly_addresses: vec![],
        }),
    };

    let views = trx.walk_instructions().unwrap().into_views();
    assert_eq!(2, views.len());

    // A top-level instruction has no recorded depth and defaults to zero.
    assert_eq!(None, views[0].maybe_stack_height());
    assert_eq!(0, views[0].stack_height());

    // An inner instruction without a recorded depth defaults to zero too.
    assert_eq!(None, views[1].maybe_stack_height());
    assert_eq!(0, views[1].stack_height());
}

#[test]
fn it_lists_inner_instructions_of_a_root() {
    let trx = full_trx();
    let views = trx.compiled_instructions().unwrap();

    assert_eq!(1, views[0].inner_instructions().len());
    assert_eq!(0, views[1].inner_instructions().len());
    let third_inner = views[2].inner_instructions();
    assert_eq!(2, third_inner.len());
    assert_eq!(vec![0xa5], *third_inner[0].program_id().unwrap().0);
    assert_eq!(vec![0xa6], *third_inner[1].program_id().unwrap().0);

    // An inner instruction's view lists no children of its own.
    assert_eq!(0, third_inner[0].inner_instructions().len());
    assert_eq!(true, third_inner[0].inner_instruction(0).is_none());
}

#[test]
fn it_navigates_back_to_the_owning_records() {
    let trx = full_trx();
    let views = trx.compiled_instructions().unwrap();
    let view = &views[0];

    assert_eq!(7, view.message().account_keys.len());
    assert_eq!(2, view.meta().unwrap().inner_instructions.len());
    assert_eq!(vec![1, 2, 3], view.transaction().signatures[0]);
    assert_eq!(true, view.confirmed_transaction().is_successful());
}

#[test]
fn it_walks_each_successful_transaction_of_a_block() {
    let failed = ConfirmedTransaction {
        transaction: Some(Transaction {
            signatures: vec![vec![7]],
            message: Some(empty_message()),
        }),
        meta: Some(plain_meta(Some(TransactionError { err: vec![] }))),
    };
    let block = Block {
        transactions: vec![failed, full_trx()],
    };

    let compiled = block.compiled_instructions().unwrap();
    assert_eq!(3, compiled.len());
    assert_eq!(vec![0xa1], *compiled[0].program_id().unwrap().0);

    let walked = block.walk_instructions().unwrap();
    assert_eq!(6, walked.len());
    assert_eq!(vec![0xa1], *walked[0].program_id().unwrap().0);
    assert_eq!(vec![0xa4], *walked[1].program_id().unwrap().0);
}

#[test]
fn it_fails_the_block_walk_on_a_successful_transaction_without_message() {
    let block = Block {
        transactions: vec![ConfirmedTransaction {
            transaction: Some(Transaction {
                signatures: vec![vec![1]],
                message: None,
            }),
            meta: Some(plain_meta(None)),
        }],
    };
    assert_eq!(
        ViewError::MissingRequiredStructure,
        block.walk_instructions().unwrap_err()
    );
    assert_eq!(
        ViewError::MissingRequiredStructure,
        block.compiled_instructions().unwrap_err()
    );
}

#[test]
fn it_filters_meta_on_errors_and_empty_groups() {
    let with_groups = full_trx();
    assert!(with_groups.meta().is_some());

    let no_groups = ConfirmedTransaction {
        transaction: Some(Transaction {
            signatures: vec![vec![1]],
            message: Some(empty_message()),
        }),
        meta: Some(plain_meta(None)),
    };
    assert!(no_groups.meta().is_none());

    let failed_meta = plain_meta(Some(TransactionError { err: vec![] }));
    assert!(failed_meta.meta().is_none());
    let empty_meta = plain_meta(None);
    assert!(empty_meta.meta().is_none());
    assert!(full_trx().meta.unwrap().meta().is_some());
}
