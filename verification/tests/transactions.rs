use priority_details::{GetTransactionPriorityDetails, TransactionPriorityDetails};
use solana_program_runtime::compute_budget_processor::{
    DEFAULT_INSTRUCTION_COMPUTE_UNIT_LIMIT, MAX_COMPUTE_UNIT_LIMIT,
};
use solana_sdk::compute_budget::ComputeBudgetInstruction;
use solana_sdk::instruction::Instruction;
use solana_sdk::message::Message;
use solana_sdk::pubkey::Pubkey;
use solana_sdk::signature::{Keypair, Signer};
use solana_sdk::system_instruction;
use solana_sdk::transaction::{
    SanitizedTransaction, SanitizedVersionedTransaction, Transaction, VersionedTransaction,
};

fn unsigned_transaction(instructions: &[Instruction]) -> Transaction {
    let keypair = Keypair::new();
    Transaction::new_unsigned(Message::new(instructions, Some(&keypair.pubkey())))
}

fn transfer() -> Instruction {
    system_instruction::transfer(&Pubkey::new_unique(), &Pubkey::new_unique(), 1)
}

fn details_in_both_representations(
    instructions: &[Instruction],
) -> (Option<TransactionPriorityDetails>, Option<TransactionPriorityDetails>) {
    let transaction = unsigned_transaction(instructions);
    let versioned =
        SanitizedVersionedTransaction::try_new(VersionedTransaction::from(transaction.clone()))
            .unwrap();
    let sanitized = SanitizedTransaction::try_from_legacy_transaction(transaction).unwrap();
    (
        versioned.get_transaction_priority_details(false),
        sanitized.get_transaction_priority_details(false),
    )
}

#[test]
fn test_get_priority_with_valid_request_heap_frame_tx() {
    let keypair = Keypair::new();
    let transaction = Transaction::new_unsigned(Message::new(
        &[
            system_instruction::transfer(&keypair.pubkey(), &Pubkey::new_unique(), 1),
            ComputeBudgetInstruction::request_heap_frame(32 * 1024),
        ],
        Some(&keypair.pubkey()),
    ));

    let versioned_transaction = VersionedTransaction::from(transaction.clone());
    let sanitized_versioned_transaction =
        SanitizedVersionedTransaction::try_new(versioned_transaction).unwrap();
    assert_eq!(
        sanitized_versioned_transaction.get_transaction_priority_details(false),
        Some(TransactionPriorityDetails {
            priority: 0,
            compute_unit_limit: DEFAULT_INSTRUCTION_COMPUTE_UNIT_LIMIT as u64,
        })
    );

    let sanitized_transaction =
        SanitizedTransaction::try_from_legacy_transaction(transaction).unwrap();
    assert_eq!(
        sanitized_transaction.get_transaction_priority_details(false),
        Some(TransactionPriorityDetails {
            priority: 0,
            compute_unit_limit: DEFAULT_INSTRUCTION_COMPUTE_UNIT_LIMIT as u64,
        })
    );
}

#[test]
fn test_get_priority_with_valid_set_compute_units_limit() {
    let requested_cu = 101u32;
    let keypair = Keypair::new();
    let transaction = Transaction::new_unsigned(Message::new(
        &[
            system_instruction::transfer(&keypair.pubkey(), &Pubkey::new_unique(), 1),
            ComputeBudgetInstruction::set_compute_unit_limit(requested_cu),
        ],
        Some(&keypair.pubkey()),
    ));

    let versioned_transaction = VersionedTransaction::from(transaction.clone());
    let sanitized_versioned_transaction =
        SanitizedVersionedTransaction::try_new(versioned_transaction).unwrap();
    assert_eq!(
        sanitized_versioned_transaction.get_transaction_priority_details(false),
        Some(TransactionPriorityDetails {
            priority: 0,
            compute_unit_limit: requested_cu as u64,
        })
    );

    let sanitized_transaction =
        SanitizedTransaction::try_from_legacy_transaction(transaction).unwrap();
    assert_eq!(
        sanitized_transaction.get_transaction_priority_details(false),
        Some(TransactionPriorityDetails {
            priority: 0,
            compute_unit_limit: requested_cu as u64,
        })
    );
}

#[test]
fn test_get_priority_with_valid_set_compute_unit_price() {
    let requested_price = 1_000;
    let keypair = Keypair::new();
    let transaction = Transaction::new_unsigned(Message::new(
        &[
            system_instruction::transfer(&keypair.pubkey(), &Pubkey::new_unique(), 1),
            ComputeBudgetInstruction::set_compute_unit_price(requested_price),
        ],
        Some(&keypair.pubkey()),
    ));

    let versioned_transaction = VersionedTransaction::from(transaction.clone());
    let sanitized_versioned_transaction =
        SanitizedVersionedTransaction::try_new(versioned_transaction).unwrap();
    assert_eq!(
        sanitized_versioned_transaction.get_transaction_priority_details(false),
        Some(TransactionPriorityDetails {
            priority: requested_price,
            compute_unit_limit: DEFAULT_INSTRUCTION_COMPUTE_UNIT_LIMIT as u64,
        })
    );

    let sanitized_transaction =
        SanitizedTransaction::try_from_legacy_transaction(transaction).unwrap();
    assert_eq!(
        sanitized_transaction.get_transaction_priority_details(false),
        Some(TransactionPriorityDetails {
            priority: requested_price,
            compute_unit_limit: DEFAULT_INSTRUCTION_COMPUTE_UNIT_LIMIT as u64,
        })
    );
}

#[test]
fn transaction_without_budget_instructions_gets_the_defaults() {
    let expected = Some(TransactionPriorityDetails { priority: 0, compute_unit_limit: 200_000 });
    let (versioned, sanitized) = details_in_both_representations(&[transfer()]);
    assert_eq!(versioned, expected);
    assert_eq!(sanitized, expected);
}

#[test]
fn default_limit_grows_with_the_other_instructions() {
    let expected = Some(TransactionPriorityDetails { priority: 0, compute_unit_limit: 600_000 });
    let (versioned, sanitized) =
        details_in_both_representations(&[transfer(), transfer(), transfer()]);
    assert_eq!(versioned, expected);
    assert_eq!(sanitized, expected);
}

#[test]
fn transaction_without_instructions_has_details() {
    let expected = Some(TransactionPriorityDetails { priority: 0, compute_unit_limit: 0 });
    let (versioned, sanitized) = details_in_both_representations(&[]);
    assert_eq!(versioned, expected);
    assert_eq!(sanitized, expected);
}

#[test]
fn heap_frame_request_alone_changes_nothing() {
    let plain = details_in_both_representations(&[transfer()]);
    let with_heap = details_in_both_representations(&[
        transfer(),
        ComputeBudgetInstruction::request_heap_frame(64 * 1024),
    ]);
    assert_eq!(with_heap, plain);
    assert_eq!(
        with_heap.0,
        Some(TransactionPriorityDetails { priority: 0, compute_unit_limit: 200_000 })
    );
}

#[test]
fn price_and_limit_together_are_both_kept() {
    let expected =
        Some(TransactionPriorityDetails { priority: 7_500, compute_unit_limit: 300_000 });
    let orders = [
        vec![
            transfer(),
            ComputeBudgetInstruction::set_compute_unit_limit(300_000),
            ComputeBudgetInstruction::set_compute_unit_price(7_500),
        ],
        vec![
            ComputeBudgetInstruction::set_compute_unit_price(7_500),
            transfer(),
            ComputeBudgetInstruction::set_compute_unit_limit(300_000),
        ],
        vec![
            ComputeBudgetInstruction::set_compute_unit_limit(300_000),
            ComputeBudgetInstruction::set_compute_unit_price(7_500),
            transfer(),
            transfer(),
        ],
    ];
    for instructions in orders.iter() {
        let (versioned, sanitized) = details_in_both_representations(instructions);
        assert_eq!(versioned, expected);
        assert_eq!(sanitized, expected);
    }
}

#[test]
fn largest_price_is_kept_whole() {
    let (versioned, sanitized) = details_in_both_representations(&[
        transfer(),
        ComputeBudgetInstruction::set_compute_unit_price(u64::MAX),
    ]);
    let expected =
        Some(TransactionPriorityDetails { priority: u64::MAX, compute_unit_limit: 200_000 });
    assert_eq!(versioned, expected);
    assert_eq!(sanitized, expected);
}

#[test]
fn declared_limit_above_the_decoder_maximum_is_kept_whole() {
    assert_eq!(MAX_COMPUTE_UNIT_LIMIT, 1_400_000);
    let (versioned, sanitized) = details_in_both_representations(&[
        transfer(),
        ComputeBudgetInstruction::set_compute_unit_limit(1_400_001),
    ]);
    let expected =
        Some(TransactionPriorityDetails { priority: 0, compute_unit_limit: 1_400_001 });
    assert_eq!(versioned, expected);
    assert_eq!(sanitized, expected);

    let (versioned, sanitized) = details_in_both_representations(&[
        transfer(),
        ComputeBudgetInstruction::set_compute_unit_limit(u32::MAX),
    ]);
    let expected =
        Some(TransactionPriorityDetails { priority: 0, compute_unit_limit: 4_294_967_295 });
    assert_eq!(versioned, expected);
    assert_eq!(sanitized, expected);
}

#[test]
fn later_limit_wins() {
    let expected = Some(TransactionPriorityDetails { priority: 0, compute_unit_limit: 202 });
    let (versioned, sanitized) = details_in_both_representations(&[
        transfer(),
        ComputeBudgetInstruction::set_compute_unit_limit(101),
        ComputeBudgetInstruction::set_compute_unit_limit(202),
    ]);
    assert_eq!(versioned, expected);
    assert_eq!(sanitized, expected);
}

#[test]
fn later_price_wins() {
    let expected = Some(TransactionPriorityDetails { priority: 2, compute_unit_limit: 200_000 });
    let (versioned, sanitized) = details_in_both_representations(&[
        ComputeBudgetInstruction::set_compute_unit_price(1),
        transfer(),
        ComputeBudgetInstruction::set_compute_unit_price(7),
        ComputeBudgetInstruction::set_compute_unit_price(2),
    ]);
    assert_eq!(versioned, expected);
    assert_eq!(sanitized, expected);
}

#[test]
fn repeated_list_equals_the_list_with_only_the_last_kept() {
    let repeated = details_in_both_representations(&[
        ComputeBudgetInstruction::set_compute_unit_limit(5),
        ComputeBudgetInstruction::set_compute_unit_price(30),
        transfer(),
        ComputeBudgetInstruction::request_heap_frame(32 * 1024),
        ComputeBudgetInstruction::set_compute_unit_limit(6),
        ComputeBudgetInstruction::request_heap_frame(64 * 1024),
        ComputeBudgetInstruction::set_compute_unit_price(40),
    ]);
    let last_only = details_in_both_representations(&[
        transfer(),
        ComputeBudgetInstruction::set_compute_unit_limit(6),
        ComputeBudgetInstruction::request_heap_frame(64 * 1024),
        ComputeBudgetInstruction::set_compute_unit_price(40),
    ]);
    assert_eq!(repeated, last_only);
    assert_eq!(
        repeated.0,
        Some(TransactionPriorityDetails { priority: 40, compute_unit_limit: 6 })
    );
}

#[test]
fn repeated_heap_frame_request_changes_nothing() {
    let expected = Some(TransactionPriorityDetails { priority: 0, compute_unit_limit: 200_000 });
    let (versioned, sanitized) = details_in_both_representations(&[
        ComputeBudgetInstruction::request_heap_frame(32 * 1024),
        transfer(),
        ComputeBudgetInstruction::request_heap_frame(64 * 1024),
    ]);
    assert_eq!(versioned, expected);
    assert_eq!(sanitized, expected);
}

#[test]
fn default_limit_stops_at_the_decoder_maximum() {
    let expected =
        Some(TransactionPriorityDetails { priority: 0, compute_unit_limit: 1_400_000 });
    let eight = vec![transfer(); 8];
    let (versioned, sanitized) = details_in_both_representations(&eight);
    assert_eq!(versioned, expected);
    assert_eq!(sanitized, expected);
}

#[test]
fn malformed_budget_instruction_leaves_no_details() {
    let unknown_kind = Instruction::new_with_bytes(solana_sdk::compute_budget::id(), &[9], vec![]);
    assert_eq!(details_in_both_representations(&[transfer(), unknown_kind]), (None, None));
    let cut_short = Instruction::new_with_bytes(solana_sdk::compute_budget::id(), &[2, 1], vec![]);
    assert_eq!(details_in_both_representations(&[transfer(), cut_short]), (None, None));
    let no_payload = Instruction::new_with_bytes(solana_sdk::compute_budget::id(), &[], vec![]);
    assert_eq!(details_in_both_representations(&[no_payload]), (None, None));
}

#[test]
fn malformed_directive_fails_even_where_a_later_one_repeats_its_kind() {
    let cut_short = Instruction::new_with_bytes(solana_sdk::compute_budget::id(), &[2, 1], vec![]);
    assert_eq!(
        details_in_both_representations(&[
            transfer(),
            cut_short,
            ComputeBudgetInstruction::set_compute_unit_limit(9),
        ]),
        (None, None)
    );
    assert_eq!(
        details_in_both_representations(&[
            ComputeBudgetInstruction::request_heap_frame(5),
            ComputeBudgetInstruction::request_heap_frame(32 * 1024),
        ]),
        (None, None)
    );
}

#[test]
fn heap_frame_of_a_bad_size_leaves_no_details() {
    let (versioned, sanitized) = details_in_both_representations(&[
        transfer(),
        ComputeBudgetInstruction::request_heap_frame(32 * 1024 + 1),
    ]);
    assert_eq!(versioned, None);
    assert_eq!(sanitized, None);
}

#[test]
fn both_representations_agree() {
    let cases = [
        vec![],
        vec![transfer()],
        vec![transfer(), ComputeBudgetInstruction::set_compute_unit_price(42)],
        vec![ComputeBudgetInstruction::set_compute_unit_limit(5), transfer(), transfer()],
        vec![
            ComputeBudgetInstruction::set_compute_unit_limit(5),
            ComputeBudgetInstruction::set_compute_unit_limit(6),
        ],
        vec![Instruction::new_with_bytes(solana_sdk::compute_budget::id(), &[7], vec![])],
    ];
    for instructions in cases.iter() {
        let (versioned, sanitized) = details_in_both_representations(instructions);
        assert_eq!(versioned, sanitized);
    }
}

#[test]
fn extraction_twice_gives_equal_results() {
    let transaction = unsigned_transaction(&[
        transfer(),
        ComputeBudgetInstruction::set_compute_unit_price(9),
        ComputeBudgetInstruction::set_compute_unit_limit(77),
    ]);
    let sanitized = SanitizedTransaction::try_from_legacy_transaction(transaction).unwrap();
    let first = sanitized.get_transaction_priority_details(false);
    let second = sanitized.get_transaction_priority_details(false);
    assert_eq!(first, second);
    assert_eq!(first, Some(TransactionPriorityDetails { priority: 9, compute_unit_limit: 77 }));
}

#[test]
fn rounding_flag_changes_nothing() {
    let transaction = unsigned_transaction(&[
        transfer(),
        ComputeBudgetInstruction::set_compute_unit_price(1_234_567),
    ]);
    let versioned =
        SanitizedVersionedTransaction::try_new(VersionedTransaction::from(transaction.clone()))
            .unwrap();
    let sanitized = SanitizedTransaction::try_from_legacy_transaction(transaction).unwrap();
    let expected =
        Some(TransactionPriorityDetails { priority: 1_234_567, compute_unit_limit: 200_000 });
    assert_eq!(versioned.get_transaction_priority_details(true), expected);
    assert_eq!(versioned.get_transaction_priority_details(false), expected);
    assert_eq!(sanitized.get_transaction_priority_details(true), expected);
    assert_eq!(sanitized.get_transaction_priority_details(false), expected);
}
