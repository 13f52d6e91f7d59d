use spin_runtime::codec::{encode_bytes, encode_u128, encode_u32, encode_u64};
use spin_runtime::errors::ErrorKind;
use spin_runtime::node::{build_transaction, SpinNode};
use spin_runtime::storage::Storage;
use spin_runtime::types::{AccountId, Digest, SignedTransaction, TxOutcome};
use spin_runtime::wire::decode_account;

fn temp_node() -> SpinNode {
    let db = sled::Config::new().temporary(true).open().unwrap();
    let mut node = SpinNode::new(Storage::new(db), 16);
    node.init_genesis().unwrap();
    node
}

fn id(bytes: &[u8]) -> AccountId {
    AccountId::new(bytes.to_vec())
}

const GAS: u64 = 100_000_000;

fn create_account_tx(account: &[u8]) -> SignedTransaction {
    let mut args = Vec::new();
    encode_bytes(&mut args, &account.to_vec());
    encode_bytes(&mut args, &Vec::new());
    build_transaction(id(b"spin"), b"create_account".to_vec(), args, GAS, id(b""))
}

fn account_info_tx(account: &[u8]) -> SignedTransaction {
    let mut args = Vec::new();
    encode_bytes(&mut args, &account.to_vec());
    build_transaction(id(b"spin"), b"account_info".to_vec(), args, GAS, id(b""))
}

fn deploy_tx(signer: &[u8], code: &[u8]) -> SignedTransaction {
    let mut args = Vec::new();
    encode_bytes(&mut args, &code.to_vec());
    build_transaction(id(b"spin"), b"deploy_contract".to_vec(), args, GAS, id(signer))
}

fn call_tx(contract: &[u8], method: &[u8], args: Vec<u8>, signer: &[u8]) -> SignedTransaction {
    build_transaction(id(contract), method.to_vec(), args, GAS, id(signer))
}

fn run_one(node: &mut SpinNode, tx: SignedTransaction) -> TxOutcome {
    node.add_tx(tx);
    let mut block = node.produce_block().unwrap();
    assert_eq!(block.outcomes.len(), 1);
    block.outcomes.remove(0)
}

#[test]
fn test_init_genesis() {
    let db = sled::Config::new().path("/tmp/temp_spin_db").temporary(true).open().unwrap();
    let mut node = SpinNode::new(Storage::new(db), 1);
    node.init_genesis().unwrap();

    let latest_block = node.latest_block().unwrap();
    assert_eq!(latest_block.height, 1);
}

#[test]
fn create_account_succeeds_exactly_once() {
    let mut node = temp_node();
    let first = run_one(&mut node, create_account_tx(b"alice"));
    assert!(first.result.is_ok());
    let second = run_one(&mut node, create_account_tx(b"alice"));
    assert_eq!(second.result.unwrap_err(), ErrorKind::AccountAlreadyExists);
}

#[test]
fn account_info_on_missing_id_fails() {
    let mut node = temp_node();
    let outcome = run_one(&mut node, account_info_tx(b"nobody"));
    assert_eq!(outcome.result.unwrap_err(), ErrorKind::AccountNotFound);
}

#[test]
fn account_info_returns_the_stored_record() {
    let mut node = temp_node();
    run_one(&mut node, create_account_tx(b"alice"));
    let outcome = run_one(&mut node, account_info_tx(b"alice"));
    let output = outcome.result.unwrap().output;
    let (account, read) = decode_account(&output, 0).unwrap();
    assert_eq!(read, output.len());
    assert_eq!(account.account_id, id(b"alice"));
    assert_eq!(account.public_key, Vec::<u8>::new());
    assert_eq!(account.code_hash, Digest::new(vec![0; 32]));
    assert_eq!(account.balance, 0);
    assert_eq!(account.nonce, 0);
}

#[test]
fn deploy_requires_an_existing_account() {
    let mut node = temp_node();
    let outcome = run_one(&mut node, deploy_tx(b"ghost", b"counter"));
    assert_eq!(outcome.result.unwrap_err(), ErrorKind::AccountNotFound);
}

#[test]
fn deploy_updates_the_code_hash_and_routes_calls() {
    let mut node = temp_node();
    run_one(&mut node, create_account_tx(b"ctr"));
    let deployed = run_one(&mut node, deploy_tx(b"ctr", b"counter"));
    assert!(deployed.result.is_ok());

    let outcome = run_one(&mut node, account_info_tx(b"ctr"));
    let output = outcome.result.unwrap().output;
    let (account, _) = decode_account(&output, 0).unwrap();
    let expected = spin_runtime::digest::compute_digest(&b"counter".to_vec());
    assert_eq!(account.code_hash, expected);

    // subsequent calls reach the deployed program
    let init = run_one(&mut node, call_tx(b"ctr", b"init", Vec::new(), b"alice"));
    assert!(init.result.is_ok());
    run_one(&mut node, call_tx(b"ctr", b"add", Vec::new(), b"alice"));
    run_one(&mut node, call_tx(b"ctr", b"add", Vec::new(), b"alice"));
    let got = run_one(&mut node, call_tx(b"ctr", b"get", Vec::new(), b"alice"));
    let mut expected_output = Vec::new();
    encode_u64(&mut expected_output, 2);
    assert_eq!(got.result.unwrap().output, expected_output);
}

#[test]
fn missing_program_is_a_per_transaction_failure() {
    let mut node = temp_node();
    run_one(&mut node, create_account_tx(b"bare"));
    let outcome = run_one(&mut node, call_tx(b"bare", b"init", Vec::new(), b"alice"));
    assert_eq!(outcome.result.unwrap_err(), ErrorKind::MissingProgram);
}

#[test]
fn corrupted_args_are_a_per_transaction_failure() {
    let mut node = temp_node();
    let tx = build_transaction(
        id(b"spin"),
        b"create_account".to_vec(),
        vec![0xff, 0xff],
        GAS,
        id(b""),
    );
    let outcome = run_one(&mut node, tx);
    assert_eq!(outcome.result.unwrap_err(), ErrorKind::CorruptedInput);
}

#[test]
fn insufficient_gas_fails_deterministically_and_is_isolated() {
    let mut node = temp_node();
    let mut args = Vec::new();
    encode_bytes(&mut args, &b"alice".to_vec());
    encode_bytes(&mut args, &Vec::new());
    let starving = build_transaction(id(b"spin"), b"create_account".to_vec(), args, 5, id(b""));
    let outcome = run_one(&mut node, starving);
    assert_eq!(outcome.result.unwrap_err(), ErrorKind::GasExhausted);
    assert_eq!(outcome.gas_used, 5);

    // the failed run affects no later transaction
    let after = run_one(&mut node, create_account_tx(b"alice"));
    assert!(after.result.is_ok());
}

#[test]
fn produce_block_is_deterministic() {
    let mut left = temp_node();
    let mut right = temp_node();
    for node in [&mut left, &mut right] {
        node.add_tx(create_account_tx(b"alice"));
        node.add_tx(create_account_tx(b"alice"));
        node.add_tx(account_info_tx(b"alice"));
    }
    let a = left.produce_block().unwrap();
    let b = right.produce_block().unwrap();
    assert_eq!(a, b);
    assert_eq!(a.height, 2);
    assert_eq!(left.latest_block().unwrap(), right.latest_block().unwrap());
}

#[test]
fn produce_block_extends_the_chain() {
    let mut node = temp_node();
    let genesis = node.latest_block().unwrap();
    node.add_tx(create_account_tx(b"alice"));
    let block = node.produce_block().unwrap();
    assert_eq!(block.height, genesis.height + 1);
    assert_eq!(block.parent_hash, genesis.hash);
    assert_eq!(node.latest_block().unwrap(), block);
    assert_eq!(node.block_by_height(2).unwrap().unwrap(), block);
    assert!(node.block_by_height(3).unwrap().is_none());
}

#[test]
fn outcomes_are_looked_up_by_transaction_hash() {
    let mut node = temp_node();
    let tx = create_account_tx(b"alice");
    let hash = Digest::new(tx.tx.hash.bytes.clone());
    node.add_tx(tx);
    let block = node.produce_block().unwrap();
    let outcome = block.outcome_by_hash(&hash).unwrap();
    assert!(outcome.result.is_ok());
    assert!(block.outcome_by_hash(&Digest::new(vec![9; 32])).is_none());
}

#[test]
fn fibonacci_scenario() {
    let mut node = temp_node();
    assert!(run_one(&mut node, create_account_tx(b"fib")).result.is_ok());

    let outcome = run_one(&mut node, account_info_tx(b"fib"));
    let (account, _) = decode_account(&outcome.result.unwrap().output, 0).unwrap();
    assert_eq!(account.account_id, id(b"fib"));
    assert_eq!(account.balance, 0);
    assert_eq!(account.nonce, 0);
    assert_eq!(account.code_hash, Digest::new(vec![0; 32]));

    assert!(run_one(&mut node, deploy_tx(b"fib", b"fibonacci")).result.is_ok());
    let outcome = run_one(&mut node, account_info_tx(b"fib"));
    let (account, _) = decode_account(&outcome.result.unwrap().output, 0).unwrap();
    assert_eq!(account.code_hash, spin_runtime::digest::compute_digest(&b"fibonacci".to_vec()));

    let mut args = Vec::new();
    encode_u32(&mut args, 10);
    let outcome = run_one(&mut node, call_tx(b"fib", b"compute", args, b""));
    let mut expected = Vec::new();
    encode_u64(&mut expected, 55);
    assert_eq!(outcome.result.unwrap().output, expected);
}

#[test]
fn exact_attached_gas_suffices() {
    // the routed call carries the body's attached gas unmodified: attaching
    // exactly the target program's cost is enough to run it
    let mut node = temp_node();
    run_one(&mut node, create_account_tx(b"fib"));
    run_one(&mut node, deploy_tx(b"fib", b"fibonacci"));
    let mut args = Vec::new();
    encode_u32(&mut args, 10);
    let cost = 1000 + 10 * 10;
    let exact = build_transaction(id(b"fib"), b"compute".to_vec(), args.clone(), cost, id(b""));
    let outcome = run_one(&mut node, exact);
    assert!(outcome.result.is_ok());
    assert_eq!(outcome.gas_used, cost);

    let starved = build_transaction(id(b"fib"), b"compute".to_vec(), args, cost - 1, id(b""));
    let outcome = run_one(&mut node, starved);
    assert_eq!(outcome.result.unwrap_err(), ErrorKind::GasExhausted);
}

#[test]
fn gas_grows_with_the_work_asked_for() {
    let mut node = temp_node();
    run_one(&mut node, create_account_tx(b"fib"));
    run_one(&mut node, deploy_tx(b"fib", b"fibonacci"));
    let mut args = Vec::new();
    encode_u32(&mut args, 5);
    let small = run_one(&mut node, call_tx(b"fib", b"compute", args, b""));
    let mut args = Vec::new();
    encode_u32(&mut args, 50);
    let large = run_one(&mut node, call_tx(b"fib", b"compute", args, b""));
    assert!(small.result.is_ok() && large.result.is_ok());
    assert!(small.gas_used < large.gas_used);
}

#[test]
fn cycle_measurement_is_monotonic() {
    let small = spin_runtime::gas::measure_cycles(&vec![3, 4]);
    assert_eq!(small, 8 + 16);
    let wider = spin_runtime::gas::measure_cycles(&vec![3, 5]);
    let longer = spin_runtime::gas::measure_cycles(&vec![3, 4, 1]);
    assert!(small <= wider);
    assert!(small <= longer);
    assert_eq!(spin_runtime::gas::measure_cycles(&vec![64]), u64::MAX);
}

fn token_node() -> SpinNode {
    let mut node = temp_node();
    run_one(&mut node, create_account_tx(b"tok"));
    run_one(&mut node, deploy_tx(b"tok", b"token"));
    let mut args = Vec::new();
    encode_bytes(&mut args, &b"TOK".to_vec());
    encode_u128(&mut args, 1000);
    let outcome = run_one(&mut node, call_tx(b"tok", b"init", args, b"alice"));
    assert!(outcome.result.is_ok());
    node
}

fn balance_of(node: &mut SpinNode, address: &[u8]) -> Vec<u8> {
    let mut args = Vec::new();
    encode_bytes(&mut args, &address.to_vec());
    let outcome = run_one(node, call_tx(b"tok", b"balance_of", args, b""));
    outcome.result.unwrap().output
}

fn amount(x: u128) -> Vec<u8> {
    let mut v = Vec::new();
    encode_u128(&mut v, x);
    v
}

#[test]
fn token_init_gives_the_owner_the_supply() {
    let mut node = token_node();
    assert_eq!(balance_of(&mut node, b"alice"), amount(1000));
    assert_eq!(balance_of(&mut node, b"bob"), amount(0));
    let outcome = run_one(&mut node, call_tx(b"tok", b"get_owner", Vec::new(), b""));
    let mut expected = Vec::new();
    encode_bytes(&mut expected, &b"alice".to_vec());
    assert_eq!(outcome.result.unwrap().output, expected);
}

#[test]
fn token_transfer_moves_the_amount() {
    let mut node = token_node();
    let mut args = Vec::new();
    encode_bytes(&mut args, &b"bob".to_vec());
    encode_u128(&mut args, 300);
    let outcome = run_one(&mut node, call_tx(b"tok", b"transfer", args, b"alice"));
    assert!(outcome.result.is_ok());
    assert_eq!(balance_of(&mut node, b"alice"), amount(700));
    assert_eq!(balance_of(&mut node, b"bob"), amount(300));
}

#[test]
fn token_transfer_without_funds_fails() {
    let mut node = token_node();
    let mut args = Vec::new();
    encode_bytes(&mut args, &b"alice".to_vec());
    encode_u128(&mut args, 10);
    let outcome = run_one(&mut node, call_tx(b"tok", b"transfer", args, b"bob"));
    assert_eq!(outcome.result.unwrap_err(), ErrorKind::InsufficientResource);
    assert_eq!(balance_of(&mut node, b"alice"), amount(1000));
}

#[test]
fn token_mint_is_owner_only() {
    let mut node = token_node();
    let outcome = run_one(&mut node, call_tx(b"tok", b"mint", amount(5), b"bob"));
    assert_eq!(outcome.result.unwrap_err(), ErrorKind::Unauthorized);
    let outcome = run_one(&mut node, call_tx(b"tok", b"mint", amount(5), b"alice"));
    assert!(outcome.result.is_ok());
    assert_eq!(balance_of(&mut node, b"alice"), amount(1005));
}

#[test]
fn token_burn_needs_the_balance() {
    let mut node = token_node();
    let outcome = run_one(&mut node, call_tx(b"tok", b"burn", amount(2000), b"alice"));
    assert_eq!(outcome.result.unwrap_err(), ErrorKind::InsufficientResource);
    let outcome = run_one(&mut node, call_tx(b"tok", b"burn", amount(400), b"alice"));
    assert!(outcome.result.is_ok());
    assert_eq!(balance_of(&mut node, b"alice"), amount(600));
}

#[test]
fn token_set_owner_hands_over() {
    let mut node = token_node();
    let mut args = Vec::new();
    encode_bytes(&mut args, &b"bob".to_vec());
    let outcome = run_one(&mut node, call_tx(b"tok", b"set_owner", args.clone(), b"bob"));
    assert_eq!(outcome.result.unwrap_err(), ErrorKind::Unauthorized);
    let outcome = run_one(&mut node, call_tx(b"tok", b"set_owner", args, b"alice"));
    assert!(outcome.result.is_ok());
    let outcome = run_one(&mut node, call_tx(b"tok", b"mint", amount(1), b"bob"));
    assert!(outcome.result.is_ok());
}

#[test]
fn storage_reads_back_what_was_written() {
    let db = sled::Config::new().temporary(true).open().unwrap();
    let mut storage = Storage::new(db);
    let key = b"k".to_vec();
    assert_eq!(storage.get(&key).unwrap(), None);
    storage.put(&key, &b"v1".to_vec()).unwrap();
    assert_eq!(storage.get(&key).unwrap(), Some(b"v1".to_vec()));
    storage.put(&key, &b"v2".to_vec()).unwrap();
    assert_eq!(storage.get(&key).unwrap(), Some(b"v2".to_vec()));
}

#[test]
fn failed_transactions_leave_no_partial_writes() {
    let mut node = temp_node();
    // deployment writes code and account; a failing deploy must write neither
    let outcome = run_one(&mut node, deploy_tx(b"ghost", b"counter"));
    assert!(outcome.result.is_err());
    let outcome = run_one(&mut node, call_tx(b"ghost", b"init", Vec::new(), b""));
    assert_eq!(outcome.result.unwrap_err(), ErrorKind::MissingProgram);
}
