use spin_runtime::codec::{
    decode_bytes, decode_u128, decode_u32, decode_u64, encode_bytes, encode_u128, encode_u32,
    encode_u64,
};
use spin_runtime::types::{
    Account, AccountId, Block, Digest, SignedTransaction, Transaction, TransactionBody, TxOutcome,
};
use spin_runtime::wire::{
    decode_account, decode_block, decode_stx, decode_tx_body, encode_account, encode_block,
    encode_stx, encode_tx_body,
};

fn digest32(seed: u8) -> Digest {
    Digest::new(vec![seed; 32])
}

fn sample_account() -> Account {
    Account {
        account_id: AccountId::new(b"alice".to_vec()),
        public_key: vec![1, 2, 3, 4],
        code_hash: digest32(7),
        balance: 123_456_789_000,
        nonce: 42,
    }
}

fn sample_body() -> TransactionBody {
    TransactionBody {
        contract: AccountId::new(b"spin".to_vec()),
        method: b"create_account".to_vec(),
        args: vec![9, 8, 7],
        attached_gas: 1_000_000,
        signer: AccountId::new(b"alice".to_vec()),
    }
}

fn sample_stx() -> SignedTransaction {
    SignedTransaction {
        tx: Transaction {
            body: sample_body(),
            hash: digest32(5),
        },
        signature: vec![0; 8],
    }
}

#[test]
fn u32_round_trip() {
    let mut buf = Vec::new();
    encode_u32(&mut buf, 0xdead_beef);
    assert_eq!(buf, vec![0xef, 0xbe, 0xad, 0xde]);
    let (x, p) = decode_u32(&buf, 0).unwrap();
    assert_eq!(x, 0xdead_beef);
    assert_eq!(p, 4);
}

#[test]
fn u64_round_trip() {
    let mut buf = Vec::new();
    encode_u64(&mut buf, u64::MAX - 3);
    let (x, p) = decode_u64(&buf, 0).unwrap();
    assert_eq!(x, u64::MAX - 3);
    assert_eq!(p, 8);
}

#[test]
fn u128_round_trip() {
    let mut buf = Vec::new();
    encode_u128(&mut buf, 340_282_366_920_938_463_463_374_607_431_768_211_455u128);
    let (x, p) = decode_u128(&buf, 0).unwrap();
    assert_eq!(x, u128::MAX);
    assert_eq!(p, 16);
}

#[test]
fn bytes_round_trip() {
    let mut buf = Vec::new();
    encode_bytes(&mut buf, &b"hello".to_vec());
    let (b, p) = decode_bytes(&buf, 0).unwrap();
    assert_eq!(b, b"hello".to_vec());
    assert_eq!(p, 9);
}

#[test]
fn truncated_input_is_rejected() {
    let mut buf = Vec::new();
    encode_bytes(&mut buf, &b"hello".to_vec());
    buf.pop();
    assert!(decode_bytes(&buf, 0).is_none());
    assert!(decode_u64(&vec![1, 2, 3], 0).is_none());
}

#[test]
fn integer_encoding_matches_reference_serializer() {
    let mut buf = Vec::new();
    encode_u32(&mut buf, 123_456);
    assert_eq!(buf, borsh::to_vec(&123_456u32).unwrap());
    let mut buf = Vec::new();
    encode_u64(&mut buf, 987_654_321_000);
    assert_eq!(buf, borsh::to_vec(&987_654_321_000u64).unwrap());
    let mut buf = Vec::new();
    encode_u128(&mut buf, 1 << 100);
    assert_eq!(buf, borsh::to_vec(&(1u128 << 100)).unwrap());
}

#[test]
fn string_encoding_matches_reference_serializer() {
    let mut buf = Vec::new();
    encode_bytes(&mut buf, &b"alice".to_vec());
    assert_eq!(buf, borsh::to_vec(&"alice".to_string()).unwrap());
    assert_eq!(buf, borsh::to_vec(&b"alice".to_vec()).unwrap());
}

#[test]
fn account_round_trip() {
    let account = sample_account();
    let mut buf = Vec::new();
    encode_account(&mut buf, &account);
    let (decoded, p) = decode_account(&buf, 0).unwrap();
    assert_eq!(p, buf.len());
    assert_eq!(decoded, account);
}

#[test]
fn transaction_body_round_trip() {
    let body = sample_body();
    let mut buf = Vec::new();
    encode_tx_body(&mut buf, &body);
    let (decoded, p) = decode_tx_body(&buf, 0).unwrap();
    assert_eq!(p, buf.len());
    assert_eq!(decoded, body);
}

#[test]
fn signed_transaction_round_trip() {
    let stx = sample_stx();
    let mut buf = Vec::new();
    encode_stx(&mut buf, &stx);
    let (decoded, p) = decode_stx(&buf, 0).unwrap();
    assert_eq!(p, buf.len());
    assert_eq!(decoded, stx);
}

#[test]
fn block_round_trip() {
    let stx = sample_stx();
    let outcome = TxOutcome {
        gas_used: 1000,
        result: Ok(spin_runtime::types::ExecutionOutcome { output: vec![1, 2] }),
    };
    let failed = TxOutcome {
        gas_used: 7,
        result: Err(spin_runtime::errors::ErrorKind::GasExhausted),
    };
    let stx2 = sample_stx();
    let block = Block {
        height: 9,
        hash: digest32(1),
        parent_hash: digest32(2),
        timestamp: 0,
        txs: vec![stx, stx2],
        outcomes: vec![outcome, failed],
        artifacts: vec![vec![1, 2, 3], vec![]],
    };
    let mut buf = Vec::new();
    encode_block(&mut buf, &block);
    let (decoded, p) = decode_block(&buf, 0).unwrap();
    assert_eq!(p, buf.len());
    assert_eq!(decoded, block);
}

#[test]
fn digest_is_a_function_of_the_bytes() {
    let a = spin_runtime::digest::compute_digest(&b"abc".to_vec());
    let b = spin_runtime::digest::compute_digest(&b"abc".to_vec());
    let c = spin_runtime::digest::compute_digest(&b"abd".to_vec());
    assert_eq!(a.bytes, b.bytes);
    assert_ne!(a.bytes, c.bytes);
    assert_eq!(a.bytes.len(), 32);
}
