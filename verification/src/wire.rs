//! The wire encoding of the ledger's record types, built from the shapes in
//! `codec`. For every record there is a specification-level encoder and
//! decoder, executable counterparts proved against them, and a lemma that
//! decoding an encoding reproduces the record exactly.

use vstd::prelude::*;

use crate::codec::{
    bytes_fit, copy_range, dec_bytes, dec_u128, dec_u32, dec_u64, decode_bytes, decode_u128,
    decode_u32, decode_u64, enc_bytes, enc_u128, enc_u32, enc_u64, encode_bytes, encode_u128,
    encode_u32, encode_u64, lemma_dec_enc_bytes, lemma_dec_enc_u128, lemma_dec_enc_u32,
    lemma_dec_enc_u64, lemma_subrange_split,
};
use crate::errors::{error_code, error_of_code, spec_error_code, spec_error_of_code, ErrorKind};
use crate::types::{
    Account, AccountId, AccountV, Block, BlockV, Digest, ExecutionOutcome, ExecutionOutcomeV, SignedTransaction,
    SignedTransactionV, Transaction, TransactionBody, TransactionBodyV, TransactionV, TxOutcome,
    TxOutcomeV, DIGEST_LEN,
};

verus! {

/// A single byte.
pub open spec fn dec_u8(s: Seq<u8>, pos: int) -> Option<(u8, int)> {
    if 0 <= pos && pos + 1 <= s.len() {
        Some((s[pos], pos + 1))
    } else {
        None
    }
}

pub fn decode_u8(s: &Vec<u8>, pos: usize) -> (r: Option<(u8, usize)>)
    ensures
        match r {
            Some(v) => dec_u8(s@, pos as int) == Some((v.0, v.1 as int)),
            None => dec_u8(s@, pos as int) is None,
        },
{
    if pos < s.len() {
        Some((s[pos], pos + 1))
    } else {
        None
    }
}

/// A digest is written as its thirty-two raw bytes, with no length prefix.
pub open spec fn dec_raw32(s: Seq<u8>, pos: int) -> Option<(Seq<u8>, int)> {
    if 0 <= pos && pos + 32 <= s.len() {
        Some((s.subrange(pos, pos + 32), pos + 32))
    } else {
        None
    }
}

pub proof fn lemma_dec_enc_raw32(s: Seq<u8>, pos: int, d: Seq<u8>)
    requires
        0 <= pos,
        d.len() == 32,
        pos + 32 <= s.len(),
        s.subrange(pos, pos + 32) == d,
    ensures
        dec_raw32(s, pos) == Some((d, pos + 32)),
{
}

pub fn encode_raw32(out: &mut Vec<u8>, d: &Digest)
    requires
        d.wf(),
    ensures
        final(out)@ == old(out)@ + d@,
{
    let mut i: usize = 0;
    while i < d.bytes.len()
        invariant
            i <= d.bytes.len(),
            out@ == old(out)@ + d.bytes@.subrange(0, i as int),
        decreases d.bytes.len() - i,
    {
        out.push(d.bytes[i]);
        i = i + 1;
        assert(out@ =~= old(out)@ + d.bytes@.subrange(0, i as int));
    }
    assert(out@ =~= old(out)@ + d@);
}

pub fn decode_raw32(s: &Vec<u8>, pos: usize) -> (r: Option<(Digest, usize)>)
    ensures
        match r {
            Some(v) => dec_raw32(s@, pos as int) == Some((v.0@, v.1 as int)) && v.0.wf(),
            None => dec_raw32(s@, pos as int) is None,
        },
{
    if pos < s.len() && s.len() - pos >= 32 {
        let bytes = copy_range(s, pos, pos + 32);
        Some((Digest { bytes }, pos + 32))
    } else {
        None
    }
}

/// An account record on the wire: id, public key, code hash, balance, nonce.
pub open spec fn enc_account(a: AccountV) -> Seq<u8> {
    enc_bytes(a.account_id) + enc_bytes(a.public_key) + a.code_hash + enc_u128(a.balance)
        + enc_u64(a.nonce)
}

pub open spec fn dec_account(s: Seq<u8>, pos: int) -> Option<(AccountV, int)> {
    match dec_bytes(s, pos) {
        Some((id, p1)) => match dec_bytes(s, p1) {
            Some((pk, p2)) => match dec_raw32(s, p2) {
                Some((ch, p3)) => match dec_u128(s, p3) {
                    Some((bal, p4)) => match dec_u64(s, p4) {
                        Some((nonce, p5)) => Some(
                            (
                                AccountV {
                                    account_id: id,
                                    public_key: pk,
                                    code_hash: ch,
                                    balance: bal,
                                    nonce,
                                },
                                p5,
                            ),
                        ),
                        None => None,
                    },
                    None => None,
                },
                None => None,
            },
            None => None,
        },
        None => None,
    }
}

/// Decoding at a place where an encoded account stands yields it.
pub proof fn lemma_dec_enc_account(s: Seq<u8>, pos: int, a: AccountV)
    requires
        0 <= pos,
        a.wf(),
        pos + enc_account(a).len() <= s.len(),
        s.subrange(pos, pos + enc_account(a).len()) == enc_account(a),
    ensures
        dec_account(s, pos) == Some((a, pos + enc_account(a).len())),
{
    let f1 = enc_bytes(a.account_id);
    let f2 = enc_bytes(a.public_key);
    let f3 = a.code_hash;
    let f4 = enc_u128(a.balance);
    let f5 = enc_u64(a.nonce);
    assert(enc_account(a) =~= f1 + (f2 + (f3 + (f4 + f5))));
    let p1 = pos + f1.len();
    let p2 = p1 + f2.len();
    let p3 = p2 + f3.len();
    let p4 = p3 + f4.len();
    lemma_subrange_split(s, pos, f1, f2 + (f3 + (f4 + f5)));
    lemma_subrange_split(s, p1, f2, f3 + (f4 + f5));
    lemma_subrange_split(s, p2, f3, f4 + f5);
    lemma_subrange_split(s, p3, f4, f5);
    lemma_dec_enc_bytes(s, pos, a.account_id);
    lemma_dec_enc_bytes(s, p1, a.public_key);
    lemma_dec_enc_raw32(s, p2, a.code_hash);
    lemma_dec_enc_u128(s, p3, a.balance);
    lemma_dec_enc_u64(s, p4, a.nonce);
}

pub fn encode_account(out: &mut Vec<u8>, a: &Account)
    requires
        a@.wf(),
    ensures
        final(out)@ == old(out)@ + enc_account(a@),
{
    encode_bytes(out, &a.account_id.bytes);
    encode_bytes(out, &a.public_key);
    encode_raw32(out, &a.code_hash);
    encode_u128(out, a.balance);
    encode_u64(out, a.nonce);
    assert(out@ =~= old(out)@ + enc_account(a@));
}

pub fn decode_account(s: &Vec<u8>, pos: usize) -> (r: Option<(Account, usize)>)
    ensures
        match r {
            Some(v) => dec_account(s@, pos as int) == Some((v.0@, v.1 as int)) && v.0@.wf(),
            None => dec_account(s@, pos as int) is None,
        },
{
    match decode_bytes(s, pos) {
        Some((id, p1)) => match decode_bytes(s, p1) {
            Some((pk, p2)) => match decode_raw32(s, p2) {
                Some((ch, p3)) => match decode_u128(s, p3) {
                    Some((bal, p4)) => match decode_u64(s, p4) {
                        Some((nonce, p5)) => Some(
                            (
                                Account {
                                    account_id: AccountId { bytes: id },
                                    public_key: pk,
                                    code_hash: ch,
                                    balance: bal,
                                    nonce,
                                },
                                p5,
                            ),
                        ),
                        None => None,
                    },
                    None => None,
                },
                None => None,
            },
            None => None,
        },
        None => None,
    }
}

/// Decoding the encoding of an account reproduces it exactly.
pub proof fn lemma_account_round_trip(a: AccountV)
    requires
        a.wf(),
    ensures
        dec_account(enc_account(a), 0) == Some((a, enc_account(a).len() as int)),
{
    let s = enc_account(a);
    assert(s.subrange(0, s.len() as int) =~= s);
    lemma_dec_enc_account(s, 0, a);
}

/// A transaction body on the wire: contract, method, args, gas, signer.
pub open spec fn enc_tx_body(b: TransactionBodyV) -> Seq<u8> {
    enc_bytes(b.contract) + enc_bytes(b.method) + enc_bytes(b.args) + enc_u64(b.attached_gas)
        + enc_bytes(b.signer)
}

pub open spec fn dec_tx_body(s: Seq<u8>, pos: int) -> Option<(TransactionBodyV, int)> {
    match dec_bytes(s, pos) {
        Some((contract, p1)) => match dec_bytes(s, p1) {
            Some((method, p2)) => match dec_bytes(s, p2) {
                Some((args, p3)) => match dec_u64(s, p3) {
                    Some((gas, p4)) => match dec_bytes(s, p4) {
                        Some((signer, p5)) => Some(
                            (
                                TransactionBodyV {
                                    contract,
                                    method,
                                    args,
                                    attached_gas: gas,
                                    signer,
                                },
                                p5,
                            ),
                        ),
                        None => None,
                    },
                    None => None,
                },
                None => None,
            },
            None => None,
        },
        None => None,
    }
}

/// Decoding at a place where an encoded transaction body stands yields it.
pub proof fn lemma_dec_enc_tx_body(s: Seq<u8>, pos: int, b: TransactionBodyV)
    requires
        0 <= pos,
        b.wf(),
        pos + enc_tx_body(b).len() <= s.len(),
        s.subrange(pos, pos + enc_tx_body(b).len()) == enc_tx_body(b),
    ensures
        dec_tx_body(s, pos) == Some((b, pos + enc_tx_body(b).len())),
{
    let f1 = enc_bytes(b.contract);
    let f2 = enc_bytes(b.method);
    let f3 = enc_bytes(b.args);
    let f4 = enc_u64(b.attached_gas);
    let f5 = enc_bytes(b.signer);
    assert(enc_tx_body(b) =~= f1 + (f2 + (f3 + (f4 + f5))));
    let p1 = pos + f1.len();
    let p2 = p1 + f2.len();
    let p3 = p2 + f3.len();
    let p4 = p3 + f4.len();
    lemma_subrange_split(s, pos, f1, f2 + (f3 + (f4 + f5)));
    lemma_subrange_split(s, p1, f2, f3 + (f4 + f5));
    lemma_subrange_split(s, p2, f3, f4 + f5);
    lemma_subrange_split(s, p3, f4, f5);
    lemma_dec_enc_bytes(s, pos, b.contract);
    lemma_dec_enc_bytes(s, p1, b.method);
    lemma_dec_enc_bytes(s, p2, b.args);
    lemma_dec_enc_u64(s, p3, b.attached_gas);
    lemma_dec_enc_bytes(s, p4, b.signer);
}

pub fn encode_tx_body(out: &mut Vec<u8>, b: &TransactionBody)
    requires
        b@.wf(),
    ensures
        final(out)@ == old(out)@ + enc_tx_body(b@),
{
    encode_bytes(out, &b.contract.bytes);
    encode_bytes(out, &b.method);
    encode_bytes(out, &b.args);
    encode_u64(out, b.attached_gas);
    encode_bytes(out, &b.signer.bytes);
    assert(out@ =~= old(out)@ + enc_tx_body(b@));
}

pub fn decode_tx_body(s: &Vec<u8>, pos: usize) -> (r: Option<(TransactionBody, usize)>)
    ensures
        match r {
            Some(v) => dec_tx_body(s@, pos as int) == Some((v.0@, v.1 as int)) && v.0@.wf(),
            None => dec_tx_body(s@, pos as int) is None,
        },
{
    match decode_bytes(s, pos) {
        Some((contract, p1)) => match decode_bytes(s, p1) {
            Some((method, p2)) => match decode_bytes(s, p2) {
                Some((args, p3)) => match decode_u64(s, p3) {
                    Some((gas, p4)) => match decode_bytes(s, p4) {
                        Some((signer, p5)) => Some(
                            (
                                TransactionBody {
                                    contract: AccountId { bytes: contract },
                                    method,
                                    args,
                                    attached_gas: gas,
                                    signer: AccountId { bytes: signer },
                                },
                                p5,
                            ),
                        ),
                        None => None,
                    },
                    None => None,
                },
                None => None,
            },
            None => None,
        },
        None => None,
    }
}

/// Decoding the encoding of a transaction body reproduces it exactly.
pub proof fn lemma_tx_body_round_trip(b: TransactionBodyV)
    requires
        b.wf(),
    ensures
        dec_tx_body(enc_tx_body(b), 0) == Some((b, enc_tx_body(b).len() as int)),
{
    let s = enc_tx_body(b);
    assert(s.subrange(0, s.len() as int) =~= s);
    lemma_dec_enc_tx_body(s, 0, b);
}

/// A transaction on the wire: its body, then its hash.
pub open spec fn enc_tx(t: TransactionV) -> Seq<u8> {
    enc_tx_body(t.body) + t.hash
}

pub open spec fn dec_tx(s: Seq<u8>, pos: int) -> Option<(TransactionV, int)> {
    match dec_tx_body(s, pos) {
        Some((body, p1)) => match dec_raw32(s, p1) {
            Some((hash, p2)) => Some((TransactionV { body, hash }, p2)),
            None => None,
        },
        None => None,
    }
}

pub proof fn lemma_dec_enc_tx(s: Seq<u8>, pos: int, t: TransactionV)
    requires
        0 <= pos,
        t.wf(),
        pos + enc_tx(t).len() <= s.len(),
        s.subrange(pos, pos + enc_tx(t).len()) == enc_tx(t),
    ensures
        dec_tx(s, pos) == Some((t, pos + enc_tx(t).len())),
{
    lemma_subrange_split(s, pos, enc_tx_body(t.body), t.hash);
    lemma_dec_enc_tx_body(s, pos, t.body);
    lemma_dec_enc_raw32(s, pos + enc_tx_body(t.body).len(), t.hash);
}

pub fn encode_tx(out: &mut Vec<u8>, t: &Transaction)
    requires
        t@.wf(),
    ensures
        final(out)@ == old(out)@ + enc_tx(t@),
{
    encode_tx_body(out, &t.body);
    encode_raw32(out, &t.hash);
    assert(out@ =~= old(out)@ + enc_tx(t@));
}

pub fn decode_tx(s: &Vec<u8>, pos: usize) -> (r: Option<(Transaction, usize)>)
    ensures
        match r {
            Some(v) => dec_tx(s@, pos as int) == Some((v.0@, v.1 as int)) && v.0@.wf(),
            None => dec_tx(s@, pos as int) is None,
        },
{
    match decode_tx_body(s, pos) {
        Some((body, p1)) => match decode_raw32(s, p1) {
            Some((hash, p2)) => Some((Transaction { body, hash }, p2)),
            None => None,
        },
        None => None,
    }
}

/// A signed transaction on the wire: the transaction, then the signature.
pub open spec fn enc_stx(t: SignedTransactionV) -> Seq<u8> {
    enc_tx(t.tx) + enc_bytes(t.signature)
}

pub open spec fn dec_stx(s: Seq<u8>, pos: int) -> Option<(SignedTransactionV, int)> {
    match dec_tx(s, pos) {
        Some((tx, p1)) => match dec_bytes(s, p1) {
            Some((signature, p2)) => Some((SignedTransactionV { tx, signature }, p2)),
            None => None,
        },
        None => None,
    }
}

pub proof fn lemma_dec_enc_stx(s: Seq<u8>, pos: int, t: SignedTransactionV)
    requires
        0 <= pos,
        t.wf(),
        pos + enc_stx(t).len() <= s.len(),
        s.subrange(pos, pos + enc_stx(t).len()) == enc_stx(t),
    ensures
        dec_stx(s, pos) == Some((t, pos + enc_stx(t).len())),
{
    lemma_subrange_split(s, pos, enc_tx(t.tx), enc_bytes(t.signature));
    lemma_dec_enc_tx(s, pos, t.tx);
    lemma_dec_enc_bytes(s, pos + enc_tx(t.tx).len(), t.signature);
}

pub fn encode_stx(out: &mut Vec<u8>, t: &SignedTransaction)
    requires
        t@.wf(),
    ensures
        final(out)@ == old(out)@ + enc_stx(t@),
{
    encode_tx(out, &t.tx);
    encode_bytes(out, &t.signature);
    assert(out@ =~= old(out)@ + enc_stx(t@));
}

pub fn decode_stx(s: &Vec<u8>, pos: usize) -> (r: Option<(SignedTransaction, usize)>)
    ensures
        match r {
            Some(v) => dec_stx(s@, pos as int) == Some((v.0@, v.1 as int)) && v.0@.wf(),
            None => dec_stx(s@, pos as int) is None,
        },
{
    match decode_tx(s, pos) {
        Some((tx, p1)) => match decode_bytes(s, p1) {
            Some((signature, p2)) => Some((SignedTransaction { tx, signature }, p2)),
            None => None,
        },
        None => None,
    }
}

/// Decoding the encoding of a signed transaction reproduces it exactly.
pub proof fn lemma_stx_round_trip(t: SignedTransactionV)
    requires
        t.wf(),
    ensures
        dec_stx(enc_stx(t), 0) == Some((t, enc_stx(t).len() as int)),
{
    let s = enc_stx(t);
    assert(s.subrange(0, s.len() as int) =~= s);
    lemma_dec_enc_stx(s, 0, t);
}

/// A per-transaction outcome on the wire: the gas charged, then a tag byte
/// (zero for success, one for failure) and the output or the failure code.
pub open spec fn enc_tx_outcome(o: TxOutcomeV) -> Seq<u8> {
    enc_u64(o.gas_used) + match o.result {
        Ok(out) => seq![0u8] + enc_bytes(out.output),
        Err(e) => seq![1u8, spec_error_code(e)],
    }
}

pub open spec fn dec_tx_outcome(s: Seq<u8>, pos: int) -> Option<(TxOutcomeV, int)> {
    match dec_u64(s, pos) {
        Some((gas, p1)) => match dec_u8(s, p1) {
            Some((tag, p2)) => if tag == 0 {
                match dec_bytes(s, p2) {
                    Some((output, p3)) => Some(
                        (
                            TxOutcomeV {
                                gas_used: gas,
                                result: Ok(ExecutionOutcomeV { output }),
                            },
                            p3,
                        ),
                    ),
                    None => None,
                }
            } else if tag == 1 {
                match dec_u8(s, p2) {
                    Some((code, p3)) => match spec_error_of_code(code) {
                        Some(e) => Some((TxOutcomeV { gas_used: gas, result: Err(e) }, p3)),
                        None => None,
                    },
                    None => None,
                }
            } else {
                None
            },
            None => None,
        },
        None => None,
    }
}

pub proof fn lemma_dec_enc_tx_outcome(s: Seq<u8>, pos: int, o: TxOutcomeV)
    requires
        0 <= pos,
        o.wf(),
        pos + enc_tx_outcome(o).len() <= s.len(),
        s.subrange(pos, pos + enc_tx_outcome(o).len()) == enc_tx_outcome(o),
    ensures
        dec_tx_outcome(s, pos) == Some((o, pos + enc_tx_outcome(o).len())),
{
    let f1 = enc_u64(o.gas_used);
    match o.result {
        Ok(out) => {
            let f2 = seq![0u8];
            let f3 = enc_bytes(out.output);
            assert(enc_tx_outcome(o) =~= f1 + (f2 + f3));
            lemma_subrange_split(s, pos, f1, f2 + f3);
            lemma_subrange_split(s, pos + 8, f2, f3);
            lemma_dec_enc_u64(s, pos, o.gas_used);
            assert(s[pos + 8] == 0u8) by {
                assert(s.subrange(pos + 8, pos + 9)[0] == s[pos + 8]);
            }
            lemma_dec_enc_bytes(s, pos + 9, out.output);
        },
        Err(e) => {
            let f2 = seq![1u8, spec_error_code(e)];
            assert(enc_tx_outcome(o) =~= f1 + f2);
            lemma_subrange_split(s, pos, f1, f2);
            lemma_dec_enc_u64(s, pos, o.gas_used);
            assert(s[pos + 8] == 1u8 && s[pos + 9] == spec_error_code(e)) by {
                assert(s.subrange(pos + 8, pos + 10)[0] == s[pos + 8]);
                assert(s.subrange(pos + 8, pos + 10)[1] == s[pos + 9]);
            }
            crate::errors::lemma_error_code_round_trip(e);
        },
    }
}

pub fn encode_tx_outcome(out: &mut Vec<u8>, o: &TxOutcome)
    requires
        o@.wf(),
    ensures
        final(out)@ == old(out)@ + enc_tx_outcome(o@),
{
    encode_u64(out, o.gas_used);
    match &o.result {
        Ok(outcome) => {
            out.push(0);
            encode_bytes(out, &outcome.output);
        },
        Err(e) => {
            out.push(1);
            out.push(error_code(*e));
        },
    }
    assert(out@ =~= old(out)@ + enc_tx_outcome(o@));
}

pub fn decode_tx_outcome(s: &Vec<u8>, pos: usize) -> (r: Option<(TxOutcome, usize)>)
    ensures
        match r {
            Some(v) => dec_tx_outcome(s@, pos as int) == Some((v.0@, v.1 as int)) && v.0@.wf(),
            None => dec_tx_outcome(s@, pos as int) is None,
        },
{
    match decode_u64(s, pos) {
        Some((gas, p1)) => match decode_u8(s, p1) {
            Some((tag, p2)) => if tag == 0 {
                match decode_bytes(s, p2) {
                    Some((output, p3)) => Some(
                        (
                            TxOutcome {
                                gas_used: gas,
                                result: Ok(ExecutionOutcome { output }),
                            },
                            p3,
                        ),
                    ),
                    None => None,
                }
            } else if tag == 1 {
                match decode_u8(s, p2) {
                    Some((code, p3)) => match error_of_code(code) {
                        Some(e) => Some((TxOutcome { gas_used: gas, result: Err(e) }, p3)),
                        None => None,
                    },
                    None => None,
                }
            } else {
                None
            },
            None => None,
        },
        None => None,
    }
}

/// The views of a vector of signed transactions.
pub open spec fn stx_views(v: Seq<SignedTransaction>) -> Seq<SignedTransactionV> {
    v.map_values(|t: SignedTransaction| t@)
}

/// The views of a vector of outcomes.
pub open spec fn outcome_views(v: Seq<TxOutcome>) -> Seq<TxOutcomeV> {
    v.map_values(|o: TxOutcome| o@)
}

/// The views of a vector of byte strings.
pub open spec fn bytes_views(v: Seq<Vec<u8>>) -> Seq<Seq<u8>> {
    v.map_values(|b: Vec<u8>| b@)
}

/// The concatenation of the encodings of a row of signed transactions.
pub open spec fn enc_stx_seq(ts: Seq<SignedTransactionV>) -> Seq<u8>
    decreases ts.len(),
{
    if ts.len() == 0 {
        Seq::empty()
    } else {
        enc_stx(ts[0]) + enc_stx_seq(ts.skip(1))
    }
}

pub proof fn lemma_enc_stx_seq_push(ts: Seq<SignedTransactionV>, t: SignedTransactionV)
    ensures
        enc_stx_seq(ts.push(t)) == enc_stx_seq(ts) + enc_stx(t),
    decreases ts.len(),
{
    if ts.len() == 0 {
        assert(ts.push(t)[0] == t);
        assert(ts.push(t).skip(1) =~= Seq::<SignedTransactionV>::empty());
        assert(enc_stx_seq(Seq::<SignedTransactionV>::empty()) == Seq::<u8>::empty());
        assert(enc_stx_seq(ts.push(t)) == enc_stx(t) + enc_stx_seq(ts.push(t).skip(1)));
        assert(enc_stx_seq(ts.push(t)) =~= enc_stx_seq(ts) + enc_stx(t));
    } else {
        lemma_enc_stx_seq_push(ts.skip(1), t);
        assert(ts.push(t).skip(1) =~= ts.skip(1).push(t));
        assert(ts.push(t)[0] == ts[0]);
        assert(enc_stx_seq(ts.push(t)) == enc_stx(ts[0]) + enc_stx_seq(ts.skip(1).push(t)));
        assert(enc_stx_seq(ts) == enc_stx(ts[0]) + enc_stx_seq(ts.skip(1)));
        assert(enc_stx(ts[0]) + (enc_stx_seq(ts.skip(1)) + enc_stx(t)) =~= (enc_stx(ts[0])
            + enc_stx_seq(ts.skip(1))) + enc_stx(t));
    }
}

pub open spec fn dec_stx_seq(s: Seq<u8>, pos: int, n: nat) -> Option<
    (Seq<SignedTransactionV>, int),
>
    decreases n,
{
    if n == 0 {
        Some((Seq::empty(), pos))
    } else {
        match dec_stx(s, pos) {
            Some((t, p)) => match dec_stx_seq(s, p, (n - 1) as nat) {
                Some((ts, p2)) => Some((seq![t] + ts, p2)),
                None => None,
            },
            None => None,
        }
    }
}

pub proof fn lemma_dec_enc_stx_seq(s: Seq<u8>, pos: int, ts: Seq<SignedTransactionV>)
    requires
        0 <= pos,
        forall|i: int| 0 <= i < ts.len() ==> (#[trigger] ts[i]).wf(),
        pos + enc_stx_seq(ts).len() <= s.len(),
        s.subrange(pos, pos + enc_stx_seq(ts).len()) == enc_stx_seq(ts),
    ensures
        dec_stx_seq(s, pos, ts.len()) == Some((ts, pos + enc_stx_seq(ts).len())),
    decreases ts.len(),
{
    if ts.len() == 0 {
        assert(ts =~= Seq::<SignedTransactionV>::empty());
    } else {
        let h = enc_stx(ts[0]);
        let rest = enc_stx_seq(ts.skip(1));
        lemma_subrange_split(s, pos, h, rest);
        lemma_dec_enc_stx(s, pos, ts[0]);
        lemma_dec_enc_stx_seq(s, pos + h.len(), ts.skip(1));
        assert(seq![ts[0]] + ts.skip(1) =~= ts);
    }
}

/// A row of signed transactions on the wire: a count, then each in turn.
pub open spec fn enc_stx_vec(ts: Seq<SignedTransactionV>) -> Seq<u8> {
    enc_u32(ts.len() as u32) + enc_stx_seq(ts)
}

pub open spec fn dec_stx_vec(s: Seq<u8>, pos: int) -> Option<(Seq<SignedTransactionV>, int)> {
    match dec_u32(s, pos) {
        Some((n, p)) => dec_stx_seq(s, p, n as nat),
        None => None,
    }
}

pub proof fn lemma_dec_enc_stx_vec(s: Seq<u8>, pos: int, ts: Seq<SignedTransactionV>)
    requires
        0 <= pos,
        ts.len() <= 0xffff_ffff,
        forall|i: int| 0 <= i < ts.len() ==> (#[trigger] ts[i]).wf(),
        pos + enc_stx_vec(ts).len() <= s.len(),
        s.subrange(pos, pos + enc_stx_vec(ts).len()) == enc_stx_vec(ts),
    ensures
        dec_stx_vec(s, pos) == Some((ts, pos + enc_stx_vec(ts).len())),
{
    lemma_subrange_split(s, pos, enc_u32(ts.len() as u32), enc_stx_seq(ts));
    lemma_dec_enc_u32(s, pos, ts.len() as u32);
    lemma_dec_enc_stx_seq(s, pos + 4, ts);
}

pub fn encode_stx_vec(out: &mut Vec<u8>, ts: &Vec<SignedTransaction>)
    requires
        ts@.len() <= 0xffff_ffff,
        forall|i: int| 0 <= i < ts@.len() ==> (#[trigger] ts@[i])@.wf(),
    ensures
        final(out)@ == old(out)@ + enc_stx_vec(stx_views(ts@)),
{
    encode_u32(out, ts.len() as u32);
    let mut i: usize = 0;
    while i < ts.len()
        invariant
            i <= ts@.len(),
            ts@.len() <= 0xffff_ffff,
            forall|j: int| 0 <= j < ts@.len() ==> (#[trigger] ts@[j])@.wf(),
            out@ == old(out)@ + enc_u32(ts@.len() as u32) + enc_stx_seq(
                stx_views(ts@).subrange(0, i as int),
            ),
        decreases ts@.len() - i,
    {
        proof {
            lemma_enc_stx_seq_push(stx_views(ts@).subrange(0, i as int), ts@[i as int]@);
            assert(stx_views(ts@).subrange(0, i + 1) =~= stx_views(ts@).subrange(
                0,
                i as int,
            ).push(ts@[i as int]@));
        }
        encode_stx(out, &ts[i]);
        i = i + 1;
        assert(out@ =~= old(out)@ + enc_u32(ts@.len() as u32) + enc_stx_seq(
            stx_views(ts@).subrange(0, i as int),
        ));
    }
    assert(stx_views(ts@).subrange(0, ts@.len() as int) =~= stx_views(ts@));
    assert(out@ =~= old(out)@ + enc_stx_vec(stx_views(ts@)));
}

pub fn decode_stx_vec(s: &Vec<u8>, pos: usize) -> (r: Option<(Vec<SignedTransaction>, usize)>)
    ensures
        match r {
            Some(v) => dec_stx_vec(s@, pos as int) == Some((stx_views(v.0@), v.1 as int)) && forall|
                i: int,
            |
                0 <= i < v.0@.len() ==> (#[trigger] v.0@[i])@.wf(),
            None => dec_stx_vec(s@, pos as int) is None,
        },
{
    match decode_u32(s, pos) {
        Some((n, p0)) => {
            let mut acc: Vec<SignedTransaction> = Vec::new();
            let mut p: usize = p0;
            let mut i: u32 = 0;
            while i < n
                invariant
                    i <= n,
                    dec_u32(s@, pos as int) == Some((n, p0 as int)),
                    forall|j: int| 0 <= j < acc@.len() ==> (#[trigger] acc@[j])@.wf(),
                    match dec_stx_seq(s@, p as int, (n - i) as nat) {
                        Some(pr) => dec_stx_seq(s@, p0 as int, n as nat) == Some(
                            (stx_views(acc@) + pr.0, pr.1),
                        ),
                        None => dec_stx_seq(s@, p0 as int, n as nat) is None,
                    },
                decreases n - i,
            {
                match decode_stx(s, p) {
                    Some((t, p2)) => {
                        proof {
                            match dec_stx_seq(s@, p2 as int, (n - i - 1) as nat) {
                                Some(pr) => {
                                    assert(stx_views(acc@.push(t)) =~= stx_views(acc@).push(t@));
                                    assert(stx_views(acc@) + (seq![t@] + pr.0) =~= stx_views(
                                        acc@.push(t),
                                    ) + pr.0);
                                },
                                None => {
                                },
                            }
                        }
                        acc.push(t);
                        p = p2;
                        i = i + 1;
                    },
                    None => {
                        proof {
                            assert(dec_stx_seq(s@, p as int, (n - i) as nat) is None);
                        }
                        return None;
                    },
                }
            }
            proof {
                assert(stx_views(acc@) + Seq::<SignedTransactionV>::empty() =~= stx_views(acc@));
            }
            Some((acc, p))
        },
        None => None,
    }
}

/// The concatenation of the encodings of a row of outcomes.
pub open spec fn enc_outcome_seq(os: Seq<TxOutcomeV>) -> Seq<u8>
    decreases os.len(),
{
    if os.len() == 0 {
        Seq::empty()
    } else {
        enc_tx_outcome(os[0]) + enc_outcome_seq(os.skip(1))
    }
}

pub proof fn lemma_enc_outcome_seq_push(os: Seq<TxOutcomeV>, o: TxOutcomeV)
    ensures
        enc_outcome_seq(os.push(o)) == enc_outcome_seq(os) + enc_tx_outcome(o),
    decreases os.len(),
{
    if os.len() == 0 {
        assert(os.push(o)[0] == o);
        assert(os.push(o).skip(1) =~= Seq::<TxOutcomeV>::empty());
        assert(enc_outcome_seq(Seq::<TxOutcomeV>::empty()) == Seq::<u8>::empty());
        assert(enc_outcome_seq(os.push(o)) == enc_tx_outcome(o) + enc_outcome_seq(os.push(o).skip(1)));
        assert(enc_outcome_seq(os.push(o)) =~= enc_outcome_seq(os) + enc_tx_outcome(o));
    } else {
        lemma_enc_outcome_seq_push(os.skip(1), o);
        assert(os.push(o).skip(1) =~= os.skip(1).push(o));
        assert(os.push(o)[0] == os[0]);
        assert(enc_outcome_seq(os.push(o)) == enc_tx_outcome(os[0]) + enc_outcome_seq(os.skip(1).push(o)));
        assert(enc_outcome_seq(os) == enc_tx_outcome(os[0]) + enc_outcome_seq(os.skip(1)));
        assert(enc_tx_outcome(os[0]) + (enc_outcome_seq(os.skip(1)) + enc_tx_outcome(o)) =~= (enc_tx_outcome(os[0])
            + enc_outcome_seq(os.skip(1))) + enc_tx_outcome(o));
    }
}

pub open spec fn dec_outcome_seq(s: Seq<u8>, pos: int, n: nat) -> Option<(Seq<TxOutcomeV>, int)>
    decreases n,
{
    if n == 0 {
        Some((Seq::empty(), pos))
    } else {
        match dec_tx_outcome(s, pos) {
            Some((o, p)) => match dec_outcome_seq(s, p, (n - 1) as nat) {
                Some((os, p2)) => Some((seq![o] + os, p2)),
                None => None,
            },
            None => None,
        }
    }
}

pub proof fn lemma_dec_enc_outcome_seq(s: Seq<u8>, pos: int, os: Seq<TxOutcomeV>)
    requires
        0 <= pos,
        forall|i: int| 0 <= i < os.len() ==> (#[trigger] os[i]).wf(),
        pos + enc_outcome_seq(os).len() <= s.len(),
        s.subrange(pos, pos + enc_outcome_seq(os).len()) == enc_outcome_seq(os),
    ensures
        dec_outcome_seq(s, pos, os.len()) == Some((os, pos + enc_outcome_seq(os).len())),
    decreases os.len(),
{
    if os.len() == 0 {
        assert(os =~= Seq::<TxOutcomeV>::empty());
    } else {
        let h = enc_tx_outcome(os[0]);
        lemma_subrange_split(s, pos, h, enc_outcome_seq(os.skip(1)));
        lemma_dec_enc_tx_outcome(s, pos, os[0]);
        lemma_dec_enc_outcome_seq(s, pos + h.len(), os.skip(1));
        assert(seq![os[0]] + os.skip(1) =~= os);
    }
}

/// A row of outcomes on the wire: a count, then each in turn.
pub open spec fn enc_outcome_vec(os: Seq<TxOutcomeV>) -> Seq<u8> {
    enc_u32(os.len() as u32) + enc_outcome_seq(os)
}

pub open spec fn dec_outcome_vec(s: Seq<u8>, pos: int) -> Option<(Seq<TxOutcomeV>, int)> {
    match dec_u32(s, pos) {
        Some((n, p)) => dec_outcome_seq(s, p, n as nat),
        None => None,
    }
}

pub proof fn lemma_dec_enc_outcome_vec(s: Seq<u8>, pos: int, os: Seq<TxOutcomeV>)
    requires
        0 <= pos,
        os.len() <= 0xffff_ffff,
        forall|i: int| 0 <= i < os.len() ==> (#[trigger] os[i]).wf(),
        pos + enc_outcome_vec(os).len() <= s.len(),
        s.subrange(pos, pos + enc_outcome_vec(os).len()) == enc_outcome_vec(os),
    ensures
        dec_outcome_vec(s, pos) == Some((os, pos + enc_outcome_vec(os).len())),
{
    lemma_subrange_split(s, pos, enc_u32(os.len() as u32), enc_outcome_seq(os));
    lemma_dec_enc_u32(s, pos, os.len() as u32);
    lemma_dec_enc_outcome_seq(s, pos + 4, os);
}

pub fn encode_outcome_vec(out: &mut Vec<u8>, os: &Vec<TxOutcome>)
    requires
        os@.len() <= 0xffff_ffff,
        forall|i: int| 0 <= i < os@.len() ==> (#[trigger] os@[i])@.wf(),
    ensures
        final(out)@ == old(out)@ + enc_outcome_vec(outcome_views(os@)),
{
    encode_u32(out, os.len() as u32);
    let mut i: usize = 0;
    while i < os.len()
        invariant
            i <= os@.len(),
            os@.len() <= 0xffff_ffff,
            forall|j: int| 0 <= j < os@.len() ==> (#[trigger] os@[j])@.wf(),
            out@ == old(out)@ + enc_u32(os@.len() as u32) + enc_outcome_seq(
                outcome_views(os@).subrange(0, i as int),
            ),
        decreases os@.len() - i,
    {
        proof {
            lemma_enc_outcome_seq_push(outcome_views(os@).subrange(0, i as int), os@[i as int]@);
            assert(outcome_views(os@).subrange(0, i + 1) =~= outcome_views(os@).subrange(
                0,
                i as int,
            ).push(os@[i as int]@));
        }
        encode_tx_outcome(out, &os[i]);
        i = i + 1;
        assert(out@ =~= old(out)@ + enc_u32(os@.len() as u32) + enc_outcome_seq(
            outcome_views(os@).subrange(0, i as int),
        ));
    }
    assert(outcome_views(os@).subrange(0, os@.len() as int) =~= outcome_views(os@));
    assert(out@ =~= old(out)@ + enc_outcome_vec(outcome_views(os@)));
}

pub fn decode_outcome_vec(s: &Vec<u8>, pos: usize) -> (r: Option<(Vec<TxOutcome>, usize)>)
    ensures
        match r {
            Some(v) => dec_outcome_vec(s@, pos as int) == Some((outcome_views(v.0@), v.1 as int))
                && forall|i: int| 0 <= i < v.0@.len() ==> (#[trigger] v.0@[i])@.wf(),
            None => dec_outcome_vec(s@, pos as int) is None,
        },
{
    match decode_u32(s, pos) {
        Some((n, p0)) => {
            let mut acc: Vec<TxOutcome> = Vec::new();
            let mut p: usize = p0;
            let mut i: u32 = 0;
            while i < n
                invariant
                    i <= n,
                    dec_u32(s@, pos as int) == Some((n, p0 as int)),
                    forall|j: int| 0 <= j < acc@.len() ==> (#[trigger] acc@[j])@.wf(),
                    match dec_outcome_seq(s@, p as int, (n - i) as nat) {
                        Some(pr) => dec_outcome_seq(s@, p0 as int, n as nat) == Some(
                            (outcome_views(acc@) + pr.0, pr.1),
                        ),
                        None => dec_outcome_seq(s@, p0 as int, n as nat) is None,
                    },
                decreases n - i,
            {
                match decode_tx_outcome(s, p) {
                    Some((o, p2)) => {
                        proof {
                            match dec_outcome_seq(s@, p2 as int, (n - i - 1) as nat) {
                                Some(pr) => {
                                    assert(outcome_views(acc@.push(o)) =~= outcome_views(
                                        acc@,
                                    ).push(o@));
                                    assert(outcome_views(acc@) + (seq![o@] + pr.0) =~= outcome_views(
                                        acc@.push(o),
                                    ) + pr.0);
                                },
                                None => {
                                },
                            }
                        }
                        acc.push(o);
                        p = p2;
                        i = i + 1;
                    },
                    None => {
                        proof {
                            assert(dec_outcome_seq(s@, p as int, (n - i) as nat) is None);
                        }
                        return None;
                    },
                }
            }
            proof {
                assert(outcome_views(acc@) + Seq::<TxOutcomeV>::empty() =~= outcome_views(acc@));
            }
            Some((acc, p))
        },
        None => None,
    }
}

/// The concatenation of the encodings of a row of byte strings.
pub open spec fn enc_bytes_seq(bs: Seq<Seq<u8>>) -> Seq<u8>
    decreases bs.len(),
{
    if bs.len() == 0 {
        Seq::empty()
    } else {
        enc_bytes(bs[0]) + enc_bytes_seq(bs.skip(1))
    }
}

pub proof fn lemma_enc_bytes_seq_push(bs: Seq<Seq<u8>>, b: Seq<u8>)
    ensures
        enc_bytes_seq(bs.push(b)) == enc_bytes_seq(bs) + enc_bytes(b),
    decreases bs.len(),
{
    if bs.len() == 0 {
        assert(bs.push(b)[0] == b);
        assert(bs.push(b).skip(1) =~= Seq::<Seq<u8>>::empty());
        assert(enc_bytes_seq(Seq::<Seq<u8>>::empty()) == Seq::<u8>::empty());
        assert(enc_bytes_seq(bs.push(b)) == enc_bytes(b) + enc_bytes_seq(bs.push(b).skip(1)));
        assert(enc_bytes_seq(bs.push(b)) =~= enc_bytes_seq(bs) + enc_bytes(b));
    } else {
        lemma_enc_bytes_seq_push(bs.skip(1), b);
        assert(bs.push(b).skip(1) =~= bs.skip(1).push(b));
        assert(bs.push(b)[0] == bs[0]);
        assert(enc_bytes_seq(bs.push(b)) == enc_bytes(bs[0]) + enc_bytes_seq(bs.skip(1).push(b)));
        assert(enc_bytes_seq(bs) == enc_bytes(bs[0]) + enc_bytes_seq(bs.skip(1)));
        assert(enc_bytes(bs[0]) + (enc_bytes_seq(bs.skip(1)) + enc_bytes(b)) =~= (enc_bytes(bs[0])
            + enc_bytes_seq(bs.skip(1))) + enc_bytes(b));
    }
}

pub open spec fn dec_bytes_seq(s: Seq<u8>, pos: int, n: nat) -> Option<(Seq<Seq<u8>>, int)>
    decreases n,
{
    if n == 0 {
        Some((Seq::empty(), pos))
    } else {
        match dec_bytes(s, pos) {
            Some((b, p)) => match dec_bytes_seq(s, p, (n - 1) as nat) {
                Some((bs, p2)) => Some((seq![b] + bs, p2)),
                None => None,
            },
            None => None,
        }
    }
}

pub proof fn lemma_dec_enc_bytes_seq(s: Seq<u8>, pos: int, bs: Seq<Seq<u8>>)
    requires
        0 <= pos,
        forall|i: int| 0 <= i < bs.len() ==> bytes_fit(#[trigger] bs[i]),
        pos + enc_bytes_seq(bs).len() <= s.len(),
        s.subrange(pos, pos + enc_bytes_seq(bs).len()) == enc_bytes_seq(bs),
    ensures
        dec_bytes_seq(s, pos, bs.len()) == Some((bs, pos + enc_bytes_seq(bs).len())),
    decreases bs.len(),
{
    if bs.len() == 0 {
        assert(bs =~= Seq::<Seq<u8>>::empty());
    } else {
        let h = enc_bytes(bs[0]);
        lemma_subrange_split(s, pos, h, enc_bytes_seq(bs.skip(1)));
        lemma_dec_enc_bytes(s, pos, bs[0]);
        lemma_dec_enc_bytes_seq(s, pos + h.len(), bs.skip(1));
        assert(seq![bs[0]] + bs.skip(1) =~= bs);
    }
}

/// A row of byte strings on the wire: a count, then each in turn.
pub open spec fn enc_bytes_vec(bs: Seq<Seq<u8>>) -> Seq<u8> {
    enc_u32(bs.len() as u32) + enc_bytes_seq(bs)
}

pub open spec fn dec_bytes_vec(s: Seq<u8>, pos: int) -> Option<(Seq<Seq<u8>>, int)> {
    match dec_u32(s, pos) {
        Some((n, p)) => dec_bytes_seq(s, p, n as nat),
        None => None,
    }
}

pub proof fn lemma_dec_enc_bytes_vec(s: Seq<u8>, pos: int, bs: Seq<Seq<u8>>)
    requires
        0 <= pos,
        bs.len() <= 0xffff_ffff,
        forall|i: int| 0 <= i < bs.len() ==> bytes_fit(#[trigger] bs[i]),
        pos + enc_bytes_vec(bs).len() <= s.len(),
        s.subrange(pos, pos + enc_bytes_vec(bs).len()) == enc_bytes_vec(bs),
    ensures
        dec_bytes_vec(s, pos) == Some((bs, pos + enc_bytes_vec(bs).len())),
{
    lemma_subrange_split(s, pos, enc_u32(bs.len() as u32), enc_bytes_seq(bs));
    lemma_dec_enc_u32(s, pos, bs.len() as u32);
    lemma_dec_enc_bytes_seq(s, pos + 4, bs);
}

pub fn encode_bytes_vec(out: &mut Vec<u8>, bs: &Vec<Vec<u8>>)
    requires
        bs@.len() <= 0xffff_ffff,
        forall|i: int| 0 <= i < bs@.len() ==> bytes_fit((#[trigger] bs@[i])@),
    ensures
        final(out)@ == old(out)@ + enc_bytes_vec(bytes_views(bs@)),
{
    encode_u32(out, bs.len() as u32);
    let mut i: usize = 0;
    while i < bs.len()
        invariant
            i <= bs@.len(),
            bs@.len() <= 0xffff_ffff,
            forall|j: int| 0 <= j < bs@.len() ==> bytes_fit((#[trigger] bs@[j])@),
            out@ == old(out)@ + enc_u32(bs@.len() as u32) + enc_bytes_seq(
                bytes_views(bs@).subrange(0, i as int),
            ),
        decreases bs@.len() - i,
    {
        proof {
            lemma_enc_bytes_seq_push(bytes_views(bs@).subrange(0, i as int), bs@[i as int]@);
            assert(bytes_views(bs@).subrange(0, i + 1) =~= bytes_views(bs@).subrange(
                0,
                i as int,
            ).push(bs@[i as int]@));
        }
        encode_bytes(out, &bs[i]);
        i = i + 1;
        assert(out@ =~= old(out)@ + enc_u32(bs@.len() as u32) + enc_bytes_seq(
            bytes_views(bs@).subrange(0, i as int),
        ));
    }
    assert(bytes_views(bs@).subrange(0, bs@.len() as int) =~= bytes_views(bs@));
    assert(out@ =~= old(out)@ + enc_bytes_vec(bytes_views(bs@)));
}

pub fn decode_bytes_vec(s: &Vec<u8>, pos: usize) -> (r: Option<(Vec<Vec<u8>>, usize)>)
    ensures
        match r {
            Some(v) => dec_bytes_vec(s@, pos as int) == Some((bytes_views(v.0@), v.1 as int))
                && forall|i: int| 0 <= i < v.0@.len() ==> bytes_fit((#[trigger] v.0@[i])@),
            None => dec_bytes_vec(s@, pos as int) is None,
        },
{
    match decode_u32(s, pos) {
        Some((n, p0)) => {
            let mut acc: Vec<Vec<u8>> = Vec::new();
            let mut p: usize = p0;
            let mut i: u32 = 0;
            while i < n
                invariant
                    i <= n,
                    dec_u32(s@, pos as int) == Some((n, p0 as int)),
                    forall|j: int| 0 <= j < acc@.len() ==> bytes_fit((#[trigger] acc@[j])@),
                    match dec_bytes_seq(s@, p as int, (n - i) as nat) {
                        Some(pr) => dec_bytes_seq(s@, p0 as int, n as nat) == Some(
                            (bytes_views(acc@) + pr.0, pr.1),
                        ),
                        None => dec_bytes_seq(s@, p0 as int, n as nat) is None,
                    },
                decreases n - i,
            {
                match decode_bytes(s, p) {
                    Some((b, p2)) => {
                        proof {
                            match dec_bytes_seq(s@, p2 as int, (n - i - 1) as nat) {
                                Some(pr) => {
                                    assert(bytes_views(acc@.push(b)) =~= bytes_views(acc@).push(
                                        b@,
                                    ));
                                    assert(bytes_views(acc@) + (seq![b@] + pr.0) =~= bytes_views(
                                        acc@.push(b),
                                    ) + pr.0);
                                },
                                None => {
                                },
                            }
                        }
                        proof {
                            // the decoded byte string came from a length-prefixed
                            // field, so it fits the prefix
                            assert(bytes_fit(b@));
                        }
                        acc.push(b);
                        p = p2;
                        i = i + 1;
                    },
                    None => {
                        proof {
                            assert(dec_bytes_seq(s@, p as int, (n - i) as nat) is None);
                        }
                        return None;
                    },
                }
            }
            proof {
                assert(bytes_views(acc@) + Seq::<Seq<u8>>::empty() =~= bytes_views(acc@));
            }
            Some((acc, p))
        },
        None => None,
    }
}

/// A block on the wire: height, hash, parent hash, timestamp, then the
/// included transactions and, aligned with them, the outcomes and artifacts.
pub open spec fn enc_block(b: BlockV) -> Seq<u8> {
    enc_u64(b.height) + b.hash + b.parent_hash + enc_u64(b.timestamp) + enc_stx_vec(b.txs)
        + enc_outcome_vec(b.outcomes) + enc_bytes_vec(b.artifacts)
}

pub open spec fn dec_block(s: Seq<u8>, pos: int) -> Option<(BlockV, int)> {
    match dec_u64(s, pos) {
        Some((height, p1)) => match dec_raw32(s, p1) {
            Some((hash, p2)) => match dec_raw32(s, p2) {
                Some((parent_hash, p3)) => match dec_u64(s, p3) {
                    Some((timestamp, p4)) => match dec_stx_vec(s, p4) {
                        Some((txs, p5)) => match dec_outcome_vec(s, p5) {
                            Some((outcomes, p6)) => match dec_bytes_vec(s, p6) {
                                Some((artifacts, p7)) => Some(
                                    (
                                        BlockV {
                                            height,
                                            hash,
                                            parent_hash,
                                            timestamp,
                                            txs,
                                            outcomes,
                                            artifacts,
                                        },
                                        p7,
                                    ),
                                ),
                                None => None,
                            },
                            None => None,
                        },
                        None => None,
                    },
                    None => None,
                },
                None => None,
            },
            None => None,
        },
        None => None,
    }
}

/// Decoding at a place where an encoded block stands yields it.
pub proof fn lemma_dec_enc_block(s: Seq<u8>, pos: int, b: BlockV)
    requires
        0 <= pos,
        b.wf(),
        pos + enc_block(b).len() <= s.len(),
        s.subrange(pos, pos + enc_block(b).len()) == enc_block(b),
    ensures
        dec_block(s, pos) == Some((b, pos + enc_block(b).len())),
{
    let f1 = enc_u64(b.height);
    let f2 = b.hash;
    let f3 = b.parent_hash;
    let f4 = enc_u64(b.timestamp);
    let f5 = enc_stx_vec(b.txs);
    let f6 = enc_outcome_vec(b.outcomes);
    let f7 = enc_bytes_vec(b.artifacts);
    assert(enc_block(b) =~= f1 + (f2 + (f3 + (f4 + (f5 + (f6 + f7))))));
    let p1 = pos + f1.len();
    let p2 = p1 + f2.len();
    let p3 = p2 + f3.len();
    let p4 = p3 + f4.len();
    let p5 = p4 + f5.len();
    let p6 = p5 + f6.len();
    lemma_subrange_split(s, pos, f1, f2 + (f3 + (f4 + (f5 + (f6 + f7)))));
    lemma_subrange_split(s, p1, f2, f3 + (f4 + (f5 + (f6 + f7))));
    lemma_subrange_split(s, p2, f3, f4 + (f5 + (f6 + f7)));
    lemma_subrange_split(s, p3, f4, f5 + (f6 + f7));
    lemma_subrange_split(s, p4, f5, f6 + f7);
    lemma_subrange_split(s, p5, f6, f7);
    lemma_dec_enc_u64(s, pos, b.height);
    lemma_dec_enc_raw32(s, p1, b.hash);
    lemma_dec_enc_raw32(s, p2, b.parent_hash);
    lemma_dec_enc_u64(s, p3, b.timestamp);
    lemma_dec_enc_stx_vec(s, p4, b.txs);
    lemma_dec_enc_outcome_vec(s, p5, b.outcomes);
    lemma_dec_enc_bytes_vec(s, p6, b.artifacts);
}

pub fn encode_block(out: &mut Vec<u8>, b: &Block)
    requires
        b@.wf(),
    ensures
        final(out)@ == old(out)@ + enc_block(b@),
{
    proof {
        assert forall|i: int| 0 <= i < b.txs@.len() implies (#[trigger] b.txs@[i])@.wf() by {
            assert(b@.txs[i] == b.txs@[i]@);
        }
        assert forall|i: int| 0 <= i < b.outcomes@.len() implies (#[trigger] b.outcomes@[i])@.wf() by {
            assert(b@.outcomes[i] == b.outcomes@[i]@);
        }
        assert forall|i: int| 0 <= i < b.artifacts@.len() implies bytes_fit(
            (#[trigger] b.artifacts@[i])@,
        ) by {
            assert(b@.artifacts[i] == b.artifacts@[i]@);
        }
    }
    encode_u64(out, b.height);
    encode_raw32(out, &b.hash);
    encode_raw32(out, &b.parent_hash);
    encode_u64(out, b.timestamp);
    encode_stx_vec(out, &b.txs);
    encode_outcome_vec(out, &b.outcomes);
    encode_bytes_vec(out, &b.artifacts);
    assert(out@ =~= old(out)@ + enc_block(b@));
}

#[verifier::rlimit(60)]
pub fn decode_block(s: &Vec<u8>, pos: usize) -> (r: Option<(Block, usize)>)
    ensures
        match r {
            Some(v) => dec_block(s@, pos as int) == Some((v.0@, v.1 as int)),
            None => dec_block(s@, pos as int) is None,
        },
{
    match decode_u64(s, pos) {
        Some((height, p1)) => match decode_raw32(s, p1) {
            Some((hash, p2)) => match decode_raw32(s, p2) {
                Some((parent_hash, p3)) => match decode_u64(s, p3) {
                    Some((timestamp, p4)) => match decode_stx_vec(s, p4) {
                        Some((txs, p5)) => match decode_outcome_vec(s, p5) {
                            Some((outcomes, p6)) => match decode_bytes_vec(s, p6) {
                                Some((artifacts, p7)) => Some(
                                    (
                                        Block {
                                            height,
                                            hash,
                                            parent_hash,
                                            timestamp,
                                            txs,
                                            outcomes,
                                            artifacts,
                                        },
                                        p7,
                                    ),
                                ),
                                None => None,
                            },
                            None => None,
                        },
                        None => None,
                    },
                    None => None,
                },
                None => None,
            },
            None => None,
        },
        None => None,
    }
}

/// Decoding the encoding of a block reproduces it exactly.
pub proof fn lemma_block_round_trip(b: BlockV)
    requires
        b.wf(),
    ensures
        dec_block(enc_block(b), 0) == Some((b, enc_block(b).len() as int)),
{
    let s = enc_block(b);
    assert(s.subrange(0, s.len() as int) =~= s);
    lemma_dec_enc_block(s, 0, b);
}

/// Decoding the encoding of a per-transaction outcome reproduces it exactly.
pub proof fn lemma_tx_outcome_round_trip(o: TxOutcomeV)
    requires
        o.wf(),
    ensures
        dec_tx_outcome(enc_tx_outcome(o), 0) == Some((o, enc_tx_outcome(o).len() as int)),
{
    let s = enc_tx_outcome(o);
    assert(s.subrange(0, s.len() as int) =~= s);
    lemma_dec_enc_tx_outcome(s, 0, o);
}

} // verus!
