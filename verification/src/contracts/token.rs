//! The token program: one record under the contract's root state key holding
//! the ticker, the owner, the total supply and the balances. Balances are a
//! journal of entries where the latest entry for an address wins; the map
//! they fold to is what every contract here speaks of.

use vstd::prelude::*;

use crate::bridge::{sys_get_storage, sys_set_storage};
use crate::codec::{
    bytes_eq, bytes_fit, dec_bytes, dec_u128, dec_u32, decode_bytes, decode_u128, decode_u32,
    enc_bytes, enc_u128, enc_u32, encode_bytes, encode_u128, encode_u32,
    lemma_dec_enc_bytes, lemma_dec_enc_u128, lemma_dec_enc_u32, lemma_subrange_split,
};
use crate::context::CallContext;
use crate::errors::ErrorKind;
use crate::keys::committed_key;
use crate::names::{make_root_state_key, root_state_key};
use crate::storage::{effective, Storage, WriteSet};
use crate::types::AccountId;

verus! {

/// The balances an entry journal folds to; the latest entry for a key wins.
pub open spec fn bal_map_of(s: Seq<(Seq<u8>, u128)>) -> Map<Seq<u8>, u128>
    decreases s.len(),
{
    if s.len() == 0 {
        Map::empty()
    } else {
        bal_map_of(s.drop_last()).insert(s.last().0, s.last().1)
    }
}

/// The view of the token's state.
pub struct TokenStateV {
    pub ticker: Seq<u8>,
    pub owner: Seq<u8>,
    pub total_supply: u128,
    pub balances: Seq<(Seq<u8>, u128)>,
}

impl TokenStateV {
    pub open spec fn wf(self) -> bool {
        &&& bytes_fit(self.ticker)
        &&& bytes_fit(self.owner)
        &&& self.balances.len() <= 0xffff_ffff
        &&& forall|i: int| 0 <= i < self.balances.len() ==> bytes_fit((#[trigger] self.balances[i]).0)
    }

    /// The balance of an address; an address never written holds zero.
    pub open spec fn balance_of(self, id: Seq<u8>) -> u128 {
        if bal_map_of(self.balances).dom().contains(id) {
            bal_map_of(self.balances)[id]
        } else {
            0
        }
    }
}

/// The token's state: ticker, owner, total supply, and the balance journal.
pub struct TokenState {
    pub ticker: Vec<u8>,
    pub owner: AccountId,
    pub total_supply: u128,
    pub balances: Vec<(AccountId, u128)>,
}

impl View for TokenState {
    type V = TokenStateV;

    open spec fn view(&self) -> TokenStateV {
        TokenStateV {
            ticker: self.ticker@,
            owner: self.owner@,
            total_supply: self.total_supply,
            balances: self.balances@.map_values(|p: (AccountId, u128)| (p.0@, p.1)),
        }
    }
}

/// The views of a balance journal.
pub open spec fn bal_views(v: Seq<(AccountId, u128)>) -> Seq<(Seq<u8>, u128)> {
    v.map_values(|p: (AccountId, u128)| (p.0@, p.1))
}

/// The concatenation of the encodings of the journal's entries.
pub open spec fn enc_bal_seq(s: Seq<(Seq<u8>, u128)>) -> Seq<u8>
    decreases s.len(),
{
    if s.len() == 0 {
        Seq::empty()
    } else {
        (enc_bytes(s[0].0) + enc_u128(s[0].1)) + enc_bal_seq(s.skip(1))
    }
}

pub proof fn lemma_enc_bal_seq_push(s: Seq<(Seq<u8>, u128)>, e: (Seq<u8>, u128))
    ensures
        enc_bal_seq(s.push(e)) == enc_bal_seq(s) + (enc_bytes(e.0) + enc_u128(e.1)),
    decreases s.len(),
{
    if s.len() == 0 {
        assert(s.push(e)[0] == e);
        assert(s.push(e).skip(1) =~= Seq::<(Seq<u8>, u128)>::empty());
        assert(enc_bal_seq(Seq::<(Seq<u8>, u128)>::empty()) == Seq::<u8>::empty());
        assert(enc_bal_seq(s.push(e)) == (enc_bytes(e.0) + enc_u128(e.1)) + enc_bal_seq(
            s.push(e).skip(1),
        ));
        assert(enc_bal_seq(s.push(e)) =~= enc_bal_seq(s) + (enc_bytes(e.0) + enc_u128(e.1)));
    } else {
        lemma_enc_bal_seq_push(s.skip(1), e);
        assert(s.push(e).skip(1) =~= s.skip(1).push(e));
        assert(s.push(e)[0] == s[0]);
        assert(enc_bal_seq(s.push(e)) == (enc_bytes(s[0].0) + enc_u128(s[0].1)) + enc_bal_seq(
            s.skip(1).push(e),
        ));
        assert(enc_bal_seq(s) == (enc_bytes(s[0].0) + enc_u128(s[0].1)) + enc_bal_seq(s.skip(1)));
        assert((enc_bytes(s[0].0) + enc_u128(s[0].1)) + (enc_bal_seq(s.skip(1)) + (enc_bytes(e.0)
            + enc_u128(e.1))) =~= ((enc_bytes(s[0].0) + enc_u128(s[0].1)) + enc_bal_seq(s.skip(1)))
            + (enc_bytes(e.0) + enc_u128(e.1)));
    }
}

pub open spec fn dec_bal_seq(s: Seq<u8>, pos: int, n: nat) -> Option<(Seq<(Seq<u8>, u128)>, int)>
    decreases n,
{
    if n == 0 {
        Some((Seq::empty(), pos))
    } else {
        match dec_bytes(s, pos) {
            Some((k, p1)) => match dec_u128(s, p1) {
                Some((v, p2)) => match dec_bal_seq(s, p2, (n - 1) as nat) {
                    Some((rest, p3)) => Some((seq![(k, v)] + rest, p3)),
                    None => None,
                },
                None => None,
            },
            None => None,
        }
    }
}

pub proof fn lemma_dec_enc_bal_seq(s: Seq<u8>, pos: int, bs: Seq<(Seq<u8>, u128)>)
    requires
        0 <= pos,
        forall|i: int| 0 <= i < bs.len() ==> bytes_fit((#[trigger] bs[i]).0),
        pos + enc_bal_seq(bs).len() <= s.len(),
        s.subrange(pos, pos + enc_bal_seq(bs).len()) == enc_bal_seq(bs),
    ensures
        dec_bal_seq(s, pos, bs.len()) == Some((bs, pos + enc_bal_seq(bs).len())),
    decreases bs.len(),
{
    if bs.len() == 0 {
        assert(bs =~= Seq::<(Seq<u8>, u128)>::empty());
    } else {
        let h = enc_bytes(bs[0].0) + enc_u128(bs[0].1);
        lemma_subrange_split(s, pos, h, enc_bal_seq(bs.skip(1)));
        lemma_subrange_split(s, pos, enc_bytes(bs[0].0), enc_u128(bs[0].1));
        lemma_dec_enc_bytes(s, pos, bs[0].0);
        lemma_dec_enc_u128(s, pos + enc_bytes(bs[0].0).len(), bs[0].1);
        lemma_dec_enc_bal_seq(s, pos + h.len(), bs.skip(1));
        assert(seq![bs[0]] + bs.skip(1) =~= bs);
    }
}

/// The token's state on the wire: ticker, owner, total supply, then the
/// journal with its entry count.
pub open spec fn enc_token_state(t: TokenStateV) -> Seq<u8> {
    enc_bytes(t.ticker) + enc_bytes(t.owner) + enc_u128(t.total_supply) + enc_u32(
        t.balances.len() as u32,
    ) + enc_bal_seq(t.balances)
}

pub open spec fn dec_token_state(s: Seq<u8>, pos: int) -> Option<(TokenStateV, int)> {
    match dec_bytes(s, pos) {
        Some((ticker, p1)) => match dec_bytes(s, p1) {
            Some((owner, p2)) => match dec_u128(s, p2) {
                Some((total, p3)) => match dec_u32(s, p3) {
                    Some((n, p4)) => match dec_bal_seq(s, p4, n as nat) {
                        Some((balances, p5)) => Some(
                            (
                                TokenStateV {
                                    ticker,
                                    owner,
                                    total_supply: total,
                                    balances,
                                },
                                p5,
                            ),
                        ),
                        None => None,
                    },
                    None => None,
                },
                None => None,
            },
            None => None,
        },
        None => None,
    }
}

/// Decoding the encoding of a token state reproduces it exactly.
pub proof fn lemma_dec_enc_token_state(s: Seq<u8>, pos: int, t: TokenStateV)
    requires
        0 <= pos,
        t.wf(),
        pos + enc_token_state(t).len() <= s.len(),
        s.subrange(pos, pos + enc_token_state(t).len()) == enc_token_state(t),
    ensures
        dec_token_state(s, pos) == Some((t, pos + enc_token_state(t).len())),
{
    let f1 = enc_bytes(t.ticker);
    let f2 = enc_bytes(t.owner);
    let f3 = enc_u128(t.total_supply);
    let f4 = enc_u32(t.balances.len() as u32);
    let f5 = enc_bal_seq(t.balances);
    assert(enc_token_state(t) =~= f1 + (f2 + (f3 + (f4 + f5))));
    let p1 = pos + f1.len();
    let p2 = p1 + f2.len();
    let p3 = p2 + f3.len();
    let p4 = p3 + f4.len();
    lemma_subrange_split(s, pos, f1, f2 + (f3 + (f4 + f5)));
    lemma_subrange_split(s, p1, f2, f3 + (f4 + f5));
    lemma_subrange_split(s, p2, f3, f4 + f5);
    lemma_subrange_split(s, p3, f4, f5);
    lemma_dec_enc_bytes(s, pos, t.ticker);
    lemma_dec_enc_bytes(s, p1, t.owner);
    lemma_dec_enc_u128(s, p2, t.total_supply);
    lemma_dec_enc_u32(s, p3, t.balances.len() as u32);
    lemma_dec_enc_bal_seq(s, p4, t.balances);
}

pub fn encode_token_state(out: &mut Vec<u8>, t: &TokenState)
    requires
        t@.wf(),
    ensures
        final(out)@ == old(out)@ + enc_token_state(t@),
{
    encode_bytes(out, &t.ticker);
    encode_bytes(out, &t.owner.bytes);
    encode_u128(out, t.total_supply);
    encode_u32(out, t.balances.len() as u32);
    let mut i: usize = 0;
    while i < t.balances.len()
        invariant
            i <= t.balances@.len(),
            t@.wf(),
            out@ == old(out)@ + enc_bytes(t@.ticker) + enc_bytes(t@.owner) + enc_u128(
                t@.total_supply,
            ) + enc_u32(t@.balances.len() as u32) + enc_bal_seq(
                bal_views(t.balances@).subrange(0, i as int),
            ),
        decreases t.balances@.len() - i,
    {
        proof {
            assert(t@.balances[i as int] == bal_views(t.balances@)[i as int]);
            assert(bytes_fit(t.balances@[i as int].0@));
            lemma_enc_bal_seq_push(
                bal_views(t.balances@).subrange(0, i as int),
                bal_views(t.balances@)[i as int],
            );
            assert(bal_views(t.balances@).subrange(0, i + 1) =~= bal_views(
                t.balances@,
            ).subrange(0, i as int).push(bal_views(t.balances@)[i as int]));
        }
        encode_bytes(out, &t.balances[i].0.bytes);
        encode_u128(out, t.balances[i].1);
        i = i + 1;
        assert(out@ =~= old(out)@ + enc_bytes(t@.ticker) + enc_bytes(t@.owner) + enc_u128(
            t@.total_supply,
        ) + enc_u32(t@.balances.len() as u32) + enc_bal_seq(
            bal_views(t.balances@).subrange(0, i as int),
        ));
    }
    proof {
        assert(bal_views(t.balances@).subrange(0, t.balances@.len() as int) =~= t@.balances);
    }
    assert(out@ =~= old(out)@ + enc_token_state(t@));
}

pub fn decode_token_state(s: &Vec<u8>, pos: usize) -> (r: Option<(TokenState, usize)>)
    ensures
        match r {
            Some(v) => dec_token_state(s@, pos as int) == Some((v.0@, v.1 as int)) && v.0@.wf(),
            None => dec_token_state(s@, pos as int) is None,
        },
{
    match decode_bytes(s, pos) {
        Some((ticker, p1)) => match decode_bytes(s, p1) {
            Some((owner, p2)) => match decode_u128(s, p2) {
                Some((total, p3)) => match decode_u32(s, p3) {
                    Some((n, p4)) => {
                        let mut acc: Vec<(AccountId, u128)> = Vec::new();
                        let mut p: usize = p4;
                        let mut i: u32 = 0;
                        while i < n
                            invariant
                                i <= n,
                                acc@.len() == i as int,
                                bytes_fit(ticker@),
                                bytes_fit(owner@),
                                dec_bytes(s@, pos as int) == Some((ticker@, p1 as int)),
                                dec_bytes(s@, p1 as int) == Some((owner@, p2 as int)),
                                dec_u128(s@, p2 as int) == Some((total, p3 as int)),
                                dec_u32(s@, p3 as int) == Some((n, p4 as int)),
                                forall|j: int|
                                    0 <= j < acc@.len() ==> bytes_fit(
                                        (#[trigger] acc@[j]).0.bytes@,
                                    ),
                                match dec_bal_seq(s@, p as int, (n - i) as nat) {
                                    Some(pr) => dec_bal_seq(s@, p4 as int, n as nat) == Some(
                                        (bal_views(acc@) + pr.0, pr.1),
                                    ),
                                    None => dec_bal_seq(s@, p4 as int, n as nat) is None,
                                },
                            decreases n - i,
                        {
                            match decode_bytes(s, p) {
                                Some((k, q1)) => match decode_u128(s, q1) {
                                    Some((v, q2)) => {
                                        let entry = (AccountId { bytes: k }, v);
                                        proof {
                                            match dec_bal_seq(s@, q2 as int, (n - i - 1) as nat) {
                                                Some(pr) => {
                                                    assert(bal_views(acc@.push(entry))
                                                        =~= bal_views(acc@).push(
                                                        (entry.0@, entry.1),
                                                    ));
                                                    assert(bal_views(acc@) + (seq![
                                                        (entry.0@, entry.1),
                                                    ] + pr.0) =~= bal_views(acc@.push(entry))
                                                        + pr.0);
                                                },
                                                None => {
                                                },
                                            }
                                        }
                                        acc.push(entry);
                                        p = q2;
                                        i = i + 1;
                                    },
                                    None => {
                                        proof {
                                            assert(dec_bal_seq(s@, p as int, (n - i) as nat)
                                                is None);
                                        }
                                        return None;
                                    },
                                },
                                None => {
                                    proof {
                                        assert(dec_bal_seq(s@, p as int, (n - i) as nat) is None);
                                    }
                                    return None;
                                },
                            }
                        }
                        proof {
                            assert(bal_views(acc@) + Seq::<(Seq<u8>, u128)>::empty() =~= bal_views(
                                acc@,
                            ));
                            assert forall|j: int| 0 <= j < bal_views(acc@).len() implies bytes_fit(
                                (#[trigger] bal_views(acc@)[j]).0,
                            ) by {
                                assert(bal_views(acc@)[j] == (acc@[j].0@, acc@[j].1));
                            }
                        }
                        Some(
                            (
                                TokenState {
                                    ticker,
                                    owner: AccountId { bytes: owner },
                                    total_supply: total,
                                    balances: acc,
                                },
                                p,
                            ),
                        )
                    },
                    None => None,
                },
                None => None,
            },
            None => None,
        },
        None => None,
    }
}

/// The key the token's state lives under, inside its own namespace.
pub open spec fn state_key(contract: Seq<u8>) -> Seq<u8> {
    committed_key(contract, root_state_key())
}

/// The token's stored state as the run observes it, if it is present and
/// decodes whole.
pub open spec fn token_state_of(eff: Map<Seq<u8>, Seq<u8>>, contract: Seq<u8>) -> Option<
    TokenStateV,
> {
    let k = state_key(contract);
    if eff.dom().contains(k) {
        match dec_token_state(eff[k], 0) {
            Some((t, p)) => if p == eff[k].len() {
                Some(t)
            } else {
                None
            },
            None => None,
        }
    } else {
        None
    }
}

fn load_state(storage: &Storage, ws: &WriteSet, ctx: &CallContext) -> (r: Result<
    TokenState,
    ErrorKind,
>)
    ensures
        ({
            let st = token_state_of(effective(storage.contents(), ws@), ctx.account@);
            match r {
                Ok(t) => st == Some(t@) && t@.wf(),
                Err(e) => match e {
                    ErrorKind::StorageFailure => true,
                    ErrorKind::CorruptedInput => st is None,
                    _ => false,
                },
            }
        }),
{
    let key = make_root_state_key();
    match sys_get_storage(storage, ws, &ctx.account, &key)? {
        Some(bytes) => match decode_token_state(&bytes, 0) {
            Some((t, p)) => {
                if p == bytes.len() {
                    Ok(t)
                } else {
                    Err(ErrorKind::CorruptedInput)
                }
            },
            None => Err(ErrorKind::CorruptedInput),
        },
        None => Err(ErrorKind::CorruptedInput),
    }
}

fn store_state(ws: &mut WriteSet, ctx: &CallContext, t: &TokenState)
    requires
        t@.wf(),
    ensures
        final(ws)@ == old(ws)@.insert(state_key(ctx.account@), enc_token_state(t@)),
{
    let mut bytes: Vec<u8> = Vec::new();
    encode_token_state(&mut bytes, t);
    let key = make_root_state_key();
    sys_set_storage(ws, &ctx.account, &key, bytes);
}

/// The balance recorded for an address, zero if none is.
fn bal_get(balances: &Vec<(AccountId, u128)>, id: &AccountId) -> (r: u128)
    ensures
        ({
            let m = bal_map_of(bal_views(balances@));
            r == if m.dom().contains(id@) {
                m[id@]
            } else {
                0
            }
        }),
{
    let mut i: usize = balances.len();
    proof {
        assert(bal_views(balances@).subrange(0, balances@.len() as int) =~= bal_views(balances@));
    }
    while i > 0
        invariant
            i <= balances@.len(),
            bal_map_of(bal_views(balances@)).dom().contains(id@) == bal_map_of(
                bal_views(balances@).subrange(0, i as int),
            ).dom().contains(id@),
            bal_map_of(bal_views(balances@).subrange(0, i as int)).dom().contains(id@)
                ==> bal_map_of(bal_views(balances@))[id@] == bal_map_of(
                bal_views(balances@).subrange(0, i as int),
            )[id@],
        decreases i,
    {
        proof {
            assert(bal_views(balances@).subrange(0, i as int).drop_last() =~= bal_views(
                balances@,
            ).subrange(0, i - 1));
            assert(bal_views(balances@).subrange(0, i as int).last() == (
                balances@[i - 1].0@,
                balances@[i - 1].1,
            ));
        }
        if bytes_eq(&balances[i - 1].0.bytes, &id.bytes) {
            return balances[i - 1].1;
        }
        i = i - 1;
    }
    proof {
        assert(bal_views(balances@).subrange(0, 0) =~= Seq::<(Seq<u8>, u128)>::empty());
    }
    0
}

/// Appends a balance entry; the journal's map gains or replaces the address.
fn bal_set(balances: &mut Vec<(AccountId, u128)>, id: AccountId, v: u128)
    ensures
        bal_views(final(balances)@) == bal_views(old(balances)@).push((id@, v)),
        bal_map_of(bal_views(final(balances)@)) == bal_map_of(bal_views(old(balances)@)).insert(
            id@,
            v,
        ),
{
    let ghost idv = id@;
    balances.push((id, v));
    proof {
        assert(bal_views(balances@) =~= bal_views(old(balances)@).push((idv, v)));
        assert(bal_views(balances@).drop_last() =~= bal_views(old(balances)@));
    }
}

/// The state after minting: the supply and the minter's balance raised.
pub open spec fn spec_mint(st: TokenStateV, sender: Seq<u8>, amount: u128) -> TokenStateV {
    TokenStateV {
        ticker: st.ticker,
        owner: st.owner,
        total_supply: (st.total_supply + amount) as u128,
        balances: st.balances.push((sender, (st.balance_of(sender) + amount) as u128)),
    }
}

/// The state after burning: the supply and the burner's balance lowered.
pub open spec fn spec_burn(st: TokenStateV, sender: Seq<u8>, amount: u128) -> TokenStateV {
    TokenStateV {
        ticker: st.ticker,
        owner: st.owner,
        total_supply: (st.total_supply - amount) as u128,
        balances: st.balances.push((sender, (st.balance_of(sender) - amount) as u128)),
    }
}

/// The state after the sender's side of a transfer.
pub open spec fn spec_after_debit(st: TokenStateV, sender: Seq<u8>, amount: u128) -> TokenStateV {
    TokenStateV {
        ticker: st.ticker,
        owner: st.owner,
        total_supply: st.total_supply,
        balances: st.balances.push((sender, (st.balance_of(sender) - amount) as u128)),
    }
}

/// The state after a whole transfer: the recipient is credited after the
/// sender is debited, so a transfer to oneself nets to no change.
pub open spec fn spec_transfer(
    st: TokenStateV,
    sender: Seq<u8>,
    recipient: Seq<u8>,
    amount: u128,
) -> TokenStateV {
    let mid = spec_after_debit(st, sender, amount);
    TokenStateV {
        ticker: st.ticker,
        owner: st.owner,
        total_supply: st.total_supply,
        balances: mid.balances.push((recipient, (mid.balance_of(recipient) + amount) as u128)),
    }
}

/// The state after an ownership handover.
pub open spec fn spec_set_owner(st: TokenStateV, new_owner: Seq<u8>) -> TokenStateV {
    TokenStateV {
        ticker: st.ticker,
        owner: new_owner,
        total_supply: st.total_supply,
        balances: st.balances,
    }
}

pub struct TokenContract;

impl TokenContract {
    /// Creates the token: the caller becomes the owner and holds the whole
    /// initial supply.
    pub fn init(ws: &mut WriteSet, ctx: &CallContext, ticker: Vec<u8>, initial_supply: u128) -> (r:
        Vec<u8>)
        requires
            bytes_fit(ticker@),
            bytes_fit(ctx.sender@),
        ensures
            final(ws)@ == old(ws)@.insert(
                state_key(ctx.account@),
                enc_token_state(
                    TokenStateV {
                        ticker: ticker@,
                        owner: ctx.sender@,
                        total_supply: initial_supply,
                        balances: seq![(ctx.sender@, initial_supply)],
                    },
                ),
            ),
            r@ == Seq::<u8>::empty(),
    {
        let ghost tickerv = ticker@;
        let mut balances: Vec<(AccountId, u128)> = Vec::new();
        balances.push((ctx.sender.duplicate(), initial_supply));
        let st = TokenState {
            ticker,
            owner: ctx.sender.duplicate(),
            total_supply: initial_supply,
            balances,
        };
        proof {
            assert(st@.balances =~= seq![(ctx.sender@, initial_supply)]);
        }
        store_state(ws, ctx, &st);
        Vec::new()
    }

    /// Commits the balance of the given address.
    pub fn balance_of(storage: &Storage, ws: &WriteSet, ctx: &CallContext, address: &AccountId)
        -> (r: Result<Vec<u8>, ErrorKind>)
        ensures
            ({
                let st = token_state_of(effective(storage.contents(), ws@), ctx.account@);
                match r {
                    Ok(out) => st matches Some(t) && out@ == enc_u128(t.balance_of(address@)),
                    Err(e) => match e {
                        ErrorKind::StorageFailure => true,
                        ErrorKind::CorruptedInput => st is None,
                        _ => false,
                    },
                }
            }),
    {
        let st = load_state(storage, ws, ctx)?;
        let bal = bal_get(&st.balances, address);
        let mut out: Vec<u8> = Vec::new();
        encode_u128(&mut out, bal);
        Ok(out)
    }

    /// Raises the supply and the owner's balance; only the owner may mint.
    pub fn mint(storage: &Storage, ws: &mut WriteSet, ctx: &CallContext, amount: u128) -> (r:
        Result<Vec<u8>, ErrorKind>)
        requires
            bytes_fit(ctx.sender@),
        ensures
            ({
                let st = token_state_of(effective(storage.contents(), old(ws)@), ctx.account@);
                match r {
                    Ok(out) => st matches Some(t) && ctx.sender@ == t.owner && t.total_supply
                        + amount <= u128::MAX && t.balance_of(ctx.sender@) + amount <= u128::MAX
                        && t.balances.len() + 1 <= 0xffff_ffff && final(ws)@ == old(ws)@.insert(
                        state_key(ctx.account@),
                        enc_token_state(spec_mint(t, ctx.sender@, amount)),
                    ) && out@ == Seq::<u8>::empty(),
                    Err(e) => final(ws)@ == old(ws)@ && match e {
                        ErrorKind::StorageFailure => true,
                        ErrorKind::CorruptedInput => st is None,
                        ErrorKind::Unauthorized => st matches Some(t) && ctx.sender@ != t.owner,
                        ErrorKind::InsufficientResource => st matches Some(t) && ctx.sender@
                            == t.owner && (t.total_supply + amount > u128::MAX || t.balance_of(
                            ctx.sender@,
                        ) + amount > u128::MAX || t.balances.len() + 1 > 0xffff_ffff),
                        _ => false,
                    },
                }
            }),
    {
        let mut st = load_state(storage, ws, ctx)?;
        if !ctx.sender.eq_id(&st.owner) {
            return Err(ErrorKind::Unauthorized);
        }
        let bal = bal_get(&st.balances, &ctx.sender);
        match (st.total_supply.checked_add(amount), bal.checked_add(amount)) {
            (Some(new_total), Some(new_bal)) => {
                if st.balances.len() >= 0xffff_ffff {
                    return Err(ErrorKind::InsufficientResource);
                }
                st.total_supply = new_total;
                bal_set(&mut st.balances, ctx.sender.duplicate(), new_bal);
                store_state(ws, ctx, &st);
                Ok(Vec::new())
            },
            _ => Err(ErrorKind::InsufficientResource),
        }
    }

    /// Lowers the supply and the caller's balance; anyone may burn what they
    /// hold.
    pub fn burn(storage: &Storage, ws: &mut WriteSet, ctx: &CallContext, amount: u128) -> (r:
        Result<Vec<u8>, ErrorKind>)
        requires
            bytes_fit(ctx.sender@),
        ensures
            ({
                let st = token_state_of(effective(storage.contents(), old(ws)@), ctx.account@);
                match r {
                    Ok(out) => st matches Some(t) && t.balance_of(ctx.sender@) >= amount
                        && t.total_supply >= amount && t.balances.len() + 1 <= 0xffff_ffff && final(ws)@ == old(ws)@.insert(
                        state_key(ctx.account@),
                        enc_token_state(spec_burn(t, ctx.sender@, amount)),
                    ) && out@ == Seq::<u8>::empty(),
                    Err(e) => final(ws)@ == old(ws)@ && match e {
                        ErrorKind::StorageFailure => true,
                        ErrorKind::CorruptedInput => st is None,
                        ErrorKind::InsufficientResource => st matches Some(t) && (t.balance_of(
                            ctx.sender@,
                        ) < amount || t.total_supply < amount || t.balances.len() + 1
                            > 0xffff_ffff),
                        _ => false,
                    },
                }
            }),
    {
        let mut st = load_state(storage, ws, ctx)?;
        let bal = bal_get(&st.balances, &ctx.sender);
        if bal < amount || st.total_supply < amount || st.balances.len() >= 0xffff_ffff {
            return Err(ErrorKind::InsufficientResource);
        }
        st.total_supply = st.total_supply - amount;
        bal_set(&mut st.balances, ctx.sender.duplicate(), bal - amount);
        store_state(ws, ctx, &st);
        Ok(Vec::new())
    }

    /// Moves an amount from the caller to the recipient. The recipient is
    /// credited after the caller is debited, so a transfer to oneself nets
    /// to no change.
    pub fn transfer(
        storage: &Storage,
        ws: &mut WriteSet,
        ctx: &CallContext,
        recipient: &AccountId,
        amount: u128,
    ) -> (r: Result<Vec<u8>, ErrorKind>)
        requires
            bytes_fit(ctx.sender@),
            recipient.wf(),
        ensures
            ({
                let st = token_state_of(effective(storage.contents(), old(ws)@), ctx.account@);
                match r {
                    Ok(out) => st matches Some(t) && t.balance_of(ctx.sender@) >= amount
                        && spec_after_debit(t, ctx.sender@, amount).balance_of(recipient@) + amount
                        <= u128::MAX && t.balances.len() + 2 <= 0xffff_ffff && final(ws)@ == old(
                        ws,
                    )@.insert(
                        state_key(ctx.account@),
                        enc_token_state(spec_transfer(t, ctx.sender@, recipient@, amount)),
                    ) && out@ == Seq::<u8>::empty(),
                    Err(e) => final(ws)@ == old(ws)@ && match e {
                        ErrorKind::StorageFailure => true,
                        ErrorKind::CorruptedInput => st is None,
                        ErrorKind::InsufficientResource => st matches Some(t) && (t.balance_of(
                            ctx.sender@,
                        ) < amount || spec_after_debit(t, ctx.sender@, amount).balance_of(
                            recipient@,
                        ) + amount > u128::MAX || t.balances.len() + 2 > 0xffff_ffff),
                        _ => false,
                    },
                }
            }),
    {
        let mut st = load_state(storage, ws, ctx)?;
        let sender_bal = bal_get(&st.balances, &ctx.sender);
        if sender_bal < amount || st.balances.len() >= 0xffff_fffe {
            return Err(ErrorKind::InsufficientResource);
        }
        bal_set(&mut st.balances, ctx.sender.duplicate(), sender_bal - amount);
        let recipient_bal = bal_get(&st.balances, recipient);
        match recipient_bal.checked_add(amount) {
            Some(new_bal) => {
                bal_set(&mut st.balances, recipient.duplicate(), new_bal);
                store_state(ws, ctx, &st);
                Ok(Vec::new())
            },
            None => Err(ErrorKind::InsufficientResource),
        }
    }

    /// Hands ownership to a new account; only the owner may do so.
    pub fn set_owner(storage: &Storage, ws: &mut WriteSet, ctx: &CallContext, new_owner: &AccountId)
        -> (r: Result<Vec<u8>, ErrorKind>)
        requires
            new_owner.wf(),
        ensures
            ({
                let st = token_state_of(effective(storage.contents(), old(ws)@), ctx.account@);
                match r {
                    Ok(out) => st matches Some(t) && ctx.sender@ == t.owner && final(ws)@ == old(
                        ws,
                    )@.insert(
                        state_key(ctx.account@),
                        enc_token_state(spec_set_owner(t, new_owner@)),
                    ) && out@ == Seq::<u8>::empty(),
                    Err(e) => final(ws)@ == old(ws)@ && match e {
                        ErrorKind::StorageFailure => true,
                        ErrorKind::CorruptedInput => st is None,
                        ErrorKind::Unauthorized => st matches Some(t) && ctx.sender@ != t.owner,
                        _ => false,
                    },
                }
            }),
    {
        let mut st = load_state(storage, ws, ctx)?;
        if !ctx.sender.eq_id(&st.owner) {
            return Err(ErrorKind::Unauthorized);
        }
        st.owner = new_owner.duplicate();
        store_state(ws, ctx, &st);
        Ok(Vec::new())
    }

    /// Commits the owner's account id.
    pub fn get_owner(storage: &Storage, ws: &WriteSet, ctx: &CallContext) -> (r: Result<
        Vec<u8>,
        ErrorKind,
    >)
        ensures
            ({
                let st = token_state_of(effective(storage.contents(), ws@), ctx.account@);
                match r {
                    Ok(out) => st matches Some(t) && out@ == enc_bytes(t.owner),
                    Err(e) => match e {
                        ErrorKind::StorageFailure => true,
                        ErrorKind::CorruptedInput => st is None,
                        _ => false,
                    },
                }
            }),
    {
        let st = load_state(storage, ws, ctx)?;
        let mut out: Vec<u8> = Vec::new();
        encode_bytes(&mut out, &st.owner.bytes);
        Ok(out)
    }
}

} // verus!
