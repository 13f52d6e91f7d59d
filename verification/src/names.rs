//! The byte-string names the runtime speaks: storage-key components, the
//! reserved identities, method names, and the designators a deployment may
//! name. Each name has a specification-level constant and an executable
//! builder proved to produce it.

use vstd::prelude::*;

verus! {

/// The bytes of "accounts.".
pub open spec fn accounts_dot() -> Seq<u8> {
    seq![97u8, 99, 99, 111, 117, 110, 116, 115, 46]
}

pub fn make_accounts_dot() -> (r: Vec<u8>)
    ensures
        r@ == accounts_dot(),
{
    let mut v: Vec<u8> = Vec::new();
    v.push(97);
    v.push(99);
    v.push(99);
    v.push(111);
    v.push(117);
    v.push(110);
    v.push(116);
    v.push(115);
    v.push(46);
    proof {
        assert(v@ =~= accounts_dot());
    }
    v
}

/// The bytes of "code.".
pub open spec fn code_dot() -> Seq<u8> {
    seq![99u8, 111, 100, 101, 46]
}

pub fn make_code_dot() -> (r: Vec<u8>)
    ensures
        r@ == code_dot(),
{
    let mut v: Vec<u8> = Vec::new();
    v.push(99);
    v.push(111);
    v.push(100);
    v.push(101);
    v.push(46);
    proof {
        assert(v@ =~= code_dot());
    }
    v
}

/// The bytes of "committed_storage.".
pub open spec fn committed_storage_dot() -> Seq<u8> {
    seq![99u8, 111, 109, 109, 105, 116, 116, 101, 100, 95, 115, 116, 111, 114, 97, 103, 101, 46]
}

pub fn make_committed_storage_dot() -> (r: Vec<u8>)
    ensures
        r@ == committed_storage_dot(),
{
    let mut v: Vec<u8> = Vec::new();
    v.push(99);
    v.push(111);
    v.push(109);
    v.push(109);
    v.push(105);
    v.push(116);
    v.push(116);
    v.push(101);
    v.push(100);
    v.push(95);
    v.push(115);
    v.push(116);
    v.push(111);
    v.push(114);
    v.push(97);
    v.push(103);
    v.push(101);
    v.push(46);
    proof {
        assert(v@ =~= committed_storage_dot());
    }
    v
}

/// The bytes of ".".
pub open spec fn dot() -> Seq<u8> {
    seq![46u8]
}

pub fn make_dot() -> (r: Vec<u8>)
    ensures
        r@ == dot(),
{
    let mut v: Vec<u8> = Vec::new();
    v.push(46);
    proof {
        assert(v@ =~= dot());
    }
    v
}

/// The bytes of "block_".
pub open spec fn block_prefix() -> Seq<u8> {
    seq![98u8, 108, 111, 99, 107, 95]
}

pub fn make_block_prefix() -> (r: Vec<u8>)
    ensures
        r@ == block_prefix(),
{
    let mut v: Vec<u8> = Vec::new();
    v.push(98);
    v.push(108);
    v.push(111);
    v.push(99);
    v.push(107);
    v.push(95);
    proof {
        assert(v@ =~= block_prefix());
    }
    v
}

/// The bytes of "latest_block".
pub open spec fn latest_block_key() -> Seq<u8> {
    seq![108u8, 97, 116, 101, 115, 116, 95, 98, 108, 111, 99, 107]
}

pub fn make_latest_block_key() -> (r: Vec<u8>)
    ensures
        r@ == latest_block_key(),
{
    let mut v: Vec<u8> = Vec::new();
    v.push(108);
    v.push(97);
    v.push(116);
    v.push(101);
    v.push(115);
    v.push(116);
    v.push(95);
    v.push(98);
    v.push(108);
    v.push(111);
    v.push(99);
    v.push(107);
    proof {
        assert(v@ =~= latest_block_key());
    }
    v
}

/// The bytes of "spin".
pub open spec fn system_id() -> Seq<u8> {
    seq![115u8, 112, 105, 110]
}

pub fn make_system_id() -> (r: Vec<u8>)
    ensures
        r@ == system_id(),
{
    let mut v: Vec<u8> = Vec::new();
    v.push(115);
    v.push(112);
    v.push(105);
    v.push(110);
    proof {
        assert(v@ =~= system_id());
    }
    v
}

/// The bytes of "evm".
pub open spec fn evm_id() -> Seq<u8> {
    seq![101u8, 118, 109]
}

pub fn make_evm_id() -> (r: Vec<u8>)
    ensures
        r@ == evm_id(),
{
    let mut v: Vec<u8> = Vec::new();
    v.push(101);
    v.push(118);
    v.push(109);
    proof {
        assert(v@ =~= evm_id());
    }
    v
}

/// The bytes of "counter".
pub open spec fn counter_designator() -> Seq<u8> {
    seq![99u8, 111, 117, 110, 116, 101, 114]
}

pub fn make_counter_designator() -> (r: Vec<u8>)
    ensures
        r@ == counter_designator(),
{
    let mut v: Vec<u8> = Vec::new();
    v.push(99);
    v.push(111);
    v.push(117);
    v.push(110);
    v.push(116);
    v.push(101);
    v.push(114);
    proof {
        assert(v@ =~= counter_designator());
    }
    v
}

/// The bytes of "token".
pub open spec fn token_designator() -> Seq<u8> {
    seq![116u8, 111, 107, 101, 110]
}

pub fn make_token_designator() -> (r: Vec<u8>)
    ensures
        r@ == token_designator(),
{
    let mut v: Vec<u8> = Vec::new();
    v.push(116);
    v.push(111);
    v.push(107);
    v.push(101);
    v.push(110);
    proof {
        assert(v@ =~= token_designator());
    }
    v
}

/// The bytes of "fibonacci".
pub open spec fn fibonacci_designator() -> Seq<u8> {
    seq![102u8, 105, 98, 111, 110, 97, 99, 99, 105]
}

pub fn make_fibonacci_designator() -> (r: Vec<u8>)
    ensures
        r@ == fibonacci_designator(),
{
    let mut v: Vec<u8> = Vec::new();
    v.push(102);
    v.push(105);
    v.push(98);
    v.push(111);
    v.push(110);
    v.push(97);
    v.push(99);
    v.push(99);
    v.push(105);
    proof {
        assert(v@ =~= fibonacci_designator());
    }
    v
}

/// The bytes of "create_account".
pub open spec fn create_account_method() -> Seq<u8> {
    seq![99u8, 114, 101, 97, 116, 101, 95, 97, 99, 99, 111, 117, 110, 116]
}

pub fn make_create_account_method() -> (r: Vec<u8>)
    ensures
        r@ == create_account_method(),
{
    let mut v: Vec<u8> = Vec::new();
    v.push(99);
    v.push(114);
    v.push(101);
    v.push(97);
    v.push(116);
    v.push(101);
    v.push(95);
    v.push(97);
    v.push(99);
    v.push(99);
    v.push(111);
    v.push(117);
    v.push(110);
    v.push(116);
    proof {
        assert(v@ =~= create_account_method());
    }
    v
}

/// The bytes of "deploy_contract".
pub open spec fn deploy_contract_method() -> Seq<u8> {
    seq![100u8, 101, 112, 108, 111, 121, 95, 99, 111, 110, 116, 114, 97, 99, 116]
}

pub fn make_deploy_contract_method() -> (r: Vec<u8>)
    ensures
        r@ == deploy_contract_method(),
{
    let mut v: Vec<u8> = Vec::new();
    v.push(100);
    v.push(101);
    v.push(112);
    v.push(108);
    v.push(111);
    v.push(121);
    v.push(95);
    v.push(99);
    v.push(111);
    v.push(110);
    v.push(116);
    v.push(114);
    v.push(97);
    v.push(99);
    v.push(116);
    proof {
        assert(v@ =~= deploy_contract_method());
    }
    v
}

/// The bytes of "account_info".
pub open spec fn account_info_method() -> Seq<u8> {
    seq![97u8, 99, 99, 111, 117, 110, 116, 95, 105, 110, 102, 111]
}

pub fn make_account_info_method() -> (r: Vec<u8>)
    ensures
        r@ == account_info_method(),
{
    let mut v: Vec<u8> = Vec::new();
    v.push(97);
    v.push(99);
    v.push(99);
    v.push(111);
    v.push(117);
    v.push(110);
    v.push(116);
    v.push(95);
    v.push(105);
    v.push(110);
    v.push(102);
    v.push(111);
    proof {
        assert(v@ =~= account_info_method());
    }
    v
}

/// The bytes of "init".
pub open spec fn init_method() -> Seq<u8> {
    seq![105u8, 110, 105, 116]
}

pub fn make_init_method() -> (r: Vec<u8>)
    ensures
        r@ == init_method(),
{
    let mut v: Vec<u8> = Vec::new();
    v.push(105);
    v.push(110);
    v.push(105);
    v.push(116);
    proof {
        assert(v@ =~= init_method());
    }
    v
}

/// The bytes of "get".
pub open spec fn get_method() -> Seq<u8> {
    seq![103u8, 101, 116]
}

pub fn make_get_method() -> (r: Vec<u8>)
    ensures
        r@ == get_method(),
{
    let mut v: Vec<u8> = Vec::new();
    v.push(103);
    v.push(101);
    v.push(116);
    proof {
        assert(v@ =~= get_method());
    }
    v
}

/// The bytes of "add".
pub open spec fn add_method() -> Seq<u8> {
    seq![97u8, 100, 100]
}

pub fn make_add_method() -> (r: Vec<u8>)
    ensures
        r@ == add_method(),
{
    let mut v: Vec<u8> = Vec::new();
    v.push(97);
    v.push(100);
    v.push(100);
    proof {
        assert(v@ =~= add_method());
    }
    v
}

/// The bytes of "balance_of".
pub open spec fn balance_of_method() -> Seq<u8> {
    seq![98u8, 97, 108, 97, 110, 99, 101, 95, 111, 102]
}

pub fn make_balance_of_method() -> (r: Vec<u8>)
    ensures
        r@ == balance_of_method(),
{
    let mut v: Vec<u8> = Vec::new();
    v.push(98);
    v.push(97);
    v.push(108);
    v.push(97);
    v.push(110);
    v.push(99);
    v.push(101);
    v.push(95);
    v.push(111);
    v.push(102);
    proof {
        assert(v@ =~= balance_of_method());
    }
    v
}

/// The bytes of "mint".
pub open spec fn mint_method() -> Seq<u8> {
    seq![109u8, 105, 110, 116]
}

pub fn make_mint_method() -> (r: Vec<u8>)
    ensures
        r@ == mint_method(),
{
    let mut v: Vec<u8> = Vec::new();
    v.push(109);
    v.push(105);
    v.push(110);
    v.push(116);
    proof {
        assert(v@ =~= mint_method());
    }
    v
}

/// The bytes of "burn".
pub open spec fn burn_method() -> Seq<u8> {
    seq![98u8, 117, 114, 110]
}

pub fn make_burn_method() -> (r: Vec<u8>)
    ensures
        r@ == burn_method(),
{
    let mut v: Vec<u8> = Vec::new();
    v.push(98);
    v.push(117);
    v.push(114);
    v.push(110);
    proof {
        assert(v@ =~= burn_method());
    }
    v
}

/// The bytes of "transfer".
pub open spec fn transfer_method() -> Seq<u8> {
    seq![116u8, 114, 97, 110, 115, 102, 101, 114]
}

pub fn make_transfer_method() -> (r: Vec<u8>)
    ensures
        r@ == transfer_method(),
{
    let mut v: Vec<u8> = Vec::new();
    v.push(116);
    v.push(114);
    v.push(97);
    v.push(110);
    v.push(115);
    v.push(102);
    v.push(101);
    v.push(114);
    proof {
        assert(v@ =~= transfer_method());
    }
    v
}

/// The bytes of "set_owner".
pub open spec fn set_owner_method() -> Seq<u8> {
    seq![115u8, 101, 116, 95, 111, 119, 110, 101, 114]
}

pub fn make_set_owner_method() -> (r: Vec<u8>)
    ensures
        r@ == set_owner_method(),
{
    let mut v: Vec<u8> = Vec::new();
    v.push(115);
    v.push(101);
    v.push(116);
    v.push(95);
    v.push(111);
    v.push(119);
    v.push(110);
    v.push(101);
    v.push(114);
    proof {
        assert(v@ =~= set_owner_method());
    }
    v
}

/// The bytes of "get_owner".
pub open spec fn get_owner_method() -> Seq<u8> {
    seq![103u8, 101, 116, 95, 111, 119, 110, 101, 114]
}

pub fn make_get_owner_method() -> (r: Vec<u8>)
    ensures
        r@ == get_owner_method(),
{
    let mut v: Vec<u8> = Vec::new();
    v.push(103);
    v.push(101);
    v.push(116);
    v.push(95);
    v.push(111);
    v.push(119);
    v.push(110);
    v.push(101);
    v.push(114);
    proof {
        assert(v@ =~= get_owner_method());
    }
    v
}

/// The bytes of "compute".
pub open spec fn compute_method() -> Seq<u8> {
    seq![99u8, 111, 109, 112, 117, 116, 101]
}

pub fn make_compute_method() -> (r: Vec<u8>)
    ensures
        r@ == compute_method(),
{
    let mut v: Vec<u8> = Vec::new();
    v.push(99);
    v.push(111);
    v.push(109);
    v.push(112);
    v.push(117);
    v.push(116);
    v.push(101);
    proof {
        assert(v@ =~= compute_method());
    }
    v
}

/// The bytes of "root".
pub open spec fn root_state_key() -> Seq<u8> {
    seq![114u8, 111, 111, 116]
}

pub fn make_root_state_key() -> (r: Vec<u8>)
    ensures
        r@ == root_state_key(),
{
    let mut v: Vec<u8> = Vec::new();
    v.push(114);
    v.push(111);
    v.push(111);
    v.push(116);
    proof {
        assert(v@ =~= root_state_key());
    }
    v
}

} // verus!
