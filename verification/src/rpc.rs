//! What the node's replies mean. A reply that failed comes as the words in
//! which it did.

use vstd::prelude::*;

use crate::account::{AccountInfo, AccountInfoView};
use crate::code::{
    acceptable_code, code_hash, code_hash_of, is_acceptable_code, keccak, Bytecode,
};
use crate::error::SimError;
use crate::primitives::{Address, B256, U256};

verus! {

/// The account with this balance, nonce and code. The code itself is left to
/// be fetched by its hash.
pub fn get_account(reply: Result<(U256, u64, Vec<u8>), String>) -> (res: Result<
    Option<AccountInfo>,
    SimError,
>)
    ensures
        match reply {
            Ok((balance, nonce, code)) => {
                &&& res matches Ok(Some(info))
                &&& info.deep_view() == (AccountInfoView {
                    balance,
                    nonce,
                    code_hash: code_hash_of(code@),
                    account_id: None,
                    code: None,
                })
                &&& info.balance == balance
                &&& info.nonce == nonce
                &&& code@.len() > 0 ==> info.code_hash == keccak(code@)
                &&& code@.len() == 0 ==> info.code_hash == (B256 {
                    hi: 0xc5d2460186f7233c927e7db2dcc703c0,
                    lo: 0xe500b653ca82273b7bfad8045d85a470,
                })
                &&& info.account_id is None
                &&& info.code is None
            },
            Err(message) => res == Err::<Option<AccountInfo>, SimError>(SimError::Rpc(message)),
        },
{
    match reply {
        Ok((balance, nonce, code)) => Ok(
            Some(
                AccountInfo {
                    balance,
                    nonce,
                    code_hash: code_hash(&code),
                    account_id: None,
                    code: None,
                },
            ),
        ),
        Err(message) => Err(SimError::Rpc(message)),
    }
}

/// The address whose code is to be asked for. Code cannot be asked for by its
/// hash, so there has to be one.
pub fn code_address(code_hash: B256, address: Option<Address>) -> (res: Result<Address, SimError>)
    ensures
        res == (match address {
            Some(known) => Ok::<Address, SimError>(known),
            None => Err(SimError::MissingAddressHint { code_hash }),
        }),
{
    match address {
        Some(known) => Ok(known),
        None => Err(SimError::MissingAddressHint { code_hash }),
    }
}

/// What comes of a reply to a request for the code with a hash, where the
/// reply is code that the interpreter accepts or not the code asked for.
pub open spec fn is_code_reply(
    expected: B256,
    address: Address,
    reply: Result<Vec<u8>, String>,
    res: Result<Bytecode, SimError>,
) -> bool {
    match reply {
        Ok(code) => if code_hash_of(code@) == expected {
            res matches Ok(bytecode) && bytecode.deep_view() == code@
        } else {
            res == Err::<Bytecode, SimError>(
                SimError::CodeHashMismatch { address, expected, actual: code_hash_of(code@) },
            )
        },
        Err(message) => res == Err::<Bytecode, SimError>(SimError::Rpc(message)),
    }
}

/// Whether the reply is the code asked for and the interpreter refuses it: a
/// delegation of the wrong shape.
pub open spec fn refused_by_interpreter(expected: B256, reply: Result<Vec<u8>, String>) -> bool {
    reply matches Ok(code) && code_hash_of(code@) == expected && !acceptable_code(code@)
}

/// The code at the address, if it has the hash that was asked for.
pub fn get_code_by_hash(
    expected: B256,
    address: Address,
    reply: Result<Vec<u8>, String>,
) -> (res: Result<Bytecode, SimError>)
    requires
        !refused_by_interpreter(expected, reply),
    ensures
        is_code_reply(expected, address, reply, res),
        reply matches Ok(code) ==> code@.len() > 0 ==> (match res {
            Ok(bytecode) => keccak(code@) == expected && bytecode.deep_view() == code@,
            Err(error) => keccak(code@) != expected && error == (SimError::CodeHashMismatch {
                address,
                expected,
                actual: keccak(code@),
            }),
        }),
{
    match reply {
        Ok(code) => {
            let actual = code_hash(&code);
            if actual != expected {
                return Err(SimError::CodeHashMismatch { address, expected, actual });
            }
            Ok(Bytecode::new_raw(code))
        },
        Err(message) => Err(SimError::Rpc(message)),
    }
}

/// The code at the address, if it has the hash that was asked for; nothing
/// where the interpreter refuses it.
pub fn accepted_code_by_hash(
    expected: B256,
    address: Address,
    reply: Result<Vec<u8>, String>,
) -> (res: Option<Result<Bytecode, SimError>>)
    ensures
        res is None <==> refused_by_interpreter(expected, reply),
        res matches Some(result) ==> is_code_reply(expected, address, reply, result),
{
    if let Ok(code) = &reply {
        if !is_acceptable_code(code) && code_hash(code) == expected {
            return None;
        }
    }
    Some(get_code_by_hash(expected, address, reply))
}

pub fn get_storage(reply: Result<U256, String>) -> (res: Result<U256, SimError>)
    ensures
        res == (match reply {
            Ok(value) => Ok::<U256, SimError>(value),
            Err(message) => Err(SimError::Rpc(message)),
        }),
{
    match reply {
        Ok(value) => Ok(value),
        Err(message) => Err(SimError::Rpc(message)),
    }
}

/// The hash of the block, if the node has it.
pub fn get_block_hash(number: u64, reply: Result<Option<B256>, String>) -> (res: Result<
    B256,
    SimError,
>)
    ensures
        res == (match reply {
            Ok(Some(hash)) => Ok::<B256, SimError>(hash),
            Ok(None) => Err(SimError::BlockNotFound(number)),
            Err(message) => Err(SimError::Rpc(message)),
        }),
{
    match reply {
        Ok(Some(hash)) => Ok(hash),
        Ok(None) => Err(SimError::BlockNotFound(number)),
        Err(message) => Err(SimError::Rpc(message)),
    }
}

pub fn get_block_number(reply: Result<u64, String>) -> (res: Result<u64, SimError>)
    ensures
        res == (match reply {
            Ok(number) => Ok::<u64, SimError>(number),
            Err(message) => Err(SimError::Rpc(message)),
        }),
{
    match reply {
        Ok(number) => Ok(number),
        Err(message) => Err(SimError::Rpc(message)),
    }
}

/// Code that is given out under a hash has that hash.
pub proof fn fetched_code_has_its_hash(
    expected: B256,
    address: Address,
    reply: Result<Vec<u8>, String>,
    res: Result<Bytecode, SimError>,
)
    requires
        is_code_reply(expected, address, reply, res),
        res is Ok,
    ensures
        code_hash_of(res->Ok_0.deep_view()) == expected,
{
}

/// What comes of a reply with code turns on the Keccak-256 hash of all of its
/// bytes: the bytes are given out as they are if it is the hash that was asked
/// for, and the error names both hashes if it is not.
pub proof fn code_reply_is_judged_by_the_hash_of_all_its_bytes(
    expected: B256,
    address: Address,
    code: Vec<u8>,
    res: Result<Bytecode, SimError>,
)
    requires
        code@.len() > 0,
        is_code_reply(expected, address, Ok(code), res),
    ensures
        res is Ok <==> keccak(code@) == expected,
        res matches Ok(bytecode) ==> bytecode.deep_view() == code@,
        res matches Err(error) ==> error == (SimError::CodeHashMismatch {
            address,
            expected,
            actual: keccak(code@),
        }),
{
}

/// A reply without code is the code asked for exactly if the well-known hash of
/// nothing was asked for.
pub proof fn empty_code_reply_is_judged_by_the_hash_of_nothing(
    expected: B256,
    address: Address,
    code: Vec<u8>,
    res: Result<Bytecode, SimError>,
)
    requires
        code@.len() == 0,
        is_code_reply(expected, address, Ok(code), res),
    ensures
        res is Ok <==> expected.hi == 0xc5d2460186f7233c927e7db2dcc703c0 && expected.lo
            == 0xe500b653ca82273b7bfad8045d85a470,
        res matches Ok(bytecode) ==> bytecode.deep_view() == Seq::<u8>::empty(),
{
}

/// The node's own words reach the reader when a call failed.
pub proof fn failed_code_reply_keeps_the_words(
    expected: B256,
    address: Address,
    message: String,
    res: Result<Bytecode, SimError>,
)
    requires
        is_code_reply(expected, address, Err(message), res),
    ensures
        res == Err::<Bytecode, SimError>(SimError::Rpc(message)),
{
}

/// The interpreter is asked only of code that has its hash, and refuses only a
/// delegation of the wrong shape.
pub proof fn refused_code_has_its_hash_and_is_malformed(expected: B256, code: Vec<u8>)
    ensures
        refused_by_interpreter(expected, Ok(code)) <==> {
            &&& code@.len() >= 2
            &&& keccak(code@) == expected
            &&& code@[0] == 0xef
            &&& code@[1] == 0x01
            &&& !(code@.len() == 23 && code@[2] == 0)
        },
{
}

/// A call that failed brings no code for the interpreter to refuse.
pub proof fn failed_reply_is_not_refused(expected: B256, message: String)
    ensures
        !refused_by_interpreter(expected, Err(message)),
{
}

/// An account is given with the balance and the nonce of the reply and the
/// Keccak-256 hash of all of its code; the code itself is left out. Where the
/// call failed the node's words are given.
pub proof fn account_reply_is_taken_as_it_is(
    balance: U256,
    nonce: u64,
    code: Vec<u8>,
    res: Result<Option<AccountInfo>, SimError>,
    message: String,
    failed: Result<Option<AccountInfo>, SimError>,
)
    requires
        call_ensures(get_account, (Ok((balance, nonce, code)),), res),
        call_ensures(get_account, (Err(message),), failed),
    ensures
        res matches Ok(Some(info)) && {
            &&& info.balance == balance
            &&& info.nonce == nonce
            &&& code@.len() > 0 ==> info.code_hash == keccak(code@)
            &&& code@.len() == 0 ==> info.code_hash == (B256 {
                hi: 0xc5d2460186f7233c927e7db2dcc703c0,
                lo: 0xe500b653ca82273b7bfad8045d85a470,
            })
            &&& info.account_id is None
            &&& info.code is None
        },
        failed == Err::<Option<AccountInfo>, SimError>(SimError::Rpc(message)),
{
}

/// Code is given byte for byte if the Keccak-256 hash of all of it is the one
/// that was asked for, and otherwise the error names the address and both
/// hashes.
pub proof fn fetched_code_is_checked_whole(
    expected: B256,
    address: Address,
    code: Vec<u8>,
    res: Result<Bytecode, SimError>,
)
    requires
        code@.len() > 0,
        call_ensures(get_code_by_hash, (expected, address, Ok(code)), res),
    ensures
        keccak(code@) == expected ==> (res matches Ok(bytecode) && bytecode.deep_view() == code@),
        keccak(code@) != expected ==> res == Err::<Bytecode, SimError>(
            SimError::CodeHashMismatch { address, expected, actual: keccak(code@) },
        ),
{
    code_reply_is_judged_by_the_hash_of_all_its_bytes(expected, address, code, res);
}

/// The same holds where the interpreter is asked first: nothing is given only of
/// a malformed delegation that has the hash that was asked for.
pub proof fn accepted_code_is_checked_whole(
    expected: B256,
    address: Address,
    code: Vec<u8>,
    res: Option<Result<Bytecode, SimError>>,
)
    requires
        code@.len() > 0,
        call_ensures(accepted_code_by_hash, (expected, address, Ok(code)), res),
    ensures
        res is None ==> keccak(code@) == expected && code@.len() >= 2 && code@[0] == 0xef
            && code@[1] == 0x01 && !(code@.len() == 23 && code@[2] == 0),
        res matches Some(Ok(bytecode)) ==> keccak(code@) == expected && bytecode.deep_view()
            == code@,
        res matches Some(Err(error)) ==> keccak(code@) != expected && error == (
        SimError::CodeHashMismatch { address, expected, actual: keccak(code@) }),
{
    if let Some(result) = res {
        code_reply_is_judged_by_the_hash_of_all_its_bytes(expected, address, code, result);
    } else {
        refused_code_has_its_hash_and_is_malformed(expected, code);
    }
}

/// Slots, block hashes and block numbers are given as the node gives them, a
/// block that it does not have is reported with its number, and where a call
/// failed the node's words are given. Code cannot be asked for without an
/// address.
pub proof fn other_replies_are_taken_as_they_are(
    value: U256,
    slot: Result<U256, SimError>,
    number: u64,
    found: Option<B256>,
    hash: Result<B256, SimError>,
    latest: Result<u64, SimError>,
    code_hash: B256,
    hint: Option<Address>,
    address: Result<Address, SimError>,
)
    requires
        call_ensures(get_storage, (Ok(value),), slot),
        call_ensures(get_block_hash, (number, Ok(found)), hash),
        call_ensures(get_block_number, (Ok(number),), latest),
        call_ensures(code_address, (code_hash, hint), address),
    ensures
        slot == Ok::<U256, SimError>(value),
        found is Some ==> hash == Ok::<B256, SimError>(found->0),
        found is None ==> hash == Err::<B256, SimError>(SimError::BlockNotFound(number)),
        latest == Ok::<u64, SimError>(number),
        hint is Some ==> address == Ok::<Address, SimError>(hint->0),
        hint is None ==> address == Err::<Address, SimError>(
            SimError::MissingAddressHint { code_hash },
        ),
{
}

/// Where a call failed the reader is given the node's words.
pub proof fn failed_replies_keep_the_words(
    message: String,
    number: u64,
    slot: Result<U256, SimError>,
    hash: Result<B256, SimError>,
    latest: Result<u64, SimError>,
)
    requires
        call_ensures(get_storage, (Err(message),), slot),
        call_ensures(get_block_hash, (number, Err(message)), hash),
        call_ensures(get_block_number, (Err(message),), latest),
    ensures
        slot == Err::<U256, SimError>(SimError::Rpc(message)),
        hash == Err::<B256, SimError>(SimError::Rpc(message)),
        latest == Err::<u64, SimError>(SimError::Rpc(message)),
{
}

} // verus!
