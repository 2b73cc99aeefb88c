//! Contract code: its raw bytes, its hash, and what the interpreter accepts.

use vstd::prelude::*;

use crate::primitives::{Duplicate, B256};

verus! {

/// The hash of no bytes at all.
pub open spec fn keccak_empty() -> B256 {
    B256 { hi: 0xc5d2460186f7233c927e7db2dcc703c0, lo: 0xe500b653ca82273b7bfad8045d85a470 }
}

/// The Keccak-256 hash of the bytes.
pub uninterp spec fn keccak(data: Seq<u8>) -> B256;

/// The hash that an account with this code carries.
pub open spec fn code_hash_of(code: Seq<u8>) -> B256 {
    if code.len() == 0 {
        keccak_empty()
    } else {
        keccak(code)
    }
}

/// Whether the code starts with the two bytes that announce a delegation.
pub open spec fn announces_delegation(raw: Seq<u8>) -> bool {
    raw.len() >= 2 && raw[0] == 0xef && raw[1] == 0x01
}

/// Whether the interpreter takes the bytes as code: a delegation has exactly
/// 23 bytes and is of version zero; anything else is ordinary code.
pub open spec fn acceptable_code(raw: Seq<u8>) -> bool {
    announces_delegation(raw) ==> raw.len() == 23 && raw[2] == 0
}

/// `alloy_primitives::keccak256`: the Keccak-256 hash of the bytes, which
/// depends on nothing but the bytes. The 32 bytes of the hash are read as two
/// big-endian halves.
#[verifier::external_body]
fn keccak256(data: &Vec<u8>) -> (hash: B256)
    ensures
        hash == keccak(data@),
{
    let bytes = alloy_primitives::keccak256(data).0;
    B256 {
        hi: u128::from_be_bytes(bytes[0..16].try_into().unwrap()),
        lo: u128::from_be_bytes(bytes[16..32].try_into().unwrap()),
    }
}

/// `revm_bytecode::Bytecode::new_raw_checked`, and `original_bytes` of what it
/// gives: it refuses exactly the bytes that `acceptable_code` leaves out.
/// Analysis pads the code and finds its jump targets, and the original bytes
/// come back out of it unchanged.
#[verifier::external_body]
fn analysed(raw: Vec<u8>) -> (original: Option<Vec<u8>>)
    ensures
        original is Some <==> acceptable_code(raw@),
        original matches Some(bytes) ==> bytes@ == raw@,
{
    match revm_bytecode::Bytecode::new_raw_checked(raw.into()) {
        Ok(code) => Some(code.original_bytes().to_vec()),
        Err(_) => None,
    }
}

/// The hash that an account with this code carries: that of the bytes, or the
/// well-known hash of nothing where there is no code.
pub fn code_hash(code: &Vec<u8>) -> (hash: B256)
    ensures
        hash == code_hash_of(code@),
        code@.len() > 0 ==> hash == keccak(code@),
        code@.len() == 0 ==> hash.hi == 0xc5d2460186f7233c927e7db2dcc703c0 && hash.lo
            == 0xe500b653ca82273b7bfad8045d85a470,
{
    if code.len() == 0 {
        B256 { hi: 0xc5d2460186f7233c927e7db2dcc703c0, lo: 0xe500b653ca82273b7bfad8045d85a470 }
    } else {
        keccak256(code)
    }
}

/// Whether the interpreter takes the bytes as code.
pub fn is_acceptable_code(raw: &Vec<u8>) -> (res: bool)
    ensures
        res == acceptable_code(raw@),
{
    if raw.len() >= 2 && raw[0] == 0xef && raw[1] == 0x01 {
        raw.len() == 23 && raw[2] == 0
    } else {
        true
    }
}

/// Code that the interpreter accepts, modelled as its raw bytes.
#[derive(Debug)]
pub struct Bytecode {
    bytes: Vec<u8>,
}

impl DeepView for Bytecode {
    type V = Seq<u8>;

    closed spec fn deep_view(&self) -> Seq<u8> {
        self.bytes@
    }
}

impl Bytecode {
    #[verifier::type_invariant]
    spec fn well_formed(self) -> bool {
        acceptable_code(self.bytes@)
    }

    /// The code that these raw bytes are, if the interpreter accepts them.
    pub fn new_raw_checked(raw: Vec<u8>) -> (code: Option<Bytecode>)
        ensures
            code is Some <==> acceptable_code(raw@),
            code matches Some(made) ==> made.deep_view() == raw@,
    {
        match analysed(raw) {
            Some(bytes) => Some(Bytecode { bytes }),
            None => None,
        }
    }

    /// The code that these raw bytes are.
    pub fn new_raw(raw: Vec<u8>) -> (code: Bytecode)
        requires
            acceptable_code(raw@),
        ensures
            code.deep_view() == raw@,
    {
        Bytecode::new_raw_checked(raw).unwrap()
    }

    /// The raw bytes, without the padding that analysis adds.
    pub fn original_bytes(&self) -> (raw: Vec<u8>)
        ensures
            raw@ == self.deep_view(),
            acceptable_code(raw@),
    {
        proof {
            use_type_invariant(self);
        }
        let raw = self.bytes.clone();
        assert(raw@ =~= self.bytes@);
        raw
    }
}

impl Duplicate for Bytecode {
    fn duplicate(&self) -> (res: Bytecode) {
        Bytecode { bytes: self.original_bytes() }
    }
}

impl Clone for Bytecode {
    fn clone(&self) -> (res: Bytecode)
        ensures
            res.deep_view() == self.deep_view(),
    {
        self.duplicate()
    }
}

impl PartialEq for Bytecode {
    fn eq(&self, other: &Bytecode) -> (res: bool) {
        let len: usize = self.bytes.len();
        if len != other.bytes.len() {
            return false;
        }
        let mut i: usize = 0;
        while i < len
            invariant
                i <= len,
                len == self.bytes@.len(),
                len == other.bytes@.len(),
                forall|j: int| 0 <= j < i ==> self.bytes@[j] == other.bytes@[j],
            decreases len - i,
        {
            if self.bytes[i] != other.bytes[i] {
                return false;
            }
            i += 1;
        }
        assert(self.bytes@ =~= other.bytes@);
        true
    }
}

impl vstd::std_specs::cmp::PartialEqSpecImpl for Bytecode {
    open spec fn obeys_eq_spec() -> bool {
        true
    }

    open spec fn eq_spec(&self, other: &Bytecode) -> bool {
        self.deep_view() == other.deep_view()
    }
}

/// Code is known by the Keccak-256 hash of all of its bytes, and the lack of
/// code by the well-known hash of nothing.
pub proof fn code_is_known_by_the_hash_of_all_its_bytes(code: Seq<u8>)
    ensures
        code.len() > 0 ==> code_hash_of(code) == keccak(code),
        code.len() == 0 ==> code_hash_of(code).hi == 0xc5d2460186f7233c927e7db2dcc703c0
            && code_hash_of(code).lo == 0xe500b653ca82273b7bfad8045d85a470,
{
}

/// Of all bytes the interpreter refuses only those that start with `ef 01` and
/// are not 23 bytes with a zero in the third place.
pub proof fn only_malformed_delegations_are_refused(raw: Seq<u8>)
    ensures
        raw.len() < 2 ==> acceptable_code(raw),
        raw.len() >= 2 && raw[0] != 0xef ==> acceptable_code(raw),
        raw.len() >= 2 && raw[1] != 0x01 ==> acceptable_code(raw),
        raw.len() >= 2 && raw[0] == 0xef && raw[1] == 0x01 ==> (acceptable_code(raw) <==> raw.len()
            == 23 && raw[2] == 0),
{
}

/// Hashing code hashes all of its bytes.
pub proof fn hashing_takes_in_every_byte(code: Vec<u8>, hash: B256)
    requires
        call_ensures(code_hash, (&code,), hash),
    ensures
        code@.len() > 0 ==> hash == keccak(code@),
        code@.len() == 0 ==> hash.hi == 0xc5d2460186f7233c927e7db2dcc703c0 && hash.lo
            == 0xe500b653ca82273b7bfad8045d85a470,
{
}

/// Code is made of the bytes it is given and gives those same bytes out again,
/// and only a malformed delegation makes no code.
pub proof fn code_gives_back_its_bytes(
    raw: Vec<u8>,
    acceptable: bool,
    made: Option<Bytecode>,
    code: Bytecode,
    bytes: Vec<u8>,
)
    requires
        call_ensures(is_acceptable_code, (&raw,), acceptable),
        call_ensures(Bytecode::new_raw_checked, (raw,), made),
        call_ensures(Bytecode::original_bytes, (&code,), bytes),
    ensures
        acceptable <==> !(raw@.len() >= 2 && raw@[0] == 0xef && raw@[1] == 0x01 && !(raw@.len()
            == 23 && raw@[2] == 0)),
        made is Some <==> acceptable,
        made matches Some(built) ==> built.deep_view() == raw@,
        made == Some(code) ==> bytes@ == raw@,
{
}

} // verus!
