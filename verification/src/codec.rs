//! Candid encoding and decoding, and the debug text of strings, that the
//! canister's logic relies on.

use vstd::prelude::*;
use crate::natural::Natural;
use crate::principal::PrincipalId;

verus! {

/// The unsigned LEB128 encoding of a number: seven bits to a byte, least
/// significant first, the top bit set on every byte but the last.
pub open spec fn leb128(n: nat) -> Seq<u8>
    decreases n,
{
    if n < 128 {
        seq![n as u8]
    } else {
        seq![(n % 128 + 128) as u8] + leb128(n / 128)
    }
}

/// The candid encoding of the argument tuple `(principal, nat)` that a new
/// storage canister is installed with: the magic `DIDL`, an empty type
/// table, two arguments of the primitive types principal (`0x68`) and nat
/// (`0x7d`), then the principal (`0x01`, its length, its bytes) and the nat.
pub open spec fn storage_init_encoding(owner: Seq<u8>, start_index: nat) -> Seq<u8> {
    seq![0x44u8, 0x49u8, 0x44u8, 0x4cu8, 0x00u8, 0x02u8, 0x68u8, 0x7du8, 0x01u8] + leb128(
        owner.len(),
    ) + owner + leb128(start_index)
}

/// What candid decodes from a reply whose type is `(bool, text)`, or nothing
/// where the bytes are no such reply.
pub uninterp spec fn call_reply_decoding(bytes: Seq<u8>) -> Option<(bool, Seq<char>)>;

/// The debug text of a string: the string quoted, with its special
/// characters escaped.
pub uninterp spec fn debug_text(s: Seq<char>) -> Seq<char>;

/// Calls `candid::encode_args` on the pair of `candid::Principal` (from the
/// owner's bytes) and `candid::Nat` (from the start index's digits). Its
/// result is the encoding stated by `storage_init_encoding`: the two types
/// are primitive, so the type table is empty, and a principal and a nat are
/// written with their LEB128 lengths and values. Encoding into a memory
/// buffer does not fail, so the call's error case is not reached.
#[verifier::external_body]
pub(crate) fn encode_storage_init(owner: &PrincipalId, start_index: &Natural) -> (r: Vec<u8>)
    requires
        owner.well_formed(),
    ensures
        r@ == storage_init_encoding(owner@, start_index@),
{
    let principal = candid::Principal::from_slice(&owner.bytes);
    let index = candid::Nat::from(num_bigint::BigUint::from_bytes_le(&start_index.digits));
    candid::encode_args((principal, index)).expect(
        "encoding a principal and a nat",
    )
}

/// The header of a plain `(bool, text)` reply: the magic `DIDL`, an empty
/// type table, and exactly two arguments, of the primitive types bool
/// (`0x7e`) and text (`0x71`).
pub open spec fn plain_reply_header() -> Seq<u8> {
    seq![0x44u8, 0x49u8, 0x44u8, 0x4cu8, 0x00u8, 0x02u8, 0x7eu8, 0x71u8]
}

/// Bytes that start with the header of a plain `(bool, text)` reply.
pub open spec fn has_plain_reply_header(bytes: Seq<u8>) -> bool {
    bytes.len() >= 8 && bytes.subrange(0, 8) == plain_reply_header()
}

/// Whether the bytes start with the header of a plain `(bool, text)` reply.
pub fn check_plain_reply_header(bytes: &Vec<u8>) -> (b: bool)
    ensures
        b == has_plain_reply_header(bytes@),
{
    if bytes.len() < 8 {
        return false;
    }
    let b = bytes[0] == 0x44 && bytes[1] == 0x49 && bytes[2] == 0x44 && bytes[3] == 0x4c
        && bytes[4] == 0x00 && bytes[5] == 0x02 && bytes[6] == 0x7e && bytes[7] == 0x71;
    proof {
        assert(b <==> bytes@.subrange(0, 8) =~= plain_reply_header());
    }
    b
}

/// Calls `candid::decode_args::<(bool, String)>` on the bytes. The result is
/// the named decoding: the pair where the bytes decode, nothing where they do
/// not. The bytes must carry a plain `(bool, text)` header: with no type
/// table and no further argument, the decoder reads two primitive values
/// whose lengths it checks against the bytes, and so returns; a further
/// argument would be skipped by a loop over a length that the reply states
/// and nothing checks, which a short reply can make run without end.
#[verifier::external_body]
pub(crate) fn decode_call_reply(bytes: &Vec<u8>) -> (r: Option<(bool, String)>)
    requires
        has_plain_reply_header(bytes@),
    ensures
        match r {
            Some((ok, details)) => call_reply_decoding(bytes@) == Some((ok, details@)),
            None => call_reply_decoding(bytes@) is None,
        },
{
    match candid::decode_args::<(bool, String)>(bytes) {
        Ok((ok, details)) => Some((ok, details)),
        Err(_) => None,
    }
}

/// Formats the string with `{:?}`, std's `Debug` for `String`. The result is
/// the named debug text of the string.
#[verifier::external_body]
pub(crate) fn debug_string(s: &String) -> (r: String)
    ensures
        r@ == debug_text(s@),
{
    format!("{:?}", s)
}

} // verus!
