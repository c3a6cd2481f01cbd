//! Script bytes: opcodes, pushes and hashes.

use vstd::prelude::*;

verus! {

pub const OP_DEPTH: u8 = 0x74;

pub const OP_EQUAL: u8 = 0x87;

pub const OP_IF: u8 = 0x63;

pub const OP_ELSE: u8 = 0x67;

pub const OP_ENDIF: u8 = 0x68;

pub const OP_VERIFY: u8 = 0x69;

pub const OP_DROP: u8 = 0x75;

pub const OP_DUP: u8 = 0x76;

pub const OP_HASH160: u8 = 0xa9;

pub const OP_EQUALVERIFY: u8 = 0x88;

pub const OP_CHECKSIG: u8 = 0xac;

/// The SHA-256 digest of a byte string, as `bitcoin::hashes::sha256`
/// computes it.
pub uninterp spec fn sha256(data: Seq<u8>) -> Seq<u8>;

/// The bytes that push a byte string shorter than 2^32 in a script: the
/// shortest length prefix that fits, then the data.
pub open spec fn data_push(data: Seq<u8>) -> Seq<u8> {
    let n = data.len();
    if n < 0x4c {
        seq![n as u8] + data
    } else if n < 0x100 {
        seq![0x4cu8, n as u8] + data
    } else if n < 0x10000 {
        seq![0x4du8, (n % 0x100) as u8, (n / 0x100) as u8] + data
    } else {
        seq![
            0x4eu8,
            (n % 0x100) as u8,
            ((n / 0x100) % 0x100) as u8,
            ((n / 0x10000) % 0x100) as u8,
            (n / 0x1000000) as u8,
        ] + data
    }
}

/// A number other than zero as a script holds it: its magnitude in bytes,
/// lowest first, with the sign in the highest bit of the last byte, which
/// is a byte of its own where the magnitude needs that bit.
pub open spec fn script_number(magnitude: nat, negative: bool) -> Seq<u8>
    decreases magnitude,
{
    if magnitude > 0xff {
        seq![(magnitude % 0x100) as u8] + script_number(magnitude / 0x100, negative)
    } else if magnitude >= 0x80 {
        seq![magnitude as u8, if negative { 0x80u8 } else { 0u8 }]
    } else {
        seq![(magnitude + if negative { 0x80nat } else { 0nat }) as u8]
    }
}

/// The bytes that push an integer in a script: one opcode for minus one
/// and for one to sixteen, the empty push for zero, and the push of the
/// number's bytes for any other.
pub open spec fn int_push(n: int) -> Seq<u8> {
    if n == -1 || 1 <= n <= 16 {
        seq![(0x50 + n) as u8]
    } else if n == 0 {
        seq![0u8]
    } else {
        data_push(script_number(if n < 0 { (-n) as nat } else { n as nat }, n < 0))
    }
}

/// The number that bytes write, lowest byte first.
pub open spec fn little_endian(data: Seq<u8>) -> nat
    decreases data.len(),
{
    if data.len() == 0 {
        0
    } else {
        data[0] as nat + 0x100 * little_endian(data.subrange(1, data.len() as int))
    }
}

/// The value of the sign bit of a script number of one to four bytes.
pub open spec fn sign_bit(len: nat) -> nat {
    if len == 1 {
        0x80
    } else if len == 2 {
        0x8000
    } else if len == 3 {
        0x80_0000
    } else {
        0x8000_0000
    }
}

/// The number that a stack element reads as: zero for the empty element,
/// none for more than four bytes, else the magnitude that the bytes write
/// without their sign bit, negative where that bit is set.
pub open spec fn script_int(data: Seq<u8>) -> Option<int> {
    if data.len() == 0 {
        Some(0)
    } else if data.len() > 4 {
        None
    } else if data.last() >= 0x80 {
        Some(-(little_endian(data) - sign_bit(data.len())))
    } else {
        Some(little_endian(data) as int)
    }
}

/// Hashes a byte string to 32 bytes.
///
/// Trusted: calls `bitcoin::hashes::sha256::Hash::hash` and copies the
/// digest out; the contract names the digest and gives its length.
#[verifier::external_body]
pub(crate) fn sha256_of(data: &Vec<u8>) -> (r: Vec<u8>)
    ensures
        r@ == sha256(data@),
        r@.len() == 32,
{
    let digest = <bitcoin::hashes::sha256::Hash as bitcoin::hashes::Hash>::hash(data);
    bitcoin::hashes::Hash::into_inner(digest).to_vec()
}

/// The script bytes that push the integer `n`.
///
/// Trusted: calls `Builder::push_int` on an empty builder and takes the
/// bytes of the script. The contract states the bytes that the builder
/// writes. The builder negates a negative number, which the least number
/// of 64 bits does not bear: `requires` leaves it out.
#[verifier::external_body]
pub(crate) fn push_int_bytes(n: i64) -> (r: Vec<u8>)
    requires
        n > i64::MIN,
    ensures
        r@ == int_push(n as int),
{
    bitcoin::blockdata::script::Builder::new().push_int(n).into_script().into_bytes()
}

/// The script bytes that push `data`.
///
/// Trusted: calls `Builder::push_slice` on an empty builder and takes the
/// bytes of the script. The contract states the length prefix that the
/// builder writes for each range of lengths; the builder refuses data of
/// 2^32 bytes or more, which `requires` leaves out.
#[verifier::external_body]
pub(crate) fn push_slice_bytes(data: &Vec<u8>) -> (r: Vec<u8>)
    requires
        data@.len() < 0x1_0000_0000,
    ensures
        r@ == data_push(data@),
{
    bitcoin::blockdata::script::Builder::new().push_slice(data).into_script().into_bytes()
}

/// Reads a stack element as a number.
///
/// Trusted: calls `read_scriptint`. The contract states what it reads, and
/// that a number of at most four bytes has a magnitude below 2^31.
#[verifier::external_body]
pub(crate) fn read_script_int(data: &Vec<u8>) -> (r: Option<i64>)
    ensures
        r matches Some(n) ==> script_int(data@) == Some(n as int),
        r is None ==> script_int(data@) is None,
        r matches Some(n) ==> -0x8000_0000 < n < 0x8000_0000,
{
    bitcoin::blockdata::script::read_scriptint(data).ok()
}

/// Appends every byte of `tail` to `out`.
pub fn append_bytes(out: &mut Vec<u8>, tail: &Vec<u8>)
    ensures
        final(out)@ == old(out)@ + tail@,
{
    let ghost before = out@;
    let mut i: usize = 0;
    while i < tail.len()
        invariant
            i <= tail.len(),
            out@ == before + tail@.subrange(0, i as int),
        decreases tail.len() - i,
    {
        out.push(tail[i]);
        proof {
            assert(out@ =~= before + tail@.subrange(0, i + 1));
        }
        i += 1;
    }
    proof {
        assert(tail@.subrange(0, i as int) =~= tail@);
    }
}

/// The pay-to-pubkey-hash script of a 20-byte key hash.
pub open spec fn p2pkh_script(hash: Seq<u8>) -> Seq<u8> {
    seq![OP_DUP, OP_HASH160] + data_push(hash) + seq![OP_EQUALVERIFY, OP_CHECKSIG]
}

/// The version-0 witness program that commits to a witness script: a zero,
/// then the push of the script's SHA-256.
pub open spec fn v0_p2wsh_script(witness_script: Seq<u8>) -> Seq<u8> {
    seq![0u8] + data_push(sha256(witness_script))
}

/// Builds the version-0 witness program of a witness script.
pub fn v0_p2wsh(witness_script: &Vec<u8>) -> (r: Vec<u8>)
    ensures
        r@ == v0_p2wsh_script(witness_script@),
        r@.len() == 34,
{
    let digest = sha256_of(witness_script);
    let push = push_slice_bytes(&digest);
    let mut out: Vec<u8> = Vec::new();
    out.push(0u8);
    append_bytes(&mut out, &push);
    proof {
        assert(out@ =~= v0_p2wsh_script(witness_script@));
    }
    out
}

/// The number of bytes that a length takes in a transaction.
pub open spec fn varint_len_of(n: nat) -> nat {
    if n <= 0xfc {
        1
    } else if n <= 0xffff {
        3
    } else if n <= 0xffff_ffff {
        5
    } else {
        9
    }
}

/// The number of bytes that a length takes in a transaction.
pub fn varint_len(n: usize) -> (r: usize)
    ensures
        r == varint_len_of(n as nat),
{
    if n <= 0xfc {
        1
    } else if n <= 0xffff {
        3
    } else if n <= 0xffff_ffff {
        5
    } else {
        9
    }
}

} // verus!
