//! Hashes and checksums: deposit subaccounts, CRC-32, and legacy ICP ledger account
//! identifiers (used to send ICP to the cycles minting canister).
use vstd::prelude::*;
use sha2::Digest;
use crate::ids::{PrincipalId, principal_bytes_of_text, principal_from_text};

verus! {

/// The SHA-256 digest of a byte string.
pub uninterp spec fn sha256_spec(data: Seq<u8>) -> Seq<u8>;

/// The SHA-224 digest of a byte string.
pub uninterp spec fn sha224_spec(data: Seq<u8>) -> Seq<u8>;

/// Calls `sha2::Sha256::digest`. Trusted: the result is the digest of `data` (a function of
/// the bytes alone) and is 32 bytes long, as SHA-256 outputs are.
#[verifier::external_body]
fn sha256(data: &[u8]) -> (r: Vec<u8>)
    ensures
        r@ == sha256_spec(data@),
        r@.len() == 32,
{
    sha2::Sha256::digest(data).to_vec()
}

/// Calls `sha2::Sha224::digest`. Trusted: the result is the digest of `data` (a function of
/// the bytes alone) and is 28 bytes long, as SHA-224 outputs are.
#[verifier::external_body]
fn sha224(data: &[u8]) -> (r: Vec<u8>)
    ensures
        r@ == sha224_spec(data@),
        r@.len() == 28,
{
    sha2::Sha224::digest(data).to_vec()
}

/// The bytes of "lucky-ticket-deposit", the domain of deposit subaccounts.
pub open spec fn deposit_domain() -> Seq<u8> {
    seq![
        108u8, 117, 99, 107, 121, 45, 116, 105, 99, 107, 101, 116, 45, 100, 101, 112, 111, 115, 105,
        116,
    ]
}

fn append_bytes(out: &mut Vec<u8>, data: &[u8])
    ensures
        final(out)@ == old(out)@ + data@,
{
    let mut i: usize = 0;
    while i < data.len()
        invariant
            0 <= i <= data.len(),
            out@ == old(out)@ + data@.subrange(0, i as int),
        decreases data.len() - i,
    {
        out.push(data[i]);
        i += 1;
        assert(data@.subrange(0, i as int) =~= data@.subrange(0, i as int - 1).push(data@[i - 1]));
    }
    assert(data@.subrange(0, data@.len() as int) =~= data@);
}

/// The subaccount of the treasury into which `user` pays for tickets:
/// SHA-256 of "lucky-ticket-deposit" followed by the user's principal bytes.
pub fn deposit_subaccount(user: &PrincipalId) -> (r: Vec<u8>)
    ensures
        r@ == sha256_spec(deposit_domain() + user@),
        r@.len() == 32,
{
    let mut data: Vec<u8> = vec![
        108u8, 117, 99, 107, 121, 45, 116, 105, 99, 107, 101, 116, 45, 100, 101, 112, 111, 115, 105,
        116,
    ];
    assert(data@ =~= deposit_domain());
    append_bytes(&mut data, user.bytes.as_slice());
    sha256(data.as_slice())
}

/// One step of the reflected CRC-32 (IEEE polynomial 0xEDB88320).
pub open spec fn crc_bit(c: u32) -> u32 {
    if c & 1 != 0 {
        (c >> 1u32) ^ 0xEDB8_8320u32
    } else {
        c >> 1u32
    }
}

pub open spec fn crc_bits(c: u32, n: nat) -> u32
    decreases n,
{
    if n == 0 {
        c
    } else {
        crc_bit(crc_bits(c, (n - 1) as nat))
    }
}

pub open spec fn crc_fold(c: u32, s: Seq<u8>) -> u32
    decreases s.len(),
{
    if s.len() == 0 {
        c
    } else {
        crc_bits(crc_fold(c, s.drop_last()) ^ (s.last() as u32), 8)
    }
}

/// The CRC-32 (IEEE) checksum of a byte string.
pub open spec fn crc32_spec(s: Seq<u8>) -> u32 {
    !crc_fold(0xFFFF_FFFFu32, s)
}

/// CRC-32 (IEEE) of `data`.
pub fn crc32_ieee(data: &[u8]) -> (r: u32)
    ensures
        r == crc32_spec(data@),
{
    let mut crc: u32 = 0xFFFF_FFFF;
    let mut i: usize = 0;
    while i < data.len()
        invariant
            0 <= i <= data.len(),
            crc == crc_fold(0xFFFF_FFFFu32, data@.subrange(0, i as int)),
        decreases data.len() - i,
    {
        assert(data@.subrange(0, i as int + 1).drop_last() =~= data@.subrange(0, i as int));
        crc ^= data[i] as u32;
        let ghost start = crc;
        let mut k: u32 = 0;
        while k < 8
            invariant
                0 <= k <= 8,
                crc == crc_bits(start, k as nat),
            decreases 8 - k,
        {
            crc = if crc & 1 != 0 {
                (crc >> 1) ^ 0xEDB8_8320
            } else {
                crc >> 1
            };
            k += 1;
        }
        i += 1;
    }
    assert(data@.subrange(0, data@.len() as int) =~= data@);
    !crc
}

/// The big-endian bytes of a 32-bit number.
pub open spec fn be_bytes(c: u32) -> Seq<u8> {
    seq![(c >> 24u32) as u8, (c >> 16u32) as u8, (c >> 8u32) as u8, c as u8]
}

/// A 32-byte subaccount naming a principal: its length, its bytes, then zeros.
pub open spec fn principal_subaccount_spec(p: Seq<u8>) -> Seq<u8> {
    seq![p.len() as u8] + p + Seq::new((31 - p.len()) as nat, |i: int| 0u8)
}

/// The subaccount that names principal `p` (at most 31 bytes long).
pub fn principal_to_subaccount(p: &PrincipalId) -> (r: Vec<u8>)
    requires
        p@.len() <= 31,
    ensures
        r@ == principal_subaccount_spec(p@),
        r@.len() == 32,
{
    let n = p.bytes.len();
    let mut out: Vec<u8> = Vec::new();
    out.push(n as u8);
    append_bytes(&mut out, p.bytes.as_slice());
    let mut k: usize = n;
    while k < 31
        invariant
            n <= k <= 31,
            n == p@.len(),
            out@ == seq![n as u8] + p@ + Seq::new((k - n) as nat, |i: int| 0u8),
        decreases 31 - k,
    {
        out.push(0u8);
        k += 1;
        assert(Seq::new((k - n) as nat, |i: int| 0u8) =~= Seq::new((k - 1 - n) as nat, |i: int| 0u8).push(
            0u8,
        ));
    }
    out
}

/// The bytes of "\x0Aaccount-id", the domain of account identifiers.
pub open spec fn account_id_domain() -> Seq<u8> {
    seq![10u8, 97, 99, 99, 111, 117, 110, 116, 45, 105, 100]
}

/// A legacy ICP ledger account identifier: the CRC-32 (big endian) of the SHA-224 hash
/// of the domain, owner and subaccount, followed by that hash.
pub open spec fn account_identifier_spec(owner: Seq<u8>, subaccount: Seq<u8>) -> Seq<u8> {
    checksummed(sha224_spec(account_id_domain() + owner + subaccount))
}

/// A hash preceded by its CRC-32, big endian.
pub open spec fn checksummed(hash: Seq<u8>) -> Seq<u8> {
    be_bytes(crc32_spec(hash)) + hash
}

/// The account identifier made of an already computed hash: its CRC-32 (big endian), then
/// the hash.
pub fn checksummed_identifier(hash: &[u8]) -> (r: Vec<u8>)
    ensures
        r@ == checksummed(hash@),
{
    let crc = crc32_ieee(hash);
    let mut out: Vec<u8> = Vec::new();
    out.push((crc >> 24) as u8);
    out.push((crc >> 16) as u8);
    out.push((crc >> 8) as u8);
    out.push(crc as u8);
    assert(out@ =~= be_bytes(crc));
    append_bytes(&mut out, hash);
    out
}

pub fn compute_account_identifier(owner: &PrincipalId, subaccount: &[u8]) -> (r: Vec<u8>)
    ensures
        r@ == account_identifier_spec(owner@, subaccount@),
        r@.len() == 32,
{
    let mut data: Vec<u8> = vec![10u8, 97, 99, 99, 111, 117, 110, 116, 45, 105, 100];
    assert(data@ =~= account_id_domain());
    append_bytes(&mut data, owner.bytes.as_slice());
    append_bytes(&mut data, subaccount);
    let hash = sha224(data.as_slice());
    checksummed_identifier(hash.as_slice())
}

/// The textual id of the cycles minting canister.
pub const CMC_PRINCIPAL_TEXT: &'static str = "rkp4c-7iaaa-aaaaa-aaaca-cai";

/// The principal of the cycles minting canister, parsed from its textual id.
pub fn cmc_principal() -> (r: Option<PrincipalId>)
    ensures
        match principal_bytes_of_text(CMC_PRINCIPAL_TEXT@) {
            Some(b) => (r matches Some(p) && p@ == b),
            None => r is None,
        },
{
    principal_from_text(CMC_PRINCIPAL_TEXT)
}

/// The ledger account identifier through which the cycles minting canister tops up
/// `canister_id`: the CMC's account with the canister's subaccount. `None` when the
/// CMC's textual id does not parse.
pub fn cmc_account_for_canister(canister_id: &PrincipalId) -> (r: Option<Vec<u8>>)
    requires
        canister_id@.len() <= 31,
    ensures
        match principal_bytes_of_text(CMC_PRINCIPAL_TEXT@) {
            Some(b) => (r matches Some(a) && a@ == account_identifier_spec(
                b,
                principal_subaccount_spec(canister_id@),
            )),
            None => r is None,
        },
{
    let cmc = match cmc_principal() {
        Some(p) => p,
        None => {
            return None;
        },
    };
    let subaccount = principal_to_subaccount(canister_id);
    Some(compute_account_identifier(&cmc, subaccount.as_slice()))
}

} // verus!
