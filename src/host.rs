//! The host primitives the vault rests on: address comparison, derived
//! (program) addresses and the rent-exemption floor.

use vstd::prelude::*;

use anchor_lang::solana_program::pubkey::Pubkey;
use anchor_lang::solana_program::rent::Rent;

verus! {

/// Largest account payload the host accepts, in bytes.
pub const MAX_PERMITTED_DATA_LENGTH: usize = 10485760;

/// Whether two 32-byte addresses are the same.
pub fn same_address(a: &[u8; 32], b: &[u8; 32]) -> (r: bool)
    ensures
        r == (a@ == b@),
{
    let mut i: usize = 0;
    while i < 32
        invariant
            0 <= i <= 32,
            a@.len() == 32,
            b@.len() == 32,
            forall|j: int| 0 <= j < i ==> a@[j] == b@[j],
        decreases 32 - i,
    {
        if a[i] != b[i] {
            return false;
        }
        i = i + 1;
    }
    assert(a@ =~= b@);
    true
}

/// The program address, with its bump, that the host derives from a list of
/// seeds and a program id; `None` when no bump gives an address off the curve.
pub uninterp spec fn program_address_of(tag: Seq<u8>, owner: Seq<u8>, program: Seq<u8>) -> Option<(Seq<u8>, u8)>;

/// Relies on `Pubkey::try_find_program_address`: with the seeds `[tag, owner]`
/// it returns the first off-curve address and its bump, a function of the
/// seeds and the program id alone, or `None`.
#[verifier::external_body]
pub(crate) fn find_program_address(tag: &[u8], owner: &[u8; 32], program: &[u8; 32]) -> (r: Option<([u8; 32], u8)>)
    ensures
        match r {
            Some((k, b)) => program_address_of(tag@, owner@, program@) == Some((k@, b)),
            None => program_address_of(tag@, owner@, program@) is None,
        },
{
    let found = Pubkey::try_find_program_address(&[tag, &owner[..]], &Pubkey::from(*program));
    found.map(|(k, b)| (k.to_bytes(), b))
}

/// Relies on `Rent::default()` and `Rent::minimum_balance`: with the default
/// rate of 3480 lamports per byte-year and an exemption threshold of two
/// years, the floor for `data_len` payload bytes plus the 128-byte account
/// overhead is `(128 + data_len) * 3480 * 2`, which the float step keeps exact
/// for payloads up to the host's maximum.
#[verifier::external_body]
pub(crate) fn default_rent_minimum(data_len: usize) -> (r: u64)
    requires
        data_len <= MAX_PERMITTED_DATA_LENGTH,
    ensures
        r == (128 + data_len) * 6960,
{
    Rent::default().minimum_balance(data_len)
}

} // verus!
