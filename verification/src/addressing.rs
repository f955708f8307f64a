//! Deterministic storage-address derivation for records.
//!
//! An address is derived from a fixed domain tag, the owner's identity
//! bytes, the slug bytes, and the program identity, together with a
//! one-byte disambiguation value (the "bump"). The derivation itself is
//! done by the ledger runtime's library; this module gives its result a
//! name so that contracts elsewhere can speak of it exactly.

use anchor_lang::solana_program::pubkey::Pubkey;
use vstd::prelude::*;

verus! {

/// The address and bump that the runtime derives from a seed tuple, or
/// `None` when no bump byte yields an off-curve address or a seed breaks
/// the runtime's limits. The outcome — success included — depends on the
/// four byte sequences alone.
pub uninterp spec fn pda_of(
    tag: Seq<u8>,
    owner: Seq<u8>,
    slug_bytes: Seq<u8>,
    program: Seq<u8>,
) -> Option<(Seq<u8>, u8)>;

/// The fixed domain tag mixed into every record address.
pub open spec fn spec_post_tag() -> Seq<u8> {
    seq![112u8, 111u8, 115u8, 116u8]
}

/// The domain tag as bytes: the ASCII word "post".
pub fn post_tag() -> (v: Vec<u8>)
    ensures
        v@ == spec_post_tag(),
{
    let mut v: Vec<u8> = Vec::new();
    v.push(112u8);
    v.push(111u8);
    v.push(115u8);
    v.push(116u8);
    assert(v@ =~= spec_post_tag());
    v
}

/// Address derivation is deterministic: any two derivation outcomes that
/// the contract of `find_post_address` allows for one (owner, slug,
/// program) triple are identical — the same success or failure, and on
/// success the same address and proof.
pub proof fn lemma_derive_deterministic(
    owner: Seq<u8>,
    slug_bytes: Seq<u8>,
    program: Seq<u8>,
    p1: Option<(Seq<u8>, u8)>,
    p2: Option<(Seq<u8>, u8)>,
)
    requires
        p1 == pda_of(spec_post_tag(), owner, slug_bytes, program),
        p2 == pda_of(spec_post_tag(), owner, slug_bytes, program),
    ensures
        p1 == p2,
{
}

/// Relies on Pubkey::try_find_program_address (anchor_lang's re-export of
/// solana_pubkey): the search over bump bytes is a pure computation, so
/// the whole outcome — the derived address and bump, and whether any bump
/// byte yields an off-curve address at all — depends only on the seed
/// bytes and the program id.
#[verifier::external_body]
pub(crate) fn find_post_address(
    tag: &Vec<u8>,
    owner: &[u8; 32],
    slug_bytes: &Vec<u8>,
    program: &[u8; 32],
) -> (r: Option<([u8; 32], u8)>)
    ensures
        r is Some <==> pda_of(tag@, owner@, slug_bytes@, program@) is Some,
        r matches Some(p) ==> pda_of(tag@, owner@, slug_bytes@, program@) == Some((p.0@, p.1)),
{
    let seeds: [&[u8]; 3] = [tag.as_slice(), owner.as_slice(), slug_bytes.as_slice()];
    let program_id = Pubkey::new_from_array(*program);
    Pubkey::try_find_program_address(&seeds, &program_id)
        .map(|(addr, bump)| (addr.to_bytes(), bump))
}

} // verus!
