use vstd::prelude::*;
use vstd::string::StrSliceExecFns;
use vstd::utf8::encode_utf8;

use crate::errors::NomadzError;
use crate::ident::Identity;

use anchor_lang::prelude::Pubkey;

verus! {

/// The address and bump that the host substrate's program-derived-address
/// scheme assigns to the given seed material under the given program id,
/// or `None` when no canonical (off-curve) address exists for it.
pub uninterp spec fn pda_of(seeds: Seq<Seq<u8>>, program_id: Seq<u8>) -> Option<(Seq<u8>, u8)>;

/// Relies on `Pubkey::try_find_program_address` (anchor's re-export of the
/// Solana address type): the result depends on the seeds and the program id
/// alone. It is `None` when the seed count reaches 16, when a seed is longer
/// than 32 bytes, or when no bump yields an off-curve address; a returned
/// address always holds 32 bytes.
#[verifier::external_body]
fn find_pda(seeds: &Vec<Vec<u8>>, program_id: &Identity) -> (r: Option<(Identity, u8)>)
    requires
        program_id.wf(),
    ensures
        (match r {
            Some((a, b)) => pda_of(seeds.deep_view(), program_id@) == Some((a@, b)) && a.wf(),
            None => pda_of(seeds.deep_view(), program_id@) is None,
        }),
        seeds@.len() >= 16 ==> r is None,
        (exists|i: int| 0 <= i < seeds@.len() && seeds@[i]@.len() > 32) ==> r is None,
{
    let pid = Pubkey::new_from_array(program_id.bytes.as_slice().try_into().unwrap());
    let refs: Vec<&[u8]> = seeds.iter().map(|s| s.as_slice()).collect();
    Pubkey::try_find_program_address(&refs, &pid)
        .map(|(a, b)| (Identity { bytes: a.to_bytes().to_vec() }, b))
}

/// Derives the deterministic storage address plus bump for the given seed
/// material; surfaces `AddressDerivationError` exactly when no canonical
/// address exists.
pub fn derive_address(seeds: &Vec<Vec<u8>>, program_id: &Identity) -> (r: Result<
    (Identity, u8),
    NomadzError,
>)
    requires
        program_id.wf(),
    ensures
        (match r {
            Ok((a, b)) => pda_of(seeds.deep_view(), program_id@) == Some((a@, b)) && a.wf(),
            Err(e) => e == NomadzError::AddressDerivationError && pda_of(
                seeds.deep_view(),
                program_id@,
            ) is None,
        }),
{
    match find_pda(seeds, program_id) {
        Some(ab) => Ok(ab),
        None => Err(NomadzError::AddressDerivationError),
    }
}

/// The namespace tag of the singleton config record: the bytes of "config".
pub open spec fn config_tag() -> Seq<u8> {
    seq![99u8, 111u8, 110u8, 102u8, 105u8, 103u8]
}

/// The namespace tag of per-user progression records: the bytes of
/// "user_asset".
pub open spec fn user_asset_tag() -> Seq<u8> {
    seq![117u8, 115u8, 101u8, 114u8, 95u8, 97u8, 115u8, 115u8, 101u8, 116u8]
}

/// The namespace tag of soulbound token records: the bytes of "soulbound".
pub open spec fn soulbound_tag() -> Seq<u8> {
    seq![115u8, 111u8, 117u8, 108u8, 98u8, 111u8, 117u8, 110u8, 100u8]
}

/// The seed material of the singleton config record.
pub open spec fn config_seeds() -> Seq<Seq<u8>> {
    seq![config_tag()]
}

/// The seed material of the progression record of `user_id`.
pub open spec fn user_asset_seeds(user_id: Seq<char>) -> Seq<Seq<u8>> {
    seq![user_asset_tag(), encode_utf8(user_id)]
}

/// The seed material of the soulbound token record of `user_id`.
pub open spec fn soulbound_seeds(user_id: Seq<char>) -> Seq<Seq<u8>> {
    seq![soulbound_tag(), encode_utf8(user_id)]
}

fn config_tag_bytes() -> (v: Vec<u8>)
    ensures
        v@ == config_tag(),
{
    let mut v: Vec<u8> = Vec::new();
    v.push(99);
    v.push(111);
    v.push(110);
    v.push(102);
    v.push(105);
    v.push(103);
    proof {
        assert(v@ =~= config_tag());
    }
    v
}

fn user_asset_tag_bytes() -> (v: Vec<u8>)
    ensures
        v@ == user_asset_tag(),
{
    let mut v: Vec<u8> = Vec::new();
    v.push(117);
    v.push(115);
    v.push(101);
    v.push(114);
    v.push(95);
    v.push(97);
    v.push(115);
    v.push(115);
    v.push(101);
    v.push(116);
    proof {
        assert(v@ =~= user_asset_tag());
    }
    v
}

fn soulbound_tag_bytes() -> (v: Vec<u8>)
    ensures
        v@ == soulbound_tag(),
{
    let mut v: Vec<u8> = Vec::new();
    v.push(115);
    v.push(111);
    v.push(117);
    v.push(108);
    v.push(98);
    v.push(111);
    v.push(117);
    v.push(110);
    v.push(100);
    proof {
        assert(v@ =~= soulbound_tag());
    }
    v
}

/// Derives the address of the singleton config record.
pub fn derive_config_address(program_id: &Identity) -> (r: Result<(Identity, u8), NomadzError>)
    requires
        program_id.wf(),
    ensures
        (match r {
            Ok((a, b)) => pda_of(config_seeds(), program_id@) == Some((a@, b)) && a.wf(),
            Err(e) => e == NomadzError::AddressDerivationError && pda_of(
                config_seeds(),
                program_id@,
            ) is None,
        }),
{
    let mut seeds: Vec<Vec<u8>> = Vec::new();
    seeds.push(config_tag_bytes());
    proof {
        assert(seeds.deep_view() =~~= config_seeds());
    }
    derive_address(&seeds, program_id)
}

/// Derives the address of the progression record of `user_id`.
pub fn derive_user_asset_address(user_id: &String, program_id: &Identity) -> (r: Result<
    (Identity, u8),
    NomadzError,
>)
    requires
        program_id.wf(),
    ensures
        (match r {
            Ok((a, b)) => pda_of(user_asset_seeds(user_id@), program_id@) == Some((a@, b))
                && a.wf(),
            Err(e) => e == NomadzError::AddressDerivationError && pda_of(
                user_asset_seeds(user_id@),
                program_id@,
            ) is None,
        }),
{
    let mut seeds: Vec<Vec<u8>> = Vec::new();
    seeds.push(user_asset_tag_bytes());
    seeds.push(user_id.as_str().as_bytes_vec());
    proof {
        assert(seeds.deep_view() =~~= user_asset_seeds(user_id@));
    }
    derive_address(&seeds, program_id)
}

/// Derives the address of the soulbound token record of `user_id`.
pub fn derive_soulbound_address(user_id: &String, program_id: &Identity) -> (r: Result<
    (Identity, u8),
    NomadzError,
>)
    requires
        program_id.wf(),
    ensures
        (match r {
            Ok((a, b)) => pda_of(soulbound_seeds(user_id@), program_id@) == Some((a@, b))
                && a.wf(),
            Err(e) => e == NomadzError::AddressDerivationError && pda_of(
                soulbound_seeds(user_id@),
                program_id@,
            ) is None,
        }),
{
    let mut seeds: Vec<Vec<u8>> = Vec::new();
    seeds.push(soulbound_tag_bytes());
    seeds.push(user_id.as_str().as_bytes_vec());
    proof {
        assert(seeds.deep_view() =~~= soulbound_seeds(user_id@));
    }
    derive_address(&seeds, program_id)
}

/// Deriving an address twice from identical seed material under the same
/// program id yields identical output: the derivation is a function of its
/// inputs alone.
pub proof fn lemma_address_determinism(
    seeds1: Seq<Seq<u8>>,
    seeds2: Seq<Seq<u8>>,
    pid1: Seq<u8>,
    pid2: Seq<u8>,
)
    requires
        seeds1 == seeds2,
        pid1 == pid2,
    ensures
        pda_of(seeds1, pid1) == pda_of(seeds2, pid2),
{
}

} // verus!
