use vstd::prelude::*;

use crate::errors::NomadzError;
use crate::store::{
    has_nft, has_user, nft_index_of, spec_apply_referral, spec_initialize, spec_initialize_user,
    spec_mint_nft, spec_update_config, spec_update_nft, spec_update_user, user_ids_unique,
    user_index_of, StoreView,
};

verus! {

/// Create-once for the singleton config: after a successful `initialize`,
/// every further `initialize` fails with `AlreadyInitialized` and changes
/// nothing, whoever calls it and whatever values it carries.
pub proof fn lemma_initialize_config_once(
    s: StoreView,
    caller1: Seq<u8>,
    admin1: Seq<u8>,
    pcts1: Seq<u8>,
    caller2: Seq<u8>,
    admin2: Seq<u8>,
    pcts2: Seq<u8>,
)
    requires
        spec_initialize(s, caller1, admin1, pcts1).1 is Ok,
    ensures
        ({
            let s1 = spec_initialize(s, caller1, admin1, pcts1).0;
            spec_initialize(s1, caller2, admin2, pcts2) == (
                s1,
                Err::<(), NomadzError>(NomadzError::AlreadyInitialized),
            )
        }),
{
}

/// Create-once for progression records: after a successful
/// `initialize_user_asset_data` for `uid`, every further initialize for the
/// same `uid` fails with `AlreadyInitialized` and overwrites nothing.
pub proof fn lemma_initialize_user_once(
    s: StoreView,
    auth1: Seq<u8>,
    uid: Seq<char>,
    xp1: u64,
    level1: u8,
    luck1: u8,
    auth2: Seq<u8>,
    xp2: u64,
    level2: u8,
    luck2: u8,
)
    requires
        spec_initialize_user(s, auth1, uid, xp1, level1, luck1).1 is Ok,
    ensures
        ({
            let s1 = spec_initialize_user(s, auth1, uid, xp1, level1, luck1).0;
            spec_initialize_user(s1, auth2, uid, xp2, level2, luck2) == (
                s1,
                Err::<(), NomadzError>(NomadzError::AlreadyInitialized),
            )
        }),
{
    let s1 = spec_initialize_user(s, auth1, uid, xp1, level1, luck1).0;
    assert(s1.users[s.users.len() as int].user_id == uid);
    assert(has_user(s1.users, uid));
}

/// Create-once for soulbound tokens: after a successful mint for `uid`,
/// every further mint for the same `uid` fails with `AlreadyInitialized`.
pub proof fn lemma_mint_soulbound_once(
    s: StoreView,
    uid: Seq<char>,
    owner1: Seq<u8>,
    attrs1: Seq<char>,
    owner2: Seq<u8>,
    attrs2: Seq<char>,
)
    requires
        spec_mint_nft(s, uid, owner1, attrs1).1 is Ok,
    ensures
        ({
            let s1 = spec_mint_nft(s, uid, owner1, attrs1).0;
            spec_mint_nft(s1, uid, owner2, attrs2) == (
                s1,
                Err::<(), NomadzError>(NomadzError::AlreadyInitialized),
            )
        }),
{
    let s1 = spec_mint_nft(s, uid, owner1, attrs1).0;
    assert(s1.nfts[s.nfts.len() as int].user_id == uid);
    assert(has_nft(s1.nfts, uid));
}

/// Admin gating: `update_config` succeeds exactly when the caller is the
/// stored admin of an initialized config, and any failing call leaves the
/// state unchanged.
pub proof fn lemma_update_config_admin_gating(
    s: StoreView,
    caller: Seq<u8>,
    new_admin: Seq<u8>,
    pcts: Seq<u8>,
)
    ensures
        spec_update_config(s, caller, new_admin, pcts).1 is Ok <==> (s.config matches Some(c)
            && caller == c.admin),
        !(spec_update_config(s, caller, new_admin, pcts).1 is Ok) ==> spec_update_config(
            s,
            caller,
            new_admin,
            pcts,
        ).0 == s,
{
}

/// No-op on failure: an `update_user_asset_data` for a nonexistent user id
/// fails with `NotFound` and leaves no record behind; more generally every
/// failing update leaves the state exactly as it was.
pub proof fn lemma_update_user_no_op_on_failure(
    s: StoreView,
    caller: Seq<u8>,
    uid: Seq<char>,
    xp: u64,
    level: u8,
    luck: u8,
)
    ensures
        !has_user(s.users, uid) ==> spec_update_user(s, caller, uid, xp, level, luck) == (
            s,
            Err::<(), NomadzError>(NomadzError::NotFound),
        ),
        spec_update_user(s, caller, uid, xp, level, luck).1 is Err ==> spec_update_user(
            s,
            caller,
            uid,
            xp,
            level,
            luck,
        ).0 == s,
{
}

/// Referral atomicity: when `apply_referral` fails at any validation step,
/// both participating records — indeed the whole record set — keep exactly
/// their pre-call state.
pub proof fn lemma_referral_atomicity(s: StoreView, referrer: Seq<char>, referred: Seq<char>)
    ensures
        spec_apply_referral(s, referrer, referred).1 is Err ==> spec_apply_referral(
            s,
            referrer,
            referred,
        ).0 == s,
{
}

/// Referral single use: once a referral to `referred` has succeeded, any
/// further referral to the same referred user — from the old referrer or
/// any other existing user — fails with `AlreadyReferred` and credits
/// nothing a second time.
pub proof fn lemma_referral_single_use(
    s: StoreView,
    referrer1: Seq<char>,
    referrer2: Seq<char>,
    referred: Seq<char>,
)
    requires
        s.wf(),
        spec_apply_referral(s, referrer1, referred).1 is Ok,
        referrer2 != referred,
        has_user(s.users, referrer2),
    ensures
        ({
            let s1 = spec_apply_referral(s, referrer1, referred).0;
            spec_apply_referral(s1, referrer2, referred) == (
                s1,
                Err::<(), NomadzError>(NomadzError::AlreadyReferred),
            )
        }),
{
    let s1 = spec_apply_referral(s, referrer1, referred).0;
    let i = user_index_of(s.users, referrer1);
    let j = user_index_of(s.users, referred);
    assert(0 <= j < s.users.len() && s.users[j].user_id == referred);
    assert(s1.users.len() == s.users.len());
    assert(forall|k: int|
        0 <= k < s1.users.len() ==> s1.users[k].user_id == s.users[k].user_id);
    assert(user_ids_unique(s1.users));
    assert(s1.users[j].user_id == referred);
    assert(has_user(s1.users, referred));
    let j2 = user_index_of(s1.users, referred);
    assert(0 <= j2 < s1.users.len() && s1.users[j2].user_id == referred);
    if j2 < j {
        assert(s1.users[j2].user_id != s1.users[j].user_id);
    } else if j < j2 {
        assert(s1.users[j].user_id != s1.users[j2].user_id);
    }
    assert(j2 == j);
    assert(s1.users[j].referred);
    let k2 = user_index_of(s.users, referrer2);
    assert(0 <= k2 < s.users.len() && s.users[k2].user_id == referrer2);
    assert(s1.users[k2].user_id == referrer2);
    assert(has_user(s1.users, referrer2));
}

/// Soulbound immutability: no `update_soulbound_nft` call ever changes an
/// owner binding. A request from an authorized caller that carries any
/// other owner value fails with `ImmutableFieldViolation`; one that repeats
/// the stored binding succeeds and replaces only the mutable attributes.
pub proof fn lemma_soulbound_owner_immutable(
    s: StoreView,
    caller: Seq<u8>,
    uid: Seq<char>,
    owner_arg: Seq<u8>,
    attrs: Seq<char>,
)
    requires
        s.wf(),
    ensures
        ({
            let s1 = spec_update_nft(s, caller, uid, owner_arg, attrs).0;
            &&& s1.nfts.len() == s.nfts.len()
            &&& forall|k: int|
                0 <= k < s.nfts.len() ==> s1.nfts[k].owner == s.nfts[k].owner
                    && s1.nfts[k].user_id == s.nfts[k].user_id
        }),
        (has_nft(s.nfts, uid) && (caller == s.nfts[nft_index_of(s.nfts, uid)].owner || (
        s.config matches Some(c)
            && caller == c.admin)) && owner_arg != s.nfts[nft_index_of(s.nfts, uid)].owner)
            ==> spec_update_nft(s, caller, uid, owner_arg, attrs) == (
            s,
            Err::<(), NomadzError>(NomadzError::ImmutableFieldViolation),
        ),
        (has_nft(s.nfts, uid) && (caller == s.nfts[nft_index_of(s.nfts, uid)].owner || (
        s.config matches Some(c)
            && caller == c.admin)) && owner_arg == s.nfts[nft_index_of(s.nfts, uid)].owner)
            ==> spec_update_nft(s, caller, uid, owner_arg, attrs).1 is Ok && spec_update_nft(
            s,
            caller,
            uid,
            owner_arg,
            attrs,
        ).0.nfts[nft_index_of(s.nfts, uid)].attrs == attrs,
{
}

} // verus!
