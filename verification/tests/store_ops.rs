use nomadz_core::errors::NomadzError;
use nomadz_core::ident::Identity;
use nomadz_core::records::{MintSoulboundNftArgs, UpdateSoulboundNftArgs};
use nomadz_core::store::NomadzCore;

fn id(b: u8) -> Identity {
    Identity::from_bytes(vec![b; 32]).unwrap()
}

fn program_id() -> Identity {
    id(7)
}

fn new_core() -> NomadzCore {
    NomadzCore::new(program_id(), None)
}

fn user_snapshot(core: &NomadzCore, uid: &str) -> Option<(u64, u8, u8, bool, Vec<u8>)> {
    let uid = String::from(uid);
    core.get_user_asset_data(&uid)
        .map(|u| (u.xp, u.level, u.luck, u.referred, u.address.as_bytes().clone()))
}

#[test]
fn identity_from_bytes_accepts_exactly_32() {
    assert!(Identity::from_bytes(vec![1u8; 31]).is_none());
    assert!(Identity::from_bytes(vec![1u8; 33]).is_none());
    assert!(Identity::from_bytes(vec![1u8; 32]).is_some());
    let a = Identity::from_bytes(vec![9u8; 32]).unwrap();
    assert_eq!(a.as_bytes(), &vec![9u8; 32]);
}

#[test]
fn initialize_config_once() {
    let mut core = new_core();
    let caller = id(1);
    assert_eq!(core.initialize(&caller, id(2), [10, 20]), Ok(()));
    let c = core.get_config().unwrap();
    assert_eq!(c.admin, id(2));
    assert_eq!(c.lvl_percentages, [10, 20]);

    // A second initialize must fail and must not overwrite.
    assert_eq!(
        core.initialize(&caller, id(3), [40, 50]),
        Err(NomadzError::AlreadyInitialized)
    );
    let c = core.get_config().unwrap();
    assert_eq!(c.admin, id(2));
    assert_eq!(c.lvl_percentages, [10, 20]);
}

#[test]
fn initialize_allow_list_gates_caller() {
    let allowed = vec![id(1), id(2)];
    let mut core = NomadzCore::new(program_id(), Some(allowed));
    assert_eq!(
        core.initialize(&id(3), id(9), [1, 2]),
        Err(NomadzError::Forbidden)
    );
    assert!(core.get_config().is_none());
    assert_eq!(core.initialize(&id(2), id(9), [1, 2]), Ok(()));
    assert_eq!(core.get_config().unwrap().admin, id(9));
}

#[test]
fn update_config_admin_gating() {
    let mut core = new_core();
    core.initialize(&id(1), id(2), [10, 20]).unwrap();

    // Not the admin: rejected before initialization state changes.
    assert_eq!(
        core.update_config(&id(3), id(3), [1, 1]),
        Err(NomadzError::Unauthorized)
    );
    assert_eq!(core.get_config().unwrap().admin, id(2));

    // The stored admin may replace both fields together.
    assert_eq!(core.update_config(&id(2), id(4), [30, 40]), Ok(()));
    let c = core.get_config().unwrap();
    assert_eq!(c.admin, id(4));
    assert_eq!(c.lvl_percentages, [30, 40]);
}

#[test]
fn update_config_rejects_100_random_non_admins() {
    let mut core = new_core();
    core.initialize(&id(1), id(2), [10, 20]).unwrap();

    // A simple deterministic pseudo-random walk over identities, none of
    // which is the admin (its bytes are never all equal to 2).
    let mut seed: u64 = 0x9e37_79b9_7f4a_7c15;
    for _ in 0..100 {
        let mut bytes = Vec::with_capacity(32);
        for _ in 0..32 {
            seed = seed.wrapping_mul(6364136223846793005).wrapping_add(1442695040888963407);
            bytes.push((seed >> 56) as u8);
        }
        bytes[0] = 5; // admin is [2; 32], so this caller can never match it
        let caller = Identity::from_bytes(bytes).unwrap();
        assert_eq!(
            core.update_config(&caller, id(9), [0, 0]),
            Err(NomadzError::Unauthorized)
        );
    }
    let c = core.get_config().unwrap();
    assert_eq!(c.admin, id(2));
    assert_eq!(c.lvl_percentages, [10, 20]);
}

#[test]
fn update_config_before_initialize_fails() {
    let mut core = new_core();
    assert_eq!(
        core.update_config(&id(1), id(2), [1, 2]),
        Err(NomadzError::ConfigNotInitialized)
    );
    assert!(core.get_config().is_none());
}

#[test]
fn initialize_user_asset_data_once() {
    let mut core = new_core();
    let alice = String::from("alice");
    assert_eq!(
        core.initialize_user_asset_data(id(10), alice.clone(), 100, 2, 3),
        Ok(())
    );
    let u = core.get_user_asset_data(&alice).unwrap();
    assert_eq!(u.user_id, "alice");
    assert_eq!((u.xp, u.level, u.luck, u.referred), (100, 2, 3, false));
    assert_eq!(u.authority, id(10));

    // Re-initializing the same user id fails and never overwrites.
    assert_eq!(
        core.initialize_user_asset_data(id(11), alice.clone(), 999, 9, 9),
        Err(NomadzError::AlreadyInitialized)
    );
    let u = core.get_user_asset_data(&alice).unwrap();
    assert_eq!((u.xp, u.level, u.luck), (100, 2, 3));
    assert_eq!(u.authority, id(10));
}

#[test]
fn update_user_asset_data_replaces_all_three_fields() {
    let mut core = new_core();
    let alice = String::from("alice");
    core.initialize_user_asset_data(id(10), alice.clone(), 1, 1, 1)
        .unwrap();
    assert_eq!(
        core.update_user_asset_data(&id(10), &alice, 500, 5, 7),
        Ok(())
    );
    let u = core.get_user_asset_data(&alice).unwrap();
    assert_eq!((u.xp, u.level, u.luck), (500, 5, 7));
}

#[test]
fn update_user_asset_data_requires_authority() {
    let mut core = new_core();
    let alice = String::from("alice");
    core.initialize_user_asset_data(id(10), alice.clone(), 1, 2, 3)
        .unwrap();
    assert_eq!(
        core.update_user_asset_data(&id(11), &alice, 500, 5, 7),
        Err(NomadzError::Unauthorized)
    );
    let u = core.get_user_asset_data(&alice).unwrap();
    assert_eq!((u.xp, u.level, u.luck), (1, 2, 3));
}

#[test]
fn update_missing_user_is_a_no_op() {
    let mut core = new_core();
    let ghost_uid = String::from("ghost");
    assert_eq!(
        core.update_user_asset_data(&id(1), &ghost_uid, 5, 5, 5),
        Err(NomadzError::NotFound)
    );
    // No record may appear as a side effect of the failed update.
    assert!(core.get_user_asset_data(&ghost_uid).is_none());
}

#[test]
fn over_long_user_id_surfaces_derivation_error() {
    // A seed longer than 32 bytes admits no canonical derived address.
    let mut core = new_core();
    let long_id = String::from("this-user-id-is-well-over-thirty-two-bytes-long");
    assert_eq!(
        core.initialize_user_asset_data(id(1), long_id.clone(), 0, 0, 0),
        Err(NomadzError::AddressDerivationError)
    );
    assert!(core.get_user_asset_data(&long_id).is_none());
}

#[test]
fn referral_happy_path_credits_both_records_once() {
    let mut core = new_core();
    core.initialize(&id(1), id(2), [10, 20]).unwrap();
    let alice = String::from("alice");
    let bob = String::from("bob");
    core.initialize_user_asset_data(id(10), alice.clone(), 40, 1, 5)
        .unwrap();
    core.initialize_user_asset_data(id(11), bob.clone(), 100, 3, 0)
        .unwrap();

    assert_eq!(core.apply_referral(&bob, &alice), Ok(()));

    // Referrer gains the xp percentage; referred gains xp and luck and is
    // marked as referred.
    let b = core.get_user_asset_data(&bob).unwrap();
    assert_eq!((b.xp, b.level, b.luck, b.referred), (110, 3, 0, false));
    let a = core.get_user_asset_data(&alice).unwrap();
    assert_eq!((a.xp, a.level, a.luck, a.referred), (50, 1, 25, true));

    // Single use: the second application fails and credits nothing.
    assert_eq!(
        core.apply_referral(&bob, &alice),
        Err(NomadzError::AlreadyReferred)
    );
    let b = core.get_user_asset_data(&bob).unwrap();
    assert_eq!(b.xp, 110);
    let a = core.get_user_asset_data(&alice).unwrap();
    assert_eq!((a.xp, a.luck), (50, 25));
}

#[test]
fn referral_validation_failures_change_nothing() {
    let mut core = new_core();
    core.initialize(&id(1), id(2), [10, 20]).unwrap();
    let alice = String::from("alice");
    let bob = String::from("bob");
    core.initialize_user_asset_data(id(10), alice.clone(), 40, 1, 5)
        .unwrap();
    core.initialize_user_asset_data(id(11), bob.clone(), 100, 3, 0)
        .unwrap();
    let before_alice = user_snapshot(&core, "alice");
    let before_bob = user_snapshot(&core, "bob");

    assert_eq!(
        core.apply_referral(&bob, &bob),
        Err(NomadzError::SelfReferral)
    );
    assert_eq!(
        core.apply_referral(&bob, &String::from("carol")),
        Err(NomadzError::NotFound)
    );
    assert_eq!(
        core.apply_referral(&String::from("carol"), &alice),
        Err(NomadzError::NotFound)
    );

    assert_eq!(user_snapshot(&core, "alice"), before_alice);
    assert_eq!(user_snapshot(&core, "bob"), before_bob);
}

#[test]
fn referral_without_config_fails() {
    let mut core = new_core();
    let alice = String::from("alice");
    let bob = String::from("bob");
    core.initialize_user_asset_data(id(10), alice.clone(), 0, 1, 0)
        .unwrap();
    core.initialize_user_asset_data(id(11), bob.clone(), 0, 1, 0)
        .unwrap();
    let before_alice = user_snapshot(&core, "alice");
    assert_eq!(
        core.apply_referral(&bob, &alice),
        Err(NomadzError::ConfigNotInitialized)
    );
    assert_eq!(user_snapshot(&core, "alice"), before_alice);
}

#[test]
fn referral_saturates_instead_of_overflowing() {
    let mut core = new_core();
    core.initialize(&id(1), id(2), [10, 250]).unwrap();
    let alice = String::from("alice");
    let bob = String::from("bob");
    core.initialize_user_asset_data(id(10), alice.clone(), 5, 1, 250)
        .unwrap();
    core.initialize_user_asset_data(id(11), bob.clone(), u64::MAX - 3, 3, 0)
        .unwrap();
    assert_eq!(core.apply_referral(&bob, &alice), Ok(()));
    let b = core.get_user_asset_data(&bob).unwrap();
    assert_eq!(b.xp, u64::MAX);
    let a = core.get_user_asset_data(&alice).unwrap();
    assert_eq!((a.xp, a.luck), (15, u8::MAX));
}

#[test]
fn mint_soulbound_nft_once() {
    let mut core = new_core();
    let args = MintSoulboundNftArgs {
        user_id: String::from("alice"),
        owner: id(10),
        attrs: String::from("level-1-badge"),
    };
    assert_eq!(core.mint_soulbound_nft(args), Ok(()));
    let alice = String::from("alice");
    let n = core.get_soulbound_nft(&alice).unwrap();
    assert_eq!(n.owner, id(10));
    assert_eq!(n.attrs, "level-1-badge");

    let again = MintSoulboundNftArgs {
        user_id: String::from("alice"),
        owner: id(11),
        attrs: String::from("other"),
    };
    assert_eq!(
        core.mint_soulbound_nft(again),
        Err(NomadzError::AlreadyInitialized)
    );
    let n = core.get_soulbound_nft(&alice).unwrap();
    assert_eq!(n.owner, id(10));
    assert_eq!(n.attrs, "level-1-badge");
}

#[test]
fn soulbound_owner_binding_is_immutable() {
    let mut core = new_core();
    core.mint_soulbound_nft(MintSoulboundNftArgs {
        user_id: String::from("alice"),
        owner: id(10),
        attrs: String::from("initial"),
    })
    .unwrap();
    let alice = String::from("alice");

    // The owner tries to move the binding to another identity: rejected.
    assert_eq!(
        core.update_soulbound_nft(
            &id(10),
            UpdateSoulboundNftArgs {
                user_id: String::from("alice"),
                owner: id(11),
                attrs: String::from("stolen"),
            }
        ),
        Err(NomadzError::ImmutableFieldViolation)
    );
    let n = core.get_soulbound_nft(&alice).unwrap();
    assert_eq!(n.owner, id(10));
    assert_eq!(n.attrs, "initial");

    // Changing only the mutable attributes succeeds.
    assert_eq!(
        core.update_soulbound_nft(
            &id(10),
            UpdateSoulboundNftArgs {
                user_id: String::from("alice"),
                owner: id(10),
                attrs: String::from("updated"),
            }
        ),
        Ok(())
    );
    let n = core.get_soulbound_nft(&alice).unwrap();
    assert_eq!(n.owner, id(10));
    assert_eq!(n.attrs, "updated");
}

#[test]
fn soulbound_update_authority() {
    let mut core = new_core();
    core.initialize(&id(1), id(2), [0, 0]).unwrap();
    core.mint_soulbound_nft(MintSoulboundNftArgs {
        user_id: String::from("alice"),
        owner: id(10),
        attrs: String::from("initial"),
    })
    .unwrap();
    let alice = String::from("alice");

    // A stranger may not touch the token.
    assert_eq!(
        core.update_soulbound_nft(
            &id(12),
            UpdateSoulboundNftArgs {
                user_id: String::from("alice"),
                owner: id(10),
                attrs: String::from("defaced"),
            }
        ),
        Err(NomadzError::Unauthorized)
    );

    // The config admin may update the mutable attributes.
    assert_eq!(
        core.update_soulbound_nft(
            &id(2),
            UpdateSoulboundNftArgs {
                user_id: String::from("alice"),
                owner: id(10),
                attrs: String::from("admin-touch"),
            }
        ),
        Ok(())
    );
    assert_eq!(core.get_soulbound_nft(&alice).unwrap().attrs, "admin-touch");
}

#[test]
fn soulbound_update_missing_token_fails() {
    let mut core = new_core();
    assert_eq!(
        core.update_soulbound_nft(
            &id(1),
            UpdateSoulboundNftArgs {
                user_id: String::from("nobody"),
                owner: id(1),
                attrs: String::from("x"),
            }
        ),
        Err(NomadzError::NotFound)
    );
    assert!(core.get_soulbound_nft(&String::from("nobody")).is_none());
}

#[test]
fn end_to_end_scenario() {
    let mut core = new_core();
    // initialize Config with admin = A, lvl_percentages = [10, 20]
    let admin = id(2);
    assert_eq!(core.initialize(&id(1), admin, [10, 20]), Ok(()));

    // initialize UserAssetData for "alice" with xp=0, level=1, luck=0
    let alice = String::from("alice");
    let bob = String::from("bob");
    assert_eq!(
        core.initialize_user_asset_data(id(10), alice.clone(), 0, 1, 0),
        Ok(())
    );

    // applyReferral("bob", "alice") fails: bob not initialized.
    assert_eq!(core.apply_referral(&bob, &alice), Err(NomadzError::NotFound));

    // initialize "bob", then the referral succeeds and credits alice per
    // the stored percentages.
    assert_eq!(
        core.initialize_user_asset_data(id(11), bob.clone(), 0, 1, 0),
        Ok(())
    );
    assert_eq!(core.apply_referral(&bob, &alice), Ok(()));
    let a = core.get_user_asset_data(&alice).unwrap();
    assert_eq!((a.xp, a.luck, a.referred), (10, 20, true));

    // The second referral to alice fails with AlreadyReferred.
    assert_eq!(
        core.apply_referral(&bob, &alice),
        Err(NomadzError::AlreadyReferred)
    );
}
