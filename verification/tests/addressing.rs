use std::collections::HashSet;

use nomadz_core::addresses::{
    derive_config_address, derive_soulbound_address, derive_user_asset_address,
};
use nomadz_core::ident::Identity;

fn id(b: u8) -> Identity {
    Identity::from_bytes(vec![b; 32]).unwrap()
}

#[test]
fn derivation_is_deterministic() {
    let pid = id(7);
    let uid = String::from("alice");
    let (a1, b1) = derive_user_asset_address(&uid, &pid).unwrap();
    let (a2, b2) = derive_user_asset_address(&uid, &pid).unwrap();
    assert_eq!(a1.as_bytes(), a2.as_bytes());
    assert_eq!(b1, b2);

    let (c1, d1) = derive_config_address(&pid).unwrap();
    let (c2, d2) = derive_config_address(&pid).unwrap();
    assert_eq!(c1.as_bytes(), c2.as_bytes());
    assert_eq!(d1, d2);
}

#[test]
fn record_namespaces_do_not_collide() {
    // The same user id addresses different records under different tags,
    // and the config lives at yet another address.
    let pid = id(7);
    let uid = String::from("alice");
    let (user_addr, _) = derive_user_asset_address(&uid, &pid).unwrap();
    let (nft_addr, _) = derive_soulbound_address(&uid, &pid).unwrap();
    let (cfg_addr, _) = derive_config_address(&pid).unwrap();
    assert_ne!(user_addr.as_bytes(), nft_addr.as_bytes());
    assert_ne!(user_addr.as_bytes(), cfg_addr.as_bytes());
    assert_ne!(nft_addr.as_bytes(), cfg_addr.as_bytes());
}

#[test]
fn distinct_user_ids_get_distinct_addresses() {
    let pid = id(7);
    let mut seen: HashSet<Vec<u8>> = HashSet::new();
    for i in 0..10_000u32 {
        let uid = format!("user-{}", i);
        let (addr, _) = derive_user_asset_address(&uid, &pid).unwrap();
        assert!(
            seen.insert(addr.as_bytes().clone()),
            "address collision for {}",
            uid
        );
    }
}

#[test]
fn derived_address_depends_on_program_id() {
    let uid = String::from("alice");
    let (a1, _) = derive_user_asset_address(&uid, &id(7)).unwrap();
    let (a2, _) = derive_user_asset_address(&uid, &id(8)).unwrap();
    assert_ne!(a1.as_bytes(), a2.as_bytes());
}

#[test]
fn derived_address_is_32_bytes_and_not_the_input() {
    let pid = id(7);
    let uid = String::from("alice");
    let (addr, _) = derive_user_asset_address(&uid, &pid).unwrap();
    assert_eq!(addr.as_bytes().len(), 32);
    assert_ne!(addr.as_bytes(), pid.as_bytes());
}
