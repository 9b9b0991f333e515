use vstd::prelude::*;

use crate::ident::Identity;

verus! {

/// The singleton configuration record: the admin identity that gates
/// config updates, and the two level percentages the referral engine reads.
pub struct Config {
    pub admin: Identity,
    pub lvl_percentages: [u8; 2],
    pub address: Identity,
    pub bump: u8,
}

/// Spec-level image of `Config`.
pub struct ConfigView {
    pub admin: Seq<u8>,
    pub lvl_percentages: Seq<u8>,
    pub address: Seq<u8>,
    pub bump: u8,
}

impl View for Config {
    type V = ConfigView;

    open spec fn view(&self) -> ConfigView {
        ConfigView {
            admin: self.admin@,
            lvl_percentages: self.lvl_percentages@,
            address: self.address@,
            bump: self.bump,
        }
    }
}

/// A per-user progression record. The `user_id` and the derived `address`
/// are fixed at creation; `authority` is the identity recognised for later
/// mutations; `referred` marks that a referral was already credited to this
/// user.
pub struct UserAssetData {
    pub user_id: String,
    pub authority: Identity,
    pub xp: u64,
    pub level: u8,
    pub luck: u8,
    pub referred: bool,
    pub address: Identity,
    pub bump: u8,
}

/// Spec-level image of `UserAssetData`.
pub struct UserView {
    pub user_id: Seq<char>,
    pub authority: Seq<u8>,
    pub xp: u64,
    pub level: u8,
    pub luck: u8,
    pub referred: bool,
    pub address: Seq<u8>,
    pub bump: u8,
}

impl View for UserAssetData {
    type V = UserView;

    open spec fn view(&self) -> UserView {
        UserView {
            user_id: self.user_id@,
            authority: self.authority@,
            xp: self.xp,
            level: self.level,
            luck: self.luck,
            referred: self.referred,
            address: self.address@,
            bump: self.bump,
        }
    }
}

/// A soulbound achievement token record. The `owner` binding is written at
/// mint time and never changes; only `attrs` is mutable.
pub struct SoulboundNft {
    pub user_id: String,
    pub owner: Identity,
    pub attrs: String,
    pub address: Identity,
    pub bump: u8,
}

/// Spec-level image of `SoulboundNft`.
pub struct NftView {
    pub user_id: Seq<char>,
    pub owner: Seq<u8>,
    pub attrs: Seq<char>,
    pub address: Seq<u8>,
    pub bump: u8,
}

impl View for SoulboundNft {
    type V = NftView;

    open spec fn view(&self) -> NftView {
        NftView {
            user_id: self.user_id@,
            owner: self.owner@,
            attrs: self.attrs@,
            address: self.address@,
            bump: self.bump,
        }
    }
}

/// Payload of a mint request: the user the token is bound to, the owner
/// identity written once at mint time, and the initial mutable attributes.
pub struct MintSoulboundNftArgs {
    pub user_id: String,
    pub owner: Identity,
    pub attrs: String,
}

/// Payload of an update request. `owner` must repeat the stored binding:
/// any other value is rejected, since the binding is immutable.
pub struct UpdateSoulboundNftArgs {
    pub user_id: String,
    pub owner: Identity,
    pub attrs: String,
}

} // verus!
