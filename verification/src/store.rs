use vstd::prelude::*;
use vstd::pervasive::VecAdditionalExecFns;

use crate::addresses::{
    config_seeds, derive_config_address, derive_soulbound_address, derive_user_asset_address,
    pda_of, soulbound_seeds, user_asset_seeds,
};
use crate::errors::NomadzError;
use crate::ident::Identity;
use crate::records::{
    Config, ConfigView, MintSoulboundNftArgs, NftView, SoulboundNft, UpdateSoulboundNftArgs,
    UserAssetData, UserView,
};

verus! {

/// No two progression records share a user id.
pub open spec fn user_ids_unique(users: Seq<UserView>) -> bool {
    forall|i: int, j: int|
        0 <= i < j < users.len() ==> users[i].user_id != users[j].user_id
}

/// No two soulbound token records share a user id.
pub open spec fn nft_ids_unique(nfts: Seq<NftView>) -> bool {
    forall|i: int, j: int| 0 <= i < j < nfts.len() ==> nfts[i].user_id != nfts[j].user_id
}

/// Whether a progression record exists for `uid`.
pub open spec fn has_user(users: Seq<UserView>, uid: Seq<char>) -> bool {
    exists|i: int| 0 <= i < users.len() && users[i].user_id == uid
}

/// The index of the progression record of `uid` (meaningful when
/// `has_user` holds and ids are unique).
pub open spec fn user_index_of(users: Seq<UserView>, uid: Seq<char>) -> int {
    choose|i: int| 0 <= i < users.len() && users[i].user_id == uid
}

/// Whether a soulbound token record exists for `uid`.
pub open spec fn has_nft(nfts: Seq<NftView>, uid: Seq<char>) -> bool {
    exists|i: int| 0 <= i < nfts.len() && nfts[i].user_id == uid
}

/// The index of the soulbound token record of `uid`.
pub open spec fn nft_index_of(nfts: Seq<NftView>, uid: Seq<char>) -> int {
    choose|i: int| 0 <= i < nfts.len() && nfts[i].user_id == uid
}

/// Addition on experience counters, saturating at the largest value.
pub open spec fn spec_sat_add_u64(a: u64, b: u64) -> u64 {
    if a + b > u64::MAX {
        u64::MAX
    } else {
        (a + b) as u64
    }
}

/// Addition on one-byte modifiers, saturating at the largest value.
pub open spec fn spec_sat_add_u8(a: u8, b: u8) -> u8 {
    if a + b > u8::MAX {
        u8::MAX
    } else {
        (a + b) as u8
    }
}

fn sat_add_u64(a: u64, b: u64) -> (r: u64)
    ensures
        r == spec_sat_add_u64(a, b),
{
    if a <= u64::MAX - b {
        a + b
    } else {
        u64::MAX
    }
}

fn sat_add_u8(a: u8, b: u8) -> (r: u8)
    ensures
        r == spec_sat_add_u8(a, b),
{
    if a <= u8::MAX - b {
        a + b
    } else {
        u8::MAX
    }
}

/// Spec-level image of the whole record set.
#[verifier::ext_equal]
pub struct StoreView {
    pub program_id: Seq<u8>,
    pub allowed_initializers: Option<Seq<Seq<u8>>>,
    pub config: Option<ConfigView>,
    pub users: Seq<UserView>,
    pub nfts: Seq<NftView>,
}

impl StoreView {
    /// Well-formedness: a 32-byte program id and unique record
    /// discriminators, so that a user id determines its record.
    pub open spec fn wf(self) -> bool {
        &&& self.program_id.len() == 32
        &&& user_ids_unique(self.users)
        &&& nft_ids_unique(self.nfts)
    }
}

/// Whether the one-time initialization policy admits `caller`: an absent
/// allow-list admits everyone (the policy is disabled), a present one
/// admits exactly its members.
pub open spec fn init_allowed(allowed: Option<Seq<Seq<u8>>>, caller: Seq<u8>) -> bool {
    match allowed {
        None => true,
        Some(list) => list.contains(caller),
    }
}

/// What `initialize` does to a state: create the singleton config record,
/// or fail without any state change.
pub open spec fn spec_initialize(
    s: StoreView,
    caller: Seq<u8>,
    admin: Seq<u8>,
    pcts: Seq<u8>,
) -> (StoreView, Result<(), NomadzError>) {
    if s.config is Some {
        (s, Err(NomadzError::AlreadyInitialized))
    } else if !init_allowed(s.allowed_initializers, caller) {
        (s, Err(NomadzError::Forbidden))
    } else {
        match pda_of(config_seeds(), s.program_id) {
            None => (s, Err(NomadzError::AddressDerivationError)),
            Some((addr, bump)) => (
                StoreView {
                    config: Some(
                        ConfigView { admin, lvl_percentages: pcts, address: addr, bump },
                    ),
                    ..s
                },
                Ok(()),
            ),
        }
    }
}

/// What `update_config` does to a state: overwrite admin and percentages
/// together, only for the stored admin.
pub open spec fn spec_update_config(
    s: StoreView,
    caller: Seq<u8>,
    new_admin: Seq<u8>,
    pcts: Seq<u8>,
) -> (StoreView, Result<(), NomadzError>) {
    match s.config {
        None => (s, Err(NomadzError::ConfigNotInitialized)),
        Some(c) => {
            if caller != c.admin {
                (s, Err(NomadzError::Unauthorized))
            } else {
                (
                    StoreView {
                        config: Some(
                            ConfigView { admin: new_admin, lvl_percentages: pcts, ..c },
                        ),
                        ..s
                    },
                    Ok(()),
                )
            }
        },
    }
}

/// What `initialize_user_asset_data` does to a state: create the
/// progression record of `uid` at its derived address, at most once.
pub open spec fn spec_initialize_user(
    s: StoreView,
    authority: Seq<u8>,
    uid: Seq<char>,
    xp: u64,
    level: u8,
    luck: u8,
) -> (StoreView, Result<(), NomadzError>) {
    if has_user(s.users, uid) {
        (s, Err(NomadzError::AlreadyInitialized))
    } else {
        match pda_of(user_asset_seeds(uid), s.program_id) {
            None => (s, Err(NomadzError::AddressDerivationError)),
            Some((addr, bump)) => (
                StoreView {
                    users: s.users.push(
                        UserView {
                            user_id: uid,
                            authority,
                            xp,
                            level,
                            luck,
                            referred: false,
                            address: addr,
                            bump,
                        },
                    ),
                    ..s
                },
                Ok(()),
            ),
        }
    }
}

/// What `update_user_asset_data` does to a state: replace the three
/// progression values together, only for the record's authority.
pub open spec fn spec_update_user(
    s: StoreView,
    caller: Seq<u8>,
    uid: Seq<char>,
    xp: u64,
    level: u8,
    luck: u8,
) -> (StoreView, Result<(), NomadzError>) {
    if !has_user(s.users, uid) {
        (s, Err(NomadzError::NotFound))
    } else {
        let i = user_index_of(s.users, uid);
        if caller != s.users[i].authority {
            (s, Err(NomadzError::Unauthorized))
        } else {
            (
                StoreView { users: s.users.update(i, UserView { xp, level, luck, ..s.users[i] }), ..s },
                Ok(()),
            )
        }
    }
}

/// What `apply_referral` does to a state: after all validations pass,
/// credit both records together and mark the referred record, or fail with
/// no state change at all.
pub open spec fn spec_apply_referral(
    s: StoreView,
    referrer: Seq<char>,
    referred: Seq<char>,
) -> (StoreView, Result<(), NomadzError>) {
    if referrer == referred {
        (s, Err(NomadzError::SelfReferral))
    } else {
        match s.config {
            None => (s, Err(NomadzError::ConfigNotInitialized)),
            Some(c) => {
                if !has_user(s.users, referrer) || !has_user(s.users, referred) {
                    (s, Err(NomadzError::NotFound))
                } else {
                    let i = user_index_of(s.users, referrer);
                    let j = user_index_of(s.users, referred);
                    if s.users[j].referred {
                        (s, Err(NomadzError::AlreadyReferred))
                    } else {
                        let pct0 = c.lvl_percentages[0];
                        let pct1 = c.lvl_percentages[1];
                        let ri = s.users[i];
                        let rj = s.users[j];
                        let ri2 = UserView { xp: spec_sat_add_u64(ri.xp, pct0 as u64), ..ri };
                        let rj2 = UserView {
                            xp: spec_sat_add_u64(rj.xp, pct0 as u64),
                            luck: spec_sat_add_u8(rj.luck, pct1),
                            referred: true,
                            ..rj
                        };
                        (StoreView { users: s.users.update(i, ri2).update(j, rj2), ..s }, Ok(()))
                    }
                }
            },
        }
    }
}

/// What `mint_soulbound_nft` does to a state: create the token record of
/// `uid` at its derived address, binding `owner` once and for all.
pub open spec fn spec_mint_nft(
    s: StoreView,
    uid: Seq<char>,
    owner: Seq<u8>,
    attrs: Seq<char>,
) -> (StoreView, Result<(), NomadzError>) {
    if has_nft(s.nfts, uid) {
        (s, Err(NomadzError::AlreadyInitialized))
    } else {
        match pda_of(soulbound_seeds(uid), s.program_id) {
            None => (s, Err(NomadzError::AddressDerivationError)),
            Some((addr, bump)) => (
                StoreView {
                    nfts: s.nfts.push(
                        NftView { user_id: uid, owner, attrs, address: addr, bump },
                    ),
                    ..s
                },
                Ok(()),
            ),
        }
    }
}

/// What `update_soulbound_nft` does to a state: replace the mutable
/// attributes, only for the stored owner or the config admin, and only
/// when the request repeats the stored owner binding unchanged.
pub open spec fn spec_update_nft(
    s: StoreView,
    caller: Seq<u8>,
    uid: Seq<char>,
    owner_arg: Seq<u8>,
    attrs: Seq<char>,
) -> (StoreView, Result<(), NomadzError>) {
    if !has_nft(s.nfts, uid) {
        (s, Err(NomadzError::NotFound))
    } else {
        let i = nft_index_of(s.nfts, uid);
        let n = s.nfts[i];
        let is_admin = (s.config matches Some(c) && caller == c.admin);
        if caller != n.owner && !is_admin {
            (s, Err(NomadzError::Unauthorized))
        } else if owner_arg != n.owner {
            (s, Err(NomadzError::ImmutableFieldViolation))
        } else {
            (StoreView { nfts: s.nfts.update(i, NftView { attrs, ..n }), ..s }, Ok(()))
        }
    }
}

/// Spec-level image of an optional allow-list.
pub open spec fn allowed_view(a: Option<Vec<Identity>>) -> Option<Seq<Seq<u8>>> {
    match a {
        None => None,
        Some(v) => Some(v@.map_values(|x: Identity| x@)),
    }
}

/// The authorization-and-state core: the singleton config, the per-user
/// progression records and the soulbound token records, together with the
/// program id that addresses are derived under and the optional allow-list
/// gating the one-time config initialization.
pub struct NomadzCore {
    program_id: Identity,
    allowed_initializers: Option<Vec<Identity>>,
    config: Option<Config>,
    users: Vec<UserAssetData>,
    nfts: Vec<SoulboundNft>,
}

impl View for NomadzCore {
    type V = StoreView;

    closed spec fn view(&self) -> StoreView {
        StoreView {
            program_id: self.program_id@,
            allowed_initializers: allowed_view(self.allowed_initializers),
            config: match self.config {
                None => None,
                Some(c) => Some(c@),
            },
            users: self.users@.map_values(|u: UserAssetData| u@),
            nfts: self.nfts@.map_values(|n: SoulboundNft| n@),
        }
    }
}

proof fn lemma_user_push_unique(users: Seq<UserView>, u: UserView)
    requires
        user_ids_unique(users),
        !has_user(users, u.user_id),
    ensures
        user_ids_unique(users.push(u)),
{
    let users2 = users.push(u);
    assert forall|i: int, j: int|
        0 <= i < j < users2.len() implies users2[i].user_id != users2[j].user_id by {
        if j < users.len() {
            assert(users2[i] == users[i]);
            assert(users2[j] == users[j]);
        } else {
            assert(users2[j] == u);
            assert(users2[i] == users[i]);
            if users[i].user_id == u.user_id {
                assert(has_user(users, u.user_id));
            }
        }
    }
}

proof fn lemma_nft_push_unique(nfts: Seq<NftView>, n: NftView)
    requires
        nft_ids_unique(nfts),
        !has_nft(nfts, n.user_id),
    ensures
        nft_ids_unique(nfts.push(n)),
{
    let nfts2 = nfts.push(n);
    assert forall|i: int, j: int|
        0 <= i < j < nfts2.len() implies nfts2[i].user_id != nfts2[j].user_id by {
        if j < nfts.len() {
            assert(nfts2[i] == nfts[i]);
            assert(nfts2[j] == nfts[j]);
        } else {
            assert(nfts2[j] == n);
            assert(nfts2[i] == nfts[i]);
            if nfts[i].user_id == n.user_id {
                assert(has_nft(nfts, n.user_id));
            }
        }
    }
}

impl NomadzCore {
    /// A fresh deployment: no config, no user records, no tokens. The
    /// allow-list, when given, is the set of identities admitted to the
    /// one-time `initialize`; `None` leaves that policy disabled.
    pub fn new(program_id: Identity, allowed_initializers: Option<Vec<Identity>>) -> (r:
        NomadzCore)
        requires
            program_id.wf(),
        ensures
            r@.program_id == program_id@,
            r@.allowed_initializers == allowed_view(allowed_initializers),
            r@.config is None,
            r@.users == Seq::<UserView>::empty(),
            r@.nfts == Seq::<NftView>::empty(),
            r@.wf(),
    {
        let r = NomadzCore {
            program_id,
            allowed_initializers,
            config: None,
            users: Vec::new(),
            nfts: Vec::new(),
        };
        proof {
            assert(r@.users =~= Seq::<UserView>::empty());
            assert(r@.nfts =~= Seq::<NftView>::empty());
        }
        r
    }

    fn caller_allowed(&self, caller: &Identity) -> (b: bool)
        ensures
            b == init_allowed(self@.allowed_initializers, caller@),
    {
        match &self.allowed_initializers {
            None => true,
            Some(list) => {
                let n = list.len();
                let mut i: usize = 0;
                while i < n
                    invariant
                        n == list@.len(),
                        i <= n,
                        self.allowed_initializers matches Some(l) && l == *list,
                        forall|k: int| 0 <= k < i ==> list@[k]@ != caller@,
                    decreases n - i,
                {
                    if list[i].same(caller) {
                        proof {
                            let lv = list@.map_values(|x: Identity| x@);
                            assert(lv[i as int] == caller@);
                            assert(lv.contains(caller@));
                        }
                        return true;
                    }
                    i += 1;
                }
                proof {
                    let lv = list@.map_values(|x: Identity| x@);
                    assert(forall|k: int| 0 <= k < lv.len() ==> lv[k] != caller@);
                    assert(!lv.contains(caller@));
                }
                false
            },
        }
    }

    fn find_user_index(&self, user_id: &String) -> (r: Option<usize>)
        requires
            self@.wf(),
        ensures
            r is Some <==> has_user(self@.users, user_id@),
            r matches Some(i) ==> i < self@.users.len() && self@.users[i as int].user_id
                == user_id@ && i == user_index_of(self@.users, user_id@),
    {
        let n = self.users.len();
        let mut i: usize = 0;
        while i < n
            invariant
                self@.wf(),
                n == self.users@.len(),
                i <= n,
                forall|k: int| 0 <= k < i ==> self@.users[k].user_id != user_id@,
            decreases n - i,
        {
            if self.users[i].user_id == *user_id {
                proof {
                    let users = self@.users;
                    assert(users[i as int].user_id == user_id@);
                    assert(has_user(users, user_id@));
                    let j = user_index_of(users, user_id@);
                    assert(0 <= j < users.len() && users[j].user_id == user_id@);
                    if j < i as int {
                        assert(users[j].user_id != users[i as int].user_id);
                    } else if (i as int) < j {
                        assert(users[i as int].user_id != users[j].user_id);
                    }
                }
                return Some(i);
            }
            i += 1;
        }
        None
    }

    fn find_nft_index(&self, user_id: &String) -> (r: Option<usize>)
        requires
            self@.wf(),
        ensures
            r is Some <==> has_nft(self@.nfts, user_id@),
            r matches Some(i) ==> i < self@.nfts.len() && self@.nfts[i as int].user_id
                == user_id@ && i == nft_index_of(self@.nfts, user_id@),
    {
        let n = self.nfts.len();
        let mut i: usize = 0;
        while i < n
            invariant
                self@.wf(),
                n == self.nfts@.len(),
                i <= n,
                forall|k: int| 0 <= k < i ==> self@.nfts[k].user_id != user_id@,
            decreases n - i,
        {
            if self.nfts[i].user_id == *user_id {
                proof {
                    let nfts = self@.nfts;
                    assert(nfts[i as int].user_id == user_id@);
                    assert(has_nft(nfts, user_id@));
                    let j = nft_index_of(nfts, user_id@);
                    assert(0 <= j < nfts.len() && nfts[j].user_id == user_id@);
                    if j < i as int {
                        assert(nfts[j].user_id != nfts[i as int].user_id);
                    } else if (i as int) < j {
                        assert(nfts[i as int].user_id != nfts[j].user_id);
                    }
                }
                return Some(i);
            }
            i += 1;
        }
        None
    }

    /// Creates the singleton config record. Fails with `AlreadyInitialized`
    /// once a config exists, with `Forbidden` when an enabled allow-list
    /// does not admit the caller, and with `AddressDerivationError` when no
    /// canonical config address exists.
    pub fn initialize(
        &mut self,
        caller: &Identity,
        admin: Identity,
        lvl_percentages: [u8; 2],
    ) -> (r: Result<(), NomadzError>)
        requires
            old(self)@.wf(),
        ensures
            final(self)@ == spec_initialize(old(self)@, caller@, admin@, lvl_percentages@).0,
            r == spec_initialize(old(self)@, caller@, admin@, lvl_percentages@).1,
            final(self)@.wf(),
    {
        if self.config.is_some() {
            return Err(NomadzError::AlreadyInitialized);
        }
        if !self.caller_allowed(caller) {
            return Err(NomadzError::Forbidden);
        }
        let (addr, bump) = match derive_config_address(&self.program_id) {
            Ok(ab) => ab,
            Err(e) => {
                return Err(e);
            },
        };
        self.config = Some(Config { admin, lvl_percentages, address: addr, bump });
        proof {
            assert(self@ =~= spec_initialize(old(self)@, caller@, admin@, lvl_percentages@).0);
        }
        Ok(())
    }

    /// Overwrites the admin identity and the percentages together. Only the
    /// stored admin may call this; anyone else gets `Unauthorized`, and
    /// before `initialize` it fails with `ConfigNotInitialized`.
    pub fn update_config(
        &mut self,
        caller: &Identity,
        new_admin: Identity,
        lvl_percentages: [u8; 2],
    ) -> (r: Result<(), NomadzError>)
        requires
            old(self)@.wf(),
        ensures
            final(self)@ == spec_update_config(old(self)@, caller@, new_admin@, lvl_percentages@).0,
            r == spec_update_config(old(self)@, caller@, new_admin@, lvl_percentages@).1,
            final(self)@.wf(),
    {
        let (is_admin, addr, bump) = match &self.config {
            None => {
                return Err(NomadzError::ConfigNotInitialized);
            },
            Some(c) => (caller.same(&c.admin), c.address.clone_id(), c.bump),
        };
        if !is_admin {
            return Err(NomadzError::Unauthorized);
        }
        self.config = Some(Config { admin: new_admin, lvl_percentages, address: addr, bump });
        proof {
            assert(self@ =~= spec_update_config(
                old(self)@,
                caller@,
                new_admin@,
                lvl_percentages@,
            ).0);
        }
        Ok(())
    }

    /// Creates the progression record of `user_id` at its derived address,
    /// recording `authority` as the identity allowed to mutate it later.
    /// Fails with `AlreadyInitialized` when the record exists, never
    /// overwriting it.
    pub fn initialize_user_asset_data(
        &mut self,
        authority: Identity,
        user_id: String,
        xp: u64,
        level: u8,
        luck: u8,
    ) -> (r: Result<(), NomadzError>)
        requires
            old(self)@.wf(),
        ensures
            final(self)@ == spec_initialize_user(
                old(self)@,
                authority@,
                user_id@,
                xp,
                level,
                luck,
            ).0,
            r == spec_initialize_user(old(self)@, authority@, user_id@, xp, level, luck).1,
            final(self)@.wf(),
    {
        if self.find_user_index(&user_id).is_some() {
            return Err(NomadzError::AlreadyInitialized);
        }
        let (addr, bump) = match derive_user_asset_address(&user_id, &self.program_id) {
            Ok(ab) => ab,
            Err(e) => {
                return Err(e);
            },
        };
        let rec = UserAssetData {
            user_id,
            authority,
            xp,
            level,
            luck,
            referred: false,
            address: addr,
            bump,
        };
        proof {
            lemma_user_push_unique(self@.users, rec@);
        }
        self.users.push(rec);
        proof {
            assert(self@.users =~= old(self)@.users.push(rec@));
            assert(self@ =~= spec_initialize_user(
                old(self)@,
                authority@,
                rec@.user_id,
                xp,
                level,
                luck,
            ).0);
        }
        Ok(())
    }

    /// Replaces `xp`, `level` and `luck` together on the existing record of
    /// `user_id`. Fails with `NotFound` when no record exists (leaving none
    /// behind) and with `Unauthorized` when the caller is not the record's
    /// authority.
    pub fn update_user_asset_data(
        &mut self,
        caller: &Identity,
        user_id: &String,
        xp: u64,
        level: u8,
        luck: u8,
    ) -> (r: Result<(), NomadzError>)
        requires
            old(self)@.wf(),
        ensures
            final(self)@ == spec_update_user(old(self)@, caller@, user_id@, xp, level, luck).0,
            r == spec_update_user(old(self)@, caller@, user_id@, xp, level, luck).1,
            final(self)@.wf(),
    {
        let i = match self.find_user_index(user_id) {
            None => {
                return Err(NomadzError::NotFound);
            },
            Some(i) => i,
        };
        let rec = &self.users[i];
        if !caller.same(&rec.authority) {
            return Err(NomadzError::Unauthorized);
        }
        let new_rec = UserAssetData {
            user_id: rec.user_id.clone(),
            authority: rec.authority.clone_id(),
            xp,
            level,
            luck,
            referred: rec.referred,
            address: rec.address.clone_id(),
            bump: rec.bump,
        };
        self.users.set(i, new_rec);
        proof {
            let s0 = old(self)@;
            let iu = user_index_of(s0.users, user_id@);
            assert(self@.users =~= s0.users.update(
                iu,
                UserView { xp, level, luck, ..s0.users[iu] },
            ));
            assert(self@ =~= spec_update_user(s0, caller@, user_id@, xp, level, luck).0);
            assert(user_ids_unique(self@.users)) by {
                assert(forall|k: int|
                    0 <= k < self@.users.len() ==> self@.users[k].user_id
                        == s0.users[k].user_id);
            }
        }
        Ok(())
    }

    /// Applies the one-time referral from `referrer_user_id` to
    /// `referred_user_id`: after every validation passes, both records are
    /// credited together with the configured percentages and the referred
    /// record is marked, atomically; any failure leaves both untouched.
    pub fn apply_referral(&mut self, referrer_user_id: &String, referred_user_id: &String) -> (r:
        Result<(), NomadzError>)
        requires
            old(self)@.wf(),
        ensures
            final(self)@ == spec_apply_referral(old(self)@, referrer_user_id@, referred_user_id@).0,
            r == spec_apply_referral(old(self)@, referrer_user_id@, referred_user_id@).1,
            final(self)@.wf(),
    {
        if *referrer_user_id == *referred_user_id {
            return Err(NomadzError::SelfReferral);
        }
        let (pct0, pct1) = match &self.config {
            None => {
                return Err(NomadzError::ConfigNotInitialized);
            },
            Some(c) => (c.lvl_percentages[0], c.lvl_percentages[1]),
        };
        let i = match self.find_user_index(referrer_user_id) {
            None => {
                return Err(NomadzError::NotFound);
            },
            Some(i) => i,
        };
        let j = match self.find_user_index(referred_user_id) {
            None => {
                return Err(NomadzError::NotFound);
            },
            Some(j) => j,
        };
        proof {
            assert(i != j);
        }
        if self.users[j].referred {
            return Err(NomadzError::AlreadyReferred);
        }
        let rec_i = &self.users[i];
        let new_i = UserAssetData {
            user_id: rec_i.user_id.clone(),
            authority: rec_i.authority.clone_id(),
            xp: sat_add_u64(rec_i.xp, pct0 as u64),
            level: rec_i.level,
            luck: rec_i.luck,
            referred: rec_i.referred,
            address: rec_i.address.clone_id(),
            bump: rec_i.bump,
        };
        self.users.set(i, new_i);
        let rec_j = &self.users[j];
        let new_j = UserAssetData {
            user_id: rec_j.user_id.clone(),
            authority: rec_j.authority.clone_id(),
            xp: sat_add_u64(rec_j.xp, pct0 as u64),
            level: rec_j.level,
            luck: sat_add_u8(rec_j.luck, pct1),
            referred: true,
            address: rec_j.address.clone_id(),
            bump: rec_j.bump,
        };
        self.users.set(j, new_j);
        proof {
            let s0 = old(self)@;
            let iu = user_index_of(s0.users, referrer_user_id@);
            let ju = user_index_of(s0.users, referred_user_id@);
            assert(iu == i && ju == j);
            assert(self@.users =~= spec_apply_referral(
                s0,
                referrer_user_id@,
                referred_user_id@,
            ).0.users);
            assert(self@ =~= spec_apply_referral(s0, referrer_user_id@, referred_user_id@).0);
            assert(user_ids_unique(self@.users)) by {
                assert(forall|k: int|
                    0 <= k < self@.users.len() ==> self@.users[k].user_id
                        == s0.users[k].user_id);
            }
        }
        Ok(())
    }

    /// Mints the soulbound token of `data.user_id` at its derived address,
    /// binding `data.owner` permanently. Fails with `AlreadyInitialized`
    /// when a token already exists for that user.
    pub fn mint_soulbound_nft(&mut self, data: MintSoulboundNftArgs) -> (r: Result<
        (),
        NomadzError,
    >)
        requires
            old(self)@.wf(),
        ensures
            final(self)@ == spec_mint_nft(old(self)@, data.user_id@, data.owner@, data.attrs@).0,
            r == spec_mint_nft(old(self)@, data.user_id@, data.owner@, data.attrs@).1,
            final(self)@.wf(),
    {
        if self.find_nft_index(&data.user_id).is_some() {
            return Err(NomadzError::AlreadyInitialized);
        }
        let (addr, bump) = match derive_soulbound_address(&data.user_id, &self.program_id) {
            Ok(ab) => ab,
            Err(e) => {
                return Err(e);
            },
        };
        let rec = SoulboundNft {
            user_id: data.user_id,
            owner: data.owner,
            attrs: data.attrs,
            address: addr,
            bump,
        };
        proof {
            lemma_nft_push_unique(self@.nfts, rec@);
        }
        self.nfts.push(rec);
        proof {
            assert(self@.nfts =~= old(self)@.nfts.push(rec@));
            assert(self@ =~= spec_mint_nft(old(self)@, rec@.user_id, rec@.owner, rec@.attrs).0);
        }
        Ok(())
    }

    /// Replaces the mutable attributes of the token of `data.user_id`. The
    /// caller must be the stored owner or the config admin; the request
    /// must repeat the stored owner binding unchanged, else the call fails
    /// with `ImmutableFieldViolation` — no path through this core ever
    /// reassigns the binding.
    pub fn update_soulbound_nft(&mut self, caller: &Identity, data: UpdateSoulboundNftArgs) -> (r:
        Result<(), NomadzError>)
        requires
            old(self)@.wf(),
        ensures
            final(self)@ == spec_update_nft(
                old(self)@,
                caller@,
                data.user_id@,
                data.owner@,
                data.attrs@,
            ).0,
            r == spec_update_nft(old(self)@, caller@, data.user_id@, data.owner@, data.attrs@).1,
            final(self)@.wf(),
    {
        let i = match self.find_nft_index(&data.user_id) {
            None => {
                return Err(NomadzError::NotFound);
            },
            Some(i) => i,
        };
        let is_admin = match &self.config {
            None => false,
            Some(c) => caller.same(&c.admin),
        };
        let rec = &self.nfts[i];
        if !caller.same(&rec.owner) && !is_admin {
            return Err(NomadzError::Unauthorized);
        }
        if !data.owner.same(&rec.owner) {
            return Err(NomadzError::ImmutableFieldViolation);
        }
        let new_rec = SoulboundNft {
            user_id: rec.user_id.clone(),
            owner: rec.owner.clone_id(),
            attrs: data.attrs,
            address: rec.address.clone_id(),
            bump: rec.bump,
        };
        self.nfts.set(i, new_rec);
        proof {
            let s0 = old(self)@;
            let iu = nft_index_of(s0.nfts, data.user_id@);
            assert(self@.nfts =~= s0.nfts.update(
                iu,
                NftView { attrs: data.attrs@, ..s0.nfts[iu] },
            ));
            assert(self@ =~= spec_update_nft(
                s0,
                caller@,
                data.user_id@,
                data.owner@,
                data.attrs@,
            ).0);
            assert(nft_ids_unique(self@.nfts)) by {
                assert(forall|k: int|
                    0 <= k < self@.nfts.len() ==> self@.nfts[k].user_id == s0.nfts[k].user_id);
            }
        }
        Ok(())
    }

    /// The singleton config record, when initialized.
    pub fn get_config(&self) -> (r: Option<&Config>)
        ensures
            (match r {
                Some(c) => self@.config == Some(c@),
                None => self@.config is None,
            }),
    {
        self.config.as_ref()
    }

    /// The progression record of `user_id`, when one exists.
    pub fn get_user_asset_data(&self, user_id: &String) -> (r: Option<&UserAssetData>)
        requires
            self@.wf(),
        ensures
            r is Some <==> has_user(self@.users, user_id@),
            r matches Some(u) ==> u@ == self@.users[user_index_of(self@.users, user_id@)],
    {
        match self.find_user_index(user_id) {
            None => None,
            Some(i) => Some(&self.users[i]),
        }
    }

    /// The soulbound token record of `user_id`, when one exists.
    pub fn get_soulbound_nft(&self, user_id: &String) -> (r: Option<&SoulboundNft>)
        requires
            self@.wf(),
        ensures
            r is Some <==> has_nft(self@.nfts, user_id@),
            r matches Some(n) ==> n@ == self@.nfts[nft_index_of(self@.nfts, user_id@)],
    {
        match self.find_nft_index(user_id) {
            None => None,
            Some(i) => Some(&self.nfts[i]),
        }
    }
}

} // verus!
