//! The registries and the matching engine: registering users, listing
//! chargers, reserving a charger for a driver, and confirming a charge.
//!
//! Every operation is one atomic transaction against the record store,
//! stated over the store's view — a map from key to record. The spec
//! functions below say exactly when each operation is accepted and what
//! state it commits; [`state_inv`] is the coherence invariant every
//! operation preserves: records sit under their own keys, a charger is
//! `Allocated` exactly while a pending match references it, and every
//! match references an existing charger.

use vstd::prelude::*;
use crate::records::ChargerAccount;
use crate::records::ChargerRef;
use crate::records::ChargerRefV;
use crate::records::ChargerStatus;
use crate::records::ChargerV;
use crate::records::ConfirmCharge;
use crate::records::CreateCharger;
use crate::records::ErrorCode;
use crate::records::KeyV;
use crate::records::MatchAccount;
use crate::records::MatchRef;
use crate::records::MatchStatus;
use crate::records::MatchV;
use crate::records::RecV;
use crate::records::Record;
use crate::records::RecordKey;
use crate::records::RegisterUser;
use crate::records::ReserveCharger;
use crate::records::Role;
use crate::records::SupplyType;
use crate::records::UserAccount;
use crate::records::UserRef;
use crate::records::UserV;
use crate::records::LOCATION_BYTES;
use crate::records::bytes32_eq;
use crate::records::location_norm;
use crate::records::normalize_location;
use crate::store::RecordStore;

verus! {

/// The key of a user record.
pub open spec fn user_key(id: Seq<u8>) -> KeyV {
    KeyV::User { user_id_hash: id }
}

/// The key of a charger record.
pub open spec fn charger_key(owner: Seq<u8>, charger_id: u64) -> KeyV {
    KeyV::Charger { user_id_hash: owner, charger_id }
}

/// The key of the match record bound to a charger: a pure function of
/// the charger's key, so at most one match record is alive per charger.
pub open spec fn match_key(owner: Seq<u8>, charger_id: u64) -> KeyV {
    KeyV::Match { user_id_hash: owner, charger_id }
}

/// The user record held by a view, where one is held.
pub open spec fn as_user(r: RecV) -> UserV {
    match r {
        RecV::User(u) => u,
        RecV::Charger(_) => arbitrary(),
        RecV::Match(_) => arbitrary(),
    }
}

/// The charger record held by a view, where one is held.
pub open spec fn as_charger(r: RecV) -> ChargerV {
    match r {
        RecV::Charger(c) => c,
        RecV::User(_) => arbitrary(),
        RecV::Match(_) => arbitrary(),
    }
}

/// The match record held by a view, where one is held.
pub open spec fn as_match(r: RecV) -> MatchV {
    match r {
        RecV::Match(v) => v,
        RecV::User(_) => arbitrary(),
        RecV::Charger(_) => arbitrary(),
    }
}

/// Coherence of the record held under one key: the record is of the
/// key's kind and carries the key's material; a charger is `Allocated`
/// only while the match bound to it is pending; a match references an
/// existing charger and, while pending, that charger is `Allocated`.
pub open spec fn record_wf_at(m: Map<KeyV, RecV>, k: KeyV) -> bool {
    match k {
        KeyV::User { user_id_hash } => {
            &&& m[k] is User
            &&& as_user(m[k]).user_id_hash == user_id_hash
        },
        KeyV::Charger { user_id_hash, charger_id } => {
            let c = as_charger(m[k]);
            &&& m[k] is Charger
            &&& c.user_id_hash == user_id_hash
            &&& c.charger_id == charger_id
            &&& c.location.len() == LOCATION_BYTES as int
            &&& (c.status is Allocated ==> m.contains_key(match_key(user_id_hash, charger_id))
                && m[match_key(user_id_hash, charger_id)] is Match && as_match(
                m[match_key(user_id_hash, charger_id)],
            ).status is Pending)
        },
        KeyV::Match { user_id_hash, charger_id } => {
            let v = as_match(m[k]);
            &&& m[k] is Match
            &&& v.charger.user_id_hash == user_id_hash
            &&& v.charger.charger_id == charger_id
            &&& m.contains_key(charger_key(user_id_hash, charger_id))
            &&& m[charger_key(user_id_hash, charger_id)] is Charger
            &&& (v.status is Pending ==> as_charger(
                m[charger_key(user_id_hash, charger_id)],
            ).status is Allocated)
        },
    }
}

/// Coherence of a whole state: every held record is coherent.
pub open spec fn state_inv(m: Map<KeyV, RecV>) -> bool {
    forall|k: KeyV| #[trigger] m.contains_key(k) ==> record_wf_at(m, k)
}

/// Registration is accepted exactly while no user record holds the
/// identity hash.
pub open spec fn register_accepts(m: Map<KeyV, RecV>, id: Seq<u8>) -> bool {
    !m.contains_key(user_key(id))
}

/// The state a successful registration commits.
pub open spec fn register_post(m: Map<KeyV, RecV>, id: Seq<u8>, role: Role, authority: Seq<u8>) -> Map<
    KeyV,
    RecV,
> {
    m.insert(user_key(id), RecV::User(UserV { user_id_hash: id, role, authority }))
}

/// Whether `caller` is the registered authority of a user with role
/// `Host` under `owner`.
pub open spec fn host_controlled_by(m: Map<KeyV, RecV>, owner: Seq<u8>, caller: Seq<u8>) -> bool {
    &&& m.contains_key(user_key(owner))
    &&& m[user_key(owner)] is User
    &&& as_user(m[user_key(owner)]).role is Host
    &&& as_user(m[user_key(owner)]).authority == caller
}

/// Listing a charger is accepted exactly for an authorized host owner
/// and a (owner, charger id) pair not yet taken.
pub open spec fn create_charger_accepts(
    m: Map<KeyV, RecV>,
    owner: Seq<u8>,
    charger_id: u64,
    caller: Seq<u8>,
) -> bool {
    host_controlled_by(m, owner, caller) && !m.contains_key(charger_key(owner, charger_id))
}

/// The state a successful listing commits: the new charger, available.
pub open spec fn create_charger_post(
    m: Map<KeyV, RecV>,
    owner: Seq<u8>,
    charger_id: u64,
    power_kw: u16,
    supply_type: SupplyType,
    price: u64,
    location: Seq<u8>,
) -> Map<KeyV, RecV> {
    m.insert(
        charger_key(owner, charger_id),
        RecV::Charger(
            ChargerV {
                user_id_hash: owner,
                charger_id,
                power_kw,
                supply_type,
                price,
                status: ChargerStatus::Available,
                location: location_norm(location),
            },
        ),
    )
}

/// A reservation is accepted exactly while the charger is held and
/// `Available` at the moment of the atomic check-and-set.
pub open spec fn reserve_accepts(m: Map<KeyV, RecV>, owner: Seq<u8>, charger_id: u64) -> bool {
    &&& m.contains_key(charger_key(owner, charger_id))
    &&& m[charger_key(owner, charger_id)] is Charger
    &&& as_charger(m[charger_key(owner, charger_id)]).status is Available
}

/// The state a successful reservation commits: the charger allocated,
/// and a fresh pending match binding the driver to it.
pub open spec fn reserve_post(
    m: Map<KeyV, RecV>,
    owner: Seq<u8>,
    charger_id: u64,
    driver: Seq<u8>,
) -> Map<KeyV, RecV> {
    let c = as_charger(m[charger_key(owner, charger_id)]);
    m.insert(
        charger_key(owner, charger_id),
        RecV::Charger(ChargerV { status: ChargerStatus::Allocated, ..c }),
    ).insert(
        match_key(owner, charger_id),
        RecV::Match(
            MatchV {
                driver_user_hash: driver,
                charger: ChargerRefV { user_id_hash: owner, charger_id },
                status: MatchStatus::Pending,
                confirmed_correct: false,
            },
        ),
    )
}

/// Whether `caller` may confirm a match: it is the match's driver, or
/// that driver's registered authority.
pub open spec fn may_confirm(m: Map<KeyV, RecV>, v: MatchV, caller: Seq<u8>) -> bool {
    ||| caller == v.driver_user_hash
    ||| {
        &&& m.contains_key(user_key(v.driver_user_hash))
        &&& m[user_key(v.driver_user_hash)] is User
        &&& as_user(m[user_key(v.driver_user_hash)]).authority == caller
    }
}

/// A confirmation is accepted exactly while the match is held, still
/// pending, and the caller may confirm it.
pub open spec fn confirm_accepts(
    m: Map<KeyV, RecV>,
    owner: Seq<u8>,
    charger_id: u64,
    caller: Seq<u8>,
) -> bool {
    &&& m.contains_key(match_key(owner, charger_id))
    &&& m[match_key(owner, charger_id)] is Match
    &&& as_match(m[match_key(owner, charger_id)]).status is Pending
    &&& may_confirm(m, as_match(m[match_key(owner, charger_id)]), caller)
}

/// The state a successful confirmation commits: the match completed
/// with the caller's verdict recorded, and the charger released back to
/// `Available`.
pub open spec fn confirm_post(
    m: Map<KeyV, RecV>,
    owner: Seq<u8>,
    charger_id: u64,
    was_correct: bool,
) -> Map<KeyV, RecV> {
    let v = as_match(m[match_key(owner, charger_id)]);
    let m1 = m.insert(
        match_key(owner, charger_id),
        RecV::Match(MatchV { status: MatchStatus::Completed, confirmed_correct: was_correct, ..v }),
    );
    if m.contains_key(charger_key(owner, charger_id)) && m[charger_key(owner, charger_id)]
        is Charger {
        let c = as_charger(m[charger_key(owner, charger_id)]);
        m1.insert(
            charger_key(owner, charger_id),
            RecV::Charger(ChargerV { status: ChargerStatus::Available, ..c }),
        )
    } else {
        m1
    }
}

/// The marketplace core: the identity registry, the charger registry
/// and the matching engine, all of whose state lives in one record
/// store. Its view is the store's map from key to record.
pub struct Marketplace {
    store: RecordStore,
}

impl View for Marketplace {
    type V = Map<KeyV, RecV>;

    closed spec fn view(&self) -> Map<KeyV, RecV> {
        self.store@
    }
}

impl Marketplace {
    /// The backing store is well formed.
    pub closed spec fn store_wf(&self) -> bool {
        self.store.wf()
    }

    /// The store is well formed and the state coherent.
    pub open spec fn inv(&self) -> bool {
        self.store_wf() && state_inv(self@)
    }

    /// An empty marketplace.
    pub fn new() -> (m: Self)
        ensures
            m.inv(),
            m@ == Map::<KeyV, RecV>::empty(),
    {
        Marketplace { store: RecordStore::new() }
    }

    /// Registers a user (host or driver) under its identity hash,
    /// recording the authority that controls it. At most one
    /// registration per identity hash ever succeeds; any further one
    /// returns `AlreadyRegistered` and changes nothing.
    pub fn register_user(&mut self, req: RegisterUser) -> (r: Result<UserRef, ErrorCode>)
        requires
            old(self).inv(),
        ensures
            final(self).inv(),
            match r {
                Ok(u) => register_accepts(old(self)@, req.user_id_hash@) && final(self)@
                    == register_post(old(self)@, req.user_id_hash@, req.role, req.authority@)
                    && u.user_id_hash@ == req.user_id_hash@,
                Err(e) => e == ErrorCode::AlreadyRegistered && !register_accepts(
                    old(self)@,
                    req.user_id_hash@,
                ) && final(self)@ == old(self)@,
            },
    {
        let key = RecordKey::User { user_id_hash: req.user_id_hash };
        let rec = Record::User(
            UserAccount {
                user_id_hash: req.user_id_hash,
                role: req.role,
                authority: req.authority,
            },
        );
        match self.store.create(key, rec) {
            Err(_) => Err(ErrorCode::AlreadyRegistered),
            Ok(()) => {
                proof {
                    let m0 = old(self)@;
                    let m1 = self@;
                    let uk = user_key(req.user_id_hash@);
                    assert forall|k: KeyV| #[trigger] m1.contains_key(k) implies record_wf_at(
                        m1,
                        k,
                    ) by {
                        if k != uk {
                            assert(m0.contains_key(k));
                            assert(record_wf_at(m0, k));
                        }
                    }
                }
                Ok(UserRef { user_id_hash: req.user_id_hash })
            },
        }
    }

    /// Lists a charger for a host. The caller's authority must be the
    /// registered authority of a user with role `Host` under the owner
    /// hash, else `UnauthorizedOwner`; the (owner, charger id) pair
    /// must be fresh, else `AlreadyExists`. On success the charger is
    /// created `Available`, its location truncated or padded to the
    /// fixed buffer size. A refused call changes nothing.
    pub fn create_charger(&mut self, req: CreateCharger) -> (r: Result<ChargerRef, ErrorCode>)
        requires
            old(self).inv(),
        ensures
            final(self).inv(),
            ({
                let m0 = old(self)@;
                let owner = req.user_id_hash@;
                let cid = req.charger_id;
                let caller = req.authority.user_id_hash@;
                match r {
                    Ok(cref) => create_charger_accepts(m0, owner, cid, caller) && final(self)@
                        == create_charger_post(
                        m0,
                        owner,
                        cid,
                        req.power_kw,
                        req.supply_type,
                        req.price,
                        req.location@,
                    ) && cref.user_id_hash@ == owner && cref.charger_id == cid,
                    Err(e) => final(self)@ == m0 && (e == ErrorCode::UnauthorizedOwner
                        <==> !host_controlled_by(m0, owner, caller)) && (e
                        == ErrorCode::AlreadyExists <==> host_controlled_by(m0, owner, caller)
                        && m0.contains_key(charger_key(owner, cid))) && (e
                        == ErrorCode::UnauthorizedOwner || e == ErrorCode::AlreadyExists),
                }
            }),
    {
        let ukey = RecordKey::User { user_id_hash: req.user_id_hash };
        let authorized: bool = match self.store.get(&ukey) {
            None => false,
            Some((Record::User(u), _)) => (u.role == Role::Host) && bytes32_eq(
                &u.authority,
                &req.authority.user_id_hash,
            ),
            Some(_) => {
                proof {
                    assert(record_wf_at(old(self)@, ukey@));
                }
                unreached()
            },
        };
        if !authorized {
            return Err(ErrorCode::UnauthorizedOwner);
        }
        let ckey = RecordKey::Charger {
            user_id_hash: req.user_id_hash,
            charger_id: req.charger_id,
        };
        let rec = Record::Charger(
            ChargerAccount {
                user_id_hash: req.user_id_hash,
                charger_id: req.charger_id,
                power_kw: req.power_kw,
                supply_type: req.supply_type,
                price: req.price,
                status: ChargerStatus::Available,
                location: normalize_location(&req.location),
            },
        );
        match self.store.create(ckey, rec) {
            Err(_) => Err(ErrorCode::AlreadyExists),
            Ok(()) => {
                proof {
                    let m0 = old(self)@;
                    let m1 = self@;
                    let ck = charger_key(req.user_id_hash@, req.charger_id);
                    assert forall|k: KeyV| #[trigger] m1.contains_key(k) implies record_wf_at(
                        m1,
                        k,
                    ) by {
                        if k != ck {
                            assert(m0.contains_key(k));
                            assert(record_wf_at(m0, k));
                        }
                    }
                }
                Ok(ChargerRef { user_id_hash: req.user_id_hash, charger_id: req.charger_id })
            },
        }
    }

    /// Reserves a charger for a driver. The charger must be held, else
    /// `UnknownCharger`, and `Available` at the atomic check-and-set,
    /// else `ChargerNotAvailable`. On success the charger becomes
    /// `Allocated` and the match record bound to it holds a fresh
    /// pending match for the driver. A refused call changes nothing.
    pub fn reserve_charger(&mut self, req: ReserveCharger) -> (r: Result<MatchRef, ErrorCode>)
        requires
            old(self).inv(),
        ensures
            final(self).inv(),
            ({
                let m0 = old(self)@;
                let owner = req.charger.user_id_hash@;
                let cid = req.charger.charger_id;
                match r {
                    Ok(mref) => reserve_accepts(m0, owner, cid) && final(self)@ == reserve_post(
                        m0,
                        owner,
                        cid,
                        req.driver_user_hash@,
                    ) && mref.charger.user_id_hash@ == owner && mref.charger.charger_id == cid,
                    Err(e) => final(self)@ == m0 && (e == ErrorCode::UnknownCharger
                        <==> !m0.contains_key(charger_key(owner, cid))) && (e
                        == ErrorCode::ChargerNotAvailable <==> m0.contains_key(
                        charger_key(owner, cid),
                    ) && !(as_charger(m0[charger_key(owner, cid)]).status is Available)) && (e
                        == ErrorCode::UnknownCharger || e == ErrorCode::ChargerNotAvailable),
                }
            }),
    {
        let owner = req.charger.user_id_hash;
        let cid = req.charger.charger_id;
        let ckey = RecordKey::Charger { user_id_hash: owner, charger_id: cid };
        match self.store.get(&ckey) {
            None => Err(ErrorCode::UnknownCharger),
            Some((Record::Charger(c), cver)) => {
                if !(c.status == ChargerStatus::Available) {
                    proof {
                        assert(record_wf_at(old(self)@, ckey@));
                    }
                    return Err(ErrorCode::ChargerNotAvailable);
                }
                // The whole reservation holds exclusive access to the
                // store, so the check-and-set below cannot lose a race:
                // the conflict arm of the store's update is provably
                // never taken here.
                let allocated = ChargerAccount { status: ChargerStatus::Allocated, ..c };
                self.store.update(&ckey, Record::Charger(allocated), cver).unwrap();
                let mkey = RecordKey::Match { user_id_hash: owner, charger_id: cid };
                let mrec = Record::Match(
                    MatchAccount {
                        driver_user_hash: req.driver_user_hash,
                        charger: ChargerRef { user_id_hash: owner, charger_id: cid },
                        status: MatchStatus::Pending,
                        confirmed_correct: false,
                    },
                );
                match self.store.get(&mkey) {
                    None => self.store.create(mkey, mrec).unwrap(),
                    Some((_, mver)) => self.store.update(&mkey, mrec, mver).unwrap(),
                }
                proof {
                    let m0 = old(self)@;
                    let m1 = self@;
                    let ck = charger_key(owner@, cid);
                    let mk = match_key(owner@, cid);
                    assert(m1 == reserve_post(m0, owner@, cid, req.driver_user_hash@));
                    assert forall|k: KeyV| #[trigger] m1.contains_key(k) implies record_wf_at(
                        m1,
                        k,
                    ) by {
                        if k == ck {
                            assert(record_wf_at(m0, ck));
                        } else if k != mk {
                            assert(m0.contains_key(k));
                            assert(record_wf_at(m0, k));
                        }
                    }
                }
                Ok(MatchRef { charger: ChargerRef { user_id_hash: owner, charger_id: cid } })
            },
            Some(_) => {
                proof {
                    assert(record_wf_at(old(self)@, ckey@));
                }
                unreached()
            },
        }
    }

    /// Confirms a charge on a match. The match must be held, else
    /// `MatchNotFound`; still pending, else `AlreadyConfirmed` — a
    /// second confirmation is an error, never a silent overwrite; and
    /// the caller must be the match's driver or that driver's
    /// registered authority, else `UnauthorizedCaller`. On success the
    /// match completes with the caller's verdict recorded, and the
    /// charger is released back to `Available`. A refused call changes
    /// nothing.
    pub fn confirm_charge(&mut self, req: ConfirmCharge) -> (r: Result<(), ErrorCode>)
        requires
            old(self).inv(),
        ensures
            final(self).inv(),
            ({
                let m0 = old(self)@;
                let owner = req.match_ref.charger.user_id_hash@;
                let cid = req.match_ref.charger.charger_id;
                let caller = req.authority.user_id_hash@;
                match r {
                    Ok(()) => confirm_accepts(m0, owner, cid, caller) && final(self)@
                        == confirm_post(m0, owner, cid, req.was_correct),
                    Err(e) => final(self)@ == m0 && (e == ErrorCode::MatchNotFound
                        <==> !m0.contains_key(match_key(owner, cid))) && (e
                        == ErrorCode::AlreadyConfirmed <==> m0.contains_key(match_key(owner, cid))
                        && as_match(m0[match_key(owner, cid)]).status is Completed) && (e
                        == ErrorCode::UnauthorizedCaller <==> m0.contains_key(
                        match_key(owner, cid),
                    ) && as_match(m0[match_key(owner, cid)]).status is Pending && !may_confirm(
                        m0,
                        as_match(m0[match_key(owner, cid)]),
                        caller,
                    )) && (e == ErrorCode::MatchNotFound || e == ErrorCode::AlreadyConfirmed || e
                        == ErrorCode::UnauthorizedCaller),
                }
            }),
    {
        let owner = req.match_ref.charger.user_id_hash;
        let cid = req.match_ref.charger.charger_id;
        let mkey = RecordKey::Match { user_id_hash: owner, charger_id: cid };
        match self.store.get(&mkey) {
            None => Err(ErrorCode::MatchNotFound),
            Some((Record::Match(v), mver)) => {
                if v.status == MatchStatus::Completed {
                    return Err(ErrorCode::AlreadyConfirmed);
                }
                let authorized: bool = if bytes32_eq(
                    &req.authority.user_id_hash,
                    &v.driver_user_hash,
                ) {
                    true
                } else {
                    let dkey = RecordKey::User { user_id_hash: v.driver_user_hash };
                    match self.store.get(&dkey) {
                        None => false,
                        Some((Record::User(u), _)) => bytes32_eq(
                            &u.authority,
                            &req.authority.user_id_hash,
                        ),
                        Some(_) => {
                            proof {
                                assert(record_wf_at(old(self)@, dkey@));
                            }
                            unreached()
                        },
                    }
                };
                if !authorized {
                    return Err(ErrorCode::UnauthorizedCaller);
                }
                proof {
                    assert(record_wf_at(old(self)@, mkey@));
                }
                let completed = MatchAccount {
                    status: MatchStatus::Completed,
                    confirmed_correct: req.was_correct,
                    ..v
                };
                // The whole confirmation holds exclusive access to the
                // store, so neither update below can lose a race.
                self.store.update(&mkey, Record::Match(completed), mver).unwrap();
                let ckey = RecordKey::Charger { user_id_hash: owner, charger_id: cid };
                match self.store.get(&ckey) {
                    Some((Record::Charger(c), cver)) => {
                        let released = ChargerAccount { status: ChargerStatus::Available, ..c };
                        self.store.update(&ckey, Record::Charger(released), cver).unwrap();
                    },
                    _ => {
                        proof {
                            assert(record_wf_at(old(self)@, mkey@));
                        }
                        unreached()
                    },
                }
                proof {
                    let m0 = old(self)@;
                    let m1 = self@;
                    let ck = charger_key(owner@, cid);
                    let mk = match_key(owner@, cid);
                    assert(m1 == confirm_post(m0, owner@, cid, req.was_correct));
                    assert forall|k: KeyV| #[trigger] m1.contains_key(k) implies record_wf_at(
                        m1,
                        k,
                    ) by {
                        if k == ck {
                            assert(record_wf_at(m0, ck));
                        } else if k == mk {
                            assert(record_wf_at(m0, mk));
                        } else {
                            assert(m0.contains_key(k));
                            assert(record_wf_at(m0, k));
                        }
                    }
                }
                Ok(())
            },
            Some(_) => {
                proof {
                    assert(record_wf_at(old(self)@, mkey@));
                }
                unreached()
            },
        }
    }

    /// Reads the user record registered under an identity hash.
    pub fn get_user(&self, user_id_hash: &[u8; 32]) -> (r: Option<UserAccount>)
        requires
            self.inv(),
        ensures
            match r {
                Some(u) => self@.contains_key(user_key(user_id_hash@)) && RecV::User(u@)
                    == self@[user_key(user_id_hash@)],
                None => !self@.contains_key(user_key(user_id_hash@)),
            },
    {
        let key = RecordKey::User { user_id_hash: *user_id_hash };
        match self.store.get(&key) {
            None => None,
            Some((Record::User(u), _)) => Some(u),
            Some(_) => {
                proof {
                    assert(record_wf_at(self@, key@));
                }
                unreached()
            },
        }
    }

    /// Reads the charger record listed under a reference.
    pub fn get_charger(&self, charger: &ChargerRef) -> (r: Option<ChargerAccount>)
        requires
            self.inv(),
        ensures
            match r {
                Some(c) => self@.contains_key(charger_key(charger.user_id_hash@, charger.charger_id))
                    && RecV::Charger(c@) == self@[charger_key(
                    charger.user_id_hash@,
                    charger.charger_id,
                )],
                None => !self@.contains_key(charger_key(charger.user_id_hash@, charger.charger_id)),
            },
    {
        let key = RecordKey::Charger {
            user_id_hash: charger.user_id_hash,
            charger_id: charger.charger_id,
        };
        match self.store.get(&key) {
            None => None,
            Some((Record::Charger(c), _)) => Some(c),
            Some(_) => {
                proof {
                    assert(record_wf_at(self@, key@));
                }
                unreached()
            },
        }
    }

    /// Reads the match record bound to a charger.
    pub fn get_match(&self, match_ref: &MatchRef) -> (r: Option<MatchAccount>)
        requires
            self.inv(),
        ensures
            ({
                let mk = match_key(match_ref.charger.user_id_hash@, match_ref.charger.charger_id);
                match r {
                    Some(v) => self@.contains_key(mk) && RecV::Match(v@) == self@[mk],
                    None => !self@.contains_key(mk),
                }
            }),
    {
        let key = RecordKey::Match {
            user_id_hash: match_ref.charger.user_id_hash,
            charger_id: match_ref.charger.charger_id,
        };
        match self.store.get(&key) {
            None => None,
            Some((Record::Match(v), _)) => Some(v),
            Some(_) => {
                proof {
                    assert(record_wf_at(self@, key@));
                }
                unreached()
            },
        }
    }
}

} // verus!
