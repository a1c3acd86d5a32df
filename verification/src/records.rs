//! The entities of the marketplace — users, chargers and matches — their
//! mathematical views, the keys that address them, and the argument
//! bundles of the four boundary operations.

use vstd::prelude::*;

verus! {

/// Number of bytes of a charger's fixed-size location buffer. Longer
/// texts are truncated, shorter ones padded with zero bytes.
pub const LOCATION_BYTES: usize = 64;

/// Whether a registered user offers chargers or books them.
#[derive(Clone, Copy, PartialEq, Eq, Structural, Debug)]
pub enum Role {
    Driver,
    Host,
}

/// The kind of current a charger supplies.
#[derive(Clone, Copy, PartialEq, Eq, Structural, Debug)]
pub enum SupplyType {
    Ac,
    Dc,
}

/// Availability of a charger: `Allocated` exactly while a pending match
/// references it.
#[derive(Clone, Copy, PartialEq, Eq, Structural, Debug)]
pub enum ChargerStatus {
    Available,
    Allocated,
}

/// Progress of a match: `Pending` from reservation until the one
/// confirmation, then `Completed`, which is terminal.
#[derive(Clone, Copy, PartialEq, Eq, Structural, Debug)]
pub enum MatchStatus {
    Pending,
    Completed,
}

/// Errors reported by the record store.
#[derive(Clone, Copy, PartialEq, Eq, Structural, Debug)]
pub enum StoreError {
    /// `create` found a record already present under the key.
    AlreadyExists,
    /// `update` found no record under the key.
    NotFound,
    /// `update` found a version other than the one the writer read:
    /// another writer committed in between.
    ConcurrentModification,
}

/// Errors reported by the marketplace operations.
#[derive(Clone, Copy, PartialEq, Eq, Structural, Debug)]
pub enum ErrorCode {
    /// A user record for the identity hash already exists.
    AlreadyRegistered,
    /// A charger record for the (owner, charger id) pair already exists.
    AlreadyExists,
    /// The caller's authority does not control a registered host owner.
    UnauthorizedOwner,
    /// No charger record exists under the given reference.
    UnknownCharger,
    /// The charger is not `Available` at the moment of the reservation.
    ChargerNotAvailable,
    /// No match record exists under the given reference.
    MatchNotFound,
    /// The match was already confirmed; confirmation is not idempotent.
    AlreadyConfirmed,
    /// The caller is neither the match's driver nor that driver's
    /// registered authority.
    UnauthorizedCaller,
}

/// Capability proving that the request is made by the claimed identity.
/// The authority boundary that issues it is an external collaborator;
/// the core only consumes the identity as an established fact.
#[derive(Clone, Copy, Debug)]
pub struct AuthorizedIdentity {
    pub user_id_hash: [u8; 32],
}

/// Reference to a user record: its registry key.
#[derive(Clone, Copy, Debug)]
pub struct UserRef {
    pub user_id_hash: [u8; 32],
}

/// Reference to a charger record: its registry key, unique per owner.
#[derive(Clone, Copy, Debug)]
pub struct ChargerRef {
    pub user_id_hash: [u8; 32],
    pub charger_id: u64,
}

/// Reference to a match record, derived deterministically from the
/// charger it binds: at most one match record is alive per charger.
#[derive(Clone, Copy, Debug)]
pub struct MatchRef {
    pub charger: ChargerRef,
}

/// Mathematical view of a [`ChargerRef`].
pub struct ChargerRefV {
    pub user_id_hash: Seq<u8>,
    pub charger_id: u64,
}

impl View for ChargerRef {
    type V = ChargerRefV;

    open spec fn view(&self) -> ChargerRefV {
        ChargerRefV { user_id_hash: self.user_id_hash@, charger_id: self.charger_id }
    }
}

/// A registered user, created at most once per identity hash and
/// immutable afterwards.
pub struct UserAccount {
    pub user_id_hash: [u8; 32],
    pub role: Role,
    /// Identity of the controller that may act for this user.
    pub authority: [u8; 32],
}

/// Mathematical view of a [`UserAccount`].
pub struct UserV {
    pub user_id_hash: Seq<u8>,
    pub role: Role,
    pub authority: Seq<u8>,
}

impl View for UserAccount {
    type V = UserV;

    open spec fn view(&self) -> UserV {
        UserV {
            user_id_hash: self.user_id_hash@,
            role: self.role,
            authority: self.authority@,
        }
    }
}

/// An EV charger listed by a host. Mutated only by the matching
/// engine's status transitions.
pub struct ChargerAccount {
    /// Identity hash of the owning host.
    pub user_id_hash: [u8; 32],
    pub charger_id: u64,
    pub power_kw: u16,
    pub supply_type: SupplyType,
    pub price: u64,
    pub status: ChargerStatus,
    /// Fixed [`LOCATION_BYTES`]-byte text buffer.
    pub location: Vec<u8>,
}

/// Mathematical view of a [`ChargerAccount`].
pub struct ChargerV {
    pub user_id_hash: Seq<u8>,
    pub charger_id: u64,
    pub power_kw: u16,
    pub supply_type: SupplyType,
    pub price: u64,
    pub status: ChargerStatus,
    pub location: Seq<u8>,
}

impl View for ChargerAccount {
    type V = ChargerV;

    open spec fn view(&self) -> ChargerV {
        ChargerV {
            user_id_hash: self.user_id_hash@,
            charger_id: self.charger_id,
            power_kw: self.power_kw,
            supply_type: self.supply_type,
            price: self.price,
            status: self.status,
            location: self.location@,
        }
    }
}

/// The binding record of one driver's reservation of one charger.
/// Created by a reservation, mutated only by the one confirmation.
pub struct MatchAccount {
    pub driver_user_hash: [u8; 32],
    pub charger: ChargerRef,
    pub status: MatchStatus,
    /// Whether the driver reported the charge as correct; set only at
    /// the `Pending` to `Completed` transition.
    pub confirmed_correct: bool,
}

/// Mathematical view of a [`MatchAccount`].
pub struct MatchV {
    pub driver_user_hash: Seq<u8>,
    pub charger: ChargerRefV,
    pub status: MatchStatus,
    pub confirmed_correct: bool,
}

impl View for MatchAccount {
    type V = MatchV;

    open spec fn view(&self) -> MatchV {
        MatchV {
            driver_user_hash: self.driver_user_hash@,
            charger: self.charger@,
            status: self.status,
            confirmed_correct: self.confirmed_correct,
        }
    }
}

/// A persisted value of the store: one of the three entity kinds,
/// sharing one keyed store under distinct namespaces.
pub enum Record {
    User(UserAccount),
    Charger(ChargerAccount),
    Match(MatchAccount),
}

/// Mathematical view of a [`Record`].
pub enum RecV {
    User(UserV),
    Charger(ChargerV),
    Match(MatchV),
}

impl View for Record {
    type V = RecV;

    open spec fn view(&self) -> RecV {
        match self {
            Record::User(u) => RecV::User(u@),
            Record::Charger(c) => RecV::Charger(c@),
            Record::Match(m) => RecV::Match(m@),
        }
    }
}

/// Key of a record: a namespace together with the entity's key
/// material. A match is keyed by the charger it binds, so its key is a
/// pure function of the charger's key.
#[derive(Clone, Copy)]
pub enum RecordKey {
    User { user_id_hash: [u8; 32] },
    Charger { user_id_hash: [u8; 32], charger_id: u64 },
    Match { user_id_hash: [u8; 32], charger_id: u64 },
}

/// Mathematical view of a [`RecordKey`].
pub enum KeyV {
    User { user_id_hash: Seq<u8> },
    Charger { user_id_hash: Seq<u8>, charger_id: u64 },
    Match { user_id_hash: Seq<u8>, charger_id: u64 },
}

impl View for RecordKey {
    type V = KeyV;

    open spec fn view(&self) -> KeyV {
        match self {
            RecordKey::User { user_id_hash } => KeyV::User { user_id_hash: user_id_hash@ },
            RecordKey::Charger { user_id_hash, charger_id } => KeyV::Charger {
                user_id_hash: user_id_hash@,
                charger_id: *charger_id,
            },
            RecordKey::Match { user_id_hash, charger_id } => KeyV::Match {
                user_id_hash: user_id_hash@,
                charger_id: *charger_id,
            },
        }
    }
}

/// Arguments of [`crate::marketplace::Marketplace::register_user`].
pub struct RegisterUser {
    pub user_id_hash: [u8; 32],
    pub role: Role,
    /// Identity that will control the new user record.
    pub authority: [u8; 32],
}

/// Arguments of [`crate::marketplace::Marketplace::create_charger`].
pub struct CreateCharger {
    /// Identity hash of the owning host.
    pub user_id_hash: [u8; 32],
    pub charger_id: u64,
    pub power_kw: u16,
    pub supply_type: SupplyType,
    pub price: u64,
    /// Location text of any length; stored truncated or padded to
    /// [`LOCATION_BYTES`] bytes.
    pub location: Vec<u8>,
    pub authority: AuthorizedIdentity,
}

/// Arguments of [`crate::marketplace::Marketplace::reserve_charger`].
pub struct ReserveCharger {
    pub charger: ChargerRef,
    pub driver_user_hash: [u8; 32],
}

/// Arguments of [`crate::marketplace::Marketplace::confirm_charge`].
pub struct ConfirmCharge {
    pub match_ref: MatchRef,
    pub was_correct: bool,
    pub authority: AuthorizedIdentity,
}

impl UserAccount {
    /// Copies the record.
    pub fn dup(&self) -> (r: Self)
        ensures
            r@ == self@,
    {
        UserAccount {
            user_id_hash: self.user_id_hash,
            role: self.role,
            authority: self.authority,
        }
    }
}

impl ChargerAccount {
    /// Copies the record.
    pub fn dup(&self) -> (r: Self)
        ensures
            r@ == self@,
    {
        ChargerAccount {
            user_id_hash: self.user_id_hash,
            charger_id: self.charger_id,
            power_kw: self.power_kw,
            supply_type: self.supply_type,
            price: self.price,
            status: self.status,
            location: copy_bytes(&self.location),
        }
    }
}

impl MatchAccount {
    /// Copies the record.
    pub fn dup(&self) -> (r: Self)
        ensures
            r@ == self@,
    {
        MatchAccount {
            driver_user_hash: self.driver_user_hash,
            charger: self.charger,
            status: self.status,
            confirmed_correct: self.confirmed_correct,
        }
    }
}

impl Record {
    /// Copies the record.
    pub fn dup(&self) -> (r: Self)
        ensures
            r@ == self@,
    {
        match self {
            Record::User(u) => Record::User(u.dup()),
            Record::Charger(c) => Record::Charger(c.dup()),
            Record::Match(m) => Record::Match(m.dup()),
        }
    }
}

/// Compares two identity digests by value.
pub fn bytes32_eq(a: &[u8; 32], b: &[u8; 32]) -> (r: bool)
    ensures
        r == (a@ == b@),
{
    let mut i: usize = 0;
    while i < 32
        invariant
            i <= 32,
            forall|j: int| 0 <= j < i ==> a@[j] == b@[j],
        decreases 32 - i,
    {
        if a[i] != b[i] {
            return false;
        }
        i += 1;
    }
    proof {
        assert(a@ =~= b@);
    }
    true
}

/// Copies a byte buffer.
pub fn copy_bytes(v: &Vec<u8>) -> (r: Vec<u8>)
    ensures
        r@ == v@,
{
    let mut out: Vec<u8> = Vec::new();
    let mut i: usize = 0;
    while i < v.len()
        invariant
            i <= v.len(),
            out@ =~= v@.take(i as int),
        decreases v.len() - i,
    {
        out.push(v[i]);
        i += 1;
    }
    proof {
        assert(out@ =~= v@);
    }
    out
}

/// The stored form of a location text: truncated to
/// [`LOCATION_BYTES`] bytes, or padded with zero bytes up to it.
pub open spec fn location_norm(s: Seq<u8>) -> Seq<u8> {
    Seq::new(LOCATION_BYTES as nat, |i: int| if i < s.len() { s[i] } else { 0u8 })
}

/// Truncates or pads a location text to its fixed stored size.
pub fn normalize_location(loc: &Vec<u8>) -> (r: Vec<u8>)
    ensures
        r@ == location_norm(loc@),
{
    let mut out: Vec<u8> = Vec::new();
    let mut i: usize = 0;
    while i < LOCATION_BYTES
        invariant
            i <= LOCATION_BYTES,
            out@.len() == i,
            forall|j: int| 0 <= j < i ==> out@[j] == location_norm(loc@)[j],
        decreases LOCATION_BYTES - i,
    {
        if i < loc.len() {
            out.push(loc[i]);
        } else {
            out.push(0u8);
        }
        i += 1;
    }
    proof {
        assert(out@ =~= location_norm(loc@));
    }
    out
}

} // verus!
