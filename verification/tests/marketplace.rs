use topcharger::marketplace::Marketplace;
use topcharger::records::AuthorizedIdentity;
use topcharger::records::ChargerRef;
use topcharger::records::ChargerStatus;
use topcharger::records::ConfirmCharge;
use topcharger::records::CreateCharger;
use topcharger::records::ErrorCode;
use topcharger::records::MatchRef;
use topcharger::records::MatchStatus;
use topcharger::records::RegisterUser;
use topcharger::records::ReserveCharger;
use topcharger::records::Role;
use topcharger::records::SupplyType;

fn h(tag: u8) -> [u8; 32] {
    let mut a = [0u8; 32];
    a[0] = tag;
    a
}

const HOST: u8 = 1;
const HOST_AUTH: u8 = 2;
const DRIVER: u8 = 3;
const DRIVER_AUTH: u8 = 4;
const STRANGER: u8 = 9;

fn register(m: &mut Marketplace, id: u8, role: Role, auth: u8) {
    let r = m.register_user(RegisterUser {
        user_id_hash: h(id),
        role,
        authority: h(auth),
    });
    assert!(r.is_ok());
}

fn list_charger(m: &mut Marketplace, charger_id: u64) -> ChargerRef {
    m.create_charger(CreateCharger {
        user_id_hash: h(HOST),
        charger_id,
        power_kw: 50,
        supply_type: SupplyType::Dc,
        price: 100,
        location: b"garage".to_vec(),
        authority: AuthorizedIdentity { user_id_hash: h(HOST_AUTH) },
    })
    .unwrap()
}

fn setup() -> (Marketplace, ChargerRef) {
    let mut m = Marketplace::new();
    register(&mut m, HOST, Role::Host, HOST_AUTH);
    register(&mut m, DRIVER, Role::Driver, DRIVER_AUTH);
    let cref = list_charger(&mut m, 1);
    (m, cref)
}

fn reserve(m: &mut Marketplace, cref: ChargerRef, driver: u8) -> Result<MatchRef, ErrorCode> {
    m.reserve_charger(ReserveCharger {
        charger: cref,
        driver_user_hash: h(driver),
    })
}

fn confirm(m: &mut Marketplace, mref: MatchRef, was_correct: bool, caller: u8) -> Result<(), ErrorCode> {
    m.confirm_charge(ConfirmCharge {
        match_ref: mref,
        was_correct,
        authority: AuthorizedIdentity { user_id_hash: h(caller) },
    })
}

#[test]
fn register_succeeds_at_most_once() {
    let mut m = Marketplace::new();
    register(&mut m, HOST, Role::Host, HOST_AUTH);
    let again = m.register_user(RegisterUser {
        user_id_hash: h(HOST),
        role: Role::Driver,
        authority: h(STRANGER),
    });
    assert_eq!(again.unwrap_err(), ErrorCode::AlreadyRegistered);
    // The first registration is untouched.
    let u = m.get_user(&h(HOST)).unwrap();
    assert_eq!(u.role, Role::Host);
    assert_eq!(u.authority, h(HOST_AUTH));
}

#[test]
fn at_most_one_reservation_succeeds() {
    let (mut m, cref) = setup();
    assert!(reserve(&mut m, cref, DRIVER).is_ok());
    assert_eq!(reserve(&mut m, cref, STRANGER).unwrap_err(), ErrorCode::ChargerNotAvailable);
    assert_eq!(reserve(&mut m, cref, DRIVER).unwrap_err(), ErrorCode::ChargerNotAvailable);
}

#[test]
fn reservation_allocates_charger_and_creates_pending_match() {
    let (mut m, cref) = setup();
    let mref = reserve(&mut m, cref, DRIVER).unwrap();
    let c = m.get_charger(&cref).unwrap();
    assert_eq!(c.status, ChargerStatus::Allocated);
    let v = m.get_match(&mref).unwrap();
    assert_eq!(v.status, MatchStatus::Pending);
    assert_eq!(v.driver_user_hash, h(DRIVER));
    assert_eq!(v.charger.user_id_hash, h(HOST));
    assert_eq!(v.charger.charger_id, 1);
    assert!(!v.confirmed_correct);
}

#[test]
fn confirmation_is_single_shot() {
    let (mut m, cref) = setup();
    let mref = reserve(&mut m, cref, DRIVER).unwrap();
    assert!(confirm(&mut m, mref, true, DRIVER).is_ok());
    assert_eq!(confirm(&mut m, mref, false, DRIVER).unwrap_err(), ErrorCode::AlreadyConfirmed);
    // The verdict reflects only the first call's argument.
    let v = m.get_match(&mref).unwrap();
    assert_eq!(v.status, MatchStatus::Completed);
    assert!(v.confirmed_correct);
}

#[test]
fn confirmation_releases_charger_for_rebooking() {
    let (mut m, cref) = setup();
    let mref = reserve(&mut m, cref, DRIVER).unwrap();
    confirm(&mut m, mref, true, DRIVER).unwrap();
    assert_eq!(m.get_charger(&cref).unwrap().status, ChargerStatus::Available);
    let mref2 = reserve(&mut m, cref, STRANGER).unwrap();
    let v = m.get_match(&mref2).unwrap();
    assert_eq!(v.status, MatchStatus::Pending);
    assert_eq!(v.driver_user_hash, h(STRANGER));
}

#[test]
fn full_marketplace_scenario() {
    let mut m = Marketplace::new();
    register(&mut m, HOST, Role::Host, HOST_AUTH);
    let cref = m
        .create_charger(CreateCharger {
            user_id_hash: h(HOST),
            charger_id: 1,
            power_kw: 50,
            supply_type: SupplyType::Dc,
            price: 100,
            location: b"home garage".to_vec(),
            authority: AuthorizedIdentity { user_id_hash: h(HOST_AUTH) },
        })
        .unwrap();
    let c = m.get_charger(&cref).unwrap();
    assert_eq!(c.power_kw, 50);
    assert_eq!(c.supply_type, SupplyType::Dc);
    assert_eq!(c.price, 100);
    assert_eq!(c.status, ChargerStatus::Available);

    register(&mut m, DRIVER, Role::Driver, DRIVER_AUTH);
    let mref = reserve(&mut m, cref, DRIVER).unwrap();
    assert_eq!(m.get_charger(&cref).unwrap().status, ChargerStatus::Allocated);
    assert_eq!(m.get_match(&mref).unwrap().status, MatchStatus::Pending);

    let second_driver: u8 = 7;
    assert_eq!(reserve(&mut m, cref, second_driver).unwrap_err(), ErrorCode::ChargerNotAvailable);

    assert!(confirm(&mut m, mref, true, DRIVER).is_ok());
    let v = m.get_match(&mref).unwrap();
    assert_eq!(v.status, MatchStatus::Completed);
    assert!(v.confirmed_correct);
    assert_eq!(m.get_charger(&cref).unwrap().status, ChargerStatus::Available);

    assert_eq!(confirm(&mut m, mref, false, DRIVER).unwrap_err(), ErrorCode::AlreadyConfirmed);
}

#[test]
fn listing_requires_registered_host_owner() {
    let mut m = Marketplace::new();
    // Owner not registered at all.
    let r = m.create_charger(CreateCharger {
        user_id_hash: h(HOST),
        charger_id: 1,
        power_kw: 11,
        supply_type: SupplyType::Ac,
        price: 5,
        location: Vec::new(),
        authority: AuthorizedIdentity { user_id_hash: h(HOST_AUTH) },
    });
    assert_eq!(r.unwrap_err(), ErrorCode::UnauthorizedOwner);
    // Owner registered as a driver, not a host.
    register(&mut m, DRIVER, Role::Driver, DRIVER_AUTH);
    let r = m.create_charger(CreateCharger {
        user_id_hash: h(DRIVER),
        charger_id: 1,
        power_kw: 11,
        supply_type: SupplyType::Ac,
        price: 5,
        location: Vec::new(),
        authority: AuthorizedIdentity { user_id_hash: h(DRIVER_AUTH) },
    });
    assert_eq!(r.unwrap_err(), ErrorCode::UnauthorizedOwner);
}

#[test]
fn listing_requires_matching_authority() {
    let mut m = Marketplace::new();
    register(&mut m, HOST, Role::Host, HOST_AUTH);
    let r = m.create_charger(CreateCharger {
        user_id_hash: h(HOST),
        charger_id: 1,
        power_kw: 11,
        supply_type: SupplyType::Ac,
        price: 5,
        location: Vec::new(),
        authority: AuthorizedIdentity { user_id_hash: h(STRANGER) },
    });
    assert_eq!(r.unwrap_err(), ErrorCode::UnauthorizedOwner);
}

#[test]
fn listing_same_charger_twice_is_refused() {
    let (mut m, _) = setup();
    let r = m.create_charger(CreateCharger {
        user_id_hash: h(HOST),
        charger_id: 1,
        power_kw: 22,
        supply_type: SupplyType::Ac,
        price: 7,
        location: Vec::new(),
        authority: AuthorizedIdentity { user_id_hash: h(HOST_AUTH) },
    });
    assert_eq!(r.unwrap_err(), ErrorCode::AlreadyExists);
    // A second charger id under the same owner is fine.
    let second = list_charger(&mut m, 2);
    assert_eq!(m.get_charger(&second).unwrap().charger_id, 2);
}

#[test]
fn reserving_an_unlisted_charger_is_refused() {
    let (mut m, _) = setup();
    let ghost_ref = ChargerRef { user_id_hash: h(HOST), charger_id: 999 };
    assert_eq!(reserve(&mut m, ghost_ref, DRIVER).unwrap_err(), ErrorCode::UnknownCharger);
}

#[test]
fn confirming_an_unknown_match_is_refused() {
    let (mut m, cref) = setup();
    let mref = MatchRef { charger: cref };
    assert_eq!(confirm(&mut m, mref, true, DRIVER).unwrap_err(), ErrorCode::MatchNotFound);
}

#[test]
fn confirmation_requires_driver_or_their_authority() {
    let (mut m, cref) = setup();
    let mref = reserve(&mut m, cref, DRIVER).unwrap();
    assert_eq!(confirm(&mut m, mref, true, STRANGER).unwrap_err(), ErrorCode::UnauthorizedCaller);
    // Still pending: the refused call changed nothing.
    assert_eq!(m.get_match(&mref).unwrap().status, MatchStatus::Pending);
    // The driver's registered authority may confirm on its behalf.
    assert!(confirm(&mut m, mref, true, DRIVER_AUTH).is_ok());
}

#[test]
fn location_is_truncated_to_the_fixed_buffer() {
    let mut m = Marketplace::new();
    register(&mut m, HOST, Role::Host, HOST_AUTH);
    let long: Vec<u8> = (0u8..70u8).collect();
    let cref = m
        .create_charger(CreateCharger {
            user_id_hash: h(HOST),
            charger_id: 1,
            power_kw: 1,
            supply_type: SupplyType::Ac,
            price: 1,
            location: long.clone(),
            authority: AuthorizedIdentity { user_id_hash: h(HOST_AUTH) },
        })
        .unwrap();
    let stored = m.get_charger(&cref).unwrap().location;
    assert_eq!(stored.len(), 64);
    assert_eq!(&stored[..], &long[..64]);
}

#[test]
fn short_location_is_padded_with_zero_bytes() {
    let (m, cref) = setup();
    let stored = m.get_charger(&cref).unwrap().location;
    assert_eq!(stored.len(), 64);
    assert_eq!(&stored[..6], b"garage");
    assert!(stored[6..].iter().all(|&b| b == 0));
}
