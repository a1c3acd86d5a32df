use topcharger::records::MatchStatus;
use topcharger::records::Record;
use topcharger::records::RecordKey;
use topcharger::records::Role;
use topcharger::records::StoreError;
use topcharger::records::UserAccount;
use topcharger::store::address;
use topcharger::store::RecordStore;
use topcharger::records::ChargerRef;
use topcharger::records::MatchAccount;

fn h(tag: u8) -> [u8; 32] {
    let mut a = [0u8; 32];
    a[0] = tag;
    a
}

fn user_rec(tag: u8, role: Role) -> Record {
    Record::User(UserAccount {
        user_id_hash: h(tag),
        role,
        authority: h(tag),
    })
}

#[test]
fn create_then_get_roundtrip() {
    let mut s = RecordStore::new();
    let key = RecordKey::User { user_id_hash: h(1) };
    assert!(s.create(key, user_rec(1, Role::Driver)).is_ok());
    let (rec, version) = s.get(&key).unwrap();
    assert_eq!(version, 0);
    match rec {
        Record::User(u) => {
            assert_eq!(u.user_id_hash, h(1));
            assert_eq!(u.role, Role::Driver);
        }
        _ => panic!("wrong record kind"),
    }
}

#[test]
fn create_is_once_per_key() {
    let mut s = RecordStore::new();
    let key = RecordKey::User { user_id_hash: h(1) };
    assert!(s.create(key, user_rec(1, Role::Driver)).is_ok());
    assert_eq!(
        s.create(key, user_rec(1, Role::Host)).unwrap_err(),
        StoreError::AlreadyExists
    );
    // Distinct key material under the same namespace is unaffected.
    let other = RecordKey::User { user_id_hash: h(2) };
    assert!(s.create(other, user_rec(2, Role::Host)).is_ok());
}

#[test]
fn get_of_an_unheld_key_is_none() {
    let s = RecordStore::new();
    assert!(s.get(&RecordKey::User { user_id_hash: h(1) }).is_none());
}

#[test]
fn update_of_an_unheld_key_is_not_found() {
    let mut s = RecordStore::new();
    let key = RecordKey::User { user_id_hash: h(1) };
    assert_eq!(
        s.update(&key, user_rec(1, Role::Driver), 0).unwrap_err(),
        StoreError::NotFound
    );
}

#[test]
fn update_commits_only_against_the_version_read() {
    let mut s = RecordStore::new();
    let key = RecordKey::Match { user_id_hash: h(1), charger_id: 4 };
    let fresh = || {
        Record::Match(MatchAccount {
            driver_user_hash: h(3),
            charger: ChargerRef { user_id_hash: h(1), charger_id: 4 },
            status: MatchStatus::Pending,
            confirmed_correct: false,
        })
    };
    s.create(key, fresh()).unwrap();
    let (_, v0) = s.get(&key).unwrap();
    assert_eq!(v0, 0);
    // A stale version is a conflict and commits nothing.
    assert_eq!(
        s.update(&key, fresh(), v0 + 1).unwrap_err(),
        StoreError::ConcurrentModification
    );
    let (_, still_v0) = s.get(&key).unwrap();
    assert_eq!(still_v0, 0);
    // The version read commits and bumps the version.
    assert!(s.update(&key, fresh(), v0).is_ok());
    let (_, v1) = s.get(&key).unwrap();
    assert_eq!(v1, 1);
    // The writer who lost the race conflicts on its stale read.
    assert_eq!(
        s.update(&key, fresh(), v0).unwrap_err(),
        StoreError::ConcurrentModification
    );
}

#[test]
fn addresses_are_deterministic() {
    let k = RecordKey::Charger { user_id_hash: h(5), charger_id: 77 };
    assert_eq!(address(&k), address(&k));
}

#[test]
fn user_address_is_namespace_tag_then_digest() {
    let a = address(&RecordKey::User { user_id_hash: h(5) });
    assert_eq!(a.len(), 33);
    assert_eq!(a[0], 0);
    assert_eq!(&a[1..], &h(5)[..]);
}

#[test]
fn charger_address_appends_little_endian_id() {
    let a = address(&RecordKey::Charger { user_id_hash: h(5), charger_id: 0x0102030405060708 });
    assert_eq!(a.len(), 41);
    assert_eq!(a[0], 1);
    assert_eq!(&a[1..33], &h(5)[..]);
    assert_eq!(&a[33..], &[0x08, 0x07, 0x06, 0x05, 0x04, 0x03, 0x02, 0x01]);
}

#[test]
fn namespaces_separate_equal_key_material() {
    let charger = address(&RecordKey::Charger { user_id_hash: h(5), charger_id: 7 });
    let matched = address(&RecordKey::Match { user_id_hash: h(5), charger_id: 7 });
    assert_ne!(charger, matched);
    assert_eq!(&charger[1..], &matched[1..]);
    assert_eq!(matched[0], 2);
}
