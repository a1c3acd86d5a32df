//! The laws of the marketplace, each proved once and for all over the
//! spec-level transitions that the operations' contracts commit:
//! create-once registration, no double allocation, coherence of a
//! fresh reservation, single-shot confirmation, and release of the
//! charger on confirmation.

use vstd::prelude::*;
use crate::marketplace::as_charger;
use crate::marketplace::as_match;
use crate::marketplace::charger_key;
use crate::marketplace::confirm_accepts;
use crate::marketplace::confirm_post;
use crate::marketplace::match_key;
use crate::marketplace::record_wf_at;
use crate::marketplace::register_accepts;
use crate::marketplace::register_post;
use crate::marketplace::reserve_accepts;
use crate::marketplace::reserve_post;
use crate::marketplace::state_inv;
use crate::records::ChargerRefV;
use crate::records::KeyV;
use crate::records::MatchStatus;
use crate::records::MatchV;
use crate::records::RecV;
use crate::records::Role;

verus! {

/// Registration succeeds at most once per identity hash: once a
/// registration for `id` has committed, no further registration for
/// `id` is ever accepted, whatever role and authority it asks for.
pub proof fn lemma_register_at_most_once(
    m: Map<KeyV, RecV>,
    id: Seq<u8>,
    role: Role,
    authority: Seq<u8>,
)
    requires
        register_accepts(m, id),
    ensures
        !register_accepts(register_post(m, id, role, authority), id),
{
}

/// No double allocation: of any number of reservation attempts against
/// a charger, at most one can succeed — once one has committed, the
/// charger is held and no longer `Available`, so every further attempt
/// is refused as `ChargerNotAvailable` until the charge is confirmed.
pub proof fn lemma_no_double_allocation(m: Map<KeyV, RecV>, owner: Seq<u8>, charger_id: u64, driver: Seq<u8>)
    requires
        reserve_accepts(m, owner, charger_id),
    ensures
        !reserve_accepts(reserve_post(m, owner, charger_id, driver), owner, charger_id),
        reserve_post(m, owner, charger_id, driver).contains_key(charger_key(owner, charger_id)),
        !(as_charger(
            reserve_post(m, owner, charger_id, driver)[charger_key(owner, charger_id)],
        ).status is Available),
{
}

/// State coherence of a reservation: after it commits, the charger is
/// `Allocated`, and exactly one match record references that charger —
/// the one bound to it, freshly `Pending` for the reserving driver.
pub proof fn lemma_reserve_state_coherence(
    m: Map<KeyV, RecV>,
    owner: Seq<u8>,
    charger_id: u64,
    driver: Seq<u8>,
)
    requires
        state_inv(m),
        reserve_accepts(m, owner, charger_id),
    ensures
        ({
            let m1 = reserve_post(m, owner, charger_id, driver);
            &&& as_charger(m1[charger_key(owner, charger_id)]).status is Allocated
            &&& m1.contains_key(match_key(owner, charger_id))
            &&& m1[match_key(owner, charger_id)] == RecV::Match(
                MatchV {
                    driver_user_hash: driver,
                    charger: ChargerRefV { user_id_hash: owner, charger_id },
                    status: MatchStatus::Pending,
                    confirmed_correct: false,
                },
            )
            &&& forall|k: KeyV| #[trigger] m1.contains_key(k) && m1[k] is Match && as_match(
                m1[k],
            ).charger == (ChargerRefV { user_id_hash: owner, charger_id }) ==> k == match_key(
                owner,
                charger_id,
            )
        }),
{
    let m1 = reserve_post(m, owner, charger_id, driver);
    assert forall|k: KeyV|
        #[trigger] m1.contains_key(k) && m1[k] is Match && as_match(m1[k]).charger == (ChargerRefV {
            user_id_hash: owner,
            charger_id,
        }) implies k == match_key(owner, charger_id) by {
        if k != match_key(owner, charger_id) && k != charger_key(owner, charger_id) {
            assert(m.contains_key(k));
            assert(record_wf_at(m, k));
        }
    }
}

/// Confirmation is single-shot: after one confirmation commits, the
/// match is `Completed` with exactly the verdict of that first call,
/// and no further confirmation is accepted from any caller — a second
/// call is refused as `AlreadyConfirmed` and changes nothing, so the
/// recorded verdict keeps reflecting only the first call's argument.
pub proof fn lemma_confirm_single_shot(
    m: Map<KeyV, RecV>,
    owner: Seq<u8>,
    charger_id: u64,
    caller: Seq<u8>,
    was_correct: bool,
)
    requires
        confirm_accepts(m, owner, charger_id, caller),
    ensures
        ({
            let m1 = confirm_post(m, owner, charger_id, was_correct);
            &&& m1.contains_key(match_key(owner, charger_id))
            &&& as_match(m1[match_key(owner, charger_id)]).status is Completed
            &&& as_match(m1[match_key(owner, charger_id)]).confirmed_correct == was_correct
            &&& forall|other: Seq<u8>| !confirm_accepts(m1, owner, charger_id, other)
        }),
{
    let m1 = confirm_post(m, owner, charger_id, was_correct);
    assert forall|other: Seq<u8>| !confirm_accepts(m1, owner, charger_id, other) by {
        assert(as_match(m1[match_key(owner, charger_id)]).status is Completed);
    }
}

/// Release: after a confirmation commits, the charger referenced by
/// the match is `Available` again, and a new reservation against it is
/// accepted.
pub proof fn lemma_confirm_releases_charger(
    m: Map<KeyV, RecV>,
    owner: Seq<u8>,
    charger_id: u64,
    caller: Seq<u8>,
    was_correct: bool,
)
    requires
        state_inv(m),
        confirm_accepts(m, owner, charger_id, caller),
    ensures
        ({
            let m1 = confirm_post(m, owner, charger_id, was_correct);
            &&& m1.contains_key(charger_key(owner, charger_id))
            &&& as_charger(m1[charger_key(owner, charger_id)]).status is Available
            &&& reserve_accepts(m1, owner, charger_id)
        }),
{
    assert(m.contains_key(match_key(owner, charger_id)));
    assert(record_wf_at(m, match_key(owner, charger_id)));
}

} // verus!
