//! The singleton lease under which one controller may write.

use crate::clock::{LAST_MOMENT, SECOND};
use crate::ident::Uuid;
use crate::json::{field_of, fields4, id_json, lemma_fields4, Fields, JsonView};
use crate::repository::events::logged_any;
use crate::repository::{
    event, event_of, ClusterEvent, ControllerLease, EventView, Repository, RepositoryError,
    RepositoryView,
};
use crate::repository::quota::DATABASE_MAX;
use vstd::prelude::*;

verus! {

/// What a claim to the controller lease comes to.
pub enum ControllerClaim {
    /// Another controller holds the lease.
    Held,
    /// The claimant holds the lease already; it lasts longer from now on.
    Renewed(ControllerLease),
    /// The lease is free: the next term begins.
    NextTerm,
}

/// Whether a lease holds at `now`.
pub open spec fn in_force(lease: ControllerLease, now: i128) -> bool {
    lease.expires_at > now
}

/// What a claim comes to.
pub open spec fn claim_of(
    current: Option<ControllerLease>,
    controller_id: Uuid,
    now: i128,
    duration_seconds: u8,
) -> ControllerClaim {
    match current {
        Some(lease) if in_force(lease, now) => if lease.controller_id == controller_id {
            ControllerClaim::Renewed(
                ControllerLease {
                    expires_at: (now + duration_seconds * SECOND) as i128,
                    ..lease
                },
            )
        } else {
            ControllerClaim::Held
        },
        _ => ControllerClaim::NextTerm,
    }
}

/// What a claim to the controller lease comes to.
pub fn controller_claim(
    current: Option<ControllerLease>,
    controller_id: Uuid,
    now: i128,
    duration_seconds: u8,
) -> (claim: ControllerClaim)
    requires
        now <= LAST_MOMENT,
    ensures
        claim == claim_of(current, controller_id, now, duration_seconds),
{
    match current {
        Some(lease) => {
            if lease.expires_at > now {
                if lease.controller_id == controller_id {
                    ControllerClaim::Renewed(
                        ControllerLease {
                            controller_id: lease.controller_id,
                            term: lease.term,
                            fencing_token: lease.fencing_token,
                            expires_at: now + duration_seconds as i128 * SECOND,
                        },
                    )
                } else {
                    ControllerClaim::Held
                }
            } else {
                ControllerClaim::NextTerm
            }
        },
        None => ControllerClaim::NextTerm,
    }
}

/// Whether a lease may follow another: it is the claimant's own, it lasts as long as was asked for, and
/// its term and its fencing token are greater than those before.
pub open spec fn follows(
    current: Option<ControllerLease>,
    controller_id: Uuid,
    now: i128,
    duration_seconds: u8,
    next: ControllerLease,
) -> bool {
    &&& next.controller_id == controller_id
    &&& next.expires_at == now + duration_seconds * SECOND
    &&& current matches Some(before) ==> next.term > before.term && next.fencing_token
        > before.fencing_token
}

/// The lease of the term after the current one, with numbers that are greater by one; none, where a
/// number cannot grow.
pub fn next_term(
    current: Option<ControllerLease>,
    controller_id: Uuid,
    now: i128,
    duration_seconds: u8,
) -> (next: Option<ControllerLease>)
    requires
        now <= LAST_MOMENT,
    ensures
        ({
            let (term, token) = match current {
                Some(before) => (before.term as int, before.fencing_token as int),
                None => (0, 0),
            };
            &&& next is Some == (term < u64::MAX && token < u64::MAX)
            &&& next matches Some(lease) ==> lease == (ControllerLease {
                controller_id,
                term: (term + 1) as u64,
                fencing_token: (token + 1) as u64,
                expires_at: (now + duration_seconds * SECOND) as i128,
            }) && follows(current, controller_id, now, duration_seconds, lease)
        }),
{
    let (term, token): (u64, u64) = match current {
        Some(before) => (before.term, before.fencing_token),
        None => (0, 0),
    };
    if term == u64::MAX || token == u64::MAX {
        return None;
    }
    Some(
        ControllerLease {
            controller_id,
            term: term + 1,
            fencing_token: token + 1,
            expires_at: now + duration_seconds as i128 * SECOND,
        },
    )
}

/// The lease that a claim puts in force, given the lease of the next term, which has to follow.
pub open spec fn claimed_lease(
    current: Option<ControllerLease>,
    controller_id: Uuid,
    now: i128,
    duration_seconds: u8,
    next: Option<ControllerLease>,
) -> Option<ControllerLease> {
    match claim_of(current, controller_id, now, duration_seconds) {
        ControllerClaim::Held => None,
        ControllerClaim::Renewed(lease) => Some(lease),
        ControllerClaim::NextTerm => match next {
            Some(lease) if follows(
                current,
                controller_id,
                now,
                duration_seconds,
                lease,
            ) => Some(lease),
            _ => None,
        },
    }
}

/// Whether a lease is of another term or another controller than the one before.
pub open spec fn changes_hands(current: Option<ControllerLease>, lease: ControllerLease) -> bool {
    match current {
        Some(before) => before.term != lease.term || before.controller_id != lease.controller_id,
        None => true,
    }
}

/// The event of a lease that changes hands.
pub open spec fn acquired_event(lease: ControllerLease) -> EventView {
    event_of(
        "controller.lease_acquired"@,
        fields4(
            ("controller_id"@, id_json(lease.controller_id)),
            ("term"@, JsonView::Number(lease.term as int)),
            ("fencing_token"@, JsonView::Number(lease.fencing_token as int)),
            ("expires_at"@, JsonView::Moment(lease.expires_at)),
        ),
    )
}

/// Whether the numbers of a lease fit in the database.
pub open spec fn storable(lease: ControllerLease) -> bool {
    lease.term <= DATABASE_MAX && lease.fencing_token <= DATABASE_MAX
}

impl Repository {
    /// Acquires, renews, or takes over the singleton controller lease. A lease in force that another
    /// controller owns stays as it is. `next` is the lease of the term after the current one, as the
    /// fencing rules of the cluster number it; it is put in force where a new term begins.
    pub fn claim_controller_lease(
        &mut self,
        controller_id: Uuid,
        now: i128,
        duration_seconds: u8,
        next: Option<ControllerLease>,
    ) -> (r: Result<Option<(ControllerLease, Option<ClusterEvent>)>, RepositoryError>)
        requires
            now <= LAST_MOMENT,
        ensures
            ({
                let current = old(self)@.controller;
                let claim = claim_of(current, controller_id, now, duration_seconds);
                let lease = claimed_lease(current, controller_id, now, duration_seconds, next);
                match r {
                    Err(error) => {
                        &&& final(self)@ == old(self)@
                        &&& if !(10 <= duration_seconds <= 60) {
                            error == RepositoryError::LeaseDuration
                        } else {
                            &&& error == RepositoryError::OutOfRange
                            &&& claim !is Held
                            &&& lease is None || !storable(lease->0) || (current is Some
                                && !storable(current->0))
                        }
                    },
                    Ok(None) => {
                        &&& 10 <= duration_seconds <= 60
                        &&& claim is Held
                        &&& final(self)@ == old(self)@
                    },
                    Ok(Some((granted, e))) => {
                        &&& 10 <= duration_seconds <= 60
                        &&& lease == Some(granted)
                        &&& storable(granted) && (current is Some ==> storable(current->0))
                        &&& final(self)@ == logged_any(
                            RepositoryView { controller: Some(granted), ..old(self)@ },
                            e,
                            now,
                        )
                        &&& e is Some == changes_hands(current, granted)
                        &&& e is Some ==> (e->0)@ == acquired_event(granted)
                    },
                }
            }),
    {
        if duration_seconds < 10 || duration_seconds > 60 {
            return Err(RepositoryError::LeaseDuration);
        }
        let current = self.controller;
        let lease = match controller_claim(current, controller_id, now, duration_seconds) {
            ControllerClaim::Held => return Ok(None),
            ControllerClaim::Renewed(lease) => lease,
            ControllerClaim::NextTerm => match next {
                Some(lease) => {
                    let rises: bool = match current {
                        Some(before) => lease.term > before.term && lease.fencing_token
                            > before.fencing_token,
                        None => true,
                    };
                    if lease.controller_id != controller_id || lease.expires_at != now
                        + duration_seconds as i128 * SECOND || !rises {
                        return Err(RepositoryError::OutOfRange);
                    }
                    lease
                },
                None => return Err(RepositoryError::OutOfRange),
            },
        };
        if lease.term > DATABASE_MAX || lease.fencing_token > DATABASE_MAX {
            return Err(RepositoryError::OutOfRange);
        }
        let changed = match current {
            Some(before) => {
                if before.term > DATABASE_MAX || before.fencing_token > DATABASE_MAX {
                    return Err(RepositoryError::OutOfRange);
                }
                before.term != lease.term || before.controller_id != lease.controller_id
            },
            None => true,
        };
        self.controller = Some(lease);
        let e = if changed {
            let e = event(
                "controller.lease_acquired",
                Fields::new().id("controller_id", lease.controller_id).number(
                    "term",
                    lease.term as i128,
                ).number("fencing_token", lease.fencing_token as i128).moment(
                    "expires_at",
                    lease.expires_at,
                ),
            );
            Some(self.record(e, now))
        } else {
            None
        };
        Ok(Some((lease, e)))
    }
}

/// What a process knows of its own hold on the controller lease.
pub struct ControllerGuard {
    controller_id: Uuid,
    term: u64,
    fencing_token: u64,
    active: bool,
}

/// What a process knows of its own hold on the controller lease, as values.
pub struct GuardView {
    pub controller_id: Uuid,
    pub term: u64,
    pub fencing_token: u64,
    pub active: bool,
}

/// What a guard knows after it has heard of a lease, or that there is none.
pub open spec fn guard_after(guard: GuardView, lease: Option<ControllerLease>) -> GuardView {
    match lease {
        Some(lease) if lease.controller_id == guard.controller_id => GuardView {
            controller_id: guard.controller_id,
            term: lease.term,
            fencing_token: lease.fencing_token,
            active: true,
        },
        _ => GuardView { active: false, ..guard },
    }
}

/// Whether a guard lets writes through, given the lease that is stored.
pub open spec fn may_write(guard: GuardView, stored: Option<ControllerLease>, now: i128) -> bool {
    &&& guard.active
    &&& stored matches Some(lease) && lease.controller_id == guard.controller_id && lease.term
        == guard.term && lease.fencing_token == guard.fencing_token && in_force(lease, now)
}

impl ControllerGuard {
    pub closed spec fn view(&self) -> GuardView {
        GuardView {
            controller_id: self.controller_id,
            term: self.term,
            fencing_token: self.fencing_token,
            active: self.active,
        }
    }

    /// Creates a process identity and applies its initial lease, if acquired.
    pub fn new(controller_id: Uuid, lease: Option<ControllerLease>) -> (guard: ControllerGuard)
        ensures
            guard@ == guard_after(
                GuardView { controller_id, term: 0, fencing_token: 0, active: false },
                lease,
            ),
    {
        let mut guard = ControllerGuard { controller_id, term: 0, fencing_token: 0, active: false };
        guard.update(lease);
        guard
    }

    /// Updates the process-local view only from a freshly committed lease claim.
    pub fn update(&mut self, lease: Option<ControllerLease>)
        ensures
            final(self)@ == guard_after(old(self)@, lease),
    {
        match lease {
            Some(lease) => {
                if lease.controller_id == self.controller_id {
                    self.term = lease.term;
                    self.fencing_token = lease.fencing_token;
                    self.active = true;
                } else {
                    self.active = false;
                }
            },
            None => {
                self.active = false;
            },
        }
    }

    /// Returns this process's stable controller instance identity.
    pub fn controller_id(&self) -> (id: Uuid)
        ensures
            id == self@.controller_id,
    {
        self.controller_id
    }

    /// The controller, the term and the fencing token under which this process writes, where it
    /// believes to hold the lease.
    pub fn write_claim(&self) -> (claim: Option<(Uuid, u64, u64)>)
        ensures
            claim == (if self@.active {
                Some((self@.controller_id, self@.term, self@.fencing_token))
            } else {
                None
            }),
    {
        if self.active {
            Some((self.controller_id, self.term, self.fencing_token))
        } else {
            None
        }
    }

    /// Whether a write may go ahead: the process believes to hold the lease, and the stored lease is in
    /// force and the very one that it holds.
    pub fn authorize(&self, stored: Option<ControllerLease>, now: i128) -> (r: bool)
        ensures
            r == may_write(self@, stored, now),
    {
        match stored {
            Some(lease) => self.active && lease.controller_id == self.controller_id && lease.term
                == self.term && lease.fencing_token == self.fencing_token && lease.expires_at > now,
            None => false,
        }
    }
}

/// How long a controller claims its lease for, in seconds.
pub const LEASE_SECONDS: u8 = 15;

/// Renews the lease of a process, or finds out that another holds it. A process whose claim fails
/// believes no longer to hold the lease.
pub fn spawn_controller_lease_monitor(
    repository: &mut Repository,
    guard: &mut ControllerGuard,
    now: i128,
    next: Option<ControllerLease>,
) -> (r: Option<ClusterEvent>)
    requires
        now <= LAST_MOMENT,
    ensures
        ({
            let current = old(repository)@.controller;
            let id = old(guard)@.controller_id;
            let lease = claimed_lease(current, id, now, LEASE_SECONDS, next);
            let granted = lease is Some && storable(lease->0) && (current is Some ==> storable(
                current->0,
            ));
            if granted {
                &&& final(repository)@ == logged_any(
                    RepositoryView { controller: lease, ..old(repository)@ },
                    r,
                    now,
                )
                &&& final(guard)@ == guard_after(old(guard)@, lease)
                &&& r is Some == changes_hands(current, lease->0)
                &&& r matches Some(e) ==> e@ == acquired_event(lease->0)
            } else {
                &&& final(repository)@ == old(repository)@
                &&& final(guard)@ == guard_after(old(guard)@, None)
                &&& r is None
            }
        }),
{
    match repository.claim_controller_lease(guard.controller_id(), now, LEASE_SECONDS, next) {
        Ok(Some((lease, e))) => {
            guard.update(Some(lease));
            e
        },
        Ok(None) => {
            guard.update(None);
            None
        },
        Err(_) => {
            guard.update(None);
            None
        },
    }
}

// ------------------------------------------------------------------------------------------------
// Laws

/// While a lease is in force, no other controller gets it.
pub proof fn law_a_lease_in_force_excludes_others(
    lease: ControllerLease,
    controller_id: Uuid,
    now: i128,
    duration_seconds: u8,
    next: Option<ControllerLease>,
)
    requires
        in_force(lease, now),
        controller_id != lease.controller_id,
    ensures
        claimed_lease(Some(lease), controller_id, now, duration_seconds, next) is None,
{
}

/// A renewal keeps the term and the fencing token, and moves the expiry.
pub proof fn law_renewal_keeps_the_term(
    lease: ControllerLease,
    now: i128,
    duration_seconds: u8,
    next: Option<ControllerLease>,
)
    requires
        in_force(lease, now),
        now <= LAST_MOMENT,
    ensures
        ({
            let renewed = claimed_lease(
                Some(lease),
                lease.controller_id,
                now,
                duration_seconds,
                next,
            );
            &&& renewed is Some
            &&& renewed->0.controller_id == lease.controller_id
            &&& renewed->0.term == lease.term
            &&& renewed->0.fencing_token == lease.fencing_token
            &&& renewed->0.expires_at == now + duration_seconds * SECOND
            &&& !changes_hands(Some(lease), renewed->0)
        }),
{
}

/// A lease that has expired is free for every controller, its former owner too: the next term begins
/// with a lease that follows.
pub proof fn law_an_expired_lease_is_free(
    lease: ControllerLease,
    controller_id: Uuid,
    now: i128,
    duration_seconds: u8,
    next: ControllerLease,
)
    requires
        !in_force(lease, now),
        follows(Some(lease), controller_id, now, duration_seconds, next),
    ensures
        claimed_lease(Some(lease), controller_id, now, duration_seconds, Some(next)) == Some(next),
{
}

/// No lease outlasts what was asked for: whatever is claimed lasts from now for the duration, renewed or
/// taken over.
pub proof fn law_a_lease_lasts_as_long_as_asked(
    current: Option<ControllerLease>,
    controller_id: Uuid,
    now: i128,
    duration_seconds: u8,
    next: Option<ControllerLease>,
)
    requires
        now <= LAST_MOMENT,
        claimed_lease(current, controller_id, now, duration_seconds, next) is Some,
    ensures
        ({
            let lease = claimed_lease(current, controller_id, now, duration_seconds, next)->0;
            &&& lease.controller_id == controller_id
            &&& lease.expires_at == now + duration_seconds * SECOND
        }),
{
}

/// A lease is fenced off from those before: whatever is claimed, the term and the fencing token never
/// fall, and where the lease changes hands both rise. Who held the lease before that writes no more, even
/// without having heard of it.
pub proof fn law_a_takeover_fences_off(
    before: ControllerLease,
    controller_id: Uuid,
    now: i128,
    duration_seconds: u8,
    next: Option<ControllerLease>,
    guard: GuardView,
    later: i128,
)
    requires
        claimed_lease(Some(before), controller_id, now, duration_seconds, next) is Some,
        guard.term == before.term,
        guard.fencing_token == before.fencing_token,
    ensures
        ({
            let lease = claimed_lease(Some(before), controller_id, now, duration_seconds, next)->0;
            &&& lease.term >= before.term && lease.fencing_token >= before.fencing_token
            &&& changes_hands(Some(before), lease) ==> lease.term > before.term
                && lease.fencing_token > before.fencing_token && !may_write(
                guard,
                Some(lease),
                later,
            )
        }),
{
}

/// A guard that hears of another controller's lease writes no more.
pub proof fn law_a_standby_does_not_write(guard: GuardView, lease: ControllerLease)
    requires
        lease.controller_id != guard.controller_id,
    ensures
        !guard_after(guard, Some(lease)).active,
        !guard_after(guard, None).active,
{
}

/// Who claimed the lease may write from then on until 15 seconds have passed, and not longer without
/// renewing it; the lease of another term, token or controller lets nobody else write.
pub proof fn law_the_holder_writes_while_it_lasts(
    current: Option<ControllerLease>,
    guard: GuardView,
    now: i128,
    next: Option<ControllerLease>,
    later: i128,
)
    requires
        now <= LAST_MOMENT,
        claimed_lease(current, guard.controller_id, now, LEASE_SECONDS, next) is Some,
    ensures
        ({
            let lease = claimed_lease(current, guard.controller_id, now, LEASE_SECONDS, next);
            let after = guard_after(guard, lease);
            &&& may_write(after, lease, later) <==> later < now + 15_000_000_000
            &&& after.controller_id == guard.controller_id
            &&& !may_write(after, None, later)
            &&& forall|other: ControllerLease|
                other.controller_id != lease->0.controller_id || other.term != lease->0.term
                    || other.fencing_token != lease->0.fencing_token ==> !#[trigger] may_write(
                    after,
                    Some(other),
                    later,
                )
        }),
{
}

/// Of a lease that changes hands it is told who holds it, in which term, under which token, and how long.
pub proof fn law_a_change_of_hands_is_told(lease: ControllerLease)
    ensures
        ({
            let told = acquired_event(lease);
            &&& told.event_type == "controller.lease_acquired"@
            &&& field_of(told.payload, "controller_id"@) == Some(id_json(lease.controller_id))
            &&& field_of(told.payload, "term"@) == Some(JsonView::Number(lease.term as int))
            &&& field_of(told.payload, "fencing_token"@) == Some(JsonView::Number(lease.fencing_token as int))
            &&& field_of(told.payload, "expires_at"@) == Some(JsonView::Moment(lease.expires_at))
        }),
{
    reveal_strlit("controller_id");
    reveal_strlit("term");
    reveal_strlit("fencing_token");
    reveal_strlit("expires_at");
    assert("controller_id"@.len() == 13);
    assert("term"@.len() == 4);
    assert("fencing_token"@.len() == 13);
    assert("expires_at"@.len() == 10);
    assert("controller_id"@[0] != "fencing_token"@[0]);
    let a = ("controller_id"@, id_json(lease.controller_id));
    let b = ("term"@, JsonView::Number(lease.term as int));
    let c = ("fencing_token"@, JsonView::Number(lease.fencing_token as int));
    let d = ("expires_at"@, JsonView::Moment(lease.expires_at));
    lemma_fields4(a, b, c, d, "controller_id"@);
    lemma_fields4(a, b, c, d, "term"@);
    lemma_fields4(a, b, c, d, "fencing_token"@);
    lemma_fields4(a, b, c, d, "expires_at"@);
}

} // verus!
