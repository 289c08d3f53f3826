//! Passkeys: the ceremonies that are under way, and the sessions that come of them.

use crate::api::auth::{token_digest, AuthenticatedPrincipal, Permission};
use crate::api::{
    bad_request, forbidden, internal, not_found, rate_limited, unauthorized, ApiError, ErrorView,
};
use crate::clock::{has_passed, LAST_MOMENT, SECOND};
use crate::digest::{base64url_encoded, hex_of, random_text, sha256_of};
use crate::ident::{big_endian, Uuid};
use crate::json::{fields2, id_json, Fields, Json, JsonView};
use crate::repository::events::logged;
use crate::repository::principals::{
    active_human, credential_digest, passkey_of, session_principal,
};
use crate::repository::{
    event_of, ClusterEvent, PasskeyRow, Repository, RepositoryError, RepositoryView, Session,
};
use crate::table::{lemma_one_more, Table};
use crate::text;
use crate::text::is_blank;
use vstd::prelude::*;
use vstd::utf8::encode_utf8;

verus! {

/// How long a ceremony may take.
pub const CEREMONY_SECONDS: u64 = 300;

/// How many ceremonies may be under way.
pub const MAX_CEREMONIES: usize = 1_024;

/// How many of them may be one principal's.
pub const MAX_OWN_CEREMONIES: usize = 5;

/// How long a session lasts.
pub const SESSION_HOURS: i128 = 24;

/// A ceremony that waits for the authenticator.
pub struct PendingCeremony {
    pub principal_id: Uuid,
    /// The name of the passkey that is being registered.
    pub name: String,
    /// When it began, on a clock that never goes back.
    pub created_at: i128,
    /// The challenge's state, as encoded text; it never leaves the controller.
    pub state: String,
}

/// Whether a ceremony is still young enough.
pub open spec fn young(ceremony: PendingCeremony, now: i128) -> bool {
    now - ceremony.created_at < CEREMONY_SECONDS * SECOND
}

/// The ceremonies that are still young enough.
pub open spec fn young_ceremonies(pending: Map<u128, PendingCeremony>, now: i128) -> Map<
    u128,
    PendingCeremony,
> {
    Map::new(
        |k: u128| pending.contains_key(k) && young(pending[k], now),
        |k: u128| pending[k],
    )
}

/// The ceremonies of a principal.
pub open spec fn own_ceremonies(pending: Map<u128, PendingCeremony>, principal_id: Uuid) -> Set<u128> {
    Set::new(|k: u128| pending.contains_key(k) && pending[k].principal_id == principal_id)
}

/// Whether there is room for one more ceremony of a principal.
pub open spec fn room(pending: Map<u128, PendingCeremony>, principal_id: Uuid) -> bool {
    pending.len() < MAX_CEREMONIES && own_ceremonies(pending, principal_id).len()
        < MAX_OWN_CEREMONIES
}

/// Ceremonies of one kind that are under way.
pub struct Ceremonies {
    pub pending: Table<u128, PendingCeremony>,
}

/// Whether a ceremony is still young enough.
fn is_young(ceremony: &PendingCeremony, now: i128) -> (r: bool)
    ensures
        r == young(*ceremony, now),
{
    !has_passed(300_000_000_000, ceremony.created_at, now)
}

impl Ceremonies {
    pub open spec fn view(&self) -> Map<u128, PendingCeremony> {
        self.pending@
    }

    /// No ceremony is under way.
    pub fn new() -> (r: Ceremonies)
        ensures
            r@ == Map::<u128, PendingCeremony>::empty(),
    {
        Ceremonies { pending: Table::new() }
    }

    /// Forgets the ceremonies that have taken too long.
    fn forget_expired(&mut self, now: i128)
        ensures
            final(self)@ == young_ceremonies(old(self)@, now),
    {
        let ghost start = self.pending@;
        let ghost keys = self.pending.keys();
        let n: usize = self.pending.len();
        let mut expired: Vec<u128> = Vec::new();
        let mut i: usize = 0;
        while i < n
            invariant
                i <= n == keys.len(),
                keys == self.pending.keys(),
                keys.no_duplicates(),
                self.pending@ == start,
                forall|k: u128| start.contains_key(k) == #[trigger] keys.contains(k),
                forall|k: u128| #[trigger]
                    expired@.contains(k) == (keys.take(i as int).contains(k) && !young(
                        start[k],
                        now,
                    )),
            decreases n - i,
        {
            let key: u128 = *self.pending.key_at(i);
            let ceremony = self.pending.row_at(i);
            proof {
                lemma_one_more(keys, i as int);
            }
            let ghost before = expired@;
            if !is_young(ceremony, now) {
                expired.push(key);
                proof {
                    assert forall|k: u128| #[trigger]
                        expired@.contains(k) == (before.contains(k) || k == key) by {
                        if before.contains(k) {
                            let j = choose|j: int| 0 <= j < before.len() && before[j] == k;
                            assert(expired@[j] == k);
                        }
                        assert(expired@[before.len() as int] == key);
                    }
                }
            }
            i += 1;
        }
        assert(keys.take(n as int) =~= keys);
        let mut j: usize = 0;
        while j < expired.len()
            invariant
                j <= expired@.len(),
                forall|k: u128| #[trigger]
                    self.pending@.contains_key(k) == (start.contains_key(k) && !expired@.take(
                        j as int,
                    ).contains(k)),
                forall|k: u128| #[trigger]
                    self.pending@.contains_key(k) ==> self.pending@[k] == start[k],
            decreases expired@.len() - j,
        {
            let ghost before = expired@.take(j as int);
            let ghost after = expired@.take(j + 1);
            self.pending.remove(&expired[j]);
            proof {
                assert(after =~= before.push(expired@[j as int]));
                assert forall|k: u128| #[trigger]
                    after.contains(k) == (before.contains(k) || k == expired@[j as int]) by {
                    if before.contains(k) {
                        let m = choose|m: int| 0 <= m < before.len() && before[m] == k;
                        assert(after[m] == k);
                    }
                    assert(after[j as int] == expired@[j as int]);
                }
            }
            j += 1;
        }
        proof {
            assert(expired@.take(expired@.len() as int) =~= expired@);
            assert(self.pending@ =~= young_ceremonies(start, now));
        }
    }

    /// How many of the ceremonies are a principal's.
    fn count_own(&self, principal_id: Uuid) -> (count: usize)
        ensures
            count == own_ceremonies(self@, principal_id).len(),
    {
        let total: usize = self.pending.len();
        let ghost keys = self.pending.keys();
        let ghost mut found: Set<u128> = Set::empty();
        let mut count: usize = 0;
        let mut i: usize = 0;
        while i < total
            invariant
                i <= total == keys.len(),
                count <= i,
                keys == self.pending.keys(),
                keys.no_duplicates(),
                forall|k: u128| self.pending@.contains_key(k) == #[trigger] keys.contains(k),
                found.finite(),
                count == found.len(),
                forall|k: u128| #[trigger]
                    found.contains(k) == (keys.take(i as int).contains(k)
                        && self.pending@[k].principal_id == principal_id),
            decreases total - i,
        {
            let ceremony = self.pending.row_at(i);
            proof {
                lemma_one_more(keys, i as int);
            }
            if ceremony.principal_id == principal_id {
                count += 1;
                proof {
                    found = found.insert(keys[i as int]);
                }
            }
            i += 1;
        }
        assert(keys.take(total as int) =~= keys);
        assert(found =~= own_ceremonies(self@, principal_id));
        count
    }

    /// Begins a ceremony, where there is room for it once those that took too long are gone.
    pub fn begin(&mut self, id: Uuid, ceremony: PendingCeremony, now: i128) -> (r: Result<(), ApiError>)
        ensures
            old(self)@.dom().finite(),
            ({
                let kept = young_ceremonies(old(self)@, now);
                &&& r is Ok == room(kept, ceremony.principal_id)
                &&& r is Ok ==> final(self)@ == kept.insert(id, ceremony)
                &&& r matches Err(error) ==> final(self)@ == kept && error@ == rate_limited(
                    "too many active passkey ceremonies"@,
                )
            }),
    {
        let _n: usize = self.pending.len();
        self.forget_expired(now);
        let n: usize = self.pending.len();
        proof {
            self.pending.keys().unique_seq_to_set();
        }
        if n >= MAX_CEREMONIES || self.count_own(ceremony.principal_id) >= MAX_OWN_CEREMONIES {
            return Err(ApiError::rate_limited("too many active passkey ceremonies"));
        }
        self.pending.put(id, ceremony);
        Ok(())
    }

    /// Takes a ceremony, which is then gone, whatever comes of it. It has to be young enough.
    pub fn take(&mut self, id: Uuid, now: i128) -> (r: Option<PendingCeremony>)
        ensures
            final(self)@ == old(self)@.remove(id),
            r is Some == (old(self)@.contains_key(id) && young(old(self)@[id], now)),
            r matches Some(ceremony) ==> ceremony == old(self)@[id],
    {
        match self.pending.remove(&id) {
            Some(ceremony) => if is_young(&ceremony, now) {
                Some(ceremony)
            } else {
                None
            },
            None => None,
        }
    }
}

/// Whether somebody may register a passkey for a principal.
pub open spec fn may_register(actor: AuthenticatedPrincipal, principal_id: Uuid) -> bool {
    match actor {
        AuthenticatedPrincipal::Owner => true,
        AuthenticatedPrincipal::Human(p) => p.id == principal_id || p.may(Permission::TeamAdmin),
        AuthenticatedPrincipal::Service(p) => p.may(Permission::TeamAdmin),
        AuthenticatedPrincipal::Node(_) => false,
    }
}

/// Whether somebody may register a passkey for a principal.
pub fn passkey_registration_allowed(actor: &AuthenticatedPrincipal, principal_id: Uuid) -> (r: bool)
    ensures
        r == may_register(*actor, principal_id),
{
    match actor {
        AuthenticatedPrincipal::Owner => true,
        AuthenticatedPrincipal::Human(p) => p.id == principal_id || p.allows(Permission::TeamAdmin),
        AuthenticatedPrincipal::Service(p) => p.allows(Permission::TeamAdmin),
        AuthenticatedPrincipal::Node(_) => false,
    }
}

/// The ceremonies with passkeys that are under way.
pub struct PasskeyState {
    pub registrations: Ceremonies,
    pub authentications: Ceremonies,
}

/// Why no registration is begun, before there is a ceremony for it, where none is.
pub open spec fn registration_refusal(
    within_rate: bool,
    actor: AuthenticatedPrincipal,
    principal_id: Uuid,
    name: Seq<char>,
    known: bool,
    started: bool,
) -> Option<ErrorView> {
    if !within_rate {
        Some(rate_limited("too many authentication ceremonies"@))
    } else if !may_register(actor, principal_id) {
        Some(
            forbidden(
                "a principal may register its own passkey; team administrators may register others"@,
            ),
        )
    } else if is_blank(name) || encode_utf8(name).len() > 128 {
        Some(
            bad_request(
                "invalid_passkey_name"@,
                "passkey name must contain 1 to 128 characters"@,
            ),
        )
    } else if !known {
        Some(not_found("principal_not_found"@, "principal does not exist"@))
    } else if !started {
        Some(
            bad_request(
                "passkey_registration_failed"@,
                "unable to begin passkey registration"@,
            ),
        )
    } else {
        None
    }
}

/// Why no sign-in is begun, before there is a ceremony for it, where none is. Nobody is told which
/// names there are.
pub open spec fn login_refusal(
    within_rate: bool,
    principal: Option<Uuid>,
    passkeys: nat,
    started: bool,
) -> Option<ErrorView> {
    if !within_rate {
        Some(rate_limited("too many authentication ceremonies"@))
    } else if principal is None || passkeys == 0 || !started {
        Some(unauthorized("passkey authentication failed"@))
    } else {
        None
    }
}

impl PasskeyState {
    /// No ceremony is under way.
    pub fn new() -> (r: PasskeyState)
        ensures
            r.registrations@ == Map::<u128, PendingCeremony>::empty(),
            r.authentications@ == Map::<u128, PendingCeremony>::empty(),
    {
        PasskeyState { registrations: Ceremonies::new(), authentications: Ceremonies::new() }
    }

    /// Begins the registration of a passkey. Whether the rate is kept, whether the principal is known,
    /// and the challenge's state come from outside.
    pub fn begin_passkey_registration(
        &mut self,
        within_rate: bool,
        actor: &AuthenticatedPrincipal,
        principal_id: Uuid,
        name: String,
        known: bool,
        challenge: Option<String>,
        ceremony_id: Uuid,
        now: i128,
    ) -> (r: Result<u64, ApiError>)
        ensures
            final(self).authentications == old(self).authentications,
            ({
                let refusal = registration_refusal(
                    within_rate,
                    *actor,
                    principal_id,
                    name@,
                    known,
                    challenge is Some,
                );
                let kept = young_ceremonies(old(self).registrations@, now);
                &&& refusal is Some ==> r is Err && r->Err_0@ == refusal->0
                    && final(self).registrations == old(self).registrations
                &&& refusal is None && !room(kept, principal_id) ==> r is Err && r->Err_0@
                    == rate_limited("too many active passkey ceremonies"@)
                    && final(self).registrations@ == kept
                &&& refusal is None && room(kept, principal_id) ==> r is Ok && r->Ok_0
                    == CEREMONY_SECONDS && final(self).registrations@ == kept.insert(
                    ceremony_id,
                    PendingCeremony { principal_id, name, created_at: now, state: challenge->0 },
                )
            }),
    {
        if !within_rate {
            return Err(ApiError::rate_limited("too many authentication ceremonies"));
        }
        if !passkey_registration_allowed(actor, principal_id) {
            return Err(
                ApiError::forbidden(
                    "a principal may register its own passkey; team administrators may register others",
                ),
            );
        }
        if text::blank(name.as_str()) || text::byte_len(name.as_str()) > 128 {
            return Err(
                ApiError::bad_request(
                    "invalid_passkey_name",
                    "passkey name must contain 1 to 128 characters",
                ),
            );
        }
        if !known {
            return Err(ApiError::not_found("principal_not_found", "principal does not exist"));
        }
        let state: String = match challenge {
            Some(state) => state,
            None => return Err(
                ApiError::bad_request(
                    "passkey_registration_failed",
                    "unable to begin passkey registration",
                ),
            ),
        };
        match self.registrations.begin(
            ceremony_id,
            PendingCeremony { principal_id, name, created_at: now, state },
            now,
        ) {
            Ok(()) => Ok(CEREMONY_SECONDS),
            Err(error) => Err(error),
        }
    }

    /// Takes the registration that an authenticator answers. Whoever answers has to be allowed what
    /// was allowed when it began.
    pub fn finish_passkey_registration(
        &mut self,
        actor: &AuthenticatedPrincipal,
        ceremony_id: Uuid,
        now: i128,
    ) -> (r: Result<PendingCeremony, ApiError>)
        ensures
            final(self).authentications == old(self).authentications,
            final(self).registrations@ == old(self).registrations@.remove(ceremony_id),
            r is Ok == (old(self).registrations@.contains_key(ceremony_id) && young(
                old(self).registrations@[ceremony_id],
                now,
            ) && may_register(*actor, old(self).registrations@[ceremony_id].principal_id)),
            r matches Ok(ceremony) ==> ceremony == old(self).registrations@[ceremony_id],
            r matches Err(error) ==> error@ == bad_request(
                "passkey_ceremony_invalid"@,
                "passkey ceremony is missing, expired, or already used"@,
            ),
    {
        match self.registrations.take(ceremony_id, now) {
            Some(ceremony) => {
                if passkey_registration_allowed(actor, ceremony.principal_id) {
                    return Ok(ceremony);
                }
            },
            None => {},
        }
        Err(
            ApiError::bad_request(
                "passkey_ceremony_invalid",
                "passkey ceremony is missing, expired, or already used",
            ),
        )
    }

    /// Begins a sign-in with a passkey.
    pub fn begin_passkey_login(
        &mut self,
        within_rate: bool,
        principal: Option<Uuid>,
        passkeys: usize,
        challenge: Option<String>,
        ceremony_id: Uuid,
        now: i128,
    ) -> (r: Result<u64, ApiError>)
        ensures
            final(self).registrations == old(self).registrations,
            ({
                let refusal = login_refusal(
                    within_rate,
                    principal,
                    passkeys as nat,
                    challenge is Some,
                );
                let kept = young_ceremonies(old(self).authentications@, now);
                &&& refusal is Some ==> r is Err && r->Err_0@ == refusal->0
                    && final(self).authentications == old(self).authentications
                &&& refusal is None && !room(kept, principal->0) ==> r is Err && r->Err_0@
                    == rate_limited("too many active passkey ceremonies"@)
                    && final(self).authentications@ == kept
                &&& refusal is None && room(kept, principal->0) ==> {
                    &&& r is Ok && r->Ok_0 == CEREMONY_SECONDS
                    &&& final(self).authentications@.contains_key(ceremony_id)
                    &&& final(self).authentications@ == kept.insert(
                        ceremony_id,
                        final(self).authentications@[ceremony_id],
                    )
                    &&& final(self).authentications@[ceremony_id].principal_id == principal->0
                    &&& final(self).authentications@[ceremony_id].created_at == now
                    &&& final(self).authentications@[ceremony_id].state == challenge->0
                    &&& final(self).authentications@[ceremony_id].name@.len() == 0
                }
            }),
    {
        if !within_rate {
            return Err(ApiError::rate_limited("too many authentication ceremonies"));
        }
        let principal_id: Uuid = match principal {
            Some(id) => id,
            None => return Err(ApiError::unauthorized("passkey authentication failed")),
        };
        if passkeys == 0 {
            return Err(ApiError::unauthorized("passkey authentication failed"));
        }
        let state: String = match challenge {
            Some(state) => state,
            None => return Err(ApiError::unauthorized("passkey authentication failed")),
        };
        match self.authentications.begin(
            ceremony_id,
            PendingCeremony { principal_id, name: String::new(), created_at: now, state },
            now,
        ) {
            Ok(()) => Ok(CEREMONY_SECONDS),
            Err(error) => Err(error),
        }
    }

    /// Takes the sign-in that an authenticator answers.
    pub fn finish_passkey_login(&mut self, ceremony_id: Uuid, now: i128) -> (r: Result<
        PendingCeremony,
        ApiError,
    >)
        ensures
            final(self).registrations == old(self).registrations,
            final(self).authentications@ == old(self).authentications@.remove(ceremony_id),
            r is Ok == (old(self).authentications@.contains_key(ceremony_id) && young(
                old(self).authentications@[ceremony_id],
                now,
            )),
            r matches Ok(ceremony) ==> ceremony == old(self).authentications@[ceremony_id],
            r matches Err(error) ==> error@ == unauthorized("passkey authentication failed"@),
    {
        match self.authentications.take(ceremony_id, now) {
            Some(ceremony) => Ok(ceremony),
            None => Err(ApiError::unauthorized("passkey authentication failed")),
        }
    }
}

/// What a client is told where a passkey cannot be stored.
pub fn passkey_not_stored(error: RepositoryError) -> (r: ApiError)
    ensures
        r@ == (if error == RepositoryError::Conflict {
            bad_request("passkey_already_registered"@, "this credential is already registered"@)
        } else {
            internal()
        }),
{
    if error == RepositoryError::Conflict {
        ApiError::bad_request(
            "passkey_already_registered",
            "this credential is already registered",
        )
    } else {
        ApiError::internal()
    }
}

/// A passkey that the outside verification of an answer gave: its identifier, and its record as text.
pub struct VerifiedPasskey {
    pub credential_id: Vec<u8>,
    pub passkey: String,
}

/// Stores the passkey of a registration, where its answer was verified.
pub fn store_passkey(
    repository: &mut Repository,
    ceremony: PendingCeremony,
    verified: Option<VerifiedPasskey>,
    now: i128,
) -> (r: Result<(ClusterEvent, Json), ApiError>)
    ensures
        match verified {
            None => r is Err && r->Err_0@ == bad_request(
                "passkey_verification_failed"@,
                "passkey verification failed"@,
            ) && final(repository)@ == old(repository)@,
            Some(passkey) => {
                let key = credential_digest(passkey.credential_id@);
                if old(repository)@.passkeys.contains_key(key) {
                    r is Err && r->Err_0@ == bad_request(
                        "passkey_already_registered"@,
                        "this credential is already registered"@,
                    ) && final(repository)@ == old(repository)@
                } else {
                    &&& r is Ok
                    &&& r->Ok_0.0@ == event_of(
                        "principal.passkey_registered"@,
                        fields2(
                            ("principal_id"@, id_json(ceremony.principal_id)),
                            ("name"@, JsonView::Text(ceremony.name@)),
                        ),
                    )
                    &&& r->Ok_0.1@ == JsonView::Object(
                        fields2(
                            ("principal_id"@, id_json(ceremony.principal_id)),
                            ("name"@, JsonView::Text(ceremony.name@)),
                        ),
                    )
                    &&& final(repository)@ == logged(
                        RepositoryView {
                            passkeys: old(repository)@.passkeys.insert(
                                key,
                                PasskeyRow {
                                    principal_id: ceremony.principal_id,
                                    name: ceremony.name,
                                    passkey: passkey.passkey,
                                    created_at: now,
                                    last_used_at: None,
                                },
                            ),
                            ..old(repository)@
                        },
                        r->Ok_0.0@,
                        now,
                    )
                }
            },
        },
{
    let passkey = match verified {
        Some(passkey) => passkey,
        None => return Err(
            ApiError::bad_request("passkey_verification_failed", "passkey verification failed"),
        ),
    };
    let answer = Fields::new().id("principal_id", ceremony.principal_id).text(
        "name",
        ceremony.name.as_str(),
    ).object();
    match repository.put_passkey(
        passkey.credential_id.as_slice(),
        ceremony.principal_id,
        ceremony.name,
        passkey.passkey,
        now,
    ) {
        Ok(event) => Ok((event, answer)),
        Err(error) => Err(passkey_not_stored(error)),
    }
}

/// Signs a principal in whose answer was verified: a human who may act, with a passkey of that human's
/// own, which is kept as it stands after its use.
pub fn sign_in_with_passkey(
    repository: &mut Repository,
    principal_id: Uuid,
    verified: Option<VerifiedPasskey>,
    first: Uuid,
    second: Uuid,
    now: i128,
) -> (r: Result<IssuedSession, ApiError>)
    requires
        now <= LAST_MOMENT,
    ensures
        ({
            let before = old(repository)@;
            let after = final(repository)@;
            let own = verified is Some && passkey_of(
                before,
                credential_digest(verified->0.credential_id@),
                principal_id,
            );
            let key = credential_digest(verified->0.credential_id@);
            let used = RepositoryView {
                passkeys: before.passkeys.insert(
                    key,
                    PasskeyRow {
                        passkey: verified->0.passkey,
                        last_used_at: Some(now),
                        ..before.passkeys[key]
                    },
                ),
                ..before
            };
            let token = session_token(first, second);
            if !own {
                r is Err && r->Err_0@ == unauthorized("passkey authentication failed"@) && after
                    == before
            } else if before.sessions.contains_key(token_digest(token)) {
                r is Err && r->Err_0@ == internal() && after == used
            } else {
                &&& r is Ok
                &&& r->Ok_0.token@ == token
                &&& r->Ok_0.token_sha256@ == token_digest(token)
                &&& r->Ok_0.expires_at == now + SESSION_HOURS * 3_600 * SECOND
                &&& after == (RepositoryView {
                    sessions: before.sessions.insert(
                        token_digest(token),
                        Session {
                            principal_id,
                            created_at: now,
                            expires_at: r->Ok_0.expires_at,
                            last_used_at: now,
                        },
                    ),
                    ..used
                })
            }
        }),
{
    let passkey = match verified {
        Some(passkey) => passkey,
        None => return Err(ApiError::unauthorized("passkey authentication failed")),
    };
    if !repository.owns_passkey(passkey.credential_id.as_slice(), principal_id) {
        return Err(ApiError::unauthorized("passkey authentication failed"));
    }
    if repository.update_passkey_after_authentication(
        passkey.credential_id.as_slice(),
        passkey.passkey,
        now,
    ).is_err() {
        return Err(ApiError::internal());
    }
    let session = issue_browser_session(first, second, now);
    match repository.put_browser_session(
        session.token_sha256.clone(),
        principal_id,
        session.expires_at,
        now,
    ) {
        Ok(()) => Ok(session),
        Err(_) => Err(ApiError::internal()),
    }
}

/// There are never too many ceremonies of one principal: where there are fewer than five, one more
/// does not make six.
pub proof fn law_ceremonies_of_a_principal_are_bounded(
    pending: Map<u128, PendingCeremony>,
    id: u128,
    ceremony: PendingCeremony,
)
    requires
        pending.dom().finite(),
        room(pending, ceremony.principal_id),
    ensures
        own_ceremonies(pending.insert(id, ceremony), ceremony.principal_id).len()
            <= MAX_OWN_CEREMONIES,
{
    let own = own_ceremonies(pending, ceremony.principal_id);
    assert(own.subset_of(pending.dom()));
    vstd::set_lib::lemma_len_subset(own, pending.dom());
    assert(own_ceremonies(pending.insert(id, ceremony), ceremony.principal_id) =~= own.insert(id));
}

// ------------------------------------------------------------------------------------------------
// Sessions

/// A session that has just been issued. The token goes to the browser, its digest into the store.
pub struct IssuedSession {
    pub token: String,
    pub token_sha256: String,
    pub expires_at: i128,
}

/// The token of a session, made from two random identifiers.
pub open spec fn session_token(first: Uuid, second: Uuid) -> Seq<char> {
    "cst_session_"@ + base64url_encoded(big_endian(first) + big_endian(second))
}

/// Issues a session for a day.
pub fn issue_browser_session(first: Uuid, second: Uuid, now: i128) -> (r: IssuedSession)
    requires
        now <= LAST_MOMENT,
    ensures
        r.token@ == session_token(first, second),
        r.token_sha256@ == token_digest(r.token@),
        r.expires_at == now + SESSION_HOURS * 3_600 * SECOND,
{
    let token = text::join2("cst_session_", random_text(first, second).as_str());
    let token_sha256 = hex_of(sha256_of(token.as_str().as_bytes()).as_slice());
    IssuedSession { token, token_sha256, expires_at: now + 86_400 * SECOND }
}

/// A session that was issued to a human who may act signs that human in until it expires, and from
/// then on nobody.
pub proof fn law_an_issued_session_signs_in(
    v: RepositoryView,
    token: Seq<char>,
    session: Session,
    now: i128,
)
    requires
        active_human(v.principals, session.principal_id),
    ensures
        session_principal(
            RepositoryView {
                sessions: v.sessions.insert(token_digest(token), session),
                ..v
            },
            token_digest(token),
            now,
        ) == (if now < session.expires_at {
            Some(session.principal_id)
        } else {
            None
        }),
{
}

/// A ceremony lasts five minutes: what is forgotten is what took so long, and nothing else.
pub proof fn law_only_old_ceremonies_are_forgotten(
    pending: Map<u128, PendingCeremony>,
    id: u128,
    now: i128,
)
    requires
        pending.contains_key(id),
    ensures
        young_ceremonies(pending, now).contains_key(id) <==> now - pending[id].created_at
            < 300_000_000_000,
        young_ceremonies(pending, now).contains_key(id) ==> young_ceremonies(pending, now)[id]
            == pending[id],
{
}

/// There is room for another ceremony as long as fewer than 1024 are under way, and fewer than five of them
/// are the principal's own: those of others do not count against it.
pub proof fn law_ceremonies_have_room(
    pending: Map<u128, PendingCeremony>,
    principal_id: Uuid,
    other: Uuid,
)
    requires
        pending.dom().finite(),
    ensures
        room(pending, principal_id) <==> pending.dom().len() < 1_024 && own_ceremonies(
            pending,
            principal_id,
        ).len() < 5,
        (forall|k: u128| #[trigger] pending.contains_key(k) ==> pending[k].principal_id == other) && other
            != principal_id ==> own_ceremonies(pending, principal_id).len() == 0,
{
    if (forall|k: u128| #[trigger] pending.contains_key(k) ==> pending[k].principal_id == other) && other
        != principal_id {
        assert(own_ceremonies(pending, principal_id) =~= Set::<u128>::empty());
    }
}

/// A human registers their own passkey, and another's only as an administrator of teams; a service only as
/// one; a node never; and the owner may.
pub proof fn law_passkeys_are_registered_by_their_own(actor: AuthenticatedPrincipal, principal_id: Uuid)
    ensures
        actor is Owner ==> may_register(actor, principal_id),
        actor is Node ==> !may_register(actor, principal_id),
        actor matches AuthenticatedPrincipal::Human(human) ==> (may_register(actor, principal_id)
            <==> human.id == principal_id || human.allowed@.contains(Permission::TeamAdmin)),
        actor matches AuthenticatedPrincipal::Service(service) ==> (may_register(actor, principal_id)
            <==> service.allowed@.contains(Permission::TeamAdmin)),
{
}

/// A registration begins where all is in order: within the rate, by one who may, under a name of 1 to 128
/// bytes that says something, for a principal that is known. A login begins for a principal who has a
/// passkey; who that is stays hidden where it fails.
pub proof fn law_ceremonies_begin_where_all_is_in_order(
    within_rate: bool,
    actor: AuthenticatedPrincipal,
    principal_id: Uuid,
    name: Seq<char>,
    known: bool,
    started: bool,
    principal: Option<Uuid>,
    passkeys: nat,
    other_principal: Option<Uuid>,
    other_passkeys: nat,
)
    ensures
        registration_refusal(within_rate, actor, principal_id, name, known, started) is None
            <==> within_rate && may_register(actor, principal_id) && !is_blank(name) && encode_utf8(
            name,
        ).len() <= 128 && known && started,
        login_refusal(within_rate, principal, passkeys, started) is None <==> within_rate && principal
            is Some && passkeys > 0 && started,
        login_refusal(true, principal, passkeys, started) is Some && login_refusal(
            true,
            other_principal,
            other_passkeys,
            started,
        ) is Some ==> login_refusal(true, principal, passkeys, started) == login_refusal(
            true,
            other_principal,
            other_passkeys,
            started,
        ),
{
}

} // verus!
