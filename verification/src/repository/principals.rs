//! Principals, and how they prove who they are: keys, passkeys, sessions and external identities.

use crate::digest::{hex, hex_of, sha256, sha256_of};
use crate::ident::Uuid;
use crate::json::{fields1, fields2, fields3, id_json, Fields, JsonView};
use crate::names::{role_to_str, role_word, Role};
use crate::repository::events::logged;
use crate::repository::listings::{has_name, name_taken};
use crate::repository::{
    event, event_of, AuthProvider, ClusterEvent, PasskeyRow, PrincipalRow, Repository,
    RepositoryError, RepositoryView, Session, TeamRecord,
};
use crate::table::lemma_one_more;
use crate::text;
use vstd::prelude::*;

verus! {

/// Whether a role is a human's.
pub open spec fn human(role: Role) -> bool {
    role != Role::Node && role != Role::Service
}

/// Whether a role is a human's.
fn is_human(role: Role) -> (r: bool)
    ensures
        r == human(role),
{
    role != Role::Node && role != Role::Service
}

/// Whether a principal is a human who may act.
pub open spec fn active_human(principals: Map<u128, PrincipalRow>, id: u128) -> bool {
    &&& principals.contains_key(id)
    &&& principals[id].active
    &&& human(principals[id].role)
}

/// Whether a principal is a service that may act, under a key with this digest.
pub open spec fn active_service(principals: Map<u128, PrincipalRow>, id: u128, key: Seq<char>) -> bool {
    &&& principals.contains_key(id)
    &&& principals[id].active
    &&& principals[id].role == Role::Service
    &&& principals[id].api_key_sha256 matches Some(stored) && stored@ == key
}

/// The human that a session speaks for: it has not expired, and the human may act.
pub open spec fn session_principal(v: RepositoryView, token: Seq<char>, now: i128) -> Option<u128> {
    if v.sessions.contains_key(token) && v.sessions[token].expires_at > now && active_human(
        v.principals,
        v.sessions[token].principal_id,
    ) {
        Some(v.sessions[token].principal_id)
    } else {
        None
    }
}

/// The principal that an external identity is linked to, where it may act.
pub open spec fn linked_principal(v: RepositoryView, provider: u128, subject: Seq<char>) -> Option<u128> {
    let key = (provider, subject);
    if v.external_identities.contains_key(key) && v.principals.contains_key(
        v.external_identities[key],
    ) && v.principals[v.external_identities[key]].active {
        Some(v.external_identities[key])
    } else {
        None
    }
}

/// The principals after one of them was stored or changed: a key that is not given, and the date of
/// its creation, stay.
pub open spec fn with_principal(
    principals: Map<u128, PrincipalRow>,
    id: u128,
    row: PrincipalRow,
) -> Map<u128, PrincipalRow> {
    principals.insert(
        id,
        if principals.contains_key(id) {
            PrincipalRow {
                api_key_sha256: match row.api_key_sha256 {
                    Some(key) => Some(key),
                    None => principals[id].api_key_sha256,
                },
                created_at: principals[id].created_at,
                ..row
            }
        } else {
            row
        },
    )
}

/// The digest under which a passkey is stored.
pub open spec fn credential_digest(credential_id: Seq<u8>) -> Seq<char> {
    hex(sha256(credential_id))
}

/// Whether a passkey is one of a human who may act.
pub open spec fn passkey_of(v: RepositoryView, credential: Seq<char>, principal_id: u128) -> bool {
    &&& v.passkeys.contains_key(credential)
    &&& v.passkeys[credential].principal_id == principal_id
    &&& active_human(v.principals, principal_id)
}

/// A passkey with the digest under which it is stored.
pub struct StoredPasskey {
    pub credential_sha256: String,
    pub passkey: String,
    pub created_at: i128,
}

impl Repository {
    /// Stores a principal, or changes it.
    pub fn put_principal(&mut self, id: Uuid, principal: PrincipalRow, now: i128) -> (e: ClusterEvent)
        ensures
            final(self)@ == logged(
                RepositoryView {
                    principals: with_principal(old(self)@.principals, id, principal),
                    ..old(self)@
                },
                e@,
                now,
            ),
            e@ == event_of(
                "principal.updated"@,
                fields3(
                    ("principal_id"@, id_json(id)),
                    ("role"@, JsonView::Text(role_word(principal.role))),
                    ("active"@, JsonView::Bool(principal.active)),
                ),
            ),
    {
        let e = event(
            "principal.updated",
            Fields::new().id("principal_id", id).text("role", role_to_str(principal.role)).flag(
                "active",
                principal.active,
            ),
        );
        let row = match self.principals.get(&id) {
            Some(known) => PrincipalRow {
                name: principal.name,
                role: principal.role,
                scopes: principal.scopes,
                api_key_sha256: match principal.api_key_sha256 {
                    Some(key) => Some(key),
                    None => match &known.api_key_sha256 {
                        Some(key) => Some(key.clone()),
                        None => None,
                    },
                },
                active: principal.active,
                created_at: known.created_at,
            },
            None => principal,
        };
        self.principals.put(id, row);
        self.record(e, now)
    }

    /// A human who may act.
    pub fn principal(&self, id: Uuid) -> (r: Option<&PrincipalRow>)
        ensures
            r is Some == active_human(self@.principals, id),
            r matches Some(row) ==> *row == self@.principals[id],
    {
        match self.principals.get(&id) {
            Some(row) => if row.active && is_human(row.role) {
                Some(row)
            } else {
                None
            },
            None => None,
        }
    }

    /// A human who may act, by the name with which to sign in.
    pub fn principal_by_name(&self, name: &str) -> (r: Option<Uuid>)
        ensures
            r is Some == exists|id: u128| #[trigger]
                active_human(self@.principals, id) && self@.principals[id].name@ == name@,
            r matches Some(id) ==> active_human(self@.principals, id) && self@.principals[id].name@
                == name@,
    {
        let n: usize = self.principals.len();
        let ghost keys = self.principals.keys();
        let mut i: usize = 0;
        while i < n
            invariant
                i <= n == keys.len(),
                keys == self.principals.keys(),
                forall|k: u128| self.principals@.contains_key(k) == #[trigger] keys.contains(k),
                forall|j: int|
                    0 <= j < i ==> !(active_human(self@.principals, #[trigger] keys[j])
                        && self@.principals[keys[j]].name@ == name@),
            decreases n - i,
        {
            let id: u128 = *self.principals.key_at(i);
            let row = self.principals.row_at(i);
            assert(keys.contains(keys[i as int]));
            if row.active && is_human(row.role) && text::same(row.name.as_str(), name) {
                assert(active_human(self@.principals, id));
                return Some(id);
            }
            i += 1;
        }
        proof {
            assert forall|id: u128| #[trigger] active_human(self@.principals, id) implies
                self@.principals[id].name@ != name@ by {
                assert(keys.contains(id));
                let j = choose|j: int| 0 <= j < keys.len() && keys[j] == id;
                assert(active_human(self@.principals, keys[j]));
            }
        }
        None
    }

    /// A service that may act, by the digest of its key.
    pub fn service_principal_by_key_hash(&self, key_sha256: &str) -> (r: Option<Uuid>)
        ensures
            r is Some == exists|id: u128| #[trigger]
                active_service(self@.principals, id, key_sha256@),
            r matches Some(id) ==> active_service(self@.principals, id, key_sha256@),
    {
        let n: usize = self.principals.len();
        let ghost keys = self.principals.keys();
        let mut i: usize = 0;
        while i < n
            invariant
                i <= n == keys.len(),
                keys == self.principals.keys(),
                forall|k: u128| self.principals@.contains_key(k) == #[trigger] keys.contains(k),
                forall|j: int|
                    0 <= j < i ==> !active_service(
                        self@.principals,
                        #[trigger] keys[j],
                        key_sha256@,
                    ),
            decreases n - i,
        {
            let id: u128 = *self.principals.key_at(i);
            let row = self.principals.row_at(i);
            assert(keys.contains(keys[i as int]));
            let matching: bool = match &row.api_key_sha256 {
                Some(stored) => text::same(stored.as_str(), key_sha256),
                None => false,
            };
            if row.active && row.role == Role::Service && matching {
                assert(active_service(self@.principals, id, key_sha256@));
                return Some(id);
            }
            i += 1;
        }
        proof {
            assert forall|id: u128| !#[trigger] active_service(
                self@.principals,
                id,
                key_sha256@,
            ) by {
                if active_service(self@.principals, id, key_sha256@) {
                    assert(keys.contains(id));
                    let j = choose|j: int| 0 <= j < keys.len() && keys[j] == id;
                    assert(active_service(self@.principals, keys[j], key_sha256@));
                }
            }
        }
        None
    }

    /// The passkeys of a human who may act, the oldest first.
    pub fn passkeys_for_principal(&self, principal_id: Uuid) -> (found: Vec<StoredPasskey>)
        ensures
            forall|i: int|
                0 <= i < found@.len() ==> {
                    let key = (#[trigger] found@[i]).credential_sha256@;
                    &&& passkey_of(self@, key, principal_id)
                    &&& found@[i].passkey@ == self@.passkeys[key].passkey@
                    &&& found@[i].created_at == self@.passkeys[key].created_at
                },
            forall|k: Seq<char>| #[trigger]
                passkey_of(self@, k, principal_id) ==> exists|i: int|
                    0 <= i < found@.len() && (#[trigger] found@[i]).credential_sha256@ == k,
            forall|i: int, j: int|
                0 <= i < j < found@.len() ==> found@[i].created_at <= found@[j].created_at
                    && found@[i].credential_sha256@ != found@[j].credential_sha256@,
    {
        let mut found: Vec<StoredPasskey> = Vec::new();
        if self.principal(principal_id).is_none() {
            return found;
        }
        let n: usize = self.passkeys.len();
        let ghost keys = self.passkeys.keys();
        let mut i: usize = 0;
        while i < n
            invariant
                i <= n == keys.len(),
                keys == self.passkeys.keys(),
                keys.no_duplicates(),
                active_human(self@.principals, principal_id),
                forall|k: Seq<char>| self.passkeys@.contains_key(k) == #[trigger] keys.contains(k),
                forall|a: int|
                    0 <= a < found@.len() ==> {
                        let key = (#[trigger] found@[a]).credential_sha256@;
                        &&& passkey_of(self@, key, principal_id)
                        &&& keys.take(i as int).contains(key)
                        &&& found@[a].passkey@ == self@.passkeys[key].passkey@
                        &&& found@[a].created_at == self@.passkeys[key].created_at
                    },
                forall|k: Seq<char>| #[trigger]
                    keys.take(i as int).contains(k) && passkey_of(self@, k, principal_id)
                        ==> exists|a: int|
                        0 <= a < found@.len() && (#[trigger] found@[a]).credential_sha256@ == k,
                forall|a: int, b: int|
                    0 <= a < b < found@.len() ==> found@[a].created_at <= found@[b].created_at
                        && found@[a].credential_sha256@ != found@[b].credential_sha256@,
            decreases n - i,
        {
            let key: &String = self.passkeys.key_at(i);
            let row = self.passkeys.row_at(i);
            proof {
                lemma_one_more(keys, i as int);
                assert(keys.contains(keys[i as int]));
            }
            let ghost before = found@;
            if row.principal_id == principal_id {
                let entry = StoredPasskey {
                    credential_sha256: key.clone(),
                    passkey: row.passkey.clone(),
                    created_at: row.created_at,
                };
                let at: usize = place_of(&found, entry.created_at);
                found.insert(at, entry);
                proof {
                    let after = found@;
                    assert(after == before.insert(at as int, entry));
                    assert forall|a: int| 0 <= a < after.len() implies {
                        let k = (#[trigger] after[a]).credential_sha256@;
                        &&& passkey_of(self@, k, principal_id)
                        &&& keys.take(i + 1).contains(k)
                        &&& after[a].passkey@ == self@.passkeys[k].passkey@
                        &&& after[a].created_at == self@.passkeys[k].created_at
                    } by {
                        if a < at {
                            assert(after[a] == before[a]);
                        } else if a > at {
                            assert(after[a] == before[a - 1]);
                        }
                    }
                    assert forall|a: int, b: int| 0 <= a < b < after.len() implies after[a].created_at
                        <= after[b].created_at && after[a].credential_sha256@
                        != after[b].credential_sha256@ by {
                        let a2 = if a < at {
                            a
                        } else {
                            a - 1
                        };
                        let b2 = if b < at {
                            b
                        } else {
                            b - 1
                        };
                        if a != at {
                            assert(after[a] == before[a2]);
                        }
                        if b != at {
                            assert(after[b] == before[b2]);
                        }
                    }
                    assert forall|k: Seq<char>| #[trigger]
                        keys.take(i + 1).contains(k) && passkey_of(self@, k, principal_id) implies
                        exists|a: int|
                        0 <= a < after.len() && (#[trigger] after[a]).credential_sha256@ == k by {
                        if k == keys[i as int] {
                            assert(after[at as int].credential_sha256@ == k);
                        } else {
                            assert(keys.take(i as int).contains(k));
                            let a = choose|a: int|
                                0 <= a < before.len() && (#[trigger] before[a]).credential_sha256@
                                    == k;
                            if a < at {
                                assert(after[a] == before[a]);
                            } else {
                                assert(after[a + 1] == before[a]);
                            }
                        }
                    }
                }
            } else {
                assert(!passkey_of(self@, keys[i as int], principal_id));
            }
            i += 1;
        }
        proof {
            assert(keys.take(n as int) =~= keys);
            assert forall|k: Seq<char>| #[trigger] passkey_of(self@, k, principal_id) implies
                exists|i: int|
                0 <= i < found@.len() && (#[trigger] found@[i]).credential_sha256@ == k by {
                assert(keys.take(n as int).contains(k));
            }
        }
        found
    }

    /// Stores a verified passkey under the digest of its identifier, which has to be new: no passkey
    /// serves two principals.
    pub fn put_passkey(
        &mut self,
        credential_id: &[u8],
        principal_id: Uuid,
        name: String,
        passkey: String,
        now: i128,
    ) -> (r: Result<ClusterEvent, RepositoryError>)
        ensures
            r is Err == old(self)@.passkeys.contains_key(credential_digest(credential_id@)),
            r matches Err(error) ==> error == RepositoryError::Conflict && final(self)@
                == old(self)@,
            r matches Ok(e) ==> e@ == event_of(
                "principal.passkey_registered"@,
                fields2(
                    ("principal_id"@, id_json(principal_id)),
                    ("name"@, JsonView::Text(name@)),
                ),
            ) && final(self)@ == logged(
                RepositoryView {
                    passkeys: old(self)@.passkeys.insert(
                        credential_digest(credential_id@),
                        PasskeyRow {
                            principal_id,
                            name,
                            passkey,
                            created_at: now,
                            last_used_at: None,
                        },
                    ),
                    ..old(self)@
                },
                e@,
                now,
            ),
    {
        let key = hex_of(sha256_of(credential_id).as_slice());
        if self.passkeys.contains(&key) {
            return Err(RepositoryError::Conflict);
        }
        let e = event(
            "principal.passkey_registered",
            Fields::new().id("principal_id", principal_id).text("name", name.as_str()),
        );
        self.passkeys.put(
            key,
            PasskeyRow { principal_id, name, passkey, created_at: now, last_used_at: None },
        );
        Ok(self.record(e, now))
    }

    /// Whether a passkey is a principal's own, who is a human that may act.
    pub fn owns_passkey(&self, credential_id: &[u8], principal_id: Uuid) -> (r: bool)
        ensures
            r == passkey_of(self@, credential_digest(credential_id@), principal_id),
    {
        let key = hex_of(sha256_of(credential_id).as_slice());
        match self.passkeys.get(&key) {
            Some(row) => row.principal_id == principal_id && self.principal(principal_id).is_some(),
            None => false,
        }
    }

    /// Stores how an authenticator stands after it was used.
    pub fn update_passkey_after_authentication(
        &mut self,
        credential_id: &[u8],
        passkey: String,
        now: i128,
    ) -> (r: Result<(), RepositoryError>)
        ensures
            r is Ok == old(self)@.passkeys.contains_key(credential_digest(credential_id@)),
            r matches Err(error) ==> error == RepositoryError::Missing && final(self)@
                == old(self)@,
            r is Ok ==> final(self)@ == (RepositoryView {
                passkeys: old(self)@.passkeys.insert(
                    credential_digest(credential_id@),
                    PasskeyRow {
                        passkey,
                        last_used_at: Some(now),
                        ..old(self)@.passkeys[credential_digest(credential_id@)]
                    },
                ),
                ..old(self)@
            }),
    {
        let key = hex_of(sha256_of(credential_id).as_slice());
        match self.passkeys.get_mut(&key) {
            Some(row) => {
                row.passkey = passkey;
                row.last_used_at = Some(now);
                Ok(())
            },
            None => Err(RepositoryError::Missing),
        }
    }

    /// Stores a session under the digest of its token; the token itself is not kept.
    pub fn put_browser_session(
        &mut self,
        token_sha256: String,
        principal_id: Uuid,
        expires_at: i128,
        now: i128,
    ) -> (r: Result<(), RepositoryError>)
        ensures
            r is Err == old(self)@.sessions.contains_key(token_sha256@),
            r matches Err(error) ==> error == RepositoryError::Conflict && final(self)@
                == old(self)@,
            r is Ok ==> final(self)@ == (RepositoryView {
                sessions: old(self)@.sessions.insert(
                    token_sha256@,
                    Session { principal_id, created_at: now, expires_at, last_used_at: now },
                ),
                ..old(self)@
            }),
    {
        if self.sessions.contains(&token_sha256) {
            return Err(RepositoryError::Conflict);
        }
        self.sessions.put(
            token_sha256,
            Session { principal_id, created_at: now, expires_at, last_used_at: now },
        );
        Ok(())
    }

    /// The human that a session speaks for; the session is marked as used.
    pub fn principal_by_session_hash(&mut self, token_sha256: &str, now: i128) -> (r: Option<Uuid>)
        ensures
            r == session_principal(old(self)@, token_sha256@, now),
            r is None ==> final(self)@ == old(self)@,
            r is Some ==> final(self)@ == (RepositoryView {
                sessions: old(self)@.sessions.insert(
                    token_sha256@,
                    Session { last_used_at: now, ..old(self)@.sessions[token_sha256@] },
                ),
                ..old(self)@
            }),
    {
        let key = text::owned(token_sha256);
        let id: Uuid = match self.sessions.get(&key) {
            Some(session) => if session.expires_at > now {
                session.principal_id
            } else {
                return None;
            },
            None => return None,
        };
        if self.principal(id).is_none() {
            return None;
        }
        if let Some(session) = self.sessions.get_mut(&key) {
            session.last_used_at = now;
        }
        Some(id)
    }

    /// Stores a team under a name that no other has.
    pub fn create_team(&mut self, id: Uuid, name: String, now: i128) -> (r: Result<
        ClusterEvent,
        RepositoryError,
    >)
        ensures
            r is Err == (old(self)@.teams.contains_key(id) || has_name(old(self)@.teams, name@)),
            r matches Err(error) ==> error == RepositoryError::Conflict && final(self)@
                == old(self)@,
            r matches Ok(e) ==> e@ == event_of(
                "team.created"@,
                fields1(("team_id"@, id_json(id))),
            ) && final(self)@ == logged(
                RepositoryView {
                    teams: old(self)@.teams.insert(id, TeamRecord { name, created_at: now }),
                    ..old(self)@
                },
                e@,
                now,
            ),
    {
        if self.teams.contains(&id) || name_taken(&self.teams, name.as_str()) {
            return Err(RepositoryError::Conflict);
        }
        self.teams.put(id, TeamRecord { name, created_at: now });
        let e = event("team.created", Fields::new().id("team_id", id));
        Ok(self.record(e, now))
    }

    /// Stores who belongs to a team, and as what.
    pub fn put_team_membership(
        &mut self,
        team_id: Uuid,
        principal_id: Uuid,
        role: Role,
        now: i128,
    ) -> (e: ClusterEvent)
        ensures
            final(self)@ == logged(
                RepositoryView {
                    memberships: old(self)@.memberships.insert((team_id, principal_id), role),
                    ..old(self)@
                },
                e@,
                now,
            ),
            e@ == event_of(
                "team.membership_updated"@,
                fields3(
                    ("team_id"@, id_json(team_id)),
                    ("principal_id"@, id_json(principal_id)),
                    ("role"@, JsonView::Text(role_word(role))),
                ),
            ),
    {
        self.memberships.put((team_id, principal_id), role);
        let e = event(
            "team.membership_updated",
            Fields::new().id("team_id", team_id).id("principal_id", principal_id).text(
                "role",
                role_to_str(role),
            ),
        );
        self.record(e, now)
    }

    /// Stores an external authentication provider, or changes it.
    pub fn put_auth_provider(&mut self, id: Uuid, provider: AuthProvider, now: i128) -> (e: ClusterEvent)
        ensures
            final(self)@ == logged(
                RepositoryView {
                    auth_providers: old(self)@.auth_providers.insert(id, provider),
                    ..old(self)@
                },
                e@,
                now,
            ),
            e@ == event_of(
                "auth_provider.updated"@,
                fields3(
                    ("provider_id"@, id_json(id)),
                    ("kind"@, JsonView::Text(provider.kind@)),
                    ("enabled"@, JsonView::Bool(provider.enabled)),
                ),
            ),
    {
        let e = event(
            "auth_provider.updated",
            Fields::new().id("provider_id", id).text("kind", provider.kind.as_str()).flag(
                "enabled",
                provider.enabled,
            ),
        );
        self.auth_providers.put(id, provider);
        self.record(e, now)
    }

    /// Links the digest of a provider's subject to a principal.
    pub fn put_external_identity(
        &mut self,
        provider_id: Uuid,
        subject_sha256: String,
        principal_id: Uuid,
        now: i128,
    ) -> (e: ClusterEvent)
        ensures
            final(self)@ == logged(
                RepositoryView {
                    external_identities: old(self)@.external_identities.insert(
                        (provider_id, subject_sha256@),
                        principal_id,
                    ),
                    ..old(self)@
                },
                e@,
                now,
            ),
            e@ == event_of(
                "external_identity.linked"@,
                fields2(
                    ("provider_id"@, id_json(provider_id)),
                    ("principal_id"@, id_json(principal_id)),
                ),
            ),
    {
        self.external_identities.put((provider_id, subject_sha256), principal_id);
        let e = event(
            "external_identity.linked",
            Fields::new().id("provider_id", provider_id).id("principal_id", principal_id),
        );
        self.record(e, now)
    }

    /// The principal that a verified external subject is linked to.
    pub fn principal_by_external_identity(&self, provider_id: Uuid, subject_sha256: &str) -> (r:
        Option<Uuid>)
        ensures
            r == linked_principal(self@, provider_id, subject_sha256@),
    {
        match self.external_identities.get(&(provider_id, text::owned(subject_sha256))) {
            Some(id) => match self.principals.get(id) {
                Some(row) => if row.active {
                    Some(*id)
                } else {
                    None
                },
                None => None,
            },
            None => None,
        }
    }
}

/// Where a passkey of this age belongs: after all that are as old or older.
fn place_of(found: &Vec<StoredPasskey>, created_at: i128) -> (at: usize)
    requires
        forall|a: int, b: int|
            0 <= a < b < found@.len() ==> found@[a].created_at <= found@[b].created_at,
    ensures
        at <= found@.len(),
        forall|a: int| 0 <= a < at ==> (#[trigger] found@[a]).created_at <= created_at,
        forall|a: int| at <= a < found@.len() ==> created_at < (#[trigger] found@[a]).created_at,
{
    let mut at: usize = found.len();
    while at > 0
        invariant
            at <= found@.len(),
            forall|a: int| at <= a < found@.len() ==> created_at < (#[trigger] found@[a]).created_at,
        ensures
            at <= found@.len(),
            forall|a: int| at <= a < found@.len() ==> created_at < (#[trigger] found@[a]).created_at,
            at > 0 ==> found@[at - 1].created_at <= created_at,
        decreases at,
    {
        if found[at - 1].created_at <= created_at {
            break;
        }
        at -= 1;
    }
    at
}

/// A session speaks for nobody from the moment of its expiry on.
pub proof fn law_sessions_expire(v: RepositoryView, token: Seq<char>, now: i128)
    requires
        v.sessions.contains_key(token),
        v.sessions[token].expires_at <= now,
    ensures
        session_principal(v, token, now) is None,
{
}

/// A session speaks for nobody but a human who may act.
pub proof fn law_sessions_are_for_humans(v: RepositoryView, token: Seq<char>, now: i128)
    requires
        session_principal(v, token, now) is Some,
    ensures
        ({
            let row = v.principals[session_principal(v, token, now)->0];
            row.active && row.role != Role::Node && row.role != Role::Service
        }),
{
}

/// A principal that was deactivated can no longer act: not by session, not by name, not by key, and
/// not by external identity.
pub proof fn law_a_deactivated_principal_cannot_act(
    v: RepositoryView,
    id: u128,
    row: PrincipalRow,
    token: Seq<char>,
    key: Seq<char>,
    provider: u128,
    subject: Seq<char>,
    now: i128,
)
    requires
        !row.active,
    ensures
        ({
            let after = RepositoryView {
                principals: with_principal(v.principals, id, row),
                ..v
            };
            &&& session_principal(after, token, now) != Some(id)
            &&& !active_human(after.principals, id)
            &&& !active_service(after.principals, id, key)
            &&& linked_principal(after, provider, subject) != Some(id)
        }),
{
}

/// The same subject under two providers is two identities: a link at one leaves the other as it is.
pub proof fn law_identities_are_scoped_to_their_provider(
    v: RepositoryView,
    provider: u128,
    other: u128,
    subject: Seq<char>,
    principal: u128,
)
    requires
        provider != other,
    ensures
        linked_principal(
            RepositoryView {
                external_identities: v.external_identities.insert((provider, subject), principal),
                ..v
            },
            other,
            subject,
        ) == linked_principal(v, other, subject),
{
}

/// A principal that was stored is as it was given; a key that is not given stays, and so does the date of its
/// creation; no other principal is touched.
pub proof fn law_a_stored_principal_keeps_its_key(
    principals: Map<u128, PrincipalRow>,
    id: u128,
    row: PrincipalRow,
    other: u128,
)
    ensures
        ({
            let after = with_principal(principals, id, row);
            &&& after.contains_key(id)
            &&& after[id].name == row.name
            &&& after[id].role == row.role
            &&& after[id].scopes == row.scopes
            &&& after[id].active == row.active
            &&& row.api_key_sha256 is Some ==> after[id].api_key_sha256 == row.api_key_sha256
            &&& principals.contains_key(id) ==> {
                &&& after[id].created_at == principals[id].created_at
                &&& row.api_key_sha256 is None ==> after[id].api_key_sha256
                    == principals[id].api_key_sha256
            }
            &&& !principals.contains_key(id) ==> after[id] == row
            &&& other != id ==> after.contains_key(other) == principals.contains_key(other)
                && after[other] == principals[other]
        }),
{
}

/// A session speaks for the human that it was made for, until it expires, and for nobody else; that it is
/// used changes nothing of that.
pub proof fn law_a_session_speaks_for_its_human(
    v: RepositoryView,
    token: Seq<char>,
    session: Session,
    other: Seq<char>,
    now: i128,
    used_at: i128,
)
    requires
        active_human(v.principals, session.principal_id),
        other != token,
    ensures
        ({
            let after = RepositoryView { sessions: v.sessions.insert(token, session), ..v };
            let used = RepositoryView {
                sessions: after.sessions.insert(
                    token,
                    Session { last_used_at: used_at, ..session },
                ),
                ..after
            };
            &&& now < session.expires_at ==> session_principal(after, token, now) == Some(
                session.principal_id,
            )
            &&& now >= session.expires_at ==> session_principal(after, token, now) is None
            &&& session_principal(after, other, now) == session_principal(v, other, now)
            &&& session_principal(used, token, now) == session_principal(after, token, now)
        }),
{
}

/// A key opens for the service that it belongs to, while that may act; it is no way in for a human, and no
/// human's way in is one for a service.
pub proof fn law_keys_are_for_services(
    principals: Map<u128, PrincipalRow>,
    id: u128,
    key: Seq<char>,
    other_key: Seq<char>,
)
    ensures
        active_service(principals, id, key) ==> !active_human(principals, id),
        active_service(principals, id, key) && active_service(principals, id, other_key) ==> key
            == other_key,
        active_service(principals, id, key) ==> principals[id].active && principals[id].role
            == Role::Service,
        active_human(principals, id) ==> principals[id].active && principals[id].role != Role::Service
            && principals[id].role != Role::Node,
{
}

/// An external identity that was linked is the principal's that it was linked to, while that may act.
pub proof fn law_a_linked_identity_is_its_principals(
    v: RepositoryView,
    provider: u128,
    subject: Seq<char>,
    principal: u128,
    other_subject: Seq<char>,
)
    requires
        other_subject != subject,
    ensures
        ({
            let after = RepositoryView {
                external_identities: v.external_identities.insert((provider, subject), principal),
                ..v
            };
            &&& v.principals.contains_key(principal) && v.principals[principal].active
                ==> linked_principal(after, provider, subject) == Some(principal)
            &&& !v.principals.contains_key(principal) || !v.principals[principal].active
                ==> linked_principal(after, provider, subject) is None
            &&& linked_principal(after, provider, other_subject) == linked_principal(
                v,
                provider,
                other_subject,
            )
        }),
{
}

} // verus!
