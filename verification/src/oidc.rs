//! Signing in through an external provider with OpenID Connect: the ceremonies that are under way, and
//! what a verified token has to say.

use crate::clock::{has_passed, SECOND};
use crate::digest::{base64url_decode, base64url_decoded, hex, hex_of, sha256, sha256_of};
use crate::ident::{big_endian, lemma_big_endian_is_injective, uuid_bytes, Uuid};
use crate::json::{is_json, json_document, json_texts_at, optional_views, texts_at};
use crate::table::Table;
use crate::text;
use crate::text::{split_at_each, str_views};
use vstd::prelude::*;
use vstd::utf8::encode_utf8;

verus! {

/// How long a ceremony may take.
pub const CEREMONY_TTL_SECONDS: u64 = 300;

/// How many ceremonies may be under way.
pub const MAX_PENDING_CEREMONIES: usize = 1_024;

/// A provider, as far as a ceremony asks.
pub struct OidcProvider {
    pub id: Uuid,
    pub enabled: bool,
    /// Whether the provider speaks OpenID Connect.
    pub is_oidc: bool,
    /// The groups one of which is needed; anybody may sign in where there are none.
    pub allowed_groups: Vec<String>,
}

/// A ceremony that waits for the browser to come back.
pub struct PendingAuthorization {
    pub provider_id: Uuid,
    pub pkce_verifier: String,
    pub nonce: String,
    /// When it began, on a clock that never goes back.
    pub created_at: i128,
}

/// What the browser is sent away with.
pub struct AuthorizationStart {
    /// Where the provider asks for consent.
    pub authorization_url: String,
    /// How long the ceremony may take.
    pub expires_in_seconds: u64,
}

/// An identity that a provider vouches for and that the group policy lets in. The subject itself is
/// not kept.
pub struct VerifiedIdentity {
    pub provider_id: Uuid,
    pub subject_sha256: String,
}

/// Why a ceremony fails.
#[derive(Clone, Copy, Debug, PartialEq, Eq, Structural)]
pub enum OidcError {
    /// The provider is disabled or speaks another protocol.
    Unsupported,
    /// Too many ceremonies are under way.
    TooMany,
    /// What the browser brings back is out of bounds.
    Bounds,
    /// There is no such ceremony, or it has been used.
    Absent,
    /// The ceremony took too long, or it was another provider's.
    Expired,
    /// The token has no payload.
    NoPayload,
    /// The payload is not base64url.
    MalformedPayload,
    /// The payload is not JSON.
    MalformedClaims,
    /// The provider did not say which groups the subject is in.
    NoGroups,
    /// The subject is in none of the groups.
    Rejected,
}

/// A ceremony as the provider's client library has prepared it.
pub struct PreparedAuthorization {
    pub authorization_url: String,
    /// The state by which the ceremony is found again.
    pub state: String,
    pub pkce_verifier: String,
    pub nonce: String,
}

/// Whether a ceremony is still young enough.
pub open spec fn fresh(ceremony: PendingAuthorization, now: i128) -> bool {
    now - ceremony.created_at < CEREMONY_TTL_SECONDS * SECOND
}

/// The ceremonies that are still young enough.
pub open spec fn fresh_ceremonies(pending: Map<Seq<char>, PendingAuthorization>, now: i128) -> Map<
    Seq<char>,
    PendingAuthorization,
> {
    Map::new(
        |k: Seq<char>| pending.contains_key(k) && fresh(pending[k], now),
        |k: Seq<char>| pending[k],
    )
}

/// The ceremonies that are under way.
pub struct OidcState {
    pub pending: Table<String, PendingAuthorization>,
}

/// Whether a ceremony is still young enough.
fn is_fresh(ceremony: &PendingAuthorization, now: i128) -> (r: bool)
    ensures
        r == fresh(*ceremony, now),
{
    !has_passed(300_000_000_000, ceremony.created_at, now)
}

/// Checks that a provider is enabled and speaks OpenID Connect.
pub fn require_oidc(provider: &OidcProvider) -> (r: Result<(), OidcError>)
    ensures
        r is Ok == (provider.enabled && provider.is_oidc),
        r matches Err(error) ==> error == OidcError::Unsupported,
{
    if !provider.enabled || !provider.is_oidc {
        Err(OidcError::Unsupported)
    } else {
        Ok(())
    }
}

impl OidcState {
    pub open spec fn view(&self) -> Map<Seq<char>, PendingAuthorization> {
        self.pending@
    }

    /// No ceremony is under way.
    pub fn new() -> (r: OidcState)
        ensures
            r@ == Map::<Seq<char>, PendingAuthorization>::empty(),
    {
        OidcState { pending: Table::new() }
    }

    /// Forgets the ceremonies that have taken too long.
    fn forget_expired(&mut self, now: i128)
        ensures
            final(self)@ == fresh_ceremonies(old(self)@, now),
    {
        let ghost start = self.pending@;
        let ghost keys = self.pending.keys();
        let n: usize = self.pending.len();
        let mut expired: Vec<String> = Vec::new();
        let mut i: usize = 0;
        while i < n
            invariant
                i <= n == keys.len(),
                keys == self.pending.keys(),
                self.pending@ == start,
                forall|k: Seq<char>| start.contains_key(k) == #[trigger] keys.contains(k),
                forall|j: int|
                    0 <= j < expired@.len() ==> start.contains_key((#[trigger] expired@[j])@)
                        && !fresh(start[expired@[j]@], now),
                forall|j: int|
                    0 <= j < i && !fresh(start[#[trigger] keys[j]], now) ==> exists|m: int|
                        0 <= m < expired@.len() && (#[trigger] expired@[m])@ == keys[j],
            decreases n - i,
        {
            let ceremony = self.pending.row_at(i);
            assert(keys.contains(keys[i as int]));
            let ghost before = expired@;
            if !is_fresh(ceremony, now) {
                expired.push(self.pending.key_at(i).clone());
                proof {
                    assert(expired@[before.len() as int]@ == keys[i as int]);
                    assert forall|j: int|
                        0 <= j < i + 1 && !fresh(start[#[trigger] keys[j]], now) implies exists|
                        m: int,
                    |
                        0 <= m < expired@.len() && (#[trigger] expired@[m])@ == keys[j] by {
                        if j < i {
                            let m = choose|m: int|
                                0 <= m < before.len() && (#[trigger] before[m])@ == keys[j];
                            assert(expired@[m] == before[m]);
                        }
                    }
                }
            }
            i += 1;
        }
        let mut j: usize = 0;
        while j < expired.len()
            invariant
                j <= expired@.len(),
                forall|k: Seq<char>| #[trigger]
                    self.pending@.contains_key(k) == (start.contains_key(k) && !exists|m: int|
                        0 <= m < j && (#[trigger] expired@[m])@ == k),
                forall|k: Seq<char>| #[trigger]
                    self.pending@.contains_key(k) ==> self.pending@[k] == start[k],
            decreases expired@.len() - j,
        {
            let ghost before = self.pending@;
            self.pending.remove(&expired[j]);
            proof {
                assert forall|k: Seq<char>| #[trigger] self.pending@.contains_key(k) == (
                start.contains_key(k) && !exists|m: int|
                    0 <= m < j + 1 && (#[trigger] expired@[m])@ == k) by {
                    if before.contains_key(k) && k == expired@[j as int]@ {
                        assert(expired@[j as int]@ == k);
                    }
                }
            }
            j += 1;
        }
        proof {
            assert forall|k: Seq<char>| self.pending@.contains_key(k) == fresh_ceremonies(
                start,
                now,
            ).contains_key(k) by {
                if start.contains_key(k) && !fresh(start[k], now) {
                    assert(keys.contains(k));
                    let at = choose|at: int| 0 <= at < keys.len() && keys[at] == k;
                    assert(!fresh(start[keys[at]], now));
                }
            }
            assert(self.pending@ =~= fresh_ceremonies(start, now));
        }
    }

    /// Begins a ceremony that has been prepared, and keeps what is needed to end it. Ceremonies that
    /// have taken too long make room.
    pub fn begin(
        &mut self,
        provider: &OidcProvider,
        prepared: PreparedAuthorization,
        now: i128,
    ) -> (r: Result<AuthorizationStart, OidcError>)
        ensures
            old(self)@.dom().finite(),
            ({
                let kept = fresh_ceremonies(old(self)@, now);
                let supported = provider.enabled && provider.is_oidc;
                &&& !supported ==> final(self)@ == old(self)@ && r is Err && r->Err_0
                    == OidcError::Unsupported
                &&& supported && kept.len() >= MAX_PENDING_CEREMONIES ==> final(self)@ == kept
                    && r is Err && r->Err_0 == OidcError::TooMany
                &&& supported && kept.len() < MAX_PENDING_CEREMONIES ==> final(self)@ == kept.insert(
                    prepared.state@,
                    PendingAuthorization {
                        provider_id: provider.id,
                        pkce_verifier: prepared.pkce_verifier,
                        nonce: prepared.nonce,
                        created_at: now,
                    },
                ) && r is Ok && r->Ok_0.authorization_url == prepared.authorization_url
                    && r->Ok_0.expires_in_seconds == CEREMONY_TTL_SECONDS
            }),
    {
        let _n: usize = self.pending.len();
        if let Err(error) = require_oidc(provider) {
            return Err(error);
        }
        self.forget_expired(now);
        let n: usize = self.pending.len();
        proof {
            self.pending.keys().unique_seq_to_set();
        }
        if n >= MAX_PENDING_CEREMONIES {
            return Err(OidcError::TooMany);
        }
        self.pending.put(
            prepared.state,
            PendingAuthorization {
                provider_id: provider.id,
                pkce_verifier: prepared.pkce_verifier,
                nonce: prepared.nonce,
                created_at: now,
            },
        );
        Ok(
            AuthorizationStart {
                authorization_url: prepared.authorization_url,
                expires_in_seconds: CEREMONY_TTL_SECONDS,
            },
        )
    }

    /// Takes the ceremony that the browser comes back to, which is then gone, whatever comes of it.
    pub fn finish(
        &mut self,
        provider: &OidcProvider,
        state: &str,
        code: &str,
        now: i128,
    ) -> (r: Result<PendingAuthorization, OidcError>)
        ensures
            r == claimed(old(self)@, *provider, state@, code@, now),
            final(self)@ == (if callback_fits(state@, code@) {
                old(self)@.remove(state@)
            } else {
                old(self)@
            }),
    {
        let code_bytes: usize = text::byte_len(code);
        if text::byte_len(state) > 512 || code_bytes == 0 || code_bytes > 8_192 {
            return Err(OidcError::Bounds);
        }
        match self.pending.remove(&text::owned(state)) {
            Some(ceremony) => {
                if !is_fresh(&ceremony, now) || ceremony.provider_id != provider.id {
                    return Err(OidcError::Expired);
                }
                if let Err(error) = require_oidc(provider) {
                    return Err(error);
                }
                Ok(ceremony)
            },
            None => Err(OidcError::Absent),
        }
    }
}

/// Whether what the browser brings back is within bounds.
pub open spec fn callback_fits(state: Seq<char>, code: Seq<char>) -> bool {
    encode_utf8(state).len() <= 512 && 0 < encode_utf8(code).len() <= 8_192
}

/// The ceremony that the browser comes back to, or why there is none for it.
pub open spec fn claimed(
    pending: Map<Seq<char>, PendingAuthorization>,
    provider: OidcProvider,
    state: Seq<char>,
    code: Seq<char>,
    now: i128,
) -> Result<PendingAuthorization, OidcError> {
    if !callback_fits(state, code) {
        Err(OidcError::Bounds)
    } else if !pending.contains_key(state) {
        Err(OidcError::Absent)
    } else if !fresh(pending[state], now) || pending[state].provider_id != provider.id {
        Err(OidcError::Expired)
    } else if !(provider.enabled && provider.is_oidc) {
        Err(OidcError::Unsupported)
    } else {
        Ok(pending[state])
    }
}

/// A ceremony is used once: whoever comes back to it a second time finds nothing.
pub proof fn law_a_ceremony_is_used_once(
    pending: Map<Seq<char>, PendingAuthorization>,
    provider: OidcProvider,
    state: Seq<char>,
    code: Seq<char>,
    later: i128,
)
    ensures
        claimed(pending.remove(state), provider, state, code, later) is Err,
{
}

/// A ceremony cannot be ended after five minutes, nor with another provider.
pub proof fn law_a_ceremony_is_bound_to_time_and_provider(
    pending: Map<Seq<char>, PendingAuthorization>,
    provider: OidcProvider,
    state: Seq<char>,
    code: Seq<char>,
    now: i128,
)
    requires
        pending.contains_key(state),
        now - pending[state].created_at >= 300 * SECOND || pending[state].provider_id
            != provider.id,
    ensures
        claimed(pending, provider, state, code, now) is Err,
{
}

/// No more than 1024 ceremonies are under way: where there are no more, one more does not make too
/// many.
pub proof fn law_ceremonies_are_bounded(
    pending: Map<Seq<char>, PendingAuthorization>,
    state: Seq<char>,
    ceremony: PendingAuthorization,
    now: i128,
)
    requires
        pending.dom().finite(),
        fresh_ceremonies(pending, now).len() < MAX_PENDING_CEREMONIES,
    ensures
        fresh_ceremonies(pending, now).insert(state, ceremony).len() <= MAX_PENDING_CEREMONIES,
{
    let kept = fresh_ceremonies(pending, now);
    assert(kept.dom().subset_of(pending.dom()));
    vstd::set_lib::lemma_len_subset(kept.dom(), pending.dom());
    assert(kept.insert(state, ceremony).dom() =~= kept.dom().insert(state));
}

// ------------------------------------------------------------------------------------------------
// What a verified token says

/// The message whose digest stands for a provider's subject.
pub open spec fn subject_message(provider_id: Uuid, subject: Seq<char>) -> Seq<u8> {
    encode_utf8("constellation.external-identity.v1"@).push(0) + big_endian(provider_id).push(0)
        + encode_utf8(subject)
}

/// The digest that stands for a provider's subject.
pub open spec fn subject_digest(provider_id: Uuid, subject: Seq<char>) -> Seq<char> {
    hex(sha256(subject_message(provider_id, subject)))
}

/// The digest that stands for a provider's subject.
pub fn external_subject_digest(provider_id: Uuid, subject: &str) -> (r: String)
    ensures
        r@ == subject_digest(provider_id, subject@),
        r@.len() == 64,
{
    let mut message: Vec<u8> = vstd::slice::slice_to_vec(
        "constellation.external-identity.v1".as_bytes(),
    );
    message.push(0);
    let mut id: Vec<u8> = uuid_bytes(provider_id);
    id.push(0);
    message.append(&mut id);
    let mut rest: Vec<u8> = vstd::slice::slice_to_vec(subject.as_bytes());
    message.append(&mut rest);
    assert(message@ =~= subject_message(provider_id, subject@));
    hex_of(sha256_of(message.as_slice()).as_slice())
}

/// What is digested for two subjects is the same only where the provider and the subject are.
pub proof fn law_subjects_are_scoped_to_their_provider(
    provider: Uuid,
    subject: Seq<char>,
    other: Uuid,
    other_subject: Seq<char>,
)
    requires
        subject_message(provider, subject) == subject_message(other, other_subject),
    ensures
        provider == other,
        subject == other_subject,
{
    let head = encode_utf8("constellation.external-identity.v1"@).push(0);
    let n = head.len() as int;
    let a = subject_message(provider, subject);
    let b = subject_message(other, other_subject);
    assert forall|i: int| 0 <= i < 16 implies big_endian(provider)[i] == big_endian(other)[i] by {
        assert(a[n + i] == big_endian(provider)[i]);
        assert(b[n + i] == big_endian(other)[i]);
    }
    assert(big_endian(provider) =~= big_endian(other));
    lemma_big_endian_is_injective(provider, other);
    assert(a.skip(n + 17) =~= encode_utf8(subject));
    assert(b.skip(n + 17) =~= encode_utf8(other_subject));
    text::lemma_utf8_injective(subject, other_subject);
}

/// The views of groups.
pub open spec fn group_views(groups: Seq<String>) -> Seq<Seq<char>> {
    groups.map_values(|group: String| group@)
}

/// Why the group policy refuses a token, where it does.
pub open spec fn group_refusal(allowed_groups: Seq<Seq<char>>, token: Seq<char>) -> Option<OidcError> {
    let pieces = split_at_each(token, '.');
    if allowed_groups.len() == 0 {
        None
    } else if pieces.len() < 2 {
        Some(OidcError::NoPayload)
    } else {
        match base64url_decoded(pieces[1]) {
            None => Some(OidcError::MalformedPayload),
            Some(claims) => if !json_document(claims) {
                Some(OidcError::MalformedClaims)
            } else {
                match json_texts_at(claims, "/groups"@) {
                    None => Some(OidcError::NoGroups),
                    Some(groups) => if exists|i: int|
                        0 <= i < groups.len() && (#[trigger] groups[i] matches Some(group)
                            && allowed_groups.contains(group)) {
                        None
                    } else {
                        Some(OidcError::Rejected)
                    },
                }
            },
        }
    }
}

/// Checks that the subject of a token, which has been verified, is in one of the allowed groups.
pub fn enforce_groups(allowed_groups: &[String], encoded_id_token: &str) -> (r: Result<(), OidcError>)
    ensures
        r is Err == group_refusal(group_views(allowed_groups@), encoded_id_token@) is Some,
        r matches Err(error) ==> group_refusal(group_views(allowed_groups@), encoded_id_token@)
            == Some(error),
{
    if allowed_groups.len() == 0 {
        return Ok(());
    }
    let pieces = text::split(encoded_id_token, '.');
    assert(str_views(pieces@) == split_at_each(encoded_id_token@, '.'));
    if pieces.len() < 2 {
        return Err(OidcError::NoPayload);
    }
    assert(pieces@[1]@ == str_views(pieces@)[1]);
    let claims: Vec<u8> = match base64url_decode(pieces[1]) {
        Some(claims) => claims,
        None => return Err(OidcError::MalformedPayload),
    };
    if !is_json(claims.as_slice()) {
        return Err(OidcError::MalformedClaims);
    }
    let groups: Vec<Option<String>> = match texts_at(claims.as_slice(), "/groups") {
        Some(groups) => groups,
        None => return Err(OidcError::NoGroups),
    };
    let ghost views = optional_views(groups@);
    let ghost allowed = group_views(allowed_groups@);
    let mut i: usize = 0;
    while i < groups.len()
        invariant
            i <= groups@.len(),
            views == optional_views(groups@),
            allowed == group_views(allowed_groups@),
            json_texts_at(claims@, "/groups"@) == Some(views),
            allowed.len() > 0,
            split_at_each(encoded_id_token@, '.').len() >= 2,
            base64url_decoded(split_at_each(encoded_id_token@, '.')[1]) == Some(claims@),
            json_document(claims@),
            forall|j: int|
                0 <= j < i ==> !(#[trigger] views[j] matches Some(group) && allowed.contains(group)),
        decreases groups@.len() - i,
    {
        assert(views[i as int] == (match groups@[i as int] {
            Some(t) => Some(t@),
            None => None,
        }));
        if let Some(group) = &groups[i] {
            if holds(allowed_groups, group.as_str()) {
                assert(views[i as int] == Some(group@));
                return Ok(());
            }
        }
        i += 1;
    }
    Err(OidcError::Rejected)
}

/// Whether a group is one of several.
fn holds(groups: &[String], wanted: &str) -> (r: bool)
    ensures
        r == group_views(groups@).contains(wanted@),
{
    let mut i: usize = 0;
    while i < groups.len()
        invariant
            i <= groups@.len(),
            forall|j: int| 0 <= j < i ==> #[trigger] group_views(groups@)[j] != wanted@,
        decreases groups@.len() - i,
    {
        if text::same(groups[i].as_str(), wanted) {
            assert(group_views(groups@)[i as int] == wanted@);
            return true;
        }
        i += 1;
    }
    false
}

/// The identity that a verified token stands for, where the group policy lets it in.
pub fn verified_identity(provider: &OidcProvider, encoded_id_token: &str, subject: &str) -> (r:
    Result<VerifiedIdentity, OidcError>)
    ensures
        r is Err == group_refusal(group_views(provider.allowed_groups@), encoded_id_token@) is Some,
        r matches Err(error) ==> group_refusal(
            group_views(provider.allowed_groups@),
            encoded_id_token@,
        ) == Some(error),
        r matches Ok(identity) ==> identity.provider_id == provider.id
            && identity.subject_sha256@ == subject_digest(provider.id, subject@),
{
    match enforce_groups(provider.allowed_groups.as_slice(), encoded_id_token) {
        Ok(()) => Ok(
            VerifiedIdentity {
                provider_id: provider.id,
                subject_sha256: external_subject_digest(provider.id, subject),
            },
        ),
        Err(error) => Err(error),
    }
}

/// A ceremony that is brought back within five minutes, by its own provider and within bounds, is the very
/// one that was begun: its verifier and its nonce are those that were sent.
pub proof fn law_a_ceremony_comes_back_as_it_was(
    pending: Map<Seq<char>, PendingAuthorization>,
    provider: OidcProvider,
    state: Seq<char>,
    code: Seq<char>,
    now: i128,
)
    ensures
        claimed(pending, provider, state, code, now) is Ok <==> {
            &&& pending.contains_key(state)
            &&& now - pending[state].created_at < 300_000_000_000
            &&& pending[state].provider_id == provider.id
            &&& provider.enabled && provider.is_oidc
            &&& encode_utf8(state).len() <= 512
            &&& 1 <= encode_utf8(code).len() <= 8_192
        },
        claimed(pending, provider, state, code, now) matches Ok(ceremony) ==> ceremony
            == pending[state],
{
}

/// What is forgotten of the ceremonies is what took five minutes or longer, and nothing else.
pub proof fn law_only_stale_ceremonies_are_forgotten(
    pending: Map<Seq<char>, PendingAuthorization>,
    state: Seq<char>,
    now: i128,
)
    requires
        pending.contains_key(state),
    ensures
        fresh_ceremonies(pending, now).contains_key(state) <==> now - pending[state].created_at
            < 300_000_000_000,
        fresh_ceremonies(pending, now).contains_key(state) ==> fresh_ceremonies(pending, now)[state]
            == pending[state],
{
}

/// Anybody may sign in where no group is demanded; else only who is in one of the groups, whatever other
/// groups the provider names.
pub proof fn law_groups_are_demanded(
    allowed_groups: Seq<Seq<char>>,
    token: Seq<char>,
    group: Seq<char>,
)
    ensures
        allowed_groups.len() == 0 ==> group_refusal(allowed_groups, token) is None,
        allowed_groups.len() > 0 && group_refusal(allowed_groups, token) is None ==> {
            let claims = base64url_decoded(split_at_each(token, '.')[1]);
            &&& claims is Some && json_document(claims->0)
            &&& json_texts_at(claims->0, "/groups"@) matches Some(groups) && exists|i: int|
                0 <= i < groups.len() && (#[trigger] groups[i] matches Some(named)
                    && allowed_groups.contains(named))
        },
        allowed_groups.contains(group) && split_at_each(token, '.').len() >= 2 && (base64url_decoded(
            split_at_each(token, '.')[1],
        ) matches Some(claims) && json_document(claims) && (json_texts_at(claims, "/groups"@) matches Some(
            groups,
        ) && groups.contains(Some(group)))) ==> group_refusal(allowed_groups, token) is None,
{
    match base64url_decoded(split_at_each(token, '.')[1]) {
        Some(claims) => match json_texts_at(claims, "/groups"@) {
            Some(groups) => {
                if groups.contains(Some(group)) && allowed_groups.contains(group) {
                    let i = choose|i: int| 0 <= i < groups.len() && groups[i] == Some(group);
                    assert(groups[i] matches Some(named) && allowed_groups.contains(named));
                }
            },
            None => {},
        },
        None => {},
    }
}

} // verus!
