//! Enrollment: what is kept of a joining device between its proof and its credential. The secrets of an
//! enrollment are never stored.

use crate::api::{bad_request, ApiError, ErrorView, IdentityError};
use crate::digest::{base64url_decode, base64url_decoded};
use crate::ident::Uuid;
use crate::repository::nodes::InvitationStatus;
use crate::table::Table;
use crate::text;
use crate::text::{decimal, is_blank};
use vstd::prelude::*;
use vstd::utf8::encode_utf8;

verus! {

/// What a device holds once it is a member: a credential and a certificate, as encoded texts.
pub struct Membership {
    pub credential: String,
    pub certificate: String,
}

/// What a device holds once it is a member, as values.
pub struct MembershipView {
    pub credential: Seq<char>,
    pub certificate: Seq<char>,
}

impl Membership {
    pub open spec fn view(&self) -> MembershipView {
        MembershipView { credential: self.credential@, certificate: self.certificate@ }
    }

    fn copy(&self) -> (r: Membership)
        ensures
            r@ == self@,
    {
        Membership { credential: self.credential.clone(), certificate: self.certificate.clone() }
    }
}

/// A device that has proved that it knows the invitation's secret.
pub struct PendingEnrollment {
    /// The device.
    pub node_id: Uuid,
    /// The device's inventory, as encoded text.
    pub node: String,
    pub public_key: Vec<u8>,
    /// The key that the controller and the device have agreed on.
    pub key: Vec<u8>,
    /// What the device holds, once it has been approved.
    pub membership: Option<Membership>,
}

/// What the controller keeps of enrollments.
pub struct EnrollmentCoordinator {
    /// The keys of handshakes that wait for the device's proof.
    pub handshakes: Table<u128, Vec<u8>>,
    /// The devices that have given their proof.
    pub pending: Table<u128, PendingEnrollment>,
}

/// What the controller keeps of enrollments, as values.
#[verifier::ext_equal]
pub struct EnrollmentView {
    pub handshakes: Map<u128, Vec<u8>>,
    pub pending: Map<u128, PendingEnrollment>,
}

/// What a device holds, where it has been approved.
pub open spec fn membership_of(v: EnrollmentView, id: u128) -> Option<MembershipView> {
    if v.pending.contains_key(id) {
        match v.pending[id].membership {
            Some(membership) => Some(membership@),
            None => None,
        }
    } else {
        None
    }
}

/// What is kept after a device has given its proof.
pub open spec fn proved(v: EnrollmentView, id: u128, node_id: Uuid, node: String, public_key: Vec<u8>) -> EnrollmentView {
    EnrollmentView {
        handshakes: v.handshakes.remove(id),
        pending: v.pending.insert(
            id,
            PendingEnrollment {
                node_id,
                node,
                public_key,
                key: v.handshakes[id],
                membership: None,
            },
        ),
    }
}

/// What is kept after a device has been approved.
pub open spec fn approved(v: EnrollmentView, id: u128, membership: Membership) -> EnrollmentView {
    EnrollmentView {
        pending: v.pending.insert(
            id,
            PendingEnrollment { membership: Some(membership), ..v.pending[id] },
        ),
        ..v
    }
}

/// What a device that asks for its credential is given: nothing yet, as long as it waits for approval.
/// It has to prove that it holds the enrollment's key.
pub open spec fn issued(v: EnrollmentView, id: u128, proof_valid: bool) -> Result<
    Option<MembershipView>,
    IdentityError,
> {
    if !v.pending.contains_key(id) {
        Err(IdentityError::InvitationUnavailable)
    } else if !proof_valid {
        Err(IdentityError::InvalidProof)
    } else {
        Ok(membership_of(v, id))
    }
}

impl EnrollmentCoordinator {
    pub open spec fn view(&self) -> EnrollmentView {
        EnrollmentView { handshakes: self.handshakes@, pending: self.pending@ }
    }

    /// No enrollment is under way.
    pub fn new() -> (r: EnrollmentCoordinator)
        ensures
            r@ == (EnrollmentView { handshakes: Map::empty(), pending: Map::empty() }),
    {
        EnrollmentCoordinator { handshakes: Table::new(), pending: Table::new() }
    }

    /// Keeps the key of a handshake, once the controller's side is done. A handshake that failed
    /// leaves nothing.
    pub fn begin(&mut self, invitation_id: Uuid, handshake: Result<Vec<u8>, IdentityError>) -> (r:
        Result<(), IdentityError>)
        ensures
            match handshake {
                Ok(key) => r is Ok && final(self)@ == (EnrollmentView {
                    handshakes: old(self)@.handshakes.insert(invitation_id, key),
                    ..old(self)@
                }),
                Err(error) => r is Err && r->Err_0 == error && final(self)@ == old(self)@,
            },
    {
        match handshake {
            Ok(key) => {
                self.handshakes.put(invitation_id, key);
                Ok(())
            },
            Err(error) => Err(error),
        }
    }

    /// The key of the handshake against which a device's proof is to be checked.
    pub fn handshake_key(&self, invitation_id: Uuid) -> (r: Result<&Vec<u8>, IdentityError>)
        ensures
            r is Ok == self@.handshakes.contains_key(invitation_id),
            r matches Ok(key) ==> *key == self@.handshakes[invitation_id],
            r matches Err(error) ==> error == IdentityError::InvalidHandshake,
    {
        match self.handshakes.get(&invitation_id) {
            Some(key) => Ok(key),
            None => Err(IdentityError::InvalidHandshake),
        }
    }

    /// Keeps a device that has given its proof, until it is approved. The outcome of the proof, and
    /// the invitation's status after it, come from the invitation registry.
    pub fn confirm(
        &mut self,
        invitation_id: Uuid,
        outcome: Result<(), IdentityError>,
        node_id: Uuid,
        node: String,
        public_key: Vec<u8>,
        status: Option<InvitationStatus>,
    ) -> (r: Result<InvitationStatus, IdentityError>)
        ensures
            ({
                let known = old(self)@.handshakes.contains_key(invitation_id);
                &&& !known ==> r is Err && r->Err_0 == IdentityError::InvalidHandshake
                    && final(self)@ == old(self)@
                &&& known && outcome is Err ==> r is Err && r->Err_0 == outcome->Err_0 && final(self)@
                    == old(self)@
                &&& known && outcome is Ok ==> final(self)@ == proved(
                    old(self)@,
                    invitation_id,
                    node_id,
                    node,
                    public_key,
                )
                &&& known && outcome is Ok ==> match status {
                    Some(status) => r is Ok && r->Ok_0 == status,
                    None => r is Err && r->Err_0 == IdentityError::InvitationUnavailable,
                }
            }),
    {
        if !self.handshakes.contains(&invitation_id) {
            return Err(IdentityError::InvalidHandshake);
        }
        if let Err(error) = outcome {
            return Err(error);
        }
        let key: Vec<u8> = match self.handshakes.remove(&invitation_id) {
            Some(key) => key,
            None => return Err(IdentityError::InvalidHandshake),
        };
        self.pending.put(
            invitation_id,
            PendingEnrollment { node_id, node, public_key, key, membership: None },
        );
        match status {
            Some(status) => Ok(status),
            None => Err(IdentityError::InvitationUnavailable),
        }
    }

    /// What a device was given at an earlier approval. Nothing comes back where it has not been
    /// approved, so that it is to be approved now.
    pub fn already_issued(&self, invitation_id: Uuid, status: &Option<InvitationStatus>) -> (r: Option<
        Result<Membership, IdentityError>,
    >)
        ensures
            r is Some == (status matches Some(s) && s.approved),
            r matches Some(Ok(membership)) ==> membership_of(self@, invitation_id) == Some(
                membership@,
            ),
            r matches Some(Err(error)) ==> membership_of(self@, invitation_id) is None && error
                == IdentityError::InvitationUnavailable,
    {
        let approved: bool = match status {
            Some(status) => status.approved,
            None => false,
        };
        if !approved {
            return None;
        }
        match self.pending.get(&invitation_id) {
            Some(enrollment) => match &enrollment.membership {
                Some(membership) => Some(Ok(membership.copy())),
                None => Some(Err(IdentityError::InvitationUnavailable)),
            },
            None => Some(Err(IdentityError::InvitationUnavailable)),
        }
    }

    /// Gives a device that has given its proof what an administrator's approval entitles it to. The
    /// approval, and what the authority issues, come from outside.
    pub fn approve(
        &mut self,
        invitation_id: Uuid,
        approval: Result<InvitationStatus, IdentityError>,
        membership: Result<Membership, IdentityError>,
    ) -> (r: Result<InvitationStatus, IdentityError>)
        ensures
            ({
                let known = old(self)@.pending.contains_key(invitation_id);
                &&& r is Ok == (approval is Ok && known && membership is Ok)
                &&& r is Err ==> final(self)@ == old(self)@
                &&& r matches Err(error) ==> error == (if approval is Err {
                    approval->Err_0
                } else if !known {
                    IdentityError::InvitationUnavailable
                } else {
                    membership->Err_0
                })
                &&& r is Ok ==> r->Ok_0 == approval->Ok_0 && final(self)@ == approved(
                    old(self)@,
                    invitation_id,
                    membership->Ok_0,
                )
            }),
    {
        let status: InvitationStatus = match approval {
            Ok(status) => status,
            Err(error) => return Err(error),
        };
        match self.pending.get_mut(&invitation_id) {
            Some(enrollment) => {
                let membership: Membership = match membership {
                    Ok(membership) => membership,
                    Err(error) => return Err(error),
                };
                enrollment.membership = Some(membership);
                Ok(status)
            },
            None => Err(IdentityError::InvitationUnavailable),
        }
    }

    /// The key against which the proof of a device that asks for its credential is to be checked.
    pub fn enrollment_key(&self, invitation_id: Uuid) -> (r: Result<&Vec<u8>, IdentityError>)
        ensures
            r is Ok == self@.pending.contains_key(invitation_id),
            r matches Ok(key) ==> *key == self@.pending[invitation_id].key,
            r matches Err(error) ==> error == IdentityError::InvitationUnavailable,
    {
        match self.pending.get(&invitation_id) {
            Some(enrollment) => Ok(&enrollment.key),
            None => Err(IdentityError::InvitationUnavailable),
        }
    }

    /// What a device that asks for its credential is given.
    pub fn credential(&self, invitation_id: Uuid, proof_valid: bool) -> (r: Result<
        Option<Membership>,
        IdentityError,
    >)
        ensures
            match r {
                Ok(Some(membership)) => issued(self@, invitation_id, proof_valid) == Ok::<
                    Option<MembershipView>,
                    IdentityError,
                >(Some(membership@)),
                Ok(None) => issued(self@, invitation_id, proof_valid) == Ok::<
                    Option<MembershipView>,
                    IdentityError,
                >(None),
                Err(error) => issued(self@, invitation_id, proof_valid) == Err::<
                    Option<MembershipView>,
                    IdentityError,
                >(error),
            },
    {
        let enrollment: &PendingEnrollment = match self.pending.get(&invitation_id) {
            Some(enrollment) => enrollment,
            None => return Err(IdentityError::InvitationUnavailable),
        };
        if !proof_valid {
            return Err(IdentityError::InvalidProof);
        }
        match &enrollment.membership {
            Some(membership) => Ok(Some(membership.copy())),
            None => Ok(None),
        }
    }
}

/// A device that has given its proof holds nothing before an administrator approves it.
pub proof fn law_a_proof_alone_gives_nothing(
    v: EnrollmentView,
    id: u128,
    node_id: Uuid,
    node: String,
    public_key: Vec<u8>,
)
    ensures
        issued(proved(v, id, node_id, node, public_key), id, true) == Ok::<
            Option<MembershipView>,
            IdentityError,
        >(None),
{
}

/// What was approved goes to nobody but a device that proves that it holds the enrollment's key.
pub proof fn law_an_approval_goes_to_the_prover(v: EnrollmentView, id: u128, membership: Membership)
    requires
        v.pending.contains_key(id),
    ensures
        issued(approved(v, id, membership), id, true) == Ok::<Option<MembershipView>, IdentityError>(
            Some(membership@),
        ),
        issued(approved(v, id, membership), id, false) is Err,
{
}

/// A handshake serves one proof.
pub proof fn law_a_handshake_is_used_once(
    v: EnrollmentView,
    id: u128,
    node_id: Uuid,
    node: String,
    public_key: Vec<u8>,
)
    ensures
        !proved(v, id, node_id, node, public_key).handshakes.contains_key(id),
{
}

// ------------------------------------------------------------------------------------------------
// What devices send

/// Why a field of an enrollment message is refused, where it is.
pub open spec fn bounded_refusal(value: Seq<char>, max_len: nat, field: Seq<char>) -> Option<ErrorView> {
    match base64url_decoded(value) {
        None => Some(
            bad_request("invalid_enrollment_encoding"@, field + " is not valid base64url"@),
        ),
        Some(decoded) => if decoded.len() == 0 || decoded.len() > max_len {
            Some(bad_request("invalid_enrollment_message"@, field + " has an invalid length"@))
        } else {
            None
        },
    }
}

/// The bytes of a field of an enrollment message, at least one and at most `max_len`.
pub fn decode_bounded(value: &str, max_len: usize, field: &str) -> (r: Result<Vec<u8>, ApiError>)
    ensures
        r is Err == bounded_refusal(value@, max_len as nat, field@) is Some,
        r matches Err(error) ==> bounded_refusal(value@, max_len as nat, field@) == Some(error@),
        r matches Ok(bytes) ==> base64url_decoded(value@) == Some(bytes@),
{
    let decoded: Vec<u8> = match base64url_decode(value) {
        Some(decoded) => decoded,
        None => return Err(
            ApiError::bad_request(
                "invalid_enrollment_encoding",
                text::join2(field, " is not valid base64url").as_str(),
            ),
        ),
    };
    if decoded.len() == 0 || decoded.len() > max_len {
        return Err(
            ApiError::bad_request(
                "invalid_enrollment_message",
                text::join2(field, " has an invalid length").as_str(),
            ),
        );
    }
    Ok(decoded)
}

/// Why a field of an enrollment message that has to have a length is refused, where it is.
pub open spec fn array_refusal(value: Seq<char>, length: nat, field: Seq<char>) -> Option<ErrorView> {
    match bounded_refusal(value, length, field) {
        Some(error) => Some(error),
        None => if base64url_decoded(value)->0.len() != length {
            Some(
                bad_request(
                    "invalid_enrollment_message"@,
                    field + " must contain exactly "@ + decimal(length) + " bytes"@,
                ),
            )
        } else {
            None
        },
    }
}

/// The bytes of a field of an enrollment message that has to have exactly `length`.
pub fn decode_array(value: &str, length: usize, field: &str) -> (r: Result<Vec<u8>, ApiError>)
    ensures
        r is Err == array_refusal(value@, length as nat, field@) is Some,
        r matches Err(error) ==> array_refusal(value@, length as nat, field@) == Some(error@),
        r matches Ok(bytes) ==> base64url_decoded(value@) == Some(bytes@) && bytes@.len() == length,
{
    let bytes: Vec<u8> = match decode_bounded(value, length, field) {
        Ok(bytes) => bytes,
        Err(error) => return Err(error),
    };
    if bytes.len() != length {
        let message = text::join3(
            field,
            " must contain exactly ",
            text::decimal_of(length as u64).as_str(),
        );
        return Err(
            ApiError::bad_request(
                "invalid_enrollment_message",
                text::join2(message.as_str(), " bytes").as_str(),
            ),
        );
    }
    Ok(bytes)
}

/// Why what a device says of itself is refused, where it is.
pub open spec fn registration_refusal(name: Seq<char>, architecture: Seq<char>) -> Option<ErrorView> {
    if is_blank(name) || encode_utf8(name).len() > 128 {
        Some(
            bad_request(
                "invalid_device_name"@,
                "device name must contain 1 to 128 characters"@,
            ),
        )
    } else if is_blank(architecture) || encode_utf8(architecture).len() > 64 {
        Some(
            bad_request(
                "invalid_device_architecture"@,
                "device architecture must contain 1 to 64 characters"@,
            ),
        )
    } else {
        None
    }
}

/// Checks what a device says of itself.
pub fn validate_device_registration(name: &str, architecture: &str) -> (r: Result<(), ApiError>)
    ensures
        r is Err == registration_refusal(name@, architecture@) is Some,
        r matches Err(error) ==> registration_refusal(name@, architecture@) == Some(error@),
{
    if text::blank(name) || text::byte_len(name) > 128 {
        return Err(
            ApiError::bad_request(
                "invalid_device_name",
                "device name must contain 1 to 128 characters",
            ),
        );
    }
    if text::blank(architecture) || text::byte_len(architecture) > 64 {
        return Err(
            ApiError::bad_request(
                "invalid_device_architecture",
                "device architecture must contain 1 to 64 characters",
            ),
        );
    }
    Ok(())
}

/// How far an enrollment is, in a word.
pub fn enrollment_status(issued: bool) -> (r: &'static str)
    ensures
        r@ == (if issued {
            "approved"@
        } else {
            "pending_approval"@
        }),
{
    if issued {
        "approved"
    } else {
        "pending_approval"
    }
}

/// The device that gave its proof is kept with what it gave and the key that was agreed on with it, and no
/// other handshake or device is touched; an approval changes nothing but that the device holds what it was
/// given.
pub proof fn law_enrollments_are_kept_apart(
    v: EnrollmentView,
    id: u128,
    node_id: Uuid,
    node: String,
    public_key: Vec<u8>,
    membership: Membership,
    other: u128,
)
    requires
        other != id,
    ensures
        ({
            let after = proved(v, id, node_id, node, public_key);
            let approved_after = approved(after, id, membership);
            &&& after.pending[id].node_id == node_id
            &&& after.pending[id].node == node
            &&& after.pending[id].public_key == public_key
            &&& after.pending[id].key == v.handshakes[id]
            &&& after.handshakes.contains_key(other) == v.handshakes.contains_key(other)
            &&& after.handshakes[other] == v.handshakes[other]
            &&& after.pending.contains_key(other) == v.pending.contains_key(other)
            &&& after.pending[other] == v.pending[other]
            &&& approved_after.pending[id].key == after.pending[id].key
            &&& approved_after.pending[id].public_key == public_key
            &&& approved_after.pending[id].node_id == node_id
            &&& membership_of(approved_after, id) == Some(membership@)
            &&& membership_of(approved_after, other) == membership_of(v, other)
            &&& approved_after.handshakes == after.handshakes
        }),
{
}

/// A field of an enrollment is taken where it is encoded and holds from one byte to as many as it may; a field
/// of fixed length where it holds exactly so many.
pub proof fn law_fields_are_taken_by_length(
    value: Seq<char>,
    length: nat,
    field: Seq<char>,
    decoded: Seq<u8>,
)
    requires
        base64url_decoded(value) == Some(decoded),
        length > 0,
    ensures
        bounded_refusal(value, length, field) is None <==> 1 <= decoded.len() <= length,
        array_refusal(value, length, field) is None <==> decoded.len() == length,
{
}

/// A device is registered where its name and its architecture say something and are not too long: 128 and 64
/// bytes are still taken.
pub proof fn law_registrations_are_bounded(name: Seq<char>, architecture: Seq<char>)
    ensures
        registration_refusal(name, architecture) is None <==> !is_blank(name) && !is_blank(
            architecture,
        ) && encode_utf8(name).len() <= 128 && encode_utf8(architecture).len() <= 64,
{
}

} // verus!
