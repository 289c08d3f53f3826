//! Joining devices: each step of an enrollment, with what is stored of it.

use crate::api::{identity, internal, ApiError, IdentityError};
use crate::digest::{base64_fits, base64url_encode, base64url_encoded};
use crate::enrollment::{
    array_refusal, bounded_refusal, decode_array, decode_bounded, issued, proved,
    registration_refusal, validate_device_registration, EnrollmentCoordinator, Membership,
    MembershipView,
};
use crate::ident::Uuid;
use crate::names::{NodeStatus, OperatingSystem};
use crate::repository::events::logged;
use crate::repository::nodes::{
    invitation_event, member_event, with_invitation, with_member, InvitationStatus,
};
use crate::repository::{ClusterEvent, Credential, Node, Repository};
use vstd::prelude::*;

verus! {

/// What a device says of itself.
pub struct DeviceRegistration {
    pub name: String,
    pub os: OperatingSystem,
    pub architecture: String,
    /// The capabilities, as encoded text.
    pub capabilities: String,
}

/// The node that a device becomes.
pub open spec fn node_of(id: Uuid, device: DeviceRegistration, status: NodeStatus, now: i128) -> Node {
    Node {
        id,
        name: device.name,
        os: device.os,
        architecture: device.architecture,
        status,
        capabilities: device.capabilities,
        last_seen_at: now,
    }
}

/// The node that a device becomes.
pub fn make_node(id: Uuid, device: DeviceRegistration, status: NodeStatus, now: i128) -> (r: Node)
    ensures
        r == node_of(id, device, status, now),
{
    Node {
        id,
        name: device.name,
        os: device.os,
        architecture: device.architecture,
        status,
        capabilities: device.capabilities,
        last_seen_at: now,
    }
}

/// Stores an invitation that has just been made; it has to be known to the registry.
pub fn create_invitation(
    repository: &mut Repository,
    id: Uuid,
    status: Option<InvitationStatus>,
    now: i128,
) -> (r: Result<ClusterEvent, ApiError>)
    ensures
        match status {
            Some(status) => r is Ok && r->Ok_0@ == invitation_event(
                "enrollment.invitation_created"@,
                id,
                status,
                None,
            ) && final(repository)@ == logged(
                with_invitation(old(repository)@, id, status, None, now),
                r->Ok_0@,
                now,
            ),
            None => r is Err && r->Err_0@ == internal() && final(repository)@ == old(repository)@,
        },
{
    match status {
        Some(status) => Ok(
            repository.put_invitation_status(
                id,
                status,
                None,
                "enrollment.invitation_created",
                now,
            ),
        ),
        None => Err(ApiError::internal()),
    }
}

/// Stores how an invitation stands after an attempt that failed, where the registry knows it.
pub fn persist_failed_enrollment(
    repository: &mut Repository,
    id: Uuid,
    status: Option<InvitationStatus>,
    now: i128,
) -> (r: Option<ClusterEvent>)
    ensures
        match status {
            Some(status) => r is Some && r->0@ == invitation_event(
                "enrollment.attempt_failed"@,
                id,
                status,
                None,
            ) && final(repository)@ == logged(
                with_invitation(old(repository)@, id, status, None, now),
                r->0@,
                now,
            ),
            None => r is None && final(repository)@ == old(repository)@,
        },
{
    match status {
        Some(status) => Some(
            repository.put_invitation_status(id, status, None, "enrollment.attempt_failed", now),
        ),
        None => None,
    }
}

/// What the controller's side of the exchange gave.
pub struct Handshake {
    /// The key that both sides have.
    pub key: Vec<u8>,
    pub controller_message: Vec<u8>,
    pub controller_proof: Vec<u8>,
}

/// What a device is answered: the controller's message and its proof, as text.
pub struct BeginResponse {
    pub invitation_id: Uuid,
    pub controller_message: String,
    pub controller_proof: String,
}

/// The message with which a device begins: at least one byte and at most 256.
pub fn begin_message(client_message: &str) -> (r: Result<Vec<u8>, ApiError>)
    ensures
        r is Err == bounded_refusal(client_message@, 256, "client_message"@) is Some,
        r matches Err(error) ==> bounded_refusal(client_message@, 256, "client_message"@) == Some(
            error@,
        ),
        r matches Ok(bytes) ==> crate::digest::base64url_decoded(client_message@) == Some(bytes@),
{
    decode_bounded(client_message, 256, "client_message")
}

/// Keeps the key of an exchange and answers the device; an exchange that failed is stored as such.
/// Where it failed, the second part of the result is the event of that.
pub fn begin_enrollment(
    coordinator: &mut EnrollmentCoordinator,
    repository: &mut Repository,
    invitation_id: Uuid,
    handshake: Result<Handshake, IdentityError>,
    status_after: Option<InvitationStatus>,
    now: i128,
) -> (r: (Result<BeginResponse, ApiError>, Option<ClusterEvent>))
    requires
        handshake matches Ok(done) ==> base64_fits(done.controller_message@.len()) && base64_fits(
            done.controller_proof@.len(),
        ),
    ensures
        match handshake {
            Ok(done) => {
                &&& r.0 matches Ok(answer)
                &&& answer.invitation_id == invitation_id
                &&& answer.controller_message@ == base64url_encoded(done.controller_message@)
                &&& answer.controller_proof@ == base64url_encoded(done.controller_proof@)
                &&& r.1 is None
                &&& final(coordinator)@.handshakes == old(coordinator)@.handshakes.insert(
                    invitation_id,
                    done.key,
                )
                &&& final(coordinator)@.pending == old(coordinator)@.pending
                &&& final(repository)@ == old(repository)@
            },
            Err(error) => {
                &&& r.0 is Err && r.0->Err_0@ == identity(error)
                &&& final(coordinator)@ == old(coordinator)@
                &&& match status_after {
                    Some(status) => r.1 is Some && r.1->0@ == invitation_event(
                        "enrollment.attempt_failed"@,
                        invitation_id,
                        status,
                        None,
                    ) && final(repository)@ == logged(
                        with_invitation(old(repository)@, invitation_id, status, None, now),
                        r.1->0@,
                        now,
                    ),
                    None => r.1 is None && final(repository)@ == old(repository)@,
                }
            },
        },
{
    match handshake {
        Ok(done) => {
            let _kept = coordinator.begin(invitation_id, Ok(done.key));
            let answer = BeginResponse {
                invitation_id,
                controller_message: base64url_encode(done.controller_message.as_slice()),
                controller_proof: base64url_encode(done.controller_proof.as_slice()),
            };
            (Ok(answer), None)
        },
        Err(error) => {
            let e = persist_failed_enrollment(repository, invitation_id, status_after, now);
            (Err(ApiError::identity(error)), e)
        },
    }
}

/// What a device sends to show that it knows the secret.
pub struct ConfirmRequest {
    pub invitation_id: Uuid,
    pub client_proof: String,
    pub device_id: Uuid,
    pub device_public_key: String,
    pub device: DeviceRegistration,
}

/// What of it is checked against the exchange: the proof and the public key.
pub struct ConfirmProof {
    pub client_proof: Vec<u8>,
    pub public_key: Vec<u8>,
}

/// Checks what a device sends before its proof is looked at.
pub fn confirm_proof(request: &ConfirmRequest) -> (r: Result<ConfirmProof, ApiError>)
    ensures
        ({
            let device = registration_refusal(request.device.name@, request.device.architecture@);
            let client = array_refusal(request.client_proof@, 32, "client_proof"@);
            let key = array_refusal(request.device_public_key@, 32, "device_public_key"@);
            &&& r is Ok == (device is None && client is None && key is None)
            &&& r matches Err(error) ==> Some(error@) == (if device is Some {
                device
            } else if client is Some {
                client
            } else {
                key
            })
            &&& r matches Ok(sent) ==> crate::digest::base64url_decoded(request.client_proof@)
                == Some(sent.client_proof@) && crate::digest::base64url_decoded(
                request.device_public_key@,
            ) == Some(sent.public_key@)
        }),
{
    if let Err(error) = validate_device_registration(
        request.device.name.as_str(),
        request.device.architecture.as_str(),
    ) {
        return Err(error);
    }
    let client_proof = match decode_array(request.client_proof.as_str(), 32, "client_proof") {
        Ok(client_proof) => client_proof,
        Err(error) => return Err(error),
    };
    match decode_array(request.device_public_key.as_str(), 32, "device_public_key") {
        Ok(public_key) => Ok(ConfirmProof { client_proof, public_key }),
        Err(error) => Err(error),
    }
}

/// Keeps a device whose proof the registry has judged, and stores how the invitation stands. The
/// device's inventory comes as encoded text.
pub fn confirm_enrollment(
    coordinator: &mut EnrollmentCoordinator,
    repository: &mut Repository,
    invitation_id: Uuid,
    device_id: Uuid,
    node: String,
    public_key: Vec<u8>,
    outcome: Result<(), IdentityError>,
    status_after: Option<InvitationStatus>,
    now: i128,
) -> (r: (Result<InvitationStatus, ApiError>, Option<ClusterEvent>))
    ensures
        ({
            let known = old(coordinator)@.handshakes.contains_key(invitation_id);
            let fault = if !known {
                Some(IdentityError::InvalidHandshake)
            } else if outcome is Err {
                Some(outcome->Err_0)
            } else if status_after is None {
                Some(IdentityError::InvitationUnavailable)
            } else {
                None
            };
            &&& final(coordinator)@ == (if known && outcome is Ok {
                proved(old(coordinator)@, invitation_id, device_id, node, public_key)
            } else {
                old(coordinator)@
            })
            &&& match fault {
                Some(error) => r.0 is Err && r.0->Err_0@ == identity(error),
                None => r.0 is Ok && r.0->Ok_0 == status_after->0,
            }
            &&& match status_after {
                None => r.1 is None && final(repository)@ == old(repository)@,
                Some(status) => if fault is Some {
                    r.1 is Some && r.1->0@ == invitation_event(
                        "enrollment.attempt_failed"@,
                        invitation_id,
                        status,
                        None,
                    ) && final(repository)@ == logged(
                        with_invitation(old(repository)@, invitation_id, status, None, now),
                        r.1->0@,
                        now,
                    )
                } else {
                    r.1 is Some && r.1->0@ == invitation_event(
                        "enrollment.proved"@,
                        invitation_id,
                        status,
                        Some(device_id),
                    ) && final(repository)@ == logged(
                        with_invitation(old(repository)@, invitation_id, status, Some(device_id), now),
                        r.1->0@,
                        now,
                    )
                },
            }
        }),
{
    match coordinator.confirm(
        invitation_id,
        outcome,
        device_id,
        node,
        public_key,
        status_after,
    ) {
        Ok(status) => {
            let e = repository.put_invitation_status(
                invitation_id,
                status,
                Some(device_id),
                "enrollment.proved",
                now,
            );
            (Ok(status), Some(e))
        },
        Err(error) => {
            let e = persist_failed_enrollment(repository, invitation_id, status_after, now);
            (Err(ApiError::identity(error)), e)
        },
    }
}

/// What an administrator's approval gave: the device, what it is issued, and when it was approved.
pub struct Approval {
    pub node: Node,
    pub serial: Uuid,
    pub credential: Credential,
    pub certificate: Credential,
    pub status: InvitationStatus,
}

/// Makes a device a member, once what an administrator's approval entitles it to has been issued.
pub fn approve_invitation(
    repository: &mut Repository,
    invitation_id: Uuid,
    approval: Result<Approval, IdentityError>,
    now: i128,
) -> (r: Result<ClusterEvent, ApiError>)
    ensures
        match approval {
            Ok(given) => r is Ok && final(repository)@ == logged(
                with_member(
                    old(repository)@,
                    given.node,
                    given.serial,
                    given.credential,
                    given.certificate,
                    invitation_id,
                    given.status.approved_at,
                    now,
                ),
                r->Ok_0@,
                now,
            ) && r->Ok_0@ == member_event(
                invitation_id,
                given.node.id,
                given.credential.expires_at,
            ),
            Err(error) => r is Err && r->Err_0@ == identity(error) && final(repository)@
                == old(repository)@,
        },
{
    match approval {
        Ok(given) => Ok(
            repository.approve_enrollment(
                given.node,
                given.serial,
                given.credential,
                given.certificate,
                invitation_id,
                given.status.approved_at,
                now,
            ),
        ),
        Err(error) => Err(ApiError::identity(error)),
    }
}

/// The proof with which a device asks for its credential: 32 bytes.
pub fn status_proof(value: &str) -> (r: Result<Vec<u8>, ApiError>)
    ensures
        r is Err == array_refusal(value@, 32, "status_proof"@) is Some,
        r matches Err(error) ==> array_refusal(value@, 32, "status_proof"@) == Some(error@),
        r matches Ok(bytes) ==> crate::digest::base64url_decoded(value@) == Some(bytes@),
{
    decode_array(value, 32, "status_proof")
}

/// What a device that asks for its credential is answered: how far its enrollment is, and what it
/// holds.
pub struct CredentialResponse {
    pub status: &'static str,
    pub membership: Option<Membership>,
}

/// What an optional membership says.
pub open spec fn membership_view(membership: Option<Membership>) -> Option<MembershipView> {
    match membership {
        Some(membership) => Some(membership@),
        None => None,
    }
}

/// What a device that asks for its credential is answered, once its proof has been judged.
pub fn get_enrollment_credential(
    coordinator: &EnrollmentCoordinator,
    invitation_id: Uuid,
    proof_valid: bool,
) -> (r: Result<CredentialResponse, ApiError>)
    ensures
        match issued(coordinator@, invitation_id, proof_valid) {
            Ok(membership) => r is Ok && membership_view(r->Ok_0.membership) == membership
                && r->Ok_0.status@ == (if membership is Some {
                "approved"@
            } else {
                "pending_approval"@
            }),
            Err(error) => r is Err && r->Err_0@ == identity(error),
        },
{
    match coordinator.credential(invitation_id, proof_valid) {
        Ok(membership) => Ok(
            CredentialResponse {
                status: crate::enrollment::enrollment_status(membership.is_some()),
                membership,
            },
        ),
        Err(error) => Err(ApiError::identity(error)),
    }
}

} // verus!
