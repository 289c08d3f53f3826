//! How a device joins the cluster, seen from the controller.

use base64::Engine;
use constellation::api::devices::{
    export_benchmark_report, get_device_policy, register_device, revoke_device,
    update_device_inventory, update_device_status,
};
use constellation::api::auth::AuthenticatedPrincipal;
use constellation::api::enroll::{
    approve_invitation, begin_enrollment, begin_message, confirm_enrollment, confirm_proof,
    create_invitation, get_enrollment_credential, status_proof, Approval, ConfirmRequest,
    DeviceRegistration, Handshake,
};
use constellation::api::{ApiError, IdentityError};
use constellation::enrollment::{
    decode_array, decode_bounded, enrollment_status, validate_device_registration,
    EnrollmentCoordinator, Membership,
};
use constellation::names::{NodeStatus, OperatingSystem};
use constellation::repository::nodes::InvitationStatus;
use constellation::repository::{Credential, Node, Repository};

const SECOND: i128 = 1_000_000_000;

fn base64url(bytes: &[u8]) -> String {
    base64::engine::general_purpose::URL_SAFE_NO_PAD.encode(bytes)
}

fn code<T>(result: Result<T, ApiError>) -> String {
    match result {
        Ok(_) => String::new(),
        Err(error) => error.code,
    }
}

fn invitation(consumed: bool, approved: bool) -> InvitationStatus {
    InvitationStatus {
        expires_at: 600 * SECOND,
        failed_attempts: 0,
        consumed,
        approved,
        approved_at: if approved { Some(9) } else { None },
    }
}

fn membership() -> Membership {
    Membership { credential: "credential".to_owned(), certificate: "certificate".to_owned() }
}

#[test]
fn enrollment_requires_proof_then_explicit_approval() {
    let mut coordinator = EnrollmentCoordinator::new();
    let begin = coordinator.begin(1, Ok(b"key".to_vec()));
    assert!(begin.is_ok());
    assert!(coordinator.handshake_key(1).is_ok_and(|key| key == b"key"));
    let confirmed = coordinator.confirm(
        1,
        Ok(()),
        5,
        "Joining node".to_owned(),
        vec![7; 32],
        Some(invitation(true, false)),
    );
    assert!(confirmed.is_ok_and(|status| status.consumed && !status.approved));
    assert!(coordinator.credential(1, true).is_ok_and(|credential| credential.is_none()));
    let approved = coordinator.approve(1, Ok(invitation(true, true)), Ok(membership()));
    assert!(approved.is_ok());
    let credential = coordinator.credential(1, true).unwrap_or_default();
    assert!(credential.is_some_and(|value| value.credential == "credential"
        && value.certificate == "certificate"));
}

#[test]
fn a_handshake_is_used_once() {
    let mut coordinator = EnrollmentCoordinator::new();
    assert!(coordinator.begin(1, Err(IdentityError::InvalidHandshake)).is_err());
    assert_eq!(coordinator.handshake_key(1).err(), Some(IdentityError::InvalidHandshake));
    assert!(coordinator.begin(1, Ok(vec![1])).is_ok());
    let mut confirm = |outcome: Result<(), IdentityError>| {
        coordinator.confirm(1, outcome, 5, "n".to_owned(), vec![], Some(invitation(true, false)))
    };
    assert_eq!(confirm(Err(IdentityError::InvalidProof)).err(), Some(IdentityError::InvalidProof));
    assert!(confirm(Ok(())).is_ok());
    assert_eq!(confirm(Ok(())).err(), Some(IdentityError::InvalidHandshake));
}

#[test]
fn an_approval_is_not_issued_twice() {
    let mut coordinator = EnrollmentCoordinator::new();
    assert_eq!(coordinator.handshake_key(1).err(), Some(IdentityError::InvalidHandshake));
    assert!(coordinator.already_issued(1, &None).is_none());
    assert!(coordinator.already_issued(1, &Some(invitation(true, false))).is_none());
    let lost = coordinator.already_issued(1, &Some(invitation(true, true)));
    assert!(lost.is_some_and(|issued| issued.err() == Some(IdentityError::InvitationUnavailable)));
    assert!(coordinator.begin(1, Ok(b"key".to_vec())).is_ok());
    assert!(coordinator
        .confirm(1, Ok(()), 5, "n".to_owned(), vec![], Some(invitation(true, false)))
        .is_ok());
    assert!(coordinator.approve(1, Ok(invitation(true, true)), Ok(membership())).is_ok());
    let again = coordinator.already_issued(1, &Some(invitation(true, true)));
    assert!(again.is_some_and(|issued| issued
        .is_ok_and(|given| given.credential == "credential" && given.certificate == "certificate")));
}

#[test]
fn credentials_go_to_the_prover() {
    let mut coordinator = EnrollmentCoordinator::new();
    assert_eq!(coordinator.enrollment_key(1).err(), Some(IdentityError::InvitationUnavailable));
    assert!(coordinator.approve(1, Ok(invitation(true, true)), Ok(membership())).is_err());
    assert!(coordinator.begin(1, Ok(vec![1])).is_ok());
    assert!(coordinator
        .confirm(1, Ok(()), 5, "n".to_owned(), vec![], Some(invitation(true, false)))
        .is_ok());
    assert_eq!(
        coordinator.approve(1, Err(IdentityError::ApprovalRequired), Ok(membership())).err(),
        Some(IdentityError::ApprovalRequired)
    );
    assert!(coordinator.approve(1, Ok(invitation(true, true)), Ok(membership())).is_ok());
    assert_eq!(coordinator.credential(1, false).err(), Some(IdentityError::InvalidProof));
    let answer = get_enrollment_credential(&coordinator, 1, true);
    assert!(answer.is_ok_and(|answer| answer.status == enrollment_status(true)
        && answer.membership.is_some()));
    assert_ne!(enrollment_status(true), enrollment_status(false));
}

fn registration(name: &str) -> DeviceRegistration {
    DeviceRegistration {
        name: name.to_owned(),
        os: OperatingSystem::Linux,
        architecture: "x86_64".to_owned(),
        capabilities: "{}".to_owned(),
    }
}

#[test]
fn enrollment_messages_are_bounded() {
    assert_eq!(decode_bounded(&base64url(b"ab"), 2, "f").ok(), Some(b"ab".to_vec()));
    let malformed = decode_bounded("@", 2, "field");
    assert!(malformed.is_err_and(|error| error.code == "invalid_enrollment_encoding"
        && error.message == "field is not valid base64url"));
    let long = decode_bounded(&base64url(b"abc"), 2, "field");
    assert!(long.is_err_and(|error| error.code == "invalid_enrollment_message"
        && error.message == "field has an invalid length"));
    assert!(decode_bounded("", 2, "field").is_err());
    let short = decode_array(&base64url(b"ab"), 32, "field");
    assert!(short.is_err_and(|error| error.message == "field must contain exactly 32 bytes"));
    assert_eq!(decode_array(&base64url(&[1; 32]), 32, "field").ok(), Some(vec![1; 32]));
    assert_eq!(begin_message(&base64url(b"hello")).ok(), Some(b"hello".to_vec()));
    assert_eq!(status_proof(&base64url(&[2; 32])).ok(), Some(vec![2; 32]));
    assert!(status_proof(&base64url(&[2; 31])).is_err());
    assert!(validate_device_registration("n", "a").is_ok());
    assert_eq!(code(validate_device_registration(" ", "a")), "invalid_device_name");
    assert_eq!(code(validate_device_registration(&"n".repeat(129), "a")), "invalid_device_name");
    assert_eq!(code(validate_device_registration("n", "")), "invalid_device_architecture");
    let request = |proof: &[u8]| ConfirmRequest {
        invitation_id: 1,
        client_proof: base64url(proof),
        device_id: 5,
        device_public_key: base64url(&[3; 32]),
        device: registration("n"),
    };
    assert!(confirm_proof(&request(&[2; 32])).is_ok_and(|proof| proof.public_key == vec![3; 32]));
    assert!(confirm_proof(&request(&[2; 31])).is_err());
}

#[test]
fn a_device_joins_step_by_step() {
    let mut coordinator = EnrollmentCoordinator::new();
    let mut repository = Repository::new();
    assert!(create_invitation(&mut repository, 1, Some(invitation(false, false)), 0).is_ok());
    let handshake = Handshake {
        key: vec![1],
        controller_message: b"message".to_vec(),
        controller_proof: vec![4; 32],
    };
    let (begun, _) = begin_enrollment(&mut coordinator, &mut repository, 1, Ok(handshake), None, 1);
    assert!(begun.is_ok_and(|begun| begun.controller_message == base64url(b"message")
        && begun.controller_proof == base64url(&[4; 32])));
    let (confirmed, event) = confirm_enrollment(
        &mut coordinator,
        &mut repository,
        1,
        5,
        "node".to_owned(),
        vec![3; 32],
        Ok(()),
        Some(invitation(true, false)),
        2,
    );
    assert!(confirmed.is_ok_and(|status| status.consumed));
    assert!(event.is_some());
    let credential = |document: &str| Credential {
        device_id: 5,
        document: document.to_owned(),
        expires_at: 100 * SECOND,
        revoked_at: None,
    };
    let approval = Approval {
        node: Node {
            id: 5,
            name: "node".to_owned(),
            os: OperatingSystem::Linux,
            architecture: "x86_64".to_owned(),
            status: NodeStatus::Ready,
            capabilities: "{}".to_owned(),
            last_seen_at: 3,
        },
        serial: 8,
        credential: credential("credential"),
        certificate: credential("certificate"),
        status: invitation(true, true),
    };
    assert!(approve_invitation(&mut repository, 1, Ok(approval), 3).is_ok());
    assert!(repository.credential_active(8, 5));
    assert!(!repository.credential_active(8, 6));
    let owner = AuthenticatedPrincipal::Owner;
    assert!(revoke_device(&mut repository, &owner, 5, 4).is_ok());
    assert!(!repository.credential_active(8, 5));
    assert!(approve_invitation(&mut repository, 1, Err(IdentityError::ApprovalRequired), 3).is_err());
}

#[test]
fn devices_are_registered_and_changed() {
    let mut repository = Repository::new();
    let owner = AuthenticatedPrincipal::Owner;
    assert!(register_device(&mut repository, 5, registration("node"), 1).is_ok());
    assert_eq!(code(register_device(&mut repository, 6, registration(""), 1)), "invalid_device_name");
    assert_eq!(repository.list_nodes(), vec![5]);
    assert!(update_device_status(&mut repository, 5, NodeStatus::Draining, 2).is_ok());
    assert!(repository.nodes.get(&5).is_some_and(|device| device.node.status == NodeStatus::Draining));
    assert_eq!(code(update_device_status(&mut repository, 9, NodeStatus::Ready, 2)), "device_not_found");
    let node = AuthenticatedPrincipal::Node(5);
    assert!(update_device_inventory(&mut repository, &node, 5, registration("renamed"), 3).is_ok());
    assert!(repository.nodes.get(&5).is_some_and(|device| device.node.name == "renamed"));
    let other = AuthenticatedPrincipal::Node(6);
    assert_eq!(
        code(update_device_inventory(&mut repository, &other, 5, registration("x"), 3)),
        "forbidden"
    );
    assert!(get_device_policy(&repository, &owner, 5).is_ok_and(|policy| policy.is_none()));
    assert_eq!(code(get_device_policy(&repository, &owner, 9)), "device_not_found");
    let report = export_benchmark_report(&repository, 7);
    assert_eq!((report.generated_at, report.content_included), (7, false));
    assert_eq!(report.nodes, vec![5]);
    assert!(report.policies.len() == 1 && report.policies[0].node_id == 5);
    assert_eq!(report.policies[0].policy, None);
    assert!(repository.put_resource_policy(5, "{}".to_owned(), "local-owner", 1).is_some());
    let report = export_benchmark_report(&repository, 8);
    assert_eq!(report.policies[0].policy.as_deref(), Some("{}"));
}
