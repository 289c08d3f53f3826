//! Joining a cluster from the command line.

use crate::api::auth::Method;
use crate::cli::{is_null, null_text, send, sending, CliError, Request, RequestView};
use crate::digest::{
    base64_fits, base64url_decode, base64url_decoded, base64url_encode, base64url_encoded, sha256,
    sha256_of,
};
use crate::ident::{big_endian, uuid_from_slice, Uuid};
use crate::json::{
    array1, fields2, fields3, fields4, fields5, id_json, json_text_at, json_value_at, single,
    text_at, value_at, Fields, Json, JsonView,
};
use crate::text;
use crate::web::{is_loopback_address, loopback_address};
use vstd::prelude::*;

verus! {

// ------------------------------------------------------------------------------------------------
// What the controller sends

/// Bytes that an answer holds in URL-safe Base64: at least one, and at most `max_len`.
pub open spec fn json_bytes(document: Seq<u8>, pointer: Seq<char>, max_len: int) -> Result<
    Seq<u8>,
    CliError,
> {
    match json_text_at(document, pointer) {
        None => Err(CliError::MissingData),
        Some(encoded) => match base64url_decoded(encoded) {
            None => Err(CliError::MalformedData),
            Some(bytes) => if bytes.len() == 0 || bytes.len() > max_len {
                Err(CliError::InvalidLength)
            } else {
                Ok(bytes)
            },
        },
    }
}

/// Bytes that an answer holds in URL-safe Base64: at least one, and at most `max_len`.
pub fn decode_json_base64(document: &[u8], pointer: &str, max_len: usize) -> (r: Result<
    Vec<u8>,
    CliError,
>)
    ensures
        match json_bytes(document@, pointer@, max_len as int) {
            Ok(bytes) => r matches Ok(found) && found@ == bytes,
            Err(error) => r == Err::<Vec<u8>, _>(error),
        },
{
    let encoded = match text_at(document, pointer) {
        Some(encoded) => encoded,
        None => return Err(CliError::MissingData),
    };
    match base64url_decode(encoded.as_str()) {
        Some(bytes) => {
            if bytes.len() == 0 || bytes.len() > max_len {
                Err(CliError::InvalidLength)
            } else {
                Ok(bytes)
            }
        },
        None => Err(CliError::MalformedData),
    }
}

/// Bytes of a fixed number that an answer holds in URL-safe Base64.
pub open spec fn json_array(document: Seq<u8>, pointer: Seq<char>, len: int) -> Result<
    Seq<u8>,
    CliError,
> {
    match json_bytes(document, pointer, len) {
        Ok(bytes) => if bytes.len() == len {
            Ok(bytes)
        } else {
            Err(CliError::InvalidProofLength)
        },
        Err(error) => Err(error),
    }
}

/// Bytes of a fixed number that an answer holds in URL-safe Base64.
pub fn decode_json_array(document: &[u8], pointer: &str, len: usize) -> (r: Result<
    Vec<u8>,
    CliError,
>)
    ensures
        match json_array(document@, pointer@, len as int) {
            Ok(bytes) => r matches Ok(found) && found@ == bytes,
            Err(error) => r == Err::<Vec<u8>, _>(error),
        },
{
    match decode_json_base64(document, pointer, len) {
        Ok(bytes) => {
            if bytes.len() == len {
                Ok(bytes)
            } else {
                Err(CliError::InvalidProofLength)
            }
        },
        Err(error) => Err(error),
    }
}

// ------------------------------------------------------------------------------------------------
// The device

/// Whether an identifier is that of the device with a public key: its bytes begin the digest of the
/// key.
pub open spec fn names_key(id: Uuid, public_key: Seq<u8>) -> bool {
    big_endian(id) == sha256(public_key).take(16)
}

/// The identifier of the device with a public key.
pub fn device_identifier(public_key: &[u8]) -> (id: Uuid)
    ensures
        names_key(id, public_key@),
{
    let digest = sha256_of(public_key);
    let first = vstd::slice::slice_subrange(digest.as_slice(), 0, 16);
    assert(first@ =~= sha256(public_key@).take(16));
    match uuid_from_slice(first) {
        Some(id) => id,
        None => 0,
    }
}

/// The word by which the interface knows an operating system, from the one that the platform has.
pub open spec fn platform_word(os: Seq<char>) -> Seq<char> {
    if os == "windows"@ {
        "windows"@
    } else if os == "macos"@ {
        "mac_os"@
    } else if os == "linux"@ {
        "linux"@
    } else {
        "unknown"@
    }
}

/// The word by which the interface knows an operating system.
pub fn platform(os: &str) -> (r: &'static str)
    ensures
        r@ == platform_word(os@),
{
    if text::same(os, "windows") {
        "windows"
    } else if text::same(os, "macos") {
        "mac_os"
    } else if text::same(os, "linux") {
        "linux"
    } else {
        "unknown"
    }
}

/// What is known of this machine.
pub struct Machine {
    pub host_name: Option<String>,
    pub os: String,
    pub architecture: String,
    pub cpu_model: Option<String>,
    pub logical_cores: u64,
    pub memory_total_bytes: u64,
    pub memory_available_bytes: u64,
}

/// The name of the device: the one that the operator gave, else that of the machine.
pub open spec fn device_name(name: Option<String>, host_name: Option<String>) -> Seq<char> {
    match name {
        Some(name) => name@,
        None => match host_name {
            Some(name) => name@,
            None => "Constellation worker"@,
        },
    }
}

/// What the device can do. One that is only for a test says that all its memory is free.
pub open spec fn device_capabilities(machine: Machine, ephemeral: bool) -> Seq<
    (Seq<char>, JsonView),
> {
    Seq::empty().push(
        (
            "cpu_model"@,
            JsonView::Text(
                match machine.cpu_model {
                    Some(model) => model@,
                    None => "Unknown CPU"@,
                },
            ),
        ),
    ).push(
        (
            "logical_cores"@,
            JsonView::Number(
                if machine.logical_cores > u16::MAX {
                    u16::MAX as int
                } else {
                    machine.logical_cores as int
                },
            ),
        ),
    ).push(("memory_total_bytes"@, JsonView::Number(machine.memory_total_bytes as int))).push(
        (
            "memory_available_bytes"@,
            JsonView::Number(
                if ephemeral {
                    machine.memory_total_bytes as int
                } else {
                    machine.memory_available_bytes as int
                },
            ),
        ),
    ).push(("accelerator"@, JsonView::Null)).push(
        ("runtimes"@, array1(JsonView::Text("mock"@))),
    ).push(("on_battery"@, JsonView::Bool(false))).push(
        ("user_active"@, JsonView::Bool(false)),
    ).push(("temperature_celsius"@, JsonView::Null)).push(
        ("thermal_throttling"@, JsonView::Null),
    )
}

fn capabilities_json(machine: &Machine, ephemeral: bool) -> (r: Json)
    ensures
        r@ == JsonView::Object(device_capabilities(*machine, ephemeral)),
{
    let cpu_model: &str = match &machine.cpu_model {
        Some(model) => model.as_str(),
        None => "Unknown CPU",
    };
    let cores: u64 = if machine.logical_cores > 65_535 {
        65_535
    } else {
        machine.logical_cores
    };
    let available: u64 = if ephemeral {
        machine.memory_total_bytes
    } else {
        machine.memory_available_bytes
    };
    Fields::new().text("cpu_model", cpu_model).number("logical_cores", cores as i128).number(
        "memory_total_bytes",
        machine.memory_total_bytes as i128,
    ).number("memory_available_bytes", available as i128).with("accelerator", Json::Null).with(
        "runtimes",
        single(Json::Text(text::owned("mock"))),
    ).flag("on_battery", false).flag("user_active", false).with(
        "temperature_celsius",
        Json::Null,
    ).with("thermal_throttling", Json::Null).object()
}

/// What the controller is told of the device.
pub open spec fn device_description(
    name: Option<String>,
    machine: Machine,
    ephemeral: bool,
) -> JsonView {
    JsonView::Object(
        fields4(
            ("name"@, JsonView::Text(device_name(name, machine.host_name))),
            ("os"@, JsonView::Text(platform_word(machine.os@))),
            ("architecture"@, JsonView::Text(machine.architecture@)),
            ("capabilities"@, JsonView::Object(device_capabilities(machine, ephemeral))),
        ),
    )
}

fn describe_device(name: &Option<String>, machine: &Machine, ephemeral: bool) -> (r: Json)
    ensures
        r@ == device_description(*name, *machine, ephemeral),
{
    let shown: &str = match name {
        Some(name) => name.as_str(),
        None => match &machine.host_name {
            Some(name) => name.as_str(),
            None => "Constellation worker",
        },
    };
    Fields::new().text("name", shown).text("os", platform(machine.os.as_str())).text(
        "architecture",
        machine.architecture.as_str(),
    ).with("capabilities", capabilities_json(machine, ephemeral)).object()
}

// ------------------------------------------------------------------------------------------------
// The course of an enrollment

/// What the operator asked for.
pub struct EnrollmentOptions {
    pub invitation_id: Uuid,
    /// Whether the secret is that of the link, and not the short code.
    pub link: bool,
    pub name: Option<String>,
    /// How many seconds an approval is waited for; none at all where it is zero.
    pub wait_seconds: u64,
    pub ephemeral: bool,
}

/// How far an enrollment has come.
#[derive(Clone, Copy, Debug, PartialEq, Eq, Structural)]
pub enum EnrollmentStage {
    /// The controller has been asked to begin.
    Beginning,
    /// The controller has answered, and what it sent is being checked.
    Checking,
    /// The device has shown that it knows the secret.
    Confirming,
    /// The approval is waited for; so many times it has been asked for.
    Waiting { asked: u64 },
    Done,
}

/// The request that begins an enrollment.
pub open spec fn begin_request(invitation_id: Uuid, link: bool, client_message: Seq<u8>) -> RequestView {
    sending(
        Method::Post,
        "/constellation/v1/enrollment/begin"@,
        fields3(
            ("invitation_id"@, id_json(invitation_id)),
            (
                "method"@,
                JsonView::Text(
                    if link {
                        "link_secret"@
                    } else {
                        "short_code"@
                    },
                ),
            ),
            ("client_message"@, JsonView::Text(base64url_encoded(client_message))),
        ),
    )
}

/// The request by which a device shows that it knows the secret, and tells what it is.
pub open spec fn confirm_request(
    options: EnrollmentOptions,
    client_proof: Seq<u8>,
    device_id: Uuid,
    public_key: Seq<u8>,
    machine: Machine,
) -> RequestView {
    sending(
        Method::Post,
        "/constellation/v1/enrollment/confirm"@,
        fields5(
            ("invitation_id"@, id_json(options.invitation_id)),
            ("client_proof"@, JsonView::Text(base64url_encoded(client_proof))),
            ("device_id"@, id_json(device_id)),
            ("device_public_key"@, JsonView::Text(base64url_encoded(public_key))),
            ("device"@, device_description(options.name, machine, options.ephemeral)),
        ),
    )
}

/// The request by which a device asks for its credential.
pub open spec fn credential_request(invitation_id: Uuid, status_proof: Seq<u8>) -> RequestView {
    sending(
        Method::Post,
        "/constellation/v1/enrollment/credential"@,
        fields2(
            ("invitation_id"@, id_json(invitation_id)),
            ("status_proof"@, JsonView::Text(base64url_encoded(status_proof))),
        ),
    )
}

/// Whether an answer holds a credential.
pub open spec fn holds_credential(reply: Seq<u8>) -> bool {
    json_value_at(reply, "/credential"@) matches Some(credential) && credential != null_text()
}

/// What follows the wait for an approval.
pub enum Waiting {
    /// The credential is asked for, perhaps after a second.
    Ask(Request),
    /// The answer holds the credential.
    Approved,
    /// Nothing is waited for.
    Finished,
    TimedOut,
}

/// What the controller sent at the beginning.
pub struct ControllerHandshake {
    pub message: Vec<u8>,
    pub proof_bytes: Vec<u8>,
}

/// An enrollment that is being carried out.
pub struct EnrollmentRun {
    pub options: EnrollmentOptions,
    pub stage: EnrollmentStage,
}

impl EnrollmentRun {
    /// Begins an enrollment with the first message of the exchange. A device that is only for a test
    /// joins a controller on this machine only.
    pub fn run_enrollment(base: &str, options: EnrollmentOptions, client_message: &[u8]) -> (r: Result<
        (EnrollmentRun, Request),
        CliError,
    >)
        requires
            base64_fits(client_message@.len()),
        ensures
            if options.ephemeral && !loopback_address(base@) {
                r == Err::<(EnrollmentRun, Request), _>(CliError::EphemeralIdentity)
            } else {
                r matches Ok((run, request)) && run.options == options && run.stage
                    == EnrollmentStage::Beginning && request@ == begin_request(
                    options.invitation_id,
                    options.link,
                    client_message@,
                )
            },
    {
        if options.ephemeral && !is_loopback_address(base) {
            return Err(CliError::EphemeralIdentity);
        }
        let method: &str = if options.link {
            "link_secret"
        } else {
            "short_code"
        };
        let body = Fields::new().id("invitation_id", options.invitation_id).text(
            "method",
            method,
        ).text("client_message", base64url_encode(client_message).as_str()).object();
        let request = send(Method::Post, "/constellation/v1/enrollment/begin", body);
        Ok((EnrollmentRun { options, stage: EnrollmentStage::Beginning }, request))
    }

    /// Takes the answer to the beginning: the message of the exchange, of at most 256 bytes, and the
    /// proof that the controller knows the secret, of 32 bytes.
    pub fn begun(&mut self, reply: &[u8]) -> (r: Result<ControllerHandshake, CliError>)
        requires
            old(self).stage == EnrollmentStage::Beginning,
        ensures
            final(self).options == old(self).options,
            match json_bytes(reply@, "/controller_message"@, 256) {
                Err(error) => r == Err::<ControllerHandshake, _>(error) && final(self).stage
                    == EnrollmentStage::Done,
                Ok(message) => match json_array(reply@, "/controller_proof"@, 32) {
                    Err(error) => r == Err::<ControllerHandshake, _>(error) && final(self).stage
                        == EnrollmentStage::Done,
                    Ok(proven) => r matches Ok(handshake) && handshake.message@ == message
                        && handshake.proof_bytes@ == proven && final(self).stage
                        == EnrollmentStage::Checking,
                },
            },
    {
        self.stage = EnrollmentStage::Done;
        let message = match decode_json_base64(reply, "/controller_message", 256) {
            Ok(message) => message,
            Err(error) => return Err(error),
        };
        match decode_json_array(reply, "/controller_proof", 32) {
            Ok(proof_bytes) => {
                self.stage = EnrollmentStage::Checking;
                Ok(ControllerHandshake { message, proof_bytes })
            },
            Err(error) => Err(error),
        }
    }

    /// Takes whether the exchange gave a key and whether the controller's proof fits it. Only then does
    /// the device show its own proof and its public key, from which its identifier follows.
    pub fn checked(
        &mut self,
        transcript_valid: bool,
        proof_valid: bool,
        client_proof: &[u8],
        public_key: &[u8],
        machine: &Machine,
    ) -> (r: Result<Request, CliError>)
        requires
            old(self).stage == EnrollmentStage::Checking,
            base64_fits(client_proof@.len()),
            base64_fits(public_key@.len()),
        ensures
            final(self).options == old(self).options,
            if !transcript_valid {
                r == Err::<Request, _>(CliError::InvalidTranscript) && final(self).stage
                    == EnrollmentStage::Done
            } else if !proof_valid {
                r == Err::<Request, _>(CliError::InvalidProof) && final(self).stage
                    == EnrollmentStage::Done
            } else {
                final(self).stage == EnrollmentStage::Confirming && r is Ok && exists|
                    device_id: Uuid,
                |
                    #[trigger] names_key(device_id, public_key@) && r->Ok_0@ == confirm_request(
                        old(self).options,
                        client_proof@,
                        device_id,
                        public_key@,
                        *machine,
                    )
            },
    {
        self.stage = EnrollmentStage::Done;
        if !transcript_valid {
            return Err(CliError::InvalidTranscript);
        }
        if !proof_valid {
            return Err(CliError::InvalidProof);
        }
        self.stage = EnrollmentStage::Confirming;
        let device_id = device_identifier(public_key);
        let device = describe_device(&self.options.name, machine, self.options.ephemeral);
        let body = Fields::new().id("invitation_id", self.options.invitation_id).text(
            "client_proof",
            base64url_encode(client_proof).as_str(),
        ).id("device_id", device_id).text(
            "device_public_key",
            base64url_encode(public_key).as_str(),
        ).with("device", device).object();
        let request = send(Method::Post, "/constellation/v1/enrollment/confirm", body);
        assert(names_key(device_id, public_key@));
        assert(request@ == confirm_request(
            old(self).options,
            client_proof@,
            device_id,
            public_key@,
            *machine,
        ));
        Ok(request)
    }

    fn ask(&self, status_proof: &[u8]) -> (r: Request)
        requires
            base64_fits(status_proof@.len()),
        ensures
            r@ == credential_request(self.options.invitation_id, status_proof@),
    {
        let body = Fields::new().id("invitation_id", self.options.invitation_id).text(
            "status_proof",
            base64url_encode(status_proof).as_str(),
        ).object();
        send(Method::Post, "/constellation/v1/enrollment/credential", body)
    }

    /// The device is confirmed: the approval is waited for, unless the operator does not want to wait.
    pub fn confirmed(&mut self, status_proof: &[u8]) -> (r: Waiting)
        requires
            old(self).stage == EnrollmentStage::Confirming,
            base64_fits(status_proof@.len()),
        ensures
            final(self).options == old(self).options,
            if old(self).options.wait_seconds == 0 {
                r == Waiting::Finished && final(self).stage == EnrollmentStage::Done
            } else {
                r matches Waiting::Ask(request) && request@ == credential_request(
                    old(self).options.invitation_id,
                    status_proof@,
                ) && final(self).stage == (EnrollmentStage::Waiting { asked: 1 })
            },
    {
        if self.options.wait_seconds == 0 {
            self.stage = EnrollmentStage::Done;
            return Waiting::Finished;
        }
        self.stage = EnrollmentStage::Waiting { asked: 1 };
        Waiting::Ask(self.ask(status_proof))
    }

    /// Takes the answer to a question for the credential. It is asked for as many times as there are
    /// seconds to wait.
    pub fn asked(&mut self, reply: &[u8], status_proof: &[u8]) -> (r: Waiting)
        requires
            old(self).stage is Waiting,
            base64_fits(status_proof@.len()),
        ensures
            final(self).options == old(self).options,
            if holds_credential(reply@) {
                r == Waiting::Approved && final(self).stage == EnrollmentStage::Done
            } else if old(self).stage->asked >= old(self).options.wait_seconds {
                r == Waiting::TimedOut && final(self).stage == EnrollmentStage::Done
            } else {
                r matches Waiting::Ask(request) && request@ == credential_request(
                    old(self).options.invitation_id,
                    status_proof@,
                ) && final(self).stage == (EnrollmentStage::Waiting {
                    asked: (old(self).stage->asked + 1) as u64,
                })
            },
    {
        let held = match value_at(reply, "/credential") {
            Some(credential) => !is_null(credential.as_slice()),
            None => false,
        };
        if held {
            self.stage = EnrollmentStage::Done;
            return Waiting::Approved;
        }
        let times: u64 = match self.stage {
            EnrollmentStage::Waiting { asked } => asked,
            _ => 0,
        };
        if times >= self.options.wait_seconds {
            self.stage = EnrollmentStage::Done;
            return Waiting::TimedOut;
        }
        self.stage = EnrollmentStage::Waiting { asked: times + 1 };
        Waiting::Ask(self.ask(status_proof))
    }
}

/// Devices with the same key have the same identifier.
pub proof fn law_a_key_has_one_identifier(a: Uuid, b: Uuid, public_key: Seq<u8>)
    requires
        names_key(a, public_key),
        names_key(b, public_key),
    ensures
        a == b,
{
    crate::ident::lemma_big_endian_is_injective(a, b);
}

} // verus!
