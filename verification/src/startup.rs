//! What a controller or a worker checks and finds out before it serves.

use crate::ident::Uuid;
use crate::names::{os_word, NodeStatus, OperatingSystem};
use crate::repository::leases::ExpiredLeaseAction;
use crate::runtime::{RuntimeEvent, RuntimeEventView};
use crate::text;
use crate::text::{
    ascii_lowercase, is_blank, line_list, occurs_in, split_once_at, str_views, trimmed,
    whole_number,
};
use crate::web::{parse_url, parsed_url};
use vstd::prelude::*;
use vstd::utf8::encode_utf8;

verus! {

// ------------------------------------------------------------------------------------------------
// Settings

/// The address of an interface: its bytes, the most significant first.
#[derive(Clone, Copy)]
pub enum IpAddress {
    V4([u8; 4]),
    V6([u8; 16]),
}

impl IpAddress {
    /// Whether the address is this machine's own: 127.0.0.0/8 or ::1.
    pub open spec fn loopback(&self) -> bool {
        match self {
            IpAddress::V4(bytes) => bytes@[0] == 127,
            IpAddress::V6(bytes) => (forall|i: int| 0 <= i < 15 ==> #[trigger] bytes@[i] == 0)
                && bytes@[15] == 1,
        }
    }

    /// Whether the address stands for all interfaces: 0.0.0.0 or ::.
    pub open spec fn unspecified(&self) -> bool {
        match self {
            IpAddress::V4(bytes) => forall|i: int| 0 <= i < 4 ==> #[trigger] bytes@[i] == 0,
            IpAddress::V6(bytes) => forall|i: int| 0 <= i < 16 ==> #[trigger] bytes@[i] == 0,
        }
    }

    /// Whether the address is this machine's own.
    pub fn is_loopback(&self) -> (r: bool)
        ensures
            r == self.loopback(),
    {
        match self {
            IpAddress::V4(bytes) => bytes[0] == 127,
            IpAddress::V6(bytes) => zeros(bytes.as_slice(), 15) && bytes[15] == 1,
        }
    }

    /// Whether the address stands for all interfaces.
    pub fn is_unspecified(&self) -> (r: bool)
        ensures
            r == self.unspecified(),
    {
        match self {
            IpAddress::V4(bytes) => zeros(bytes.as_slice(), 4),
            IpAddress::V6(bytes) => zeros(bytes.as_slice(), 16),
        }
    }
}

/// Whether the first `n` bytes are zero.
fn zeros(bytes: &[u8], n: usize) -> (r: bool)
    requires
        n <= bytes@.len(),
    ensures
        r == forall|i: int| 0 <= i < n ==> #[trigger] bytes@[i] == 0,
{
    let mut i: usize = 0;
    while i < n
        invariant
            i <= n <= bytes@.len(),
            forall|j: int| 0 <= j < i ==> #[trigger] bytes@[j] == 0,
        decreases n - i,
    {
        if bytes[i] != 0 {
            return false;
        }
        i += 1;
    }
    true
}

/// What a process is to be.
#[derive(Clone, Copy, Debug, PartialEq, Eq, Structural)]
pub enum ProcessRole {
    All,
    Controller,
    Worker,
}

/// Why a process does not start.
#[derive(Clone, Copy, Debug, PartialEq, Eq, Structural)]
pub enum StartError {
    WildcardAddress,
    WeakKey,
    WorkerRestore,
    LlamaPair,
    ExoTriple,
    WorkerController,
    WorkerCredential,
    WorkerKey,
    WorkerOnly,
    EphemeralIdentity,
    OriginHost,
    OriginScheme,
    NoLocalNode,
}

impl StartError {
    /// What the operator is told.
    pub fn message(&self) -> (r: &'static str)
        ensures
            r@ == start_message(*self),
    {
        match self {
            StartError::WildcardAddress => {
                "non-loopback TLS requires an explicit interface IP instead of a wildcard address"
            },
            StartError::WeakKey => {
                "non-loopback binding requires CONSTELLATION_API_KEY with at least 24 characters"
            },
            StartError::WorkerRestore => "a standalone worker cannot restore a controller database",
            StartError::LlamaPair => "--llama-server and --llama-model must be supplied together",
            StartError::ExoTriple => {
                "--exo-endpoint, --exo-revision, and --exo-model must be supplied together"
            },
            StartError::WorkerController => "--role worker requires --controller",
            StartError::WorkerCredential => "--role worker requires --credential",
            StartError::WorkerKey => {
                "standalone workers authenticate with enrollment credentials, not --api-key"
            },
            StartError::WorkerOnly => {
                "--controller, --credential, and --worker-once require --role worker"
            },
            StartError::EphemeralIdentity => {
                "ephemeral identity is restricted to loopback test deployments"
            },
            StartError::OriginHost => "passkey origin must include a host",
            StartError::OriginScheme => "non-loopback passkey origin must use https",
            StartError::NoLocalNode => {
                "standby controller could not observe the active controller's initialized node"
            },
        }
    }
}

/// What the operator is told.
pub open spec fn start_message(error: StartError) -> Seq<char> {
    match error {
        StartError::WildcardAddress => {
            "non-loopback TLS requires an explicit interface IP instead of a wildcard address"@
        },
        StartError::WeakKey => {
            "non-loopback binding requires CONSTELLATION_API_KEY with at least 24 characters"@
        },
        StartError::WorkerRestore => "a standalone worker cannot restore a controller database"@,
        StartError::LlamaPair => "--llama-server and --llama-model must be supplied together"@,
        StartError::ExoTriple => {
            "--exo-endpoint, --exo-revision, and --exo-model must be supplied together"@
        },
        StartError::WorkerController => "--role worker requires --controller"@,
        StartError::WorkerCredential => "--role worker requires --credential"@,
        StartError::WorkerKey => {
            "standalone workers authenticate with enrollment credentials, not --api-key"@
        },
        StartError::WorkerOnly => {
            "--controller, --credential, and --worker-once require --role worker"@
        },
        StartError::EphemeralIdentity => {
            "ephemeral identity is restricted to loopback test deployments"@
        },
        StartError::OriginHost => "passkey origin must include a host"@,
        StartError::OriginScheme => "non-loopback passkey origin must use https"@,
        StartError::NoLocalNode => {
            "standby controller could not observe the active controller's initialized node"@
        },
    }
}

/// Whether a key has at least 24 bytes.
pub open spec fn strong_key(api_key: Option<&str>) -> bool {
    api_key matches Some(key) && encode_utf8(key@).len() >= 24
}

/// Whether a controller may listen at an address with a key.
pub open spec fn may_bind(ip: IpAddress, api_key: Option<&str>) -> bool {
    ip.loopback() || (!ip.unspecified() && strong_key(api_key))
}

/// Checks where a controller listens: beyond this machine it needs a definite interface and a strong
/// key.
pub fn validate_binding(ip: IpAddress, api_key: Option<&str>) -> (r: Result<(), StartError>)
    ensures
        r is Ok == may_bind(ip, api_key),
        r matches Err(error) ==> error == (if ip.unspecified() {
            StartError::WildcardAddress
        } else {
            StartError::WeakKey
        }),
{
    let loopback: bool = ip.is_loopback();
    if !loopback && ip.is_unspecified() {
        return Err(StartError::WildcardAddress);
    }
    let strong: bool = match api_key {
        Some(key) => text::byte_len(key) >= 24,
        None => false,
    };
    if !loopback && !strong {
        return Err(StartError::WeakKey);
    }
    Ok(())
}

/// What listens beyond this machine does so at one interface, and has a key of at least 24 bytes.
pub proof fn law_remote_controllers_have_strong_keys(ip: IpAddress, api_key: Option<&str>)
    requires
        may_bind(ip, api_key),
        !ip.loopback(),
    ensures
        !ip.unspecified(),
        api_key is Some,
        encode_utf8(api_key->0@).len() >= 24,
{
}

/// Checks that no worker is asked to restore a controller's database.
pub fn check_restore(role: ProcessRole, restores: bool) -> (r: Result<(), StartError>)
    ensures
        r is Ok == !(role == ProcessRole::Worker && restores),
        r matches Err(error) ==> error == StartError::WorkerRestore,
{
    if role == ProcessRole::Worker && restores {
        Err(StartError::WorkerRestore)
    } else {
        Ok(())
    }
}

/// Whether the llama.cpp runtime is configured: by its executable and its model, both or neither.
pub fn llama_runtime(server: bool, model: bool) -> (r: Result<bool, StartError>)
    ensures
        r is Ok == (server == model),
        r matches Ok(configured) ==> configured == server,
        r matches Err(error) ==> error == StartError::LlamaPair,
{
    if server != model {
        Err(StartError::LlamaPair)
    } else {
        Ok(server)
    }
}

/// Whether the EXO runtime is configured: by its endpoint, its revision and its model, all or none.
pub fn exo_runtime(endpoint: bool, revision: bool, model: bool) -> (r: Result<bool, StartError>)
    ensures
        r is Ok == (endpoint == revision && revision == model),
        r matches Ok(configured) ==> configured == endpoint,
        r matches Err(error) ==> error == StartError::ExoTriple,
{
    if endpoint != revision || revision != model {
        Err(StartError::ExoTriple)
    } else {
        Ok(endpoint)
    }
}

/// Which settings were given that only one kind of process has.
#[derive(Clone, Copy)]
pub struct RoleSettings {
    pub controller: bool,
    pub credential: bool,
    pub worker_once: bool,
    pub api_key: bool,
}

/// Whether a process is a worker: with what a worker needs, and without a key. Any other is given
/// nothing that only a worker has.
pub fn check_role(role: ProcessRole, settings: RoleSettings) -> (r: Result<bool, StartError>)
    ensures
        role == ProcessRole::Worker ==> (r is Ok == (settings.controller && settings.credential
            && !settings.api_key)),
        role != ProcessRole::Worker ==> (r is Ok == !(settings.controller || settings.credential
            || settings.worker_once)),
        r matches Ok(worker) ==> worker == (role == ProcessRole::Worker),
        r matches Err(error) ==> error == (if role != ProcessRole::Worker {
            StartError::WorkerOnly
        } else if !settings.controller {
            StartError::WorkerController
        } else if !settings.credential {
            StartError::WorkerCredential
        } else {
            StartError::WorkerKey
        }),
{
    if role == ProcessRole::Worker {
        if !settings.controller {
            return Err(StartError::WorkerController);
        }
        if !settings.credential {
            return Err(StartError::WorkerCredential);
        }
        if settings.api_key {
            return Err(StartError::WorkerKey);
        }
        return Ok(true);
    }
    if settings.controller || settings.credential || settings.worker_once {
        return Err(StartError::WorkerOnly);
    }
    Ok(false)
}

/// Checks that an identity that dies with the process serves this machine only.
pub fn check_identity(ephemeral: bool, ip: IpAddress) -> (r: Result<(), StartError>)
    ensures
        r is Ok == (!ephemeral || ip.loopback()),
        r matches Err(error) ==> error == StartError::EphemeralIdentity,
{
    if ephemeral && !ip.is_loopback() {
        Err(StartError::EphemeralIdentity)
    } else {
        Ok(())
    }
}

/// The relying party of a browser origin: its host. Beyond this machine the origin has to use HTTPS.
/// Nothing comes of what is no URL.
pub open spec fn relying_party(origin: Seq<char>, loopback: bool) -> Result<Seq<char>, StartError> {
    match parsed_url(origin) {
        Some(url) => match url.host {
            Some(host) => if !loopback && url.scheme != "https"@ {
                Err(StartError::OriginScheme)
            } else {
                Ok(host)
            },
            None => Err(StartError::OriginHost),
        },
        None => Err(StartError::OriginHost),
    }
}

/// The relying party of a browser origin: its host.
pub fn build_passkey_state(origin: &str, loopback: bool) -> (r: Result<String, StartError>)
    ensures
        match r {
            Ok(host) => relying_party(origin@, loopback) == Ok::<Seq<char>, StartError>(host@),
            Err(error) => relying_party(origin@, loopback) == Err::<Seq<char>, StartError>(error),
        },
{
    let url = match parse_url(origin) {
        Some(url) => url,
        None => return Err(StartError::OriginHost),
    };
    let host = match url.host {
        Some(host) => host,
        None => return Err(StartError::OriginHost),
    };
    if !loopback && !text::same(url.scheme.as_str(), "https") {
        return Err(StartError::OriginScheme);
    }
    Ok(host)
}

/// How often a standby looks for the node that the active controller sets up.
pub const LOCAL_NODE_ATTEMPTS: u8 = 50;

/// Whether a standby that has looked `made` times without success looks again.
pub fn wait_for_initialized_local_node(made: u8) -> (r: Result<(), StartError>)
    ensures
        r is Ok == (made < LOCAL_NODE_ATTEMPTS),
        r matches Err(error) ==> error == StartError::NoLocalNode,
{
    if made < LOCAL_NODE_ATTEMPTS {
        Ok(())
    } else {
        Err(StartError::NoLocalNode)
    }
}

// ------------------------------------------------------------------------------------------------
// The local node

/// An accelerator for inference.
pub struct Accelerator {
    pub vendor: String,
    pub model: String,
    pub memory_bytes: u64,
    pub backends: Vec<String>,
}

/// An accelerator for inference, as values.
pub struct AcceleratorView {
    pub vendor: Seq<char>,
    pub model: Seq<char>,
    pub memory_bytes: u64,
    pub backends: Seq<Seq<char>>,
}

impl Accelerator {
    pub open spec fn view(&self) -> AcceleratorView {
        AcceleratorView {
            vendor: self.vendor@,
            model: self.model@,
            memory_bytes: self.memory_bytes,
            backends: self.backends@.map_values(|backend: String| backend@),
        }
    }
}

/// The first of several texts of which something holds.
pub open spec fn first_where(lines: Seq<Seq<char>>, holds: spec_fn(Seq<char>) -> bool) -> Option<
    Seq<char>,
>
    decreases lines.len(),
{
    if lines.len() == 0 {
        None
    } else if holds(lines[0]) {
        Some(lines[0])
    } else {
        first_where(lines.skip(1), holds)
    }
}

/// A number of mebibytes in bytes, or the greatest number.
pub open spec fn mebibytes(n: nat) -> u64 {
    if n * 1_048_576 > u64::MAX {
        u64::MAX
    } else {
        (n * 1_048_576) as u64
    }
}

/// The accelerator that the driver of NVIDIA lists first: a name, a comma and its memory in mebibytes.
pub open spec fn nvidia_accelerator(output: Seq<char>) -> Option<AcceleratorView> {
    match first_where(line_list(output), |line: Seq<char>| !is_blank(line)) {
        Some(first) => match split_once_at(first, ',') {
            Some((model, memory)) => match whole_number(trimmed(memory)) {
                Some(mib) if mib <= u64::MAX => Some(
                    AcceleratorView {
                        vendor: "nvidia"@,
                        model: trimmed(model),
                        memory_bytes: mebibytes(mib),
                        backends: Seq::empty().push("cuda"@).push("vulkan"@),
                    },
                ),
                _ => None,
            },
            None => None,
        },
        None => None,
    }
}

/// The accelerator that the driver of NVIDIA lists first.
pub fn parse_nvidia_smi(output: &str) -> (r: Option<Accelerator>)
    ensures
        match r {
            Some(accelerator) => nvidia_accelerator(output@) == Some(accelerator@),
            None => nvidia_accelerator(output@) is None,
        },
{
    let lines = text::lines(output);
    let ghost all = line_list(output@);
    let ghost holds = |line: Seq<char>| !is_blank(line);
    let mut i: usize = 0;
    assert(all.skip(0) =~= all);
    while i < lines.len() && text::blank(lines[i])
        invariant
            i <= lines@.len(),
            str_views(lines@) == all,
            holds == (|line: Seq<char>| !is_blank(line)),
            first_where(all, holds) == first_where(all.skip(i as int), holds),
        decreases lines@.len() - i,
    {
        assert(lines@[i as int]@ == str_views(lines@)[i as int]);
        assert(all.skip(i as int)[0] == all[i as int]);
        assert(all.skip(i as int).skip(1) =~= all.skip(i + 1));
        i += 1;
    }
    if i >= lines.len() {
        assert(all.skip(i as int).len() == 0);
        return None;
    }
    let first: &str = lines[i];
    proof {
        assert(first@ == str_views(lines@)[i as int]);
        assert(all.skip(i as int)[0] == first@);
        assert(holds(first@));
    }
    let (model, memory): (&str, &str) = match text::split_once(first, ',') {
        Some((model, memory)) => (model, memory),
        None => return None,
    };
    let mib: u64 = match text::parse_u64(text::trim(memory)) {
        Some(mib) => mib,
        None => return None,
    };
    let memory_bytes: u64 = match mib.checked_mul(1_048_576) {
        Some(bytes) => bytes,
        None => u64::MAX,
    };
    let mut backends: Vec<String> = Vec::new();
    backends.push(text::owned("cuda"));
    backends.push(text::owned("vulkan"));
    let accelerator = Accelerator {
        vendor: text::owned("nvidia"),
        model: text::owned(text::trim(model)),
        memory_bytes,
        backends,
    };
    assert(accelerator@.backends =~= Seq::empty().push("cuda"@).push("vulkan"@));
    Some(accelerator)
}

/// Whether a line of the device list speaks of a display controller of AMD.
pub open spec fn amd_line(line: Seq<char>) -> bool {
    let small = ascii_lowercase(line);
    &&& occurs_in(small, "amd"@) || occurs_in(small, "ati"@)
    &&& occurs_in(small, "vga"@) || occurs_in(small, "display"@)
}

/// The accelerator of AMD that the device list names first; how much memory it has is not known.
pub open spec fn amd_accelerator(output: Seq<char>) -> Option<AcceleratorView> {
    match first_where(line_list(output), |line: Seq<char>| amd_line(line)) {
        Some(line) => Some(
            AcceleratorView {
                vendor: "amd"@,
                model: line,
                memory_bytes: 0,
                backends: Seq::empty().push("vulkan"@),
            },
        ),
        None => None,
    }
}

/// Whether a line of the device list speaks of a display controller of AMD.
fn is_amd_line(line: &str) -> (r: bool)
    ensures
        r == amd_line(line@),
{
    let small = text::to_ascii_lowercase(line);
    (text::contains(small.as_str(), "amd") || text::contains(small.as_str(), "ati")) && (
    text::contains(small.as_str(), "vga") || text::contains(small.as_str(), "display"))
}

/// The accelerator of AMD that the device list names first.
pub fn detect_amd_vulkan_accelerator(output: &str) -> (r: Option<Accelerator>)
    ensures
        match r {
            Some(accelerator) => amd_accelerator(output@) == Some(accelerator@),
            None => amd_accelerator(output@) is None,
        },
{
    let lines = text::lines(output);
    let ghost all = line_list(output@);
    let ghost holds = |line: Seq<char>| amd_line(line);
    let mut i: usize = 0;
    assert(all.skip(0) =~= all);
    while i < lines.len()
        invariant
            i <= lines@.len(),
            str_views(lines@) == all,
            all == line_list(output@),
            holds == (|line: Seq<char>| amd_line(line)),
            first_where(all, holds) == first_where(all.skip(i as int), holds),
        decreases lines@.len() - i,
    {
        let line: &str = lines[i];
        assert(line@ == str_views(lines@)[i as int]);
        assert(all.skip(i as int)[0] == line@);
        if is_amd_line(line) {
            let mut backends: Vec<String> = Vec::new();
            backends.push(text::owned("vulkan"));
            let accelerator = Accelerator {
                vendor: text::owned("amd"),
                model: text::owned(line),
                memory_bytes: 0,
                backends,
            };
            assert(holds(line@));
            assert(accelerator@.backends =~= Seq::empty().push("vulkan"@));
            return Some(accelerator);
        }
        assert(!holds(line@));
        assert(all.skip(i as int).skip(1) =~= all.skip(i + 1));
        i += 1;
    }
    assert(all.skip(i as int).len() == 0);
    None
}

/// What an optional accelerator is.
pub open spec fn accelerator_view(accelerator: Option<Accelerator>) -> Option<AcceleratorView> {
    match accelerator {
        Some(a) => Some(a@),
        None => None,
    }
}

/// The accelerator that a node goes by: NVIDIA's before all others, then that of an Apple machine,
/// which shares the machine's memory, then AMD's.
pub fn detect_accelerator(
    nvidia: Option<Accelerator>,
    apple: bool,
    total_memory_bytes: u64,
    cpu_model: &str,
    amd: Option<Accelerator>,
) -> (r: Option<Accelerator>)
    ensures
        accelerator_view(r) == (if nvidia is Some {
            accelerator_view(nvidia)
        } else if apple {
            Some(
                AcceleratorView {
                    vendor: "apple"@,
                    model: cpu_model@,
                    memory_bytes: total_memory_bytes,
                    backends: Seq::empty().push("metal"@),
                },
            )
        } else {
            accelerator_view(amd)
        }),
{
    match nvidia {
        Some(accelerator) => Some(accelerator),
        None => {
            if apple {
                let mut backends: Vec<String> = Vec::new();
                backends.push(text::owned("metal"));
                let accelerator = Accelerator {
                    vendor: text::owned("apple"),
                    model: text::owned(cpu_model),
                    memory_bytes: total_memory_bytes,
                    backends,
                };
                assert(accelerator@.backends =~= Seq::empty().push("metal"@));
                Some(accelerator)
            } else {
                amd
            }
        },
    }
}

/// What a node was found to have.
pub struct NodeCapabilities {
    pub cpu_model: String,
    pub logical_cores: u16,
    pub memory_total_bytes: u64,
    pub memory_available_bytes: u64,
    pub accelerator: Option<Accelerator>,
    pub runtimes: Vec<String>,
    pub on_battery: bool,
    pub user_active: bool,
    pub temperature_celsius: Option<u64>,
    pub thermal_throttling: Option<bool>,
}

/// This machine as a node.
pub struct LocalNode {
    pub id: Uuid,
    pub name: String,
    pub os: OperatingSystem,
    pub architecture: String,
    pub status: NodeStatus,
    pub capabilities: NodeCapabilities,
    pub last_seen_at: i128,
}

/// This machine as a node: ready, with the runtime that is always there, not on battery, and with a
/// user at it; nothing is known of its temperature.
pub fn local_node(
    id: Uuid,
    name: String,
    os: OperatingSystem,
    architecture: String,
    cpu_model: String,
    logical_cores: u16,
    memory_total_bytes: u64,
    memory_available_bytes: u64,
    runtime_id: String,
    now: i128,
) -> (r: LocalNode)
    ensures
        r.id == id,
        r.name == name,
        r.os == os,
        r.architecture == architecture,
        r.status == NodeStatus::Ready,
        r.last_seen_at == now,
        r.capabilities.cpu_model == cpu_model,
        r.capabilities.logical_cores == logical_cores,
        r.capabilities.memory_total_bytes == memory_total_bytes,
        r.capabilities.memory_available_bytes == memory_available_bytes,
        r.capabilities.accelerator is None,
        r.capabilities.runtimes@ == seq![runtime_id],
        !r.capabilities.on_battery,
        r.capabilities.user_active,
        r.capabilities.temperature_celsius is None,
        r.capabilities.thermal_throttling is None,
{
    let mut runtimes: Vec<String> = Vec::new();
    runtimes.push(runtime_id);
    LocalNode {
        id,
        name,
        os,
        architecture,
        status: NodeStatus::Ready,
        capabilities: NodeCapabilities {
            cpu_model,
            logical_cores,
            memory_total_bytes,
            memory_available_bytes,
            accelerator: None,
            runtimes,
            on_battery: false,
            user_active: true,
            temperature_celsius: None,
            thermal_throttling: None,
        },
        last_seen_at: now,
    }
}

/// The number of logical cores, or the greatest that is told.
pub fn logical_cores(count: usize) -> (n: u16)
    ensures
        n == (if count > u16::MAX {
            u16::MAX as int
        } else {
            count as int
        }),
{
    if count > u16::MAX as usize {
        u16::MAX
    } else {
        count as u16
    }
}

/// The operating system that a platform's word names.
pub open spec fn platform_os(word: Seq<char>) -> OperatingSystem {
    if word == "windows"@ {
        OperatingSystem::Windows
    } else if word == "macos"@ {
        OperatingSystem::MacOs
    } else if word == "linux"@ {
        OperatingSystem::Linux
    } else {
        OperatingSystem::Unknown
    }
}

/// What was found out about this machine.
pub struct MachineFacts {
    pub host_name: Option<String>,
    /// The platform's own word for the operating system.
    pub os: String,
    pub architecture: String,
    pub cpu_model: Option<String>,
    pub cores: usize,
    pub memory_total_bytes: u64,
    pub memory_available_bytes: u64,
    pub accelerator: Option<Accelerator>,
}

/// This machine as a node, from what was found out about it.
pub fn detect_local_node(id: Uuid, facts: MachineFacts, runtime_id: String, now: i128) -> (r: LocalNode)
    ensures
        r.id == id,
        r.name@ == (match facts.host_name {
            Some(name) => name@,
            None => "This computer"@,
        }),
        r.os == platform_os(facts.os@),
        r.architecture == facts.architecture,
        r.status == NodeStatus::Ready,
        r.last_seen_at == now,
        r.capabilities.cpu_model@ == (match facts.cpu_model {
            Some(model) => model@,
            None => "Unknown CPU"@,
        }),
        r.capabilities.logical_cores == (if facts.cores > u16::MAX {
            u16::MAX as int
        } else {
            facts.cores as int
        }),
        r.capabilities.memory_total_bytes == facts.memory_total_bytes,
        r.capabilities.memory_available_bytes == facts.memory_available_bytes,
        r.capabilities.accelerator == facts.accelerator,
        r.capabilities.runtimes@ == seq![runtime_id],
        !r.capabilities.on_battery,
        r.capabilities.user_active,
        r.capabilities.temperature_celsius is None,
        r.capabilities.thermal_throttling is None,
{
    let name = match facts.host_name {
        Some(name) => name,
        None => text::owned("This computer"),
    };
    let cpu_model = match facts.cpu_model {
        Some(model) => model,
        None => text::owned("Unknown CPU"),
    };
    let os: OperatingSystem = if text::same(facts.os.as_str(), "windows") {
        OperatingSystem::Windows
    } else if text::same(facts.os.as_str(), "macos") {
        OperatingSystem::MacOs
    } else if text::same(facts.os.as_str(), "linux") {
        OperatingSystem::Linux
    } else {
        OperatingSystem::Unknown
    };
    let mut node = local_node(
        id,
        name,
        os,
        facts.architecture,
        cpu_model,
        logical_cores(facts.cores),
        facts.memory_total_bytes,
        facts.memory_available_bytes,
        runtime_id,
        now,
    );
    node.capabilities.accelerator = facts.accelerator;
    node
}

// ------------------------------------------------------------------------------------------------
// Liveness

/// What a client that still listens is told of an expired lease: nothing where it is tried again.
pub open spec fn expiry_notice(retried: bool, output_started: bool) -> Option<RuntimeEventView> {
    if retried {
        None
    } else if output_started {
        Some(
            RuntimeEventView::Failure {
                code: "generation_interrupted"@,
                message: "generation stopped after partial output"@,
                retryable: false,
                output_started: true,
            },
        )
    } else {
        Some(
            RuntimeEventView::Failure {
                code: "worker_unavailable"@,
                message: "worker did not accept the retried lease"@,
                retryable: true,
                output_started: false,
            },
        )
    }
}

/// What a client that still listens is told of an expired lease.
pub fn spawn_liveness_monitor(action: &ExpiredLeaseAction) -> (r: Option<RuntimeEvent>)
    ensures
        match r {
            Some(event) => expiry_notice(action.retried, action.output_started) == Some(event@),
            None => expiry_notice(action.retried, action.output_started) is None,
        },
{
    if action.retried {
        return None;
    }
    if action.output_started {
        Some(
            RuntimeEvent::Failure {
                code: text::owned("generation_interrupted"),
                message: text::owned("generation stopped after partial output"),
                retryable: false,
                output_started: true,
            },
        )
    } else {
        Some(
            RuntimeEvent::Failure {
                code: text::owned("worker_unavailable"),
                message: text::owned("worker did not accept the retried lease"),
                retryable: true,
                output_started: false,
            },
        )
    }
}

/// A controller listens on the machine itself without a key; on any other address only under a key of at
/// least 24 bytes, and never on all addresses at once. A key of exactly that length is enough.
pub proof fn law_where_a_controller_may_listen(ip: IpAddress, key: &str)
    ensures
        ip.loopback() ==> may_bind(ip, None),
        !ip.loopback() ==> !may_bind(ip, None),
        !ip.loopback() && !ip.unspecified() ==> (may_bind(ip, Some(key)) <==> encode_utf8(key@).len()
            >= 24),
        !ip.loopback() && ip.unspecified() ==> !may_bind(ip, Some(key)),
        ip matches IpAddress::V4(bytes) ==> (ip.loopback() <==> bytes@[0] == 127),
{
}

/// A passkey's party is the host of the origin, as it is; beyond the machine itself only over HTTPS.
pub proof fn law_the_party_is_the_host(origin: Seq<char>, host: Seq<char>)
    requires
        parsed_url(origin) matches Some(url) && url.host == Some(host),
    ensures
        relying_party(origin, true) == Ok::<Seq<char>, StartError>(host),
        parsed_url(origin)->0.scheme == "https"@ ==> relying_party(origin, false) == Ok::<
            Seq<char>,
            StartError,
        >(host),
        parsed_url(origin)->0.scheme != "https"@ ==> relying_party(origin, false) == Err::<
            Seq<char>,
            StartError,
        >(StartError::OriginScheme),
{
}

/// Who waits for an answer is told of a lease that ran out where it is not tried again: whether it may be
/// asked again is just whether there was no output.
pub proof fn law_expired_leases_are_told(retried: bool, output_started: bool)
    ensures
        expiry_notice(retried, output_started) is None <==> retried,
        expiry_notice(retried, output_started) matches Some(event) ==> (
        event matches RuntimeEventView::Failure { retryable, output_started: told, .. } && told
            == output_started && retryable == !output_started),
{
}

/// What the tool says of an NVIDIA accelerator is taken as it is: its name, and its memory in mebibytes.
pub proof fn law_an_nvidia_line_is_read(model: Seq<char>, memory: Seq<char>, mib: nat)
    requires
        !model.contains(',') && !model.contains('\n') && !memory.contains('\n'),
        whole_number(trimmed(memory)) == Some(mib),
        mib * 1_048_576 <= u64::MAX,
    ensures
        nvidia_accelerator(model + seq![','] + memory) matches Some(found) && found.vendor == "nvidia"@
            && found.model == trimmed(model) && found.memory_bytes == mib * 1_048_576
            && found.backends.contains("cuda"@),
{
    let line = model + seq![','] + memory;
    let n = model.len() as int;
    assert forall|j: int| 0 <= j < line.len() implies line[j] != '\n' by {
        if j < n {
            assert(model.contains(model[j]));
        } else if j > n {
            assert(memory.contains(memory[j - n - 1]));
        }
    }
    text::lemma_position_unique(line, '\n', line.len() as int);
    assert(line_list(line) =~= seq![line]);
    assert(!is_blank(line)) by {
        assert(line[n] == ',');
        assert(!text::white_space(','));
    }
    let blank = |text: Seq<char>| !is_blank(text);
    assert(blank(line));
    assert(first_where(seq![line], blank) == Some(line));
    assert forall|j: int| 0 <= j < n implies line[j] != ',' by {
        assert(model.contains(model[j]));
    }
    text::lemma_position_unique(line, ',', n);
    assert(line.take(n) =~= model);
    assert(line.skip(n + 1) =~= memory);
    assert(Seq::<Seq<char>>::empty().push("cuda"@).push("vulkan"@)[0] == "cuda"@);
}

/// A platform is known by the word under which its operating system is stored.
pub proof fn law_platforms_are_known_by_their_words(os: OperatingSystem)
    ensures
        platform_os(os_word(os)) == os,
{
    reveal_strlit("windows");
    reveal_strlit("macos");
    reveal_strlit("linux");
    reveal_strlit("unknown");
    assert("macos"@.len() != "windows"@.len());
    assert("linux"@[0] != "macos"@[0]);
    assert("unknown"@[0] != "windows"@[0]);
}

/// A display controller under either name of the maker is found, as either kind of controller, however its
/// letters are written; the first one that is listed is taken.
pub proof fn law_an_amd_line_is_found(line: Seq<char>, rest: Seq<char>)
    requires
        !line.contains('\n'),
        line.len() > 0 && line.last() != '\r',
    ensures
        ({
            let small = ascii_lowercase(line);
            let maker = occurs_in(small, "amd"@) || occurs_in(small, "ati"@);
            let controller = occurs_in(small, "vga"@) || occurs_in(small, "display"@);
            &&& amd_line(line) <==> maker && controller
            &&& maker && controller ==> (amd_accelerator(line + seq!['\n'] + rest) matches Some(
                found,
            ) && found.vendor == "amd"@ && found.model == line && found.memory_bytes == 0
                && found.backends == seq!["vulkan"@])
        }),
{
    text::law_lines_read_back(line, rest);
    let all = seq![line] + line_list(rest);
    assert(all[0] == line);
    if amd_line(line) {
        let wanted = |one: Seq<char>| amd_line(one);
        assert(wanted(all[0]));
        assert(first_where(all, wanted) == Some(line));
        assert(Seq::<Seq<char>>::empty().push("vulkan"@) =~= seq!["vulkan"@]);
    }
}

} // verus!
