//! Workloads as they are asked for.

use crate::ident::Uuid;
use crate::text;
use vstd::prelude::*;

verus! {

/// How urgent a workload is.
#[derive(Clone, Copy, Debug, PartialEq, Eq, Structural)]
pub enum WorkloadClass {
    Interactive,
    Batch,
    Background,
}

/// What the choice of nodes aims at.
#[derive(Clone, Copy, Debug, PartialEq, Eq, Structural)]
pub enum Policy {
    Fastest,
    MostPrivate,
    LowestPower,
    Balanced,
    KeepThisComputerResponsive,
}

/// The word for a class.
pub open spec fn class_word(class: WorkloadClass) -> Seq<char> {
    match class {
        WorkloadClass::Interactive => "interactive"@,
        WorkloadClass::Batch => "batch"@,
        WorkloadClass::Background => "background"@,
    }
}

/// The word for a policy.
pub open spec fn policy_word(policy: Policy) -> Seq<char> {
    match policy {
        Policy::Fastest => "fastest"@,
        Policy::MostPrivate => "most_private"@,
        Policy::LowestPower => "lowest_power"@,
        Policy::Balanced => "balanced"@,
        Policy::KeepThisComputerResponsive => "keep_this_computer_responsive"@,
    }
}

impl WorkloadClass {
    /// The word that the interface knows the class by.
    pub fn as_api(self) -> (word: &'static str)
        ensures
            word@ == class_word(self),
    {
        match self {
            WorkloadClass::Interactive => "interactive",
            WorkloadClass::Batch => "batch",
            WorkloadClass::Background => "background",
        }
    }
}

impl Policy {
    /// The word that the interface knows the policy by.
    pub fn as_api(self) -> (word: &'static str)
        ensures
            word@ == policy_word(self),
    {
        match self {
            Policy::Fastest => "fastest",
            Policy::MostPrivate => "most_private",
            Policy::LowestPower => "lowest_power",
            Policy::Balanced => "balanced",
            Policy::KeepThisComputerResponsive => "keep_this_computer_responsive",
        }
    }
}

/// No two classes and no two policies share a word.
pub proof fn law_words_tell_apart(a: WorkloadClass, b: WorkloadClass, p: Policy, q: Policy)
    ensures
        class_word(a) == class_word(b) ==> a == b,
        policy_word(p) == policy_word(q) ==> p == q,
{
    reveal_strlit("interactive");
    reveal_strlit("batch");
    reveal_strlit("background");
    reveal_strlit("fastest");
    reveal_strlit("most_private");
    reveal_strlit("lowest_power");
    reveal_strlit("balanced");
    reveal_strlit("keep_this_computer_responsive");
    assert("interactive"@.len() == 11 && "batch"@.len() == 5 && "background"@.len() == 10);
    assert("fastest"@[0] == 'f' && "most_private"@[0] == 'm' && "lowest_power"@[0] == 'l'
        && "balanced"@[0] == 'b' && "keep_this_computer_responsive"@[0] == 'k');
}

/// The class of a workload of which nothing is said.
pub fn default_class() -> (class: WorkloadClass)
    ensures
        class == WorkloadClass::Interactive,
{
    WorkloadClass::Interactive
}

/// The policy for a workload of which nothing is said.
pub fn default_policy() -> (policy: Policy)
    ensures
        policy == Policy::Balanced,
{
    Policy::Balanced
}

/// The memory that a workload is taken to need where nothing is said: one gibibyte.
pub fn default_memory() -> (bytes: u64)
    ensures
        bytes == 1_073_741_824,
{
    1024 * 1024 * 1024
}

/// The format of a model where nothing is said.
pub fn default_model_format() -> (format: String)
    ensures
        format@ == "gguf"@,
{
    text::owned("gguf")
}

/// What is so where nothing is said.
pub fn default_true() -> (r: bool)
    ensures
        r,
{
    true
}

/// How many runs of a schedule may be active at once where nothing is said.
pub fn default_schedule_concurrency() -> (n: u16)
    ensures
        n == 1,
{
    1
}

/// How long a controller lease lasts where nothing is said.
pub fn default_controller_lease_seconds() -> (seconds: u8)
    ensures
        seconds == 15,
{
    15
}

/// How many events are listed where nothing is said.
pub fn default_event_limit() -> (n: i64)
    ensures
        n == 100,
{
    100
}

/// A workload as it is asked for.
pub struct WorkloadRequest {
    pub id: Uuid,
    pub model: String,
    pub required_runtime: String,
    pub estimated_memory_bytes: u64,
    pub class: WorkloadClass,
    pub policy: Policy,
    pub allowed_nodes: Vec<Uuid>,
    pub allow_remote: bool,
}

/// The request for a model on the cluster's own nodes.
pub fn local_workload(id: Uuid, model: &str, runtime: String) -> (r: WorkloadRequest)
    ensures
        r.id == id,
        r.model@ == model@,
        r.required_runtime == runtime,
        r.estimated_memory_bytes == 1_073_741_824,
        r.class == WorkloadClass::Interactive,
        r.policy == Policy::Balanced,
        r.allowed_nodes@.len() == 0,
        !r.allow_remote,
{
    WorkloadRequest {
        id,
        model: text::owned(model),
        required_runtime: runtime,
        estimated_memory_bytes: default_memory(),
        class: default_class(),
        policy: default_policy(),
        allowed_nodes: Vec::new(),
        allow_remote: false,
    }
}

/// The request for a cloud provider's model, which the controller itself makes.
pub fn cloud_workload(id: Uuid, public_model: &str, provider: &str, controller: Uuid) -> (r:
    WorkloadRequest)
    ensures
        r.id == id,
        r.model@ == public_model@,
        r.required_runtime@ == provider@,
        r.estimated_memory_bytes == 0,
        r.class == WorkloadClass::Interactive,
        r.policy == Policy::Balanced,
        r.allowed_nodes@ == seq![controller],
        r.allow_remote,
{
    let mut allowed_nodes: Vec<Uuid> = Vec::new();
    allowed_nodes.push(controller);
    WorkloadRequest {
        id,
        model: text::owned(public_model),
        required_runtime: text::owned(provider),
        estimated_memory_bytes: 0,
        class: default_class(),
        policy: default_policy(),
        allowed_nodes,
        allow_remote: true,
    }
}

} // verus!
