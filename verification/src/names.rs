//! The words under which roles, operating systems and states are stored and shown.

use crate::text::same;
use vstd::prelude::*;

verus! {

/// An operating system.
#[derive(Clone, Copy, Debug, PartialEq, Eq, Structural)]
pub enum OperatingSystem {
    Windows,
    MacOs,
    Linux,
    Unknown,
}

/// The state of a node.
#[derive(Clone, Copy, Debug, PartialEq, Eq, Structural)]
pub enum NodeStatus {
    Joining,
    Ready,
    Suspect,
    Offline,
    Revoked,
    Draining,
}

/// What a principal is in the cluster.
#[derive(Clone, Copy, Debug, PartialEq, Eq, Structural)]
pub enum Role {
    Owner,
    Admin,
    Operator,
    Viewer,
    Node,
    Service,
}

/// What a principal may be allowed to do.
#[derive(Clone, Copy, Debug, PartialEq, Eq, Structural)]
pub enum Permission {
    ClusterRead,
    ClusterAdmin,
    WorkloadExecute,
    WorkflowOperate,
    WorkflowApprove,
    PluginAdmin,
    ProviderAdmin,
    TeamAdmin,
    EmergencyControl,
    NodeOperate,
}

/// The word for an operating system.
pub open spec fn os_word(os: OperatingSystem) -> Seq<char> {
    match os {
        OperatingSystem::Windows => "windows"@,
        OperatingSystem::MacOs => "macos"@,
        OperatingSystem::Linux => "linux"@,
        OperatingSystem::Unknown => "unknown"@,
    }
}

/// The word for an operating system.
pub fn os_to_str(os: OperatingSystem) -> (word: &'static str)
    ensures
        word@ == os_word(os),
{
    match os {
        OperatingSystem::Windows => "windows",
        OperatingSystem::MacOs => "macos",
        OperatingSystem::Linux => "linux",
        OperatingSystem::Unknown => "unknown",
    }
}

/// The operating system that a word names; any other word stands for an unknown one.
pub open spec fn os_named(word: Seq<char>) -> OperatingSystem {
    if word == "windows"@ {
        OperatingSystem::Windows
    } else if word == "macos"@ {
        OperatingSystem::MacOs
    } else if word == "linux"@ {
        OperatingSystem::Linux
    } else {
        OperatingSystem::Unknown
    }
}

/// The operating system that a word names.
pub fn str_to_os(os: &str) -> (r: OperatingSystem)
    ensures
        r == os_named(os@),
{
    if same(os, "windows") {
        OperatingSystem::Windows
    } else if same(os, "macos") {
        OperatingSystem::MacOs
    } else if same(os, "linux") {
        OperatingSystem::Linux
    } else {
        OperatingSystem::Unknown
    }
}

/// An operating system is read back as it was written.
pub proof fn law_os_reads_back(os: OperatingSystem)
    ensures
        os_named(os_word(os)) == os,
{
    reveal_strlit("windows");
    reveal_strlit("macos");
    reveal_strlit("linux");
    reveal_strlit("unknown");
    assert("macos"@.len() != "windows"@.len());
    assert("linux"@[0] != "macos"@[0]);
    assert("unknown"@[0] != "windows"@[0]);
}

/// The word for the state of a node.
pub open spec fn status_word(status: NodeStatus) -> Seq<char> {
    match status {
        NodeStatus::Joining => "joining"@,
        NodeStatus::Ready => "ready"@,
        NodeStatus::Suspect => "suspect"@,
        NodeStatus::Offline => "offline"@,
        NodeStatus::Revoked => "revoked"@,
        NodeStatus::Draining => "draining"@,
    }
}

/// The word for the state of a node.
pub fn status_to_str(status: NodeStatus) -> (word: &'static str)
    ensures
        word@ == status_word(status),
{
    match status {
        NodeStatus::Joining => "joining",
        NodeStatus::Ready => "ready",
        NodeStatus::Suspect => "suspect",
        NodeStatus::Offline => "offline",
        NodeStatus::Revoked => "revoked",
        NodeStatus::Draining => "draining",
    }
}

/// The state that a word names; any other word stands for offline.
pub open spec fn status_named(word: Seq<char>) -> NodeStatus {
    if word == "joining"@ {
        NodeStatus::Joining
    } else if word == "ready"@ {
        NodeStatus::Ready
    } else if word == "suspect"@ {
        NodeStatus::Suspect
    } else if word == "revoked"@ {
        NodeStatus::Revoked
    } else if word == "draining"@ {
        NodeStatus::Draining
    } else {
        NodeStatus::Offline
    }
}

/// The state that a word names.
pub fn str_to_status(status: &str) -> (r: NodeStatus)
    ensures
        r == status_named(status@),
{
    if same(status, "joining") {
        NodeStatus::Joining
    } else if same(status, "ready") {
        NodeStatus::Ready
    } else if same(status, "suspect") {
        NodeStatus::Suspect
    } else if same(status, "revoked") {
        NodeStatus::Revoked
    } else if same(status, "draining") {
        NodeStatus::Draining
    } else {
        NodeStatus::Offline
    }
}

/// The state of a node is read back as it was written.
pub proof fn law_status_reads_back(status: NodeStatus)
    ensures
        status_named(status_word(status)) == status,
{
    reveal_strlit("joining");
    reveal_strlit("ready");
    reveal_strlit("suspect");
    reveal_strlit("offline");
    reveal_strlit("revoked");
    reveal_strlit("draining");
    assert("joining"@[0] == 'j' && "ready"@[0] == 'r' && "suspect"@[0] == 's' && "offline"@[0]
        == 'o' && "draining"@[0] == 'd' && "revoked"@[0] == 'r');
    assert("ready"@.len() != "revoked"@.len());
}

/// The word for a role.
pub open spec fn role_word(role: Role) -> Seq<char> {
    match role {
        Role::Owner => "owner"@,
        Role::Admin => "admin"@,
        Role::Operator => "operator"@,
        Role::Viewer => "viewer"@,
        Role::Node => "node"@,
        Role::Service => "service"@,
    }
}

/// The word for a role.
pub fn role_to_str(role: Role) -> (word: &'static str)
    ensures
        word@ == role_word(role),
{
    match role {
        Role::Owner => "owner",
        Role::Admin => "admin",
        Role::Operator => "operator",
        Role::Viewer => "viewer",
        Role::Node => "node",
        Role::Service => "service",
    }
}

/// The role that a word names; any other word stands for a service.
pub open spec fn role_named(word: Seq<char>) -> Role {
    if word == "owner"@ {
        Role::Owner
    } else if word == "admin"@ {
        Role::Admin
    } else if word == "operator"@ {
        Role::Operator
    } else if word == "viewer"@ {
        Role::Viewer
    } else if word == "node"@ {
        Role::Node
    } else {
        Role::Service
    }
}

/// The role that a word names.
pub fn str_to_role(role: &str) -> (r: Role)
    ensures
        r == role_named(role@),
{
    if same(role, "owner") {
        Role::Owner
    } else if same(role, "admin") {
        Role::Admin
    } else if same(role, "operator") {
        Role::Operator
    } else if same(role, "viewer") {
        Role::Viewer
    } else if same(role, "node") {
        Role::Node
    } else {
        Role::Service
    }
}

/// A role is read back as it was written.
pub proof fn law_role_reads_back(role: Role)
    ensures
        role_named(role_word(role)) == role,
{
    reveal_strlit("owner");
    reveal_strlit("admin");
    reveal_strlit("operator");
    reveal_strlit("viewer");
    reveal_strlit("node");
    reveal_strlit("service");
    assert("owner"@[0] == 'o' && "admin"@[0] == 'a' && "viewer"@[0] == 'v' && "node"@[0] == 'n'
        && "service"@[0] == 's' && "operator"@[0] == 'o');
    assert("owner"@.len() != "operator"@.len());
}

} // verus!
