//! Nodes: their registration, their liveness, their credentials.

use crate::clock::{has_passed, SECOND};
use crate::ident::{format_uuid, hyphenated, Uuid};
use crate::json::{
    field_of, fields1, fields2, fields3, fields6, id_json, lemma_fields2, lemma_fields3,
    lemma_fields6, optional_id_json, Fields, JsonView,
};
use crate::names::{status_to_str, status_word, NodeStatus};
use crate::repository::events::{all_logged, logged, logged_any};
use crate::repository::{
    audit_of, event, event_of, ClusterEvent, Credential, Device, EventView, Invitation, Node,
    Repository, RepositoryError, RepositoryView, ResourcePolicy,
};
use crate::table::Table;
use crate::text;
use vstd::prelude::*;

verus! {

/// The table of nodes with a node put in: what is known of its place stays.
pub open spec fn with_node(nodes: Map<u128, Device>, node: Node, is_local: bool) -> Map<
    u128,
    Device,
> {
    nodes.insert(
        node.id,
        Device {
            node,
            is_local: if nodes.contains_key(node.id) {
                nodes[node.id].is_local
            } else {
                is_local
            },
        },
    )
}

/// The event that goes with a node's registration.
pub open spec fn node_event(event_type: Seq<char>, node: Node) -> EventView {
    event_of(
        event_type,
        fields3(
            ("node_id"@, id_json(node.id)),
            ("name"@, JsonView::Text(node.name@)),
            ("status"@, JsonView::Text(status_word(node.status))),
        ),
    )
}

/// The event of a node's new state.
pub open spec fn status_event(event_type: Seq<char>, node_id: Uuid, status: NodeStatus) -> EventView {
    event_of(
        event_type,
        fields2(
            ("node_id"@, id_json(node_id)),
            ("status"@, JsonView::Text(status_word(status))),
        ),
    )
}

fn new_status_event(event_type: &str, node_id: Uuid, status: NodeStatus) -> (r: ClusterEvent)
    ensures
        r@ == status_event(event_type@, node_id, status),
{
    event(event_type, Fields::new().id("node_id", node_id).text("status", status_to_str(status)))
}

/// The state that the silence of a node stands for.
pub open spec fn liveness(last_seen_at: int, now: int) -> NodeStatus {
    if now - last_seen_at >= 30 * SECOND {
        NodeStatus::Offline
    } else if now - last_seen_at >= 15 * SECOND {
        NodeStatus::Suspect
    } else {
        NodeStatus::Ready
    }
}

/// Whether the liveness of a node is watched: it is not the local one, and not on its way in or out.
pub open spec fn watched(device: Device) -> bool {
    !device.is_local && device.node.status != NodeStatus::Revoked && device.node.status
        != NodeStatus::Joining && device.node.status != NodeStatus::Draining
}

/// A node in another state.
pub open spec fn in_status(device: Device, status: NodeStatus) -> Device {
    Device { node: Node { status, ..device.node }, ..device }
}

/// A node after its liveness was looked at.
pub open spec fn aged(device: Device, now: int) -> Device {
    if watched(device) {
        in_status(device, liveness(device.node.last_seen_at as int, now))
    } else {
        device
    }
}

/// The nodes after their liveness was looked at.
pub open spec fn all_aged(nodes: Map<u128, Device>, now: int) -> Map<u128, Device> {
    Map::new(|k: u128| nodes.contains_key(k), |k: u128| aged(nodes[k], now))
}

/// The events of the nodes under `keys` whose state changes.
pub open spec fn aging_events(nodes: Map<u128, Device>, keys: Seq<u128>, now: int) -> Seq<EventView>
    decreases keys.len(),
{
    if keys.len() == 0 {
        Seq::empty()
    } else {
        let before = aging_events(nodes, keys.drop_last(), now);
        let device = nodes[keys.last()];
        let next = aged(device, now);
        if next.node.status == device.node.status {
            before
        } else {
            before.push(
                status_event("device.status_changed"@, keys.last(), next.node.status),
            )
        }
    }
}

/// What events say.
pub open spec fn event_views(events: Seq<ClusterEvent>) -> Seq<EventView> {
    events.map_values(|e: ClusterEvent| e@)
}

/// A credential that is revoked from `now` on, unless it was before.
pub open spec fn revoked(credential: Credential, now: i128) -> Credential {
    Credential {
        revoked_at: match credential.revoked_at {
            Some(earlier) => Some(earlier),
            None => Some(now),
        },
        ..credential
    }
}

/// The credentials after those of a device were revoked.
pub open spec fn with_revoked(credentials: Map<u128, Credential>, device_id: Uuid, now: i128) -> Map<
    u128,
    Credential,
> {
    Map::new(
        |k: u128| credentials.contains_key(k),
        |k: u128|
            if credentials[k].device_id == device_id {
                revoked(credentials[k], now)
            } else {
                credentials[k]
            },
    )
}

/// Whether a credential is known, belongs to the device, and is not revoked.
pub open spec fn credential_valid(
    credentials: Map<u128, Credential>,
    serial: Uuid,
    device_id: Uuid,
) -> bool {
    credentials.contains_key(serial) && credentials[serial].device_id == device_id
        && credentials[serial].revoked_at is None
}

/// The state after a node's state was set.
pub open spec fn restated(v: RepositoryView, node_id: Uuid, status: NodeStatus, now: i128) -> RepositoryView {
    RepositoryView {
        nodes: v.nodes.insert(
            node_id,
            Device {
                node: Node { status, last_seen_at: now, ..v.nodes[node_id].node },
                ..v.nodes[node_id]
            },
        ),
        ..v
    }
}

/// The state after a node was heard from: unless it is unknown or revoked, it is ready.
pub open spec fn heard_from(v: RepositoryView, node_id: Uuid, now: i128) -> RepositoryView {
    if v.nodes.contains_key(node_id) && v.nodes[node_id].node.status != NodeStatus::Revoked {
        restated(v, node_id, NodeStatus::Ready, now)
    } else {
        v
    }
}

/// The state after a node was revoked: its credentials are, and somebody is on record for it.
pub open spec fn without_node(v: RepositoryView, node_id: Uuid, now: i128) -> RepositoryView {
    RepositoryView {
        credentials: with_revoked(v.credentials, node_id, now),
        certificates: with_revoked(v.certificates, node_id, now),
        audits: v.audits.push(
            audit_of(
                "local-owner"@,
                "device.revoke"@,
                "device"@,
                Some(node_id),
                Seq::empty(),
                now,
            ),
        ),
        ..restated(v, node_id, NodeStatus::Revoked, now)
    }
}

/// The state after an invitation was stored: until when it holds and when it was made does not change.
pub open spec fn with_invitation(
    v: RepositoryView,
    id: Uuid,
    status: InvitationStatus,
    requested_node_id: Option<Uuid>,
    now: i128,
) -> RepositoryView {
    RepositoryView {
        invitations: v.invitations.insert(
            id,
            if v.invitations.contains_key(id) {
                let known = v.invitations[id];
                Invitation {
                    failed_attempts: status.failed_attempts,
                    consumed: status.consumed,
                    approved: status.approved,
                    approved_at: status.approved_at,
                    requested_node_id: match requested_node_id {
                        Some(node) => Some(node),
                        None => known.requested_node_id,
                    },
                    updated_at: now,
                    ..known
                }
            } else {
                Invitation {
                    expires_at: status.expires_at,
                    failed_attempts: status.failed_attempts,
                    consumed: status.consumed,
                    approved: status.approved,
                    approved_at: status.approved_at,
                    requested_node_id,
                    created_at: now,
                    updated_at: now,
                }
            },
        ),
        ..v
    }
}

/// The event of an invitation, without its secret.
pub open spec fn invitation_event(
    event_type: Seq<char>,
    id: Uuid,
    status: InvitationStatus,
    requested_node_id: Option<Uuid>,
) -> EventView {
    event_of(
        event_type,
        fields6(
            ("invitation_id"@, id_json(id)),
            ("expires_at"@, JsonView::Moment(status.expires_at)),
            ("failed_attempts"@, JsonView::Number(status.failed_attempts as int)),
            ("consumed"@, JsonView::Bool(status.consumed)),
            ("approved"@, JsonView::Bool(status.approved)),
            ("node_id"@, optional_id_json(requested_node_id)),
        ),
    )
}

/// The state after a device was made a member.
pub open spec fn with_member(
    v: RepositoryView,
    node: Node,
    serial: Uuid,
    credential: Credential,
    certificate: Credential,
    invitation_id: Uuid,
    approved_at: Option<i128>,
    now: i128,
) -> RepositoryView {
    RepositoryView {
        nodes: with_node(v.nodes, Node { status: NodeStatus::Ready, ..node }, false),
        credentials: if v.credentials.contains_key(serial) {
            v.credentials
        } else {
            v.credentials.insert(serial, credential)
        },
        certificates: if v.certificates.contains_key(serial) {
            v.certificates
        } else {
            v.certificates.insert(serial, certificate)
        },
        invitations: if v.invitations.contains_key(invitation_id) {
            v.invitations.insert(
                invitation_id,
                Invitation {
                    approved: true,
                    approved_at,
                    updated_at: now,
                    ..v.invitations[invitation_id]
                },
            )
        } else {
            v.invitations
        },
        audits: v.audits.push(
            audit_of(
                "local-owner"@,
                "enrollment.approve"@,
                "device"@,
                Some(node.id),
                fields2(
                    ("invitation_id"@, id_json(invitation_id)),
                    ("credential_serial"@, id_json(serial)),
                ),
                now,
            ),
        ),
        ..v
    }
}

/// The event of a device that was made a member.
pub open spec fn member_event(invitation_id: Uuid, node_id: Uuid, expires_at: i128) -> EventView {
    event_of(
        "enrollment.approved"@,
        fields3(
            ("invitation_id"@, id_json(invitation_id)),
            ("node_id"@, id_json(node_id)),
            ("credential_expires_at"@, JsonView::Moment(expires_at)),
        ),
    )
}

/// At most one node is the local one.
pub open spec fn one_local(nodes: Map<u128, Device>) -> bool {
    forall|a: u128, b: u128|
        #![trigger nodes[a], nodes[b]]
        nodes.contains_key(a) && nodes.contains_key(b) && nodes[a].is_local && nodes[b].is_local
            ==> a == b
}

impl Repository {
    fn upsert_node(&mut self, node: Node, is_local: bool, event_type: &str, now: i128) -> (r:
        ClusterEvent)
        ensures
            final(self)@ == logged(
                RepositoryView {
                    nodes: with_node(old(self)@.nodes, node, is_local),
                    ..old(self)@
                },
                r@,
                now,
            ),
            r@ == node_event(event_type@, node),
    {
        let r = event(
            event_type,
            Fields::new().id("node_id", node.id).text("name", node.name.as_str()).text(
                "status",
                status_to_str(node.status),
            ),
        );
        let id = node.id;
        let is_local = match self.nodes.get(&id) {
            Some(device) => device.is_local,
            None => is_local,
        };
        self.nodes.put(id, Device { node, is_local });
        self.record(r, now)
    }

    /// The identifier of the local node.
    pub fn local_node(&self) -> (id: Option<Uuid>)
        ensures
            match id {
                Some(id) => self@.nodes.contains_key(id) && self@.nodes[id].is_local,
                None => forall|k: u128| #[trigger] self@.nodes.contains_key(k) ==> !self@.nodes[k].is_local,
            },
    {
        let n: usize = self.nodes.len();
        let mut i: usize = 0;
        while i < n
            invariant
                n == self.nodes.keys().len(),
                forall|k: u128|
                    self.nodes@.contains_key(k) == #[trigger] self.nodes.keys().contains(k),
                forall|j: int|
                    0 <= j < i ==> !self.nodes@[#[trigger] self.nodes.keys()[j]].is_local,
                forall|j: int|
                    0 <= j < n ==> self.nodes@.contains_key(#[trigger] self.nodes.keys()[j]),
            decreases n - i,
        {
            if self.nodes.row_at(i).is_local {
                return Some(*self.nodes.key_at(i));
            }
            i += 1;
        }
        assert forall|k: u128| #[trigger] self@.nodes.contains_key(k) implies !self@.nodes[k].is_local by {
            assert(self.nodes.keys().contains(k));
        }
        None
    }

    /// Inserts or refreshes the local node and returns its stable identifier.
    pub fn ensure_local_node(&mut self, detected: Node, now: i128) -> (r: (Uuid, ClusterEvent))
        ensures
            old(self)@.nodes.contains_key(r.0) && old(self)@.nodes[r.0].is_local || (r.0
                == detected.id && forall|k: u128|
                #[trigger] old(self)@.nodes.contains_key(k) ==> !old(self)@.nodes[k].is_local),
            final(self)@ == logged(
                RepositoryView {
                    nodes: with_node(old(self)@.nodes, Node { id: r.0, ..detected }, true),
                    ..old(self)@
                },
                r.1@,
                now,
            ),
            r.1@ == node_event("device.local_ready"@, Node { id: r.0, ..detected }),
    {
        let id: Uuid = match self.local_node() {
            Some(id) => id,
            None => detected.id,
        };
        let node = Node {
            id,
            name: detected.name,
            os: detected.os,
            architecture: detected.architecture,
            status: detected.status,
            capabilities: detected.capabilities,
            last_seen_at: detected.last_seen_at,
        };
        let e = self.upsert_node(node, true, "device.local_ready", now);
        (id, e)
    }

    /// Registers or refreshes a node.
    pub fn register_node(&mut self, node: Node, now: i128) -> (r: ClusterEvent)
        ensures
            final(self)@ == logged(
                RepositoryView { nodes: with_node(old(self)@.nodes, node, false), ..old(self)@ },
                r@,
                now,
            ),
            r@ == node_event("device.registered"@, node),
    {
        self.upsert_node(node, false, "device.registered", now)
    }

    /// Replaces authenticated worker inventory while preserving its stable device identity.
    pub fn update_node_inventory(&mut self, node: Node, now: i128) -> (r: ClusterEvent)
        ensures
            final(self)@ == logged(
                RepositoryView { nodes: with_node(old(self)@.nodes, node, false), ..old(self)@ },
                r@,
                now,
            ),
            r@ == node_event("device.inventory_updated"@, node),
    {
        self.upsert_node(node, false, "device.inventory_updated", now)
    }

    /// Sets the state of a node.
    pub fn update_node_status(&mut self, node_id: Uuid, status: NodeStatus, now: i128) -> (r: Option<
        ClusterEvent,
    >)
        ensures
            r is Some == old(self)@.nodes.contains_key(node_id),
            r matches Some(e) ==> e@ == status_event("device.status_changed"@, node_id, status)
                && final(self)@ == logged(restated(old(self)@, node_id, status, now), e@, now),
            r is None ==> final(self)@ == old(self)@,
    {
        match self.nodes.get_mut(&node_id) {
            Some(device) => {
                device.node.status = status;
                device.node.last_seen_at = now;
            },
            None => return None,
        }
        let e = new_status_event("device.status_changed", node_id, status);
        Some(self.record(e, now))
    }

    /// Records an authenticated heartbeat without allowing a revoked node to rejoin.
    pub fn heartbeat(&mut self, node_id: Uuid, now: i128) -> (r: Option<ClusterEvent>)
        ensures
            final(self)@ == logged_any(heard_from(old(self)@, node_id, now), r, now),
            r is Some == (old(self)@.nodes.contains_key(node_id)
                && old(self)@.nodes[node_id].node.status != NodeStatus::Revoked
                && old(self)@.nodes[node_id].node.status != NodeStatus::Ready),
            r matches Some(e) ==> e@ == status_event(
                "device.recovered"@,
                node_id,
                NodeStatus::Ready,
            ),
    {
        match self.nodes.get_mut(&node_id) {
            Some(device) => {
                let before = device.node.status;
                if before == NodeStatus::Revoked {
                    return None;
                }
                device.node.status = NodeStatus::Ready;
                device.node.last_seen_at = now;
                if before == NodeStatus::Ready {
                    return None;
                }
            },
            None => return None,
        }
        let e = new_status_event("device.recovered", node_id, NodeStatus::Ready);
        Some(self.record(e, now))
    }

    /// Applies the 15-second suspect and 30-second offline thresholds to non-local nodes.
    pub fn reconcile_liveness(&mut self, now: i128) -> (events: Vec<ClusterEvent>)
        ensures
            final(self)@ == all_logged(
                RepositoryView { nodes: all_aged(old(self)@.nodes, now as int), ..old(self)@ },
                event_views(events@),
                now,
            ),
            event_views(events@) == aging_events(
                old(self)@.nodes,
                old(self).nodes.keys(),
                now as int,
            ),
    {
        let mut events: Vec<ClusterEvent> = Vec::new();
        let ghost start = self.nodes@;
        let ghost keys = self.nodes.keys();
        let n: usize = self.nodes.len();
        let mut i: usize = 0;
        assert(keys.take(0) =~= Seq::empty());
        assert(event_views(events@) =~= Seq::empty());
        while i < n
            invariant
                i <= n == keys.len(),
                keys == old(self).nodes.keys(),
                start == old(self)@.nodes,
                self.nodes.keys() == keys,
                keys.no_duplicates(),
                forall|k: u128| start.contains_key(k) == #[trigger] keys.contains(k),
                self@ == all_logged(
                    RepositoryView { nodes: self.nodes@, ..old(self)@ },
                    event_views(events@),
                    now,
                ),
                self.nodes@.dom() == start.dom(),
                forall|j: int|
                    0 <= j < i ==> self.nodes@[#[trigger] keys[j]] == aged(start[keys[j]], now as int),
                forall|j: int| i <= j < n ==> self.nodes@[#[trigger] keys[j]] == start[keys[j]],
                event_views(events@) == aging_events(start, keys.take(i as int), now as int),
            decreases n - i,
        {
            let key: u128 = *self.nodes.key_at(i);
            assert(keys.contains(keys[i as int]));
            assert(keys.take(i + 1).drop_last() =~= keys.take(i as int));
            let ghost before = self.nodes@;
            let ghost events_before = events@;
            let mut changed: Option<NodeStatus> = None;
            match self.nodes.get_mut(&key) {
                Some(device) => {
                    if !device.is_local && device.node.status != NodeStatus::Revoked
                        && device.node.status != NodeStatus::Joining && device.node.status
                        != NodeStatus::Draining {
                        let seen: i128 = device.node.last_seen_at;
                        let desired = if has_passed(30_000_000_000, seen, now) {
                            NodeStatus::Offline
                        } else if has_passed(15_000_000_000, seen, now) {
                            NodeStatus::Suspect
                        } else {
                            NodeStatus::Ready
                        };
                        if desired != device.node.status {
                            device.node.status = desired;
                            changed = Some(desired);
                        }
                    }
                },
                None => {},
            }
            if let Some(desired) = changed {
                let e = new_status_event("device.status_changed", key, desired);
                let e = self.record(e, now);
                events.push(e);
                proof {
                    let told = event_views(events@);
                    assert(told =~= event_views(events_before).push(e@));
                    assert(told.drop_last() =~= event_views(events_before));
                }
            }
            assert(self.nodes@.dom() =~= start.dom());
            i += 1;
        }
        assert(keys.take(n as int) =~= keys);
        assert(self.nodes@ =~= all_aged(start, now as int)) by {
            assert forall|k: u128| start.contains_key(k) implies self.nodes@[k] == aged(
                start[k],
                now as int,
            ) by {
                assert(keys.contains(k));
                let j = choose|j: int| 0 <= j < keys.len() && keys[j] == k;
                assert(self.nodes@[keys[j]] == aged(start[keys[j]], now as int));
            }
        }
        events
    }

    /// Revokes all membership credentials and prevents the device from receiving new work.
    pub fn revoke_node(&mut self, node_id: Uuid, now: i128) -> (r: Option<ClusterEvent>)
        ensures
            r is Some == (old(self)@.nodes.contains_key(node_id)
                && !old(self)@.nodes[node_id].is_local),
            r is None ==> final(self)@ == old(self)@,
            r matches Some(e) ==> e@ == event_of(
                "device.revoked"@,
                fields1(("node_id"@, id_json(node_id))),
            ) && final(self)@ == logged(without_node(old(self)@, node_id, now), e@, now),
    {
        match self.nodes.get_mut(&node_id) {
            Some(device) => {
                if device.is_local {
                    return None;
                }
                device.node.status = NodeStatus::Revoked;
                device.node.last_seen_at = now;
            },
            None => return None,
        }
        revoke_all(&mut self.credentials, node_id, now);
        revoke_all(&mut self.certificates, node_id, now);
        self.audit(
            "local-owner",
            "device.revoke",
            "device",
            Some(node_id),
            Fields::new(),
            now,
        );
        let e = event("device.revoked", Fields::new().id("node_id", node_id));
        Some(self.record(e, now))
    }

    /// Checks that a signed credential is known and has not been revoked.
    pub fn credential_active(&self, serial: Uuid, device_id: Uuid) -> (r: bool)
        ensures
            r == credential_valid(self@.credentials, serial, device_id),
    {
        match self.credentials.get(&serial) {
            Some(credential) => credential.device_id == device_id && credential.revoked_at.is_none(),
            None => false,
        }
    }

    /// The policy of a known node: its own, or none where the defaults hold.
    pub fn resource_policy(&self, node_id: Uuid) -> (r: Option<Option<&ResourcePolicy>>)
        ensures
            r is Some == self@.nodes.contains_key(node_id),
            r matches Some(own) ==> match own {
                Some(policy) => self@.resource_policies.contains_key(node_id) && *policy
                    == self@.resource_policies[node_id],
                None => !self@.resource_policies.contains_key(node_id),
            },
    {
        if self.nodes.contains(&node_id) {
            Some(self.resource_policies.get(&node_id))
        } else {
            None
        }
    }

    /// Stores a validated resource policy and audits its actor without content.
    pub fn put_resource_policy(
        &mut self,
        node_id: Uuid,
        policy: String,
        actor: &str,
        now: i128,
    ) -> (r: Option<ClusterEvent>)
        ensures
            r is Some == old(self)@.nodes.contains_key(node_id),
            r is None ==> final(self)@ == old(self)@,
            r matches Some(e) ==> {
                let row = final(self)@.resource_policies[node_id];
                &&& e@ == event_of(
                    "device.policy_updated"@,
                    fields2(
                        ("node_id"@, id_json(node_id)),
                        ("updated_by"@, JsonView::Text(actor@)),
                    ),
                )
                &&& row.policy == policy && row.updated_by@ == actor@ && row.updated_at == now
                &&& final(self)@ == logged(
                    RepositoryView {
                        resource_policies: old(self)@.resource_policies.insert(node_id, row),
                        audits: old(self)@.audits.push(
                            audit_of(
                                actor@,
                                "device.policy_update"@,
                                "device"@,
                                Some(node_id),
                                Seq::empty(),
                                now,
                            ),
                        ),
                        ..old(self)@
                    },
                    e@,
                    now,
                )
            },
    {
        if !self.nodes.contains(&node_id) {
            return None;
        }
        let row = ResourcePolicy { policy, updated_by: text::owned(actor), updated_at: now };
        self.resource_policies.put(node_id, row);
        self.audit(
            actor,
            "device.policy_update",
            "device",
            Some(node_id),
            Fields::new(),
            now,
        );
        let e = event(
            "device.policy_updated",
            Fields::new().id("node_id", node_id).text("updated_by", actor),
        );
        Some(self.record(e, now))
    }

    /// Stores an invitation without its secret, and an event without content.
    pub fn put_invitation_status(
        &mut self,
        id: Uuid,
        status: InvitationStatus,
        requested_node_id: Option<Uuid>,
        event_type: &str,
        now: i128,
    ) -> (e: ClusterEvent)
        ensures
            final(self)@ == logged(
                with_invitation(old(self)@, id, status, requested_node_id, now),
                e@,
                now,
            ),
            e@ == invitation_event(event_type@, id, status, requested_node_id),
    {
        let row = match self.invitations.get(&id) {
            Some(known) => Invitation {
                expires_at: known.expires_at,
                failed_attempts: status.failed_attempts,
                consumed: status.consumed,
                approved: status.approved,
                approved_at: status.approved_at,
                requested_node_id: match requested_node_id {
                    Some(node) => Some(node),
                    None => known.requested_node_id,
                },
                created_at: known.created_at,
                updated_at: now,
            },
            None => Invitation {
                expires_at: status.expires_at,
                failed_attempts: status.failed_attempts,
                consumed: status.consumed,
                approved: status.approved,
                approved_at: status.approved_at,
                requested_node_id,
                created_at: now,
                updated_at: now,
            },
        };
        self.invitations.put(id, row);
        let e = event(
            event_type,
            Fields::new().id("invitation_id", id).moment("expires_at", status.expires_at).number(
                "failed_attempts",
                status.failed_attempts as i128,
            ).flag("consumed", status.consumed).flag("approved", status.approved).optional_id(
                "node_id",
                requested_node_id,
            ),
        );
        self.record(e, now)
    }

    /// Registers an approved node as ready, stores its credential and its certificate unless they
    /// are stored already, marks the invitation, and audits the approval: all in one.
    pub fn approve_enrollment(
        &mut self,
        node: Node,
        serial: Uuid,
        credential: Credential,
        certificate: Credential,
        invitation_id: Uuid,
        approved_at: Option<i128>,
        now: i128,
    ) -> (e: ClusterEvent)
        ensures
            final(self)@ == logged(
                with_member(
                    old(self)@,
                    node,
                    serial,
                    credential,
                    certificate,
                    invitation_id,
                    approved_at,
                    now,
                ),
                e@,
                now,
            ),
            e@ == member_event(invitation_id, node.id, credential.expires_at),
    {
        let e = event(
            "enrollment.approved",
            Fields::new().id("invitation_id", invitation_id).id("node_id", node.id).moment(
                "credential_expires_at",
                credential.expires_at,
            ),
        );
        let node_id = node.id;
        let is_local = match self.nodes.get(&node_id) {
            Some(device) => device.is_local,
            None => false,
        };
        let node = Node {
            id: node.id,
            name: node.name,
            os: node.os,
            architecture: node.architecture,
            status: NodeStatus::Ready,
            capabilities: node.capabilities,
            last_seen_at: node.last_seen_at,
        };
        self.nodes.put(node_id, Device { node, is_local });
        if !self.credentials.contains(&serial) {
            self.credentials.put(serial, credential);
        }
        if !self.certificates.contains(&serial) {
            self.certificates.put(serial, certificate);
        }
        if let Some(invitation) = self.invitations.get_mut(&invitation_id) {
            invitation.approved = true;
            invitation.approved_at = approved_at;
            invitation.updated_at = now;
        }
        self.audit(
            "local-owner",
            "enrollment.approve",
            "device",
            Some(node_id),
            Fields::new().id("invitation_id", invitation_id).id("credential_serial", serial),
            now,
        );
        self.record(e, now)
    }

    /// Stores the next credential and certificate of a device, under a serial that is new.
    pub fn put_rotated_credential(
        &mut self,
        serial: Uuid,
        credential: Credential,
        certificate: Credential,
        now: i128,
    ) -> (r: Result<ClusterEvent, RepositoryError>)
        ensures
            r is Err == (old(self)@.credentials.contains_key(serial)
                || old(self)@.certificates.contains_key(serial)),
            r matches Err(error) ==> error == RepositoryError::Conflict && final(self)@
                == old(self)@,
            r matches Ok(e) ==> e@ == event_of(
                "device.credentials_rotated"@,
                fields3(
                    ("node_id"@, id_json(credential.device_id)),
                    ("credential_serial"@, id_json(serial)),
                    ("expires_at"@, JsonView::Moment(credential.expires_at)),
                ),
            ) && final(self)@ == logged(
                RepositoryView {
                    credentials: old(self)@.credentials.insert(serial, credential),
                    certificates: old(self)@.certificates.insert(serial, certificate),
                    audits: old(self)@.audits.push(
                        audit_of(
                            hyphenated(credential.device_id),
                            "device.credentials_rotate"@,
                            "device"@,
                            Some(credential.device_id),
                            fields1(("credential_serial"@, id_json(serial))),
                            now,
                        ),
                    ),
                    ..old(self)@
                },
                e@,
                now,
            ),
    {
        if self.credentials.contains(&serial) || self.certificates.contains(&serial) {
            return Err(RepositoryError::Conflict);
        }
        let device_id = credential.device_id;
        let e = event(
            "device.credentials_rotated",
            Fields::new().id("node_id", device_id).id("credential_serial", serial).moment(
                "expires_at",
                credential.expires_at,
            ),
        );
        self.credentials.put(serial, credential);
        self.certificates.put(serial, certificate);
        self.audit(
            format_uuid(device_id).as_str(),
            "device.credentials_rotate",
            "device",
            Some(device_id),
            Fields::new().id("credential_serial", serial),
            now,
        );
        Ok(self.record(e, now))
    }
}

/// What is told of an invitation.
#[derive(Clone, Copy)]
pub struct InvitationStatus {
    pub expires_at: i128,
    pub failed_attempts: u8,
    pub consumed: bool,
    pub approved: bool,
    pub approved_at: Option<i128>,
}

/// Revokes what a device holds.
fn revoke_all(credentials: &mut Table<u128, Credential>, device_id: Uuid, now: i128)
    ensures
        final(credentials)@ == with_revoked(old(credentials)@, device_id, now),
{
    let ghost start = credentials@;
    let ghost keys = credentials.keys();
    let n: usize = credentials.len();
    let mut i: usize = 0;
    while i < n
        invariant
            i <= n == keys.len(),
            start == old(credentials)@,
            credentials.keys() == keys,
            keys.no_duplicates(),
            forall|k: u128| start.contains_key(k) == #[trigger] keys.contains(k),
            credentials@.dom() == start.dom(),
            forall|j: int|
                0 <= j < i ==> credentials@[#[trigger] keys[j]] == with_revoked(
                    start,
                    device_id,
                    now,
                )[keys[j]],
            forall|j: int| i <= j < n ==> credentials@[#[trigger] keys[j]] == start[keys[j]],
        decreases n - i,
    {
        let key: u128 = *credentials.key_at(i);
        assert(keys.contains(keys[i as int]));
        if let Some(credential) = credentials.get_mut(&key) {
            if credential.device_id == device_id && credential.revoked_at.is_none() {
                credential.revoked_at = Some(now);
            }
        }
        assert(credentials@.dom() =~= start.dom());
        i += 1;
    }
    assert(credentials@ =~= with_revoked(start, device_id, now)) by {
        assert forall|k: u128| start.contains_key(k) implies credentials@[k] == with_revoked(
            start,
            device_id,
            now,
        )[k] by {
            assert(keys.contains(k));
            let j = choose|j: int| 0 <= j < keys.len() && keys[j] == k;
            assert(credentials@[keys[j]] == with_revoked(start, device_id, now)[keys[j]]);
        }
    }
}

// ------------------------------------------------------------------------------------------------
// Laws

/// Silence is judged by two thresholds: a node seen within 15 seconds is ready, within 30 suspect,
/// and after that offline.
pub proof fn law_liveness_thresholds(nodes: Map<u128, Device>, id: u128, now: int)
    requires
        nodes.contains_key(id),
        watched(nodes[id]),
    ensures
        all_aged(nodes, now).contains_key(id),
        ({
            let age = now - nodes[id].node.last_seen_at;
            let status = all_aged(nodes, now)[id].node.status;
            &&& age < 15 * SECOND ==> status == NodeStatus::Ready
            &&& 15 * SECOND <= age < 30 * SECOND ==> status == NodeStatus::Suspect
            &&& age >= 30 * SECOND ==> status == NodeStatus::Offline
        }),
{
}

/// Looking at the liveness twice at one moment changes nothing the second time.
pub proof fn law_liveness_settles(nodes: Map<u128, Device>, keys: Seq<u128>, now: int)
    requires
        forall|i: int| 0 <= i < keys.len() ==> nodes.contains_key(#[trigger] keys[i]),
    ensures
        all_aged(all_aged(nodes, now), now) == all_aged(nodes, now),
        aging_events(all_aged(nodes, now), keys, now).len() == 0,
    decreases keys.len(),
{
    assert(all_aged(all_aged(nodes, now), now) =~= all_aged(nodes, now));
    if keys.len() > 0 {
        assert forall|i: int| 0 <= i < keys.drop_last().len() implies nodes.contains_key(
            #[trigger] keys.drop_last()[i],
        ) by {
            assert(keys.drop_last()[i] == keys[i]);
        }
        law_liveness_settles(nodes, keys.drop_last(), now);
        assert(nodes.contains_key(keys[keys.len() - 1]));
    }
}

/// A revoked node stays revoked: its liveness is not looked at.
pub proof fn law_revocation_is_kept_by_liveness(nodes: Map<u128, Device>, id: u128, now: int)
    requires
        nodes.contains_key(id),
        nodes[id].node.status == NodeStatus::Revoked,
    ensures
        all_aged(nodes, now)[id] == nodes[id],
{
}

/// After a device is revoked none of its credentials is active.
pub proof fn law_revoked_credentials_are_inactive(
    credentials: Map<u128, Credential>,
    serial: Uuid,
    device_id: Uuid,
    now: i128,
)
    ensures
        !credential_valid(with_revoked(credentials, device_id, now), serial, device_id),
{
}

/// The revocation of one device leaves the credentials of the others as they are.
pub proof fn law_revocation_spares_others(
    credentials: Map<u128, Credential>,
    serial: Uuid,
    device_id: Uuid,
    other: Uuid,
    now: i128,
)
    requires
        other != device_id,
    ensures
        credential_valid(with_revoked(credentials, device_id, now), serial, other)
            == credential_valid(credentials, serial, other),
{
}

/// Registering a node, or refreshing the local one, never makes a second node local.
pub proof fn law_one_node_is_local(nodes: Map<u128, Device>, node: Node, is_local: bool)
    requires
        one_local(nodes),
        is_local ==> (nodes.contains_key(node.id) && nodes[node.id].is_local) || forall|k: u128|
            #[trigger] nodes.contains_key(k) ==> !nodes[k].is_local,
    ensures
        one_local(with_node(nodes, node, is_local)),
{
}

/// A node that is heard from is ready, and stays so for 15 seconds whenever its liveness is looked at; after
/// 15 seconds of silence it is suspect and after 30 offline, until it is heard from again. One that was
/// revoked does not come back, and no other node is touched.
pub proof fn law_a_heartbeat_keeps_a_node_alive(
    v: RepositoryView,
    node_id: Uuid,
    now: i128,
    later: i128,
    other: u128,
)
    requires
        v.nodes.contains_key(node_id),
    ensures
        ({
            let after = heard_from(v, node_id, now);
            let device = after.nodes[node_id];
            &&& v.nodes[node_id].node.status == NodeStatus::Revoked ==> after == v
            &&& v.nodes[node_id].node.status != NodeStatus::Revoked ==> {
                &&& device.node.status == NodeStatus::Ready
                &&& device.node.last_seen_at == now
                &&& device.node.name == v.nodes[node_id].node.name
                &&& device.node.capabilities == v.nodes[node_id].node.capabilities
                &&& device.is_local == v.nodes[node_id].is_local
                &&& !device.is_local ==> {
                    let status = all_aged(after.nodes, later as int)[node_id].node.status;
                    &&& status == NodeStatus::Ready <==> later - now < 15_000_000_000
                    &&& status == NodeStatus::Suspect <==> 15_000_000_000 <= later - now
                        < 30_000_000_000
                    &&& status == NodeStatus::Offline <==> 30_000_000_000 <= later - now
                }
                &&& device.is_local ==> all_aged(after.nodes, later as int)[node_id] == device
            }
            &&& other != node_id ==> after.nodes[other] == v.nodes[other]
                && after.nodes.contains_key(other) == v.nodes.contains_key(other)
            &&& after.credentials == v.credentials
        }),
{
}

/// Looking at the liveness of nodes changes the states of those that are watched, and nothing else of them;
/// nodes that join, drain, are revoked or are local stay as they are.
pub proof fn law_liveness_changes_only_states(nodes: Map<u128, Device>, id: u128, now: int)
    requires
        nodes.contains_key(id),
    ensures
        ({
            let before = nodes[id];
            let after = all_aged(nodes, now)[id];
            &&& after.node.id == before.node.id
            &&& after.node.name == before.node.name
            &&& after.node.last_seen_at == before.node.last_seen_at
            &&& after.node.capabilities == before.node.capabilities
            &&& after.is_local == before.is_local
            &&& before.is_local || before.node.status == NodeStatus::Revoked || before.node.status
                == NodeStatus::Joining || before.node.status == NodeStatus::Draining ==> after == before
        }),
        all_aged(nodes, now).dom() == nodes.dom(),
{
    assert(all_aged(nodes, now).dom() =~= nodes.dom());
}

/// Every node whose state changes is told of once, with its new state, and no other node is.
pub proof fn law_every_change_of_liveness_is_told(
    nodes: Map<u128, Device>,
    keys: Seq<u128>,
    id: u128,
    now: int,
)
    requires
        keys.contains(id),
        keys.no_duplicates(),
        forall|i: int| 0 <= i < keys.len() ==> nodes.contains_key(#[trigger] keys[i]),
    ensures
        ({
            let status = all_aged(nodes, now)[id].node.status;
            let told = aging_events(nodes, keys, now);
            &&& status != nodes[id].node.status ==> told.contains(
                status_event("device.status_changed"@, id, status),
            )
            &&& told.len() <= keys.len()
            &&& (forall|i: int|
                0 <= i < keys.len() ==> all_aged(nodes, now)[#[trigger] keys[i]].node.status
                    == nodes[keys[i]].node.status) ==> told.len() == 0
        }),
    decreases keys.len(),
{
    let before = keys.drop_last();
    let last = keys.last();
    let told = aging_events(nodes, keys, now);
    let few = aging_events(nodes, before, now);
    assert(nodes.contains_key(keys[keys.len() - 1]));
    assert(forall|i: int| 0 <= i < before.len() ==> before[i] == #[trigger] keys[i]);
    lemma_told_at_most(nodes, before, now);
    let status = all_aged(nodes, now)[id].node.status;
    if id == last {
        if status != nodes[id].node.status {
            assert(told.last() == status_event("device.status_changed"@, id, status));
        }
        if before.len() > 0 && (forall|i: int|
            0 <= i < keys.len() ==> all_aged(nodes, now)[#[trigger] keys[i]].node.status
                == nodes[keys[i]].node.status) {
            assert(before.contains(before[0]));
            law_every_change_of_liveness_is_told(nodes, before, before[0], now);
        }
    } else {
        let i = choose|i: int| 0 <= i < keys.len() && keys[i] == id;
        assert(before[i] == id);
        law_every_change_of_liveness_is_told(nodes, before, id, now);
        if status != nodes[id].node.status {
            let e = status_event("device.status_changed"@, id, status);
            let j = choose|j: int| 0 <= j < few.len() && few[j] == e;
            assert(told[j] == e);
        }
    }
    if forall|i: int|
        0 <= i < keys.len() ==> all_aged(nodes, now)[#[trigger] keys[i]].node.status
            == nodes[keys[i]].node.status {
        assert(all_aged(nodes, now)[keys[keys.len() - 1]].node.status == nodes[keys[keys.len()
            - 1]].node.status);
    }
}

proof fn lemma_told_at_most(nodes: Map<u128, Device>, keys: Seq<u128>, now: int)
    ensures
        aging_events(nodes, keys, now).len() <= keys.len(),
    decreases keys.len(),
{
    if keys.len() > 0 {
        lemma_told_at_most(nodes, keys.drop_last(), now);
    }
}

/// A node that is registered is known as it was given, a known node keeps its place, and every other node
/// stays as it is.
pub proof fn law_a_registered_node_is_known(
    nodes: Map<u128, Device>,
    node: Node,
    is_local: bool,
    other: u128,
)
    ensures
        with_node(nodes, node, is_local).contains_key(node.id),
        with_node(nodes, node, is_local)[node.id].node == node,
        nodes.contains_key(node.id) ==> with_node(nodes, node, is_local)[node.id].is_local
            == nodes[node.id].is_local,
        !nodes.contains_key(node.id) ==> with_node(nodes, node, is_local)[node.id].is_local == is_local,
        other != node.id ==> with_node(nodes, node, is_local).contains_key(other)
            == nodes.contains_key(other) && with_node(nodes, node, is_local)[other] == nodes[other],
{
}

/// A device that was revoked is out: it is marked, holds no valid credential and no valid certificate, does
/// not come back by being heard from or looked at, and somebody is on record for it; what other devices
/// hold stays valid, and what was revoked before keeps its date.
pub proof fn law_a_revoked_device_is_out(
    v: RepositoryView,
    node_id: Uuid,
    now: i128,
    serial: Uuid,
    other: Uuid,
    later: i128,
)
    requires
        v.nodes.contains_key(node_id),
        other != node_id,
    ensures
        ({
            let after = without_node(v, node_id, now);
            &&& after.nodes[node_id].node.status == NodeStatus::Revoked
            &&& heard_from(after, node_id, later).nodes[node_id].node.status == NodeStatus::Revoked
            &&& all_aged(after.nodes, later as int)[node_id].node.status == NodeStatus::Revoked
            &&& !credential_valid(after.credentials, serial, node_id)
            &&& !credential_valid(after.certificates, serial, node_id)
            &&& credential_valid(after.credentials, serial, other) == credential_valid(
                v.credentials,
                serial,
                other,
            )
            &&& credential_valid(after.certificates, serial, other) == credential_valid(
                v.certificates,
                serial,
                other,
            )
            &&& after.nodes[other] == v.nodes[other]
            &&& after.audits.len() == v.audits.len() + 1
            &&& after.audits.last().target_id == Some(node_id)
            &&& after.audits.last().action == "device.revoke"@
            &&& v.credentials.contains_key(serial) && v.credentials[serial].revoked_at is Some
                ==> after.credentials[serial] == v.credentials[serial]
            &&& v.credentials.contains_key(serial) && v.credentials[serial].device_id == node_id
                && v.credentials[serial].revoked_at is None ==> after.credentials[serial].revoked_at
                == Some(now)
        }),
{
}

/// A device that was made a member is ready and holds the credential that was issued to it; an issued serial
/// is never issued anew, so that a revoked one stays revoked; and the invitation is marked.
pub proof fn law_a_member_holds_its_credential(
    v: RepositoryView,
    node: Node,
    serial: Uuid,
    credential: Credential,
    certificate: Credential,
    invitation_id: Uuid,
    approved_at: Option<i128>,
    now: i128,
    other: Uuid,
)
    ensures
        ({
            let after = with_member(
                v,
                node,
                serial,
                credential,
                certificate,
                invitation_id,
                approved_at,
                now,
            );
            &&& after.nodes.contains_key(node.id) && after.nodes[node.id].node.status
                == NodeStatus::Ready
            &&& after.nodes[node.id].node.name == node.name
            &&& after.nodes[node.id].node.capabilities == node.capabilities
            &&& !v.credentials.contains_key(serial) ==> (credential_valid(
                after.credentials,
                serial,
                credential.device_id,
            ) <==> credential.revoked_at is None)
            &&& v.credentials.contains_key(serial) ==> after.credentials == v.credentials
            &&& v.certificates.contains_key(serial) ==> after.certificates == v.certificates
            &&& !v.certificates.contains_key(serial) ==> after.certificates[serial] == certificate
            &&& other != serial ==> after.credentials.contains_key(other)
                == v.credentials.contains_key(other) && after.credentials[other]
                == v.credentials[other]
            &&& v.invitations.contains_key(invitation_id) ==> {
                &&& after.invitations[invitation_id].approved
                &&& after.invitations[invitation_id].approved_at == approved_at
                &&& after.invitations[invitation_id].updated_at == now
                &&& after.invitations[invitation_id].expires_at
                    == v.invitations[invitation_id].expires_at
                &&& after.invitations[invitation_id].failed_attempts
                    == v.invitations[invitation_id].failed_attempts
                &&& after.invitations[invitation_id].consumed
                    == v.invitations[invitation_id].consumed
            }
            &&& after.audits.len() == v.audits.len() + 1
            &&& after.audits.last().target_id == Some(node.id)
        }),
{
}

/// An invitation never holds longer than it was made for: whatever is stored of it later, its expiry and the
/// date of its creation stay, and so does the node that asked for it unless another did.
pub proof fn law_an_invitation_keeps_its_expiry(
    v: RepositoryView,
    id: Uuid,
    status: InvitationStatus,
    requested_node_id: Option<Uuid>,
    now: i128,
    other: Uuid,
)
    ensures
        ({
            let after = with_invitation(v, id, status, requested_node_id, now).invitations;
            &&& after.contains_key(id)
            &&& after[id].failed_attempts == status.failed_attempts
            &&& after[id].consumed == status.consumed
            &&& after[id].approved == status.approved
            &&& after[id].approved_at == status.approved_at
            &&& after[id].updated_at == now
            &&& v.invitations.contains_key(id) ==> {
                &&& after[id].expires_at == v.invitations[id].expires_at
                &&& after[id].created_at == v.invitations[id].created_at
                &&& requested_node_id is None ==> after[id].requested_node_id
                    == v.invitations[id].requested_node_id
            }
            &&& !v.invitations.contains_key(id) ==> after[id].expires_at == status.expires_at
                && after[id].created_at == now
            &&& requested_node_id is Some ==> after[id].requested_node_id == requested_node_id
            &&& other != id ==> after.contains_key(other) == v.invitations.contains_key(other)
                && after[other] == v.invitations[other]
        }),
{
}

/// Of a node that is registered it is told what it is called and in which state it is.
pub proof fn law_a_registration_is_told(event_type: Seq<char>, node: Node)
    ensures
        ({
            let told = node_event(event_type, node);
            &&& told.event_type == event_type
            &&& field_of(told.payload, "node_id"@) == Some(id_json(node.id))
            &&& field_of(told.payload, "name"@) == Some(JsonView::Text(node.name@))
            &&& field_of(told.payload, "status"@) == Some(JsonView::Text(status_word(node.status)))
        }),
{
    reveal_strlit("node_id");
    reveal_strlit("name");
    reveal_strlit("status");
    assert("node_id"@.len() == 7);
    assert("name"@.len() == 4);
    assert("status"@.len() == 6);
    let a = ("node_id"@, id_json(node.id));
    let b = ("name"@, JsonView::Text(node.name@));
    let c = ("status"@, JsonView::Text(status_word(node.status)));
    lemma_fields3(a, b, c, "node_id"@);
    lemma_fields3(a, b, c, "name"@);
    lemma_fields3(a, b, c, "status"@);
}

/// Of a node whose state changes the new state is told.
pub proof fn law_a_new_state_is_told(event_type: Seq<char>, node_id: Uuid, status: NodeStatus)
    ensures
        ({
            let told = status_event(event_type, node_id, status);
            &&& told.event_type == event_type
            &&& field_of(told.payload, "node_id"@) == Some(id_json(node_id))
            &&& field_of(told.payload, "status"@) == Some(JsonView::Text(status_word(status)))
        }),
{
    reveal_strlit("node_id");
    reveal_strlit("status");
    assert("node_id"@.len() == 7);
    assert("status"@.len() == 6);
    let a = ("node_id"@, id_json(node_id));
    let b = ("status"@, JsonView::Text(status_word(status)));
    lemma_fields2(a, b, "node_id"@);
    lemma_fields2(a, b, "status"@);
}

/// Of an invitation all is told but its secret.
pub proof fn law_an_invitation_is_told(
    event_type: Seq<char>,
    id: Uuid,
    status: InvitationStatus,
    node_id: Option<Uuid>,
)
    ensures
        ({
            let told = invitation_event(event_type, id, status, node_id);
            &&& told.event_type == event_type
            &&& field_of(told.payload, "invitation_id"@) == Some(id_json(id))
            &&& field_of(told.payload, "expires_at"@) == Some(JsonView::Moment(status.expires_at))
            &&& field_of(told.payload, "failed_attempts"@) == Some(JsonView::Number(status.failed_attempts as int))
            &&& field_of(told.payload, "consumed"@) == Some(JsonView::Bool(status.consumed))
            &&& field_of(told.payload, "approved"@) == Some(JsonView::Bool(status.approved))
            &&& field_of(told.payload, "node_id"@) == Some(match node_id { Some(node_id) => id_json(node_id), None => JsonView::Null })
        }),
{
    reveal_strlit("invitation_id");
    reveal_strlit("expires_at");
    reveal_strlit("failed_attempts");
    reveal_strlit("consumed");
    reveal_strlit("approved");
    reveal_strlit("node_id");
    assert("invitation_id"@.len() == 13);
    assert("expires_at"@.len() == 10);
    assert("failed_attempts"@.len() == 15);
    assert("consumed"@.len() == 8);
    assert("approved"@.len() == 8);
    assert("node_id"@.len() == 7);
    assert("consumed"@[0] != "approved"@[0]);
    let a = ("invitation_id"@, id_json(id));
    let b = ("expires_at"@, JsonView::Moment(status.expires_at));
    let c = ("failed_attempts"@, JsonView::Number(status.failed_attempts as int));
    let d = ("consumed"@, JsonView::Bool(status.consumed));
    let e = ("approved"@, JsonView::Bool(status.approved));
    let f = ("node_id"@, match node_id { Some(node_id) => id_json(node_id), None => JsonView::Null });
    lemma_fields6(a, b, c, d, e, f, "invitation_id"@);
    lemma_fields6(a, b, c, d, e, f, "expires_at"@);
    lemma_fields6(a, b, c, d, e, f, "failed_attempts"@);
    lemma_fields6(a, b, c, d, e, f, "consumed"@);
    lemma_fields6(a, b, c, d, e, f, "approved"@);
    lemma_fields6(a, b, c, d, e, f, "node_id"@);
}

/// Of a device that is made a member it is told which invitation it came by and how long it may stay.
pub proof fn law_a_new_member_is_told(invitation_id: Uuid, node_id: Uuid, expires_at: i128)
    ensures
        ({
            let told = member_event(invitation_id, node_id, expires_at);
            &&& told.event_type == "enrollment.approved"@
            &&& field_of(told.payload, "invitation_id"@) == Some(id_json(invitation_id))
            &&& field_of(told.payload, "node_id"@) == Some(id_json(node_id))
            &&& field_of(told.payload, "credential_expires_at"@) == Some(JsonView::Moment(expires_at))
        }),
{
    reveal_strlit("invitation_id");
    reveal_strlit("node_id");
    reveal_strlit("credential_expires_at");
    assert("invitation_id"@.len() == 13);
    assert("node_id"@.len() == 7);
    assert("credential_expires_at"@.len() == 21);
    let a = ("invitation_id"@, id_json(invitation_id));
    let b = ("node_id"@, id_json(node_id));
    let c = ("credential_expires_at"@, JsonView::Moment(expires_at));
    lemma_fields3(a, b, c, "invitation_id"@);
    lemma_fields3(a, b, c, "node_id"@);
    lemma_fields3(a, b, c, "credential_expires_at"@);
}

/// The state of a node is set for that node alone; what the node is stays as it was.
pub proof fn law_a_state_is_set_for_one_node(
    v: RepositoryView,
    node_id: Uuid,
    status: NodeStatus,
    now: i128,
    other: u128,
)
    ensures
        ({
            let after = restated(v, node_id, status, now);
            let before = v.nodes[node_id];
            &&& after.nodes[node_id].node.status == status
            &&& after.nodes[node_id].node.last_seen_at == now
            &&& after.nodes[node_id].node.id == before.node.id
            &&& after.nodes[node_id].node.name == before.node.name
            &&& after.nodes[node_id].node.os == before.node.os
            &&& after.nodes[node_id].node.architecture == before.node.architecture
            &&& after.nodes[node_id].node.capabilities == before.node.capabilities
            &&& after.nodes[node_id].is_local == before.is_local
            &&& other != node_id ==> after.nodes.contains_key(other) == v.nodes.contains_key(other)
                && after.nodes[other] == v.nodes[other]
            &&& after.credentials == v.credentials
            &&& after.certificates == v.certificates
        }),
{
}

} // verus!
