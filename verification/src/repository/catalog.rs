//! What the cluster keeps beside its nodes and workloads: plugins, models, conversations, policies and
//! measurements.

use crate::cloud::CloudAdapterPolicy;
use crate::ident::Uuid;
use crate::json::{
    field_of, fields1, fields3, fields4, fields5, fields6, id_json, lemma_fields3, lemma_fields4,
    lemma_fields5, Fields, Json, JsonView,
};
use crate::order::{insert_place, ordered, Place};
use crate::repository::events::logged;
use crate::repository::quota::DATABASE_MAX;
use crate::repository::{
    audit_of, event, event_of, local_only, Benchmark, ClusterEvent, Conversation, EventView, Grant,
    Message, Model, NetworkPolicy, Observation, PlanObservation, Plugin, Repository, RepositoryError,
    RepositoryView, ExecutionTraceSpan, TransferTicket,
};
use crate::table::lemma_one_more;
use crate::text;
use vstd::prelude::*;

verus! {

/// The state after a plugin was installed: it is disabled, and what was granted to it is void.
pub open spec fn installed(v: RepositoryView, id: Seq<char>, plugin: Plugin) -> RepositoryView {
    RepositoryView {
        plugins: v.plugins.insert(id, Plugin { enabled: false, ..plugin }),
        grants: v.grants.remove(id),
        ..v
    }
}

/// Whether a grant is for the component that is installed.
pub open spec fn grant_fits(v: RepositoryView, id: Seq<char>, grant: Grant) -> bool {
    v.plugins.contains_key(id) && v.plugins[id].sha256@ == grant.component_sha256@
}

/// The state after a plugin was granted what it asks for: it is enabled.
pub open spec fn granted(v: RepositoryView, id: Seq<char>, grant: Grant) -> RepositoryView {
    RepositoryView {
        plugins: v.plugins.insert(id, Plugin { enabled: true, ..v.plugins[id] }),
        grants: v.grants.insert(id, grant),
        ..v
    }
}

/// Whether a plugin may run: it is enabled, and there is a grant for the very component that is
/// installed.
pub open spec fn may_run(v: RepositoryView, id: Seq<char>) -> bool {
    &&& v.plugins.contains_key(id)
    &&& v.plugins[id].enabled
    &&& v.grants.contains_key(id)
    &&& v.grants[id].component_sha256@ == v.plugins[id].sha256@
}

/// Whether every plugin that is enabled has a grant for the very component that is installed.
pub open spec fn enabled_are_granted(v: RepositoryView) -> bool {
    forall|id: Seq<char>| #[trigger]
        v.plugins.contains_key(id) && v.plugins[id].enabled ==> may_run(v, id)
}

/// The state after a conversation was deleted: its messages are gone, and no others.
pub open spec fn forgotten(v: RepositoryView, id: u128) -> RepositoryView {
    RepositoryView {
        conversations: v.conversations.remove(id),
        messages: Map::new(
            |k: u128| v.messages.contains_key(k) && v.messages[k].conversation_id != id,
            |k: u128| v.messages[k],
        ),
        ..v
    }
}

/// The state after a message was stored: its conversation, where it is known, is dated by it.
pub open spec fn with_message(v: RepositoryView, id: u128, message: Message) -> RepositoryView {
    RepositoryView {
        messages: v.messages.insert(id, message),
        conversations: if v.conversations.contains_key(message.conversation_id) {
            v.conversations.insert(
                message.conversation_id,
                Conversation {
                    updated_at: message.created_at,
                    ..v.conversations[message.conversation_id]
                },
            )
        } else {
            v.conversations
        },
        ..v
    }
}

/// A model as its manifest describes it.
pub struct ModelManifest {
    pub alias: String,
    pub sha256: String,
    pub format: String,
    pub quantization: String,
    pub size_bytes: u64,
    pub pinned: bool,
    /// The manifest, as encoded text.
    pub encoded: String,
}

/// The state after a verified model was stored. A size that the database cannot hold is stored as the
/// greatest that it can.
pub open spec fn with_model(v: RepositoryView, manifest: ModelManifest, now: i128) -> RepositoryView {
    RepositoryView {
        models: v.models.insert(
            manifest.alias@,
            Model {
                sha256: manifest.sha256,
                format: manifest.format,
                quantization: manifest.quantization,
                size_bytes: if manifest.size_bytes > DATABASE_MAX {
                    DATABASE_MAX
                } else {
                    manifest.size_bytes
                },
                pinned: manifest.pinned,
                manifest: manifest.encoded,
                updated_at: now,
            },
        ),
        ..v
    }
}

/// The event of a verified model.
pub open spec fn model_event(manifest: ModelManifest) -> EventView {
    event_of(
        "model.verified"@,
        fields5(
            ("alias"@, JsonView::Text(manifest.alias@)),
            ("sha256"@, JsonView::Text(manifest.sha256@)),
            ("size_bytes"@, JsonView::Number(manifest.size_bytes as int)),
            ("format"@, JsonView::Text(manifest.format@)),
            ("pinned"@, JsonView::Bool(manifest.pinned)),
        ),
    )
}

/// What is stored of how the plan of a workload turned out.
pub open spec fn observation_of(
    workload_id: Uuid,
    observation: PlanObservation,
    now: i128,
) -> Observation {
    Observation {
        plan_id: observation.plan_id,
        workload_id,
        observation: observation.observation,
        materially_missed: observation.materially_missed,
        observed_at: now,
    }
}

/// The event of how a plan turned out.
pub open spec fn observed_event(workload_id: Uuid, observation: PlanObservation) -> EventView {
    event_of(
        "plan.observed"@,
        fields3(
            ("workload_id"@, id_json(workload_id)),
            ("plan_id"@, id_json(observation.plan_id)),
            ("materially_missed"@, JsonView::Bool(observation.materially_missed)),
        ),
    )
}

/// The event of a network policy that was stored.
pub open spec fn policy_event(policy: NetworkPolicy) -> EventView {
    event_of(
        "network.policy_updated"@,
        fields4(
            ("remote_enabled"@, JsonView::Bool(policy.remote_enabled)),
            ("managed_relay_enabled"@, JsonView::Bool(policy.managed_relay_enabled)),
            (
                "self_hosted_relay_configured"@,
                JsonView::Bool(policy.self_hosted_relay is Some),
            ),
            (
                "monthly_remote_byte_quota"@,
                JsonView::Number(policy.monthly_remote_byte_quota as int),
            ),
        ),
    )
}

/// The state after a network policy was stored, which is audited and logged.
pub open spec fn stored_policy(v: RepositoryView, policy: NetworkPolicy, now: i128) -> RepositoryView {
    logged(
        RepositoryView {
            network_policy: Some(policy),
            audits: v.audits.push(
                audit_of(
                    "local-owner"@,
                    "network.policy_update"@,
                    "cluster"@,
                    None,
                    Seq::empty(),
                    now,
                ),
            ),
            ..v
        },
        policy_event(policy),
        now,
    )
}

impl Repository {
    /// Installs a plugin, or upgrades it: it is disabled, and its grant is void, until a new grant is
    /// approved.
    pub fn put_plugin(&mut self, id: String, plugin: Plugin, now: i128) -> (e: ClusterEvent)
        ensures
            final(self)@ == logged(installed(old(self)@, id@, plugin), e@, now),
            e@ == event_of(
                "plugin.installed"@,
                fields4(
                    ("plugin_id"@, JsonView::Text(id@)),
                    ("version"@, JsonView::Text(plugin.version@)),
                    ("sha256"@, JsonView::Text(plugin.sha256@)),
                    ("enabled"@, JsonView::Bool(false)),
                ),
            ),
    {
        let e = event(
            "plugin.installed",
            Fields::new().text("plugin_id", id.as_str()).text("version", plugin.version.as_str()).text(
                "sha256",
                plugin.sha256.as_str(),
            ).flag("enabled", false),
        );
        self.grants.remove(&id);
        self.plugins.put(
            id,
            Plugin {
                version: plugin.version,
                kind: plugin.kind,
                sha256: plugin.sha256,
                manifest: plugin.manifest,
                component_path: plugin.component_path,
                enabled: false,
            },
        );
        self.record(e, now)
    }

    /// Stores a grant for the component that is installed, and enables the plugin: both or neither.
    pub fn put_plugin_grant(&mut self, id: String, grant: Grant, now: i128) -> (r: Result<
        ClusterEvent,
        RepositoryError,
    >)
        ensures
            r is Ok == grant_fits(old(self)@, id@, grant),
            r matches Err(error) ==> error == RepositoryError::GrantMismatch && final(self)@
                == old(self)@,
            r matches Ok(e) ==> final(self)@ == logged(granted(old(self)@, id@, grant), e@, now) && e@ == event_of(
                "plugin.granted"@,
                fields4(
                    ("plugin_id"@, JsonView::Text(id@)),
                    ("component_sha256"@, JsonView::Text(grant.component_sha256@)),
                    ("permission_count"@, JsonView::Number(grant.permissions@.len() as int)),
                    ("approved_by"@, JsonView::Text(grant.approved_by@)),
                ),
            ),
    {
        match self.plugins.get_mut(&id) {
            Some(plugin) => {
                if !text::same(plugin.sha256.as_str(), grant.component_sha256.as_str()) {
                    return Err(RepositoryError::GrantMismatch);
                }
                plugin.enabled = true;
            },
            None => return Err(RepositoryError::GrantMismatch),
        }
        let count: usize = grant.permissions.len();
        let e = event(
            "plugin.granted",
            Fields::new().text("plugin_id", id.as_str()).text(
                "component_sha256",
                grant.component_sha256.as_str(),
            ).number("permission_count", count as i128).text(
                "approved_by",
                grant.approved_by.as_str(),
            ),
        );
        self.grants.put(id, grant);
        Ok(self.record(e, now))
    }

    /// A plugin as it is stored.
    pub fn plugin(&self, id: &str) -> (r: Option<&Plugin>)
        ensures
            r is Some == self@.plugins.contains_key(id@),
            r matches Some(plugin) ==> *plugin == self@.plugins[id@],
    {
        self.plugins.get(&text::owned(id))
    }

    /// The grant of a plugin.
    pub fn plugin_grant(&self, id: &str) -> (r: Option<&Grant>)
        ensures
            r is Some == self@.grants.contains_key(id@),
            r matches Some(grant) ==> *grant == self@.grants[id@],
    {
        self.grants.get(&text::owned(id))
    }

    /// Stores a policy for a cloud provider, or changes it.
    pub fn put_cloud_policy(&mut self, policy: CloudAdapterPolicy, now: i128) -> (e: ClusterEvent)
        ensures
            final(self)@ == logged(
                RepositoryView {
                    cloud_policies: old(self)@.cloud_policies.insert(policy.id, policy),
                    ..old(self)@
                },
                e@,
                now,
            ),
            e@ == event_of(
                "cloud_policy.updated"@,
                fields3(
                    ("policy_id"@, id_json(policy.id)),
                    ("provider_plugin"@, JsonView::Text(policy.provider_plugin@)),
                    ("enabled"@, JsonView::Bool(policy.enabled)),
                ),
            ),
    {
        let e = event(
            "cloud_policy.updated",
            Fields::new().id("policy_id", policy.id).text(
                "provider_plugin",
                policy.provider_plugin.as_str(),
            ).flag("enabled", policy.enabled),
        );
        self.cloud_policies.put(policy.id, policy);
        self.record(e, now)
    }

    /// Stores a verified model under its alias, in place of the one that stood there. A size that the
    /// database cannot hold is stored as the greatest that it can.
    pub fn put_model(&mut self, manifest: ModelManifest, now: i128) -> (e: ClusterEvent)
        ensures
            final(self)@ == logged(with_model(old(self)@, manifest, now), e@, now),
            e@ == model_event(manifest),
    {
        let e = event(
            "model.verified",
            Fields::new().text("alias", manifest.alias.as_str()).text(
                "sha256",
                manifest.sha256.as_str(),
            ).number("size_bytes", manifest.size_bytes as i128).text(
                "format",
                manifest.format.as_str(),
            ).flag("pinned", manifest.pinned),
        );
        self.models.put(
            manifest.alias,
            Model {
                sha256: manifest.sha256,
                format: manifest.format,
                quantization: manifest.quantization,
                size_bytes: if manifest.size_bytes > DATABASE_MAX {
                    DATABASE_MAX
                } else {
                    manifest.size_bytes
                },
                pinned: manifest.pinned,
                manifest: manifest.encoded,
                updated_at: now,
            },
        );
        self.record(e, now)
    }

    /// Forgets a model.
    pub fn remove_model(&mut self, alias: &str, now: i128) -> (e: ClusterEvent)
        ensures
            final(self)@ == logged(
                RepositoryView { models: old(self)@.models.remove(alias@), ..old(self)@ },
                e@,
                now,
            ),
            e@ == event_of("model.removed"@, fields1(("alias"@, JsonView::Text(alias@)))),
    {
        self.models.remove(&text::owned(alias));
        self.record(event("model.removed", Fields::new().text("alias", alias)), now)
    }

    /// Stores a conversation, with its encrypted title where it has one.
    pub fn create_conversation(&mut self, id: Uuid, title: Option<Vec<u8>>, now: i128) -> (r: Result<
        ClusterEvent,
        RepositoryError,
    >)
        ensures
            r is Err == old(self)@.conversations.contains_key(id),
            r matches Err(error) ==> error == RepositoryError::Conflict && final(self)@
                == old(self)@,
            r matches Ok(e) ==> e@ == event_of(
                "chat.conversation_created"@,
                fields1(("conversation_id"@, id_json(id))),
            ) && final(self)@ == logged(
                RepositoryView {
                    conversations: old(self)@.conversations.insert(
                        id,
                        Conversation { title, created_at: now, updated_at: now },
                    ),
                    ..old(self)@
                },
                e@,
                now,
            ),
    {
        if self.conversations.contains(&id) {
            return Err(RepositoryError::Conflict);
        }
        self.conversations.put(id, Conversation { title, created_at: now, updated_at: now });
        let e = event("chat.conversation_created", Fields::new().id("conversation_id", id));
        Ok(self.record(e, now))
    }

    /// Appends an encrypted message to a conversation, and dates the conversation: both or neither.
    pub fn append_encrypted_message(&mut self, message_id: Uuid, message: Message, now: i128) -> (r: Result<
        ClusterEvent,
        RepositoryError,
    >)
        ensures
            r is Err == old(self)@.messages.contains_key(message_id),
            r matches Err(error) ==> error == RepositoryError::Conflict && final(self)@
                == old(self)@,
            r matches Ok(e) ==> e@ == event_of(
                "chat.message_stored"@,
                fields3(
                    ("conversation_id"@, id_json(message.conversation_id)),
                    ("message_id"@, id_json(message_id)),
                    ("role"@, JsonView::Text(message.role@)),
                ),
            ) && final(self)@ == logged(
                with_message(old(self)@, message_id, message),
                e@,
                now,
            ),
    {
        if self.messages.contains(&message_id) {
            return Err(RepositoryError::Conflict);
        }
        let e = event(
            "chat.message_stored",
            Fields::new().id("conversation_id", message.conversation_id).id(
                "message_id",
                message_id,
            ).text("role", message.role.as_str()),
        );
        if let Some(conversation) = self.conversations.get_mut(&message.conversation_id) {
            conversation.updated_at = message.created_at;
        }
        self.messages.put(message_id, message);
        Ok(self.record(e, now))
    }

    /// Where the messages of a conversation stand: the oldest first.
    pub fn encrypted_messages(&self, conversation_id: Uuid) -> (places: Vec<Place>)
        ensures
            ordered(places@),
            forall|p: Place| #[trigger]
                places@.contains(p) == message_at(self@, conversation_id, p),
    {
        let n: usize = self.messages.len();
        let ghost keys = self.messages.keys();
        let mut places: Vec<Place> = Vec::new();
        let mut i: usize = 0;
        while i < n
            invariant
                i <= n == keys.len(),
                keys == self.messages.keys(),
                keys.no_duplicates(),
                forall|k: u128| self.messages@.contains_key(k) == #[trigger] keys.contains(k),
                ordered(places@),
                forall|p: Place| #[trigger]
                    places@.contains(p) == (message_at(self@, conversation_id, p) && keys.take(
                        i as int,
                    ).contains(p.1)),
            decreases n - i,
        {
            let id: u128 = *self.messages.key_at(i);
            let message = self.messages.row_at(i);
            proof {
                lemma_one_more(keys, i as int);
                assert(keys.contains(keys[i as int]));
            }
            if message.conversation_id == conversation_id {
                insert_place(&mut places, (message.created_at, id));
            }
            i += 1;
        }
        assert(keys.take(n as int) =~= keys);
        places
    }

    /// Deletes a conversation and all of its messages.
    pub fn delete_conversation(&mut self, id: Uuid, now: i128) -> (r: Option<ClusterEvent>)
        ensures
            r is Some == old(self)@.conversations.contains_key(id),
            r is None ==> final(self)@ == old(self)@,
            r matches Some(e) ==> e@ == event_of(
                "chat.conversation_deleted"@,
                fields1(("conversation_id"@, id_json(id))),
            ) && final(self)@ == logged(forgotten(old(self)@, id), e@, now),
    {
        if self.conversations.remove(&id).is_none() {
            assert(self@ =~= old(self)@);
            return None;
        }
        let places = self.encrypted_messages(id);
        let ghost start = self.messages@;
        let ghost view = self@;
        let mut i: usize = 0;
        while i < places.len()
            invariant
                i <= places@.len(),
                ordered(places@),
                start == view.messages,
                forall|p: Place| #[trigger] places@.contains(p) == message_at(view, id, p),
                self@ == (RepositoryView { messages: self.messages@, ..view }),
                forall|k: u128| #[trigger]
                    self.messages@.contains_key(k) == (start.contains_key(k) && !exists|j: int|
                        0 <= j < i && (#[trigger] places@[j]).1 == k),
                forall|k: u128| #[trigger]
                    self.messages@.contains_key(k) ==> self.messages@[k] == start[k],
            decreases places@.len() - i,
        {
            let ghost before = self.messages@;
            self.messages.remove(&places[i].1);
            proof {
                assert forall|k: u128| #[trigger] self.messages@.contains_key(k) == (
                start.contains_key(k) && !exists|j: int|
                    0 <= j < i + 1 && (#[trigger] places@[j]).1 == k) by {
                    if before.contains_key(k) && k == places@[i as int].1 {
                        assert(places@[i as int].1 == k);
                    }
                }
                assert(self@ =~= (RepositoryView { messages: self.messages@, ..view }));
            }
            i += 1;
        }
        proof {
            let kept = forgotten(old(self)@, id).messages;
            assert forall|k: u128| self.messages@.contains_key(k) == kept.contains_key(k) by {
                if start.contains_key(k) && start[k].conversation_id == id {
                    let p: Place = (start[k].created_at, k);
                    assert(message_at(view, id, p));
                    assert(places@.contains(p));
                    let j = choose|j: int| 0 <= j < places@.len() && places@[j] == p;
                    assert(places@[j].1 == k);
                } else if start.contains_key(k) {
                    assert forall|j: int| 0 <= j < places@.len() implies (#[trigger] places@[j]).1
                        != k by {
                        assert(places@.contains(places@[j]));
                        assert(message_at(view, id, places@[j]));
                    }
                }
            }
            assert(self.messages@ =~= kept);
            assert(self@ =~= forgotten(old(self)@, id));
        }
        let e = event("chat.conversation_deleted", Fields::new().id("conversation_id", id));
        Some(self.record(e, now))
    }

    /// What the owner has opted into; nothing, where nothing is stored.
    pub fn network_policy(&self) -> (r: NetworkPolicy)
        ensures
            same_policy(
                r,
                match self@.network_policy {
                    Some(policy) => policy,
                    None => local_only(),
                },
            ),
    {
        match &self.network_policy {
            Some(policy) => NetworkPolicy {
                remote_enabled: policy.remote_enabled,
                managed_relay_enabled: policy.managed_relay_enabled,
                self_hosted_relay: match &policy.self_hosted_relay {
                    Some(relay) => Some(relay.clone()),
                    None => None,
                },
                monthly_remote_byte_quota: policy.monthly_remote_byte_quota,
            },
            None => NetworkPolicy::default(),
        }
    }

    /// Stores what the owner has opted into, and audits it.
    pub fn put_network_policy(&mut self, policy: NetworkPolicy, now: i128) -> (e: ClusterEvent)
        ensures
            final(self)@ == stored_policy(old(self)@, policy, now),
            e@ == policy_event(policy),
    {
        let e = event(
            "network.policy_updated",
            Fields::new().flag("remote_enabled", policy.remote_enabled).flag(
                "managed_relay_enabled",
                policy.managed_relay_enabled,
            ).flag("self_hosted_relay_configured", policy.self_hosted_relay.is_some()).number(
                "monthly_remote_byte_quota",
                policy.monthly_remote_byte_quota as i128,
            ),
        );
        self.network_policy = Some(policy);
        self.audit(
            "local-owner",
            "network.policy_update",
            "cluster",
            None,
            Fields::new(),
            now,
        );
        self.record(e, now)
    }

    /// Stores how a plan turned out.
    pub fn put_plan_observation(
        &mut self,
        workload_id: Uuid,
        observation: PlanObservation,
        now: i128,
    ) -> (e: ClusterEvent)
        ensures
            final(self)@ == logged(
                RepositoryView {
                    observations: old(self)@.observations.push(
                        observation_of(workload_id, observation, now),
                    ),
                    ..old(self)@
                },
                e@,
                now,
            ),
            e@ == observed_event(workload_id, observation),
    {
        let e = event(
            "plan.observed",
            Fields::new().id("workload_id", workload_id).id(
                "plan_id",
                observation.plan_id,
            ).flag("materially_missed", observation.materially_missed),
        );
        self.observations.push(
            Observation {
                plan_id: observation.plan_id,
                workload_id,
                observation: observation.observation,
                materially_missed: observation.materially_missed,
                observed_at: now,
            },
        );
        self.record(e, now)
    }

    /// Stores a span of a trace, whose duration the database has to hold.
    pub fn put_trace_span(&mut self, id: Uuid, span: ExecutionTraceSpan, now: i128) -> (r: Result<
        ClusterEvent,
        RepositoryError,
    >)
        ensures
            r is Err == (span.duration_us > DATABASE_MAX || old(self)@.spans.contains_key(id)),
            r is Err ==> final(self)@ == old(self)@,
            r matches Err(error) ==> error == (if span.duration_us > DATABASE_MAX {
                RepositoryError::OutOfRange
            } else {
                RepositoryError::Conflict
            }),
            r matches Ok(e) ==> e@ == event_of(
                "trace.span_recorded"@,
                fields5(
                    ("span_id"@, id_json(id)),
                    ("workload_id"@, id_json(span.workload_id)),
                    ("node_id"@, id_json(span.node_id)),
                    ("operation"@, JsonView::Text(span.operation@)),
                    ("status"@, JsonView::Text(span.status@)),
                ),
            ) && final(self)@ == logged(
                RepositoryView { spans: old(self)@.spans.insert(id, span), ..old(self)@ },
                e@,
                now,
            ),
    {
        if span.duration_us > DATABASE_MAX {
            return Err(RepositoryError::OutOfRange);
        }
        if self.spans.contains(&id) {
            return Err(RepositoryError::Conflict);
        }
        let e = event(
            "trace.span_recorded",
            Fields::new().id("span_id", id).id("workload_id", span.workload_id).id(
                "node_id",
                span.node_id,
            ).text("operation", span.operation.as_str()).text("status", span.status.as_str()),
        );
        self.spans.put(id, span);
        Ok(self.record(e, now))
    }

    /// Stores the leave to transfer a chunk of a model.
    pub fn put_transfer_ticket(&mut self, id: Uuid, ticket: TransferTicket, now: i128) -> (r: Result<
        ClusterEvent,
        RepositoryError,
    >)
        ensures
            r is Err == old(self)@.tickets.contains_key(id),
            r matches Err(error) ==> error == RepositoryError::Conflict && final(self)@
                == old(self)@,
            r matches Ok(e) ==> e@ == event_of(
                "model.transfer_authorized"@,
                fields6(
                    ("ticket_id"@, id_json(id)),
                    ("source_node"@, id_json(ticket.source_node)),
                    ("destination_node"@, id_json(ticket.destination_node)),
                    ("model_sha256"@, JsonView::Text(ticket.model_sha256@)),
                    ("chunk_sha256"@, JsonView::Text(ticket.chunk_sha256@)),
                    ("expires_at"@, JsonView::Moment(ticket.expires_at)),
                ),
            ) && final(self)@ == logged(
                RepositoryView { tickets: old(self)@.tickets.insert(id, ticket), ..old(self)@ },
                e@,
                now,
            ),
    {
        if self.tickets.contains(&id) {
            return Err(RepositoryError::Conflict);
        }
        let e = event(
            "model.transfer_authorized",
            Fields::new().id("ticket_id", id).id("source_node", ticket.source_node).id(
                "destination_node",
                ticket.destination_node,
            ).text("model_sha256", ticket.model_sha256.as_str()).text(
                "chunk_sha256",
                ticket.chunk_sha256.as_str(),
            ).moment("expires_at", ticket.expires_at),
        );
        self.tickets.put(id, ticket);
        Ok(self.record(e, now))
    }

    /// Stores what a node was last measured to do.
    pub fn put_benchmark(&mut self, node_id: Uuid, benchmark: Benchmark, now: i128) -> (e: ClusterEvent)
        ensures
            final(self)@ == logged(
                RepositoryView {
                    benchmarks: old(self)@.benchmarks.insert(node_id, benchmark),
                    ..old(self)@
                },
                e@,
                now,
            ),
            e@ == event_of(
                "benchmark.completed"@,
                fields3(
                    ("node_id"@, id_json(node_id)),
                    ("tokens_per_second"@, JsonView::Real(benchmark.tokens_per_second)),
                    ("time_to_first_token_ms"@, JsonView::Real(benchmark.time_to_first_token_ms)),
                ),
            ),
    {
        let e = event(
            "benchmark.completed",
            Fields::new().id("node_id", node_id).with(
                "tokens_per_second",
                Json::Real(benchmark.tokens_per_second),
            ).with("time_to_first_token_ms", Json::Real(benchmark.time_to_first_token_ms)),
        );
        self.benchmarks.put(node_id, benchmark);
        self.record(e, now)
    }

    /// The plan of a workload, as encoded text.
    pub fn plan_for_workload(&self, workload_id: Uuid) -> (r: Option<&String>)
        ensures
            r is Some == self@.workloads.contains_key(workload_id),
            r matches Some(plan) ==> *plan == self@.workloads[workload_id].plan,
    {
        match self.workloads.get(&workload_id) {
            Some(workload) => Some(&workload.plan),
            None => None,
        }
    }
}

/// Whether a message of a conversation stands at a place.
pub open spec fn message_at(v: RepositoryView, conversation_id: u128, place: Place) -> bool {
    &&& v.messages.contains_key(place.1)
    &&& v.messages[place.1].conversation_id == conversation_id
    &&& v.messages[place.1].created_at == place.0
}

/// Whether two policies say the same.
pub open spec fn same_policy(a: NetworkPolicy, b: NetworkPolicy) -> bool {
    &&& a.remote_enabled == b.remote_enabled
    &&& a.managed_relay_enabled == b.managed_relay_enabled
    &&& a.self_hosted_relay is Some == b.self_hosted_relay is Some
    &&& a.self_hosted_relay is Some ==> a.self_hosted_relay->0@ == b.self_hosted_relay->0@
    &&& a.monthly_remote_byte_quota == b.monthly_remote_byte_quota
}

/// After a plugin was installed or upgraded it may not run, whatever was granted to it before.
pub proof fn law_an_upgrade_voids_the_grant(v: RepositoryView, id: Seq<char>, plugin: Plugin)
    ensures
        !may_run(installed(v, id, plugin), id),
        !installed(v, id, plugin).grants.contains_key(id),
{
}

/// What is enabled is granted, for the very component that is installed: an installation and a grant
/// keep it so.
pub proof fn law_enabled_plugins_are_granted(
    v: RepositoryView,
    id: Seq<char>,
    plugin: Plugin,
    grant: Grant,
)
    requires
        enabled_are_granted(v),
    ensures
        enabled_are_granted(installed(v, id, plugin)),
        grant_fits(v, id, grant) ==> enabled_are_granted(granted(v, id, grant)) && may_run(
            granted(v, id, grant),
            id,
        ),
{
    let after = installed(v, id, plugin);
    assert forall|k: Seq<char>| #[trigger]
        after.plugins.contains_key(k) && after.plugins[k].enabled implies may_run(after, k) by {
        assert(v.plugins.contains_key(k));
    }
    if grant_fits(v, id, grant) {
        let after = granted(v, id, grant);
        assert forall|k: Seq<char>| #[trigger]
            after.plugins.contains_key(k) && after.plugins[k].enabled implies may_run(after, k) by {
            if k != id {
                assert(v.plugins.contains_key(k));
            }
        }
    }
}

/// A conversation that was deleted leaves no message behind, and takes no other with it.
pub proof fn law_a_deleted_conversation_leaves_nothing(v: RepositoryView, id: u128, message: u128)
    requires
        v.messages.contains_key(message),
    ensures
        forgotten(v, id).messages.contains_key(message) == (v.messages[message].conversation_id != id),
        !forgotten(v, id).conversations.contains_key(id),
{
}

/// A message that was stored is found in its conversation at its date, as it is; the conversation is dated
/// by it and keeps its title; no other message or conversation is touched.
pub proof fn law_a_stored_message_is_found(
    v: RepositoryView,
    id: u128,
    message: Message,
    other: u128,
    conversation: u128,
)
    ensures
        ({
            let after = with_message(v, id, message);
            &&& message_at(after, message.conversation_id, (message.created_at, id))
            &&& after.messages[id] == message
            &&& v.conversations.contains_key(message.conversation_id) ==> {
                let known = after.conversations[message.conversation_id];
                &&& known.updated_at == message.created_at
                &&& known.title == v.conversations[message.conversation_id].title
                &&& known.created_at == v.conversations[message.conversation_id].created_at
            }
            &&& other != id ==> after.messages.contains_key(other) == v.messages.contains_key(other)
                && after.messages[other] == v.messages[other]
            &&& conversation != message.conversation_id ==> after.conversations[conversation]
                == v.conversations[conversation]
            &&& after.conversations.dom() == v.conversations.dom()
            &&& !forgotten(after, message.conversation_id).messages.contains_key(id)
        }),
{
    let after = with_message(v, id, message);
    assert(after.conversations.dom() =~= v.conversations.dom());
}

/// A plugin that is granted what it asks for may run, under the very grant; other plugins and their grants
/// stay as they are, and so does what is installed.
pub proof fn law_a_granted_plugin_may_run(
    v: RepositoryView,
    id: Seq<char>,
    grant: Grant,
    other: Seq<char>,
)
    requires
        grant_fits(v, id, grant),
        other != id,
    ensures
        may_run(granted(v, id, grant), id),
        granted(v, id, grant).grants[id] == grant,
        granted(v, id, grant).plugins[id].sha256 == v.plugins[id].sha256,
        granted(v, id, grant).plugins[id].component_path == v.plugins[id].component_path,
        granted(v, id, grant).plugins[id].version == v.plugins[id].version,
        may_run(granted(v, id, grant), other) == may_run(v, other),
{
}

/// A plugin is installed as it was given, but disabled; other plugins may run where they might before.
pub proof fn law_a_plugin_is_installed_disabled(
    v: RepositoryView,
    id: Seq<char>,
    plugin: Plugin,
    other: Seq<char>,
)
    requires
        other != id,
    ensures
        installed(v, id, plugin).plugins.contains_key(id),
        !installed(v, id, plugin).plugins[id].enabled,
        installed(v, id, plugin).plugins[id].sha256 == plugin.sha256,
        installed(v, id, plugin).plugins[id].version == plugin.version,
        installed(v, id, plugin).plugins[id].component_path == plugin.component_path,
        may_run(installed(v, id, plugin), other) == may_run(v, other),
{
}

/// A model is stored as its manifest describes it, under its alias; its size as it is, as far as the
/// database holds it; and no other model is touched.
pub proof fn law_a_model_is_stored_as_described(
    v: RepositoryView,
    manifest: ModelManifest,
    now: i128,
    other: Seq<char>,
)
    ensures
        ({
            let after = with_model(v, manifest, now).models;
            let model = after[manifest.alias@];
            &&& after.contains_key(manifest.alias@)
            &&& model.sha256 == manifest.sha256
            &&& model.format == manifest.format
            &&& model.quantization == manifest.quantization
            &&& model.pinned == manifest.pinned
            &&& model.manifest == manifest.encoded
            &&& model.updated_at == now
            &&& manifest.size_bytes <= 9_223_372_036_854_775_807 ==> model.size_bytes
                == manifest.size_bytes
            &&& manifest.size_bytes > 9_223_372_036_854_775_807 ==> model.size_bytes
                == 9_223_372_036_854_775_807
            &&& other != manifest.alias@ ==> after.contains_key(other) == v.models.contains_key(other)
                && after[other] == v.models[other]
        }),
{
}

/// A network policy that was stored holds from then on, and somebody is on record for it.
pub proof fn law_a_stored_policy_holds(v: RepositoryView, policy: NetworkPolicy, now: i128)
    ensures
        stored_policy(v, policy, now).network_policy == Some(policy),
        stored_policy(v, policy, now).audits.len() == v.audits.len() + 1,
        stored_policy(v, policy, now).audits.last().action == "network.policy_update"@,
        stored_policy(v, policy, now).events.len() == v.events.len() + 1,
        stored_policy(v, policy, now).nodes == v.nodes,
        stored_policy(v, policy, now).network_usage == v.network_usage,
{
}

/// Of a model that was verified it is told what it is.
pub proof fn law_a_verified_model_is_told(manifest: ModelManifest)
    ensures
        ({
            let told = model_event(manifest);
            &&& told.event_type == "model.verified"@
            &&& field_of(told.payload, "alias"@) == Some(JsonView::Text(manifest.alias@))
            &&& field_of(told.payload, "sha256"@) == Some(JsonView::Text(manifest.sha256@))
            &&& field_of(told.payload, "size_bytes"@) == Some(JsonView::Number(manifest.size_bytes as int))
            &&& field_of(told.payload, "format"@) == Some(JsonView::Text(manifest.format@))
            &&& field_of(told.payload, "pinned"@) == Some(JsonView::Bool(manifest.pinned))
        }),
{
    reveal_strlit("alias");
    reveal_strlit("sha256");
    reveal_strlit("size_bytes");
    reveal_strlit("format");
    reveal_strlit("pinned");
    assert("alias"@.len() == 5);
    assert("sha256"@.len() == 6);
    assert("size_bytes"@.len() == 10);
    assert("format"@.len() == 6);
    assert("pinned"@.len() == 6);
    assert("sha256"@[0] != "format"@[0]);
    assert("sha256"@[0] != "pinned"@[0]);
    assert("format"@[0] != "pinned"@[0]);
    let a = ("alias"@, JsonView::Text(manifest.alias@));
    let b = ("sha256"@, JsonView::Text(manifest.sha256@));
    let c = ("size_bytes"@, JsonView::Number(manifest.size_bytes as int));
    let d = ("format"@, JsonView::Text(manifest.format@));
    let e = ("pinned"@, JsonView::Bool(manifest.pinned));
    lemma_fields5(a, b, c, d, e, "alias"@);
    lemma_fields5(a, b, c, d, e, "sha256"@);
    lemma_fields5(a, b, c, d, e, "size_bytes"@);
    lemma_fields5(a, b, c, d, e, "format"@);
    lemma_fields5(a, b, c, d, e, "pinned"@);
}

/// Of a plan that was observed it is told whether it missed.
pub proof fn law_an_observation_is_told(workload_id: Uuid, observation: PlanObservation)
    ensures
        ({
            let told = observed_event(workload_id, observation);
            &&& told.event_type == "plan.observed"@
            &&& field_of(told.payload, "workload_id"@) == Some(id_json(workload_id))
            &&& field_of(told.payload, "plan_id"@) == Some(id_json(observation.plan_id))
            &&& field_of(told.payload, "materially_missed"@) == Some(JsonView::Bool(observation.materially_missed))
        }),
{
    reveal_strlit("workload_id");
    reveal_strlit("plan_id");
    reveal_strlit("materially_missed");
    assert("workload_id"@.len() == 11);
    assert("plan_id"@.len() == 7);
    assert("materially_missed"@.len() == 17);
    let a = ("workload_id"@, id_json(workload_id));
    let b = ("plan_id"@, id_json(observation.plan_id));
    let c = ("materially_missed"@, JsonView::Bool(observation.materially_missed));
    lemma_fields3(a, b, c, "workload_id"@);
    lemma_fields3(a, b, c, "plan_id"@);
    lemma_fields3(a, b, c, "materially_missed"@);
}

/// Of a network policy it is told what it allows; of a relay only whether there is one.
pub proof fn law_a_network_policy_is_told(policy: NetworkPolicy)
    ensures
        ({
            let told = policy_event(policy);
            &&& told.event_type == "network.policy_updated"@
            &&& field_of(told.payload, "remote_enabled"@) == Some(JsonView::Bool(policy.remote_enabled))
            &&& field_of(told.payload, "managed_relay_enabled"@) == Some(JsonView::Bool(policy.managed_relay_enabled))
            &&& field_of(told.payload, "self_hosted_relay_configured"@) == Some(JsonView::Bool(policy.self_hosted_relay is Some))
            &&& field_of(told.payload, "monthly_remote_byte_quota"@) == Some(JsonView::Number(policy.monthly_remote_byte_quota as int))
        }),
{
    reveal_strlit("remote_enabled");
    reveal_strlit("managed_relay_enabled");
    reveal_strlit("self_hosted_relay_configured");
    reveal_strlit("monthly_remote_byte_quota");
    assert("remote_enabled"@.len() == 14);
    assert("managed_relay_enabled"@.len() == 21);
    assert("self_hosted_relay_configured"@.len() == 28);
    assert("monthly_remote_byte_quota"@.len() == 25);
    let a = ("remote_enabled"@, JsonView::Bool(policy.remote_enabled));
    let b = ("managed_relay_enabled"@, JsonView::Bool(policy.managed_relay_enabled));
    let c = ("self_hosted_relay_configured"@, JsonView::Bool(policy.self_hosted_relay is Some));
    let d = ("monthly_remote_byte_quota"@, JsonView::Number(policy.monthly_remote_byte_quota as int));
    lemma_fields4(a, b, c, d, "remote_enabled"@);
    lemma_fields4(a, b, c, d, "managed_relay_enabled"@);
    lemma_fields4(a, b, c, d, "self_hosted_relay_configured"@);
    lemma_fields4(a, b, c, d, "monthly_remote_byte_quota"@);
}

} // verus!
