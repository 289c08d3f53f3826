//! Workflows, their runs, and what starts them.

use crate::ident::Uuid;
use crate::json::{
    field_of, fields2, fields3, fields4, fields5, id_json, lemma_fields2, lemma_fields3,
    optional_text_json, Fields, JsonView,
};
use crate::order::{first_of, insert_place, keep_first, ordered, page, page_of, Place};
use crate::repository::events::logged;
use crate::repository::listings::{has_name, name_taken};
use crate::repository::{
    event, event_of, ClusterEvent, EncryptedContent, EncryptedWorkflowArtifact,
    EncryptedWorkflowDefinition, EncryptedWorkflowRun, EventView, Firing, Repository,
    RepositoryError, RepositoryView, RunEvent, RunStatus, Schedule, StoredStatus, Template, Webhook,
};
use crate::repository::quota::DATABASE_MAX;
use crate::table::lemma_one_more;
use crate::text;
use vstd::prelude::*;

verus! {

/// The word under which the state of a run is stored.
pub open spec fn run_word(status: RunStatus) -> Seq<char> {
    match status {
        RunStatus::Pending => "pending"@,
        RunStatus::Running => "running"@,
        RunStatus::WaitingApproval => "waiting_approval"@,
        RunStatus::Completed => "completed"@,
        RunStatus::Failed => "failed"@,
        RunStatus::Cancelled => "cancelled"@,
    }
}

/// The word under which the state of a run is stored.
pub fn run_status_str(status: RunStatus) -> (word: &'static str)
    ensures
        word@ == run_word(status),
{
    match status {
        RunStatus::Pending => "pending",
        RunStatus::Running => "running",
        RunStatus::WaitingApproval => "waiting_approval",
        RunStatus::Completed => "completed",
        RunStatus::Failed => "failed",
        RunStatus::Cancelled => "cancelled",
    }
}

/// The states of runs are stored under different words.
pub proof fn law_run_words_tell_apart(a: RunStatus, b: RunStatus)
    requires
        run_word(a) == run_word(b),
    ensures
        a == b,
{
    reveal_strlit("pending");
    reveal_strlit("running");
    reveal_strlit("waiting_approval");
    reveal_strlit("completed");
    reveal_strlit("failed");
    reveal_strlit("cancelled");
    assert("pending"@[0] == 'p' && "running"@[0] == 'r' && "waiting_approval"@[0] == 'w');
    assert("completed"@[1] == 'o' && "cancelled"@[1] == 'a' && "failed"@[0] == 'f');
    assert("completed"@[0] == 'c' && "cancelled"@[0] == 'c');
}

/// Whether a run is under way.
pub open spec fn under_way(run: EncryptedWorkflowRun) -> bool {
    run.status == StoredStatus::Known(RunStatus::Running) || run.status == StoredStatus::Known(
        RunStatus::WaitingApproval,
    )
}

/// Where the runs under way stand in the order of their creation.
pub open spec fn active_places(runs: Map<u128, EncryptedWorkflowRun>) -> Set<Place> {
    Set::new(|p: Place| runs.contains_key(p.1) && under_way(runs[p.1]) && runs[p.1].created_at == p.0)
}

/// Whether a run is what the one who changes it takes it for: in that state, under that nonce.
pub open spec fn as_expected(
    runs: Map<u128, EncryptedWorkflowRun>,
    id: u128,
    expected_status: RunStatus,
    expected_nonce: Seq<u8>,
) -> bool {
    &&& runs.contains_key(id)
    &&& runs[id].status == StoredStatus::Known(expected_status)
    &&& runs[id].content.nonce@ == expected_nonce
}

/// A schedule, with its identifier and without its dates.
pub struct WorkflowSchedule {
    pub id: Uuid,
    pub workflow_id: Uuid,
    pub cron_utc: String,
    pub enabled: bool,
    pub concurrency_limit: u16,
}

/// Whether a schedule says what a row says.
pub open spec fn schedule_matches(schedule: WorkflowSchedule, id: u128, row: Schedule) -> bool {
    &&& schedule.id == id
    &&& schedule.workflow_id == row.workflow_id
    &&& schedule.cron_utc@ == row.cron_utc@
    &&& schedule.enabled == row.enabled
    &&& schedule.concurrency_limit == row.concurrency_limit
}

/// The schedule that a row describes.
fn schedule_of(id: Uuid, row: &Schedule) -> (schedule: WorkflowSchedule)
    ensures
        schedule_matches(schedule, id, *row),
{
    WorkflowSchedule {
        id,
        workflow_id: row.workflow_id,
        cron_utc: row.cron_utc.clone(),
        enabled: row.enabled,
        concurrency_limit: row.concurrency_limit,
    }
}

/// Whether a schedule is due.
pub open spec fn due(row: Schedule, now: i128) -> bool {
    row.enabled && (row.next_run_at matches Some(at) && at <= now)
}

/// Where the schedules that are due stand in the order of their occurrences.
pub open spec fn due_places(schedules: Map<u128, Schedule>, now: i128) -> Set<Place> {
    Set::new(
        |p: Place|
            schedules.contains_key(p.1) && due(schedules[p.1], now) && schedules[p.1].next_run_at
                == Some(p.0),
    )
}

/// Where the occurrences without a run stand: those of known schedules, the earliest first.
pub open spec fn pending_places(v: RepositoryView) -> Set<Place> {
    Set::new(
        |p: Place|
            v.firings.contains_key((p.1, p.0)) && !v.firings[(p.1, p.0)].started
                && v.schedules.contains_key(p.1),
    )
}

/// An occurrence that waits for its run.
pub struct WorkflowScheduleFiring {
    pub schedule: WorkflowSchedule,
    pub due_at: i128,
    pub run_id: Uuid,
}

/// The places of occurrences.
pub open spec fn firing_places(firings: Seq<WorkflowScheduleFiring>) -> Seq<Place> {
    firings.map_values(|firing: WorkflowScheduleFiring| (firing.due_at, firing.schedule.id))
}

/// The places of schedules that are due.
pub open spec fn schedule_places(found: Seq<(WorkflowSchedule, i128)>) -> Seq<Place> {
    found.map_values(|entry: (WorkflowSchedule, i128)| (entry.1, entry.0.id))
}

/// The places of runs.
pub open spec fn run_places(runs: Map<u128, EncryptedWorkflowRun>, ids: Seq<u128>) -> Seq<Place> {
    ids.map_values(|id: u128| (runs[id].created_at, id))
}

/// Whether an occurrence has a run that is not at its end.
pub open spec fn occupies(v: RepositoryView, key: (u128, i128), schedule_id: u128) -> bool {
    &&& v.firings.contains_key(key)
    &&& key.0 == schedule_id
    &&& v.firings[key].started
    &&& v.runs.contains_key(v.firings[key].run_id)
    &&& v.runs[v.firings[key].run_id].status == StoredStatus::Known(RunStatus::Pending) || under_way(
        v.runs[v.firings[key].run_id],
    )
}

/// The occurrences of a schedule whose runs are not at their end.
pub open spec fn occupying(v: RepositoryView, schedule_id: u128) -> Set<(u128, i128)> {
    Set::new(|key: (u128, i128)| occupies(v, key, schedule_id))
}

/// Whether an occurrence of a schedule can be claimed: the schedule is enabled, and it is the next.
pub open spec fn can_claim(v: RepositoryView, schedule_id: u128, due_at: i128) -> bool {
    &&& v.schedules.contains_key(schedule_id)
    &&& v.schedules[schedule_id].enabled
    &&& v.schedules[schedule_id].next_run_at == Some(due_at)
}

/// The state after an occurrence has been claimed.
pub open spec fn claimed_occurrence(
    v: RepositoryView,
    schedule_id: u128,
    due_at: i128,
    next_run_at: i128,
    run_id: Uuid,
    now: i128,
) -> RepositoryView {
    RepositoryView {
        schedules: v.schedules.insert(
            schedule_id,
            Schedule {
                next_run_at: Some(next_run_at),
                updated_at: now,
                ..v.schedules[schedule_id]
            },
        ),
        firings: v.firings.insert((schedule_id, due_at), Firing { run_id, started: false }),
        ..v
    }
}

/// The state after an occurrence has got its run.
pub open spec fn started_occurrence(v: RepositoryView, schedule_id: u128, due_at: i128) -> RepositoryView {
    RepositoryView {
        firings: if v.firings.contains_key((schedule_id, due_at)) {
            v.firings.insert(
                (schedule_id, due_at),
                Firing { started: true, ..v.firings[(schedule_id, due_at)] },
            )
        } else {
            v.firings
        },
        ..v
    }
}

/// The state after a run has been changed.
pub open spec fn updated_run(
    v: RepositoryView,
    run_id: u128,
    status: RunStatus,
    content: EncryptedContent,
    event: RunEvent,
    now: i128,
) -> RepositoryView {
    RepositoryView {
        runs: v.runs.insert(
            run_id,
            EncryptedWorkflowRun {
                status: StoredStatus::Known(status),
                content,
                updated_at: now,
                ..v.runs[run_id]
            },
        ),
        run_events: v.run_events.push(event),
        ..v
    }
}

/// The state after a workflow was stored as its first revision.
pub open spec fn with_workflow(
    v: RepositoryView,
    id: Uuid,
    name: String,
    sha256: String,
    content: EncryptedContent,
    now: i128,
) -> RepositoryView {
    RepositoryView {
        workflows: v.workflows.insert(
            id,
            EncryptedWorkflowDefinition { name, revision: 1, sha256, content, created_at: now, updated_at: now },
        ),
        ..v
    }
}

/// The event of a new workflow.
pub open spec fn workflow_event(id: Uuid, sha256: Seq<char>) -> EventView {
    event_of(
        "workflow.created"@,
        fields3(
            ("workflow_id"@, id_json(id)),
            ("revision"@, JsonView::Number(1)),
            ("sha256"@, JsonView::Text(sha256)),
        ),
    )
}

/// The event of a new run.
pub open spec fn run_created(workflow_id: Uuid, run_id: Uuid) -> EventView {
    event_of(
        "workflow.run_created"@,
        fields2(("workflow_id"@, id_json(workflow_id)), ("run_id"@, id_json(run_id))),
    )
}

/// Whether a state follows another by a new run, of which it is on record that it was created.
pub open spec fn begun_run(before: RepositoryView, after: RepositoryView, run_id: Uuid, run: EncryptedWorkflowRun) -> bool {
    &&& after.run_events.len() == before.run_events.len() + 1
    &&& created_event(after.run_events.last(), run_id, run.created_at)
    &&& after == logged(
        RepositoryView {
            runs: before.runs.insert(run_id, run),
            run_events: before.run_events.push(after.run_events.last()),
            ..before
        },
        run_created(run.workflow_id, run_id),
        run.created_at,
    )
}

/// The state after a schedule was stored: to which workflow it belongs, and when it was made, does not
/// change.
pub open spec fn with_schedule(
    v: RepositoryView,
    schedule: WorkflowSchedule,
    next_run_at: i128,
    now: i128,
) -> RepositoryView {
    let known = v.schedules.contains_key(schedule.id);
    RepositoryView {
        schedules: v.schedules.insert(
            schedule.id,
            Schedule {
                workflow_id: if known {
                    v.schedules[schedule.id].workflow_id
                } else {
                    schedule.workflow_id
                },
                cron_utc: schedule.cron_utc,
                enabled: schedule.enabled,
                concurrency_limit: schedule.concurrency_limit,
                next_run_at: Some(next_run_at),
                created_at: if known {
                    v.schedules[schedule.id].created_at
                } else {
                    now
                },
                updated_at: now,
            },
        ),
        ..v
    }
}

/// The state after a webhook was stored: to which workflow it belongs does not change.
pub open spec fn with_webhook(
    v: RepositoryView,
    id: Uuid,
    workflow_id: Uuid,
    secret_sha256: String,
    enabled: bool,
) -> RepositoryView {
    RepositoryView {
        webhooks: v.webhooks.insert(
            id,
            Webhook {
                workflow_id: if v.webhooks.contains_key(id) {
                    v.webhooks[id].workflow_id
                } else {
                    workflow_id
                },
                secret_sha256,
                enabled,
            },
        ),
        ..v
    }
}

/// The event of a schedule that was stored.
pub open spec fn schedule_event(schedule: WorkflowSchedule) -> EventView {
    event_of(
        "workflow.schedule_updated"@,
        fields3(
            ("schedule_id"@, id_json(schedule.id)),
            ("workflow_id"@, id_json(schedule.workflow_id)),
            ("enabled"@, JsonView::Bool(schedule.enabled)),
        ),
    )
}

impl Repository {
    /// Stores an encrypted workflow as its first revision.
    pub fn create_workflow(
        &mut self,
        id: Uuid,
        name: String,
        sha256: String,
        content: EncryptedContent,
        now: i128,
    ) -> (r: Result<ClusterEvent, RepositoryError>)
        ensures
            r is Err == old(self)@.workflows.contains_key(id),
            r matches Err(error) ==> error == RepositoryError::Conflict && final(self)@
                == old(self)@,
            r matches Ok(e) ==> e@ == workflow_event(id, sha256@) && final(self)@ == logged(
                with_workflow(old(self)@, id, name, sha256, content, now),
                e@,
                now,
            ),
    {
        if self.workflows.contains(&id) {
            return Err(RepositoryError::Conflict);
        }
        let e = event(
            "workflow.created",
            Fields::new().id("workflow_id", id).number("revision", 1).text(
                "sha256",
                sha256.as_str(),
            ),
        );
        self.workflows.put(
            id,
            EncryptedWorkflowDefinition { name, revision: 1, sha256, content, created_at: now, updated_at: now },
        );
        Ok(self.record(e, now))
    }

    /// The current revision of a workflow.
    pub fn workflow_definition(&self, id: Uuid) -> (r: Option<&EncryptedWorkflowDefinition>)
        ensures
            r is Some == self@.workflows.contains_key(id),
            r matches Some(w) ==> *w == self@.workflows[id],
    {
        self.workflows.get(&id)
    }

    /// Stores the first state of a run.
    pub fn create_workflow_run(
        &mut self,
        run_id: Uuid,
        workflow_id: Uuid,
        workflow_revision: u32,
        status: RunStatus,
        content: EncryptedContent,
        now: i128,
    ) -> (r: Result<ClusterEvent, RepositoryError>)
        ensures
            r is Err == old(self)@.runs.contains_key(run_id),
            r matches Err(error) ==> error == RepositoryError::Conflict && final(self)@
                == old(self)@,
            r matches Ok(e) ==> e@ == run_created(workflow_id, run_id) && begun_run(
                old(self)@,
                final(self)@,
                run_id,
                EncryptedWorkflowRun {
                    workflow_id,
                    workflow_revision,
                    status: StoredStatus::Known(status),
                    content,
                    created_at: now,
                    updated_at: now,
                },
            ),
    {
        if self.runs.contains(&run_id) {
            return Err(RepositoryError::Conflict);
        }
        self.runs.put(
            run_id,
            EncryptedWorkflowRun {
                workflow_id,
                workflow_revision,
                status: StoredStatus::Known(status),
                content,
                created_at: now,
                updated_at: now,
            },
        );
        self.run_events.push(
            RunEvent {
                run_id,
                event_type: text::owned("run.created"),
                step_id: None,
                principal_id: None,
                created_at: now,
            },
        );
        let e = event(
            "workflow.run_created",
            Fields::new().id("workflow_id", workflow_id).id("run_id", run_id),
        );
        Ok(self.record(e, now))
    }

    /// A run as it is stored.
    pub fn workflow_run(&self, run_id: Uuid) -> (r: Option<&EncryptedWorkflowRun>)
        ensures
            r is Some == self@.runs.contains_key(run_id),
            r matches Some(run) ==> *run == self@.runs[run_id],
    {
        self.runs.get(&run_id)
    }

    /// The runs under way, the oldest first, so that they can be taken up after a restart.
    pub fn active_workflow_runs(&self, limit: u32) -> (ids: Vec<Uuid>)
        ensures
            first_of(active_places(self@.runs), page(limit as int), run_places(self@.runs, ids@)),
    {
        let n: usize = self.runs.len();
        let ghost keys = self.runs.keys();
        let mut places: Vec<Place> = Vec::new();
        let mut i: usize = 0;
        while i < n
            invariant
                i <= n == keys.len(),
                keys == self.runs.keys(),
                keys.no_duplicates(),
                forall|k: u128| self.runs@.contains_key(k) == #[trigger] keys.contains(k),
                ordered(places@),
                forall|p: Place| #[trigger]
                    places@.contains(p) == (active_places(self.runs@).contains(p)
                        && keys.take(i as int).contains(p.1)),
            decreases n - i,
        {
            let id: u128 = *self.runs.key_at(i);
            let run = self.runs.row_at(i);
            proof {
                lemma_one_more(keys, i as int);
            }
            if run.status.is(RunStatus::Running) || run.status.is(RunStatus::WaitingApproval) {
                assert(self.runs@.contains_key(id)) by {
                    assert(keys.contains(keys[i as int]));
                }
                assert(active_places(self.runs@).contains((run.created_at, id)));
                insert_place(&mut places, (run.created_at, id));
            }
            i += 1;
        }
        let ghost all = places@;
        keep_first(&mut places, page_of(limit));
        proof {
            assert(keys.take(n as int) =~= keys);
            assert(all.to_set() =~= active_places(self.runs@));
        }
        let mut ids: Vec<Uuid> = Vec::new();
        let mut j: usize = 0;
        while j < places.len()
            invariant
                j <= places@.len(),
                ids@.len() == j,
                forall|k: int| 0 <= k < j ==> ids@[k] == (#[trigger] places@[k]).1,
            decreases places@.len() - j,
        {
            ids.push(places[j].1);
            j += 1;
        }
        proof {
            assert forall|k: int| 0 <= k < places@.len() implies run_places(self.runs@, ids@)[k]
                == #[trigger] places@[k] by {
                assert(places@.contains(places@[k]));
                assert(active_places(self.runs@).contains(places@[k]));
            }
            assert(run_places(self.runs@, ids@) =~= places@);
        }
        ids
    }

    /// Changes a run that is still as the one who changes it takes it for, and appends what happened:
    /// both or neither.
    pub fn update_workflow_run(
        &mut self,
        run_id: Uuid,
        expected_status: RunStatus,
        expected_nonce: &[u8],
        status: RunStatus,
        content: EncryptedContent,
        event_type: String,
        step_id: Option<String>,
        principal_id: Option<String>,
        now: i128,
    ) -> (r: Option<ClusterEvent>)
        ensures
            r is Some == as_expected(old(self)@.runs, run_id, expected_status, expected_nonce@),
            r is None ==> final(self)@ == old(self)@,
            r matches Some(e) ==> e@ == event_of(
                "workflow.run_updated"@,
                fields4(
                    ("run_id"@, id_json(run_id)),
                    ("status"@, JsonView::Text(run_word(status))),
                    ("event_type"@, JsonView::Text(event_type@)),
                    ("step_id"@, optional_text_json(step_id)),
                ),
            ) && final(self)@ == logged(
                updated_run(
                    old(self)@,
                    run_id,
                    status,
                    content,
                    (RunEvent { run_id, event_type, step_id, principal_id, created_at: now }),
                    now,
                ),
                e@,
                now,
            ),
    {
        match self.runs.get_mut(&run_id) {
            Some(run) => {
                if !run.status.is(expected_status) || !text::same_bytes(
                    run.content.nonce.as_slice(),
                    expected_nonce,
                ) {
                    return None;
                }
                run.status = StoredStatus::Known(status);
                run.content = content;
                run.updated_at = now;
            },
            None => return None,
        }
        let e = event(
            "workflow.run_updated",
            Fields::new().id("run_id", run_id).text("status", run_status_str(status)).text(
                "event_type",
                event_type.as_str(),
            ).optional_string("step_id", &step_id),
        );
        self.run_events.push(
            RunEvent { run_id, event_type, step_id, principal_id, created_at: now },
        );
        Some(self.record(e, now))
    }

    /// Stores an encrypted artifact whose size the database can hold.
    pub fn put_workflow_artifact(
        &mut self,
        id: Uuid,
        artifact: EncryptedWorkflowArtifact,
        now: i128,
    ) -> (r: Result<ClusterEvent, RepositoryError>)
        ensures
            r is Err == (artifact.size_bytes > DATABASE_MAX || old(self)@.artifacts.contains_key(id)),
            r is Err ==> final(self)@ == old(self)@,
            r matches Err(error) ==> error == (if artifact.size_bytes > DATABASE_MAX {
                RepositoryError::OutOfRange
            } else {
                RepositoryError::Conflict
            }),
            r matches Ok(e) ==> e@ == event_of(
                "workflow.artifact_created"@,
                fields5(
                    ("artifact_id"@, id_json(id)),
                    ("run_id"@, id_json(artifact.run_id)),
                    ("step_id"@, JsonView::Text(artifact.step_id@)),
                    ("sha256"@, JsonView::Text(artifact.sha256@)),
                    ("size_bytes"@, JsonView::Number(artifact.size_bytes as int)),
                ),
            ) && final(self)@ == logged(
                RepositoryView {
                    artifacts: old(self)@.artifacts.insert(id, artifact),
                    ..old(self)@
                },
                e@,
                now,
            ),
    {
        if artifact.size_bytes > DATABASE_MAX {
            return Err(RepositoryError::OutOfRange);
        }
        if self.artifacts.contains(&id) {
            return Err(RepositoryError::Conflict);
        }
        let e = event(
            "workflow.artifact_created",
            Fields::new().id("artifact_id", id).id("run_id", artifact.run_id).text(
                "step_id",
                artifact.step_id.as_str(),
            ).text("sha256", artifact.sha256.as_str()).number(
                "size_bytes",
                artifact.size_bytes as i128,
            ),
        );
        self.artifacts.put(id, artifact);
        Ok(self.record(e, now))
    }

    /// Stores a schedule, or changes it; to which workflow it belongs does not change.
    pub fn put_workflow_schedule(
        &mut self,
        schedule: WorkflowSchedule,
        next_run_at: i128,
        now: i128,
    ) -> (e: ClusterEvent)
        ensures
            final(self)@ == logged(with_schedule(old(self)@, schedule, next_run_at, now), e@, now),
            e@ == schedule_event(schedule),
    {
        let e = event(
            "workflow.schedule_updated",
            Fields::new().id("schedule_id", schedule.id).id("workflow_id", schedule.workflow_id).flag(
                "enabled",
                schedule.enabled,
            ),
        );
        let (workflow_id, created_at): (Uuid, i128) = match self.schedules.get(&schedule.id) {
            Some(known) => (known.workflow_id, known.created_at),
            None => (schedule.workflow_id, now),
        };
        self.schedules.put(
            schedule.id,
            Schedule {
                workflow_id,
                cron_utc: schedule.cron_utc,
                enabled: schedule.enabled,
                concurrency_limit: schedule.concurrency_limit,
                next_run_at: Some(next_run_at),
                created_at,
                updated_at: now,
            },
        );
        self.record(e, now)
    }

    /// The enabled schedules whose next occurrence is due, the earliest first, with that occurrence.
    pub fn due_workflow_schedules(&self, now: i128, limit: u32) -> (found: Vec<(WorkflowSchedule, i128)>)
        ensures
            first_of(
                due_places(self@.schedules, now),
                page(limit as int),
                schedule_places(found@),
            ),
            forall|i: int|
                0 <= i < found@.len() ==> schedule_matches(
                    (#[trigger] found@[i]).0,
                    found@[i].0.id,
                    self@.schedules[found@[i].0.id],
                ),
    {
        let n: usize = self.schedules.len();
        let ghost keys = self.schedules.keys();
        let mut places: Vec<Place> = Vec::new();
        let mut i: usize = 0;
        while i < n
            invariant
                i <= n == keys.len(),
                keys == self.schedules.keys(),
                keys.no_duplicates(),
                forall|k: u128| self.schedules@.contains_key(k) == #[trigger] keys.contains(k),
                ordered(places@),
                forall|p: Place| #[trigger]
                    places@.contains(p) == (due_places(self.schedules@, now).contains(p)
                        && keys.take(i as int).contains(p.1)),
            decreases n - i,
        {
            let id: u128 = *self.schedules.key_at(i);
            let row = self.schedules.row_at(i);
            proof {
                lemma_one_more(keys, i as int);
                assert(keys.contains(keys[i as int]));
            }
            if let Some(at) = row.next_run_at {
                if row.enabled && at <= now {
                    assert(due_places(self.schedules@, now).contains((at, id)));
                    insert_place(&mut places, (at, id));
                }
            }
            i += 1;
        }
        let ghost all = places@;
        keep_first(&mut places, page_of(limit));
        proof {
            assert(keys.take(n as int) =~= keys);
            assert(all.to_set() =~= due_places(self.schedules@, now));
            assert forall|k: int| 0 <= k < places@.len() implies self.schedules@.contains_key(
                (#[trigger] places@[k]).1,
            ) by {
                assert(places@.contains(places@[k]));
                assert(due_places(self.schedules@, now).contains(places@[k]));
            }
        }
        let mut found: Vec<(WorkflowSchedule, i128)> = Vec::new();
        let mut j: usize = 0;
        while j < places.len()
            invariant
                j <= places@.len(),
                found@.len() == j,
                forall|k: int|
                    0 <= k < places@.len() ==> self.schedules@.contains_key(
                        (#[trigger] places@[k]).1,
                    ),
                forall|k: int|
                    0 <= k < j ==> (#[trigger] found@[k]).1 == places@[k].0 && schedule_matches(
                        found@[k].0,
                        places@[k].1,
                        self.schedules@[places@[k].1],
                    ),
            decreases places@.len() - j,
        {
            let place: Place = places[j];
            if let Some(row) = self.schedules.get(&place.1) {
                found.push((schedule_of(place.1, row), place.0));
            }
            j += 1;
        }
        proof {
            assert forall|k: int| 0 <= k < found@.len() implies #[trigger] schedule_places(
                found@,
            )[k] == places@[k] by {
                assert(found@[k].0.id == places@[k].1);
            }
            assert(schedule_places(found@) =~= places@);
        }
        found
    }

    /// Moves a schedule on from an occurrence and keeps the occurrence until it has its run: both or
    /// neither. Whether it did; an occurrence that is kept already is refused.
    pub fn claim_workflow_schedule(
        &mut self,
        schedule_id: Uuid,
        due_at: i128,
        next_run_at: i128,
        run_id: Uuid,
        now: i128,
    ) -> (r: Result<bool, RepositoryError>)
        ensures
            r is Err == (can_claim(old(self)@, schedule_id, due_at)
                && old(self)@.firings.contains_key((schedule_id, due_at))),
            r matches Err(error) ==> error == RepositoryError::Conflict && final(self)@
                == old(self)@,
            r matches Ok(claimed) ==> {
                &&& claimed == can_claim(old(self)@, schedule_id, due_at)
                &&& !claimed ==> final(self)@ == old(self)@
                &&& claimed ==> final(self)@ == claimed_occurrence(
                    old(self)@,
                    schedule_id,
                    due_at,
                    next_run_at,
                    run_id,
                    now,
                )
            },
    {
        let kept: bool = self.firings.contains(&(schedule_id, due_at));
        match self.schedules.get_mut(&schedule_id) {
            Some(row) => {
                let next: bool = match row.next_run_at {
                    Some(at) => at == due_at,
                    None => false,
                };
                if !row.enabled || !next {
                    return Ok(false);
                }
                if kept {
                    return Err(RepositoryError::Conflict);
                }
                row.next_run_at = Some(next_run_at);
                row.updated_at = now;
            },
            None => return Ok(false),
        }
        self.firings.put((schedule_id, due_at), Firing { run_id, started: false });
        Ok(true)
    }

    /// The occurrences without a run, the earliest first, so that a restart loses none.
    pub fn pending_workflow_schedule_firings(&self, limit: u32) -> (found: Vec<WorkflowScheduleFiring>)
        ensures
            first_of(pending_places(self@), page(limit as int), firing_places(found@)),
            forall|i: int|
                0 <= i < found@.len() ==> {
                    let firing = #[trigger] found@[i];
                    &&& schedule_matches(
                        firing.schedule,
                        firing.schedule.id,
                        self@.schedules[firing.schedule.id],
                    )
                    &&& firing.run_id == self@.firings[(firing.schedule.id, firing.due_at)].run_id
                },
    {
        let n: usize = self.firings.len();
        let ghost keys = self.firings.keys();
        let mut places: Vec<Place> = Vec::new();
        let mut i: usize = 0;
        while i < n
            invariant
                i <= n == keys.len(),
                keys == self.firings.keys(),
                keys.no_duplicates(),
                forall|k: (u128, i128)| self.firings@.contains_key(k) == #[trigger] keys.contains(k),
                ordered(places@),
                forall|p: Place| #[trigger]
                    places@.contains(p) == (pending_places(self@).contains(p) && keys.take(
                        i as int,
                    ).contains((p.1, p.0))),
            decreases n - i,
        {
            let key: (u128, i128) = *self.firings.key_at(i);
            let firing = self.firings.row_at(i);
            proof {
                lemma_one_more(keys, i as int);
                assert(keys.contains(keys[i as int]));
            }
            if !firing.started && self.schedules.contains(&key.0) {
                assert(pending_places(self@).contains((key.1, key.0)));
                insert_place(&mut places, (key.1, key.0));
            }
            i += 1;
        }
        let ghost all = places@;
        keep_first(&mut places, page_of(limit));
        proof {
            assert(keys.take(n as int) =~= keys);
            assert(all.to_set() =~= pending_places(self@));
            assert forall|k: int| 0 <= k < places@.len() implies pending_places(self@).contains(
                #[trigger] places@[k],
            ) by {
                assert(places@.contains(places@[k]));
            }
        }
        let mut found: Vec<WorkflowScheduleFiring> = Vec::new();
        let mut j: usize = 0;
        while j < places.len()
            invariant
                j <= places@.len(),
                found@.len() == j,
                forall|k: int|
                    0 <= k < places@.len() ==> pending_places(self@).contains(#[trigger] places@[k]),
                forall|k: int|
                    0 <= k < j ==> {
                        let firing = #[trigger] found@[k];
                        &&& firing.due_at == places@[k].0
                        &&& schedule_matches(
                            firing.schedule,
                            places@[k].1,
                            self.schedules@[places@[k].1],
                        )
                        &&& firing.run_id == self.firings@[(places@[k].1, places@[k].0)].run_id
                    },
            decreases places@.len() - j,
        {
            let place: Place = places[j];
            assert(pending_places(self@).contains(places@[j as int]));
            if let Some(row) = self.schedules.get(&place.1) {
                if let Some(firing) = self.firings.get(&(place.1, place.0)) {
                    found.push(
                        WorkflowScheduleFiring {
                            schedule: schedule_of(place.1, row),
                            due_at: place.0,
                            run_id: firing.run_id,
                        },
                    );
                }
            }
            j += 1;
        }
        proof {
            assert forall|k: int| 0 <= k < found@.len() implies #[trigger] firing_places(found@)[k]
                == places@[k] by {
                assert(found@[k].schedule.id == places@[k].1);
            }
            assert(firing_places(found@) =~= places@);
        }
        found
    }

    /// How many runs that a schedule has started are not at their end.
    pub fn active_schedule_run_count(&self, schedule_id: Uuid) -> (r: Result<u32, RepositoryError>)
        ensures
            occupying(self@, schedule_id).finite(),
            r is Err == (occupying(self@, schedule_id).len() > u32::MAX),
            r matches Err(error) ==> error == RepositoryError::OutOfRange,
            r matches Ok(n) ==> n == occupying(self@, schedule_id).len(),
    {
        let total: usize = self.firings.len();
        let ghost keys = self.firings.keys();
        let ghost mut found: Set<(u128, i128)> = Set::empty();
        let mut n: usize = 0;
        let mut i: usize = 0;
        while i < total
            invariant
                i <= total == keys.len(),
                n <= i,
                keys == self.firings.keys(),
                keys.no_duplicates(),
                forall|k: (u128, i128)| self.firings@.contains_key(k) == #[trigger] keys.contains(k),
                found.finite(),
                n == found.len(),
                forall|k: (u128, i128)| #[trigger]
                    found.contains(k) == (keys.take(i as int).contains(k) && occupies(
                        self@,
                        k,
                        schedule_id,
                    )),
            decreases total - i,
        {
            let key: (u128, i128) = *self.firings.key_at(i);
            let firing = self.firings.row_at(i);
            proof {
                lemma_one_more(keys, i as int);
                assert(keys.contains(keys[i as int]));
            }
            let counts: bool = key.0 == schedule_id && firing.started && match self.runs.get(
                &firing.run_id,
            ) {
                Some(run) => run.status.is(RunStatus::Pending) || run.status.is(RunStatus::Running)
                    || run.status.is(RunStatus::WaitingApproval),
                None => false,
            };
            assert(counts == occupies(self@, key, schedule_id));
            if counts {
                n += 1;
                proof {
                    found = found.insert(keys[i as int]);
                }
            }
            i += 1;
        }
        assert(keys.take(total as int) =~= keys);
        assert(found =~= occupying(self@, schedule_id));
        if n > u32::MAX as usize {
            Err(RepositoryError::OutOfRange)
        } else {
            Ok(n as u32)
        }
    }

    /// Marks an occurrence as having its run.
    pub fn mark_workflow_schedule_started(&mut self, schedule_id: Uuid, due_at: i128)
        ensures
            final(self)@ == started_occurrence(old(self)@, schedule_id, due_at),
    {
        if let Some(firing) = self.firings.get_mut(&(schedule_id, due_at)) {
            firing.started = true;
        }
    }

    /// Adds a workflow to the template catalog, under a name that no other template has.
    pub fn put_workflow_template(
        &mut self,
        id: Uuid,
        template: Template,
        now: i128,
    ) -> (r: Result<ClusterEvent, RepositoryError>)
        ensures
            r is Err == (old(self)@.templates.contains_key(id) || has_name(
                old(self)@.templates,
                template.name@,
            )),
            r matches Err(error) ==> error == RepositoryError::Conflict && final(self)@
                == old(self)@,
            r matches Ok(e) ==> e@ == event_of(
                "workflow.template_created"@,
                fields2(
                    ("template_id"@, id_json(id)),
                    ("workflow_id"@, id_json(template.workflow_id)),
                ),
            ) && final(self)@ == logged(
                RepositoryView {
                    templates: old(self)@.templates.insert(id, template),
                    ..old(self)@
                },
                e@,
                now,
            ),
    {
        if self.templates.contains(&id) || name_taken(&self.templates, template.name.as_str()) {
            return Err(RepositoryError::Conflict);
        }
        let e = event(
            "workflow.template_created",
            Fields::new().id("template_id", id).id("workflow_id", template.workflow_id),
        );
        self.templates.put(id, template);
        Ok(self.record(e, now))
    }

    /// Stores the digest of a webhook's secret, or changes it; to which workflow it belongs does not
    /// change.
    pub fn put_workflow_webhook(
        &mut self,
        id: Uuid,
        workflow_id: Uuid,
        secret_sha256: String,
        enabled: bool,
        now: i128,
    ) -> (e: ClusterEvent)
        ensures
            final(self)@ == logged(
                with_webhook(old(self)@, id, workflow_id, secret_sha256, enabled),
                e@,
                now,
            ),
            e@ == event_of(
                "workflow.webhook_updated"@,
                fields3(
                    ("webhook_id"@, id_json(id)),
                    ("workflow_id"@, id_json(workflow_id)),
                    ("enabled"@, JsonView::Bool(enabled)),
                ),
            ),
    {
        let owner: Uuid = match self.webhooks.get(&id) {
            Some(known) => known.workflow_id,
            None => workflow_id,
        };
        self.webhooks.put(id, Webhook { workflow_id: owner, secret_sha256, enabled });
        let e = event(
            "workflow.webhook_updated",
            Fields::new().id("webhook_id", id).id("workflow_id", workflow_id).flag(
                "enabled",
                enabled,
            ),
        );
        self.record(e, now)
    }

    /// A webhook as it is stored.
    pub fn workflow_webhook(&self, id: Uuid) -> (r: Option<&Webhook>)
        ensures
            r is Some == self@.webhooks.contains_key(id),
            r matches Some(webhook) ==> *webhook == self@.webhooks[id],
    {
        self.webhooks.get(&id)
    }
}

/// Whether an event says that a run has been created.
pub open spec fn created_event(event: RunEvent, run_id: Uuid, now: i128) -> bool {
    &&& event.run_id == run_id
    &&& event.event_type@ == "run.created"@
    &&& event.step_id is None
    &&& event.principal_id is None
    &&& event.created_at == now
}

/// Of two changes to a run that both start from the same nonce, one is refused: after the first the
/// run is under a new nonce.
pub proof fn law_a_stale_change_is_refused(
    v: RepositoryView,
    run_id: u128,
    expected_status: RunStatus,
    expected_nonce: Seq<u8>,
    status: RunStatus,
    content: EncryptedContent,
    happened: RunEvent,
    now: i128,
)
    requires
        as_expected(v.runs, run_id, expected_status, expected_nonce),
        content.nonce@ != expected_nonce,
    ensures
        !as_expected(
            updated_run(v, run_id, status, content, happened, now).runs,
            run_id,
            expected_status,
            expected_nonce,
        ),
{
}

/// An occurrence is claimed once: as long as the schedule has moved on, it cannot be claimed again.
pub proof fn law_an_occurrence_is_claimed_once(
    v: RepositoryView,
    schedule_id: u128,
    due_at: i128,
    next_run_at: i128,
    run_id: Uuid,
    now: i128,
)
    requires
        can_claim(v, schedule_id, due_at),
        next_run_at != due_at,
    ensures
        !can_claim(
            claimed_occurrence(v, schedule_id, due_at, next_run_at, run_id, now),
            schedule_id,
            due_at,
        ),
{
}

/// No occurrence is lost: one that was claimed waits, with its run's identifier, until it is marked,
/// and then waits no longer.
pub proof fn law_an_occurrence_waits_for_its_run(
    v: RepositoryView,
    schedule_id: u128,
    due_at: i128,
    next_run_at: i128,
    run_id: Uuid,
    now: i128,
)
    requires
        can_claim(v, schedule_id, due_at),
    ensures
        ({
            let after = claimed_occurrence(v, schedule_id, due_at, next_run_at, run_id, now);
            &&& pending_places(after).contains((due_at, schedule_id))
            &&& after.firings[(schedule_id, due_at)].run_id == run_id
            &&& !pending_places(started_occurrence(after, schedule_id, due_at)).contains(
                (due_at, schedule_id),
            )
        }),
{
}

/// A change to a run stores the state and the content that it was given, and what happened; to which workflow
/// and revision the run belongs, and when it was made, stays, and so does every other run.
pub proof fn law_a_change_keeps_the_run(
    v: RepositoryView,
    run_id: u128,
    status: RunStatus,
    content: EncryptedContent,
    happened: RunEvent,
    now: i128,
    other: u128,
)
    ensures
        ({
            let after = updated_run(v, run_id, status, content, happened, now);
            let run = after.runs[run_id];
            &&& as_expected(after.runs, run_id, status, content.nonce@)
            &&& run.content == content
            &&& run.updated_at == now
            &&& run.workflow_id == v.runs[run_id].workflow_id
            &&& run.workflow_revision == v.runs[run_id].workflow_revision
            &&& run.created_at == v.runs[run_id].created_at
            &&& after.run_events.len() == v.run_events.len() + 1
            &&& after.run_events.last() == happened
            &&& after.run_events.drop_last() == v.run_events
            &&& other != run_id ==> after.runs.contains_key(other) == v.runs.contains_key(other)
                && after.runs[other] == v.runs[other]
            &&& after.firings == v.firings && after.schedules == v.schedules
        }),
{
    assert(updated_run(v, run_id, status, content, happened, now).run_events.drop_last()
        =~= v.run_events);
}

/// A run that was begun is found as it was stored, in the state and under the nonce in which it was, and it
/// is on record once that it was created.
pub proof fn law_a_begun_run_is_found(
    before: RepositoryView,
    after: RepositoryView,
    run_id: Uuid,
    run: EncryptedWorkflowRun,
    status: RunStatus,
    other: u128,
)
    requires
        begun_run(before, after, run_id, run),
        run.status == StoredStatus::Known(status),
    ensures
        after.runs.contains_key(run_id) && after.runs[run_id] == run,
        as_expected(after.runs, run_id, status, run.content.nonce@),
        after.run_events.len() == before.run_events.len() + 1,
        after.run_events.last().run_id == run_id,
        after.run_events.last().event_type@ == "run.created"@,
        other != run_id ==> after.runs.contains_key(other) == before.runs.contains_key(other)
            && after.runs[other] == before.runs[other],
        after.events.len() == before.events.len() + 1,
{
}

/// A workflow that was stored is found in its first revision, as it was given; no other is touched.
pub proof fn law_a_stored_workflow_is_found(
    v: RepositoryView,
    id: Uuid,
    name: String,
    sha256: String,
    content: EncryptedContent,
    now: i128,
    other: u128,
)
    ensures
        ({
            let after = with_workflow(v, id, name, sha256, content, now).workflows;
            &&& after.contains_key(id)
            &&& after[id].name == name
            &&& after[id].revision == 1
            &&& after[id].sha256 == sha256
            &&& after[id].content == content
            &&& after[id].created_at == now
            &&& other != id ==> after.contains_key(other) == v.workflows.contains_key(other)
                && after[other] == v.workflows[other]
        }),
{
}

/// A schedule that was stored runs as it was asked: it is due from its next occurrence on, where it is
/// enabled, and not before, and never where it is not. It stays with its workflow, and keeps the date of
/// its creation.
pub proof fn law_a_schedule_is_due_in_time(
    v: RepositoryView,
    schedule: WorkflowSchedule,
    next_run_at: i128,
    now: i128,
    later: i128,
    other: u128,
)
    ensures
        ({
            let after = with_schedule(v, schedule, next_run_at, now);
            let row = after.schedules[schedule.id];
            &&& due(row, later) <==> schedule.enabled && later >= next_run_at
            &&& can_claim(after, schedule.id, next_run_at) <==> schedule.enabled
            &&& row.concurrency_limit == schedule.concurrency_limit
            &&& row.cron_utc == schedule.cron_utc
            &&& v.schedules.contains_key(schedule.id) ==> row.workflow_id
                == v.schedules[schedule.id].workflow_id && row.created_at
                == v.schedules[schedule.id].created_at
            &&& !v.schedules.contains_key(schedule.id) ==> row.workflow_id == schedule.workflow_id
                && row.created_at == now
            &&& other != schedule.id ==> after.schedules.contains_key(other)
                == v.schedules.contains_key(other) && after.schedules[other] == v.schedules[other]
            &&& after.firings == v.firings
        }),
{
}

/// An occurrence that was claimed moves its schedule on to the next, and nothing else of it: it is due again
/// from then on, and not before.
pub proof fn law_a_claim_moves_the_schedule_on(
    v: RepositoryView,
    schedule_id: u128,
    due_at: i128,
    next_run_at: i128,
    run_id: Uuid,
    now: i128,
    later: i128,
    other: (u128, i128),
)
    requires
        can_claim(v, schedule_id, due_at),
    ensures
        ({
            let after = claimed_occurrence(v, schedule_id, due_at, next_run_at, run_id, now);
            let row = after.schedules[schedule_id];
            &&& due(row, later) <==> later >= next_run_at
            &&& can_claim(after, schedule_id, next_run_at)
            &&& row.workflow_id == v.schedules[schedule_id].workflow_id
            &&& row.cron_utc == v.schedules[schedule_id].cron_utc
            &&& row.enabled == v.schedules[schedule_id].enabled
            &&& row.created_at == v.schedules[schedule_id].created_at
            &&& row.updated_at == now
            &&& row.concurrency_limit == v.schedules[schedule_id].concurrency_limit
            &&& other != (schedule_id, due_at) ==> after.firings.contains_key(other)
                == v.firings.contains_key(other) && after.firings[other] == v.firings[other]
            &&& started_occurrence(after, schedule_id, due_at).firings[(schedule_id, due_at)].run_id
                == run_id
            &&& started_occurrence(after, schedule_id, due_at).firings[(schedule_id, due_at)].started
        }),
{
}

/// An occurrence counts against the limit of its schedule from the moment at which it has its run until that
/// run is at its end, and against no other schedule.
pub proof fn law_an_occurrence_counts_until_its_run_ends(
    v: RepositoryView,
    schedule_id: u128,
    due_at: i128,
    status: RunStatus,
    other: u128,
)
    requires
        v.firings.contains_key((schedule_id, due_at)),
        v.runs.contains_key(v.firings[(schedule_id, due_at)].run_id),
        v.runs[v.firings[(schedule_id, due_at)].run_id].status == StoredStatus::Known(status),
        other != schedule_id,
    ensures
        ({
            let after = started_occurrence(v, schedule_id, due_at);
            let key = (schedule_id, due_at);
            &&& occupying(after, schedule_id).contains(key) <==> status == RunStatus::Pending
                || status == RunStatus::Running || status == RunStatus::WaitingApproval
            &&& !v.firings[key].started ==> !occupying(v, schedule_id).contains(key)
            &&& !occupying(after, other).contains(key)
        }),
{
}

/// A run is taken up after a restart where it runs or waits for an approval, and nowhere else.
pub proof fn law_runs_under_way_are_taken_up(runs: Map<u128, EncryptedWorkflowRun>, id: u128, status: RunStatus)
    requires
        runs.contains_key(id),
        runs[id].status == StoredStatus::Known(status),
    ensures
        active_places(runs).contains((runs[id].created_at, id)) <==> status == RunStatus::Running
            || status == RunStatus::WaitingApproval,
{
}

/// A webhook that was stored has the secret and the switch that it was given, and stays with its workflow; no
/// other is touched.
pub proof fn law_a_webhook_stays_with_its_workflow(
    v: RepositoryView,
    id: Uuid,
    workflow_id: Uuid,
    secret_sha256: String,
    enabled: bool,
    other: u128,
)
    ensures
        ({
            let after = with_webhook(v, id, workflow_id, secret_sha256, enabled).webhooks;
            &&& after.contains_key(id)
            &&& after[id].secret_sha256 == secret_sha256
            &&& after[id].enabled == enabled
            &&& v.webhooks.contains_key(id) ==> after[id].workflow_id == v.webhooks[id].workflow_id
            &&& !v.webhooks.contains_key(id) ==> after[id].workflow_id == workflow_id
            &&& other != id ==> after.contains_key(other) == v.webhooks.contains_key(other)
                && after[other] == v.webhooks[other]
        }),
{
}

/// Of a new workflow it is told that it is the first revision, and its digest.
pub proof fn law_a_new_workflow_is_told(id: Uuid, sha256: Seq<char>)
    ensures
        ({
            let told = workflow_event(id, sha256);
            &&& told.event_type == "workflow.created"@
            &&& field_of(told.payload, "workflow_id"@) == Some(id_json(id))
            &&& field_of(told.payload, "revision"@) == Some(JsonView::Number(1))
            &&& field_of(told.payload, "sha256"@) == Some(JsonView::Text(sha256))
        }),
{
    reveal_strlit("workflow_id");
    reveal_strlit("revision");
    reveal_strlit("sha256");
    assert("workflow_id"@.len() == 11);
    assert("revision"@.len() == 8);
    assert("sha256"@.len() == 6);
    let a = ("workflow_id"@, id_json(id));
    let b = ("revision"@, JsonView::Number(1));
    let c = ("sha256"@, JsonView::Text(sha256));
    lemma_fields3(a, b, c, "workflow_id"@);
    lemma_fields3(a, b, c, "revision"@);
    lemma_fields3(a, b, c, "sha256"@);
}

/// Of a new run it is told of which workflow it is.
pub proof fn law_a_new_run_is_told(workflow_id: Uuid, run_id: Uuid)
    ensures
        ({
            let told = run_created(workflow_id, run_id);
            &&& told.event_type == "workflow.run_created"@
            &&& field_of(told.payload, "workflow_id"@) == Some(id_json(workflow_id))
            &&& field_of(told.payload, "run_id"@) == Some(id_json(run_id))
        }),
{
    reveal_strlit("workflow_id");
    reveal_strlit("run_id");
    assert("workflow_id"@.len() == 11);
    assert("run_id"@.len() == 6);
    let a = ("workflow_id"@, id_json(workflow_id));
    let b = ("run_id"@, id_json(run_id));
    lemma_fields2(a, b, "workflow_id"@);
    lemma_fields2(a, b, "run_id"@);
}

/// Of a schedule it is told whether it is enabled.
pub proof fn law_a_schedule_is_told(schedule: WorkflowSchedule)
    ensures
        ({
            let told = schedule_event(schedule);
            &&& told.event_type == "workflow.schedule_updated"@
            &&& field_of(told.payload, "schedule_id"@) == Some(id_json(schedule.id))
            &&& field_of(told.payload, "workflow_id"@) == Some(id_json(schedule.workflow_id))
            &&& field_of(told.payload, "enabled"@) == Some(JsonView::Bool(schedule.enabled))
        }),
{
    reveal_strlit("schedule_id");
    reveal_strlit("workflow_id");
    reveal_strlit("enabled");
    assert("schedule_id"@.len() == 11);
    assert("workflow_id"@.len() == 11);
    assert("enabled"@.len() == 7);
    assert("schedule_id"@[0] != "workflow_id"@[0]);
    let a = ("schedule_id"@, id_json(schedule.id));
    let b = ("workflow_id"@, id_json(schedule.workflow_id));
    let c = ("enabled"@, JsonView::Bool(schedule.enabled));
    lemma_fields3(a, b, c, "schedule_id"@);
    lemma_fields3(a, b, c, "workflow_id"@);
    lemma_fields3(a, b, c, "enabled"@);
}

/// A schedule that is read back is the one that was stored, and two that are read from one row are the same.
pub proof fn law_a_schedule_is_read_as_stored(
    a: WorkflowSchedule,
    b: WorkflowSchedule,
    id: u128,
    row: Schedule,
)
    requires
        schedule_matches(a, id, row),
    ensures
        a.id == id && a.workflow_id == row.workflow_id && a.cron_utc@ == row.cron_utc@,
        a.enabled == row.enabled && a.concurrency_limit == row.concurrency_limit,
        schedule_matches(b, id, row) <==> a.id == b.id && a.workflow_id == b.workflow_id && a.cron_utc@
            == b.cron_utc@ && a.enabled == b.enabled && a.concurrency_limit == b.concurrency_limit,
{
}

/// That a run began is on record just once, behind all that happened before.
pub proof fn law_the_beginning_is_on_record(
    before: RepositoryView,
    after: RepositoryView,
    run_id: Uuid,
    run: EncryptedWorkflowRun,
)
    requires
        begun_run(before, after, run_id, run),
    ensures
        after.run_events.len() == before.run_events.len() + 1,
        after.run_events.drop_last() == before.run_events,
        after.run_events.last().run_id == run_id,
        after.run_events.last().created_at == run.created_at,
        after.events.len() == before.events.len() + 1,
        after.events.last().event == run_created(run.workflow_id, run_id),
        after.workflows == before.workflows,
        after.schedules == before.schedules,
{
    assert(after.run_events.drop_last() =~= before.run_events);
}

} // verus!
