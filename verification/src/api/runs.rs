//! Starting workflows: definitions, runs and schedules, with what is stored of them.

use crate::api::{bad_request, internal, not_found, secret, ApiError, ErrorView};
use crate::ident::Uuid;
use crate::json::{
    field_of, fields2, fields4, id_json, lemma_fields4, text_list, texts_json, Fields, Json, JsonView,
};
use crate::repository::events::logged;
use crate::repository::workflows::{
    begun_run, can_claim, claimed_occurrence, occupying, run_created, schedule_event,
    with_schedule, with_workflow, workflow_event, WorkflowSchedule, WorkflowScheduleFiring,
};
use crate::repository::{
    ClusterEvent, EncryptedContent, EncryptedWorkflowArtifact, EncryptedWorkflowDefinition,
    EncryptedWorkflowRun, Repository, RepositoryView, RunStatus, StoredStatus, Template,
};
use vstd::prelude::*;

verus! {

// ------------------------------------------------------------------------------------------------
// Definitions

/// A definition that was found valid, or what is wrong with it.
pub struct ValidDefinition {
    pub name: String,
    /// The digest of the definition.
    pub sha256: String,
    /// The definition, as it is encoded.
    pub encoded: Vec<u8>,
}

/// What a client is told of a workflow.
pub open spec fn workflow_note(id: Uuid, revision: int, sha256: Seq<char>, encoded: Seq<u8>) -> JsonView {
    JsonView::Object(
        fields4(
            ("id"@, id_json(id)),
            ("revision"@, JsonView::Number(revision)),
            ("sha256"@, JsonView::Text(sha256)),
            ("definition"@, JsonView::Document(encoded)),
        ),
    )
}

/// What a client is told of a workflow that was loaded.
pub fn get_workflow(id: Uuid, revision: u32, sha256: &str, encoded: Vec<u8>) -> (r: Json)
    ensures
        r@ == workflow_note(id, revision as int, sha256@, encoded@),
{
    Fields::new().id("id", id).number("revision", revision as i128).text("sha256", sha256).document(
        "definition",
        encoded,
    ).object()
}

/// What a client is told of a run: the run, as it is encoded, and the steps that can start, where its
/// definition is at hand.
pub fn workflow_run_response(run: Vec<u8>, ready_steps: Option<Vec<String>>) -> (r: Json)
    ensures
        r@ == JsonView::Object(
            fields2(
                ("run"@, JsonView::Document(run@)),
                (
                    "ready_steps"@,
                    texts_json(
                        match ready_steps {
                            Some(steps) => steps@,
                            None => Seq::empty(),
                        },
                    ),
                ),
            ),
        ),
{
    let steps = match ready_steps {
        Some(steps) => steps,
        None => Vec::new(),
    };
    Fields::new().document("run", run).with("ready_steps", text_list(steps)).object()
}

/// Why a definition is not stored, where it is not.
pub open spec fn definition_refusal(
    valid: Result<ValidDefinition, String>,
    sealed: Option<EncryptedContent>,
    known: bool,
) -> Option<ErrorView> {
    if valid is Err {
        Some(bad_request("invalid_workflow"@, valid->Err_0@))
    } else if sealed is None {
        Some(secret())
    } else if known {
        Some(internal())
    } else {
        None
    }
}

/// Stores a definition as the first revision of a workflow. Whether it is valid, and its encryption,
/// come from outside.
pub fn persist_workflow_definition(
    repository: &mut Repository,
    id: Uuid,
    valid: Result<ValidDefinition, String>,
    sealed: Option<EncryptedContent>,
    now: i128,
) -> (r: Result<(ClusterEvent, Json), ApiError>)
    ensures
        match definition_refusal(valid, sealed, old(repository)@.workflows.contains_key(id)) {
            Some(error) => r is Err && r->Err_0@ == error && final(repository)@
                == old(repository)@,
            None => {
                let definition = valid->Ok_0;
                &&& r is Ok
                &&& r->Ok_0.0@ == workflow_event(id, definition.sha256@)
                &&& r->Ok_0.1@ == workflow_note(id, 1, definition.sha256@, definition.encoded@)
                &&& final(repository)@ == logged(
                    with_workflow(
                        old(repository)@,
                        id,
                        definition.name,
                        definition.sha256,
                        sealed->0,
                        now,
                    ),
                    r->Ok_0.0@,
                    now,
                )
            },
        },
{
    let definition = match valid {
        Ok(definition) => definition,
        Err(message) => return Err(ApiError::bad_request("invalid_workflow", message.as_str())),
    };
    let content = match sealed {
        Some(content) => content,
        None => return Err(ApiError::secret()),
    };
    let note = get_workflow(id, 1, definition.sha256.as_str(), definition.encoded);
    match repository.create_workflow(id, definition.name, definition.sha256, content, now) {
        Ok(e) => Ok((e, note)),
        Err(_) => Err(ApiError::internal()),
    }
}

// ------------------------------------------------------------------------------------------------
// Runs

/// A run that was made from a definition and started, with its encryption.
pub struct MadeRun {
    pub id: Uuid,
    pub workflow_id: Uuid,
    pub workflow_revision: u32,
    pub status: RunStatus,
    pub content: EncryptedContent,
}

/// The workflow with an identifier.
pub fn find_workflow(repository: &Repository, id: Uuid) -> (r: Result<
    &EncryptedWorkflowDefinition,
    ApiError,
>)
    ensures
        r is Ok == repository@.workflows.contains_key(id),
        r matches Ok(workflow) ==> *workflow == repository@.workflows[id],
        r matches Err(error) ==> error@ == not_found(
            "workflow_not_found"@,
            "workflow does not exist"@,
        ),
{
    match repository.workflow_definition(id) {
        Some(workflow) => Ok(workflow),
        None => Err(ApiError::not_found("workflow_not_found", "workflow does not exist")),
    }
}

/// The run with an identifier.
pub fn find_workflow_run(repository: &Repository, id: Uuid) -> (r: Result<
    &EncryptedWorkflowRun,
    ApiError,
>)
    ensures
        r is Ok == repository@.runs.contains_key(id),
        r matches Ok(run) ==> *run == repository@.runs[id],
        r matches Err(error) ==> error@ == not_found(
            "workflow_run_not_found"@,
            "workflow run does not exist"@,
        ),
{
    match repository.workflow_run(id) {
        Some(run) => Ok(run),
        None => Err(ApiError::not_found("workflow_run_not_found", "workflow run does not exist")),
    }
}

/// The template with an identifier.
pub fn find_workflow_template(repository: &Repository, id: Uuid) -> (r: Result<&Template, ApiError>)
    ensures
        r is Ok == repository@.templates.contains_key(id),
        r matches Ok(template) ==> *template == repository@.templates[id],
        r matches Err(error) ==> error@ == not_found(
            "template_not_found"@,
            "template does not exist"@,
        ),
{
    match repository.workflow_template(id) {
        Some(template) => Ok(template),
        None => Err(ApiError::not_found("template_not_found", "template does not exist")),
    }
}

/// The artifact with an identifier.
pub fn find_workflow_artifact(repository: &Repository, id: Uuid) -> (r: Result<
    &EncryptedWorkflowArtifact,
    ApiError,
>)
    ensures
        r is Ok == repository@.artifacts.contains_key(id),
        r matches Ok(artifact) ==> *artifact == repository@.artifacts[id],
        r matches Err(error) ==> error@ == not_found(
            "workflow_artifact_not_found"@,
            "artifact does not exist"@,
        ),
{
    match repository.workflow_artifact(id) {
        Some(artifact) => Ok(artifact),
        None => Err(
            ApiError::not_found("workflow_artifact_not_found", "artifact does not exist"),
        ),
    }
}

/// Whether a run with that identifier is to be made: not where there is one already.
pub fn start_is_new(repository: &Repository, run_id: Option<Uuid>) -> (r: bool)
    ensures
        r == (run_id matches Some(id) ==> !repository@.runs.contains_key(id)),
{
    match run_id {
        Some(id) => repository.workflow_run(id).is_none(),
        None => true,
    }
}

/// Stores a run that was made from a definition and started, or tells why it was not. An identifier
/// that was given beforehand becomes the run's; where there is a run under it already, that one is
/// handed back, and nothing is stored.
pub fn start_workflow_run_with_id(
    repository: &mut Repository,
    run_id: Option<Uuid>,
    made: Result<MadeRun, String>,
    now: i128,
) -> (r: Result<(Uuid, Option<ClusterEvent>), ApiError>)
    ensures
        ({
            let before = old(repository)@;
            let after = final(repository)@;
            if run_id is Some && before.runs.contains_key(run_id->0) {
                r is Ok && r->Ok_0.0 == run_id->0 && r->Ok_0.1 is None && after == before
            } else {
                match made {
                    Err(message) => r is Err && r->Err_0@ == bad_request(
                        "invalid_workflow_run"@,
                        message@,
                    ) && after == before,
                    Ok(run) => {
                        let id = match run_id {
                            Some(id) => id,
                            None => run.id,
                        };
                        if before.runs.contains_key(id) {
                            r is Err && r->Err_0@ == internal() && after == before
                        } else {
                            &&& r is Ok && r->Ok_0.0 == id && r->Ok_0.1 is Some
                            &&& r->Ok_0.1->0@ == run_created(run.workflow_id, id)
                            &&& begun_run(
                                before,
                                after,
                                id,
                                EncryptedWorkflowRun {
                                    workflow_id: run.workflow_id,
                                    workflow_revision: run.workflow_revision,
                                    status: StoredStatus::Known(run.status),
                                    content: run.content,
                                    created_at: now,
                                    updated_at: now,
                                },
                            )
                        }
                    },
                }
            }
        }),
{
    if let Some(id) = run_id {
        if repository.workflow_run(id).is_some() {
            return Ok((id, None));
        }
    }
    let run = match made {
        Ok(run) => run,
        Err(message) => return Err(
            ApiError::bad_request("invalid_workflow_run", message.as_str()),
        ),
    };
    let id: Uuid = match run_id {
        Some(id) => id,
        None => run.id,
    };
    match repository.create_workflow_run(
        id,
        run.workflow_id,
        run.workflow_revision,
        run.status,
        run.content,
        now,
    ) {
        Ok(e) => Ok((id, Some(e))),
        Err(_) => Err(ApiError::internal()),
    }
}

/// Starting a run twice under one identifier starts it once: the second start hands back the run that
/// the first one stored.
pub proof fn law_a_run_is_started_once(
    before: RepositoryView,
    after: RepositoryView,
    id: Uuid,
    run: EncryptedWorkflowRun,
)
    requires
        begun_run(before, after, id, run),
    ensures
        after.runs.contains_key(id),
        after.runs[id] == run,
{
}

// ------------------------------------------------------------------------------------------------
// Schedules

/// Stores a schedule, whose validity and next occurrence come from outside.
pub fn create_workflow_schedule(
    repository: &mut Repository,
    schedule: WorkflowSchedule,
    next_run_at: Result<i128, String>,
    now: i128,
) -> (r: Result<ClusterEvent, ApiError>)
    ensures
        match next_run_at {
            Ok(next) => r is Ok && r->Ok_0@ == schedule_event(schedule) && final(repository)@
                == logged(with_schedule(old(repository)@, schedule, next, now), r->Ok_0@, now),
            Err(message) => r is Err && r->Err_0@ == bad_request(
                "invalid_workflow_schedule"@,
                message@,
            ) && final(repository)@ == old(repository)@,
        },
{
    match next_run_at {
        Ok(next) => Ok(repository.put_workflow_schedule(schedule, next, now)),
        Err(message) => Err(
            ApiError::bad_request("invalid_workflow_schedule", message.as_str()),
        ),
    }
}

/// An occurrence that is to be claimed, with the one that follows it, where there is one, and the run
/// that it gets.
#[derive(Clone, Copy)]
pub struct Claim {
    pub schedule_id: Uuid,
    pub due_at: i128,
    pub next_run_at: Option<i128>,
    pub run_id: Uuid,
}

/// The state after the first `n` claims, and whether all of them went well: one without an occurrence
/// that follows, or for an occurrence that is kept already, ends them.
pub open spec fn after_claims(v: RepositoryView, claims: Seq<Claim>, now: i128, n: nat) -> (
    RepositoryView,
    bool,
)
    decreases n,
{
    if n == 0 {
        (v, true)
    } else {
        let (before, well) = after_claims(v, claims, now, (n - 1) as nat);
        let claim = claims[n - 1];
        if !well || claim.next_run_at is None {
            (before, false)
        } else if !can_claim(before, claim.schedule_id, claim.due_at) {
            (before, true)
        } else if before.firings.contains_key((claim.schedule_id, claim.due_at)) {
            (before, false)
        } else {
            (
                claimed_occurrence(
                    before,
                    claim.schedule_id,
                    claim.due_at,
                    claim.next_run_at->0,
                    claim.run_id,
                    now,
                ),
                true,
            )
        }
    }
}

/// What follows a claim that did not go well is not carried out.
proof fn lemma_claims_end(v: RepositoryView, claims: Seq<Claim>, now: i128, n: nat, m: nat)
    requires
        n <= m,
        !after_claims(v, claims, now, n).1,
    ensures
        after_claims(v, claims, now, m) == after_claims(v, claims, now, n),
    decreases m,
{
    if n < m {
        lemma_claims_end(v, claims, now, n, (m - 1) as nat);
    }
}

/// Claims the occurrences that are due, one after the other.
pub fn dispatch_workflow_schedules(repository: &mut Repository, claims: &[Claim], now: i128) -> (r: Result<
    (),
    ApiError,
>)
    ensures
        (final(repository)@, r is Ok) == after_claims(old(repository)@, claims@, now, claims@.len()),
        r matches Err(error) ==> error@ == internal(),
{
    let ghost start = repository@;
    let mut i: usize = 0;
    while i < claims.len()
        invariant
            i <= claims@.len(),
            start == old(repository)@,
            after_claims(start, claims@, now, i as nat) == (repository@, true),
        decreases claims@.len() - i,
    {
        let claim: Claim = claims[i];
        let next: i128 = match claim.next_run_at {
            Some(next) => next,
            None => {
                proof {
                    lemma_claims_end(start, claims@, now, (i + 1) as nat, claims@.len());
                }
                return Err(ApiError::internal());
            },
        };
        if repository.claim_workflow_schedule(
            claim.schedule_id,
            claim.due_at,
            next,
            claim.run_id,
            now,
        ).is_err() {
            proof {
                lemma_claims_end(start, claims@, now, (i + 1) as nat, claims@.len());
            }
            return Err(ApiError::internal());
        }
        i += 1;
    }
    Ok(())
}

/// Whether the schedule of an occurrence has fewer runs under way than it may.
pub open spec fn firing_has_room(v: RepositoryView, firing: WorkflowScheduleFiring) -> bool {
    occupying(v, firing.schedule.id).len() < firing.schedule.concurrency_limit
}

/// The next occurrence, from a place on, that gets its run now.
pub fn next_firing(repository: &Repository, firings: &[WorkflowScheduleFiring], from: usize) -> (r: Result<
    Option<usize>,
    ApiError,
>)
    ensures
        match r {
            Ok(Some(i)) => from <= i < firings@.len() && firing_has_room(
                repository@,
                firings@[i as int],
            ) && forall|j: int|
                from <= j < i ==> !firing_has_room(repository@, #[trigger] firings@[j]),
            Ok(None) => forall|j: int|
                from <= j < firings@.len() ==> !firing_has_room(repository@, #[trigger] firings@[j]),
            Err(error) => error@ == internal() && exists|j: int|
                from <= j < firings@.len() && occupying(
                    repository@,
                    (#[trigger] firings@[j]).schedule.id,
                ).len() > u32::MAX,
        },
{
    let mut i: usize = from;
    while i < firings.len()
        invariant
            from <= i,
            forall|j: int| from <= j < i ==> !firing_has_room(repository@, #[trigger] firings@[j]),
            i <= firings@.len() || i == from,
        decreases firings@.len() - i,
    {
        let active: u32 = match repository.active_schedule_run_count(firings[i].schedule.id) {
            Ok(active) => active,
            Err(_) => {
                assert(occupying(repository@, firings@[i as int].schedule.id).len() > u32::MAX);
                return Err(ApiError::internal());
            },
        };
        if crate::api::workflows::has_room(active, firings[i].schedule.concurrency_limit) {
            return Ok(Some(i));
        }
        i += 1;
    }
    Ok(None)
}

/// A workflow is told as it is stored: its identifier, its revision, its digest and its definition.
pub proof fn law_a_workflow_is_told_as_it_is(
    id: Uuid,
    revision: int,
    sha256: Seq<char>,
    encoded: Seq<u8>,
)
    ensures
        ({
            let told = workflow_note(id, revision, sha256, encoded);
            &&& field_of(told, "id"@) == Some(id_json(id))
            &&& field_of(told, "revision"@) == Some(JsonView::Number(revision))
            &&& field_of(told, "sha256"@) == Some(JsonView::Text(sha256))
            &&& field_of(told, "definition"@) == Some(JsonView::Document(encoded))
        }),
{
    reveal_strlit("id");
    reveal_strlit("revision");
    reveal_strlit("sha256");
    reveal_strlit("definition");
    assert("id"@.len() == 2);
    assert("revision"@.len() == 8);
    assert("sha256"@.len() == 6);
    assert("definition"@.len() == 10);
    let a = ("id"@, id_json(id));
    let b = ("revision"@, JsonView::Number(revision));
    let c = ("sha256"@, JsonView::Text(sha256));
    let d = ("definition"@, JsonView::Document(encoded));
    lemma_fields4(a, b, c, d, "id"@);
    lemma_fields4(a, b, c, d, "revision"@);
    lemma_fields4(a, b, c, d, "sha256"@);
    lemma_fields4(a, b, c, d, "definition"@);
}

/// A definition is stored where it is valid, could be sealed, and is new.
pub proof fn law_sound_definitions_are_stored(
    valid: Result<ValidDefinition, String>,
    sealed: Option<EncryptedContent>,
    known: bool,
)
    ensures
        definition_refusal(valid, sealed, known) is None <==> valid is Ok && sealed is Some && !known,
        valid matches Err(fault) ==> definition_refusal(valid, sealed, known) == Some(
            bad_request("invalid_workflow"@, fault@),
        ),
{
}

/// Claims are made one after the other, up to the first that fails: those before it hold, and those after it
/// are not made.
pub proof fn law_claims_stop_at_the_first_failure(
    v: RepositoryView,
    claims: Seq<Claim>,
    now: i128,
    m: nat,
    n: nat,
)
    requires
        m <= n <= claims.len(),
        !after_claims(v, claims, now, m).1,
    ensures
        after_claims(v, claims, now, n) == after_claims(v, claims, now, m),
    decreases n,
{
    if m < n {
        law_claims_stop_at_the_first_failure(v, claims, now, m, (n - 1) as nat);
    }
}

/// A claim whose occurrence is the next of its schedule is made: the occurrence waits for the run that it
/// named, and the schedule goes on to the next; one whose occurrence is not is passed over, and nothing
/// comes of it.
pub proof fn law_a_claim_is_made_where_it_is_due(v: RepositoryView, claims: Seq<Claim>, now: i128, n: nat)
    requires
        n < claims.len(),
        after_claims(v, claims, now, n).1,
        claims[n as int].next_run_at is Some,
    ensures
        ({
            let before = after_claims(v, claims, now, n).0;
            let (after, well) = after_claims(v, claims, now, n + 1);
            let claim = claims[n as int];
            let key = (claim.schedule_id, claim.due_at);
            &&& !can_claim(before, claim.schedule_id, claim.due_at) ==> well && after == before
            &&& can_claim(before, claim.schedule_id, claim.due_at) && !before.firings.contains_key(key)
                ==> {
                &&& well
                &&& after.firings.contains_key(key) && after.firings[key].run_id == claim.run_id
                &&& !after.firings[key].started
                &&& after.schedules[claim.schedule_id].next_run_at == claim.next_run_at
            }
            &&& can_claim(before, claim.schedule_id, claim.due_at) && before.firings.contains_key(key)
                ==> !well && after == before
            &&& after.runs == before.runs
        }),
{
}

/// An occurrence gets its run now where its schedule has fewer under way than it may have; a limit of none
/// starts nothing.
pub proof fn law_schedules_keep_their_limit(v: RepositoryView, firing: WorkflowScheduleFiring)
    requires
        occupying(v, firing.schedule.id).finite(),
    ensures
        firing.schedule.concurrency_limit == 0 ==> !firing_has_room(v, firing),
        firing_has_room(v, firing) ==> occupying(v, firing.schedule.id).len() + 1
            <= firing.schedule.concurrency_limit,
        occupying(v, firing.schedule.id).len() == 0 && firing.schedule.concurrency_limit > 0
            ==> firing_has_room(v, firing),
{
}

} // verus!
