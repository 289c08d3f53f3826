//! Models: what clients may ask for, and the store of local ones.

use crate::api::{model_store, ApiError, ModelStoreError};
use crate::cloud_stream::views;
use crate::json::{field_of, fields1, fields2, fields4, lemma_fields4, Fields, Json, JsonView};
use crate::repository::events::logged;
use crate::repository::catalog::{model_event, with_model, ModelManifest};
use crate::repository::{event_of, ClusterEvent, Repository, RepositoryView};
use crate::text;
use vstd::prelude::*;

verus! {

/// An entry of the list of models.
pub open spec fn model_entry(id: Seq<char>, owned_by: Seq<char>) -> JsonView {
    JsonView::Object(
        fields4(
            ("id"@, JsonView::Text(id)),
            ("object"@, JsonView::Text("model"@)),
            ("owned_by"@, JsonView::Text(owned_by)),
            ("created"@, JsonView::Number(0)),
        ),
    )
}

/// The entries of models that one owner has.
pub open spec fn model_entries(ids: Seq<Seq<char>>, owned_by: Seq<char>) -> Seq<JsonView> {
    ids.map_values(|id: Seq<char>| model_entry(id, owned_by))
}

fn append_entries(entries: &mut Vec<Json>, ids: &[String], owned_by: &str)
    ensures
        crate::json::item_views(final(entries)@) == crate::json::item_views(old(entries)@)
            + model_entries(views(ids@), owned_by@),
{
    let ghost before = crate::json::item_views(entries@);
    let ghost all = model_entries(views(ids@), owned_by@);
    let mut i: usize = 0;
    assert(before + all.take(0) =~= before);
    while i < ids.len()
        invariant
            i <= ids@.len(),
            all == model_entries(views(ids@), owned_by@),
            crate::json::item_views(entries@) == before + all.take(i as int),
        decreases ids@.len() - i,
    {
        let ghost sofar = entries@;
        let entry = Fields::new().text("id", ids[i].as_str()).text("object", "model").text(
            "owned_by",
            owned_by,
        ).number("created", 0).object();
        let ghost made = entry@;
        entries.push(entry);
        assert(crate::json::item_views(entries@) =~= crate::json::item_views(sofar).push(made));
        assert(all[i as int] == made);
        assert(all.take(i + 1) =~= all.take(i as int).push(made));
        assert(before + all.take(i + 1) =~= (before + all.take(i as int)).push(made));
        i += 1;
    }
    assert(all.take(i as int) =~= all);
}

/// The models that clients may ask for: those of the runtimes first, then those of cloud providers.
pub fn models(local: &[String], cloud: &[String]) -> (r: Json)
    ensures
        r@ == JsonView::Object(
            fields2(
                ("object"@, JsonView::Text("list"@)),
                (
                    "data"@,
                    JsonView::Array(
                        model_entries(views(local@), "constellation"@) + model_entries(
                            views(cloud@),
                            "external-provider"@,
                        ),
                    ),
                ),
            ),
        ),
{
    let mut entries: Vec<Json> = Vec::new();
    assert(crate::json::item_views(entries@) =~= Seq::empty());
    append_entries(&mut entries, local, "constellation");
    append_entries(&mut entries, cloud, "external-provider");
    let ghost all = crate::json::item_views(entries@);
    assert(all =~= model_entries(views(local@), "constellation"@) + model_entries(
        views(cloud@),
        "external-provider"@,
    ));
    let data = Json::Array(entries);
    assert(data@->Array_0 =~= all);
    Fields::new().text("object", "list").with("data", data).object()
}

// ------------------------------------------------------------------------------------------------
// The store of local models

/// What is known of a license that was accepted.
pub struct LicenseAcceptance {
    pub license_id: String,
    pub accepted_at: i128,
    pub source: String,
}

/// Where a model came from, and the license under which it may be used, where it was accepted.
pub struct ImportOptions {
    pub source: String,
    pub license: Option<LicenseAcceptance>,
}

/// What is asked of an import. The name is that of the file, where it has one that is text.
pub struct ModelImportRequest {
    pub file_name: Option<String>,
    pub source: Option<String>,
    pub license_id: String,
    pub license_accepted: bool,
}

/// Where a model came from: what is said of it, else the name of its file.
pub open spec fn import_source(request: ModelImportRequest) -> Seq<char> {
    match request.source {
        Some(source) => source@,
        None => match request.file_name {
            Some(name) => name@,
            None => "local model"@,
        },
    }
}

/// With what a model is imported. There is a license only where it was accepted.
pub fn import_local_model(request: ModelImportRequest, now: i128) -> (r: ImportOptions)
    ensures
        r.source@ == import_source(request),
        r.license is Some == request.license_accepted,
        r.license matches Some(license) ==> license.license_id == request.license_id
            && license.accepted_at == now && license.source@ == import_source(request),
{
    let source = match request.source {
        Some(source) => source,
        None => match request.file_name {
            Some(name) => name,
            None => text::owned("local model"),
        },
    };
    let license = if request.license_accepted {
        Some(
            LicenseAcceptance {
                license_id: request.license_id,
                accepted_at: now,
                source: text::owned(source.as_str()),
            },
        )
    } else {
        None
    };
    ImportOptions { source, license }
}

/// Stores a model that the store has pinned or let go, or tells why it could not.
pub fn pin_local_model(
    repository: &mut Repository,
    outcome: Result<ModelManifest, ModelStoreError>,
    now: i128,
) -> (r: Result<ClusterEvent, ApiError>)
    ensures
        match outcome {
            Ok(manifest) => r is Ok && r->Ok_0@ == model_event(manifest) && final(repository)@
                == logged(with_model(old(repository)@, manifest, now), r->Ok_0@, now),
            Err(error) => r is Err && r->Err_0@ == model_store(error) && final(repository)@
                == old(repository)@,
        },
{
    verify_local_model(repository, outcome, now)
}

/// Stores a model that the store has imported or verified, or tells why it could not.
pub fn verify_local_model(
    repository: &mut Repository,
    outcome: Result<ModelManifest, ModelStoreError>,
    now: i128,
) -> (r: Result<ClusterEvent, ApiError>)
    ensures
        match outcome {
            Ok(manifest) => r is Ok && r->Ok_0@ == model_event(manifest) && final(repository)@
                == logged(with_model(old(repository)@, manifest, now), r->Ok_0@, now),
            Err(error) => r is Err && r->Err_0@ == model_store(error) && final(repository)@
                == old(repository)@,
        },
{
    match outcome {
        Ok(manifest) => Ok(repository.put_model(manifest, now)),
        Err(error) => Err(ApiError::model_store(error)),
    }
}

/// Forgets a model that the store has removed, or tells why it could not.
pub fn remove_local_model(
    repository: &mut Repository,
    alias: &str,
    outcome: Result<(), ModelStoreError>,
    now: i128,
) -> (r: Result<ClusterEvent, ApiError>)
    ensures
        match outcome {
            Ok(()) => r is Ok && r->Ok_0@ == event_of(
                "model.removed"@,
                fields1(("alias"@, JsonView::Text(alias@))),
            ) && final(repository)@ == logged(
                RepositoryView {
                    models: old(repository)@.models.remove(alias@),
                    ..old(repository)@
                },
                r->Ok_0@,
                now,
            ),
            Err(error) => r is Err && r->Err_0@ == model_store(error) && final(repository)@
                == old(repository)@,
        },
{
    match outcome {
        Ok(()) => Ok(repository.remove_model(alias, now)),
        Err(error) => Err(ApiError::model_store(error)),
    }
}

/// A model that is imported keeps the source that was named for it, or else the name of its file.
pub proof fn law_the_source_is_what_was_named(request: ModelImportRequest)
    ensures
        request.source matches Some(source) ==> import_source(request) == source@,
        request.source is None ==> (request.file_name matches Some(name) ==> import_source(request)
            == name@),
{
}

/// Each model is listed under its own name, with its owner, in the order of the names.
pub proof fn law_models_are_listed_as_they_are(ids: Seq<Seq<char>>, owned_by: Seq<char>, i: int)
    requires
        0 <= i < ids.len(),
    ensures
        model_entries(ids, owned_by).len() == ids.len(),
        field_of(model_entries(ids, owned_by)[i], "id"@) == Some(JsonView::Text(ids[i])),
        field_of(model_entries(ids, owned_by)[i], "owned_by"@) == Some(JsonView::Text(owned_by)),
{
    reveal_strlit("id");
    reveal_strlit("object");
    reveal_strlit("owned_by");
    reveal_strlit("created");
    assert("id"@.len() == 2);
    assert("object"@.len() == 6);
    assert("owned_by"@.len() == 8);
    assert("created"@.len() == 7);
    let a = ("id"@, JsonView::Text(ids[i]));
    let b = ("object"@, JsonView::Text("model"@));
    let c = ("owned_by"@, JsonView::Text(owned_by));
    let d = ("created"@, JsonView::Number(0));
    lemma_fields4(a, b, c, d, "id"@);
    lemma_fields4(a, b, c, d, "owned_by"@);
}

} // verus!
